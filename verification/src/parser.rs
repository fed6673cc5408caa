//! The DLT parser and serializer, as this crate sees them.
//!
//! Messages are read and written by `dlt_core`. A message is opaque here: the
//! framing layer carries it and never looks inside. What the parser makes of a
//! frame, and the bytes that a message is written as, are functions of their
//! input alone; they are named, not spelled out, and the functions marked
//! `external_body` state without proof that `dlt_core` computes them.

use dlt_core::dlt::{Message, PayloadContent, TypeInfoKind, Value};
use dlt_core::parse::{dlt_message, DltParseError, ParsedMessage};
use vstd::prelude::*;

use crate::frame::{declared_length, HEADER_LEN};

verus! {

#[verifier::external_type_specification]
#[verifier::external_body]
pub struct ExMessage(dlt_core::dlt::Message);

#[verifier::external_type_specification]
#[verifier::external_body]
pub struct ExDltParseError(dlt_core::parse::DltParseError);

/// What the parser makes of the bytes of one frame.
#[derive(Debug, PartialEq)]
pub enum Parsed {
    /// The frame holds this message.
    Item(Message),
    /// The frame is well-formed, but a filter excluded its message; the number
    /// is the length of the payload that was skipped.
    FilteredOut(usize),
    /// The frame's lengths contradict each other; no message can be read.
    Invalid,
    /// The parser gave up with this error.
    Failed(DltParseError),
}

/// The outcome of parsing the bytes `frame` as one message without a storage
/// header and without a filter.
pub uninterp spec fn parse_outcome(frame: Seq<u8>) -> Parsed;

/// The bytes that a message is written as.
pub uninterp spec fn message_bytes(message: Message) -> Seq<u8>;

/// What the standard header of a message says of lengths: which of its
/// optional fields are there, and how long the payload is said to be.
#[derive(Clone, Copy, Debug, PartialEq, Eq, Structural)]
pub struct HeaderShape {
    /// The header carries an ECU id (four bytes).
    pub with_ecu_id: bool,
    /// The header carries a session id (four bytes).
    pub with_session_id: bool,
    /// The header carries a timestamp (four bytes).
    pub with_timestamp: bool,
    /// An extended header follows (ten bytes).
    pub with_extended_header: bool,
    /// The payload length that the header holds.
    pub payload_length: u16,
}

/// The shape of the standard header of a message.
pub uninterp spec fn header_shape(message: Message) -> HeaderShape;

/// The frame length that a header of this shape declares: the four fixed
/// bytes, the optional fields, the extended header and the payload.
pub open spec fn overall_length(shape: HeaderShape) -> int {
    4 + (if shape.with_ecu_id { 4int } else { 0 })
        + (if shape.with_session_id { 4int } else { 0 })
        + (if shape.with_timestamp { 4int } else { 0 })
        + (if shape.with_extended_header { 10int } else { 0 })
        + shape.payload_length
}

/// Whether a header of this shape can be written: its length must fit the 16
/// bits of the length field.
pub fn can_be_written(shape: HeaderShape) -> (fits: bool)
    ensures
        fits == (overall_length(shape) <= u16::MAX),
{
    let mut fixed: u32 = 4;
    if shape.with_ecu_id {
        fixed = fixed + 4;
    }
    if shape.with_session_id {
        fixed = fixed + 4;
    }
    if shape.with_timestamp {
        fixed = fixed + 4;
    }
    if shape.with_extended_header {
        fixed = fixed + 10;
    }
    fixed + shape.payload_length as u32 <= 65535
}

/// Reads the fields `ecu_id`, `session_id`, `timestamp`,
/// `has_extended_header` and `payload_length` of `message.header`. They depend
/// on the message alone.
#[verifier::external_body]
pub(crate) fn read_header_shape(message: &Message) -> (shape: HeaderShape)
    ensures
        shape == header_shape(*message),
{
    HeaderShape {
        with_ecu_id: message.header.ecu_id.is_some(),
        with_session_id: message.header.session_id.is_some(),
        with_timestamp: message.header.timestamp.is_some(),
        with_extended_header: message.header.has_extended_header,
        payload_length: message.header.payload_length,
    }
}

/// The kind of an argument, as its type info names it.
#[derive(Clone, Copy, Debug, PartialEq, Eq, Structural)]
pub enum ArgumentKind {
    Bool,
    Signed,
    SignedFixedPoint,
    Unsigned,
    UnsignedFixedPoint,
    Float,
    StringType,
    Raw,
}

/// What an argument holds of texts: lengths are in bytes.
#[derive(Clone, Copy, Debug, PartialEq, Eq, Structural)]
pub struct ArgumentTexts {
    /// The type info says that a name and a unit come with the value.
    pub with_variable_info: bool,
    /// The length of the name, if there is one.
    pub name: Option<usize>,
    /// The length of the unit, if there is one.
    pub unit: Option<usize>,
    /// The length of the value, if the value is a string.
    pub string: Option<usize>,
    /// Whether the value is raw bytes.
    pub raw: bool,
}

/// The kinds of the arguments of a verbose payload, one for each argument and
/// in their order. Any other payload has no arguments.
pub uninterp spec fn argument_kinds(message: Message) -> Seq<ArgumentKind>;

/// The texts of the arguments of a verbose payload, one entry for each
/// argument and in their order. Any other payload has no arguments.
pub uninterp spec fn argument_texts(message: Message) -> Seq<ArgumentTexts>;

/// A length, if there is one, as a list.
pub open spec fn present(length: Option<usize>) -> Seq<usize> {
    match length {
        Some(length) => seq![length],
        None => Seq::empty(),
    }
}

/// The lengths of the texts of an argument that are written behind their
/// length plus one.
///
/// A bool carries its name. A number carries its name and its unit, with
/// variable info only. A string is written if the value is one, alone where
/// there is neither variable info nor a name, and behind its name where there
/// are both. Raw bytes carry their name where there are variable info, a name
/// and a raw value. Nothing else is written of an argument's texts.
pub open spec fn written_lengths(kind: ArgumentKind, texts: ArgumentTexts) -> Seq<usize> {
    match kind {
        ArgumentKind::Bool => present(texts.name),
        ArgumentKind::StringType => if texts.string is None {
            Seq::empty()
        } else if texts.with_variable_info && texts.name is Some {
            present(texts.name) + present(texts.string)
        } else if !texts.with_variable_info && texts.name is None {
            present(texts.string)
        } else {
            Seq::empty()
        },
        ArgumentKind::Raw => if texts.with_variable_info && texts.raw {
            present(texts.name)
        } else {
            Seq::empty()
        },
        _ => if texts.with_variable_info {
            present(texts.name) + present(texts.unit)
        } else {
            Seq::empty()
        },
    }
}

/// Whether one more than `length` can be counted in 16 bits, in which the
/// length itself is cut down first.
pub open spec fn length_fits(length: usize) -> bool {
    length % 65536 != 65535
}

/// Whether each of these lengths can be counted.
pub open spec fn lengths_fit(lengths: Seq<usize>) -> bool {
    forall|i: int| 0 <= i < lengths.len() ==> length_fits(#[trigger] lengths[i])
}

/// Whether the texts of one argument can be written.
pub open spec fn argument_fits(kind: ArgumentKind, texts: ArgumentTexts) -> bool {
    lengths_fit(written_lengths(kind, texts))
}

/// Whether the texts of all arguments can be written.
pub open spec fn texts_fit(kinds: Seq<ArgumentKind>, texts: Seq<ArgumentTexts>) -> bool {
    forall|i: int|
        0 <= i < kinds.len() && i < texts.len() ==> argument_fits(#[trigger] kinds[i], texts[i])
}

/// Two lists of lengths fit together where each of them fits.
proof fn lemma_joined_lengths_fit(first: Seq<usize>, second: Seq<usize>)
    ensures
        lengths_fit(first + second) == (lengths_fit(first) && lengths_fit(second)),
{
    let both = first + second;
    if lengths_fit(both) {
        assert forall|i: int| 0 <= i < first.len() implies length_fits(#[trigger] first[i]) by {
            assert(first[i] == both[i]);
        }
        assert forall|i: int| 0 <= i < second.len() implies length_fits(#[trigger] second[i]) by {
            assert(second[i] == both[i + first.len()]);
        }
    }
    if lengths_fit(first) && lengths_fit(second) {
        assert forall|i: int| 0 <= i < both.len() implies length_fits(#[trigger] both[i]) by {
            if i < first.len() {
                assert(both[i] == first[i]);
            } else {
                assert(both[i] == second[i - first.len()]);
            }
        }
    }
}

/// Whether a text of `length` bytes, if there is one, can be written.
fn text_can_be_written(length: Option<usize>) -> (fits: bool)
    ensures
        fits == lengths_fit(present(length)),
{
    match length {
        Some(length) => {
            assert(present(Some(length))[0] == length);
            length % 65536 != 65535
        },
        None => true,
    }
}

/// Whether the texts of one argument can be written.
pub fn argument_can_be_written(kind: ArgumentKind, texts: &ArgumentTexts) -> (fits: bool)
    ensures
        fits == argument_fits(kind, *texts),
{
    let name = text_can_be_written(texts.name);
    let unit = text_can_be_written(texts.unit);
    let string = text_can_be_written(texts.string);
    proof {
        lemma_joined_lengths_fit(present(texts.name), present(texts.unit));
        lemma_joined_lengths_fit(present(texts.name), present(texts.string));
    }
    match kind {
        ArgumentKind::Bool => name,
        ArgumentKind::StringType => if texts.string.is_none() {
            true
        } else if texts.with_variable_info && texts.name.is_some() {
            name && string
        } else if !texts.with_variable_info && texts.name.is_none() {
            string
        } else {
            true
        },
        ArgumentKind::Raw => if texts.with_variable_info && texts.raw {
            name
        } else {
            true
        },
        _ => if texts.with_variable_info {
            name && unit
        } else {
            true
        },
    }
}

/// Whether the texts of all arguments can be written.
pub fn texts_can_be_written(kinds: &Vec<ArgumentKind>, texts: &Vec<ArgumentTexts>) -> (fits: bool)
    ensures
        fits == texts_fit(kinds@, texts@),
{
    let mut index: usize = 0;
    while index < kinds.len() && index < texts.len()
        invariant
            forall|i: int| 0 <= i < index ==> argument_fits(#[trigger] kinds[i], texts[i]),
        decreases kinds.len() - index,
    {
        if !argument_can_be_written(kinds[index], &texts[index]) {
            return false;
        }
        index = index + 1;
    }
    true
}

/// Reads `type_info.kind` of each argument of a `PayloadContent::Verbose`,
/// and names it by the variant of the same name. It depends on the message
/// alone.
#[verifier::external_body]
pub(crate) fn read_argument_kinds(message: &Message) -> (kinds: Vec<ArgumentKind>)
    ensures
        kinds@ == argument_kinds(*message),
{
    let PayloadContent::Verbose(arguments) = &message.payload else { return Vec::new() };
    arguments.iter().map(|argument| match argument.type_info.kind {
        TypeInfoKind::Bool => ArgumentKind::Bool,
        TypeInfoKind::Signed(_) => ArgumentKind::Signed,
        TypeInfoKind::SignedFixedPoint(_) => ArgumentKind::SignedFixedPoint,
        TypeInfoKind::Unsigned(_) => ArgumentKind::Unsigned,
        TypeInfoKind::UnsignedFixedPoint(_) => ArgumentKind::UnsignedFixedPoint,
        TypeInfoKind::Float(_) => ArgumentKind::Float,
        TypeInfoKind::StringType => ArgumentKind::StringType,
        TypeInfoKind::Raw => ArgumentKind::Raw,
    }).collect()
}

/// Reads `type_info.has_variable_info`, the lengths of `name` and `unit`, and
/// of `value` what it is (a string with its length, raw bytes, or neither), of
/// each argument of a `PayloadContent::Verbose`. They depend on the message
/// alone.
#[verifier::external_body]
pub(crate) fn read_argument_texts(message: &Message) -> (texts: Vec<ArgumentTexts>)
    ensures
        texts@ == argument_texts(*message),
{
    let PayloadContent::Verbose(arguments) = &message.payload else { return Vec::new() };
    arguments.iter().map(|argument| ArgumentTexts {
        with_variable_info: argument.type_info.has_variable_info,
        name: argument.name.as_ref().map(String::len),
        unit: argument.unit.as_ref().map(String::len),
        string: match &argument.value { Value::StringVal(text) => Some(text.len()), _ => None },
        raw: matches!(argument.value, Value::Raw(_)),
    }).collect()
}

/// `dlt_core::parse::dlt_message`, called with no filter and no storage header.
/// The outcome depends on the bytes alone.
///
/// The parser takes the payload length from the header and, for a payload
/// that is not verbose, subtracts the four bytes of the message id from it
/// after testing only the length of its input. On input longer than the header
/// declares that subtraction can overflow, and the parser panics; so the input
/// is to be exactly as long as it declares. Input shorter than a header is
/// reported as incomplete.
#[verifier::external_body]
pub(crate) fn parse_frame(frame: &[u8]) -> (parsed: Parsed)
    requires
        frame@.len() < HEADER_LEN || declared_length(frame@) == frame@.len(),
    ensures
        parsed == parse_outcome(frame@),
{
    match dlt_message(frame, None, false) {
        Ok((_, ParsedMessage::Item(message))) => Parsed::Item(message),
        Ok((_, ParsedMessage::FilteredOut(skipped))) => Parsed::FilteredOut(skipped),
        Ok((_, ParsedMessage::Invalid)) => Parsed::Invalid,
        Err(error) => Parsed::Failed(error),
    }
}

/// `dlt_core::dlt::Message::as_bytes`: the bytes of a message, which depend on
/// the message alone.
///
/// The serializer adds the lengths of the header up in 16 bits
/// (`StandardHeader::overall_length`). Of each text that it writes for a
/// verbose argument (`Argument::as_bytes`) it cuts the length down to 16 bits
/// and adds one. It panics where such a sum overflows, so both are ruled out
/// here.
#[verifier::external_body]
pub(crate) fn serialize(message: &Message) -> (bytes: Vec<u8>)
    requires
        overall_length(header_shape(*message)) <= u16::MAX,
        texts_fit(argument_kinds(*message), argument_texts(*message)),
    ensures
        bytes@ == message_bytes(*message),
{
    message.as_bytes()
}

} // verus!
