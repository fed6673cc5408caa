//! Framing for a stream of DLT messages.
//!
//! A connection delivers bytes in chunks of any size. This crate cuts such a
//! stream into length-delimited frames, hands each frame to the DLT parser, and
//! writes outgoing messages back as bytes. Every function carries a contract
//! that is proved against a model of the buffer as a sequence of bytes.

pub mod buffer;
pub mod codec;
pub mod error;
pub mod frame;
pub mod laws;
pub mod options;
pub mod parser;
pub mod sink;
pub mod stream;

pub use codec::{DltDecoder, DltEncoder};
pub use error::{Error, IoError};
pub use options::DltTcpClientOptions;
pub use sink::MessageSink;
pub use stream::{MessageStream, Pulled};
