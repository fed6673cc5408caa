//! Where to connect.

use vstd::prelude::*;

verus! {

/// The endpoint of a DLT daemon: a host and a TCP port.
pub struct DltTcpClientOptions {
    /// Host name or address, as text.
    pub host: String,
    /// TCP port.
    pub port: u16,
}

} // verus!
