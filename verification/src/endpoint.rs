//! Transport endpoints: where a request came from and where a notification
//! goes.

use vstd::prelude::*;

verus! {

/// A remote host and port. Two endpoints are the same subscriber exactly
/// when every field agrees.
#[derive(Clone, Copy, Debug, PartialEq, Eq, Structural)]
pub enum Endpoint {
    /// The four octets of an IPv4 address, the first in the highest byte,
    /// and a port.
    V4 { octets: u32, port: u16 },
    /// The eight segments of an IPv6 address, the first in the highest
    /// bytes, with port, flow information and scope.
    V6 { segments: u128, port: u16, flow_info: u32, scope_id: u32 },
}

} // verus!
