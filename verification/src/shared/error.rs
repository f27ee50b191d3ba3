//! The errors that the library's own rules raise.
use crate::shared::ip_address::SocketAddress;
use vstd::prelude::*;

verus! {

/// Why a value was refused.
#[derive(Debug)]
pub enum Error {
    /// A command-line argument holds a value that cannot be used.
    ArgumentError { parameter: String, offending_value: String, message: String },
    /// A number is outside the range of autonomous system numbers.
    InvalidAsNumberError { as_number: i64 },
    /// A text is not the textual form of an IP address.
    ParseIpAddressError,
    /// An IP address is well formed but not acceptable where it was given.
    InvalidIpAddressError { ip_address: String },
    /// A server cannot be bound to the given socket address.
    InvalidBindAddressError { bind_addr: SocketAddress },
}

} // verus!
