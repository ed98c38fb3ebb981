//! The errors of the codec and of the request builders.

use vstd::prelude::*;

verus! {

/// Why a decode or a request was refused.
#[derive(Clone, Copy, Debug, PartialEq, Eq, Structural)]
pub enum DcpError {
    /// A length does not agree with the bytes at hand, or text that should be
    /// UTF-8 is not.
    FramingError,
    /// A station name does not follow the naming pattern.
    InvalidPattern,
    /// A hardware address is not six colon-separated hexadecimal octets.
    InvalidAddress,
    /// A value is too long for the sixteen-bit length fields of the wire format.
    ValueTooLong,
}

} // verus!
