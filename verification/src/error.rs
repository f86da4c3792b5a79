//! Status codes surfaced by the protocol engine. Propagation is explicit
//! and value-based; verified functions never unwind.

use vstd::prelude::*;

verus! {

/// Why an operation could not complete.
#[derive(Debug, Clone, Copy, PartialEq, Eq, Structural)]
pub enum SpdmStatus {
    /// A fixed-capacity buffer had too little room left.
    BufferFull,
    /// A received message failed to decode or carried an unexpected field.
    InvalidMsgField,
    /// A caller-supplied value was rejected (unknown session, missing
    /// certificate chain, malformed chain header).
    InvalidParameter,
    /// Local state refuses the operation (slot out of range).
    InvalidStateLocal,
    /// The cryptographic provider could not perform an operation.
    CryptoError,
    /// A signature or certificate chain failed verification.
    VerifFail,
    /// The peer answered with an SPDM ERROR response or an unexpected code.
    ErrorPeer,
    /// The device transport failed.
    Io,
    /// The operation is not supported in the negotiated configuration.
    Unsupported,
}

} // verus!
