//! Build-time capacities. The protocol engine works over fixed-capacity
//! buffers and surfaces `BufferFull` instead of growing them.

use vstd::prelude::*;

verus! {

/// Number of certificate slots a peer may expose.
pub const SPDM_MAX_SLOT_NUMBER: usize = 8;

/// Size in bytes of the nonce carried by signed requests and responses.
pub const SPDM_NONCE_SIZE: usize = 32;

/// Largest hash the negotiated base hash algorithm may select (SHA-512).
pub const SPDM_MAX_HASH_SIZE: usize = 64;

/// Largest signature the negotiated base asymmetric algorithm may select
/// (RSASSA-4096).
pub const SPDM_MAX_ASYM_KEY_SIZE: usize = 512;

/// Capacity of the measurement record carried by one MEASUREMENTS response.
pub const MAX_SPDM_MEASUREMENT_VALUE_LEN: usize = 512;

/// Capacity of the opaque data field of a MEASUREMENTS response.
pub const MAX_SPDM_OPAQUE_SIZE: usize = 1024;

/// Upper bound on one portion of a certificate chain transfer.
pub const MAX_SPDM_CERT_PORTION_LEN: usize = 512;

/// Upper bound on a whole certificate chain, header included.
pub const MAX_SPDM_CERT_CHAIN_DATA_SIZE: usize = 4096;

/// Capacity of the buffer a whole SPDM message is encoded into.
pub const MAX_SPDM_MSG_SIZE: usize = 4608;

/// Capacity of each transcript buffer (message_a, message_b, message_m).
pub const MAX_SPDM_MESSAGE_BUFFER_SIZE: usize = 12288;

/// Largest key HKDF expansion may produce.
pub const SPDM_MAX_HKDF_OKM_SIZE: usize = 64;

/// Number of concurrently tracked sessions.
pub const MAX_SPDM_SESSION_COUNT: usize = 4;

} // verus!
