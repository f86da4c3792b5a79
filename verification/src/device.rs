//! The device transport interface. The engine yields to the I/O substrate
//! only through these two calls; framing and encryption live behind them,
//! so nothing is promised of what comes back — the flows check every
//! received byte themselves.

use vstd::prelude::*;

use crate::error::SpdmStatus;

verus! {

/// One full-duplex SPDM transport, implemented by the host.
pub trait SpdmDeviceIo {
    /// Sends one SPDM message, secured under the session when one is
    /// given.
    fn send(&mut self, session_id: Option<u32>, buffer: &[u8]) -> (r: Result<(), SpdmStatus>);

    /// Receives one SPDM message, secured under the session when one is
    /// given.
    fn receive(&mut self, session_id: Option<u32>) -> (r: Result<Vec<u8>, SpdmStatus>);
}

} // verus!
