//! The Requester engine: client side of the protocol. It composes
//! requests, validates responses against the negotiated parameters, drives
//! the multi-message flows and keeps the transcripts; the host supplies
//! the transport and the cryptographic provider.

mod get_certificate_req;
mod get_measurements_req;

use vstd::prelude::*;

use crate::common::{SpdmConfigInfo, SpdmContext, SpdmProvisionInfo};
use crate::crypto::SpdmCryptoProvider;
use crate::device::SpdmDeviceIo;

pub use get_measurements_req::{
    spec_gm_request_msg, spec_l1l2_base, spec_measurement_transcript_extension,
    spec_parse_measurements_error, spec_parse_measurements_response,
    lemma_transcript_extension_excludes_signature,
};
pub use get_certificate_req::spec_get_certificate_request_msg;

verus! {

/// One Requester connection: the shared context plus the host's transport
/// and cryptographic provider.
pub struct RequesterContext<D: SpdmDeviceIo, C: SpdmCryptoProvider> {
    pub common: SpdmContext,
    pub device_io: D,
    pub crypto: C,
}

impl<D: SpdmDeviceIo, C: SpdmCryptoProvider> RequesterContext<D, C> {
    /// A fresh Requester over the given transport and provider.
    pub fn new(
        device_io: D,
        crypto: C,
        config_info: SpdmConfigInfo,
        provision_info: SpdmProvisionInfo,
    ) -> (r: RequesterContext<D, C>)
        requires
            provision_info.peer_cert_chain_data matches Some(c) ==> c.wf(),
        ensures
            r.common.wf(),
            r.common.config_info == config_info,
            r.common.provision_info == provision_info,
            r.common.runtime_info.need_measurement_signature == false,
            r.common.runtime_info.message_a@ == Seq::<u8>::empty(),
            r.common.runtime_info.message_b@ == Seq::<u8>::empty(),
            r.common.runtime_info.message_c@ == Seq::<u8>::empty(),
            r.common.runtime_info.message_m@ == Seq::<u8>::empty(),
            r.common.sessions@.len() == 0,
            forall|i: int|
                0 <= i < crate::config::SPDM_MAX_SLOT_NUMBER
                    ==> r.common.peer_info.peer_cert_chain@[i] is None,
    {
        RequesterContext { common: SpdmContext::new(config_info, provision_info), device_io, crypto }
    }
}

} // verus!
