//! The GET_CERTIFICATE flow: fetch a peer certificate chain in portions,
//! assemble it in the slot's buffer, log the exchange into message_b, and
//! — when a pinned chain was provisioned — verify what arrived against it.

use vstd::prelude::*;

use crate::certificate::{
    spec_get_cert_request_bytes, SpdmCertificateResponsePayload, SpdmGetCertificateRequestPayload,
};
use crate::codec::{copy_bytes, copy_range, range_eq, Reader, Writer};
use crate::common::SpdmContext;
use crate::config::{
    MAX_SPDM_CERT_CHAIN_DATA_SIZE, MAX_SPDM_CERT_PORTION_LEN, MAX_SPDM_MSG_SIZE,
    SPDM_MAX_SLOT_NUMBER,
};
use crate::crypto::SpdmCryptoProvider;
use crate::device::SpdmDeviceIo;
use crate::error::SpdmStatus;
use crate::protocol::{
    new_zero_vec, spec_header_bytes, SpdmCertChainData, SpdmMessageHeader,
    SpdmRequestResponseCode, SpdmVersion,
};
use crate::requester::RequesterContext;

verus! {

/// The full wire image of one GET_CERTIFICATE request message.
pub open spec fn spec_get_certificate_request_msg(slot_id: u8, offset: u16, length: u16) -> Seq<
    u8,
> {
    spec_header_bytes(
        SpdmMessageHeader {
            version: SpdmVersion::SpdmVersion11,
            request_response_code: SpdmRequestResponseCode::SpdmRequestGetCertificate,
        },
    ) + spec_get_cert_request_bytes(SpdmGetCertificateRequestPayload { slot_id, offset, length })
}

/// Everything a certificate exchange leaves alone: all state but
/// message_b and the one slot's chain.
pub open spec fn spec_cert_flow_frame(
    a: &SpdmContext,
    b: &SpdmContext,
    slot_id: u8,
) -> bool {
    &&& b.config_info == a.config_info
    &&& b.provision_info == a.provision_info
    &&& b.negotiate_info == a.negotiate_info
    &&& b.sessions == a.sessions
    &&& b.runtime_info.need_measurement_signature == a.runtime_info.need_measurement_signature
    &&& b.runtime_info.content_changed == a.runtime_info.content_changed
    &&& b.runtime_info.message_a == a.runtime_info.message_a
    &&& b.runtime_info.message_c == a.runtime_info.message_c
    &&& b.runtime_info.message_m == a.runtime_info.message_m
    &&& b.runtime_info.message_b.spec_cap() == a.runtime_info.message_b.spec_cap()
    &&& b.peer_info.peer_cert_chain@.len() == a.peer_info.peer_cert_chain@.len()
    &&& forall|i: int|
        0 <= i < a.peer_info.peer_cert_chain@.len() && i != slot_id as int
            ==> b.peer_info.peer_cert_chain@[i] == a.peer_info.peer_cert_chain@[i]
}

impl<D: SpdmDeviceIo, C: SpdmCryptoProvider> RequesterContext<D, C> {
    /// One round of the transfer: ask for the window `[offset,
    /// offset+length)` of the slot's chain, place the returned portion,
    /// and log both messages into message_b.
    fn send_receive_spdm_certificate_partial(
        &mut self,
        slot_id: u8,
        offset: u16,
        length: u16,
    ) -> (r: Result<(u16, u16), SpdmStatus>)
        requires
            old(self).common.wf(),
            (slot_id as int) < SPDM_MAX_SLOT_NUMBER,
        ensures
            final(self).common.wf(),
            spec_cert_flow_frame(&old(self).common, &final(self).common, slot_id),
            old(self).common.runtime_info.message_b@.is_prefix_of(
                final(self).common.runtime_info.message_b@,
            ),
            r matches Ok((portion, remainder)) ==> {
                let old_b = old(self).common.runtime_info.message_b@;
                let new_b = final(self).common.runtime_info.message_b@;
                let chain = final(self).common.peer_info.peer_cert_chain@[slot_id as int];
                &&& portion <= MAX_SPDM_CERT_PORTION_LEN
                &&& offset + portion <= MAX_SPDM_CERT_CHAIN_DATA_SIZE
                &&& chain matches Some(c) && c.wf() && c.data_size == offset + portion
                &&& new_b.len() == old_b.len() + 16 + portion
                &&& new_b.subrange(old_b.len() as int, old_b.len() as int + 8)
                    == spec_get_certificate_request_msg(slot_id, offset, length)
                &&& chain->0.data@.subrange(offset as int, offset as int + portion as int)
                    == new_b.subrange(
                    old_b.len() as int + 16,
                    old_b.len() as int + 16 + portion as int,
                )
                &&& forall|i: int|
                    #![trigger chain->0.data@[i]]
                    0 <= i < MAX_SPDM_CERT_CHAIN_DATA_SIZE && !(offset <= i < offset + portion)
                        ==> chain->0.data@[i] == (match old(
                        self,
                    ).common.peer_info.peer_cert_chain@[slot_id as int] {
                        Option::Some(oc) => oc.data@[i],
                        Option::None => 0u8,
                    })
            },
    {
        let mut writer = Writer::init(new_zero_vec(MAX_SPDM_MSG_SIZE));
        let header = SpdmMessageHeader {
            version: SpdmVersion::SpdmVersion11,
            request_response_code: SpdmRequestResponseCode::SpdmRequestGetCertificate,
        };
        match header.encode(&mut writer) {
            Ok(_) => {},
            Err(_) => {
                return Err(SpdmStatus::BufferFull);
            },
        }
        let request = SpdmGetCertificateRequestPayload { slot_id, offset, length };
        match request.spdm_encode(&mut self.common, &mut writer) {
            Ok(_) => {},
            Err(_) => {
                return Err(SpdmStatus::BufferFull);
            },
        }
        let send_buffer = writer.into_written();
        assert(send_buffer@ =~= spec_get_certificate_request_msg(slot_id, offset, length));

        match self.device_io.send(None, send_buffer.as_slice()) {
            Ok(_) => {},
            Err(e) => {
                return Err(e);
            },
        }
        if self.common.runtime_info.message_b.append_message(send_buffer.as_slice()).is_none() {
            return Err(SpdmStatus::BufferFull);
        }

        let receive_buffer = match self.device_io.receive(None) {
            Ok(v) => v,
            Err(e) => {
                return Err(e);
            },
        };
        let mut reader = Reader::init(copy_bytes(receive_buffer.as_slice()));
        let message_header = match SpdmMessageHeader::read(&mut reader) {
            Some(h) => h,
            None => {
                return Err(SpdmStatus::Io);
            },
        };
        match message_header.request_response_code {
            SpdmRequestResponseCode::SpdmResponseCertificate => {
                let certificate = match SpdmCertificateResponsePayload::spdm_read(
                    &mut self.common,
                    &mut reader,
                ) {
                    Some(c) => c,
                    None => {
                        return Err(SpdmStatus::InvalidMsgField);
                    },
                };
                let used = reader.used();
                let portion = certificate.portion_length as usize;
                if offset as usize + portion > MAX_SPDM_CERT_CHAIN_DATA_SIZE {
                    return Err(SpdmStatus::BufferFull);
                }

                let mut data = match &self.common.peer_info.peer_cert_chain[slot_id as usize] {
                    Some(c) => copy_bytes(c.data.as_slice()),
                    None => new_zero_vec(MAX_SPDM_CERT_CHAIN_DATA_SIZE),
                };
                let mut j: usize = 0;
                while j < portion
                    invariant
                        j <= portion,
                        offset as int + portion <= MAX_SPDM_CERT_CHAIN_DATA_SIZE,
                        data@.len() == MAX_SPDM_CERT_CHAIN_DATA_SIZE,
                        portion <= certificate.cert_chain@.len(),
                        forall|i: int|
                            #![trigger data@[i]]
                            0 <= i < MAX_SPDM_CERT_CHAIN_DATA_SIZE && !(offset <= i < offset + j)
                                ==> data@[i] == (match old(
                                self,
                            ).common.peer_info.peer_cert_chain@[slot_id as int] {
                                Option::Some(oc) => oc.data@[i],
                                Option::None => 0u8,
                            }),
                        forall|i: int|
                            #![trigger data@[offset + i]]
                            0 <= i < j ==> data@[offset + i] == certificate.cert_chain@[i],
                    decreases portion - j,
                {
                    data[offset as usize + j] = certificate.cert_chain[j];
                    j = j + 1;
                }
                let new_chain = SpdmCertChainData {
                    data_size: offset + certificate.portion_length,
                    data,
                };
                self.common.peer_info.peer_cert_chain[slot_id as usize] = Some(new_chain);

                if self.common.runtime_info.message_b.append_message(
                    &receive_buffer[0..used],
                ).is_none() {
                    return Err(SpdmStatus::BufferFull);
                }
                proof {
                    let old_b = old(self).common.runtime_info.message_b@;
                    let new_b = self.common.runtime_info.message_b@;
                    assert(new_b.subrange(old_b.len() as int, old_b.len() as int + 8)
                        =~= send_buffer@);
                    let p = certificate.portion_length as int;
                    let resp = receive_buffer@.take(used as int);
                    assert forall|i: int| 0 <= i < p implies new_b.subrange(
                        old_b.len() as int + 16,
                        old_b.len() as int + 16 + p,
                    )[i] == certificate.cert_chain@[i] by {
                        assert(new_b[old_b.len() as int + 16 + i] == resp[8 + i]);
                        assert(resp[8 + i] == receive_buffer@[8 + i]);
                        assert(certificate.cert_chain@[i] == receive_buffer@.skip(2).subrange(
                            6,
                            6 + p,
                        )[i]);
                    }
                    let chain = self.common.peer_info.peer_cert_chain@[slot_id as int]->0;
                    assert forall|i: int| 0 <= i < p implies #[trigger] chain.data@.subrange(
                        offset as int,
                        offset as int + p,
                    )[i] == new_b.subrange(old_b.len() as int + 16, old_b.len() as int + 16 + p)[i]
                        by {
                        assert(chain.data@[offset + i] == certificate.cert_chain@[i]);
                        assert(new_b.subrange(old_b.len() as int + 16, old_b.len() as int + 16
                            + p)[i] == certificate.cert_chain@[i]);
                    }
                    assert(chain.data@.subrange(offset as int, offset as int + p) =~= new_b
                        .subrange(old_b.len() as int + 16, old_b.len() as int + 16 + p));
                }
                Ok((certificate.portion_length, certificate.remainder_length))
            },
            _ => Err(SpdmStatus::ErrorPeer),
        }
    }

    /// Fetches the whole chain of `slot_id`, portion by portion, and —
    /// when a pinned peer chain was provisioned — verifies the result: the
    /// chain header's root hash must match the hash of the root
    /// certificate, the stripped chain must equal the pinned one byte for
    /// byte, and the provider must accept the chain end to end.
    pub fn send_receive_spdm_certificate(&mut self, slot_id: u8) -> (r: Result<(), SpdmStatus>)
        requires
            old(self).common.wf(),
        ensures
            final(self).common.wf(),
            (slot_id as int) >= SPDM_MAX_SLOT_NUMBER ==> r == Err::<(), SpdmStatus>(
                SpdmStatus::InvalidStateLocal,
            ) && *final(self) == *old(self),
            spec_cert_flow_frame(&old(self).common, &final(self).common, slot_id),
            old(self).common.runtime_info.message_b@.is_prefix_of(
                final(self).common.runtime_info.message_b@,
            ),
            r is Ok ==> {
                let chain = final(self).common.peer_info.peer_cert_chain@[slot_id as int];
                let hash = old(self).common.negotiate_info.base_hash_sel.spec_size() as int;
                &&& (chain matches Some(c) ==> c.data_size <= MAX_SPDM_CERT_CHAIN_DATA_SIZE)
                &&& old(self).common.provision_info.peer_cert_chain_data matches Some(pinned)
                    ==> chain matches Some(c) && c.data_size > 4 + hash && c.data@.subrange(
                    4 + hash,
                    c.data_size as int,
                ) == pinned.spec_content()
            },
    {
        if slot_id as usize >= SPDM_MAX_SLOT_NUMBER {
            return Err(SpdmStatus::InvalidStateLocal);
        }
        let mut offset: u16 = 0;
        let mut length: u16 = MAX_SPDM_CERT_PORTION_LEN as u16;
        while length != 0
            invariant_except_break
                self.common.wf(),
                (slot_id as int) < SPDM_MAX_SLOT_NUMBER,
                spec_cert_flow_frame(&old(self).common, &self.common, slot_id),
                old(self).common.runtime_info.message_b@.is_prefix_of(
                    self.common.runtime_info.message_b@,
                ),
                offset as int <= MAX_SPDM_CERT_CHAIN_DATA_SIZE,
                offset != 0 ==> (self.common.peer_info.peer_cert_chain@[slot_id as int] matches Some(
                    c,
                ) && c.data_size == offset),
            ensures
                self.common.wf(),
                (slot_id as int) < SPDM_MAX_SLOT_NUMBER,
                spec_cert_flow_frame(&old(self).common, &self.common, slot_id),
                old(self).common.runtime_info.message_b@.is_prefix_of(
                    self.common.runtime_info.message_b@,
                ),
                offset as int <= MAX_SPDM_CERT_CHAIN_DATA_SIZE,
                offset != 0 ==> (self.common.peer_info.peer_cert_chain@[slot_id as int] matches Some(
                    c,
                ) && c.data_size == offset),
            decreases MAX_SPDM_CERT_CHAIN_DATA_SIZE - offset as int,
        {
            let result = self.send_receive_spdm_certificate_partial(slot_id, offset, length);
            match result {
                Ok((portion_length, remainder_length)) => {
                    offset = offset + portion_length;
                    length = if remainder_length > MAX_SPDM_CERT_PORTION_LEN as u16 {
                        MAX_SPDM_CERT_PORTION_LEN as u16
                    } else {
                        remainder_length
                    };
                    if portion_length == 0 {
                        if remainder_length != 0 {
                            // A portion of zero bytes with more still owed
                            // would loop forever.
                            return Err(SpdmStatus::InvalidMsgField);
                        }
                        break;
                    }
                },
                Err(e) => {
                    return Err(e);
                },
            }
        }

        let pinned_present = self.common.provision_info.peer_cert_chain_data.is_some();
        if !pinned_present {
            return Ok(());
        }

        let hash_size = self.common.negotiate_info.base_hash_sel.get_size() as usize;
        let stripped: Vec<u8> = match &self.common.peer_info.peer_cert_chain[slot_id as usize] {
            Some(c) => {
                if c.data_size as usize <= 4 + hash_size {
                    return Err(SpdmStatus::InvalidMsgField);
                }
                copy_range(c.data.as_slice(), 4 + hash_size, c.data_size as usize)
            },
            None => {
                return Err(SpdmStatus::InvalidMsgField);
            },
        };

        // The chain header's root hash must be the hash of the root
        // certificate the chain itself carries.
        let (root_begin, root_end) = match self.crypto.get_cert_from_cert_chain(
            stripped.as_slice(),
            0,
        ) {
            Ok(v) => v,
            Err(e) => {
                return Err(e);
            },
        };
        if !(root_begin <= root_end && root_end <= stripped.len()) {
            return Err(SpdmStatus::InvalidParameter);
        }
        let root_cert = &stripped[root_begin..root_end];
        let root_hash = match self.crypto.hash_all(
            self.common.negotiate_info.base_hash_sel,
            root_cert,
        ) {
            Some(d) => d,
            None => {
                return Err(SpdmStatus::CryptoError);
            },
        };
        if root_hash.data.len() < hash_size {
            return Err(SpdmStatus::CryptoError);
        }
        let header_hash_ok = match &self.common.peer_info.peer_cert_chain[slot_id as usize] {
            Some(c) => range_eq(root_hash.data.as_slice(), 0, c.data.as_slice(), 4, hash_size),
            None => false,
        };
        if !header_hash_ok {
            return Err(SpdmStatus::VerifFail);
        }

        // The stripped chain must equal the pinned one byte for byte.
        let pinned_ok = match &self.common.provision_info.peer_cert_chain_data {
            Some(pinned) => {
                if stripped.len() != pinned.data_size as usize {
                    false
                } else {
                    range_eq(stripped.as_slice(), 0, pinned.data.as_slice(), 0, stripped.len())
                }
            },
            None => false,
        };
        if !pinned_ok {
            return Err(SpdmStatus::VerifFail);
        }
        proof {
            let c = self.common.peer_info.peer_cert_chain@[slot_id as int]->0;
            let pinned = self.common.provision_info.peer_cert_chain_data->0;
            assert(stripped@ =~= c.data@.subrange(4 + hash_size as int, c.data_size as int));
            assert(stripped@ =~= pinned.spec_content());
        }

        match self.crypto.verify_cert_chain(stripped.as_slice()) {
            Ok(_) => Ok(()),
            Err(_) => Err(SpdmStatus::VerifFail),
        }
    }
}

} // verus!
