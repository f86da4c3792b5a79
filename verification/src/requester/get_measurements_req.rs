//! The GET_MEASUREMENTS flow: send a signed or unsigned measurement
//! request, decode the response, keep the measurement transcript
//! (message_m) — without the trailing signature bytes — and verify the
//! signature over the L1/L2 transcript when one was requested. A failed
//! verification resets message_m so the next attempt starts clean.

use vstd::prelude::*;

use crate::codec::{copy_bytes, Reader, Writer};
use crate::common::{ManagedBuffer, SpdmContext};
use crate::config::{
    MAX_SPDM_MESSAGE_BUFFER_SIZE, MAX_SPDM_MSG_SIZE, SPDM_MAX_HASH_SIZE, SPDM_MAX_SLOT_NUMBER,
    SPDM_NONCE_SIZE,
};
use crate::crypto::SpdmCryptoProvider;
use crate::device::SpdmDeviceIo;
use crate::error::SpdmStatus;
use crate::measurement::{
    spec_gm_request_bytes, spec_measurements_response_len, spec_read_measurements_response,
    GetMeasurementsRequestView, MeasurementsResponseView, SpdmGetMeasurementsRequestPayload,
    SpdmMeasurementAttributes, SpdmMeasurementOperation, SpdmMeasurementsResponsePayload,
};
use crate::protocol::{
    new_zero_vec, spdm_measurements_sign_context, spdm_version_1_2_signing_context_zeropad_6,
    spdm_version_1_2_signing_prefix_context, spec_header_bytes, spec_read_header,
    SpdmMeasurementRecordStructure, SpdmMessageHeader, SpdmNonceStruct, SpdmRequestResponseCode,
    SpdmSignatureStruct, SpdmVersion,
};
use crate::requester::RequesterContext;

verus! {

/// The full wire image of one GET_MEASUREMENTS request message carrying
/// the given nonce.
pub open spec fn spec_gm_request_msg(
    version: SpdmVersion,
    attributes: SpdmMeasurementAttributes,
    operation: SpdmMeasurementOperation,
    nonce: Seq<u8>,
    slot_id: u8,
) -> Seq<u8> {
    spec_header_bytes(
        SpdmMessageHeader {
            version,
            request_response_code: SpdmRequestResponseCode::SpdmRequestGetMeasurements,
        },
    ) + spec_gm_request_bytes(
        GetMeasurementsRequestView {
            measurement_attributes: attributes,
            measurement_operation: operation,
            nonce,
            slot_id,
        },
    )
}

/// What a received measurement response parses to under this context: the
/// header must carry the negotiated version and the MEASUREMENTS code, and
/// the payload must decode under the runtime signature flag.
pub open spec fn spec_parse_measurements_response(
    ctx: &SpdmContext,
    need_sig: bool,
    receive: Seq<u8>,
) -> Option<MeasurementsResponseView> {
    match spec_read_header(receive) {
        Option::None => Option::None,
        Option::Some(h) => {
            if h.version != ctx.negotiate_info.spdm_version_sel {
                Option::None
            } else if h.request_response_code
                != SpdmRequestResponseCode::SpdmResponseMeasurements {
                Option::None
            } else {
                spec_read_measurements_response(
                    receive.skip(2),
                    need_sig,
                    ctx.negotiate_info.base_asym_sel.spec_size(),
                )
            }
        },
    }
}

/// The status a response that fails to parse is rejected with: a missing
/// or mismatched header and an undecodable payload are structural faults;
/// any other response code — the peer's ERROR included — surfaces as
/// `ErrorPeer`.
pub open spec fn spec_parse_measurements_error(ctx: &SpdmContext, receive: Seq<u8>) -> SpdmStatus {
    match spec_read_header(receive) {
        Option::None => SpdmStatus::InvalidMsgField,
        Option::Some(h) => {
            if h.version != ctx.negotiate_info.spdm_version_sel {
                SpdmStatus::InvalidMsgField
            } else if h.request_response_code
                == SpdmRequestResponseCode::SpdmResponseMeasurements {
                SpdmStatus::InvalidMsgField
            } else {
                SpdmStatus::ErrorPeer
            }
        },
    }
}

/// What one measurement exchange appends to message_m: the request as
/// sent, then the consumed response bytes — without the trailing
/// signature bytes when a signature was requested.
pub open spec fn spec_measurement_transcript_extension(
    send: Seq<u8>,
    consumed: Seq<u8>,
    need_sig: bool,
    asym_size: u16,
) -> Seq<u8> {
    send + (if need_sig {
        consumed.take(consumed.len() - asym_size as int)
    } else {
        consumed
    })
}

/// The transcript appended for signature verification never includes the
/// trailing signature bytes: it is exactly the exchange with its last
/// `asym_size` bytes cut off.
pub proof fn lemma_transcript_extension_excludes_signature(
    send: Seq<u8>,
    consumed: Seq<u8>,
    asym_size: u16,
)
    requires
        asym_size <= consumed.len(),
    ensures
        spec_measurement_transcript_extension(send, consumed, true, asym_size) == (send
            + consumed).take(send.len() + consumed.len() - asym_size as int),
{
    assert(spec_measurement_transcript_extension(send, consumed, true, asym_size) =~= (send
        + consumed).take(send.len() + consumed.len() - asym_size as int));
}

/// The L1/L2 transcript a measurement signature covers: from SPDM 1.2 on
/// it starts with message_a, and the measurement transcript follows.
pub open spec fn spec_l1l2_base(version: SpdmVersion, message_a: Seq<u8>, message_m: Seq<u8>) -> Seq<
    u8,
> {
    if version.spec_u8() >= 0x12 {
        message_a + message_m
    } else {
        message_m
    }
}

impl<D: SpdmDeviceIo, C: SpdmCryptoProvider> RequesterContext<D, C> {
    /// Encodes one GET_MEASUREMENTS request under the negotiated version,
    /// with a fresh random nonce from the provider.
    pub fn encode_spdm_measurement_record(
        &mut self,
        measurement_attributes: SpdmMeasurementAttributes,
        measurement_operation: SpdmMeasurementOperation,
        slot_id: u8,
    ) -> (r: Result<Vec<u8>, SpdmStatus>)
        requires
            old(self).common.wf(),
            measurement_attributes.wf(),
            measurement_operation.wf(),
        ensures
            final(self).common == old(self).common,
            final(self).device_io == old(self).device_io,
            r matches Ok(buf) ==> {
                &&& buf@.len() == (if measurement_attributes.spec_signature_requested() {
                    5 + SPDM_NONCE_SIZE as int
                } else {
                    4int
                })
                &&& exists|nonce: Seq<u8>|
                    nonce.len() == SPDM_NONCE_SIZE && buf@ == #[trigger] spec_gm_request_msg(
                        old(self).common.negotiate_info.spdm_version_sel,
                        measurement_attributes,
                        measurement_operation,
                        nonce,
                        slot_id,
                    )
            },
    {
        let nonce_bytes = match self.crypto.get_random(SPDM_NONCE_SIZE) {
            Ok(v) => v,
            Err(e) => {
                return Err(e);
            },
        };
        if nonce_bytes.len() != SPDM_NONCE_SIZE {
            return Err(SpdmStatus::CryptoError);
        }
        let ghost nonce_ghost = nonce_bytes@;
        let mut writer = Writer::init(new_zero_vec(MAX_SPDM_MSG_SIZE));
        let header = SpdmMessageHeader {
            version: self.common.negotiate_info.spdm_version_sel,
            request_response_code: SpdmRequestResponseCode::SpdmRequestGetMeasurements,
        };
        match header.encode(&mut writer) {
            Ok(_) => {},
            Err(_) => {
                return Err(SpdmStatus::BufferFull);
            },
        }
        let request = SpdmGetMeasurementsRequestPayload {
            measurement_attributes,
            measurement_operation,
            nonce: SpdmNonceStruct::new(nonce_bytes),
            slot_id,
        };
        match request.spdm_encode(&mut self.common, &mut writer) {
            Ok(_) => {},
            Err(_) => {
                return Err(SpdmStatus::BufferFull);
            },
        }
        let buf = writer.into_written();
        proof {
            assert(buf@ =~= spec_gm_request_msg(
                old(self).common.negotiate_info.spdm_version_sel,
                measurement_attributes,
                measurement_operation,
                nonce_ghost,
                slot_id,
            ));
        }
        Ok(buf)
    }

    /// Handles a received measurement response: records whether a
    /// signature is owed, decodes the response under the negotiated
    /// version, extends message_m with the exchange (minus the trailing
    /// signature bytes), verifies the signature when one was requested —
    /// resetting message_m afterwards either way — and hands the record
    /// out.
    #[verifier::rlimit(100)]
    pub fn handle_spdm_measurement_record_response(
        &mut self,
        session_id: Option<u32>,
        slot_id: u8,
        measurement_attributes: SpdmMeasurementAttributes,
        measurement_operation: SpdmMeasurementOperation,
        spdm_measurement_record_structure: &mut SpdmMeasurementRecordStructure,
        send_buffer: &[u8],
        receive_buffer: &[u8],
    ) -> (r: Result<u8, SpdmStatus>)
        requires
            old(self).common.wf(),
            (slot_id as int) < SPDM_MAX_SLOT_NUMBER,
        ensures
            final(self).common.wf(),
            final(self).common.runtime_info.need_measurement_signature
                == measurement_attributes.spec_signature_requested(),
            final(self).common.config_info == old(self).common.config_info,
            final(self).common.provision_info == old(self).common.provision_info,
            final(self).common.negotiate_info == old(self).common.negotiate_info,
            final(self).common.peer_info == old(self).common.peer_info,
            final(self).common.runtime_info.message_a == old(self).common.runtime_info.message_a,
            final(self).common.runtime_info.message_b == old(self).common.runtime_info.message_b,
            final(self).common.runtime_info.message_c == old(self).common.runtime_info.message_c,
            ({
                let ns = measurement_attributes.spec_signature_requested();
                let asym = old(self).common.negotiate_info.base_asym_sel.spec_size();
                let parsed = spec_parse_measurements_response(
                    &old(self).common,
                    ns,
                    receive_buffer@,
                );
                &&& parsed is None ==> r == Err::<u8, SpdmStatus>(
                    spec_parse_measurements_error(&old(self).common, receive_buffer@),
                ) && final(self).common.runtime_info.message_m == old(
                    self,
                ).common.runtime_info.message_m && final(self).common.sessions == old(
                    self,
                ).common.sessions && final(self).common.runtime_info.content_changed == old(
                    self,
                ).common.runtime_info.content_changed && *final(spdm_measurement_record_structure)
                    == *old(spdm_measurement_record_structure)
                &&& parsed matches Some(m) ==> {
                    let consumed = receive_buffer@.take(
                        2 + spec_measurements_response_len(m, ns, asym),
                    );
                    let ext = spec_measurement_transcript_extension(
                        send_buffer@,
                        consumed,
                        ns,
                        asym,
                    );
                    &&& final(self).common.runtime_info.content_changed == (if old(
                        self,
                    ).common.negotiate_info.spdm_version_sel.spec_u8() >= 0x12 {
                        m.content_changed
                    } else {
                        old(self).common.runtime_info.content_changed
                    })
                    &&& !old(self).common.spec_message_m_addressable(session_id) ==> r == Err::<
                        u8,
                        SpdmStatus,
                    >(SpdmStatus::InvalidParameter)
                    &&& r matches Ok(n) ==> {
                        &&& old(self).common.spec_message_m_addressable(session_id)
                        &&& n == (if measurement_operation
                            == SpdmMeasurementOperation::SpdmMeasurementQueryTotalNumber {
                            m.number_of_measurement
                        } else {
                            m.measurement_record.number_of_blocks
                        })
                        &&& final(spdm_measurement_record_structure)@ == m.measurement_record
                        &&& final(spdm_measurement_record_structure).wf()
                        &&& !ns ==> final(self).common.spec_message_m(session_id) == old(
                            self,
                        ).common.spec_message_m(session_id) + ext
                        &&& ns ==> final(self).common.spec_message_m(session_id) == Seq::<
                            u8,
                        >::empty()
                    }
                    &&& r == Err::<u8, SpdmStatus>(SpdmStatus::VerifFail) ==> ns && final(self).common.spec_message_m(session_id) == Seq::<u8>::empty()
                    &&& (old(self).common.spec_message_m_addressable(session_id) && old(
                        self,
                    ).common.spec_message_m(session_id).len() + ext.len()
                        <= MAX_SPDM_MESSAGE_BUFFER_SIZE && !ns) ==> r is Ok
                    &&& (old(self).common.spec_message_m_addressable(session_id) && old(
                        self,
                    ).common.spec_message_m(session_id).len() + ext.len()
                        <= MAX_SPDM_MESSAGE_BUFFER_SIZE && ns) ==> (r is Ok || r == Err::<
                        u8,
                        SpdmStatus,
                    >(SpdmStatus::VerifFail))
                }
            }),
            r is Err ==> *final(spdm_measurement_record_structure) == *old(
                spdm_measurement_record_structure,
            ),
    {
        let need_sig = measurement_attributes.contains(
            SpdmMeasurementAttributes::signature_requested(),
        );
        self.common.runtime_info.need_measurement_signature = need_sig;

        let mut reader = Reader::init(copy_bytes(receive_buffer));
        let message_header = match SpdmMessageHeader::read(&mut reader) {
            Some(h) => h,
            None => {
                return Err(SpdmStatus::InvalidMsgField);
            },
        };
        if message_header.version != self.common.negotiate_info.spdm_version_sel {
            return Err(SpdmStatus::InvalidMsgField);
        }
        match message_header.request_response_code {
            SpdmRequestResponseCode::SpdmResponseMeasurements => {
                assert(reader.remaining() =~= receive_buffer@.skip(2));
                let measurements = match SpdmMeasurementsResponsePayload::spdm_read(
                    &mut self.common,
                    &mut reader,
                ) {
                    Some(m) => m,
                    None => {
                        return Err(SpdmStatus::InvalidMsgField);
                    },
                };
                let used = reader.used();

                if self.common.negotiate_info.spdm_version_sel.get_u8() >= 0x12 {
                    self.common.runtime_info.content_changed = measurements.content_changed;
                }

                let base_asym_size = self.common.negotiate_info.base_asym_sel.get_size() as usize;
                proof {
                    assert(need_sig ==> used >= 2 + base_asym_size);
                }
                let temp_used = used - (if need_sig {
                    base_asym_size
                } else {
                    0
                });
                proof {
                    let ns = measurement_attributes.spec_signature_requested();
                    let asym = old(self).common.negotiate_info.base_asym_sel.spec_size();
                    let parsed = spec_parse_measurements_response(
                        &old(self).common,
                        ns,
                        receive_buffer@,
                    );
                    assert(parsed == Some(measurements@));
                    let mm = measurements@;
                    let consumed = receive_buffer@.take(
                        2 + spec_measurements_response_len(mm, ns, asym),
                    );
                    assert(receive_buffer@.take(temp_used as int) =~= (if ns {
                        consumed.take(consumed.len() - asym as int)
                    } else {
                        consumed
                    }));
                }

                match self.common.append_message_m(session_id, send_buffer) {
                    Ok(_) => {},
                    Err(e) => {
                        return Err(e);
                    },
                }
                match self.common.append_message_m(session_id, &receive_buffer[0..temp_used]) {
                    Ok(_) => {},
                    Err(e) => {
                        return Err(e);
                    },
                }
                proof {
                    let ns = measurement_attributes.spec_signature_requested();
                    let asym = old(self).common.negotiate_info.base_asym_sel.spec_size();
                    let mm = measurements@;
                    let consumed = receive_buffer@.take(
                        2 + spec_measurements_response_len(mm, ns, asym),
                    );
                    assert(self.common.spec_message_m(session_id) =~= old(
                        self,
                    ).common.spec_message_m(session_id) + spec_measurement_transcript_extension(
                        send_buffer@,
                        consumed,
                        ns,
                        asym,
                    ));
                }

                if need_sig {
                    let verified = self.verify_measurement_signature(
                        slot_id,
                        session_id,
                        &measurements.signature,
                    );
                    if verified.is_err() {
                        self.common.reset_message_m(session_id);
                        return Err(SpdmStatus::VerifFail);
                    } else {
                        self.common.reset_message_m(session_id);
                    }
                }

                let number_of_blocks = measurements.measurement_record.number_of_blocks;
                let number_of_measurement = measurements.number_of_measurement;
                *spdm_measurement_record_structure = measurements.measurement_record;

                match measurement_operation {
                    SpdmMeasurementOperation::SpdmMeasurementQueryTotalNumber => Ok(
                        number_of_measurement,
                    ),
                    SpdmMeasurementOperation::SpdmMeasurementRequestAll => Ok(number_of_blocks),
                    _ => Ok(number_of_blocks),
                }
            },
            SpdmRequestResponseCode::SpdmResponseError => Err(SpdmStatus::ErrorPeer),
            _ => Err(SpdmStatus::ErrorPeer),
        }
    }

    /// One whole measurement exchange: validate the slot, send a freshly
    /// encoded request over the channel the session id picks, receive the
    /// response and hand it to the response handler.
    fn send_receive_spdm_measurement_record(
        &mut self,
        session_id: Option<u32>,
        measurement_attributes: SpdmMeasurementAttributes,
        measurement_operation: SpdmMeasurementOperation,
        spdm_measurement_record_structure: &mut SpdmMeasurementRecordStructure,
        slot_id: u8,
    ) -> (r: Result<u8, SpdmStatus>)
        requires
            old(self).common.wf(),
            measurement_attributes.wf(),
            measurement_operation.wf(),
        ensures
            final(self).common.wf(),
            (slot_id as int) >= SPDM_MAX_SLOT_NUMBER ==> r == Err::<u8, SpdmStatus>(
                SpdmStatus::InvalidStateLocal,
            ) && *final(self) == *old(self) && *final(spdm_measurement_record_structure) == *old(
                spdm_measurement_record_structure,
            ),
            final(self).common.config_info == old(self).common.config_info,
            final(self).common.provision_info == old(self).common.provision_info,
            final(self).common.negotiate_info == old(self).common.negotiate_info,
            final(self).common.peer_info == old(self).common.peer_info,
            final(self).common.runtime_info.message_a == old(self).common.runtime_info.message_a,
            final(self).common.runtime_info.message_b == old(self).common.runtime_info.message_b,
            final(self).common.runtime_info.message_c == old(self).common.runtime_info.message_c,
            r is Ok ==> {
                &&& final(self).common.runtime_info.need_measurement_signature
                    == measurement_attributes.spec_signature_requested()
                &&& measurement_attributes.spec_signature_requested() ==> final(self).common.spec_message_m(session_id) == Seq::<u8>::empty()
                &&& final(spdm_measurement_record_structure).wf()
            },
            r is Err ==> *final(spdm_measurement_record_structure) == *old(
                spdm_measurement_record_structure,
            ),
    {
        if slot_id as usize >= SPDM_MAX_SLOT_NUMBER {
            return Err(SpdmStatus::InvalidStateLocal);
        }

        let send_buffer = match self.encode_spdm_measurement_record(
            measurement_attributes,
            measurement_operation,
            slot_id,
        ) {
            Ok(v) => v,
            Err(e) => {
                return Err(e);
            },
        };
        match self.device_io.send(session_id, send_buffer.as_slice()) {
            Ok(_) => {},
            Err(e) => {
                return Err(e);
            },
        }
        let receive_buffer = match self.device_io.receive(session_id) {
            Ok(v) => v,
            Err(e) => {
                return Err(e);
            },
        };
        self.handle_spdm_measurement_record_response(
            session_id,
            slot_id,
            measurement_attributes,
            measurement_operation,
            spdm_measurement_record_structure,
            send_buffer.as_slice(),
            receive_buffer.as_slice(),
        )
    }

    /// Fetches measurements: on success `out_total_number` holds the total
    /// number of indices when the operation asked for it, and the number
    /// of returned blocks otherwise; the record lands in
    /// `spdm_measurement_record_structure`.
    pub fn send_receive_spdm_measurement(
        &mut self,
        session_id: Option<u32>,
        slot_id: u8,
        spdm_measuremente_attributes: SpdmMeasurementAttributes,
        measurement_operation: SpdmMeasurementOperation,
        out_total_number: &mut u8,
        spdm_measurement_record_structure: &mut SpdmMeasurementRecordStructure,
    ) -> (r: Result<(), SpdmStatus>)
        requires
            old(self).common.wf(),
            spdm_measuremente_attributes.wf(),
            measurement_operation.wf(),
        ensures
            final(self).common.wf(),
            (slot_id as int) >= SPDM_MAX_SLOT_NUMBER ==> r == Err::<(), SpdmStatus>(
                SpdmStatus::InvalidStateLocal,
            ) && *final(self) == *old(self),
            final(self).common.config_info == old(self).common.config_info,
            final(self).common.provision_info == old(self).common.provision_info,
            final(self).common.negotiate_info == old(self).common.negotiate_info,
            final(self).common.peer_info == old(self).common.peer_info,
            r is Ok ==> {
                &&& final(self).common.runtime_info.need_measurement_signature
                    == spdm_measuremente_attributes.spec_signature_requested()
                &&& spdm_measuremente_attributes.spec_signature_requested() ==> final(self).common.spec_message_m(session_id) == Seq::<u8>::empty()
                &&& final(spdm_measurement_record_structure).wf()
            },
            r is Err ==> *final(out_total_number) == *old(out_total_number) && *final(spdm_measurement_record_structure) == *old(spdm_measurement_record_structure),
    {
        let total = self.send_receive_spdm_measurement_record(
            session_id,
            spdm_measuremente_attributes,
            measurement_operation,
            spdm_measurement_record_structure,
            slot_id,
        );
        match total {
            Ok(n) => {
                *out_total_number = n;
                Ok(())
            },
            Err(e) => Err(e),
        }
    }

    /// The L1/L2 transcript the measurement signature covers: message_a
    /// first from SPDM 1.2 on, then the measurement transcript the session
    /// id addresses.
    pub fn build_message_l1l2(&self, session_id: Option<u32>) -> (r: Result<
        ManagedBuffer,
        SpdmStatus,
    >)
        requires
            self.common.wf(),
        ensures
            r is Ok <==> self.common.spec_message_m_addressable(session_id),
            r matches Ok(b) ==> b@ == spec_l1l2_base(
                self.common.negotiate_info.spdm_version_sel,
                self.common.runtime_info.message_a@,
                self.common.spec_message_m(session_id),
            ) && b.wf() && b.spec_cap() == 2 * MAX_SPDM_MESSAGE_BUFFER_SIZE,
            r is Err ==> r->Err_0 == SpdmStatus::InvalidParameter,
    {
        let mut message_l1l2 = ManagedBuffer::new(2 * MAX_SPDM_MESSAGE_BUFFER_SIZE);
        if self.common.negotiate_info.spdm_version_sel.get_u8() >= 0x12 {
            let appended = message_l1l2.append_message(
                self.common.runtime_info.message_a.as_bytes(),
            );
            assert(appended is Some);
        }
        match session_id {
            None => {
                let appended = message_l1l2.append_message(
                    self.common.runtime_info.message_m.as_bytes(),
                );
                assert(appended is Some);
                Ok(message_l1l2)
            },
            Some(id) => {
                match self.common.get_immutable_session_via_id(id) {
                    Some(session) => {
                        let appended = message_l1l2.append_message(session.message_m.as_bytes());
                        assert(appended is Some);
                        Ok(message_l1l2)
                    },
                    None => Err(SpdmStatus::InvalidParameter),
                }
            },
        }
    }

    /// Verifies a measurement signature over the L1/L2 transcript: from
    /// SPDM 1.2 on the provider checks the signature over the signing
    /// prefix, the zero pad, the "responder-measurements signing" tag and
    /// the transcript hash; before 1.2 it checks it over the raw
    /// transcript. The peer certificate chain of the slot, its header
    /// stripped, names the key.
    pub fn verify_measurement_signature(
        &self,
        slot_id: u8,
        session_id: Option<u32>,
        signature: &SpdmSignatureStruct,
    ) -> (r: Result<(), SpdmStatus>)
        requires
            self.common.wf(),
            (slot_id as int) < SPDM_MAX_SLOT_NUMBER,
        ensures
            !self.common.spec_message_m_addressable(session_id) ==> r == Err::<(), SpdmStatus>(
                SpdmStatus::InvalidParameter,
            ),
            self.common.spec_message_m_addressable(session_id)
                && self.common.peer_info.peer_cert_chain@[slot_id as int] is None ==> r == Err::<
                (),
                SpdmStatus,
            >(SpdmStatus::InvalidParameter),
            r is Ok ==> self.common.spec_message_m_addressable(session_id) && (
            self.common.peer_info.peer_cert_chain@[slot_id as int] matches Some(c)
                && c.data_size > 4 + self.common.negotiate_info.base_hash_sel.spec_size()),
    {
        let message_l1l2 = match self.build_message_l1l2(session_id) {
            Ok(v) => v,
            Err(e) => {
                return Err(e);
            },
        };

        let hash_size = self.common.negotiate_info.base_hash_sel.get_size() as usize;
        let cert_chain_data: Vec<u8> = match &self.common.peer_info.peer_cert_chain[slot_id
            as usize] {
            Some(c) => {
                if c.data_size as usize <= 4 + hash_size {
                    return Err(SpdmStatus::InvalidParameter);
                }
                crate::codec::copy_range(c.data.as_slice(), 4 + hash_size, c.data_size as usize)
            },
            None => {
                return Err(SpdmStatus::InvalidParameter);
            },
        };

        let digest = match self.crypto.hash_all(
            self.common.negotiate_info.base_hash_sel,
            message_l1l2.as_bytes(),
        ) {
            Some(d) => d,
            None => {
                return Err(SpdmStatus::CryptoError);
            },
        };

        let mut signed_message = message_l1l2;
        if self.common.negotiate_info.spdm_version_sel.get_u8() >= 0x12 {
            if digest.data_size as usize > SPDM_MAX_HASH_SIZE || (digest.data_size as usize)
                > digest.data.len() {
                return Err(SpdmStatus::CryptoError);
            }
            signed_message.reset_message();
            let prefix = spdm_version_1_2_signing_prefix_context();
            let a1 = signed_message.append_message(prefix.as_slice());
            assert(a1 is Some);
            let pad = spdm_version_1_2_signing_context_zeropad_6();
            let a2 = signed_message.append_message(pad.as_slice());
            assert(a2 is Some);
            let tag = spdm_measurements_sign_context();
            let a3 = signed_message.append_message(tag.as_slice());
            assert(a3 is Some);
            let a4 = signed_message.append_message(&digest.data[0..digest.data_size as usize]);
            assert(a4 is Some);
        }

        self.crypto.asym_verify(
            self.common.negotiate_info.base_hash_sel,
            self.common.negotiate_info.base_asym_sel,
            cert_chain_data.as_slice(),
            signed_message.as_bytes(),
            signature,
        )
    }
}

} // verus!
