use spdmlib::codec::Writer;
use spdmlib::common::{SpdmConfigInfo, SpdmContext, SpdmMeasurementContentChanged,
    SpdmOpaqueStruct, SpdmProvisionInfo};
use spdmlib::config::MAX_SPDM_CERT_CHAIN_DATA_SIZE;
use spdmlib::crypto::SpdmCryptoProvider;
use spdmlib::device::SpdmDeviceIo;
use spdmlib::error::SpdmStatus;
use spdmlib::measurement::{SpdmMeasurementAttributes, SpdmMeasurementOperation,
    SpdmMeasurementsResponsePayload};
use spdmlib::protocol::{SpdmBaseAsymAlgo, SpdmBaseHashAlgo, SpdmCertChainData, SpdmDigestStruct,
    SpdmMeasurementRecordStructure, SpdmNonceStruct, SpdmSignatureStruct, SpdmVersion};
use spdmlib::requester::RequesterContext;

/// Replies to every request with one canned response.
struct CannedDevice {
    response: Vec<u8>,
    sent: std::cell::RefCell<Vec<Vec<u8>>>,
}

impl CannedDevice {
    fn new(response: Vec<u8>) -> Self {
        CannedDevice { response, sent: std::cell::RefCell::new(Vec::new()) }
    }
}

impl SpdmDeviceIo for CannedDevice {
    fn send(&mut self, _session_id: Option<u32>, buffer: &[u8]) -> Result<(), SpdmStatus> {
        self.sent.borrow_mut().push(buffer.to_vec());
        Ok(())
    }

    fn receive(&mut self, _session_id: Option<u32>) -> Result<Vec<u8>, SpdmStatus> {
        Ok(self.response.clone())
    }
}

/// A provider whose first `failures` signature verdicts are refusals.
struct CountingCrypto {
    failures: std::cell::Cell<u32>,
}

impl SpdmCryptoProvider for CountingCrypto {
    fn get_random(&mut self, size: usize) -> Result<Vec<u8>, SpdmStatus> {
        Ok(vec![0x42u8; size])
    }

    fn hash_all(&self, base_hash_algo: SpdmBaseHashAlgo, _data: &[u8]) -> Option<SpdmDigestStruct> {
        Some(SpdmDigestStruct { data_size: base_hash_algo.get_size(), data: vec![0x33u8; 64] })
    }

    fn asym_verify(
        &self,
        _base_hash_algo: SpdmBaseHashAlgo,
        _base_asym_algo: SpdmBaseAsymAlgo,
        _cert_chain_der: &[u8],
        _message: &[u8],
        _signature: &SpdmSignatureStruct,
    ) -> Result<(), SpdmStatus> {
        let left = self.failures.get();
        if left > 0 {
            self.failures.set(left - 1);
            Err(SpdmStatus::VerifFail)
        } else {
            Ok(())
        }
    }

    fn get_cert_from_cert_chain(
        &self,
        cert_chain_der: &[u8],
        _index: usize,
    ) -> Result<(usize, usize), SpdmStatus> {
        Ok((0, cert_chain_der.len()))
    }

    fn verify_cert_chain(&self, _cert_chain_der: &[u8]) -> Result<(), SpdmStatus> {
        Ok(())
    }
}

/// One signed MEASUREMENTS response under SPDM 1.1, SHA-384 and
/// ECDSA-P384, built with the library's own codec.
fn signed_response(context: &mut SpdmContext) -> Vec<u8> {
    let payload = SpdmMeasurementsResponsePayload {
        number_of_measurement: 5,
        content_changed: SpdmMeasurementContentChanged::not_supported(),
        slot_id: 0,
        measurement_record: SpdmMeasurementRecordStructure::default(),
        nonce: SpdmNonceStruct { data: vec![0x55u8; 32] },
        opaque: SpdmOpaqueStruct::default(),
        signature: SpdmSignatureStruct {
            data_size: 96,
            data: {
                let mut v = vec![0u8; 512];
                for i in 0..96 {
                    v[i] = 0x77;
                }
                v
            },
        },
    };
    let mut writer = Writer::init(vec![0u8; 4096]);
    writer.write_u8(0x11).unwrap();
    writer.write_u8(0x60).unwrap();
    payload.spdm_encode(context, &mut writer).unwrap();
    let used = writer.used();
    let mut bytes = writer.into_buffer();
    bytes.truncate(used);
    bytes
}

fn signed_requester(
    failures: u32,
    response: Vec<u8>,
) -> RequesterContext<CannedDevice, CountingCrypto> {
    let config = SpdmConfigInfo { runtime_content_change_support: false };
    let provision = SpdmProvisionInfo { peer_cert_chain_data: None };
    let device = CannedDevice::new(response);
    let crypto = CountingCrypto { failures: std::cell::Cell::new(failures) };
    let mut requester = RequesterContext::new(device, crypto, config, provision);
    requester.common.negotiate_info.spdm_version_sel = SpdmVersion::SpdmVersion11;
    requester.common.negotiate_info.base_hash_sel = SpdmBaseHashAlgo::tpm_alg_sha_384();
    requester.common.negotiate_info.base_asym_sel =
        SpdmBaseAsymAlgo::tpm_alg_ecdsa_ecc_nist_p384();
    requester.common.peer_info.peer_cert_chain[0] = Some(SpdmCertChainData {
        data_size: 512,
        data: vec![0u8; MAX_SPDM_CERT_CHAIN_DATA_SIZE],
    });
    requester
}

/// A failed signature verification returns `VerifFail` and resets
/// message_m; the next valid exchange succeeds without residue.
#[test]
fn verif_fail_resets_message_m_and_next_exchange_succeeds() {
    let mut setup_ctx = SpdmContext::new(
        SpdmConfigInfo { runtime_content_change_support: false },
        SpdmProvisionInfo { peer_cert_chain_data: None },
    );
    setup_ctx.negotiate_info.spdm_version_sel = SpdmVersion::SpdmVersion11;
    setup_ctx.negotiate_info.base_hash_sel = SpdmBaseHashAlgo::tpm_alg_sha_384();
    setup_ctx.negotiate_info.base_asym_sel = SpdmBaseAsymAlgo::tpm_alg_ecdsa_ecc_nist_p384();
    setup_ctx.runtime_info.need_measurement_signature = true;
    let response = signed_response(&mut setup_ctx);

    let mut requester = signed_requester(1, response);

    let mut total_number: u8 = 0;
    let mut record = SpdmMeasurementRecordStructure::default();
    let status = requester.send_receive_spdm_measurement(
        None,
        0,
        SpdmMeasurementAttributes::signature_requested(),
        SpdmMeasurementOperation::SpdmMeasurementQueryTotalNumber,
        &mut total_number,
        &mut record,
    );
    assert_eq!(status, Err(SpdmStatus::VerifFail));
    assert_eq!(requester.common.runtime_info.message_m.len(), 0);
    assert_eq!(total_number, 0);

    let status = requester.send_receive_spdm_measurement(
        None,
        0,
        SpdmMeasurementAttributes::signature_requested(),
        SpdmMeasurementOperation::SpdmMeasurementQueryTotalNumber,
        &mut total_number,
        &mut record,
    );
    assert_eq!(status, Ok(()));
    assert_eq!(total_number, 5);
    // The signed transaction is closed, so its transcript starts clean.
    assert_eq!(requester.common.runtime_info.message_m.len(), 0);
}

/// An unsigned exchange leaves the whole request and response, without any
/// signature bytes, in message_m.
#[test]
fn unsigned_exchange_extends_message_m() {
    let mut setup_ctx = SpdmContext::new(
        SpdmConfigInfo { runtime_content_change_support: false },
        SpdmProvisionInfo { peer_cert_chain_data: None },
    );
    setup_ctx.negotiate_info.spdm_version_sel = SpdmVersion::SpdmVersion11;
    setup_ctx.negotiate_info.base_hash_sel = SpdmBaseHashAlgo::tpm_alg_sha_384();
    setup_ctx.negotiate_info.base_asym_sel = SpdmBaseAsymAlgo::tpm_alg_ecdsa_ecc_nist_p384();
    setup_ctx.runtime_info.need_measurement_signature = false;
    let response = signed_response(&mut setup_ctx);

    let mut requester = signed_requester(0, response.clone());

    let mut total_number: u8 = 0;
    let mut record = SpdmMeasurementRecordStructure::default();
    let status = requester.send_receive_spdm_measurement(
        None,
        0,
        SpdmMeasurementAttributes::empty(),
        SpdmMeasurementOperation::SpdmMeasurementQueryTotalNumber,
        &mut total_number,
        &mut record,
    );
    assert_eq!(status, Ok(()));
    assert_eq!(total_number, 5);

    let sent = requester.device_io.sent.borrow()[0].clone();
    // Request (4 bytes, unsigned) then the whole response.
    let mut expected = sent;
    expected.extend_from_slice(&response);
    assert_eq!(requester.common.runtime_info.message_m.as_bytes(), &expected[..]);
}

/// A response carrying a version other than the negotiated one is a
/// structural fault.
#[test]
fn version_mismatch_is_invalid_msg_field() {
    let response = vec![0x12u8, 0x60, 0x00, 0x00];
    let mut requester = signed_requester(0, response);
    let mut total_number: u8 = 0;
    let mut record = SpdmMeasurementRecordStructure::default();
    let status = requester.send_receive_spdm_measurement(
        None,
        0,
        SpdmMeasurementAttributes::empty(),
        SpdmMeasurementOperation::SpdmMeasurementQueryTotalNumber,
        &mut total_number,
        &mut record,
    );
    assert_eq!(status, Err(SpdmStatus::InvalidMsgField));
}

/// The peer's ERROR response surfaces as `ErrorPeer`.
#[test]
fn error_response_surfaces_as_error_peer() {
    let response = vec![0x11u8, 0x7f, 0x01, 0x00];
    let mut requester = signed_requester(0, response);
    let mut total_number: u8 = 0;
    let mut record = SpdmMeasurementRecordStructure::default();
    let status = requester.send_receive_spdm_measurement(
        None,
        0,
        SpdmMeasurementAttributes::empty(),
        SpdmMeasurementOperation::SpdmMeasurementQueryTotalNumber,
        &mut total_number,
        &mut record,
    );
    assert_eq!(status, Err(SpdmStatus::ErrorPeer));
}

/// A truncated response is a structural fault.
#[test]
fn truncated_response_is_invalid_msg_field() {
    let response = vec![0x11u8, 0x60, 0x05];
    let mut requester = signed_requester(0, response);
    let mut total_number: u8 = 0;
    let mut record = SpdmMeasurementRecordStructure::default();
    let status = requester.send_receive_spdm_measurement(
        None,
        0,
        SpdmMeasurementAttributes::empty(),
        SpdmMeasurementOperation::SpdmMeasurementQueryTotalNumber,
        &mut total_number,
        &mut record,
    );
    assert_eq!(status, Err(SpdmStatus::InvalidMsgField));
}

/// A slot outside the table is rejected before any I/O.
#[test]
fn measurement_slot_out_of_range_is_rejected() {
    let mut requester = signed_requester(0, vec![]);
    let mut total_number: u8 = 0;
    let mut record = SpdmMeasurementRecordStructure::default();
    let status = requester.send_receive_spdm_measurement(
        None,
        9,
        SpdmMeasurementAttributes::empty(),
        SpdmMeasurementOperation::SpdmMeasurementQueryTotalNumber,
        &mut total_number,
        &mut record,
    );
    assert_eq!(status, Err(SpdmStatus::InvalidStateLocal));
    assert!(requester.device_io.sent.borrow().is_empty());
}

/// Under SPDM 1.2 the content-changed field of the response lands in the
/// runtime state.
#[test]
fn content_changed_is_recorded_from_spdm12_on() {
    let mut setup_ctx = SpdmContext::new(
        SpdmConfigInfo { runtime_content_change_support: true },
        SpdmProvisionInfo { peer_cert_chain_data: None },
    );
    setup_ctx.negotiate_info.spdm_version_sel = SpdmVersion::SpdmVersion12;
    setup_ctx.negotiate_info.base_hash_sel = SpdmBaseHashAlgo::tpm_alg_sha_384();
    setup_ctx.negotiate_info.base_asym_sel = SpdmBaseAsymAlgo::tpm_alg_ecdsa_ecc_nist_p384();
    setup_ctx.runtime_info.need_measurement_signature = false;

    let payload = SpdmMeasurementsResponsePayload {
        number_of_measurement: 3,
        content_changed: SpdmMeasurementContentChanged::detected_change(),
        slot_id: 0,
        measurement_record: SpdmMeasurementRecordStructure::default(),
        nonce: SpdmNonceStruct::default(),
        opaque: SpdmOpaqueStruct::default(),
        signature: SpdmSignatureStruct::default(),
    };
    let mut writer = Writer::init(vec![0u8; 4096]);
    writer.write_u8(0x12).unwrap();
    writer.write_u8(0x60).unwrap();
    payload.spdm_encode(&mut setup_ctx, &mut writer).unwrap();
    let used = writer.used();
    let mut response = writer.into_buffer();
    response.truncate(used);

    let config = SpdmConfigInfo { runtime_content_change_support: true };
    let provision = SpdmProvisionInfo { peer_cert_chain_data: None };
    let device = CannedDevice::new(response);
    let crypto = CountingCrypto { failures: std::cell::Cell::new(0) };
    let mut requester = RequesterContext::new(device, crypto, config, provision);
    requester.common.negotiate_info.spdm_version_sel = SpdmVersion::SpdmVersion12;
    requester.common.negotiate_info.base_hash_sel = SpdmBaseHashAlgo::tpm_alg_sha_384();
    requester.common.negotiate_info.base_asym_sel =
        SpdmBaseAsymAlgo::tpm_alg_ecdsa_ecc_nist_p384();

    let mut total_number: u8 = 0;
    let mut record = SpdmMeasurementRecordStructure::default();
    let status = requester.send_receive_spdm_measurement(
        None,
        0,
        SpdmMeasurementAttributes::empty(),
        SpdmMeasurementOperation::SpdmMeasurementQueryTotalNumber,
        &mut total_number,
        &mut record,
    );
    assert_eq!(status, Ok(()));
    assert_eq!(
        requester.common.runtime_info.content_changed,
        SpdmMeasurementContentChanged::detected_change()
    );
}

/// Measurement exchanges over a session keep their transcript in the
/// session, not in the connection.
#[test]
fn session_exchange_uses_session_transcript() {
    let mut setup_ctx = SpdmContext::new(
        SpdmConfigInfo { runtime_content_change_support: false },
        SpdmProvisionInfo { peer_cert_chain_data: None },
    );
    setup_ctx.negotiate_info.spdm_version_sel = SpdmVersion::SpdmVersion11;
    setup_ctx.negotiate_info.base_hash_sel = SpdmBaseHashAlgo::tpm_alg_sha_384();
    setup_ctx.negotiate_info.base_asym_sel = SpdmBaseAsymAlgo::tpm_alg_ecdsa_ecc_nist_p384();
    setup_ctx.runtime_info.need_measurement_signature = false;
    let response = signed_response(&mut setup_ctx);

    let mut requester = signed_requester(0, response);
    requester.common.setup_session(0x11223344).unwrap();

    let mut total_number: u8 = 0;
    let mut record = SpdmMeasurementRecordStructure::default();
    let status = requester.send_receive_spdm_measurement(
        Some(0x11223344),
        0,
        SpdmMeasurementAttributes::empty(),
        SpdmMeasurementOperation::SpdmMeasurementQueryTotalNumber,
        &mut total_number,
        &mut record,
    );
    assert_eq!(status, Ok(()));
    assert_eq!(requester.common.runtime_info.message_m.len(), 0);
    let session = requester.common.get_immutable_session_via_id(0x11223344).unwrap();
    assert!(session.message_m.len() > 0);

    // An unknown session id is refused without a panic.
    let status = requester.send_receive_spdm_measurement(
        Some(0xdead_beef),
        0,
        SpdmMeasurementAttributes::empty(),
        SpdmMeasurementOperation::SpdmMeasurementQueryTotalNumber,
        &mut total_number,
        &mut record,
    );
    assert_eq!(status, Err(SpdmStatus::InvalidParameter));
}

/// The bytes handed to signature verification are exactly the request and
/// the response without its trailing signature: the signature never signs
/// itself. Under SPDM 1.1 the verified message is the raw transcript.
struct RecordingCrypto {
    verified_message: std::cell::RefCell<Vec<u8>>,
}

impl SpdmCryptoProvider for RecordingCrypto {
    fn get_random(&mut self, size: usize) -> Result<Vec<u8>, SpdmStatus> {
        Ok(vec![0x42u8; size])
    }

    fn hash_all(&self, base_hash_algo: SpdmBaseHashAlgo, _data: &[u8]) -> Option<SpdmDigestStruct> {
        Some(SpdmDigestStruct { data_size: base_hash_algo.get_size(), data: vec![0x33u8; 64] })
    }

    fn asym_verify(
        &self,
        _base_hash_algo: SpdmBaseHashAlgo,
        _base_asym_algo: SpdmBaseAsymAlgo,
        _cert_chain_der: &[u8],
        message: &[u8],
        _signature: &SpdmSignatureStruct,
    ) -> Result<(), SpdmStatus> {
        *self.verified_message.borrow_mut() = message.to_vec();
        Ok(())
    }

    fn get_cert_from_cert_chain(
        &self,
        cert_chain_der: &[u8],
        _index: usize,
    ) -> Result<(usize, usize), SpdmStatus> {
        Ok((0, cert_chain_der.len()))
    }

    fn verify_cert_chain(&self, _cert_chain_der: &[u8]) -> Result<(), SpdmStatus> {
        Ok(())
    }
}

#[test]
fn verified_transcript_excludes_trailing_signature_bytes() {
    let mut setup_ctx = SpdmContext::new(
        SpdmConfigInfo { runtime_content_change_support: false },
        SpdmProvisionInfo { peer_cert_chain_data: None },
    );
    setup_ctx.negotiate_info.spdm_version_sel = SpdmVersion::SpdmVersion11;
    setup_ctx.negotiate_info.base_hash_sel = SpdmBaseHashAlgo::tpm_alg_sha_384();
    setup_ctx.negotiate_info.base_asym_sel = SpdmBaseAsymAlgo::tpm_alg_ecdsa_ecc_nist_p384();
    setup_ctx.runtime_info.need_measurement_signature = true;
    let response = signed_response(&mut setup_ctx);

    let config = SpdmConfigInfo { runtime_content_change_support: false };
    let provision = SpdmProvisionInfo { peer_cert_chain_data: None };
    let device = CannedDevice::new(response.clone());
    let crypto = RecordingCrypto { verified_message: std::cell::RefCell::new(Vec::new()) };
    let mut requester = RequesterContext::new(device, crypto, config, provision);
    requester.common.negotiate_info.spdm_version_sel = SpdmVersion::SpdmVersion11;
    requester.common.negotiate_info.base_hash_sel = SpdmBaseHashAlgo::tpm_alg_sha_384();
    requester.common.negotiate_info.base_asym_sel =
        SpdmBaseAsymAlgo::tpm_alg_ecdsa_ecc_nist_p384();
    requester.common.peer_info.peer_cert_chain[0] = Some(SpdmCertChainData {
        data_size: 512,
        data: vec![0u8; MAX_SPDM_CERT_CHAIN_DATA_SIZE],
    });

    let mut total_number: u8 = 0;
    let mut record = SpdmMeasurementRecordStructure::default();
    let status = requester.send_receive_spdm_measurement(
        None,
        0,
        SpdmMeasurementAttributes::signature_requested(),
        SpdmMeasurementOperation::SpdmMeasurementQueryTotalNumber,
        &mut total_number,
        &mut record,
    );
    assert_eq!(status, Ok(()));

    // ECDSA-P384 signatures are 96 bytes; the transcript the provider saw
    // is the request followed by the response with those 96 bytes cut off.
    let sent = requester.device_io.sent.borrow()[0].clone();
    let mut expected = sent;
    expected.extend_from_slice(&response[..response.len() - 96]);
    assert_eq!(*requester.device_io.sent.borrow(), vec![expected[..37].to_vec()]);
    assert_eq!(*requester.crypto.verified_message.borrow(), expected);
}

/// From SPDM 1.2 on the L1/L2 transcript starts with message_a; before,
/// it is the measurement transcript alone.
#[test]
fn l1l2_transcript_starts_with_message_a_from_spdm12_on() {
    let response = vec![];
    let mut requester = signed_requester(0, response);
    requester
        .common
        .runtime_info
        .message_a
        .append_message(&[0xa1, 0xa2])
        .unwrap();
    requester
        .common
        .runtime_info
        .message_m
        .append_message(&[0xb1])
        .unwrap();

    let l1l2 = requester.build_message_l1l2(None).unwrap();
    assert_eq!(l1l2.as_bytes(), &[0xb1]);

    requester.common.negotiate_info.spdm_version_sel = SpdmVersion::SpdmVersion12;
    let l1l2 = requester.build_message_l1l2(None).unwrap();
    assert_eq!(l1l2.as_bytes(), &[0xa1, 0xa2, 0xb1]);

    // The transcript of an unknown session cannot be built.
    assert_eq!(
        requester.build_message_l1l2(Some(5)),
        Err(SpdmStatus::InvalidParameter)
    );
}
