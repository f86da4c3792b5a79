use spdmlib::codec::{Reader, Writer};
use spdmlib::certificate::{SpdmCertificateResponsePayload, SpdmGetCertificateRequestPayload};
use spdmlib::common::{SpdmConfigInfo, SpdmContext, SpdmProvisionInfo};
use spdmlib::config::{MAX_SPDM_CERT_CHAIN_DATA_SIZE, MAX_SPDM_CERT_PORTION_LEN};
use spdmlib::crypto::SpdmCryptoProvider;
use spdmlib::device::SpdmDeviceIo;
use spdmlib::error::SpdmStatus;
use spdmlib::protocol::{SpdmBaseAsymAlgo, SpdmBaseHashAlgo, SpdmCertChainData, SpdmDigestStruct,
    SpdmSignatureStruct};
use spdmlib::requester::RequesterContext;

/// Serves one certificate chain in portions, answering each
/// GET_CERTIFICATE request from the window it names.
struct FakeCertDevice {
    chain: Vec<u8>,
    requests: std::cell::RefCell<Vec<(u16, u16)>>,
    last_request: std::cell::RefCell<Option<(u16, u16)>>,
}

impl FakeCertDevice {
    fn new(chain: Vec<u8>) -> Self {
        FakeCertDevice {
            chain,
            requests: std::cell::RefCell::new(Vec::new()),
            last_request: std::cell::RefCell::new(None),
        }
    }
}

impl SpdmDeviceIo for FakeCertDevice {
    fn send(&mut self, _session_id: Option<u32>, buffer: &[u8]) -> Result<(), SpdmStatus> {
        // header(2) + slot(1) + reserved(1) + offset(2) + length(2)
        assert_eq!(buffer.len(), 8);
        assert_eq!(buffer[1], 0x82);
        let offset = u16::from_le_bytes([buffer[4], buffer[5]]);
        let length = u16::from_le_bytes([buffer[6], buffer[7]]);
        self.requests.borrow_mut().push((offset, length));
        *self.last_request.borrow_mut() = Some((offset, length));
        Ok(())
    }

    fn receive(&mut self, _session_id: Option<u32>) -> Result<Vec<u8>, SpdmStatus> {
        let (offset, length) = self.last_request.borrow_mut().take().unwrap();
        let offset = offset as usize;
        let remaining = self.chain.len().saturating_sub(offset);
        let portion = remaining.min(length as usize);
        let remainder = remaining - portion;
        let mut out = vec![0x11u8, 0x02, 0x00, 0x00];
        out.extend_from_slice(&(portion as u16).to_le_bytes());
        out.extend_from_slice(&(remainder as u16).to_le_bytes());
        out.extend_from_slice(&self.chain[offset..offset + portion]);
        Ok(out)
    }
}

/// A provider whose hash is a constant and whose verdicts are fixed.
struct FakeCrypto;

impl SpdmCryptoProvider for FakeCrypto {
    fn get_random(&mut self, size: usize) -> Result<Vec<u8>, SpdmStatus> {
        Ok(vec![0xabu8; size])
    }

    fn hash_all(&self, base_hash_algo: SpdmBaseHashAlgo, _data: &[u8]) -> Option<SpdmDigestStruct> {
        Some(SpdmDigestStruct { data_size: base_hash_algo.get_size(), data: vec![0xcdu8; 64] })
    }

    fn asym_verify(
        &self,
        _base_hash_algo: SpdmBaseHashAlgo,
        _base_asym_algo: SpdmBaseAsymAlgo,
        _cert_chain_der: &[u8],
        _message: &[u8],
        _signature: &SpdmSignatureStruct,
    ) -> Result<(), SpdmStatus> {
        Ok(())
    }

    fn get_cert_from_cert_chain(
        &self,
        cert_chain_der: &[u8],
        _index: usize,
    ) -> Result<(usize, usize), SpdmStatus> {
        Ok((0, cert_chain_der.len().min(100)))
    }

    fn verify_cert_chain(&self, _cert_chain_der: &[u8]) -> Result<(), SpdmStatus> {
        Ok(())
    }
}

fn create_info() -> (SpdmConfigInfo, SpdmProvisionInfo) {
    (
        SpdmConfigInfo { runtime_content_change_support: false },
        SpdmProvisionInfo { peer_cert_chain_data: None },
    )
}

#[test]
fn test_case0_send_receive_spdm_certificate() {
    let (req_config_info, req_provision_info) = create_info();
    let device = FakeCertDevice::new(vec![0u8; 512]);

    let mut requester =
        RequesterContext::new(device, FakeCrypto, req_config_info, req_provision_info);

    requester.common.negotiate_info.base_hash_sel = SpdmBaseHashAlgo::tpm_alg_sha_384();
    requester.common.negotiate_info.base_asym_sel =
        SpdmBaseAsymAlgo::tpm_alg_ecdsa_ecc_nist_p384();

    let status = requester.send_receive_spdm_certificate(0).is_ok();
    assert!(status);
}

#[test]
fn test_case1_send_receive_spdm_certificate() {
    let (req_config_info, req_provision_info) = create_info();
    let device = FakeCertDevice::new(vec![0u8; 512]);

    let mut requester =
        RequesterContext::new(device, FakeCrypto, req_config_info, req_provision_info);

    requester.common.negotiate_info.base_hash_sel = SpdmBaseHashAlgo::tpm_alg_sha_384();
    requester.common.negotiate_info.base_asym_sel =
        SpdmBaseAsymAlgo::tpm_alg_ecdsa_ecc_nist_p384();
    let status = requester.send_receive_spdm_certificate(0).is_ok();
    assert!(status);
}

/// A two-portion transfer of an 800-byte chain: the first round moves 512
/// bytes and leaves 288, the second moves the rest; the assembled size is
/// 800 and the pinned-chain comparison succeeds.
#[test]
fn two_portion_chain_assembles_and_matches_pinned() {
    // SHA-384 header: 4 length/reserved bytes, then the 48-byte root hash,
    // which the fake provider reports for every input.
    let hash_size = 48usize;
    let total = 800usize;
    let mut chain = vec![0u8; total];
    for i in 0..total {
        chain[i] = (i % 251) as u8;
    }
    for i in 0..hash_size {
        chain[4 + i] = 0xcd;
    }

    let stripped_len = total - 4 - hash_size;
    let mut pinned = SpdmCertChainData {
        data_size: stripped_len as u16,
        data: vec![0u8; MAX_SPDM_CERT_CHAIN_DATA_SIZE],
    };
    pinned.data[..stripped_len].copy_from_slice(&chain[4 + hash_size..total]);

    let config = SpdmConfigInfo { runtime_content_change_support: false };
    let provision = SpdmProvisionInfo { peer_cert_chain_data: Some(pinned) };
    let device = FakeCertDevice::new(chain);
    let mut requester = RequesterContext::new(device, FakeCrypto, config, provision);
    requester.common.negotiate_info.base_hash_sel = SpdmBaseHashAlgo::tpm_alg_sha_384();
    requester.common.negotiate_info.base_asym_sel =
        SpdmBaseAsymAlgo::tpm_alg_ecdsa_ecc_nist_p384();

    assert!(requester.send_receive_spdm_certificate(0).is_ok());

    let requests = requester.device_io.requests.borrow().clone();
    assert_eq!(requests, vec![(0, 512), (512, 288)]);

    let assembled = requester.common.peer_info.peer_cert_chain[0].as_ref().unwrap();
    assert_eq!(assembled.data_size, 800);
    assert!(assembled.data_size as usize <= MAX_SPDM_CERT_CHAIN_DATA_SIZE);
    assert_eq!(MAX_SPDM_CERT_PORTION_LEN, 512);
}

/// A chain whose stripped bytes differ from the pinned chain is rejected
/// with a verification failure.
#[test]
fn pinned_chain_mismatch_is_verif_fail() {
    let hash_size = 48usize;
    let total = 200usize;
    let mut chain = vec![0u8; total];
    for i in 0..hash_size {
        chain[4 + i] = 0xcd;
    }
    chain[100] = 7;

    let stripped_len = total - 4 - hash_size;
    let mut pinned = SpdmCertChainData {
        data_size: stripped_len as u16,
        data: vec![0u8; MAX_SPDM_CERT_CHAIN_DATA_SIZE],
    };
    pinned.data[..stripped_len].copy_from_slice(&chain[4 + hash_size..total]);
    // Corrupt one pinned byte: the byte-wise comparison must fail.
    pinned.data[0] ^= 0xff;

    let config = SpdmConfigInfo { runtime_content_change_support: false };
    let provision = SpdmProvisionInfo { peer_cert_chain_data: Some(pinned) };
    let device = FakeCertDevice::new(chain);
    let mut requester = RequesterContext::new(device, FakeCrypto, config, provision);
    requester.common.negotiate_info.base_hash_sel = SpdmBaseHashAlgo::tpm_alg_sha_384();

    assert_eq!(
        requester.send_receive_spdm_certificate(0),
        Err(SpdmStatus::VerifFail)
    );
}

/// A chain whose header hash does not match the root certificate's hash is
/// rejected with a verification failure.
#[test]
fn root_hash_mismatch_is_verif_fail() {
    let hash_size = 48usize;
    let total = 200usize;
    // Header hash bytes stay zero: they cannot match the provider's 0xcd.
    let chain = vec![0u8; total];
    let stripped_len = total - 4 - hash_size;
    let mut pinned = SpdmCertChainData {
        data_size: stripped_len as u16,
        data: vec![0u8; MAX_SPDM_CERT_CHAIN_DATA_SIZE],
    };
    pinned.data[..stripped_len].copy_from_slice(&chain[4 + hash_size..total]);

    let config = SpdmConfigInfo { runtime_content_change_support: false };
    let provision = SpdmProvisionInfo { peer_cert_chain_data: Some(pinned) };
    let device = FakeCertDevice::new(chain);
    let mut requester = RequesterContext::new(device, FakeCrypto, config, provision);
    requester.common.negotiate_info.base_hash_sel = SpdmBaseHashAlgo::tpm_alg_sha_384();

    assert_eq!(
        requester.send_receive_spdm_certificate(0),
        Err(SpdmStatus::VerifFail)
    );
}

/// A slot outside the table is rejected before any I/O.
#[test]
fn out_of_range_slot_is_rejected_before_io() {
    let (config, provision) = create_info();
    let device = FakeCertDevice::new(vec![0u8; 16]);
    let mut requester = RequesterContext::new(device, FakeCrypto, config, provision);
    assert_eq!(
        requester.send_receive_spdm_certificate(8),
        Err(SpdmStatus::InvalidStateLocal)
    );
    assert!(requester.device_io.requests.borrow().is_empty());
}

/// The GET_CERTIFICATE payload codec round-trips.
#[test]
fn certificate_payloads_round_trip() {
    let mut context = SpdmContext::new(
        SpdmConfigInfo { runtime_content_change_support: false },
        SpdmProvisionInfo { peer_cert_chain_data: None },
    );

    let request = SpdmGetCertificateRequestPayload { slot_id: 3, offset: 0x0102, length: 0x0200 };
    let mut writer = Writer::init(vec![0u8; 6]);
    assert_eq!(request.spdm_encode(&mut context, &mut writer), Ok(6));
    let bytes = writer.into_buffer();
    assert_eq!(bytes, vec![3, 0, 0x02, 0x01, 0x00, 0x02]);
    let mut reader = Reader::init(bytes);
    let decoded =
        SpdmGetCertificateRequestPayload::spdm_read(&mut context, &mut reader).unwrap();
    assert_eq!(decoded, request);

    let response = SpdmCertificateResponsePayload {
        slot_id: 3,
        portion_length: 4,
        remainder_length: 7,
        cert_chain: {
            let mut v = vec![0u8; MAX_SPDM_CERT_PORTION_LEN];
            v[0] = 0xde;
            v[1] = 0xad;
            v[2] = 0xbe;
            v[3] = 0xef;
            v
        },
    };
    let mut writer = Writer::init(vec![0u8; 10]);
    assert_eq!(response.spdm_encode(&mut context, &mut writer), Ok(10));
    let bytes = writer.into_buffer();
    assert_eq!(bytes, vec![3, 0, 4, 0, 7, 0, 0xde, 0xad, 0xbe, 0xef]);
    let mut reader = Reader::init(bytes);
    let decoded =
        SpdmCertificateResponsePayload::spdm_read(&mut context, &mut reader).unwrap();
    assert_eq!(decoded, response);
}
