//! Protocol-level value types: the negotiated version, request/response
//! codes, algorithm selectors with their sizes, and the length-tagged byte
//! containers (nonce, digest, signature, measurement record) that messages
//! carry. Each container has a well-formedness predicate that constructors
//! establish and codecs preserve.

use vstd::prelude::*;

use crate::codec::{u16_le, u24_le, u24, u24_of, EncodeErr, Reader, Writer};
use crate::config::{
    MAX_SPDM_MEASUREMENT_VALUE_LEN, SPDM_MAX_ASYM_KEY_SIZE, SPDM_MAX_HASH_SIZE, SPDM_NONCE_SIZE,
    MAX_SPDM_CERT_CHAIN_DATA_SIZE,
};

verus! {

/// One byte with major/minor nibbles; the session negotiates one value.
/// Unrecognized bytes survive a round trip in `Unknown`.
#[derive(Debug, Clone, Copy, PartialEq, Eq, Structural)]
pub enum SpdmVersion {
    SpdmVersion10,
    SpdmVersion11,
    SpdmVersion12,
    Unknown(u8),
}

impl SpdmVersion {
    /// The wire byte of this version.
    pub open spec fn spec_u8(self) -> u8 {
        match self {
            SpdmVersion::SpdmVersion10 => 0x10,
            SpdmVersion::SpdmVersion11 => 0x11,
            SpdmVersion::SpdmVersion12 => 0x12,
            SpdmVersion::Unknown(v) => v,
        }
    }

    /// `Unknown` never shadows a known value.
    pub open spec fn wf(self) -> bool {
        self matches SpdmVersion::Unknown(v) ==> v != 0x10 && v != 0x11 && v != 0x12
    }

    pub open spec fn spec_from_u8(v: u8) -> SpdmVersion {
        if v == 0x10 {
            SpdmVersion::SpdmVersion10
        } else if v == 0x11 {
            SpdmVersion::SpdmVersion11
        } else if v == 0x12 {
            SpdmVersion::SpdmVersion12
        } else {
            SpdmVersion::Unknown(v)
        }
    }

    pub fn get_u8(&self) -> (r: u8)
        ensures
            r == self.spec_u8(),
    {
        match self {
            SpdmVersion::SpdmVersion10 => 0x10,
            SpdmVersion::SpdmVersion11 => 0x11,
            SpdmVersion::SpdmVersion12 => 0x12,
            SpdmVersion::Unknown(v) => *v,
        }
    }

    pub fn from_u8(v: u8) -> (r: SpdmVersion)
        ensures
            r == SpdmVersion::spec_from_u8(v),
            r.wf(),
    {
        if v == 0x10 {
            SpdmVersion::SpdmVersion10
        } else if v == 0x11 {
            SpdmVersion::SpdmVersion11
        } else if v == 0x12 {
            SpdmVersion::SpdmVersion12
        } else {
            SpdmVersion::Unknown(v)
        }
    }
}

/// Decoding the version byte of a well-formed version gives it back.
pub proof fn lemma_version_round_trip(v: SpdmVersion)
    requires
        v.wf(),
    ensures
        SpdmVersion::spec_from_u8(v.spec_u8()) == v,
{
}

/// The request/response code carried in the second header byte.
#[derive(Debug, Clone, Copy, PartialEq, Eq, Structural)]
pub enum SpdmRequestResponseCode {
    SpdmRequestGetCertificate,
    SpdmRequestChallenge,
    SpdmRequestGetMeasurements,
    SpdmResponseCertificate,
    SpdmResponseChallengeAuth,
    SpdmResponseMeasurements,
    SpdmResponseError,
    Unknown(u8),
}

impl SpdmRequestResponseCode {
    pub open spec fn spec_u8(self) -> u8 {
        match self {
            SpdmRequestResponseCode::SpdmRequestGetCertificate => 0x82,
            SpdmRequestResponseCode::SpdmRequestChallenge => 0x83,
            SpdmRequestResponseCode::SpdmRequestGetMeasurements => 0xE0,
            SpdmRequestResponseCode::SpdmResponseCertificate => 0x02,
            SpdmRequestResponseCode::SpdmResponseChallengeAuth => 0x03,
            SpdmRequestResponseCode::SpdmResponseMeasurements => 0x60,
            SpdmRequestResponseCode::SpdmResponseError => 0x7F,
            SpdmRequestResponseCode::Unknown(v) => v,
        }
    }

    /// `Unknown` never shadows a known value.
    pub open spec fn wf(self) -> bool {
        self matches SpdmRequestResponseCode::Unknown(v) ==> v != 0x82 && v != 0x83 && v != 0xE0
            && v != 0x02 && v != 0x03 && v != 0x60 && v != 0x7F
    }

    pub open spec fn spec_from_u8(v: u8) -> SpdmRequestResponseCode {
        if v == 0x82 {
            SpdmRequestResponseCode::SpdmRequestGetCertificate
        } else if v == 0x83 {
            SpdmRequestResponseCode::SpdmRequestChallenge
        } else if v == 0xE0 {
            SpdmRequestResponseCode::SpdmRequestGetMeasurements
        } else if v == 0x02 {
            SpdmRequestResponseCode::SpdmResponseCertificate
        } else if v == 0x03 {
            SpdmRequestResponseCode::SpdmResponseChallengeAuth
        } else if v == 0x60 {
            SpdmRequestResponseCode::SpdmResponseMeasurements
        } else if v == 0x7F {
            SpdmRequestResponseCode::SpdmResponseError
        } else {
            SpdmRequestResponseCode::Unknown(v)
        }
    }

    pub fn get_u8(&self) -> (r: u8)
        ensures
            r == self.spec_u8(),
    {
        match self {
            SpdmRequestResponseCode::SpdmRequestGetCertificate => 0x82,
            SpdmRequestResponseCode::SpdmRequestChallenge => 0x83,
            SpdmRequestResponseCode::SpdmRequestGetMeasurements => 0xE0,
            SpdmRequestResponseCode::SpdmResponseCertificate => 0x02,
            SpdmRequestResponseCode::SpdmResponseChallengeAuth => 0x03,
            SpdmRequestResponseCode::SpdmResponseMeasurements => 0x60,
            SpdmRequestResponseCode::SpdmResponseError => 0x7F,
            SpdmRequestResponseCode::Unknown(v) => *v,
        }
    }

    pub fn from_u8(v: u8) -> (r: SpdmRequestResponseCode)
        ensures
            r == SpdmRequestResponseCode::spec_from_u8(v),
            r.wf(),
    {
        if v == 0x82 {
            SpdmRequestResponseCode::SpdmRequestGetCertificate
        } else if v == 0x83 {
            SpdmRequestResponseCode::SpdmRequestChallenge
        } else if v == 0xE0 {
            SpdmRequestResponseCode::SpdmRequestGetMeasurements
        } else if v == 0x02 {
            SpdmRequestResponseCode::SpdmResponseCertificate
        } else if v == 0x03 {
            SpdmRequestResponseCode::SpdmResponseChallengeAuth
        } else if v == 0x60 {
            SpdmRequestResponseCode::SpdmResponseMeasurements
        } else if v == 0x7F {
            SpdmRequestResponseCode::SpdmResponseError
        } else {
            SpdmRequestResponseCode::Unknown(v)
        }
    }
}

/// The two-byte header every SPDM message starts with.
#[derive(Debug, Clone, Copy, PartialEq, Eq, Structural)]
pub struct SpdmMessageHeader {
    pub version: SpdmVersion,
    pub request_response_code: SpdmRequestResponseCode,
}

/// Wire image of a message header.
pub open spec fn spec_header_bytes(h: SpdmMessageHeader) -> Seq<u8> {
    seq![h.version.spec_u8(), h.request_response_code.spec_u8()]
}

/// Header decoded from the front of `bytes`, when two bytes are there.
pub open spec fn spec_read_header(bytes: Seq<u8>) -> Option<SpdmMessageHeader> {
    if bytes.len() >= 2 {
        Some(
            SpdmMessageHeader {
                version: SpdmVersion::spec_from_u8(bytes[0]),
                request_response_code: SpdmRequestResponseCode::spec_from_u8(bytes[1]),
            },
        )
    } else {
        None
    }
}

impl SpdmMessageHeader {
    pub fn encode(&self, bytes: &mut Writer) -> (r: Result<usize, crate::codec::EncodeErr>)
        requires
            old(bytes).wf(),
        ensures
            final(bytes).wf(),
            final(bytes).capacity() == old(bytes).capacity(),
            r is Ok <==> old(bytes).room() >= 2,
            r is Ok ==> r->Ok_0 == 2 && final(bytes).spec_used() == old(bytes).spec_used() + 2
                && final(bytes).written() == old(bytes).written() + spec_header_bytes(*self),
            r is Err ==> final(bytes).spec_used() <= old(bytes).spec_used() + 2,
    {
        let mut cnt: usize = 0;
        match bytes.write_u8(self.version.get_u8()) {
            Ok(n) => cnt = cnt + n,
            Err(e) => {
                return Err(e);
            },
        }
        match bytes.write_u8(self.request_response_code.get_u8()) {
            Ok(n) => cnt = cnt + n,
            Err(e) => {
                return Err(e);
            },
        }
        assert(bytes.written() =~= old(bytes).written() + spec_header_bytes(*self));
        Ok(cnt)
    }

    pub fn read(r: &mut Reader) -> (h: Option<SpdmMessageHeader>)
        requires
            old(r).wf(),
        ensures
            final(r).wf(),
            final(r).bytes() == old(r).bytes(),
            h == spec_read_header(old(r).remaining()),
            h is Some ==> final(r).pos() == old(r).pos() + 2 && h->0.version.wf()
                && h->0.request_response_code.wf(),
            h is None ==> *final(r) == *old(r),
    {
        if r.left() < 2 {
            return None;
        }
        let v = r.read_u8().unwrap();
        let c = r.read_u8().unwrap();
        Some(
            SpdmMessageHeader {
                version: SpdmVersion::from_u8(v),
                request_response_code: SpdmRequestResponseCode::from_u8(c),
            },
        )
    }
}

/// Encoding a well-formed header and decoding it gives it back, whatever
/// follows it on the wire.
pub proof fn lemma_header_round_trip(h: SpdmMessageHeader, tail: Seq<u8>)
    requires
        h.version.wf(),
        h.request_response_code.wf(),
    ensures
        spec_read_header(spec_header_bytes(h) + tail) == Some(h),
{
    let b = spec_header_bytes(h) + tail;
    assert(b[0] == h.version.spec_u8());
    assert(b[1] == h.request_response_code.spec_u8());
}

/// Base hash algorithm selector: at most one bit set.
#[derive(Debug, Clone, Copy, PartialEq, Eq, Structural)]
pub struct SpdmBaseHashAlgo {
    pub bits: u32,
}

impl SpdmBaseHashAlgo {
    pub fn tpm_alg_sha_256() -> (r: SpdmBaseHashAlgo)
        ensures
            r.bits == 0x1,
    {
        SpdmBaseHashAlgo { bits: 0x1 }
    }

    pub fn tpm_alg_sha_384() -> (r: SpdmBaseHashAlgo)
        ensures
            r.bits == 0x2,
    {
        SpdmBaseHashAlgo { bits: 0x2 }
    }

    pub fn tpm_alg_sha_512() -> (r: SpdmBaseHashAlgo)
        ensures
            r.bits == 0x4,
    {
        SpdmBaseHashAlgo { bits: 0x4 }
    }

    /// Digest size in bytes of the selected algorithm; 0 when none is
    /// selected.
    pub open spec fn spec_size(self) -> u16 {
        if self.bits == 0x1 {
            32
        } else if self.bits == 0x2 {
            48
        } else if self.bits == 0x4 {
            64
        } else {
            0
        }
    }

    pub fn empty() -> (r: SpdmBaseHashAlgo)
        ensures
            r.bits == 0,
    {
        SpdmBaseHashAlgo { bits: 0 }
    }

    pub fn get_size(&self) -> (r: u16)
        ensures
            r == self.spec_size(),
            r <= SPDM_MAX_HASH_SIZE,
    {
        if self.bits == 0x1 {
            32
        } else if self.bits == 0x2 {
            48
        } else if self.bits == 0x4 {
            64
        } else {
            0
        }
    }
}

/// Base asymmetric algorithm selector: at most one bit set.
#[derive(Debug, Clone, Copy, PartialEq, Eq, Structural)]
pub struct SpdmBaseAsymAlgo {
    pub bits: u32,
}

impl SpdmBaseAsymAlgo {
    pub fn tpm_alg_rsassa_2048() -> (r: SpdmBaseAsymAlgo)
        ensures
            r.bits == 0x1,
    {
        SpdmBaseAsymAlgo { bits: 0x1 }
    }

    pub fn tpm_alg_rsapss_2048() -> (r: SpdmBaseAsymAlgo)
        ensures
            r.bits == 0x2,
    {
        SpdmBaseAsymAlgo { bits: 0x2 }
    }

    pub fn tpm_alg_rsassa_3072() -> (r: SpdmBaseAsymAlgo)
        ensures
            r.bits == 0x4,
    {
        SpdmBaseAsymAlgo { bits: 0x4 }
    }

    pub fn tpm_alg_rsapss_3072() -> (r: SpdmBaseAsymAlgo)
        ensures
            r.bits == 0x8,
    {
        SpdmBaseAsymAlgo { bits: 0x8 }
    }

    pub fn tpm_alg_ecdsa_ecc_nist_p256() -> (r: SpdmBaseAsymAlgo)
        ensures
            r.bits == 0x10,
    {
        SpdmBaseAsymAlgo { bits: 0x10 }
    }

    pub fn tpm_alg_rsassa_4096() -> (r: SpdmBaseAsymAlgo)
        ensures
            r.bits == 0x20,
    {
        SpdmBaseAsymAlgo { bits: 0x20 }
    }

    pub fn tpm_alg_rsapss_4096() -> (r: SpdmBaseAsymAlgo)
        ensures
            r.bits == 0x40,
    {
        SpdmBaseAsymAlgo { bits: 0x40 }
    }

    pub fn tpm_alg_ecdsa_ecc_nist_p384() -> (r: SpdmBaseAsymAlgo)
        ensures
            r.bits == 0x80,
    {
        SpdmBaseAsymAlgo { bits: 0x80 }
    }

    /// Signature size in bytes of the selected algorithm; 0 when none is
    /// selected.
    pub open spec fn spec_size(self) -> u16 {
        if self.bits == 0x1 || self.bits == 0x2 {
            256
        } else if self.bits == 0x4 || self.bits == 0x8 {
            384
        } else if self.bits == 0x10 {
            64
        } else if self.bits == 0x20 || self.bits == 0x40 {
            512
        } else if self.bits == 0x80 {
            96
        } else {
            0
        }
    }

    pub fn empty() -> (r: SpdmBaseAsymAlgo)
        ensures
            r.bits == 0,
    {
        SpdmBaseAsymAlgo { bits: 0 }
    }

    pub fn get_size(&self) -> (r: u16)
        ensures
            r == self.spec_size(),
            r <= SPDM_MAX_ASYM_KEY_SIZE,
    {
        if self.bits == 0x1 || self.bits == 0x2 {
            256
        } else if self.bits == 0x4 || self.bits == 0x8 {
            384
        } else if self.bits == 0x10 {
            64
        } else if self.bits == 0x20 || self.bits == 0x40 {
            512
        } else if self.bits == 0x80 {
            96
        } else {
            0
        }
    }
}

/// Measurement hash algorithm selector: at most one bit set.
#[derive(Debug, Clone, Copy, PartialEq, Eq, Structural)]
pub struct SpdmMeasurementHashAlgo {
    pub bits: u32,
}

impl SpdmMeasurementHashAlgo {
    pub fn raw_bit_stream() -> (r: SpdmMeasurementHashAlgo)
        ensures
            r.bits == 0x1,
    {
        SpdmMeasurementHashAlgo { bits: 0x1 }
    }

    pub fn tpm_alg_sha_256() -> (r: SpdmMeasurementHashAlgo)
        ensures
            r.bits == 0x2,
    {
        SpdmMeasurementHashAlgo { bits: 0x2 }
    }

    pub fn tpm_alg_sha_384() -> (r: SpdmMeasurementHashAlgo)
        ensures
            r.bits == 0x4,
    {
        SpdmMeasurementHashAlgo { bits: 0x4 }
    }

    pub fn tpm_alg_sha_512() -> (r: SpdmMeasurementHashAlgo)
        ensures
            r.bits == 0x8,
    {
        SpdmMeasurementHashAlgo { bits: 0x8 }
    }

    pub fn empty() -> (r: SpdmMeasurementHashAlgo)
        ensures
            r.bits == 0,
    {
        SpdmMeasurementHashAlgo { bits: 0 }
    }
}

/// Measurement specification selector; DMTF is the only defined one.
#[derive(Debug, Clone, Copy, PartialEq, Eq, Structural)]
pub struct SpdmMeasurementSpecification {
    pub bits: u8,
}

impl SpdmMeasurementSpecification {
    pub fn dmtf() -> (r: SpdmMeasurementSpecification)
        ensures
            r.bits == 0x1,
    {
        SpdmMeasurementSpecification { bits: 0x1 }
    }

    pub fn empty() -> (r: SpdmMeasurementSpecification)
        ensures
            r.bits == 0,
    {
        SpdmMeasurementSpecification { bits: 0 }
    }
}

/// Which measurement summary hash a challenge asks for.
#[derive(Debug, Clone, Copy, PartialEq, Eq, Structural)]
pub enum SpdmMeasurementSummaryHashType {
    SpdmMeasurementSummaryHashTypeNone,
    SpdmMeasurementSummaryHashTypeTcb,
    SpdmMeasurementSummaryHashTypeAll,
    Unknown(u8),
}

/// The fixed 32-byte random nonce of signed exchanges.
#[derive(Debug, Clone, PartialEq, Eq)]
pub struct SpdmNonceStruct {
    pub data: Vec<u8>,
}

impl SpdmNonceStruct {
    pub open spec fn wf(&self) -> bool {
        self.data@.len() == SPDM_NONCE_SIZE
    }

    pub fn new(data: Vec<u8>) -> (r: SpdmNonceStruct)
        requires
            data@.len() == SPDM_NONCE_SIZE,
        ensures
            r.wf(),
            r.data@ == data@,
    {
        SpdmNonceStruct { data }
    }
}

impl View for SpdmNonceStruct {
    type V = Seq<u8>;

    open spec fn view(&self) -> Seq<u8> {
        self.data@
    }
}

impl Default for SpdmNonceStruct {
    /// An all-zero nonce.
    fn default() -> (r: SpdmNonceStruct)
        ensures
            r.wf(),
            r@ == Seq::<u8>::new(SPDM_NONCE_SIZE as nat, |i: int| 0u8),
    {
        let data = new_zero_vec(SPDM_NONCE_SIZE);
        assert(data@ =~= Seq::<u8>::new(SPDM_NONCE_SIZE as nat, |i: int| 0u8));
        SpdmNonceStruct { data }
    }
}

/// A `len`-byte vector of zeroes.
pub fn new_zero_vec(len: usize) -> (r: Vec<u8>)
    ensures
        r@.len() == len,
        forall|i: int| 0 <= i < len ==> r@[i] == 0u8,
{
    let mut v: Vec<u8> = Vec::new();
    let mut i: usize = 0;
    while i < len
        invariant
            i <= len,
            v@.len() == i,
            forall|j: int| 0 <= j < i ==> v@[j] == 0u8,
        decreases len - i,
    {
        v.push(0);
        i = i + 1;
    }
    v
}

/// A digest, sized by the hash algorithm that produced it.
#[derive(Debug, Clone, PartialEq, Eq)]
pub struct SpdmDigestStruct {
    pub data_size: u16,
    pub data: Vec<u8>,
}

impl SpdmDigestStruct {
    pub open spec fn wf(&self) -> bool {
        self.data@.len() == SPDM_MAX_HASH_SIZE && self.data_size <= SPDM_MAX_HASH_SIZE
    }
}

/// A signature, sized by the negotiated asymmetric algorithm. Bytes past
/// `data_size` are zero so that a decoded value equals the encoded one.
#[derive(Debug, Clone, PartialEq, Eq)]
pub struct SpdmSignatureStruct {
    pub data_size: u16,
    pub data: Vec<u8>,
}

/// Ghost image of a signature.
pub struct SpdmSignatureView {
    pub data_size: u16,
    pub data: Seq<u8>,
}

impl View for SpdmSignatureStruct {
    type V = SpdmSignatureView;

    open spec fn view(&self) -> SpdmSignatureView {
        SpdmSignatureView { data_size: self.data_size, data: self.data@ }
    }
}

/// Capacity, bound and zero padding of a signature image.
pub open spec fn spec_signature_view_wf(v: SpdmSignatureView) -> bool {
    &&& v.data.len() == SPDM_MAX_ASYM_KEY_SIZE
    &&& v.data_size <= SPDM_MAX_ASYM_KEY_SIZE
    &&& forall|i: int| v.data_size <= i < v.data.len() ==> v.data[i] == 0u8
}

impl SpdmSignatureStruct {
    pub open spec fn wf(&self) -> bool {
        spec_signature_view_wf(self@)
    }
}

impl Default for SpdmSignatureStruct {
    /// An empty signature: size zero, all bytes zero.
    fn default() -> (r: SpdmSignatureStruct)
        ensures
            r.wf(),
            r.data_size == 0,
            r@.data == Seq::<u8>::new(SPDM_MAX_ASYM_KEY_SIZE as nat, |i: int| 0u8),
    {
        let data = new_zero_vec(SPDM_MAX_ASYM_KEY_SIZE);
        assert(data@ =~= Seq::<u8>::new(SPDM_MAX_ASYM_KEY_SIZE as nat, |i: int| 0u8));
        SpdmSignatureStruct { data_size: 0, data }
    }
}

/// A measurement record: a count of blocks and their concatenated
/// encodings. Bytes past `measurement_record_length` are zero.
#[derive(Debug, Clone, PartialEq, Eq)]
pub struct SpdmMeasurementRecordStructure {
    pub number_of_blocks: u8,
    pub measurement_record_length: u24,
    pub measurement_record_data: Vec<u8>,
}

/// Ghost image of a measurement record.
pub struct SpdmMeasurementRecordView {
    pub number_of_blocks: u8,
    pub measurement_record_length: u32,
    pub measurement_record_data: Seq<u8>,
}

impl View for SpdmMeasurementRecordStructure {
    type V = SpdmMeasurementRecordView;

    open spec fn view(&self) -> SpdmMeasurementRecordView {
        SpdmMeasurementRecordView {
            number_of_blocks: self.number_of_blocks,
            measurement_record_length: self.measurement_record_length.spec_get(),
            measurement_record_data: self.measurement_record_data@,
        }
    }
}

/// Capacity, bound and zero padding of a measurement record image.
pub open spec fn spec_record_view_wf(v: SpdmMeasurementRecordView) -> bool {
    &&& v.measurement_record_data.len() == MAX_SPDM_MEASUREMENT_VALUE_LEN
    &&& v.measurement_record_length <= MAX_SPDM_MEASUREMENT_VALUE_LEN
    &&& forall|i: int|
        v.measurement_record_length <= i < v.measurement_record_data.len()
            ==> v.measurement_record_data[i] == 0u8
}

impl SpdmMeasurementRecordStructure {
    pub open spec fn wf(&self) -> bool {
        spec_record_view_wf(self@)
    }
}

impl Default for SpdmMeasurementRecordStructure {
    /// An empty record: no blocks, zero length, all bytes zero.
    fn default() -> (r: SpdmMeasurementRecordStructure)
        ensures
            r.wf(),
            r.number_of_blocks == 0,
            r@.measurement_record_length == 0,
            r@.measurement_record_data == Seq::<u8>::new(
                MAX_SPDM_MEASUREMENT_VALUE_LEN as nat,
                |i: int| 0u8,
            ),
    {
        let data = new_zero_vec(MAX_SPDM_MEASUREMENT_VALUE_LEN);
        assert(data@ =~= Seq::<u8>::new(MAX_SPDM_MEASUREMENT_VALUE_LEN as nat, |i: int| 0u8));
        SpdmMeasurementRecordStructure {
            number_of_blocks: 0,
            measurement_record_length: u24::new(0),
            measurement_record_data: data,
        }
    }
}

/// A whole certificate chain as provisioned or assembled: the used prefix
/// of a fixed-capacity buffer.
#[derive(Debug, Clone, PartialEq, Eq)]
pub struct SpdmCertChainData {
    pub data_size: u16,
    pub data: Vec<u8>,
}

impl SpdmCertChainData {
    pub open spec fn wf(&self) -> bool {
        &&& self.data@.len() == MAX_SPDM_CERT_CHAIN_DATA_SIZE
        &&& self.data_size <= MAX_SPDM_CERT_CHAIN_DATA_SIZE
    }

    /// The used prefix.
    pub open spec fn spec_content(&self) -> Seq<u8> {
        self.data@.take(self.data_size as int)
    }
}

impl Default for SpdmCertChainData {
    /// An empty chain buffer.
    fn default() -> (r: SpdmCertChainData)
        ensures
            r.wf(),
            r.data_size == 0,
            r.data@ == Seq::<u8>::new(MAX_SPDM_CERT_CHAIN_DATA_SIZE as nat, |i: int| 0u8),
    {
        let data = new_zero_vec(MAX_SPDM_CERT_CHAIN_DATA_SIZE);
        assert(data@ =~= Seq::<u8>::new(MAX_SPDM_CERT_CHAIN_DATA_SIZE as nat, |i: int| 0u8));
        SpdmCertChainData { data_size: 0, data }
    }
}

/// `n` zero bytes.
pub open spec fn zero_seq(n: int) -> Seq<u8> {
    Seq::new(n as nat, |i: int| 0u8)
}

/// Wire image of a signature under a negotiated asymmetric algorithm:
/// exactly `asym_size` bytes of the signature buffer.
pub open spec fn spec_signature_bytes(sig: SpdmSignatureView, asym_size: u16) -> Seq<u8> {
    sig.data.take(asym_size as int)
}

/// Signature decoded from the front of `bytes` under a negotiated
/// asymmetric algorithm: `asym_size` bytes, zero-padded to capacity.
pub open spec fn spec_read_signature(bytes: Seq<u8>, asym_size: u16) -> Option<SpdmSignatureView> {
    if bytes.len() >= asym_size {
        Some(
            SpdmSignatureView {
                data_size: asym_size,
                data: bytes.take(asym_size as int) + zero_seq(
                    SPDM_MAX_ASYM_KEY_SIZE - asym_size as int,
                ),
            },
        )
    } else {
        None
    }
}

impl SpdmSignatureStruct {
    /// Emits exactly `asym_size` bytes of the signature buffer.
    pub fn spdm_encode(&self, bytes: &mut Writer, asym_size: u16) -> (r: Result<usize, EncodeErr>)
        requires
            old(bytes).wf(),
            self.wf(),
            asym_size <= SPDM_MAX_ASYM_KEY_SIZE,
        ensures
            final(bytes).wf(),
            final(bytes).capacity() == old(bytes).capacity(),
            r is Ok <==> old(bytes).room() >= asym_size,
            r is Ok ==> r->Ok_0 == asym_size && final(bytes).spec_used() == old(
                bytes,
            ).spec_used() + asym_size && final(bytes).written() == old(bytes).written()
                + spec_signature_bytes(self@, asym_size),
            r is Err ==> *final(bytes) == *old(bytes),
    {
        bytes.write_bytes(self.data.as_slice(), asym_size as usize)
    }

    /// Reads exactly `asym_size` bytes and zero-pads the buffer.
    pub fn spdm_read(r: &mut Reader, asym_size: u16) -> (sig: Option<SpdmSignatureStruct>)
        requires
            old(r).wf(),
            asym_size <= SPDM_MAX_ASYM_KEY_SIZE,
        ensures
            final(r).wf(),
            final(r).bytes() == old(r).bytes(),
            sig is Some <==> old(r).remaining().len() >= asym_size,
            sig is Some ==> {
                &&& sig->0.wf()
                &&& sig->0.data_size == asym_size
                &&& Some(sig->0@) == spec_read_signature(old(r).remaining(), asym_size)
                &&& final(r).pos() == old(r).pos() + asym_size
            },
            sig is None ==> *final(r) == *old(r),
    {
        let data = r.read_bytes(asym_size as usize);
        match data {
            Some(mut data) => {
                while data.len() < SPDM_MAX_ASYM_KEY_SIZE
                    invariant
                        data@.len() <= SPDM_MAX_ASYM_KEY_SIZE,
                        data@.take(asym_size as int) == old(r).remaining().take(asym_size as int),
                        asym_size <= data@.len(),
                        forall|i: int| asym_size <= i < data@.len() ==> data@[i] == 0u8,
                    decreases SPDM_MAX_ASYM_KEY_SIZE - data@.len(),
                {
                    data.push(0);
                    assert(data@.take(asym_size as int) =~= old(r).remaining().take(
                        asym_size as int,
                    ));
                }
                let s = SpdmSignatureStruct { data_size: asym_size, data };
                proof {
                    let m = spec_read_signature(old(r).remaining(), asym_size)->0;
                    assert(s@.data =~= m.data);
                }
                Some(s)
            },
            None => None,
        }
    }
}

/// Encoding a signature and decoding it under the same algorithm gives it
/// back, whatever follows it on the wire.
pub proof fn lemma_signature_round_trip(sig: SpdmSignatureView, asym_size: u16, tail: Seq<u8>)
    requires
        spec_signature_view_wf(sig),
        sig.data_size == asym_size,
    ensures
        spec_read_signature(spec_signature_bytes(sig, asym_size) + tail, asym_size) == Some(sig),
{
    let b = spec_signature_bytes(sig, asym_size) + tail;
    let m = spec_read_signature(b, asym_size)->0;
    assert(m.data =~= sig.data);
}

/// Wire image of a measurement record: block count, 24-bit length, then
/// exactly that many record bytes.
pub open spec fn spec_record_bytes(rec: SpdmMeasurementRecordView) -> Seq<u8> {
    seq![rec.number_of_blocks] + u24_le(rec.measurement_record_length)
        + rec.measurement_record_data.take(rec.measurement_record_length as int)
}

/// Measurement record decoded from the front of `bytes`: rejected when the
/// length field exceeds the record capacity or the bytes run out.
pub open spec fn spec_read_record(bytes: Seq<u8>) -> Option<SpdmMeasurementRecordView> {
    if bytes.len() < 4 {
        None
    } else {
        let len = u24_of(bytes[1], bytes[2], bytes[3]);
        if len > MAX_SPDM_MEASUREMENT_VALUE_LEN || bytes.len() < 4 + len {
            None
        } else {
            Some(
                SpdmMeasurementRecordView {
                    number_of_blocks: bytes[0],
                    measurement_record_length: len,
                    measurement_record_data: bytes.subrange(4, 4 + len as int) + zero_seq(
                        MAX_SPDM_MEASUREMENT_VALUE_LEN - len as int,
                    ),
                },
            )
        }
    }
}

/// Number of wire bytes a record occupies.
pub open spec fn spec_record_len(rec: SpdmMeasurementRecordView) -> int {
    4 + rec.measurement_record_length as int
}

impl SpdmMeasurementRecordStructure {
    pub fn spdm_encode(&self, bytes: &mut Writer) -> (r: Result<usize, EncodeErr>)
        requires
            old(bytes).wf(),
            self.wf(),
        ensures
            final(bytes).wf(),
            final(bytes).capacity() == old(bytes).capacity(),
            r is Ok <==> old(bytes).room() >= spec_record_len(self@),
            r is Ok ==> r->Ok_0 == spec_record_len(self@) && final(bytes).spec_used() == old(
                bytes,
            ).spec_used() + spec_record_len(self@) && final(bytes).written() == old(
                bytes,
            ).written() + spec_record_bytes(self@),
            r is Err ==> final(bytes).spec_used() <= old(bytes).spec_used() + 4,
    {
        let len = self.measurement_record_length.get();
        let mut cnt: usize = 0;
        match bytes.write_u8(self.number_of_blocks) {
            Ok(n) => cnt = cnt + n,
            Err(e) => {
                return Err(e);
            },
        }
        match bytes.write_u24(len) {
            Ok(n) => cnt = cnt + n,
            Err(e) => {
                return Err(e);
            },
        }
        match bytes.write_bytes(self.measurement_record_data.as_slice(), len as usize) {
            Ok(n) => cnt = cnt + n,
            Err(e) => {
                return Err(e);
            },
        }
        assert(bytes.written() =~= old(bytes).written() + spec_record_bytes(self@));
        Ok(cnt)
    }

    pub fn spdm_read(r: &mut Reader) -> (rec: Option<SpdmMeasurementRecordStructure>)
        requires
            old(r).wf(),
        ensures
            final(r).wf(),
            final(r).bytes() == old(r).bytes(),
            rec is Some <==> spec_read_record(old(r).remaining()) is Some,
            rec is Some ==> {
                &&& rec->0.wf()
                &&& Some(rec->0@) == spec_read_record(old(r).remaining())
                &&& final(r).pos() == old(r).pos() + spec_record_len(rec->0@)
            },
    {
        let number_of_blocks = match r.read_u8() {
            Some(v) => v,
            None => {
                return None;
            },
        };
        let len = match r.read_u24() {
            Some(v) => v,
            None => {
                return None;
            },
        };
        if len as usize > MAX_SPDM_MEASUREMENT_VALUE_LEN {
            return None;
        }
        let data = match r.read_bytes(len as usize) {
            Some(v) => v,
            None => {
                return None;
            },
        };
        let mut data = data;
        while data.len() < MAX_SPDM_MEASUREMENT_VALUE_LEN
            invariant
                data@.len() <= MAX_SPDM_MEASUREMENT_VALUE_LEN,
                len <= data@.len(),
                data@.take(len as int) == old(r).remaining().subrange(4, 4 + len as int),
                forall|i: int| len <= i < data@.len() ==> data@[i] == 0u8,
            decreases MAX_SPDM_MEASUREMENT_VALUE_LEN - data@.len(),
        {
            data.push(0);
            assert(data@.take(len as int) =~= old(r).remaining().subrange(4, 4 + len as int));
        }
        let rec = SpdmMeasurementRecordStructure {
            number_of_blocks,
            measurement_record_length: u24::new(len),
            measurement_record_data: data,
        };
        proof {
            let m = spec_read_record(old(r).remaining())->0;
            assert(rec@.measurement_record_data =~= m.measurement_record_data);
        }
        Some(rec)
    }
}

/// Encoding a well-formed record and decoding it gives it back, whatever
/// follows it on the wire.
pub proof fn lemma_record_round_trip(rec: SpdmMeasurementRecordView, tail: Seq<u8>)
    requires
        spec_record_view_wf(rec),
    ensures
        spec_read_record(spec_record_bytes(rec) + tail) == Some(rec),
{
    let b = spec_record_bytes(rec) + tail;
    let len = rec.measurement_record_length;
    crate::codec::lemma_u24_round_trip(len);
    assert(b[1] == u24_le(len)[0] && b[2] == u24_le(len)[1] && b[3] == u24_le(len)[2]);
    assert(u24_of(b[1], b[2], b[3]) == len);
    let m = spec_read_record(b)->0;
    assert(b.subrange(4, 4 + len as int) =~= rec.measurement_record_data.take(len as int));
    assert(m.measurement_record_data =~= rec.measurement_record_data);
}

/// One DMTF measurement: a type/representation byte, a 16-bit size, then
/// exactly that many value bytes.
#[derive(Debug, Clone, Copy, PartialEq, Eq, Structural)]
pub enum SpdmDmtfMeasurementType {
    SpdmDmtfMeasurementRom,
    SpdmDmtfMeasurementFirmware,
    SpdmDmtfMeasurementHardwareConfig,
    SpdmDmtfMeasurementFirmwareConfig,
    SpdmDmtfMeasurementManifest,
    Unknown(u8),
}

impl SpdmDmtfMeasurementType {
    pub open spec fn spec_u8(self) -> u8 {
        match self {
            SpdmDmtfMeasurementType::SpdmDmtfMeasurementRom => 0x0,
            SpdmDmtfMeasurementType::SpdmDmtfMeasurementFirmware => 0x1,
            SpdmDmtfMeasurementType::SpdmDmtfMeasurementHardwareConfig => 0x2,
            SpdmDmtfMeasurementType::SpdmDmtfMeasurementFirmwareConfig => 0x3,
            SpdmDmtfMeasurementType::SpdmDmtfMeasurementManifest => 0x4,
            SpdmDmtfMeasurementType::Unknown(v) => v,
        }
    }

    pub fn get_u8(&self) -> (r: u8)
        ensures
            r == self.spec_u8(),
    {
        match self {
            SpdmDmtfMeasurementType::SpdmDmtfMeasurementRom => 0x0,
            SpdmDmtfMeasurementType::SpdmDmtfMeasurementFirmware => 0x1,
            SpdmDmtfMeasurementType::SpdmDmtfMeasurementHardwareConfig => 0x2,
            SpdmDmtfMeasurementType::SpdmDmtfMeasurementFirmwareConfig => 0x3,
            SpdmDmtfMeasurementType::SpdmDmtfMeasurementManifest => 0x4,
            SpdmDmtfMeasurementType::Unknown(v) => *v,
        }
    }
}

/// How a DMTF measurement value is represented.
#[derive(Debug, Clone, Copy, PartialEq, Eq, Structural)]
pub enum SpdmDmtfMeasurementRepresentation {
    SpdmDmtfMeasurementDigest,
    SpdmDmtfMeasurementRawBit,
    Unknown(u8),
}

impl SpdmDmtfMeasurementRepresentation {
    pub open spec fn spec_u8(self) -> u8 {
        match self {
            SpdmDmtfMeasurementRepresentation::SpdmDmtfMeasurementDigest => 0x0,
            SpdmDmtfMeasurementRepresentation::SpdmDmtfMeasurementRawBit => 0x80,
            SpdmDmtfMeasurementRepresentation::Unknown(v) => v,
        }
    }

    pub fn get_u8(&self) -> (r: u8)
        ensures
            r == self.spec_u8(),
    {
        match self {
            SpdmDmtfMeasurementRepresentation::SpdmDmtfMeasurementDigest => 0x0,
            SpdmDmtfMeasurementRepresentation::SpdmDmtfMeasurementRawBit => 0x80,
            SpdmDmtfMeasurementRepresentation::Unknown(v) => *v,
        }
    }
}

/// The typed body of a DMTF measurement block.
#[derive(Debug, Clone, PartialEq, Eq)]
pub struct SpdmDmtfMeasurementStructure {
    pub measurement_type: SpdmDmtfMeasurementType,
    pub representation: SpdmDmtfMeasurementRepresentation,
    pub value_size: u16,
    pub value: Vec<u8>,
}

impl SpdmDmtfMeasurementStructure {
    pub open spec fn wf(&self) -> bool {
        &&& self.value@.len() == MAX_SPDM_MEASUREMENT_VALUE_LEN
        &&& self.value_size <= MAX_SPDM_MEASUREMENT_VALUE_LEN
    }

    /// Wire image: representation bit folded into the type byte, then the
    /// size and exactly that many value bytes.
    pub open spec fn spec_bytes(&self) -> Seq<u8> {
        seq![self.measurement_type.spec_u8() | self.representation.spec_u8()] + u16_le(
            self.value_size,
        ) + self.value@.take(self.value_size as int)
    }

    pub fn spdm_encode(&self, bytes: &mut Writer) -> (r: Result<usize, EncodeErr>)
        requires
            old(bytes).wf(),
            self.wf(),
        ensures
            final(bytes).wf(),
            final(bytes).capacity() == old(bytes).capacity(),
            r is Ok <==> old(bytes).room() >= self.spec_bytes().len(),
            r is Ok ==> r->Ok_0 == self.spec_bytes().len() && final(bytes).spec_used() == old(
                bytes,
            ).spec_used() + self.spec_bytes().len() && final(bytes).written() == old(
                bytes,
            ).written() + self.spec_bytes(),
            r is Err ==> final(bytes).spec_used() <= old(bytes).spec_used() + 3,
    {
        let mut cnt: usize = 0;
        match bytes.write_u8(self.measurement_type.get_u8() | self.representation.get_u8()) {
            Ok(n) => cnt = cnt + n,
            Err(e) => {
                return Err(e);
            },
        }
        match bytes.write_u16(self.value_size) {
            Ok(n) => cnt = cnt + n,
            Err(e) => {
                return Err(e);
            },
        }
        match bytes.write_bytes(self.value.as_slice(), self.value_size as usize) {
            Ok(n) => cnt = cnt + n,
            Err(e) => {
                return Err(e);
            },
        }
        assert(bytes.written() =~= old(bytes).written() + self.spec_bytes());
        Ok(cnt)
    }
}

/// One measurement block: index, specification byte, 16-bit size, then the
/// DMTF body.
#[derive(Debug, Clone, PartialEq, Eq)]
pub struct SpdmMeasurementBlockStructure {
    pub index: u8,
    pub measurement_specification: SpdmMeasurementSpecification,
    pub measurement_size: u16,
    pub measurement: SpdmDmtfMeasurementStructure,
}

impl SpdmMeasurementBlockStructure {
    pub open spec fn wf(&self) -> bool {
        self.measurement.wf()
    }

    /// Wire image: block header then the DMTF body.
    pub open spec fn spec_bytes(&self) -> Seq<u8> {
        seq![self.index, self.measurement_specification.bits] + u16_le(self.measurement_size)
            + self.measurement.spec_bytes()
    }

    pub fn spdm_encode(&self, bytes: &mut Writer) -> (r: Result<usize, EncodeErr>)
        requires
            old(bytes).wf(),
            self.wf(),
        ensures
            final(bytes).wf(),
            final(bytes).capacity() == old(bytes).capacity(),
            r is Ok <==> old(bytes).room() >= self.spec_bytes().len(),
            r is Ok ==> r->Ok_0 == self.spec_bytes().len() && final(bytes).spec_used() == old(
                bytes,
            ).spec_used() + self.spec_bytes().len() && final(bytes).written() == old(
                bytes,
            ).written() + self.spec_bytes(),
            r is Err ==> final(bytes).spec_used() <= old(bytes).spec_used() + 7,
    {
        let mut cnt: usize = 0;
        match bytes.write_u8(self.index) {
            Ok(n) => cnt = cnt + n,
            Err(e) => {
                return Err(e);
            },
        }
        match bytes.write_u8(self.measurement_specification.bits) {
            Ok(n) => cnt = cnt + n,
            Err(e) => {
                return Err(e);
            },
        }
        match bytes.write_u16(self.measurement_size) {
            Ok(n) => cnt = cnt + n,
            Err(e) => {
                return Err(e);
            },
        }
        match self.measurement.spdm_encode(bytes) {
            Ok(n) => cnt = cnt + n,
            Err(e) => {
                return Err(e);
            },
        }
        assert(bytes.written() =~= old(bytes).written() + self.spec_bytes());
        Ok(cnt)
    }
}

/// A key produced by HKDF expansion, sized by the hash algorithm.
#[derive(Debug, Clone, PartialEq, Eq)]
pub struct SpdmHKDFKeyStruct {
    pub data_size: u16,
    pub data: Vec<u8>,
}

impl SpdmHKDFKeyStruct {
    pub open spec fn wf(&self) -> bool {
        self.data@.len() == crate::config::SPDM_MAX_HKDF_OKM_SIZE && self.data_size
            <= crate::config::SPDM_MAX_HKDF_OKM_SIZE
    }
}

/// One quarter of the SPDM 1.2 signing prefix: the ASCII bytes of
/// "dmtf-spdm-v1.2.*".
pub open spec fn spec_signing_prefix_quarter() -> Seq<u8> {
    seq![
        0x64u8,
        0x6du8,
        0x74u8,
        0x66u8,
        0x2du8,
        0x73u8,
        0x70u8,
        0x64u8,
        0x6du8,
        0x2du8,
        0x76u8,
        0x31u8,
        0x2eu8,
        0x32u8,
        0x2eu8,
        0x2au8,
    ]
}

/// The 64-byte SPDM 1.2 signing prefix: the quarter four times over.
pub open spec fn spec_signing_prefix() -> Seq<u8> {
    spec_signing_prefix_quarter() + spec_signing_prefix_quarter() + spec_signing_prefix_quarter()
        + spec_signing_prefix_quarter()
}

/// The six zero bytes that pad the signing context to its fixed width.
pub open spec fn spec_signing_zero_pad() -> Seq<u8> {
    zero_seq(6)
}

/// The ASCII bytes of "responder-measurements signing", the context tag of
/// a measurement signature.
pub open spec fn spec_measurements_sign_context() -> Seq<u8> {
    seq![
        0x72u8,
        0x65u8,
        0x73u8,
        0x70u8,
        0x6fu8,
        0x6eu8,
        0x64u8,
        0x65u8,
        0x72u8,
        0x2du8,
        0x6du8,
        0x65u8,
        0x61u8,
        0x73u8,
        0x75u8,
        0x72u8,
        0x65u8,
        0x6du8,
        0x65u8,
        0x6eu8,
        0x74u8,
        0x73u8,
        0x20u8,
        0x73u8,
        0x69u8,
        0x67u8,
        0x6eu8,
        0x69u8,
        0x6eu8,
        0x67u8,
    ]
}

fn push_signing_prefix_quarter(v: &mut Vec<u8>)
    ensures
        final(v)@ == old(v)@ + spec_signing_prefix_quarter(),
{
    v.push(0x64);
    v.push(0x6d);
    v.push(0x74);
    v.push(0x66);
    v.push(0x2d);
    v.push(0x73);
    v.push(0x70);
    v.push(0x64);
    v.push(0x6d);
    v.push(0x2d);
    v.push(0x76);
    v.push(0x31);
    v.push(0x2e);
    v.push(0x32);
    v.push(0x2e);
    v.push(0x2a);
    assert(v@ =~= old(v)@ + spec_signing_prefix_quarter());
}

/// The 64-byte SPDM 1.2 signing prefix as bytes.
pub fn spdm_version_1_2_signing_prefix_context() -> (r: Vec<u8>)
    ensures
        r@ == spec_signing_prefix(),
        r@.len() == 64,
{
    let mut v: Vec<u8> = Vec::new();
    push_signing_prefix_quarter(&mut v);
    push_signing_prefix_quarter(&mut v);
    push_signing_prefix_quarter(&mut v);
    push_signing_prefix_quarter(&mut v);
    assert(v@ =~= spec_signing_prefix());
    v
}

/// The six-byte zero pad of the SPDM 1.2 signing context.
pub fn spdm_version_1_2_signing_context_zeropad_6() -> (r: Vec<u8>)
    ensures
        r@ == spec_signing_zero_pad(),
        r@.len() == 6,
{
    let v = new_zero_vec(6);
    assert(v@ =~= spec_signing_zero_pad());
    v
}

/// The "responder-measurements signing" context tag as bytes.
pub fn spdm_measurements_sign_context() -> (r: Vec<u8>)
    ensures
        r@ == spec_measurements_sign_context(),
        r@.len() == 30,
{
    let mut v: Vec<u8> = Vec::new();
    v.push(0x72);
    v.push(0x65);
    v.push(0x73);
    v.push(0x70);
    v.push(0x6f);
    v.push(0x6e);
    v.push(0x64);
    v.push(0x65);
    v.push(0x72);
    v.push(0x2d);
    v.push(0x6d);
    v.push(0x65);
    v.push(0x61);
    v.push(0x73);
    v.push(0x75);
    v.push(0x72);
    v.push(0x65);
    v.push(0x6d);
    v.push(0x65);
    v.push(0x6e);
    v.push(0x74);
    v.push(0x73);
    v.push(0x20);
    v.push(0x73);
    v.push(0x69);
    v.push(0x67);
    v.push(0x6e);
    v.push(0x69);
    v.push(0x6e);
    v.push(0x67);
    assert(v@ =~= spec_measurements_sign_context());
    v
}

} // verus!
