//! The GET_MEASUREMENTS request and MEASUREMENTS response payloads, with
//! bit-exact wire images. Field presence is gated by the request
//! attributes, the negotiated version and the runtime signature flag, as
//! the SPDM specification prescribes.

use vstd::prelude::*;

use crate::codec::{EncodeErr, Reader, Writer};
use crate::common::{
    spec_opaque_bytes, spec_opaque_len, spec_read_opaque, SpdmContext,
    SpdmMeasurementContentChanged, SpdmOpaqueStruct, SpdmOpaqueView,
    MEASUREMENT_RESPONDER_PARAM2_CONTENT_CHANGED_MASK, MEASUREMENT_RESPONDER_PARAM2_SLOT_ID_MASK,
};
use crate::config::{SPDM_MAX_ASYM_KEY_SIZE, SPDM_MAX_SLOT_NUMBER, SPDM_NONCE_SIZE};
use crate::error::SpdmStatus;
use crate::protocol::{
    spec_read_record, spec_read_signature, spec_record_bytes, spec_record_len,
    spec_signature_bytes, zero_seq, SpdmMeasurementRecordStructure, SpdmMeasurementRecordView,
    SpdmNonceStruct, SpdmSignatureStruct, SpdmSignatureView, SpdmVersion,
};

verus! {

/// Param1 of a GET_MEASUREMENTS request: bit 0 asks for a signature, bit 1
/// asks for raw bit-stream representation.
#[derive(Debug, Clone, Copy, PartialEq, Eq, Structural)]
pub struct SpdmMeasurementAttributes {
    pub bits: u8,
}

impl SpdmMeasurementAttributes {
    /// The flag that asks the Responder to sign the response.
    pub fn signature_requested() -> (r: SpdmMeasurementAttributes)
        ensures
            r.bits == 0x1,
            r.wf(),
            r.spec_signature_requested(),
    {
        proof {
            assert(0x1u8 & 0x3u8 == 0x1u8 && 0x1u8 & 0x1u8 == 0x1u8) by (bit_vector);
        }
        SpdmMeasurementAttributes { bits: 0x1 }
    }

    /// The flag that asks for raw bit-stream representation.
    pub fn raw_bit_stream_requested() -> (r: SpdmMeasurementAttributes)
        ensures
            r.bits == 0x2,
            r.wf(),
            !r.spec_signature_requested(),
    {
        proof {
            assert(0x2u8 & 0x3u8 == 0x2u8 && 0x2u8 & 0x1u8 != 0x1u8) by (bit_vector);
        }
        SpdmMeasurementAttributes { bits: 0x2 }
    }

    /// No flag set.
    pub fn empty() -> (r: SpdmMeasurementAttributes)
        ensures
            r.bits == 0,
            r.wf(),
            !r.spec_signature_requested(),
    {
        proof {
            assert(0x0u8 & 0x3u8 == 0x0u8 && 0x0u8 & 0x1u8 != 0x1u8) by (bit_vector);
        }
        SpdmMeasurementAttributes { bits: 0 }
    }

    /// Only the two defined bits may be set.
    pub open spec fn wf(self) -> bool {
        self.bits & 0x3 == self.bits
    }

    /// Whether bit 0, SIGNATURE_REQUESTED, is set.
    pub open spec fn spec_signature_requested(self) -> bool {
        self.bits & 0x1 == 0x1
    }

    pub open spec fn spec_contains(self, other: SpdmMeasurementAttributes) -> bool {
        self.bits & other.bits == other.bits
    }

    /// Whether every flag of `other` is set in `self`.
    pub fn contains(&self, other: SpdmMeasurementAttributes) -> (r: bool)
        ensures
            r == self.spec_contains(other),
    {
        self.bits & other.bits == other.bits
    }

    /// The attribute set with these bits, rejected when an undefined bit
    /// is set.
    pub open spec fn spec_from_bits(bits: u8) -> Option<SpdmMeasurementAttributes> {
        if bits & 0xFC == 0 {
            Some(SpdmMeasurementAttributes { bits })
        } else {
            None
        }
    }

    pub fn from_bits(bits: u8) -> (r: Option<SpdmMeasurementAttributes>)
        ensures
            r == SpdmMeasurementAttributes::spec_from_bits(bits),
            r is Some ==> r->0.wf() && r->0.bits == bits,
    {
        if bits & 0xFC == 0 {
            proof {
                assert(bits & 0xFC == 0 ==> bits & 0x3 == bits) by (bit_vector);
            }
            Some(SpdmMeasurementAttributes { bits })
        } else {
            None
        }
    }

    /// Emits the attribute byte.
    pub fn encode(&self, bytes: &mut Writer) -> (r: Result<usize, EncodeErr>)
        requires
            old(bytes).wf(),
        ensures
            final(bytes).wf(),
            final(bytes).capacity() == old(bytes).capacity(),
            r is Ok <==> old(bytes).room() >= 1,
            r is Ok ==> r->Ok_0 == 1 && final(bytes).spec_used() == old(bytes).spec_used() + 1
                && final(bytes).written() == old(bytes).written().push(self.bits),
            r is Err ==> *final(bytes) == *old(bytes),
    {
        bytes.write_u8(self.bits)
    }

    /// Reads the attribute byte, rejecting undefined bits.
    pub fn read(r: &mut Reader) -> (a: Option<SpdmMeasurementAttributes>)
        requires
            old(r).wf(),
        ensures
            final(r).wf(),
            final(r).bytes() == old(r).bytes(),
            a is Some <==> old(r).remaining().len() >= 1
                && SpdmMeasurementAttributes::spec_from_bits(old(r).remaining()[0]) is Some,
            a is Some ==> a == SpdmMeasurementAttributes::spec_from_bits(old(r).remaining()[0])
                && a->0.wf() && final(r).pos() == old(r).pos() + 1,
    {
        let bits = match r.read_u8() {
            Some(v) => v,
            None => {
                return None;
            },
        };
        SpdmMeasurementAttributes::from_bits(bits)
    }
}

/// Param2 of a GET_MEASUREMENTS request: which measurements are asked for.
#[derive(Debug, Clone, Copy, PartialEq, Eq, Structural)]
pub enum SpdmMeasurementOperation {
    SpdmMeasurementQueryTotalNumber,
    SpdmMeasurementRequestAll,
    Unknown(u8),
}

impl SpdmMeasurementOperation {
    pub open spec fn spec_u8(self) -> u8 {
        match self {
            SpdmMeasurementOperation::SpdmMeasurementQueryTotalNumber => 0x0,
            SpdmMeasurementOperation::SpdmMeasurementRequestAll => 0xFF,
            SpdmMeasurementOperation::Unknown(v) => v,
        }
    }

    /// `Unknown` never shadows a known value.
    pub open spec fn wf(self) -> bool {
        self matches SpdmMeasurementOperation::Unknown(v) ==> v != 0x0 && v != 0xFF
    }

    pub open spec fn spec_from_u8(v: u8) -> SpdmMeasurementOperation {
        if v == 0x0 {
            SpdmMeasurementOperation::SpdmMeasurementQueryTotalNumber
        } else if v == 0xFF {
            SpdmMeasurementOperation::SpdmMeasurementRequestAll
        } else {
            SpdmMeasurementOperation::Unknown(v)
        }
    }

    pub fn get_u8(&self) -> (r: u8)
        ensures
            r == self.spec_u8(),
    {
        match self {
            SpdmMeasurementOperation::SpdmMeasurementQueryTotalNumber => 0x0,
            SpdmMeasurementOperation::SpdmMeasurementRequestAll => 0xFF,
            SpdmMeasurementOperation::Unknown(v) => *v,
        }
    }

    pub fn from_u8(v: u8) -> (r: SpdmMeasurementOperation)
        ensures
            r == SpdmMeasurementOperation::spec_from_u8(v),
            r.wf(),
    {
        if v == 0x0 {
            SpdmMeasurementOperation::SpdmMeasurementQueryTotalNumber
        } else if v == 0xFF {
            SpdmMeasurementOperation::SpdmMeasurementRequestAll
        } else {
            SpdmMeasurementOperation::Unknown(v)
        }
    }
}

/// The GET_MEASUREMENTS request payload. The nonce and slot id stand on
/// the wire only when a signature is requested; decoded without one, they
/// default to zero.
#[derive(Debug, Clone, PartialEq, Eq)]
pub struct SpdmGetMeasurementsRequestPayload {
    pub measurement_attributes: SpdmMeasurementAttributes,
    pub measurement_operation: SpdmMeasurementOperation,
    pub nonce: SpdmNonceStruct,
    pub slot_id: u8,
}

/// Ghost image of a GET_MEASUREMENTS request payload.
pub struct GetMeasurementsRequestView {
    pub measurement_attributes: SpdmMeasurementAttributes,
    pub measurement_operation: SpdmMeasurementOperation,
    pub nonce: Seq<u8>,
    pub slot_id: u8,
}

impl View for SpdmGetMeasurementsRequestPayload {
    type V = GetMeasurementsRequestView;

    open spec fn view(&self) -> GetMeasurementsRequestView {
        GetMeasurementsRequestView {
            measurement_attributes: self.measurement_attributes,
            measurement_operation: self.measurement_operation,
            nonce: self.nonce@,
            slot_id: self.slot_id,
        }
    }
}

impl SpdmGetMeasurementsRequestPayload {
    pub open spec fn wf(&self) -> bool {
        &&& self.measurement_attributes.wf()
        &&& self.measurement_operation.wf()
        &&& self.nonce.wf()
    }
}

impl Default for SpdmGetMeasurementsRequestPayload {
    /// No flags, total-number query, zero nonce, slot 0.
    fn default() -> (r: SpdmGetMeasurementsRequestPayload)
        ensures
            r.wf(),
            r@.measurement_attributes.bits == 0,
            r@.measurement_operation
                == SpdmMeasurementOperation::SpdmMeasurementQueryTotalNumber,
            r@.nonce == zero_seq(SPDM_NONCE_SIZE as int),
            r@.slot_id == 0,
    {
        let nonce = SpdmNonceStruct::default();
        assert(nonce@ =~= zero_seq(SPDM_NONCE_SIZE as int));
        SpdmGetMeasurementsRequestPayload {
            measurement_attributes: SpdmMeasurementAttributes::empty(),
            measurement_operation: SpdmMeasurementOperation::SpdmMeasurementQueryTotalNumber,
            nonce,
            slot_id: 0,
        }
    }
}

/// Wire image of a GET_MEASUREMENTS request payload: the two parameter
/// bytes, then nonce and slot id exactly when a signature is requested.
pub open spec fn spec_gm_request_bytes(v: GetMeasurementsRequestView) -> Seq<u8> {
    let head = seq![v.measurement_attributes.bits, v.measurement_operation.spec_u8()];
    if v.measurement_attributes.spec_signature_requested() {
        head + v.nonce + seq![v.slot_id]
    } else {
        head
    }
}

/// Request payload decoded from the front of `bytes`. Undefined attribute
/// bits are rejected; absent fields decode to zero.
pub open spec fn spec_read_gm_request(bytes: Seq<u8>) -> Option<GetMeasurementsRequestView> {
    if bytes.len() < 2 {
        None
    } else {
        match SpdmMeasurementAttributes::spec_from_bits(bytes[0]) {
            Option::None => None,
            Option::Some(attrs) => {
                let op = SpdmMeasurementOperation::spec_from_u8(bytes[1]);
                if attrs.spec_signature_requested() {
                    if bytes.len() < 2 + SPDM_NONCE_SIZE + 1 {
                        None
                    } else {
                        Some(
                            GetMeasurementsRequestView {
                                measurement_attributes: attrs,
                                measurement_operation: op,
                                nonce: bytes.subrange(2, 2 + SPDM_NONCE_SIZE as int),
                                slot_id: bytes[2 + SPDM_NONCE_SIZE as int],
                            },
                        )
                    }
                } else {
                    Some(
                        GetMeasurementsRequestView {
                            measurement_attributes: attrs,
                            measurement_operation: op,
                            nonce: zero_seq(SPDM_NONCE_SIZE as int),
                            slot_id: 0,
                        },
                    )
                }
            },
        }
    }
}

impl SpdmGetMeasurementsRequestPayload {
    /// Emits the payload after the message header. The context is not
    /// consulted; it stands in the signature because every payload codec
    /// takes it.
    pub fn spdm_encode(&self, context: &mut SpdmContext, bytes: &mut Writer) -> (r: Result<
        usize,
        SpdmStatus,
    >)
        requires
            old(bytes).wf(),
            self.wf(),
        ensures
            *final(context) == *old(context),
            final(bytes).wf(),
            final(bytes).capacity() == old(bytes).capacity(),
            r is Ok <==> old(bytes).room() >= spec_gm_request_bytes(self@).len(),
            r is Ok ==> r->Ok_0 == spec_gm_request_bytes(self@).len() && final(bytes).written()
                == old(bytes).written() + spec_gm_request_bytes(self@),
            r is Err ==> r->Err_0 == SpdmStatus::BufferFull && final(bytes).spec_used() <= old(
                bytes,
            ).spec_used() + spec_gm_request_bytes(self@).len(),
    {
        let mut cnt: usize = 0;
        match self.measurement_attributes.encode(bytes) {
            Ok(n) => cnt = cnt + n,
            Err(_) => {
                return Err(SpdmStatus::BufferFull);
            },
        }
        match bytes.write_u8(self.measurement_operation.get_u8()) {
            Ok(n) => cnt = cnt + n,
            Err(_) => {
                return Err(SpdmStatus::BufferFull);
            },
        }
        if self.measurement_attributes.contains(SpdmMeasurementAttributes::signature_requested()) {
            match bytes.write_bytes(self.nonce.data.as_slice(), SPDM_NONCE_SIZE) {
                Ok(n) => cnt = cnt + n,
                Err(_) => {
                    return Err(SpdmStatus::BufferFull);
                },
            }
            match bytes.write_u8(self.slot_id) {
                Ok(n) => cnt = cnt + n,
                Err(_) => {
                    return Err(SpdmStatus::BufferFull);
                },
            }
            assert(self.nonce.data@.take(SPDM_NONCE_SIZE as int) =~= self.nonce.data@);
            assert(bytes.written() =~= old(bytes).written() + spec_gm_request_bytes(self@));
        } else {
            assert(bytes.written() =~= old(bytes).written() + spec_gm_request_bytes(self@));
        }
        Ok(cnt)
    }

    /// Decodes the payload after the message header. The context is not
    /// consulted; it stands in the signature because every payload codec
    /// takes it.
    pub fn spdm_read(context: &mut SpdmContext, r: &mut Reader) -> (res: Option<
        SpdmGetMeasurementsRequestPayload,
    >)
        requires
            old(r).wf(),
        ensures
            *final(context) == *old(context),
            final(r).wf(),
            final(r).bytes() == old(r).bytes(),
            res is Some <==> spec_read_gm_request(old(r).remaining()) is Some,
            res is Some ==> {
                &&& res->0.wf()
                &&& Some(res->0@) == spec_read_gm_request(old(r).remaining())
                &&& final(r).pos() == old(r).pos() + spec_gm_request_bytes(res->0@).len()
            },
    {
        let attrs = match SpdmMeasurementAttributes::read(r) {
            Some(v) => v,
            None => {
                return None;
            },
        };
        let op_byte = match r.read_u8() {
            Some(v) => v,
            None => {
                return None;
            },
        };
        let op = SpdmMeasurementOperation::from_u8(op_byte);
        if attrs.contains(SpdmMeasurementAttributes::signature_requested()) {
            let nonce_bytes = match r.read_bytes(SPDM_NONCE_SIZE) {
                Some(v) => v,
                None => {
                    return None;
                },
            };
            let slot_id = match r.read_u8() {
                Some(v) => v,
                None => {
                    return None;
                },
            };
            let res = SpdmGetMeasurementsRequestPayload {
                measurement_attributes: attrs,
                measurement_operation: op,
                nonce: SpdmNonceStruct::new(nonce_bytes),
                slot_id,
            };
            proof {
                let m = spec_read_gm_request(old(r).remaining())->0;
                assert(res@.nonce =~= m.nonce);
            }
            Some(res)
        } else {
            let res = SpdmGetMeasurementsRequestPayload {
                measurement_attributes: attrs,
                measurement_operation: op,
                nonce: SpdmNonceStruct::default(),
                slot_id: 0,
            };
            proof {
                let m = spec_read_gm_request(old(r).remaining())->0;
                assert(res@.nonce =~= m.nonce);
            }
            Some(res)
        }
    }
}

/// A GET_MEASUREMENTS request survives an encode/decode round trip,
/// whatever follows it on the wire. When no signature is requested the
/// nonce and slot id are not on the wire, so the round trip holds of
/// payloads whose absent fields are zero — exactly what decoding yields.
pub proof fn lemma_gm_request_round_trip(p: SpdmGetMeasurementsRequestPayload, tail: Seq<u8>)
    requires
        p.wf(),
        !p.measurement_attributes.spec_signature_requested() ==> p@.nonce == zero_seq(
            SPDM_NONCE_SIZE as int,
        ) && p.slot_id == 0,
    ensures
        spec_read_gm_request(spec_gm_request_bytes(p@) + tail) == Some(p@),
{
    let b = spec_gm_request_bytes(p@) + tail;
    assert(b[0] == p.measurement_attributes.bits);
    assert(b[1] == p.measurement_operation.spec_u8());
    let ab = p.measurement_attributes.bits;
    assert(ab & 0x3 == ab ==> ab & 0xFC == 0) by (bit_vector);
    let attrs = SpdmMeasurementAttributes::spec_from_bits(b[0])->0;
    assert(attrs == p.measurement_attributes);
    if p.measurement_attributes.spec_signature_requested() {
        assert(b.len() >= 2 + SPDM_NONCE_SIZE + 1);
        let m = spec_read_gm_request(b)->0;
        assert(m.nonce =~= p@.nonce);
        assert(b[2 + SPDM_NONCE_SIZE as int] == p.slot_id);
    }
}

/// When SIGNATURE_REQUESTED is clear, a GET_MEASUREMENTS request payload
/// is exactly the two parameter bytes; with it set, nonce and slot id
/// follow.
pub proof fn lemma_gm_request_length(v: GetMeasurementsRequestView)
    ensures
        !v.measurement_attributes.spec_signature_requested() ==> spec_gm_request_bytes(v).len()
            == 2,
        v.measurement_attributes.spec_signature_requested() ==> spec_gm_request_bytes(v).len()
            == 2 + v.nonce.len() + 1,
{
}

/// The MEASUREMENTS response payload.
#[derive(Debug, Clone, PartialEq, Eq)]
pub struct SpdmMeasurementsResponsePayload {
    pub number_of_measurement: u8,
    pub content_changed: SpdmMeasurementContentChanged,
    pub slot_id: u8,
    pub measurement_record: SpdmMeasurementRecordStructure,
    pub nonce: SpdmNonceStruct,
    pub opaque: SpdmOpaqueStruct,
    pub signature: SpdmSignatureStruct,
}

/// Ghost image of a MEASUREMENTS response payload.
pub struct MeasurementsResponseView {
    pub number_of_measurement: u8,
    pub content_changed: SpdmMeasurementContentChanged,
    pub slot_id: u8,
    pub measurement_record: SpdmMeasurementRecordView,
    pub nonce: Seq<u8>,
    pub opaque: SpdmOpaqueView,
    pub signature: SpdmSignatureView,
}

impl View for SpdmMeasurementsResponsePayload {
    type V = MeasurementsResponseView;

    open spec fn view(&self) -> MeasurementsResponseView {
        MeasurementsResponseView {
            number_of_measurement: self.number_of_measurement,
            content_changed: self.content_changed,
            slot_id: self.slot_id,
            measurement_record: self.measurement_record@,
            nonce: self.nonce@,
            opaque: self.opaque@,
            signature: self.signature@,
        }
    }
}

impl SpdmMeasurementsResponsePayload {
    pub open spec fn wf(&self) -> bool {
        &&& self.measurement_record.wf()
        &&& self.nonce.wf()
        &&& self.opaque.wf()
        &&& self.signature.wf()
    }
}

/// Param2 of a MEASUREMENTS response: the slot id, with the
/// content-changed bits packed in under SPDM 1.2 with runtime content
/// change support.
pub open spec fn spec_response_param2(
    v: MeasurementsResponseView,
    version: SpdmVersion,
    rcc_support: bool,
) -> u8 {
    if version.spec_u8() >= 0x12 && rcc_support {
        v.slot_id | v.content_changed.bits
    } else {
        v.slot_id
    }
}

/// Param1 of a MEASUREMENTS response. The specification reserves the
/// field unless the request asked for the total number, and a total of
/// one is emitted as zero.
pub open spec fn spec_response_param1(v: MeasurementsResponseView) -> u8 {
    if v.number_of_measurement == 1 {
        0
    } else {
        v.number_of_measurement
    }
}

/// Wire image of a MEASUREMENTS response payload: the two parameter
/// bytes, the record, the nonce, the opaque data, and the signature
/// exactly when one is owed.
pub open spec fn spec_measurements_response_bytes(
    v: MeasurementsResponseView,
    version: SpdmVersion,
    rcc_support: bool,
    need_sig: bool,
    asym_size: u16,
) -> Seq<u8> {
    seq![spec_response_param1(v), spec_response_param2(v, version, rcc_support)]
        + spec_record_bytes(v.measurement_record) + v.nonce + spec_opaque_bytes(v.opaque) + (
    if need_sig {
        spec_signature_bytes(v.signature, asym_size)
    } else {
        Seq::<u8>::empty()
    })
}

/// Response payload decoded from the front of `bytes`: Param2 is unpacked
/// through the slot and content-changed masks, and the signature is read
/// exactly when one is owed.
pub open spec fn spec_read_measurements_response(
    bytes: Seq<u8>,
    need_sig: bool,
    asym_size: u16,
) -> Option<MeasurementsResponseView> {
    if bytes.len() < 2 {
        None
    } else {
        let number_of_measurement = bytes[0];
        let param2 = bytes[1];
        match SpdmMeasurementContentChanged::spec_from_bits(param2 & 0x30) {
            Option::None => None,
            Option::Some(cc) => match spec_read_record(bytes.skip(2)) {
                Option::None => None,
                Option::Some(rec) => {
                    let off = 2 + spec_record_len(rec);
                    if bytes.len() < off + SPDM_NONCE_SIZE {
                        None
                    } else {
                        let nonce = bytes.subrange(off, off + SPDM_NONCE_SIZE as int);
                        match spec_read_opaque(bytes.skip(off + SPDM_NONCE_SIZE as int)) {
                            Option::None => None,
                            Option::Some(op) => {
                                let off2 = off + SPDM_NONCE_SIZE + spec_opaque_len(op);
                                if need_sig {
                                    match spec_read_signature(bytes.skip(off2), asym_size) {
                                        Option::None => None,
                                        Option::Some(sig) => Some(
                                            MeasurementsResponseView {
                                                number_of_measurement,
                                                content_changed: cc,
                                                slot_id: param2 & 0xF,
                                                measurement_record: rec,
                                                nonce,
                                                opaque: op,
                                                signature: sig,
                                            },
                                        ),
                                    }
                                } else {
                                    Some(
                                        MeasurementsResponseView {
                                            number_of_measurement,
                                            content_changed: cc,
                                            slot_id: param2 & 0xF,
                                            measurement_record: rec,
                                            nonce,
                                            opaque: op,
                                            signature: SpdmSignatureView {
                                                data_size: 0,
                                                data: zero_seq(SPDM_MAX_ASYM_KEY_SIZE as int),
                                            },
                                        },
                                    )
                                }
                            },
                        }
                    }
                },
            },
        }
    }
}

/// Number of wire bytes a response payload occupies.
pub open spec fn spec_measurements_response_len(
    v: MeasurementsResponseView,
    need_sig: bool,
    asym_size: u16,
) -> int {
    2 + spec_record_len(v.measurement_record) + SPDM_NONCE_SIZE + spec_opaque_len(v.opaque) + (
    if need_sig {
        asym_size as int
    } else {
        0
    })
}

impl SpdmMeasurementsResponsePayload {
    /// Emits the payload after the message header, under the context's
    /// negotiated version, content-change support and signature flag.
    pub fn spdm_encode(&self, context: &mut SpdmContext, bytes: &mut Writer) -> (r: Result<
        usize,
        SpdmStatus,
    >)
        requires
            old(bytes).wf(),
            self.wf(),
        ensures
            *final(context) == *old(context),
            final(bytes).wf(),
            final(bytes).capacity() == old(bytes).capacity(),
            r is Ok <==> old(bytes).room() >= spec_measurements_response_bytes(
                self@,
                old(context).negotiate_info.spdm_version_sel,
                old(context).config_info.runtime_content_change_support,
                old(context).runtime_info.need_measurement_signature,
                old(context).negotiate_info.base_asym_sel.spec_size(),
            ).len(),
            r is Ok ==> r->Ok_0 == spec_measurements_response_bytes(
                self@,
                old(context).negotiate_info.spdm_version_sel,
                old(context).config_info.runtime_content_change_support,
                old(context).runtime_info.need_measurement_signature,
                old(context).negotiate_info.base_asym_sel.spec_size(),
            ).len() && final(bytes).written() == old(bytes).written()
                + spec_measurements_response_bytes(
                self@,
                old(context).negotiate_info.spdm_version_sel,
                old(context).config_info.runtime_content_change_support,
                old(context).runtime_info.need_measurement_signature,
                old(context).negotiate_info.base_asym_sel.spec_size(),
            ),
            r is Err ==> r->Err_0 == SpdmStatus::BufferFull,
    {
        let ghost enc = spec_measurements_response_bytes(
            self@,
            old(context).negotiate_info.spdm_version_sel,
            old(context).config_info.runtime_content_change_support,
            old(context).runtime_info.need_measurement_signature,
            old(context).negotiate_info.base_asym_sel.spec_size(),
        );
        let mut cnt: usize = 0;
        let param1: u8 = if self.number_of_measurement == 1 {
            0
        } else {
            self.number_of_measurement
        };
        match bytes.write_u8(param1) {
            Ok(n) => cnt = cnt + n,
            Err(_) => {
                return Err(SpdmStatus::BufferFull);
            },
        }
        let param2: u8 = if context.negotiate_info.spdm_version_sel.get_u8() >= 0x12
            && context.config_info.runtime_content_change_support {
            self.slot_id | self.content_changed.bits()
        } else {
            self.slot_id
        };
        match bytes.write_u8(param2) {
            Ok(n) => cnt = cnt + n,
            Err(_) => {
                return Err(SpdmStatus::BufferFull);
            },
        }
        match self.measurement_record.spdm_encode(bytes) {
            Ok(n) => cnt = cnt + n,
            Err(_) => {
                return Err(SpdmStatus::BufferFull);
            },
        }
        match bytes.write_bytes(self.nonce.data.as_slice(), SPDM_NONCE_SIZE) {
            Ok(n) => cnt = cnt + n,
            Err(_) => {
                return Err(SpdmStatus::BufferFull);
            },
        }
        assert(self.nonce.data@.take(SPDM_NONCE_SIZE as int) =~= self.nonce.data@);
        match self.opaque.spdm_encode(bytes) {
            Ok(n) => cnt = cnt + n,
            Err(_) => {
                return Err(SpdmStatus::BufferFull);
            },
        }
        if context.runtime_info.need_measurement_signature {
            let asym_size = context.negotiate_info.base_asym_sel.get_size();
            match self.signature.spdm_encode(bytes, asym_size) {
                Ok(n) => cnt = cnt + n,
                Err(_) => {
                    return Err(SpdmStatus::BufferFull);
                },
            }
        }
        assert(bytes.written() =~= old(bytes).written() + enc);
        Ok(cnt)
    }

    /// Decodes the payload after the message header, under the context's
    /// signature flag and negotiated signature size.
    pub fn spdm_read(context: &mut SpdmContext, r: &mut Reader) -> (res: Option<
        SpdmMeasurementsResponsePayload,
    >)
        requires
            old(r).wf(),
        ensures
            *final(context) == *old(context),
            final(r).wf(),
            final(r).bytes() == old(r).bytes(),
            res is Some <==> spec_read_measurements_response(
                old(r).remaining(),
                old(context).runtime_info.need_measurement_signature,
                old(context).negotiate_info.base_asym_sel.spec_size(),
            ) is Some,
            res is Some ==> {
                &&& res->0.wf()
                &&& Some(res->0@) == spec_read_measurements_response(
                    old(r).remaining(),
                    old(context).runtime_info.need_measurement_signature,
                    old(context).negotiate_info.base_asym_sel.spec_size(),
                )
                &&& final(r).pos() == old(r).pos() + spec_measurements_response_len(
                    res->0@,
                    old(context).runtime_info.need_measurement_signature,
                    old(context).negotiate_info.base_asym_sel.spec_size(),
                )
            },
    {
        let ghost orig = old(r).remaining();
        let number_of_measurement = match r.read_u8() {
            Some(v) => v,
            None => {
                return None;
            },
        };
        let param2 = match r.read_u8() {
            Some(v) => v,
            None => {
                return None;
            },
        };
        let slot_id = param2 & MEASUREMENT_RESPONDER_PARAM2_SLOT_ID_MASK;
        let cc_bits = param2 & MEASUREMENT_RESPONDER_PARAM2_CONTENT_CHANGED_MASK;
        let content_changed = match SpdmMeasurementContentChanged::from_bits(cc_bits) {
            Some(v) => v,
            None => {
                return None;
            },
        };
        assert(r.remaining() =~= orig.skip(2));
        let measurement_record = match SpdmMeasurementRecordStructure::spdm_read(r) {
            Some(v) => v,
            None => {
                return None;
            },
        };
        let ghost off = 2 + spec_record_len(measurement_record@);
        assert(r.remaining() =~= orig.skip(off));
        let nonce_bytes = match r.read_bytes(SPDM_NONCE_SIZE) {
            Some(v) => v,
            None => {
                return None;
            },
        };
        proof {
            assert(orig.skip(off).take(SPDM_NONCE_SIZE as int) =~= orig.subrange(
                off,
                off + SPDM_NONCE_SIZE as int,
            ));
        }
        assert(r.remaining() =~= orig.skip(off + SPDM_NONCE_SIZE as int));
        let opaque = match SpdmOpaqueStruct::spdm_read(r) {
            Some(v) => v,
            None => {
                return None;
            },
        };
        let ghost off2 = off + SPDM_NONCE_SIZE + spec_opaque_len(opaque@);
        assert(r.remaining() =~= orig.skip(off2));
        let signature = if context.runtime_info.need_measurement_signature {
            let asym_size = context.negotiate_info.base_asym_sel.get_size();
            match SpdmSignatureStruct::spdm_read(r, asym_size) {
                Some(v) => v,
                None => {
                    return None;
                },
            }
        } else {
            SpdmSignatureStruct::default()
        };
        let res = SpdmMeasurementsResponsePayload {
            number_of_measurement,
            content_changed,
            slot_id,
            measurement_record,
            nonce: SpdmNonceStruct::new(nonce_bytes),
            opaque,
            signature,
        };
        proof {
            let m = spec_read_measurements_response(
                orig,
                old(context).runtime_info.need_measurement_signature,
                old(context).negotiate_info.base_asym_sel.spec_size(),
            )->0;
            assert(res@.nonce =~= m.nonce);
            if !old(context).runtime_info.need_measurement_signature {
                assert(res@.signature.data =~= m.signature.data);
            }
        }
        Some(res)
    }
}

/// What must hold of a response payload for it to survive a round trip
/// under the given context parameters: the slot id fits its four Param2
/// bits, the content-changed bits are only on the wire when the version
/// and configuration put them there, Param1 is not the value the
/// specification folds to zero, and the signature is present exactly with
/// the negotiated size.
pub open spec fn spec_response_round_trip_compatible(
    v: MeasurementsResponseView,
    version: SpdmVersion,
    rcc_support: bool,
    need_sig: bool,
    asym_size: u16,
) -> bool {
    &&& v.slot_id < SPDM_MAX_SLOT_NUMBER
    &&& v.number_of_measurement != 1
    &&& if version.spec_u8() >= 0x12 && rcc_support {
        v.content_changed.wf()
    } else {
        v.content_changed.bits == 0
    }
    &&& if need_sig {
        v.signature.data_size == asym_size
    } else {
        v.signature == SpdmSignatureView {
            data_size: 0,
            data: zero_seq(SPDM_MAX_ASYM_KEY_SIZE as int),
        }
    }
}

/// How the segments of an encoded MEASUREMENTS response line up behind
/// the two parameter bytes.
proof fn lemma_response_wire_layout(
    v: MeasurementsResponseView,
    version: SpdmVersion,
    rcc_support: bool,
    need_sig: bool,
    asym_size: u16,
    tail: Seq<u8>,
)
    requires
        crate::protocol::spec_record_view_wf(v.measurement_record),
        crate::common::spec_opaque_view_wf(v.opaque),
        asym_size <= v.signature.data.len(),
    ensures
        ({
            let sig_part = if need_sig {
                spec_signature_bytes(v.signature, asym_size)
            } else {
                Seq::<u8>::empty()
            };
            let b = spec_measurements_response_bytes(v, version, rcc_support, need_sig, asym_size)
                + tail;
            let off = 2 + spec_record_len(v.measurement_record);
            let off2 = off + v.nonce.len() + spec_opaque_len(v.opaque);
            &&& b[0] == spec_response_param1(v)
            &&& b[1] == spec_response_param2(v, version, rcc_support)
            &&& b.skip(2) == spec_record_bytes(v.measurement_record) + (v.nonce
                + spec_opaque_bytes(v.opaque) + sig_part + tail)
            &&& b.subrange(off, off + v.nonce.len() as int) == v.nonce
            &&& b.skip(off + v.nonce.len() as int) == spec_opaque_bytes(v.opaque) + (sig_part
                + tail)
            &&& b.skip(off2) == sig_part + tail
        }),
{
    let sig_part = if need_sig {
        spec_signature_bytes(v.signature, asym_size)
    } else {
        Seq::<u8>::empty()
    };
    let b = spec_measurements_response_bytes(v, version, rcc_support, need_sig, asym_size) + tail;
    let off = 2 + spec_record_len(v.measurement_record);
    let off2 = off + v.nonce.len() + spec_opaque_len(v.opaque);
    assert(b.skip(2) =~= spec_record_bytes(v.measurement_record) + (v.nonce + spec_opaque_bytes(
        v.opaque,
    ) + sig_part + tail));
    assert(b.subrange(off, off + v.nonce.len() as int) =~= v.nonce);
    assert(b.skip(off + v.nonce.len() as int) =~= spec_opaque_bytes(v.opaque) + (sig_part
        + tail));
    assert(b.skip(off2) =~= sig_part + tail);
}

/// A MEASUREMENTS response survives an encode/decode round trip in a
/// compatible context, whatever follows it on the wire.
#[verifier::rlimit(100)]
pub proof fn lemma_measurements_response_round_trip(
    p: SpdmMeasurementsResponsePayload,
    version: SpdmVersion,
    rcc_support: bool,
    need_sig: bool,
    asym_size: u16,
    tail: Seq<u8>,
)
    requires
        p.wf(),
        asym_size <= SPDM_MAX_ASYM_KEY_SIZE,
        spec_response_round_trip_compatible(p@, version, rcc_support, need_sig, asym_size),
    ensures
        spec_read_measurements_response(
            spec_measurements_response_bytes(p@, version, rcc_support, need_sig, asym_size) + tail,
            need_sig,
            asym_size,
        ) == Some(p@),
{
    let v = p@;
    let sig_part = if need_sig {
        spec_signature_bytes(v.signature, asym_size)
    } else {
        Seq::<u8>::empty()
    };
    let b = spec_measurements_response_bytes(v, version, rcc_support, need_sig, asym_size) + tail;
    let off = 2 + spec_record_len(v.measurement_record);
    let off2 = off + v.nonce.len() + spec_opaque_len(v.opaque);
    lemma_response_wire_layout(v, version, rcc_support, need_sig, asym_size, tail);

    // Param2 unpacks into the slot id and the content-changed bits.
    let param2 = spec_response_param2(v, version, rcc_support);
    let slot = v.slot_id;
    let cc = v.content_changed.bits;
    assert(slot < 8 && cc & 0x30 == cc ==> ((slot | cc) & 0xF == slot && (slot | cc) & 0x30 == cc
        && (cc & 0x30) & 0xCF == 0)) by (bit_vector);
    assert(slot < 8 ==> (slot & 0xF == slot && slot & 0x30 == 0 && 0u8 & 0xCF == 0))
        by (bit_vector);
    assert(param2 & 0xF == slot && SpdmMeasurementContentChanged::spec_from_bits(param2 & 0x30)
        == Some(v.content_changed));

    // Each segment decodes to the field it was encoded from.
    crate::protocol::lemma_record_round_trip(
        v.measurement_record,
        v.nonce + spec_opaque_bytes(v.opaque) + sig_part + tail,
    );
    assert(spec_read_record(b.skip(2)) == Some(v.measurement_record));
    crate::common::lemma_opaque_round_trip(v.opaque, sig_part + tail);
    assert(spec_read_opaque(b.skip(off + v.nonce.len() as int)) == Some(v.opaque));
    if need_sig {
        crate::protocol::lemma_signature_round_trip(v.signature, asym_size, tail);
        assert(spec_read_signature(b.skip(off2), asym_size) == Some(v.signature));
    }
    let m = spec_read_measurements_response(b, need_sig, asym_size)->0;
    assert(m == v);
}

/// Param2 of an encoded MEASUREMENTS response equals the slot id alone
/// whenever the version is below 1.2 or runtime content change support is
/// off.
pub proof fn lemma_response_param2_plain(
    v: MeasurementsResponseView,
    version: SpdmVersion,
    rcc_support: bool,
    need_sig: bool,
    asym_size: u16,
)
    requires
        !(version.spec_u8() >= 0x12 && rcc_support),
    ensures
        spec_measurements_response_bytes(v, version, rcc_support, need_sig, asym_size)[1]
            == v.slot_id,
{
}

} // verus!
