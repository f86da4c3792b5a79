//! The GET_CERTIFICATE request and CERTIFICATE response payloads. A
//! certificate chain crosses the wire in portions; each response carries
//! one portion and says how much is left.

use vstd::prelude::*;

use crate::codec::{u16_le, u16_of, Reader, Writer};
use crate::common::SpdmContext;
use crate::config::MAX_SPDM_CERT_PORTION_LEN;
use crate::error::SpdmStatus;
use crate::protocol::zero_seq;

verus! {

/// The GET_CERTIFICATE request payload: which slot, and which window of
/// the chain.
#[derive(Debug, Clone, Copy, PartialEq, Eq, Structural)]
pub struct SpdmGetCertificateRequestPayload {
    pub slot_id: u8,
    pub offset: u16,
    pub length: u16,
}

/// Wire image of a GET_CERTIFICATE request payload: slot id, a reserved
/// zero byte, then offset and length.
pub open spec fn spec_get_cert_request_bytes(p: SpdmGetCertificateRequestPayload) -> Seq<u8> {
    seq![p.slot_id, 0u8] + u16_le(p.offset) + u16_le(p.length)
}

/// Request payload decoded from the front of `bytes`; the reserved byte is
/// ignored.
pub open spec fn spec_read_get_cert_request(bytes: Seq<u8>) -> Option<
    SpdmGetCertificateRequestPayload,
> {
    if bytes.len() < 6 {
        None
    } else {
        Some(
            SpdmGetCertificateRequestPayload {
                slot_id: bytes[0],
                offset: u16_of(bytes[2], bytes[3]),
                length: u16_of(bytes[4], bytes[5]),
            },
        )
    }
}

impl SpdmGetCertificateRequestPayload {
    /// Emits the payload after the message header. The context is not
    /// consulted; it stands in the signature because every payload codec
    /// takes it.
    pub fn spdm_encode(&self, context: &mut SpdmContext, bytes: &mut Writer) -> (r: Result<
        usize,
        SpdmStatus,
    >)
        requires
            old(bytes).wf(),
        ensures
            *final(context) == *old(context),
            final(bytes).wf(),
            final(bytes).capacity() == old(bytes).capacity(),
            r is Ok <==> old(bytes).room() >= 6,
            r is Ok ==> r->Ok_0 == 6 && final(bytes).spec_used() == old(bytes).spec_used() + 6
                && final(bytes).written() == old(bytes).written() + spec_get_cert_request_bytes(
                *self,
            ),
            r is Err ==> r->Err_0 == SpdmStatus::BufferFull && final(bytes).spec_used() <= old(
                bytes,
            ).spec_used() + 6,
    {
        let mut cnt: usize = 0;
        match bytes.write_u8(self.slot_id) {
            Ok(n) => cnt = cnt + n,
            Err(_) => {
                return Err(SpdmStatus::BufferFull);
            },
        }
        match bytes.write_u8(0) {
            Ok(n) => cnt = cnt + n,
            Err(_) => {
                return Err(SpdmStatus::BufferFull);
            },
        }
        match bytes.write_u16(self.offset) {
            Ok(n) => cnt = cnt + n,
            Err(_) => {
                return Err(SpdmStatus::BufferFull);
            },
        }
        match bytes.write_u16(self.length) {
            Ok(n) => cnt = cnt + n,
            Err(_) => {
                return Err(SpdmStatus::BufferFull);
            },
        }
        assert(bytes.written() =~= old(bytes).written() + spec_get_cert_request_bytes(*self));
        Ok(cnt)
    }

    /// Decodes the payload after the message header.
    pub fn spdm_read(context: &mut SpdmContext, r: &mut Reader) -> (res: Option<
        SpdmGetCertificateRequestPayload,
    >)
        requires
            old(r).wf(),
        ensures
            *final(context) == *old(context),
            final(r).wf(),
            final(r).bytes() == old(r).bytes(),
            res == spec_read_get_cert_request(old(r).remaining()),
            res is Some ==> final(r).pos() == old(r).pos() + 6,
    {
        if r.left() < 6 {
            return None;
        }
        let slot_id = r.read_u8().unwrap();
        let _reserved = r.read_u8().unwrap();
        let offset = r.read_u16().unwrap();
        let length = r.read_u16().unwrap();
        Some(SpdmGetCertificateRequestPayload { slot_id, offset, length })
    }
}

/// A GET_CERTIFICATE request survives an encode/decode round trip,
/// whatever follows it on the wire.
pub proof fn lemma_get_cert_request_round_trip(p: SpdmGetCertificateRequestPayload, tail: Seq<u8>)
    ensures
        spec_read_get_cert_request(spec_get_cert_request_bytes(p) + tail) == Some(p),
{
    let b = spec_get_cert_request_bytes(p) + tail;
    crate::codec::lemma_u16_round_trip(p.offset);
    crate::codec::lemma_u16_round_trip(p.length);
    assert(b[2] == u16_le(p.offset)[0] && b[3] == u16_le(p.offset)[1]);
    assert(b[4] == u16_le(p.length)[0] && b[5] == u16_le(p.length)[1]);
}

/// The CERTIFICATE response payload: one portion of the chain, and how
/// many bytes remain after it.
#[derive(Debug, Clone, PartialEq, Eq)]
pub struct SpdmCertificateResponsePayload {
    pub slot_id: u8,
    pub portion_length: u16,
    pub remainder_length: u16,
    pub cert_chain: Vec<u8>,
}

/// Ghost image of a CERTIFICATE response payload.
pub struct CertificateResponseView {
    pub slot_id: u8,
    pub portion_length: u16,
    pub remainder_length: u16,
    pub cert_chain: Seq<u8>,
}

impl View for SpdmCertificateResponsePayload {
    type V = CertificateResponseView;

    open spec fn view(&self) -> CertificateResponseView {
        CertificateResponseView {
            slot_id: self.slot_id,
            portion_length: self.portion_length,
            remainder_length: self.remainder_length,
            cert_chain: self.cert_chain@,
        }
    }
}

/// Capacity, bound and zero padding of a certificate response image.
pub open spec fn spec_cert_response_view_wf(v: CertificateResponseView) -> bool {
    &&& v.cert_chain.len() == MAX_SPDM_CERT_PORTION_LEN
    &&& v.portion_length <= MAX_SPDM_CERT_PORTION_LEN
    &&& forall|i: int| v.portion_length <= i < v.cert_chain.len() ==> v.cert_chain[i] == 0u8
}

impl SpdmCertificateResponsePayload {
    pub open spec fn wf(&self) -> bool {
        spec_cert_response_view_wf(self@)
    }
}

/// Wire image of a CERTIFICATE response payload: slot id, a reserved zero
/// byte, portion and remainder lengths, then exactly the portion.
pub open spec fn spec_cert_response_bytes(v: CertificateResponseView) -> Seq<u8> {
    seq![v.slot_id, 0u8] + u16_le(v.portion_length) + u16_le(v.remainder_length)
        + v.cert_chain.take(v.portion_length as int)
}

/// Number of wire bytes a certificate response occupies.
pub open spec fn spec_cert_response_len(v: CertificateResponseView) -> int {
    6 + v.portion_length as int
}

/// Response payload decoded from the front of `bytes`: rejected when the
/// portion exceeds its cap or the bytes run out.
pub open spec fn spec_read_cert_response(bytes: Seq<u8>) -> Option<CertificateResponseView> {
    if bytes.len() < 6 {
        None
    } else {
        let portion = u16_of(bytes[2], bytes[3]);
        if portion > MAX_SPDM_CERT_PORTION_LEN || bytes.len() < 6 + portion {
            None
        } else {
            Some(
                CertificateResponseView {
                    slot_id: bytes[0],
                    portion_length: portion,
                    remainder_length: u16_of(bytes[4], bytes[5]),
                    cert_chain: bytes.subrange(6, 6 + portion as int) + zero_seq(
                        MAX_SPDM_CERT_PORTION_LEN - portion as int,
                    ),
                },
            )
        }
    }
}

impl SpdmCertificateResponsePayload {
    /// Emits the payload after the message header.
    pub fn spdm_encode(&self, context: &mut SpdmContext, bytes: &mut Writer) -> (r: Result<
        usize,
        SpdmStatus,
    >)
        requires
            old(bytes).wf(),
            self.wf(),
        ensures
            *final(context) == *old(context),
            final(bytes).wf(),
            final(bytes).capacity() == old(bytes).capacity(),
            r is Ok <==> old(bytes).room() >= spec_cert_response_len(self@),
            r is Ok ==> r->Ok_0 == spec_cert_response_len(self@) && final(bytes).spec_used()
                == old(bytes).spec_used() + spec_cert_response_len(self@)
                && final(bytes).written() == old(bytes).written()
                + spec_cert_response_bytes(self@),
            r is Err ==> r->Err_0 == SpdmStatus::BufferFull && final(bytes).spec_used() <= old(
                bytes,
            ).spec_used() + 6,
    {
        let mut cnt: usize = 0;
        match bytes.write_u8(self.slot_id) {
            Ok(n) => cnt = cnt + n,
            Err(_) => {
                return Err(SpdmStatus::BufferFull);
            },
        }
        match bytes.write_u8(0) {
            Ok(n) => cnt = cnt + n,
            Err(_) => {
                return Err(SpdmStatus::BufferFull);
            },
        }
        match bytes.write_u16(self.portion_length) {
            Ok(n) => cnt = cnt + n,
            Err(_) => {
                return Err(SpdmStatus::BufferFull);
            },
        }
        match bytes.write_u16(self.remainder_length) {
            Ok(n) => cnt = cnt + n,
            Err(_) => {
                return Err(SpdmStatus::BufferFull);
            },
        }
        match bytes.write_bytes(self.cert_chain.as_slice(), self.portion_length as usize) {
            Ok(n) => cnt = cnt + n,
            Err(_) => {
                return Err(SpdmStatus::BufferFull);
            },
        }
        assert(bytes.written() =~= old(bytes).written() + spec_cert_response_bytes(self@));
        Ok(cnt)
    }

    /// Decodes the payload after the message header.
    pub fn spdm_read(context: &mut SpdmContext, r: &mut Reader) -> (res: Option<
        SpdmCertificateResponsePayload,
    >)
        requires
            old(r).wf(),
        ensures
            *final(context) == *old(context),
            final(r).wf(),
            final(r).bytes() == old(r).bytes(),
            res is Some <==> spec_read_cert_response(old(r).remaining()) is Some,
            res is Some ==> {
                &&& res->0.wf()
                &&& Some(res->0@) == spec_read_cert_response(old(r).remaining())
                &&& final(r).pos() == old(r).pos() + spec_cert_response_len(res->0@)
            },
    {
        if r.left() < 6 {
            return None;
        }
        let slot_id = r.read_u8().unwrap();
        let _reserved = r.read_u8().unwrap();
        let portion_length = r.read_u16().unwrap();
        let remainder_length = r.read_u16().unwrap();
        if portion_length as usize > MAX_SPDM_CERT_PORTION_LEN {
            return None;
        }
        let data = match r.read_bytes(portion_length as usize) {
            Some(v) => v,
            None => {
                return None;
            },
        };
        let mut data = data;
        while data.len() < MAX_SPDM_CERT_PORTION_LEN
            invariant
                data@.len() <= MAX_SPDM_CERT_PORTION_LEN,
                portion_length <= data@.len(),
                data@.take(portion_length as int) == old(r).remaining().subrange(
                    6,
                    6 + portion_length as int,
                ),
                forall|i: int| portion_length <= i < data@.len() ==> data@[i] == 0u8,
            decreases MAX_SPDM_CERT_PORTION_LEN - data@.len(),
        {
            data.push(0);
            assert(data@.take(portion_length as int) =~= old(r).remaining().subrange(
                6,
                6 + portion_length as int,
            ));
        }
        let res = SpdmCertificateResponsePayload {
            slot_id,
            portion_length,
            remainder_length,
            cert_chain: data,
        };
        proof {
            let m = spec_read_cert_response(old(r).remaining())->0;
            assert(res@.cert_chain =~= m.cert_chain);
        }
        Some(res)
    }
}

/// A CERTIFICATE response survives an encode/decode round trip, whatever
/// follows it on the wire.
pub proof fn lemma_cert_response_round_trip(v: CertificateResponseView, tail: Seq<u8>)
    requires
        spec_cert_response_view_wf(v),
    ensures
        spec_read_cert_response(spec_cert_response_bytes(v) + tail) == Some(v),
{
    let b = spec_cert_response_bytes(v) + tail;
    crate::codec::lemma_u16_round_trip(v.portion_length);
    crate::codec::lemma_u16_round_trip(v.remainder_length);
    assert(b[2] == u16_le(v.portion_length)[0] && b[3] == u16_le(v.portion_length)[1]);
    assert(b[4] == u16_le(v.remainder_length)[0] && b[5] == u16_le(v.remainder_length)[1]);
    let m = spec_read_cert_response(b)->0;
    assert(b.subrange(6, 6 + v.portion_length as int) =~= v.cert_chain.take(
        v.portion_length as int,
    ));
    assert(m.cert_chain =~= v.cert_chain);
}

} // verus!
