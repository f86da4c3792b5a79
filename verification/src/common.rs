//! The per-connection context: immutable configuration and provisioned
//! material, negotiated parameters, runtime state with the transcript
//! buffers (message_a, message_b, message_c, message_m), peer certificate
//! chains, and the session table. Transcripts accumulate monotonically and
//! are reset only at the well-defined points the flows prescribe.

use vstd::prelude::*;

use crate::codec::{u16_le, EncodeErr, Reader, Writer};
use crate::config::{
    MAX_SPDM_MESSAGE_BUFFER_SIZE, MAX_SPDM_OPAQUE_SIZE, MAX_SPDM_SESSION_COUNT,
    SPDM_MAX_SLOT_NUMBER,
};
use crate::error::SpdmStatus;
use crate::protocol::{
    new_zero_vec, zero_seq, SpdmBaseAsymAlgo, SpdmBaseHashAlgo, SpdmCertChainData,
    SpdmMeasurementHashAlgo, SpdmMeasurementSpecification, SpdmVersion,
};

verus! {

/// Whether the Responder reported a runtime content change, packed into
/// bits [5:4] of Param2 of a MEASUREMENTS response.
#[derive(Debug, Clone, Copy, PartialEq, Eq, Structural)]
pub struct SpdmMeasurementContentChanged {
    pub bits: u8,
}

/// The bits of Param2 that carry the content-changed field.
pub const MEASUREMENT_RESPONDER_PARAM2_CONTENT_CHANGED_MASK: u8 = 0b0011_0000;

/// The bits of Param2 that carry the slot identifier.
pub const MEASUREMENT_RESPONDER_PARAM2_SLOT_ID_MASK: u8 = 0b0000_1111;

impl SpdmMeasurementContentChanged {
    /// The Responder does not support change detection.
    pub fn not_supported() -> (r: SpdmMeasurementContentChanged)
        ensures
            r.bits == 0x00,
            r.wf(),
    {
        proof {
            assert(0x00u8 & 0b0011_0000u8 == 0x00u8) by (bit_vector);
        }
        SpdmMeasurementContentChanged { bits: 0x00 }
    }

    /// The Responder detected a change of measurable content.
    pub fn detected_change() -> (r: SpdmMeasurementContentChanged)
        ensures
            r.bits == 0x10,
            r.wf(),
    {
        proof {
            assert(0x10u8 & 0b0011_0000u8 == 0x10u8) by (bit_vector);
        }
        SpdmMeasurementContentChanged { bits: 0x10 }
    }

    /// The Responder saw no change of measurable content.
    pub fn no_change() -> (r: SpdmMeasurementContentChanged)
        ensures
            r.bits == 0x20,
            r.wf(),
    {
        proof {
            assert(0x20u8 & 0b0011_0000u8 == 0x20u8) by (bit_vector);
        }
        SpdmMeasurementContentChanged { bits: 0x20 }
    }

    /// Only the two content-changed bits may be set.
    pub open spec fn wf(self) -> bool {
        self.bits & 0b0011_0000 == self.bits
    }

    pub open spec fn spec_from_bits(bits: u8) -> Option<SpdmMeasurementContentChanged> {
        if bits & 0b1100_1111 == 0 {
            Some(SpdmMeasurementContentChanged { bits })
        } else {
            None
        }
    }

    /// Accepts only the two content-changed bits.
    pub fn from_bits(bits: u8) -> (r: Option<SpdmMeasurementContentChanged>)
        ensures
            r == SpdmMeasurementContentChanged::spec_from_bits(bits),
            r is Some ==> r->0.wf() && r->0.bits == bits,
    {
        if bits & 0b1100_1111 == 0 {
            proof {
                assert(bits & 0b1100_1111 == 0 ==> bits & 0b0011_0000 == bits) by (bit_vector);
            }
            Some(SpdmMeasurementContentChanged { bits })
        } else {
            None
        }
    }

    pub fn bits(&self) -> (r: u8)
        ensures
            r == self.bits,
    {
        self.bits
    }
}

/// Opaque data attached to a response: a 16-bit size and that many bytes,
/// zero-padded to capacity in memory.
#[derive(Debug, Clone, PartialEq, Eq)]
pub struct SpdmOpaqueStruct {
    pub data_size: u16,
    pub data: Vec<u8>,
}

/// Ghost image of an opaque data field.
pub struct SpdmOpaqueView {
    pub data_size: u16,
    pub data: Seq<u8>,
}

impl View for SpdmOpaqueStruct {
    type V = SpdmOpaqueView;

    open spec fn view(&self) -> SpdmOpaqueView {
        SpdmOpaqueView { data_size: self.data_size, data: self.data@ }
    }
}

/// Capacity, bound and zero padding of an opaque data image.
pub open spec fn spec_opaque_view_wf(v: SpdmOpaqueView) -> bool {
    &&& v.data.len() == MAX_SPDM_OPAQUE_SIZE
    &&& v.data_size <= MAX_SPDM_OPAQUE_SIZE
    &&& forall|i: int| v.data_size <= i < v.data.len() ==> v.data[i] == 0u8
}

impl SpdmOpaqueStruct {
    pub open spec fn wf(&self) -> bool {
        spec_opaque_view_wf(self@)
    }
}

impl Default for SpdmOpaqueStruct {
    /// Empty opaque data.
    fn default() -> (r: SpdmOpaqueStruct)
        ensures
            r.wf(),
            r.data_size == 0,
            r@.data == zero_seq(MAX_SPDM_OPAQUE_SIZE as int),
    {
        let data = new_zero_vec(MAX_SPDM_OPAQUE_SIZE);
        assert(data@ =~= zero_seq(MAX_SPDM_OPAQUE_SIZE as int));
        SpdmOpaqueStruct { data_size: 0, data }
    }
}

/// Wire image of an opaque data field: 16-bit size, then that many bytes.
pub open spec fn spec_opaque_bytes(o: SpdmOpaqueView) -> Seq<u8> {
    u16_le(o.data_size) + o.data.take(o.data_size as int)
}

/// Number of wire bytes an opaque field occupies.
pub open spec fn spec_opaque_len(o: SpdmOpaqueView) -> int {
    2 + o.data_size as int
}

/// Opaque data decoded from the front of `bytes`: rejected when the size
/// field exceeds the capacity or the bytes run out.
pub open spec fn spec_read_opaque(bytes: Seq<u8>) -> Option<SpdmOpaqueView> {
    if bytes.len() < 2 {
        None
    } else {
        let size = crate::codec::u16_of(bytes[0], bytes[1]);
        if size > MAX_SPDM_OPAQUE_SIZE || bytes.len() < 2 + size {
            None
        } else {
            Some(
                SpdmOpaqueView {
                    data_size: size,
                    data: bytes.subrange(2, 2 + size as int) + zero_seq(
                        MAX_SPDM_OPAQUE_SIZE - size as int,
                    ),
                },
            )
        }
    }
}

impl SpdmOpaqueStruct {
    pub fn spdm_encode(&self, bytes: &mut Writer) -> (r: Result<usize, EncodeErr>)
        requires
            old(bytes).wf(),
            self.wf(),
        ensures
            final(bytes).wf(),
            final(bytes).capacity() == old(bytes).capacity(),
            r is Ok <==> old(bytes).room() >= spec_opaque_len(self@),
            r is Ok ==> r->Ok_0 == spec_opaque_len(self@) && final(bytes).spec_used() == old(
                bytes,
            ).spec_used() + spec_opaque_len(self@) && final(bytes).written() == old(
                bytes,
            ).written() + spec_opaque_bytes(self@),
            r is Err ==> final(bytes).spec_used() <= old(bytes).spec_used() + 2,
    {
        let mut cnt: usize = 0;
        match bytes.write_u16(self.data_size) {
            Ok(n) => cnt = cnt + n,
            Err(e) => {
                return Err(e);
            },
        }
        match bytes.write_bytes(self.data.as_slice(), self.data_size as usize) {
            Ok(n) => cnt = cnt + n,
            Err(e) => {
                return Err(e);
            },
        }
        assert(bytes.written() =~= old(bytes).written() + spec_opaque_bytes(self@));
        Ok(cnt)
    }

    pub fn spdm_read(r: &mut Reader) -> (o: Option<SpdmOpaqueStruct>)
        requires
            old(r).wf(),
        ensures
            final(r).wf(),
            final(r).bytes() == old(r).bytes(),
            o is Some <==> spec_read_opaque(old(r).remaining()) is Some,
            o is Some ==> {
                &&& o->0.wf()
                &&& Some(o->0@) == spec_read_opaque(old(r).remaining())
                &&& final(r).pos() == old(r).pos() + spec_opaque_len(o->0@)
            },
    {
        let size = match r.read_u16() {
            Some(v) => v,
            None => {
                return None;
            },
        };
        if size as usize > MAX_SPDM_OPAQUE_SIZE {
            return None;
        }
        let data = match r.read_bytes(size as usize) {
            Some(v) => v,
            None => {
                return None;
            },
        };
        let mut data = data;
        while data.len() < MAX_SPDM_OPAQUE_SIZE
            invariant
                data@.len() <= MAX_SPDM_OPAQUE_SIZE,
                size <= data@.len(),
                data@.take(size as int) == old(r).remaining().subrange(2, 2 + size as int),
                forall|i: int| size <= i < data@.len() ==> data@[i] == 0u8,
            decreases MAX_SPDM_OPAQUE_SIZE - data@.len(),
        {
            data.push(0);
            assert(data@.take(size as int) =~= old(r).remaining().subrange(2, 2 + size as int));
        }
        let o = SpdmOpaqueStruct { data_size: size, data };
        proof {
            let m = spec_read_opaque(old(r).remaining())->0;
            assert(o@.data =~= m.data);
        }
        Some(o)
    }
}

/// Encoding a well-formed opaque field and decoding it gives it back,
/// whatever follows it on the wire.
pub proof fn lemma_opaque_round_trip(o: SpdmOpaqueView, tail: Seq<u8>)
    requires
        spec_opaque_view_wf(o),
    ensures
        spec_read_opaque(spec_opaque_bytes(o) + tail) == Some(o),
{
    let b = spec_opaque_bytes(o) + tail;
    crate::codec::lemma_u16_round_trip(o.data_size);
    assert(b[0] == u16_le(o.data_size)[0]);
    assert(b[1] == u16_le(o.data_size)[1]);
    let m = spec_read_opaque(b)->0;
    assert(b.subrange(2, 2 + o.data_size as int) =~= o.data.take(o.data_size as int));
    assert(m.data =~= o.data);
}

/// An append-only transcript buffer of fixed capacity.
#[derive(Debug, Clone, PartialEq, Eq)]
pub struct ManagedBuffer {
    cap: usize,
    data: Vec<u8>,
}

impl View for ManagedBuffer {
    type V = Seq<u8>;

    open spec fn view(&self) -> Seq<u8> {
        self.spec_data()
    }
}

impl ManagedBuffer {
    pub closed spec fn spec_data(&self) -> Seq<u8> {
        self.data@
    }

    pub closed spec fn spec_cap(&self) -> int {
        self.cap as int
    }

    pub open spec fn wf(&self) -> bool {
        self@.len() <= self.spec_cap()
    }

    pub fn new(cap: usize) -> (r: ManagedBuffer)
        ensures
            r.wf(),
            r.spec_cap() == cap,
            r@ == Seq::<u8>::empty(),
    {
        ManagedBuffer { cap, data: Vec::new() }
    }

    /// Appends `bytes` whole, or leaves the buffer unchanged when the room
    /// left is too small.
    pub fn append_message(&mut self, bytes: &[u8]) -> (r: Option<usize>)
        requires
            old(self).wf(),
        ensures
            final(self).wf(),
            final(self).spec_cap() == old(self).spec_cap(),
            r is Some <==> old(self)@.len() + bytes@.len() <= old(self).spec_cap(),
            r is Some ==> r->0 == bytes@.len() && final(self)@ == old(self)@ + bytes@,
            r is None ==> *final(self) == *old(self),
    {
        if bytes.len() > self.cap - self.data.len() {
            return None;
        }
        let n = bytes.len();
        let mut i: usize = 0;
        while i < n
            invariant
                i <= n,
                n == bytes@.len(),
                self.cap == old(self).cap,
                self.data@ == old(self).data@ + bytes@.take(i as int),
                old(self).data@.len() + n <= self.cap,
            decreases n - i,
        {
            self.data.push(bytes[i]);
            assert(self.data@ =~= old(self).data@ + bytes@.take(i + 1));
            i = i + 1;
        }
        assert(self.data@ =~= old(self).data@ + bytes@);
        Some(n)
    }

    /// Empties the buffer.
    pub fn reset_message(&mut self)
        ensures
            final(self).wf(),
            final(self).spec_cap() == old(self).spec_cap(),
            final(self)@ == Seq::<u8>::empty(),
    {
        self.data.clear();
    }

    /// The accumulated bytes.
    pub fn as_bytes(&self) -> (r: &[u8])
        ensures
            r@ == self@,
    {
        self.data.as_slice()
    }

    /// How many bytes have accumulated.
    pub fn len(&self) -> (r: usize)
        ensures
            r == self@.len(),
    {
        self.data.len()
    }
}

/// Immutable caller-chosen policies.
#[derive(Debug, Clone, PartialEq, Eq)]
pub struct SpdmConfigInfo {
    /// Whether Param2 of a MEASUREMENTS response packs the content-changed
    /// bits under SPDM 1.2.
    pub runtime_content_change_support: bool,
}

/// Long-lived provisioned material.
#[derive(Debug, Clone, PartialEq, Eq)]
pub struct SpdmProvisionInfo {
    /// A pinned peer certificate chain (DER content, chain header
    /// stripped) that a retrieved chain must equal byte for byte.
    pub peer_cert_chain_data: Option<SpdmCertChainData>,
}

/// Parameters fixed by negotiation.
#[derive(Debug, Clone, PartialEq, Eq)]
pub struct SpdmNegotiateInfo {
    pub spdm_version_sel: SpdmVersion,
    pub base_hash_sel: SpdmBaseHashAlgo,
    pub base_asym_sel: SpdmBaseAsymAlgo,
    pub measurement_specification_sel: SpdmMeasurementSpecification,
    pub measurement_hash_sel: SpdmMeasurementHashAlgo,
}

/// Mutable per-connection state.
#[derive(Debug, Clone, PartialEq, Eq)]
pub struct SpdmRuntimeInfo {
    /// Whether the MEASUREMENTS response in flight carries a signature.
    pub need_measurement_signature: bool,
    /// The last content-changed field a MEASUREMENTS response reported.
    pub content_changed: SpdmMeasurementContentChanged,
    /// Transcript of version/capability/algorithm negotiation.
    pub message_a: ManagedBuffer,
    /// Transcript of digest and certificate retrieval.
    pub message_b: ManagedBuffer,
    /// Transcript of challenge/authentication.
    pub message_c: ManagedBuffer,
    /// Transcript of the measurement exchange outside any session.
    pub message_m: ManagedBuffer,
}

/// What is known about the peer.
#[derive(Debug, Clone, PartialEq, Eq)]
pub struct SpdmPeerInfo {
    /// One certificate chain per slot, filled by GET_CERTIFICATE.
    pub peer_cert_chain: Vec<Option<SpdmCertChainData>>,
}

/// Lifecycle of one session.
#[derive(Debug, Clone, Copy, PartialEq, Eq, Structural)]
pub enum SpdmSessionState {
    NotStarted,
    Handshaking,
    Established,
    Terminating,
}

/// One secured session, with its own measurement transcript.
#[derive(Debug, Clone, PartialEq, Eq)]
pub struct SpdmSession {
    pub session_id: u32,
    pub session_state: SpdmSessionState,
    pub message_m: ManagedBuffer,
}

impl SpdmSession {
    pub open spec fn wf(&self) -> bool {
        &&& self.message_m.wf()
        &&& self.message_m.spec_cap() == MAX_SPDM_MESSAGE_BUFFER_SIZE
    }
}

/// The aggregate state of one connection.
#[derive(Debug, Clone, PartialEq, Eq)]
pub struct SpdmContext {
    pub config_info: SpdmConfigInfo,
    pub provision_info: SpdmProvisionInfo,
    pub negotiate_info: SpdmNegotiateInfo,
    pub runtime_info: SpdmRuntimeInfo,
    pub peer_info: SpdmPeerInfo,
    pub sessions: Vec<SpdmSession>,
}

impl SpdmContext {
    pub open spec fn wf(&self) -> bool {
        &&& self.runtime_info.message_a.wf()
        &&& self.runtime_info.message_a.spec_cap() == MAX_SPDM_MESSAGE_BUFFER_SIZE
        &&& self.runtime_info.message_b.wf()
        &&& self.runtime_info.message_b.spec_cap() == MAX_SPDM_MESSAGE_BUFFER_SIZE
        &&& self.runtime_info.message_c.wf()
        &&& self.runtime_info.message_c.spec_cap() == MAX_SPDM_MESSAGE_BUFFER_SIZE
        &&& self.runtime_info.message_m.wf()
        &&& self.runtime_info.message_m.spec_cap() == MAX_SPDM_MESSAGE_BUFFER_SIZE
        &&& self.peer_info.peer_cert_chain@.len() == SPDM_MAX_SLOT_NUMBER
        &&& forall|i: int|
            0 <= i < self.peer_info.peer_cert_chain@.len()
                ==> ((#[trigger] self.peer_info.peer_cert_chain@[i]) matches Some(c) ==> c.wf())
        &&& self.provision_info.peer_cert_chain_data matches Some(c) ==> c.wf()
        &&& self.sessions@.len() <= MAX_SPDM_SESSION_COUNT
        &&& forall|i: int| 0 <= i < self.sessions@.len() ==> (#[trigger] self.sessions@[i]).wf()
        &&& forall|i: int, j: int|
            #![trigger self.sessions@[i].session_id, self.sessions@[j].session_id]
            0 <= i < j < self.sessions@.len() ==> self.sessions@[i].session_id
                != self.sessions@[j].session_id
    }

    /// A fresh context: negotiation empty, transcripts empty, no peer
    /// chains, no sessions.
    pub fn new(config_info: SpdmConfigInfo, provision_info: SpdmProvisionInfo) -> (r: SpdmContext)
        requires
            provision_info.peer_cert_chain_data matches Some(c) ==> c.wf(),
        ensures
            r.wf(),
            r.config_info == config_info,
            r.provision_info == provision_info,
            r.negotiate_info.spdm_version_sel == SpdmVersion::SpdmVersion10,
            r.negotiate_info.base_hash_sel.bits == 0,
            r.negotiate_info.base_asym_sel.bits == 0,
            r.runtime_info.need_measurement_signature == false,
            r.runtime_info.content_changed.bits == 0,
            r.runtime_info.message_a@ == Seq::<u8>::empty(),
            r.runtime_info.message_b@ == Seq::<u8>::empty(),
            r.runtime_info.message_c@ == Seq::<u8>::empty(),
            r.runtime_info.message_m@ == Seq::<u8>::empty(),
            r.sessions@.len() == 0,
            forall|i: int|
                0 <= i < SPDM_MAX_SLOT_NUMBER ==> r.peer_info.peer_cert_chain@[i] is None,
    {
        let mut peer_cert_chain: Vec<Option<SpdmCertChainData>> = Vec::new();
        let mut i: usize = 0;
        while i < SPDM_MAX_SLOT_NUMBER
            invariant
                i <= SPDM_MAX_SLOT_NUMBER,
                peer_cert_chain@.len() == i,
                forall|j: int| 0 <= j < i ==> peer_cert_chain@[j] is None,
            decreases SPDM_MAX_SLOT_NUMBER - i,
        {
            peer_cert_chain.push(None);
            i = i + 1;
        }
        SpdmContext {
            config_info,
            provision_info,
            negotiate_info: SpdmNegotiateInfo {
                spdm_version_sel: SpdmVersion::SpdmVersion10,
                base_hash_sel: SpdmBaseHashAlgo::empty(),
                base_asym_sel: SpdmBaseAsymAlgo::empty(),
                measurement_specification_sel: SpdmMeasurementSpecification::empty(),
                measurement_hash_sel: SpdmMeasurementHashAlgo::empty(),
            },
            runtime_info: SpdmRuntimeInfo {
                need_measurement_signature: false,
                content_changed: SpdmMeasurementContentChanged::not_supported(),
                message_a: ManagedBuffer::new(MAX_SPDM_MESSAGE_BUFFER_SIZE),
                message_b: ManagedBuffer::new(MAX_SPDM_MESSAGE_BUFFER_SIZE),
                message_c: ManagedBuffer::new(MAX_SPDM_MESSAGE_BUFFER_SIZE),
                message_m: ManagedBuffer::new(MAX_SPDM_MESSAGE_BUFFER_SIZE),
            },
            peer_info: SpdmPeerInfo { peer_cert_chain },
            sessions: Vec::new(),
        }
    }

    /// Empties every transcript and clears the runtime flags.
    pub fn reset_runtime_info(&mut self)
        requires
            old(self).wf(),
        ensures
            final(self).wf(),
            final(self).config_info == old(self).config_info,
            final(self).provision_info == old(self).provision_info,
            final(self).negotiate_info == old(self).negotiate_info,
            final(self).peer_info == old(self).peer_info,
            final(self).sessions == old(self).sessions,
            final(self).runtime_info.need_measurement_signature == false,
            final(self).runtime_info.content_changed.bits == 0,
            final(self).runtime_info.message_a@ == Seq::<u8>::empty(),
            final(self).runtime_info.message_b@ == Seq::<u8>::empty(),
            final(self).runtime_info.message_c@ == Seq::<u8>::empty(),
            final(self).runtime_info.message_m@ == Seq::<u8>::empty(),
    {
        self.runtime_info.need_measurement_signature = false;
        self.runtime_info.content_changed = SpdmMeasurementContentChanged::not_supported();
        self.runtime_info.message_a.reset_message();
        self.runtime_info.message_b.reset_message();
        self.runtime_info.message_c.reset_message();
        self.runtime_info.message_m.reset_message();
    }

    /// Whether a session with this id is in the table.
    pub open spec fn spec_has_session(&self, session_id: u32) -> bool {
        exists|i: int|
            0 <= i < self.sessions@.len() && (#[trigger] self.sessions@[i]).session_id
                == session_id
    }

    /// The index of the session with this id (meaningful only when
    /// `spec_has_session` holds; unique under `wf`).
    pub open spec fn spec_session_idx(&self, session_id: u32) -> int {
        choose|i: int|
            0 <= i < self.sessions@.len() && (#[trigger] self.sessions@[i]).session_id
                == session_id
    }

    /// The measurement transcript a flow addresses: the session's when a
    /// session id is given, the connection's otherwise.
    pub open spec fn spec_message_m(&self, session_id: Option<u32>) -> Seq<u8> {
        match session_id {
            Option::None => self.runtime_info.message_m@,
            Option::Some(id) => self.sessions@[self.spec_session_idx(id)].message_m@,
        }
    }

    /// Whether the transcript a flow addresses exists at all.
    pub open spec fn spec_message_m_addressable(&self, session_id: Option<u32>) -> bool {
        match session_id {
            Option::None => true,
            Option::Some(id) => self.spec_has_session(id),
        }
    }

    /// The table position of the session with this id.
    pub fn find_session_index(&self, session_id: u32) -> (r: Option<usize>)
        requires
            self.wf(),
        ensures
            r is Some <==> self.spec_has_session(session_id),
            r is Some ==> r->0 == self.spec_session_idx(session_id) && r->0
                < self.sessions@.len() && self.sessions@[r->0 as int].session_id == session_id,
    {
        let n = self.sessions.len();
        let mut i: usize = 0;
        while i < n
            invariant
                i <= n,
                n == self.sessions@.len(),
                self.wf(),
                forall|j: int| 0 <= j < i ==> self.sessions@[j].session_id != session_id,
            decreases n - i,
        {
            if self.sessions[i].session_id == session_id {
                proof {
                    assert(self.spec_has_session(session_id));
                    let k = self.spec_session_idx(session_id);
                    assert(self.sessions@[k].session_id == session_id);
                    assert(k == i);
                }
                return Some(i);
            }
            i = i + 1;
        }
        proof {
            assert(!self.spec_has_session(session_id));
        }
        None
    }

    /// Looks a session up by id. Unknown ids answer `None`; this is never
    /// a panic.
    pub fn get_immutable_session_via_id(&self, session_id: u32) -> (r: Option<&SpdmSession>)
        requires
            self.wf(),
        ensures
            r is Some <==> self.spec_has_session(session_id),
            r is Some ==> *r->0 == self.sessions@[self.spec_session_idx(session_id)]
                && r->0.session_id == session_id,
    {
        match self.find_session_index(session_id) {
            Some(i) => Some(&self.sessions[i]),
            None => None,
        }
    }

    /// Makes a fresh session for this id. Refused when the id is taken or
    /// the table is full.
    pub fn setup_session(&mut self, session_id: u32) -> (r: Result<(), SpdmStatus>)
        requires
            old(self).wf(),
        ensures
            final(self).wf(),
            r is Ok <==> !old(self).spec_has_session(session_id) && old(self).sessions@.len()
                < MAX_SPDM_SESSION_COUNT,
            r is Err ==> *final(self) == *old(self) && r->Err_0 == SpdmStatus::InvalidParameter,
            r is Ok ==> {
                &&& final(self).config_info == old(self).config_info
                &&& final(self).provision_info == old(self).provision_info
                &&& final(self).negotiate_info == old(self).negotiate_info
                &&& final(self).runtime_info == old(self).runtime_info
                &&& final(self).peer_info == old(self).peer_info
                &&& final(self).sessions@.len() == old(self).sessions@.len() + 1
                &&& final(self).sessions@.take(old(self).sessions@.len() as int) == old(
                    self,
                ).sessions@
                &&& final(self).sessions@.last().session_id == session_id
                &&& final(self).sessions@.last().session_state == SpdmSessionState::NotStarted
                &&& final(self).sessions@.last().message_m@ == Seq::<u8>::empty()
                &&& final(self).spec_has_session(session_id)
            },
    {
        if self.sessions.len() >= MAX_SPDM_SESSION_COUNT {
            return Err(SpdmStatus::InvalidParameter);
        }
        if self.find_session_index(session_id).is_some() {
            return Err(SpdmStatus::InvalidParameter);
        }
        let s = SpdmSession {
            session_id,
            session_state: SpdmSessionState::NotStarted,
            message_m: ManagedBuffer::new(MAX_SPDM_MESSAGE_BUFFER_SIZE),
        };
        self.sessions.push(s);
        proof {
            assert(self.sessions@.take(old(self).sessions@.len() as int) =~= old(self).sessions@);
            let n = old(self).sessions@.len() as int;
            assert(self.sessions@[n].session_id == session_id);
            assert(self.spec_has_session(session_id));
        }
        Ok(())
    }

    /// Everything but the transcript `session_id` addresses is unchanged
    /// between `a` and `b`.
    pub open spec fn only_message_m_changed(
        a: &SpdmContext,
        b: &SpdmContext,
        session_id: Option<u32>,
    ) -> bool {
        &&& b.config_info == a.config_info
        &&& b.provision_info == a.provision_info
        &&& b.negotiate_info == a.negotiate_info
        &&& b.peer_info == a.peer_info
        &&& b.runtime_info.need_measurement_signature
            == a.runtime_info.need_measurement_signature
        &&& b.runtime_info.content_changed == a.runtime_info.content_changed
        &&& b.runtime_info.message_a == a.runtime_info.message_a
        &&& b.runtime_info.message_b == a.runtime_info.message_b
        &&& b.runtime_info.message_c == a.runtime_info.message_c
        &&& b.runtime_info.message_m.spec_cap() == a.runtime_info.message_m.spec_cap()
        &&& b.sessions@.len() == a.sessions@.len()
        &&& match session_id {
            Option::None => b.sessions == a.sessions,
            Option::Some(id) => {
                &&& b.runtime_info.message_m == a.runtime_info.message_m
                &&& forall|i: int|
                    0 <= i < a.sessions@.len() && i != a.spec_session_idx(id)
                        ==> b.sessions@[i] == a.sessions@[i]
                &&& b.sessions@[a.spec_session_idx(id)].session_id
                    == a.sessions@[a.spec_session_idx(id)].session_id
                &&& b.sessions@[a.spec_session_idx(id)].session_state
                    == a.sessions@[a.spec_session_idx(id)].session_state
                &&& b.sessions@[a.spec_session_idx(id)].message_m.spec_cap()
                    == a.sessions@[a.spec_session_idx(id)].message_m.spec_cap()
            },
        }
    }

    /// Appends `bytes` to the measurement transcript `session_id`
    /// addresses: the session's when given and known, the connection's
    /// when no session id is given.
    pub fn append_message_m(&mut self, session_id: Option<u32>, bytes: &[u8]) -> (r: Result<
        (),
        SpdmStatus,
    >)
        requires
            old(self).wf(),
        ensures
            final(self).wf(),
            r is Ok <==> old(self).spec_message_m_addressable(session_id) && old(
                self,
            ).spec_message_m(session_id).len() + bytes@.len() <= MAX_SPDM_MESSAGE_BUFFER_SIZE,
            r is Ok ==> SpdmContext::only_message_m_changed(old(self), final(self), session_id)
                && final(self).spec_message_m(session_id) == old(self).spec_message_m(session_id)
                + bytes@,
            r is Err ==> r->Err_0 == (if old(self).spec_message_m_addressable(session_id) {
                SpdmStatus::BufferFull
            } else {
                SpdmStatus::InvalidParameter
            }),
            r is Err && old(self).spec_message_m_addressable(session_id)
                ==> SpdmContext::only_message_m_changed(old(self), final(self), session_id)
                && final(self).spec_message_m(session_id) == old(self).spec_message_m(session_id),
            r is Err && !old(self).spec_message_m_addressable(session_id) ==> *final(self) == *old(
                self,
            ),
    {
        match session_id {
            None => {
                match self.runtime_info.message_m.append_message(bytes) {
                    Some(_) => Ok(()),
                    None => Err(SpdmStatus::BufferFull),
                }
            },
            Some(id) => {
                match self.find_session_index(id) {
                    Some(i) => {
                        let ghost k = old(self).spec_session_idx(id);
                        let session = &mut self.sessions[i];
                        let appended = session.message_m.append_message(bytes);
                        proof {
                            assert(self.sessions@[k as int].session_id == id);
                            assert(self.spec_has_session(id));
                            let k2 = self.spec_session_idx(id);
                            assert(self.sessions@[k2].session_id == id);
                            assert(k2 == k);
                        }
                        match appended {
                            Some(_) => Ok(()),
                            None => Err(SpdmStatus::BufferFull),
                        }
                    },
                    None => Err(SpdmStatus::InvalidParameter),
                }
            },
        }
    }

    /// Empties the measurement transcript `session_id` addresses; an
    /// unknown session id leaves everything unchanged.
    pub fn reset_message_m(&mut self, session_id: Option<u32>)
        requires
            old(self).wf(),
        ensures
            final(self).wf(),
            old(self).spec_message_m_addressable(session_id) ==> {
                &&& SpdmContext::only_message_m_changed(old(self), final(self), session_id)
                &&& final(self).spec_message_m(session_id) == Seq::<u8>::empty()
            },
            !old(self).spec_message_m_addressable(session_id) ==> *final(self) == *old(self),
    {
        match session_id {
            None => {
                self.runtime_info.message_m.reset_message();
            },
            Some(id) => {
                match self.find_session_index(id) {
                    Some(i) => {
                        let ghost k = old(self).spec_session_idx(id);
                        let session = &mut self.sessions[i];
                        session.message_m.reset_message();
                        proof {
                            assert(self.sessions@[k as int].session_id == id);
                            assert(self.spec_has_session(id));
                            let k2 = self.spec_session_idx(id);
                            assert(self.sessions@[k2].session_id == id);
                            assert(k2 == k);
                        }
                    },
                    None => {},
                }
            },
        }
    }
}

} // verus!
