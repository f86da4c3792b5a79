//! Typed little-endian primitives over a fixed-capacity byte buffer.
//!
//! A [`Writer`] owns its backing storage and fills it from the front,
//! refusing with [`EncodeErr`] when the room left is too small; a
//! [`Reader`] walks a byte buffer from the front and answers `None` on
//! underflow. The spec functions `u16_le`, `u24_le` and `u32_le` pin the
//! wire image of each multi-byte integer, and the lemmas at the end show
//! that reading inverts writing.

use vstd::prelude::*;

verus! {

/// The writer had less room left than the value needs.
#[derive(Clone, Copy, Debug, PartialEq, Eq, Structural)]
pub struct EncodeErr;

/// Wire image of a `u16`: low byte first.
pub open spec fn u16_le(v: u16) -> Seq<u8> {
    seq![(v & 0xff) as u8, ((v >> 8) & 0xff) as u8]
}

/// Wire image of the low 24 bits of a `u32`: low byte first.
pub open spec fn u24_le(v: u32) -> Seq<u8> {
    seq![(v & 0xff) as u8, ((v >> 8) & 0xff) as u8, ((v >> 16) & 0xff) as u8]
}

/// Wire image of a `u32`: low byte first.
pub open spec fn u32_le(v: u32) -> Seq<u8> {
    seq![
        (v & 0xff) as u8,
        ((v >> 8) & 0xff) as u8,
        ((v >> 16) & 0xff) as u8,
        ((v >> 24) & 0xff) as u8,
    ]
}

/// The `u16` whose little-endian image is `[b0, b1]`.
pub open spec fn u16_of(b0: u8, b1: u8) -> u16 {
    (b0 as u16) | ((b1 as u16) << 8)
}

/// The `u32` below 2^24 whose little-endian image is `[b0, b1, b2]`.
pub open spec fn u24_of(b0: u8, b1: u8, b2: u8) -> u32 {
    (b0 as u32) | ((b1 as u32) << 8) | ((b2 as u32) << 16)
}

/// The `u32` whose little-endian image is `[b0, b1, b2, b3]`.
pub open spec fn u32_of(b0: u8, b1: u8, b2: u8, b3: u8) -> u32 {
    (b0 as u32) | ((b1 as u32) << 8) | ((b2 as u32) << 16) | ((b3 as u32) << 24)
}

/// Reading two little-endian bytes back gives the written `u16`.
pub proof fn lemma_u16_round_trip(v: u16)
    ensures
        u16_of(u16_le(v)[0], u16_le(v)[1]) == v,
{
    assert((((v & 0xff) as u8) as u16) | (((((v >> 8) & 0xff) as u8) as u16) << 8) == v)
        by (bit_vector);
}

/// Writing a `u16` assembled from two bytes gives those bytes back.
pub proof fn lemma_u16_bytes_round_trip(b0: u8, b1: u8)
    ensures
        u16_le(u16_of(b0, b1)) =~= seq![b0, b1],
{
    let v = u16_of(b0, b1);
    assert((((b0 as u16) | ((b1 as u16) << 8)) & 0xff) as u8 == b0) by (bit_vector);
    assert(((((b0 as u16) | ((b1 as u16) << 8)) >> 8) & 0xff) as u8 == b1) by (bit_vector);
}

/// Reading three little-endian bytes back gives the written 24-bit value.
pub proof fn lemma_u24_round_trip(v: u32)
    requires
        v < 0x1000000,
    ensures
        u24_of(u24_le(v)[0], u24_le(v)[1], u24_le(v)[2]) == v,
{
    assert(v < 0x1000000 ==> (((v & 0xff) as u8) as u32) | (((((v >> 8) & 0xff) as u8) as u32)
        << 8) | (((((v >> 16) & 0xff) as u8) as u32) << 16) == v) by (bit_vector);
}

/// Writing a 24-bit value assembled from three bytes gives those bytes back.
pub proof fn lemma_u24_bytes_round_trip(b0: u8, b1: u8, b2: u8)
    ensures
        u24_of(b0, b1, b2) < 0x1000000,
        u24_le(u24_of(b0, b1, b2)) =~= seq![b0, b1, b2],
{
    assert((b0 as u32) | ((b1 as u32) << 8) | ((b2 as u32) << 16) < 0x1000000) by (bit_vector);
    let v = u24_of(b0, b1, b2);
    assert((((b0 as u32) | ((b1 as u32) << 8) | ((b2 as u32) << 16)) & 0xff) as u8 == b0)
        by (bit_vector);
    assert(((((b0 as u32) | ((b1 as u32) << 8) | ((b2 as u32) << 16)) >> 8) & 0xff) as u8 == b1)
        by (bit_vector);
    assert(((((b0 as u32) | ((b1 as u32) << 8) | ((b2 as u32) << 16)) >> 16) & 0xff) as u8 == b2)
        by (bit_vector);
}

/// Reading four little-endian bytes back gives the written `u32`.
pub proof fn lemma_u32_round_trip(v: u32)
    ensures
        u32_of(u32_le(v)[0], u32_le(v)[1], u32_le(v)[2], u32_le(v)[3]) == v,
{
    assert((((v & 0xff) as u8) as u32) | (((((v >> 8) & 0xff) as u8) as u32) << 8) | (((((v
        >> 16) & 0xff) as u8) as u32) << 16) | (((((v >> 24) & 0xff) as u8) as u32) << 24) == v)
        by (bit_vector);
}

/// An unsigned 24-bit quantity, stored in the low bits of a `u32`.
#[allow(non_camel_case_types)]
#[derive(Debug, Clone, Copy, PartialEq, Eq, Structural)]
pub struct u24 {
    v: u32,
}

impl u24 {
    pub closed spec fn spec_get(self) -> u32 {
        self.v
    }

    pub open spec fn wf(self) -> bool {
        self.spec_get() < 0x1000000
    }

    pub fn new(v: u32) -> (r: u24)
        requires
            v < 0x1000000,
        ensures
            r.spec_get() == v,
    {
        u24 { v }
    }

    pub fn get(&self) -> (r: u32)
        ensures
            r == self.spec_get(),
    {
        self.v
    }
}

/// A byte sink of fixed capacity, filled from the front.
pub struct Writer {
    buf: Vec<u8>,
    used: usize,
}

impl Writer {
    /// The whole backing storage, written prefix and untouched tail.
    pub closed spec fn storage(&self) -> Seq<u8> {
        self.buf@
    }

    /// How many bytes have been written.
    pub closed spec fn spec_used(&self) -> int {
        self.used as int
    }

    pub open spec fn capacity(&self) -> int {
        self.storage().len() as int
    }

    pub open spec fn wf(&self) -> bool {
        0 <= self.spec_used() <= self.capacity()
    }

    /// The bytes written so far.
    pub open spec fn written(&self) -> Seq<u8> {
        self.storage().take(self.spec_used())
    }

    pub open spec fn room(&self) -> int {
        self.capacity() - self.spec_used()
    }

    /// Makes a writer that fills `buf` from the front; `buf.len()` is the
    /// capacity and the initial contents stay in the untouched tail.
    pub fn init(buf: Vec<u8>) -> (w: Writer)
        ensures
            w.wf(),
            w.storage() == buf@,
            w.spec_used() == 0,
    {
        Writer { buf, used: 0 }
    }

    pub fn used(&self) -> (r: usize)
        requires
            self.wf(),
        ensures
            r == self.spec_used(),
    {
        self.used
    }

    /// Hands the whole backing storage back.
    pub fn into_buffer(self) -> (r: Vec<u8>)
        ensures
            r@ == self.storage(),
    {
        self.buf
    }

    /// Hands back only the bytes written so far.
    pub fn into_written(self) -> (r: Vec<u8>)
        requires
            self.wf(),
        ensures
            r@ == self.written(),
    {
        let Writer { mut buf, used } = self;
        buf.truncate(used);
        buf
    }

    pub fn write_u8(&mut self, v: u8) -> (r: Result<usize, EncodeErr>)
        requires
            old(self).wf(),
        ensures
            final(self).wf(),
            final(self).capacity() == old(self).capacity(),
            r is Ok <==> old(self).room() >= 1,
            r is Ok ==> r->Ok_0 == 1 && final(self).spec_used() == old(self).spec_used() + 1
                && final(self).storage() == old(self).storage().update(old(self).spec_used(), v)
                && final(self).written() == old(self).written().push(v),
            r is Err ==> *final(self) == *old(self),
    {
        if self.used < self.buf.len() {
            self.buf[self.used] = v;
            self.used = self.used + 1;
            assert(self.written() =~= old(self).written().push(v));
            Ok(1)
        } else {
            Err(EncodeErr)
        }
    }

    pub fn write_u16(&mut self, v: u16) -> (r: Result<usize, EncodeErr>)
        requires
            old(self).wf(),
        ensures
            final(self).wf(),
            final(self).capacity() == old(self).capacity(),
            r is Ok <==> old(self).room() >= 2,
            r is Ok ==> r->Ok_0 == 2 && final(self).spec_used() == old(self).spec_used() + 2
                && final(self).written() == old(self).written() + u16_le(v),
            r is Err ==> *final(self) == *old(self),
    {
        if self.buf.len() - self.used < 2 {
            return Err(EncodeErr);
        }
        let b0: u8 = (v & 0xff) as u8;
        let b1: u8 = ((v >> 8) & 0xff) as u8;
        let _ = self.write_u8(b0);
        let _ = self.write_u8(b1);
        assert(self.written() =~= old(self).written() + u16_le(v));
        Ok(2)
    }

    pub fn write_u24(&mut self, v: u32) -> (r: Result<usize, EncodeErr>)
        requires
            old(self).wf(),
            v < 0x1000000,
        ensures
            final(self).wf(),
            final(self).capacity() == old(self).capacity(),
            r is Ok <==> old(self).room() >= 3,
            r is Ok ==> r->Ok_0 == 3 && final(self).spec_used() == old(self).spec_used() + 3
                && final(self).written() == old(self).written() + u24_le(v),
            r is Err ==> *final(self) == *old(self),
    {
        if self.buf.len() - self.used < 3 {
            return Err(EncodeErr);
        }
        let b0: u8 = (v & 0xff) as u8;
        let b1: u8 = ((v >> 8) & 0xff) as u8;
        let b2: u8 = ((v >> 16) & 0xff) as u8;
        let _ = self.write_u8(b0);
        let _ = self.write_u8(b1);
        let _ = self.write_u8(b2);
        assert(self.written() =~= old(self).written() + u24_le(v));
        Ok(3)
    }

    pub fn write_u32(&mut self, v: u32) -> (r: Result<usize, EncodeErr>)
        requires
            old(self).wf(),
        ensures
            final(self).wf(),
            final(self).capacity() == old(self).capacity(),
            r is Ok <==> old(self).room() >= 4,
            r is Ok ==> r->Ok_0 == 4 && final(self).spec_used() == old(self).spec_used() + 4
                && final(self).written() == old(self).written() + u32_le(v),
            r is Err ==> *final(self) == *old(self),
    {
        if self.buf.len() - self.used < 4 {
            return Err(EncodeErr);
        }
        let b0: u8 = (v & 0xff) as u8;
        let b1: u8 = ((v >> 8) & 0xff) as u8;
        let b2: u8 = ((v >> 16) & 0xff) as u8;
        let b3: u8 = ((v >> 24) & 0xff) as u8;
        let _ = self.write_u8(b0);
        let _ = self.write_u8(b1);
        let _ = self.write_u8(b2);
        let _ = self.write_u8(b3);
        assert(self.written() =~= old(self).written() + u32_le(v));
        Ok(4)
    }

    /// Writes the first `n` bytes of `data`.
    pub fn write_bytes(&mut self, data: &[u8], n: usize) -> (r: Result<usize, EncodeErr>)
        requires
            old(self).wf(),
            n <= data@.len(),
        ensures
            final(self).wf(),
            final(self).capacity() == old(self).capacity(),
            r is Ok <==> old(self).room() >= n,
            r is Ok ==> r->Ok_0 == n && final(self).spec_used() == old(self).spec_used() + n
                && final(self).written() == old(self).written() + data@.take(n as int),
            r is Err ==> *final(self) == *old(self),
    {
        if self.buf.len() - self.used < n {
            return Err(EncodeErr);
        }
        let mut i: usize = 0;
        while i < n
            invariant
                self.wf(),
                i <= n,
                n <= data@.len(),
                self.capacity() == old(self).capacity(),
                self.spec_used() == old(self).spec_used() + i,
                old(self).room() >= n,
                self.written() == old(self).written() + data@.take(i as int),
            decreases n - i,
        {
            let _ = self.write_u8(data[i]);
            assert(self.written() =~= old(self).written() + data@.take(i + 1));
            i = i + 1;
        }
        Ok(n)
    }
}

/// A fresh vector holding the same bytes as `src`.
pub fn copy_bytes(src: &[u8]) -> (r: Vec<u8>)
    ensures
        r@ == src@,
{
    let n = src.len();
    let mut out: Vec<u8> = Vec::new();
    let mut i: usize = 0;
    while i < n
        invariant
            i <= n,
            n == src@.len(),
            out@ == src@.take(i as int),
        decreases n - i,
    {
        out.push(src[i]);
        assert(out@ =~= src@.take(i + 1));
        i = i + 1;
    }
    assert(out@ =~= src@);
    out
}

/// A fresh vector holding `src[from..to]`.
pub fn copy_range(src: &[u8], from: usize, to: usize) -> (r: Vec<u8>)
    requires
        from <= to <= src@.len(),
    ensures
        r@ == src@.subrange(from as int, to as int),
{
    let mut out: Vec<u8> = Vec::new();
    let mut i: usize = from;
    while i < to
        invariant
            from <= i <= to,
            to <= src@.len(),
            out@ == src@.subrange(from as int, i as int),
        decreases to - i,
    {
        out.push(src[i]);
        assert(out@ =~= src@.subrange(from as int, i + 1));
        i = i + 1;
    }
    out
}

/// Whether `a[ai..ai+n]` and `b[bi..bi+n]` hold the same bytes.
pub fn range_eq(a: &[u8], ai: usize, b: &[u8], bi: usize, n: usize) -> (r: bool)
    requires
        ai + n <= a@.len(),
        bi + n <= b@.len(),
    ensures
        r == (a@.subrange(ai as int, ai + n as int) == b@.subrange(bi as int, bi + n as int)),
{
    let a_len = a.len();
    let b_len = b.len();
    let mut i: usize = 0;
    while i < n
        invariant
            i <= n,
            ai + n <= a_len == a@.len(),
            bi + n <= b_len == b@.len(),
            forall|j: int| #![trigger a@[ai + j]] 0 <= j < i ==> a@[ai + j] == b@[bi + j],
        decreases n - i,
    {
        let x = a[ai + i];
        let y = b[bi + i];
        if x != y {
            proof {
                assert(a@.subrange(ai as int, ai + n as int)[i as int] != b@.subrange(
                    bi as int,
                    bi + n as int,
                )[i as int]);
            }
            return false;
        }
        i = i + 1;
    }
    proof {
        assert forall|j: int| 0 <= j < n implies #[trigger] a@.subrange(ai as int, ai + n as int)[j]
            == b@.subrange(bi as int, bi + n as int)[j] by {
            assert(a@[ai + j] == b@[bi + j]);
        }
        assert(a@.subrange(ai as int, ai + n as int) =~= b@.subrange(bi as int, bi + n as int));
    }
    true
}

/// A byte source walked from the front.
pub struct Reader {
    data: Vec<u8>,
    cursor: usize,
}

impl Reader {
    /// The whole underlying buffer.
    pub closed spec fn bytes(&self) -> Seq<u8> {
        self.data@
    }

    /// How many bytes have been consumed.
    pub closed spec fn pos(&self) -> int {
        self.cursor as int
    }

    pub open spec fn wf(&self) -> bool {
        0 <= self.pos() <= self.bytes().len()
    }

    /// The bytes not yet consumed.
    pub open spec fn remaining(&self) -> Seq<u8> {
        self.bytes().skip(self.pos())
    }

    pub fn init(data: Vec<u8>) -> (r: Reader)
        ensures
            r.wf(),
            r.bytes() == data@,
            r.pos() == 0,
    {
        Reader { data, cursor: 0 }
    }

    /// How many bytes are left to read.
    pub fn left(&self) -> (r: usize)
        requires
            self.wf(),
        ensures
            r == self.remaining().len(),
    {
        self.data.len() - self.cursor
    }

    /// How many bytes have been consumed.
    pub fn used(&self) -> (r: usize)
        requires
            self.wf(),
        ensures
            r == self.pos(),
    {
        self.cursor
    }

    pub fn read_u8(&mut self) -> (r: Option<u8>)
        requires
            old(self).wf(),
        ensures
            final(self).wf(),
            final(self).bytes() == old(self).bytes(),
            r is Some <==> old(self).remaining().len() >= 1,
            r is Some ==> r->0 == old(self).remaining()[0] && final(self).pos() == old(
                self,
            ).pos() + 1,
            r is None ==> *final(self) == *old(self),
    {
        if self.cursor < self.data.len() {
            let v = self.data[self.cursor];
            self.cursor = self.cursor + 1;
            Some(v)
        } else {
            None
        }
    }

    pub fn read_u16(&mut self) -> (r: Option<u16>)
        requires
            old(self).wf(),
        ensures
            final(self).wf(),
            final(self).bytes() == old(self).bytes(),
            r is Some <==> old(self).remaining().len() >= 2,
            r is Some ==> r->0 == u16_of(old(self).remaining()[0], old(self).remaining()[1])
                && final(self).pos() == old(self).pos() + 2,
            r is None ==> *final(self) == *old(self),
    {
        if self.data.len() - self.cursor < 2 {
            return None;
        }
        let b0 = self.read_u8().unwrap();
        let b1 = self.read_u8().unwrap();
        Some(b0 as u16 | ((b1 as u16) << 8))
    }

    pub fn read_u24(&mut self) -> (r: Option<u32>)
        requires
            old(self).wf(),
        ensures
            final(self).wf(),
            final(self).bytes() == old(self).bytes(),
            r is Some <==> old(self).remaining().len() >= 3,
            r is Some ==> r->0 == u24_of(
                old(self).remaining()[0],
                old(self).remaining()[1],
                old(self).remaining()[2],
            ) && r->0 < 0x1000000 && final(self).pos() == old(self).pos() + 3,
            r is None ==> *final(self) == *old(self),
    {
        if self.data.len() - self.cursor < 3 {
            return None;
        }
        let b0 = self.read_u8().unwrap();
        let b1 = self.read_u8().unwrap();
        let b2 = self.read_u8().unwrap();
        proof {
            lemma_u24_bytes_round_trip(b0, b1, b2);
        }
        Some(b0 as u32 | ((b1 as u32) << 8) | ((b2 as u32) << 16))
    }

    pub fn read_u32(&mut self) -> (r: Option<u32>)
        requires
            old(self).wf(),
        ensures
            final(self).wf(),
            final(self).bytes() == old(self).bytes(),
            r is Some <==> old(self).remaining().len() >= 4,
            r is Some ==> r->0 == u32_of(
                old(self).remaining()[0],
                old(self).remaining()[1],
                old(self).remaining()[2],
                old(self).remaining()[3],
            ) && final(self).pos() == old(self).pos() + 4,
            r is None ==> *final(self) == *old(self),
    {
        if self.data.len() - self.cursor < 4 {
            return None;
        }
        let b0 = self.read_u8().unwrap();
        let b1 = self.read_u8().unwrap();
        let b2 = self.read_u8().unwrap();
        let b3 = self.read_u8().unwrap();
        Some(b0 as u32 | ((b1 as u32) << 8) | ((b2 as u32) << 16) | ((b3 as u32) << 24))
    }

    /// Reads the next `n` bytes.
    pub fn read_bytes(&mut self, n: usize) -> (r: Option<Vec<u8>>)
        requires
            old(self).wf(),
        ensures
            final(self).wf(),
            final(self).bytes() == old(self).bytes(),
            r is Some <==> old(self).remaining().len() >= n,
            r is Some ==> r->0@ == old(self).remaining().take(n as int) && final(self).pos()
                == old(self).pos() + n,
            r is None ==> *final(self) == *old(self),
    {
        if self.data.len() - self.cursor < n {
            return None;
        }
        let mut out: Vec<u8> = Vec::new();
        let mut i: usize = 0;
        while i < n
            invariant
                self.wf(),
                i <= n,
                self.bytes() == old(self).bytes(),
                self.pos() == old(self).pos() + i,
                old(self).remaining().len() >= n,
                out@ == old(self).remaining().take(i as int),
            decreases n - i,
        {
            let b = self.read_u8().unwrap();
            out.push(b);
            assert(out@ =~= old(self).remaining().take(i + 1));
            i = i + 1;
        }
        Some(out)
    }
}

} // verus!
