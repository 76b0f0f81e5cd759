//! Little-endian encodings of fixed-width integers, and a cursor over a byte slice.

use vstd::prelude::*;

verus! {

/// The `u16` whose little-endian bytes are `b0, b1`.
pub open spec fn spec_u16_from_le(b0: u8, b1: u8) -> u16 {
    (b0 as int + b1 as int * 0x100) as u16
}

/// The `u32` whose little-endian bytes are `b0, b1, b2, b3`.
pub open spec fn spec_u32_from_le(b0: u8, b1: u8, b2: u8, b3: u8) -> u32 {
    (b0 as int + b1 as int * 0x100 + b2 as int * 0x1_0000 + b3 as int * 0x100_0000) as u32
}

/// The `u32` whose little-endian bytes are the four bytes of `s` from `start` on.
pub open spec fn spec_u32_at(s: Seq<u8>, start: int) -> u32 {
    spec_u32_from_le(s[start], s[start + 1], s[start + 2], s[start + 3])
}

/// The `u64` whose little-endian bytes are the eight bytes of `s` from `start` on.
pub open spec fn spec_u64_at(s: Seq<u8>, start: int) -> u64 {
    (spec_u32_at(s, start) as int + spec_u32_at(s, start + 4) as int * 0x1_0000_0000) as u64
}

/// The little-endian bytes of a `u16`.
pub open spec fn spec_u16_le_bytes(x: u16) -> Seq<u8> {
    seq![(x & 0xff) as u8, (x >> 8u16) as u8]
}

/// The little-endian bytes of a `u32`.
pub open spec fn spec_u32_le_bytes(x: u32) -> Seq<u8> {
    seq![
        (x & 0xff) as u8,
        ((x >> 8u32) & 0xff) as u8,
        ((x >> 16u32) & 0xff) as u8,
        (x >> 24u32) as u8,
    ]
}

/// The little-endian bytes of a `u64`.
pub open spec fn spec_u64_le_bytes(x: u64) -> Seq<u8> {
    spec_u32_le_bytes((x & 0xffff_ffff) as u32) + spec_u32_le_bytes((x >> 32u64) as u32)
}

/// The little-endian bytes of a sequence of `u32`s, one after another.
pub open spec fn spec_u32s_le_bytes(xs: Seq<u32>) -> Seq<u8>
    decreases xs.len(),
{
    if xs.len() == 0 {
        Seq::empty()
    } else {
        spec_u32s_le_bytes(xs.drop_last()) + spec_u32_le_bytes(xs.last())
    }
}

/// The `u32`s whose little-endian bytes are the `4 * n` bytes of `s` from `start` on.
pub open spec fn spec_u32s_at(s: Seq<u8>, start: int, n: nat) -> Seq<u32> {
    Seq::new(n, |i: int| spec_u32_at(s, start + 4 * i))
}

pub fn u16_from_le(b0: u8, b1: u8) -> (res: u16)
    ensures
        res == spec_u16_from_le(b0, b1),
{
    let res = (b0 as u16) | ((b1 as u16) << 8u16);
    assert(res == spec_u16_from_le(b0, b1)) by (bit_vector)
        requires
            res == (b0 as u16) | ((b1 as u16) << 8u16),
    ;
    res
}

pub fn u32_from_le(b0: u8, b1: u8, b2: u8, b3: u8) -> (res: u32)
    ensures
        res == spec_u32_from_le(b0, b1, b2, b3),
{
    let res = (b0 as u32) | ((b1 as u32) << 8u32) | ((b2 as u32) << 16u32) | ((b3 as u32) << 24u32);
    assert(res == spec_u32_from_le(b0, b1, b2, b3)) by (bit_vector)
        requires
            res == (b0 as u32) | ((b1 as u32) << 8u32) | ((b2 as u32) << 16u32) | ((b3 as u32)
                << 24u32),
    ;
    res
}

/// Read the little-endian `u32` at `start` in `bytes`.
pub fn u32_at(bytes: &[u8], start: usize) -> (res: u32)
    requires
        start + 4 <= bytes@.len(),
    ensures
        res == spec_u32_at(bytes@, start as int),
{
    u32_from_le(bytes[start], bytes[start + 1], bytes[start + 2], bytes[start + 3])
}

/// Read the little-endian `u64` at `start` in `bytes`.
pub fn u64_at(bytes: &[u8], start: usize) -> (res: u64)
    requires
        start + 8 <= bytes@.len(),
    ensures
        res == spec_u64_at(bytes@, start as int),
{
    let total = bytes.len();
    let low = u32_at(bytes, start);
    let high = u32_at(bytes, start + 4);
    let res = (low as u64) | ((high as u64) << 32u64);
    assert(res == (low as int + high as int * 0x1_0000_0000) as u64) by (bit_vector)
        requires
            res == (low as u64) | ((high as u64) << 32u64),
    ;
    res
}

/// Append the little-endian bytes of a `u16`.
pub fn extend_u16_le(bytes: &mut Vec<u8>, x: u16)
    ensures
        final(bytes)@ == old(bytes)@ + spec_u16_le_bytes(x),
{
    bytes.push((x & 0xff) as u8);
    bytes.push((x >> 8u16) as u8);
    assert(bytes@ =~= old(bytes)@ + spec_u16_le_bytes(x));
}

/// Append the little-endian bytes of a `u32`.
pub fn extend_u32_le(bytes: &mut Vec<u8>, x: u32)
    ensures
        final(bytes)@ == old(bytes)@ + spec_u32_le_bytes(x),
{
    bytes.push((x & 0xff) as u8);
    bytes.push(((x >> 8u32) & 0xff) as u8);
    bytes.push(((x >> 16u32) & 0xff) as u8);
    bytes.push((x >> 24u32) as u8);
    assert(bytes@ =~= old(bytes)@ + spec_u32_le_bytes(x));
}

/// Append the little-endian bytes of a `u64`.
pub fn extend_u64_le(bytes: &mut Vec<u8>, x: u64)
    ensures
        final(bytes)@ == old(bytes)@ + spec_u64_le_bytes(x),
{
    extend_u32_le(bytes, (x & 0xffff_ffff) as u32);
    extend_u32_le(bytes, (x >> 32u64) as u32);
    assert(bytes@ =~= old(bytes)@ + spec_u64_le_bytes(x));
}

/// Append a slice of bytes.
pub fn extend_bytes(bytes: &mut Vec<u8>, other: &[u8])
    ensures
        final(bytes)@ == old(bytes)@ + other@,
{
    let mut i: usize = 0;
    while i < other.len()
        invariant
            i <= other@.len(),
            bytes@ =~= old(bytes)@ + other@.subrange(0, i as int),
        decreases other@.len() - i,
    {
        bytes.push(other[i]);
        i = i + 1;
    }
    assert(other@.subrange(0, other@.len() as int) =~= other@);
}

/// Append the bytes of a vector, consuming it.
pub fn extend_vec(bytes: &mut Vec<u8>, mut other: Vec<u8>)
    ensures
        final(bytes)@ == old(bytes)@ + other@,
{
    bytes.append(&mut other);
}

/// Reading back the little-endian bytes of a `u16` gives that `u16`.
pub proof fn lemma_u16_le_roundtrip(x: u16)
    ensures
        spec_u16_from_le(spec_u16_le_bytes(x)[0], spec_u16_le_bytes(x)[1]) == x,
{
    let b0 = (x & 0xff) as u8;
    let b1 = (x >> 8u16) as u8;
    assert((b0 as int + b1 as int * 0x100) as u16 == x) by (bit_vector)
        requires
            b0 == (x & 0xff) as u8,
            b1 == (x >> 8u16) as u8,
    ;
}

/// Reading back the little-endian bytes of a `u32` gives that `u32`.
pub proof fn lemma_u32_le_roundtrip(x: u32)
    ensures
        spec_u32_at(spec_u32_le_bytes(x), 0) == x,
{
    let b0 = (x & 0xff) as u8;
    let b1 = ((x >> 8u32) & 0xff) as u8;
    let b2 = ((x >> 16u32) & 0xff) as u8;
    let b3 = (x >> 24u32) as u8;
    assert((b0 as int + b1 as int * 0x100 + b2 as int * 0x1_0000 + b3 as int * 0x100_0000) as u32
        == x) by (bit_vector)
        requires
            b0 == (x & 0xff) as u8,
            b1 == ((x >> 8u32) & 0xff) as u8,
            b2 == ((x >> 16u32) & 0xff) as u8,
            b3 == (x >> 24u32) as u8,
    ;
}

/// Writing the little-endian bytes of the `u32` read from four bytes gives back those bytes.
pub proof fn lemma_u32_le_bytes_of_read(b0: u8, b1: u8, b2: u8, b3: u8)
    ensures
        spec_u32_le_bytes(spec_u32_from_le(b0, b1, b2, b3)) == seq![b0, b1, b2, b3],
{
    let x = spec_u32_from_le(b0, b1, b2, b3);
    assert((x & 0xff) as u8 == b0 && ((x >> 8u32) & 0xff) as u8 == b1 && ((x >> 16u32) & 0xff) as u8
        == b2 && (x >> 24u32) as u8 == b3) by (bit_vector)
        requires
            x == (b0 as int + b1 as int * 0x100 + b2 as int * 0x1_0000 + b3 as int * 0x100_0000) as u32,
    ;
    assert(spec_u32_le_bytes(x) =~= seq![b0, b1, b2, b3]);
}

/// The `i32` whose little-endian bytes are the four bytes of `s` from `start` on.
pub open spec fn spec_i32_at(s: Seq<u8>, start: int) -> i32 {
    spec_u32_at(s, start) as i32
}

/// The little-endian bytes of an `i32`.
pub open spec fn spec_i32_le_bytes(x: i32) -> Seq<u8> {
    spec_u32_le_bytes(x as u32)
}

/// Read the little-endian `i32` at `start` in `bytes`.
pub fn i32_at(bytes: &[u8], start: usize) -> (res: i32)
    requires
        start + 4 <= bytes@.len(),
    ensures
        res == spec_i32_at(bytes@, start as int),
{
    u32_at(bytes, start) as i32
}

/// Append the little-endian bytes of an `i32`.
pub fn extend_i32_le(bytes: &mut Vec<u8>, x: i32)
    ensures
        final(bytes)@ == old(bytes)@ + spec_i32_le_bytes(x),
{
    extend_u32_le(bytes, x as u32);
}

/// Reading back the little-endian bytes of an `i32` gives that `i32`.
pub proof fn lemma_i32_le_roundtrip(x: i32)
    ensures
        spec_i32_at(spec_i32_le_bytes(x), 0) == x,
{
    lemma_u32_le_roundtrip(x as u32);
    assert((x as u32) as i32 == x) by (bit_vector);
}

/// Writing the little-endian bytes of the `i32` read from four bytes gives back those bytes.
pub proof fn lemma_i32_le_bytes_of_read(s: Seq<u8>, start: int)
    requires
        0 <= start,
        start + 4 <= s.len(),
    ensures
        spec_i32_le_bytes(spec_i32_at(s, start)) == s.subrange(start, start + 4),
{
    let x = spec_u32_at(s, start);
    lemma_u32_le_bytes_of_read(s[start], s[start + 1], s[start + 2], s[start + 3]);
    assert((x as i32) as u32 == x) by (bit_vector);
    assert(s.subrange(start, start + 4) =~= seq![s[start], s[start + 1], s[start + 2], s[start + 3]]);
}

/// A cursor over a byte slice that is read from front to back.
pub struct ByteReader<'a> {
    data: &'a [u8],
    pos: usize,
}

impl<'a> View for ByteReader<'a> {
    /// The bytes being read, and the number of them read so far.
    type V = (Seq<u8>, nat);

    closed spec fn view(&self) -> (Seq<u8>, nat) {
        (self.data@, self.pos as nat)
    }
}

impl<'a> ByteReader<'a> {
    /// Whether the number of bytes read so far is at most the number of bytes.
    pub open spec fn wf(&self) -> bool {
        self@.1 <= self@.0.len()
    }

    /// The bytes that are not read yet.
    pub open spec fn remaining(&self) -> Seq<u8> {
        self@.0.subrange(self@.1 as int, self@.0.len() as int)
    }

    /// A reader at the start of `data`.
    pub fn new(data: &'a [u8]) -> (res: Self)
        ensures
            res.wf(),
            res@ == (data@, 0nat),
    {
        ByteReader { data, pos: 0 }
    }

    /// The number of bytes read so far.
    pub fn position(&self) -> (res: usize)
        requires
            self.wf(),
        ensures
            res == self@.1,
            res <= self@.0.len(),
    {
        self.pos
    }

    /// The total number of bytes, read or not.
    pub fn len(&self) -> (res: usize)
        ensures
            res == self@.0.len(),
    {
        self.data.len()
    }

    /// The bytes that are not read yet.
    pub fn remaining_bytes(&self) -> (res: &'a [u8])
        requires
            self.wf(),
        ensures
            res@ == self.remaining(),
    {
        vstd::slice::slice_subrange(self.data, self.pos, self.data.len())
    }

    /// Move past `n` bytes, which must not be more than remain.
    pub fn skip(&mut self, n: usize)
        requires
            old(self).wf(),
            old(self)@.1 + n <= old(self)@.0.len(),
        ensures
            final(self).wf(),
            final(self)@ == (old(self)@.0, (old(self)@.1 + n) as nat),
    {
        let total = self.data.len();
        self.pos = self.pos + n;
    }

    /// Read exactly `n` bytes, or fail without moving if fewer than `n` remain.
    pub fn read_exact(&mut self, n: usize) -> (res: Option<Vec<u8>>)
        requires
            old(self).wf(),
        ensures
            final(self).wf(),
            final(self)@.0 == old(self)@.0,
            old(self)@.1 + n <= old(self)@.0.len() ==> {
                &&& res matches Some(read)
                &&& read@ == old(self)@.0.subrange(old(self)@.1 as int, old(self)@.1 + n)
                &&& final(self)@.1 == old(self)@.1 + n
            },
            old(self)@.1 + n > old(self)@.0.len() ==> res is None && final(self)@ == old(self)@,
    {
        let total = self.data.len();
        if n > total - self.pos {
            return None;
        }
        let mut out: Vec<u8> = Vec::new();
        let mut i: usize = 0;
        while i < n
            invariant
                self.pos + n <= self.data@.len(),
                total == self.data@.len(),
                i <= n,
                out@ =~= self.data@.subrange(self.pos as int, self.pos + i),
            decreases n - i,
        {
            out.push(self.data[self.pos + i]);
            i = i + 1;
        }
        self.pos = self.pos + n;
        Some(out)
    }
}

} // verus!
