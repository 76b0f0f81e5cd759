//! An axis-aligned box of blocks, stored as its lowest and highest corners.

use vstd::prelude::*;

use crate::bytes::{
    extend_i32_le, i32_at, lemma_i32_le_bytes_of_read, lemma_i32_le_roundtrip, spec_i32_at,
    spec_i32_le_bytes,
};

verus! {

/// An axis-aligned box of blocks: its lowest corner and its width along each axis. Each
/// width is at least one (see `wf`).
#[derive(Debug, Clone, Copy, PartialEq, Eq, Structural)]
pub struct BlockVolume {
    pub low_x: i32,
    pub low_y: i32,
    pub low_z: i32,
    pub width_x: u32,
    pub width_y: u32,
    pub width_z: u32,
}

/// The number of blocks from `low` to `high`, both included, capped at `u32::MAX`.
pub open spec fn spec_width(low: i32, high: i32) -> u32 {
    if high - low + 1 > u32::MAX {
        u32::MAX
    } else {
        (high - low + 1) as u32
    }
}

/// The highest coordinate of `width` blocks from `low` on, capped at `i32::MAX`.
pub open spec fn spec_high(low: i32, width: u32) -> i32 {
    if low + width - 1 > i32::MAX {
        i32::MAX
    } else {
        (low + width - 1) as i32
    }
}

/// The number of blocks from `low` to `high`, both included, capped at `u32::MAX`.
fn width_between(low: i32, high: i32) -> (res: u32)
    requires
        low <= high,
    ensures
        res == spec_width(low, high),
        res != 0,
{
    let diff: u32 = (high as i64 - low as i64) as u32;
    if diff == u32::MAX {
        u32::MAX
    } else {
        diff + 1
    }
}

/// The highest coordinate of `width` blocks from `low` on, capped at `i32::MAX`.
fn high_of(low: i32, width: u32) -> (res: i32)
    requires
        width != 0,
    ensures
        res == spec_high(low, width),
{
    let high: i64 = low as i64 + (width - 1) as i64;
    if high > i32::MAX as i64 {
        i32::MAX
    } else {
        high as i32
    }
}

impl BlockVolume {
    /// Whether each width is at least one.
    pub open spec fn wf(&self) -> bool {
        self.width_x != 0 && self.width_y != 0 && self.width_z != 0
    }

    /// The box that `value` holds: six little-endian `i32`s, the lowest x, y and z and then
    /// the highest x, y and z. `None` where a highest coordinate is below its lowest.
    pub open spec fn spec_parse(b: Seq<u8>) -> Option<BlockVolume> {
        let low_x = spec_i32_at(b, 0);
        let low_y = spec_i32_at(b, 4);
        let low_z = spec_i32_at(b, 8);
        let high_x = spec_i32_at(b, 12);
        let high_y = spec_i32_at(b, 16);
        let high_z = spec_i32_at(b, 20);
        if low_x <= high_x && low_y <= high_y && low_z <= high_z {
            Some(
                BlockVolume {
                    low_x,
                    low_y,
                    low_z,
                    width_x: spec_width(low_x, high_x),
                    width_y: spec_width(low_y, high_y),
                    width_z: spec_width(low_z, high_z),
                },
            )
        } else {
            None
        }
    }

    pub fn parse(value: [u8; 24]) -> (res: Option<Self>)
        ensures
            res == Self::spec_parse(value@),
            res matches Some(v) ==> v.wf(),
    {
        let bytes = value.as_slice();
        let low_x = i32_at(bytes, 0);
        let low_y = i32_at(bytes, 4);
        let low_z = i32_at(bytes, 8);
        let high_x = i32_at(bytes, 12);
        let high_y = i32_at(bytes, 16);
        let high_z = i32_at(bytes, 20);
        if low_x <= high_x && low_y <= high_y && low_z <= high_z {
            Some(
                BlockVolume {
                    low_x,
                    low_y,
                    low_z,
                    width_x: width_between(low_x, high_x),
                    width_y: width_between(low_y, high_y),
                    width_z: width_between(low_z, high_z),
                },
            )
        } else {
            None
        }
    }

    /// The bytes of this box: the lowest corner and then the highest corner, each as three
    /// little-endian `i32`s; a highest coordinate past `i32::MAX` is written as `i32::MAX`.
    pub open spec fn spec_bytes(self) -> Seq<u8> {
        spec_i32_le_bytes(self.low_x) + spec_i32_le_bytes(self.low_y) + spec_i32_le_bytes(
            self.low_z,
        ) + spec_i32_le_bytes(spec_high(self.low_x, self.width_x)) + spec_i32_le_bytes(
            spec_high(self.low_y, self.width_y),
        ) + spec_i32_le_bytes(spec_high(self.low_z, self.width_z))
    }

    pub fn extend_serialized(&self, bytes: &mut Vec<u8>)
        requires
            self.wf(),
        ensures
            final(bytes)@ == old(bytes)@ + self.spec_bytes(),
    {
        let high_x = high_of(self.low_x, self.width_x);
        let high_y = high_of(self.low_y, self.width_y);
        let high_z = high_of(self.low_z, self.width_z);
        extend_i32_le(bytes, self.low_x);
        extend_i32_le(bytes, self.low_y);
        extend_i32_le(bytes, self.low_z);
        extend_i32_le(bytes, high_x);
        extend_i32_le(bytes, high_y);
        extend_i32_le(bytes, high_z);
        assert(bytes@ =~= old(bytes)@ + self.spec_bytes());
    }

    pub fn to_bytes(&self) -> (res: Vec<u8>)
        requires
            self.wf(),
        ensures
            res@ == self.spec_bytes(),
    {
        let mut bytes: Vec<u8> = Vec::new();
        self.extend_serialized(&mut bytes);
        assert(bytes@ =~= self.spec_bytes());
        bytes
    }
}

/// Parsing the bytes of a box gives back that box, where no highest coordinate had to be
/// capped at `i32::MAX`.
pub proof fn lemma_block_volume_roundtrip(v: BlockVolume)
    requires
        v.wf(),
        v.low_x + v.width_x - 1 <= i32::MAX,
        v.low_y + v.width_y - 1 <= i32::MAX,
        v.low_z + v.width_z - 1 <= i32::MAX,
    ensures
        BlockVolume::spec_parse(v.spec_bytes()) == Some(v),
{
    let b = v.spec_bytes();
    let hx = spec_high(v.low_x, v.width_x);
    let hy = spec_high(v.low_y, v.width_y);
    let hz = spec_high(v.low_z, v.width_z);
    assert(b.subrange(0, 4) =~= spec_i32_le_bytes(v.low_x));
    assert(b.subrange(4, 8) =~= spec_i32_le_bytes(v.low_y));
    assert(b.subrange(8, 12) =~= spec_i32_le_bytes(v.low_z));
    assert(b.subrange(12, 16) =~= spec_i32_le_bytes(hx));
    assert(b.subrange(16, 20) =~= spec_i32_le_bytes(hy));
    assert(b.subrange(20, 24) =~= spec_i32_le_bytes(hz));
    lemma_i32_at_of_bytes(b, 0, v.low_x);
    lemma_i32_at_of_bytes(b, 4, v.low_y);
    lemma_i32_at_of_bytes(b, 8, v.low_z);
    lemma_i32_at_of_bytes(b, 12, spec_high(v.low_x, v.width_x));
    lemma_i32_at_of_bytes(b, 16, spec_high(v.low_y, v.width_y));
    lemma_i32_at_of_bytes(b, 20, spec_high(v.low_z, v.width_z));
}

/// The bytes of the box parsed from 24 bytes are those bytes, where no axis spans every `i32`
/// (for which the width is capped at `u32::MAX`).
pub proof fn lemma_block_volume_bytes_roundtrip(b: Seq<u8>)
    requires
        b.len() == 24,
        BlockVolume::spec_parse(b) is Some,
        !(spec_i32_at(b, 0) == i32::MIN && spec_i32_at(b, 12) == i32::MAX),
        !(spec_i32_at(b, 4) == i32::MIN && spec_i32_at(b, 16) == i32::MAX),
        !(spec_i32_at(b, 8) == i32::MIN && spec_i32_at(b, 20) == i32::MAX),
    ensures
        BlockVolume::spec_parse(b)->0.spec_bytes() == b,
{
    lemma_i32_le_bytes_of_read(b, 0);
    lemma_i32_le_bytes_of_read(b, 4);
    lemma_i32_le_bytes_of_read(b, 8);
    lemma_i32_le_bytes_of_read(b, 12);
    lemma_i32_le_bytes_of_read(b, 16);
    lemma_i32_le_bytes_of_read(b, 20);
    assert(b =~= b.subrange(0, 4) + b.subrange(4, 8) + b.subrange(8, 12) + b.subrange(12, 16)
        + b.subrange(16, 20) + b.subrange(20, 24));
}

/// Reading the `i32` at `start` in `b`, where the four bytes there are those of `x`, gives `x`.
proof fn lemma_i32_at_of_bytes(b: Seq<u8>, start: int, x: i32)
    requires
        0 <= start,
        start + 4 <= b.len(),
        b.subrange(start, start + 4) == spec_i32_le_bytes(x),
    ensures
        spec_i32_at(b, start) == x,
{
    lemma_i32_le_roundtrip(x);
    assert(b[start] == spec_i32_le_bytes(x)[0]);
    assert(b[start + 1] == spec_i32_le_bytes(x)[1]);
    assert(b[start + 2] == spec_i32_le_bytes(x)[2]);
    assert(b[start + 3] == spec_i32_le_bytes(x)[3]);
}

} // verus!
