//! The heightmap and biome IDs of a chunk, as stored before 1.18.0.

use vstd::prelude::*;

use crate::bytes::{extend_u16_le, spec_u16_from_le, spec_u16_le_bytes, u16_from_le};

verus! {

/// The values of a 16 by 16 grid indexed as `grid[X][Z]`, in XZ order (Z increments first).
pub open spec fn spec_flatten_grid<T>(grid: [[T; 16]; 16]) -> Seq<T> {
    Seq::new(256, |i: int| grid@[i / 16]@[i % 16])
}

/// Flatten a grid indexed as `grid[X][Z]` into XZ order.
pub fn flatten_grid<T: Copy>(grid: &[[T; 16]; 16]) -> (res: [T; 256])
    ensures
        res@ == spec_flatten_grid(*grid),
{
    let mut out: [T; 256] = [grid[0][0]; 256];
    let mut i: usize = 0;
    while i < 256
        invariant
            i <= 256,
            forall|j: int| 0 <= j < i ==> out@[j] == spec_flatten_grid(*grid)[j],
        decreases 256 - i,
    {
        out[i] = grid[i / 16][i % 16];
        i = i + 1;
    }
    assert(out@ =~= spec_flatten_grid(*grid));
    out
}

/// Split values in XZ order into a grid indexed as `res[X][Z]`.
pub fn unflatten_grid<T: Copy>(flat: &[T; 256]) -> (res: [[T; 16]; 16])
    ensures
        spec_flatten_grid(res) == flat@,
        forall|x: int, z: int| 0 <= x < 16 && 0 <= z < 16 ==> #[trigger] res@[x]@[z] == flat@[x * 16 + z],
{
    let filler = flat[0];
    let mut out: [[T; 16]; 16] = [[filler; 16]; 16];
    let mut x: usize = 0;
    while x < 16
        invariant
            x <= 16,
            forall|a: int, b: int| 0 <= a < x && 0 <= b < 16 ==> #[trigger] out@[a]@[b] == flat@[a * 16 + b],
        decreases 16 - x,
    {
        let mut row: [T; 16] = [filler; 16];
        let mut z: usize = 0;
        while z < 16
            invariant
                x < 16,
                z <= 16,
                forall|b: int| 0 <= b < z ==> #[trigger] row@[b] == flat@[x * 16 + b],
            decreases 16 - z,
        {
            row[z] = flat[x * 16 + z];
            z = z + 1;
        }
        out[x] = row;
        x = x + 1;
    }
    assert(spec_flatten_grid(out) =~= flat@) by {
        assert forall|i: int| 0 <= i < 256 implies #[trigger] spec_flatten_grid(out)[i] == flat@[i] by {
            assert(out@[i / 16]@[i % 16] == flat@[(i / 16) * 16 + i % 16]);
        }
    }
    out
}

/// The 256 little-endian `u16`s at the start of `value`.
pub open spec fn spec_u16s_at(value: Seq<u8>) -> Seq<u16> {
    Seq::new(256, |i: int| spec_u16_from_le(value[2 * i], value[2 * i + 1]))
}

/// The little-endian bytes of `xs`, one after another.
pub open spec fn spec_u16s_le_bytes(xs: Seq<u16>) -> Seq<u8>
    decreases xs.len(),
{
    if xs.len() == 0 {
        Seq::empty()
    } else {
        spec_u16s_le_bytes(xs.drop_last()) + spec_u16_le_bytes(xs.last())
    }
}

/// Read the 256 little-endian `u16`s at the start of `value`.
pub fn read_heightmap(value: &[u8]) -> (res: [u16; 256])
    requires
        512 <= value@.len(),
    ensures
        res@ == spec_u16s_at(value@),
{
    let mut out: [u16; 256] = [0; 256];
    let mut i: usize = 0;
    while i < 256
        invariant
            512 <= value@.len(),
            i <= 256,
            forall|j: int| 0 <= j < i ==> out@[j] == spec_u16s_at(value@)[j],
        decreases 256 - i,
    {
        out[i] = u16_from_le(value[2 * i], value[2 * i + 1]);
        i = i + 1;
    }
    assert(out@ =~= spec_u16s_at(value@));
    out
}

/// Append the little-endian bytes of each of `xs`.
pub fn extend_u16s_le(bytes: &mut Vec<u8>, xs: &[u16])
    ensures
        final(bytes)@ == old(bytes)@ + spec_u16s_le_bytes(xs@),
{
    let mut i: usize = 0;
    while i < xs.len()
        invariant
            i <= xs@.len(),
            bytes@ == old(bytes)@ + spec_u16s_le_bytes(xs@.subrange(0, i as int)),
        decreases xs@.len() - i,
    {
        assert(xs@.subrange(0, i + 1).drop_last() =~= xs@.subrange(0, i as int));
        extend_u16_le(bytes, xs[i]);
        i = i + 1;
    }
    assert(xs@.subrange(0, xs@.len() as int) =~= xs@);
}

/// The bytes of little-endian `u16`s: two per value, low byte first.
pub proof fn lemma_u16s_le_bytes(xs: Seq<u16>)
    ensures
        spec_u16s_le_bytes(xs).len() == 2 * xs.len(),
        forall|i: int|
            0 <= i < xs.len() ==> spec_u16_from_le(
                spec_u16s_le_bytes(xs)[2 * i],
                spec_u16s_le_bytes(xs)[2 * i + 1],
            ) == #[trigger] xs[i],
    decreases xs.len(),
{
    if xs.len() > 0 {
        lemma_u16s_le_bytes(xs.drop_last());
        crate::bytes::lemma_u16_le_roundtrip(xs.last());
        assert forall|i: int| 0 <= i < xs.len() implies spec_u16_from_le(
            spec_u16s_le_bytes(xs)[2 * i],
            spec_u16s_le_bytes(xs)[2 * i + 1],
        ) == #[trigger] xs[i] by {
            if i < xs.len() - 1 {
                assert(xs.drop_last()[i] == xs[i]);
            }
        }
    }
}

/// Not written since 1.18.0
#[derive(Debug, Clone, PartialEq, Eq)]
pub struct Data2D {
    /// The inner array is indexed by Z values. The outer array is indexed by X values.
    /// Therefore, the correct indexing order is `heightmap[X][Z]`.
    pub heightmap: [[u16; 16]; 16],
    /// The inner array is indexed by Z values. The outer array is indexed by X values.
    /// Therefore, the correct indexing order is `biome_ids[X][Z]`.
    pub biome_ids: [[u8; 16]; 16],
}

impl Data2D {
    pub fn flattened_heightmap(&self) -> (res: [u16; 256])
        ensures
            res@ == spec_flatten_grid(self.heightmap),
    {
        flatten_grid(&self.heightmap)
    }

    pub fn flattened_biome_ids(&self) -> (res: [u8; 256])
        ensures
            res@ == spec_flatten_grid(self.biome_ids),
    {
        flatten_grid(&self.biome_ids)
    }

    /// The chunk data that 768 bytes hold: 256 little-endian `u16` heights and then 256 biome
    /// IDs, each in XZ order; `None` for any other length.
    pub fn parse(value: &[u8]) -> (res: Option<Self>)
        ensures
            value@.len() == 768 ==> (res matches Some(d) && spec_flatten_grid(d.heightmap)
                == spec_u16s_at(value@) && spec_flatten_grid(d.biome_ids) == value@.subrange(
                512,
                768,
            )),
            value@.len() != 768 ==> res is None,
    {
        if value.len() != 768 {
            return None;
        }
        let heights = read_heightmap(value);
        let mut ids: [u8; 256] = [0; 256];
        let mut i: usize = 0;
        while i < 256
            invariant
                value@.len() == 768,
                i <= 256,
                forall|j: int| 0 <= j < i ==> ids@[j] == value@[512 + j],
            decreases 256 - i,
        {
            ids[i] = value[512 + i];
            i = i + 1;
        }
        assert(ids@ =~= value@.subrange(512, 768));
        Some(Data2D { heightmap: unflatten_grid(&heights), biome_ids: unflatten_grid(&ids) })
    }

    /// The bytes of this chunk data: the heights as little-endian `u16`s and then the biome
    /// IDs, each in XZ order.
    pub open spec fn spec_bytes(&self) -> Seq<u8> {
        spec_u16s_le_bytes(spec_flatten_grid(self.heightmap)) + spec_flatten_grid(self.biome_ids)
    }

    pub fn to_bytes(&self) -> (res: Vec<u8>)
        ensures
            res@ == self.spec_bytes(),
    {
        let heights = flatten_grid(&self.heightmap);
        let ids = flatten_grid(&self.biome_ids);
        let mut output: Vec<u8> = Vec::new();
        extend_u16s_le(&mut output, &heights);
        crate::bytes::extend_bytes(&mut output, &ids);
        output
    }
}

/// Grids with the same values in XZ order are the same grid.
pub proof fn lemma_flatten_grid_injective<T>(a: [[T; 16]; 16], b: [[T; 16]; 16])
    requires
        spec_flatten_grid(a) == spec_flatten_grid(b),
    ensures
        a == b,
{
    assert forall|x: int| 0 <= x < 16 implies a@[x] == b@[x] by {
        assert forall|z: int| 0 <= z < 16 implies a@[x]@[z] == b@[x]@[z] by {
            assert((x * 16 + z) / 16 == x && (x * 16 + z) % 16 == z) by (nonlinear_arith)
                requires
                    0 <= z < 16,
                    0 <= x,
            ;
            let k = x * 16 + z;
            assert(0 <= k < 256);
            assert(spec_flatten_grid(a)[k] == a@[k / 16]@[k % 16]);
            assert(spec_flatten_grid(b)[k] == b@[k / 16]@[k % 16]);
        }
        assert(a@[x] =~= b@[x]);
    }
    assert(a =~= b);
}

/// The bytes of chunk data are read back as that chunk data.
pub proof fn lemma_data_2d_roundtrip(d: Data2D)
    ensures
        d.spec_bytes().len() == 768,
        spec_u16s_at(d.spec_bytes()) == spec_flatten_grid(d.heightmap),
        d.spec_bytes().subrange(512, 768) == spec_flatten_grid(d.biome_ids),
{
    let h = spec_flatten_grid(d.heightmap);
    lemma_u16s_le_bytes(h);
    let b = d.spec_bytes();
    assert(spec_u16s_at(b) =~= h) by {
        assert forall|i: int| 0 <= i < 256 implies spec_u16s_at(b)[i] == h[i] by {
            assert(b[2 * i] == spec_u16s_le_bytes(h)[2 * i]);
            assert(b[2 * i + 1] == spec_u16s_le_bytes(h)[2 * i + 1]);
        }
    }
    assert(b.subrange(512, 768) =~= spec_flatten_grid(d.biome_ids));
}

} // verus!
