//! The heightmap, biome IDs and biome colors of a chunk, as stored before 1.0.0.

use vstd::prelude::*;

use crate::values::data_2d::{
    extend_u16s_le, flatten_grid, lemma_u16s_le_bytes, read_heightmap, spec_flatten_grid,
    spec_u16s_at, spec_u16s_le_bytes, unflatten_grid,
};

verus! {

/// The color of a biome.
#[derive(Debug, Clone, Copy, PartialEq, Eq, Structural)]
pub struct LegacyBiomeColor {
    pub red: u8,
    pub green: u8,
    pub blue: u8,
}

/// Not written since 1.0.0
#[derive(Debug, Clone, PartialEq, Eq)]
pub struct LegacyData2D {
    /// The inner array is indexed by Z values. The outer array is indexed by X values.
    /// Therefore, the correct indexing order is `heightmap[X][Z]`.
    pub heightmap: [[u16; 16]; 16],
    /// The inner array is indexed by Z values. The outer array is indexed by X values.
    /// Therefore, the correct indexing order is `biome_ids[X][Z]`.
    pub biome_ids: [[u8; 16]; 16],
    /// The inner array is indexed by Z values. The outer array is indexed by X values.
    /// Therefore, the correct indexing order is `biome_colors[X][Z]`.
    pub biome_colors: [[LegacyBiomeColor; 16]; 16],
}

/// The biome IDs in the 1024 bytes of biomes from 512 on: the first byte of each four.
pub open spec fn spec_legacy_biome_ids(value: Seq<u8>) -> Seq<u8> {
    Seq::new(256, |i: int| value[512 + 4 * i])
}

/// The biome colors in the 1024 bytes of biomes from 512 on: the last three bytes of each four.
pub open spec fn spec_legacy_biome_colors(value: Seq<u8>) -> Seq<LegacyBiomeColor> {
    Seq::new(
        256,
        |i: int|
            LegacyBiomeColor {
                red: value[513 + 4 * i],
                green: value[514 + 4 * i],
                blue: value[515 + 4 * i],
            },
    )
}

/// The four bytes of each biome: its ID and then its color.
pub open spec fn spec_legacy_biome_bytes(ids: Seq<u8>, colors: Seq<LegacyBiomeColor>) -> Seq<u8>
    decreases ids.len(),
{
    if ids.len() == 0 || colors.len() == 0 {
        Seq::empty()
    } else {
        spec_legacy_biome_bytes(ids.drop_last(), colors.drop_last()) + seq![
            ids.last(),
            colors.last().red,
            colors.last().green,
            colors.last().blue,
        ]
    }
}

impl LegacyData2D {
    pub fn flattened_heightmap(&self) -> (res: [u16; 256])
        ensures
            res@ == spec_flatten_grid(self.heightmap),
    {
        flatten_grid(&self.heightmap)
    }

    pub fn flattened_biome_ids(&self) -> (res: [u8; 256])
        ensures
            res@ == spec_flatten_grid(self.biome_ids),
    {
        flatten_grid(&self.biome_ids)
    }

    pub fn flattened_biome_colors(&self) -> (res: [LegacyBiomeColor; 256])
        ensures
            res@ == spec_flatten_grid(self.biome_colors),
    {
        flatten_grid(&self.biome_colors)
    }

    /// The chunk data that 1536 bytes hold: 256 little-endian `u16` heights and then four bytes
    /// per biome (ID, red, green, blue), each in XZ order; `None` for any other length.
    pub fn parse(value: &[u8]) -> (res: Option<Self>)
        ensures
            value@.len() == 1536 ==> (res matches Some(d) && spec_flatten_grid(d.heightmap)
                == spec_u16s_at(value@) && spec_flatten_grid(d.biome_ids)
                == spec_legacy_biome_ids(value@) && spec_flatten_grid(d.biome_colors)
                == spec_legacy_biome_colors(value@)),
            value@.len() != 1536 ==> res is None,
    {
        if value.len() != 1536 {
            return None;
        }
        let heights = read_heightmap(value);
        let mut ids: [u8; 256] = [0; 256];
        let mut colors: [LegacyBiomeColor; 256] = [LegacyBiomeColor { red: 0, green: 0, blue: 0 }; 256];
        let mut i: usize = 0;
        while i < 256
            invariant
                value@.len() == 1536,
                i <= 256,
                forall|j: int| 0 <= j < i ==> ids@[j] == spec_legacy_biome_ids(value@)[j],
                forall|j: int| 0 <= j < i ==> colors@[j] == spec_legacy_biome_colors(value@)[j],
            decreases 256 - i,
        {
            ids[i] = value[512 + 4 * i];
            colors[i] = LegacyBiomeColor {
                red: value[513 + 4 * i],
                green: value[514 + 4 * i],
                blue: value[515 + 4 * i],
            };
            i = i + 1;
        }
        assert(ids@ =~= spec_legacy_biome_ids(value@));
        assert(colors@ =~= spec_legacy_biome_colors(value@));
        Some(
            LegacyData2D {
                heightmap: unflatten_grid(&heights),
                biome_ids: unflatten_grid(&ids),
                biome_colors: unflatten_grid(&colors),
            },
        )
    }

    /// The bytes of this chunk data: the heights as little-endian `u16`s, and then the ID and
    /// color of each biome, each in XZ order.
    pub open spec fn spec_bytes(&self) -> Seq<u8> {
        spec_u16s_le_bytes(spec_flatten_grid(self.heightmap)) + spec_legacy_biome_bytes(
            spec_flatten_grid(self.biome_ids),
            spec_flatten_grid(self.biome_colors),
        )
    }

    pub fn to_bytes(&self) -> (res: Vec<u8>)
        ensures
            res@ == self.spec_bytes(),
    {
        let heights = flatten_grid(&self.heightmap);
        let ids = flatten_grid(&self.biome_ids);
        let colors = flatten_grid(&self.biome_colors);
        let mut output: Vec<u8> = Vec::new();
        extend_u16s_le(&mut output, &heights);
        let ghost start = output@;
        let mut i: usize = 0;
        while i < 256
            invariant
                i <= 256,
                output@ == start + spec_legacy_biome_bytes(
                    ids@.subrange(0, i as int),
                    colors@.subrange(0, i as int),
                ),
            decreases 256 - i,
        {
            assert(ids@.subrange(0, i + 1).drop_last() =~= ids@.subrange(0, i as int));
            assert(colors@.subrange(0, i + 1).drop_last() =~= colors@.subrange(0, i as int));
            output.push(ids[i]);
            output.push(colors[i].red);
            output.push(colors[i].green);
            output.push(colors[i].blue);
            i = i + 1;
            assert(output@ =~= start + spec_legacy_biome_bytes(
                ids@.subrange(0, i as int),
                colors@.subrange(0, i as int),
            ));
        }
        assert(ids@.subrange(0, 256) =~= ids@);
        assert(colors@.subrange(0, 256) =~= colors@);
        output
    }
}

proof fn lemma_legacy_biome_bytes(ids: Seq<u8>, colors: Seq<LegacyBiomeColor>)
    requires
        ids.len() == colors.len(),
    ensures
        spec_legacy_biome_bytes(ids, colors).len() == 4 * ids.len(),
        forall|i: int|
            0 <= i < ids.len() ==> {
                let b = spec_legacy_biome_bytes(ids, colors);
                &&& b[4 * i] == #[trigger] ids[i]
                &&& b[4 * i + 1] == colors[i].red
                &&& b[4 * i + 2] == colors[i].green
                &&& b[4 * i + 3] == colors[i].blue
            },
    decreases ids.len(),
{
    if ids.len() > 0 {
        lemma_legacy_biome_bytes(ids.drop_last(), colors.drop_last());
        assert forall|i: int| 0 <= i < ids.len() - 1 implies #[trigger] ids[i] == ids.drop_last()[i]
            && colors[i] == colors.drop_last()[i] by {}
    }
}

/// The bytes of legacy chunk data are read back as that chunk data.
pub proof fn lemma_legacy_data_2d_roundtrip(d: LegacyData2D)
    ensures
        d.spec_bytes().len() == 1536,
        spec_u16s_at(d.spec_bytes()) == spec_flatten_grid(d.heightmap),
        spec_legacy_biome_ids(d.spec_bytes()) == spec_flatten_grid(d.biome_ids),
        spec_legacy_biome_colors(d.spec_bytes()) == spec_flatten_grid(d.biome_colors),
{
    let h = spec_flatten_grid(d.heightmap);
    let ids = spec_flatten_grid(d.biome_ids);
    let colors = spec_flatten_grid(d.biome_colors);
    lemma_u16s_le_bytes(h);
    lemma_legacy_biome_bytes(ids, colors);
    let b = d.spec_bytes();
    let tail = spec_legacy_biome_bytes(ids, colors);
    assert(spec_u16s_at(b) =~= h) by {
        assert forall|i: int| 0 <= i < 256 implies spec_u16s_at(b)[i] == h[i] by {
            assert(b[2 * i] == spec_u16s_le_bytes(h)[2 * i]);
            assert(b[2 * i + 1] == spec_u16s_le_bytes(h)[2 * i + 1]);
        }
    }
    assert(spec_legacy_biome_ids(b) =~= ids) by {
        assert forall|i: int| 0 <= i < 256 implies spec_legacy_biome_ids(b)[i] == ids[i] by {
            assert(b[512 + 4 * i] == tail[4 * i]);
        }
    }
    assert(spec_legacy_biome_colors(b) =~= colors) by {
        assert forall|i: int| 0 <= i < 256 implies spec_legacy_biome_colors(b)[i] == colors[i] by {
            assert(tail[4 * i] == ids[i]);
            assert(b[513 + 4 * i] == tail[4 * i + 1]);
            assert(b[514 + 4 * i] == tail[4 * i + 2]);
            assert(b[515 + 4 * i] == tail[4 * i + 3]);
        }
    }
}

} // verus!
