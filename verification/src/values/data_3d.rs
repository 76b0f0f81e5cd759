//! Heights and 3D biomes of a chunk.

use vstd::prelude::*;

use crate::bytes::{spec_u32_at, spec_u32_le_bytes, spec_u32s_at, spec_u32s_le_bytes, ByteReader};
use crate::values::data_2d::{
    extend_u16s_le, flatten_grid, read_heightmap, spec_flatten_grid, spec_u16s_at,
    spec_u16s_le_bytes, unflatten_grid,
};
use crate::values::palettized_storage::{
    read_le_u32s, write_le_u32s, HeaderBitsPerIndex, PaletteHeader, PaletteType,
    PalettizedStorage, PalettizedSubchunk,
};

verus! {

/// Heights and biomes of a chunk.
#[derive(Debug, Clone)]
pub struct Data3D {
    /// The inner array is indexed by Z values. The outer array is indexed by X values.
    /// Therefore, the correct indexing order is `heightmap[X][Z]`.
    pub heightmap: [[u16; 16]; 16],
    /// The biomes are stored in subchunks starting from the bottom of the world.
    /// In the Overworld, it should have length 24; in the Nether, 8; and in the End, 16.
    pub biomes: Vec<PalettizedStorage<u32>>,
}

/// The parts of a storage: its header bits per index, its packed index blocks, and its
/// palette (the single value of a uniform storage, nothing for an empty one).
pub open spec fn spec_storage_parts(s: PalettizedStorage<u32>) -> (
    HeaderBitsPerIndex,
    Seq<u32>,
    Seq<u32>,
) {
    match s {
        PalettizedStorage::Empty => (HeaderBitsPerIndex::Empty, Seq::empty(), Seq::empty()),
        PalettizedStorage::Uniform(v) => (HeaderBitsPerIndex::Uniform, Seq::empty(), seq![v]),
        PalettizedStorage::Palettized(p) => (HeaderBitsPerIndex::Palettized(p@.0), p@.1, p@.2),
    }
}

/// Whether a palettized storage meets the assumptions of its subchunk.
pub open spec fn spec_storage_wf(s: PalettizedStorage<u32>) -> bool {
    match s {
        PalettizedStorage::Palettized(p) => p.wf(),
        _ => true,
    }
}

/// The runtime storage of `u32` values whose header byte is at `pos` of `data`, by its parts,
/// and the position after it; `None` where the header is invalid or persistent, the bytes
/// end too early, or the packed indices fail the checks of a subchunk.
pub open spec fn spec_runtime_storage_at(data: Seq<u8>, pos: int) -> Option<
    ((HeaderBitsPerIndex, Seq<u32>, Seq<u32>), int),
> {
    if pos < 0 || pos >= data.len() {
        None
    } else {
        match PaletteHeader::spec_parse(data[pos]) {
            Err(_) => None,
            Ok(header) => if header.palette_type == PaletteType::Persistent {
                None
            } else {
                match header.bits_per_index {
                    HeaderBitsPerIndex::Empty => Some(
                        ((HeaderBitsPerIndex::Empty, Seq::empty(), Seq::empty()), pos + 1),
                    ),
                    HeaderBitsPerIndex::Uniform => if pos + 5 > data.len() {
                        None
                    } else {
                        Some(
                            (
                                (
                                    HeaderBitsPerIndex::Uniform,
                                    Seq::empty(),
                                    seq![spec_u32_at(data, pos + 1)],
                                ),
                                pos + 5,
                            ),
                        )
                    },
                    HeaderBitsPerIndex::Palettized(b) => {
                        let len_at = pos + 1 + 4 * (b.spec_num_u32s() as int);
                        if len_at + 4 > data.len() {
                            None
                        } else {
                            let packed = spec_u32s_at(data, pos + 1, b.spec_num_u32s() as nat);
                            let palette_len = spec_u32_at(data, len_at);
                            let end = len_at + 4 + 4 * palette_len;
                            if end > data.len() {
                                None
                            } else if PalettizedSubchunk::<u32>::spec_check(
                                b,
                                packed,
                                palette_len as usize,
                            ) is Err {
                                None
                            } else {
                                Some(
                                    (
                                        (
                                            HeaderBitsPerIndex::Palettized(b),
                                            packed,
                                            spec_u32s_at(data, len_at + 4, palette_len as nat),
                                        ),
                                        end,
                                    ),
                                )
                            }
                        }
                    },
                }
            },
        }
    }
}

/// The runtime storages stored one after another from `pos` to the end of `data`, by their
/// parts; `None` if one of them cannot be read.
pub open spec fn spec_storages_from(data: Seq<u8>, pos: int) -> Option<
    Seq<(HeaderBitsPerIndex, Seq<u32>, Seq<u32>)>,
>
    decreases data.len() - pos,
{
    if pos < 0 || pos >= data.len() {
        Some(Seq::empty())
    } else {
        match spec_runtime_storage_at(data, pos) {
            None => None,
            Some((parts, next)) => if next <= pos || next > data.len() {
                None
            } else {
                match spec_storages_from(data, next) {
                    None => None,
                    Some(rest) => Some(seq![parts] + rest),
                }
            },
        }
    }
}

/// `parts` followed by the storages of `rest`, if those could be read.
pub open spec fn spec_prepend(
    parts: Seq<(HeaderBitsPerIndex, Seq<u32>, Seq<u32>)>,
    rest: Option<Seq<(HeaderBitsPerIndex, Seq<u32>, Seq<u32>)>>,
) -> Option<Seq<(HeaderBitsPerIndex, Seq<u32>, Seq<u32>)>> {
    match rest {
        None => None,
        Some(r) => Some(parts + r),
    }
}

/// The parts of each of `storages`.
pub open spec fn spec_parts_of(storages: Seq<PalettizedStorage<u32>>) -> Seq<
    (HeaderBitsPerIndex, Seq<u32>, Seq<u32>),
> {
    Seq::new(storages.len(), |i: int| spec_storage_parts(storages[i]))
}

/// The bytes of a runtime storage of `u32` values with the given parts: its header byte, then
/// nothing for an empty storage, the value for a uniform one, and the packed index blocks,
/// the palette length and the palette for a palettized one, all little-endian.
pub open spec fn spec_runtime_storage_bytes(parts: (HeaderBitsPerIndex, Seq<u32>, Seq<u32>)) -> Seq<
    u8,
> {
    let header = PaletteHeader {
        palette_type: PaletteType::Runtime,
        bits_per_index: parts.0,
    }.spec_to_u8();
    match parts.0 {
        HeaderBitsPerIndex::Empty => seq![header],
        HeaderBitsPerIndex::Uniform => seq![header] + spec_u32s_le_bytes(parts.2),
        HeaderBitsPerIndex::Palettized(_) => seq![header] + spec_u32s_le_bytes(parts.1)
            + spec_u32_le_bytes(parts.2.len() as u32) + spec_u32s_le_bytes(parts.2),
    }
}

/// The bytes of runtime storages with the given parts, one after another.
pub open spec fn spec_storages_bytes(parts: Seq<(HeaderBitsPerIndex, Seq<u32>, Seq<u32>)>) -> Seq<
    u8,
>
    decreases parts.len(),
{
    if parts.len() == 0 {
        Seq::empty()
    } else {
        spec_storages_bytes(parts.drop_last()) + spec_runtime_storage_bytes(parts.last())
    }
}

/// Whether every palettized storage of `storages` has a palette whose length fits in a `u32`.
pub open spec fn spec_palettes_fit(storages: Seq<PalettizedStorage<u32>>) -> bool {
    forall|i: int|
        0 <= i < storages.len() ==> (#[trigger] storages[i] matches PalettizedStorage::Palettized(
            p,
        ) ==> p@.2.len() <= u32::MAX)
}

/// The `u32`s read from a slice at `start` are those read from the whole at the same place.
proof fn lemma_u32s_at_subrange(data: Seq<u8>, from: int, start: int, n: nat)
    requires
        0 <= from,
        0 <= start,
        from + start + 4 * n <= data.len(),
    ensures
        spec_u32s_at(data.subrange(from, data.len() as int), start, n) == spec_u32s_at(
            data,
            from + start,
            n,
        ),
{
    let s = data.subrange(from, data.len() as int);
    assert forall|i: int| 0 <= i < n implies spec_u32s_at(s, start, n)[i] == spec_u32s_at(
        data,
        from + start,
        n,
    )[i] by {
        assert(s[start + 4 * i] == data[from + start + 4 * i]);
        assert(s[start + 4 * i + 1] == data[from + start + 4 * i + 1]);
        assert(s[start + 4 * i + 2] == data[from + start + 4 * i + 2]);
        assert(s[start + 4 * i + 3] == data[from + start + 4 * i + 3]);
    }
    assert(spec_u32s_at(s, start, n) =~= spec_u32s_at(data, from + start, n));
}

/// Read a palette of `palette_len` little-endian `u32`s from the start of `bytes`, with the
/// number of bytes read.
pub fn le_u32_palette(bytes: &[u8], palette_len: usize) -> (res: Result<(Vec<u32>, usize), ()>)
    ensures
        4 * palette_len <= bytes@.len() ==> (res matches Ok((palette, used)) && palette@
            == spec_u32s_at(bytes@, 0, palette_len as nat) && used == 4 * palette_len),
        4 * palette_len > bytes@.len() ==> res is Err,
{
    let mut reader = ByteReader::new(bytes);
    let total = bytes.len();
    match read_le_u32s(&mut reader, palette_len) {
        Some(palette) => {
            assert(4 * palette_len <= total);
            Ok((palette, 4 * palette_len))
        },
        None => Err(()),
    }
}

/// The little-endian bytes of a palette of `u32`s.
pub fn le_u32_palette_bytes(values: &[u32]) -> (res: Result<Vec<u8>, ()>)
    ensures
        res matches Ok(bytes) && bytes@ == spec_u32s_le_bytes(values@),
{
    let mut bytes: Vec<u8> = Vec::new();
    let _ = write_le_u32s(values, &mut bytes);
    assert(bytes@ =~= spec_u32s_le_bytes(values@));
    Ok(bytes)
}

/// Read the runtime storage of `u32` values at the reader's position.
fn parse_runtime_storage(reader: &mut ByteReader) -> (res: Option<PalettizedStorage<u32>>)
    requires
        old(reader).wf(),
    ensures
        final(reader).wf(),
        final(reader)@.0 == old(reader)@.0,
        match spec_runtime_storage_at(old(reader)@.0, old(reader)@.1 as int) {
            None => res is None,
            Some((parts, next)) => {
                &&& res matches Some(s)
                &&& spec_storage_parts(s) == parts
                &&& spec_storage_wf(s)
                &&& final(reader)@.1 == next
            },
        },
{
    let ghost data = reader@.0;
    let ghost pos = reader@.1 as int;
    let header = match PaletteHeader::parse_header(reader) {
        Ok(header) => header,
        Err(_) => {
            return None;
        },
    };
    match header.palette_type {
        PaletteType::Persistent => {
            return None;
        },
        PaletteType::Runtime => {},
    }
    let ghost start = pos + 1;
    let result = PalettizedStorage::parse(reader, header.bits_per_index, le_u32_palette);
    proof {
        let rest = data.subrange(start, data.len() as int);
        assert(reader@.0 == data);
        match header.bits_per_index {
            HeaderBitsPerIndex::Uniform => {
                if pos + 5 <= data.len() {
                    lemma_u32s_at_subrange(data, start, 0, 1);
                }
            },
            HeaderBitsPerIndex::Palettized(b) => {
                let n = b.spec_num_u32s() as int;
                let len_at = start + 4 * n;
                if len_at + 4 <= data.len() {
                    let palette_len = spec_u32_at(data, len_at);
                    if len_at + 4 + 4 * palette_len <= data.len() {
                        lemma_u32s_at_subrange(data, len_at + 4, 0, palette_len as nat);
                    }
                }
            },
            HeaderBitsPerIndex::Empty => {},
        }
    }
    match result {
        Ok(storage) => Some(storage),
        Err(_) => None,
    }
}

impl Data3D {
    /// The heights as one array, in XZ order.
    pub fn flattened_heightmap(&self) -> (res: [u16; 256])
        ensures
            res@ == spec_flatten_grid(self.heightmap),
    {
        flatten_grid(&self.heightmap)
    }

    /// The chunk data in `value`: 256 little-endian `u16` heights in XZ order, then runtime
    /// storages of `u32` biome IDs, one after another to the end; `None` if there is nothing
    /// after the heights or one of the storages cannot be read.
    pub fn parse(value: &[u8]) -> (res: Option<Self>)
        ensures
            value@.len() <= 512 ==> res is None,
            value@.len() > 512 ==> match spec_storages_from(
                value@.subrange(512, value@.len() as int),
                0,
            ) {
                None => res is None,
                Some(parts) => {
                    &&& res matches Some(d)
                    &&& spec_flatten_grid(d.heightmap) == spec_u16s_at(value@)
                    &&& spec_parts_of(d.biomes@) == parts
                    &&& forall|i: int|
                        0 <= i < d.biomes@.len() ==> #[trigger] spec_storage_wf(d.biomes@[i])
                },
            },
    {
        if value.len() <= 512 {
            return None;
        }
        let heights = read_heightmap(value);
        let rest = vstd::slice::slice_subrange(value, 512, value.len());
        let remaining_len = rest.len();
        let mut reader = ByteReader::new(rest);
        let mut biomes: Vec<PalettizedStorage<u32>> = Vec::new();
        while reader.position() < remaining_len
            invariant
                reader.wf(),
                reader@.0 == rest@,
                rest@ == value@.subrange(512, value@.len() as int),
                remaining_len == rest@.len(),
                spec_storages_from(rest@, 0) == spec_prepend(
                    spec_parts_of(biomes@),
                    spec_storages_from(rest@, reader@.1 as int),
                ),
                forall|i: int| 0 <= i < biomes@.len() ==> #[trigger] spec_storage_wf(biomes@[i]),
            decreases remaining_len - reader@.1,
        {
            let ghost pos = reader@.1 as int;
            let storage = match parse_runtime_storage(&mut reader) {
                Some(storage) => storage,
                None => {
                    assert(spec_storages_from(rest@, pos) is None);
                    return None;
                },
            };
            let ghost next = reader@.1 as int;
            proof {
                assert(next > pos);
                let before = spec_parts_of(biomes@);
                let after = spec_parts_of(biomes@.push(storage));
                assert(after =~= before.push(spec_storage_parts(storage)));
                match spec_storages_from(rest@, next) {
                    None => {},
                    Some(tail) => {
                        assert(before + (seq![spec_storage_parts(storage)] + tail) =~= after
                            + tail);
                    },
                }
            }
            biomes.push(storage);
        }
        proof {
            assert(spec_parts_of(biomes@) + Seq::empty() =~= spec_parts_of(biomes@));
        }
        Some(Data3D { heightmap: unflatten_grid(&heights), biomes })
    }
    /// The bytes of this chunk data: the heights as little-endian `u16`s in XZ order, then
    /// each biome storage as a runtime storage.
    pub open spec fn spec_bytes(&self) -> Seq<u8> {
        spec_u16s_le_bytes(spec_flatten_grid(self.heightmap)) + spec_storages_bytes(
            spec_parts_of(self.biomes@),
        )
    }

    /// Append the bytes of this chunk data to `bytes`.
    pub fn extend_serialized(&self, bytes: &mut Vec<u8>)
        requires
            spec_palettes_fit(self.biomes@),
        ensures
            final(bytes)@ == old(bytes)@ + self.spec_bytes(),
    {
        let heights = flatten_grid(&self.heightmap);
        extend_u16s_le(bytes, &heights);
        let ghost start = bytes@;
        let mut i: usize = 0;
        while i < self.biomes.len()
            invariant
                i <= self.biomes@.len(),
                spec_palettes_fit(self.biomes@),
                bytes@ == start + spec_storages_bytes(
                    spec_parts_of(self.biomes@).subrange(0, i as int),
                ),
            decreases self.biomes@.len() - i,
        {
            let storage = &self.biomes[i];
            let ghost before = bytes@;
            let _ = storage.extend_serialized(bytes, PaletteType::Runtime, true, le_u32_palette_bytes);
            proof {
                let parts = spec_parts_of(self.biomes@);
                assert(parts.subrange(0, i + 1).drop_last() =~= parts.subrange(0, i as int));
                assert(parts[i as int] == spec_storage_parts(*storage));
                assert(bytes@ =~= before + spec_runtime_storage_bytes(spec_storage_parts(*storage)));
            }
            i = i + 1;
        }
        proof {
            assert(spec_parts_of(self.biomes@).subrange(0, self.biomes@.len() as int)
                =~= spec_parts_of(self.biomes@));
        }
    }

    /// The bytes of this chunk data.
    pub fn to_bytes(&self) -> (res: Vec<u8>)
        requires
            spec_palettes_fit(self.biomes@),
        ensures
            res@ == self.spec_bytes(),
    {
        let mut bytes: Vec<u8> = Vec::new();
        self.extend_serialized(&mut bytes);
        assert(bytes@ =~= self.spec_bytes());
        bytes
    }
}


/// Four little-endian bytes per `u32`.
pub proof fn lemma_u32s_le_bytes_len(xs: Seq<u32>)
    ensures
        spec_u32s_le_bytes(xs).len() == 4 * xs.len(),
    decreases xs.len(),
{
    if xs.len() > 0 {
        lemma_u32s_le_bytes_len(xs.drop_last());
    }
}

/// Where `x` and then `y` stand in `data` at `pos`, `x` stands at `pos` and `y` right after it.
proof fn lemma_split_at(data: Seq<u8>, pos: int, x: Seq<u8>, y: Seq<u8>)
    requires
        0 <= pos,
        pos + x.len() + y.len() <= data.len(),
        data.subrange(pos, pos + x.len() + y.len()) == x + y,
    ensures
        data.subrange(pos, pos + x.len()) == x,
        data.subrange(pos + x.len(), pos + x.len() + y.len()) == y,
{
    let whole = data.subrange(pos, pos + x.len() + y.len());
    assert forall|k: int| 0 <= k < x.len() implies data.subrange(pos, pos + x.len())[k] == x[k] by {
        assert(whole[k] == (x + y)[k]);
    }
    assert forall|k: int| 0 <= k < y.len() implies data.subrange(
        pos + x.len(),
        pos + x.len() + y.len(),
    )[k] == y[k] by {
        assert(whole[x.len() + k] == (x + y)[x.len() + k]);
    }
    assert(data.subrange(pos, pos + x.len()) =~= x);
    assert(data.subrange(pos + x.len(), pos + x.len() + y.len()) =~= y);
}

/// The `u32`s read where their little-endian bytes stand are those `u32`s.
pub proof fn lemma_u32s_read_back(data: Seq<u8>, pos: int, xs: Seq<u32>)
    requires
        0 <= pos,
        pos + 4 * xs.len() <= data.len(),
        data.subrange(pos, pos + 4 * xs.len()) == spec_u32s_le_bytes(xs),
    ensures
        spec_u32s_at(data, pos, xs.len()) == xs,
    decreases xs.len(),
{
    if xs.len() > 0 {
        let init = xs.drop_last();
        let last = xs.last();
        lemma_u32s_le_bytes_len(init);
        lemma_split_at(data, pos, spec_u32s_le_bytes(init), spec_u32_le_bytes(last));
        lemma_u32s_read_back(data, pos, init);
        crate::bytes::lemma_u32_le_roundtrip(last);
        let at = pos + 4 * init.len();
        let tail = data.subrange(at, at + 4);
        assert(tail == spec_u32_le_bytes(last));
        assert(spec_u32_at(data, at) == spec_u32_at(tail, 0)) by {
            assert(tail[0] == data[at]);
            assert(tail[1] == data[at + 1]);
            assert(tail[2] == data[at + 2]);
            assert(tail[3] == data[at + 3]);
        }
        assert forall|i: int| 0 <= i < xs.len() implies spec_u32s_at(data, pos, xs.len())[i]
            == xs[i] by {
            if i < init.len() {
                assert(spec_u32s_at(data, pos, init.len())[i] == init[i]);
            }
        }
        assert(spec_u32s_at(data, pos, xs.len()) =~= xs);
    }
}

/// Reading a well-formed storage back where its bytes stand gives its parts, and the
/// position right after those bytes.
pub proof fn lemma_runtime_storage_read_back(data: Seq<u8>, pos: int, s: PalettizedStorage<u32>)
    requires
        spec_storage_wf(s),
        0 <= pos,
        pos + spec_runtime_storage_bytes(spec_storage_parts(s)).len() <= data.len(),
        data.subrange(pos, pos + spec_runtime_storage_bytes(spec_storage_parts(s)).len())
            == spec_runtime_storage_bytes(spec_storage_parts(s)),
    ensures
        spec_runtime_storage_at(data, pos) == Some(
            (
                spec_storage_parts(s),
                pos + spec_runtime_storage_bytes(spec_storage_parts(s)).len(),
            ),
        ),
{
    let parts = spec_storage_parts(s);
    let bytes = spec_runtime_storage_bytes(parts);
    let header = PaletteHeader { palette_type: PaletteType::Runtime, bits_per_index: parts.0 };
    crate::values::palettized_storage::lemma_header_roundtrip(header);
    assert(data[pos] == bytes[0]) by {
        assert(data.subrange(pos, pos + bytes.len())[0] == data[pos]);
    }
    match s {
        PalettizedStorage::Empty => {},
        PalettizedStorage::Uniform(v) => {
            lemma_u32s_le_bytes_len(seq![v]);
            lemma_split_at(data, pos, seq![header.spec_to_u8()], spec_u32s_le_bytes(seq![v]));
            lemma_u32s_read_back(data, pos + 1, seq![v]);
            assert(spec_u32s_at(data, pos + 1, 1)[0] == spec_u32_at(data, pos + 1));
            assert(seq![spec_u32_at(data, pos + 1)] =~= seq![v]);
        },
        PalettizedStorage::Palettized(p) => {
            let b = p@.0;
            let packed = p@.1;
            let palette = p@.2;
            let n = b.spec_num_u32s() as int;
            lemma_u32s_le_bytes_len(packed);
            lemma_u32s_le_bytes_len(palette);
            let h = seq![header.spec_to_u8()];
            let a = spec_u32s_le_bytes(packed);
            let l = spec_u32_le_bytes(palette.len() as u32);
            let c = spec_u32s_le_bytes(palette);
            assert(bytes == h + a + l + c);
            lemma_split_at(data, pos, h + a + l, c);
            lemma_split_at(data, pos, h + a, l);
            lemma_split_at(data, pos, h, a);
            lemma_u32s_read_back(data, pos + 1, packed);
            let len_at = pos + 1 + 4 * n;
            crate::bytes::lemma_u32_le_roundtrip(palette.len() as u32);
            let ltail = data.subrange(len_at, len_at + 4);
            assert(ltail == l);
            assert(spec_u32_at(data, len_at) == spec_u32_at(ltail, 0)) by {
                assert(ltail[0] == data[len_at]);
                assert(ltail[1] == data[len_at + 1]);
                assert(ltail[2] == data[len_at + 2]);
                assert(ltail[3] == data[len_at + 3]);
            }
            assert(spec_u32_at(data, len_at) == palette.len());
            lemma_u32s_read_back(data, len_at + 4, palette);
            crate::values::palettized_storage::lemma_wf_passes_check(
                b,
                packed,
                palette.len() as usize,
            );
        },
    }
}

/// The bytes of storages, the first one first.
proof fn lemma_storages_bytes_front(
    first: (HeaderBitsPerIndex, Seq<u32>, Seq<u32>),
    rest: Seq<(HeaderBitsPerIndex, Seq<u32>, Seq<u32>)>,
)
    ensures
        spec_storages_bytes(seq![first] + rest) == spec_runtime_storage_bytes(first)
            + spec_storages_bytes(rest),
    decreases rest.len(),
{
    let whole = seq![first] + rest;
    let fb = spec_runtime_storage_bytes(first);
    if rest.len() == 0 {
        assert(whole.drop_last() =~= Seq::<(HeaderBitsPerIndex, Seq<u32>, Seq<u32>)>::empty());
        assert(whole.last() == first);
        assert(spec_storages_bytes(whole) == spec_storages_bytes(whole.drop_last()) + fb);
        assert(Seq::<u8>::empty() + fb =~= fb + Seq::<u8>::empty());
    } else {
        lemma_storages_bytes_front(first, rest.drop_last());
        assert(whole.drop_last() =~= seq![first] + rest.drop_last());
        assert(whole.last() == rest.last());
        assert(spec_storages_bytes(whole) == spec_storages_bytes(whole.drop_last())
            + spec_runtime_storage_bytes(rest.last()));
        assert(spec_storages_bytes(rest) == spec_storages_bytes(rest.drop_last())
            + spec_runtime_storage_bytes(rest.last()));
        assert(fb + spec_storages_bytes(rest.drop_last()) + spec_runtime_storage_bytes(rest.last())
            =~= fb + (spec_storages_bytes(rest.drop_last()) + spec_runtime_storage_bytes(
            rest.last(),
        )));
    }
}

/// Reading well-formed storages back from their bytes, which run to the end, gives their
/// parts.
proof fn lemma_storages_read_back(data: Seq<u8>, pos: int, storages: Seq<PalettizedStorage<u32>>)
    requires
        0 <= pos <= data.len(),
        data.subrange(pos, data.len() as int) == spec_storages_bytes(spec_parts_of(storages)),
        forall|i: int| 0 <= i < storages.len() ==> #[trigger] spec_storage_wf(storages[i]),
    ensures
        spec_storages_from(data, pos) == Some(spec_parts_of(storages)),
    decreases storages.len(),
{
    if storages.len() == 0 {
        assert(spec_parts_of(storages) =~= Seq::<(HeaderBitsPerIndex, Seq<u32>, Seq<u32>)>::empty());
        assert(data.subrange(pos, data.len() as int).len() == 0);
    } else {
        let first = storages[0];
        let rest = storages.subrange(1, storages.len() as int);
        assert(spec_parts_of(storages) =~= seq![spec_storage_parts(first)] + spec_parts_of(rest));
        lemma_storages_bytes_front(spec_storage_parts(first), spec_parts_of(rest));
        let fb = spec_runtime_storage_bytes(spec_storage_parts(first));
        let rb = spec_storages_bytes(spec_parts_of(rest));
        assert(data.subrange(pos, data.len() as int) == fb + rb);
        assert(pos + fb.len() + rb.len() == data.len());
        lemma_split_at(data, pos, fb, rb);
        assert(spec_storage_wf(storages[0]));
        lemma_runtime_storage_read_back(data, pos, first);
        assert forall|i: int| 0 <= i < rest.len() implies #[trigger] spec_storage_wf(rest[i]) by {
            assert(spec_storage_wf(storages[i + 1]));
        }
        lemma_storages_read_back(data, pos + fb.len(), rest);
        assert(fb.len() >= 1);
    }
}

/// Chunk data with at least one biome storage, all of them well formed, is read back from
/// its bytes with the same heights and the same storages.
pub proof fn lemma_data_3d_roundtrip(d: Data3D)
    requires
        d.biomes@.len() > 0,
        forall|i: int| 0 <= i < d.biomes@.len() ==> #[trigger] spec_storage_wf(d.biomes@[i]),
    ensures
        spec_palettes_fit(d.biomes@),
        d.spec_bytes().len() > 512,
        spec_u16s_at(d.spec_bytes()) == spec_flatten_grid(d.heightmap),
        spec_storages_from(d.spec_bytes().subrange(512, d.spec_bytes().len() as int), 0) == Some(
            spec_parts_of(d.biomes@),
        ),
{
    assert forall|i: int| 0 <= i < d.biomes@.len() implies (#[trigger] d.biomes@[i] matches PalettizedStorage::Palettized(
        p,
    ) ==> p@.2.len() <= u32::MAX) by {
        assert(spec_storage_wf(d.biomes@[i]));
    }
    let h = spec_flatten_grid(d.heightmap);
    crate::values::data_2d::lemma_u16s_le_bytes(h);
    let hb = spec_u16s_le_bytes(h);
    let sb = spec_storages_bytes(spec_parts_of(d.biomes@));
    let b = d.spec_bytes();
    assert(b == hb + sb);
    assert(spec_u16s_at(b) =~= h) by {
        assert forall|i: int| 0 <= i < 256 implies spec_u16s_at(b)[i] == h[i] by {
            assert(b[2 * i] == hb[2 * i]);
            assert(b[2 * i + 1] == hb[2 * i + 1]);
        }
    }
    let parts = spec_parts_of(d.biomes@);
    assert(sb.len() > 0) by {
        assert(parts.len() > 0);
    }
    assert(b.subrange(512, b.len() as int) =~= sb);
    assert(sb.subrange(0, sb.len() as int) =~= sb);
    lemma_storages_read_back(sb, 0, d.biomes@);
}

/// What `write_le_u32s` appends after any bytes is read back by `read_le_u32s` from where it
/// starts: it is four bytes per `u32`, and those bytes are read as the same `u32`s.
pub proof fn lemma_le_u32s_write_read_back(before: Seq<u8>, xs: Seq<u32>)
    ensures
        (before + spec_u32s_le_bytes(xs)).len() == before.len() + 4 * xs.len(),
        spec_u32s_at(before + spec_u32s_le_bytes(xs), before.len() as int, xs.len()) == xs,
{
    let data = before + spec_u32s_le_bytes(xs);
    lemma_u32s_le_bytes_len(xs);
    assert(data.subrange(before.len() as int, (before.len() + 4 * xs.len()) as int) =~= spec_u32s_le_bytes(
        xs,
    ));
    lemma_u32s_read_back(data, before.len() as int, xs);
}

} // verus!
