//! Palettized storage of the 4096 values of one subchunk: a palette of distinct values,
//! and 4096 indices into that palette packed into `u32` blocks.
//!
//! The indices are stored in YZX order (Y increments first). Each `u32` block holds
//! `indices_per_u32` indices of `bits` bits each, the first of them in the least significant
//! bits; unused high bits of a block are padding.

use vstd::prelude::*;

use crate::bytes::{
    extend_u32_le, spec_u32_at, spec_u32_le_bytes, spec_u32s_at, spec_u32s_le_bytes, u32_at,
    ByteReader,
};
use crate::values::palette_order::{
    lemma_precedence_laws, precedence, spec_precedence, spec_total_order, Precedence,
};

verus! {

// ================================
//  Structs
// ================================

/// Either the (nonzero) number of bits per index into a palette,
/// or a special case for when the subchunk is uniformly a single value or is empty.
#[derive(Debug, Clone, Copy, PartialEq, Eq, Structural)]
pub enum HeaderBitsPerIndex {
    Empty,
    Uniform,
    Palettized(PaletteBitsPerIndex),
}

/// The (nonzero) number of bits per index into a palette.
#[derive(Debug, Clone, Copy, PartialEq, Eq, Structural)]
pub enum PaletteBitsPerIndex {
    One,
    Two,
    Three,
    Four,
    Five,
    Six,
    Eight,
    Sixteen,
}

/// In practice, `Data3D` data uses only `Runtime`, and `SubchunkBlocks` data uses
/// `Persistent`.
#[derive(Debug, Clone, Copy, PartialEq, Eq, Structural)]
pub enum PaletteType {
    Persistent,
    Runtime,
}

/// The palette type and bits per index, stored in the first byte of palettized storage.
#[derive(Debug, Clone, Copy, PartialEq, Eq, Structural)]
pub struct PaletteHeader {
    pub palette_type: PaletteType,
    pub bits_per_index: HeaderBitsPerIndex,
}

// ================================
//  Bits per index
// ================================

impl PaletteBitsPerIndex {
    /// The number of bits of one index.
    pub open spec fn spec_bits(self) -> u8 {
        match self {
            PaletteBitsPerIndex::One => 1,
            PaletteBitsPerIndex::Two => 2,
            PaletteBitsPerIndex::Three => 3,
            PaletteBitsPerIndex::Four => 4,
            PaletteBitsPerIndex::Five => 5,
            PaletteBitsPerIndex::Six => 6,
            PaletteBitsPerIndex::Eight => 8,
            PaletteBitsPerIndex::Sixteen => 16,
        }
    }

    /// The number of indices in one `u32` block, `32 / bits`.
    pub open spec fn spec_indices_per_u32(self) -> u8 {
        match self {
            PaletteBitsPerIndex::One => 32,
            PaletteBitsPerIndex::Two => 16,
            PaletteBitsPerIndex::Three => 10,
            PaletteBitsPerIndex::Four => 8,
            PaletteBitsPerIndex::Five => 6,
            PaletteBitsPerIndex::Six => 5,
            PaletteBitsPerIndex::Eight => 4,
            PaletteBitsPerIndex::Sixteen => 2,
        }
    }

    /// The number of `u32` blocks that hold 4096 indices, `ceil(4096 / indices_per_u32)`.
    pub open spec fn spec_num_u32s(self) -> usize {
        match self {
            PaletteBitsPerIndex::One => 128,
            PaletteBitsPerIndex::Two => 256,
            PaletteBitsPerIndex::Three => 410,
            PaletteBitsPerIndex::Four => 512,
            PaletteBitsPerIndex::Five => 683,
            PaletteBitsPerIndex::Six => 820,
            PaletteBitsPerIndex::Eight => 1024,
            PaletteBitsPerIndex::Sixteen => 2048,
        }
    }

    /// The number of indices held by the last `u32` block: `4096 % indices_per_u32`,
    /// or `indices_per_u32` if that is zero.
    pub open spec fn spec_indices_in_last_u32(self) -> u8 {
        match self {
            PaletteBitsPerIndex::Three => 6,
            PaletteBitsPerIndex::Five => 4,
            PaletteBitsPerIndex::Six => 1,
            _ => self.spec_indices_per_u32(),
        }
    }

    /// The bit mask of one index: its lowest `bits` bits are set.
    pub open spec fn spec_mask(self) -> u32 {
        ((1u32 << (self.spec_bits() as u32)) - 1) as u32
    }

    /// The smallest allowed width that is at least `bits_per_index` bits, if any.
    pub open spec fn spec_new(bits_per_index: u8) -> Option<PaletteBitsPerIndex> {
        if bits_per_index <= 1 {
            Some(PaletteBitsPerIndex::One)
        } else if bits_per_index == 2 {
            Some(PaletteBitsPerIndex::Two)
        } else if bits_per_index == 3 {
            Some(PaletteBitsPerIndex::Three)
        } else if bits_per_index == 4 {
            Some(PaletteBitsPerIndex::Four)
        } else if bits_per_index == 5 {
            Some(PaletteBitsPerIndex::Five)
        } else if bits_per_index == 6 {
            Some(PaletteBitsPerIndex::Six)
        } else if bits_per_index <= 8 {
            Some(PaletteBitsPerIndex::Eight)
        } else if bits_per_index <= 16 {
            Some(PaletteBitsPerIndex::Sixteen)
        } else {
            None
        }
    }

    /// The allowed width of exactly `bits_per_index` bits, if any.
    pub open spec fn spec_new_exact(bits_per_index: u8) -> Option<PaletteBitsPerIndex> {
        if bits_per_index == 1 {
            Some(PaletteBitsPerIndex::One)
        } else if bits_per_index == 2 {
            Some(PaletteBitsPerIndex::Two)
        } else if bits_per_index == 3 {
            Some(PaletteBitsPerIndex::Three)
        } else if bits_per_index == 4 {
            Some(PaletteBitsPerIndex::Four)
        } else if bits_per_index == 5 {
            Some(PaletteBitsPerIndex::Five)
        } else if bits_per_index == 6 {
            Some(PaletteBitsPerIndex::Six)
        } else if bits_per_index == 8 {
            Some(PaletteBitsPerIndex::Eight)
        } else if bits_per_index == 16 {
            Some(PaletteBitsPerIndex::Sixteen)
        } else {
            None
        }
    }

    /// The smallest number of bits that can index every entry of a palette of `palette_len`
    /// entries (`0` for a palette of one entry).
    pub open spec fn spec_min_bits(palette_len: nat) -> nat
        decreases palette_len,
    {
        if palette_len <= 1 {
            0
        } else {
            1 + Self::spec_min_bits(((palette_len + 1) / 2) as nat)
        }
    }

    /// The width needed to index every entry of a palette of `palette_len` entries, if any.
    pub open spec fn spec_new_from_usize(palette_len: usize) -> Option<PaletteBitsPerIndex> {
        if palette_len == 0 || Self::spec_min_bits(palette_len as nat) > 16 {
            None
        } else {
            Self::spec_new(Self::spec_min_bits(palette_len as nat) as u8)
        }
    }

    /// Facts about the block layout of each width.
    pub proof fn lemma_layout(self)
        ensures
            1 <= self.spec_bits() <= 16,
            2 <= self.spec_indices_per_u32() <= 32,
            self.spec_bits() * self.spec_indices_per_u32() <= 32,
            128 <= self.spec_num_u32s() <= 2048,
            1 <= self.spec_indices_in_last_u32() <= self.spec_indices_per_u32(),
            (self.spec_num_u32s() - 1) * self.spec_indices_per_u32()
                + self.spec_indices_in_last_u32() == 4096,
            self.spec_mask() == (1u32 << (self.spec_bits() as u32)) - 1,
            self.spec_mask() < 0x1_0000,
            self.spec_mask() as int + 1 == vstd::arithmetic::power2::pow2(self.spec_bits() as nat),
    {
        vstd::arithmetic::power2::lemma2_to64();
        match self {
            PaletteBitsPerIndex::One => {
                assert((1u32 << 1u32) - 1 == 1) by (bit_vector);
            },
            PaletteBitsPerIndex::Two => {
                assert((1u32 << 2u32) - 1 == 3) by (bit_vector);
            },
            PaletteBitsPerIndex::Three => {
                assert((1u32 << 3u32) - 1 == 7) by (bit_vector);
            },
            PaletteBitsPerIndex::Four => {
                assert((1u32 << 4u32) - 1 == 15) by (bit_vector);
            },
            PaletteBitsPerIndex::Five => {
                assert((1u32 << 5u32) - 1 == 31) by (bit_vector);
            },
            PaletteBitsPerIndex::Six => {
                assert((1u32 << 6u32) - 1 == 63) by (bit_vector);
            },
            PaletteBitsPerIndex::Eight => {
                assert((1u32 << 8u32) - 1 == 255) by (bit_vector);
            },
            PaletteBitsPerIndex::Sixteen => {
                assert((1u32 << 16u32) - 1 == 65535) by (bit_vector);
            },
        }
    }

    /// The block layout is what its definition in terms of division gives.
    pub proof fn lemma_layout_formulas(self)
        ensures
            self.spec_indices_per_u32() == 32int / (self.spec_bits() as int),
            self.spec_num_u32s() == (4096 + self.spec_indices_per_u32() - 1) / (
            self.spec_indices_per_u32() as int),
            self.spec_indices_in_last_u32() == if 4096int % (self.spec_indices_per_u32() as int)
                == 0 {
                self.spec_indices_per_u32() as int
            } else {
                4096int % (self.spec_indices_per_u32() as int)
            },
            32 - self.spec_indices_per_u32() * self.spec_bits() == if self.spec_bits() == 3
                || self.spec_bits() == 5 || self.spec_bits() == 6 {
                2int
            } else {
                0int
            },
    {
        match self {
            PaletteBitsPerIndex::One => {
                assert(32int / 1int == 32);
                assert((4096int + 32 - 1) / 32int == 128);
                assert(4096int % 32int == 0);
                assert(32 - 32int * 1int == 0);
            },
            PaletteBitsPerIndex::Two => {
                assert(32int / 2int == 16);
                assert((4096int + 16 - 1) / 16int == 256);
                assert(4096int % 16int == 0);
                assert(32 - 16int * 2int == 0);
            },
            PaletteBitsPerIndex::Three => {
                assert(32int / 3int == 10);
                assert((4096int + 10 - 1) / 10int == 410);
                assert(4096int % 10int == 6);
                assert(32 - 10int * 3int == 2);
            },
            PaletteBitsPerIndex::Four => {
                assert(32int / 4int == 8);
                assert((4096int + 8 - 1) / 8int == 512);
                assert(4096int % 8int == 0);
                assert(32 - 8int * 4int == 0);
            },
            PaletteBitsPerIndex::Five => {
                assert(32int / 5int == 6);
                assert((4096int + 6 - 1) / 6int == 683);
                assert(4096int % 6int == 4);
                assert(32 - 6int * 5int == 2);
            },
            PaletteBitsPerIndex::Six => {
                assert(32int / 6int == 5);
                assert((4096int + 5 - 1) / 5int == 820);
                assert(4096int % 5int == 1);
                assert(32 - 5int * 6int == 2);
            },
            PaletteBitsPerIndex::Eight => {
                assert(32int / 8int == 4);
                assert((4096int + 4 - 1) / 4int == 1024);
                assert(4096int % 4int == 0);
                assert(32 - 4int * 8int == 0);
            },
            PaletteBitsPerIndex::Sixteen => {
                assert(32int / 16int == 2);
                assert((4096int + 2 - 1) / 2int == 2048);
                assert(4096int % 2int == 0);
                assert(32 - 2int * 16int == 0);
            },
        }
    }

    /// Given the length of some palette which will be indexed into, returns the number
    /// of bits needed for an index of an arbitrary entry of that palette.
    ///
    /// Returns `None` precisely if the `palette_len` is `0`, or greater than `2^16`.
    pub fn new_from_usize(palette_len: usize) -> (res: Option<Self>)
        ensures
            res == Self::spec_new_from_usize(palette_len),
    {
        if palette_len == 0 {
            return None;
        }
        // Count the bits needed to write `palette_len - 1`, stopping once more than 16 are needed.
        let mut bits: u8 = 0;
        let mut remaining: usize = palette_len;
        while remaining > 1 && bits <= 16
            invariant
                remaining >= 1,
                bits <= 17,
                Self::spec_min_bits(palette_len as nat) == bits + Self::spec_min_bits(
                    remaining as nat,
                ),
            decreases remaining,
        {
            remaining = remaining - remaining / 2;
            bits = bits + 1;
        }
        if bits > 16 {
            assert(Self::spec_min_bits(palette_len as nat) > 16);
            None
        } else {
            assert(remaining <= 1);
            Self::new(bits)
        }
    }

    /// Returns an allowed palette index bit width that is at least as big as the provided
    /// `bits_per_index`. Returns `None` if `bits_per_index` is greater than `16`.
    pub fn new(bits_per_index: u8) -> (res: Option<Self>)
        ensures
            res == Self::spec_new(bits_per_index),
    {
        match bits_per_index {
            0 | 1 => Some(PaletteBitsPerIndex::One),
            2 => Some(PaletteBitsPerIndex::Two),
            3 => Some(PaletteBitsPerIndex::Three),
            4 => Some(PaletteBitsPerIndex::Four),
            5 => Some(PaletteBitsPerIndex::Five),
            6 => Some(PaletteBitsPerIndex::Six),
            7 | 8 => Some(PaletteBitsPerIndex::Eight),
            x if x <= 16 => Some(PaletteBitsPerIndex::Sixteen),
            _ => None,
        }
    }

    /// Returns an allowed palette index bit width that is exactly equal to the provided
    /// `bits_per_index`, if possible.
    pub fn new_exact(bits_per_index: u8) -> (res: Option<Self>)
        ensures
            res == Self::spec_new_exact(bits_per_index),
    {
        match bits_per_index {
            1 => Some(PaletteBitsPerIndex::One),
            2 => Some(PaletteBitsPerIndex::Two),
            3 => Some(PaletteBitsPerIndex::Three),
            4 => Some(PaletteBitsPerIndex::Four),
            5 => Some(PaletteBitsPerIndex::Five),
            6 => Some(PaletteBitsPerIndex::Six),
            8 => Some(PaletteBitsPerIndex::Eight),
            16 => Some(PaletteBitsPerIndex::Sixteen),
            _ => None,
        }
    }

    /// The number of indices which fit in one `u32`.
    pub fn indices_per_u32(self) -> (res: u8)
        ensures
            res == self.spec_indices_per_u32(),
    {
        proof {
            self.lemma_layout();
            self.lemma_layout_formulas();
        }
        32 / u8::from(self)
    }

    /// The number of `u32`s it takes to store 4096 indices with this number of bits per index.
    pub fn num_u32s_for_4096_indices(self) -> (res: usize)
        ensures
            res == self.spec_num_u32s(),
    {
        proof {
            self.lemma_layout();
            self.lemma_layout_formulas();
        }
        let per_u32 = self.indices_per_u32() as usize;
        (4096 + per_u32 - 1) / per_u32
    }

    /// The number of padding bits of a `u32` block, such that
    /// `indices_per_u32 * bits + padding_bits == 32`.
    pub fn padding_bits(self) -> (res: u8)
        ensures
            res == 32 - self.spec_indices_per_u32() * self.spec_bits(),
    {
        proof {
            self.lemma_layout_formulas();
        }
        let bits = u8::from(self);
        if bits == 3 || bits == 5 || bits == 6 {
            2
        } else {
            0
        }
    }

    /// The number of indices in the last `u32` block (which in some cases is simply
    /// `indices_per_u32`).
    pub fn indices_in_last_u32(self) -> (res: u8)
        ensures
            res == self.spec_indices_in_last_u32(),
    {
        proof {
            self.lemma_layout();
            self.lemma_layout_formulas();
        }
        let remainder = 4096u32 % (self.indices_per_u32() as u32);
        if remainder == 0 {
            self.indices_per_u32()
        } else {
            remainder as u8
        }
    }
}

impl From<PaletteBitsPerIndex> for u8 {
    fn from(value: PaletteBitsPerIndex) -> (res: u8) {
        match value {
            PaletteBitsPerIndex::One => 1,
            PaletteBitsPerIndex::Two => 2,
            PaletteBitsPerIndex::Three => 3,
            PaletteBitsPerIndex::Four => 4,
            PaletteBitsPerIndex::Five => 5,
            PaletteBitsPerIndex::Six => 6,
            PaletteBitsPerIndex::Eight => 8,
            PaletteBitsPerIndex::Sixteen => 16,
        }
    }
}

impl vstd::std_specs::convert::FromSpecImpl<PaletteBitsPerIndex> for u8 {
    open spec fn obeys_from_spec() -> bool {
        true
    }

    open spec fn from_spec(value: PaletteBitsPerIndex) -> u8 {
        value.spec_bits()
    }
}

// ================================
//  Headers
// ================================

impl HeaderBitsPerIndex {
    /// The header value that a byte of bits per index stands for.
    pub open spec fn spec_parse(bits_per_index: u8) -> Option<HeaderBitsPerIndex> {
        if bits_per_index == 127 {
            Some(HeaderBitsPerIndex::Empty)
        } else if bits_per_index == 0 {
            Some(HeaderBitsPerIndex::Uniform)
        } else {
            match PaletteBitsPerIndex::spec_new_exact(bits_per_index) {
                Some(b) => Some(HeaderBitsPerIndex::Palettized(b)),
                None => None,
            }
        }
    }

    /// The byte of bits per index written for this header value.
    pub open spec fn spec_to_u8(self) -> u8 {
        match self {
            HeaderBitsPerIndex::Empty => 127,
            HeaderBitsPerIndex::Uniform => 0,
            HeaderBitsPerIndex::Palettized(b) => b.spec_bits(),
        }
    }

    pub fn parse(bits_per_index: u8) -> (res: Option<Self>)
        ensures
            res == Self::spec_parse(bits_per_index),
    {
        match bits_per_index {
            127 => Some(HeaderBitsPerIndex::Empty),
            0 => Some(HeaderBitsPerIndex::Uniform),
            other => match PaletteBitsPerIndex::new_exact(other) {
                Some(b) => Some(HeaderBitsPerIndex::Palettized(b)),
                None => None,
            },
        }
    }
}

impl From<HeaderBitsPerIndex> for u8 {
    fn from(value: HeaderBitsPerIndex) -> (res: u8) {
        match value {
            HeaderBitsPerIndex::Empty => 127,
            HeaderBitsPerIndex::Uniform => 0,
            HeaderBitsPerIndex::Palettized(bits_per_index) => u8::from(bits_per_index),
        }
    }
}

impl vstd::std_specs::convert::FromSpecImpl<HeaderBitsPerIndex> for u8 {
    open spec fn obeys_from_spec() -> bool {
        true
    }

    open spec fn from_spec(value: HeaderBitsPerIndex) -> u8 {
        value.spec_to_u8()
    }
}

impl PaletteType {
    pub open spec fn spec_from_u8(value: u8) -> PaletteType {
        if value == 0 {
            PaletteType::Persistent
        } else {
            PaletteType::Runtime
        }
    }

    pub open spec fn spec_to_u8(self) -> u8 {
        match self {
            PaletteType::Persistent => 0,
            PaletteType::Runtime => 1,
        }
    }
}

impl From<u8> for PaletteType {
    fn from(value: u8) -> (res: PaletteType) {
        match value {
            0 => PaletteType::Persistent,
            _ => PaletteType::Runtime,
        }
    }
}

impl vstd::std_specs::convert::FromSpecImpl<u8> for PaletteType {
    open spec fn obeys_from_spec() -> bool {
        true
    }

    open spec fn from_spec(value: u8) -> PaletteType {
        PaletteType::spec_from_u8(value)
    }
}

impl From<PaletteType> for u8 {
    fn from(value: PaletteType) -> (res: u8) {
        match value {
            PaletteType::Persistent => 0,
            PaletteType::Runtime => 1,
        }
    }
}

impl vstd::std_specs::convert::FromSpecImpl<PaletteType> for u8 {
    open spec fn obeys_from_spec() -> bool {
        true
    }

    open spec fn from_spec(value: PaletteType) -> u8 {
        value.spec_to_u8()
    }
}


// ================================
//  Packed indices
// ================================

/// The bit offset of slot `q` of a `u32` block.
pub open spec fn spec_shift(bpi: PaletteBitsPerIndex, q: int) -> u32 {
    (bpi.spec_bits() as int * q) as u32
}

/// The index stored in slot `q` of a `u32` block (slot `0` is the least significant).
pub open spec fn spec_slot(bpi: PaletteBitsPerIndex, block: u32, q: int) -> u32 {
    (block >> spec_shift(bpi, q)) & bpi.spec_mask()
}

/// The `i`-th of the 4096 indices stored in `packed`: slot `i % indices_per_u32`
/// of block `i / indices_per_u32`.
pub open spec fn spec_index_at(bpi: PaletteBitsPerIndex, packed: Seq<u32>, i: int) -> u32 {
    spec_slot(
        bpi,
        packed[i / (bpi.spec_indices_per_u32() as int)],
        i % (bpi.spec_indices_per_u32() as int),
    )
}

/// Whether each of the 4096 indices stored in `packed` is below `palette_len`.
pub open spec fn spec_indices_below(bpi: PaletteBitsPerIndex, packed: Seq<u32>, palette_len: int) -> bool {
    forall|i: int| 0 <= i < 4096 ==> #[trigger] spec_index_at(bpi, packed, i) < palette_len
}

/// The assumptions of a `PalettizedSubchunk`: there are exactly enough blocks for
/// 4096 indices, the palette has between 1 and 4096 entries, and every index is in range.
pub open spec fn spec_packing_wf(bpi: PaletteBitsPerIndex, packed: Seq<u32>, palette_len: int) -> bool {
    &&& packed.len() == bpi.spec_num_u32s()
    &&& 1 <= palette_len <= 4096
    &&& spec_indices_below(bpi, packed, palette_len)
}

/// The `q`-th index in the order in which `new_packed_checked` checks them: first the slots
/// of the last block, then the blocks before it, each from its least significant slot.
pub open spec fn spec_checked_index(bpi: PaletteBitsPerIndex, packed: Seq<u32>, q: int) -> u32 {
    let last = bpi.spec_indices_in_last_u32() as int;
    let per = bpi.spec_indices_per_u32() as int;
    if q < last {
        spec_slot(bpi, packed[bpi.spec_num_u32s() - 1], q)
    } else {
        spec_slot(bpi, packed[(q - last) / per], (q - last) % per)
    }
}

proof fn lemma_shift_step(bpi: PaletteBitsPerIndex, p: int)
    requires
        0 <= p < bpi.spec_indices_per_u32(),
    ensures
        bpi.spec_bits() as int * p + bpi.spec_bits() <= 32,
        spec_shift(bpi, p) as int == bpi.spec_bits() as int * p,
        spec_shift(bpi, p + 1) as int == spec_shift(bpi, p) + bpi.spec_bits(),
{
    bpi.lemma_layout();
    let b = bpi.spec_bits() as int;
    let per = bpi.spec_indices_per_u32() as int;
    assert(b * (p + 1) <= b * per) by (nonlinear_arith)
        requires
            p + 1 <= per,
            b >= 1,
    ;
    assert(b * (p + 1) == b * p + b) by (nonlinear_arith);
    assert(b * p >= 0) by (nonlinear_arith)
        requires
            b >= 1,
            p >= 0,
    ;
}

/// Shifting right twice is shifting right by the sum.
proof fn lemma_shr_shr(x: u32, s: u32, b: u32)
    requires
        s + b <= 32,
    ensures
        (x >> s) >> b == x >> ((s + b) as u32),
{
    assert((x >> s) >> b == x >> ((s + b) as u32)) by (bit_vector)
        requires
            s + b <= 32,
    ;
}

/// Writing index `idx` above the `s` bits already in use of `block` keeps the slot at `t`.
proof fn lemma_insert_keeps_slot(block: u32, idx: u32, s: u32, t: u32, b: u32, mask: u32)
    requires
        1 <= b <= 16,
        s + b <= 32,
        t + b <= s,
        mask == (1u32 << b) - 1,
        idx <= mask,
        s < 32 ==> block >> s == 0,
    ensures
        ((block | (idx << s)) >> t) & mask == (block >> t) & mask,
{
    assert(((block | (idx << s)) >> t) & mask == (block >> t) & mask) by (bit_vector)
        requires
            1 <= b <= 16,
            s + b <= 32,
            t + b <= s,
            mask == (1u32 << b) - 1,
            idx <= mask,
            s < 32 ==> block >> s == 0,
    ;
}

/// Writing index `idx` above the `s` bits already in use of `block` stores `idx` at `s`,
/// and leaves no bits above `s + b` set.
proof fn lemma_insert_new_slot(block: u32, idx: u32, s: u32, b: u32, mask: u32)
    requires
        1 <= b <= 16,
        s + b <= 32,
        mask == (1u32 << b) - 1,
        idx <= mask,
        s < 32 ==> block >> s == 0,
    ensures
        ((block | (idx << s)) >> s) & mask == idx,
        s + b < 32 ==> (block | (idx << s)) >> ((s + b) as u32) == 0,
{
    assert(((block | (idx << s)) >> s) & mask == idx) by (bit_vector)
        requires
            1 <= b <= 16,
            s + b <= 32,
            mask == (1u32 << b) - 1,
            idx <= mask,
            s < 32 ==> block >> s == 0,
    ;
    assert(s + b < 32 ==> (block | (idx << s)) >> ((s + b) as u32) == 0) by (bit_vector)
        requires
            1 <= b <= 16,
            s + b <= 32,
            mask == (1u32 << b) - 1,
            idx <= mask,
            s < 32 ==> block >> s == 0,
    ;
}

/// Index `k * per + p` is slot `p` of block `k`.
proof fn lemma_block_slot(bpi: PaletteBitsPerIndex, packed: Seq<u32>, k: int, p: int)
    requires
        0 <= k,
        0 <= p < bpi.spec_indices_per_u32(),
    ensures
        spec_index_at(bpi, packed, k * (bpi.spec_indices_per_u32() as int) + p) == spec_slot(
            bpi,
            packed[k],
            p,
        ),
{
    let per = bpi.spec_indices_per_u32() as int;
    vstd::arithmetic::div_mod::lemma_fundamental_div_mod_converse(k * per + p, per, k, p);
}

/// Every index below 4096 is slot `i % per` of a block below `num_u32s`.
proof fn lemma_index_in_range(bpi: PaletteBitsPerIndex, i: int)
    requires
        0 <= i < 4096,
    ensures
        0 <= i / (bpi.spec_indices_per_u32() as int) < bpi.spec_num_u32s(),
        0 <= i % (bpi.spec_indices_per_u32() as int) < bpi.spec_indices_per_u32(),
        i / (bpi.spec_indices_per_u32() as int) == bpi.spec_num_u32s() - 1 ==> i % (
        bpi.spec_indices_per_u32() as int) < bpi.spec_indices_in_last_u32(),
        i == (i / (bpi.spec_indices_per_u32() as int)) * (bpi.spec_indices_per_u32() as int) + i
            % (bpi.spec_indices_per_u32() as int),
{
    bpi.lemma_layout();
    let per = bpi.spec_indices_per_u32() as int;
    let n = bpi.spec_num_u32s() as int;
    let last = bpi.spec_indices_in_last_u32() as int;
    vstd::arithmetic::div_mod::lemma_fundamental_div_mod(i, per);
    let k = i / per;
    let p = i % per;
    assert(k * per == per * k) by (nonlinear_arith);
    vstd::arithmetic::div_mod::lemma_div_pos_is_pos(i, per);
    if k >= n {
        assert(k * per >= n * per) by (nonlinear_arith)
            requires
                k >= n,
                per > 0,
        ;
        assert(n * per == (n - 1) * per + per) by (nonlinear_arith);
    }
    if k == n - 1 {
        assert(k * per == (n - 1) * per);
    }
}

/// Checking the indices in `new_packed_checked`'s order covers exactly the 4096 indices.
proof fn lemma_checked_covers(bpi: PaletteBitsPerIndex, packed: Seq<u32>, palette_len: int)
    requires
        packed.len() == bpi.spec_num_u32s(),
        forall|q: int| 0 <= q < 4096 ==> #[trigger] spec_checked_index(bpi, packed, q) < palette_len,
    ensures
        spec_indices_below(bpi, packed, palette_len),
{
    bpi.lemma_layout();
    let per = bpi.spec_indices_per_u32() as int;
    let n = bpi.spec_num_u32s() as int;
    let last = bpi.spec_indices_in_last_u32() as int;
    assert forall|i: int| 0 <= i < 4096 implies #[trigger] spec_index_at(bpi, packed, i)
        < palette_len by {
        lemma_index_in_range(bpi, i);
        let k = i / per;
        let p = i % per;
        if k == n - 1 {
            assert(spec_checked_index(bpi, packed, p) < palette_len);
        } else {
            let q = last + k * per + p;
            assert(k * per <= (n - 2) * per) by (nonlinear_arith)
                requires
                    k <= n - 2,
                    per > 0,
            ;
            assert((n - 2) * per + per == (n - 1) * per) by (nonlinear_arith);
            vstd::arithmetic::div_mod::lemma_fundamental_div_mod_converse(q - last, per, k, p);
            assert(spec_checked_index(bpi, packed, q) < palette_len);
        }
    }
}

/// Parts that meet the assumptions of a `PalettizedSubchunk` pass every check of
/// `new_packed_checked`, so checking the parts of a well-formed subchunk gives it back.
pub proof fn lemma_wf_passes_check(bpi: PaletteBitsPerIndex, packed: Seq<u32>, palette_len: usize)
    requires
        spec_packing_wf(bpi, packed, palette_len as int),
    ensures
        PalettizedSubchunk::<u32>::spec_check(bpi, packed, palette_len) == Ok::<
            (),
            PalettizedSubchunkCheckError,
        >(()),
{
    bpi.lemma_layout();
    let per = bpi.spec_indices_per_u32() as int;
    let n = bpi.spec_num_u32s() as int;
    let last = bpi.spec_indices_in_last_u32() as int;
    assert forall|q: int| 0 <= q < 4096 implies #[trigger] spec_checked_index(bpi, packed, q)
        < palette_len by {
        if q < last {
            lemma_block_slot(bpi, packed, n - 1, q);
            assert(spec_index_at(bpi, packed, (n - 1) * per + q) < palette_len);
        } else {
            let k = (q - last) / per;
            let p = (q - last) % per;
            vstd::arithmetic::div_mod::lemma_fundamental_div_mod(q - last, per);
            vstd::arithmetic::div_mod::lemma_div_pos_is_pos(q - last, per);
            assert(k * per == per * k) by (nonlinear_arith);
            lemma_block_slot(bpi, packed, k, p);
            assert(spec_index_at(bpi, packed, k * per + p) < palette_len);
        }
    }
}

/// A subchunk's 4096 values stored as a palette and packed indices into it.
#[derive(Debug, Clone)]
pub struct PalettizedSubchunk<T> {
    bits_per_index: PaletteBitsPerIndex,
    packed_indices: Vec<u32>,
    palette: Vec<T>,
}

impl<T> View for PalettizedSubchunk<T> {
    /// The bits per index, the packed index blocks, and the palette.
    type V = (PaletteBitsPerIndex, Seq<u32>, Seq<T>);

    closed spec fn view(&self) -> (PaletteBitsPerIndex, Seq<u32>, Seq<T>) {
        (self.bits_per_index, self.packed_indices@, self.palette@)
    }
}

/// An error found by `PalettizedSubchunk::new_packed_checked`.
#[derive(Debug, Clone, PartialEq, Eq, Structural)]
pub enum PalettizedSubchunkCheckError {
    /// A subchunk palette had an invalid length.
    InvalidPaletteLen(usize),
    /// A paletted subchunk had a number of `u32` blocks other than the expected one.
    InvalidPaletteIndicesLen { expected: usize, received: usize },
    /// A paletted subchunk had an index that was not below the length of its palette.
    IndexTooLarge { palette_len: usize, index: u32 },
}

impl<T> PalettizedSubchunk<T> {
    /// Whether this subchunk meets the assumptions of the struct.
    pub open spec fn wf(&self) -> bool {
        spec_packing_wf(self@.0, self@.1, self@.2.len() as int)
    }

    /// The 4096 values stored in this subchunk, in YZX order.
    pub open spec fn spec_unpacked(&self) -> Seq<T> {
        Seq::new(4096, |i: int| self@.2[spec_index_at(self@.0, self@.1, i) as int])
    }

    /// The result of `new_packed_checked` on the given parts.
    pub open spec fn spec_check(
        bits_per_index: PaletteBitsPerIndex,
        packed: Seq<u32>,
        palette_len: usize,
    ) -> Result<(), PalettizedSubchunkCheckError> {
        if packed.len() != bits_per_index.spec_num_u32s() {
            Err(
                PalettizedSubchunkCheckError::InvalidPaletteIndicesLen {
                    expected: bits_per_index.spec_num_u32s(),
                    received: packed.len() as usize,
                },
            )
        } else if palette_len == 0 || palette_len > 4096 {
            Err(PalettizedSubchunkCheckError::InvalidPaletteLen(palette_len))
        } else if exists|q: int|
            0 <= q < 4096 && #[trigger] spec_checked_index(bits_per_index, packed, q)
                >= palette_len {
            let q = choose|q: int|
                0 <= q < 4096 && spec_checked_index(bits_per_index, packed, q) >= palette_len
                    && forall|r: int|
                    0 <= r < q ==> #[trigger] spec_checked_index(bits_per_index, packed, r)
                        < palette_len;
            Err(
                PalettizedSubchunkCheckError::IndexTooLarge {
                    palette_len,
                    index: spec_checked_index(bits_per_index, packed, q),
                },
            )
        } else {
            Ok(())
        }
    }

    /// Creates a new `PalettizedSubchunk`, checking that `packed_indices` has length exactly
    /// `bits_per_index.num_u32s_for_4096_indices()`, and that `palette` has length greater
    /// than every one of the 4096 packed indices and at most `4096`.
    #[verifier::rlimit(40)]
    pub fn new_packed_checked(
        bits_per_index: PaletteBitsPerIndex,
        packed_indices: Vec<u32>,
        palette: Vec<T>,
    ) -> (res: Result<Self, PalettizedSubchunkCheckError>)
        ensures
            match Self::spec_check(bits_per_index, packed_indices@, palette@.len() as usize) {
                Ok(()) => res matches Ok(s) && s@ == (bits_per_index, packed_indices@, palette@)
                    && s.wf(),
                Err(e) => res == Err::<Self, PalettizedSubchunkCheckError>(e),
            },
    {
        proof {
            bits_per_index.lemma_layout();
        }
        let num_u32s = bits_per_index.num_u32s_for_4096_indices();
        if packed_indices.len() != num_u32s {
            return Err(
                PalettizedSubchunkCheckError::InvalidPaletteIndicesLen {
                    expected: num_u32s,
                    received: packed_indices.len(),
                },
            );
        }
        let palette_len = palette.len();
        if palette_len == 0 || palette_len > 4096 {
            return Err(PalettizedSubchunkCheckError::InvalidPaletteLen(palette_len));
        }
        let max_permissible_index = (palette_len - 1) as u32;
        let per = bits_per_index.indices_per_u32();
        let last = bits_per_index.indices_in_last_u32();
        let bits = u8::from(bits_per_index) as u32;
        let index_mask = (1u32 << bits) - 1;
        let ghost packed = packed_indices@;

        // The slots of the last block.
        let last_block = packed_indices[num_u32s - 1];
        assert(last_block >> 0u32 == last_block) by (bit_vector);
        let mut dword = last_block;
        let mut p: u8 = 0;
        let mut shift: u32 = 0;
        while p < last
            invariant
                packed == packed_indices@,
                packed.len() == num_u32s == bits_per_index.spec_num_u32s(),
                1 <= palette_len <= 4096,
                palette_len == palette@.len(),
                max_permissible_index == palette_len - 1,
                per == bits_per_index.spec_indices_per_u32(),
                last == bits_per_index.spec_indices_in_last_u32(),
                1 <= last <= per,
                bits == bits_per_index.spec_bits(),
                index_mask == bits_per_index.spec_mask(),
                last_block == packed[num_u32s - 1],
                p <= last,
                shift == spec_shift(bits_per_index, p as int),
                shift as int == bits as int * p,
                dword == last_block >> shift,
                forall|r: int| 0 <= r < p ==> #[trigger] spec_checked_index(
                    bits_per_index,
                    packed,
                    r,
                ) < palette_len,
            decreases last - p,
        {
            proof {
                lemma_shift_step(bits_per_index, p as int);
            }
            let index = dword & index_mask;
            assert(index == spec_checked_index(bits_per_index, packed, p as int));
            if index > max_permissible_index {
                proof {
                    let q = p as int;
                    assert(0 <= q < 4096 && spec_checked_index(bits_per_index, packed, q)
                        >= palette_len && forall|r: int|
                        0 <= r < q ==> #[trigger] spec_checked_index(bits_per_index, packed, r)
                            < palette_len);
                    lemma_first_bad_unique(bits_per_index, packed, palette_len, q);
                    assert(Self::spec_check(bits_per_index, packed, palette_len) == Err::<
                        (),
                        PalettizedSubchunkCheckError,
                    >(PalettizedSubchunkCheckError::IndexTooLarge { palette_len, index }));
                }
                return Err(PalettizedSubchunkCheckError::IndexTooLarge { palette_len, index });
            }
            proof {
                lemma_shr_shr(last_block, shift, bits);
            }
            dword = dword >> bits;
            shift = shift + bits;
            p = p + 1;
        }

        // The slots of all the blocks before the last.
        let mut k: usize = 0;
        while k < num_u32s - 1
            invariant
                packed == packed_indices@,
                packed.len() == num_u32s == bits_per_index.spec_num_u32s(),
                num_u32s >= 128,
                1 <= palette_len <= 4096,
                palette_len == palette@.len(),
                max_permissible_index == palette_len - 1,
                per == bits_per_index.spec_indices_per_u32(),
                last == bits_per_index.spec_indices_in_last_u32(),
                (num_u32s - 1) * per + last == 4096,
                bits == bits_per_index.spec_bits(),
                index_mask == bits_per_index.spec_mask(),
                k <= num_u32s - 1,
                forall|r: int|
                    0 <= r < last + k * per ==> #[trigger] spec_checked_index(
                        bits_per_index,
                        packed,
                        r,
                    ) < palette_len,
            decreases num_u32s - 1 - k,
        {
            let block = packed_indices[k];
            assert(block >> 0u32 == block) by (bit_vector);
            let mut dword = block;
            let mut p: u8 = 0;
            let mut shift: u32 = 0;
            while p < per
                invariant
                    packed == packed_indices@,
                    packed.len() == num_u32s == bits_per_index.spec_num_u32s(),
                    1 <= palette_len <= 4096,
                    palette_len == palette@.len(),
                    max_permissible_index == palette_len - 1,
                    per == bits_per_index.spec_indices_per_u32(),
                    last == bits_per_index.spec_indices_in_last_u32(),
                    1 <= last <= per,
                    (num_u32s - 1) * per + last == 4096,
                    bits == bits_per_index.spec_bits(),
                    index_mask == bits_per_index.spec_mask(),
                    k < num_u32s - 1,
                    block == packed[k as int],
                    p <= per,
                    shift == spec_shift(bits_per_index, p as int),
                    shift as int == bits as int * p,
                    dword == block >> shift,
                    forall|r: int|
                        0 <= r < last + k * per + p ==> #[trigger] spec_checked_index(
                            bits_per_index,
                            packed,
                            r,
                        ) < palette_len,
                decreases per - p,
            {
                proof {
                    lemma_shift_step(bits_per_index, p as int);
                    let q = last + k * per + p;
                    vstd::arithmetic::div_mod::lemma_fundamental_div_mod_converse(
                        q - last,
                        per as int,
                        k as int,
                        p as int,
                    );
                    assert(k * per + p < 4096 - last) by (nonlinear_arith)
                        requires
                            k < num_u32s - 1,
                            p < per,
                            (num_u32s - 1) * per + last == 4096,
                    ;
                }
                let index = dword & index_mask;
                assert(index == spec_checked_index(
                    bits_per_index,
                    packed,
                    last + k * per + p,
                ));
                if index > max_permissible_index {
                    proof {
                        let q = last + k * per + p;
                        assert(spec_checked_index(bits_per_index, packed, q) >= palette_len);
                        lemma_first_bad_unique(bits_per_index, packed, palette_len, q);
                        assert(Self::spec_check(bits_per_index, packed, palette_len) == Err::<
                            (),
                            PalettizedSubchunkCheckError,
                        >(PalettizedSubchunkCheckError::IndexTooLarge { palette_len, index }));
                    }
                    return Err(PalettizedSubchunkCheckError::IndexTooLarge { palette_len, index });
                }
                proof {
                    lemma_shr_shr(block, shift, bits);
                }
                dword = dword >> bits;
                shift = shift + bits;
                p = p + 1;
            }
            assert(last + k * per + per == last + (k + 1) * per) by (nonlinear_arith);
            k = k + 1;
        }
        proof {
            assert(last + (num_u32s - 1) * per == 4096);
            assert(forall|q: int|
                0 <= q < 4096 ==> #[trigger] spec_checked_index(bits_per_index, packed, q)
                    < palette_len);
            lemma_checked_covers(bits_per_index, packed, palette_len as int);
        }
        Ok(Self::new_packed_unchecked(bits_per_index, packed_indices, palette))
    }

    /// Creates a new `PalettizedSubchunk` from its parts. This performs no checks for
    /// correctness; it is assumed that the parts meet the assumptions that
    /// `new_packed_checked` checks.
    pub fn new_packed_unchecked(
        bits_per_index: PaletteBitsPerIndex,
        packed_indices: Vec<u32>,
        palette: Vec<T>,
    ) -> (res: Self)
        ensures
            res@ == (bits_per_index, packed_indices@, palette@),
    {
        PalettizedSubchunk { bits_per_index, packed_indices, palette }
    }

    /// Returns the length of `packed_indices` as a `u32`.
    pub fn packed_indices_len(&self) -> (res: u32)
        requires
            self@.1.len() <= u32::MAX,
        ensures
            res == self@.1.len(),
    {
        self.packed_indices.len() as u32
    }

    /// Returns the length of `palette` as a `u32`.
    pub fn palette_len(&self) -> (res: u32)
        requires
            self@.2.len() <= u32::MAX,
        ensures
            res == self@.2.len(),
    {
        self.palette.len() as u32
    }

    /// Return the `bits_per_index` and references to the `packed_indices` and `palette`.
    pub fn packed(&self) -> (res: (PaletteBitsPerIndex, &Vec<u32>, &Vec<T>))
        ensures
            res.0 == self@.0,
            res.1@ == self@.1,
            res.2@ == self@.2,
    {
        (self.bits_per_index, &self.packed_indices, &self.palette)
    }

    /// Returns the `bits_per_index`, `packed_indices`, and `palette`, consuming `self`.
    pub fn into_packed(self) -> (res: (PaletteBitsPerIndex, Vec<u32>, Vec<T>))
        ensures
            res.0 == self@.0,
            res.1@ == self@.1,
            res.2@ == self@.2,
    {
        (self.bits_per_index, self.packed_indices, self.palette)
    }

    /// Compute the subchunk data which is stored in a condensed way in this struct.
    /// The output data is in YZX order (Y increments first).
    pub fn unpacked_flattened(&self) -> (res: [T; 4096])
        where
            T: Copy,
        requires
            self.wf(),
        ensures
            res@ == self.spec_unpacked(),
    {
        let bpi = self.bits_per_index;
        proof {
            bpi.lemma_layout();
        }
        let per = bpi.indices_per_u32();
        let bits = u8::from(bpi) as u32;
        let index_mask = (1u32 << bits) - 1;
        let num_u32s = self.packed_indices.len();
        let ghost packed = self.packed_indices@;
        let mut out: [T; 4096] = [self.palette[0]; 4096];
        let mut i: usize = 0;
        let mut k: usize = 0;
        while i < 4096
            invariant
                packed == self.packed_indices@,
                self.wf(),
                bpi == self@.0,
                per == bpi.spec_indices_per_u32(),
                bits == bpi.spec_bits(),
                index_mask == bpi.spec_mask(),
                num_u32s == packed.len() == bpi.spec_num_u32s(),
                (num_u32s - 1) * per + bpi.spec_indices_in_last_u32() == 4096,
                i == k * per || i == 4096,
                i <= 4096,
                forall|j: int| 0 <= j < i ==> out@[j] == self.spec_unpacked()[j],
            decreases 4096 - i,
        {
            proof {
                if k >= num_u32s {
                    assert(k * per >= num_u32s * per) by (nonlinear_arith)
                        requires
                            k >= num_u32s,
                            per > 0,
                    ;
                    assert(num_u32s * per == (num_u32s - 1) * per + per) by (nonlinear_arith);
                }
            }
            let block = self.packed_indices[k];
            assert(block >> 0u32 == block) by (bit_vector);
            let mut dword = block;
            let mut p: u8 = 0;
            let mut shift: u32 = 0;
            while p < per && i < 4096
                invariant
                    packed == self.packed_indices@,
                    self.wf(),
                    bpi == self@.0,
                    per == bpi.spec_indices_per_u32(),
                    bits == bpi.spec_bits(),
                    index_mask == bpi.spec_mask(),
                    num_u32s == packed.len() == bpi.spec_num_u32s(),
                    k < num_u32s,
                    block == packed[k as int],
                    p <= per,
                    i == k * per + p,
                    i <= 4096,
                    shift == spec_shift(bpi, p as int),
                    shift as int == bits as int * p,
                    dword == block >> shift,
                    forall|j: int| 0 <= j < i ==> out@[j] == self.spec_unpacked()[j],
                decreases per - p,
            {
                proof {
                    lemma_shift_step(bpi, p as int);
                    lemma_block_slot(bpi, packed, k as int, p as int);
                    assert(spec_index_at(bpi, packed, i as int) < self@.2.len());
                }
                let index = dword & index_mask;
                out[i] = self.palette[index as usize];
                proof {
                    lemma_shr_shr(block, shift, bits);
                }
                dword = dword >> bits;
                shift = shift + bits;
                p = p + 1;
                i = i + 1;
            }
            if i < 4096 {
                assert(k * per + per == (k + 1) * per) by (nonlinear_arith);
            }
            k = k + 1;
        }
        assert(out@ =~= self.spec_unpacked());
        out
    }
}

/// The first index found too large, in checking order, is the one `spec_check` chooses.
proof fn lemma_first_bad_unique(
    bpi: PaletteBitsPerIndex,
    packed: Seq<u32>,
    palette_len: usize,
    q: int,
)
    requires
        0 <= q < 4096,
        spec_checked_index(bpi, packed, q) >= palette_len,
        forall|r: int| 0 <= r < q ==> #[trigger] spec_checked_index(bpi, packed, r) < palette_len,
    ensures
        ({
            let c = choose|c: int|
                0 <= c < 4096 && spec_checked_index(bpi, packed, c) >= palette_len && forall|r: int|
                    0 <= r < c ==> #[trigger] spec_checked_index(bpi, packed, r) < palette_len;
            c == q
        }),
{
    let c = choose|c: int|
        0 <= c < 4096 && spec_checked_index(bpi, packed, c) >= palette_len && forall|r: int|
            0 <= r < c ==> #[trigger] spec_checked_index(bpi, packed, r) < palette_len;
    assert(0 <= c < 4096 && spec_checked_index(bpi, packed, c) >= palette_len && forall|r: int|
        0 <= r < c ==> #[trigger] spec_checked_index(bpi, packed, r) < palette_len);
    if c < q {
        assert(spec_checked_index(bpi, packed, c) < palette_len);
    }
    if q < c {
        assert(spec_checked_index(bpi, packed, q) < palette_len);
    }
}


// ================================
//  Packing
// ================================

/// Whether `s` is strictly increasing.
pub open spec fn spec_strictly_increasing(s: Seq<u32>) -> bool {
    forall|i: int, j: int| 0 <= i < j < s.len() ==> s[i] < s[j]
}

/// The number of index bits in use in block `k`; the bits above them are padding.
pub open spec fn spec_used_bits(bpi: PaletteBitsPerIndex, k: int) -> int {
    if k == bpi.spec_num_u32s() - 1 {
        bpi.spec_bits() * bpi.spec_indices_in_last_u32()
    } else {
        bpi.spec_bits() * bpi.spec_indices_per_u32()
    }
}

/// Whether every padding bit of the blocks is zero.
pub open spec fn spec_padding_zero(bpi: PaletteBitsPerIndex, packed: Seq<u32>) -> bool {
    forall|k: int|
        0 <= k < packed.len() && spec_used_bits(bpi, k) < 32 ==> #[trigger] packed[k] >> (
        spec_used_bits(bpi, k) as u32) == 0
}

/// Find `value` in a strictly increasing palette: `Ok` with its position if present,
/// or `Err` with the position at which it would be inserted.
fn palette_search(palette: &Vec<u32>, value: u32) -> (res: Result<usize, usize>)
    requires
        spec_strictly_increasing(palette@),
    ensures
        match res {
            Ok(i) => i < palette@.len() && palette@[i as int] == value,
            Err(i) => i <= palette@.len() && (forall|j: int| 0 <= j < i ==> palette@[j] < value)
                && (forall|j: int| i <= j < palette@.len() ==> palette@[j] > value),
        },
{
    let mut lo: usize = 0;
    let mut hi: usize = palette.len();
    while lo < hi
        invariant
            spec_strictly_increasing(palette@),
            lo <= hi <= palette@.len(),
            forall|j: int| 0 <= j < lo ==> palette@[j] < value,
            forall|j: int| hi <= j < palette@.len() ==> palette@[j] > value,
        decreases hi - lo,
    {
        let mid = lo + (hi - lo) / 2;
        if palette[mid] < value {
            lo = mid + 1;
        } else if palette[mid] > value {
            hi = mid;
        } else {
            return Ok(mid);
        }
    }
    Err(lo)
}

/// The distinct values of `data`, in increasing order.
fn sorted_palette(data: &[u32; 4096]) -> (res: Vec<u32>)
    ensures
        spec_strictly_increasing(res@),
        1 <= res@.len() <= 4096,
        forall|k: int| 0 <= k < 4096 ==> #[trigger] res@.contains(data@[k]),
        forall|j: int| 0 <= j < res@.len() ==> #[trigger] data@.contains(res@[j]),
{
    let mut palette: Vec<u32> = Vec::new();
    let mut i: usize = 0;
    while i < 4096
        invariant
            i <= 4096,
            spec_strictly_increasing(palette@),
            palette@.len() <= i,
            i > 0 ==> palette@.len() >= 1,
            forall|k: int| 0 <= k < i ==> #[trigger] palette@.contains(data@[k]),
            forall|j: int| 0 <= j < palette@.len() ==> #[trigger] data@.contains(palette@[j]),
        decreases 4096 - i,
    {
        let value = data[i];
        match palette_search(&palette, value) {
            Ok(pos) => {
                assert(palette@[pos as int] == data@[i as int]);
            },
            Err(pos) => {
                let ghost old_palette = palette@;
                palette.insert(pos, value);
                assert(palette@[pos as int] == value);
                assert forall|a: int, b: int| 0 <= a < b < palette@.len() implies palette@[a]
                    < palette@[b] by {
                    if b < pos {
                    } else if a < pos && b == pos {
                    } else if a < pos {
                        assert(palette@[b] == old_palette[b - 1]);
                    } else if a == pos {
                        assert(palette@[b] == old_palette[b - 1]);
                    } else {
                        assert(palette@[a] == old_palette[a - 1]);
                        assert(palette@[b] == old_palette[b - 1]);
                    }
                }
                assert forall|k: int| 0 <= k < i implies #[trigger] palette@.contains(data@[k]) by {
                    assert(old_palette.contains(data@[k]));
                    let j = choose|j: int| 0 <= j < old_palette.len() && old_palette[j] == data@[k];
                    if j < pos {
                        assert(palette@[j] == data@[k]);
                    } else {
                        assert(palette@[j + 1] == data@[k]);
                    }
                }
                assert forall|j: int| 0 <= j < palette@.len() implies #[trigger] data@.contains(
                    palette@[j],
                ) by {
                    if j < pos {
                        assert(data@.contains(old_palette[j]));
                    } else if j == pos {
                        assert(data@[i as int] == palette@[j]);
                    } else {
                        assert(data@.contains(old_palette[j - 1]));
                    }
                }
            },
        }
        assert(palette@.contains(data@[i as int]));
        i = i + 1;
    }
    palette
}

/// Every palette of at most `2^k` entries needs at most `k` bits per index.
proof fn lemma_min_bits_bound(len: nat, k: nat)
    requires
        len <= vstd::arithmetic::power2::pow2(k),
    ensures
        PaletteBitsPerIndex::spec_min_bits(len) <= k,
    decreases k,
{
    if len > 1 {
        if k == 0 {
            vstd::arithmetic::power2::lemma2_to64();
        } else {
            vstd::arithmetic::power2::lemma_pow2_unfold(k);
            lemma_min_bits_bound(((len + 1) / 2) as nat, (k - 1) as nat);
        }
    }
}

/// `2^min_bits(len)` is at least `len`.
proof fn lemma_min_bits_enough(len: nat)
    ensures
        len <= vstd::arithmetic::power2::pow2(PaletteBitsPerIndex::spec_min_bits(len)),
    decreases len,
{
    vstd::arithmetic::power2::lemma2_to64();
    if len > 1 {
        let half = ((len + 1) / 2) as nat;
        lemma_min_bits_enough(half);
        vstd::arithmetic::power2::lemma_pow2_unfold(PaletteBitsPerIndex::spec_min_bits(len));
    }
}

/// The width chosen for a palette of 2 to 4096 entries exists, and every index into
/// the palette fits in its mask.
proof fn lemma_width_fits(len: usize)
    requires
        2 <= len <= 4096,
    ensures
        PaletteBitsPerIndex::spec_new_from_usize(len) is Some,
        (len - 1) as u32 <= PaletteBitsPerIndex::spec_new_from_usize(len)->0.spec_mask(),
{
    vstd::arithmetic::power2::lemma2_to64();
    lemma_min_bits_bound(len as nat, 12);
    lemma_min_bits_enough(len as nat);
    let m = PaletteBitsPerIndex::spec_min_bits(len as nat);
    let b = PaletteBitsPerIndex::spec_new_from_usize(len)->0;
    b.lemma_layout();
    assert(m <= b.spec_bits());
    if m < b.spec_bits() {
        vstd::arithmetic::power2::lemma_pow2_strictly_increases(m, b.spec_bits() as nat);
    }
}

/// How the 4096 indices split into full blocks and a last, possibly partial, block.
proof fn lemma_pack_count(bpi: PaletteBitsPerIndex, len: int, p: int)
    requires
        len >= 0,
        0 <= p < bpi.spec_indices_per_u32(),
        len * bpi.spec_indices_per_u32() + p == 4096,
    ensures
        p == 0 ==> len == bpi.spec_num_u32s() && bpi.spec_indices_in_last_u32()
            == bpi.spec_indices_per_u32(),
        p > 0 ==> len == bpi.spec_num_u32s() - 1 && p == bpi.spec_indices_in_last_u32(),
{
    let per = bpi.spec_indices_per_u32() as int;
    bpi.lemma_layout_formulas();
    vstd::arithmetic::div_mod::lemma_fundamental_div_mod_converse(4096, per, len, p);
    match bpi {
        PaletteBitsPerIndex::One => {
            assert(4096int / 32int == 128);
            assert(4096int % 32int == 0);
        },
        PaletteBitsPerIndex::Two => {
            assert(4096int / 16int == 256);
            assert(4096int % 16int == 0);
        },
        PaletteBitsPerIndex::Three => {
            assert(4096int / 10int == 409);
            assert(4096int % 10int == 6);
        },
        PaletteBitsPerIndex::Four => {
            assert(4096int / 8int == 512);
            assert(4096int % 8int == 0);
        },
        PaletteBitsPerIndex::Five => {
            assert(4096int / 6int == 682);
            assert(4096int % 6int == 4);
        },
        PaletteBitsPerIndex::Six => {
            assert(4096int / 5int == 819);
            assert(4096int % 5int == 1);
        },
        PaletteBitsPerIndex::Eight => {
            assert(4096int / 4int == 1024);
            assert(4096int % 4int == 0);
        },
        PaletteBitsPerIndex::Sixteen => {
            assert(4096int / 2int == 2048);
            assert(4096int % 2int == 0);
        },
    }
}

/// Pack 4096 indices, each within the mask of `bpi`, into `u32` blocks: slot `q` of block `k`
/// holds index `k * indices_per_u32 + q`, the last block may be partial, and every padding bit
/// is zero.
fn pack_indices(bpi: PaletteBitsPerIndex, indices: &[u32; 4096]) -> (packed: Vec<u32>)
    requires
        forall|i: int| 0 <= i < 4096 ==> #[trigger] indices@[i] <= bpi.spec_mask(),
    ensures
        packed@.len() == bpi.spec_num_u32s(),
        forall|i: int| 0 <= i < 4096 ==> #[trigger] spec_index_at(bpi, packed@, i) == indices@[i],
        spec_padding_zero(bpi, packed@),
{
    proof {
        bpi.lemma_layout();
    }
    let per = bpi.indices_per_u32();
    let bits = u8::from(bpi) as u32;
    let index_mask = (1u32 << bits) - 1;
    let mut packed: Vec<u32> = Vec::new();
    let mut block: u32 = 0;
    let mut p: u8 = 0;
    let mut shift: u32 = 0;
    let mut i: usize = 0;
    assert(0u32 >> 0u32 == 0) by (bit_vector);
    while i < 4096
        invariant
            forall|j: int| 0 <= j < 4096 ==> #[trigger] indices@[j] <= bpi.spec_mask(),
            per == bpi.spec_indices_per_u32(),
            bits == bpi.spec_bits(),
            index_mask == bpi.spec_mask(),
            i <= 4096,
            p < per,
            i == packed@.len() * per + p,
            shift == spec_shift(bpi, p as int),
            shift as int == bits as int * p,
            shift < 32,
            block >> shift == 0,
            forall|q: int|
                0 <= q < p ==> #[trigger] spec_slot(bpi, block, q) == indices@[packed@.len() * per
                    + q],
            forall|k: int, q: int|
                0 <= k < packed@.len() && 0 <= q < per ==> #[trigger] spec_slot(
                    bpi,
                    packed@[k],
                    q,
                ) == indices@[k * per + q],
            forall|k: int|
                0 <= k < packed@.len() && bits * per < 32 ==> #[trigger] packed@[k] >> ((bits
                    * per) as u32) == 0,
        decreases 4096 - i,
    {
        let index = indices[i];
        proof {
            lemma_shift_step(bpi, p as int);
            bpi.lemma_layout();
        }
        let ghost old_block = block;
        let new_block = block | (index << shift);
        proof {
            assert forall|q: int| 0 <= q < p implies spec_slot(bpi, new_block, q) == spec_slot(
                bpi,
                old_block,
                q,
            ) by {
                lemma_shift_step(bpi, q);
                let t = spec_shift(bpi, q);
                lemma_insert_keeps_slot(old_block, index, shift, t, bits, index_mask);
            }
            lemma_insert_new_slot(old_block, index, shift, bits, index_mask);
        }
        block = new_block;
        p = p + 1;
        shift = shift + bits;
        i = i + 1;
        if p == per {
            proof {
                assert(bits * per == bits * p);
            }
            packed.push(block);
            block = 0;
            p = 0;
            shift = 0;
            assert(0u32 >> 0u32 == 0) by (bit_vector);
            assert(i == packed@.len() * per) by (nonlinear_arith)
                requires
                    i == (packed@.len() - 1) * per + per,
            ;
        }
    }
    let ghost full = packed@.len();
    proof {
        lemma_pack_count(bpi, full as int, p as int);
    }
    if p > 0 {
        packed.push(block);
    }
    proof {
        let n = bpi.spec_num_u32s() as int;
        let last = bpi.spec_indices_in_last_u32() as int;
        assert(packed@.len() == n);
        assert forall|i: int| 0 <= i < 4096 implies #[trigger] spec_index_at(bpi, packed@, i)
            == indices@[i] by {
            lemma_index_in_range(bpi, i);
            let k = i / (per as int);
            let q = i % (per as int);
            lemma_block_slot(bpi, packed@, k, q);
        }
        assert forall|k: int|
            0 <= k < packed@.len() && spec_used_bits(bpi, k) < 32 implies #[trigger] packed@[k]
            >> (spec_used_bits(bpi, k) as u32) == 0 by {
            if k < full {
                if k == n - 1 {
                    assert(last == per);
                }
            } else {
                assert(p as int == last);
                assert(spec_used_bits(bpi, k) == bits * p);
            }
        }
    }
    packed
}

/// The bits per index for a palette of `palette_len` entries: one bit for a single entry,
/// otherwise the fewest that fit every index.
fn bits_for_palette(palette_len: usize) -> (res: PaletteBitsPerIndex)
    requires
        1 <= palette_len <= 4096,
    ensures
        palette_len == 1 ==> res == PaletteBitsPerIndex::One,
        palette_len > 1 ==> Some(res) == PaletteBitsPerIndex::spec_new_from_usize(palette_len),
        (palette_len - 1) as u32 <= res.spec_mask(),
{
    if palette_len == 1 {
        proof {
            PaletteBitsPerIndex::One.lemma_layout();
            vstd::arithmetic::power2::lemma2_to64();
        }
        return PaletteBitsPerIndex::One;
    }
    proof {
        lemma_width_fits(palette_len);
    }
    match PaletteBitsPerIndex::new_from_usize(palette_len) {
        Some(b) => b,
        None => PaletteBitsPerIndex::One,
    }
}

/// Whether `s` is strictly increasing in the order of `T`.
pub open spec fn spec_strictly_ordered<T: Ord>(s: Seq<T>) -> bool {
    forall|i: int, j: int|
        0 <= i < j < s.len() ==> #[trigger] spec_precedence(s[i], s[j]) == Precedence::Before
}

/// Whether `s` holds a value that is the same as `v` in the order of `T`.
pub open spec fn spec_holds_same<T: Ord>(s: Seq<T>, v: T) -> bool {
    exists|j: int| 0 <= j < s.len() && #[trigger] spec_precedence(s[j], v) == Precedence::Same
}

/// Whether `v` occurs in `data` before every other value that is the same as it in the
/// order of `T`.
pub open spec fn spec_first_of_its_kind<T: Ord>(data: Seq<T>, v: T) -> bool {
    exists|i: int|
        #![trigger data[i]]
        0 <= i < data.len() && data[i] == v && forall|k: int|
            0 <= k < i ==> #[trigger] spec_precedence(data[k], v) != Precedence::Same
}

/// Find a value that is the same as `value` in a strictly ordered palette: `Ok` with its
/// position if there is one, or `Err` with the position at which `value` would be inserted.
fn ordered_search<T: Ord>(palette: &Vec<T>, value: &T) -> (res: Result<usize, usize>)
    requires
        spec_total_order::<T>(),
        spec_strictly_ordered(palette@),
    ensures
        match res {
            Ok(i) => i < palette@.len() && spec_precedence(palette@[i as int], *value)
                == Precedence::Same,
            Err(i) => i <= palette@.len() && (forall|j: int|
                0 <= j < i ==> #[trigger] spec_precedence(palette@[j], *value)
                    == Precedence::Before) && (forall|j: int|
                i <= j < palette@.len() ==> #[trigger] spec_precedence(palette@[j], *value)
                    == Precedence::After),
        },
{
    proof {
        lemma_precedence_laws::<T>();
    }
    let mut lo: usize = 0;
    let mut hi: usize = palette.len();
    while lo < hi
        invariant
            spec_total_order::<T>(),
            spec_strictly_ordered(palette@),
            lo <= hi <= palette@.len(),
            forall|j: int|
                0 <= j < lo ==> #[trigger] spec_precedence(palette@[j], *value)
                    == Precedence::Before,
            forall|j: int|
                hi <= j < palette@.len() ==> #[trigger] spec_precedence(palette@[j], *value)
                    == Precedence::After,
        decreases hi - lo,
    {
        proof {
            lemma_precedence_laws::<T>();
        }
        let mid = lo + (hi - lo) / 2;
        match precedence(&palette[mid], value) {
            Precedence::Before => {
                proof {
                    assert forall|j: int| 0 <= j < mid + 1 implies #[trigger] spec_precedence(
                        palette@[j],
                        *value,
                    ) == Precedence::Before by {
                        if j < mid {
                            assert(spec_precedence(palette@[j], palette@[mid as int])
                                == Precedence::Before);
                        }
                    }
                }
                lo = mid + 1;
            },
            Precedence::After => {
                proof {
                    assert(spec_precedence(*value, palette@[mid as int]) == Precedence::Before);
                    assert forall|j: int| mid <= j < palette@.len() implies #[trigger] spec_precedence(
                        palette@[j],
                        *value,
                    ) == Precedence::After by {
                        if j > mid {
                            assert(spec_precedence(palette@[mid as int], palette@[j])
                                == Precedence::Before);
                            assert(spec_precedence(*value, palette@[j]) == Precedence::Before);
                        }
                    }
                }
                hi = mid;
            },
            Precedence::Same => {
                return Ok(mid);
            },
        }
    }
    Err(lo)
}

/// Inserting `value` where it belongs keeps a palette strictly ordered.
proof fn lemma_insert_ordered<T: Ord>(old: Seq<T>, pos: int, value: T)
    requires
        spec_total_order::<T>(),
        spec_strictly_ordered(old),
        0 <= pos <= old.len(),
        forall|j: int| 0 <= j < pos ==> #[trigger] spec_precedence(old[j], value) == Precedence::Before,
        forall|j: int|
            pos <= j < old.len() ==> #[trigger] spec_precedence(old[j], value) == Precedence::After,
    ensures
        spec_strictly_ordered(old.insert(pos, value)),
{
    lemma_precedence_laws::<T>();
    let new = old.insert(pos, value);
    assert forall|a: int, b: int| 0 <= a < b < new.len() implies #[trigger] spec_precedence(
        new[a],
        new[b],
    ) == Precedence::Before by {
        if b < pos {
            assert(spec_precedence(old[a], old[b]) == Precedence::Before);
        } else if a < pos && b == pos {
        } else if a < pos {
            assert(new[b] == old[b - 1]);
            assert(spec_precedence(old[b - 1], value) == Precedence::After);
            assert(spec_precedence(value, old[b - 1]) == Precedence::Before);
        } else if a == pos {
            assert(new[b] == old[b - 1]);
            assert(spec_precedence(old[b - 1], value) == Precedence::After);
        } else {
            assert(new[a] == old[a - 1]);
            assert(new[b] == old[b - 1]);
            assert(spec_precedence(old[a - 1], old[b - 1]) == Precedence::Before);
        }
    }
}

/// A value that is the same as none of a palette is the same as none of the values that the
/// palette holds a value of the same kind as.
proof fn lemma_new_kind<T: Ord>(old: Seq<T>, data: Seq<T>, i: int)
    requires
        spec_total_order::<T>(),
        0 <= i < data.len(),
        forall|j: int| 0 <= j < old.len() ==> #[trigger] spec_precedence(old[j], data[i]) != Precedence::Same,
        forall|k: int| 0 <= k < i ==> #[trigger] spec_holds_same(old, data[k]),
    ensures
        forall|k: int| 0 <= k < i ==> #[trigger] spec_precedence(data[k], data[i]) != Precedence::Same,
{
    lemma_precedence_laws::<T>();
    assert forall|k: int| 0 <= k < i implies #[trigger] spec_precedence(data[k], data[i])
        != Precedence::Same by {
        if spec_precedence(data[k], data[i]) == Precedence::Same {
            assert(spec_holds_same(old, data[k]));
            let j = choose|j: int|
                0 <= j < old.len() && #[trigger] spec_precedence(old[j], data[k]) == Precedence::Same;
            assert(spec_precedence(old[j], data[i]) == Precedence::Same);
        }
    }
}

/// Inserting into a palette keeps every value it held one of the same kind as.
proof fn lemma_insert_holds<T: Ord>(old: Seq<T>, pos: int, value: T, data: Seq<T>, i: int)
    requires
        0 <= pos <= old.len(),
        0 <= i <= data.len(),
        forall|k: int| 0 <= k < i ==> #[trigger] spec_holds_same(old, data[k]),
    ensures
        forall|k: int| 0 <= k < i ==> #[trigger] spec_holds_same(old.insert(pos, value), data[k]),
{
    let new = old.insert(pos, value);
    assert forall|k: int| 0 <= k < i implies #[trigger] spec_holds_same(new, data[k]) by {
        assert(spec_holds_same(old, data[k]));
        let j = choose|j: int|
            0 <= j < old.len() && #[trigger] spec_precedence(old[j], data[k]) == Precedence::Same;
        if j < pos {
            assert(new[j] == old[j]);
            assert(spec_precedence(new[j], data[k]) == Precedence::Same);
        } else {
            assert(new[j + 1] == old[j]);
            assert(spec_precedence(new[j + 1], data[k]) == Precedence::Same);
        }
    }
}

/// One value of each kind in `data`, the first of its kind, in increasing order.
fn ordered_palette<T: Ord + Copy>(data: &[T; 4096]) -> (res: Vec<T>)
    requires
        spec_total_order::<T>(),
    ensures
        spec_strictly_ordered(res@),
        1 <= res@.len() <= 4096,
        forall|k: int| 0 <= k < 4096 ==> #[trigger] spec_holds_same(res@, data@[k]),
        forall|j: int| 0 <= j < res@.len() ==> #[trigger] spec_first_of_its_kind(data@, res@[j]),
{
    let mut palette: Vec<T> = Vec::new();
    let ghost mut firsts: Seq<int> = Seq::empty();
    let mut i: usize = 0;
    while i < 4096
        invariant
            spec_total_order::<T>(),
            i <= 4096,
            spec_strictly_ordered(palette@),
            palette@.len() <= i,
            i > 0 ==> palette@.len() >= 1,
            forall|k: int| 0 <= k < i ==> #[trigger] spec_holds_same(palette@, data@[k]),
            firsts.len() == palette@.len(),
            forall|j: int|
                0 <= j < palette@.len() ==> 0 <= #[trigger] firsts[j] < i && data@[firsts[j]]
                    == palette@[j],
            forall|j: int, k: int|
                0 <= j < palette@.len() && 0 <= k < firsts[j] ==> #[trigger] spec_precedence(
                    data@[k],
                    palette@[j],
                ) != Precedence::Same,
        decreases 4096 - i,
    {
        let value = data[i];
        match ordered_search(&palette, &value) {
            Ok(pos) => {
                proof {
                    assert(spec_precedence(palette@[pos as int], data@[i as int])
                        == Precedence::Same);
                    assert(spec_holds_same(palette@, data@[i as int]));
                }
            },
            Err(pos) => {
                let ghost old_palette = palette@;
                let ghost old_firsts = firsts;
                proof {
                    lemma_new_kind(old_palette, data@, i as int);
                    lemma_insert_ordered(old_palette, pos as int, value);
                    lemma_insert_holds(old_palette, pos as int, value, data@, i as int);
                    assert(spec_precedence(value, value) == Precedence::Same) by {
                        lemma_precedence_laws::<T>();
                    }
                    firsts = old_firsts.insert(pos as int, i as int);
                }
                palette.insert(pos, value);
                proof {
                    assert(palette@[pos as int] == value);
                    assert(spec_holds_same(palette@, data@[i as int]));
                    assert forall|j: int|
                        0 <= j < palette@.len() implies 0 <= #[trigger] firsts[j] < i + 1
                        && data@[firsts[j]] == palette@[j] by {
                        if j < pos {
                            assert(firsts[j] == old_firsts[j]);
                            assert(palette@[j] == old_palette[j]);
                        } else if j > pos {
                            assert(firsts[j] == old_firsts[j - 1]);
                            assert(palette@[j] == old_palette[j - 1]);
                        }
                    }
                    assert forall|j: int, k: int|
                        0 <= j < palette@.len() && 0 <= k < firsts[j] implies #[trigger] spec_precedence(
                        data@[k],
                        palette@[j],
                    ) != Precedence::Same by {
                        if j < pos {
                            assert(firsts[j] == old_firsts[j]);
                            assert(palette@[j] == old_palette[j]);
                        } else if j > pos {
                            assert(firsts[j] == old_firsts[j - 1]);
                            assert(palette@[j] == old_palette[j - 1]);
                        } else {
                            assert(palette@[j] == data@[i as int]);
                        }
                    }
                }
            },
        }
        i = i + 1;
    }
    proof {
        assert forall|j: int| 0 <= j < palette@.len() implies #[trigger] spec_first_of_its_kind(
            data@,
            palette@[j],
        ) by {
            let i0 = firsts[j];
            assert(data@[i0] == palette@[j]);
            assert forall|k: int| 0 <= k < i0 implies #[trigger] spec_precedence(
                data@[k],
                palette@[j],
            ) != Precedence::Same by {}
        }
    }
    palette
}

impl<T: Ord + Copy> PalettizedSubchunk<T> {
    /// Pack the given values of one subchunk, in YZX order (Y increments first).
    /// The palette holds one value of each kind in the order of `T`, the first of its kind,
    /// in increasing order; each value unpacks to the palette value of its kind. Any padding
    /// bits are zeroes.
    pub fn new_unpacked_flattened_copy(unpacked_data: [T; 4096]) -> (res: Self)
        requires
            spec_total_order::<T>(),
        ensures
            res.wf(),
            forall|i: int|
                0 <= i < 4096 ==> #[trigger] spec_precedence(res.spec_unpacked()[i], unpacked_data@[i])
                    == Precedence::Same,
            spec_strictly_ordered(res@.2),
            forall|j: int|
                0 <= j < res@.2.len() ==> #[trigger] spec_first_of_its_kind(
                    unpacked_data@,
                    res@.2[j],
                ),
            res@.2.len() == 1 ==> res@.0 == PaletteBitsPerIndex::One,
            res@.2.len() > 1 ==> Some(res@.0) == PaletteBitsPerIndex::spec_new_from_usize(
                res@.2.len() as usize,
            ),
            spec_padding_zero(res@.0, res@.1),
    {
        let palette = ordered_palette(&unpacked_data);
        let palette_len = palette.len();
        let bpi = bits_for_palette(palette_len);
        let mut indices: [u32; 4096] = [0; 4096];
        let mut i: usize = 0;
        while i < 4096
            invariant
                spec_total_order::<T>(),
                spec_strictly_ordered(palette@),
                palette@.len() == palette_len,
                1 <= palette_len <= 4096,
                (palette_len - 1) as u32 <= bpi.spec_mask(),
                forall|k: int| 0 <= k < 4096 ==> #[trigger] spec_holds_same(palette@, unpacked_data@[k]),
                i <= 4096,
                forall|j: int|
                    0 <= j < i ==> #[trigger] indices@[j] < palette_len && spec_precedence(
                        palette@[indices@[j] as int],
                        unpacked_data@[j],
                    ) == Precedence::Same,
            decreases 4096 - i,
        {
            let value = unpacked_data[i];
            let pos = match ordered_search(&palette, &value) {
                Ok(pos) => pos,
                Err(_) => {
                    proof {
                        assert(spec_holds_same(palette@, unpacked_data@[i as int]));
                    }
                    0
                },
            };
            indices[i] = pos as u32;
            i = i + 1;
        }
        let packed = pack_indices(bpi, &indices);
        let res = Self::new_packed_unchecked(bpi, packed, palette);
        proof {
            assert forall|i: int| 0 <= i < 4096 implies #[trigger] spec_index_at(bpi, packed@, i)
                < palette_len by {
                assert(indices@[i] < palette_len);
            }
            assert forall|i: int| 0 <= i < 4096 implies #[trigger] spec_precedence(
                res.spec_unpacked()[i],
                unpacked_data@[i],
            ) == Precedence::Same by {
                assert(indices@[i] < palette_len);
                assert(spec_index_at(bpi, packed@, i) == indices@[i]);
            }
        }
        res
    }
}

impl PalettizedSubchunk<u32> {
    /// Pack the given values of one subchunk, in YZX order (Y increments first).
    /// The palette is the distinct values in increasing order, and any padding bits
    /// are zeroes.
    pub fn new_unpacked_flattened(unpacked_data: [u32; 4096]) -> (res: Self)
        ensures
            res.wf(),
            res.spec_unpacked() == unpacked_data@,
            spec_strictly_increasing(res@.2),
            forall|j: int| 0 <= j < res@.2.len() ==> #[trigger] unpacked_data@.contains(res@.2[j]),
            res@.2.len() == 1 ==> res@.0 == PaletteBitsPerIndex::One,
            res@.2.len() > 1 ==> Some(res@.0) == PaletteBitsPerIndex::spec_new_from_usize(
                res@.2.len() as usize,
            ),
            spec_padding_zero(res@.0, res@.1),
    {
        let palette = sorted_palette(&unpacked_data);
        let palette_len = palette.len();
        let bpi = bits_for_palette(palette_len);
        let mut indices: [u32; 4096] = [0; 4096];
        let mut i: usize = 0;
        while i < 4096
            invariant
                spec_strictly_increasing(palette@),
                palette@.len() == palette_len,
                1 <= palette_len <= 4096,
                (palette_len - 1) as u32 <= bpi.spec_mask(),
                forall|k: int| 0 <= k < 4096 ==> #[trigger] palette@.contains(unpacked_data@[k]),
                i <= 4096,
                forall|j: int|
                    0 <= j < i ==> #[trigger] indices@[j] < palette_len && palette@[indices@[j] as int]
                        == unpacked_data@[j],
            decreases 4096 - i,
        {
            let value = unpacked_data[i];
            let pos = match palette_search(&palette, value) {
                Ok(pos) => pos,
                Err(_) => {
                    proof {
                        assert(palette@.contains(unpacked_data@[i as int]));
                    }
                    0
                },
            };
            indices[i] = pos as u32;
            i = i + 1;
        }
        let packed = pack_indices(bpi, &indices);
        let res = Self::new_packed_unchecked(bpi, packed, palette);
        proof {
            assert forall|i: int| 0 <= i < 4096 implies #[trigger] spec_index_at(bpi, packed@, i)
                < palette_len && palette@[spec_index_at(bpi, packed@, i) as int]
                == unpacked_data@[i] by {
                assert(indices@[i] < palette_len);
            }
            assert(res.spec_unpacked() =~= unpacked_data@);
        }
        res
    }

    /// Pack the given values of one subchunk, indexed as `unpacked_data[X][Z][Y]`.
    /// Any needed padding bits will be zeroes.
    pub fn new_unpacked(unpacked_data: [[[u32; 16]; 16]; 16]) -> (res: Self)
        ensures
            res.wf(),
            res.spec_unpacked() == spec_flatten(unpacked_data),
            spec_strictly_increasing(res@.2),
            spec_padding_zero(res@.0, res@.1),
    {
        Self::new_unpacked_flattened(flatten_subchunk(&unpacked_data))
    }

    /// Pack the given values of one subchunk, indexed as `unpacked_data[X][Z][Y]`.
    /// Any needed padding bits will be zeroes.
    pub fn new_unpacked_u32s(unpacked_data: [[[u32; 16]; 16]; 16]) -> (res: Self)
        ensures
            res.wf(),
            res.spec_unpacked() == spec_flatten(unpacked_data),
            spec_strictly_increasing(res@.2),
            spec_padding_zero(res@.0, res@.1),
    {
        Self::new_unpacked_flattened(flatten_subchunk(&unpacked_data))
    }

    /// The values of this subchunk, indexed as `self.unpacked_u32s()[X][Z][Y]`.
    pub fn unpacked_u32s(&self) -> (res: [[[u32; 16]; 16]; 16])
        requires
            self.wf(),
        ensures
            spec_flatten(res) == self.spec_unpacked(),
    {
        self.unpacked()
    }
}

impl<T: Copy> PalettizedSubchunk<T> {
    /// The values of this subchunk, indexed as `self.unpacked()[X][Z][Y]`.
    pub fn unpacked(&self) -> (res: [[[T; 16]; 16]; 16])
        requires
            self.wf(),
        ensures
            spec_flatten(res) == self.spec_unpacked(),
    {
        let flat = self.unpacked_flattened();
        unflatten_subchunk(&flat)
    }
}

/// The values of a subchunk indexed as `data[X][Z][Y]`, in YZX order (Y increments first).
pub open spec fn spec_flatten<T>(data: [[[T; 16]; 16]; 16]) -> Seq<T> {
    Seq::new(4096, |i: int| data@[i / 256]@[(i / 16) % 16]@[i % 16])
}

/// Flatten a subchunk indexed as `data[X][Z][Y]` into YZX order.
pub fn flatten_subchunk<T: Copy>(data: &[[[T; 16]; 16]; 16]) -> (res: [T; 4096])
    ensures
        res@ == spec_flatten(*data),
{
    let mut out: [T; 4096] = [data[0][0][0]; 4096];
    let mut i: usize = 0;
    while i < 4096
        invariant
            i <= 4096,
            forall|j: int| 0 <= j < i ==> out@[j] == spec_flatten(*data)[j],
        decreases 4096 - i,
    {
        let x = i / 256;
        let z = (i / 16) % 16;
        let y = i % 16;
        out[i] = data[x][z][y];
        i = i + 1;
    }
    assert(out@ =~= spec_flatten(*data));
    out
}

/// Split values in YZX order into a subchunk indexed as `res[X][Z][Y]`.
pub fn unflatten_subchunk<T: Copy>(flat: &[T; 4096]) -> (res: [[[T; 16]; 16]; 16])
    ensures
        spec_flatten(res) == flat@,
        forall|x: int, z: int, y: int|
            0 <= x < 16 && 0 <= z < 16 && 0 <= y < 16 ==> #[trigger] res@[x]@[z]@[y] == flat@[x
                * 256 + z * 16 + y],
{
    let filler = flat[0];
    let mut out: [[[T; 16]; 16]; 16] = [[[filler; 16]; 16]; 16];
    let mut x: usize = 0;
    while x < 16
        invariant
            x <= 16,
            forall|a: int, b: int, c: int|
                0 <= a < x && 0 <= b < 16 && 0 <= c < 16 ==> #[trigger] out@[a]@[b]@[c] == flat@[a
                    * 256 + b * 16 + c],
        decreases 16 - x,
    {
        let mut plane: [[T; 16]; 16] = [[filler; 16]; 16];
        let mut z: usize = 0;
        while z < 16
            invariant
                x < 16,
                z <= 16,
                forall|b: int, c: int|
                    0 <= b < z && 0 <= c < 16 ==> #[trigger] plane@[b]@[c] == flat@[x * 256 + b
                        * 16 + c],
            decreases 16 - z,
        {
            let mut row: [T; 16] = [filler; 16];
            let mut y: usize = 0;
            while y < 16
                invariant
                    x < 16,
                    z < 16,
                    y <= 16,
                    forall|c: int| 0 <= c < y ==> #[trigger] row@[c] == flat@[x * 256 + z * 16 + c],
                decreases 16 - y,
            {
                row[y] = flat[x * 256 + z * 16 + y];
                y = y + 1;
            }
            plane[z] = row;
            z = z + 1;
        }
        out[x] = plane;
        x = x + 1;
    }
    assert forall|i: int| 0 <= i < 4096 implies spec_flatten(out)[i] == flat@[i] by {
        let a = i / 256;
        let b = (i / 16) % 16;
        let c = i % 16;
        assert(i == a * 256 + b * 16 + c);
        assert(out@[a]@[b]@[c] == flat@[a * 256 + b * 16 + c]);
    }
    assert(spec_flatten(out) =~= flat@);
    out
}


// ================================
//  Storage, headers and their bytes
// ================================

/// Palettized storage for one subchunk, with two special cases.
#[derive(Debug, Clone)]
pub enum PalettizedStorage<T> {
    Empty,
    Uniform(T),
    Palettized(PalettizedSubchunk<T>),
}

/// An error while parsing palettized storage.
#[derive(Debug)]
pub enum PalettizedStorageParseError<E> {
    /// A palette parser did not return a palette of length 1 when one was expected,
    /// or claimed to have read more bytes than remained.
    InvalidPaletteParser,
    /// An error while parsing a palette of the given length.
    PaletteParseError(E, usize),
    /// The palette's length could not be read.
    PaletteLenError,
    /// The parsed subchunk failed its checks.
    CheckError(PalettizedSubchunkCheckError),
    /// The packed indices could not be read: the bytes ended too early.
    IndexReadError,
}

/// An error while parsing a palette header.
#[derive(Debug, Clone, Copy, PartialEq, Eq, Structural)]
pub enum PaletteHeaderParseError {
    /// The header had invalid bits per index.
    InvalidBitsPerIndex(u8),
    /// There was no byte to read the header from.
    Io,
}

/// Attempt to read exactly `num_u32s`-many little-endian `u32`s.
pub fn read_le_u32s(reader: &mut ByteReader, num_u32s: usize) -> (res: Option<Vec<u32>>)
    requires
        old(reader).wf(),
    ensures
        final(reader).wf(),
        final(reader)@.0 == old(reader)@.0,
        old(reader)@.1 + 4 * num_u32s <= old(reader)@.0.len() ==> {
            &&& res matches Some(u32s)
            &&& u32s@ == spec_u32s_at(old(reader)@.0, old(reader)@.1 as int, num_u32s as nat)
            &&& final(reader)@.1 == old(reader)@.1 + 4 * num_u32s
        },
        old(reader)@.1 + 4 * num_u32s > old(reader)@.0.len() ==> res is None && final(reader)@
            == old(reader)@,
{
    let start = reader.position();
    let total = reader.len();
    if num_u32s > (total - start) / 4 {
        return None;
    }
    let bytes = match reader.read_exact(4 * num_u32s) {
        Some(bytes) => bytes,
        None => { return None; },
    };
    let ghost data = reader@.0;
    let mut u32s: Vec<u32> = Vec::new();
    let mut i: usize = 0;
    while i < num_u32s
        invariant
            i <= num_u32s,
            start + 4 * num_u32s <= data.len(),
            4 * num_u32s <= total,
            bytes@.len() == 4 * num_u32s,
            bytes@ == data.subrange(start as int, start + 4 * num_u32s),
            u32s@ =~= spec_u32s_at(data, start as int, i as nat),
        decreases num_u32s - i,
    {
        let value = u32_at(bytes.as_slice(), 4 * i);
        assert(value == spec_u32_at(data, start + 4 * i)) by {
            assert(bytes@[4 * i] == data[start + 4 * i]);
            assert(bytes@[4 * i + 1] == data[start + 4 * i + 1]);
            assert(bytes@[4 * i + 2] == data[start + 4 * i + 2]);
            assert(bytes@[4 * i + 3] == data[start + 4 * i + 3]);
        }
        u32s.push(value);
        i = i + 1;
    }
    Some(u32s)
}

/// Write many `u32`s to little-endian bytes. Infallible.
pub fn write_le_u32s(u32s: &[u32], bytes: &mut Vec<u8>) -> (res: Result<(), ()>)
    ensures
        final(bytes)@ == old(bytes)@ + spec_u32s_le_bytes(u32s@),
        res is Ok,
{
    let mut i: usize = 0;
    while i < u32s.len()
        invariant
            i <= u32s@.len(),
            bytes@ == old(bytes)@ + spec_u32s_le_bytes(u32s@.subrange(0, i as int)),
        decreases u32s@.len() - i,
    {
        extend_u32_le(bytes, u32s[i]);
        proof {
            assert(u32s@.subrange(0, i + 1).drop_last() =~= u32s@.subrange(0, i as int));
        }
        i = i + 1;
    }
    assert(u32s@.subrange(0, u32s@.len() as int) =~= u32s@);
    Ok(())
}

impl PaletteHeader {
    /// The header stored in the byte `header`.
    pub open spec fn spec_parse(header: u8) -> Result<PaletteHeader, PaletteHeaderParseError> {
        match HeaderBitsPerIndex::spec_parse(header >> 1) {
            Some(bits_per_index) => Ok(
                PaletteHeader { palette_type: PaletteType::spec_from_u8(header & 1), bits_per_index },
            ),
            None => Err(PaletteHeaderParseError::InvalidBitsPerIndex(header >> 1)),
        }
    }

    /// The byte that stores this header.
    pub open spec fn spec_to_u8(self) -> u8 {
        ((self.bits_per_index.spec_to_u8() << 1u8) | (self.palette_type.spec_to_u8() & 1)) as u8
    }

    /// Parses the `PaletteType` and bits per index of the palettized storage,
    /// including special cases, from the next byte of `reader`.
    pub fn parse_header(reader: &mut ByteReader) -> (res: Result<Self, PaletteHeaderParseError>)
        requires
            old(reader).wf(),
        ensures
            final(reader).wf(),
            final(reader)@.0 == old(reader)@.0,
            old(reader)@.1 < old(reader)@.0.len() ==> res == Self::spec_parse(
                old(reader)@.0[old(reader)@.1 as int],
            ) && final(reader)@.1 == old(reader)@.1 + 1,
            old(reader)@.1 >= old(reader)@.0.len() ==> res == Err::<Self, PaletteHeaderParseError>(
                PaletteHeaderParseError::Io,
            ) && final(reader)@ == old(reader)@,
    {
        let header = match reader.read_exact(1) {
            Some(bytes) => bytes[0],
            None => { return Err(PaletteHeaderParseError::Io); },
        };
        let palette_type = PaletteType::from(header & 1);
        match HeaderBitsPerIndex::parse(header >> 1) {
            Some(bits_per_index) => Ok(PaletteHeader { palette_type, bits_per_index }),
            None => Err(PaletteHeaderParseError::InvalidBitsPerIndex(header >> 1)),
        }
    }
}

impl From<PaletteHeader> for u8 {
    fn from(value: PaletteHeader) -> (res: u8) {
        let palette_type = u8::from(value.palette_type);
        let bits_per_index = u8::from(value.bits_per_index);
        (bits_per_index << 1u8) | (palette_type & 1)
    }
}

impl vstd::std_specs::convert::FromSpecImpl<PaletteHeader> for u8 {
    open spec fn obeys_from_spec() -> bool {
        true
    }

    open spec fn from_spec(value: PaletteHeader) -> u8 {
        value.spec_to_u8()
    }
}

/// Reading a header back from the byte written for it gives the same header.
pub proof fn lemma_header_roundtrip(header: PaletteHeader)
    ensures
        PaletteHeader::spec_parse(header.spec_to_u8()) == Ok::<
            PaletteHeader,
            PaletteHeaderParseError,
        >(header),
{
    let b = header.bits_per_index.spec_to_u8();
    let t = header.palette_type.spec_to_u8();
    assert(b <= 127);
    assert(t <= 1);
    let byte = ((b << 1u8) | (t & 1)) as u8;
    assert(byte >> 1u8 == b && byte & 1 == t) by (bit_vector)
        requires
            b <= 127,
            t <= 1,
            byte == ((b << 1u8) | (t & 1)) as u8,
    ;
}

/// The outcome of handing the remaining bytes to a palette parser: the parsed palette
/// and number of bytes it read, or the error to report.
pub open spec fn spec_palette_outcome<T, E>(
    out: Result<(Vec<T>, usize), E>,
    remaining_len: nat,
    palette_len: usize,
) -> Result<(Seq<T>, usize), PalettizedStorageParseError<E>> {
    match out {
        Err(e) => Err(PalettizedStorageParseError::PaletteParseError(e, palette_len)),
        Ok((palette, used)) => if used > remaining_len {
            Err(PalettizedStorageParseError::InvalidPaletteParser)
        } else {
            Ok((palette@, used))
        },
    }
}

impl<T> PalettizedStorage<T> {
    /// Parse palettized storage with the given header bits per index from `reader`.
    /// `parse_palette` is handed the unread bytes and the palette length, and returns the
    /// palette and the number of bytes it read.
    ///
    /// On success, `reader` has moved past everything that was read.
    pub fn parse<E, F>(
        reader: &mut ByteReader,
        bits_per_index: HeaderBitsPerIndex,
        parse_palette: F,
    ) -> (res: Result<Self, PalettizedStorageParseError<E>>)
        where
            F: Fn(&[u8], usize) -> Result<(Vec<T>, usize), E>,
        requires
            old(reader).wf(),
            forall|bytes: &[u8], len: usize| call_requires(parse_palette, (bytes, len)),
        ensures
            final(reader).wf(),
            final(reader)@.0 == old(reader)@.0,
            bits_per_index is Empty ==> (res matches Ok(PalettizedStorage::Empty) && final(reader)@
                == old(reader)@),
            bits_per_index is Uniform ==> exists|rest: &[u8], out: Result<(Vec<T>, usize), E>|
                {
                    &&& rest@ == old(reader).remaining()
                    &&& #[trigger] call_ensures(parse_palette, (rest, 1usize), out)
                    &&& match spec_palette_outcome(out, rest@.len(), 1) {
                        Err(e) => res == Err::<Self, PalettizedStorageParseError<E>>(e),
                        Ok((palette, used)) => if palette.len() == 1 {
                            res == Ok::<Self, PalettizedStorageParseError<E>>(
                                PalettizedStorage::Uniform(palette[0]),
                            ) && final(reader)@.1 == old(reader)@.1 + used
                        } else {
                            res == Err::<Self, PalettizedStorageParseError<E>>(
                                PalettizedStorageParseError::InvalidPaletteParser,
                            )
                        },
                    }
                },
            bits_per_index matches HeaderBitsPerIndex::Palettized(b) ==> {
                let start = old(reader)@.1 as int;
                let data = old(reader)@.0;
                let n = b.spec_num_u32s() as int;
                if start + 4 * n > data.len() {
                    res == Err::<Self, PalettizedStorageParseError<E>>(
                        PalettizedStorageParseError::IndexReadError,
                    )
                } else if start + 4 * n + 4 > data.len() {
                    res == Err::<Self, PalettizedStorageParseError<E>>(
                        PalettizedStorageParseError::PaletteLenError,
                    )
                } else {
                    let packed = spec_u32s_at(data, start, n as nat);
                    let palette_len = spec_u32_at(data, start + 4 * n) as usize;
                    exists|rest: &[u8], out: Result<(Vec<T>, usize), E>|
                        {
                            &&& rest@ == data.subrange(start + 4 * n + 4, data.len() as int)
                            &&& #[trigger] call_ensures(parse_palette, (rest, palette_len), out)
                            &&& match spec_palette_outcome(out, rest@.len(), palette_len) {
                                Err(e) => res == Err::<Self, PalettizedStorageParseError<E>>(e),
                                Ok((palette, used)) => match PalettizedSubchunk::<T>::spec_check(
                                    b,
                                    packed,
                                    palette.len() as usize,
                                ) {
                                    Err(c) => res == Err::<Self, PalettizedStorageParseError<E>>(
                                        PalettizedStorageParseError::CheckError(c),
                                    ),
                                    Ok(()) => {
                                        &&& res matches Ok(PalettizedStorage::Palettized(s))
                                        &&& s@ == (b, packed, palette)
                                        &&& s.wf()
                                        &&& final(reader)@.1 == start + 4 * n + 4 + used
                                    },
                                },
                            }
                        }
                }
            },
    {
        match bits_per_index {
            HeaderBitsPerIndex::Empty => Ok(PalettizedStorage::Empty),
            HeaderBitsPerIndex::Uniform => {
                let rest = reader.remaining_bytes();
                let out = parse_palette(rest, 1);
                match out {
                    Err(e) => Err(PalettizedStorageParseError::PaletteParseError(e, 1)),
                    Ok((mut palette, used)) => {
                        if used > rest.len() {
                            return Err(PalettizedStorageParseError::InvalidPaletteParser);
                        }
                        if palette.len() == 1 {
                            reader.skip(used);
                            Ok(PalettizedStorage::Uniform(palette.swap_remove(0)))
                        } else {
                            Err(PalettizedStorageParseError::InvalidPaletteParser)
                        }
                    },
                }
            },
            HeaderBitsPerIndex::Palettized(bits_per_index) => {
                let ghost start = reader@.1 as int;
                let ghost data = reader@.0;
                let packed_indices_len = bits_per_index.num_u32s_for_4096_indices();
                let packed_indices = match read_le_u32s(reader, packed_indices_len) {
                    Some(packed) => packed,
                    None => { return Err(PalettizedStorageParseError::IndexReadError); },
                };
                let palette_len_bytes = match reader.read_exact(4) {
                    Some(bytes) => bytes,
                    None => { return Err(PalettizedStorageParseError::PaletteLenError); },
                };
                let palette_len = u32_at(palette_len_bytes.as_slice(), 0) as usize;
                assert(palette_len == spec_u32_at(data, start + 4 * packed_indices_len) as usize);
                let rest = reader.remaining_bytes();
                let out = parse_palette(rest, palette_len);
                match out {
                    Err(e) => Err(PalettizedStorageParseError::PaletteParseError(e, palette_len)),
                    Ok((palette, used)) => {
                        if used > rest.len() {
                            return Err(PalettizedStorageParseError::InvalidPaletteParser);
                        }
                        reader.skip(used);
                        match PalettizedSubchunk::new_packed_checked(
                            bits_per_index,
                            packed_indices,
                            palette,
                        ) {
                            Ok(subchunk) => Ok(PalettizedStorage::Palettized(subchunk)),
                            Err(e) => Err(PalettizedStorageParseError::CheckError(e)),
                        }
                    },
                }
            },
        }
    }

    /// The header bits per index of this storage.
    pub open spec fn spec_bits_per_index(&self) -> HeaderBitsPerIndex {
        match self {
            PalettizedStorage::Empty => HeaderBitsPerIndex::Empty,
            PalettizedStorage::Uniform(_) => HeaderBitsPerIndex::Uniform,
            PalettizedStorage::Palettized(s) => HeaderBitsPerIndex::Palettized(s@.0),
        }
    }

    pub fn bits_per_index(&self) -> (res: HeaderBitsPerIndex)
        ensures
            res == self.spec_bits_per_index(),
    {
        match self {
            PalettizedStorage::Empty => HeaderBitsPerIndex::Empty,
            PalettizedStorage::Uniform(_) => HeaderBitsPerIndex::Uniform,
            PalettizedStorage::Palettized(s) => HeaderBitsPerIndex::Palettized(s.bits_per_index),
        }
    }

    /// Append the bytes of this storage: its header byte, then nothing for `Empty`,
    /// the bytes of the single value for `Uniform`, or the packed indices, the palette length
    /// and the bytes of the palette for `Palettized`. `write_palette` returns the bytes of
    /// a palette. On an error from `write_palette`, `bytes` holds what was written before it.
    /// `reserve` only decides whether capacity is reserved beforehand.
    pub fn extend_serialized<E, F>(
        &self,
        bytes: &mut Vec<u8>,
        palette_type: PaletteType,
        reserve: bool,
        write_palette: F,
    ) -> (res: Result<(), E>)
        where
            T: Copy,
            F: Fn(&[T]) -> Result<Vec<u8>, E>,
        requires
            forall|values: &[T]| call_requires(write_palette, (values,)),
            self matches PalettizedStorage::Palettized(s) ==> s@.2.len() <= u32::MAX,
        ensures
            final(bytes)@.len() > old(bytes)@.len(),
            PaletteHeader::spec_parse(final(bytes)@[old(bytes)@.len() as int]) == Ok::<
                PaletteHeader,
                PaletteHeaderParseError,
            >(PaletteHeader { palette_type, bits_per_index: self.spec_bits_per_index() }),
            ({
                let header = PaletteHeader {
                    palette_type,
                    bits_per_index: self.spec_bits_per_index(),
                }.spec_to_u8();
                match self {
                    PalettizedStorage::Empty => res is Ok && final(bytes)@ == old(bytes)@.push(
                        header,
                    ),
                    PalettizedStorage::Uniform(v) => exists|values: &[T], out: Result<Vec<u8>, E>|
                        {
                            &&& values@ == seq![*v]
                            &&& #[trigger] call_ensures(write_palette, (values,), out)
                            &&& match out {
                                Ok(written) => res is Ok && final(bytes)@ == old(bytes)@.push(
                                    header,
                                ) + written@,
                                Err(e) => res == Err::<(), E>(e) && final(bytes)@ == old(
                                    bytes,
                                )@.push(header),
                            }
                        },
                    PalettizedStorage::Palettized(s) => exists|
                        values: &[T],
                        out: Result<Vec<u8>, E>,
                    |
                        {
                            let prefix = old(bytes)@.push(header) + spec_u32s_le_bytes(s@.1)
                                + spec_u32_le_bytes(s@.2.len() as u32);
                            &&& values@ == s@.2
                            &&& #[trigger] call_ensures(write_palette, (values,), out)
                            &&& match out {
                                Ok(written) => res is Ok && final(bytes)@ == prefix + written@,
                                Err(e) => res == Err::<(), E>(e) && final(bytes)@ == prefix,
                            }
                        },
                }
            }),
    {
        let header = PaletteHeader { palette_type, bits_per_index: self.bits_per_index() };
        let header_byte = u8::from(header);
        proof {
            lemma_header_roundtrip(header);
        }
        match self {
            PalettizedStorage::Empty => {
                bytes.push(header_byte);
                Ok(())
            },
            PalettizedStorage::Uniform(value) => {
                if reserve {
                    bytes.reserve(2);
                }
                bytes.push(header_byte);
                let values: Vec<T> = vec![*value];
                let out = write_palette(values.as_slice());
                match out {
                    Ok(written) => {
                        crate::bytes::extend_vec(bytes, written);
                        Ok(())
                    },
                    Err(e) => Err(e),
                }
            },
            PalettizedStorage::Palettized(palettized) => {
                let palette_len = palettized.palette_len();
                let (_, packed_indices, palette) = palettized.packed();
                if reserve && packed_indices.len() <= 4096 && palette.len() <= 0x100_0000 {
                    bytes.reserve(5 + 4 * packed_indices.len() + 4 * palette.len());
                }
                bytes.push(header_byte);
                let _ = write_le_u32s(packed_indices.as_slice(), bytes);
                extend_u32_le(bytes, palette_len);
                let out = write_palette(palette.as_slice());
                match out {
                    Ok(written) => {
                        crate::bytes::extend_vec(bytes, written);
                        Ok(())
                    },
                    Err(e) => Err(e),
                }
            },
        }
    }

    /// The bytes of this storage, as written by `extend_serialized` to an empty vector.
    pub fn to_bytes<E, F>(
        &self,
        palette_type: PaletteType,
        reserve: bool,
        write_palette: F,
    ) -> (res: Result<
        Vec<u8>,
        E,
    >)
        where
            T: Copy,
            F: Fn(&[T]) -> Result<Vec<u8>, E>,
        requires
            forall|values: &[T]| call_requires(write_palette, (values,)),
            self matches PalettizedStorage::Palettized(s) ==> s@.2.len() <= u32::MAX,
        ensures
            res matches Ok(b) ==> b@.len() > 0 && PaletteHeader::spec_parse(b@[0]) == Ok::<
                PaletteHeader,
                PaletteHeaderParseError,
            >(PaletteHeader { palette_type, bits_per_index: self.spec_bits_per_index() }),
            ({
                let header = PaletteHeader {
                    palette_type,
                    bits_per_index: self.spec_bits_per_index(),
                }.spec_to_u8();
                match self {
                    PalettizedStorage::Empty => (res matches Ok(b) && b@ == seq![header]),
                    PalettizedStorage::Uniform(v) => exists|values: &[T], out: Result<Vec<u8>, E>|
                        {
                            &&& values@ == seq![*v]
                            &&& #[trigger] call_ensures(write_palette, (values,), out)
                            &&& match out {
                                Ok(written) => (res matches Ok(b) && b@ == seq![header]
                                    + written@),
                                Err(e) => res == Err::<Vec<u8>, E>(e),
                            }
                        },
                    PalettizedStorage::Palettized(s) => exists|
                        values: &[T],
                        out: Result<Vec<u8>, E>,
                    |
                        {
                            &&& values@ == s@.2
                            &&& #[trigger] call_ensures(write_palette, (values,), out)
                            &&& match out {
                                Ok(written) => (res matches Ok(b) && b@ == seq![header]
                                    + spec_u32s_le_bytes(s@.1) + spec_u32_le_bytes(
                                    s@.2.len() as u32,
                                ) + written@),
                                Err(e) => res == Err::<Vec<u8>, E>(e),
                            }
                        },
                }
            }),
    {
        let mut bytes: Vec<u8> = Vec::new();
        match self.extend_serialized(&mut bytes, palette_type, reserve, write_palette) {
            Ok(()) => {
                proof {
                    assert(Seq::<u8>::empty().push(
                        PaletteHeader {
                            palette_type,
                            bits_per_index: self.spec_bits_per_index(),
                        }.spec_to_u8(),
                    ) =~= seq![
                        PaletteHeader {
                            palette_type,
                            bits_per_index: self.spec_bits_per_index(),
                        }.spec_to_u8(),
                    ]);
                }
                Ok(bytes)
            },
            Err(e) => Err(e),
        }
    }
}


/// The widths of palette indices are 1 to 6, 8 and 16 bits, each named for its number of bits;
/// no other width is allowed.
pub proof fn lemma_palette_bits_numbering()
    ensures
        PaletteBitsPerIndex::One.spec_bits() == 1u8,
        PaletteBitsPerIndex::spec_new_exact(1u8) == Some(PaletteBitsPerIndex::One),
        HeaderBitsPerIndex::spec_parse(1u8) == Some(HeaderBitsPerIndex::Palettized(PaletteBitsPerIndex::One)),
        PaletteBitsPerIndex::Two.spec_bits() == 2u8,
        PaletteBitsPerIndex::spec_new_exact(2u8) == Some(PaletteBitsPerIndex::Two),
        HeaderBitsPerIndex::spec_parse(2u8) == Some(HeaderBitsPerIndex::Palettized(PaletteBitsPerIndex::Two)),
        PaletteBitsPerIndex::Three.spec_bits() == 3u8,
        PaletteBitsPerIndex::spec_new_exact(3u8) == Some(PaletteBitsPerIndex::Three),
        HeaderBitsPerIndex::spec_parse(3u8) == Some(HeaderBitsPerIndex::Palettized(PaletteBitsPerIndex::Three)),
        PaletteBitsPerIndex::Four.spec_bits() == 4u8,
        PaletteBitsPerIndex::spec_new_exact(4u8) == Some(PaletteBitsPerIndex::Four),
        HeaderBitsPerIndex::spec_parse(4u8) == Some(HeaderBitsPerIndex::Palettized(PaletteBitsPerIndex::Four)),
        PaletteBitsPerIndex::Five.spec_bits() == 5u8,
        PaletteBitsPerIndex::spec_new_exact(5u8) == Some(PaletteBitsPerIndex::Five),
        HeaderBitsPerIndex::spec_parse(5u8) == Some(HeaderBitsPerIndex::Palettized(PaletteBitsPerIndex::Five)),
        PaletteBitsPerIndex::Six.spec_bits() == 6u8,
        PaletteBitsPerIndex::spec_new_exact(6u8) == Some(PaletteBitsPerIndex::Six),
        HeaderBitsPerIndex::spec_parse(6u8) == Some(HeaderBitsPerIndex::Palettized(PaletteBitsPerIndex::Six)),
        PaletteBitsPerIndex::Eight.spec_bits() == 8u8,
        PaletteBitsPerIndex::spec_new_exact(8u8) == Some(PaletteBitsPerIndex::Eight),
        HeaderBitsPerIndex::spec_parse(8u8) == Some(HeaderBitsPerIndex::Palettized(PaletteBitsPerIndex::Eight)),
        PaletteBitsPerIndex::Sixteen.spec_bits() == 16u8,
        PaletteBitsPerIndex::spec_new_exact(16u8) == Some(PaletteBitsPerIndex::Sixteen),
        HeaderBitsPerIndex::spec_parse(16u8) == Some(HeaderBitsPerIndex::Palettized(PaletteBitsPerIndex::Sixteen)),
        forall|b: u8|
            !(1 <= b <= 6 || b == 8 || b == 16) ==> #[trigger] PaletteBitsPerIndex::spec_new_exact(b) is None,
{
}

/// The layout of the indices of a width: a `u32` block holds `32 / bits` indices, 4096 indices
/// take `ceil(4096 / indices_per_u32)` blocks, and the last block holds what is left over, or a
/// full block where nothing is.
pub proof fn lemma_palette_bits_layout(b: PaletteBitsPerIndex)
    ensures
        b.spec_indices_per_u32() == 32int / (b.spec_bits() as int),
        b.spec_num_u32s() == (4096int + b.spec_indices_per_u32() - 1) / (b.spec_indices_per_u32() as int),
        b.spec_indices_in_last_u32() == if 4096int % (b.spec_indices_per_u32() as int) == 0 {
            b.spec_indices_per_u32() as int
        } else {
            4096int % (b.spec_indices_per_u32() as int)
        },
{
    match b {
        PaletteBitsPerIndex::One => {
            assert(32int / 1 == 32);
            assert((4096int + 32 - 1) / 32 == 128);
            assert(4096int % 32 == 0);
        },
        PaletteBitsPerIndex::Two => {
            assert(32int / 2 == 16);
            assert((4096int + 16 - 1) / 16 == 256);
            assert(4096int % 16 == 0);
        },
        PaletteBitsPerIndex::Three => {
            assert(32int / 3 == 10);
            assert((4096int + 10 - 1) / 10 == 410);
            assert(4096int % 10 == 6);
        },
        PaletteBitsPerIndex::Four => {
            assert(32int / 4 == 8);
            assert((4096int + 8 - 1) / 8 == 512);
            assert(4096int % 8 == 0);
        },
        PaletteBitsPerIndex::Five => {
            assert(32int / 5 == 6);
            assert((4096int + 6 - 1) / 6 == 683);
            assert(4096int % 6 == 4);
        },
        PaletteBitsPerIndex::Six => {
            assert(32int / 6 == 5);
            assert((4096int + 5 - 1) / 5 == 820);
            assert(4096int % 5 == 1);
        },
        PaletteBitsPerIndex::Eight => {
            assert(32int / 8 == 4);
            assert((4096int + 4 - 1) / 4 == 1024);
            assert(4096int % 4 == 0);
        },
        PaletteBitsPerIndex::Sixteen => {
            assert(32int / 16 == 2);
            assert((4096int + 2 - 1) / 2 == 2048);
            assert(4096int % 2 == 0);
        },
    }
}

/// The byte of bits per index in a palette header: 127 for an empty storage, 0 for a uniform
/// one, and otherwise the number of bits of each index; and the type of palette is 0 for
/// persistent and any other number for runtime.
pub proof fn lemma_header_bits_numbering()
    ensures
        HeaderBitsPerIndex::Empty.spec_to_u8() == 127u8,
        HeaderBitsPerIndex::Uniform.spec_to_u8() == 0u8,
        forall|b: PaletteBitsPerIndex| #[trigger] HeaderBitsPerIndex::Palettized(b).spec_to_u8() == b.spec_bits(),
        HeaderBitsPerIndex::spec_parse(127u8) == Some(HeaderBitsPerIndex::Empty),
        HeaderBitsPerIndex::spec_parse(0u8) == Some(HeaderBitsPerIndex::Uniform),
        PaletteType::Persistent.spec_to_u8() == 0u8,
        PaletteType::Runtime.spec_to_u8() == 1u8,
        PaletteType::spec_from_u8(0u8) == PaletteType::Persistent,
        forall|v: u8| v != 0 ==> #[trigger] PaletteType::spec_from_u8(v) == PaletteType::Runtime,
{
}

} // verus!
