//! Values stored in the LevelDB of a Bedrock Edition world, and the options that control
//! how they are parsed and written.

use vstd::prelude::*;

pub mod actor_digest_version;
pub mod biome_state;
pub mod blending_data;
pub mod byte_text;
pub mod block_volume;
pub mod checksums;
pub mod chunk_position;
pub mod chunk_version;
pub mod data_2d;
pub mod data_3d;
pub mod dimensions;
pub mod finalized_state;
pub mod hardcoded_spawners;
pub mod legacy_data_2d;
pub mod level_spawn_was_fixed;
pub mod metadata;
pub mod palette_order;
pub mod palettized_storage;
pub mod subchunk_blocks;
pub mod uuid;

verus! {

/// Options for parsing values.
#[derive(Debug, Clone, Copy, PartialEq, Eq, Structural)]
pub struct ValueParseOptions {
    pub data_fidelity: DataFidelity,
}

/// Options for writing values to bytes.
#[derive(Debug, Clone, Copy, PartialEq, Eq, Structural)]
pub struct ValueToBytesOptions {
    pub data_fidelity: DataFidelity,
    pub handle_excessive_length: HandleExcessiveLength,
}

/// Control whether semantically-unimportant data is parsed or serialized to bytes.
/// (Semantically-important data is always parsed and serialized.)
#[derive(Debug, Clone, Copy, PartialEq, Eq, Structural)]
pub enum DataFidelity {
    /// Preserve all data, including semantically unimportant data like padding bits,
    /// and the order of all entries in likely-unordered key-value maps.
    BitPerfect,
    /// Preserve all semantically important data.
    Semantic,
}

/// How to handle lists or maps whose number of entries is too large to fit in a `u32`,
/// or strings whose length does not fit in a `u16`.
#[derive(Debug, Clone, Copy, PartialEq, Eq, Structural)]
pub enum HandleExcessiveLength {
    ReturnError,
    SilentlyTruncate,
}

impl HandleExcessiveLength {
    /// The length, as a `u32`, that `length_to_u32` writes for `len`, if any.
    pub open spec fn spec_length_to_u32(self, len: usize) -> Option<(u32, usize)> {
        if len <= u32::MAX {
            Some((len as u32, len))
        } else {
            match self {
                HandleExcessiveLength::ReturnError => None,
                HandleExcessiveLength::SilentlyTruncate => Some((u32::MAX, u32::MAX as usize)),
            }
        }
    }

    /// The length, as a `u16`, that `length_to_u16` writes for `len`, if any.
    pub open spec fn spec_length_to_u16(self, len: usize) -> Option<(u16, usize)> {
        if len <= u16::MAX {
            Some((len as u16, len))
        } else {
            match self {
                HandleExcessiveLength::ReturnError => None,
                HandleExcessiveLength::SilentlyTruncate => Some((u16::MAX, u16::MAX as usize)),
            }
        }
    }

    /// Given a `usize` length, attempts to cast it to a `u32`. If `self` is `ReturnError`
    /// and the conversion fails, `None` is returned; otherwise, the value is saturated
    /// to `u32::MAX`. Both the `u32` and the (possibly truncated) `usize` are returned.
    pub fn length_to_u32(self, len: usize) -> (res: Option<(u32, usize)>)
        ensures
            res == self.spec_length_to_u32(len),
    {
        if len <= 0xFFFF_FFFFusize {
            Some((len as u32, len))
        } else {
            match self {
                HandleExcessiveLength::ReturnError => None,
                HandleExcessiveLength::SilentlyTruncate => Some((0xFFFF_FFFFu32, 0xFFFF_FFFFusize)),
            }
        }
    }

    /// Given a `usize` length, attempts to cast it to a `u16`. If `self` is `ReturnError`
    /// and the conversion fails, `None` is returned; otherwise, the value is saturated
    /// to `u16::MAX`. Both the `u16` and the (possibly truncated) `usize` are returned.
    pub fn length_to_u16(self, len: usize) -> (res: Option<(u16, usize)>)
        ensures
            res == self.spec_length_to_u16(len),
    {
        if len <= 0xFFFFusize {
            Some((len as u16, len))
        } else {
            match self {
                HandleExcessiveLength::ReturnError => None,
                HandleExcessiveLength::SilentlyTruncate => Some((0xFFFFu16, 0xFFFFusize)),
            }
        }
    }
}

/// Whether the ID or name of the Overworld is written when a dimension is serialized.
#[derive(Debug, Clone, Copy, PartialEq, Eq, Structural)]
pub enum OverworldElision {
    /// Write the IDs and names of all dimensions.
    AlwaysWrite,
    /// Never write the ID or name of the Overworld; only write those of other dimensions.
    AlwaysElide,
    /// Elide the ID or name of the Overworld if and only if the optional dimension is `None`.
    MatchElision,
}

} // verus!
