//! The formats named in the header of a version's translation data, and the metadata they
//! describe.

use vstd::prelude::*;

use std::collections::{HashMap, HashSet};

use crate::translation::datatypes::{GameVersion, NamespacedIdentifier, NumericVersion, VersionName};

verus! {

/// The metadata of a version of the game in the translation data.
#[derive(Debug, Clone, PartialEq, Eq)]
pub struct VersionMetadata {
    pub block_format: BlockFormat,
    pub block_entity_format: BlockEntityFormat,
    pub block_entity_coord_format: BlockEntityCoordFormat,
    pub entity_format: EntityFormat,
    pub entity_coord_format: EntityCoordFormat,
    pub data_version: Option<u64>,
    pub version: GameVersion,
}

/// The biomes of a version: their numbers and their universal counterparts.
pub struct BiomeMap {
    pub biome_to_number: HashMap<NamespacedIdentifier, Option<u16>>,
    pub number_to_biome: HashMap<u16, NamespacedIdentifier>,
    /// Plains if present, else 0
    pub default_biome_number: u16,
    pub to_universal: HashMap<NamespacedIdentifier, NamespacedIdentifier>,
    pub from_universal: HashMap<NamespacedIdentifier, NamespacedIdentifier>,
}

/// The numbers of the blocks of a version whose blocks are numerical.
pub struct NumericalBlockMap {
    pub to_number: HashMap<NamespacedIdentifier, u16>,
    pub to_identifier: Vec<Option<NamespacedIdentifier>>,
    /// Air if present, else 0
    pub default_block_number: u16,
}

/// Which blocks of a version can be waterlogged, and which always are.
pub struct WaterloggingInfo {
    pub waterloggable: HashSet<NamespacedIdentifier>,
    pub always_waterlogged: HashSet<NamespacedIdentifier>,
}

#[derive(Debug, Clone, Copy, PartialEq, Eq, Structural)]
pub enum BlockFormat {
    Numerical,
    PseudoNumerical,
    Blockstate,
    NbtBlockstate,
}

#[derive(Debug, Clone, Copy, PartialEq, Eq, Structural)]
pub enum BlockEntityFormat {
    NamespaceStrId,
    StrId,
}

#[derive(Debug, Clone, Copy, PartialEq, Eq, Structural)]
pub enum BlockEntityCoordFormat {
    IntXYZ,
}

#[derive(Debug, Clone, Copy, PartialEq, Eq, Structural)]
pub enum EntityFormat {
    NamespaceStrId,
}

#[derive(Debug, Clone, Copy, PartialEq, Eq, Structural)]
pub enum EntityCoordFormat {
    PosListFloat,
}

#[derive(Debug, Clone, Copy, PartialEq, Eq, Structural)]
pub enum Platform {
    Bedrock,
    Java,
    Universal,
}

/// The component at `i` of `version`, or zero where it is missing.
pub open spec fn spec_version_component(version: Seq<u32>, i: int) -> u32 {
    if i < version.len() {
        version[i]
    } else {
        0
    }
}

impl VersionMetadata {
    /// The metadata from the parsed header fields: the game version is the platform's, with
    /// the first three numbers of `version` (missing ones being zero) as major, minor and
    /// patch, or the Universal version.
    pub fn from_header(
        block_format: BlockFormat,
        block_entity_format: BlockEntityFormat,
        block_entity_coord_format: BlockEntityCoordFormat,
        entity_format: EntityFormat,
        entity_coord_format: EntityCoordFormat,
        platform: Platform,
        version: &[u32],
        data_version: Option<u64>,
    ) -> (res: Self)
        ensures
            res.block_format == block_format,
            res.block_entity_format == block_entity_format,
            res.block_entity_coord_format == block_entity_coord_format,
            res.entity_format == entity_format,
            res.entity_coord_format == entity_coord_format,
            res.data_version == data_version,
            ({
                let name = VersionName::Numeric(
                    NumericVersion(
                        spec_version_component(version@, 0),
                        spec_version_component(version@, 1),
                        spec_version_component(version@, 2),
                        0,
                        0,
                    ),
                );
                res.version == match platform {
                    Platform::Universal => GameVersion::Universal,
                    Platform::Bedrock => GameVersion::Bedrock(name),
                    Platform::Java => GameVersion::Java(name),
                }
            }),
    {
        let major = if version.len() > 0 {
            version[0]
        } else {
            0
        };
        let minor = if version.len() > 1 {
            version[1]
        } else {
            0
        };
        let patch = if version.len() > 2 {
            version[2]
        } else {
            0
        };
        let version_name = VersionName::numeric(major, minor, patch);
        let game_version = match platform {
            Platform::Universal => GameVersion::Universal,
            Platform::Bedrock => GameVersion::Bedrock(version_name),
            Platform::Java => GameVersion::Java(version_name),
        };
        VersionMetadata {
            block_format,
            block_entity_format,
            block_entity_coord_format,
            entity_format,
            entity_coord_format,
            data_version,
            version: game_version,
        }
    }
}

} // verus!
