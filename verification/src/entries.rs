//! Options and errors for turning Bedrock Edition LevelDB entries into bytes and back.

use vstd::prelude::*;

use crate::translation::datatypes::{spec_version_lt, version_lt, NumericVersion};
use crate::values::hardcoded_spawners::SpawnersToBytesError;
use crate::values::{
    DataFidelity, HandleExcessiveLength, OverworldElision, ValueParseOptions, ValueToBytesOptions,
};

verus! {

/// The raw key and value of a LevelDB entry.
#[derive(Debug, Clone, PartialEq, Eq)]
pub struct EntryBytes {
    pub key: Vec<u8>,
    pub value: Vec<u8>,
}

/// Options for parsing LevelDB entries.
#[derive(Debug, Clone, Copy, PartialEq, Eq, Structural)]
pub struct EntryParseOptions {
    /// The data fidelity of entry values; does not affect keys.
    pub value_fidelity: DataFidelity,
}

impl From<EntryParseOptions> for ValueParseOptions {
    fn from(opts: EntryParseOptions) -> (res: ValueParseOptions) {
        ValueParseOptions { data_fidelity: opts.value_fidelity }
    }
}

impl vstd::std_specs::convert::FromSpecImpl<EntryParseOptions> for ValueParseOptions {
    open spec fn obeys_from_spec() -> bool {
        true
    }

    open spec fn from_spec(opts: EntryParseOptions) -> ValueParseOptions {
        ValueParseOptions { data_fidelity: opts.value_fidelity }
    }
}

/// Settings for converting a `DBKey` into raw key bytes for use in a LevelDB.
#[derive(Debug, Clone, Copy, PartialEq, Eq, Structural)]
pub struct KeyToBytesOptions {
    pub write_overworld_id: OverworldElision,
    pub write_overworld_name: OverworldElision,
}

/// The first game version in which the name of the Overworld is written in keys: 1.20.40.
pub open spec fn spec_overworld_name_version() -> NumericVersion {
    NumericVersion(1, 20, 40, 0, 0)
}

impl KeyToBytesOptions {
    /// This provides options corresponding to Minecraft's behavior up to at least 1.21.51:
    /// the Overworld's ID is always elided, and its name is elided before 1.20.40 and written
    /// from then on.
    pub fn for_version(version: NumericVersion) -> (res: Self)
        ensures
            res.write_overworld_id == OverworldElision::AlwaysElide,
            res.write_overworld_name == if spec_version_lt(version, spec_overworld_name_version()) {
                OverworldElision::AlwaysElide
            } else {
                OverworldElision::AlwaysWrite
            },
    {
        if version_lt(version, NumericVersion(1, 20, 40, 0, 0)) {
            KeyToBytesOptions {
                write_overworld_id: OverworldElision::AlwaysElide,
                write_overworld_name: OverworldElision::AlwaysElide,
            }
        } else {
            KeyToBytesOptions {
                write_overworld_id: OverworldElision::AlwaysElide,
                write_overworld_name: OverworldElision::AlwaysWrite,
            }
        }
    }
}

/// Settings for converting a `DBEntry`
/// into raw key and value bytes for use in a LevelDB.
///
/// The best choice is
/// - `write_overworld_id = AlwaysElide` for all current versions (up to at least 1.21.51),
/// - `write_overworld_name = AlwaysElide` for any version below 1.20.40, and conversely
/// - `write_overworld_name = AlwaysWrite` for any version at or above 1.20.40.
/// - `handle_excessive_length = ReturnError`, unless you have cause to write weirdly massive data.
/// - `value_fidelity = DataFidelity::Semantic`, unless running tests.
#[derive(Debug, Clone, Copy, PartialEq, Eq, Structural)]
pub struct EntryToBytesOptions {
    pub write_overworld_id: OverworldElision,
    pub write_overworld_name: OverworldElision,
    pub handle_excessive_length: HandleExcessiveLength,
    /// The data fidelity of entry values; does not affect keys.
    pub value_fidelity: DataFidelity,
}

impl EntryToBytesOptions {
    /// The key options of `KeyToBytesOptions::for_version`, returning an error on excessive
    /// lengths, and semantic value fidelity.
    pub fn for_version(version: NumericVersion) -> (res: Self)
        ensures
            res.write_overworld_id == OverworldElision::AlwaysElide,
            res.write_overworld_name == if spec_version_lt(version, spec_overworld_name_version()) {
                OverworldElision::AlwaysElide
            } else {
                OverworldElision::AlwaysWrite
            },
            res.handle_excessive_length == HandleExcessiveLength::ReturnError,
            res.value_fidelity == DataFidelity::Semantic,
    {
        let KeyToBytesOptions { write_overworld_id, write_overworld_name } =
            KeyToBytesOptions::for_version(version);
        EntryToBytesOptions {
            write_overworld_id,
            write_overworld_name,
            handle_excessive_length: HandleExcessiveLength::ReturnError,
            value_fidelity: DataFidelity::Semantic,
        }
    }
}

impl From<EntryToBytesOptions> for KeyToBytesOptions {
    fn from(opts: EntryToBytesOptions) -> (res: KeyToBytesOptions) {
        KeyToBytesOptions {
            write_overworld_id: opts.write_overworld_id,
            write_overworld_name: opts.write_overworld_name,
        }
    }
}

impl vstd::std_specs::convert::FromSpecImpl<EntryToBytesOptions> for KeyToBytesOptions {
    open spec fn obeys_from_spec() -> bool {
        true
    }

    open spec fn from_spec(opts: EntryToBytesOptions) -> KeyToBytesOptions {
        KeyToBytesOptions {
            write_overworld_id: opts.write_overworld_id,
            write_overworld_name: opts.write_overworld_name,
        }
    }
}

impl From<EntryToBytesOptions> for ValueToBytesOptions {
    fn from(opts: EntryToBytesOptions) -> (res: ValueToBytesOptions) {
        ValueToBytesOptions {
            handle_excessive_length: opts.handle_excessive_length,
            data_fidelity: opts.value_fidelity,
        }
    }
}

impl vstd::std_specs::convert::FromSpecImpl<EntryToBytesOptions> for ValueToBytesOptions {
    open spec fn obeys_from_spec() -> bool {
        true
    }

    open spec fn from_spec(opts: EntryToBytesOptions) -> ValueToBytesOptions {
        ValueToBytesOptions {
            handle_excessive_length: opts.handle_excessive_length,
            data_fidelity: opts.value_fidelity,
        }
    }
}

/// An error while converting the value of an entry to bytes.
#[derive(Debug, Clone, Copy, PartialEq, Eq, Structural)]
pub enum ValueToBytesError {
    /// There were too many metadata entries in a `LevelChunkMetaDataDictionary`.
    DictionaryLength,
    /// There were too many entries in a `Checksums` value.
    ChecksumsLength,
    /// There were too many entries in a `HardcodedSpawners` value.
    SpawnersLength,
}

impl From<SpawnersToBytesError> for ValueToBytesError {
    fn from(value: SpawnersToBytesError) -> (res: ValueToBytesError) {
        match value {
            SpawnersToBytesError::ExcessiveLength => ValueToBytesError::SpawnersLength,
        }
    }
}

impl vstd::std_specs::convert::FromSpecImpl<SpawnersToBytesError> for ValueToBytesError {
    open spec fn obeys_from_spec() -> bool {
        true
    }

    open spec fn from_spec(value: SpawnersToBytesError) -> ValueToBytesError {
        ValueToBytesError::SpawnersLength
    }
}

/// An error while converting an entry's value to bytes, with the bytes of its key.
#[derive(Debug)]
pub struct EntryToBytesError {
    pub key: Vec<u8>,
    pub value_error: ValueToBytesError,
}


/// The Overworld's name is written in keys from game version 1.20.40 on.
pub proof fn lemma_overworld_name_version()
    ensures
        spec_overworld_name_version() == NumericVersion(1, 20, 40, 0, 0),
{
}

} // verus!
