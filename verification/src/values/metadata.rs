//! The kinds of chunk metadata, and the values of some of them.

use vstd::prelude::*;

use crate::iron_nbt::tag::{lemma_entry_values_index, spec_entry_values, NbtCompound, NbtTag, TagValue};
use crate::text::str_eq;
use crate::values::dimensions::{lemma_vanilla_bedrock_name_roundtrip, NamedDimension, VanillaDimension};

verus! {

/// A kind of chunk metadata.
#[derive(Debug, Clone, Copy, PartialEq, Eq, PartialOrd, Ord, Hash, Structural)]
pub enum MetaDataType {
    LastSavedBaseGameVersion,
    OriginalBaseGameVersion,
    BiomeBaseGameVersion,
    DimensionName,
    GenerationSeed,
    GeneratorType,
    WorldGen1_18AppliedBelow0,
    Overworld1_18HeightExtended,
    BlendingVersion,
    OriginalDimensionHeightRange,
    LastSavedDimensionHeightRange,
    UnderwaterLavaLakeFixed,
    WorldGenBelowZeroFixed,
    SkullFlatteningPerformed,
}

impl MetaDataType {
    /// The number that stands for this value.
    pub open spec fn spec_to_u8(self) -> u8 {
        match self {
            MetaDataType::LastSavedBaseGameVersion => 0u8,
            MetaDataType::OriginalBaseGameVersion => 1u8,
            MetaDataType::BiomeBaseGameVersion => 2u8,
            MetaDataType::DimensionName => 3u8,
            MetaDataType::GenerationSeed => 4u8,
            MetaDataType::GeneratorType => 5u8,
            MetaDataType::WorldGen1_18AppliedBelow0 => 6u8,
            MetaDataType::Overworld1_18HeightExtended => 7u8,
            MetaDataType::BlendingVersion => 8u8,
            MetaDataType::OriginalDimensionHeightRange => 9u8,
            MetaDataType::LastSavedDimensionHeightRange => 10u8,
            MetaDataType::UnderwaterLavaLakeFixed => 11u8,
            MetaDataType::WorldGenBelowZeroFixed => 12u8,
            MetaDataType::SkullFlatteningPerformed => 13u8,
        }
    }

    /// The value that a number stands for, if any.
    pub open spec fn spec_from_u8(value: u8) -> Option<MetaDataType> {
        if value == 0u8 {
            Some(MetaDataType::LastSavedBaseGameVersion)
        } else if value == 1u8 {
            Some(MetaDataType::OriginalBaseGameVersion)
        } else if value == 2u8 {
            Some(MetaDataType::BiomeBaseGameVersion)
        } else if value == 3u8 {
            Some(MetaDataType::DimensionName)
        } else if value == 4u8 {
            Some(MetaDataType::GenerationSeed)
        } else if value == 5u8 {
            Some(MetaDataType::GeneratorType)
        } else if value == 6u8 {
            Some(MetaDataType::WorldGen1_18AppliedBelow0)
        } else if value == 7u8 {
            Some(MetaDataType::Overworld1_18HeightExtended)
        } else if value == 8u8 {
            Some(MetaDataType::BlendingVersion)
        } else if value == 9u8 {
            Some(MetaDataType::OriginalDimensionHeightRange)
        } else if value == 10u8 {
            Some(MetaDataType::LastSavedDimensionHeightRange)
        } else if value == 11u8 {
            Some(MetaDataType::UnderwaterLavaLakeFixed)
        } else if value == 12u8 {
            Some(MetaDataType::WorldGenBelowZeroFixed)
        } else if value == 13u8 {
            Some(MetaDataType::SkullFlatteningPerformed)
        } else {
            None
        }
    }

    /// The number that stands for this value.
    pub fn to_u8(&self) -> (res: u8)
        ensures
            res == self.spec_to_u8(),
    {
        match self {
            MetaDataType::LastSavedBaseGameVersion => 0u8,
            MetaDataType::OriginalBaseGameVersion => 1u8,
            MetaDataType::BiomeBaseGameVersion => 2u8,
            MetaDataType::DimensionName => 3u8,
            MetaDataType::GenerationSeed => 4u8,
            MetaDataType::GeneratorType => 5u8,
            MetaDataType::WorldGen1_18AppliedBelow0 => 6u8,
            MetaDataType::Overworld1_18HeightExtended => 7u8,
            MetaDataType::BlendingVersion => 8u8,
            MetaDataType::OriginalDimensionHeightRange => 9u8,
            MetaDataType::LastSavedDimensionHeightRange => 10u8,
            MetaDataType::UnderwaterLavaLakeFixed => 11u8,
            MetaDataType::WorldGenBelowZeroFixed => 12u8,
            MetaDataType::SkullFlatteningPerformed => 13u8,
        }
    }

    /// The value that a number stands for, if any.
    pub fn from_u8(value: u8) -> (res: Option<Self>)
        ensures
            res == Self::spec_from_u8(value),
    {
        if value == 0u8 {
            Some(MetaDataType::LastSavedBaseGameVersion)
        } else if value == 1u8 {
            Some(MetaDataType::OriginalBaseGameVersion)
        } else if value == 2u8 {
            Some(MetaDataType::BiomeBaseGameVersion)
        } else if value == 3u8 {
            Some(MetaDataType::DimensionName)
        } else if value == 4u8 {
            Some(MetaDataType::GenerationSeed)
        } else if value == 5u8 {
            Some(MetaDataType::GeneratorType)
        } else if value == 6u8 {
            Some(MetaDataType::WorldGen1_18AppliedBelow0)
        } else if value == 7u8 {
            Some(MetaDataType::Overworld1_18HeightExtended)
        } else if value == 8u8 {
            Some(MetaDataType::BlendingVersion)
        } else if value == 9u8 {
            Some(MetaDataType::OriginalDimensionHeightRange)
        } else if value == 10u8 {
            Some(MetaDataType::LastSavedDimensionHeightRange)
        } else if value == 11u8 {
            Some(MetaDataType::UnderwaterLavaLakeFixed)
        } else if value == 12u8 {
            Some(MetaDataType::WorldGenBelowZeroFixed)
        } else if value == 13u8 {
            Some(MetaDataType::SkullFlatteningPerformed)
        } else {
            None
        }
    }
}

impl From<MetaDataType> for u8 {
    fn from(value: MetaDataType) -> (res: u8) {
        value.to_u8()
    }
}

impl vstd::std_specs::convert::FromSpecImpl<MetaDataType> for u8 {
    open spec fn obeys_from_spec() -> bool {
        true
    }

    open spec fn from_spec(value: MetaDataType) -> u8 {
        value.spec_to_u8()
    }
}

impl TryFrom<u8> for MetaDataType {
    type Error = ();

    fn try_from(value: u8) -> (res: Result<Self, ()>) {
        match MetaDataType::from_u8(value) {
            Some(v) => Ok(v),
            None => Err(()),
        }
    }
}

impl vstd::std_specs::convert::TryFromSpecImpl<u8> for MetaDataType {
    open spec fn obeys_try_from_spec() -> bool {
        true
    }

    open spec fn try_from_spec(value: u8) -> Result<MetaDataType, ()> {
        match MetaDataType::spec_from_u8(value) {
            Some(v) => Ok(v),
            None => Err(()),
        }
    }
}

/// Reading back the number of a value gives that value, and a number that stands for a value
/// is that value's number.
pub proof fn lemma_meta_data_type_u8_roundtrip(v: MetaDataType, n: u8)
    ensures
        MetaDataType::spec_from_u8(v.spec_to_u8()) == Some(v),
        MetaDataType::spec_from_u8(n) matches Some(w) ==> w.spec_to_u8() == n,
{
}

impl MetaDataType {
    /// The name of this kind of metadata in NBT.
    pub open spec fn spec_name(self) -> Seq<char> {
        match self {
            MetaDataType::LastSavedBaseGameVersion => "LastSavedBaseGameVersion"@,
            MetaDataType::OriginalBaseGameVersion => "OriginalBaseGameVersion"@,
            MetaDataType::BiomeBaseGameVersion => "BiomeBaseGameVersion"@,
            MetaDataType::DimensionName => "DimensionName"@,
            MetaDataType::GenerationSeed => "GenerationSeed"@,
            MetaDataType::GeneratorType => "GeneratorType"@,
            MetaDataType::WorldGen1_18AppliedBelow0 => "WorldGen1_18AppliedBelow0"@,
            MetaDataType::Overworld1_18HeightExtended => "Overworld1_18HeightExtended"@,
            MetaDataType::BlendingVersion => "BlendingVersion"@,
            MetaDataType::OriginalDimensionHeightRange => "OriginalDimensionHeightRange"@,
            MetaDataType::LastSavedDimensionHeightRange => "LastSavedDimensionHeightRange"@,
            MetaDataType::UnderwaterLavaLakeFixed => "UnderwaterLavaLakeFixed"@,
            MetaDataType::WorldGenBelowZeroFixed => "WorldGenBelowZeroFixed"@,
            MetaDataType::SkullFlatteningPerformed => "SkullFlatteningPerformed"@,
        }
    }

    /// The kind of metadata with the given name in NBT, if any.
    pub open spec fn spec_from_name(name: Seq<char>) -> Option<MetaDataType> {
        if name == "LastSavedBaseGameVersion"@ {
            Some(MetaDataType::LastSavedBaseGameVersion)
        } else if name == "OriginalBaseGameVersion"@ {
            Some(MetaDataType::OriginalBaseGameVersion)
        } else if name == "BiomeBaseGameVersion"@ {
            Some(MetaDataType::BiomeBaseGameVersion)
        } else if name == "DimensionName"@ {
            Some(MetaDataType::DimensionName)
        } else if name == "GenerationSeed"@ {
            Some(MetaDataType::GenerationSeed)
        } else if name == "GeneratorType"@ {
            Some(MetaDataType::GeneratorType)
        } else if name == "WorldGen1_18AppliedBelow0"@ {
            Some(MetaDataType::WorldGen1_18AppliedBelow0)
        } else if name == "Overworld1_18HeightExtended"@ {
            Some(MetaDataType::Overworld1_18HeightExtended)
        } else if name == "BlendingVersion"@ {
            Some(MetaDataType::BlendingVersion)
        } else if name == "OriginalDimensionHeightRange"@ {
            Some(MetaDataType::OriginalDimensionHeightRange)
        } else if name == "LastSavedDimensionHeightRange"@ {
            Some(MetaDataType::LastSavedDimensionHeightRange)
        } else if name == "UnderwaterLavaLakeFixed"@ {
            Some(MetaDataType::UnderwaterLavaLakeFixed)
        } else if name == "WorldGenBelowZeroFixed"@ {
            Some(MetaDataType::WorldGenBelowZeroFixed)
        } else if name == "SkullFlatteningPerformed"@ {
            Some(MetaDataType::SkullFlatteningPerformed)
        } else {
            None
        }
    }

    /// The name of this kind of metadata in NBT, as a string slice.
    pub open spec fn spec_name_str(self) -> &'static str {
        match self {
            MetaDataType::LastSavedBaseGameVersion => "LastSavedBaseGameVersion",
            MetaDataType::OriginalBaseGameVersion => "OriginalBaseGameVersion",
            MetaDataType::BiomeBaseGameVersion => "BiomeBaseGameVersion",
            MetaDataType::DimensionName => "DimensionName",
            MetaDataType::GenerationSeed => "GenerationSeed",
            MetaDataType::GeneratorType => "GeneratorType",
            MetaDataType::WorldGen1_18AppliedBelow0 => "WorldGen1_18AppliedBelow0",
            MetaDataType::Overworld1_18HeightExtended => "Overworld1_18HeightExtended",
            MetaDataType::BlendingVersion => "BlendingVersion",
            MetaDataType::OriginalDimensionHeightRange => "OriginalDimensionHeightRange",
            MetaDataType::LastSavedDimensionHeightRange => "LastSavedDimensionHeightRange",
            MetaDataType::UnderwaterLavaLakeFixed => "UnderwaterLavaLakeFixed",
            MetaDataType::WorldGenBelowZeroFixed => "WorldGenBelowZeroFixed",
            MetaDataType::SkullFlatteningPerformed => "SkullFlatteningPerformed",
        }
    }

    /// The name of this kind of metadata in NBT.
    pub fn name(self) -> (res: &'static str)
        ensures
            res@ == self.spec_name(),
            res == self.spec_name_str(),
    {
        match self {
            MetaDataType::LastSavedBaseGameVersion => "LastSavedBaseGameVersion",
            MetaDataType::OriginalBaseGameVersion => "OriginalBaseGameVersion",
            MetaDataType::BiomeBaseGameVersion => "BiomeBaseGameVersion",
            MetaDataType::DimensionName => "DimensionName",
            MetaDataType::GenerationSeed => "GenerationSeed",
            MetaDataType::GeneratorType => "GeneratorType",
            MetaDataType::WorldGen1_18AppliedBelow0 => "WorldGen1_18AppliedBelow0",
            MetaDataType::Overworld1_18HeightExtended => "Overworld1_18HeightExtended",
            MetaDataType::BlendingVersion => "BlendingVersion",
            MetaDataType::OriginalDimensionHeightRange => "OriginalDimensionHeightRange",
            MetaDataType::LastSavedDimensionHeightRange => "LastSavedDimensionHeightRange",
            MetaDataType::UnderwaterLavaLakeFixed => "UnderwaterLavaLakeFixed",
            MetaDataType::WorldGenBelowZeroFixed => "WorldGenBelowZeroFixed",
            MetaDataType::SkullFlatteningPerformed => "SkullFlatteningPerformed",
        }
    }

    /// The kind of metadata with the given name in NBT, if any.
    pub fn from_name(name: &str) -> (res: Option<Self>)
        ensures
            res == Self::spec_from_name(name@),
    {
        if str_eq(name, "LastSavedBaseGameVersion") {
            Some(MetaDataType::LastSavedBaseGameVersion)
        } else if str_eq(name, "OriginalBaseGameVersion") {
            Some(MetaDataType::OriginalBaseGameVersion)
        } else if str_eq(name, "BiomeBaseGameVersion") {
            Some(MetaDataType::BiomeBaseGameVersion)
        } else if str_eq(name, "DimensionName") {
            Some(MetaDataType::DimensionName)
        } else if str_eq(name, "GenerationSeed") {
            Some(MetaDataType::GenerationSeed)
        } else if str_eq(name, "GeneratorType") {
            Some(MetaDataType::GeneratorType)
        } else if str_eq(name, "WorldGen1_18AppliedBelow0") {
            Some(MetaDataType::WorldGen1_18AppliedBelow0)
        } else if str_eq(name, "Overworld1_18HeightExtended") {
            Some(MetaDataType::Overworld1_18HeightExtended)
        } else if str_eq(name, "BlendingVersion") {
            Some(MetaDataType::BlendingVersion)
        } else if str_eq(name, "OriginalDimensionHeightRange") {
            Some(MetaDataType::OriginalDimensionHeightRange)
        } else if str_eq(name, "LastSavedDimensionHeightRange") {
            Some(MetaDataType::LastSavedDimensionHeightRange)
        } else if str_eq(name, "UnderwaterLavaLakeFixed") {
            Some(MetaDataType::UnderwaterLavaLakeFixed)
        } else if str_eq(name, "WorldGenBelowZeroFixed") {
            Some(MetaDataType::WorldGenBelowZeroFixed)
        } else if str_eq(name, "SkullFlatteningPerformed") {
            Some(MetaDataType::SkullFlatteningPerformed)
        } else {
            None
        }
    }
}

impl From<MetaDataType> for &'static str {
    fn from(value: MetaDataType) -> (res: &'static str)
        ensures
            res@ == value.spec_name(),
    {
        value.name()
    }
}

impl vstd::std_specs::convert::FromSpecImpl<MetaDataType> for &'static str {
    open spec fn obeys_from_spec() -> bool {
        true
    }

    open spec fn from_spec(value: MetaDataType) -> &'static str {
        value.spec_name_str()
    }
}

impl<'a> TryFrom<&'a str> for MetaDataType {
    type Error = ();

    fn try_from(value: &'a str) -> (res: Result<Self, ()>) {
        match MetaDataType::from_name(value) {
            Some(v) => Ok(v),
            None => Err(()),
        }
    }
}

impl<'a> vstd::std_specs::convert::TryFromSpecImpl<&'a str> for MetaDataType {
    open spec fn obeys_try_from_spec() -> bool {
        true
    }

    open spec fn try_from_spec(value: &'a str) -> Result<MetaDataType, ()> {
        match MetaDataType::spec_from_name(value@) {
            Some(v) => Ok(v),
            None => Err(()),
        }
    }
}

/// Reading back the name of a kind of metadata gives that kind.
pub proof fn lemma_meta_data_type_name_roundtrip(v: MetaDataType)
    ensures
        MetaDataType::spec_from_name(v.spec_name()) == Some(v),
{
    reveal_strlit("LastSavedBaseGameVersion");
    assert("LastSavedBaseGameVersion"@.len() == 24 && "LastSavedBaseGameVersion"@[0] == 'L');
    reveal_strlit("OriginalBaseGameVersion");
    assert("OriginalBaseGameVersion"@.len() == 23 && "OriginalBaseGameVersion"@[0] == 'O');
    reveal_strlit("BiomeBaseGameVersion");
    assert("BiomeBaseGameVersion"@.len() == 20 && "BiomeBaseGameVersion"@[0] == 'B');
    reveal_strlit("DimensionName");
    assert("DimensionName"@.len() == 13 && "DimensionName"@[0] == 'D');
    reveal_strlit("GenerationSeed");
    assert("GenerationSeed"@.len() == 14 && "GenerationSeed"@[0] == 'G');
    reveal_strlit("GeneratorType");
    assert("GeneratorType"@.len() == 13 && "GeneratorType"@[0] == 'G');
    reveal_strlit("WorldGen1_18AppliedBelow0");
    assert("WorldGen1_18AppliedBelow0"@.len() == 25 && "WorldGen1_18AppliedBelow0"@[0] == 'W');
    reveal_strlit("Overworld1_18HeightExtended");
    assert("Overworld1_18HeightExtended"@.len() == 27 && "Overworld1_18HeightExtended"@[0] == 'O');
    reveal_strlit("BlendingVersion");
    assert("BlendingVersion"@.len() == 15 && "BlendingVersion"@[0] == 'B');
    reveal_strlit("OriginalDimensionHeightRange");
    assert("OriginalDimensionHeightRange"@.len() == 28 && "OriginalDimensionHeightRange"@[0] == 'O');
    reveal_strlit("LastSavedDimensionHeightRange");
    assert("LastSavedDimensionHeightRange"@.len() == 29 && "LastSavedDimensionHeightRange"@[0] == 'L');
    reveal_strlit("UnderwaterLavaLakeFixed");
    assert("UnderwaterLavaLakeFixed"@.len() == 23 && "UnderwaterLavaLakeFixed"@[0] == 'U');
    reveal_strlit("WorldGenBelowZeroFixed");
    assert("WorldGenBelowZeroFixed"@.len() == 22 && "WorldGenBelowZeroFixed"@[0] == 'W');
    reveal_strlit("SkullFlatteningPerformed");
    assert("SkullFlatteningPerformed"@.len() == 24 && "SkullFlatteningPerformed"@[0] == 'S');
}

/// The version of chunk blending.
#[derive(Debug, Clone, Copy, PartialEq, Eq, Structural)]
pub enum BlendingVersion {
    V1_19_0,
    V1_19_0_1,
    V1_19_0_2,
    V1_19_0_3,
    V1_20_0,
    V1_20_0_1,
    V1_21_50,
    V1_21_60,
}

impl BlendingVersion {
    /// The number that stands for this value.
    pub open spec fn spec_to_i16(self) -> i16 {
        match self {
            BlendingVersion::V1_19_0 => 0i16,
            BlendingVersion::V1_19_0_1 => 1i16,
            BlendingVersion::V1_19_0_2 => 2i16,
            BlendingVersion::V1_19_0_3 => 3i16,
            BlendingVersion::V1_20_0 => 4i16,
            BlendingVersion::V1_20_0_1 => 5i16,
            BlendingVersion::V1_21_50 => 6i16,
            BlendingVersion::V1_21_60 => 7i16,
        }
    }

    /// The value that a number stands for, if any.
    pub open spec fn spec_from_i16(value: i16) -> Option<BlendingVersion> {
        if value == 0i16 {
            Some(BlendingVersion::V1_19_0)
        } else if value == 1i16 {
            Some(BlendingVersion::V1_19_0_1)
        } else if value == 2i16 {
            Some(BlendingVersion::V1_19_0_2)
        } else if value == 3i16 {
            Some(BlendingVersion::V1_19_0_3)
        } else if value == 4i16 {
            Some(BlendingVersion::V1_20_0)
        } else if value == 5i16 {
            Some(BlendingVersion::V1_20_0_1)
        } else if value == 6i16 {
            Some(BlendingVersion::V1_21_50)
        } else if value == 7i16 {
            Some(BlendingVersion::V1_21_60)
        } else {
            None
        }
    }

    /// The number that stands for this value.
    pub fn to_i16(&self) -> (res: i16)
        ensures
            res == self.spec_to_i16(),
    {
        match self {
            BlendingVersion::V1_19_0 => 0i16,
            BlendingVersion::V1_19_0_1 => 1i16,
            BlendingVersion::V1_19_0_2 => 2i16,
            BlendingVersion::V1_19_0_3 => 3i16,
            BlendingVersion::V1_20_0 => 4i16,
            BlendingVersion::V1_20_0_1 => 5i16,
            BlendingVersion::V1_21_50 => 6i16,
            BlendingVersion::V1_21_60 => 7i16,
        }
    }

    /// The value that a number stands for, if any.
    pub fn from_i16(value: i16) -> (res: Option<Self>)
        ensures
            res == Self::spec_from_i16(value),
    {
        if value == 0i16 {
            Some(BlendingVersion::V1_19_0)
        } else if value == 1i16 {
            Some(BlendingVersion::V1_19_0_1)
        } else if value == 2i16 {
            Some(BlendingVersion::V1_19_0_2)
        } else if value == 3i16 {
            Some(BlendingVersion::V1_19_0_3)
        } else if value == 4i16 {
            Some(BlendingVersion::V1_20_0)
        } else if value == 5i16 {
            Some(BlendingVersion::V1_20_0_1)
        } else if value == 6i16 {
            Some(BlendingVersion::V1_21_50)
        } else if value == 7i16 {
            Some(BlendingVersion::V1_21_60)
        } else {
            None
        }
    }
}

impl From<BlendingVersion> for i16 {
    fn from(value: BlendingVersion) -> (res: i16) {
        value.to_i16()
    }
}

impl vstd::std_specs::convert::FromSpecImpl<BlendingVersion> for i16 {
    open spec fn obeys_from_spec() -> bool {
        true
    }

    open spec fn from_spec(value: BlendingVersion) -> i16 {
        value.spec_to_i16()
    }
}

impl TryFrom<i16> for BlendingVersion {
    type Error = ();

    fn try_from(value: i16) -> (res: Result<Self, ()>) {
        match BlendingVersion::from_i16(value) {
            Some(v) => Ok(v),
            None => Err(()),
        }
    }
}

impl vstd::std_specs::convert::TryFromSpecImpl<i16> for BlendingVersion {
    open spec fn obeys_try_from_spec() -> bool {
        true
    }

    open spec fn try_from_spec(value: i16) -> Result<BlendingVersion, ()> {
        match BlendingVersion::spec_from_i16(value) {
            Some(v) => Ok(v),
            None => Err(()),
        }
    }
}

/// Reading back the number of a value gives that value, and a number that stands for a value
/// is that value's number.
pub proof fn lemma_blending_version_i16_roundtrip(v: BlendingVersion, n: i16)
    ensures
        BlendingVersion::spec_from_i16(v.spec_to_i16()) == Some(v),
        BlendingVersion::spec_from_i16(n) matches Some(w) ==> w.spec_to_i16() == n,
{
}

/// The kind of world generator.
#[derive(Debug, Clone, Copy, PartialEq, Eq, Structural)]
pub enum GeneratorType {
    Old,
    Infinite,
    Flat,
}

impl GeneratorType {
    /// The number that stands for this value.
    pub open spec fn spec_to_i32(self) -> i32 {
        match self {
            GeneratorType::Old => 0i32,
            GeneratorType::Infinite => 1i32,
            GeneratorType::Flat => 2i32,
        }
    }

    /// The value that a number stands for, if any.
    pub open spec fn spec_from_i32(value: i32) -> Option<GeneratorType> {
        if value == 0i32 {
            Some(GeneratorType::Old)
        } else if value == 1i32 {
            Some(GeneratorType::Infinite)
        } else if value == 2i32 {
            Some(GeneratorType::Flat)
        } else {
            None
        }
    }

    /// The number that stands for this value.
    pub fn to_i32(&self) -> (res: i32)
        ensures
            res == self.spec_to_i32(),
    {
        match self {
            GeneratorType::Old => 0i32,
            GeneratorType::Infinite => 1i32,
            GeneratorType::Flat => 2i32,
        }
    }

    /// The value that a number stands for, if any.
    pub fn from_i32(value: i32) -> (res: Option<Self>)
        ensures
            res == Self::spec_from_i32(value),
    {
        if value == 0i32 {
            Some(GeneratorType::Old)
        } else if value == 1i32 {
            Some(GeneratorType::Infinite)
        } else if value == 2i32 {
            Some(GeneratorType::Flat)
        } else {
            None
        }
    }
}

impl From<GeneratorType> for i32 {
    fn from(value: GeneratorType) -> (res: i32) {
        value.to_i32()
    }
}

impl vstd::std_specs::convert::FromSpecImpl<GeneratorType> for i32 {
    open spec fn obeys_from_spec() -> bool {
        true
    }

    open spec fn from_spec(value: GeneratorType) -> i32 {
        value.spec_to_i32()
    }
}

impl TryFrom<i32> for GeneratorType {
    type Error = ();

    fn try_from(value: i32) -> (res: Result<Self, ()>) {
        match GeneratorType::from_i32(value) {
            Some(v) => Ok(v),
            None => Err(()),
        }
    }
}

impl vstd::std_specs::convert::TryFromSpecImpl<i32> for GeneratorType {
    open spec fn obeys_try_from_spec() -> bool {
        true
    }

    open spec fn try_from_spec(value: i32) -> Result<GeneratorType, ()> {
        match GeneratorType::spec_from_i32(value) {
            Some(v) => Ok(v),
            None => Err(()),
        }
    }
}

/// Reading back the number of a value gives that value, and a number that stands for a value
/// is that value's number.
pub proof fn lemma_generator_type_i32_roundtrip(v: GeneratorType, n: i32)
    ensures
        GeneratorType::spec_from_i32(v.spec_to_i32()) == Some(v),
        GeneratorType::spec_from_i32(n) matches Some(w) ==> w.spec_to_i32() == n,
{
}

// ================================
//  Chunk metadata from NBT
// ================================

/// The tag of the last entry named `name`, if any (for a compound, which holds each name
/// once, the tag under that name).
pub open spec fn spec_lookup(entries: Seq<(String, NbtTag)>, name: Seq<char>) -> Option<NbtTag>
    decreases entries.len(),
{
    if entries.len() == 0 {
        None
    } else if entries.last().0@ == name {
        Some(entries.last().1)
    } else {
        spec_lookup(entries.drop_last(), name)
    }
}

/// Looking up in an entry followed by more entries finds it in the later ones first.
proof fn lemma_lookup_prepend(e: (String, NbtTag), rest: Seq<(String, NbtTag)>, name: Seq<char>)
    ensures
        spec_lookup(seq![e] + rest, name) == match spec_lookup(rest, name) {
            Some(t) => Some(t),
            None => if e.0@ == name {
                Some(e.1)
            } else {
                None
            },
        },
    decreases rest.len(),
{
    let all = seq![e] + rest;
    if rest.len() > 0 {
        assert(all.drop_last() =~= seq![e] + rest.drop_last());
        assert(all.last() == rest.last());
        lemma_lookup_prepend(e, rest.drop_last(), name);
    } else {
        assert(all.drop_last() =~= Seq::<(String, NbtTag)>::empty());
        assert(all.last() == e);
        assert(spec_lookup(rest, name) is None);
        assert(spec_lookup(all.drop_last(), name) is None);
    }
}

/// A name names at most one kind of metadata, and the kind that it names has that name.
proof fn lemma_name_kinds(n: Seq<char>, t: MetaDataType)
    ensures
        MetaDataType::spec_from_name(n) == Some(t) <==> n == t.spec_name(),
{
    lemma_meta_data_type_name_roundtrip(t);
}

/// Chunk metadata, as Bedrock Edition stores it in NBT.
#[derive(Debug)]
pub struct MetaData {
    pub last_saved_base_game_version: Option<String>,
    pub original_base_game_version: Option<String>,
    pub biome_base_game_version: Option<String>,
    pub dimension_name: Option<NamedDimension>,
    pub generation_seed: Option<u64>,
    pub generator_type: Option<GeneratorType>,
    pub world_gen_1_18_applied_below_0: Option<bool>,
    pub overworld_1_18_height_extended: Option<bool>,
    pub blending_version: Option<BlendingVersion>,
    pub original_dimension_height_range: Option<core::ops::Range<i16>>,
    pub last_saved_dimension_height_range: Option<core::ops::Range<i16>>,
    pub underwater_lava_lake_fixed: Option<bool>,
    pub world_gen_below_zero_fixed: Option<bool>,
    pub skull_flattening_performed: Option<bool>,
    /// The entries under known names whose tags are not of the expected kind or value, in
    /// the order of their names.
    pub unrecognized: NbtCompound,
}

/// What an optional tag holds.
pub open spec fn spec_opt_value(tag: Option<NbtTag>) -> Option<TagValue> {
    match tag {
        Some(t) => Some(t.value()),
        None => None,
    }
}

/// What the tag of the last entry named `name` holds, if there is one.
pub open spec fn spec_lookup_value(entries: Seq<(String, NbtTag)>, name: Seq<char>) -> Option<
    TagValue,
> {
    spec_opt_value(spec_lookup(entries, name))
}

/// Among named values, the value of the last one named `name`, if any.
pub open spec fn spec_value_lookup(entries: Seq<(Seq<char>, TagValue)>, name: Seq<char>) -> Option<
    TagValue,
>
    decreases entries.len(),
{
    if entries.len() == 0 {
        None
    } else if entries.last().0 == name {
        Some(entries.last().1)
    } else {
        spec_value_lookup(entries.drop_last(), name)
    }
}

/// Looking up among the values of entries finds what the tag found among the entries holds.
proof fn lemma_value_lookup(entries: Seq<(String, NbtTag)>, name: Seq<char>)
    ensures
        spec_value_lookup(spec_entry_values(entries), name) == spec_lookup_value(entries, name),
        spec_entry_values(entries).len() == entries.len(),
    decreases entries.len(),
{
    if entries.len() > 0 {
        lemma_value_lookup(entries.drop_last(), name);
        let v = spec_entry_values(entries);
        assert(v.drop_last() =~= spec_entry_values(entries.drop_last()));
    }
}

/// A string's characters.
pub open spec fn spec_string_of(v: Option<TagValue>) -> Option<Seq<char>> {
    match v {
        Some(TagValue::String(s)) => Some(s),
        _ => None,
    }
}

/// A value that is present but not a string.
pub open spec fn spec_not_string(v: Option<TagValue>) -> Option<TagValue> {
    match v {
        Some(TagValue::String(_)) => None,
        other => other,
    }
}

/// A flag stored as a short: 0 is false and 1 is true.
pub open spec fn spec_flag_of(v: Option<TagValue>) -> Option<bool> {
    match v {
        Some(TagValue::Short(x)) => if x == 0 {
            Some(false)
        } else if x == 1 {
            Some(true)
        } else {
            None
        },
        _ => None,
    }
}

/// A value that is present but not a short of 0 or 1.
pub open spec fn spec_not_flag(v: Option<TagValue>) -> Option<TagValue> {
    if spec_flag_of(v) is Some {
        None
    } else {
        v
    }
}

/// The short under `name` among named values, if the value there is a short.
pub open spec fn spec_short_at(entries: Seq<(Seq<char>, TagValue)>, name: Seq<char>) -> Option<i16> {
    match spec_value_lookup(entries, name) {
        Some(TagValue::Short(x)) => Some(x),
        _ => None,
    }
}

/// The range that a compound of exactly two entries, `max` and `min`, both shorts, stands
/// for: its `min` and its `max`.
pub open spec fn spec_range_pair(entries: Seq<(Seq<char>, TagValue)>) -> Option<(i16, i16)> {
    if entries.len() == 2 && spec_short_at(entries, "max"@) is Some && spec_short_at(
        entries,
        "min"@,
    ) is Some {
        Some((spec_short_at(entries, "min"@)->0, spec_short_at(entries, "max"@)->0))
    } else {
        None
    }
}

/// A height range stored as a compound of exactly two entries, `max` and `min`, both shorts.
pub open spec fn spec_range_of(v: Option<TagValue>) -> Option<(i16, i16)> {
    match v {
        Some(TagValue::Compound(entries)) => spec_range_pair(entries),
        _ => None,
    }
}

/// A value that is present but not such a range.
pub open spec fn spec_not_range(v: Option<TagValue>) -> Option<TagValue> {
    if spec_range_of(v) is Some {
        None
    } else {
        v
    }
}

/// A long, as a `u64`.
pub open spec fn spec_seed_of(v: Option<TagValue>) -> Option<u64> {
    match v {
        Some(TagValue::Long(x)) => Some(x as u64),
        _ => None,
    }
}

/// A value that is present but not a long.
pub open spec fn spec_not_long(v: Option<TagValue>) -> Option<TagValue> {
    match v {
        Some(TagValue::Long(_)) => None,
        other => other,
    }
}

/// The generator type stored as an int.
pub open spec fn spec_generator_of(v: Option<TagValue>) -> Option<GeneratorType> {
    match v {
        Some(TagValue::Int(x)) => GeneratorType::spec_from_i32(x),
        _ => None,
    }
}

/// A value that is present but not an int that stands for a generator type.
pub open spec fn spec_not_generator(v: Option<TagValue>) -> Option<TagValue> {
    if spec_generator_of(v) is Some {
        None
    } else {
        v
    }
}

/// The blending version stored as a short.
pub open spec fn spec_blending_of(v: Option<TagValue>) -> Option<BlendingVersion> {
    match v {
        Some(TagValue::Short(x)) => BlendingVersion::spec_from_i16(x),
        _ => None,
    }
}

/// A value that is present but not a short that stands for a blending version.
pub open spec fn spec_not_blending(v: Option<TagValue>) -> Option<TagValue> {
    if spec_blending_of(v) is Some {
        None
    } else {
        v
    }
}

/// The value that is put aside for a kind of metadata, from what the compound holds under
/// its name: what is there, where it does not fit the kind.
pub open spec fn spec_put_aside(t: MetaDataType, v: Option<TagValue>) -> Option<TagValue> {
    match t {
        MetaDataType::LastSavedBaseGameVersion => spec_not_string(v),
        MetaDataType::OriginalBaseGameVersion => spec_not_string(v),
        MetaDataType::BiomeBaseGameVersion => spec_not_string(v),
        MetaDataType::DimensionName => spec_not_string(v),
        MetaDataType::GenerationSeed => spec_not_long(v),
        MetaDataType::GeneratorType => spec_not_generator(v),
        MetaDataType::WorldGen1_18AppliedBelow0 => spec_not_flag(v),
        MetaDataType::Overworld1_18HeightExtended => spec_not_flag(v),
        MetaDataType::BlendingVersion => spec_not_blending(v),
        MetaDataType::OriginalDimensionHeightRange => spec_not_range(v),
        MetaDataType::LastSavedDimensionHeightRange => spec_not_range(v),
        MetaDataType::UnderwaterLavaLakeFixed => spec_not_flag(v),
        MetaDataType::WorldGenBelowZeroFixed => spec_not_flag(v),
        MetaDataType::SkullFlatteningPerformed => spec_not_flag(v),
    }
}

/// The kinds of metadata in the order of their names.
pub open spec fn spec_kinds_by_name() -> Seq<MetaDataType> {
    seq![
        MetaDataType::BiomeBaseGameVersion,
        MetaDataType::BlendingVersion,
        MetaDataType::DimensionName,
        MetaDataType::GenerationSeed,
        MetaDataType::GeneratorType,
        MetaDataType::LastSavedBaseGameVersion,
        MetaDataType::LastSavedDimensionHeightRange,
        MetaDataType::OriginalBaseGameVersion,
        MetaDataType::OriginalDimensionHeightRange,
        MetaDataType::Overworld1_18HeightExtended,
        MetaDataType::SkullFlatteningPerformed,
        MetaDataType::UnderwaterLavaLakeFixed,
        MetaDataType::WorldGen1_18AppliedBelow0,
        MetaDataType::WorldGenBelowZeroFixed,
    ]
}

/// The values put aside, with their names, for the first `n` kinds in the order of their
/// names.
pub open spec fn spec_put_aside_entries(entries: Seq<(String, NbtTag)>, n: nat) -> Seq<
    (Seq<char>, TagValue),
>
    decreases n,
{
    if n == 0 {
        Seq::empty()
    } else {
        let t = spec_kinds_by_name()[n - 1];
        let rest = spec_put_aside_entries(entries, (n - 1) as nat);
        match spec_put_aside(t, spec_lookup_value(entries, t.spec_name())) {
            Some(v) => rest.push((t.spec_name(), v)),
            None => rest,
        }
    }
}

/// The characters of an optional string.
pub open spec fn spec_opt_chars(s: Option<String>) -> Option<Seq<char>> {
    match s {
        Some(s) => Some(s@),
        None => None,
    }
}

/// Take a string from a tag, or set the tag aside.
fn take_string(tag: Option<NbtTag>) -> (res: (Option<String>, Option<NbtTag>))
    ensures
        spec_opt_chars(res.0) == spec_string_of(spec_opt_value(tag)),
        spec_opt_value(res.1) == spec_not_string(spec_opt_value(tag)),
{
    match tag {
        Some(NbtTag::String(s)) => (Some(s), None),
        other => (None, other),
    }
}

/// Take a long, as a `u64`, from a tag, or set the tag aside.
fn take_long(tag: Option<NbtTag>) -> (res: (Option<u64>, Option<NbtTag>))
    ensures
        res.0 == spec_seed_of(spec_opt_value(tag)),
        spec_opt_value(res.1) == spec_not_long(spec_opt_value(tag)),
{
    match tag {
        Some(NbtTag::Long(v)) => (Some(v as u64), None),
        other => (None, other),
    }
}

/// Take a flag from a short of 0 or 1, or set the tag aside.
fn take_flag(tag: Option<NbtTag>) -> (res: (Option<bool>, Option<NbtTag>))
    ensures
        res.0 == spec_flag_of(spec_opt_value(tag)),
        spec_opt_value(res.1) == spec_not_flag(spec_opt_value(tag)),
{
    match tag {
        Some(NbtTag::Short(v)) => if v == 0 {
            (Some(false), None)
        } else if v == 1 {
            (Some(true), None)
        } else {
            (None, Some(NbtTag::Short(v)))
        },
        other => (None, other),
    }
}

/// Take a generator type from an int, or set the tag aside.
fn take_generator(tag: Option<NbtTag>) -> (res: (Option<GeneratorType>, Option<NbtTag>))
    ensures
        res.0 == spec_generator_of(spec_opt_value(tag)),
        spec_opt_value(res.1) == spec_not_generator(spec_opt_value(tag)),
{
    match tag {
        Some(NbtTag::Int(v)) => match GeneratorType::from_i32(v) {
            Some(g) => (Some(g), None),
            None => (None, Some(NbtTag::Int(v))),
        },
        other => (None, other),
    }
}

/// Take a blending version from a short, or set the tag aside.
fn take_blending(tag: Option<NbtTag>) -> (res: (Option<BlendingVersion>, Option<NbtTag>))
    ensures
        res.0 == spec_blending_of(spec_opt_value(tag)),
        spec_opt_value(res.1) == spec_not_blending(spec_opt_value(tag)),
{
    match tag {
        Some(NbtTag::Short(v)) => match BlendingVersion::from_i16(v) {
            Some(b) => (Some(b), None),
            None => (None, Some(NbtTag::Short(v))),
        },
        other => (None, other),
    }
}

/// The short under the last entry named `name`, if the tag there is a short.
fn short_at(entries: &Vec<(String, NbtTag)>, name: &str) -> (res: Option<i16>)
    ensures
        res == spec_short_at(spec_entry_values(entries@), name@),
{
    proof {
        lemma_value_lookup(entries@, name@);
    }
    let mut i = entries.len();
    assert(entries@.subrange(0, entries@.len() as int) =~= entries@);
    while i > 0
        invariant
            i <= entries@.len(),
            spec_value_lookup(spec_entry_values(entries@), name@) == spec_lookup_value(entries@, name@),
            spec_lookup(entries@, name@) == spec_lookup(entries@.subrange(0, i as int), name@),
        decreases i,
    {
        let ghost prefix = entries@.subrange(0, i as int);
        assert(prefix.drop_last() =~= entries@.subrange(0, i - 1));
        if str_eq(entries[i - 1].0.as_str(), name) {
            return match &entries[i - 1].1 {
                NbtTag::Short(v) => Some(*v),
                _ => None,
            };
        }
        i = i - 1;
    }
    None
}

/// Take a height range from a compound of `max` and `min` shorts, or set the tag aside.
fn take_range(tag: Option<NbtTag>) -> (res: (Option<core::ops::Range<i16>>, Option<NbtTag>))
    ensures
        match spec_range_of(spec_opt_value(tag)) {
            Some((min, max)) => res.0 matches Some(r) && r.start == min && r.end == max,
            None => res.0 is None,
        },
        spec_opt_value(res.1) == spec_not_range(spec_opt_value(tag)),
{
    match tag {
        Some(NbtTag::Compound(c)) => {
            proof {
                lemma_value_lookup(c.0@, "max"@);
            }
            if c.0.len() == 2 {
                let max = short_at(&c.0, "max");
                let min = short_at(&c.0, "min");
                proof {
                    reveal_strlit("max");
                    reveal_strlit("min");
                }
                match (min, max) {
                    (Some(min), Some(max)) => {
                        return (Some(core::ops::Range { start: min, end: max }), None);
                    },
                    _ => {},
                }
            }
            (None, Some(NbtTag::Compound(c)))
        },
        other => (None, other),
    }
}

/// The tag under each kind's name, taken from the entries.
fn tags_by_kind(entries: Vec<(String, NbtTag)>) -> (res: Vec<Option<NbtTag>>)
    ensures
        res@.len() == 14,
        forall|t: MetaDataType|
            #[trigger] res@[t.spec_to_u8() as int] == spec_lookup(entries@, t.spec_name()),
{
    let ghost all = entries@;
    let mut entries = entries;
    let mut slots: Vec<Option<NbtTag>> = Vec::new();
    let mut k: usize = 0;
    while k < 14
        invariant
            k <= 14,
            slots@.len() == k,
            forall|j: int| 0 <= j < k ==> slots@[j] is None,
        decreases 14 - k,
    {
        slots.push(None);
        k = k + 1;
    }
    assert(all.subrange(all.len() as int, all.len() as int) =~= Seq::<(String, NbtTag)>::empty());
    assert forall|t: MetaDataType| #[trigger] slots@[t.spec_to_u8() as int] == spec_lookup(
        all.subrange(all.len() as int, all.len() as int),
        t.spec_name(),
    ) by {}
    assert(entries@ =~= all.subrange(0, all.len() as int));
    while entries.len() > 0
        invariant
            entries@.len() <= all.len(),
            entries@ == all.subrange(0, entries@.len() as int),
            slots@.len() == 14,
            forall|t: MetaDataType|
                #[trigger] slots@[t.spec_to_u8() as int] == spec_lookup(
                    all.subrange(entries@.len() as int, all.len() as int),
                    t.spec_name(),
                ),
        decreases entries@.len(),
    {
        let ghost n = entries@.len() as int;
        let ghost e = all[n - 1];
        let ghost old_slots = slots@;
        let popped = entries.pop();
        let (name, tag) = popped.unwrap();
        proof {
            assert(all.subrange(n - 1, all.len() as int) =~= seq![e] + all.subrange(
                n,
                all.len() as int,
            ));
        }
        match MetaDataType::from_name(name.as_str()) {
            Some(kind) => {
                let i = kind.to_u8() as usize;
                if slots[i].is_none() {
                    slots.set(i, Some(tag));
                }
                proof {
                    assert forall|t: MetaDataType| #[trigger] slots@[t.spec_to_u8() as int]
                        == spec_lookup(all.subrange(n - 1, all.len() as int), t.spec_name()) by {
                        lemma_lookup_prepend(e, all.subrange(n, all.len() as int), t.spec_name());
                        lemma_name_kinds(name@, t);
                        lemma_meta_data_type_u8_roundtrip(t, i as u8);
                        lemma_meta_data_type_u8_roundtrip(kind, i as u8);
                    }
                }
            },
            None => {
                proof {
                    assert forall|t: MetaDataType| #[trigger] slots@[t.spec_to_u8() as int]
                        == spec_lookup(all.subrange(n - 1, all.len() as int), t.spec_name()) by {
                        lemma_lookup_prepend(e, all.subrange(n, all.len() as int), t.spec_name());
                        lemma_name_kinds(name@, t);
                    }
                }
            },
        }
    }
    assert(all.subrange(0, all.len() as int) =~= all);
    slots
}


/// Add an entry put aside for a kind of metadata, if there is one.
fn push_aside(out: &mut Vec<(String, NbtTag)>, kind: MetaDataType, tag: Option<NbtTag>)
    ensures
        spec_entry_values(final(out)@) == match tag {
            Some(t) => spec_entry_values(old(out)@).push((kind.spec_name(), t.value())),
            None => spec_entry_values(old(out)@),
        },
{
    match tag {
        Some(t) => {
            let name = kind.name().to_owned();
            out.push((name, t));
            assert(out@.drop_last() =~= old(out)@);
        },
        None => {},
    }
}

impl MetaData {
    /// What a compound holds under a kind's name.
    pub open spec fn spec_tag(value: NbtCompound, kind: MetaDataType) -> Option<TagValue> {
        spec_lookup_value(value.0@, kind.spec_name())
    }

    /// Whether `res` is the chunk metadata read from `value`.
    pub open spec fn spec_read_from(value: NbtCompound, res: MetaData) -> bool {
        &&& spec_opt_chars(res.last_saved_base_game_version) == spec_string_of(
            Self::spec_tag(value, MetaDataType::LastSavedBaseGameVersion),
        )
        &&& spec_opt_chars(res.original_base_game_version) == spec_string_of(
            Self::spec_tag(value, MetaDataType::OriginalBaseGameVersion),
        )
        &&& spec_opt_chars(res.biome_base_game_version) == spec_string_of(
            Self::spec_tag(value, MetaDataType::BiomeBaseGameVersion),
        )
        &&& match spec_string_of(Self::spec_tag(value, MetaDataType::DimensionName)) {
            Some(name) => res.dimension_name matches Some(d) && match VanillaDimension::spec_try_from_bedrock_name(name) {
                Some(v) => d == NamedDimension::Vanilla(v),
                None => d matches NamedDimension::CustomNamed(custom) && custom.0@ == name,
            },
            None => res.dimension_name is None,
        }
        &&& res.generation_seed == spec_seed_of(Self::spec_tag(value, MetaDataType::GenerationSeed))
        &&& res.generator_type == spec_generator_of(Self::spec_tag(value, MetaDataType::GeneratorType))
        &&& res.world_gen_1_18_applied_below_0 == spec_flag_of(
            Self::spec_tag(value, MetaDataType::WorldGen1_18AppliedBelow0),
        )
        &&& res.overworld_1_18_height_extended == spec_flag_of(
            Self::spec_tag(value, MetaDataType::Overworld1_18HeightExtended),
        )
        &&& res.blending_version == spec_blending_of(Self::spec_tag(value, MetaDataType::BlendingVersion))
        &&& match spec_range_of(Self::spec_tag(value, MetaDataType::OriginalDimensionHeightRange)) {
            Some((min, max)) => res.original_dimension_height_range matches Some(r) && r.start
                == min && r.end == max,
            None => res.original_dimension_height_range is None,
        }
        &&& match spec_range_of(Self::spec_tag(value, MetaDataType::LastSavedDimensionHeightRange)) {
            Some((min, max)) => res.last_saved_dimension_height_range matches Some(r) && r.start
                == min && r.end == max,
            None => res.last_saved_dimension_height_range is None,
        }
        &&& res.underwater_lava_lake_fixed == spec_flag_of(
            Self::spec_tag(value, MetaDataType::UnderwaterLavaLakeFixed),
        )
        &&& res.world_gen_below_zero_fixed == spec_flag_of(
            Self::spec_tag(value, MetaDataType::WorldGenBelowZeroFixed),
        )
        &&& res.skull_flattening_performed == spec_flag_of(
            Self::spec_tag(value, MetaDataType::SkullFlatteningPerformed),
        )
        &&& spec_entry_values(res.unrecognized.0@) == spec_put_aside_entries(value.0@, 14)
    }

    /// Read chunk metadata from a compound. Each entry under a known name whose tag is of
    /// the kind that the name calls for fills its field; an entry under a known name with a
    /// tag of another kind, or with a value that stands for nothing, is kept in
    /// `unrecognized`, in the order of the names; entries under other names are dropped.
    pub fn from_compound(value: NbtCompound) -> (res: MetaData)
        ensures
            Self::spec_read_from(value, res),
    {
        let ghost all = value.0@;
        let mut slots = tags_by_kind(value.0);
        let ghost s = slots@;
        proof {
            assert(s[MetaDataType::LastSavedBaseGameVersion.spec_to_u8() as int] == spec_lookup(all, MetaDataType::LastSavedBaseGameVersion.spec_name()));
            assert(s[MetaDataType::OriginalBaseGameVersion.spec_to_u8() as int] == spec_lookup(all, MetaDataType::OriginalBaseGameVersion.spec_name()));
            assert(s[MetaDataType::BiomeBaseGameVersion.spec_to_u8() as int] == spec_lookup(all, MetaDataType::BiomeBaseGameVersion.spec_name()));
            assert(s[MetaDataType::DimensionName.spec_to_u8() as int] == spec_lookup(all, MetaDataType::DimensionName.spec_name()));
            assert(s[MetaDataType::GenerationSeed.spec_to_u8() as int] == spec_lookup(all, MetaDataType::GenerationSeed.spec_name()));
            assert(s[MetaDataType::GeneratorType.spec_to_u8() as int] == spec_lookup(all, MetaDataType::GeneratorType.spec_name()));
            assert(s[MetaDataType::WorldGen1_18AppliedBelow0.spec_to_u8() as int] == spec_lookup(all, MetaDataType::WorldGen1_18AppliedBelow0.spec_name()));
            assert(s[MetaDataType::Overworld1_18HeightExtended.spec_to_u8() as int] == spec_lookup(all, MetaDataType::Overworld1_18HeightExtended.spec_name()));
            assert(s[MetaDataType::BlendingVersion.spec_to_u8() as int] == spec_lookup(all, MetaDataType::BlendingVersion.spec_name()));
            assert(s[MetaDataType::OriginalDimensionHeightRange.spec_to_u8() as int] == spec_lookup(all, MetaDataType::OriginalDimensionHeightRange.spec_name()));
            assert(s[MetaDataType::LastSavedDimensionHeightRange.spec_to_u8() as int] == spec_lookup(all, MetaDataType::LastSavedDimensionHeightRange.spec_name()));
            assert(s[MetaDataType::UnderwaterLavaLakeFixed.spec_to_u8() as int] == spec_lookup(all, MetaDataType::UnderwaterLavaLakeFixed.spec_name()));
            assert(s[MetaDataType::WorldGenBelowZeroFixed.spec_to_u8() as int] == spec_lookup(all, MetaDataType::WorldGenBelowZeroFixed.spec_name()));
            assert(s[MetaDataType::SkullFlatteningPerformed.spec_to_u8() as int] == spec_lookup(all, MetaDataType::SkullFlatteningPerformed.spec_name()));
        }
        let skull_tag = slots.pop().unwrap();
        let zero_tag = slots.pop().unwrap();
        let lava_tag = slots.pop().unwrap();
        let last_range_tag = slots.pop().unwrap();
        let original_range_tag = slots.pop().unwrap();
        let blending_tag = slots.pop().unwrap();
        let extended_tag = slots.pop().unwrap();
        let below_tag = slots.pop().unwrap();
        let generator_tag = slots.pop().unwrap();
        let seed_tag = slots.pop().unwrap();
        let dimension_tag = slots.pop().unwrap();
        let biome_tag = slots.pop().unwrap();
        let original_tag = slots.pop().unwrap();
        let last_saved_tag = slots.pop().unwrap();

        let (last_saved_base_game_version, last_saved_aside) = take_string(last_saved_tag);
        let (original_base_game_version, original_aside) = take_string(original_tag);
        let (biome_base_game_version, biome_aside) = take_string(biome_tag);
        let (dimension_text, dimension_aside) = take_string(dimension_tag);
        let dimension_name = match dimension_text {
            Some(name) => Some(NamedDimension::from_bedrock_name(name.as_str())),
            None => None,
        };
        let (generation_seed, seed_aside) = take_long(seed_tag);
        let (generator_type, generator_aside) = take_generator(generator_tag);
        let (world_gen_1_18_applied_below_0, below_aside) = take_flag(below_tag);
        let (overworld_1_18_height_extended, extended_aside) = take_flag(extended_tag);
        let (blending_version, blending_aside) = take_blending(blending_tag);
        let (original_dimension_height_range, original_range_aside) = take_range(
            original_range_tag,
        );
        let (last_saved_dimension_height_range, last_range_aside) = take_range(last_range_tag);
        let (underwater_lava_lake_fixed, lava_aside) = take_flag(lava_tag);
        let (world_gen_below_zero_fixed, zero_aside) = take_flag(zero_tag);
        let (skull_flattening_performed, skull_aside) = take_flag(skull_tag);

        let mut aside: Vec<(String, NbtTag)> = Vec::new();
        assert(spec_entry_values(aside@) =~= spec_put_aside_entries(all, 0));
        push_aside(&mut aside, MetaDataType::BiomeBaseGameVersion, biome_aside);
        assert(spec_entry_values(aside@) == spec_put_aside_entries(all, 1));
        push_aside(&mut aside, MetaDataType::BlendingVersion, blending_aside);
        assert(spec_entry_values(aside@) == spec_put_aside_entries(all, 2));
        push_aside(&mut aside, MetaDataType::DimensionName, dimension_aside);
        assert(spec_entry_values(aside@) == spec_put_aside_entries(all, 3));
        push_aside(&mut aside, MetaDataType::GenerationSeed, seed_aside);
        assert(spec_entry_values(aside@) == spec_put_aside_entries(all, 4));
        push_aside(&mut aside, MetaDataType::GeneratorType, generator_aside);
        assert(spec_entry_values(aside@) == spec_put_aside_entries(all, 5));
        push_aside(&mut aside, MetaDataType::LastSavedBaseGameVersion, last_saved_aside);
        assert(spec_entry_values(aside@) == spec_put_aside_entries(all, 6));
        push_aside(&mut aside, MetaDataType::LastSavedDimensionHeightRange, last_range_aside);
        assert(spec_entry_values(aside@) == spec_put_aside_entries(all, 7));
        push_aside(&mut aside, MetaDataType::OriginalBaseGameVersion, original_aside);
        assert(spec_entry_values(aside@) == spec_put_aside_entries(all, 8));
        push_aside(&mut aside, MetaDataType::OriginalDimensionHeightRange, original_range_aside);
        assert(spec_entry_values(aside@) == spec_put_aside_entries(all, 9));
        push_aside(&mut aside, MetaDataType::Overworld1_18HeightExtended, extended_aside);
        assert(spec_entry_values(aside@) == spec_put_aside_entries(all, 10));
        push_aside(&mut aside, MetaDataType::SkullFlatteningPerformed, skull_aside);
        assert(spec_entry_values(aside@) == spec_put_aside_entries(all, 11));
        push_aside(&mut aside, MetaDataType::UnderwaterLavaLakeFixed, lava_aside);
        assert(spec_entry_values(aside@) == spec_put_aside_entries(all, 12));
        push_aside(&mut aside, MetaDataType::WorldGen1_18AppliedBelow0, below_aside);
        assert(spec_entry_values(aside@) == spec_put_aside_entries(all, 13));
        push_aside(&mut aside, MetaDataType::WorldGenBelowZeroFixed, zero_aside);
        assert(spec_entry_values(aside@) == spec_put_aside_entries(all, 14));

        MetaData {
            last_saved_base_game_version,
            original_base_game_version,
            biome_base_game_version,
            dimension_name,
            generation_seed,
            generator_type,
            world_gen_1_18_applied_below_0,
            overworld_1_18_height_extended,
            blending_version,
            original_dimension_height_range,
            last_saved_dimension_height_range,
            underwater_lava_lake_fixed,
            world_gen_below_zero_fixed,
            skull_flattening_performed,
            unrecognized: NbtCompound(aside),
        }
    }
}


// ================================
//  Chunk metadata to NBT
// ================================

/// Whether the string `a` comes before `b`: ordered by the code points of their characters,
/// a proper prefix first.
pub open spec fn spec_name_lt(a: Seq<char>, b: Seq<char>) -> bool
    decreases a.len(),
{
    if a.len() == 0 {
        b.len() > 0
    } else if b.len() == 0 {
        false
    } else if a[0] != b[0] {
        a[0] < b[0]
    } else {
        spec_name_lt(a.drop_first(), b.drop_first())
    }
}

/// No string comes before itself.
pub proof fn lemma_name_lt_irreflexive(a: Seq<char>)
    ensures
        !spec_name_lt(a, a),
    decreases a.len(),
{
    if a.len() > 0 {
        lemma_name_lt_irreflexive(a.drop_first());
    }
}

/// The order of strings is transitive.
pub proof fn lemma_name_lt_transitive(a: Seq<char>, b: Seq<char>, c: Seq<char>)
    requires
        spec_name_lt(a, b),
        spec_name_lt(b, c),
    ensures
        spec_name_lt(a, c),
    decreases a.len(),
{
    if a.len() > 0 && b.len() > 0 && c.len() > 0 && a[0] == b[0] && b[0] == c[0] {
        lemma_name_lt_transitive(a.drop_first(), b.drop_first(), c.drop_first());
    }
}

/// Of two different strings, one comes before the other.
pub proof fn lemma_name_lt_total(a: Seq<char>, b: Seq<char>)
    ensures
        a == b || spec_name_lt(a, b) || spec_name_lt(b, a),
    decreases a.len(),
{
    if a.len() > 0 && b.len() > 0 && a[0] == b[0] {
        lemma_name_lt_total(a.drop_first(), b.drop_first());
        if a.drop_first() == b.drop_first() {
            assert(a =~= seq![a[0]] + a.drop_first());
            assert(b =~= seq![b[0]] + b.drop_first());
        }
    } else if a.len() == 0 && b.len() == 0 {
        assert(a =~= b);
    }
}

/// Whether `a` comes before `b` in the order of strings.
pub fn str_lt(a: &str, b: &str) -> (res: bool)
    ensures
        res == spec_name_lt(a@, b@),
{
    let a_len = a.unicode_len();
    let b_len = b.unicode_len();
    let mut i: usize = 0;
    assert(a@.skip(0) =~= a@);
    assert(b@.skip(0) =~= b@);
    loop
        invariant
            a_len == a@.len(),
            b_len == b@.len(),
            i <= a_len,
            i <= b_len,
            spec_name_lt(a@, b@) == spec_name_lt(a@.skip(i as int), b@.skip(i as int)),
        decreases a_len - i,
    {
        if i == a_len {
            return i < b_len;
        }
        if i == b_len {
            return false;
        }
        let ca = a.get_char(i);
        let cb = b.get_char(i);
        if ca != cb {
            return ca < cb;
        }
        assert(a@.skip(i as int).drop_first() =~= a@.skip(i + 1));
        assert(b@.skip(i as int).drop_first() =~= b@.skip(i + 1));
        i = i + 1;
    }
}

/// Whether the entries' names are in strictly increasing order.
pub open spec fn spec_names_sorted(entries: Seq<(String, NbtTag)>) -> bool {
    forall|i: int, j: int|
        0 <= i < j < entries.len() ==> spec_name_lt(
            #[trigger] entries[i].0@,
            #[trigger] entries[j].0@,
        )
}

/// The entry at `j` is the last one with its name.
proof fn lemma_lookup_at(entries: Seq<(String, NbtTag)>, j: int)
    requires
        0 <= j < entries.len(),
        forall|i: int| j < i < entries.len() ==> #[trigger] entries[i].0@ != entries[j].0@,
    ensures
        spec_lookup(entries, entries[j].0@) == Some(entries[j].1),
    decreases entries.len(),
{
    if j < entries.len() - 1 {
        let d = entries.drop_last();
        assert forall|i: int| j < i < d.len() implies #[trigger] d[i].0@ != d[j].0@ by {
            assert(d[i] == entries[i]);
        }
        lemma_lookup_at(d, j);
        assert(d[j] == entries[j]);
    }
}

/// No entry has the name.
proof fn lemma_lookup_absent(entries: Seq<(String, NbtTag)>, name: Seq<char>)
    requires
        forall|i: int| 0 <= i < entries.len() ==> #[trigger] entries[i].0@ != name,
    ensures
        spec_lookup(entries, name) is None,
    decreases entries.len(),
{
    if entries.len() > 0 {
        let d = entries.drop_last();
        assert forall|i: int| 0 <= i < d.len() implies #[trigger] d[i].0@ != name by {
            assert(d[i] == entries[i]);
        }
        lemma_lookup_absent(d, name);
    }
}

/// In sorted entries, a name is found at the one entry that has it.
proof fn lemma_sorted_lookup(entries: Seq<(String, NbtTag)>, j: int)
    requires
        spec_names_sorted(entries),
        0 <= j < entries.len(),
    ensures
        spec_lookup(entries, entries[j].0@) == Some(entries[j].1),
{
    assert forall|i: int| j < i < entries.len() implies #[trigger] entries[i].0@
        != entries[j].0@ by {
        assert(spec_name_lt(entries[j].0@, entries[i].0@));
        lemma_name_lt_irreflexive(entries[j].0@);
    }
    lemma_lookup_at(entries, j);
}

/// Put an entry into sorted entries: in place of the entry with the same name, or where its
/// name belongs in the order.
pub fn insert_sorted(entries: &mut Vec<(String, NbtTag)>, name: String, tag: NbtTag)
    requires
        spec_names_sorted(old(entries)@),
    ensures
        spec_names_sorted(final(entries)@),
        forall|n: Seq<char>|
            #[trigger] spec_lookup(final(entries)@, n) == if n == name@ {
                Some(tag)
            } else {
                spec_lookup(old(entries)@, n)
            },
{
    let ghost old_e = entries@;
    let ghost key = name@;
    let mut p: usize = 0;
    while p < entries.len()
        invariant
            p <= entries@.len(),
            entries@ == old_e,
            key == name@,
            forall|i: int| 0 <= i < p ==> spec_name_lt(#[trigger] entries@[i].0@, key),
        ensures
            p <= entries@.len(),
            entries@ == old_e,
            forall|i: int| 0 <= i < p ==> spec_name_lt(#[trigger] entries@[i].0@, key),
            p == entries@.len() || !spec_name_lt(entries@[p as int].0@, key),
        decreases entries@.len() - p,
    {
        if !str_lt(entries[p].0.as_str(), name.as_str()) {
            break;
        }
        p = p + 1;
    }
    if p < entries.len() && str_eq(entries[p].0.as_str(), name.as_str()) {
        entries.set(p, (name, tag));
        let ghost new_e = entries@;
        assert forall|i: int, j: int| 0 <= i < j < new_e.len() implies spec_name_lt(
            #[trigger] new_e[i].0@,
            #[trigger] new_e[j].0@,
        ) by {
            assert(new_e[i].0@ == old_e[i].0@);
            assert(new_e[j].0@ == old_e[j].0@);
        }
        assert forall|n: Seq<char>| #[trigger] spec_lookup(new_e, n) == if n == key {
            Some(tag)
        } else {
            spec_lookup(old_e, n)
        } by {
            if n == key {
                lemma_sorted_lookup(new_e, p as int);
            } else if exists|j: int| 0 <= j < old_e.len() && #[trigger] old_e[j].0@ == n {
                let j = choose|j: int| 0 <= j < old_e.len() && #[trigger] old_e[j].0@ == n;
                assert(new_e[j] == old_e[j]);
                lemma_sorted_lookup(old_e, j);
                lemma_sorted_lookup(new_e, j);
            } else {
                assert forall|j: int| 0 <= j < new_e.len() implies #[trigger] new_e[j].0@ != n by {
                    if j != p {
                        assert(new_e[j] == old_e[j]);
                    }
                }
                lemma_lookup_absent(old_e, n);
                lemma_lookup_absent(new_e, n);
            }
        }
    } else {
        proof {
            if p < old_e.len() {
                lemma_name_lt_total(old_e[p as int].0@, key);
            }
        }
        entries.insert(p, (name, tag));
        let ghost new_e = entries@;
        assert(new_e.len() == old_e.len() + 1);
        assert forall|k: int| 0 <= k < new_e.len() implies #[trigger] new_e[k] == if k < p {
            old_e[k]
        } else if k == p {
            (name, tag)
        } else {
            old_e[k - 1]
        } by {}
        assert forall|i: int, j: int| 0 <= i < j < new_e.len() implies spec_name_lt(
            #[trigger] new_e[i].0@,
            #[trigger] new_e[j].0@,
        ) by {
            assert(new_e[i] == if i < p { old_e[i] } else if i == p { (name, tag) } else { old_e[i - 1] });
            assert(new_e[j] == if j < p { old_e[j] } else if j == p { (name, tag) } else { old_e[j - 1] });
            if i < p && j > p {
                assert(spec_name_lt(old_e[i].0@, old_e[j - 1].0@));
            } else if i == p && j > p {
                if j - 1 > p {
                    assert(spec_name_lt(old_e[p as int].0@, old_e[j - 1].0@));
                    lemma_name_lt_transitive(key, old_e[p as int].0@, old_e[j - 1].0@);
                }
            } else if i > p {
                assert(spec_name_lt(old_e[i - 1].0@, old_e[j - 1].0@));
            }
        }
        assert forall|n: Seq<char>| #[trigger] spec_lookup(new_e, n) == if n == key {
            Some(tag)
        } else {
            spec_lookup(old_e, n)
        } by {
            if n == key {
                lemma_sorted_lookup(new_e, p as int);
            } else if exists|j: int| 0 <= j < old_e.len() && #[trigger] old_e[j].0@ == n {
                let j = choose|j: int| 0 <= j < old_e.len() && #[trigger] old_e[j].0@ == n;
                lemma_sorted_lookup(old_e, j);
                if j < p {
                    assert(new_e[j] == old_e[j]);
                    lemma_sorted_lookup(new_e, j);
                } else {
                    assert(new_e[j + 1] == old_e[j]);
                    lemma_sorted_lookup(new_e, j + 1);
                }
            } else {
                assert forall|j: int| 0 <= j < new_e.len() implies #[trigger] new_e[j].0@ != n by {
                    if j < p {
                        assert(new_e[j] == old_e[j]);
                    } else if j > p {
                        assert(new_e[j] == old_e[j - 1]);
                    }
                }
                lemma_lookup_absent(old_e, n);
                lemma_lookup_absent(new_e, n);
            }
        }
    }
}


/// The compound that a height range is written as: `max`, then `min`.
pub open spec fn spec_range_value(r: core::ops::Range<i16>) -> TagValue {
    TagValue::Compound(seq![("max"@, TagValue::Short(r.end)), ("min"@, TagValue::Short(r.start))])
}

/// The short that a flag is written as.
pub open spec fn spec_flag_value(b: bool) -> TagValue {
    TagValue::Short(if b { 1 } else { 0 })
}

impl MetaData {
    /// What a set field is written as, under the name of its kind.
    pub open spec fn spec_field_value(self, kind: MetaDataType) -> Option<TagValue> {
        match kind {
            MetaDataType::LastSavedBaseGameVersion => match self.last_saved_base_game_version {
                Some(s) => Some(TagValue::String(s@)),
                None => None,
            },
            MetaDataType::OriginalBaseGameVersion => match self.original_base_game_version {
                Some(s) => Some(TagValue::String(s@)),
                None => None,
            },
            MetaDataType::BiomeBaseGameVersion => match self.biome_base_game_version {
                Some(s) => Some(TagValue::String(s@)),
                None => None,
            },
            MetaDataType::DimensionName => match self.dimension_name {
                Some(d) => Some(TagValue::String(d.spec_bedrock_name())),
                None => None,
            },
            MetaDataType::GenerationSeed => match self.generation_seed {
                Some(v) => Some(TagValue::Long(v as i64)),
                None => None,
            },
            MetaDataType::GeneratorType => match self.generator_type {
                Some(g) => Some(TagValue::Int(g.spec_to_i32())),
                None => None,
            },
            MetaDataType::WorldGen1_18AppliedBelow0 => match self.world_gen_1_18_applied_below_0 {
                Some(b) => Some(spec_flag_value(b)),
                None => None,
            },
            MetaDataType::Overworld1_18HeightExtended => match self.overworld_1_18_height_extended {
                Some(b) => Some(spec_flag_value(b)),
                None => None,
            },
            MetaDataType::BlendingVersion => match self.blending_version {
                Some(b) => Some(TagValue::Short(b.spec_to_i16())),
                None => None,
            },
            MetaDataType::OriginalDimensionHeightRange => match self.original_dimension_height_range {
                Some(r) => Some(spec_range_value(r)),
                None => None,
            },
            MetaDataType::LastSavedDimensionHeightRange => match self.last_saved_dimension_height_range {
                Some(r) => Some(spec_range_value(r)),
                None => None,
            },
            MetaDataType::UnderwaterLavaLakeFixed => match self.underwater_lava_lake_fixed {
                Some(b) => Some(spec_flag_value(b)),
                None => None,
            },
            MetaDataType::WorldGenBelowZeroFixed => match self.world_gen_below_zero_fixed {
                Some(b) => Some(spec_flag_value(b)),
                None => None,
            },
            MetaDataType::SkullFlatteningPerformed => match self.skull_flattening_performed {
                Some(b) => Some(spec_flag_value(b)),
                None => None,
            },
        }
    }

    /// What the compound written for this metadata holds under `name`: the field of the kind
    /// with that name where it is set, and otherwise what `unrecognized` holds there.
    pub open spec fn spec_written_value(self, name: Seq<char>) -> Option<TagValue> {
        match MetaDataType::spec_from_name(name) {
            Some(kind) => match self.spec_field_value(kind) {
                Some(v) => Some(v),
                None => spec_lookup_value(self.unrecognized.0@, name),
            },
            None => spec_lookup_value(self.unrecognized.0@, name),
        }
    }
}

/// Put the entry for a set field into sorted entries.
fn insert_field(entries: &mut Vec<(String, NbtTag)>, kind: MetaDataType, tag: Option<NbtTag>)
    requires
        spec_names_sorted(old(entries)@),
    ensures
        spec_names_sorted(final(entries)@),
        forall|n: Seq<char>|
            #[trigger] spec_lookup_value(final(entries)@, n) == if tag is Some && n
                == kind.spec_name() {
                spec_opt_value(tag)
            } else {
                spec_lookup_value(old(entries)@, n)
            },
{
    match tag {
        Some(t) => {
            let ghost tv = t;
            insert_sorted(entries, kind.name().to_owned(), t);
            assert forall|n: Seq<char>| #[trigger] spec_lookup_value(entries@, n) == if n
                == kind.spec_name() {
                Some(tv.value())
            } else {
                spec_lookup_value(old(entries)@, n)
            } by {
                assert(spec_lookup(entries@, n) == if n == kind.spec_name() {
                    Some(tv)
                } else {
                    spec_lookup(old(entries)@, n)
                });
            }
        },
        None => {},
    }
}

/// The tag of an optional string.
fn string_tag(s: Option<String>) -> (res: Option<NbtTag>)
    ensures
        spec_opt_value(res) == match s {
            Some(s) => Some(TagValue::String(s@)),
            None => None,
        },
{
    match s {
        Some(s) => Some(NbtTag::String(s)),
        None => None,
    }
}

/// The tag of an optional flag.
fn flag_tag(b: Option<bool>) -> (res: Option<NbtTag>)
    ensures
        spec_opt_value(res) == match b {
            Some(b) => Some(spec_flag_value(b)),
            None => None,
        },
{
    match b {
        Some(b) => Some(NbtTag::Short(if b { 1 } else { 0 })),
        None => None,
    }
}

/// The tag of an optional height range.
fn range_tag(r: Option<core::ops::Range<i16>>) -> (res: Option<NbtTag>)
    ensures
        spec_opt_value(res) == match r {
            Some(r) => Some(spec_range_value(r)),
            None => None,
        },
{
    match r {
        Some(r) => {
            let max_name = "max".to_owned();
            let min_name = "min".to_owned();
            proof {
                reveal_strlit("max");
                reveal_strlit("min");
            }
            let mut entries: Vec<(String, NbtTag)> = Vec::new();
            entries.push((max_name, NbtTag::Short(r.end)));
            entries.push((min_name, NbtTag::Short(r.start)));
            proof {
                let e = entries@;
                assert(e.len() == 2);
                assert(e[0].0@ == "max"@ && e[0].1 == NbtTag::Short(r.end));
                assert(e[1].0@ == "min"@ && e[1].1 == NbtTag::Short(r.start));
                assert(e.drop_last().len() == 1 && e.drop_last().last() == e[0]);
                assert(e.last() == e[1]);
                assert(e.drop_last().drop_last() =~= Seq::<(String, NbtTag)>::empty());
                reveal_with_fuel(spec_entry_values, 3);
                assert(spec_entry_values(e.drop_last().drop_last()) =~= Seq::<(Seq<char>, TagValue)>::empty());
                assert(spec_entry_values(e.drop_last()) =~= seq![("max"@, TagValue::Short(r.end))]);
                assert(spec_entry_values(e) =~= seq![
                    ("max"@, TagValue::Short(r.end)),
                    ("min"@, TagValue::Short(r.start)),
                ]);
            }
            Some(NbtTag::Compound(NbtCompound(entries)))
        },
        None => None,
    }
}

/// The entries of a compound in the order of their names, the last entry of each name
/// standing for it.
fn sorted_entries(compound: NbtCompound) -> (res: Vec<(String, NbtTag)>)
    ensures
        spec_names_sorted(res@),
        forall|n: Seq<char>| #[trigger] spec_lookup_value(res@, n) == spec_lookup_value(compound.0@, n),
{
    let NbtCompound(mut rest) = compound;
    let ghost all = rest@;
    let mut out: Vec<(String, NbtTag)> = Vec::new();
    while rest.len() > 0
        invariant
            spec_names_sorted(out@),
            forall|n: Seq<char>| #[trigger] spec_lookup(all, n) == match spec_lookup(rest@, n) {
                Some(t) => Some(t),
                None => spec_lookup(out@, n),
            },
        decreases rest@.len(),
    {
        let ghost before = rest@;
        let ghost out_before = out@;
        let (name, tag) = rest.remove(0);
        let ghost e = before[0];
        proof {
            assert(before =~= seq![e] + rest@);
        }
        insert_sorted(&mut out, name, tag);
        assert forall|n: Seq<char>| #[trigger] spec_lookup(all, n) == match spec_lookup(rest@, n) {
            Some(t) => Some(t),
            None => spec_lookup(out@, n),
        } by {
            lemma_lookup_prepend(e, rest@, n);
            assert(spec_lookup(all, n) == match spec_lookup(before, n) {
                Some(t) => Some(t),
                None => spec_lookup(out_before, n),
            });
        }
    }
    assert forall|n: Seq<char>| #[trigger] spec_lookup_value(out@, n) == spec_lookup_value(all, n) by {
        assert(spec_lookup(all, n) == match spec_lookup(rest@, n) {
            Some(t) => Some(t),
            None => spec_lookup(out@, n),
        });
    }
    out
}

impl MetaData {
    #[verifier::rlimit(100)]
    #[verifier::spinoff_prover]
    /// Write chunk metadata as a compound: the entries of `unrecognized`, with each set field
    /// written under the name of its kind in place of any entry there, all in the order of
    /// their names.
    pub fn to_compound(self) -> (res: NbtCompound)
        ensures
            spec_names_sorted(res.0@),
            forall|n: Seq<char>| #[trigger] spec_lookup_value(res.0@, n) == self.spec_written_value(n),
    {
        let ghost m = self;
        let MetaData {
            last_saved_base_game_version,
            original_base_game_version,
            biome_base_game_version,
            dimension_name,
            generation_seed,
            generator_type,
            world_gen_1_18_applied_below_0,
            overworld_1_18_height_extended,
            blending_version,
            original_dimension_height_range,
            last_saved_dimension_height_range,
            underwater_lava_lake_fixed,
            world_gen_below_zero_fixed,
            skull_flattening_performed,
            unrecognized,
        } = self;
        let ghost unrec = unrecognized.0@;
        let mut out = sorted_entries(unrecognized);
        let ghost o0 = out@;
        let dimension_text = match &dimension_name {
            Some(d) => Some(d.as_bedrock_name().to_owned()),
            None => None,
        };
        let seed = match generation_seed {
            Some(v) => Some(NbtTag::Long(v as i64)),
            None => None,
        };
        let generator = match generator_type {
            Some(g) => Some(NbtTag::Int(g.to_i32())),
            None => None,
        };
        let blending = match blending_version {
            Some(b) => Some(NbtTag::Short(b.to_i16())),
            None => None,
        };
        insert_field(&mut out, MetaDataType::LastSavedBaseGameVersion, string_tag(last_saved_base_game_version));
        let ghost o1 = out@;
        insert_field(&mut out, MetaDataType::OriginalBaseGameVersion, string_tag(original_base_game_version));
        let ghost o2 = out@;
        insert_field(&mut out, MetaDataType::BiomeBaseGameVersion, string_tag(biome_base_game_version));
        let ghost o3 = out@;
        insert_field(&mut out, MetaDataType::DimensionName, string_tag(dimension_text));
        let ghost o4 = out@;
        insert_field(&mut out, MetaDataType::GenerationSeed, seed);
        let ghost o5 = out@;
        insert_field(&mut out, MetaDataType::GeneratorType, generator);
        let ghost o6 = out@;
        insert_field(&mut out, MetaDataType::WorldGen1_18AppliedBelow0, flag_tag(world_gen_1_18_applied_below_0));
        let ghost o7 = out@;
        insert_field(&mut out, MetaDataType::Overworld1_18HeightExtended, flag_tag(overworld_1_18_height_extended));
        let ghost o8 = out@;
        insert_field(&mut out, MetaDataType::BlendingVersion, blending);
        let ghost o9 = out@;
        insert_field(&mut out, MetaDataType::OriginalDimensionHeightRange, range_tag(original_dimension_height_range));
        let ghost o10 = out@;
        insert_field(&mut out, MetaDataType::LastSavedDimensionHeightRange, range_tag(last_saved_dimension_height_range));
        let ghost o11 = out@;
        insert_field(&mut out, MetaDataType::UnderwaterLavaLakeFixed, flag_tag(underwater_lava_lake_fixed));
        let ghost o12 = out@;
        insert_field(&mut out, MetaDataType::WorldGenBelowZeroFixed, flag_tag(world_gen_below_zero_fixed));
        let ghost o13 = out@;
        insert_field(&mut out, MetaDataType::SkullFlatteningPerformed, flag_tag(skull_flattening_performed));
        assert forall|n: Seq<char>| #[trigger] spec_lookup_value(out@, n) == m.spec_written_value(n) by {
                lemma_name_kinds(n, MetaDataType::LastSavedBaseGameVersion);
                lemma_name_kinds(n, MetaDataType::OriginalBaseGameVersion);
                lemma_name_kinds(n, MetaDataType::BiomeBaseGameVersion);
                lemma_name_kinds(n, MetaDataType::DimensionName);
                lemma_name_kinds(n, MetaDataType::GenerationSeed);
                lemma_name_kinds(n, MetaDataType::GeneratorType);
                lemma_name_kinds(n, MetaDataType::WorldGen1_18AppliedBelow0);
                lemma_name_kinds(n, MetaDataType::Overworld1_18HeightExtended);
                lemma_name_kinds(n, MetaDataType::BlendingVersion);
                lemma_name_kinds(n, MetaDataType::OriginalDimensionHeightRange);
                lemma_name_kinds(n, MetaDataType::LastSavedDimensionHeightRange);
                lemma_name_kinds(n, MetaDataType::UnderwaterLavaLakeFixed);
                lemma_name_kinds(n, MetaDataType::WorldGenBelowZeroFixed);
                lemma_name_kinds(n, MetaDataType::SkullFlatteningPerformed);
                assert(spec_lookup_value(o0, n) == spec_lookup_value(unrec, n));
            }
        NbtCompound(out)
    }
}


/// Two optional dimensions that are the same: the same vanilla dimension, or custom dimensions
/// of the same name.
pub open spec fn spec_same_dimension(a: Option<NamedDimension>, b: Option<NamedDimension>) -> bool {
    match (a, b) {
        (None, None) => true,
        (Some(NamedDimension::Vanilla(x)), Some(NamedDimension::Vanilla(y))) => x == y,
        (Some(NamedDimension::CustomNamed(x)), Some(NamedDimension::CustomNamed(y))) => x.0@ == y.0@,
        _ => false,
    }
}

/// What a compound written for `m` holds under a kind's name.
proof fn lemma_written_kind(m: MetaData, c: NbtCompound, kind: MetaDataType)
    requires
        forall|n: Seq<char>| #[trigger] spec_lookup_value(c.0@, n) == m.spec_written_value(n),
    ensures
        MetaData::spec_tag(c, kind) == match m.spec_field_value(kind) {
            Some(v) => Some(v),
            None => spec_lookup_value(m.unrecognized.0@, kind.spec_name()),
        },
{
    lemma_meta_data_type_name_roundtrip(kind);
    assert(spec_lookup_value(c.0@, kind.spec_name()) == m.spec_written_value(kind.spec_name()));
}

/// The range written as `max`, then `min`, is read back.
proof fn lemma_range_value_read(r: core::ops::Range<i16>)
    ensures
        spec_range_of(Some(spec_range_value(r))) == Some((r.start, r.end)),
{
    reveal_strlit("max");
    reveal_strlit("min");
    let e = seq![("max"@, TagValue::Short(r.end)), ("min"@, TagValue::Short(r.start))];
    assert("max"@ != "min"@) by {
        assert("max"@[1] != "min"@[1]);
    }
    assert(e.drop_last() =~= seq![("max"@, TagValue::Short(r.end))]);
    assert(e.drop_last().drop_last() =~= Seq::<(Seq<char>, TagValue)>::empty());
    assert(spec_value_lookup(e, "min"@) == Some(TagValue::Short(r.start)));
    assert(spec_value_lookup(e.drop_last(), "max"@) == Some(TagValue::Short(r.end)));
    assert(spec_value_lookup(e, "max"@) == Some(TagValue::Short(r.end)));
}

/// Chunk metadata written as a compound and read back has the same fields. This holds where
/// `unrecognized` keeps, under the name of a kind whose field is not set, nothing that would be
/// read as that field, and where a custom dimension's name is not that of a vanilla one.
pub proof fn lemma_metadata_write_read(m: MetaData, c: NbtCompound, back: MetaData)
    requires
        forall|n: Seq<char>| #[trigger] spec_lookup_value(c.0@, n) == m.spec_written_value(n),
        MetaData::spec_read_from(c, back),
        forall|k: MetaDataType|
            m.spec_field_value(k) is None ==> #[trigger] spec_put_aside(
                k,
                spec_lookup_value(m.unrecognized.0@, k.spec_name()),
            ) == spec_lookup_value(m.unrecognized.0@, k.spec_name()),
        m.dimension_name matches Some(NamedDimension::CustomNamed(custom))
            ==> VanillaDimension::spec_try_from_bedrock_name(custom.0@) is None,
    ensures
        spec_opt_chars(back.last_saved_base_game_version) == spec_opt_chars(
            m.last_saved_base_game_version,
        ),
        spec_opt_chars(back.original_base_game_version) == spec_opt_chars(
            m.original_base_game_version,
        ),
        spec_opt_chars(back.biome_base_game_version) == spec_opt_chars(m.biome_base_game_version),
        spec_same_dimension(back.dimension_name, m.dimension_name),
        back.generation_seed == m.generation_seed,
        back.generator_type == m.generator_type,
        back.world_gen_1_18_applied_below_0 == m.world_gen_1_18_applied_below_0,
        back.overworld_1_18_height_extended == m.overworld_1_18_height_extended,
        back.blending_version == m.blending_version,
        back.original_dimension_height_range == m.original_dimension_height_range,
        back.last_saved_dimension_height_range == m.last_saved_dimension_height_range,
        back.underwater_lava_lake_fixed == m.underwater_lava_lake_fixed,
        back.world_gen_below_zero_fixed == m.world_gen_below_zero_fixed,
        back.skull_flattening_performed == m.skull_flattening_performed,
{
    lemma_written_kind(m, c, MetaDataType::LastSavedBaseGameVersion);
    lemma_written_kind(m, c, MetaDataType::OriginalBaseGameVersion);
    lemma_written_kind(m, c, MetaDataType::BiomeBaseGameVersion);
    lemma_written_kind(m, c, MetaDataType::DimensionName);
    lemma_written_kind(m, c, MetaDataType::GenerationSeed);
    lemma_written_kind(m, c, MetaDataType::GeneratorType);
    lemma_written_kind(m, c, MetaDataType::WorldGen1_18AppliedBelow0);
    lemma_written_kind(m, c, MetaDataType::Overworld1_18HeightExtended);
    lemma_written_kind(m, c, MetaDataType::BlendingVersion);
    lemma_written_kind(m, c, MetaDataType::OriginalDimensionHeightRange);
    lemma_written_kind(m, c, MetaDataType::LastSavedDimensionHeightRange);
    lemma_written_kind(m, c, MetaDataType::UnderwaterLavaLakeFixed);
    lemma_written_kind(m, c, MetaDataType::WorldGenBelowZeroFixed);
    lemma_written_kind(m, c, MetaDataType::SkullFlatteningPerformed);
    match m.dimension_name {
        Some(NamedDimension::Vanilla(v)) => {
            lemma_vanilla_bedrock_name_roundtrip(v);
        },
        _ => {},
    }
    match m.generation_seed {
        Some(v) => {
            assert((v as i64) as u64 == v) by (bit_vector);
        },
        None => {},
    }
    match m.generator_type {
        Some(g) => {
            lemma_generator_type_i32_roundtrip(g, g.spec_to_i32());
        },
        None => {},
    }
    match m.blending_version {
        Some(b) => {
            lemma_blending_version_i16_roundtrip(b, b.spec_to_i16());
        },
        None => {},
    }
    match m.original_dimension_height_range {
        Some(r) => {
            lemma_range_value_read(r);
        },
        None => {},
    }
    match m.last_saved_dimension_height_range {
        Some(r) => {
            lemma_range_value_read(r);
        },
        None => {},
    }
    assert(m.spec_field_value(MetaDataType::LastSavedBaseGameVersion) is None ==> spec_put_aside(MetaDataType::LastSavedBaseGameVersion, spec_lookup_value(m.unrecognized.0@, MetaDataType::LastSavedBaseGameVersion.spec_name())) == spec_lookup_value(m.unrecognized.0@, MetaDataType::LastSavedBaseGameVersion.spec_name()));
    assert(m.spec_field_value(MetaDataType::OriginalBaseGameVersion) is None ==> spec_put_aside(MetaDataType::OriginalBaseGameVersion, spec_lookup_value(m.unrecognized.0@, MetaDataType::OriginalBaseGameVersion.spec_name())) == spec_lookup_value(m.unrecognized.0@, MetaDataType::OriginalBaseGameVersion.spec_name()));
    assert(m.spec_field_value(MetaDataType::BiomeBaseGameVersion) is None ==> spec_put_aside(MetaDataType::BiomeBaseGameVersion, spec_lookup_value(m.unrecognized.0@, MetaDataType::BiomeBaseGameVersion.spec_name())) == spec_lookup_value(m.unrecognized.0@, MetaDataType::BiomeBaseGameVersion.spec_name()));
    assert(m.spec_field_value(MetaDataType::DimensionName) is None ==> spec_put_aside(MetaDataType::DimensionName, spec_lookup_value(m.unrecognized.0@, MetaDataType::DimensionName.spec_name())) == spec_lookup_value(m.unrecognized.0@, MetaDataType::DimensionName.spec_name()));
    assert(m.spec_field_value(MetaDataType::GenerationSeed) is None ==> spec_put_aside(MetaDataType::GenerationSeed, spec_lookup_value(m.unrecognized.0@, MetaDataType::GenerationSeed.spec_name())) == spec_lookup_value(m.unrecognized.0@, MetaDataType::GenerationSeed.spec_name()));
    assert(m.spec_field_value(MetaDataType::GeneratorType) is None ==> spec_put_aside(MetaDataType::GeneratorType, spec_lookup_value(m.unrecognized.0@, MetaDataType::GeneratorType.spec_name())) == spec_lookup_value(m.unrecognized.0@, MetaDataType::GeneratorType.spec_name()));
    assert(m.spec_field_value(MetaDataType::WorldGen1_18AppliedBelow0) is None ==> spec_put_aside(MetaDataType::WorldGen1_18AppliedBelow0, spec_lookup_value(m.unrecognized.0@, MetaDataType::WorldGen1_18AppliedBelow0.spec_name())) == spec_lookup_value(m.unrecognized.0@, MetaDataType::WorldGen1_18AppliedBelow0.spec_name()));
    assert(m.spec_field_value(MetaDataType::Overworld1_18HeightExtended) is None ==> spec_put_aside(MetaDataType::Overworld1_18HeightExtended, spec_lookup_value(m.unrecognized.0@, MetaDataType::Overworld1_18HeightExtended.spec_name())) == spec_lookup_value(m.unrecognized.0@, MetaDataType::Overworld1_18HeightExtended.spec_name()));
    assert(m.spec_field_value(MetaDataType::BlendingVersion) is None ==> spec_put_aside(MetaDataType::BlendingVersion, spec_lookup_value(m.unrecognized.0@, MetaDataType::BlendingVersion.spec_name())) == spec_lookup_value(m.unrecognized.0@, MetaDataType::BlendingVersion.spec_name()));
    assert(m.spec_field_value(MetaDataType::OriginalDimensionHeightRange) is None ==> spec_put_aside(MetaDataType::OriginalDimensionHeightRange, spec_lookup_value(m.unrecognized.0@, MetaDataType::OriginalDimensionHeightRange.spec_name())) == spec_lookup_value(m.unrecognized.0@, MetaDataType::OriginalDimensionHeightRange.spec_name()));
    assert(m.spec_field_value(MetaDataType::LastSavedDimensionHeightRange) is None ==> spec_put_aside(MetaDataType::LastSavedDimensionHeightRange, spec_lookup_value(m.unrecognized.0@, MetaDataType::LastSavedDimensionHeightRange.spec_name())) == spec_lookup_value(m.unrecognized.0@, MetaDataType::LastSavedDimensionHeightRange.spec_name()));
    assert(m.spec_field_value(MetaDataType::UnderwaterLavaLakeFixed) is None ==> spec_put_aside(MetaDataType::UnderwaterLavaLakeFixed, spec_lookup_value(m.unrecognized.0@, MetaDataType::UnderwaterLavaLakeFixed.spec_name())) == spec_lookup_value(m.unrecognized.0@, MetaDataType::UnderwaterLavaLakeFixed.spec_name()));
    assert(m.spec_field_value(MetaDataType::WorldGenBelowZeroFixed) is None ==> spec_put_aside(MetaDataType::WorldGenBelowZeroFixed, spec_lookup_value(m.unrecognized.0@, MetaDataType::WorldGenBelowZeroFixed.spec_name())) == spec_lookup_value(m.unrecognized.0@, MetaDataType::WorldGenBelowZeroFixed.spec_name()));
    assert(m.spec_field_value(MetaDataType::SkullFlatteningPerformed) is None ==> spec_put_aside(MetaDataType::SkullFlatteningPerformed, spec_lookup_value(m.unrecognized.0@, MetaDataType::SkullFlatteningPerformed.spec_name())) == spec_lookup_value(m.unrecognized.0@, MetaDataType::SkullFlatteningPerformed.spec_name()));
}


/// Whether named values are in strictly increasing order of their names.
pub open spec fn spec_values_sorted(entries: Seq<(Seq<char>, TagValue)>) -> bool {
    forall|i: int, j: int|
        0 <= i < j < entries.len() ==> spec_name_lt(#[trigger] entries[i].0, #[trigger] entries[j].0)
}

/// A name that is found among named values is the name of one of them.
proof fn lemma_value_lookup_found(entries: Seq<(Seq<char>, TagValue)>, name: Seq<char>)
    requires
        spec_value_lookup(entries, name) is Some,
    ensures
        exists|j: int| 0 <= j < entries.len() && #[trigger] entries[j].0 == name,
    decreases entries.len(),
{
    if entries.last().0 == name {
        assert(entries[entries.len() - 1].0 == name);
    } else {
        lemma_value_lookup_found(entries.drop_last(), name);
        let j = choose|j: int| 0 <= j < entries.drop_last().len() && #[trigger] entries.drop_last()[j].0 == name;
        assert(entries[j].0 == name);
    }
}

/// A name that none of the named values has is not found.
proof fn lemma_value_lookup_absent(entries: Seq<(Seq<char>, TagValue)>, name: Seq<char>)
    requires
        forall|j: int| 0 <= j < entries.len() ==> #[trigger] entries[j].0 != name,
    ensures
        spec_value_lookup(entries, name) is None,
    decreases entries.len(),
{
    if entries.len() > 0 {
        assert(entries[entries.len() - 1].0 != name);
        let d = entries.drop_last();
        assert forall|j: int| 0 <= j < d.len() implies #[trigger] d[j].0 != name by {
            assert(d[j] == entries[j]);
        }
        lemma_value_lookup_absent(d, name);
    }
}

/// Two sorted sequences of named values that give the same value for every name are the same.
proof fn lemma_sorted_values_unique(a: Seq<(Seq<char>, TagValue)>, b: Seq<(Seq<char>, TagValue)>)
    requires
        spec_values_sorted(a),
        spec_values_sorted(b),
        forall|n: Seq<char>| #[trigger] spec_value_lookup(a, n) == spec_value_lookup(b, n),
    ensures
        a == b,
    decreases a.len() + b.len(),
{
    if a.len() == 0 && b.len() == 0 {
        assert(a =~= b);
    } else if a.len() == 0 {
        assert(spec_value_lookup(b, b.last().0) is Some);
        assert(spec_value_lookup(a, b.last().0) is None);
    } else if b.len() == 0 {
        assert(spec_value_lookup(a, a.last().0) is Some);
        assert(spec_value_lookup(b, a.last().0) is None);
    } else {
        let x = a.last();
        let y = b.last();
        assert(spec_value_lookup(a, x.0) == Some(x.1));
        assert(spec_value_lookup(b, y.0) == Some(y.1));
        lemma_value_lookup_found(b, x.0);
        lemma_value_lookup_found(a, y.0);
        let jb = choose|j: int| 0 <= j < b.len() && #[trigger] b[j].0 == x.0;
        let ja = choose|j: int| 0 <= j < a.len() && #[trigger] a[j].0 == y.0;
        if x.0 != y.0 {
            assert(jb != b.len() - 1);
            assert(ja != a.len() - 1);
            assert(spec_name_lt(b[jb].0, b[b.len() - 1].0));
            assert(spec_name_lt(a[ja].0, a[a.len() - 1].0));
            lemma_name_lt_transitive(x.0, y.0, x.0);
            lemma_name_lt_irreflexive(x.0);
        }
        assert(x.0 == y.0);
        assert(x.1 == y.1);
        let da = a.drop_last();
        let db = b.drop_last();
        assert forall|i: int, j: int| 0 <= i < j < da.len() implies spec_name_lt(
            #[trigger] da[i].0,
            #[trigger] da[j].0,
        ) by {
            assert(da[i] == a[i] && da[j] == a[j]);
        }
        assert forall|i: int, j: int| 0 <= i < j < db.len() implies spec_name_lt(
            #[trigger] db[i].0,
            #[trigger] db[j].0,
        ) by {
            assert(db[i] == b[i] && db[j] == b[j]);
        }
        assert forall|n: Seq<char>| #[trigger] spec_value_lookup(da, n) == spec_value_lookup(db, n) by {
            if n == x.0 {
                assert forall|j: int| 0 <= j < da.len() implies #[trigger] da[j].0 != n by {
                    assert(da[j] == a[j]);
                    assert(spec_name_lt(a[j].0, a[a.len() - 1].0));
                    lemma_name_lt_irreflexive(n);
                }
                assert forall|j: int| 0 <= j < db.len() implies #[trigger] db[j].0 != n by {
                    assert(db[j] == b[j]);
                    assert(spec_name_lt(b[j].0, b[b.len() - 1].0));
                    lemma_name_lt_irreflexive(n);
                }
                lemma_value_lookup_absent(da, n);
                lemma_value_lookup_absent(db, n);
            } else {
                assert(spec_value_lookup(a, n) == spec_value_lookup(da, n));
                assert(spec_value_lookup(b, n) == spec_value_lookup(db, n));
            }
        }
        lemma_sorted_values_unique(da, db);
        assert(a =~= da.push(x));
        assert(b =~= db.push(y));
    }
}

/// The position of a kind in the order of the names.
pub open spec fn spec_name_rank(kind: MetaDataType) -> int {
    match kind {
        MetaDataType::BiomeBaseGameVersion => 0,
        MetaDataType::BlendingVersion => 1,
        MetaDataType::DimensionName => 2,
        MetaDataType::GenerationSeed => 3,
        MetaDataType::GeneratorType => 4,
        MetaDataType::LastSavedBaseGameVersion => 5,
        MetaDataType::LastSavedDimensionHeightRange => 6,
        MetaDataType::OriginalBaseGameVersion => 7,
        MetaDataType::OriginalDimensionHeightRange => 8,
        MetaDataType::Overworld1_18HeightExtended => 9,
        MetaDataType::SkullFlatteningPerformed => 10,
        MetaDataType::UnderwaterLavaLakeFixed => 11,
        MetaDataType::WorldGen1_18AppliedBelow0 => 12,
        MetaDataType::WorldGenBelowZeroFixed => 13,
    }
}

/// Each step of a chain of names that increase step by step, increases.
proof fn lemma_name_chain(names: Seq<Seq<char>>, i: int, j: int)
    requires
        forall|t: int| 0 <= t < names.len() - 1 ==> spec_name_lt(#[trigger] names[t], names[t + 1]),
        0 <= i < j < names.len(),
    ensures
        spec_name_lt(names[i], names[j]),
    decreases j - i,
{
    if j > i + 1 {
        lemma_name_chain(names, i, j - 1);
        assert(spec_name_lt(names[j - 1], names[j]));
        lemma_name_lt_transitive(names[i], names[j - 1], names[j]);
    }
}

/// The names of the kinds, taken in the order of `spec_kinds_by_name`, increase.
proof fn lemma_kinds_by_name_sorted(a: MetaDataType, b: MetaDataType)
    requires
        spec_name_rank(a) < spec_name_rank(b),
    ensures
        spec_name_lt(a.spec_name(), b.spec_name()),
{
    let k = spec_kinds_by_name();
    let names = Seq::new(14, |t: int| k[t].spec_name());
    reveal_strlit("BiomeBaseGameVersion");
    reveal_strlit("BlendingVersion");
    reveal_strlit("DimensionName");
    reveal_strlit("GenerationSeed");
    reveal_strlit("GeneratorType");
    reveal_strlit("LastSavedBaseGameVersion");
    reveal_strlit("LastSavedDimensionHeightRange");
    reveal_strlit("OriginalBaseGameVersion");
    reveal_strlit("OriginalDimensionHeightRange");
    reveal_strlit("Overworld1_18HeightExtended");
    reveal_strlit("SkullFlatteningPerformed");
    reveal_strlit("UnderwaterLavaLakeFixed");
    reveal_strlit("WorldGen1_18AppliedBelow0");
    reveal_strlit("WorldGenBelowZeroFixed");
    assert(spec_name_lt(names[0], names[1])) by {
        reveal_with_fuel(spec_name_lt, 3);
    }
    assert(spec_name_lt(names[1], names[2]));
    assert(spec_name_lt(names[2], names[3]));
    assert(spec_name_lt(names[3], names[4])) by {
        reveal_with_fuel(spec_name_lt, 9);
    }
    assert(spec_name_lt(names[4], names[5]));
    assert(spec_name_lt(names[5], names[6])) by {
        reveal_with_fuel(spec_name_lt, 11);
    }
    assert(spec_name_lt(names[6], names[7]));
    assert(spec_name_lt(names[7], names[8])) by {
        reveal_with_fuel(spec_name_lt, 10);
    }
    assert(spec_name_lt(names[8], names[9])) by {
        reveal_with_fuel(spec_name_lt, 3);
    }
    assert(spec_name_lt(names[9], names[10]));
    assert(spec_name_lt(names[10], names[11]));
    assert(spec_name_lt(names[11], names[12]));
    assert(spec_name_lt(names[12], names[13])) by {
        reveal_with_fuel(spec_name_lt, 10);
    }
    assert forall|t: int| 0 <= t < names.len() - 1 implies spec_name_lt(#[trigger] names[t], names[t + 1]) by {
        if t == 0 {} else if t == 1 {} else if t == 2 {} else if t == 3 {} else if t == 4 {}
        else if t == 5 {} else if t == 6 {} else if t == 7 {} else if t == 8 {} else if t == 9 {}
        else if t == 10 {} else if t == 11 {} else {}
    }
    lemma_name_chain(names, spec_name_rank(a), spec_name_rank(b));
    assert(names[spec_name_rank(a)] == a.spec_name());
    assert(names[spec_name_rank(b)] == b.spec_name());
}


/// Whether `name` is the name of one of the first `k` kinds in the order of the names.
pub open spec fn spec_kind_below(name: Seq<char>, k: nat) -> bool {
    MetaDataType::spec_from_name(name) matches Some(kd) && spec_name_rank(kd) < k
}

/// Whether `name` is the name of a kind whose field is not set in `m`.
pub open spec fn spec_unset_kind(m: MetaData, name: Seq<char>) -> bool {
    MetaDataType::spec_from_name(name) matches Some(kd) && m.spec_field_value(kd) is None
}

/// The kinds in the order of their names are at their positions.
proof fn lemma_name_rank()
    ensures
        forall|i: int| 0 <= i < 14 ==> #[trigger] spec_name_rank(spec_kinds_by_name()[i]) == i,
        forall|a: MetaDataType, b: MetaDataType|
            #[trigger] spec_name_rank(a) == #[trigger] spec_name_rank(b) ==> a == b,
        forall|a: MetaDataType| 0 <= #[trigger] spec_name_rank(a) < 14,
{
    assert forall|i: int| 0 <= i < 14 implies #[trigger] spec_name_rank(spec_kinds_by_name()[i]) == i by {
        if i == 0 {} else if i == 1 {} else if i == 2 {} else if i == 3 {} else if i == 4 {}
        else if i == 5 {} else if i == 6 {} else if i == 7 {} else if i == 8 {} else if i == 9 {}
        else if i == 10 {} else if i == 11 {} else if i == 12 {} else {}
    }
}

/// The values put aside for the first `k` kinds in the order of their names are in that
/// order, each under the name of its kind, and give for a kind's name what is put aside for it.
proof fn lemma_put_aside_entries(entries: Seq<(String, NbtTag)>, k: nat)
    requires
        k <= 14,
    ensures
        spec_values_sorted(spec_put_aside_entries(entries, k)),
        forall|j: int|
            0 <= j < spec_put_aside_entries(entries, k).len() ==> #[trigger] spec_kind_below(
                spec_put_aside_entries(entries, k)[j].0,
                k,
            ),
        forall|n: Seq<char>|
            #[trigger] spec_value_lookup(spec_put_aside_entries(entries, k), n) == match MetaDataType::spec_from_name(n) {
                Some(kd) => if spec_name_rank(kd) < k {
                    spec_put_aside(kd, spec_lookup_value(entries, n))
                } else {
                    None
                },
                None => None,
            },
    decreases k,
{
    lemma_name_rank();
    if k == 0 {
        assert forall|n: Seq<char>| #[trigger] spec_value_lookup(spec_put_aside_entries(entries, k), n) == match MetaDataType::spec_from_name(n) {
            Some(kd) => if spec_name_rank(kd) < k {
                spec_put_aside(kd, spec_lookup_value(entries, n))
            } else {
                None
            },
            None => None,
        } by {}
    } else {
        lemma_put_aside_entries(entries, (k - 1) as nat);
        let t = spec_kinds_by_name()[k - 1];
        assert(spec_name_rank(t) == k - 1);
        lemma_meta_data_type_name_roundtrip(t);
        let rest = spec_put_aside_entries(entries, (k - 1) as nat);
        let p = spec_put_aside_entries(entries, k);
        match spec_put_aside(t, spec_lookup_value(entries, t.spec_name())) {
            Some(v) => {
                assert(p == rest.push((t.spec_name(), v)));
                assert forall|i: int, j: int| 0 <= i < j < p.len() implies spec_name_lt(
                    #[trigger] p[i].0,
                    #[trigger] p[j].0,
                ) by {
                    if j == p.len() - 1 {
                        assert(p[i] == rest[i]);
                        assert(spec_kind_below(rest[i].0, (k - 1) as nat));
                        let kd = MetaDataType::spec_from_name(rest[i].0)->0;
                        lemma_name_kinds(rest[i].0, kd);
                        lemma_kinds_by_name_sorted(kd, t);
                    } else {
                        assert(p[i] == rest[i] && p[j] == rest[j]);
                    }
                }
                assert forall|j: int| 0 <= j < p.len() implies #[trigger] spec_kind_below(p[j].0, k) by {
                    if j < rest.len() {
                        assert(p[j] == rest[j]);
                        assert(spec_kind_below(rest[j].0, (k - 1) as nat));
                    }
                }
                assert forall|n: Seq<char>| #[trigger] spec_value_lookup(p, n) == match MetaDataType::spec_from_name(n) {
                    Some(kd) => if spec_name_rank(kd) < k {
                        spec_put_aside(kd, spec_lookup_value(entries, n))
                    } else {
                        None
                    },
                    None => None,
                } by {
                    assert(p.drop_last() =~= rest);
                    assert(p.last() == (t.spec_name(), v));
                    assert(spec_value_lookup(p, n) == if t.spec_name() == n {
                        Some(v)
                    } else {
                        spec_value_lookup(rest, n)
                    });
                    lemma_name_kinds(n, t);
                }
            },
            None => {
                assert(p == rest);
                assert forall|j: int| 0 <= j < p.len() implies #[trigger] spec_kind_below(p[j].0, k) by {
                    assert(spec_kind_below(rest[j].0, (k - 1) as nat));
                }
                assert forall|n: Seq<char>| #[trigger] spec_value_lookup(p, n) == match MetaDataType::spec_from_name(n) {
                    Some(kd) => if spec_name_rank(kd) < k {
                        spec_put_aside(kd, spec_lookup_value(entries, n))
                    } else {
                        None
                    },
                    None => None,
                } by {
                    lemma_name_kinds(n, t);
                }
            },
        }
    }
}

/// A set field is written as a value that is read as that field, not put aside.
proof fn lemma_field_fits(m: MetaData, kind: MetaDataType)
    ensures
        m.spec_field_value(kind) matches Some(v) ==> spec_put_aside(kind, Some(v)) is None,
{
    match m.generator_type {
        Some(g) => {
            lemma_generator_type_i32_roundtrip(g, g.spec_to_i32());
        },
        None => {},
    }
    match m.blending_version {
        Some(b) => {
            lemma_blending_version_i16_roundtrip(b, b.spec_to_i16());
        },
        None => {},
    }
    match m.original_dimension_height_range {
        Some(r) => {
            lemma_range_value_read(r);
        },
        None => {},
    }
    match m.last_saved_dimension_height_range {
        Some(r) => {
            lemma_range_value_read(r);
        },
        None => {},
    }
}

/// Chunk metadata written as a compound and read back keeps the entries it did not recognise,
/// where those are in the order of their names and each is under the name of a kind whose
/// field is not set, with a value that would not be read as that field.
pub proof fn lemma_metadata_write_read_unrecognized(m: MetaData, c: NbtCompound, back: MetaData)
    requires
        forall|n: Seq<char>| #[trigger] spec_lookup_value(c.0@, n) == m.spec_written_value(n),
        MetaData::spec_read_from(c, back),
        spec_names_sorted(m.unrecognized.0@),
        forall|i: int|
            0 <= i < m.unrecognized.0@.len() ==> #[trigger] spec_unset_kind(
                m,
                m.unrecognized.0@[i].0@,
            ),
        forall|k: MetaDataType|
            m.spec_field_value(k) is None ==> #[trigger] spec_put_aside(
                k,
                spec_lookup_value(m.unrecognized.0@, k.spec_name()),
            ) == spec_lookup_value(m.unrecognized.0@, k.spec_name()),
    ensures
        spec_entry_values(back.unrecognized.0@) == spec_entry_values(m.unrecognized.0@),
{
    let u = m.unrecognized.0@;
    let a = spec_entry_values(u);
    let b = spec_put_aside_entries(c.0@, 14);
    lemma_entry_values_index(u);
    lemma_put_aside_entries(c.0@, 14);
    lemma_name_rank();
    assert forall|i: int, j: int| 0 <= i < j < a.len() implies spec_name_lt(
        #[trigger] a[i].0,
        #[trigger] a[j].0,
    ) by {
        assert(spec_name_lt(u[i].0@, u[j].0@));
    }
    assert forall|n: Seq<char>| #[trigger] spec_value_lookup(a, n) == spec_value_lookup(b, n) by {
        lemma_value_lookup(u, n);
        match MetaDataType::spec_from_name(n) {
            Some(kd) => {
                lemma_name_kinds(n, kd);
                lemma_written_kind(m, c, kd);
                lemma_field_fits(m, kd);
                if m.spec_field_value(kd) is Some {
                    assert forall|i: int| 0 <= i < u.len() implies #[trigger] u[i].0@ != n by {
                        assert(spec_unset_kind(m, u[i].0@));
                    }
                    lemma_lookup_absent(u, n);
                }
            },
            None => {
                assert forall|i: int| 0 <= i < u.len() implies #[trigger] u[i].0@ != n by {
                    assert(spec_unset_kind(m, u[i].0@));
                }
                lemma_lookup_absent(u, n);
            },
        }
    }
    lemma_sorted_values_unique(a, b);
}

/// The numbers of the kinds of chunk metadata, in the order in which the game lists them, from
/// 0 for `LastSavedBaseGameVersion` to 13 for `SkullFlatteningPerformed`; no other number is a
/// kind.
pub proof fn lemma_meta_data_type_numbering()
    ensures
        MetaDataType::LastSavedBaseGameVersion.spec_to_u8() == 0u8,
        MetaDataType::spec_from_u8(0u8) == Some(MetaDataType::LastSavedBaseGameVersion),
        MetaDataType::OriginalBaseGameVersion.spec_to_u8() == 1u8,
        MetaDataType::spec_from_u8(1u8) == Some(MetaDataType::OriginalBaseGameVersion),
        MetaDataType::BiomeBaseGameVersion.spec_to_u8() == 2u8,
        MetaDataType::spec_from_u8(2u8) == Some(MetaDataType::BiomeBaseGameVersion),
        MetaDataType::DimensionName.spec_to_u8() == 3u8,
        MetaDataType::spec_from_u8(3u8) == Some(MetaDataType::DimensionName),
        MetaDataType::GenerationSeed.spec_to_u8() == 4u8,
        MetaDataType::spec_from_u8(4u8) == Some(MetaDataType::GenerationSeed),
        MetaDataType::GeneratorType.spec_to_u8() == 5u8,
        MetaDataType::spec_from_u8(5u8) == Some(MetaDataType::GeneratorType),
        MetaDataType::WorldGen1_18AppliedBelow0.spec_to_u8() == 6u8,
        MetaDataType::spec_from_u8(6u8) == Some(MetaDataType::WorldGen1_18AppliedBelow0),
        MetaDataType::Overworld1_18HeightExtended.spec_to_u8() == 7u8,
        MetaDataType::spec_from_u8(7u8) == Some(MetaDataType::Overworld1_18HeightExtended),
        MetaDataType::BlendingVersion.spec_to_u8() == 8u8,
        MetaDataType::spec_from_u8(8u8) == Some(MetaDataType::BlendingVersion),
        MetaDataType::OriginalDimensionHeightRange.spec_to_u8() == 9u8,
        MetaDataType::spec_from_u8(9u8) == Some(MetaDataType::OriginalDimensionHeightRange),
        MetaDataType::LastSavedDimensionHeightRange.spec_to_u8() == 10u8,
        MetaDataType::spec_from_u8(10u8) == Some(MetaDataType::LastSavedDimensionHeightRange),
        MetaDataType::UnderwaterLavaLakeFixed.spec_to_u8() == 11u8,
        MetaDataType::spec_from_u8(11u8) == Some(MetaDataType::UnderwaterLavaLakeFixed),
        MetaDataType::WorldGenBelowZeroFixed.spec_to_u8() == 12u8,
        MetaDataType::spec_from_u8(12u8) == Some(MetaDataType::WorldGenBelowZeroFixed),
        MetaDataType::SkullFlatteningPerformed.spec_to_u8() == 13u8,
        MetaDataType::spec_from_u8(13u8) == Some(MetaDataType::SkullFlatteningPerformed),
        forall|b: u8| b > 13 ==> #[trigger] MetaDataType::spec_from_u8(b) is None,
{
}

/// Each kind of chunk metadata is stored under its own name, and each of those names is read as
/// that kind.
pub proof fn lemma_meta_data_type_names()
    ensures
        MetaDataType::LastSavedBaseGameVersion.spec_name() == "LastSavedBaseGameVersion"@,
        MetaDataType::LastSavedBaseGameVersion.spec_name_str() == "LastSavedBaseGameVersion",
        MetaDataType::spec_from_name("LastSavedBaseGameVersion"@) == Some(MetaDataType::LastSavedBaseGameVersion),
        MetaDataType::OriginalBaseGameVersion.spec_name() == "OriginalBaseGameVersion"@,
        MetaDataType::OriginalBaseGameVersion.spec_name_str() == "OriginalBaseGameVersion",
        MetaDataType::spec_from_name("OriginalBaseGameVersion"@) == Some(MetaDataType::OriginalBaseGameVersion),
        MetaDataType::BiomeBaseGameVersion.spec_name() == "BiomeBaseGameVersion"@,
        MetaDataType::BiomeBaseGameVersion.spec_name_str() == "BiomeBaseGameVersion",
        MetaDataType::spec_from_name("BiomeBaseGameVersion"@) == Some(MetaDataType::BiomeBaseGameVersion),
        MetaDataType::DimensionName.spec_name() == "DimensionName"@,
        MetaDataType::DimensionName.spec_name_str() == "DimensionName",
        MetaDataType::spec_from_name("DimensionName"@) == Some(MetaDataType::DimensionName),
        MetaDataType::GenerationSeed.spec_name() == "GenerationSeed"@,
        MetaDataType::GenerationSeed.spec_name_str() == "GenerationSeed",
        MetaDataType::spec_from_name("GenerationSeed"@) == Some(MetaDataType::GenerationSeed),
        MetaDataType::GeneratorType.spec_name() == "GeneratorType"@,
        MetaDataType::GeneratorType.spec_name_str() == "GeneratorType",
        MetaDataType::spec_from_name("GeneratorType"@) == Some(MetaDataType::GeneratorType),
        MetaDataType::WorldGen1_18AppliedBelow0.spec_name() == "WorldGen1_18AppliedBelow0"@,
        MetaDataType::WorldGen1_18AppliedBelow0.spec_name_str() == "WorldGen1_18AppliedBelow0",
        MetaDataType::spec_from_name("WorldGen1_18AppliedBelow0"@) == Some(MetaDataType::WorldGen1_18AppliedBelow0),
        MetaDataType::Overworld1_18HeightExtended.spec_name() == "Overworld1_18HeightExtended"@,
        MetaDataType::Overworld1_18HeightExtended.spec_name_str() == "Overworld1_18HeightExtended",
        MetaDataType::spec_from_name("Overworld1_18HeightExtended"@) == Some(MetaDataType::Overworld1_18HeightExtended),
        MetaDataType::BlendingVersion.spec_name() == "BlendingVersion"@,
        MetaDataType::BlendingVersion.spec_name_str() == "BlendingVersion",
        MetaDataType::spec_from_name("BlendingVersion"@) == Some(MetaDataType::BlendingVersion),
        MetaDataType::OriginalDimensionHeightRange.spec_name() == "OriginalDimensionHeightRange"@,
        MetaDataType::OriginalDimensionHeightRange.spec_name_str() == "OriginalDimensionHeightRange",
        MetaDataType::spec_from_name("OriginalDimensionHeightRange"@) == Some(MetaDataType::OriginalDimensionHeightRange),
        MetaDataType::LastSavedDimensionHeightRange.spec_name() == "LastSavedDimensionHeightRange"@,
        MetaDataType::LastSavedDimensionHeightRange.spec_name_str() == "LastSavedDimensionHeightRange",
        MetaDataType::spec_from_name("LastSavedDimensionHeightRange"@) == Some(MetaDataType::LastSavedDimensionHeightRange),
        MetaDataType::UnderwaterLavaLakeFixed.spec_name() == "UnderwaterLavaLakeFixed"@,
        MetaDataType::UnderwaterLavaLakeFixed.spec_name_str() == "UnderwaterLavaLakeFixed",
        MetaDataType::spec_from_name("UnderwaterLavaLakeFixed"@) == Some(MetaDataType::UnderwaterLavaLakeFixed),
        MetaDataType::WorldGenBelowZeroFixed.spec_name() == "WorldGenBelowZeroFixed"@,
        MetaDataType::WorldGenBelowZeroFixed.spec_name_str() == "WorldGenBelowZeroFixed",
        MetaDataType::spec_from_name("WorldGenBelowZeroFixed"@) == Some(MetaDataType::WorldGenBelowZeroFixed),
        MetaDataType::SkullFlatteningPerformed.spec_name() == "SkullFlatteningPerformed"@,
        MetaDataType::SkullFlatteningPerformed.spec_name_str() == "SkullFlatteningPerformed",
        MetaDataType::spec_from_name("SkullFlatteningPerformed"@) == Some(MetaDataType::SkullFlatteningPerformed),
{
    lemma_meta_data_type_name_roundtrip(MetaDataType::LastSavedBaseGameVersion);
    lemma_meta_data_type_name_roundtrip(MetaDataType::OriginalBaseGameVersion);
    lemma_meta_data_type_name_roundtrip(MetaDataType::BiomeBaseGameVersion);
    lemma_meta_data_type_name_roundtrip(MetaDataType::DimensionName);
    lemma_meta_data_type_name_roundtrip(MetaDataType::GenerationSeed);
    lemma_meta_data_type_name_roundtrip(MetaDataType::GeneratorType);
    lemma_meta_data_type_name_roundtrip(MetaDataType::WorldGen1_18AppliedBelow0);
    lemma_meta_data_type_name_roundtrip(MetaDataType::Overworld1_18HeightExtended);
    lemma_meta_data_type_name_roundtrip(MetaDataType::BlendingVersion);
    lemma_meta_data_type_name_roundtrip(MetaDataType::OriginalDimensionHeightRange);
    lemma_meta_data_type_name_roundtrip(MetaDataType::LastSavedDimensionHeightRange);
    lemma_meta_data_type_name_roundtrip(MetaDataType::UnderwaterLavaLakeFixed);
    lemma_meta_data_type_name_roundtrip(MetaDataType::WorldGenBelowZeroFixed);
    lemma_meta_data_type_name_roundtrip(MetaDataType::SkullFlatteningPerformed);
}

/// The blending versions are the game's numbers: 0 is 1.19.0, 1 to 3 are its revisions 1 to 3,
/// 4 is 1.20.0, 5 its revision 1, 6 is 1.21.50 and 7 is 1.21.60; no other number is a blending
/// version.
pub proof fn lemma_blending_version_numbering()
    ensures
        BlendingVersion::V1_19_0.spec_to_i16() == 0i16,
        BlendingVersion::spec_from_i16(0i16) == Some(BlendingVersion::V1_19_0),
        BlendingVersion::V1_19_0_1.spec_to_i16() == 1i16,
        BlendingVersion::spec_from_i16(1i16) == Some(BlendingVersion::V1_19_0_1),
        BlendingVersion::V1_19_0_2.spec_to_i16() == 2i16,
        BlendingVersion::spec_from_i16(2i16) == Some(BlendingVersion::V1_19_0_2),
        BlendingVersion::V1_19_0_3.spec_to_i16() == 3i16,
        BlendingVersion::spec_from_i16(3i16) == Some(BlendingVersion::V1_19_0_3),
        BlendingVersion::V1_20_0.spec_to_i16() == 4i16,
        BlendingVersion::spec_from_i16(4i16) == Some(BlendingVersion::V1_20_0),
        BlendingVersion::V1_20_0_1.spec_to_i16() == 5i16,
        BlendingVersion::spec_from_i16(5i16) == Some(BlendingVersion::V1_20_0_1),
        BlendingVersion::V1_21_50.spec_to_i16() == 6i16,
        BlendingVersion::spec_from_i16(6i16) == Some(BlendingVersion::V1_21_50),
        BlendingVersion::V1_21_60.spec_to_i16() == 7i16,
        BlendingVersion::spec_from_i16(7i16) == Some(BlendingVersion::V1_21_60),
        forall|v: i16| (v < 0 || v > 7) ==> #[trigger] BlendingVersion::spec_from_i16(v) is None,
{
}

/// The generator types are the game's numbers: 0 old, 1 infinite, 2 flat; no other number is a
/// generator type.
pub proof fn lemma_generator_type_numbering()
    ensures
        GeneratorType::Old.spec_to_i32() == 0i32,
        GeneratorType::spec_from_i32(0i32) == Some(GeneratorType::Old),
        GeneratorType::Infinite.spec_to_i32() == 1i32,
        GeneratorType::spec_from_i32(1i32) == Some(GeneratorType::Infinite),
        GeneratorType::Flat.spec_to_i32() == 2i32,
        GeneratorType::spec_from_i32(2i32) == Some(GeneratorType::Flat),
        forall|v: i32| (v < 0 || v > 2) ==> #[trigger] GeneratorType::spec_from_i32(v) is None,
{
}

} // verus!
