//! The chunk format versions of Bedrock Edition, stored under a chunk's `Version` and
//! `LegacyVersion` keys.

use vstd::prelude::*;

use crate::translation::datatypes::{spec_version_le, spec_version_lt, version_lt, NumericVersion};

verus! {

/// The format version of a chunk.
#[derive(Debug, Clone, Copy, PartialEq, Eq, PartialOrd, Ord, Hash, Structural)]
pub enum ChunkVersion {
    V0,
    V1,
    V2,
    V3,
    V4,
    V5,
    V6,
    V7,
    V8,
    V9,
    V10,
    V11,
    V12,
    V13,
    V14,
    V15,
    V16,
    V17,
    V18,
    V19,
    V20,
    V21,
    V22,
    V23,
    V24,
    V25,
    V26,
    V27,
    V28,
    V29,
    V30,
    V31,
    V32,
    V33,
    V34,
    V35,
    V36,
    V37,
    V38,
    V39,
    V40,
    V41,
}

impl ChunkVersion {
    /// The byte that stands for this version.
    pub open spec fn spec_to_byte(self) -> u8 {
        match self {
            ChunkVersion::V0 => 0u8,
            ChunkVersion::V1 => 1u8,
            ChunkVersion::V2 => 2u8,
            ChunkVersion::V3 => 3u8,
            ChunkVersion::V4 => 4u8,
            ChunkVersion::V5 => 5u8,
            ChunkVersion::V6 => 6u8,
            ChunkVersion::V7 => 7u8,
            ChunkVersion::V8 => 8u8,
            ChunkVersion::V9 => 9u8,
            ChunkVersion::V10 => 10u8,
            ChunkVersion::V11 => 11u8,
            ChunkVersion::V12 => 12u8,
            ChunkVersion::V13 => 13u8,
            ChunkVersion::V14 => 14u8,
            ChunkVersion::V15 => 15u8,
            ChunkVersion::V16 => 16u8,
            ChunkVersion::V17 => 17u8,
            ChunkVersion::V18 => 18u8,
            ChunkVersion::V19 => 19u8,
            ChunkVersion::V20 => 20u8,
            ChunkVersion::V21 => 21u8,
            ChunkVersion::V22 => 22u8,
            ChunkVersion::V23 => 23u8,
            ChunkVersion::V24 => 24u8,
            ChunkVersion::V25 => 25u8,
            ChunkVersion::V26 => 26u8,
            ChunkVersion::V27 => 27u8,
            ChunkVersion::V28 => 28u8,
            ChunkVersion::V29 => 29u8,
            ChunkVersion::V30 => 30u8,
            ChunkVersion::V31 => 31u8,
            ChunkVersion::V32 => 32u8,
            ChunkVersion::V33 => 33u8,
            ChunkVersion::V34 => 34u8,
            ChunkVersion::V35 => 35u8,
            ChunkVersion::V36 => 36u8,
            ChunkVersion::V37 => 37u8,
            ChunkVersion::V38 => 38u8,
            ChunkVersion::V39 => 39u8,
            ChunkVersion::V40 => 40u8,
            ChunkVersion::V41 => 41u8,
        }
    }

    /// The version that a byte stands for, if any.
    pub open spec fn spec_from_byte(byte: u8) -> Option<ChunkVersion> {
        match byte {
            0u8 => Some(ChunkVersion::V0),
            1u8 => Some(ChunkVersion::V1),
            2u8 => Some(ChunkVersion::V2),
            3u8 => Some(ChunkVersion::V3),
            4u8 => Some(ChunkVersion::V4),
            5u8 => Some(ChunkVersion::V5),
            6u8 => Some(ChunkVersion::V6),
            7u8 => Some(ChunkVersion::V7),
            8u8 => Some(ChunkVersion::V8),
            9u8 => Some(ChunkVersion::V9),
            10u8 => Some(ChunkVersion::V10),
            11u8 => Some(ChunkVersion::V11),
            12u8 => Some(ChunkVersion::V12),
            13u8 => Some(ChunkVersion::V13),
            14u8 => Some(ChunkVersion::V14),
            15u8 => Some(ChunkVersion::V15),
            16u8 => Some(ChunkVersion::V16),
            17u8 => Some(ChunkVersion::V17),
            18u8 => Some(ChunkVersion::V18),
            19u8 => Some(ChunkVersion::V19),
            20u8 => Some(ChunkVersion::V20),
            21u8 => Some(ChunkVersion::V21),
            22u8 => Some(ChunkVersion::V22),
            23u8 => Some(ChunkVersion::V23),
            24u8 => Some(ChunkVersion::V24),
            25u8 => Some(ChunkVersion::V25),
            26u8 => Some(ChunkVersion::V26),
            27u8 => Some(ChunkVersion::V27),
            28u8 => Some(ChunkVersion::V28),
            29u8 => Some(ChunkVersion::V29),
            30u8 => Some(ChunkVersion::V30),
            31u8 => Some(ChunkVersion::V31),
            32u8 => Some(ChunkVersion::V32),
            33u8 => Some(ChunkVersion::V33),
            34u8 => Some(ChunkVersion::V34),
            35u8 => Some(ChunkVersion::V35),
            36u8 => Some(ChunkVersion::V36),
            37u8 => Some(ChunkVersion::V37),
            38u8 => Some(ChunkVersion::V38),
            39u8 => Some(ChunkVersion::V39),
            40u8 => Some(ChunkVersion::V40),
            41u8 => Some(ChunkVersion::V41),
            _ => None,
        }
    }

    /// The lowest game version in which this chunk version was used. Versions 16-17, 23-24,
    /// 26-28, 30, and 32-38 do not have precisely known game versions; theirs err on the
    /// high side.
    pub open spec fn spec_lowest_game_version(self) -> NumericVersion {
        match self {
            ChunkVersion::V0 => NumericVersion(0, 9, 0, 0, 0),
            ChunkVersion::V1 => NumericVersion(0, 9, 2, 0, 0),
            ChunkVersion::V2 => NumericVersion(0, 9, 5, 0, 0),
            ChunkVersion::V3 => NumericVersion(0, 17, 0, 0, 0),
            ChunkVersion::V4 => NumericVersion(0, 18, 0, 0, 0),
            ChunkVersion::V5 => NumericVersion(0, 18, 0, 0, 0),
            ChunkVersion::V6 => NumericVersion(1, 2, 0, 0, 0),
            ChunkVersion::V7 => NumericVersion(1, 2, 0, 0, 0),
            ChunkVersion::V8 => NumericVersion(1, 3, 0, 0, 0),
            ChunkVersion::V9 => NumericVersion(1, 8, 0, 0, 0),
            ChunkVersion::V10 => NumericVersion(1, 9, 0, 0, 0),
            ChunkVersion::V11 => NumericVersion(1, 10, 0, 0, 0),
            ChunkVersion::V12 => NumericVersion(1, 11, 0, 0, 0),
            ChunkVersion::V13 => NumericVersion(1, 11, 1, 0, 0),
            ChunkVersion::V14 => NumericVersion(1, 11, 2, 0, 0),
            ChunkVersion::V15 => NumericVersion(1, 12, 0, 0, 0),
            ChunkVersion::V16 => NumericVersion(1, 14, 0, 0, 0),
            ChunkVersion::V17 => NumericVersion(1, 15, 0, 0, 0),
            ChunkVersion::V18 => NumericVersion(1, 16, 0, 0, 0),
            ChunkVersion::V19 => NumericVersion(1, 16, 0, 0, 0),
            ChunkVersion::V20 => NumericVersion(1, 16, 100, 56, 0),
            ChunkVersion::V21 => NumericVersion(1, 16, 100, 58, 0),
            ChunkVersion::V22 => NumericVersion(1, 16, 210, 0, 0),
            ChunkVersion::V23 => NumericVersion(1, 17, 0, 0, 0),
            ChunkVersion::V24 => NumericVersion(1, 17, 0, 0, 0),
            ChunkVersion::V25 => NumericVersion(1, 17, 0, 0, 0),
            ChunkVersion::V26 => NumericVersion(1, 17, 30, 0, 0),
            ChunkVersion::V27 => NumericVersion(1, 17, 30, 0, 0),
            ChunkVersion::V28 => NumericVersion(1, 17, 30, 0, 0),
            ChunkVersion::V29 => NumericVersion(1, 17, 30, 0, 0),
            ChunkVersion::V30 => NumericVersion(1, 17, 40, 0, 0),
            ChunkVersion::V31 => NumericVersion(1, 17, 40, 0, 0),
            ChunkVersion::V32 => NumericVersion(1, 17, 41, 0, 0),
            ChunkVersion::V33 => NumericVersion(1, 17, 41, 0, 0),
            ChunkVersion::V34 => NumericVersion(1, 17, 41, 0, 0),
            ChunkVersion::V35 => NumericVersion(1, 17, 41, 0, 0),
            ChunkVersion::V36 => NumericVersion(1, 17, 41, 0, 0),
            ChunkVersion::V37 => NumericVersion(1, 17, 41, 0, 0),
            ChunkVersion::V38 => NumericVersion(1, 17, 41, 0, 0),
            ChunkVersion::V39 => NumericVersion(1, 18, 0, 0, 0),
            ChunkVersion::V40 => NumericVersion(1, 18, 30, 0, 0),
            ChunkVersion::V41 => NumericVersion(1, 21, 40, 0, 0),
        }
    }

    /// Read a chunk version from its byte; `None` for a byte that stands for no version.
    pub fn parse(version: u8) -> (res: Option<Self>)
        ensures
            res == Self::spec_from_byte(version),
    {
        match version {
            0u8 => Some(ChunkVersion::V0),
            1u8 => Some(ChunkVersion::V1),
            2u8 => Some(ChunkVersion::V2),
            3u8 => Some(ChunkVersion::V3),
            4u8 => Some(ChunkVersion::V4),
            5u8 => Some(ChunkVersion::V5),
            6u8 => Some(ChunkVersion::V6),
            7u8 => Some(ChunkVersion::V7),
            8u8 => Some(ChunkVersion::V8),
            9u8 => Some(ChunkVersion::V9),
            10u8 => Some(ChunkVersion::V10),
            11u8 => Some(ChunkVersion::V11),
            12u8 => Some(ChunkVersion::V12),
            13u8 => Some(ChunkVersion::V13),
            14u8 => Some(ChunkVersion::V14),
            15u8 => Some(ChunkVersion::V15),
            16u8 => Some(ChunkVersion::V16),
            17u8 => Some(ChunkVersion::V17),
            18u8 => Some(ChunkVersion::V18),
            19u8 => Some(ChunkVersion::V19),
            20u8 => Some(ChunkVersion::V20),
            21u8 => Some(ChunkVersion::V21),
            22u8 => Some(ChunkVersion::V22),
            23u8 => Some(ChunkVersion::V23),
            24u8 => Some(ChunkVersion::V24),
            25u8 => Some(ChunkVersion::V25),
            26u8 => Some(ChunkVersion::V26),
            27u8 => Some(ChunkVersion::V27),
            28u8 => Some(ChunkVersion::V28),
            29u8 => Some(ChunkVersion::V29),
            30u8 => Some(ChunkVersion::V30),
            31u8 => Some(ChunkVersion::V31),
            32u8 => Some(ChunkVersion::V32),
            33u8 => Some(ChunkVersion::V33),
            34u8 => Some(ChunkVersion::V34),
            35u8 => Some(ChunkVersion::V35),
            36u8 => Some(ChunkVersion::V36),
            37u8 => Some(ChunkVersion::V37),
            38u8 => Some(ChunkVersion::V38),
            39u8 => Some(ChunkVersion::V39),
            40u8 => Some(ChunkVersion::V40),
            41u8 => Some(ChunkVersion::V41),
            _ => None,
        }
    }

    /// The byte that stands for this version.
    pub fn to_byte(self) -> (res: u8)
        ensures
            res == self.spec_to_byte(),
    {
        match self {
            ChunkVersion::V0 => 0u8,
            ChunkVersion::V1 => 1u8,
            ChunkVersion::V2 => 2u8,
            ChunkVersion::V3 => 3u8,
            ChunkVersion::V4 => 4u8,
            ChunkVersion::V5 => 5u8,
            ChunkVersion::V6 => 6u8,
            ChunkVersion::V7 => 7u8,
            ChunkVersion::V8 => 8u8,
            ChunkVersion::V9 => 9u8,
            ChunkVersion::V10 => 10u8,
            ChunkVersion::V11 => 11u8,
            ChunkVersion::V12 => 12u8,
            ChunkVersion::V13 => 13u8,
            ChunkVersion::V14 => 14u8,
            ChunkVersion::V15 => 15u8,
            ChunkVersion::V16 => 16u8,
            ChunkVersion::V17 => 17u8,
            ChunkVersion::V18 => 18u8,
            ChunkVersion::V19 => 19u8,
            ChunkVersion::V20 => 20u8,
            ChunkVersion::V21 => 21u8,
            ChunkVersion::V22 => 22u8,
            ChunkVersion::V23 => 23u8,
            ChunkVersion::V24 => 24u8,
            ChunkVersion::V25 => 25u8,
            ChunkVersion::V26 => 26u8,
            ChunkVersion::V27 => 27u8,
            ChunkVersion::V28 => 28u8,
            ChunkVersion::V29 => 29u8,
            ChunkVersion::V30 => 30u8,
            ChunkVersion::V31 => 31u8,
            ChunkVersion::V32 => 32u8,
            ChunkVersion::V33 => 33u8,
            ChunkVersion::V34 => 34u8,
            ChunkVersion::V35 => 35u8,
            ChunkVersion::V36 => 36u8,
            ChunkVersion::V37 => 37u8,
            ChunkVersion::V38 => 38u8,
            ChunkVersion::V39 => 39u8,
            ChunkVersion::V40 => 40u8,
            ChunkVersion::V41 => 41u8,
        }
    }

    /// Returns whether this value should be stored in the `LegacyVersion` key
    /// of a chunk instead of the `Version` key.
    pub fn should_be_in_legacy_version(self) -> (res: bool)
        ensures
            res == (self.spec_to_byte() < 20),
    {
        self.to_byte() < 20
    }

    /// Returns whether, in the provided version of Bedrock, chunk versions should be stored in
    /// the `LegacyVersion` key of a chunk instead of the `Version` key: whether the game version
    /// comes before the lowest game version of `V20`.
    pub fn game_uses_legacy_version(game_version: NumericVersion) -> (res: bool)
        ensures
            res == spec_version_lt(game_version, ChunkVersion::V20.spec_lowest_game_version()),
    {
        version_lt(game_version, ChunkVersion::V20.lowest_game_version())
    }

    /// Get the lowest game version in which this `ChunkVersion` was used.
    /// Note that versions 16-17, 23-24, 26-28, 30, and 32-38 do not have precisely known
    /// corresponding game versions, so they try to err on the side of being higher
    /// (in order to at least be valid).
    pub fn lowest_game_version(self) -> (res: NumericVersion)
        ensures
            res == self.spec_lowest_game_version(),
    {
        match self {
            ChunkVersion::V0 => NumericVersion(0, 9, 0, 0, 0),
            ChunkVersion::V1 => NumericVersion(0, 9, 2, 0, 0),
            ChunkVersion::V2 => NumericVersion(0, 9, 5, 0, 0),
            ChunkVersion::V3 => NumericVersion(0, 17, 0, 0, 0),
            ChunkVersion::V4 => NumericVersion(0, 18, 0, 0, 0),
            ChunkVersion::V5 => NumericVersion(0, 18, 0, 0, 0),
            ChunkVersion::V6 => NumericVersion(1, 2, 0, 0, 0),
            ChunkVersion::V7 => NumericVersion(1, 2, 0, 0, 0),
            ChunkVersion::V8 => NumericVersion(1, 3, 0, 0, 0),
            ChunkVersion::V9 => NumericVersion(1, 8, 0, 0, 0),
            ChunkVersion::V10 => NumericVersion(1, 9, 0, 0, 0),
            ChunkVersion::V11 => NumericVersion(1, 10, 0, 0, 0),
            ChunkVersion::V12 => NumericVersion(1, 11, 0, 0, 0),
            ChunkVersion::V13 => NumericVersion(1, 11, 1, 0, 0),
            ChunkVersion::V14 => NumericVersion(1, 11, 2, 0, 0),
            ChunkVersion::V15 => NumericVersion(1, 12, 0, 0, 0),
            ChunkVersion::V16 => NumericVersion(1, 14, 0, 0, 0),
            ChunkVersion::V17 => NumericVersion(1, 15, 0, 0, 0),
            ChunkVersion::V18 => NumericVersion(1, 16, 0, 0, 0),
            ChunkVersion::V19 => NumericVersion(1, 16, 0, 0, 0),
            ChunkVersion::V20 => NumericVersion(1, 16, 100, 56, 0),
            ChunkVersion::V21 => NumericVersion(1, 16, 100, 58, 0),
            ChunkVersion::V22 => NumericVersion(1, 16, 210, 0, 0),
            ChunkVersion::V23 => NumericVersion(1, 17, 0, 0, 0),
            ChunkVersion::V24 => NumericVersion(1, 17, 0, 0, 0),
            ChunkVersion::V25 => NumericVersion(1, 17, 0, 0, 0),
            ChunkVersion::V26 => NumericVersion(1, 17, 30, 0, 0),
            ChunkVersion::V27 => NumericVersion(1, 17, 30, 0, 0),
            ChunkVersion::V28 => NumericVersion(1, 17, 30, 0, 0),
            ChunkVersion::V29 => NumericVersion(1, 17, 30, 0, 0),
            ChunkVersion::V30 => NumericVersion(1, 17, 40, 0, 0),
            ChunkVersion::V31 => NumericVersion(1, 17, 40, 0, 0),
            ChunkVersion::V32 => NumericVersion(1, 17, 41, 0, 0),
            ChunkVersion::V33 => NumericVersion(1, 17, 41, 0, 0),
            ChunkVersion::V34 => NumericVersion(1, 17, 41, 0, 0),
            ChunkVersion::V35 => NumericVersion(1, 17, 41, 0, 0),
            ChunkVersion::V36 => NumericVersion(1, 17, 41, 0, 0),
            ChunkVersion::V37 => NumericVersion(1, 17, 41, 0, 0),
            ChunkVersion::V38 => NumericVersion(1, 17, 41, 0, 0),
            ChunkVersion::V39 => NumericVersion(1, 18, 0, 0, 0),
            ChunkVersion::V40 => NumericVersion(1, 18, 30, 0, 0),
            ChunkVersion::V41 => NumericVersion(1, 21, 40, 0, 0),
        }
    }

    /// Returns a `Version` or `LegacyVersion` value which was used during the given game version,
    /// assuming no experiments are enabled, which could be used to write new chunks to a world in
    /// that version of the game. If the game version is too old to use such a value,
    /// then `None` is returned. Note that an excessively high game version will simply return the
    /// newest `ChunkVersion`, not `None`.
    ///
    /// If multiple values are possible, the lowest is chosen, with the exception of 16 and 17,
    /// whose usage is uncertain; they are not returned at all. Some chunk versions are not
    /// returned as they were only used during 1.17 with the caves and cliffs experiment.
    pub fn chunk_version_for(game_version: NumericVersion) -> (res: Option<Self>)
        ensures
            spec_chosen_version(spec_standard_versions(), game_version, res),
    {
        let versions: [ChunkVersion; 24] = [ChunkVersion::V0, ChunkVersion::V1, ChunkVersion::V2, ChunkVersion::V3, ChunkVersion::V4, ChunkVersion::V5, ChunkVersion::V6, ChunkVersion::V7, ChunkVersion::V8, ChunkVersion::V9, ChunkVersion::V10, ChunkVersion::V11, ChunkVersion::V12, ChunkVersion::V13, ChunkVersion::V14, ChunkVersion::V15, ChunkVersion::V18, ChunkVersion::V19, ChunkVersion::V20, ChunkVersion::V21, ChunkVersion::V22, ChunkVersion::V39, ChunkVersion::V40, ChunkVersion::V41];
        assert(versions@ =~= spec_standard_versions());
        choose_version(&versions, game_version)
    }

    /// Returns a `Version` or `LegacyVersion` value which was used during the given game version,
    /// assuming that the caves and cliffs experimental feature is enabled (which was in 1.17),
    /// which could be used to write new chunks to a world in that version of the game.
    /// If the game version is too old to use such a value, then `None` is returned.
    /// Note that an excessively high game version will simply return the newest `ChunkVersion`,
    /// not `None`, and that for non-1.17 game versions, the output is identical to
    /// `chunk_version_for`.
    ///
    /// If multiple values are possible, the lowest is chosen, with the exception of chunk versions
    /// 16-17, 23-24, 26-28, 30, and 32-38, which do not have precisely known
    /// corresponding game versions; they are not returned at all.
    pub fn chunk_version_for_caves_and_cliffs(game_version: NumericVersion) -> (res: Option<Self>)
        ensures
            spec_chosen_version(spec_caves_and_cliffs_versions(), game_version, res),
    {
        let versions: [ChunkVersion; 27] = [ChunkVersion::V0, ChunkVersion::V1, ChunkVersion::V2, ChunkVersion::V3, ChunkVersion::V4, ChunkVersion::V5, ChunkVersion::V6, ChunkVersion::V7, ChunkVersion::V8, ChunkVersion::V9, ChunkVersion::V10, ChunkVersion::V11, ChunkVersion::V12, ChunkVersion::V13, ChunkVersion::V14, ChunkVersion::V15, ChunkVersion::V18, ChunkVersion::V19, ChunkVersion::V20, ChunkVersion::V21, ChunkVersion::V22, ChunkVersion::V25, ChunkVersion::V29, ChunkVersion::V31, ChunkVersion::V39, ChunkVersion::V40, ChunkVersion::V41];
        assert(versions@ =~= spec_caves_and_cliffs_versions());
        choose_version(&versions, game_version)
    }
}

/// The chunk versions that `ChunkVersion::chunk_version_for` chooses among, in order.
pub open spec fn spec_standard_versions() -> Seq<ChunkVersion> {
    seq![ChunkVersion::V0, ChunkVersion::V1, ChunkVersion::V2, ChunkVersion::V3, ChunkVersion::V4, ChunkVersion::V5, ChunkVersion::V6, ChunkVersion::V7, ChunkVersion::V8, ChunkVersion::V9, ChunkVersion::V10, ChunkVersion::V11, ChunkVersion::V12, ChunkVersion::V13, ChunkVersion::V14, ChunkVersion::V15, ChunkVersion::V18, ChunkVersion::V19, ChunkVersion::V20, ChunkVersion::V21, ChunkVersion::V22, ChunkVersion::V39, ChunkVersion::V40, ChunkVersion::V41]
}

/// The chunk versions that `ChunkVersion::chunk_version_for_caves_and_cliffs` chooses among,
/// in order.
pub open spec fn spec_caves_and_cliffs_versions() -> Seq<ChunkVersion> {
    seq![ChunkVersion::V0, ChunkVersion::V1, ChunkVersion::V2, ChunkVersion::V3, ChunkVersion::V4, ChunkVersion::V5, ChunkVersion::V6, ChunkVersion::V7, ChunkVersion::V8, ChunkVersion::V9, ChunkVersion::V10, ChunkVersion::V11, ChunkVersion::V12, ChunkVersion::V13, ChunkVersion::V14, ChunkVersion::V15, ChunkVersion::V18, ChunkVersion::V19, ChunkVersion::V20, ChunkVersion::V21, ChunkVersion::V22, ChunkVersion::V25, ChunkVersion::V29, ChunkVersion::V31, ChunkVersion::V39, ChunkVersion::V40, ChunkVersion::V41]
}

/// Whether `res` is the choice from `versions` for `game_version`: `None` if every candidate's
/// lowest game version comes after `game_version`; otherwise the candidate whose lowest game
/// version is the latest one not after `game_version`, and, among candidates sharing that game
/// version, the first.
pub open spec fn spec_chosen_version(
    versions: Seq<ChunkVersion>,
    game_version: NumericVersion,
    res: Option<ChunkVersion>,
) -> bool {
    match res {
        None => forall|j: int|
            0 <= j < versions.len() ==> !spec_version_le(
                (#[trigger] versions[j]).spec_lowest_game_version(),
                game_version,
            ),
        Some(v) => exists|i: int| 0 <= i < versions.len() && versions[i] == v && spec_is_choice(versions, game_version, i),
    }
}

/// Whether the candidate at index `i` is the choice for `game_version`.
pub open spec fn spec_is_choice(versions: Seq<ChunkVersion>, game_version: NumericVersion, i: int) -> bool {
    let chosen = versions[i].spec_lowest_game_version();
    &&& spec_version_le(chosen, game_version)
    &&& forall|j: int|
        0 <= j < versions.len() && spec_version_le(
            (#[trigger] versions[j]).spec_lowest_game_version(),
            game_version,
        ) ==> spec_version_le(versions[j].spec_lowest_game_version(), chosen)
    &&& forall|j: int| 0 <= j < i ==> (#[trigger] versions[j]).spec_lowest_game_version() != chosen
}

/// `spec_version_le` is a total order.
proof fn lemma_version_order(a: NumericVersion, b: NumericVersion, c: NumericVersion)
    ensures
        spec_version_le(a, b) || spec_version_le(b, a),
        spec_version_le(a, b) && spec_version_le(b, c) ==> spec_version_le(a, c),
        spec_version_le(a, b) && spec_version_le(b, a) ==> a == b,
        spec_version_lt(a, b) <==> !spec_version_le(b, a),
{
}

/// Scan `versions` for the choice for `game_version`.
fn choose_version(versions: &[ChunkVersion], game_version: NumericVersion) -> (res: Option<
    ChunkVersion,
>)
    ensures
        spec_chosen_version(versions@, game_version, res),
{
    let mut best: Option<usize> = None;
    let mut k: usize = 0;
    while k < versions.len()
        invariant
            k <= versions@.len(),
            match best {
                None => forall|j: int|
                    0 <= j < k ==> !spec_version_le(
                        (#[trigger] versions@[j]).spec_lowest_game_version(),
                        game_version,
                    ),
                Some(b) => b < k && spec_is_choice(versions@.subrange(0, k as int), game_version, b as int),
            },
        decreases versions@.len() - k,
    {
        let candidate = versions[k].lowest_game_version();
        let ghost prefix = versions@.subrange(0, k as int);
        let ghost next = versions@.subrange(0, k + 1);
        if !version_lt(game_version, candidate) {
            match best {
                None => {
                    best = Some(k);
                    assert(spec_is_choice(next, game_version, k as int)) by {
                        assert forall|j: int|
                            0 <= j < next.len() && spec_version_le(
                                (#[trigger] next[j]).spec_lowest_game_version(),
                                game_version,
                            ) implies spec_version_le(next[j].spec_lowest_game_version(), candidate) by {
                            if j < k {
                                assert(next[j] == versions@[j]);
                            }
                            lemma_version_order(next[j].spec_lowest_game_version(), candidate, game_version);
                        }
                        assert forall|j: int| 0 <= j < k implies (#[trigger] next[j]).spec_lowest_game_version() != candidate by {
                            assert(next[j] == versions@[j]);
                            lemma_version_order(candidate, game_version, game_version);
                        }
                    }
                },
                Some(b) => {
                    let current = versions[b].lowest_game_version();
                    if version_lt(current, candidate) {
                        best = Some(k);
                        assert(spec_is_choice(next, game_version, k as int)) by {
                            assert forall|j: int|
                                0 <= j < next.len() && spec_version_le(
                                    (#[trigger] next[j]).spec_lowest_game_version(),
                                    game_version,
                                ) implies spec_version_le(next[j].spec_lowest_game_version(), candidate) by {
                                if j < k {
                                    assert(next[j] == prefix[j]);
                                    lemma_version_order(next[j].spec_lowest_game_version(), current, candidate);
                                }
                                lemma_version_order(current, candidate, game_version);
                            }
                            assert forall|j: int| 0 <= j < k implies (#[trigger] next[j]).spec_lowest_game_version() != candidate by {
                                assert(next[j] == prefix[j]);
                                lemma_version_order(next[j].spec_lowest_game_version(), current, candidate);
                                lemma_version_order(current, candidate, game_version);
                            }
                        }
                    } else {
                        assert(spec_is_choice(next, game_version, b as int)) by {
                            assert(next[b as int] == prefix[b as int]);
                            assert forall|j: int|
                                0 <= j < next.len() && spec_version_le(
                                    (#[trigger] next[j]).spec_lowest_game_version(),
                                    game_version,
                                ) implies spec_version_le(next[j].spec_lowest_game_version(), current) by {
                                if j < k {
                                    assert(next[j] == prefix[j]);
                                } else {
                                    lemma_version_order(candidate, current, game_version);
                                }
                            }
                            assert forall|j: int| 0 <= j < b implies (#[trigger] next[j]).spec_lowest_game_version() != current by {
                                assert(next[j] == prefix[j]);
                            }
                        }
                    }
                },
            }
        } else {
            proof {
                lemma_version_order(game_version, candidate, candidate);
            }
            match best {
                None => {},
                Some(b) => {
                    assert(spec_is_choice(next, game_version, b as int)) by {
                        assert(next[b as int] == prefix[b as int]);
                        assert forall|j: int|
                            0 <= j < next.len() && spec_version_le(
                                (#[trigger] next[j]).spec_lowest_game_version(),
                                game_version,
                            ) implies spec_version_le(next[j].spec_lowest_game_version(), versions@[b as int].spec_lowest_game_version()) by {
                            if j < k {
                                assert(next[j] == prefix[j]);
                            }
                        }
                        assert forall|j: int| 0 <= j < b implies (#[trigger] next[j]).spec_lowest_game_version() != versions@[b as int].spec_lowest_game_version() by {
                            assert(next[j] == prefix[j]);
                        }
                    }
                },
            }
        }
        k = k + 1;
    }
    assert(versions@.subrange(0, versions@.len() as int) =~= versions@);
    match best {
        None => None,
        Some(b) => Some(versions[b]),
    }
}

impl From<ChunkVersion> for u8 {
    fn from(value: ChunkVersion) -> (res: u8) {
        value.to_byte()
    }
}

impl vstd::std_specs::convert::FromSpecImpl<ChunkVersion> for u8 {
    open spec fn obeys_from_spec() -> bool {
        true
    }

    open spec fn from_spec(value: ChunkVersion) -> u8 {
        value.spec_to_byte()
    }
}

impl TryFrom<u8> for ChunkVersion {
    type Error = ();

    fn try_from(value: u8) -> (res: Result<Self, ()>) {
        match ChunkVersion::parse(value) {
            Some(v) => Ok(v),
            None => Err(()),
        }
    }
}

impl vstd::std_specs::convert::TryFromSpecImpl<u8> for ChunkVersion {
    open spec fn obeys_try_from_spec() -> bool {
        true
    }

    open spec fn try_from_spec(value: u8) -> Result<ChunkVersion, ()> {
        match ChunkVersion::spec_from_byte(value) {
            Some(v) => Ok(v),
            None => Err(()),
        }
    }
}

/// Reading back the byte of a chunk version gives that version.
pub proof fn lemma_chunk_version_byte_roundtrip(v: ChunkVersion)
    ensures
        ChunkVersion::spec_from_byte(v.spec_to_byte()) == Some(v),
{
}

/// A byte that stands for a chunk version is the byte of that version.
pub proof fn lemma_chunk_version_parse_roundtrip(byte: u8)
    ensures
        ChunkVersion::spec_from_byte(byte) matches Some(v) ==> v.spec_to_byte() == byte,
        ChunkVersion::spec_from_byte(byte) is Some <==> byte < 42,
{
}

/// Outside of 1.17, choosing with the caves and cliffs experiment chooses as without it:
/// a chunk version is the choice for `game_version` among the standard candidates exactly
/// when it is the choice among the candidates of the experiment.
pub proof fn lemma_caves_and_cliffs_outside_1_17(
    game_version: NumericVersion,
    res: Option<ChunkVersion>,
)
    requires
        !(game_version.0 == 1 && game_version.1 == 17),
    ensures
        spec_chosen_version(spec_standard_versions(), game_version, res) <==> spec_chosen_version(
            spec_caves_and_cliffs_versions(),
            game_version,
            res,
        ),
{
    let std = spec_standard_versions();
    let cc = spec_caves_and_cliffs_versions();
    let g = game_version;
    let extra = seq![ChunkVersion::V25, ChunkVersion::V29, ChunkVersion::V31];
    assert(cc =~= std.subrange(0, 21) + extra + std.subrange(21, 24));
    // Where each candidate of the experiment stands among the standard ones.
    assert forall|j: int| 0 <= j < 21 implies #[trigger] cc[j] == std[j] by {}
    assert forall|j: int| 24 <= j < 27 implies #[trigger] cc[j] == std[j - 3] by {}
    // The extra candidates were first used in 1.17, and the next candidate in 1.18.0.
    assert forall|j: int| 21 <= j < 24 implies #[trigger] cc[j].spec_lowest_game_version().0 == 1
        && cc[j].spec_lowest_game_version().1 == 17 by {}
    assert(std[21].spec_lowest_game_version() == NumericVersion(1, 18, 0, 0, 0));
    assert forall|j: int| 21 <= j < 24 implies #[trigger] std[j].spec_lowest_game_version().0 == 1
        && std[j].spec_lowest_game_version().1 >= 18 by {}
    assert forall|j: int| 0 <= j < 21 implies (#[trigger] std[j].spec_lowest_game_version()).0
        < 1 || (std[j].spec_lowest_game_version().0 == 1 && std[j].spec_lowest_game_version().1
        < 17) by {}
    let late = spec_version_le(NumericVersion(1, 18, 0, 0, 0), g);
    assert(late || spec_version_lt(g, NumericVersion(1, 17, 0, 0, 0)));
    if spec_chosen_version(std, g, res) {
        match res {
            None => {
                assert forall|j: int| 0 <= j < cc.len() implies !spec_version_le(
                    (#[trigger] cc[j]).spec_lowest_game_version(),
                    g,
                ) by {
                    if j < 21 {
                        assert(cc[j] == std[j]);
                    } else if j < 24 {
                        assert(!spec_version_le(std[0].spec_lowest_game_version(), g));
                    } else {
                        assert(cc[j] == std[j - 3]);
                    }
                }
            },
            Some(v) => {
                let i = choose|i: int|
                    0 <= i < std.len() && std[i] == v && spec_is_choice(std, g, i);
                let chosen = std[i].spec_lowest_game_version();
                let i2 = if i < 21 {
                    i
                } else {
                    i + 3
                };
                assert(cc[i2] == v);
                if late {
                    assert(spec_version_le(std[21].spec_lowest_game_version(), g));
                    assert(spec_version_le(std[21].spec_lowest_game_version(), chosen));
                }
                assert forall|j: int|
                    0 <= j < cc.len() && spec_version_le(
                        (#[trigger] cc[j]).spec_lowest_game_version(),
                        g,
                    ) implies spec_version_le(cc[j].spec_lowest_game_version(), chosen) by {
                    if j < 21 {
                        assert(cc[j] == std[j]);
                    } else if j < 24 {
                        lemma_version_order(
                            cc[j].spec_lowest_game_version(),
                            std[21].spec_lowest_game_version(),
                            chosen,
                        );
                    } else {
                        assert(cc[j] == std[j - 3]);
                    }
                }
                assert forall|j: int| 0 <= j < i2 implies (#[trigger] cc[j]).spec_lowest_game_version()
                    != chosen by {
                    if j < 21 {
                        assert(cc[j] == std[j]);
                    } else if j < 24 {
                        assert(i >= 21);
                        assert(std[i].spec_lowest_game_version().1 >= 18);
                    } else {
                        assert(cc[j] == std[j - 3]);
                    }
                }
                assert(spec_is_choice(cc, g, i2));
            },
        }
    }
    if spec_chosen_version(cc, g, res) {
        match res {
            None => {
                assert forall|j: int| 0 <= j < std.len() implies !spec_version_le(
                    (#[trigger] std[j]).spec_lowest_game_version(),
                    g,
                ) by {
                    if j < 21 {
                        assert(cc[j] == std[j]);
                    } else {
                        assert(cc[j + 3] == std[j]);
                    }
                }
            },
            Some(v) => {
                let i2 = choose|i: int|
                    0 <= i < cc.len() && cc[i] == v && spec_is_choice(cc, g, i);
                let chosen = cc[i2].spec_lowest_game_version();
                if 21 <= i2 < 24 {
                    assert(late);
                    assert(cc[24] == std[21]);
                    assert(spec_version_le(cc[24].spec_lowest_game_version(), chosen));
                    assert(false);
                }
                let i = if i2 < 21 {
                    i2
                } else {
                    i2 - 3
                };
                assert(std[i] == v);
                assert forall|j: int|
                    0 <= j < std.len() && spec_version_le(
                        (#[trigger] std[j]).spec_lowest_game_version(),
                        g,
                    ) implies spec_version_le(std[j].spec_lowest_game_version(), chosen) by {
                    if j < 21 {
                        assert(cc[j] == std[j]);
                    } else {
                        assert(cc[j + 3] == std[j]);
                    }
                }
                assert forall|j: int| 0 <= j < i implies (#[trigger] std[j]).spec_lowest_game_version()
                    != chosen by {
                    if j < 21 {
                        assert(cc[j] == std[j]);
                    } else {
                        assert(cc[j + 3] == std[j]);
                    }
                }
                assert(spec_is_choice(std, g, i));
            },
        }
    }
}


/// Each chunk version is written as the byte of its own number, each byte from 0 to 41 is read
/// as the version of that number, and no other byte is a chunk version.
pub proof fn lemma_chunk_version_numbering()
    ensures
        ChunkVersion::V0.spec_to_byte() == 0u8,
        ChunkVersion::spec_from_byte(0u8) == Some(ChunkVersion::V0),
        ChunkVersion::V1.spec_to_byte() == 1u8,
        ChunkVersion::spec_from_byte(1u8) == Some(ChunkVersion::V1),
        ChunkVersion::V2.spec_to_byte() == 2u8,
        ChunkVersion::spec_from_byte(2u8) == Some(ChunkVersion::V2),
        ChunkVersion::V3.spec_to_byte() == 3u8,
        ChunkVersion::spec_from_byte(3u8) == Some(ChunkVersion::V3),
        ChunkVersion::V4.spec_to_byte() == 4u8,
        ChunkVersion::spec_from_byte(4u8) == Some(ChunkVersion::V4),
        ChunkVersion::V5.spec_to_byte() == 5u8,
        ChunkVersion::spec_from_byte(5u8) == Some(ChunkVersion::V5),
        ChunkVersion::V6.spec_to_byte() == 6u8,
        ChunkVersion::spec_from_byte(6u8) == Some(ChunkVersion::V6),
        ChunkVersion::V7.spec_to_byte() == 7u8,
        ChunkVersion::spec_from_byte(7u8) == Some(ChunkVersion::V7),
        ChunkVersion::V8.spec_to_byte() == 8u8,
        ChunkVersion::spec_from_byte(8u8) == Some(ChunkVersion::V8),
        ChunkVersion::V9.spec_to_byte() == 9u8,
        ChunkVersion::spec_from_byte(9u8) == Some(ChunkVersion::V9),
        ChunkVersion::V10.spec_to_byte() == 10u8,
        ChunkVersion::spec_from_byte(10u8) == Some(ChunkVersion::V10),
        ChunkVersion::V11.spec_to_byte() == 11u8,
        ChunkVersion::spec_from_byte(11u8) == Some(ChunkVersion::V11),
        ChunkVersion::V12.spec_to_byte() == 12u8,
        ChunkVersion::spec_from_byte(12u8) == Some(ChunkVersion::V12),
        ChunkVersion::V13.spec_to_byte() == 13u8,
        ChunkVersion::spec_from_byte(13u8) == Some(ChunkVersion::V13),
        ChunkVersion::V14.spec_to_byte() == 14u8,
        ChunkVersion::spec_from_byte(14u8) == Some(ChunkVersion::V14),
        ChunkVersion::V15.spec_to_byte() == 15u8,
        ChunkVersion::spec_from_byte(15u8) == Some(ChunkVersion::V15),
        ChunkVersion::V16.spec_to_byte() == 16u8,
        ChunkVersion::spec_from_byte(16u8) == Some(ChunkVersion::V16),
        ChunkVersion::V17.spec_to_byte() == 17u8,
        ChunkVersion::spec_from_byte(17u8) == Some(ChunkVersion::V17),
        ChunkVersion::V18.spec_to_byte() == 18u8,
        ChunkVersion::spec_from_byte(18u8) == Some(ChunkVersion::V18),
        ChunkVersion::V19.spec_to_byte() == 19u8,
        ChunkVersion::spec_from_byte(19u8) == Some(ChunkVersion::V19),
        ChunkVersion::V20.spec_to_byte() == 20u8,
        ChunkVersion::spec_from_byte(20u8) == Some(ChunkVersion::V20),
        ChunkVersion::V21.spec_to_byte() == 21u8,
        ChunkVersion::spec_from_byte(21u8) == Some(ChunkVersion::V21),
        ChunkVersion::V22.spec_to_byte() == 22u8,
        ChunkVersion::spec_from_byte(22u8) == Some(ChunkVersion::V22),
        ChunkVersion::V23.spec_to_byte() == 23u8,
        ChunkVersion::spec_from_byte(23u8) == Some(ChunkVersion::V23),
        ChunkVersion::V24.spec_to_byte() == 24u8,
        ChunkVersion::spec_from_byte(24u8) == Some(ChunkVersion::V24),
        ChunkVersion::V25.spec_to_byte() == 25u8,
        ChunkVersion::spec_from_byte(25u8) == Some(ChunkVersion::V25),
        ChunkVersion::V26.spec_to_byte() == 26u8,
        ChunkVersion::spec_from_byte(26u8) == Some(ChunkVersion::V26),
        ChunkVersion::V27.spec_to_byte() == 27u8,
        ChunkVersion::spec_from_byte(27u8) == Some(ChunkVersion::V27),
        ChunkVersion::V28.spec_to_byte() == 28u8,
        ChunkVersion::spec_from_byte(28u8) == Some(ChunkVersion::V28),
        ChunkVersion::V29.spec_to_byte() == 29u8,
        ChunkVersion::spec_from_byte(29u8) == Some(ChunkVersion::V29),
        ChunkVersion::V30.spec_to_byte() == 30u8,
        ChunkVersion::spec_from_byte(30u8) == Some(ChunkVersion::V30),
        ChunkVersion::V31.spec_to_byte() == 31u8,
        ChunkVersion::spec_from_byte(31u8) == Some(ChunkVersion::V31),
        ChunkVersion::V32.spec_to_byte() == 32u8,
        ChunkVersion::spec_from_byte(32u8) == Some(ChunkVersion::V32),
        ChunkVersion::V33.spec_to_byte() == 33u8,
        ChunkVersion::spec_from_byte(33u8) == Some(ChunkVersion::V33),
        ChunkVersion::V34.spec_to_byte() == 34u8,
        ChunkVersion::spec_from_byte(34u8) == Some(ChunkVersion::V34),
        ChunkVersion::V35.spec_to_byte() == 35u8,
        ChunkVersion::spec_from_byte(35u8) == Some(ChunkVersion::V35),
        ChunkVersion::V36.spec_to_byte() == 36u8,
        ChunkVersion::spec_from_byte(36u8) == Some(ChunkVersion::V36),
        ChunkVersion::V37.spec_to_byte() == 37u8,
        ChunkVersion::spec_from_byte(37u8) == Some(ChunkVersion::V37),
        ChunkVersion::V38.spec_to_byte() == 38u8,
        ChunkVersion::spec_from_byte(38u8) == Some(ChunkVersion::V38),
        ChunkVersion::V39.spec_to_byte() == 39u8,
        ChunkVersion::spec_from_byte(39u8) == Some(ChunkVersion::V39),
        ChunkVersion::V40.spec_to_byte() == 40u8,
        ChunkVersion::spec_from_byte(40u8) == Some(ChunkVersion::V40),
        ChunkVersion::V41.spec_to_byte() == 41u8,
        ChunkVersion::spec_from_byte(41u8) == Some(ChunkVersion::V41),
        forall|b: u8| b > 41 ==> #[trigger] ChunkVersion::spec_from_byte(b) is None,
{
}

/// The lowest game version of each chunk version, as the game's release history gives it.
pub proof fn lemma_chunk_version_game_versions()
    ensures
        ChunkVersion::V0.spec_lowest_game_version() == NumericVersion(0, 9, 0, 0, 0),
        ChunkVersion::V1.spec_lowest_game_version() == NumericVersion(0, 9, 2, 0, 0),
        ChunkVersion::V2.spec_lowest_game_version() == NumericVersion(0, 9, 5, 0, 0),
        ChunkVersion::V3.spec_lowest_game_version() == NumericVersion(0, 17, 0, 0, 0),
        ChunkVersion::V4.spec_lowest_game_version() == NumericVersion(0, 18, 0, 0, 0),
        ChunkVersion::V5.spec_lowest_game_version() == NumericVersion(0, 18, 0, 0, 0),
        ChunkVersion::V6.spec_lowest_game_version() == NumericVersion(1, 2, 0, 0, 0),
        ChunkVersion::V7.spec_lowest_game_version() == NumericVersion(1, 2, 0, 0, 0),
        ChunkVersion::V8.spec_lowest_game_version() == NumericVersion(1, 3, 0, 0, 0),
        ChunkVersion::V9.spec_lowest_game_version() == NumericVersion(1, 8, 0, 0, 0),
        ChunkVersion::V10.spec_lowest_game_version() == NumericVersion(1, 9, 0, 0, 0),
        ChunkVersion::V11.spec_lowest_game_version() == NumericVersion(1, 10, 0, 0, 0),
        ChunkVersion::V12.spec_lowest_game_version() == NumericVersion(1, 11, 0, 0, 0),
        ChunkVersion::V13.spec_lowest_game_version() == NumericVersion(1, 11, 1, 0, 0),
        ChunkVersion::V14.spec_lowest_game_version() == NumericVersion(1, 11, 2, 0, 0),
        ChunkVersion::V15.spec_lowest_game_version() == NumericVersion(1, 12, 0, 0, 0),
        ChunkVersion::V16.spec_lowest_game_version() == NumericVersion(1, 14, 0, 0, 0),
        ChunkVersion::V17.spec_lowest_game_version() == NumericVersion(1, 15, 0, 0, 0),
        ChunkVersion::V18.spec_lowest_game_version() == NumericVersion(1, 16, 0, 0, 0),
        ChunkVersion::V19.spec_lowest_game_version() == NumericVersion(1, 16, 0, 0, 0),
        ChunkVersion::V20.spec_lowest_game_version() == NumericVersion(1, 16, 100, 56, 0),
        ChunkVersion::V21.spec_lowest_game_version() == NumericVersion(1, 16, 100, 58, 0),
        ChunkVersion::V22.spec_lowest_game_version() == NumericVersion(1, 16, 210, 0, 0),
        ChunkVersion::V23.spec_lowest_game_version() == NumericVersion(1, 17, 0, 0, 0),
        ChunkVersion::V24.spec_lowest_game_version() == NumericVersion(1, 17, 0, 0, 0),
        ChunkVersion::V25.spec_lowest_game_version() == NumericVersion(1, 17, 0, 0, 0),
        ChunkVersion::V26.spec_lowest_game_version() == NumericVersion(1, 17, 30, 0, 0),
        ChunkVersion::V27.spec_lowest_game_version() == NumericVersion(1, 17, 30, 0, 0),
        ChunkVersion::V28.spec_lowest_game_version() == NumericVersion(1, 17, 30, 0, 0),
        ChunkVersion::V29.spec_lowest_game_version() == NumericVersion(1, 17, 30, 0, 0),
        ChunkVersion::V30.spec_lowest_game_version() == NumericVersion(1, 17, 40, 0, 0),
        ChunkVersion::V31.spec_lowest_game_version() == NumericVersion(1, 17, 40, 0, 0),
        ChunkVersion::V32.spec_lowest_game_version() == NumericVersion(1, 17, 41, 0, 0),
        ChunkVersion::V33.spec_lowest_game_version() == NumericVersion(1, 17, 41, 0, 0),
        ChunkVersion::V34.spec_lowest_game_version() == NumericVersion(1, 17, 41, 0, 0),
        ChunkVersion::V35.spec_lowest_game_version() == NumericVersion(1, 17, 41, 0, 0),
        ChunkVersion::V36.spec_lowest_game_version() == NumericVersion(1, 17, 41, 0, 0),
        ChunkVersion::V37.spec_lowest_game_version() == NumericVersion(1, 17, 41, 0, 0),
        ChunkVersion::V38.spec_lowest_game_version() == NumericVersion(1, 17, 41, 0, 0),
        ChunkVersion::V39.spec_lowest_game_version() == NumericVersion(1, 18, 0, 0, 0),
        ChunkVersion::V40.spec_lowest_game_version() == NumericVersion(1, 18, 30, 0, 0),
        ChunkVersion::V41.spec_lowest_game_version() == NumericVersion(1, 21, 40, 0, 0),
{
}


/// Bytes that increase from each version of a sequence to the next increase along it.
proof fn lemma_bytes_increase(s: Seq<ChunkVersion>, i: int, j: int)
    requires
        forall|t: int| 0 <= t < s.len() - 1 ==> (#[trigger] s[t]).spec_to_byte() < s[t + 1].spec_to_byte(),
        0 <= i < j < s.len(),
    ensures
        s[i].spec_to_byte() < s[j].spec_to_byte(),
    decreases j - i,
{
    if j > i + 1 {
        lemma_bytes_increase(s, i, j - 1);
        assert(s[j - 1].spec_to_byte() < s[j].spec_to_byte());
    }
}

/// The candidates of `chunk_version_for` are the chunk versions in increasing order of their
/// bytes, leaving out 16 and 17, whose use is uncertain, and 23 to 38, used only in 1.17; those of
/// `chunk_version_for_caves_and_cliffs` leave out 16 and 17, and of the 1.17 versions only
/// those without a precisely known game version: 23, 24, 26 to 28, 30, and 32 to 38.
pub proof fn lemma_candidate_versions()
    ensures
        spec_standard_versions().len() == 24,
        forall|i: int|
            0 <= i < 24 ==> {
                let b = (#[trigger] spec_standard_versions()[i]).spec_to_byte();
                b != 16 && b != 17 && !(23 <= b <= 38)
            },
        forall|i: int, j: int|
            0 <= i < j < 24 ==> (#[trigger] spec_standard_versions()[i]).spec_to_byte()
                < (#[trigger] spec_standard_versions()[j]).spec_to_byte(),
        spec_caves_and_cliffs_versions().len() == 27,
        forall|i: int|
            0 <= i < 27 ==> {
                let b = (#[trigger] spec_caves_and_cliffs_versions()[i]).spec_to_byte();
                b != 16 && b != 17 && b != 23 && b != 24 && !(26 <= b <= 28) && b != 30 && !(32
                    <= b <= 38)
            },
        forall|i: int, j: int|
            0 <= i < j < 27 ==> (#[trigger] spec_caves_and_cliffs_versions()[i]).spec_to_byte()
                < (#[trigger] spec_caves_and_cliffs_versions()[j]).spec_to_byte(),
{
    let s = spec_standard_versions();
    let c = spec_caves_and_cliffs_versions();
    assert forall|i: int| 0 <= i < 23 implies (#[trigger] s[i]).spec_to_byte() < s[i + 1].spec_to_byte() by {}
    assert forall|i: int| 0 <= i < 26 implies (#[trigger] c[i]).spec_to_byte() < c[i + 1].spec_to_byte() by {}
    assert forall|i: int, j: int| 0 <= i < j < 24 implies (#[trigger] s[i]).spec_to_byte() < (#[trigger] s[j]).spec_to_byte() by {
        lemma_bytes_increase(s, i, j);
    }
    assert forall|i: int, j: int| 0 <= i < j < 27 implies (#[trigger] c[i]).spec_to_byte() < (#[trigger] c[j]).spec_to_byte() by {
        lemma_bytes_increase(c, i, j);
    }
}

} // verus!
