//! The partial order of game versions: numeric versions of the same edition compare by their
//! numbers; other pairs of versions are unordered.

use vstd::prelude::*;

use core::cmp::Ordering;
use vstd::std_specs::cmp::PartialOrdSpecImpl;

use crate::text::str_eq;
use crate::translation::datatypes::{spec_version_lt, version_lt, GameVersion, VersionName};

verus! {

impl PartialOrd for VersionName {
    fn partial_cmp(&self, other: &Self) -> (res: Option<Ordering>) {
        match (self, other) {
            (VersionName::Numeric(version), VersionName::Numeric(other_version)) => {
                if version_lt(*version, *other_version) {
                    Some(Ordering::Less)
                } else if version_lt(*other_version, *version) {
                    Some(Ordering::Greater)
                } else {
                    Some(Ordering::Equal)
                }
            },
            _ => None,
        }
    }
}

/// How two version names compare: numeric ones by their numbers, other pairs not at all.
pub open spec fn version_name_order(a: VersionName, b: VersionName) -> Option<Ordering> {
    match (a, b) {
        (VersionName::Numeric(version), VersionName::Numeric(other_version)) => {
            if spec_version_lt(version, other_version) {
                Some(Ordering::Less)
            } else if spec_version_lt(other_version, version) {
                Some(Ordering::Greater)
            } else {
                Some(Ordering::Equal)
            }
        },
        _ => None,
    }
}

impl PartialOrdSpecImpl for VersionName {
    open spec fn obeys_partial_cmp_spec() -> bool {
        true
    }

    open spec fn partial_cmp_spec(&self, other: &Self) -> Option<Ordering> {
        version_name_order(*self, *other)
    }
}

impl PartialOrd for GameVersion {
    fn partial_cmp(&self, other: &Self) -> (res: Option<Ordering>) {
        match (self, other) {
            (GameVersion::Universal, GameVersion::Universal) => Some(Ordering::Equal),
            (GameVersion::Bedrock(v), GameVersion::Bedrock(other_v)) => v.partial_cmp(other_v),
            (GameVersion::Java(v), GameVersion::Java(other_v)) => v.partial_cmp(other_v),
            (GameVersion::Other(name, v), GameVersion::Other(other_name, other_v)) => {
                if str_eq(name.as_str(), other_name.as_str()) {
                    v.partial_cmp(other_v)
                } else {
                    None
                }
            },
            _ => None,
        }
    }
}

/// How two game versions compare: the Universal version equals itself, and versions of the
/// same edition (or of the same other name) compare by their version names; other pairs are
/// unordered.
pub open spec fn game_version_order(a: GameVersion, b: GameVersion) -> Option<Ordering> {
    match (a, b) {
        (GameVersion::Universal, GameVersion::Universal) => Some(Ordering::Equal),
        (GameVersion::Bedrock(v), GameVersion::Bedrock(other_v)) => version_name_order(v, other_v),
        (GameVersion::Java(v), GameVersion::Java(other_v)) => version_name_order(v, other_v),
        (GameVersion::Other(name, v), GameVersion::Other(other_name, other_v)) => if name@
            == other_name@ {
            version_name_order(v, other_v)
        } else {
            None
        },
        _ => None,
    }
}

impl PartialOrdSpecImpl for GameVersion {
    open spec fn obeys_partial_cmp_spec() -> bool {
        true
    }

    open spec fn partial_cmp_spec(&self, other: &Self) -> Option<Ordering> {
        game_version_order(*self, *other)
    }
}

/// Comparing two game versions the other way round gives the opposite answer: one comes
/// before the other exactly when the other comes after it, and they are equal either way
/// round or not at all.
pub proof fn lemma_game_version_order_dual(a: GameVersion, b: GameVersion)
    ensures
        game_version_order(a, b) == Some(Ordering::Less) <==> game_version_order(b, a) == Some(
            Ordering::Greater,
        ),
        game_version_order(a, b) == Some(Ordering::Equal) <==> game_version_order(b, a) == Some(
            Ordering::Equal,
        ),
        game_version_order(a, b) is None <==> game_version_order(b, a) is None,
{
}

} // verus!
