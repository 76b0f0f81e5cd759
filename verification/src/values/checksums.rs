//! The checksums of a chunk's data, and the kinds of chunk data that they cover.

use crate::bytes::{spec_u16_from_le, spec_u32_at, spec_u64_at, u16_from_le, u32_at, u64_at};
use indexmap::IndexMap;
use vstd::prelude::*;

verus! {

#[verifier::external_type_specification]
#[verifier::external_body]
#[verifier::reject_recursive_types(K)]
#[verifier::reject_recursive_types(V)]
#[verifier::reject_recursive_types(S)]
pub struct ExIndexMap<K, V, S>(IndexMap<K, V, S>);

/// The key-value pairs of an `IndexMap` of checksums, in the map's order.
pub uninterp spec fn checksum_entries(map: IndexMap<ChecksumType, u64>) -> Seq<(ChecksumType, u64)>;

/// No key occurs twice among `entries`.
pub open spec fn spec_keys_distinct(entries: Seq<(ChecksumType, u64)>) -> bool {
    forall|i: int, j: int|
        0 <= i < entries.len() && 0 <= j < entries.len() && i != j ==> entries[i].0 != entries[j].0
}

/// The position of `key` among `entries`, if it occurs there.
pub open spec fn spec_key_position(entries: Seq<(ChecksumType, u64)>, key: ChecksumType) -> Option<
    int,
> {
    if exists|i: int| 0 <= i < entries.len() && entries[i].0 == key {
        Some(choose|i: int| 0 <= i < entries.len() && entries[i].0 == key)
    } else {
        None
    }
}

/// The entries after `key` is mapped to `value`: where `key` occurs, its value is replaced in
/// place; otherwise the pair is appended at the end.
pub open spec fn spec_entry_insert(
    entries: Seq<(ChecksumType, u64)>,
    key: ChecksumType,
    value: u64,
) -> Seq<(ChecksumType, u64)> {
    match spec_key_position(entries, key) {
        Some(i) => entries.update(i, (key, value)),
        None => entries.push((key, value)),
    }
}

/// `IndexMap::with_capacity`: a new map with no entries, whatever the capacity asked for. The
/// capacity is bounded here so that the allocation's size cannot overflow, which panics.
#[verifier::external_body]
fn checksum_map_with_capacity(capacity: usize) -> (res: IndexMap<ChecksumType, u64>)
    requires
        capacity <= 0x1_0000,
    ensures
        checksum_entries(res) == Seq::<(ChecksumType, u64)>::empty(),
{
    IndexMap::with_capacity(capacity)
}

/// `IndexMap::insert`: where a key equal to `key` is present, its value becomes `value` and the
/// key keeps its place in the order; otherwise the pair is appended last. The value that was
/// replaced, if any, is returned.
#[verifier::external_body]
fn checksum_map_insert(map: &mut IndexMap<ChecksumType, u64>, key: ChecksumType, value: u64) -> (res:
    Option<u64>)
    requires
        spec_keys_distinct(checksum_entries(*old(map))),
    ensures
        checksum_entries(*final(map)) == spec_entry_insert(checksum_entries(*old(map)), key, value),
        res == (match spec_key_position(checksum_entries(*old(map)), key) {
            Some(i) => Some(checksum_entries(*old(map))[i].1),
            None => None,
        }),
{
    map.insert(key, value)
}

/// The kind of chunk data that a checksum covers.
#[derive(Debug, Clone, Copy, PartialEq, Eq, Hash, Structural)]
pub enum ChecksumType {
    Data2D,
    SubchunkBlocks(i8),
    BlockEntities,
    Entities,
}

impl ChecksumType {
    /// The tag and subtag that stand for this kind.
    pub open spec fn spec_to_tag_and_subtag(self) -> (u16, i8) {
        match self {
            ChecksumType::Data2D => (45, 0),
            ChecksumType::SubchunkBlocks(y_index) => (47, y_index),
            ChecksumType::BlockEntities => (49, 0),
            ChecksumType::Entities => (50, 0),
        }
    }

    /// The kind that a tag and subtag stand for: 45, 49 and 50 with subtag 0, and 47 with
    /// any subtag, which is the subchunk's y index.
    pub open spec fn spec_parse(tag: u16, y_index: i8) -> Option<ChecksumType> {
        if tag == 45 && y_index == 0 {
            Some(ChecksumType::Data2D)
        } else if tag == 47 {
            Some(ChecksumType::SubchunkBlocks(y_index))
        } else if tag == 49 && y_index == 0 {
            Some(ChecksumType::BlockEntities)
        } else if tag == 50 && y_index == 0 {
            Some(ChecksumType::Entities)
        } else {
            None
        }
    }

    pub fn parse(tag: u16, y_index: i8) -> (res: Option<Self>)
        ensures
            res == Self::spec_parse(tag, y_index),
    {
        if tag == 45 && y_index == 0 {
            Some(ChecksumType::Data2D)
        } else if tag == 47 {
            Some(ChecksumType::SubchunkBlocks(y_index))
        } else if tag == 49 && y_index == 0 {
            Some(ChecksumType::BlockEntities)
        } else if tag == 50 && y_index == 0 {
            Some(ChecksumType::Entities)
        } else {
            None
        }
    }

    pub fn to_tag_and_subtag(self) -> (res: (u16, i8))
        ensures
            res == self.spec_to_tag_and_subtag(),
    {
        match self {
            ChecksumType::Data2D => (45, 0),
            ChecksumType::SubchunkBlocks(y_index) => (47, y_index),
            ChecksumType::BlockEntities => (49, 0),
            ChecksumType::Entities => (50, 0),
        }
    }
}

/// Reading the tag and subtag of a kind gives back that kind.
pub proof fn lemma_checksum_type_roundtrip(t: ChecksumType)
    ensures
        ChecksumType::spec_parse(t.spec_to_tag_and_subtag().0, t.spec_to_tag_and_subtag().1)
            == Some(t),
{
}

/// `IndexMap::clone`: a map with the same entries in the same order.
#[verifier::external_body]
fn checksum_map_clone(map: &IndexMap<ChecksumType, u64>) -> (res: IndexMap<ChecksumType, u64>)
    ensures
        checksum_entries(res) == checksum_entries(*map),
{
    map.clone()
}

/// The tag of the `i`th record of a checksums value: each record is eleven bytes long and
/// follows the four-byte count.
pub open spec fn spec_record_tag(value: Seq<u8>, i: int) -> u16 {
    spec_u16_from_le(value[4 + 11 * i], value[5 + 11 * i])
}

/// The subtag of the `i`th record of a checksums value.
pub open spec fn spec_record_subtag(value: Seq<u8>, i: int) -> i8 {
    value[6 + 11 * i] as i8
}

/// The checksum of the `i`th record of a checksums value.
pub open spec fn spec_record_checksum(value: Seq<u8>, i: int) -> u64 {
    spec_u64_at(value, 7 + 11 * i)
}

/// The entries that the first `n` records of a checksums value give, inserted one after
/// another; none where one of them has a tag and subtag of no kind.
pub open spec fn spec_records(value: Seq<u8>, n: nat) -> Option<Seq<(ChecksumType, u64)>>
    decreases n,
{
    if n == 0 {
        Some(Seq::empty())
    } else {
        match spec_records(value, (n - 1) as nat) {
            Some(prev) => match ChecksumType::spec_parse(
                spec_record_tag(value, n - 1),
                spec_record_subtag(value, n - 1),
            ) {
                Some(kind) => Some(spec_entry_insert(prev, kind, spec_record_checksum(value, n - 1))),
                None => None,
            },
            None => None,
        }
    }
}

/// The checksums of a chunk's data, by the kind of data that each covers, in the order in which
/// they were stored.
#[derive(Debug, PartialEq, Eq)]
pub struct Checksums(pub IndexMap<ChecksumType, u64>);

impl Clone for Checksums {
    fn clone(&self) -> (res: Self)
        ensures
            checksum_entries(res.0) == checksum_entries(self.0),
    {
        Checksums(checksum_map_clone(&self.0))
    }
}

impl Checksums {
    /// The entries that a checksums value holds: a little-endian `u32` count `n`, then exactly
    /// `n` records of eleven bytes (a little-endian `u16` tag, an `i8` subtag and a
    /// little-endian `u64` checksum). None where the length is wrong or a record's tag and
    /// subtag stand for no kind.
    pub open spec fn spec_parse(value: Seq<u8>) -> Option<Seq<(ChecksumType, u64)>> {
        if value.len() < 4 {
            None
        } else {
            let n = spec_u32_at(value, 0);
            if value.len() != 4 + 11 * n {
                None
            } else {
                spec_records(value, n as nat)
            }
        }
    }

    /// Parse the checksums stored for a chunk.
    pub fn parse(value: &[u8]) -> (res: Option<Self>)
        ensures
            match res {
                Some(checksums) => {
                    &&& Self::spec_parse(value@) == Some(checksum_entries(checksums.0))
                    &&& spec_keys_distinct(checksum_entries(checksums.0))
                },
                None => Self::spec_parse(value@) is None,
            },
    {
        if value.len() < 4 {
            return None;
        }
        let num_entries = u32_at(value, 0);
        if (num_entries as u64) * 11 + 4 != value.len() as u64 {
            return None;
        }
        let n = num_entries as usize;
        let capacity = if n <= 0x1_0000 { n } else { 0x1_0000 };
        let mut checksums = checksum_map_with_capacity(capacity);
        let mut i: usize = 0;
        while i < n
            invariant
                i <= n,
                n == spec_u32_at(value@, 0),
                value@.len() == 4 + 11 * n,
                value.len() == 4 + 11 * n,
                spec_records(value@, i as nat) == Some(checksum_entries(checksums)),
                spec_keys_distinct(checksum_entries(checksums)),
            decreases n - i,
        {
            assert(11 * i + 11 <= 11 * n) by (nonlinear_arith)
                requires
                    i < n,
            ;
            let pos = 4 + 11 * i;
            let tag = u16_from_le(value[pos], value[pos + 1]);
            let subtag = value[pos + 2] as i8;
            let checksum = u64_at(value, pos + 3);
            match ChecksumType::parse(tag, subtag) {
                Some(kind) => {
                    proof {
                        lemma_entry_insert_distinct(checksum_entries(checksums), kind, checksum);
                    }
                    checksum_map_insert(&mut checksums, kind, checksum);
                },
                None => {
                    proof {
                        lemma_records_none(value@, (i + 1) as nat, n as nat);
                    }
                    return None;
                },
            }
            i += 1;
        }
        Some(Checksums(checksums))
    }
}

/// Inserting into entries with distinct keys keeps the keys distinct.
proof fn lemma_entry_insert_distinct(entries: Seq<(ChecksumType, u64)>, key: ChecksumType, value: u64)
    requires
        spec_keys_distinct(entries),
    ensures
        spec_keys_distinct(spec_entry_insert(entries, key, value)),
{
}

/// Once a record of no kind has been met, the records that follow give no entries either.
proof fn lemma_records_none(value: Seq<u8>, k: nat, m: nat)
    requires
        k <= m,
        spec_records(value, k) is None,
    ensures
        spec_records(value, m) is None,
    decreases m - k,
{
    if k < m {
        lemma_records_none(value, k, (m - 1) as nat);
    }
}


/// The tags of the kinds of checksummed data are the game's key tags: 45 for 2D data, 47 with
/// the subchunk's y index for subchunk blocks, 49 for block entities and 50 for entities.
pub proof fn lemma_checksum_tags()
    ensures
        ChecksumType::Data2D.spec_to_tag_and_subtag() == (45u16, 0i8),
        forall|y: i8| #[trigger] ChecksumType::SubchunkBlocks(y).spec_to_tag_and_subtag() == (47u16, y),
        ChecksumType::BlockEntities.spec_to_tag_and_subtag() == (49u16, 0i8),
        ChecksumType::Entities.spec_to_tag_and_subtag() == (50u16, 0i8),
        ChecksumType::spec_parse(45u16, 0i8) == Some(ChecksumType::Data2D),
        forall|y: i8| #[trigger] ChecksumType::spec_parse(47u16, y) == Some(ChecksumType::SubchunkBlocks(y)),
        ChecksumType::spec_parse(49u16, 0i8) == Some(ChecksumType::BlockEntities),
        ChecksumType::spec_parse(50u16, 0i8) == Some(ChecksumType::Entities),
        forall|t: u16, y: i8|
            t != 45 && t != 47 && t != 49 && t != 50 ==> #[trigger] ChecksumType::spec_parse(t, y) is None,
{
}

} // verus!
