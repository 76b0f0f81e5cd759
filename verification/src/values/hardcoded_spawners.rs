//! The boxes of a chunk in which structures spawn particular mobs.

use vstd::prelude::*;

use crate::bytes::{extend_u32_le, spec_u32_at, spec_u32_le_bytes, u32_at};
use crate::values::block_volume::BlockVolume;
use crate::values::ValueToBytesOptions;

verus! {

/// The kind of structure whose box spawns mobs.
#[derive(Debug, Clone, Copy, PartialEq, Eq, Structural)]
pub enum HardcodedSpawnerType {
    NetherFortress,
    WitchHut,
    OceanMonument,
    LegacyVillageCat,
    PillagerOutpost,
    NewerLegacyVillageCat,
}

impl HardcodedSpawnerType {
    /// The byte that stands for this kind.
    pub open spec fn spec_to_u8(self) -> u8 {
        match self {
            HardcodedSpawnerType::NetherFortress => 1,
            HardcodedSpawnerType::WitchHut => 2,
            HardcodedSpawnerType::OceanMonument => 3,
            HardcodedSpawnerType::LegacyVillageCat => 4,
            HardcodedSpawnerType::PillagerOutpost => 5,
            HardcodedSpawnerType::NewerLegacyVillageCat => 6,
        }
    }

    /// The kind that a byte stands for, if any.
    pub open spec fn spec_from_u8(value: u8) -> Option<HardcodedSpawnerType> {
        if value == 1 {
            Some(HardcodedSpawnerType::NetherFortress)
        } else if value == 2 {
            Some(HardcodedSpawnerType::WitchHut)
        } else if value == 3 {
            Some(HardcodedSpawnerType::OceanMonument)
        } else if value == 4 {
            Some(HardcodedSpawnerType::LegacyVillageCat)
        } else if value == 5 {
            Some(HardcodedSpawnerType::PillagerOutpost)
        } else if value == 6 {
            Some(HardcodedSpawnerType::NewerLegacyVillageCat)
        } else {
            None
        }
    }

    /// The byte that stands for this kind.
    pub fn to_u8(self) -> (res: u8)
        ensures
            res == self.spec_to_u8(),
    {
        match self {
            HardcodedSpawnerType::NetherFortress => 1,
            HardcodedSpawnerType::WitchHut => 2,
            HardcodedSpawnerType::OceanMonument => 3,
            HardcodedSpawnerType::LegacyVillageCat => 4,
            HardcodedSpawnerType::PillagerOutpost => 5,
            HardcodedSpawnerType::NewerLegacyVillageCat => 6,
        }
    }

    /// The kind that a byte stands for, if any.
    pub fn from_u8(value: u8) -> (res: Option<Self>)
        ensures
            res == Self::spec_from_u8(value),
    {
        if value == 1 {
            Some(HardcodedSpawnerType::NetherFortress)
        } else if value == 2 {
            Some(HardcodedSpawnerType::WitchHut)
        } else if value == 3 {
            Some(HardcodedSpawnerType::OceanMonument)
        } else if value == 4 {
            Some(HardcodedSpawnerType::LegacyVillageCat)
        } else if value == 5 {
            Some(HardcodedSpawnerType::PillagerOutpost)
        } else if value == 6 {
            Some(HardcodedSpawnerType::NewerLegacyVillageCat)
        } else {
            None
        }
    }
}

impl From<HardcodedSpawnerType> for u8 {
    fn from(value: HardcodedSpawnerType) -> (res: u8) {
        value.to_u8()
    }
}

impl vstd::std_specs::convert::FromSpecImpl<HardcodedSpawnerType> for u8 {
    open spec fn obeys_from_spec() -> bool {
        true
    }

    open spec fn from_spec(value: HardcodedSpawnerType) -> u8 {
        value.spec_to_u8()
    }
}

impl TryFrom<u8> for HardcodedSpawnerType {
    type Error = ();

    fn try_from(value: u8) -> (res: Result<Self, ()>) {
        match HardcodedSpawnerType::from_u8(value) {
            Some(t) => Ok(t),
            None => Err(()),
        }
    }
}

impl vstd::std_specs::convert::TryFromSpecImpl<u8> for HardcodedSpawnerType {
    open spec fn obeys_try_from_spec() -> bool {
        true
    }

    open spec fn try_from_spec(value: u8) -> Result<HardcodedSpawnerType, ()> {
        match HardcodedSpawnerType::spec_from_u8(value) {
            Some(t) => Ok(t),
            None => Err(()),
        }
    }
}

/// An error while writing hardcoded spawners.
#[derive(Debug, Clone, Copy, PartialEq, Eq, Structural)]
pub enum SpawnersToBytesError {
    ExcessiveLength,
}

/// The boxes of a chunk in which structures spawn particular mobs.
#[derive(Debug, Clone, PartialEq, Eq)]
pub struct HardcodedSpawners(pub Vec<(BlockVolume, HardcodedSpawnerType)>);

/// The entry whose 25 bytes start at `start` in `value`: a box and then a kind, if both are
/// valid.
pub open spec fn spec_spawner_entry(value: Seq<u8>, start: int) -> Option<
    (BlockVolume, HardcodedSpawnerType),
> {
    match BlockVolume::spec_parse(value.subrange(start, start + 24)) {
        Some(volume) => match HardcodedSpawnerType::spec_from_u8(value[start + 24]) {
            Some(kind) => Some((volume, kind)),
            None => None,
        },
        None => None,
    }
}

/// The bytes of spawner entries: each box and then its kind.
pub open spec fn spec_spawner_entries_bytes(entries: Seq<(BlockVolume, HardcodedSpawnerType)>) -> Seq<
    u8,
>
    decreases entries.len(),
{
    if entries.len() == 0 {
        Seq::empty()
    } else {
        spec_spawner_entries_bytes(entries.drop_last()) + entries.last().0.spec_bytes() + seq![
            entries.last().1.spec_to_u8(),
        ]
    }
}

/// Copy 24 bytes of `value` from `start` into an array.
fn array24_at(value: &[u8], start: usize) -> (res: [u8; 24])
    requires
        start + 24 <= value@.len(),
    ensures
        res@ == value@.subrange(start as int, start + 24),
{
    let mut out: [u8; 24] = [0; 24];
    let mut j: usize = 0;
    while j < 24
        invariant
            start + 24 <= value.len(),
            j <= 24,
            forall|k: int| 0 <= k < j ==> out@[k] == value@[start + k],
        decreases 24 - j,
    {
        out[j] = value[start + j];
        j = j + 1;
    }
    assert(out@ =~= value@.subrange(start as int, start + 24));
    out
}

impl HardcodedSpawners {
    /// The spawners that `value` holds: a little-endian `u32` count and then that many
    /// 25-byte entries; `None` where the length is wrong or an entry is invalid.
    pub fn parse(value: &[u8]) -> (res: Option<Self>)
        ensures
            ({
                let n = spec_u32_at(value@, 0) as int;
                if value@.len() < 4 || value@.len() != 4 + n * 25 {
                    res is None
                } else if exists|i: int| 0 <= i < n && #[trigger] spec_spawner_entry(value@, 4 + 25 * i) is None {
                    res is None
                } else {
                    res matches Some(s) && s.0@.len() == n && forall|i: int|
                        0 <= i < n ==> spec_spawner_entry(value@, 4 + 25 * i) == Some(
                            #[trigger] s.0@[i],
                        )
                }
            }),
            res matches Some(s) ==> forall|i: int| 0 <= i < s.0@.len() ==> (#[trigger] s.0@[i]).0.wf(),
    {
        let len = value.len();
        if len < 4 {
            return None;
        }
        let n = u32_at(value, 0) as u64;
        if len as u64 != 4 + n * 25 {
            return None;
        }
        let n = n as usize;
        let mut spawners: Vec<(BlockVolume, HardcodedSpawnerType)> = Vec::new();
        let mut i: usize = 0;
        while i < n
            invariant
                len == value@.len(),
                len == 4 + n * 25,
                i <= n,
                spawners@.len() == i,
                forall|j: int| 0 <= j < i ==> spec_spawner_entry(value@, 4 + 25 * j) == Some(
                    #[trigger] spawners@[j],
                ),
                forall|j: int| 0 <= j < i ==> (#[trigger] spawners@[j]).0.wf(),
            decreases n - i,
        {
            let start = 4 + 25 * i;
            let kind = match HardcodedSpawnerType::from_u8(value[start + 24]) {
                Some(k) => k,
                None => {
                    assert(spec_spawner_entry(value@, 4 + 25 * i) is None);
                    return None;
                },
            };
            let volume = match BlockVolume::parse(array24_at(value, start)) {
                Some(v) => v,
                None => {
                    assert(spec_spawner_entry(value@, 4 + 25 * i) is None);
                    return None;
                },
            };
            spawners.push((volume, kind));
            i = i + 1;
        }
        assert forall|j: int| 0 <= j < n implies #[trigger] spec_spawner_entry(value@, 4 + 25 * j) is Some by {
            assert(spec_spawner_entry(value@, 4 + 25 * j) == Some(spawners@[j]));
        }
        Some(HardcodedSpawners(spawners))
    }

    /// The bytes of these spawners, with the count written as `count`, if the count can be
    /// written: the count as a little-endian `u32`, then the first entries.
    pub open spec fn spec_bytes(&self, opts: ValueToBytesOptions) -> Option<Seq<u8>> {
        match opts.handle_excessive_length.spec_length_to_u32(self.0@.len() as usize) {
            Some((count, kept)) => Some(
                spec_u32_le_bytes(count) + spec_spawner_entries_bytes(self.0@.take(kept as int)),
            ),
            None => None,
        }
    }

    pub fn extend_serialized(&self, bytes: &mut Vec<u8>, opts: ValueToBytesOptions) -> (res: Result<
        (),
        SpawnersToBytesError,
    >)
        requires
            forall|i: int| 0 <= i < self.0@.len() ==> (#[trigger] self.0@[i]).0.wf(),
        ensures
            match self.spec_bytes(opts) {
                Some(b) => res is Ok && final(bytes)@ == old(bytes)@ + b,
                None => res == Err::<(), _>(SpawnersToBytesError::ExcessiveLength) && final(bytes)@
                    == old(bytes)@,
            },
    {
        let (count, kept) = match opts.handle_excessive_length.length_to_u32(self.0.len()) {
            Some(pair) => pair,
            None => {
                return Err(SpawnersToBytesError::ExcessiveLength);
            },
        };
        extend_u32_le(bytes, count);
        let ghost start = bytes@;
        let mut i: usize = 0;
        while i < kept
            invariant
                kept <= self.0@.len(),
                i <= kept,
                forall|j: int| 0 <= j < self.0@.len() ==> (#[trigger] self.0@[j]).0.wf(),
                bytes@ == start + spec_spawner_entries_bytes(self.0@.take(i as int)),
            decreases kept - i,
        {
            assert(self.0@.take(i + 1).drop_last() =~= self.0@.take(i as int));
            let (volume, kind) = self.0[i];
            volume.extend_serialized(bytes);
            bytes.push(kind.to_u8());
            i = i + 1;
            assert(bytes@ =~= start + spec_spawner_entries_bytes(self.0@.take(i as int)));
        }
        assert(bytes@ =~= old(bytes)@ + self.spec_bytes(opts)->0);
        Ok(())
    }

    pub fn to_bytes(&self, opts: ValueToBytesOptions) -> (res: Result<Vec<u8>, SpawnersToBytesError>)
        requires
            forall|i: int| 0 <= i < self.0@.len() ==> (#[trigger] self.0@[i]).0.wf(),
        ensures
            match self.spec_bytes(opts) {
                Some(b) => res matches Ok(v) && v@ == b,
                None => res == Err::<Vec<u8>, _>(SpawnersToBytesError::ExcessiveLength),
            },
    {
        let mut bytes: Vec<u8> = Vec::new();
        match self.extend_serialized(&mut bytes, opts) {
            Ok(()) => {
                assert(bytes@ =~= self.spec_bytes(opts)->0);
                Ok(bytes)
            },
            Err(e) => Err(e),
        }
    }
}


/// The kind byte of a hardcoded spawner is the game's numbering: 1 Nether fortress, 2 witch
/// hut, 3 ocean monument, 4 legacy village cat, 5 pillager outpost, 6 newer legacy village
/// cat; 0 and bytes above 6 are no kind.
pub proof fn lemma_hardcoded_spawner_numbering()
    ensures
        HardcodedSpawnerType::NetherFortress.spec_to_u8() == 1u8,
        HardcodedSpawnerType::spec_from_u8(1u8) == Some(HardcodedSpawnerType::NetherFortress),
        HardcodedSpawnerType::WitchHut.spec_to_u8() == 2u8,
        HardcodedSpawnerType::spec_from_u8(2u8) == Some(HardcodedSpawnerType::WitchHut),
        HardcodedSpawnerType::OceanMonument.spec_to_u8() == 3u8,
        HardcodedSpawnerType::spec_from_u8(3u8) == Some(HardcodedSpawnerType::OceanMonument),
        HardcodedSpawnerType::LegacyVillageCat.spec_to_u8() == 4u8,
        HardcodedSpawnerType::spec_from_u8(4u8) == Some(HardcodedSpawnerType::LegacyVillageCat),
        HardcodedSpawnerType::PillagerOutpost.spec_to_u8() == 5u8,
        HardcodedSpawnerType::spec_from_u8(5u8) == Some(HardcodedSpawnerType::PillagerOutpost),
        HardcodedSpawnerType::NewerLegacyVillageCat.spec_to_u8() == 6u8,
        HardcodedSpawnerType::spec_from_u8(6u8) == Some(HardcodedSpawnerType::NewerLegacyVillageCat),
        HardcodedSpawnerType::spec_from_u8(0u8) is None,
        forall|b: u8| b > 6 ==> #[trigger] HardcodedSpawnerType::spec_from_u8(b) is None,
{
}

} // verus!
