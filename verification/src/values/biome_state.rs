//! The snow states of the biomes of a chunk.

use vstd::prelude::*;

use crate::bytes::{extend_u16_le, spec_u16_from_le, spec_u16_le_bytes, u16_from_le};

verus! {

/// Whether some key occurs twice among `entries`.
pub open spec fn spec_has_repeated_key<K, V>(entries: Seq<(K, V)>) -> bool {
    exists|a: int, b: int| 0 <= a < b < entries.len() && #[trigger] entries[a].0 == #[trigger] entries[b].0
}

/// The value of the first entry with key `key`, if any.
pub open spec fn spec_lookup<K, V>(entries: Seq<(K, V)>, key: K) -> Option<V> {
    if exists|i: int| 0 <= i < entries.len() && #[trigger] entries[i].0 == key {
        Some(
            entries[choose|i: int|
                0 <= i < entries.len() && entries[i].0 == key && forall|j: int|
                    0 <= j < i ==> #[trigger] entries[j].0 != key].1,
        )
    } else {
        None
    }
}

/// `entries` with the value of `key` set to `value`: in place where `key` has an entry,
/// appended where it has none.
pub open spec fn spec_set<K, V>(entries: Seq<(K, V)>, key: K, value: V) -> Seq<(K, V)> {
    if exists|i: int| 0 <= i < entries.len() && #[trigger] entries[i].0 == key {
        entries.update(
            choose|i: int|
                0 <= i < entries.len() && entries[i].0 == key && forall|j: int|
                    0 <= j < i ==> #[trigger] entries[j].0 != key,
            (key, value),
        )
    } else {
        entries.push((key, value))
    }
}

/// Where the first entry with `key` is at `i`, the lookup and the update go there.
proof fn lemma_lookup_at<K, V>(entries: Seq<(K, V)>, key: K, i: int)
    requires
        0 <= i < entries.len(),
        entries[i].0 == key,
        forall|j: int| 0 <= j < i ==> (#[trigger] entries[j]).0 != key,
    ensures
        spec_lookup(entries, key) == Some(entries[i].1),
        forall|value: V| #[trigger] spec_set(entries, key, value) == entries.update(i, (key, value)),
{
    let k = choose|k: int|
        0 <= k < entries.len() && entries[k].0 == key && forall|j: int|
            0 <= j < k ==> #[trigger] entries[j].0 != key;
    assert(k == i) by {
        if k < i {
            assert(entries[k].0 != key);
        } else if k > i {
            assert(entries[i].0 != key);
        }
    }
}

/// Where no entry has `key`, the lookup finds nothing and the update appends.
proof fn lemma_lookup_absent<K, V>(entries: Seq<(K, V)>, key: K)
    requires
        forall|j: int| 0 <= j < entries.len() ==> (#[trigger] entries[j]).0 != key,
    ensures
        spec_lookup(entries, key) is None,
        forall|value: V| #[trigger] spec_set(entries, key, value) == entries.push((key, value)),
{
}

/// The snow states of biomes with one-byte ids, in the order they were stored; no biome
/// occurs twice.
#[derive(Debug, Clone, PartialEq, Eq)]
pub struct OneByteBiomeStates(Vec<(u8, u8)>);

impl View for OneByteBiomeStates {
    type V = Seq<(u8, u8)>;

    closed spec fn view(&self) -> Seq<(u8, u8)> {
        self.0@
    }
}

impl OneByteBiomeStates {
    /// Whether no biome occurs twice.
    pub open spec fn wf(&self) -> bool {
        !spec_has_repeated_key(self@)
    }

    /// The entries, where no biome occurs twice; `None` where one does.
    pub fn new(biome_states: Vec<(u8, u8)>) -> (res: Option<Self>)
        ensures
            match res {
                Some(s) => s@ == biome_states@ && s.wf(),
                None => spec_has_repeated_key(biome_states@),
            },
    {
        let n = biome_states.len();
        let mut i: usize = 0;
        while i < n
            invariant
                n == biome_states@.len(),
                i <= n,
                forall|a: int, b: int| 0 <= a < i && a < b < n ==> #[trigger] biome_states@[a].0 != #[trigger] biome_states@[b].0,
            decreases n - i,
        {
            let mut j: usize = i + 1;
            while j < n
                invariant
                    n == biome_states@.len(),
                    i < n,
                    i < j <= n,
                    forall|b: int| i < b < j ==> biome_states@[i as int].0 != #[trigger] biome_states@[b].0,
                decreases n - j,
            {
                if biome_states[i].0 == biome_states[j].0 {
                    return None;
                }
                j = j + 1;
            }
            i = i + 1;
        }
        Some(OneByteBiomeStates(biome_states))
    }

    /// The state of `biome`, if it has one.
    pub fn get_biome(&self, biome: u8) -> (res: Option<u8>)
        ensures
            res == spec_lookup(self@, biome),
    {
        let mut i: usize = 0;
        while i < self.0.len()
            invariant
                i <= self.0@.len(),
                forall|j: int| 0 <= j < i ==> (#[trigger] self.0@[j]).0 != biome,
            decreases self.0@.len() - i,
        {
            if self.0[i].0 == biome {
                proof {
                    lemma_lookup_at(self.0@, biome, i as int);
                }
                return Some(self.0[i].1);
            }
            i = i + 1;
        }
        proof {
            lemma_lookup_absent(self.0@, biome);
        }
        None
    }

    /// Set the state of `biome`, returning its previous state; a biome without one is
    /// appended.
    pub fn set_biome(&mut self, biome: u8, state: u8) -> (res: Option<u8>)
        ensures
            res == spec_lookup(old(self)@, biome),
            final(self)@ == spec_set(old(self)@, biome, state),
            old(self).wf() ==> final(self).wf(),
    {
        let ghost before = self.0@;
        let mut i: usize = 0;
        while i < self.0.len()
            invariant
                self.0@ == before,
                before == old(self)@,
                i <= before.len(),
                forall|j: int| 0 <= j < i ==> (#[trigger] before[j]).0 != biome,
            decreases before.len() - i,
        {
            if self.0[i].0 == biome {
                let old_state = self.0[i].1;
                proof {
                    lemma_lookup_at(before, biome, i as int);
                    assert(spec_set(before, biome, state) == before.update(i as int, (biome, state)));
                }
                let mut entries: Vec<(u8, u8)> = Vec::new();
                std::mem::swap(&mut entries, &mut self.0);
                entries.set(i, (biome, state));
                proof {
                    if !spec_has_repeated_key(before) {
                        assert forall|a: int, b: int| 0 <= a < b < entries@.len() implies #[trigger] entries@[a].0 != #[trigger] entries@[b].0 by {
                            assert(before[a].0 != before[b].0);
                        }
                    }
                }
                self.0 = entries;
                return Some(old_state);
            }
            i = i + 1;
        }
        proof {
            lemma_lookup_absent(before, biome);
            assert(spec_set(before, biome, state) == before.push((biome, state)));
        }
        let mut entries: Vec<(u8, u8)> = Vec::new();
                std::mem::swap(&mut entries, &mut self.0);
        entries.push((biome, state));
        proof {
            if !spec_has_repeated_key(before) {
                assert forall|a: int, b: int| 0 <= a < b < entries@.len() implies #[trigger] entries@[a].0 != #[trigger] entries@[b].0 by {
                    if b < before.len() {
                        assert(before[a].0 != before[b].0);
                    }
                }
            }
        }
        self.0 = entries;
        None
    }

    /// The entries, in order.
    pub fn entries(&self) -> (res: Vec<(u8, u8)>)
        ensures
            res@ == self@,
    {
        let mut out: Vec<(u8, u8)> = Vec::new();
        let mut i: usize = 0;
        while i < self.0.len()
            invariant
                i <= self.0@.len(),
                out@ =~= self.0@.subrange(0, i as int),
            decreases self.0@.len() - i,
        {
            out.push(self.0[i]);
            i = i + 1;
        }
        assert(out@ =~= self.0@);
        out
    }

    /// The biomes, in order.
    pub fn keys(&self) -> (res: Vec<u8>)
        ensures
            res@ == self@.map_values(|e: (u8, u8)| e.0),
    {
        let mut out: Vec<u8> = Vec::new();
        let mut i: usize = 0;
        while i < self.0.len()
            invariant
                i <= self.0@.len(),
                out@ =~= self.0@.subrange(0, i as int).map_values(|e: (u8, u8)| e.0),
            decreases self.0@.len() - i,
        {
            out.push(self.0[i].0);
            i = i + 1;
        }
        assert(self.0@.subrange(0, self.0@.len() as int) =~= self.0@);
        out
    }

    /// The states, in order.
    pub fn values(&self) -> (res: Vec<u8>)
        ensures
            res@ == self@.map_values(|e: (u8, u8)| e.1),
    {
        let mut out: Vec<u8> = Vec::new();
        let mut i: usize = 0;
        while i < self.0.len()
            invariant
                i <= self.0@.len(),
                out@ =~= self.0@.subrange(0, i as int).map_values(|e: (u8, u8)| e.1),
            decreases self.0@.len() - i,
        {
            out.push(self.0[i].1);
            i = i + 1;
        }
        assert(self.0@.subrange(0, self.0@.len() as int) =~= self.0@);
        out
    }

    pub fn inner(&self) -> (res: &Vec<(u8, u8)>)
        ensures
            res@ == self@,
    {
        &self.0
    }

    pub fn into_inner(self) -> (res: Vec<(u8, u8)>)
        ensures
            res@ == self@,
    {
        self.0
    }
}

/// The snow states of biomes with two-byte ids, in the order they were stored; no biome
/// occurs twice.
#[derive(Debug, Clone, PartialEq, Eq)]
pub struct TwoByteBiomeStates(Vec<(u16, u8)>);

impl View for TwoByteBiomeStates {
    type V = Seq<(u16, u8)>;

    closed spec fn view(&self) -> Seq<(u16, u8)> {
        self.0@
    }
}

impl TwoByteBiomeStates {
    /// Whether no biome occurs twice.
    pub open spec fn wf(&self) -> bool {
        !spec_has_repeated_key(self@)
    }

    /// The entries, where no biome occurs twice; `None` where one does.
    pub fn new(biome_states: Vec<(u16, u8)>) -> (res: Option<Self>)
        ensures
            match res {
                Some(s) => s@ == biome_states@ && s.wf(),
                None => spec_has_repeated_key(biome_states@),
            },
    {
        let n = biome_states.len();
        let mut i: usize = 0;
        while i < n
            invariant
                n == biome_states@.len(),
                i <= n,
                forall|a: int, b: int| 0 <= a < i && a < b < n ==> #[trigger] biome_states@[a].0 != #[trigger] biome_states@[b].0,
            decreases n - i,
        {
            let mut j: usize = i + 1;
            while j < n
                invariant
                    n == biome_states@.len(),
                    i < n,
                    i < j <= n,
                    forall|b: int| i < b < j ==> biome_states@[i as int].0 != #[trigger] biome_states@[b].0,
                decreases n - j,
            {
                if biome_states[i].0 == biome_states[j].0 {
                    return None;
                }
                j = j + 1;
            }
            i = i + 1;
        }
        Some(TwoByteBiomeStates(biome_states))
    }

    /// The state of `biome`, if it has one.
    pub fn get_biome(&self, biome: u16) -> (res: Option<u8>)
        ensures
            res == spec_lookup(self@, biome),
    {
        let mut i: usize = 0;
        while i < self.0.len()
            invariant
                i <= self.0@.len(),
                forall|j: int| 0 <= j < i ==> (#[trigger] self.0@[j]).0 != biome,
            decreases self.0@.len() - i,
        {
            if self.0[i].0 == biome {
                proof {
                    lemma_lookup_at(self.0@, biome, i as int);
                }
                return Some(self.0[i].1);
            }
            i = i + 1;
        }
        proof {
            lemma_lookup_absent(self.0@, biome);
        }
        None
    }

    /// Set the state of `biome`, returning its previous state; a biome without one is
    /// appended.
    pub fn set_biome(&mut self, biome: u16, state: u8) -> (res: Option<u8>)
        ensures
            res == spec_lookup(old(self)@, biome),
            final(self)@ == spec_set(old(self)@, biome, state),
            old(self).wf() ==> final(self).wf(),
    {
        let ghost before = self.0@;
        let mut i: usize = 0;
        while i < self.0.len()
            invariant
                self.0@ == before,
                before == old(self)@,
                i <= before.len(),
                forall|j: int| 0 <= j < i ==> (#[trigger] before[j]).0 != biome,
            decreases before.len() - i,
        {
            if self.0[i].0 == biome {
                let old_state = self.0[i].1;
                proof {
                    lemma_lookup_at(before, biome, i as int);
                    assert(spec_set(before, biome, state) == before.update(i as int, (biome, state)));
                }
                let mut entries: Vec<(u16, u8)> = Vec::new();
                std::mem::swap(&mut entries, &mut self.0);
                entries.set(i, (biome, state));
                proof {
                    if !spec_has_repeated_key(before) {
                        assert forall|a: int, b: int| 0 <= a < b < entries@.len() implies #[trigger] entries@[a].0 != #[trigger] entries@[b].0 by {
                            assert(before[a].0 != before[b].0);
                        }
                    }
                }
                self.0 = entries;
                return Some(old_state);
            }
            i = i + 1;
        }
        proof {
            lemma_lookup_absent(before, biome);
            assert(spec_set(before, biome, state) == before.push((biome, state)));
        }
        let mut entries: Vec<(u16, u8)> = Vec::new();
                std::mem::swap(&mut entries, &mut self.0);
        entries.push((biome, state));
        proof {
            if !spec_has_repeated_key(before) {
                assert forall|a: int, b: int| 0 <= a < b < entries@.len() implies #[trigger] entries@[a].0 != #[trigger] entries@[b].0 by {
                    if b < before.len() {
                        assert(before[a].0 != before[b].0);
                    }
                }
            }
        }
        self.0 = entries;
        None
    }

    /// The entries, in order.
    pub fn entries(&self) -> (res: Vec<(u16, u8)>)
        ensures
            res@ == self@,
    {
        let mut out: Vec<(u16, u8)> = Vec::new();
        let mut i: usize = 0;
        while i < self.0.len()
            invariant
                i <= self.0@.len(),
                out@ =~= self.0@.subrange(0, i as int),
            decreases self.0@.len() - i,
        {
            out.push(self.0[i]);
            i = i + 1;
        }
        assert(out@ =~= self.0@);
        out
    }

    /// The biomes, in order.
    pub fn keys(&self) -> (res: Vec<u16>)
        ensures
            res@ == self@.map_values(|e: (u16, u8)| e.0),
    {
        let mut out: Vec<u16> = Vec::new();
        let mut i: usize = 0;
        while i < self.0.len()
            invariant
                i <= self.0@.len(),
                out@ =~= self.0@.subrange(0, i as int).map_values(|e: (u16, u8)| e.0),
            decreases self.0@.len() - i,
        {
            out.push(self.0[i].0);
            i = i + 1;
        }
        assert(self.0@.subrange(0, self.0@.len() as int) =~= self.0@);
        out
    }

    /// The states, in order.
    pub fn values(&self) -> (res: Vec<u8>)
        ensures
            res@ == self@.map_values(|e: (u16, u8)| e.1),
    {
        let mut out: Vec<u8> = Vec::new();
        let mut i: usize = 0;
        while i < self.0.len()
            invariant
                i <= self.0@.len(),
                out@ =~= self.0@.subrange(0, i as int).map_values(|e: (u16, u8)| e.1),
            decreases self.0@.len() - i,
        {
            out.push(self.0[i].1);
            i = i + 1;
        }
        assert(self.0@.subrange(0, self.0@.len() as int) =~= self.0@);
        out
    }

    pub fn inner(&self) -> (res: &Vec<(u16, u8)>)
        ensures
            res@ == self@,
    {
        &self.0
    }

    pub fn into_inner(self) -> (res: Vec<(u16, u8)>)
        ensures
            res@ == self@,
    {
        self.0
    }
}

/// The snow states of the biomes of a chunk, in one of two formats.
#[derive(Debug, Clone, PartialEq, Eq)]
pub enum BiomeState {
    /// Note that this should be limited to `u8::MAX` (255) entries.
    OneByteBiomes(OneByteBiomeStates),
    /// Note that this should be limited to `u16::MAX` (65535) entries.
    TwoByteBiomes(TwoByteBiomeStates),
}

/// Whether `value` is in the older format: a one-byte count `n` and then `n` entries of two
/// bytes each (biome, state).
pub open spec fn spec_is_one_byte_format(value: Seq<u8>) -> bool {
    value.len() >= 1 && value.len() == 1 + 2 * value[0]
}

/// The count of entries in the two-byte header of the newer format.
pub open spec fn spec_two_byte_count(value: Seq<u8>) -> u16 {
    spec_u16_from_le(value[0], value[1])
}

/// Whether `value` is in the newer format: a two-byte little-endian count `n` and then `n`
/// entries of three bytes each (little-endian biome, state).
pub open spec fn spec_is_two_byte_format(value: Seq<u8>) -> bool {
    value.len() >= 2 && value.len() == 2 + 3 * spec_two_byte_count(value)
}

/// The `n` entries of the older format.
pub open spec fn spec_one_byte_entries(value: Seq<u8>, n: nat) -> Seq<(u8, u8)> {
    Seq::new(n, |i: int| (value[1 + 2 * i], value[2 + 2 * i]))
}

/// The `n` entries of the newer format.
pub open spec fn spec_two_byte_entries(value: Seq<u8>, n: nat) -> Seq<(u16, u8)> {
    Seq::new(n, |i: int| (spec_u16_from_le(value[2 + 3 * i], value[3 + 3 * i]), value[4 + 3 * i]))
}

/// The bytes of entries in the older format.
pub open spec fn spec_one_byte_pairs(entries: Seq<(u8, u8)>) -> Seq<u8>
    decreases entries.len(),
{
    if entries.len() == 0 {
        Seq::empty()
    } else {
        spec_one_byte_pairs(entries.drop_last()) + seq![entries.last().0, entries.last().1]
    }
}

/// The bytes of entries in the newer format.
pub open spec fn spec_two_byte_pairs(entries: Seq<(u16, u8)>) -> Seq<u8>
    decreases entries.len(),
{
    if entries.len() == 0 {
        Seq::empty()
    } else {
        spec_two_byte_pairs(entries.drop_last()) + spec_u16_le_bytes(entries.last().0) + seq![
            entries.last().1,
        ]
    }
}

/// The bytes of entries in the older format, at most 255 of them (any further ones are
/// dropped), after their count.
pub open spec fn spec_one_byte_biome_bytes(entries: Seq<(u8, u8)>) -> Seq<u8> {
    let n: nat = if entries.len() > 255 {
        255
    } else {
        entries.len()
    };
    seq![n as u8] + spec_one_byte_pairs(entries.take(n as int))
}

/// The bytes of entries in the newer format, at most 65535 of them (any further ones are
/// dropped), after their count.
pub open spec fn spec_two_byte_biome_bytes(entries: Seq<(u16, u8)>) -> Seq<u8> {
    let n: nat = if entries.len() > 65535 {
        65535
    } else {
        entries.len()
    };
    spec_u16_le_bytes(n as u16) + spec_two_byte_pairs(entries.take(n as int))
}

proof fn lemma_one_byte_pairs(entries: Seq<(u8, u8)>)
    ensures
        spec_one_byte_pairs(entries).len() == 2 * entries.len(),
        forall|i: int|
            0 <= i < entries.len() ==> spec_one_byte_pairs(entries)[2 * i] == (#[trigger] entries[i]).0
                && spec_one_byte_pairs(entries)[2 * i + 1] == entries[i].1,
    decreases entries.len(),
{
    if entries.len() > 0 {
        lemma_one_byte_pairs(entries.drop_last());
        assert forall|i: int| 0 <= i < entries.len() implies spec_one_byte_pairs(entries)[2 * i]
            == (#[trigger] entries[i]).0 && spec_one_byte_pairs(entries)[2 * i + 1]
            == entries[i].1 by {
            if i < entries.len() - 1 {
                assert(entries.drop_last()[i] == entries[i]);
            }
        }
    }
}

proof fn lemma_two_byte_pairs(entries: Seq<(u16, u8)>)
    ensures
        spec_two_byte_pairs(entries).len() == 3 * entries.len(),
        forall|i: int|
            0 <= i < entries.len() ==> spec_u16_from_le(
                spec_two_byte_pairs(entries)[3 * i],
                spec_two_byte_pairs(entries)[3 * i + 1],
            ) == (#[trigger] entries[i]).0 && spec_two_byte_pairs(entries)[3 * i + 2] == entries[i].1,
    decreases entries.len(),
{
    if entries.len() > 0 {
        lemma_two_byte_pairs(entries.drop_last());
        let last = entries.last();
        crate::bytes::lemma_u16_le_roundtrip(last.0);
        assert forall|i: int| 0 <= i < entries.len() implies spec_u16_from_le(
            spec_two_byte_pairs(entries)[3 * i],
            spec_two_byte_pairs(entries)[3 * i + 1],
        ) == (#[trigger] entries[i]).0 && spec_two_byte_pairs(entries)[3 * i + 2]
            == entries[i].1 by {
            if i < entries.len() - 1 {
                assert(entries.drop_last()[i] == entries[i]);
            }
        }
    }
}

impl BiomeState {
    /// The bytes of these biome states.
    pub open spec fn spec_bytes(&self) -> Seq<u8> {
        match self {
            BiomeState::OneByteBiomes(s) => spec_one_byte_biome_bytes(s@),
            BiomeState::TwoByteBiomes(s) => spec_two_byte_biome_bytes(s@),
        }
    }

    /// Parse biome states in the older format if `value` has its shape, else in the newer
    /// format if it has that shape; `None` if it has neither, or if a biome occurs twice.
    pub fn parse(value: &[u8]) -> (res: Option<Self>)
        ensures
            if spec_is_one_byte_format(value@) {
                let entries = spec_one_byte_entries(value@, value@[0] as nat);
                if spec_has_repeated_key(entries) {
                    res is None
                } else {
                    res matches Some(BiomeState::OneByteBiomes(s)) && s@ == entries
                }
            } else if spec_is_two_byte_format(value@) {
                let entries = spec_two_byte_entries(value@, spec_two_byte_count(value@) as nat);
                if spec_has_repeated_key(entries) {
                    res is None
                } else {
                    res matches Some(BiomeState::TwoByteBiomes(s)) && s@ == entries
                }
            } else {
                res is None
            },
    {
        let len = value.len();
        if len < 1 {
            return None;
        }
        let n1 = value[0] as usize;
        if len == 1 + n1 * 2 {
            let mut entries: Vec<(u8, u8)> = Vec::new();
            let mut i: usize = 0;
            while i < n1
                invariant
                    len == value@.len(),
                    len == 1 + n1 * 2,
                    i <= n1,
                    entries@ =~= spec_one_byte_entries(value@, i as nat),
                decreases n1 - i,
            {
                entries.push((value[1 + 2 * i], value[2 + 2 * i]));
                i = i + 1;
                assert(entries@ =~= spec_one_byte_entries(value@, i as nat));
            }
            assert(value@[0] as nat == n1);
            assert(spec_is_one_byte_format(value@));
            return match OneByteBiomeStates::new(entries) {
                Some(s) => Some(BiomeState::OneByteBiomes(s)),
                None => None,
            };
        }
        assert(!spec_is_one_byte_format(value@));
        if len < 2 {
            return None;
        }
        let n2 = u16_from_le(value[0], value[1]) as usize;
        if len == 2 + n2 * 3 {
            let mut entries: Vec<(u16, u8)> = Vec::new();
            let mut i: usize = 0;
            while i < n2
                invariant
                    len == value@.len(),
                    len == 2 + n2 * 3,
                    i <= n2,
                    entries@ =~= spec_two_byte_entries(value@, i as nat),
                decreases n2 - i,
            {
                let biome = u16_from_le(value[2 + 3 * i], value[3 + 3 * i]);
                entries.push((biome, value[4 + 3 * i]));
                i = i + 1;
                assert(entries@ =~= spec_two_byte_entries(value@, i as nat));
            }
            assert(spec_two_byte_count(value@) as nat == n2);
            return match TwoByteBiomeStates::new(entries) {
                Some(s) => Some(BiomeState::TwoByteBiomes(s)),
                None => None,
            };
        }
        None
    }

    /// Append the bytes of these biome states: the count (at most 255 in the older format, at
    /// most 65535 in the newer one) and then that many entries.
    pub fn extend_serialized(&self, bytes: &mut Vec<u8>)
        ensures
            final(bytes)@ == old(bytes)@ + self.spec_bytes(),
    {
        match self {
            BiomeState::OneByteBiomes(states) => {
                let entries = states.inner();
                let n: usize = if entries.len() > 255 {
                    255
                } else {
                    entries.len()
                };
                bytes.push(n as u8);
                let ghost start = bytes@;
                let mut i: usize = 0;
                while i < n
                    invariant
                        n <= entries@.len(),
                        i <= n,
                        bytes@ == start + spec_one_byte_pairs(entries@.take(i as int)),
                    decreases n - i,
                {
                    assert(entries@.take(i + 1).drop_last() =~= entries@.take(i as int));
                    bytes.push(entries[i].0);
                    bytes.push(entries[i].1);
                    assert(bytes@ =~= start + spec_one_byte_pairs(entries@.take(i + 1)));
                    i = i + 1;
                }
                assert(bytes@ =~= old(bytes)@ + self.spec_bytes());
            },
            BiomeState::TwoByteBiomes(states) => {
                let entries = states.inner();
                let n: usize = if entries.len() > 65535 {
                    65535
                } else {
                    entries.len()
                };
                extend_u16_le(bytes, n as u16);
                let ghost start = bytes@;
                let mut i: usize = 0;
                while i < n
                    invariant
                        n <= entries@.len(),
                        i <= n,
                        bytes@ == start + spec_two_byte_pairs(entries@.take(i as int)),
                    decreases n - i,
                {
                    assert(entries@.take(i + 1).drop_last() =~= entries@.take(i as int));
                    extend_u16_le(bytes, entries[i].0);
                    bytes.push(entries[i].1);
                    assert(bytes@ =~= start + spec_two_byte_pairs(entries@.take(i + 1)));
                    i = i + 1;
                }
                assert(bytes@ =~= old(bytes)@ + self.spec_bytes());
            },
        }
    }

    pub fn to_bytes(&self) -> (res: Vec<u8>)
        ensures
            res@ == self.spec_bytes(),
    {
        let mut bytes: Vec<u8> = Vec::new();
        self.extend_serialized(&mut bytes);
        assert(bytes@ =~= self.spec_bytes());
        bytes
    }
}

/// Biome states in the older format, at most 255 of them with no biome twice, are read back
/// from their bytes as the same entries.
pub proof fn lemma_one_byte_biome_roundtrip(entries: Seq<(u8, u8)>)
    requires
        entries.len() <= 255,
    ensures
        spec_is_one_byte_format(spec_one_byte_biome_bytes(entries)),
        spec_one_byte_entries(
            spec_one_byte_biome_bytes(entries),
            spec_one_byte_biome_bytes(entries)[0] as nat,
        ) == entries,
{
    let b = spec_one_byte_biome_bytes(entries);
    assert(entries.take(entries.len() as int) =~= entries);
    lemma_one_byte_pairs(entries);
    let parsed = spec_one_byte_entries(b, b[0] as nat);
    assert forall|i: int| 0 <= i < entries.len() implies parsed[i] == entries[i] by {
        assert(b[1 + 2 * i] == spec_one_byte_pairs(entries)[2 * i]);
        assert(b[2 + 2 * i] == spec_one_byte_pairs(entries)[2 * i + 1]);
    }
    assert(parsed =~= entries);
}

/// Biome states in the newer format, at most 65535 of them, are read back from their bytes as
/// the same entries; those bytes never have the shape of the older format.
pub proof fn lemma_two_byte_biome_roundtrip(entries: Seq<(u16, u8)>)
    requires
        entries.len() <= 65535,
    ensures
        !spec_is_one_byte_format(spec_two_byte_biome_bytes(entries)),
        spec_is_two_byte_format(spec_two_byte_biome_bytes(entries)),
        spec_two_byte_entries(
            spec_two_byte_biome_bytes(entries),
            spec_two_byte_count(spec_two_byte_biome_bytes(entries)) as nat,
        ) == entries,
{
    let b = spec_two_byte_biome_bytes(entries);
    let n = entries.len() as u16;
    assert(entries.take(entries.len() as int) =~= entries);
    lemma_two_byte_pairs(entries);
    crate::bytes::lemma_u16_le_roundtrip(n);
    assert(spec_two_byte_count(b) == n);
    assert(b[0] == (n & 0xff) as u8);
    assert((n & 0xff) as u8 <= n) by (bit_vector);
    let parsed = spec_two_byte_entries(b, n as nat);
    assert forall|i: int| 0 <= i < entries.len() implies parsed[i] == entries[i] by {
        assert(b[2 + 3 * i] == spec_two_byte_pairs(entries)[3 * i]);
        assert(b[3 + 3 * i] == spec_two_byte_pairs(entries)[3 * i + 1]);
        assert(b[4 + 3 * i] == spec_two_byte_pairs(entries)[3 * i + 2]);
    }
    assert(parsed =~= entries);
}

/// The number of bytes per biome id in a format of biome states.
#[derive(Debug, Clone, Copy, PartialEq, Eq, Structural)]
pub enum BytesPerBiome {
    One,
    Two,
}

impl From<BytesPerBiome> for u8 {
    fn from(value: BytesPerBiome) -> (res: u8) {
        match value {
            BytesPerBiome::One => 1,
            BytesPerBiome::Two => 2,
        }
    }
}

impl vstd::std_specs::convert::FromSpecImpl<BytesPerBiome> for u8 {
    open spec fn obeys_from_spec() -> bool {
        true
    }

    open spec fn from_spec(value: BytesPerBiome) -> u8 {
        match value {
            BytesPerBiome::One => 1,
            BytesPerBiome::Two => 2,
        }
    }
}

impl TryFrom<u8> for BytesPerBiome {
    type Error = ();

    fn try_from(value: u8) -> (res: Result<Self, ()>) {
        if value == 1 {
            Ok(BytesPerBiome::One)
        } else if value == 2 {
            Ok(BytesPerBiome::Two)
        } else {
            Err(())
        }
    }
}

impl vstd::std_specs::convert::TryFromSpecImpl<u8> for BytesPerBiome {
    open spec fn obeys_try_from_spec() -> bool {
        true
    }

    open spec fn try_from_spec(value: u8) -> Result<BytesPerBiome, ()> {
        if value == 1 {
            Ok(BytesPerBiome::One)
        } else if value == 2 {
            Ok(BytesPerBiome::Two)
        } else {
            Err(())
        }
    }
}


/// The byte of the number of bytes per biome is that number: 1 for one byte and 2 for two; no
/// other byte is a width.
pub proof fn lemma_bytes_per_biome_numbering()
    ensures
        <u8 as vstd::std_specs::convert::FromSpec<BytesPerBiome>>::from_spec(BytesPerBiome::One) == 1u8,
        <u8 as vstd::std_specs::convert::FromSpec<BytesPerBiome>>::from_spec(BytesPerBiome::Two) == 2u8,
        <BytesPerBiome as vstd::std_specs::convert::TryFromSpec<u8>>::try_from_spec(1u8) == Ok::<BytesPerBiome, ()>(BytesPerBiome::One),
        <BytesPerBiome as vstd::std_specs::convert::TryFromSpec<u8>>::try_from_spec(2u8) == Ok::<BytesPerBiome, ()>(BytesPerBiome::Two),
        forall|v: u8| v != 1 && v != 2 ==> #[trigger] <BytesPerBiome as vstd::std_specs::convert::TryFromSpec<u8>>::try_from_spec(v) is Err,
{
}

} // verus!
