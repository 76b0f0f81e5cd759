//! A map from strings to values that remembers the order in which its keys were first
//! inserted, as the entries of an NBT compound do.

use vstd::prelude::*;

use crate::text::str_eq;

verus! {

/// The position of the entry with `key`, if any (in entries whose keys are distinct, the only
/// such entry).
pub open spec fn spec_position<T>(entries: Seq<(Seq<char>, T)>, key: Seq<char>) -> Option<int> {
    if exists|i: int| 0 <= i < entries.len() && #[trigger] entries[i].0 == key {
        Some(choose|i: int| 0 <= i < entries.len() && #[trigger] entries[i].0 == key)
    } else {
        None
    }
}

/// Whether no two entries have the same key.
pub open spec fn spec_keys_distinct<T>(entries: Seq<(Seq<char>, T)>) -> bool {
    forall|i: int, j: int|
        0 <= i < j < entries.len() ==> #[trigger] entries[i].0 != #[trigger] entries[j].0
}

/// The value stored under `key`, if any.
pub open spec fn spec_get<T>(entries: Seq<(Seq<char>, T)>, key: Seq<char>) -> Option<T> {
    match spec_position(entries, key) {
        Some(i) => Some(entries[i].1),
        None => None,
    }
}

/// The entries after inserting `value` under `key`: an existing key keeps its place and takes
/// the new value; a new key comes last.
pub open spec fn spec_insert<T>(entries: Seq<(Seq<char>, T)>, key: Seq<char>, value: T) -> Seq<
    (Seq<char>, T),
> {
    match spec_position(entries, key) {
        Some(i) => entries.update(i, (key, value)),
        None => entries.push((key, value)),
    }
}

/// The entries after inserting each of `pairs` in order.
pub open spec fn spec_insert_all<T>(entries: Seq<(Seq<char>, T)>, pairs: Seq<(Seq<char>, T)>) -> Seq<
    (Seq<char>, T),
>
    decreases pairs.len(),
{
    if pairs.len() == 0 {
        entries
    } else {
        spec_insert(spec_insert_all(entries, pairs.drop_last()), pairs.last().0, pairs.last().1)
    }
}

/// The key and value of each pair, by the view of the key.
pub open spec fn spec_pairs<T>(pairs: Seq<(String, T)>) -> Seq<(Seq<char>, T)> {
    Seq::new(pairs.len(), |i: int| (pairs[i].0@, pairs[i].1))
}

/// Where keys are distinct, the position of a key is the one entry with that key.
pub proof fn lemma_position<T>(entries: Seq<(Seq<char>, T)>, key: Seq<char>, i: int)
    requires
        spec_keys_distinct(entries),
        0 <= i < entries.len(),
        entries[i].0 == key,
    ensures
        spec_position(entries, key) == Some(i),
{
    let j = choose|j: int| 0 <= j < entries.len() && #[trigger] entries[j].0 == key;
    if j != i {
        if i < j {
            assert(entries[i].0 != entries[j].0);
        } else {
            assert(entries[j].0 != entries[i].0);
        }
    }
}

/// Inserting keeps the keys distinct, and afterwards the key holds the inserted value while
/// every other key holds what it held before.
pub proof fn lemma_get_after_insert<T>(
    entries: Seq<(Seq<char>, T)>,
    key: Seq<char>,
    value: T,
    other: Seq<char>,
)
    requires
        spec_keys_distinct(entries),
    ensures
        spec_keys_distinct(spec_insert(entries, key, value)),
        spec_get(spec_insert(entries, key, value), key) == Some(value),
        other != key ==> spec_get(spec_insert(entries, key, value), other) == spec_get(
            entries,
            other,
        ),
{
    let new = spec_insert(entries, key, value);
    match spec_position(entries, key) {
        Some(i) => {
            assert(entries[i].0 == key);
            assert forall|a: int, b: int| 0 <= a < b < new.len() implies #[trigger] new[a].0
                != #[trigger] new[b].0 by {
                assert(entries[a].0 != entries[b].0);
            }
            lemma_position(new, key, i);
            if other != key {
                match spec_position(entries, other) {
                    Some(j) => {
                        assert(entries[j].0 == other);
                        assert(new[j] == entries[j]);
                        lemma_position(new, other, j);
                    },
                    None => {
                        assert forall|j: int| 0 <= j < new.len() implies #[trigger] new[j].0
                            != other by {
                            if j != i {
                                assert(new[j] == entries[j]);
                            }
                        }
                    },
                }
            }
        },
        None => {
            assert forall|a: int, b: int| 0 <= a < b < new.len() implies #[trigger] new[a].0
                != #[trigger] new[b].0 by {
                if b < entries.len() {
                    assert(entries[a].0 != entries[b].0);
                } else {
                    assert(new[a] == entries[a]);
                }
            }
            lemma_position(new, key, entries.len() as int);
            if other != key {
                match spec_position(entries, other) {
                    Some(j) => {
                        assert(entries[j].0 == other);
                        assert(new[j] == entries[j]);
                        lemma_position(new, other, j);
                    },
                    None => {
                        assert forall|j: int| 0 <= j < new.len() implies #[trigger] new[j].0
                            != other by {
                            if j < entries.len() {
                                assert(new[j] == entries[j]);
                            }
                        }
                    },
                }
            }
        },
    }
}

/// The elements of `v` in reverse order.
fn reversed<X>(v: Vec<X>) -> (res: Vec<X>)
    ensures
        res@.len() == v@.len(),
        forall|i: int| 0 <= i < v@.len() ==> #[trigger] res@[i] == v@[v@.len() - 1 - i],
{
    let ghost all = v@;
    let mut rest = v;
    let mut out: Vec<X> = Vec::new();
    while rest.len() > 0
        invariant
            rest@.len() <= all.len(),
            forall|j: int| 0 <= j < rest@.len() ==> #[trigger] rest@[j] == all[j],
            out@.len() == all.len() - rest@.len(),
            forall|j: int| 0 <= j < out@.len() ==> #[trigger] out@[j] == all[all.len() - 1 - j],
        decreases rest@.len(),
    {
        match rest.pop() {
            Some(x) => {
                out.push(x);
            },
            None => {},
        }
    }
    out
}

/// A map from strings to values that remembers the order in which its keys were first
/// inserted.
#[derive(Debug)]
pub struct OrderedMap<T> {
    entries: Vec<(String, T)>,
}

impl<T> View for OrderedMap<T> {
    /// The keys and values, in the order in which the keys were first inserted.
    type V = Seq<(Seq<char>, T)>;

    closed spec fn view(&self) -> Seq<(Seq<char>, T)> {
        spec_pairs(self.entries@)
    }
}

impl<T> OrderedMap<T> {
    /// No key occurs twice.
    #[verifier::type_invariant]
    spec fn keys_distinct(&self) -> bool {
        spec_keys_distinct(spec_pairs(self.entries@))
    }

    /// Create a new empty map.
    pub fn new() -> (res: Self)
        ensures
            res@ == Seq::<(Seq<char>, T)>::empty(),
    {
        let entries: Vec<(String, T)> = Vec::new();
        assert(spec_pairs(entries@) =~= Seq::<(Seq<char>, T)>::empty());
        let res = OrderedMap { entries };
        res
    }

    /// The number of key-value pairs in the map.
    pub fn len(&self) -> (res: usize)
        ensures
            res == self@.len(),
    {
        self.entries.len()
    }

    /// Whether there are no key-value pairs in the map.
    pub fn is_empty(&self) -> (res: bool)
        ensures
            res == (self@.len() == 0),
    {
        self.entries.len() == 0
    }

    /// Remove all key-value pairs from the map.
    pub fn clear(&mut self)
        ensures
            final(self)@ == Seq::<(Seq<char>, T)>::empty(),
    {
        let entries: Vec<(String, T)> = Vec::new();
        assert(spec_pairs(entries@) =~= Seq::<(Seq<char>, T)>::empty());
        self.entries = entries;
    }

    /// The position of the entry with `key`, if any.
    fn find(&self, key: &str) -> (res: Option<usize>)
        ensures
            match spec_position(self@, key@) {
                Some(i) => res == Some(i as usize),
                None => res is None,
            },
            res matches Some(i) ==> i < self@.len() && self@[i as int].0 == key@
                && spec_position(self@, key@) == Some(i as int),
    {
        proof {
            use_type_invariant(self);
        }
        let mut i: usize = 0;
        while i < self.entries.len()
            invariant
                i <= self.entries@.len(),
                spec_keys_distinct(spec_pairs(self.entries@)),
                forall|j: int| 0 <= j < i ==> (#[trigger] self@[j]).0 != key@,
            decreases self.entries@.len() - i,
        {
            if str_eq(self.entries[i].0.as_str(), key) {
                proof {
                    lemma_position(self@, key@, i as int);
                }
                return Some(i);
            }
            i = i + 1;
        }
        assert forall|j: int| 0 <= j < self@.len() implies #[trigger] self@[j].0 != key@ by {}
        None
    }

    /// Insert a key-value pair in the map.
    ///
    /// If an equivalent key already exists in the map, the key remains and
    /// retains in its place in the order, its corresponding value is updated
    /// with `value`, and the older value is returned inside `Some(_)`.
    ///
    /// If no equivalent key existed in the map: the new key-value pair is
    /// inserted, last in order, and `None` is returned.
    pub fn insert(&mut self, key: String, value: T) -> (res: Option<T>)
        ensures
            final(self)@ == spec_insert(old(self)@, key@, value),
            res == spec_get(old(self)@, key@),
    {
        proof {
            use_type_invariant(&*self);
            lemma_get_after_insert(self@, key@, value, key@);
        }
        let ghost old_entries = self@;
        let found = self.find(key.as_str());
        let mut entries: Vec<(String, T)> = Vec::new();
        std::mem::swap(&mut entries, &mut self.entries);
        match found {
            Some(i) => {
                let ghost before = entries@;
                assert(old_entries[i as int].0 == key@);
                let (old_key, old_value) = entries.remove(i);
                entries.insert(i, (old_key, value));
                assert(entries@ =~= before.update(i as int, (old_key, value)));
                assert(spec_pairs(entries@) =~= old_entries.update(i as int, (key@, value)));
                self.entries = entries;
                Some(old_value)
            },
            None => {
                entries.push((key, value));
                assert(spec_pairs(entries@) =~= old_entries.push((key@, value)));
                self.entries = entries;
                None
            },
        }
    }

    /// Insert each of `pairs` in order: for keys that already existed in the map, their value
    /// is updated but they keep their place; new keys are inserted in the order they appear,
    /// and where a key occurs more than once, its last value prevails.
    pub fn extend(&mut self, pairs: Vec<(String, T)>)
        ensures
            final(self)@ == spec_insert_all(old(self)@, spec_pairs(pairs@)),
    {
        let ghost all = spec_pairs(pairs@);
        let total = pairs.len();
        let mut rest = reversed(pairs);
        let mut done: usize = 0;
        while done < total
            invariant
                total == all.len(),
                done <= total,
                rest@.len() == total - done,
                forall|j: int|
                    0 <= j < rest@.len() ==> ((#[trigger] rest@[j]).0@, rest@[j].1) == all[total
                        - 1 - j],
                self@ == spec_insert_all(old(self)@, all.subrange(0, done as int)),
            decreases total - done,
        {
            match rest.pop() {
                Some(pair) => {
                    let (key, value) = pair;
                    proof {
                        assert(all.subrange(0, done + 1).drop_last() =~= all.subrange(
                            0,
                            done as int,
                        ));
                        assert(all[done as int] == (key@, value));
                    }
                    self.insert(key, value);
                    done = done + 1;
                },
                None => {},
            }
        }
        assert(all.subrange(0, total as int) =~= all);
    }

    /// Create a map by inserting each of `pairs` in order into an empty map.
    pub fn from_pairs(pairs: Vec<(String, T)>) -> (res: Self)
        ensures
            res@ == spec_insert_all(Seq::<(Seq<char>, T)>::empty(), spec_pairs(pairs@)),
    {
        let mut map = Self::new();
        map.extend(pairs);
        map
    }

    /// A reference to the value stored under `key`, if present.
    pub fn get(&self, key: &str) -> (res: Option<&T>)
        ensures
            match spec_get(self@, key@) {
                Some(v) => res matches Some(r) && *r == v,
                None => res is None,
            },
    {
        match self.find(key) {
            Some(i) => {
                assert(self@[i as int].1 == self.entries@[i as int].1);
                Some(&self.entries[i].1)
            },
            None => None,
        }
    }

    /// Whether `key` is in the map.
    pub fn contains_key(&self, key: &str) -> (res: bool)
        ensures
            res == spec_position(self@, key@) is Some,
    {
        self.find(key).is_some()
    }

    /// The value stored under `key`, which must be present.
    pub fn index(&self, key: &str) -> (res: &T)
        requires
            spec_position(self@, key@) is Some,
        ensures
            Some(*res) == spec_get(self@, key@),
    {
        match self.find(key) {
            Some(i) => {
                assert(self@[i as int].1 == self.entries@[i as int].1);
                &self.entries[i].1
            },
            None => {
                assert(false);
                &self.entries[0].1
            },
        }
    }

    /// The keys of the map, in the order they were inserted.
    pub fn keys(&self) -> (res: Vec<&String>)
        ensures
            res@.len() == self@.len(),
            forall|i: int| 0 <= i < res@.len() ==> (#[trigger] res@[i])@ == self@[i].0,
    {
        let mut out: Vec<&String> = Vec::new();
        let mut i: usize = 0;
        while i < self.entries.len()
            invariant
                i <= self.entries@.len(),
                out@.len() == i,
                forall|j: int| 0 <= j < i ==> (#[trigger] out@[j])@ == self@[j].0,
            decreases self.entries@.len() - i,
        {
            out.push(&self.entries[i].0);
            i = i + 1;
        }
        out
    }

    /// The values of the map, in the order their keys were inserted.
    pub fn values(&self) -> (res: Vec<&T>)
        ensures
            res@.len() == self@.len(),
            forall|i: int| 0 <= i < res@.len() ==> *(#[trigger] res@[i]) == self@[i].1,
    {
        let mut out: Vec<&T> = Vec::new();
        let mut i: usize = 0;
        while i < self.entries.len()
            invariant
                i <= self.entries@.len(),
                out@.len() == i,
                forall|j: int| 0 <= j < i ==> *(#[trigger] out@[j]) == self@[j].1,
            decreases self.entries@.len() - i,
        {
            out.push(&self.entries[i].1);
            i = i + 1;
        }
        out
    }

    /// The key-value pairs of the map, in the order they were inserted.
    pub fn iter(&self) -> (res: Vec<(&String, &T)>)
        ensures
            res@.len() == self@.len(),
            forall|i: int|
                0 <= i < res@.len() ==> ((#[trigger] res@[i]).0@, *res@[i].1) == self@[i],
    {
        let mut out: Vec<(&String, &T)> = Vec::new();
        let mut i: usize = 0;
        while i < self.entries.len()
            invariant
                i <= self.entries@.len(),
                out@.len() == i,
                forall|j: int| 0 <= j < i ==> ((#[trigger] out@[j]).0@, *out@[j].1) == self@[j],
            decreases self.entries@.len() - i,
        {
            out.push((&self.entries[i].0, &self.entries[i].1));
            i = i + 1;
        }
        out
    }

    /// Consume the map into its key-value pairs, in the order they were inserted.
    pub fn into_pairs(self) -> (res: Vec<(String, T)>)
        ensures
            spec_pairs(res@) == self@,
    {
        self.entries
    }

    /// Consume the map into its keys, in the order they were inserted.
    pub fn into_keys(self) -> (res: Vec<String>)
        ensures
            res@.len() == self@.len(),
            forall|i: int| 0 <= i < res@.len() ==> (#[trigger] res@[i])@ == self@[i].0,
    {
        let (keys, _) = self.into_keys_and_values();
        keys
    }

    /// Consume the map into its values, in the order their keys were inserted.
    pub fn into_values(self) -> (res: Vec<T>)
        ensures
            res@.len() == self@.len(),
            forall|i: int| 0 <= i < res@.len() ==> #[trigger] res@[i] == self@[i].1,
    {
        let (_, values) = self.into_keys_and_values();
        values
    }

    /// Consume the map into its keys and its values, in the order the keys were inserted.
    fn into_keys_and_values(self) -> (res: (Vec<String>, Vec<T>))
        ensures
            res.0@.len() == self@.len(),
            res.1@.len() == self@.len(),
            forall|i: int| 0 <= i < self@.len() ==> (#[trigger] res.0@[i])@ == self@[i].0,
            forall|i: int| 0 <= i < self@.len() ==> #[trigger] res.1@[i] == self@[i].1,
    {
        let ghost all = self@;
        let total = self.entries.len();
        let mut rest = reversed(self.entries);
        let mut keys: Vec<String> = Vec::new();
        let mut values: Vec<T> = Vec::new();
        while keys.len() < total
            invariant
                total == all.len(),
                keys@.len() == values@.len(),
                keys@.len() <= total,
                rest@.len() == total - keys@.len(),
                forall|j: int|
                    0 <= j < rest@.len() ==> ((#[trigger] rest@[j]).0@, rest@[j].1) == all[total
                        - 1 - j],
                forall|j: int| 0 <= j < keys@.len() ==> (#[trigger] keys@[j])@ == all[j].0,
                forall|j: int| 0 <= j < values@.len() ==> #[trigger] values@[j] == all[j].1,
            decreases total - keys@.len(),
        {
            match rest.pop() {
                Some(pair) => {
                    let (key, value) = pair;
                    keys.push(key);
                    values.push(value);
                },
                None => {},
            }
        }
        (keys, values)
    }
}

impl<T: Clone> Clone for OrderedMap<T> {
    /// A copy of the map: the same keys in the same order, each with a clone of its value.
    fn clone(&self) -> (res: Self)
        ensures
            res@.len() == self@.len(),
            forall|i: int|
                0 <= i < self@.len() ==> (#[trigger] res@[i]).0 == self@[i].0 && cloned::<T>(
                    self@[i].1,
                    res@[i].1,
                ),
    {
        proof {
            use_type_invariant(self);
        }
        let mut entries: Vec<(String, T)> = Vec::new();
        let mut i: usize = 0;
        while i < self.entries.len()
            invariant
                i <= self.entries@.len(),
                spec_keys_distinct(self@),
                entries@.len() == i,
                forall|j: int|
                    0 <= j < i ==> (#[trigger] spec_pairs(entries@)[j]).0 == self@[j].0
                        && cloned::<T>(self@[j].1, spec_pairs(entries@)[j].1),
            decreases self.entries@.len() - i,
        {
            let key = self.entries[i].0.clone();
            let value = self.entries[i].1.clone();
            let ghost before = entries@;
            entries.push((key, value));
            proof {
                assert(self@[i as int] == (self.entries@[i as int].0@, self.entries@[i as int].1));
                assert(spec_pairs(entries@)[i as int] == (key@, value));
                assert forall|j: int| 0 <= j < i implies #[trigger] spec_pairs(entries@)[j]
                    == spec_pairs(before)[j] by {
                    assert(entries@[j] == before[j]);
                }
            }
            i = i + 1;
        }
        assert forall|a: int, b: int| 0 <= a < b < spec_pairs(entries@).len() implies #[trigger] spec_pairs(
            entries@,
        )[a].0 != #[trigger] spec_pairs(entries@)[b].0 by {
            assert(self@[a].0 != self@[b].0);
        }
        OrderedMap { entries }
    }
}

} // verus!
