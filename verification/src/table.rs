//! Tables keyed by text.
//!
//! A [`Table`] keeps its entries in the order in which their keys first came
//! in, and holds at most one value for a key. Its view is the map from each
//! key's characters to its value.

use crate::text::same_text;
use vstd::prelude::*;
use vstd::std_specs::cmp::PartialEqSpec;

verus! {

/// A table from text keys to values.
#[derive(Debug)]
pub struct Table<V> {
    entries: Vec<(String, V)>,
}

/// The value of the first entry of `entries` whose key reads `key`.
pub open spec fn first_match<V>(entries: Seq<(String, V)>, key: Seq<char>) -> Option<V>
    decreases entries.len(),
{
    if entries.len() == 0 {
        None
    } else if entries[0].0@ == key {
        Some(entries[0].1)
    } else {
        first_match(entries.drop_first(), key)
    }
}

proof fn lemma_first_match<V>(entries: Seq<(String, V)>, key: Seq<char>, i: int)
    requires
        0 <= i <= entries.len(),
        forall|j: int| 0 <= j < i ==> (#[trigger] entries[j]).0@ != key,
    ensures
        i < entries.len() && entries[i].0@ == key ==> first_match(entries, key) == Some(
            entries[i].1,
        ),
        i == entries.len() ==> first_match(entries, key) is None,
    decreases i,
{
    if i > 0 {
        let rest = entries.drop_first();
        lemma_first_match(rest, key, i - 1);
    }
}

proof fn lemma_first_match_place<V>(entries: Seq<(String, V)>, key: Seq<char>) -> (i: int)
    requires
        first_match(entries, key) is Some,
    ensures
        0 <= i < entries.len(),
        entries[i].0@ == key,
        first_match(entries, key) == Some(entries[i].1),
    decreases entries.len(),
{
    if entries[0].0@ == key {
        0
    } else {
        let rest = entries.drop_first();
        let j = lemma_first_match_place(rest, key);
        j + 1
    }
}

proof fn lemma_first_match_push<V>(entries: Seq<(String, V)>, entry: (String, V), key: Seq<char>)
    ensures
        first_match(entries.push(entry), key) == if first_match(entries, key) is Some {
            first_match(entries, key)
        } else if entry.0@ == key {
            Some(entry.1)
        } else {
            None
        },
    decreases entries.len(),
{
    let longer = entries.push(entry);
    if entries.len() == 0 {
    } else {
        assert(longer[0] == entries[0]);
        assert(longer.drop_first() =~= entries.drop_first().push(entry));
        lemma_first_match_push(entries.drop_first(), entry, key);
    }
}

proof fn lemma_first_match_update<V>(
    entries: Seq<(String, V)>,
    i: int,
    entry: (String, V),
    key: Seq<char>,
)
    requires
        0 <= i < entries.len(),
        entries[i].0@ == entry.0@,
        forall|j: int| 0 <= j < i ==> (#[trigger] entries[j]).0@ != entry.0@,
    ensures
        first_match(entries.update(i, entry), key) == if key == entry.0@ {
            Some(entry.1)
        } else {
            first_match(entries, key)
        },
    decreases i,
{
    let changed = entries.update(i, entry);
    if i == 0 {
        assert(changed.drop_first() =~= entries.drop_first());
    } else {
        let rest = entries.drop_first();
        assert(changed.drop_first() =~= rest.update(i - 1, entry));
        lemma_first_match_update(rest, i - 1, entry, key);
    }
}

impl<V> View for Table<V> {
    type V = Map<Seq<char>, V>;

    closed spec fn view(&self) -> Map<Seq<char>, V> {
        Map::new(
            |key: Seq<char>| first_match(self.entries@, key) is Some,
            |key: Seq<char>| first_match(self.entries@, key)->0,
        )
    }
}

impl<V> Table<V> {
    /// No two entries have the same key.
    #[verifier::type_invariant]
    spec fn distinct_keys(self) -> bool {
        forall|i: int, j: int|
            #![trigger self.entries@[i], self.entries@[j]]
            0 <= i < j < self.entries@.len() ==> self.entries@[i].0@ != self.entries@[j].0@
    }

    /// The empty table.
    pub fn new() -> (table: Table<V>)
        ensures
            table@ == Map::<Seq<char>, V>::empty(),
    {
        let table = Table { entries: Vec::new() };
        table
    }

    /// The place of the entry with the given key, or the number of entries
    /// where no entry has it.
    fn position(&self, key: &str) -> (i: usize)
        ensures
            i <= self.entries.len(),
            i < self.entries.len() ==> self.entries@[i as int].0@ == key@,
            forall|j: int| 0 <= j < i ==> (#[trigger] self.entries@[j]).0@ != key@,
    {
        let mut i: usize = 0;
        while i < self.entries.len()
            invariant
                i <= self.entries.len(),
                forall|j: int| 0 <= j < i ==> (#[trigger] self.entries@[j]).0@ != key@,
            decreases self.entries.len() - i,
        {
            if same_text(self.entries[i].0.as_str(), key) {
                return i;
            }
            i += 1;
        }
        i
    }

    /// The value held for `key`, if any.
    pub fn get(&self, key: &str) -> (r: Option<&V>)
        ensures
            match r {
                Some(value) => self@.contains_key(key@) && *value == self@[key@],
                None => !self@.contains_key(key@),
            },
    {
        let i = self.position(key);
        proof {
            lemma_first_match(self.entries@, key@, i as int);
        }
        if i < self.entries.len() {
            Some(&self.entries[i].1)
        } else {
            None
        }
    }

    /// Whether a value is held for `key`.
    pub fn contains_key(&self, key: &str) -> (r: bool)
        ensures
            r == self@.contains_key(key@),
    {
        self.get(key).is_some()
    }

    /// Holds `value` for `key` from now on, in place of any value held for it
    /// before.
    pub fn insert(&mut self, key: String, value: V)
        ensures
            final(self)@ == old(self)@.insert(key@, value),
    {
        proof {
            use_type_invariant(&*self);
        }
        let i = self.position(key.as_str());
        let ghost before = self.entries@;
        let ghost entry = (key, value);
        let mut entries: Vec<(String, V)> = Vec::new();
        std::mem::swap(&mut self.entries, &mut entries);
        if i < entries.len() {
            entries.set(i, (key, value));
        } else {
            entries.push((key, value));
        }
        std::mem::swap(&mut self.entries, &mut entries);
        proof {
            assert forall|k: Seq<char>|
                #[trigger] first_match(self.entries@, k) == if k == entry.0@ {
                    Some(entry.1)
                } else {
                    first_match(before, k)
                } by {
                if i < before.len() {
                    lemma_first_match_update(before, i as int, entry, k);
                } else {
                    lemma_first_match(before, entry.0@, i as int);
                    lemma_first_match_push(before, entry, k);
                }
            }
        }
    }
}

/// Whether two maps from text hold the same keys with equal values.
pub open spec fn same_entries<V: PartialEq>(a: Map<Seq<char>, V>, b: Map<Seq<char>, V>) -> bool {
    &&& forall|key: Seq<char>| a.contains_key(key) <==> b.contains_key(key)
    &&& forall|key: Seq<char>| a.contains_key(key) ==> (#[trigger] a[key]).eq_spec(&b[key])
}

impl<V: PartialEq> Table<V> {
    /// Whether every key of `self` is a key of `other`, with an equal value
    /// where `values` asks for it.
    fn held_by(&self, other: &Table<V>, values: bool) -> (r: bool)
        ensures
            !values ==> r == (forall|key: Seq<char>| #[trigger]
                self@.contains_key(key) ==> other@.contains_key(key)),
            values && V::obeys_eq_spec() ==> r == (forall|key: Seq<char>| #[trigger]
                self@.contains_key(key) ==> other@.contains_key(key) && self@[key].eq_spec(
                    &other@[key],
                )),
    {
        proof {
            use_type_invariant(self);
        }
        let mut i: usize = 0;
        while i < self.entries.len()
            invariant
                i <= self.entries.len(),
                forall|a: int, b: int|
                    #![trigger self.entries@[a], self.entries@[b]]
                    0 <= a < b < self.entries@.len() ==> self.entries@[a].0@ != self.entries@[b].0@,
                forall|j: int|
                    0 <= j < i ==> other@.contains_key((#[trigger] self.entries@[j]).0@),
                values && V::obeys_eq_spec() ==> forall|j: int|
                    0 <= j < i ==> (#[trigger] self.entries@[j]).1.eq_spec(
                        &other@[self.entries@[j].0@],
                    ),
            decreases self.entries.len() - i,
        {
            let key = &self.entries[i].0;
            let same = match other.get(key.as_str()) {
                Some(value) => !values || self.entries[i].1 == *value,
                None => false,
            };
            if !same {
                proof {
                    lemma_first_match(self.entries@, key@, i as int);
                    assert(self@.contains_key(key@));
                }
                return false;
            }
            i += 1;
        }
        proof {
            assert forall|key: Seq<char>| #[trigger] self@.contains_key(key) implies other@.contains_key(
                key,
            ) && (values && V::obeys_eq_spec() ==> self@[key].eq_spec(&other@[key])) by {
                let j = lemma_first_match_place(self.entries@, key);
            }
        }
        true
    }
}

impl<V: PartialEq> Table<V> {
    /// Whether both tables hold the same keys with equal values.
    pub fn same_as(&self, other: &Table<V>) -> (r: bool)
        ensures
            V::obeys_eq_spec() ==> r == same_entries(self@, other@),
    {
        self.held_by(other, true) && other.held_by(self, false)
    }
}

impl<V: PartialEq> PartialEq for Table<V> {
    fn eq(&self, other: &Table<V>) -> (r: bool) {
        self.same_as(other)
    }
}

impl<V: PartialEq> vstd::std_specs::cmp::PartialEqSpecImpl for Table<V> {
    open spec fn obeys_eq_spec() -> bool {
        V::obeys_eq_spec()
    }

    open spec fn eq_spec(&self, other: &Table<V>) -> bool {
        same_entries(self@, other@)
    }
}

} // verus!
