//! A table of values by key.

use crate::object::identifier::ObjectIdentifier;
use vstd::prelude::*;

verus! {

/// What a table can be searched by.
pub trait Key: Copy {
    /// Whether two keys are one.
    fn is_same(&self, other: &Self) -> (same: bool)
        ensures
            same == (*self == *other),
    ;
}

impl Key for ObjectIdentifier {
    fn is_same(&self, other: &ObjectIdentifier) -> (same: bool) {
        *self == *other
    }
}

/// Values by key.
pub struct Table<K, V> {
    entries: Vec<(K, V)>,
}

/// Whether an entry has this key.
pub open spec fn is_entry<K, V>(
    entries: Seq<(K, V)>,
    place: int,
    key: K,
) -> bool {
    0 <= place < entries.len() && entries[place].0 == key
}

/// What entries with distinct keys stand for.
pub open spec fn entries_map<K, V>(entries: Seq<(K, V)>) -> Map<K, V> {
    Map::new(
        |key: K| exists|place: int| is_entry(entries, place, key),
        |key: K| entries[choose|place: int| is_entry(entries, place, key)].1,
    )
}

impl<K, V> View for Table<K, V> {
    type V = Map<K, V>;

    closed spec fn view(&self) -> Map<K, V> {
        entries_map(self.entries@)
    }
}

spec fn distinct<K, V>(entries: Seq<(K, V)>) -> bool {
    forall|i: int, j: int|
        0 <= i < j < entries.len() ==> (#[trigger] entries[i]).0 != (#[trigger] entries[j]).0
}

proof fn lemma_entry<K, V>(entries: Seq<(K, V)>, place: int)
    requires
        distinct(entries),
        0 <= place < entries.len(),
    ensures
        entries_map(entries).dom().contains(entries[place].0),
        entries_map(entries)[entries[place].0] == entries[place].1,
{
    let key = entries[place].0;
    assert(is_entry(entries, place, key));
    let found = choose|found: int| is_entry(entries, found, key);
    if found < place {
        assert(entries[found].0 != entries[place].0);
    }
    if place < found {
        assert(entries[place].0 != entries[found].0);
    }
}

impl<K: Key, V> Table<K, V> {
    /// Whether the table keeps one value for a key.
    pub closed spec fn wf(&self) -> bool {
        distinct(self.entries@)
    }

    /// An empty table.
    pub fn new() -> (table: Table<K, V>)
        ensures
            table.wf(),
            table@ == Map::<K, V>::empty(),
    {
        let table = Table { entries: Vec::new() };
        proof {
            assert forall|key: K| !table@.dom().contains(key) by {
                assert forall|place: int| !is_entry(table.entries@, place, key) by {}
            }
            assert(table@ =~= Map::<K, V>::empty());
        }
        table
    }

    fn find(&self, key: K) -> (place: Option<usize>)
        requires
            self.wf(),
        ensures
            match place {
                Some(place) => place < self.entries@.len() && self.entries@[place as int].0 == key
                    && self@.dom().contains(key) && self@[key] == self.entries@[place as int].1,
                None => !self@.dom().contains(key) && forall|j: int|
                    0 <= j < self.entries@.len() ==> (#[trigger] self.entries@[j]).0 != key,
            },
    {
        let mut i: usize = 0;
        while i < self.entries.len()
            invariant
                i <= self.entries.len(),
                self.wf(),
                forall|j: int| 0 <= j < i ==> (#[trigger] self.entries@[j]).0 != key,
            decreases self.entries.len() - i,
        {
            if self.entries[i].0.is_same(&key) {
                proof {
                    lemma_entry(self.entries@, i as int);
                }
                return Some(i);
            }
            i += 1;
        }
        proof {
            assert forall|place: int| !is_entry(self.entries@, place, key) by {
                if 0 <= place < self.entries@.len() {
                    assert(self.entries@[place].0 != key);
                }
            }
        }
        None
    }

    /// The value of a key.
    pub fn get(&self, key: K) -> (value: Option<&V>)
        requires
            self.wf(),
        ensures
            match value {
                Some(value) => self@.dom().contains(key) && *value == self@[key],
                None => !self@.dom().contains(key),
            },
    {
        match self.find(key) {
            Some(place) => Some(&self.entries[place].1),
            None => None,
        }
    }

    /// Give a key a value.
    pub fn insert(&mut self, key: K, value: V)
        requires
            old(self).wf(),
        ensures
            final(self).wf(),
            final(self)@ == old(self)@.insert(key, value),
    {
        let ghost before = self.entries@;
        match self.find(key) {
            Some(place) => {
                self.entries[place] = (key, value);
                proof {
                    lemma_replaced(before, place as int, value);
                }
            },
            None => {
                self.entries.push((key, value));
                proof {
                    lemma_pushed(before, key, value);
                }
            },
        }
    }

    /// Forget a key, handing its value out.
    pub fn remove(&mut self, key: K) -> (value: Option<V>)
        requires
            old(self).wf(),
        ensures
            final(self).wf(),
            final(self)@ == old(self)@.remove(key),
            match value {
                Some(value) => old(self)@.dom().contains(key) && value == old(self)@[key],
                None => !old(self)@.dom().contains(key),
            },
    {
        let ghost before = self.entries@;
        match self.find(key) {
            Some(place) => {
                let removed = self.entries.remove(place);
                proof {
                    lemma_removed(before, place as int);
                }
                Some(removed.1)
            },
            None => {
                proof {
                    assert(self@.remove(key) =~= self@);
                }
                None
            },
        }
    }

    /// Forget the entries that are not wanted.
    pub fn keep<F: Fn(&K, &V) -> bool>(&mut self, wanted: &F)
        requires
            old(self).wf(),
            forall|key: &K, value: &V| #[trigger] call_requires(*wanted, (key, value)),
        ensures
            final(self).wf(),
            forall|key: K| #[trigger]
                final(self)@.dom().contains(key) ==> old(self)@.dom().contains(key)
                    && final(self)@[key] == old(self)@[key] && call_ensures(
                    *wanted,
                    (&key, &old(self)@[key]),
                    true,
                ),
            forall|key: K| #[trigger]
                old(self)@.dom().contains(key) ==> final(self)@.dom().contains(key) || call_ensures(
                    *wanted,
                    (&key, &old(self)@[key]),
                    false,
                ),
    {
        let mut i: usize = 0;
        while i < self.entries.len()
            invariant
                i <= self.entries@.len(),
                self.wf(),
                forall|key: &K, value: &V| #[trigger] call_requires(*wanted, (key, value)),
                forall|j: int|
                    0 <= j < i ==> call_ensures(
                        *wanted,
                        (&(#[trigger] self.entries@[j]).0, &self.entries@[j].1),
                        true,
                    ),
                forall|key: K| #[trigger]
                    self@.dom().contains(key) ==> old(self)@.dom().contains(key) && self@[key]
                        == old(self)@[key],
                forall|key: K| #[trigger]
                    old(self)@.dom().contains(key) ==> self@.dom().contains(key) || call_ensures(
                        *wanted,
                        (&key, &old(self)@[key]),
                        false,
                    ),
            decreases self.entries.len() - i,
        {
            let ghost before = self.entries@;
            let ghost map_before = self@;
            proof {
                lemma_entry(before, i as int);
                assert(map_before.dom().contains(before[i as int].0));
            }
            if wanted(&self.entries[i].0, &self.entries[i].1) {
                i += 1;
            } else {
                let removed = self.entries.remove(i);
                proof {
                    lemma_removed(before, i as int);
                    assert(self@ == map_before.remove(removed.0));
                    assert forall|key: K| #[trigger] self@.dom().contains(key) implies old(
                        self,
                    )@.dom().contains(key) && self@[key] == old(self)@[key] by {
                        assert(map_before.dom().contains(key));
                    }
                    assert forall|j: int| 0 <= j < i implies call_ensures(
                        *wanted,
                        (&(#[trigger] self.entries@[j]).0, &self.entries@[j].1),
                        true,
                    ) by {
                        assert(self.entries@[j] == before[j]);
                    }
                }
            }
        }
        proof {
            assert forall|key: K| #[trigger] self@.dom().contains(key) implies call_ensures(
                *wanted,
                (&key, &old(self)@[key]),
                true,
            ) by {
                let place = choose|place: int| is_entry(self.entries@, place, key);
                assert(self.entries@[place].0 == key);
                lemma_entry(self.entries@, place);
            }
        }
    }

    /// Every key, once.
    pub fn keys(&self) -> (keys: Vec<K>)
        requires
            self.wf(),
        ensures
            lists(keys@, self@),
    {
        let mut keys: Vec<K> = Vec::new();
        let mut i: usize = 0;
        while i < self.entries.len()
            invariant
                i <= self.entries@.len(),
                keys@.len() == i,
                forall|j: int| 0 <= j < i ==> (#[trigger] keys@[j]) == self.entries@[j].0,
            decreases self.entries.len() - i,
        {
            keys.push(self.entries[i].0);
            i += 1;
        }
        proof {
            assert forall|a: int, b: int| 0 <= a < keys@.len() && 0 <= b < keys@.len() && a
                != b implies keys@[a] != keys@[b] by {
                if a < b {
                    assert(self.entries@[a].0 != self.entries@[b].0);
                } else {
                    assert(self.entries@[b].0 != self.entries@[a].0);
                }
            }
            assert forall|key: K| #[trigger] keys@.contains(key) == self@.dom().contains(key) by {
                if keys@.contains(key) {
                    let place = keys@.index_of(key);
                    lemma_entry(self.entries@, place);
                }
                if self@.dom().contains(key) {
                    let place = choose|place: int| is_entry(self.entries@, place, key);
                    assert(keys@[place] == key);
                }
            }
        }
        keys
    }

    /// Whether there is nothing in the table.
    pub fn is_empty(&self) -> (empty: bool)
        requires
            self.wf(),
        ensures
            empty == (forall|key: K| !#[trigger] self@.dom().contains(key)),
    {
        proof {
            if self.entries@.len() > 0 {
                lemma_entry(self.entries@, 0);
                assert(self@.dom().contains(self.entries@[0].0));
            } else {
                assert forall|key: K| !#[trigger] self@.dom().contains(key) by {
                    assert forall|place: int| !is_entry(self.entries@, place, key) by {}
                }
            }
        }
        self.entries.len() == 0
    }
}

/// Whether a sequence names every key of a map, once.
pub open spec fn lists<K, V>(keys: Seq<K>, map: Map<K, V>) -> bool {
    &&& keys.no_duplicates()
    &&& forall|key: K| #[trigger] keys.contains(key) == map.dom().contains(key)
}

proof fn lemma_replaced<K, V>(entries: Seq<(K, V)>, place: int, value: V)
    requires
        distinct(entries),
        0 <= place < entries.len(),
    ensures
        ({
            let after = entries.update(place, (entries[place].0, value));
            distinct(after) && entries_map(after) == entries_map(entries).insert(
                entries[place].0,
                value,
            )
        }),
{
    let key = entries[place].0;
    let after = entries.update(place, (key, value));
    assert forall|i: int| 0 <= i < after.len() implies (#[trigger] after[i]).0 == entries[i].0 by {}
    assert forall|other: K|
        entries_map(after).dom().contains(other) == entries_map(entries).dom().contains(other) by {
        assert forall|i: int| is_entry(after, i, other) == is_entry(entries, i, other) by {}
        if entries_map(entries).dom().contains(other) {
            let i = choose|i: int| is_entry(entries, i, other);
            assert(is_entry(after, i, other));
        }
        if entries_map(after).dom().contains(other) {
            let i = choose|i: int| is_entry(after, i, other);
            assert(is_entry(entries, i, other));
        }
    }
    lemma_entry(after, place);
    assert forall|other: K|
        entries_map(after).dom().contains(other) implies entries_map(after)[other]
        == entries_map(entries).insert(key, value)[other] by {
        let i = choose|i: int| is_entry(after, i, other);
        lemma_entry(after, i);
        lemma_entry(entries, i);
    }
    lemma_entry(entries, place);
    assert(entries_map(after) =~= entries_map(entries).insert(key, value));
}

proof fn lemma_pushed<K, V>(entries: Seq<(K, V)>, key: K, value: V)
    requires
        distinct(entries),
        forall|j: int| 0 <= j < entries.len() ==> (#[trigger] entries[j]).0 != key,
    ensures
        distinct(entries.push((key, value))),
        entries_map(entries.push((key, value))) == entries_map(entries).insert(key, value),
{
    let after = entries.push((key, value));
    let last = entries.len() as int;
    assert(after[last] == (key, value));
    lemma_entry(after, last);
    assert forall|other: K|
        entries_map(after).dom().contains(other) == entries_map(entries).insert(
            key,
            value,
        ).dom().contains(other) by {
        if entries_map(entries).dom().contains(other) {
            let i = choose|i: int| is_entry(entries, i, other);
            assert(is_entry(after, i, other));
        }
        if entries_map(after).dom().contains(other) && other != key {
            let i = choose|i: int| is_entry(after, i, other);
            assert(is_entry(entries, i, other));
        }
    }
    assert forall|other: K|
        entries_map(after).dom().contains(other) implies entries_map(after)[other]
        == entries_map(entries).insert(key, value)[other] by {
        let i = choose|i: int| is_entry(after, i, other);
        lemma_entry(after, i);
        if i < last {
            lemma_entry(entries, i);
        }
    }
    assert(entries_map(after) =~= entries_map(entries).insert(key, value));
}

proof fn lemma_removed<K, V>(entries: Seq<(K, V)>, place: int)
    requires
        distinct(entries),
        0 <= place < entries.len(),
    ensures
        distinct(entries.remove(place)),
        entries_map(entries.remove(place)) == entries_map(entries).remove(entries[place].0),
{
    let key = entries[place].0;
    let after = entries.remove(place);
    assert forall|i: int| 0 <= i < after.len() implies #[trigger] after[i] == entries[if i < place {
        i
    } else {
        i + 1
    }] by {}
    assert forall|other: K|
        entries_map(after).dom().contains(other) == entries_map(entries).remove(
            key,
        ).dom().contains(other) by {
        if entries_map(entries).dom().contains(other) && other != key {
            let i = choose|i: int| is_entry(entries, i, other);
            let target = if i < place {
                i
            } else {
                i - 1
            };
            assert(after[target] == entries[i]);
            assert(is_entry(after, target, other));
        }
        if entries_map(after).dom().contains(other) {
            let i = choose|i: int| is_entry(after, i, other);
            let origin = if i < place {
                i
            } else {
                i + 1
            };
            assert(after[i] == entries[origin]);
            assert(is_entry(entries, origin, other));
            if other == key {
                if origin < place {
                    assert(entries[origin].0 != entries[place].0);
                } else {
                    assert(entries[place].0 != entries[origin].0);
                }
            }
        }
    }
    assert forall|other: K|
        entries_map(after).dom().contains(other) implies entries_map(after)[other]
        == entries_map(entries).remove(key)[other] by {
        let i = choose|i: int| is_entry(after, i, other);
        lemma_entry(after, i);
        let origin = if i < place {
            i
        } else {
            i + 1
        };
        assert(after[i] == entries[origin]);
        lemma_entry(entries, origin);
    }
    assert(entries_map(after) =~= entries_map(entries).remove(key));
}

} // verus!
