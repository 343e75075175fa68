//! A keyed collection of records, as a contract keeps them in its store:
//! at most one record under each key.

use vstd::prelude::*;

verus! {

/// A record and the key it is kept under.
#[derive(Debug)]
struct Entry<V> {
    key: String,
    value: V,
}

/// Records under string keys. Its view is the map from each key to the view
/// of the record kept under it.
#[derive(Debug)]
pub struct Table<V> {
    entries: Vec<Entry<V>>,
}

/// No key occurs twice.
spec fn distinct_keys<V>(entries: Seq<Entry<V>>) -> bool {
    forall|i: int, j: int|
        0 <= i < j < entries.len() ==> (#[trigger] entries[i]).key@ != (#[trigger] entries[j]).key@
}

/// `i` is a place at which `entries` holds `key`.
spec fn holds_at<V>(entries: Seq<Entry<V>>, key: Seq<char>, i: int) -> bool {
    0 <= i < entries.len() && entries[i].key@ == key
}

/// The map from each key in `entries` to the view of a record under it.
spec fn entries_map<V: View>(entries: Seq<Entry<V>>) -> Map<Seq<char>, V::V> {
    Map::new(
        |k: Seq<char>| exists|i: int| holds_at(entries, k, i),
        |k: Seq<char>| entries[choose|i: int| holds_at(entries, k, i)].value@,
    )
}

/// Where no key occurs twice, the map holds every entry under its key.
proof fn lemma_entry_in_map<V: View>(entries: Seq<Entry<V>>, i: int)
    requires
        distinct_keys(entries),
        0 <= i < entries.len(),
    ensures
        entries_map(entries).dom().contains(entries[i].key@),
        entries_map(entries)[entries[i].key@] == entries[i].value@,
{
    let key = entries[i].key@;
    assert(holds_at(entries, key, i));
    let j = choose|j: int| holds_at(entries, key, j);
    if j < i {
        assert(entries[j].key@ != entries[i].key@);
    } else if i < j {
        assert(entries[i].key@ != entries[j].key@);
    }
}

impl<V: View> View for Table<V> {
    type V = Map<Seq<char>, V::V>;

    closed spec fn view(&self) -> Map<Seq<char>, V::V> {
        entries_map(self.entries@)
    }
}

impl<V> Table<V> {
    #[verifier::type_invariant]
    spec fn well_formed(&self) -> bool {
        distinct_keys(self.entries@)
    }
}

impl<V: View> Table<V> {
    /// A table without records.
    pub fn new() -> (table: Table<V>)
        ensures
            table@ == Map::<Seq<char>, V::V>::empty(),
    {
        let table = Table { entries: Vec::new() };
        assert(table@ =~= Map::<Seq<char>, V::V>::empty());
        table
    }

    /// Whether a record is kept under `key`.
    pub fn has(&self, key: &String) -> (present: bool)
        ensures
            present == self@.dom().contains(key@),
    {
        position(&self.entries, key).is_some()
    }

    /// The record kept under `key`, if there is one.
    pub fn may_load(&self, key: &String) -> (record: Option<&V>)
        ensures
            match record {
                Some(value) => self@.dom().contains(key@) && self@[key@] == value@,
                None => !self@.dom().contains(key@),
            },
    {
        proof {
            use_type_invariant(self);
        }
        match position(&self.entries, key) {
            Some(i) => {
                proof {
                    lemma_entry_in_map(self.entries@, i as int);
                }
                Some(&self.entries[i].value)
            },
            None => None,
        }
    }

    /// Keeps `value` under `key`, in place of any record that was there.
    pub fn save(&mut self, key: String, value: V)
        ensures
            final(self)@ == old(self)@.insert(key@, value@),
    {
        let mut current = Table { entries: Vec::new() };
        std::mem::swap(self, &mut current);
        proof {
            use_type_invariant(&current);
        }
        let mut entries = current.entries;
        put(&mut entries, key, value);
        *self = Table { entries };
    }

    /// Takes out the record kept under `key`, if there is one, and returns it.
    pub fn take(&mut self, key: &String) -> (record: Option<V>)
        ensures
            match record {
                Some(value) => old(self)@.dom().contains(key@) && old(self)@[key@] == value@,
                None => !old(self)@.dom().contains(key@),
            },
            final(self)@ == old(self)@.remove(key@),
    {
        let mut current = Table { entries: Vec::new() };
        std::mem::swap(self, &mut current);
        proof {
            use_type_invariant(&current);
        }
        let mut entries = current.entries;
        let record = pull(&mut entries, key);
        *self = Table { entries };
        record
    }

    /// Drops the record kept under `key`, if there is one.
    pub fn remove(&mut self, key: &String)
        ensures
            final(self)@ == old(self)@.remove(key@),
    {
        let _ = self.take(key);
    }

    /// The number of records.
    pub fn len(&self) -> (count: usize)
        ensures
            count == self@.dom().len(),
            self@.dom().finite(),
    {
        proof {
            use_type_invariant(self);
            lemma_entries_count(self.entries@);
        }
        self.entries.len()
    }
}

/// A place at which `entries` holds `key`, if there is one.
fn position<V>(entries: &Vec<Entry<V>>, key: &String) -> (found: Option<usize>)
    ensures
        match found {
            Some(i) => holds_at(entries@, key@, i as int),
            None => forall|j: int| !holds_at(entries@, key@, j),
        },
{
    let mut i: usize = 0;
    while i < entries.len()
        invariant
            i <= entries.len(),
            forall|j: int| 0 <= j < i ==> !holds_at(entries@, key@, j),
        decreases entries.len() - i,
    {
        if entries[i].key == *key {
            return Some(i);
        }
        i += 1;
    }
    None
}

/// Puts `value` under `key`: in the place of the entry with that key, or at the end.
fn put<V: View>(entries: &mut Vec<Entry<V>>, key: String, value: V)
    requires
        distinct_keys(old(entries)@),
    ensures
        distinct_keys(final(entries)@),
        entries_map(final(entries)@) == entries_map(old(entries)@).insert(key@, value@),
{
    let ghost before = entries@;
    let ghost k = key@;
    let ghost v = value@;
    match position(entries, &key) {
        Some(i) => {
            entries.set(i, Entry { key, value });
            proof {
                let after = entries@;
                assert forall|a: int, b: int| 0 <= a < b < after.len() implies (
                #[trigger] after[a]).key@ != (#[trigger] after[b]).key@ by {
                    assert(after[a].key@ == before[a].key@);
                    assert(after[b].key@ == before[b].key@);
                }
                assert forall|key2: Seq<char>|
                    entries_map(after).dom().contains(key2) == entries_map(before).insert(
                        k,
                        v,
                    ).dom().contains(key2) by {
                    if entries_map(after).dom().contains(key2) {
                        let j = choose|j: int| holds_at(after, key2, j);
                        assert(holds_at(before, key2, j));
                    }
                    if entries_map(before).dom().contains(key2) {
                        let j = choose|j: int| holds_at(before, key2, j);
                        assert(holds_at(after, key2, j));
                    }
                    if key2 == k {
                        assert(holds_at(after, key2, i as int));
                    }
                }
                assert forall|key2: Seq<char>|
                    entries_map(after).dom().contains(key2) implies entries_map(after)[key2]
                    == entries_map(before).insert(k, v)[key2] by {
                    let j = choose|j: int| holds_at(after, key2, j);
                    lemma_entry_in_map(after, j);
                    if j != i {
                        assert(holds_at(before, key2, j));
                        lemma_entry_in_map(before, j);
                        assert(before[j].key@ != before[i as int].key@);
                    }
                }
                assert(entries_map(after) =~= entries_map(before).insert(k, v));
            }
        },
        None => {
            entries.push(Entry { key, value });
            proof {
                let after = entries@;
                let n = before.len() as int;
                assert forall|a: int, b: int| 0 <= a < b < after.len() implies (
                #[trigger] after[a]).key@ != (#[trigger] after[b]).key@ by {
                    if b < n {
                        assert(after[a] == before[a] && after[b] == before[b]);
                    } else {
                        assert(after[a] == before[a]);
                        assert(!holds_at(before, k, a));
                    }
                }
                assert forall|key2: Seq<char>|
                    entries_map(after).dom().contains(key2) == entries_map(before).insert(
                        k,
                        v,
                    ).dom().contains(key2) by {
                    if entries_map(after).dom().contains(key2) {
                        let j = choose|j: int| holds_at(after, key2, j);
                        if j < n {
                            assert(holds_at(before, key2, j));
                        }
                    }
                    if entries_map(before).dom().contains(key2) {
                        let j = choose|j: int| holds_at(before, key2, j);
                        assert(holds_at(after, key2, j));
                    }
                    if key2 == k {
                        assert(holds_at(after, key2, n));
                    }
                }
                assert forall|key2: Seq<char>|
                    entries_map(after).dom().contains(key2) implies entries_map(after)[key2]
                    == entries_map(before).insert(k, v)[key2] by {
                    let j = choose|j: int| holds_at(after, key2, j);
                    lemma_entry_in_map(after, j);
                    if j < n {
                        assert(holds_at(before, key2, j));
                        lemma_entry_in_map(before, j);
                    }
                }
                assert(entries_map(after) =~= entries_map(before).insert(k, v));
            }
        },
    }
}

/// Takes the entry with `key` out, if there is one, and returns its record.
fn pull<V: View>(entries: &mut Vec<Entry<V>>, key: &String) -> (record: Option<V>)
    requires
        distinct_keys(old(entries)@),
    ensures
        distinct_keys(final(entries)@),
        match record {
            Some(value) => entries_map(old(entries)@).dom().contains(key@) && entries_map(
                old(entries)@,
            )[key@] == value@,
            None => !entries_map(old(entries)@).dom().contains(key@),
        },
        entries_map(final(entries)@) == entries_map(old(entries)@).remove(key@),
{
    let ghost before = entries@;
    let ghost k = key@;
    match position(entries, key) {
        Some(i) => {
            proof {
                lemma_entry_in_map(before, i as int);
            }
            let entry = entries.remove(i);
            proof {
                let after = entries@;
                assert forall|a: int| 0 <= a < after.len() implies #[trigger] after[a] == before[if a
                    < i {
                    a
                } else {
                    a + 1
                }] by {}
                assert forall|a: int, b: int| 0 <= a < b < after.len() implies (
                #[trigger] after[a]).key@ != (#[trigger] after[b]).key@ by {
                    let a0 = if a < i { a } else { a + 1 };
                    let b0 = if b < i { b } else { b + 1 };
                    assert(after[a] == before[a0] && after[b] == before[b0]);
                }
                assert forall|key2: Seq<char>|
                    entries_map(after).dom().contains(key2) == entries_map(before).remove(
                        k,
                    ).dom().contains(key2) by {
                    if entries_map(after).dom().contains(key2) {
                        let j = choose|j: int| holds_at(after, key2, j);
                        let j0 = if j < i { j } else { j + 1 };
                        assert(after[j] == before[j0]);
                        assert(holds_at(before, key2, j0));
                        if key2 == k {
                            if j0 < i {
                                assert(before[j0].key@ != before[i as int].key@);
                            } else {
                                assert(before[i as int].key@ != before[j0].key@);
                            }
                        }
                    }
                    if entries_map(before).dom().contains(key2) && key2 != k {
                        let j = choose|j: int| holds_at(before, key2, j);
                        let j1 = if j < i { j } else { j - 1 };
                        assert(after[j1] == before[j]);
                        assert(holds_at(after, key2, j1));
                    }
                }
                assert forall|key2: Seq<char>|
                    entries_map(after).dom().contains(key2) implies entries_map(after)[key2]
                    == entries_map(before).remove(k)[key2] by {
                    let j = choose|j: int| holds_at(after, key2, j);
                    let j0 = if j < i { j } else { j + 1 };
                    assert(after[j] == before[j0]);
                    lemma_entry_in_map(after, j);
                    lemma_entry_in_map(before, j0);
                }
                assert(entries_map(after) =~= entries_map(before).remove(k));
            }
            Some(entry.value)
        },
        None => {
            proof {
                assert(entries_map(before) =~= entries_map(before).remove(k));
            }
            None
        },
    }
}

/// Records that can be copied: the copy has the view of what it was made of.
pub trait Duplicate: View + Sized {
    fn duplicate(&self) -> (copy: Self)
        ensures
            copy@ == self@,
    ;
}

impl<V: Duplicate> Table<V> {
    /// A copy of the table: the same records under the same keys.
    pub fn duplicate(&self) -> (copy: Table<V>)
        ensures
            copy@ == self@,
    {
        proof {
            use_type_invariant(self);
        }
        let mut entries: Vec<Entry<V>> = Vec::new();
        let mut i: usize = 0;
        while i < self.entries.len()
            invariant
                i <= self.entries.len(),
                entries.len() == i,
                forall|k: int|
                    0 <= k < i ==> (#[trigger] entries[k]).key@ == self.entries[k].key@
                        && entries[k].value@ == self.entries[k].value@,
            decreases self.entries.len() - i,
        {
            entries.push(
                Entry {
                    key: self.entries[i].key.clone(),
                    value: self.entries[i].value.duplicate(),
                },
            );
            i += 1;
        }
        proof {
            lemma_same_entries(self.entries@, entries@);
        }
        Table { entries }
    }
}

/// Entries with the same keys and records of the same views, place by
/// place, make the same map.
proof fn lemma_same_entries<V: View>(a: Seq<Entry<V>>, b: Seq<Entry<V>>)
    requires
        distinct_keys(a),
        a.len() == b.len(),
        forall|k: int|
            0 <= k < a.len() ==> (#[trigger] b[k]).key@ == a[k].key@ && b[k].value@ == a[k].value@,
    ensures
        distinct_keys(b),
        entries_map(b) == entries_map(a),
{
    assert forall|i: int, j: int| 0 <= i < j < b.len() implies (#[trigger] b[i]).key@ != (
    #[trigger] b[j]).key@ by {
        assert(a[i].key@ != a[j].key@);
    }
    assert forall|key: Seq<char>|
        entries_map(a).dom().contains(key) == entries_map(b).dom().contains(key) by {
        if entries_map(a).dom().contains(key) {
            let i = choose|i: int| holds_at(a, key, i);
            assert(holds_at(b, key, i));
        }
        if entries_map(b).dom().contains(key) {
            let i = choose|i: int| holds_at(b, key, i);
            assert(holds_at(a, key, i));
        }
    }
    assert forall|key: Seq<char>| entries_map(a).dom().contains(key) implies entries_map(a)[key]
        == entries_map(b)[key] by {
        let i = choose|i: int| holds_at(a, key, i);
        assert(holds_at(b, key, i));
        lemma_entry_in_map(a, i);
        lemma_entry_in_map(b, i);
    }
    assert(entries_map(b) =~= entries_map(a));
}

/// A sequence without a repeated key maps as many keys as it has entries.
proof fn lemma_entries_count<V: View>(entries: Seq<Entry<V>>)
    requires
        distinct_keys(entries),
    ensures
        entries_map(entries).dom().finite(),
        entries_map(entries).dom().len() == entries.len(),
    decreases entries.len(),
{
    if entries.len() == 0 {
        assert(entries_map(entries).dom() =~= Set::<Seq<char>>::empty());
    } else {
        let rest = entries.drop_last();
        let last = entries.last();
        assert forall|a: int, b: int| 0 <= a < b < rest.len() implies (#[trigger] rest[a]).key@ != (
        #[trigger] rest[b]).key@ by {
            assert(rest[a] == entries[a] && rest[b] == entries[b]);
        }
        lemma_entries_count(rest);
        assert forall|j: int| !holds_at(rest, last.key@, j) by {
            if holds_at(rest, last.key@, j) {
                assert(rest[j] == entries[j]);
                assert(entries[j].key@ != entries[entries.len() - 1].key@);
            }
        }
        assert(entries_map(entries).dom() =~= entries_map(rest).dom().insert(last.key@)) by {
            assert forall|k: Seq<char>|
                entries_map(entries).dom().contains(k) == entries_map(rest).dom().insert(
                    last.key@,
                ).contains(k) by {
                if entries_map(entries).dom().contains(k) {
                    let j = choose|j: int| holds_at(entries, k, j);
                    if j < rest.len() {
                        assert(rest[j] == entries[j]);
                        assert(holds_at(rest, k, j));
                    }
                }
                if entries_map(rest).dom().contains(k) {
                    let j = choose|j: int| holds_at(rest, k, j);
                    assert(rest[j] == entries[j]);
                    assert(holds_at(entries, k, j));
                }
                if k == last.key@ {
                    assert(holds_at(entries, k, entries.len() - 1));
                }
            }
        }
    }
}

} // verus!
