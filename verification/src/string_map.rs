//! A map from text to values that keeps its keys in ascending order.
use crate::text::{
    lemma_text_before_irreflexive, lemma_text_before_total, lemma_text_before_transitive,
    same_text, sorts_before, text_before,
};
use vstd::prelude::*;

verus! {

/// Keys are strictly ascending, so no key occurs twice.
pub open spec fn ascending<V>(entries: Seq<(Seq<char>, V)>) -> bool {
    forall|i: int, j: int|
        0 <= i < j < entries.len() ==> text_before(#[trigger] entries[i].0, #[trigger] entries[j].0)
}

/// How many leading entries sort before the key: where the key stands or would stand.
pub open spec fn place<V>(entries: Seq<(Seq<char>, V)>, key: Seq<char>) -> nat
    decreases entries.len(),
{
    if entries.len() > 0 && text_before(entries[0].0, key) {
        1 + place(entries.drop_first(), key)
    } else {
        0
    }
}

/// The value stored under the key.
pub open spec fn lookup<V>(entries: Seq<(Seq<char>, V)>, key: Seq<char>) -> Option<V> {
    let at = place(entries, key) as int;
    if at < entries.len() && entries[at].0 == key {
        Some(entries[at].1)
    } else {
        None
    }
}

/// The entries after the value has been stored under the key.
pub open spec fn stored<V>(entries: Seq<(Seq<char>, V)>, key: Seq<char>, value: V) -> Seq<
    (Seq<char>, V),
> {
    let at = place(entries, key) as int;
    if lookup(entries, key) is Some {
        entries.update(at, (key, value))
    } else {
        entries.insert(at, (key, value))
    }
}

/// The entries without the key.
pub open spec fn without<V>(entries: Seq<(Seq<char>, V)>, key: Seq<char>) -> Seq<(Seq<char>, V)> {
    if lookup(entries, key) is Some {
        entries.remove(place(entries, key) as int)
    } else {
        entries
    }
}

pub proof fn lemma_place<V>(entries: Seq<(Seq<char>, V)>, key: Seq<char>)
    ensures
        place(entries, key) <= entries.len(),
        forall|i: int| 0 <= i < place(entries, key) ==> text_before(#[trigger] entries[i].0, key),
        place(entries, key) < entries.len() ==> !text_before(
            entries[place(entries, key) as int].0,
            key,
        ),
    decreases entries.len(),
{
    if entries.len() > 0 && text_before(entries[0].0, key) {
        let rest = entries.drop_first();
        lemma_place(rest, key);
        assert forall|i: int| 0 <= i < place(entries, key) implies text_before(
            #[trigger] entries[i].0,
            key,
        ) by {
            if i > 0 {
                assert(rest[i - 1] == entries[i]);
            }
        }
        if place(entries, key) < entries.len() {
            assert(rest[place(rest, key) as int] == entries[place(entries, key) as int]);
        }
    }
}

/// The place is pinned down by what stands on either side of it.
pub proof fn lemma_place_is<V>(entries: Seq<(Seq<char>, V)>, key: Seq<char>, at: int)
    requires
        0 <= at <= entries.len(),
        forall|i: int| 0 <= i < at ==> text_before(#[trigger] entries[i].0, key),
        at < entries.len() ==> !text_before(entries[at].0, key),
    ensures
        place(entries, key) == at,
{
    lemma_place(entries, key);
    let found = place(entries, key) as int;
    if found < at {
        assert(text_before(entries[found].0, key));
    } else if found > at {
        assert(text_before(entries[at].0, key));
    }
}

/// In ascending entries a key is found wherever it stands.
pub proof fn lemma_lookup_at<V>(entries: Seq<(Seq<char>, V)>, at: int)
    requires
        ascending(entries),
        0 <= at < entries.len(),
    ensures
        place(entries, entries[at].0) == at,
        lookup(entries, entries[at].0) == Some(entries[at].1),
{
    lemma_text_before_irreflexive(entries[at].0);
    lemma_place_is(entries, entries[at].0, at);
}

/// Storing keeps the keys ascending; the stored key reads back its value and every other key
/// reads as before.
pub proof fn lemma_stored<V>(entries: Seq<(Seq<char>, V)>, key: Seq<char>, value: V)
    requires
        ascending(entries),
    ensures
        ascending(stored(entries, key, value)),
        lookup(stored(entries, key, value), key) == Some(value),
        forall|other: Seq<char>|
            other != key ==> #[trigger] lookup(stored(entries, key, value), other) == lookup(
                entries,
                other,
            ),
{
    let at = place(entries, key) as int;
    let after = stored(entries, key, value);
    lemma_place(entries, key);
    if at < entries.len() {
        lemma_text_before_total(entries[at].0, key);
    }
    assert forall|i: int, j: int| 0 <= i < j < after.len() implies text_before(
        #[trigger] after[i].0,
        #[trigger] after[j].0,
    ) by {
        if lookup(entries, key) is Some {
            assert(after[i].0 == entries[i].0);
            assert(after[j].0 == entries[j].0);
        } else {
            if j < at {
                assert(after[i] == entries[i] && after[j] == entries[j]);
            } else if j == at {
                assert(after[i] == entries[i]);
            } else if i < at {
                assert(after[i] == entries[i] && after[j] == entries[j - 1]);
            } else if i == at {
                assert(after[j] == entries[j - 1]);
                if j - 1 > at {
                    lemma_text_before_transitive(key, entries[at].0, entries[j - 1].0);
                }
            } else {
                assert(after[i] == entries[i - 1] && after[j] == entries[j - 1]);
            }
        }
    }
    assert(after[at] == (key, value));
    lemma_lookup_at(after, at);
    assert forall|other: Seq<char>| other != key implies #[trigger] lookup(after, other) == lookup(
        entries,
        other,
    ) by {
        lemma_lookup_elsewhere(entries, key, value, other);
    }
}

proof fn lemma_lookup_elsewhere<V>(
    entries: Seq<(Seq<char>, V)>,
    key: Seq<char>,
    value: V,
    other: Seq<char>,
)
    requires
        ascending(entries),
        ascending(stored(entries, key, value)),
        other != key,
    ensures
        lookup(stored(entries, key, value), other) == lookup(entries, other),
{
    let at = place(entries, key) as int;
    let after = stored(entries, key, value);
    lemma_place(entries, key);
    lemma_place(entries, other);
    lemma_place(after, other);
    let before = place(entries, other) as int;
    let now = place(after, other) as int;
    if lookup(entries, other) is Some {
        let there = if lookup(entries, key) is Some || before < at {
            before
        } else {
            before + 1
        };
        assert(after[there] == entries[before]);
        lemma_lookup_at(after, there);
    } else if lookup(after, other) is Some {
        assert(now != at);
        let there = if lookup(entries, key) is Some || now < at {
            now
        } else {
            now - 1
        };
        assert(entries[there] == after[now]);
        lemma_lookup_at(entries, there);
    }
}

/// Two ascending lists that hold the same entries are the same.
pub proof fn lemma_same_entries<V>(a: Seq<(Seq<char>, V)>, b: Seq<(Seq<char>, V)>)
    requires
        ascending(a),
        ascending(b),
        forall|i: int| 0 <= i < a.len() ==> b.contains(#[trigger] a[i]),
        forall|j: int| 0 <= j < b.len() ==> a.contains(#[trigger] b[j]),
    ensures
        a == b,
    decreases a.len(),
{
    if a.len() == 0 {
        if b.len() > 0 {
            assert(a.contains(b[0]));
        }
        assert(a =~= b);
    } else {
        assert(b.contains(a[0]));
        let i = choose|i: int| 0 <= i < a.len() && a[i] == b[b.len() - 1];
        let j = choose|j: int| 0 <= j < b.len() && b[j] == a[a.len() - 1];
        assert(a.contains(b[b.len() - 1]) && b.contains(a[a.len() - 1]));
        let last = a[a.len() - 1];
        lemma_text_before_irreflexive(last.0);
        if j < b.len() - 1 {
            assert(text_before(b[j].0, b[b.len() - 1].0));
            if i < a.len() - 1 {
                assert(text_before(a[i].0, a[a.len() - 1].0));
                lemma_text_before_transitive(last.0, a[i].0, last.0);
            }
        }
        let fore = a.drop_last();
        let rear = b.drop_last();
        assert(ascending(fore) && ascending(rear)) by {
            assert forall|m: int, n: int| 0 <= m < n < fore.len() implies text_before(
                #[trigger] fore[m].0,
                #[trigger] fore[n].0,
            ) by {
                assert(fore[m] == a[m] && fore[n] == a[n]);
            }
            assert forall|m: int, n: int| 0 <= m < n < rear.len() implies text_before(
                #[trigger] rear[m].0,
                #[trigger] rear[n].0,
            ) by {
                assert(rear[m] == b[m] && rear[n] == b[n]);
            }
        }
        assert forall|k: int| 0 <= k < fore.len() implies rear.contains(#[trigger] fore[k]) by {
            assert(fore[k] == a[k]);
            assert(text_before(a[k].0, a[a.len() - 1].0));
            let at = choose|at: int| 0 <= at < b.len() && b[at] == a[k];
            assert(rear[at] == fore[k]);
        }
        assert forall|k: int| 0 <= k < rear.len() implies fore.contains(#[trigger] rear[k]) by {
            assert(rear[k] == b[k]);
            assert(text_before(b[k].0, b[b.len() - 1].0));
            let at = choose|at: int| 0 <= at < a.len() && a[at] == b[k];
            assert(fore[at] == rear[k]);
        }
        lemma_same_entries(fore, rear);
        assert(a =~= fore.push(last));
        assert(b =~= rear.push(last));
    }
}

pub proof fn lemma_without<V>(entries: Seq<(Seq<char>, V)>, key: Seq<char>)
    requires
        ascending(entries),
    ensures
        ascending(without(entries, key)),
{
    let after = without(entries, key);
    lemma_place(entries, key);
    if lookup(entries, key) is Some {
        let at = place(entries, key) as int;
        assert forall|i: int, j: int| 0 <= i < j < after.len() implies text_before(
            #[trigger] after[i].0,
            #[trigger] after[j].0,
        ) by {
            let from = if i < at {
                i
            } else {
                i + 1
            };
            let to = if j < at {
                j
            } else {
                j + 1
            };
            assert(after[i] == entries[from] && after[j] == entries[to]);
        }
    }
}

/// A map from text to values with its keys in ascending order.
pub struct StringMap<V> {
    items: Vec<(String, V)>,
}

impl<V> StringMap<V> {
    /// Keys and values in ascending order of the keys.
    pub closed spec fn entries(&self) -> Seq<(Seq<char>, V)> {
        self.items@.map_values(|item: (String, V)| (item.0@, item.1))
    }

    #[verifier::type_invariant]
    spec fn type_inv(self) -> bool {
        ascending(self.entries())
    }

    pub fn new() -> (map: Self)
        ensures
            map.entries() == Seq::<(Seq<char>, V)>::empty(),
    {
        let items: Vec<(String, V)> = Vec::new();
        proof {
            assert(items@.map_values(|item: (String, V)| (item.0@, item.1)) =~= Seq::empty());
        }
        StringMap { items }
    }

    pub fn len(&self) -> (len: usize)
        ensures
            len == self.entries().len(),
            ascending(self.entries()),
    {
        proof {
            use_type_invariant(self);
        }
        self.items.len()
    }

    pub fn key_at(&self, index: usize) -> (key: &String)
        requires
            index < self.entries().len(),
        ensures
            key@ == self.entries()[index as int].0,
    {
        &self.items[index].0
    }

    pub fn value_at(&self, index: usize) -> (value: &V)
        requires
            index < self.entries().len(),
        ensures
            *value == self.entries()[index as int].1,
    {
        &self.items[index].1
    }

    fn find(&self, key: &str) -> (at: usize)
        ensures
            at == place(self.entries(), key@),
            at <= self.items@.len(),
    {
        let mut at: usize = 0;
        while at < self.items.len() && sorts_before(&self.items[at].0, key)
            invariant
                at <= self.items@.len(),
                forall|i: int| 0 <= i < at ==> text_before(#[trigger] self.entries()[i].0, key@),
            decreases self.items@.len() - at,
        {
            proof {
                assert(self.entries()[at as int].0 == self.items@[at as int].0@);
            }
            at += 1;
        }
        proof {
            lemma_place_is(self.entries(), key@, at as int);
        }
        at
    }

    pub fn get(&self, key: &str) -> (value: Option<&V>)
        ensures
            ascending(self.entries()),
            match value {
                Some(v) => lookup(self.entries(), key@) == Some(*v),
                None => lookup(self.entries(), key@) is None,
            },
    {
        proof {
            use_type_invariant(self);
        }
        let at: usize = self.find(key);
        if at < self.items.len() && same_text(&self.items[at].0, key) {
            Some(&self.items[at].1)
        } else {
            None
        }
    }

    /// Stores the value under the key, in place of what the key held before.
    pub fn put(&mut self, key: String, value: V)
        ensures
            final(self).entries() == stored(old(self).entries(), key@, value),
            ascending(final(self).entries()),
    {
        proof {
            use_type_invariant(&*self);
            lemma_stored(self.entries(), key@, value);
        }
        let at: usize = self.find(&key);
        let present: bool = at < self.items.len() && same_text(&self.items[at].0, &key);
        let ghost before = self.entries();
        let mut items: Vec<(String, V)> = Vec::new();
        std::mem::swap(&mut items, &mut self.items);
        if present {
            items.set(at, (key, value));
        } else {
            items.insert(at, (key, value));
        }
        proof {
            assert(items@.map_values(|item: (String, V)| (item.0@, item.1)) =~= stored(
                before,
                key@,
                value,
            ));
        }
        self.items = items;
    }

    /// Puts a key behind all the others.
    pub fn append(&mut self, key: String, value: V)
        requires
            forall|i: int|
                0 <= i < old(self).entries().len() ==> text_before(
                    #[trigger] old(self).entries()[i].0,
                    key@,
                ),
        ensures
            final(self).entries() == old(self).entries().push((key@, value)),
    {
        proof {
            use_type_invariant(&*self);
        }
        let ghost before = self.entries();
        let mut items: Vec<(String, V)> = Vec::new();
        std::mem::swap(&mut items, &mut self.items);
        items.push((key, value));
        proof {
            assert(items@.map_values(|item: (String, V)| (item.0@, item.1)) =~= before.push(
                (key@, value),
            ));
        }
        self.items = items;
    }

    /// Gives the entry at an index another value.
    pub fn set_at(&mut self, index: usize, value: V)
        requires
            index < old(self).entries().len(),
        ensures
            final(self).entries() == old(self).entries().update(
                index as int,
                (old(self).entries()[index as int].0, value),
            ),
    {
        proof {
            use_type_invariant(&*self);
        }
        let ghost before = self.entries();
        let mut items: Vec<(String, V)> = Vec::new();
        std::mem::swap(&mut items, &mut self.items);
        let key = items[index].0.clone();
        items.set(index, (key, value));
        proof {
            let after = before.update(index as int, (before[index as int].0, value));
            assert(items@.map_values(|item: (String, V)| (item.0@, item.1)) =~= after);
            assert forall|i: int, j: int| 0 <= i < j < after.len() implies text_before(
                #[trigger] after[i].0,
                #[trigger] after[j].0,
            ) by {
                assert(after[i].0 == before[i].0 && after[j].0 == before[j].0);
            }
        }
        self.items = items;
    }

    /// Takes the key and its value out of the map.
    pub fn take(&mut self, key: &str) -> (value: Option<V>)
        ensures
            final(self).entries() == without(old(self).entries(), key@),
            value == lookup(old(self).entries(), key@),
            ascending(final(self).entries()),
    {
        proof {
            use_type_invariant(&*self);
            lemma_without(self.entries(), key@);
        }
        let at: usize = self.find(key);
        if at < self.items.len() && same_text(&self.items[at].0, key) {
            let ghost before = self.entries();
            let mut items: Vec<(String, V)> = Vec::new();
            std::mem::swap(&mut items, &mut self.items);
            let (_, value) = items.remove(at);
            proof {
                assert(items@.map_values(|item: (String, V)| (item.0@, item.1)) =~= without(
                    before,
                    key@,
                ));
            }
            self.items = items;
            Some(value)
        } else {
            None
        }
    }
}

impl<V: Copy> StringMap<V> {
    /// A map with the same entries.
    pub fn copied(&self) -> (copy: Self)
        ensures
            copy.entries() == self.entries(),
    {
        proof {
            use_type_invariant(self);
        }
        let mut items: Vec<(String, V)> = Vec::new();
        let mut i: usize = 0;
        while i < self.items.len()
            invariant
                i <= self.items@.len(),
                items@ == self.items@.take(i as int),
            decreases self.items@.len() - i,
        {
            items.push((self.items[i].0.clone(), self.items[i].1));
            i += 1;
            proof {
                assert(self.items@.take(i as int) == self.items@.take(i - 1).push(
                    self.items@[i - 1],
                ));
            }
        }
        proof {
            assert(self.items@.take(self.items@.len() as int) == self.items@);
        }
        StringMap { items }
    }
}

} // verus!
