//! Ordered collections of named values.
//!
//! A [`Registry`] keeps its entries in declaration order and finds an entry by
//! its name through an `indexmap::IndexMap` from names to positions.

use indexmap::IndexMap;
use vstd::prelude::*;

verus! {

/// `indexmap::IndexMap`, held as an opaque value.
#[verifier::external_type_specification]
#[verifier::external_body]
#[verifier::reject_recursive_types(K)]
#[verifier::reject_recursive_types(V)]
#[verifier::reject_recursive_types(S)]
pub struct ExIndexMap<K, V, S>(IndexMap<K, V, S>);

/// The key-to-value mapping that a name index holds.
pub uninterp spec fn index_contents(m: IndexMap<String, usize>) -> Map<Seq<char>, usize>;

/// `IndexMap::new`: the map it returns holds no key.
#[verifier::external_body]
fn index_new() -> (m: IndexMap<String, usize>)
    ensures
        forall|k: Seq<char>| !index_contents(m).contains_key(k),
{
    IndexMap::new()
}

/// `IndexMap::get`: the value stored under `key`, if the map holds that key.
#[verifier::external_body]
fn index_get(m: &IndexMap<String, usize>, key: &str) -> (r: Option<usize>)
    ensures
        r == (if index_contents(*m).contains_key(key@) {
            Some(index_contents(*m)[key@])
        } else {
            None
        }),
{
    m.get(key).copied()
}

/// `IndexMap::insert`: afterwards the map holds `value` under `key` and is
/// unchanged at every other key.
#[verifier::external_body]
fn index_insert(m: &mut IndexMap<String, usize>, key: String, value: usize)
    ensures
        index_contents(*final(m)) == index_contents(*old(m)).insert(key@, value),
{
    m.insert(key, value);
}

/// The position of the first entry at or after `from` whose name is `key`.
pub open spec fn find_key<V>(entries: Seq<(String, V)>, key: Seq<char>, from: int) -> Option<int>
    decreases entries.len() - from,
{
    if from < 0 || from >= entries.len() {
        None
    } else if entries[from].0@ == key {
        Some(from)
    } else {
        find_key(entries, key, from + 1)
    }
}

/// What `find_key` returns: the least position at or after `from` that holds
/// `key`, or `None` when no later entry has that name.
pub proof fn lemma_find_key<V>(entries: Seq<(String, V)>, key: Seq<char>, from: int)
    requires
        0 <= from,
    ensures
        match find_key(entries, key, from) {
            Some(i) => from <= i < entries.len() && entries[i].0@ == key && forall|j: int|
                from <= j < i ==> entries[j].0@ != key,
            None => forall|j: int| from <= j < entries.len() ==> entries[j].0@ != key,
        },
    decreases entries.len() - from,
{
    if from < entries.len() && entries[from].0@ != key {
        lemma_find_key(entries, key, from + 1);
    }
}

/// The entries after `key` has been bound to `value`: an entry of that name
/// keeps its place and takes the new value, a new name goes to the end.
pub open spec fn bind<V>(entries: Seq<(String, V)>, key: String, value: V) -> Seq<
    (String, V),
> {
    match find_key(entries, key@, 0) {
        Some(i) => entries.update(i, (key, value)),
        None => entries.push((key, value)),
    }
}

/// An ordered collection of named values in which no name occurs twice.
#[derive(Debug)]
pub struct Registry<V> {
    entries: Vec<(String, V)>,
    index: IndexMap<String, usize>,
}

impl<V> Registry<V> {
    #[verifier::type_invariant]
    spec fn indexed(self) -> bool {
        &&& forall|k: Seq<char>| #[trigger]
            index_contents(self.index).contains_key(k) ==> {
                let i = index_contents(self.index)[k];
                i < self.entries@.len() && self.entries@[i as int].0@ == k
            }
        &&& forall|i: int|
            0 <= i < self.entries@.len() ==> {
                &&& index_contents(self.index).contains_key(#[trigger] self.entries@[i].0@)
                &&& index_contents(self.index)[self.entries@[i].0@] == i
            }
    }

    /// The entries in declaration order.
    pub closed spec fn entries(self) -> Seq<(String, V)> {
        self.entries@
    }

    /// An empty registry.
    pub fn new() -> (r: Self)
        ensures
            r.entries().len() == 0,
    {
        Registry { entries: Vec::new(), index: index_new() }
    }

    /// The number of entries.
    pub fn len(&self) -> (n: usize)
        ensures
            n == self.entries().len(),
    {
        self.entries.len()
    }

    /// The name of the entry at position `i`; no other entry has that name.
    pub fn key_at(&self, i: usize) -> (key: &String)
        requires
            i < self.entries().len(),
        ensures
            *key == self.entries()[i as int].0,
            find_key(self.entries(), key@, 0) == Some(i as int),
    {
        proof {
            use_type_invariant(self);
            lemma_find_key(self.entries@, self.entries@[i as int].0@, 0);
        }
        &self.entries[i].0
    }

    /// The value at position `i`.
    pub fn value_at(&self, i: usize) -> (value: &V)
        requires
            i < self.entries().len(),
        ensures
            *value == self.entries()[i as int].1,
    {
        &self.entries[i].1
    }

    /// The position of the entry named `key`.
    pub fn position(&self, key: &str) -> (r: Option<usize>)
        ensures
            match r {
                Some(i) => find_key(self.entries(), key@, 0) == Some(i as int),
                None => find_key(self.entries(), key@, 0) is None,
            },
    {
        proof {
            use_type_invariant(self);
            lemma_find_key(self.entries@, key@, 0);
        }
        index_get(&self.index, key)
    }

    /// Binds `key` to `value`.
    pub fn insert(&mut self, key: String, value: V)
        ensures
            final(self).entries() == bind(old(self).entries(), key, value),
    {
        proof {
            use_type_invariant(&*self);
            lemma_find_key(self.entries@, key@, 0);
        }
        let mut taken = Registry::new();
        core::mem::swap(self, &mut taken);
        let Registry { mut entries, mut index } = taken;
        match index_get(&index, key.as_str()) {
            Some(i) => {
                entries.set(i, (key, value));
            },
            None => {
                let at: usize = entries.len();
                index_insert(&mut index, key.clone(), at);
                entries.push((key, value));
            },
        }
        *self = Registry { entries, index };
    }
}

} // verus!
