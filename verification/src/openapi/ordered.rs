//! The ordered maps used throughout the document model.
//!
//! A map remembers the order in which its keys first arrived. Positions come
//! from an `indexmap::IndexMap`; the values lie beside it, in the same order.

use crate::text;
use indexmap::IndexMap;
use vstd::prelude::*;
use vstd::string::*;

verus! {

/// An ordered map of the `indexmap` crate.
#[verifier::external_type_specification]
#[verifier::external_body]
#[verifier::reject_recursive_types(K)]
#[verifier::reject_recursive_types(V)]
#[verifier::reject_recursive_types(S)]
pub struct ExIndexMap<K, V, S>(IndexMap<K, V, S>);

/// The keys of an index, in order.
pub uninterp spec fn keys_of(index: IndexMap<String, ()>) -> Seq<Seq<char>>;

/// `IndexMap::new`: no keys.
#[verifier::external_body]
pub(crate) fn index_new() -> (index: IndexMap<String, ()>)
    ensures
        keys_of(index) == Seq::<Seq<char>>::empty(),
{
    IndexMap::new()
}

/// `IndexMap::get_index_of`: the position of a key, if it is there.
#[verifier::external_body]
pub(crate) fn index_of(index: &IndexMap<String, ()>, key: &str) -> (at: Option<usize>)
    ensures
        match at {
            Some(i) => i < keys_of(*index).len() && keys_of(*index)[i as int] == key@,
            None => !keys_of(*index).contains(key@),
        },
{
    index.get_index_of(key)
}

/// `IndexMap::insert_full`: a key that is there keeps its position, a new one
/// goes to the end. The position is returned.
#[verifier::external_body]
pub(crate) fn index_insert(index: &mut IndexMap<String, ()>, key: String) -> (at: usize)
    ensures
        keys_of(*old(index)).contains(key@) ==> {
            &&& keys_of(*final(index)) == keys_of(*old(index))
            &&& at < keys_of(*old(index)).len()
            &&& keys_of(*old(index))[at as int] == key@
        },
        !keys_of(*old(index)).contains(key@) ==> {
            &&& keys_of(*final(index)) == keys_of(*old(index)).push(key@)
            &&& at == keys_of(*old(index)).len()
        },
{
    index.insert_full(key, ()).0
}

/// `IndexMap::shift_remove_full`: takes a key out, moving those after it up by
/// one. The position it had is returned.
#[verifier::external_body]
pub(crate) fn index_remove(index: &mut IndexMap<String, ()>, key: &str) -> (at: Option<usize>)
    ensures
        match at {
            Some(i) => {
                &&& i < keys_of(*old(index)).len()
                &&& keys_of(*old(index))[i as int] == key@
                &&& keys_of(*final(index)) == keys_of(*old(index)).remove(i as int)
            },
            None => {
                &&& !keys_of(*old(index)).contains(key@)
                &&& keys_of(*final(index)) == keys_of(*old(index))
            },
        },
{
    index.shift_remove_full(key).map(|entry| entry.0)
}

/// `IndexMap::get_index`: the key at a position.
#[verifier::external_body]
pub(crate) fn index_key(index: &IndexMap<String, ()>, at: usize) -> (key: Option<&String>)
    ensures
        match key {
            Some(k) => at < keys_of(*index).len() && k@ == keys_of(*index)[at as int],
            None => at >= keys_of(*index).len(),
        },
{
    index.get_index(at).map(|entry| entry.0)
}

/// The position of `key` among the entries of a map.
pub open spec fn position<V>(entries: Seq<(Seq<char>, V)>, key: Seq<char>) -> Option<int>
    decreases entries.len(),
{
    if entries.len() == 0 {
        None
    } else if entries.last().0 == key {
        Some(entries.len() - 1)
    } else {
        position(entries.drop_last(), key)
    }
}

/// What `key` is mapped to.
pub open spec fn lookup<V>(entries: Seq<(Seq<char>, V)>, key: Seq<char>) -> Option<V> {
    match position(entries, key) {
        Some(i) => Some(entries[i].1),
        None => None,
    }
}

/// A map after an insertion: a key that is there gets the new value in its
/// place, a new one goes to the end.
pub open spec fn inserted<V>(
    entries: Seq<(Seq<char>, V)>,
    key: Seq<char>,
    value: V,
) -> Seq<(Seq<char>, V)> {
    match position(entries, key) {
        Some(i) => entries.update(i, (key, value)),
        None => entries.push((key, value)),
    }
}

/// A map after a removal, the order of the others kept.
pub open spec fn removed<V>(entries: Seq<(Seq<char>, V)>, key: Seq<char>) -> Seq<(Seq<char>, V)> {
    match position(entries, key) {
        Some(i) => entries.remove(i),
        None => entries,
    }
}

/// No key occurs twice.
pub open spec fn distinct<V>(entries: Seq<(Seq<char>, V)>) -> bool {
    forall|i: int, j: int|
        0 <= i < j < entries.len() ==> (#[trigger] entries[i]).0 != (#[trigger] entries[j]).0
}

/// `position` finds a key wherever it is.
pub proof fn lemma_position<V>(entries: Seq<(Seq<char>, V)>, key: Seq<char>)
    ensures
        match position(entries, key) {
            Some(i) => 0 <= i < entries.len() && entries[i].0 == key,
            None => forall|i: int| 0 <= i < entries.len() ==> (#[trigger] entries[i]).0 != key,
        },
    decreases entries.len(),
{
    if entries.len() > 0 && entries.last().0 != key {
        lemma_position(entries.drop_last(), key);
        assert forall|i: int|
            position(entries, key) is None && 0 <= i < entries.len() implies (
        #[trigger] entries[i]).0 != key by {
            if i < entries.len() - 1 {
                assert(entries[i] == entries.drop_last()[i]);
            }
        }
    }
}

/// A key has one position.
pub proof fn lemma_position_is<V>(entries: Seq<(Seq<char>, V)>, i: int)
    requires
        distinct(entries),
        0 <= i < entries.len(),
    ensures
        position(entries, entries[i].0) == Some(i),
{
    lemma_position(entries, entries[i].0);
}

struct Inner<V> {
    index: IndexMap<String, ()>,
    values: Vec<V>,
}

impl<V> Inner<V> {
    spec fn wf(&self) -> bool {
        &&& keys_of(self.index).len() == self.values@.len()
        &&& keys_of(self.index).no_duplicates()
    }

    fn empty() -> (inner: Self)
        ensures
            inner.wf(),
            inner.values@.len() == 0,
    {
        Inner { index: index_new(), values: Vec::new() }
    }
}

/// An ordered map from text.
pub struct OrderedMap<V> {
    inner: Inner<V>,
}

impl<V> View for OrderedMap<V> {
    type V = Seq<(Seq<char>, V)>;

    /// The entries, in order.
    closed spec fn view(&self) -> Seq<(Seq<char>, V)> {
        Seq::new(
            self.inner.values@.len(),
            |i: int| (keys_of(self.inner.index)[i], self.inner.values@[i]),
        )
    }
}

/// The values of a map, in order.
pub closed spec fn values_of<V>(map: OrderedMap<V>) -> Seq<V> {
    map.inner.values@
}

pub proof fn lemma_values_of<V>(map: OrderedMap<V>)
    ensures
        values_of(map).len() == map@.len(),
        forall|i: int| 0 <= i < map@.len() ==> (#[trigger] map@[i]).1 == values_of(map)[i],
        decreases_to!(map => values_of(map)),
{
    assert(decreases_to!(map => map.inner));
    assert(decreases_to!(map.inner => map.inner.values));
    assert(decreases_to!(map.inner.values => map.inner.values@));
}

impl<V> OrderedMap<V> {
    #[verifier::type_invariant]
    spec fn wf(&self) -> bool {
        self.inner.wf()
    }

    pub fn new() -> (map: Self)
        ensures
            map@ == Seq::<(Seq<char>, V)>::empty(),
    {
        let map = OrderedMap { inner: Inner::empty() };
        assert(map@ =~= Seq::<(Seq<char>, V)>::empty());
        map
    }

    pub fn len(&self) -> (n: usize)
        ensures
            n == self@.len(),
            distinct(self@),
    {
        proof {
            use_type_invariant(self);
        }
        self.inner.values.len()
    }

    pub fn is_empty(&self) -> (r: bool)
        ensures
            r == (self@.len() == 0),
    {
        self.inner.values.len() == 0
    }

    /// The position of a key.
    pub fn find(&self, key: &str) -> (at: Option<usize>)
        ensures
            match at {
                Some(i) => position(self@, key@) == Some(i as int) && i < self@.len()
                    && self@[i as int].0 == key@,
                None => position(self@, key@) is None,
            },
    {
        proof {
            use_type_invariant(self);
            lemma_position(self@, key@);
        }
        let at = index_of(&self.inner.index, key);
        proof {
            if at is Some {
                lemma_position_is(self@, at->0 as int);
            } else if position(self@, key@) is Some {
                let i = position(self@, key@)->0;
                assert(keys_of(self.inner.index)[i] == key@);
            }
        }
        at
    }

    pub fn contains_key(&self, key: &str) -> (r: bool)
        ensures
            r == (position(self@, key@) is Some),
    {
        self.find(key).is_some()
    }

    /// What a key is mapped to.
    pub fn get(&self, key: &str) -> (value: Option<&V>)
        ensures
            match value {
                Some(v) => lookup(self@, key@) == Some(*v),
                None => lookup(self@, key@) is None,
            },
    {
        match self.find(key) {
            Some(i) => Some(self.value_at(i)),
            None => None,
        }
    }

    /// The key at a position.
    pub fn key_at(&self, at: usize) -> (key: &str)
        requires
            at < self@.len(),
        ensures
            key@ == self@[at as int].0,
    {
        proof {
            use_type_invariant(self);
        }
        match index_key(&self.inner.index, at) {
            Some(key) => key.as_str(),
            None => "",
        }
    }

    /// The value at a position.
    pub fn value_at(&self, at: usize) -> (value: &V)
        requires
            at < self@.len(),
        ensures
            *value == self@[at as int].1,
    {
        proof {
            use_type_invariant(self);
        }
        &self.inner.values[at]
    }

    /// Maps `key` to `value`, returning what it was mapped to before.
    pub fn insert(&mut self, key: String, value: V) -> (before: Option<V>)
        ensures
            final(self)@ == inserted(old(self)@, key@, value),
            before == lookup(old(self)@, key@),
    {
        proof {
            use_type_invariant(&*self);
            assert(distinct(self@));
            lemma_position(self@, key@);
        }
        let ghost entries = self@;
        let ghost text = key@;
        let mut inner = Inner::empty();
        core::mem::swap(&mut self.inner, &mut inner);
        let ghost keys = keys_of(inner.index);
        assert(forall|i: int| 0 <= i < keys.len() ==> (#[trigger] entries[i]).0 == keys[i]);
        let at = index_insert(&mut inner.index, key);
        let n: usize = inner.values.len();
        if at < n {
            let mut given = value;
            proof {
                assert(entries[at as int].0 == text);
                lemma_position_is(entries, at as int);
            }
            core::mem::swap(&mut inner.values[at], &mut given);
            self.inner = inner;
            assert(self@ =~= inserted(entries, text, value));
            Some(given)
        } else {
            assert(!keys.contains(text));
            assert(position(entries, text) is None) by {
                if position(entries, text) is Some {
                    assert(keys[position(entries, text)->0] == text);
                }
            }
            inner.values.push(value);
            self.inner = inner;
            assert(self@ =~= inserted(entries, text, value));
            None
        }
    }

    /// Takes a key out of the map.
    pub fn shift_remove(&mut self, key: &str) -> (before: Option<V>)
        ensures
            final(self)@ == removed(old(self)@, key@),
            before == lookup(old(self)@, key@),
    {
        proof {
            use_type_invariant(&*self);
            assert(distinct(self@));
            lemma_position(self@, key@);
        }
        let ghost entries = self@;
        let mut inner = Inner::empty();
        core::mem::swap(&mut self.inner, &mut inner);
        let ghost keys = keys_of(inner.index);
        assert(forall|i: int| 0 <= i < keys.len() ==> (#[trigger] entries[i]).0 == keys[i]);
        match index_remove(&mut inner.index, key) {
            Some(at) => {
                proof {
                    assert(entries[at as int].0 == key@);
                    lemma_position_is(entries, at as int);
                }
                let value = inner.values.remove(at);
                self.inner = inner;
                assert(self@ =~= removed(entries, key@));
                Some(value)
            },
            None => {
                assert(position(entries, key@) is None) by {
                    if position(entries, key@) is Some {
                        assert(keys[position(entries, key@)->0] == key@);
                    }
                }
                self.inner = inner;
                assert(self@ =~= entries);
                None
            },
        }
    }
}

/// What was inserted is found again, and nothing else changes.
pub proof fn insertion_is_remembered<V>(
    entries: Seq<(Seq<char>, V)>,
    key: Seq<char>,
    value: V,
    other: Seq<char>,
)
    requires
        distinct(entries),
    ensures
        lookup(inserted(entries, key, value), key) == Some(value),
        other != key ==> lookup(inserted(entries, key, value), other) == lookup(entries, other),
        distinct(inserted(entries, key, value)),
{
    let after = inserted(entries, key, value);
    lemma_position(entries, key);
    lemma_position(entries, other);
    lemma_position(after, key);
    lemma_position(after, other);
    assert(distinct(after));
    match position(entries, key) {
        Some(i) => {
            assert(after[i] == (key, value));
            lemma_position_is(after, i);
        },
        None => {
            assert(after[entries.len() as int] == (key, value));
            lemma_position_is(after, entries.len() as int);
        },
    }
    if other != key {
        match position(entries, other) {
            Some(j) => {
                assert(after[j] == entries[j]);
                lemma_position_is(after, j);
            },
            None => {
                assert forall|j: int| 0 <= j < after.len() implies (#[trigger] after[j]).0
                    != other by {
                    if j < entries.len() {
                        assert(entries[j].0 != other);
                    }
                }
            },
        }
    }
}

} // verus!
