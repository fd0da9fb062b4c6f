//! Ordered maps of schemas.
//!
//! A schema holds such a map of its own properties, so the map is written for
//! schemas alone.

use crate::openapi::ordered;
use crate::openapi::schema::Schema;
use indexmap::IndexMap;
use vstd::prelude::*;

verus! {

struct Inner {
    index: IndexMap<String, ()>,
    values: Vec<Schema>,
}

impl Inner {
    spec fn wf(&self) -> bool {
        &&& ordered::keys_of(self.index).len() == self.values@.len()
        &&& ordered::keys_of(self.index).no_duplicates()
    }

    fn empty() -> (inner: Self)
        ensures
            inner.wf(),
            inner.values@.len() == 0,
    {
        Inner { index: ordered::index_new(), values: Vec::new() }
    }
}

/// An ordered map from text to schemas.
pub struct SchemaMap {
    inner: Inner,
}

impl View for SchemaMap {
    type V = Seq<(Seq<char>, Schema)>;

    /// The entries, in order.
    closed spec fn view(&self) -> Seq<(Seq<char>, Schema)> {
        Seq::new(
            self.inner.values@.len(),
            |i: int| (ordered::keys_of(self.inner.index)[i], self.inner.values@[i]),
        )
    }
}

/// The values of a map, in order.
pub closed spec fn values_of(map: SchemaMap) -> Seq<Schema> {
    map.inner.values@
}

pub proof fn lemma_values_of(map: SchemaMap)
    ensures
        values_of(map).len() == map@.len(),
        forall|i: int| 0 <= i < map@.len() ==> (#[trigger] map@[i]).1 == values_of(map)[i],
        decreases_to!(map => values_of(map)),
{
    assert(decreases_to!(map => map.inner));
    assert(decreases_to!(map.inner => map.inner.values));
    assert(decreases_to!(map.inner.values => map.inner.values@));
}

impl SchemaMap {
    #[verifier::type_invariant]
    spec fn wf(&self) -> bool {
        self.inner.wf()
    }

    pub fn new() -> (map: Self)
        ensures
            map@ == Seq::<(Seq<char>, Schema)>::empty(),
    {
        let map = SchemaMap { inner: Inner::empty() };
        assert(map@ =~= Seq::<(Seq<char>, Schema)>::empty());
        map
    }

    pub fn len(&self) -> (n: usize)
        ensures
            n == self@.len(),
            ordered::distinct(self@),
    {
        proof {
            use_type_invariant(self);
        }
        self.inner.values.len()
    }

    pub fn is_empty(&self) -> (r: bool)
        ensures
            r == (self@.len() == 0),
    {
        self.inner.values.len() == 0
    }

    /// The position of a key.
    pub fn find(&self, key: &str) -> (at: Option<usize>)
        ensures
            match at {
                Some(i) => ordered::position(self@, key@) == Some(i as int) && i < self@.len()
                    && self@[i as int].0 == key@,
                None => ordered::position(self@, key@) is None,
            },
    {
        proof {
            use_type_invariant(self);
            ordered::lemma_position(self@, key@);
        }
        let at = ordered::index_of(&self.inner.index, key);
        proof {
            if at is Some {
                ordered::lemma_position_is(self@, at->0 as int);
            } else if ordered::position(self@, key@) is Some {
                let i = ordered::position(self@, key@)->0;
                assert(ordered::keys_of(self.inner.index)[i] == key@);
            }
        }
        at
    }

    pub fn contains_key(&self, key: &str) -> (r: bool)
        ensures
            r == (ordered::position(self@, key@) is Some),
    {
        self.find(key).is_some()
    }

    /// What a key is mapped to.
    pub fn get(&self, key: &str) -> (value: Option<&Schema>)
        ensures
            match value {
                Some(v) => ordered::lookup(self@, key@) == Some(*v),
                None => ordered::lookup(self@, key@) is None,
            },
    {
        match self.find(key) {
            Some(i) => Some(self.value_at(i)),
            None => None,
        }
    }

    /// The key at a position.
    pub fn key_at(&self, at: usize) -> (key: &str)
        requires
            at < self@.len(),
        ensures
            key@ == self@[at as int].0,
    {
        proof {
            use_type_invariant(self);
        }
        match ordered::index_key(&self.inner.index, at) {
            Some(key) => key.as_str(),
            None => "",
        }
    }

    /// The value at a position.
    pub fn value_at(&self, at: usize) -> (value: &Schema)
        requires
            at < self@.len(),
        ensures
            *value == self@[at as int].1,
    {
        proof {
            use_type_invariant(self);
        }
        &self.inner.values[at]
    }

    /// Maps `key` to `value`, returning what it was mapped to before.
    pub fn insert(&mut self, key: String, value: Schema) -> (before: Option<Schema>)
        ensures
            final(self)@ == ordered::inserted(old(self)@, key@, value),
            before == ordered::lookup(old(self)@, key@),
    {
        proof {
            use_type_invariant(&*self);
            assert(ordered::distinct(self@));
            ordered::lemma_position(self@, key@);
        }
        let ghost entries = self@;
        let ghost text = key@;
        let mut inner = Inner::empty();
        core::mem::swap(&mut self.inner, &mut inner);
        let ghost keys = ordered::keys_of(inner.index);
        assert(forall|i: int| 0 <= i < keys.len() ==> (#[trigger] entries[i]).0 == keys[i]);
        let at = ordered::index_insert(&mut inner.index, key);
        let n: usize = inner.values.len();
        if at < n {
            let mut given = value;
            proof {
                assert(entries[at as int].0 == text);
                ordered::lemma_position_is(entries, at as int);
            }
            core::mem::swap(&mut inner.values[at], &mut given);
            self.inner = inner;
            assert(self@ =~= ordered::inserted(entries, text, value));
            Some(given)
        } else {
            assert(!keys.contains(text));
            assert(ordered::position(entries, text) is None) by {
                if ordered::position(entries, text) is Some {
                    assert(keys[ordered::position(entries, text)->0] == text);
                }
            }
            inner.values.push(value);
            self.inner = inner;
            assert(self@ =~= ordered::inserted(entries, text, value));
            None
        }
    }

    /// Takes a key out of the map.
    pub fn shift_remove(&mut self, key: &str) -> (before: Option<Schema>)
        ensures
            final(self)@ == ordered::removed(old(self)@, key@),
            before == ordered::lookup(old(self)@, key@),
    {
        proof {
            use_type_invariant(&*self);
            assert(ordered::distinct(self@));
            ordered::lemma_position(self@, key@);
        }
        let ghost entries = self@;
        let mut inner = Inner::empty();
        core::mem::swap(&mut self.inner, &mut inner);
        let ghost keys = ordered::keys_of(inner.index);
        assert(forall|i: int| 0 <= i < keys.len() ==> (#[trigger] entries[i]).0 == keys[i]);
        match ordered::index_remove(&mut inner.index, key) {
            Some(at) => {
                proof {
                    assert(entries[at as int].0 == key@);
                    ordered::lemma_position_is(entries, at as int);
                }
                let value = inner.values.remove(at);
                self.inner = inner;
                assert(self@ =~= ordered::removed(entries, key@));
                Some(value)
            },
            None => {
                assert(ordered::position(entries, key@) is None) by {
                    if ordered::position(entries, key@) is Some {
                        assert(keys[ordered::position(entries, key@)->0] == key@);
                    }
                }
                self.inner = inner;
                assert(self@ =~= entries);
                None
            },
        }
    }
}

} // verus!
