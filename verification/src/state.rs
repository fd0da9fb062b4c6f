//! Type-keyed application state.
//!
//! A type is known by its number, which whoever registers state hands out.

use crate::text;
use std::collections::HashMap;
use std::sync::Arc;
use vstd::prelude::*;
use vstd::string::*;

verus! {

broadcast use vstd::std_specs::hash::group_hash_axioms;

/// A map from type to a single shared value of that type.
///
/// Registering two values of the same type replaces the first; state is
/// identified by type.
pub struct StateMap<V> {
    entries: HashMap<u64, Arc<V>>,
    /// Kept for diagnostics: a lookup of an unregistered type should be able to
    /// say what *is* registered.
    names: Vec<String>,
}

/// State, as a value.
#[verifier::ext_equal]
pub struct StateModel<V> {
    pub entries: Map<u64, V>,
    pub names: Seq<Seq<char>>,
}

impl<V> View for StateMap<V> {
    type V = StateModel<V>;

    closed spec fn view(&self) -> StateModel<V> {
        StateModel {
            entries: self.entries@.map_values(|v: Arc<V>| *v),
            names: text::views(self.names@),
        }
    }
}

impl<V> StateModel<V> {
    pub open spec fn empty() -> StateModel<V> {
        StateModel { entries: Map::empty(), names: Seq::empty() }
    }

    /// The state after a value was registered. A type is named once.
    pub open spec fn registered(self, type_number: u64, name: Seq<char>, value: V) -> StateModel<
        V,
    > {
        StateModel {
            entries: self.entries.insert(type_number, value),
            names: if self.entries.dom().contains(type_number) {
                self.names
            } else {
                self.names.push(name)
            },
        }
    }
}

impl<V> StateMap<V> {
    pub fn new() -> (out: Self)
        ensures
            out@ == StateModel::<V>::empty(),
    {
        let out = StateMap { entries: HashMap::new(), names: Vec::new() };
        assert(out@ =~= StateModel::<V>::empty());
        out
    }

    /// Registers a value, returning `true` if it replaced an existing one.
    pub fn insert(&mut self, type_number: u64, name: &str, value: V) -> (replaced: bool)
        ensures
            final(self)@ == old(self)@.registered(type_number, name@, value),
            replaced == old(self)@.entries.dom().contains(type_number),
    {
        self.insert_arc(type_number, name, Arc::new(value))
    }

    /// Registers an already-shared value.
    pub fn insert_arc(&mut self, type_number: u64, name: &str, value: Arc<V>) -> (replaced: bool)
        ensures
            final(self)@ == old(self)@.registered(type_number, name@, *value),
            replaced == old(self)@.entries.dom().contains(type_number),
    {
        let ghost before = self@;
        let replaced = self.entries.insert(type_number, value).is_some();
        if !replaced {
            let name = name.to_owned();
            proof {
                text::lemma_views_push(self.names@, name);
            }
            self.names.push(name);
        }
        assert(self@.entries =~= before.entries.insert(type_number, *value));
        replaced
    }

    /// Looks up a value by type.
    pub fn get(&self, type_number: u64) -> (value: Option<&Arc<V>>)
        ensures
            match value {
                Some(v) => self@.entries.dom().contains(type_number) && **v
                    == self@.entries[type_number],
                None => !self@.entries.dom().contains(type_number),
            },
    {
        self.entries.get(&type_number)
    }

    /// The type names of everything registered, for error messages.
    pub fn registered(&self) -> (names: &Vec<String>)
        ensures
            text::views(names@) == self@.names,
    {
        &self.names
    }

    pub fn is_empty(&self) -> (r: bool)
        ensures
            r == (self@.entries.dom().len() == 0),
    {
        let r = self.entries.len() == 0;
        assert(self@.entries.dom() =~= self.entries@.dom());
        r
    }
}

/// A value is found under its type from its registration on, until another of
/// the same type replaces it; other types are left alone.
pub proof fn values_are_found_by_type<V>(
    state: StateModel<V>,
    type_number: u64,
    name: Seq<char>,
    value: V,
    other: u64,
)
    ensures
        state.registered(type_number, name, value).entries.dom().contains(type_number),
        state.registered(type_number, name, value).entries[type_number] == value,
        other != type_number ==> state.registered(type_number, name, value).entries.dom().contains(
            other,
        ) == state.entries.dom().contains(other),
        other != type_number && state.entries.dom().contains(other) ==> state.registered(
            type_number,
            name,
            value,
        ).entries[other] == state.entries[other],
{
}

/// One registration: the type's number and name, and the value.
pub type Registration<V> = (u64, Seq<char>, V);

/// The state after a series of registrations.
pub open spec fn after_all<V>(history: Seq<Registration<V>>) -> StateModel<V>
    decreases history.len(),
{
    if history.len() == 0 {
        StateModel::empty()
    } else {
        let last = history.last();
        after_all(history.drop_last()).registered(last.0, last.1, last.2)
    }
}

/// Whether the registration at `i` is the last of its type.
pub open spec fn is_last_of<V>(history: Seq<Registration<V>>, i: int, type_number: u64) -> bool {
    &&& 0 <= i < history.len()
    &&& history[i].0 == type_number
    &&& forall|j: int| i < j < history.len() ==> (#[trigger] history[j]).0 != type_number
}

/// Over any history, a lookup gives the value registered last for the type, and
/// nothing where none ever was.
pub proof fn the_last_registration_is_found<V>(history: Seq<Registration<V>>, type_number: u64)
    ensures
        after_all(history).entries.dom().contains(type_number) <==> exists|i: int|
            0 <= i < history.len() && (#[trigger] history[i]).0 == type_number,
        forall|i: int| #[trigger]
            is_last_of(history, i, type_number) ==> after_all(history).entries[type_number]
                == history[i].2,
    decreases history.len(),
{
    if history.len() > 0 {
        let front = history.drop_last();
        let n = history.len() - 1;
        the_last_registration_is_found(front, type_number);
        assert(history[n] == history.last());
        if after_all(front).entries.dom().contains(type_number) {
            let i = choose|i: int| 0 <= i < front.len() && (#[trigger] front[i]).0 == type_number;
            assert(history[i].0 == type_number);
        }
        if exists|i: int| 0 <= i < history.len() && (#[trigger] history[i]).0 == type_number {
            let i = choose|i: int|
                0 <= i < history.len() && (#[trigger] history[i]).0 == type_number;
            if i < n {
                assert(front[i].0 == type_number);
            }
        }
        assert forall|i: int| #[trigger] is_last_of(history, i, type_number) implies after_all(
            history,
        ).entries[type_number] == history[i].2 by {
            if i < n {
                assert(history[n].0 != type_number);
                assert forall|j: int| i < j < front.len() implies (#[trigger] front[j]).0
                    != type_number by {
                    assert(front[j] == history[j]);
                }
                assert(is_last_of(front, i, type_number));
            }
        }
    }
}

} // verus!
