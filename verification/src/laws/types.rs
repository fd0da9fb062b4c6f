//! What the types of a signature are documented as.

use crate::json::Value;
use crate::openapi::gen;
use crate::openapi::gen::{Collected, JsonSchema};
use crate::openapi::ordered;
use crate::openapi::ordered::OrderedMap;
use crate::openapi::schema::{AdditionalModel, SchemaModel, TypeModel};
use crate::text;
use vstd::prelude::*;
use vstd::string::*;

verus! {

/// A schema of one type, by its name.
pub open spec fn is_a(s: SchemaModel, name: Seq<char>) -> bool {
    s.schema_type == Some(TypeModel::Single(name)) && s.reference is None
}

/// Texts, truth values and nothing are documented as what they are in JSON.
pub proof fn scalars_are_what_they_are_in_json(g: Collected)
    ensures
        is_a(bool::describe(g), "boolean"@),
        is_a(String::describe(g), "string"@),
        is_a(str::describe(g), "string"@),
        is_a(<() as JsonSchema>::describe(g), "null"@),
        is_a(char::describe(g), "string"@),
        char::describe(g).min_length == Some(1u64),
        char::describe(g).max_length == Some(1u64),
        Value::describe(g) == SchemaModel::any(),
        !bool::may_be_absent(),
        !String::may_be_absent(),
        !char::may_be_absent(),
{
}

/// An integer is documented as one, and where its bounds are given they are
/// those of its type; an unsigned one never goes below zero.
pub proof fn integers_keep_to_their_bounds(g: Collected)
    ensures
        is_a(i8::describe(g), "integer"@),
        i8::describe(g).minimum == Some(text::integer(i8::MIN as int)),
        i8::describe(g).maximum == Some(text::integer(i8::MAX as int)),
        is_a(i16::describe(g), "integer"@),
        i16::describe(g).minimum == Some(text::integer(i16::MIN as int)),
        i16::describe(g).maximum == Some(text::integer(i16::MAX as int)),
        is_a(i32::describe(g), "integer"@),
        i32::describe(g).format == Some("int32"@),
        i32::describe(g).minimum is None && i32::describe(g).maximum is None,
        is_a(i64::describe(g), "integer"@),
        i64::describe(g).format == Some("int64"@),
        i64::describe(g).minimum is None && i64::describe(g).maximum is None,
        is_a(i128::describe(g), "integer"@),
        i128::describe(g).minimum is None && i128::describe(g).maximum is None,
        is_a(isize::describe(g), "integer"@),
        isize::describe(g).minimum is None && isize::describe(g).maximum is None,
        is_a(u8::describe(g), "integer"@),
        u8::describe(g).minimum == Some(text::integer(0)),
        u8::describe(g).maximum == Some(text::integer(u8::MAX as int)),
        is_a(u16::describe(g), "integer"@),
        u16::describe(g).minimum == Some(text::integer(0)),
        u16::describe(g).maximum == Some(text::integer(u16::MAX as int)),
        is_a(u32::describe(g), "integer"@),
        u32::describe(g).minimum == Some(text::integer(0)),
        u32::describe(g).maximum == Some(text::integer(u32::MAX as int)),
        is_a(u64::describe(g), "integer"@),
        u64::describe(g).minimum == Some(text::integer(0)),
        u64::describe(g).maximum is None,
        is_a(u128::describe(g), "integer"@),
        u128::describe(g).minimum == Some(text::integer(0)),
        u128::describe(g).maximum is None,
        is_a(usize::describe(g), "integer"@),
        usize::describe(g).minimum == Some(text::integer(0)),
        usize::describe(g).maximum is None,
{
}

/// A list is documented as an array of what it holds, a set as one without
/// repeats, an array of known length with that length, and a map as an object
/// with such values.
pub proof fn collections_are_arrays_and_objects<T: JsonSchema, K, S, const N: usize>(g: Collected)
    ensures
        ({
            let inner = gen::used::<T>(g);
            &&& is_a(<Vec<T>>::describe(g), "array"@)
            &&& <Vec<T>>::describe(g).items == Some(Box::new(inner))
            &&& <Vec<T>>::describe(g).unique_items is None
            &&& <std::collections::VecDeque<T>>::describe(g) == <Vec<T>>::describe(g)
            &&& <std::collections::BTreeSet<T>>::describe(g) == (SchemaModel {
                unique_items: Some(true),
                ..<Vec<T>>::describe(g)
            })
            &&& <std::collections::HashSet<T, S>>::describe(g) == (SchemaModel {
                unique_items: Some(true),
                ..<Vec<T>>::describe(g)
            })
            &&& <[T; N]>::describe(g) == (SchemaModel {
                min_items: Some(N as u64),
                max_items: Some(N as u64),
                ..<Vec<T>>::describe(g)
            })
            &&& is_a(<std::collections::HashMap<K, T, S>>::describe(g), "object"@)
            &&& <std::collections::HashMap<K, T, S>>::describe(g).additional_properties == Some(
                AdditionalModel::Schema(Box::new(inner)),
            )
            &&& <std::collections::BTreeMap<K, T>>::describe(g) == <std::collections::HashMap<
                K,
                T,
                S,
            >>::describe(g)
            &&& <OrderedMap<T>>::describe(g) == <std::collections::HashMap<K, T, S>>::describe(g)
        }),
{
}

/// Whether a schema admits a type by its name.
pub open spec fn admits(t: TypeModel, name: Seq<char>) -> bool {
    match t {
        TypeModel::Single(own) => own == name,
        TypeModel::Multiple(list) => list.contains(name),
    }
}

/// An optional value is one of its type or `null`, and may be left out; nothing
/// else about it changes.
pub proof fn an_option_is_nullable<T: JsonSchema>(g: Collected, name: Seq<char>)
    ensures
        <Option<T>>::may_be_absent(),
        ({
            let inner = gen::used::<T>(g);
            let s = <Option<T>>::describe(g);
            &&& inner.reference is Some ==> s.any_of == seq![inner, SchemaModel::of_type("null"@)]
            &&& inner.reference is None && inner.one_of.len() == 0 && inner.any_of.len() == 0 ==> {
                &&& s == SchemaModel { schema_type: s.schema_type, ..inner }
                &&& inner.schema_type matches Some(t) ==> s.schema_type matches Some(u) && (admits(
                    u,
                    name,
                ) <==> admits(t, name) || name == "null"@)
            }
        }),
{
    let inner = gen::used::<T>(g);
    if let Some(t) = inner.schema_type {
        match t {
            TypeModel::Single(own) => {
                let both = seq![own, "null"@];
                assert(both[0] == own && both[1] == "null"@);
                assert(both.contains(name) <==> name == own || name == "null"@);
            },
            TypeModel::Multiple(list) => {
                let more = list.push("null"@);
                assert(more[list.len() as int] == "null"@);
                if list.contains(name) {
                    let i = choose|i: int| 0 <= i < list.len() && list[i] == name;
                    assert(more[i] == name);
                }
                if more.contains(name) {
                    let i = choose|i: int| 0 <= i < more.len() && more[i] == name;
                    if i < list.len() {
                        assert(list[i] == name);
                    }
                }
            },
        }
    }
}

/// What is behind a pointer is documented as if it were there.
pub proof fn a_pointer_documents_what_it_points_to<T: JsonSchema>(g: Collected)
    ensures
        <Box<T>>::describe(g) == T::describe(g),
        <std::rc::Rc<T>>::describe(g) == T::describe(g),
        <std::sync::Arc<T>>::describe(g) == T::describe(g),
        gen::used::<Box<T>>(g) == gen::used::<T>(g),
        gen::used::<std::rc::Rc<T>>(g) == gen::used::<T>(g),
        gen::used::<std::sync::Arc<T>>(g) == gen::used::<T>(g),
        <Box<T>>::may_be_absent() == T::may_be_absent(),
        <std::rc::Rc<T>>::may_be_absent() == T::may_be_absent(),
        <std::sync::Arc<T>>::may_be_absent() == T::may_be_absent(),
{
}

/// A named type is referred to where it is used, and defined under that name
/// with its own schema the first time; an unnamed one stands where it is used.
pub proof fn a_named_type_is_referred_to<T: JsonSchema>(g: Collected)
    requires
        ordered::distinct(g.definitions),
    ensures
        T::name() matches Some(name) ==> {
            &&& gen::used::<T>(g).reference == Some("#/components/schemas/"@ + name)
            &&& g.knows(name) ==> gen::used_collect::<T>(g) == g
            &&& !g.knows(name) ==> ordered::lookup(
                gen::used_collect::<T>(g).definitions,
                name,
            ) == Some(T::describe(g.begin(name)))
        },
        T::name() is None ==> gen::used::<T>(g) == T::describe(g),
{
    if let Some(name) = T::name() {
        if !g.knows(name) {
            let start = g.begin(name);
            T::only_adds(start);
            let after = T::collect(start);
            ordered::insertion_is_remembered(
                after.definitions,
                name,
                T::describe(start),
                name,
            );
        }
    }
}

} // verus!
