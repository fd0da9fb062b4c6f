//! [`JsonSchema`] implementations for the standard library.

use crate::json::{Number, Value};
use crate::openapi::gen;
use crate::openapi::gen::{Collected, JsonSchema, SchemaGenerator};
use crate::openapi::ordered::OrderedMap;
use crate::openapi::schema;
use crate::openapi::schema::{Schema, SchemaModel};
use crate::text;
use vstd::prelude::*;
use vstd::string::*;

verus! {

pub open spec fn bounded_int_model(
    format: Seq<char>,
    min: Seq<char>,
    max: Seq<char>,
) -> SchemaModel {
    SchemaModel {
        minimum: Some(min),
        maximum: Some(max),
        ..SchemaModel::typed("integer"@, format)
    }
}

fn bounded_int(format: &str, min: Number, max: Number) -> (out: Schema)
    ensures
        out@ == bounded_int_model(format@, min@, max@),
{
    Schema { minimum: Some(min), maximum: Some(max), ..Schema::typed("integer", format) }
}

/// An array with one schema for each position.
pub open spec fn tuple_model(items: Seq<SchemaModel>) -> SchemaModel {
    SchemaModel {
        prefix_items: items,
        min_items: Some(items.len() as u64),
        max_items: Some(items.len() as u64),
        ..SchemaModel::of_type("array"@)
    }
}

/// An array with one schema for each position.
pub fn tuple(items: Vec<Schema>) -> (out: Schema)
    ensures
        out@ == tuple_model(schema::list_model(items@)),
{
    proof {
        schema::lemma_list_model(items@);
    }
    let len: u64 = items.len() as u64;
    Schema {
        prefix_items: items,
        min_items: Some(len),
        max_items: Some(len),
        ..Schema::of_type("array")
    }
}

proof fn lemma_extends(a: Collected, b: Collected, c: Collected)
    requires
        a.extends_to(b),
        b.extends_to(c),
    ensures
        a.extends_to(c),
{
}

impl JsonSchema for bool {
    open spec fn name() -> Option<Seq<char>> {
        None
    }

    open spec fn describe(g: Collected) -> SchemaModel {
        SchemaModel::of_type("boolean"@)
    }

    open spec fn collect(g: Collected) -> Collected {
        g
    }

    open spec fn may_be_absent() -> bool {
        false
    }

    proof fn only_adds(g: Collected) {
    }

    fn schema_name() -> (name: Option<String>) {
        None
    }

    fn json_schema(generator: &mut SchemaGenerator) -> (schema: Schema) {
        Schema::of_type("boolean")
    }

    fn optional() -> (r: bool) {
        false
    }
}

impl JsonSchema for char {
    open spec fn name() -> Option<Seq<char>> {
        None
    }

    open spec fn describe(g: Collected) -> SchemaModel {
        SchemaModel { min_length: Some(1), max_length: Some(1), ..SchemaModel::of_type("string"@) }
    }

    open spec fn collect(g: Collected) -> Collected {
        g
    }

    open spec fn may_be_absent() -> bool {
        false
    }

    proof fn only_adds(g: Collected) {
    }

    fn schema_name() -> (name: Option<String>) {
        None
    }

    fn json_schema(generator: &mut SchemaGenerator) -> (schema: Schema) {
        Schema { min_length: Some(1), max_length: Some(1), ..Schema::of_type("string") }
    }

    fn optional() -> (r: bool) {
        false
    }
}

impl JsonSchema for str {
    open spec fn name() -> Option<Seq<char>> {
        None
    }

    open spec fn describe(g: Collected) -> SchemaModel {
        SchemaModel::of_type("string"@)
    }

    open spec fn collect(g: Collected) -> Collected {
        g
    }

    open spec fn may_be_absent() -> bool {
        false
    }

    proof fn only_adds(g: Collected) {
    }

    fn schema_name() -> (name: Option<String>) {
        None
    }

    fn json_schema(generator: &mut SchemaGenerator) -> (schema: Schema) {
        Schema::of_type("string")
    }

    fn optional() -> (r: bool) {
        false
    }
}

impl JsonSchema for String {
    open spec fn name() -> Option<Seq<char>> {
        None
    }

    open spec fn describe(g: Collected) -> SchemaModel {
        SchemaModel::of_type("string"@)
    }

    open spec fn collect(g: Collected) -> Collected {
        g
    }

    open spec fn may_be_absent() -> bool {
        false
    }

    proof fn only_adds(g: Collected) {
    }

    fn schema_name() -> (name: Option<String>) {
        None
    }

    fn json_schema(generator: &mut SchemaGenerator) -> (schema: Schema) {
        Schema::of_type("string")
    }

    fn optional() -> (r: bool) {
        false
    }
}

impl JsonSchema for () {
    open spec fn name() -> Option<Seq<char>> {
        None
    }

    open spec fn describe(g: Collected) -> SchemaModel {
        SchemaModel::of_type("null"@)
    }

    open spec fn collect(g: Collected) -> Collected {
        g
    }

    open spec fn may_be_absent() -> bool {
        false
    }

    proof fn only_adds(g: Collected) {
    }

    fn schema_name() -> (name: Option<String>) {
        None
    }

    fn json_schema(generator: &mut SchemaGenerator) -> (schema: Schema) {
        Schema::of_type("null")
    }

    fn optional() -> (r: bool) {
        false
    }
}

impl JsonSchema for i8 {
    open spec fn name() -> Option<Seq<char>> {
        None
    }

    open spec fn describe(g: Collected) -> SchemaModel {
        bounded_int_model("int32"@, "-"@ + text::decimal(128), text::decimal(127))
    }

    open spec fn collect(g: Collected) -> Collected {
        g
    }

    open spec fn may_be_absent() -> bool {
        false
    }

    proof fn only_adds(g: Collected) {
    }

    fn schema_name() -> (name: Option<String>) {
        None
    }

    fn json_schema(generator: &mut SchemaGenerator) -> (schema: Schema) {
        bounded_int("int32", Number::negative(128), Number::from_u64(127))
    }

    fn optional() -> (r: bool) {
        false
    }
}

impl JsonSchema for i16 {
    open spec fn name() -> Option<Seq<char>> {
        None
    }

    open spec fn describe(g: Collected) -> SchemaModel {
        bounded_int_model("int32"@, "-"@ + text::decimal(32768), text::decimal(32767))
    }

    open spec fn collect(g: Collected) -> Collected {
        g
    }

    open spec fn may_be_absent() -> bool {
        false
    }

    proof fn only_adds(g: Collected) {
    }

    fn schema_name() -> (name: Option<String>) {
        None
    }

    fn json_schema(generator: &mut SchemaGenerator) -> (schema: Schema) {
        bounded_int("int32", Number::negative(32768), Number::from_u64(32767))
    }

    fn optional() -> (r: bool) {
        false
    }
}

impl JsonSchema for i32 {
    open spec fn name() -> Option<Seq<char>> {
        None
    }

    open spec fn describe(g: Collected) -> SchemaModel {
        SchemaModel::typed("integer"@, "int32"@)
    }

    open spec fn collect(g: Collected) -> Collected {
        g
    }

    open spec fn may_be_absent() -> bool {
        false
    }

    proof fn only_adds(g: Collected) {
    }

    fn schema_name() -> (name: Option<String>) {
        None
    }

    fn json_schema(generator: &mut SchemaGenerator) -> (schema: Schema) {
        Schema::typed("integer", "int32")
    }

    fn optional() -> (r: bool) {
        false
    }
}

impl JsonSchema for i64 {
    open spec fn name() -> Option<Seq<char>> {
        None
    }

    open spec fn describe(g: Collected) -> SchemaModel {
        SchemaModel::typed("integer"@, "int64"@)
    }

    open spec fn collect(g: Collected) -> Collected {
        g
    }

    open spec fn may_be_absent() -> bool {
        false
    }

    proof fn only_adds(g: Collected) {
    }

    fn schema_name() -> (name: Option<String>) {
        None
    }

    fn json_schema(generator: &mut SchemaGenerator) -> (schema: Schema) {
        Schema::typed("integer", "int64")
    }

    fn optional() -> (r: bool) {
        false
    }
}

impl JsonSchema for i128 {
    open spec fn name() -> Option<Seq<char>> {
        None
    }

    open spec fn describe(g: Collected) -> SchemaModel {
        SchemaModel::of_type("integer"@)
    }

    open spec fn collect(g: Collected) -> Collected {
        g
    }

    open spec fn may_be_absent() -> bool {
        false
    }

    proof fn only_adds(g: Collected) {
    }

    fn schema_name() -> (name: Option<String>) {
        None
    }

    fn json_schema(generator: &mut SchemaGenerator) -> (schema: Schema) {
        Schema::of_type("integer")
    }

    fn optional() -> (r: bool) {
        false
    }
}

impl JsonSchema for isize {
    open spec fn name() -> Option<Seq<char>> {
        None
    }

    open spec fn describe(g: Collected) -> SchemaModel {
        SchemaModel::typed("integer"@, "int64"@)
    }

    open spec fn collect(g: Collected) -> Collected {
        g
    }

    open spec fn may_be_absent() -> bool {
        false
    }

    proof fn only_adds(g: Collected) {
    }

    fn schema_name() -> (name: Option<String>) {
        None
    }

    fn json_schema(generator: &mut SchemaGenerator) -> (schema: Schema) {
        Schema::typed("integer", "int64")
    }

    fn optional() -> (r: bool) {
        false
    }
}

impl JsonSchema for u8 {
    open spec fn name() -> Option<Seq<char>> {
        None
    }

    open spec fn describe(g: Collected) -> SchemaModel {
        bounded_int_model("int32"@, text::decimal(0), text::decimal(255))
    }

    open spec fn collect(g: Collected) -> Collected {
        g
    }

    open spec fn may_be_absent() -> bool {
        false
    }

    proof fn only_adds(g: Collected) {
    }

    fn schema_name() -> (name: Option<String>) {
        None
    }

    fn json_schema(generator: &mut SchemaGenerator) -> (schema: Schema) {
        bounded_int("int32", Number::from_u64(0), Number::from_u64(255))
    }

    fn optional() -> (r: bool) {
        false
    }
}

impl JsonSchema for u16 {
    open spec fn name() -> Option<Seq<char>> {
        None
    }

    open spec fn describe(g: Collected) -> SchemaModel {
        bounded_int_model("int32"@, text::decimal(0), text::decimal(65535))
    }

    open spec fn collect(g: Collected) -> Collected {
        g
    }

    open spec fn may_be_absent() -> bool {
        false
    }

    proof fn only_adds(g: Collected) {
    }

    fn schema_name() -> (name: Option<String>) {
        None
    }

    fn json_schema(generator: &mut SchemaGenerator) -> (schema: Schema) {
        bounded_int("int32", Number::from_u64(0), Number::from_u64(65535))
    }

    fn optional() -> (r: bool) {
        false
    }
}

impl JsonSchema for u32 {
    open spec fn name() -> Option<Seq<char>> {
        None
    }

    open spec fn describe(g: Collected) -> SchemaModel {
        bounded_int_model("int64"@, text::decimal(0), text::decimal(4294967295))
    }

    open spec fn collect(g: Collected) -> Collected {
        g
    }

    open spec fn may_be_absent() -> bool {
        false
    }

    proof fn only_adds(g: Collected) {
    }

    fn schema_name() -> (name: Option<String>) {
        None
    }

    fn json_schema(generator: &mut SchemaGenerator) -> (schema: Schema) {
        bounded_int("int64", Number::from_u64(0), Number::from_u64(4294967295))
    }

    fn optional() -> (r: bool) {
        false
    }
}

impl JsonSchema for u64 {
    open spec fn name() -> Option<Seq<char>> {
        None
    }

    open spec fn describe(g: Collected) -> SchemaModel {
        SchemaModel { minimum: Some(text::decimal(0)), ..SchemaModel::typed("integer"@, "int64"@) }
    }

    open spec fn collect(g: Collected) -> Collected {
        g
    }

    open spec fn may_be_absent() -> bool {
        false
    }

    proof fn only_adds(g: Collected) {
    }

    fn schema_name() -> (name: Option<String>) {
        None
    }

    fn json_schema(generator: &mut SchemaGenerator) -> (schema: Schema) {
        Schema { minimum: Some(Number::from_u64(0)), ..Schema::typed("integer", "int64") }
    }

    fn optional() -> (r: bool) {
        false
    }
}

impl JsonSchema for u128 {
    open spec fn name() -> Option<Seq<char>> {
        None
    }

    open spec fn describe(g: Collected) -> SchemaModel {
        SchemaModel { minimum: Some(text::decimal(0)), ..SchemaModel::of_type("integer"@) }
    }

    open spec fn collect(g: Collected) -> Collected {
        g
    }

    open spec fn may_be_absent() -> bool {
        false
    }

    proof fn only_adds(g: Collected) {
    }

    fn schema_name() -> (name: Option<String>) {
        None
    }

    fn json_schema(generator: &mut SchemaGenerator) -> (schema: Schema) {
        Schema { minimum: Some(Number::from_u64(0)), ..Schema::of_type("integer") }
    }

    fn optional() -> (r: bool) {
        false
    }
}

impl JsonSchema for usize {
    open spec fn name() -> Option<Seq<char>> {
        None
    }

    open spec fn describe(g: Collected) -> SchemaModel {
        SchemaModel { minimum: Some(text::decimal(0)), ..SchemaModel::typed("integer"@, "int64"@) }
    }

    open spec fn collect(g: Collected) -> Collected {
        g
    }

    open spec fn may_be_absent() -> bool {
        false
    }

    proof fn only_adds(g: Collected) {
    }

    fn schema_name() -> (name: Option<String>) {
        None
    }

    fn json_schema(generator: &mut SchemaGenerator) -> (schema: Schema) {
        Schema { minimum: Some(Number::from_u64(0)), ..Schema::typed("integer", "int64") }
    }

    fn optional() -> (r: bool) {
        false
    }
}

impl JsonSchema for Value {
    open spec fn name() -> Option<Seq<char>> {
        None
    }

    open spec fn describe(g: Collected) -> SchemaModel {
        SchemaModel::any()
    }

    open spec fn collect(g: Collected) -> Collected {
        g
    }

    open spec fn may_be_absent() -> bool {
        false
    }

    proof fn only_adds(g: Collected) {
    }

    fn schema_name() -> (name: Option<String>) {
        None
    }

    fn json_schema(generator: &mut SchemaGenerator) -> (schema: Schema) {
        Schema::any()
    }

    fn optional() -> (r: bool) {
        false
    }
}

// ---- transparent wrappers -------------------------------------------------

impl<T: JsonSchema + ?Sized> JsonSchema for Box<T> {
    open spec fn name() -> Option<Seq<char>> {
        T::name()
    }

    open spec fn describe(g: Collected) -> SchemaModel {
        T::describe(g)
    }

    open spec fn collect(g: Collected) -> Collected {
        T::collect(g)
    }

    open spec fn may_be_absent() -> bool {
        T::may_be_absent()
    }

    proof fn only_adds(g: Collected) {
        T::only_adds(g);
    }

    fn schema_name() -> (name: Option<String>) {
        T::schema_name()
    }

    fn json_schema(generator: &mut SchemaGenerator) -> (schema: Schema) {
        T::json_schema(generator)
    }

    fn optional() -> (r: bool) {
        T::optional()
    }
}

impl<T: JsonSchema + ?Sized> JsonSchema for std::rc::Rc<T> {
    open spec fn name() -> Option<Seq<char>> {
        T::name()
    }

    open spec fn describe(g: Collected) -> SchemaModel {
        T::describe(g)
    }

    open spec fn collect(g: Collected) -> Collected {
        T::collect(g)
    }

    open spec fn may_be_absent() -> bool {
        T::may_be_absent()
    }

    proof fn only_adds(g: Collected) {
        T::only_adds(g);
    }

    fn schema_name() -> (name: Option<String>) {
        T::schema_name()
    }

    fn json_schema(generator: &mut SchemaGenerator) -> (schema: Schema) {
        T::json_schema(generator)
    }

    fn optional() -> (r: bool) {
        T::optional()
    }
}

impl<T: JsonSchema + ?Sized> JsonSchema for std::sync::Arc<T> {
    open spec fn name() -> Option<Seq<char>> {
        T::name()
    }

    open spec fn describe(g: Collected) -> SchemaModel {
        T::describe(g)
    }

    open spec fn collect(g: Collected) -> Collected {
        T::collect(g)
    }

    open spec fn may_be_absent() -> bool {
        T::may_be_absent()
    }

    proof fn only_adds(g: Collected) {
        T::only_adds(g);
    }

    fn schema_name() -> (name: Option<String>) {
        T::schema_name()
    }

    fn json_schema(generator: &mut SchemaGenerator) -> (schema: Schema) {
        T::json_schema(generator)
    }

    fn optional() -> (r: bool) {
        T::optional()
    }
}

/// Deliberately anonymous: `Option<T>` is a use-site modifier, not a distinct
/// component. Nullability is expressed inline.
impl<T: JsonSchema> JsonSchema for Option<T> {
    open spec fn name() -> Option<Seq<char>> {
        None
    }

    open spec fn describe(g: Collected) -> SchemaModel {
        gen::used::<T>(g).nullable()
    }

    open spec fn collect(g: Collected) -> Collected {
        gen::used_collect::<T>(g)
    }

    open spec fn may_be_absent() -> bool {
        true
    }

    proof fn only_adds(g: Collected) {
        gen::using_a_type_only_adds::<T>(g);
    }

    fn schema_name() -> (name: Option<String>) {
        None
    }

    fn json_schema(generator: &mut SchemaGenerator) -> (schema: Schema) {
        generator.subschema_for::<T>().nullable()
    }

    fn optional() -> (r: bool) {
        true
    }
}

impl<T: JsonSchema, E> JsonSchema for Result<T, E> {
    open spec fn name() -> Option<Seq<char>> {
        None
    }

    open spec fn describe(g: Collected) -> SchemaModel {
        gen::used::<T>(g)
    }

    open spec fn collect(g: Collected) -> Collected {
        gen::used_collect::<T>(g)
    }

    open spec fn may_be_absent() -> bool {
        false
    }

    proof fn only_adds(g: Collected) {
        gen::using_a_type_only_adds::<T>(g);
    }

    fn schema_name() -> (name: Option<String>) {
        None
    }

    fn json_schema(generator: &mut SchemaGenerator) -> (schema: Schema) {
        generator.subschema_for::<T>()
    }

    fn optional() -> (r: bool) {
        false
    }
}

// ---- sequences ------------------------------------------------------------

impl<T: JsonSchema> JsonSchema for Vec<T> {
    open spec fn name() -> Option<Seq<char>> {
        None
    }

    open spec fn describe(g: Collected) -> SchemaModel {
        SchemaModel::array(gen::used::<T>(g))
    }

    open spec fn collect(g: Collected) -> Collected {
        gen::used_collect::<T>(g)
    }

    open spec fn may_be_absent() -> bool {
        false
    }

    proof fn only_adds(g: Collected) {
        gen::using_a_type_only_adds::<T>(g);
    }

    fn schema_name() -> (name: Option<String>) {
        None
    }

    fn json_schema(generator: &mut SchemaGenerator) -> (schema: Schema) {
        Schema::array(generator.subschema_for::<T>())
    }

    fn optional() -> (r: bool) {
        false
    }
}

impl<T: JsonSchema> JsonSchema for std::collections::VecDeque<T> {
    open spec fn name() -> Option<Seq<char>> {
        None
    }

    open spec fn describe(g: Collected) -> SchemaModel {
        SchemaModel::array(gen::used::<T>(g))
    }

    open spec fn collect(g: Collected) -> Collected {
        gen::used_collect::<T>(g)
    }

    open spec fn may_be_absent() -> bool {
        false
    }

    proof fn only_adds(g: Collected) {
        gen::using_a_type_only_adds::<T>(g);
    }

    fn schema_name() -> (name: Option<String>) {
        None
    }

    fn json_schema(generator: &mut SchemaGenerator) -> (schema: Schema) {
        Schema::array(generator.subschema_for::<T>())
    }

    fn optional() -> (r: bool) {
        false
    }
}

impl<T: JsonSchema> JsonSchema for std::collections::BTreeSet<T> {
    open spec fn name() -> Option<Seq<char>> {
        None
    }

    open spec fn describe(g: Collected) -> SchemaModel {
        SchemaModel { unique_items: Some(true), ..SchemaModel::array(gen::used::<T>(g)) }
    }

    open spec fn collect(g: Collected) -> Collected {
        gen::used_collect::<T>(g)
    }

    open spec fn may_be_absent() -> bool {
        false
    }

    proof fn only_adds(g: Collected) {
        gen::using_a_type_only_adds::<T>(g);
    }

    fn schema_name() -> (name: Option<String>) {
        None
    }

    fn json_schema(generator: &mut SchemaGenerator) -> (schema: Schema) {
        let items = generator.subschema_for::<T>();
        Schema { unique_items: Some(true), ..Schema::array(items) }
    }

    fn optional() -> (r: bool) {
        false
    }
}

impl<T: JsonSchema, S> JsonSchema for std::collections::HashSet<T, S> {
    open spec fn name() -> Option<Seq<char>> {
        None
    }

    open spec fn describe(g: Collected) -> SchemaModel {
        SchemaModel { unique_items: Some(true), ..SchemaModel::array(gen::used::<T>(g)) }
    }

    open spec fn collect(g: Collected) -> Collected {
        gen::used_collect::<T>(g)
    }

    open spec fn may_be_absent() -> bool {
        false
    }

    proof fn only_adds(g: Collected) {
        gen::using_a_type_only_adds::<T>(g);
    }

    fn schema_name() -> (name: Option<String>) {
        None
    }

    fn json_schema(generator: &mut SchemaGenerator) -> (schema: Schema) {
        let items = generator.subschema_for::<T>();
        Schema { unique_items: Some(true), ..Schema::array(items) }
    }

    fn optional() -> (r: bool) {
        false
    }
}

impl<T: JsonSchema, const N: usize> JsonSchema for [T; N] {
    open spec fn name() -> Option<Seq<char>> {
        None
    }

    open spec fn describe(g: Collected) -> SchemaModel {
        SchemaModel {
            min_items: Some(N as u64),
            max_items: Some(N as u64),
            ..SchemaModel::array(gen::used::<T>(g))
        }
    }

    open spec fn collect(g: Collected) -> Collected {
        gen::used_collect::<T>(g)
    }

    open spec fn may_be_absent() -> bool {
        false
    }

    proof fn only_adds(g: Collected) {
        gen::using_a_type_only_adds::<T>(g);
    }

    fn schema_name() -> (name: Option<String>) {
        None
    }

    fn json_schema(generator: &mut SchemaGenerator) -> (schema: Schema) {
        let items = generator.subschema_for::<T>();
        Schema { min_items: Some(N as u64), max_items: Some(N as u64), ..Schema::array(items) }
    }

    fn optional() -> (r: bool) {
        false
    }
}

// ---- maps -----------------------------------------------------------------
//
// Keys are always serialised as strings, so only the value type contributes to
// the schema.

impl<K, V: JsonSchema, S> JsonSchema for std::collections::HashMap<K, V, S> {
    open spec fn name() -> Option<Seq<char>> {
        None
    }

    open spec fn describe(g: Collected) -> SchemaModel {
        SchemaModel::map_of(gen::used::<V>(g))
    }

    open spec fn collect(g: Collected) -> Collected {
        gen::used_collect::<V>(g)
    }

    open spec fn may_be_absent() -> bool {
        false
    }

    proof fn only_adds(g: Collected) {
        gen::using_a_type_only_adds::<V>(g);
    }

    fn schema_name() -> (name: Option<String>) {
        None
    }

    fn json_schema(generator: &mut SchemaGenerator) -> (schema: Schema) {
        Schema::map_of(generator.subschema_for::<V>())
    }

    fn optional() -> (r: bool) {
        false
    }
}

impl<K, V: JsonSchema> JsonSchema for std::collections::BTreeMap<K, V> {
    open spec fn name() -> Option<Seq<char>> {
        None
    }

    open spec fn describe(g: Collected) -> SchemaModel {
        SchemaModel::map_of(gen::used::<V>(g))
    }

    open spec fn collect(g: Collected) -> Collected {
        gen::used_collect::<V>(g)
    }

    open spec fn may_be_absent() -> bool {
        false
    }

    proof fn only_adds(g: Collected) {
        gen::using_a_type_only_adds::<V>(g);
    }

    fn schema_name() -> (name: Option<String>) {
        None
    }

    fn json_schema(generator: &mut SchemaGenerator) -> (schema: Schema) {
        Schema::map_of(generator.subschema_for::<V>())
    }

    fn optional() -> (r: bool) {
        false
    }
}

impl<V: JsonSchema> JsonSchema for OrderedMap<V> {
    open spec fn name() -> Option<Seq<char>> {
        None
    }

    open spec fn describe(g: Collected) -> SchemaModel {
        SchemaModel::map_of(gen::used::<V>(g))
    }

    open spec fn collect(g: Collected) -> Collected {
        gen::used_collect::<V>(g)
    }

    open spec fn may_be_absent() -> bool {
        false
    }

    proof fn only_adds(g: Collected) {
        gen::using_a_type_only_adds::<V>(g);
    }

    fn schema_name() -> (name: Option<String>) {
        None
    }

    fn json_schema(generator: &mut SchemaGenerator) -> (schema: Schema) {
        Schema::map_of(generator.subschema_for::<V>())
    }

    fn optional() -> (r: bool) {
        false
    }
}

// ---- tuples ---------------------------------------------------------------

impl<T0: JsonSchema> JsonSchema for (T0,) {
    open spec fn name() -> Option<Seq<char>> {
        None
    }

    open spec fn describe(g: Collected) -> SchemaModel {
        tuple_model(seq![gen::used::<T0>(g)])
    }

    open spec fn collect(g: Collected) -> Collected {
        let g1 = gen::used_collect::<T0>(g);
        g1
    }

    open spec fn may_be_absent() -> bool {
        false
    }

    proof fn only_adds(g: Collected) {
        let g1 = gen::used_collect::<T0>(g);
        gen::using_a_type_only_adds::<T0>(g);
    }

    fn schema_name() -> (name: Option<String>) {
        None
    }

    fn json_schema(generator: &mut SchemaGenerator) -> (schema: Schema) {
        let ghost g = generator@;
        let mut items: Vec<Schema> = Vec::new();
        items.push(generator.subschema_for::<T0>());
        let ghost models = schema::list_model(items@);
        proof {
            schema::lemma_list_model(items@);
        }
        let out = tuple(items);
        assert(out@ =~= Self::describe(g)) by {
            assert(models =~= seq![gen::used::<T0>(g)]);
        }
        out
    }

    fn optional() -> (r: bool) {
        false
    }
}

impl<T0: JsonSchema, T1: JsonSchema> JsonSchema for (T0, T1,) {
    open spec fn name() -> Option<Seq<char>> {
        None
    }

    open spec fn describe(g: Collected) -> SchemaModel {
        let g1 = gen::used_collect::<T0>(g);
        tuple_model(seq![gen::used::<T0>(g), gen::used::<T1>(g1)])
    }

    open spec fn collect(g: Collected) -> Collected {
        let g1 = gen::used_collect::<T0>(g);
        let g2 = gen::used_collect::<T1>(g1);
        g2
    }

    open spec fn may_be_absent() -> bool {
        false
    }

    proof fn only_adds(g: Collected) {
        let g1 = gen::used_collect::<T0>(g);
        gen::using_a_type_only_adds::<T0>(g);
        let g2 = gen::used_collect::<T1>(g1);
        gen::using_a_type_only_adds::<T1>(g1);
        lemma_extends(g, g1, g2);
    }

    fn schema_name() -> (name: Option<String>) {
        None
    }

    fn json_schema(generator: &mut SchemaGenerator) -> (schema: Schema) {
        let ghost g = generator@;
        let mut items: Vec<Schema> = Vec::new();
        items.push(generator.subschema_for::<T0>());
        items.push(generator.subschema_for::<T1>());
        let ghost models = schema::list_model(items@);
        proof {
            schema::lemma_list_model(items@);
        }
        let out = tuple(items);
        assert(out@ =~= Self::describe(g)) by {
            let g1 = gen::used_collect::<T0>(g);
            assert(models =~= seq![gen::used::<T0>(g), gen::used::<T1>(g1)]);
        }
        out
    }

    fn optional() -> (r: bool) {
        false
    }
}

impl<T0: JsonSchema, T1: JsonSchema, T2: JsonSchema> JsonSchema for (T0, T1, T2,) {
    open spec fn name() -> Option<Seq<char>> {
        None
    }

    open spec fn describe(g: Collected) -> SchemaModel {
        let g1 = gen::used_collect::<T0>(g);
        let g2 = gen::used_collect::<T1>(g1);
        tuple_model(seq![gen::used::<T0>(g), gen::used::<T1>(g1), gen::used::<T2>(g2)])
    }

    open spec fn collect(g: Collected) -> Collected {
        let g1 = gen::used_collect::<T0>(g);
        let g2 = gen::used_collect::<T1>(g1);
        let g3 = gen::used_collect::<T2>(g2);
        g3
    }

    open spec fn may_be_absent() -> bool {
        false
    }

    proof fn only_adds(g: Collected) {
        let g1 = gen::used_collect::<T0>(g);
        gen::using_a_type_only_adds::<T0>(g);
        let g2 = gen::used_collect::<T1>(g1);
        gen::using_a_type_only_adds::<T1>(g1);
        lemma_extends(g, g1, g2);
        let g3 = gen::used_collect::<T2>(g2);
        gen::using_a_type_only_adds::<T2>(g2);
        lemma_extends(g, g2, g3);
    }

    fn schema_name() -> (name: Option<String>) {
        None
    }

    fn json_schema(generator: &mut SchemaGenerator) -> (schema: Schema) {
        let ghost g = generator@;
        let mut items: Vec<Schema> = Vec::new();
        items.push(generator.subschema_for::<T0>());
        items.push(generator.subschema_for::<T1>());
        items.push(generator.subschema_for::<T2>());
        let ghost models = schema::list_model(items@);
        proof {
            schema::lemma_list_model(items@);
        }
        let out = tuple(items);
        assert(out@ =~= Self::describe(g)) by {
            let g1 = gen::used_collect::<T0>(g);
            let g2 = gen::used_collect::<T1>(g1);
            assert(models =~= seq![gen::used::<T0>(g), gen::used::<T1>(g1), gen::used::<T2>(g2)]);
        }
        out
    }

    fn optional() -> (r: bool) {
        false
    }
}

impl<T0: JsonSchema, T1: JsonSchema, T2: JsonSchema, T3: JsonSchema> JsonSchema for (T0, T1, T2, T3,) {
    open spec fn name() -> Option<Seq<char>> {
        None
    }

    open spec fn describe(g: Collected) -> SchemaModel {
        let g1 = gen::used_collect::<T0>(g);
        let g2 = gen::used_collect::<T1>(g1);
        let g3 = gen::used_collect::<T2>(g2);
        tuple_model(seq![gen::used::<T0>(g), gen::used::<T1>(g1), gen::used::<T2>(g2), gen::used::<T3>(g3)])
    }

    open spec fn collect(g: Collected) -> Collected {
        let g1 = gen::used_collect::<T0>(g);
        let g2 = gen::used_collect::<T1>(g1);
        let g3 = gen::used_collect::<T2>(g2);
        let g4 = gen::used_collect::<T3>(g3);
        g4
    }

    open spec fn may_be_absent() -> bool {
        false
    }

    proof fn only_adds(g: Collected) {
        let g1 = gen::used_collect::<T0>(g);
        gen::using_a_type_only_adds::<T0>(g);
        let g2 = gen::used_collect::<T1>(g1);
        gen::using_a_type_only_adds::<T1>(g1);
        lemma_extends(g, g1, g2);
        let g3 = gen::used_collect::<T2>(g2);
        gen::using_a_type_only_adds::<T2>(g2);
        lemma_extends(g, g2, g3);
        let g4 = gen::used_collect::<T3>(g3);
        gen::using_a_type_only_adds::<T3>(g3);
        lemma_extends(g, g3, g4);
    }

    fn schema_name() -> (name: Option<String>) {
        None
    }

    fn json_schema(generator: &mut SchemaGenerator) -> (schema: Schema) {
        let ghost g = generator@;
        let mut items: Vec<Schema> = Vec::new();
        items.push(generator.subschema_for::<T0>());
        items.push(generator.subschema_for::<T1>());
        items.push(generator.subschema_for::<T2>());
        items.push(generator.subschema_for::<T3>());
        let ghost models = schema::list_model(items@);
        proof {
            schema::lemma_list_model(items@);
        }
        let out = tuple(items);
        assert(out@ =~= Self::describe(g)) by {
            let g1 = gen::used_collect::<T0>(g);
            let g2 = gen::used_collect::<T1>(g1);
            let g3 = gen::used_collect::<T2>(g2);
            assert(models =~= seq![gen::used::<T0>(g), gen::used::<T1>(g1), gen::used::<T2>(g2), gen::used::<T3>(g3)]);
        }
        out
    }

    fn optional() -> (r: bool) {
        false
    }
}

impl<T0: JsonSchema, T1: JsonSchema, T2: JsonSchema, T3: JsonSchema, T4: JsonSchema> JsonSchema for (T0, T1, T2, T3, T4,) {
    open spec fn name() -> Option<Seq<char>> {
        None
    }

    open spec fn describe(g: Collected) -> SchemaModel {
        let g1 = gen::used_collect::<T0>(g);
        let g2 = gen::used_collect::<T1>(g1);
        let g3 = gen::used_collect::<T2>(g2);
        let g4 = gen::used_collect::<T3>(g3);
        tuple_model(seq![gen::used::<T0>(g), gen::used::<T1>(g1), gen::used::<T2>(g2), gen::used::<T3>(g3), gen::used::<T4>(g4)])
    }

    open spec fn collect(g: Collected) -> Collected {
        let g1 = gen::used_collect::<T0>(g);
        let g2 = gen::used_collect::<T1>(g1);
        let g3 = gen::used_collect::<T2>(g2);
        let g4 = gen::used_collect::<T3>(g3);
        let g5 = gen::used_collect::<T4>(g4);
        g5
    }

    open spec fn may_be_absent() -> bool {
        false
    }

    proof fn only_adds(g: Collected) {
        let g1 = gen::used_collect::<T0>(g);
        gen::using_a_type_only_adds::<T0>(g);
        let g2 = gen::used_collect::<T1>(g1);
        gen::using_a_type_only_adds::<T1>(g1);
        lemma_extends(g, g1, g2);
        let g3 = gen::used_collect::<T2>(g2);
        gen::using_a_type_only_adds::<T2>(g2);
        lemma_extends(g, g2, g3);
        let g4 = gen::used_collect::<T3>(g3);
        gen::using_a_type_only_adds::<T3>(g3);
        lemma_extends(g, g3, g4);
        let g5 = gen::used_collect::<T4>(g4);
        gen::using_a_type_only_adds::<T4>(g4);
        lemma_extends(g, g4, g5);
    }

    fn schema_name() -> (name: Option<String>) {
        None
    }

    fn json_schema(generator: &mut SchemaGenerator) -> (schema: Schema) {
        let ghost g = generator@;
        let mut items: Vec<Schema> = Vec::new();
        items.push(generator.subschema_for::<T0>());
        items.push(generator.subschema_for::<T1>());
        items.push(generator.subschema_for::<T2>());
        items.push(generator.subschema_for::<T3>());
        items.push(generator.subschema_for::<T4>());
        let ghost models = schema::list_model(items@);
        proof {
            schema::lemma_list_model(items@);
        }
        let out = tuple(items);
        assert(out@ =~= Self::describe(g)) by {
            let g1 = gen::used_collect::<T0>(g);
            let g2 = gen::used_collect::<T1>(g1);
            let g3 = gen::used_collect::<T2>(g2);
            let g4 = gen::used_collect::<T3>(g3);
            assert(models =~= seq![gen::used::<T0>(g), gen::used::<T1>(g1), gen::used::<T2>(g2), gen::used::<T3>(g3), gen::used::<T4>(g4)]);
        }
        out
    }

    fn optional() -> (r: bool) {
        false
    }
}

impl<T0: JsonSchema, T1: JsonSchema, T2: JsonSchema, T3: JsonSchema, T4: JsonSchema, T5: JsonSchema> JsonSchema for (T0, T1, T2, T3, T4, T5,) {
    open spec fn name() -> Option<Seq<char>> {
        None
    }

    open spec fn describe(g: Collected) -> SchemaModel {
        let g1 = gen::used_collect::<T0>(g);
        let g2 = gen::used_collect::<T1>(g1);
        let g3 = gen::used_collect::<T2>(g2);
        let g4 = gen::used_collect::<T3>(g3);
        let g5 = gen::used_collect::<T4>(g4);
        tuple_model(seq![gen::used::<T0>(g), gen::used::<T1>(g1), gen::used::<T2>(g2), gen::used::<T3>(g3), gen::used::<T4>(g4), gen::used::<T5>(g5)])
    }

    open spec fn collect(g: Collected) -> Collected {
        let g1 = gen::used_collect::<T0>(g);
        let g2 = gen::used_collect::<T1>(g1);
        let g3 = gen::used_collect::<T2>(g2);
        let g4 = gen::used_collect::<T3>(g3);
        let g5 = gen::used_collect::<T4>(g4);
        let g6 = gen::used_collect::<T5>(g5);
        g6
    }

    open spec fn may_be_absent() -> bool {
        false
    }

    proof fn only_adds(g: Collected) {
        let g1 = gen::used_collect::<T0>(g);
        gen::using_a_type_only_adds::<T0>(g);
        let g2 = gen::used_collect::<T1>(g1);
        gen::using_a_type_only_adds::<T1>(g1);
        lemma_extends(g, g1, g2);
        let g3 = gen::used_collect::<T2>(g2);
        gen::using_a_type_only_adds::<T2>(g2);
        lemma_extends(g, g2, g3);
        let g4 = gen::used_collect::<T3>(g3);
        gen::using_a_type_only_adds::<T3>(g3);
        lemma_extends(g, g3, g4);
        let g5 = gen::used_collect::<T4>(g4);
        gen::using_a_type_only_adds::<T4>(g4);
        lemma_extends(g, g4, g5);
        let g6 = gen::used_collect::<T5>(g5);
        gen::using_a_type_only_adds::<T5>(g5);
        lemma_extends(g, g5, g6);
    }

    fn schema_name() -> (name: Option<String>) {
        None
    }

    fn json_schema(generator: &mut SchemaGenerator) -> (schema: Schema) {
        let ghost g = generator@;
        let mut items: Vec<Schema> = Vec::new();
        items.push(generator.subschema_for::<T0>());
        items.push(generator.subschema_for::<T1>());
        items.push(generator.subschema_for::<T2>());
        items.push(generator.subschema_for::<T3>());
        items.push(generator.subschema_for::<T4>());
        items.push(generator.subschema_for::<T5>());
        let ghost models = schema::list_model(items@);
        proof {
            schema::lemma_list_model(items@);
        }
        let out = tuple(items);
        assert(out@ =~= Self::describe(g)) by {
            let g1 = gen::used_collect::<T0>(g);
            let g2 = gen::used_collect::<T1>(g1);
            let g3 = gen::used_collect::<T2>(g2);
            let g4 = gen::used_collect::<T3>(g3);
            let g5 = gen::used_collect::<T4>(g4);
            assert(models =~= seq![gen::used::<T0>(g), gen::used::<T1>(g1), gen::used::<T2>(g2), gen::used::<T3>(g3), gen::used::<T4>(g4), gen::used::<T5>(g5)]);
        }
        out
    }

    fn optional() -> (r: bool) {
        false
    }
}

impl<T0: JsonSchema, T1: JsonSchema, T2: JsonSchema, T3: JsonSchema, T4: JsonSchema, T5: JsonSchema, T6: JsonSchema> JsonSchema for (T0, T1, T2, T3, T4, T5, T6,) {
    open spec fn name() -> Option<Seq<char>> {
        None
    }

    open spec fn describe(g: Collected) -> SchemaModel {
        let g1 = gen::used_collect::<T0>(g);
        let g2 = gen::used_collect::<T1>(g1);
        let g3 = gen::used_collect::<T2>(g2);
        let g4 = gen::used_collect::<T3>(g3);
        let g5 = gen::used_collect::<T4>(g4);
        let g6 = gen::used_collect::<T5>(g5);
        tuple_model(seq![gen::used::<T0>(g), gen::used::<T1>(g1), gen::used::<T2>(g2), gen::used::<T3>(g3), gen::used::<T4>(g4), gen::used::<T5>(g5), gen::used::<T6>(g6)])
    }

    open spec fn collect(g: Collected) -> Collected {
        let g1 = gen::used_collect::<T0>(g);
        let g2 = gen::used_collect::<T1>(g1);
        let g3 = gen::used_collect::<T2>(g2);
        let g4 = gen::used_collect::<T3>(g3);
        let g5 = gen::used_collect::<T4>(g4);
        let g6 = gen::used_collect::<T5>(g5);
        let g7 = gen::used_collect::<T6>(g6);
        g7
    }

    open spec fn may_be_absent() -> bool {
        false
    }

    proof fn only_adds(g: Collected) {
        let g1 = gen::used_collect::<T0>(g);
        gen::using_a_type_only_adds::<T0>(g);
        let g2 = gen::used_collect::<T1>(g1);
        gen::using_a_type_only_adds::<T1>(g1);
        lemma_extends(g, g1, g2);
        let g3 = gen::used_collect::<T2>(g2);
        gen::using_a_type_only_adds::<T2>(g2);
        lemma_extends(g, g2, g3);
        let g4 = gen::used_collect::<T3>(g3);
        gen::using_a_type_only_adds::<T3>(g3);
        lemma_extends(g, g3, g4);
        let g5 = gen::used_collect::<T4>(g4);
        gen::using_a_type_only_adds::<T4>(g4);
        lemma_extends(g, g4, g5);
        let g6 = gen::used_collect::<T5>(g5);
        gen::using_a_type_only_adds::<T5>(g5);
        lemma_extends(g, g5, g6);
        let g7 = gen::used_collect::<T6>(g6);
        gen::using_a_type_only_adds::<T6>(g6);
        lemma_extends(g, g6, g7);
    }

    fn schema_name() -> (name: Option<String>) {
        None
    }

    fn json_schema(generator: &mut SchemaGenerator) -> (schema: Schema) {
        let ghost g = generator@;
        let mut items: Vec<Schema> = Vec::new();
        items.push(generator.subschema_for::<T0>());
        items.push(generator.subschema_for::<T1>());
        items.push(generator.subschema_for::<T2>());
        items.push(generator.subschema_for::<T3>());
        items.push(generator.subschema_for::<T4>());
        items.push(generator.subschema_for::<T5>());
        items.push(generator.subschema_for::<T6>());
        let ghost models = schema::list_model(items@);
        proof {
            schema::lemma_list_model(items@);
        }
        let out = tuple(items);
        assert(out@ =~= Self::describe(g)) by {
            let g1 = gen::used_collect::<T0>(g);
            let g2 = gen::used_collect::<T1>(g1);
            let g3 = gen::used_collect::<T2>(g2);
            let g4 = gen::used_collect::<T3>(g3);
            let g5 = gen::used_collect::<T4>(g4);
            let g6 = gen::used_collect::<T5>(g5);
            assert(models =~= seq![gen::used::<T0>(g), gen::used::<T1>(g1), gen::used::<T2>(g2), gen::used::<T3>(g3), gen::used::<T4>(g4), gen::used::<T5>(g5), gen::used::<T6>(g6)]);
        }
        out
    }

    fn optional() -> (r: bool) {
        false
    }
}

impl<T0: JsonSchema, T1: JsonSchema, T2: JsonSchema, T3: JsonSchema, T4: JsonSchema, T5: JsonSchema, T6: JsonSchema, T7: JsonSchema> JsonSchema for (T0, T1, T2, T3, T4, T5, T6, T7,) {
    open spec fn name() -> Option<Seq<char>> {
        None
    }

    open spec fn describe(g: Collected) -> SchemaModel {
        let g1 = gen::used_collect::<T0>(g);
        let g2 = gen::used_collect::<T1>(g1);
        let g3 = gen::used_collect::<T2>(g2);
        let g4 = gen::used_collect::<T3>(g3);
        let g5 = gen::used_collect::<T4>(g4);
        let g6 = gen::used_collect::<T5>(g5);
        let g7 = gen::used_collect::<T6>(g6);
        tuple_model(seq![gen::used::<T0>(g), gen::used::<T1>(g1), gen::used::<T2>(g2), gen::used::<T3>(g3), gen::used::<T4>(g4), gen::used::<T5>(g5), gen::used::<T6>(g6), gen::used::<T7>(g7)])
    }

    open spec fn collect(g: Collected) -> Collected {
        let g1 = gen::used_collect::<T0>(g);
        let g2 = gen::used_collect::<T1>(g1);
        let g3 = gen::used_collect::<T2>(g2);
        let g4 = gen::used_collect::<T3>(g3);
        let g5 = gen::used_collect::<T4>(g4);
        let g6 = gen::used_collect::<T5>(g5);
        let g7 = gen::used_collect::<T6>(g6);
        let g8 = gen::used_collect::<T7>(g7);
        g8
    }

    open spec fn may_be_absent() -> bool {
        false
    }

    proof fn only_adds(g: Collected) {
        let g1 = gen::used_collect::<T0>(g);
        gen::using_a_type_only_adds::<T0>(g);
        let g2 = gen::used_collect::<T1>(g1);
        gen::using_a_type_only_adds::<T1>(g1);
        lemma_extends(g, g1, g2);
        let g3 = gen::used_collect::<T2>(g2);
        gen::using_a_type_only_adds::<T2>(g2);
        lemma_extends(g, g2, g3);
        let g4 = gen::used_collect::<T3>(g3);
        gen::using_a_type_only_adds::<T3>(g3);
        lemma_extends(g, g3, g4);
        let g5 = gen::used_collect::<T4>(g4);
        gen::using_a_type_only_adds::<T4>(g4);
        lemma_extends(g, g4, g5);
        let g6 = gen::used_collect::<T5>(g5);
        gen::using_a_type_only_adds::<T5>(g5);
        lemma_extends(g, g5, g6);
        let g7 = gen::used_collect::<T6>(g6);
        gen::using_a_type_only_adds::<T6>(g6);
        lemma_extends(g, g6, g7);
        let g8 = gen::used_collect::<T7>(g7);
        gen::using_a_type_only_adds::<T7>(g7);
        lemma_extends(g, g7, g8);
    }

    fn schema_name() -> (name: Option<String>) {
        None
    }

    fn json_schema(generator: &mut SchemaGenerator) -> (schema: Schema) {
        let ghost g = generator@;
        let mut items: Vec<Schema> = Vec::new();
        items.push(generator.subschema_for::<T0>());
        items.push(generator.subschema_for::<T1>());
        items.push(generator.subschema_for::<T2>());
        items.push(generator.subschema_for::<T3>());
        items.push(generator.subschema_for::<T4>());
        items.push(generator.subschema_for::<T5>());
        items.push(generator.subschema_for::<T6>());
        items.push(generator.subschema_for::<T7>());
        let ghost models = schema::list_model(items@);
        proof {
            schema::lemma_list_model(items@);
        }
        let out = tuple(items);
        assert(out@ =~= Self::describe(g)) by {
            let g1 = gen::used_collect::<T0>(g);
            let g2 = gen::used_collect::<T1>(g1);
            let g3 = gen::used_collect::<T2>(g2);
            let g4 = gen::used_collect::<T3>(g3);
            let g5 = gen::used_collect::<T4>(g4);
            let g6 = gen::used_collect::<T5>(g5);
            let g7 = gen::used_collect::<T6>(g6);
            assert(models =~= seq![gen::used::<T0>(g), gen::used::<T1>(g1), gen::used::<T2>(g2), gen::used::<T3>(g3), gen::used::<T4>(g4), gen::used::<T5>(g5), gen::used::<T6>(g6), gen::used::<T7>(g7)]);
        }
        out
    }

    fn optional() -> (r: bool) {
        false
    }
}

} // verus!
