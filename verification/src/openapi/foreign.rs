//! Schemas of types from elsewhere.

use crate::json;
use crate::json::{Number, Value, ValueModel};
use crate::openapi::gen;
use crate::openapi::gen::{Collected, JsonSchema, SchemaGenerator};
use crate::openapi::schema::{Schema, SchemaModel};
use indexmap::IndexMap;
use vstd::prelude::*;
use vstd::string::*;

verus! {

/// A path that is owned.
#[verifier::external_type_specification]
#[verifier::external_body]
pub struct ExPathBuf(std::path::PathBuf);

/// A cell that is borrowed at run time.
#[verifier::external_type_specification]
#[verifier::external_body]
#[verifier::reject_recursive_types(T)]
pub struct ExRefCell<T: ?Sized>(std::cell::RefCell<T>);

/// A value behind a lock.
#[verifier::external_type_specification]
#[verifier::external_body]
#[verifier::reject_recursive_types(T)]
pub struct ExMutex<T: ?Sized>(std::sync::Mutex<T>);

/// An identifier of the `uuid` crate.
#[verifier::external_type_specification]
#[verifier::external_body]
pub struct ExUuid(uuid::Uuid);

/// A date of the `chrono` crate.
#[verifier::external_type_specification]
#[verifier::external_body]
pub struct ExNaiveDate(chrono::NaiveDate);

/// A time of day of the `chrono` crate.
#[verifier::external_type_specification]
#[verifier::external_body]
pub struct ExNaiveTime(chrono::NaiveTime);

/// A date with a time of day of the `chrono` crate.
#[verifier::external_type_specification]
#[verifier::external_body]
pub struct ExNaiveDateTime(chrono::NaiveDateTime);

/// A JSON object of the `serde_json` crate.
#[verifier::external_type_specification]
#[verifier::external_body]
#[verifier::reject_recursive_types(K)]
#[verifier::reject_recursive_types(V)]
pub struct ExObject<K, V>(serde_json::Map<K, V>);

impl<K, V> JsonSchema for serde_json::Map<K, V> {
    open spec fn describe(g: Collected) -> SchemaModel {
        SchemaModel::of_type("object"@)
    }

    proof fn only_adds(g: Collected) {
    }

    fn schema_name() -> (name: Option<String>) {
        None
    }

    fn json_schema(generator: &mut SchemaGenerator) -> (schema: Schema) {
        Schema::of_type("object")
    }

    fn optional() -> (r: bool) {
        false
    }
}

impl JsonSchema for std::path::PathBuf {
    open spec fn describe(g: Collected) -> SchemaModel {
        SchemaModel::of_type("string"@)
    }

    proof fn only_adds(g: Collected) {
    }

    fn schema_name() -> (name: Option<String>) {
        None
    }

    fn json_schema(generator: &mut SchemaGenerator) -> (schema: Schema) {
        Schema::of_type("string")
    }

    fn optional() -> (r: bool) {
        false
    }
}

impl JsonSchema for std::time::Duration {
    open spec fn describe(g: Collected) -> SchemaModel {
        SchemaModel {
            minimum: Some("0"@),
            description: Some("Duration in seconds"@),
            ..SchemaModel::typed("number"@, "double"@)
        }
    }

    proof fn only_adds(g: Collected) {
    }

    fn schema_name() -> (name: Option<String>) {
        None
    }

    fn json_schema(generator: &mut SchemaGenerator) -> (schema: Schema) {
        Schema {
            minimum: Some(Number { text: "0".to_owned() }),
            description: Some("Duration in seconds".to_owned()),
            ..Schema::typed("number", "double")
        }
    }

    fn optional() -> (r: bool) {
        false
    }
}

impl JsonSchema for uuid::Uuid {
    open spec fn describe(g: Collected) -> SchemaModel {
        SchemaModel {
            examples: seq![ValueModel::String("f8c9d1e2-3a4b-4c5d-8e9f-0a1b2c3d4e5f"@)],
            ..SchemaModel::typed("string"@, "uuid"@)
        }
    }

    proof fn only_adds(g: Collected) {
    }

    fn schema_name() -> (name: Option<String>) {
        None
    }

    fn json_schema(generator: &mut SchemaGenerator) -> (schema: Schema) {
        let example = Value::String("f8c9d1e2-3a4b-4c5d-8e9f-0a1b2c3d4e5f".to_owned());
        let mut examples: Vec<Value> = Vec::new();
        examples.push(example);
        proof {
            json::lemma_list_model(examples@);
        }
        assert(json::list_model(examples@) =~= seq![
            ValueModel::String("f8c9d1e2-3a4b-4c5d-8e9f-0a1b2c3d4e5f"@),
        ]);
        Schema { examples, ..Schema::typed("string", "uuid") }
    }

    fn optional() -> (r: bool) {
        false
    }
}

impl JsonSchema for chrono::NaiveDate {
    open spec fn describe(g: Collected) -> SchemaModel {
        SchemaModel::typed("string"@, "date"@)
    }

    proof fn only_adds(g: Collected) {
    }

    fn schema_name() -> (name: Option<String>) {
        None
    }

    fn json_schema(generator: &mut SchemaGenerator) -> (schema: Schema) {
        Schema::typed("string", "date")
    }

    fn optional() -> (r: bool) {
        false
    }
}

impl JsonSchema for chrono::NaiveTime {
    open spec fn describe(g: Collected) -> SchemaModel {
        SchemaModel::typed("string"@, "time"@)
    }

    proof fn only_adds(g: Collected) {
    }

    fn schema_name() -> (name: Option<String>) {
        None
    }

    fn json_schema(generator: &mut SchemaGenerator) -> (schema: Schema) {
        Schema::typed("string", "time")
    }

    fn optional() -> (r: bool) {
        false
    }
}

impl JsonSchema for chrono::NaiveDateTime {
    open spec fn describe(g: Collected) -> SchemaModel {
        SchemaModel::typed("string"@, "date-time"@)
    }

    proof fn only_adds(g: Collected) {
    }

    fn schema_name() -> (name: Option<String>) {
        None
    }

    fn json_schema(generator: &mut SchemaGenerator) -> (schema: Schema) {
        Schema::typed("string", "date-time")
    }

    fn optional() -> (r: bool) {
        false
    }
}

impl<'a, T: JsonSchema + ToOwned + ?Sized> JsonSchema for std::borrow::Cow<'a, T> {
    open spec fn name() -> Option<Seq<char>> {
        T::name()
    }

    open spec fn describe(g: Collected) -> SchemaModel {
        T::describe(g)
    }

    open spec fn collect(g: Collected) -> Collected {
        T::collect(g)
    }

    open spec fn may_be_absent() -> bool {
        T::may_be_absent()
    }

    proof fn only_adds(g: Collected) {
        T::only_adds(g);
    }

    fn schema_name() -> (name: Option<String>) {
        T::schema_name()
    }

    fn json_schema(generator: &mut SchemaGenerator) -> (schema: Schema) {
        T::json_schema(generator)
    }

    fn optional() -> (r: bool) {
        T::optional()
    }
}

impl<T: JsonSchema + ?Sized> JsonSchema for std::cell::RefCell<T> {
    open spec fn name() -> Option<Seq<char>> {
        T::name()
    }

    open spec fn describe(g: Collected) -> SchemaModel {
        T::describe(g)
    }

    open spec fn collect(g: Collected) -> Collected {
        T::collect(g)
    }

    open spec fn may_be_absent() -> bool {
        T::may_be_absent()
    }

    proof fn only_adds(g: Collected) {
        T::only_adds(g);
    }

    fn schema_name() -> (name: Option<String>) {
        T::schema_name()
    }

    fn json_schema(generator: &mut SchemaGenerator) -> (schema: Schema) {
        T::json_schema(generator)
    }

    fn optional() -> (r: bool) {
        T::optional()
    }
}

impl<T: JsonSchema + ?Sized> JsonSchema for std::sync::Mutex<T> {
    open spec fn name() -> Option<Seq<char>> {
        T::name()
    }

    open spec fn describe(g: Collected) -> SchemaModel {
        T::describe(g)
    }

    open spec fn collect(g: Collected) -> Collected {
        T::collect(g)
    }

    open spec fn may_be_absent() -> bool {
        T::may_be_absent()
    }

    proof fn only_adds(g: Collected) {
        T::only_adds(g);
    }

    fn schema_name() -> (name: Option<String>) {
        T::schema_name()
    }

    fn json_schema(generator: &mut SchemaGenerator) -> (schema: Schema) {
        T::json_schema(generator)
    }

    fn optional() -> (r: bool) {
        T::optional()
    }
}

impl<T: JsonSchema> JsonSchema for [T] {
    open spec fn describe(g: Collected) -> SchemaModel {
        SchemaModel::array(gen::used::<T>(g))
    }

    open spec fn collect(g: Collected) -> Collected {
        gen::used_collect::<T>(g)
    }

    proof fn only_adds(g: Collected) {
        gen::using_a_type_only_adds::<T>(g);
    }

    fn schema_name() -> (name: Option<String>) {
        None
    }

    fn json_schema(generator: &mut SchemaGenerator) -> (schema: Schema) {
        Schema::array(generator.subschema_for::<T>())
    }

    fn optional() -> (r: bool) {
        false
    }
}

impl<K, V: JsonSchema, S> JsonSchema for IndexMap<K, V, S> {
    open spec fn describe(g: Collected) -> SchemaModel {
        SchemaModel::map_of(gen::used::<V>(g))
    }

    open spec fn collect(g: Collected) -> Collected {
        gen::used_collect::<V>(g)
    }

    proof fn only_adds(g: Collected) {
        gen::using_a_type_only_adds::<V>(g);
    }

    fn schema_name() -> (name: Option<String>) {
        None
    }

    fn json_schema(generator: &mut SchemaGenerator) -> (schema: Schema) {
        Schema::map_of(generator.subschema_for::<V>())
    }

    fn optional() -> (r: bool) {
        false
    }
}

/// A scalar that is described here for types that are defined elsewhere.
pub enum Scalar {
    /// A number in single precision.
    Float,
    /// A number in double precision.
    Double,
    Ip,
    Ipv4,
    Ipv6,
    /// A point in time.
    DateTime,
}

impl Scalar {
    pub open spec fn model(self) -> SchemaModel {
        match self {
            Scalar::Float => SchemaModel::typed("number"@, "float"@),
            Scalar::Double => SchemaModel::typed("number"@, "double"@),
            Scalar::Ip => SchemaModel::typed("string"@, "ip"@),
            Scalar::Ipv4 => SchemaModel::typed("string"@, "ipv4"@),
            Scalar::Ipv6 => SchemaModel::typed("string"@, "ipv6"@),
            Scalar::DateTime => SchemaModel::typed("string"@, "date-time"@),
        }
    }

    /// The schema of the scalar.
    pub fn schema(self) -> (out: Schema)
        ensures
            out@ == self.model(),
    {
        match self {
            Scalar::Float => Schema::typed("number", "float"),
            Scalar::Double => Schema::typed("number", "double"),
            Scalar::Ip => Schema::typed("string", "ip"),
            Scalar::Ipv4 => Schema::typed("string", "ipv4"),
            Scalar::Ipv6 => Schema::typed("string", "ipv6"),
            Scalar::DateTime => Schema::typed("string", "date-time"),
        }
    }
}

/// An integer schema without zero: from one up where the integer is unsigned,
/// and anything but zero where it is not.
pub open spec fn without_zero(inner: SchemaModel, signed: bool) -> SchemaModel {
    if signed {
        SchemaModel {
            not: Some(
                Box::new(
                    SchemaModel {
                        const_value: Some(ValueModel::Number("0"@)),
                        ..SchemaModel::any()
                    },
                ),
            ),
            ..inner
        }
    } else {
        SchemaModel { minimum: Some("1"@), ..inner }
    }
}

/// The schema of an integer that is never zero, given that of the integer.
pub fn nonzero(inner: Schema, signed: bool) -> (out: Schema)
    ensures
        out@ == without_zero(inner@, signed),
{
    let mut out = inner;
    if signed {
        let zero = Schema {
            const_value: Some(Value::Number(Number { text: "0".to_owned() })),
            ..Schema::any()
        };
        let ghost model = zero@;
        assert(model =~= SchemaModel {
            const_value: Some(ValueModel::Number("0"@)),
            ..SchemaModel::any()
        });
        out.not = Some(Box::new(zero));
        assert(out@.not == Some(Box::new(model)));
    } else {
        out.minimum = Some(Number { text: "1".to_owned() });
    }
    out
}

} // verus!
