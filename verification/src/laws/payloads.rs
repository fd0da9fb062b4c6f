//! How variants, tuples and failures are documented and checked.

use crate::derive::attr::Attr;
use crate::derive::checks;
use crate::derive::checks::GivenModel;
use crate::derive::decl;
use crate::derive::decl::{ContainerModel, FieldModel};
use crate::derive::schema as fields;
use crate::derive::schema::{InnerModel, Shape};
use crate::derive::variants;
use crate::derive::variants::VariantModel;
use crate::error;
use crate::laws::answers::text_schema;
use crate::openapi::gen;
use crate::openapi::gen::{Collected, JsonSchema};
use crate::openapi::impls;
use crate::openapi::ordered;
use crate::openapi::schema::{SchemaModel, TypeModel};
use crate::validate;
use vstd::prelude::*;
use vstd::string::*;

verus! {

/// A tuple is an array of exactly its elements, each with its own schema.
pub proof fn a_tuple_is_an_array_of_its_elements(items: Seq<SchemaModel>)
    requires
        items.len() <= u64::MAX,
    ensures
        impls::tuple_model(items).schema_type == Some(TypeModel::Single("array"@)),
        impls::tuple_model(items).prefix_items == items,
        impls::tuple_model(items).min_items == Some(items.len() as u64),
        impls::tuple_model(items).max_items == Some(items.len() as u64),
{
}

/// What a variant carries: nothing, its only value, its values by position, or
/// its fields by name.
pub proof fn a_payload_is_what_a_variant_carries(v: VariantModel, inner: Seq<InnerModel>, i: int)
    requires
        0 <= i < v.fields.len(),
    ensures
        v.shape == Shape::Unit ==> variants::payload_model(v, inner).schema_type == Some(
            TypeModel::Single("null"@),
        ),
        v.shape == Shape::Unnamed && v.declared == 1 ==> variants::payload_model(v, inner)
            == fields::field_model(v.fields[0], inner[0].schema),
        v.shape == Shape::Unnamed && v.declared != 1 ==> {
            &&& variants::payload_model(v, inner).schema_type == Some(TypeModel::Single("array"@))
            &&& variants::payload_model(v, inner).prefix_items.len() == v.fields.len()
            &&& variants::payload_model(v, inner).prefix_items[i] == fields::field_model(
                v.fields[i],
                inner[i].schema,
            )
        },
        v.shape == Shape::Named ==> variants::payload_model(v, inner) == variants::record_model(
            v.fields,
            inner,
        ),
{
}

/// The fields of a variant are properties under their names, required unless
/// their type may be absent.
pub proof fn a_record_holds_its_fields(
    list: Seq<FieldModel>,
    inner: Seq<InnerModel>,
    f: FieldModel,
    x: InnerModel,
)
    requires
        list.len() == inner.len(),
        forall|i: int| 0 <= i < list.len() ==> (#[trigger] list[i]).name != f.name,
    ensures
        variants::record_model(Seq::empty(), Seq::empty()).schema_type == Some(
            TypeModel::Single("object"@),
        ),
        variants::record_model(list.push(f), inner.push(x)).properties == variants::record_model(
            list,
            inner,
        ).properties.push((f.name, fields::field_model(f, x.schema))),
        x.optional ==> variants::record_model(list.push(f), inner.push(x)).required
            == variants::record_model(list, inner).required,
        !x.optional ==> variants::record_model(list.push(f), inner.push(x)).required
            == variants::record_model(list, inner).required.push(f.name),
{
    assert(list.push(f).drop_last() =~= list);
    assert(inner.push(x).drop_last() =~= inner);
    lemma_record_names(list, inner, f.name);
    ordered::lemma_position(variants::record_model(list, inner).properties, f.name);
}

proof fn lemma_record_names(list: Seq<FieldModel>, inner: Seq<InnerModel>, name: Seq<char>)
    requires
        list.len() == inner.len(),
        forall|i: int| 0 <= i < list.len() ==> (#[trigger] list[i]).name != name,
    ensures
        ordered::position(variants::record_model(list, inner).properties, name) is None,
    decreases list.len(),
{
    if list.len() > 0 {
        let front = list.drop_last();
        assert forall|i: int| 0 <= i < front.len() implies (#[trigger] front[i]).name != name by {
            assert(front[i] == list[i]);
        }
        lemma_record_names(front, inner.drop_last(), name);
        let before = variants::record_model(front, inner.drop_last()).properties;
        let last = list.last();
        assert(list[list.len() - 1].name != name);
        let value = fields::field_model(last, inner.last().schema);
        lemma_absent(before, last.name, value, name);
    }
}

proof fn lemma_absent<V>(
    entries: Seq<(Seq<char>, V)>,
    key: Seq<char>,
    value: V,
    other: Seq<char>,
)
    requires
        key != other,
        ordered::position(entries, other) is None,
    ensures
        ordered::position(ordered::inserted(entries, key, value), other) is None,
{
    let after = ordered::inserted(entries, key, value);
    lemma_none(entries, other);
    ordered::lemma_position(entries, key);
    ordered::lemma_position(after, other);
    if let Some(i) = ordered::position(after, other) {
        assert(after[i].0 == other);
        if i < entries.len() {
            assert(entries[i].0 != other);
        }
    }
}

proof fn lemma_none<V>(entries: Seq<(Seq<char>, V)>, key: Seq<char>)
    requires
        ordered::position(entries, key) is None,
    ensures
        forall|i: int| 0 <= i < entries.len() ==> (#[trigger] entries[i]).0 != key,
{
    ordered::lemma_position(entries, key);
}

/// A variant goes by its own name in the case of its enum, unless it is renamed.
pub proof fn a_variant_goes_by_its_name(
    c: ContainerModel,
    ident: Seq<char>,
    attr: Attr,
    renamed: Seq<char>,
)
    ensures
        variants::name_from(c, ident, Seq::empty(), 0) == Ok::<Seq<char>, Seq<char>>(
            c.rename_all.variant(ident),
        ),
        attr.path@ != "serde"@ ==> variants::name_from(c, ident, seq![attr], 0) == Ok::<
            Seq<char>,
            Seq<char>,
        >(c.rename_all.variant(ident)),
        attr.path@ == "serde"@ && attr.metas@.len() > 0 && attr.metas@.last().path@ == "rename"@
            && decl::str_value(attr.metas@.last()) == Ok::<Seq<char>, Seq<char>>(renamed)
            && variants::renamed_in(attr.metas@.drop_last()) is Ok ==> variants::name_from(
            c,
            ident,
            seq![attr],
            0,
        ) == Ok::<Seq<char>, Seq<char>>(renamed),
{
    reveal_with_fuel(variants::name_from, 3);
}

/// What is wrong with a struct is what is wrong with its fields, each under its
/// name, in order. Nothing is wrong with a variant that carries nothing.
pub proof fn failures_come_in_the_order_of_fields(
    list: Seq<FieldModel>,
    given: Seq<GivenModel>,
    f: FieldModel,
    g: GivenModel,
    v: VariantModel,
)
    requires
        list.len() == given.len(),
    ensures
        checks::struct_faults(Seq::empty(), Seq::empty()).len() == 0,
        checks::struct_faults(list.push(f), given.push(g)) == checks::struct_faults(list, given)
            + checks::field_faults(f, g, "/"@ + validate::escaped(f.name)),
        !g.present ==> checks::field_faults(f, g, "/"@ + validate::escaped(f.name)).len() == 0,
        v.shape == Shape::Unit ==> checks::enum_faults(v, given).len() == 0,
        v.shape == Shape::Named && v.fields == list.push(f) ==> checks::enum_faults(
            v,
            given.push(g),
        ) == checks::fields_faults(v, list, given) + checks::field_faults(
            f,
            g,
            "/"@ + validate::escaped(f.name),
        ),
{
    assert(list.push(f).drop_last() =~= list);
    assert(given.push(g).drop_last() =~= given);
}

/// A text with a description.
pub open spec fn told(description: Seq<char>) -> SchemaModel {
    SchemaModel { description: Some(description), ..text_schema() }
}

/// A failure is documented as the three texts it is written as, all of them
/// required.
pub proof fn a_failure_is_documented_as_it_is_written()
    ensures
        error::field_error_schema().schema_type == Some(TypeModel::Single("object"@)),
        error::field_error_schema().properties == seq![
            ("pointer"@, told("JSON Pointer to the offending value."@)),
            ("code"@, told("Machine-readable failure code."@)),
            ("message"@, told("Human-readable explanation."@)),
        ],
        error::field_error_schema().required == seq!["pointer"@, "code"@, "message"@],
{
    reveal_strlit("pointer");
    reveal_strlit("code");
    reveal_strlit("message");
    assert("pointer"@.len() == 7 && "pointer"@[0] == 'p');
    assert("code"@.len() == 4);
    assert("message"@.len() == 7 && "message"@[0] == 'm');
    reveal_with_fuel(ordered::position, 4);
    let none = Seq::<(Seq<char>, SchemaModel)>::empty();
    let a = told("JSON Pointer to the offending value."@);
    let b = told("Machine-readable failure code."@);
    let c = told("Human-readable explanation."@);
    lemma_new(none, "pointer"@, a);
    let one = none.push(("pointer"@, a));
    lemma_new(one, "code"@, b);
    let two = one.push(("code"@, b));
    lemma_new(two, "message"@, c);
    let three = two.push(("message"@, c));
    assert(three =~= seq![("pointer"@, a), ("code"@, b), ("message"@, c)]);
    assert(SchemaModel::of_type("string"@).described("JSON Pointer to the offending value."@)
        =~= a);
    assert(SchemaModel::of_type("string"@).described("Machine-readable failure code."@) =~= b);
    assert(SchemaModel::of_type("string"@).described("Human-readable explanation."@) =~= c);
}

proof fn lemma_new<V>(entries: Seq<(Seq<char>, V)>, key: Seq<char>, value: V)
    requires
        forall|i: int| 0 <= i < entries.len() ==> (#[trigger] entries[i]).0 != key,
    ensures
        ordered::inserted(entries, key, value) == entries.push((key, value)),
{
    ordered::lemma_position(entries, key);
}

/// A problem is documented under the names it is written under; its title and
/// its status are required.
pub proof fn a_problem_is_documented_as_it_is_written()
    ensures
        error::problem_schema().schema_type == Some(TypeModel::Single("object"@)),
        error::problem_schema().required == seq!["title"@, "status"@],
        error::problem_schema().properties.len() == 6,
        error::problem_schema().properties[0] == (
            "type"@,
            told("URI identifying the problem type."@),
        ),
        error::problem_schema().properties[1] == (
            "title"@,
            told("Short, human-readable summary."@),
        ),
        error::problem_schema().properties[2].0 == "status"@,
        error::problem_schema().properties[2].1.schema_type == Some(TypeModel::Single("integer"@)),
        error::problem_schema().properties[3] == (
            "detail"@,
            told("Explanation specific to this occurrence."@),
        ),
        error::problem_schema().properties[4] == (
            "instance"@,
            told("URI identifying this occurrence."@),
        ),
        error::problem_schema().properties[5].0 == "errors"@,
        error::problem_schema().properties[5].1.schema_type == Some(TypeModel::Single("array"@)),
        error::problem_schema().properties[5].1.items matches Some(item) && item.reference == Some(
            "#/components/schemas/FieldError"@,
        ),
{
    reveal_strlit("type");
    reveal_strlit("title");
    reveal_strlit("status");
    reveal_strlit("detail");
    reveal_strlit("instance");
    reveal_strlit("errors");
    reveal_strlit("#/components/schemas/");
    reveal_strlit("FieldError");
    reveal_strlit("#/components/schemas/FieldError");
    assert("#/components/schemas/"@ + "FieldError"@ =~= "#/components/schemas/FieldError"@);
    assert("type"@.len() == 4);
    assert("title"@.len() == 5);
    assert("status"@.len() == 6 && "status"@[0] == 's');
    assert("detail"@.len() == 6 && "detail"@[0] == 'd');
    assert("instance"@.len() == 8);
    assert("errors"@.len() == 6 && "errors"@[0] == 'e');
    let none = Seq::<(Seq<char>, SchemaModel)>::empty();
    let text = SchemaModel::of_type("string"@);
    let v0 = text.described("URI identifying the problem type."@);
    let v1 = text.described("Short, human-readable summary."@);
    let v2 = <u16 as JsonSchema>::describe(Collected::empty()).described("The HTTP status code."@);
    let v3 = text.described("Explanation specific to this occurrence."@);
    let v4 = text.described("URI identifying this occurrence."@);
    let v5 = SchemaModel::array(
        SchemaModel::reference(gen::component("FieldError"@)),
    ).described("Field-level failures, present on validation errors."@);
    let p0 = none.push(("type"@, v0));
    let p1 = p0.push(("title"@, v1));
    let p2 = p1.push(("status"@, v2));
    let p3 = p2.push(("detail"@, v3));
    let p4 = p3.push(("instance"@, v4));
    let p5 = p4.push(("errors"@, v5));
    lemma_new(none, "type"@, v0);
    lemma_new(p0, "title"@, v1);
    lemma_new(p1, "status"@, v2);
    lemma_new(p2, "detail"@, v3);
    lemma_new(p3, "instance"@, v4);
    lemma_new(p4, "errors"@, v5);
    assert(error::problem_schema().properties == p5);
    assert(v0 =~= told("URI identifying the problem type."@));
    assert(v1 =~= told("Short, human-readable summary."@));
    assert(v3 =~= told("Explanation specific to this occurrence."@));
    assert(v4 =~= told("URI identifying this occurrence."@));
}

} // verus!
