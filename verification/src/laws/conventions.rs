//! The smaller conventions that the rest of the library keeps to.

use crate::app::lifecycle::{Life, Phase, Step};
use crate::derive::attr;
use crate::derive::checks;
use crate::derive::decl::{ContainerModel, FieldModel};
use crate::derive::schema;
use crate::derive::schema::{InnerModel, Shape};
use crate::derive::variants;
use crate::derive::variants::VariantModel;
use crate::error::FieldFailure;
use crate::extract::de;
use crate::extract::de::Groups;
use crate::extract::pieces;
use crate::headers;
use crate::json::ValueModel;
use crate::middleware::cors::CorsModel;
use crate::openapi::gen;
use crate::openapi::ordered;
use crate::openapi::schema::SchemaModel;
use crate::openapi::spec::{OperationModel, RequestBodyModel};
use crate::operation;
use crate::testing::TestRequestModel;
use crate::text;
use crate::validate;
use crate::validate::choice;
use crate::validate::choice::Choice;
use vstd::prelude::*;
use vstd::string::*;
use vstd::utf8::*;

verus! {

// ---------------------------------------------------------------------------
// values by key
// ---------------------------------------------------------------------------

proof fn lemma_group_from(groups: Groups, key: Seq<char>, from: int, to: int)
    requires
        0 <= from <= to < groups.len(),
        forall|i: int| from <= i < to ==> (#[trigger] groups[i]).0 != key,
        groups[to].0 == key,
    ensures
        de::group_from(groups, key, from) == Some(to),
    decreases to - from,
{
    if from < to {
        lemma_group_from(groups, key, from + 1, to);
    }
}

/// The value of a key is the first that was given for it. Read without keys, all
/// values come in the order of their groups.
pub proof fn the_first_value_is_the_value(groups: Groups, key: Seq<char>, values: Seq<Seq<char>>)
    requires
        forall|i: int| 0 <= i < groups.len() ==> (#[trigger] groups[i]).0 != key,
        values.len() > 0,
    ensures
        de::first_value(groups.push((key, values)), key) == Some(values[0]),
        de::flat(groups.push((key, values))) == de::flat(groups) + values,
        de::flat(Seq::empty()) == Seq::<Seq<char>>::empty(),
{
    let all = groups.push((key, values));
    let n = groups.len() as int;
    assert forall|i: int| 0 <= i < n implies (#[trigger] all[i]).0 != key by {
        assert(all[i] == groups[i]);
    }
    lemma_group_from(all, key, 0, n);
    assert(all.drop_last() =~= groups);
}

// ---------------------------------------------------------------------------
// names of types
// ---------------------------------------------------------------------------

proof fn lemma_last_word(kept: Seq<char>, word: Seq<char>)
    requires
        forall|i: int| 0 <= i < word.len() ==> gen::is_word_char(#[trigger] word[i]),
        kept.len() == 0 || !gen::is_word_char(kept.last()),
    ensures
        gen::without_last_word(kept + word) == kept,
    decreases word.len(),
{
    if word.len() == 0 {
        assert(kept + word =~= kept);
    } else {
        assert((kept + word).last() == word[word.len() - 1]);
        assert((kept + word).drop_last() =~= kept + word.drop_last());
        lemma_last_word(kept, word.drop_last());
    }
}

proof fn lemma_kept(full: Seq<char>, i: int, to: int, kept: Seq<char>)
    requires
        0 <= i <= to <= full.len(),
        forall|k: int| i <= k < to ==> gen::is_word_char(#[trigger] full[k]),
    ensures
        gen::unqualified_from(full, i, kept) == gen::unqualified_from(
            full,
            to,
            kept + full.subrange(i, to),
        ),
    decreases to - i,
{
    if i == to {
        assert(kept + full.subrange(i, to) =~= kept);
    } else {
        assert(gen::is_word_char(full[i]));
        lemma_kept(full, i + 1, to, kept.push(full[i]));
        assert(kept.push(full[i]) + full.subrange(i + 1, to) =~= kept + full.subrange(i, to));
    }
}

/// A type goes by its own name: the modules it lives in are left out.
pub proof fn a_type_goes_by_its_own_name(module: Seq<char>, name: Seq<char>)
    requires
        forall|i: int| 0 <= i < module.len() ==> gen::is_word_char(#[trigger] module[i]),
        forall|i: int| 0 <= i < name.len() ==> gen::is_word_char(#[trigger] name[i]),
    ensures
        gen::unqualified(name) == name,
        gen::unqualified(module + "::"@ + name) == name,
{
    reveal_strlit("::");
    let none = Seq::<char>::empty();
    let n = name.len() as int;
    lemma_kept(name, 0, n, none);
    assert(none + name.subrange(0, n) =~= name);
    let full = module + "::"@ + name;
    let m = module.len() as int;
    assert forall|k: int| 0 <= k < m implies gen::is_word_char(#[trigger] full[k]) by {
        assert(full[k] == module[k]);
    }
    lemma_kept(full, 0, m, none);
    assert(none + full.subrange(0, m) =~= none + module);
    lemma_last_word(none, module);
    assert(full[m] == ':' && full[m + 1] == ':');
    assert forall|k: int| m + 2 <= k < full.len() implies gen::is_word_char(#[trigger] full[k]) by {
        assert(full[k] == name[k - m - 2]);
    }
    lemma_kept(full, m + 2, full.len() as int, none);
    assert(none + full.subrange(m + 2, full.len() as int) =~= name);
}

/// What cannot stand in an identifier is spelled as a word between dashes.
pub proof fn signs_are_spelled_as_words(c: char)
    ensures
        gen::identifier_code('<') == "-of-"@,
        gen::identifier_code('>') == "-end-"@,
        gen::identifier_code(',') == "-and-"@,
        'a' <= c <= 'z' || 'A' <= c <= 'Z' || '0' <= c <= '9' || c == '_' ==> gen::identifier_code(
            c,
        ) == seq![c],
        gen::identifier(Seq::empty()) == "Anonymous"@,
{
    reveal_strlit("of");
    reveal_strlit("end");
    reveal_strlit("and");
    reveal_strlit("-of-");
    reveal_strlit("-end-");
    reveal_strlit("-and-");
    assert(gen::identifier_code('<') =~= "-of-"@);
    assert(gen::identifier_code('>') =~= "-end-"@);
    assert(gen::identifier_code(',') =~= "-and-"@);
}

/// A reference stands for the schema that is registered under its name.
pub proof fn a_reference_stands_for_what_is_registered(
    definitions: Seq<(Seq<char>, SchemaModel)>,
    name: Seq<char>,
    schema: SchemaModel,
)
    ensures
        schema.reference is None ==> operation::resolved(definitions, schema) == schema,
        schema.reference == Some("#/components/schemas/"@ + name) ==> operation::resolved(
            definitions,
            schema,
        ) == match ordered::lookup(definitions, name) {
            Some(found) => found,
            None => schema,
        },
{
    let prefix = "#/components/schemas/"@;
    let target = prefix + name;
    assert(target.take(prefix.len() as int) =~= prefix);
    assert(target.skip(prefix.len() as int) =~= name);
}

// ---------------------------------------------------------------------------
// derived schemas and checks
// ---------------------------------------------------------------------------

/// A field's failures point at its name, those of a field without one at its
/// position.
pub proof fn failures_point_at_their_field(v: VariantModel, f: FieldModel)
    ensures
        checks::pointer_of(f) == "/"@ + validate::escaped(f.name),
        v.shape != Shape::Unnamed ==> checks::variant_pointer(v, f) == "/"@ + validate::escaped(
            f.name,
        ),
        v.shape == Shape::Unnamed ==> checks::variant_pointer(v, f) == "/"@ + text::decimal(
            f.index as nat,
        ),
{
}

/// A closed set lists its names in order, and beside them what is said of each,
/// where anything is.
pub proof fn a_closed_set_lists_its_names(list: Seq<VariantModel>, i: int)
    requires
        0 <= i < list.len(),
    ensures
        variants::closed_set(list).enum_values.len() == list.len(),
        variants::closed_set(list).enum_values[i] == ValueModel::String(list[i].name),
        list[i].summary matches Some(summary) ==> {
            let notes = ordered::lookup(
                variants::closed_set(list).extensions,
                "x-enum-descriptions"@,
            );
            &&& notes is Some
            &&& notes->0 matches ValueModel::Array(items)
            &&& items.len() == list.len()
            &&& items[i] == ValueModel::String(summary)
        },
        (forall|k: int| 0 <= k < list.len() ==> (#[trigger] list[k]).summary is None)
            ==> variants::closed_set(list).extensions.len() == 0,
{
    if list[i].summary is Some {
        assert(variants::any_summary(list));
        let entries = variants::closed_set(list).extensions;
        ordered::lemma_position_is(entries, 0);
    }
}

/// A transparent struct, and a wrapper of one value, is documented as what it
/// holds.
pub proof fn a_wrapper_is_documented_as_what_it_holds(
    c: ContainerModel,
    shape: Shape,
    declared: usize,
    f: FieldModel,
    x: InnerModel,
)
    requires
        c.transparent || (shape == Shape::Unnamed && declared == 1),
    ensures
        schema::struct_model(c, shape, declared, seq![f], seq![x]) == schema::with_annotations(
            c,
            schema::field_model(f, x.schema),
        ),
{
}

proof fn lemma_scan(base: Seq<char>, t: Seq<char>)
    requires
        attr::scan(base) is Ok,
        !attr::scan(base)->Ok_0.escaped,
        forall|i: int|
            0 <= i < t.len() ==> {
                let c = #[trigger] t[i];
                c != '"' && c != '\\' && c != '{' && c != '}' && c != '[' && c != ']'
            },
    ensures
        attr::scan(base + t) == attr::scan(base),
    decreases t.len(),
{
    if t.len() == 0 {
        assert(base + t =~= base);
    } else {
        assert((base + t).drop_last() =~= base + t.drop_last());
        assert((base + t).last() == t[t.len() - 1]);
        lemma_scan(base, t.drop_last());
    }
}

proof fn lemma_scan_push(base: Seq<char>, c: char)
    ensures
        attr::scan(base) matches Ok(s) ==> attr::scan(base.push(c)) == attr::scan_step(s, c),
{
    assert(base.push(c).drop_last() =~= base);
}

/// A text that opens a string or a bracket and does not close it is no JSON, nor
/// is one that closes another bracket than it opened.
pub proof fn an_open_bracket_is_told(t: Seq<char>)
    requires
        t.len() > 0,
        !text::is_white(t.last()),
        forall|i: int|
            0 <= i < t.len() ==> {
                let c = #[trigger] t[i];
                c != '"' && c != '\\' && c != '{' && c != '}' && c != '[' && c != ']'
            },
    ensures
        attr::imbalance(seq!['"'] + t) == Some("unterminated string"@),
        attr::imbalance(seq!['{'] + t) == Some("unclosed `{` or `[`"@),
        attr::imbalance(seq!['['] + t) == Some("unclosed `{` or `[`"@),
        attr::imbalance((seq!['"'] + t).push('"')) is None,
        attr::imbalance((seq!['{'] + t).push('}')) is None,
        attr::imbalance((seq!['['] + t).push(']')) is None,
        attr::imbalance((seq!['{'] + t).push(']')) == Some("unbalanced `]`"@),
        attr::imbalance((seq!['['] + t).push('}')) == Some("unbalanced `}`"@),
{
    let none = Seq::<char>::empty();
    lemma_scan_push(none, '"');
    lemma_scan_push(none, '{');
    lemma_scan_push(none, '[');
    assert(none.push('"') =~= seq!['"']);
    assert(none.push('{') =~= seq!['{']);
    assert(none.push('[') =~= seq!['[']);
    lemma_scan(seq!['"'], t);
    lemma_scan(seq!['{'], t);
    lemma_scan(seq!['['], t);
    let q = seq!['"'] + t;
    let b = seq!['{'] + t;
    let l = seq!['['] + t;
    lemma_scan_push(q, '"');
    lemma_scan_push(b, '}');
    lemma_scan_push(b, ']');
    lemma_scan_push(l, ']');
    lemma_scan_push(l, '}');
    assert(q.first() == '"' && q.last() == t.last());
    assert(b.first() == '{' && b.last() == t.last());
    assert(l.first() == '[' && l.last() == t.last());
    assert(text::trim(q) == q && text::trim(b) == b && text::trim(l) == l);
    assert(text::trim(q.push('"')) == q.push('"'));
    assert(text::trim(b.push('}')) == b.push('}'));
    assert(text::trim(b.push(']')) == b.push(']'));
    assert(text::trim(l.push(']')) == l.push(']'));
    assert(text::trim(l.push('}')) == l.push('}'));
}

// ---------------------------------------------------------------------------
// the rest
// ---------------------------------------------------------------------------

/// In each phase of its life a server does what the phase is named after.
pub proof fn each_phase_has_its_work(life: Life, i: usize)
    ensures
        life.phase == Phase::Starting(i) ==> life.pending() == Step::RunStartupHook(i),
        life.phase == Phase::Binding ==> life.pending() == Step::Bind,
        life.phase == Phase::Accepting ==> life.pending() == Step::Accept,
        life.phase == Phase::Draining ==> life.pending() == Step::Drain,
        life.phase == Phase::Stopping(i) ==> life.pending() == Step::RunShutdownHook(i),
        life.phase == Phase::Stopped ==> life.pending() == Step::Finish,
        life.phase == Phase::Failed ==> life.pending() == Step::Fail(life.fault),
{
}

/// An optional body may be left out; one that was asked for before stays asked
/// for where the extractor brings none of its own.
pub proof fn an_optional_body_may_be_left_out(o: OperationModel, contributed: OperationModel)
    ensures
        contributed.request_body matches Some(body) ==> pieces::made_optional(
            o,
            contributed,
        ).request_body == Some(RequestBodyModel { required: false, ..body }),
        contributed.request_body is None ==> pieces::made_optional(o, contributed).request_body
            == o.request_body,
        pieces::made_optional(o, contributed).responses == contributed.responses,
        pieces::made_optional(o, contributed).security == contributed.security,
        contributed.parameters.len() == 0 ==> pieces::made_optional(o, contributed).parameters
            == o.parameters,
{
}

/// Failures are listed one after the other, each with its place and its message.
pub proof fn failures_are_listed_in_order(list: Seq<FieldFailure>, e: FieldFailure)
    ensures
        validate::listing(Seq::empty()) == Seq::<char>::empty(),
        list.len() == 0 ==> validate::listing(list.push(e)) == e.pointer + ": "@ + e.message,
        list.len() > 0 ==> validate::listing(list.push(e)) == validate::listing(list) + "; "@
            + e.pointer + ": "@ + e.message,
{
    assert(list.push(e).drop_last() =~= list);
    if list.len() == 0 {
        assert(validate::listing(list) =~= Seq::empty());
        assert(validate::listing(list.push(e)) =~= e.pointer + ": "@ + e.message);
    }
}

/// Choices are shown between brackets, with commas between them.
pub proof fn choices_are_shown_in_order<T: Choice>(first: T, second: T)
    ensures
        choice::shown_list(Seq::<T>::empty()) == "[]"@,
        choice::shown_list(seq![first]) == "["@ + first.shown() + "]"@,
        choice::shown_list(seq![first, second]) == "["@ + first.shown() + ", "@ + second.shown()
            + "]"@,
{
    reveal_strlit("[");
    reveal_strlit("]");
    reveal_strlit("[]");
    let f = |v: T| v.shown();
    let none = Seq::<T>::empty();
    assert(none.map_values(f) =~= Seq::<Seq<char>>::empty());
    assert(choice::shown_list(none) =~= "[]"@);
    assert(seq![first].map_values(f) =~= seq![first.shown()]);
    let two = seq![first, second].map_values(f);
    assert(two =~= seq![first.shown(), second.shown()]);
    assert(two.drop_last() =~= seq![first.shown()]);
    assert(text::join(seq![first.shown()], ", "@) == first.shown());
    assert(text::join(two, ", "@) == first.shown() + ", "@ + second.shown());
    assert(choice::shown_list(seq![first, second]) =~= "["@ + first.shown() + ", "@
        + second.shown() + "]"@);
}

/// The permissive set-up lets any origin in, without credentials, with every
/// ordinary method, and for an hour.
pub proof fn the_permissive_setup_lets_anyone_in(origin: Seq<char>)
    ensures
        CorsModel::permissive().answer_to(origin) == Some("*"@),
        CorsModel::permissive().origins is Any,
        !CorsModel::permissive().credentials,
        CorsModel::permissive().methods == seq![
            "GET"@,
            "POST"@,
            "PUT"@,
            "PATCH"@,
            "DELETE"@,
            "HEAD"@,
            "OPTIONS"@,
        ],
        CorsModel::permissive().allowed_headers == seq!["content-type"@, "authorization"@],
        CorsModel::permissive().exposed_headers.len() == 0,
        CorsModel::permissive().max_age == Some(3_600_000_000_000nat),
{
}

/// A request that is built carries what was put into it, every header with all
/// of its values.
pub proof fn a_built_request_carries_what_was_put_in(
    r: TestRequestModel,
    name: Seq<char>,
    value: Seq<char>,
    path: Seq<char>,
    query: Option<Seq<char>>,
)
    ensures
        TestRequestModel::new().method == "GET"@,
        TestRequestModel::new().uri == "/"@,
        r.request(path, query).method == r.method,
        r.request(path, query).path == path,
        r.request(path, query).query == query,
        r.request(path, query).body == r.body,
        r.request(path, query).params == r.params,
        r.request(path, query).matched_path == r.matched_path,
        headers::under(
            r.with_header(name, value).request(path, query).headers,
            text::ascii_lower(name),
        ) == headers::under(r.request(path, query).headers, text::ascii_lower(name)).push(
            encode_utf8(value),
        ),
{
    assert(r.headers.push((name, value)).drop_last() =~= r.headers);
}

/// State that was never registered is the server's fault, and the cause names
/// what was.
pub proof fn missing_state_is_the_servers_fault(name: Seq<char>, registered: Seq<char>)
    ensures
        pieces::missing_state(name, seq![registered]).status == 500,
        pieces::missing_state(name, seq![registered]).source == Some(
            "state type `"@ + name + "` was never registered; registered types: ["@ + registered
                + "]"@,
        ),
{
}

} // verus!
