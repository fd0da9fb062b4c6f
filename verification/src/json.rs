//! JSON values.

use crate::text;
use vstd::prelude::*;
use vstd::string::*;

verus! {

/// A number, as its decimal text.
pub struct Number {
    pub text: String,
}

impl View for Number {
    type V = Seq<char>;

    open spec fn view(&self) -> Seq<char> {
        self.text@
    }
}

impl Number {
    /// A whole number.
    pub fn from_u64(n: u64) -> (number: Self)
        ensures
            number@ == text::decimal(n as nat),
    {
        Number { text: text::decimal_text(n) }
    }

    /// A negative whole number: minus `n`.
    pub fn negative(n: u64) -> (number: Self)
        ensures
            number@ == "-"@ + text::decimal(n as nat),
    {
        let mut out = "-".to_owned();
        out.append(text::decimal_text(n).as_str());
        Number { text: out }
    }

    pub fn copy(&self) -> (out: Self)
        ensures
            out == *self,
    {
        Number { text: self.text.clone() }
    }
}

/// A JSON value. The members of an object keep their order.
pub enum Value {
    Null,
    Bool(bool),
    Number(Number),
    String(String),
    Array(Vec<Value>),
    Object(Vec<(String, Value)>),
    /// JSON text, kept as it was written.
    Raw(String),
}

/// A JSON value, as a mathematical one.
pub enum ValueModel {
    Null,
    Bool(bool),
    Number(Seq<char>),
    String(Seq<char>),
    Array(Seq<ValueModel>),
    Object(Seq<(Seq<char>, ValueModel)>),
    Raw(Seq<char>),
}

pub open spec fn value_model(value: Value) -> ValueModel
    decreases value,
{
    match value {
        Value::Null => ValueModel::Null,
        Value::Bool(b) => ValueModel::Bool(b),
        Value::Number(n) => ValueModel::Number(n@),
        Value::String(s) => ValueModel::String(s@),
        Value::Array(list) => ValueModel::Array(list_model(list@)),
        Value::Object(members) => ValueModel::Object(members_model(members@)),
        Value::Raw(s) => ValueModel::Raw(s@),
    }
}

/// The values of a list.
pub open spec fn list_model(list: Seq<Value>) -> Seq<ValueModel>
    decreases list,
{
    if list.len() == 0 {
        Seq::empty()
    } else {
        list_model(list.drop_last()).push(value_model(list.last()))
    }
}

/// The members of an object.
pub open spec fn members_model(list: Seq<(String, Value)>) -> Seq<(Seq<char>, ValueModel)>
    decreases list,
{
    if list.len() == 0 {
        Seq::empty()
    } else {
        members_model(list.drop_last()).push((list.last().0@, value_model(list.last().1)))
    }
}

impl View for Value {
    type V = ValueModel;

    open spec fn view(&self) -> ValueModel {
        value_model(*self)
    }
}

pub proof fn lemma_list_model(list: Seq<Value>)
    ensures
        list_model(list).len() == list.len(),
        forall|i: int|
            0 <= i < list.len() ==> #[trigger] list_model(list)[i] == value_model(list[i]),
    decreases list.len(),
{
    if list.len() > 0 {
        lemma_list_model(list.drop_last());
    }
}

pub proof fn lemma_members_model(list: Seq<(String, Value)>)
    ensures
        members_model(list).len() == list.len(),
        forall|i: int|
            0 <= i < list.len() ==> #[trigger] members_model(list)[i] == (
                list[i].0@,
                value_model(list[i].1),
            ),
    decreases list.len(),
{
    if list.len() > 0 {
        lemma_members_model(list.drop_last());
    }
}

impl Value {
    /// A copy of the value.
    pub fn copy(&self) -> (out: Value)
        ensures
            out@ == self@,
        decreases self,
    {
        match self {
            Value::Null => Value::Null,
            Value::Bool(b) => Value::Bool(*b),
            Value::Number(n) => Value::Number(n.copy()),
            Value::String(s) => Value::String(s.clone()),
            Value::Array(list) => Value::Array(copy_list(list)),
            Value::Object(members) => {
                let mut out: Vec<(String, Value)> = Vec::new();
                let mut i: usize = 0;
                assert(members@.take(0) =~= Seq::<(String, Value)>::empty());
                while i < members.len()
                    invariant
                        i <= members@.len(),
                        decreases_to!(self => members@),
                        members_model(out@) == members_model(members@.take(i as int)),
                    decreases members@.len() - i,
                {
                    proof {
                        assert(decreases_to!(members@ => members@[i as int]));
                    }
                    let item = (members[i].0.clone(), members[i].1.copy());
                    assert(members@.take(i + 1).drop_last() =~= members@.take(i as int));
                    assert(out@.push(item).drop_last() =~= out@);
                    out.push(item);
                    i += 1;
                }
                assert(members@.take(i as int) =~= members@);
                Value::Object(out)
            },
            Value::Raw(s) => Value::Raw(s.clone()),
        }
    }
}

/// A copy of a list of values.
pub fn copy_list(list: &Vec<Value>) -> (out: Vec<Value>)
    ensures
        list_model(out@) == list_model(list@),
    decreases list,
{
    let mut out: Vec<Value> = Vec::new();
    let mut i: usize = 0;
    assert(list@.take(0) =~= Seq::<Value>::empty());
    while i < list.len()
        invariant
            i <= list@.len(),
            list_model(out@) == list_model(list@.take(i as int)),
        decreases list@.len() - i,
    {
        proof {
            assert(decreases_to!(list => list@));
            assert(decreases_to!(list@ => list@[i as int]));
        }
        let item = list[i].copy();
        assert(list@.take(i + 1).drop_last() =~= list@.take(i as int));
        assert(out@.push(item).drop_last() =~= out@);
        out.push(item);
        i += 1;
    }
    assert(list@.take(i as int) =~= list@);
    out
}

/// The members of an object after `key` is set: in its place if it is there, at
/// the end if not.
pub open spec fn member_set(
    members: Seq<(Seq<char>, ValueModel)>,
    key: Seq<char>,
    value: ValueModel,
) -> Seq<(Seq<char>, ValueModel)> {
    crate::openapi::ordered::inserted(members, key, value)
}

// ---------------------------------------------------------------------------
// writing
// ---------------------------------------------------------------------------

/// A character inside a JSON string.
pub open spec fn string_code(c: char) -> Seq<char> {
    let n = c as int;
    if c == '"' {
        seq!['\\', '"']
    } else if c == '\\' {
        seq!['\\', '\\']
    } else if n == 8 {
        seq!['\\', 'b']
    } else if n == 9 {
        seq!['\\', 't']
    } else if n == 10 {
        seq!['\\', 'n']
    } else if n == 12 {
        seq!['\\', 'f']
    } else if n == 13 {
        seq!['\\', 'r']
    } else if n < 32 {
        seq![
            '\\',
            'u',
            '0',
            '0',
            text::hex_digit((n / 16) as nat),
            text::hex_digit((n % 16) as nat),
        ]
    } else {
        seq![c]
    }
}

/// A text as a JSON string.
pub open spec fn string_written(s: Seq<char>) -> Seq<char> {
    seq!['"'] + text::coded(s, |c: char| string_code(c)) + seq!['"']
}

/// A JSON text without what it leaves to taste, if it is JSON at all.
pub uninterp spec fn normal_form(raw: Seq<char>) -> Option<Seq<char>>;

/// `serde_json::to_string` for a text: double quotes around it, with quotes,
/// backslashes and control characters escaped.
#[verifier::external_body]
fn string_text(s: &str) -> (out: String)
    ensures
        out@ == string_written(s@),
{
    serde_json::to_string(s).unwrap_or_default()
}

/// `serde_json::from_str` into a `serde_json::Value`, and that value's text:
/// nothing for a text that is not JSON. How a value is written there is named,
/// not described.
#[verifier::external_body]
fn normalised(raw: &str) -> (out: Option<String>)
    ensures
        text::opt(out) == normal_form(raw@),
{
    serde_json::from_str::<serde_json::Value>(raw).ok().map(|value| value.to_string())
}

/// A value as compact JSON text. Raw text that is not JSON falls back to a
/// string, which keeps a malformed example from breaking the document.
pub open spec fn written(value: ValueModel) -> Seq<char>
    decreases value,
{
    match value {
        ValueModel::Null => "null"@,
        ValueModel::Bool(b) => if b {
            "true"@
        } else {
            "false"@
        },
        ValueModel::Number(n) => n,
        ValueModel::String(s) => string_written(s),
        ValueModel::Array(list) => "["@ + text::join(written_list(list), ","@) + "]"@,
        ValueModel::Object(members) => "{"@ + text::join(written_members(members), ","@) + "}"@,
        ValueModel::Raw(raw) => match normal_form(raw) {
            Some(t) => t,
            None => string_written(raw),
        },
    }
}

pub open spec fn written_list(list: Seq<ValueModel>) -> Seq<Seq<char>>
    decreases list,
{
    if list.len() == 0 {
        Seq::empty()
    } else {
        written_list(list.drop_last()).push(written(list.last()))
    }
}

pub open spec fn written_members(members: Seq<(Seq<char>, ValueModel)>) -> Seq<Seq<char>>
    decreases members,
{
    if members.len() == 0 {
        Seq::empty()
    } else {
        written_members(members.drop_last()).push(
            string_written(members.last().0) + ":"@ + written(members.last().1),
        )
    }
}

impl Value {
    /// Writes the value as compact JSON.
    pub fn write(&self) -> (out: String)
        ensures
            out@ == written(self@),
        decreases self,
    {
        match self {
            Value::Null => "null".to_owned(),
            Value::Bool(b) => if *b {
                "true".to_owned()
            } else {
                "false".to_owned()
            },
            Value::Number(n) => n.text.clone(),
            Value::String(s) => string_text(s.as_str()),
            Value::Array(list) => {
                let mut pieces: Vec<String> = Vec::new();
                let mut i: usize = 0;
                assert(list@.take(0) =~= Seq::<Value>::empty());
                assert(text::views(pieces@) =~= Seq::<Seq<char>>::empty());
                while i < list.len()
                    invariant
                        i <= list@.len(),
                        decreases_to!(self => list@),
                        text::views(pieces@) == written_list(list_model(list@.take(i as int))),
                    decreases list@.len() - i,
                {
                    proof {
                        assert(decreases_to!(list@ => list@[i as int]));
                    }
                    let piece = list[i].write();
                    proof {
                        let before = list@.take(i as int);
                        let after = list@.take(i + 1);
                        assert(after.drop_last() =~= before);
                        let m = list_model(after);
                        assert(m == list_model(before).push(value_model(list@[i as int])));
                        assert(m.drop_last() =~= list_model(before));
                        text::lemma_views_push(pieces@, piece);
                    }
                    pieces.push(piece);
                    i += 1;
                }
                assert(list@.take(i as int) =~= list@);
                assert(text::views(pieces@).skip(0) =~= text::views(pieces@));
                let mut out = "[".to_owned();
                out.append(text::join_text(&pieces, 0, ",").as_str());
                out.append("]");
                out
            },
            Value::Object(members) => {
                let mut pieces: Vec<String> = Vec::new();
                let mut i: usize = 0;
                assert(members@.take(0) =~= Seq::<(String, Value)>::empty());
                assert(text::views(pieces@) =~= Seq::<Seq<char>>::empty());
                while i < members.len()
                    invariant
                        i <= members@.len(),
                        decreases_to!(self => members@),
                        text::views(pieces@) == written_members(
                            members_model(members@.take(i as int)),
                        ),
                    decreases members@.len() - i,
                {
                    proof {
                        assert(decreases_to!(members@ => members@[i as int]));
                    }
                    let mut piece = string_text(members[i].0.as_str());
                    piece.append(":");
                    piece.append(members[i].1.write().as_str());
                    proof {
                        let before = members@.take(i as int);
                        let after = members@.take(i + 1);
                        let entry = (members@[i as int].0@, value_model(members@[i as int].1));
                        assert(after.drop_last() =~= before);
                        let m = members_model(after);
                        assert(m == members_model(before).push(entry));
                        assert(m.drop_last() =~= members_model(before));
                        text::lemma_views_push(pieces@, piece);
                    }
                    pieces.push(piece);
                    i += 1;
                }
                assert(members@.take(i as int) =~= members@);
                assert(text::views(pieces@).skip(0) =~= text::views(pieces@));
                let mut out = "{".to_owned();
                out.append(text::join_text(&pieces, 0, ",").as_str());
                out.append("}");
                out
            },
            Value::Raw(raw) => match normalised(raw.as_str()) {
                Some(t) => t,
                None => string_text(raw.as_str()),
            },
        }
    }
}

} // verus!
