//! The [`JsonSchema`] trait and the generator that collects reusable schemas
//! into `components/schemas`.

use crate::openapi::ordered;
use crate::openapi::schema;
use crate::openapi::schema::{Schema, SchemaModel};
use crate::openapi::schema_map::SchemaMap;
use crate::text;
use vstd::prelude::*;
use vstd::string::*;

verus! {

/// Collects named schemas while walking a type graph.
///
/// The generator is cycle-safe: a type that (transitively) contains itself is
/// registered once and referenced thereafter.
pub struct SchemaGenerator {
    definitions: SchemaMap,
    in_progress: Vec<String>,
}

/// What a generator holds, as a value.
#[verifier::ext_equal]
pub struct Collected {
    /// The registered schemas, in insertion order.
    pub definitions: Seq<(Seq<char>, SchemaModel)>,
    /// The names of the types being described, outermost first.
    pub in_progress: Seq<Seq<char>>,
}

impl View for SchemaGenerator {
    type V = Collected;

    closed spec fn view(&self) -> Collected {
        Collected {
            definitions: schema::schemas_model(self.definitions),
            in_progress: text::views(self.in_progress@),
        }
    }
}

impl Collected {
    /// Nothing collected.
    pub open spec fn empty() -> Collected {
        Collected { definitions: Seq::empty(), in_progress: Seq::empty() }
    }

    /// Whether a name is registered, or its type is being described.
    pub open spec fn knows(self, name: Seq<char>) -> bool {
        ordered::position(self.definitions, name) is Some || self.in_progress.contains(name)
    }

    /// `later` holds every schema registered here and has the same types in
    /// progress.
    pub open spec fn extends_to(self, later: Collected) -> bool {
        &&& later.in_progress == self.in_progress
        &&& ordered::distinct(later.definitions)
        &&& forall|name: Seq<char>|
            ordered::position(self.definitions, name) is Some ==> #[trigger] ordered::lookup(
                later.definitions,
                name,
            ) == ordered::lookup(self.definitions, name)
    }

    /// With the description of `name` begun.
    pub open spec fn begin(self, name: Seq<char>) -> Collected {
        Collected { in_progress: self.in_progress.push(name), ..self }
    }

    /// With the description begun last ended, and its schema registered.
    pub open spec fn finish(self, name: Seq<char>, schema: SchemaModel) -> Collected {
        Collected {
            definitions: ordered::inserted(self.definitions, name, schema),
            in_progress: self.in_progress.drop_last(),
        }
    }
}

/// A Rust type that can describe itself as JSON Schema.
///
/// Implement this by hand for exotic types, or have it derived.
pub trait JsonSchema {
    /// The name this type is registered under.
    open spec fn name() -> Option<Seq<char>> {
        None
    }

    /// The schema of this type, given what is already collected.
    open spec fn describe(g: Collected) -> SchemaModel {
        SchemaModel::any()
    }

    /// What is collected once this type has been described.
    open spec fn collect(g: Collected) -> Collected {
        g
    }

    /// Whether this is an `Option`.
    open spec fn may_be_absent() -> bool {
        false
    }

    /// Describing a type begins and ends with the same types in progress, and
    /// keeps every schema that was registered before.
    proof fn only_adds(g: Collected)
        requires
            ordered::distinct(g.definitions),
        ensures
            g.extends_to(Self::collect(g)),
    ;

    /// The name this type is registered under in `components/schemas`.
    ///
    /// Returning `None` inlines the schema at every use site, which is the
    /// right choice for primitives and transparent wrappers.
    fn schema_name() -> (name: Option<String>)
        ensures
            text::opt(name) == Self::name(),
    ;

    /// Builds the schema. Use [`SchemaGenerator::subschema_for`] for nested
    /// types so they are registered and referenced rather than duplicated.
    fn json_schema(generator: &mut SchemaGenerator) -> (schema: Schema)
        ensures
            schema@ == Self::describe(old(generator)@),
            final(generator)@ == Self::collect(old(generator)@),
    ;

    /// `true` for `Option<T>`, which makes derived struct fields non-required.
    fn optional() -> (r: bool)
        ensures
            r == Self::may_be_absent(),
    ;
}

/// The reference to a registered schema.
pub open spec fn component(name: Seq<char>) -> Seq<char> {
    "#/components/schemas/"@ + name
}

/// The schema to use where a `T` occurs.
pub open spec fn used<T: JsonSchema + ?Sized>(g: Collected) -> SchemaModel {
    match T::name() {
        None => T::describe(g),
        Some(name) => SchemaModel::reference(component(name)),
    }
}

/// What is collected once a `T` has occurred.
pub open spec fn used_collect<T: JsonSchema + ?Sized>(g: Collected) -> Collected {
    match T::name() {
        None => T::collect(g),
        Some(name) => if g.knows(name) {
            g
        } else {
            T::collect(g.begin(name)).finish(name, T::describe(g.begin(name)))
        },
    }
}

impl SchemaGenerator {
    /// Creates an empty generator.
    pub fn new() -> (g: Self)
        ensures
            g@ == Collected::empty(),
    {
        let g = SchemaGenerator { definitions: SchemaMap::new(), in_progress: Vec::new() };
        proof {
            schema::lemma_schemas_model(g.definitions);
        }
        assert(g@ =~= Collected::empty());
        g
    }

    /// Returns the schema to use *at a use site* for `T`.
    ///
    /// Named types are registered in the component map and referenced;
    /// anonymous types are inlined.
    pub fn subschema_for<T: JsonSchema + ?Sized>(&mut self) -> (out: Schema)
        ensures
            out@ == used::<T>(old(self)@),
            final(self)@ == used_collect::<T>(old(self)@),
    {
        match T::schema_name() {
            None => T::json_schema(self),
            Some(name) => {
                let ghost g = self@;
                proof {
                    lemma_position(self.definitions, name@);
                    schema::lemma_schemas_model(self.definitions);
                }
                let _: usize = self.definitions.len();
                assert(ordered::distinct(g.definitions));
                if !self.definitions.contains_key(name.as_str()) && !text::has_text(
                    &self.in_progress,
                    name.as_str(),
                ) {
                    // Mark before recursing so a self-referential type sees a
                    // `$ref` instead of recursing forever.
                    let entry = name.clone();
                    proof {
                        text::lemma_views_push(self.in_progress@, entry);
                    }
                    self.in_progress.push(entry);
                    assert(self@ =~= g.begin(name@));
                    let described = T::json_schema(self);
                    let ghost after = self@;
                    proof {
                        T::only_adds(g.begin(name@));
                    }
                    let ghost stack = self.in_progress@;
                    assert(text::views(stack) == after.in_progress);
                    assert(stack.len() == after.in_progress.len());
                    self.in_progress.pop();
                    proof {
                        assert(text::views(self.in_progress@) =~= after.in_progress.drop_last());
                        lemma_position(self.definitions, name@);
                    }
                    let ghost before = self.definitions;
                    let ghost model = described@;
                    self.definitions.insert(name.clone(), described);
                    proof {
                        lemma_inserted(before, self.definitions, name@, described);
                        assert(self@ =~= after.finish(name@, model));
                    }
                }
                let mut target = "#/components/schemas/".to_owned();
                target.append(name.as_str());
                Schema::reference(target.as_str())
            },
        }
    }

    /// Returns the schema for `T` fully inlined, still registering any nested
    /// named types it refers to.
    pub fn inline_for<T: JsonSchema + ?Sized>(&mut self) -> (out: Schema)
        ensures
            out@ == T::describe(old(self)@),
            final(self)@ == T::collect(old(self)@),
    {
        T::json_schema(self)
    }

    /// Registers a pre-built schema under an explicit name.
    pub fn insert(&mut self, name: &str, schema: Schema)
        ensures
            final(self)@.definitions == ordered::inserted(
                old(self)@.definitions,
                name@,
                schema@,
            ),
            final(self)@.in_progress == old(self)@.in_progress,
    {
        let ghost before = self.definitions;
        self.definitions.insert(name.to_owned(), schema);
        proof {
            lemma_position(before, name@);
            lemma_inserted(before, self.definitions, name@, schema);
        }
    }

    /// All schemas collected so far, in insertion order.
    pub fn definitions(&self) -> (map: &SchemaMap)
        ensures
            schema::schemas_model(*map) == self@.definitions,
    {
        &self.definitions
    }

    /// Consumes the generator, yielding the collected schemas.
    pub fn into_definitions(self) -> (map: SchemaMap)
        ensures
            schema::schemas_model(map) == self@.definitions,
    {
        self.definitions
    }
}

/// A map of schemas and its model have a key at the same position.
pub proof fn lemma_position(m: SchemaMap, key: Seq<char>)
    ensures
        ordered::position(m@, key) == ordered::position(schema::schemas_model(m), key),
{
    schema::lemma_schemas_model(m);
    schema::lemma_same_position(m@, schema::schemas_model(m), key);
}

/// Inserting into a map of schemas inserts into its model.
pub proof fn lemma_inserted(before: SchemaMap, after: SchemaMap, key: Seq<char>, schema: Schema)
    requires
        after@ == ordered::inserted(before@, key, schema),
    ensures
        schema::schemas_model(after) == ordered::inserted(
            schema::schemas_model(before),
            key,
            schema@,
        ),
{
    schema::lemma_schemas_model(before);
    schema::lemma_schemas_model(after);
    lemma_position(before, key);
    ordered::lemma_position(before@, key);
    let m = schema::schemas_model(after);
    let n = ordered::inserted(schema::schemas_model(before), key, schema@);
    assert(m.len() == n.len());
    assert forall|i: int| 0 <= i < m.len() implies m[i] == n[i] by {
        assert(m[i] == (after@[i].0, schema::schema_model(after@[i].1)));
    }
    assert(m =~= n);
}

/// Whether `char::is_alphanumeric` holds of a character.
pub uninterp spec fn is_letter_or_digit(c: char) -> bool;

/// `char::is_alphanumeric`: among ASCII characters, the letters and digits.
/// Beyond ASCII the set is named, not described.
#[verifier::external_body]
fn letter_or_digit(c: char) -> (r: bool)
    ensures
        r == is_letter_or_digit(c),
        (c as int) < 128 ==> r == (48 <= c as int <= 57 || 65 <= c as int <= 90 || 97 <= c as int
            <= 122),
{
    c.is_alphanumeric()
}

/// The characters of words: those that stay as they are in an identifier.
pub open spec fn is_word_char(c: char) -> bool {
    if (c as int) < 128 {
        48 <= c as int <= 57 || 65 <= c as int <= 90 || 97 <= c as int <= 122 || c == '_'
    } else {
        is_letter_or_digit(c)
    }
}

fn word_char(c: char) -> (r: bool)
    ensures
        r == is_word_char(c),
{
    c == '_' || letter_or_digit(c)
}

/// A text without the word at its end.
pub open spec fn without_last_word(s: Seq<char>) -> Seq<char>
    decreases s.len(),
{
    if s.len() > 0 && is_word_char(s.last()) {
        without_last_word(s.drop_last())
    } else {
        s
    }
}

/// The rest of a type's full name from `i` on, behind what is kept of the part
/// before: a `::` takes away the word in front of it.
pub open spec fn unqualified_from(full: Seq<char>, i: int, kept: Seq<char>) -> Seq<char>
    decreases full.len() - i,
{
    if i < 0 || i >= full.len() {
        kept
    } else if full[i] == ':' && i + 1 < full.len() && full[i + 1] == ':' {
        unqualified_from(full, i + 2, without_last_word(kept))
    } else {
        unqualified_from(full, i + 1, kept.push(full[i]))
    }
}

/// A type's full name without module paths: `Vec<String>` for
/// `alloc::vec::Vec<alloc::string::String>`.
pub open spec fn unqualified(full: Seq<char>) -> Seq<char> {
    unqualified_from(full, 0, Seq::empty())
}

/// The word for a character that cannot stand in an identifier.
pub open spec fn sign_word(c: char) -> Seq<char> {
    if c == '<' {
        "of"@
    } else if c == '>' {
        "end"@
    } else if c == ',' {
        "and"@
    } else {
        text::decimal(c as nat)
    }
}

/// A character as an identifier spells it.
pub open spec fn identifier_code(c: char) -> Seq<char> {
    if is_word_char(c) {
        seq![c]
    } else {
        seq!['-'] + sign_word(c) + seq!['-']
    }
}

/// An identifier for a type's full name: module paths are left out, words stay,
/// and other characters are spelled out, so that `Vec<String>` becomes
/// `Vec-of-String-end-`.
pub open spec fn identifier(full: Seq<char>) -> Seq<char> {
    let name = unqualified(full);
    if name.len() == 0 {
        "Anonymous"@
    } else {
        text::coded(name, |c: char| identifier_code(c))
    }
}

proof fn lemma_sign_words(c: char, d: char)
    ensures
        forall|i: int| 0 <= i < sign_word(c).len() ==> #[trigger] sign_word(c)[i] != '-',
        sign_word(c) == sign_word(d) ==> c == d,
{
    reveal_strlit("of");
    reveal_strlit("end");
    reveal_strlit("and");
    text::lemma_decimal_digits(c as nat);
    text::lemma_decimal_digits(d as nat);
    if sign_word(c) == sign_word(d) {
        assert(sign_word(c)[0] == sign_word(d)[0]);
        if sign_word(c)[0] <= '9' {
            text::lemma_decimal_injective(c as nat, d as nat);
        }
    }
}

proof fn lemma_identifier_readable(x: Seq<char>, y: Seq<char>, c: char, d: char)
    requires
        x + identifier_code(c) == y + identifier_code(d),
    ensures
        c == d,
{
    let z = x + identifier_code(c);
    let n = z.len();
    assert(z.last() == identifier_code(c).last());
    assert(z.last() == identifier_code(d).last());
    if !is_word_char(c) && !is_word_char(d) {
        let t = sign_word(c);
        let u = sign_word(d);
        lemma_sign_words(c, d);
        lemma_sign_words(d, c);
        assert(z[n - 2 - t.len()] == '-');
        assert(z[n - 2 - u.len()] == '-') by {
            assert(z == y + identifier_code(d));
        }
        if t.len() < u.len() {
            assert(z[n - 2 - t.len()] == u[u.len() - 1 - t.len()]) by {
                assert(z == y + identifier_code(d));
            }
        } else if u.len() < t.len() {
            assert(z[n - 2 - u.len()] == t[t.len() - 1 - u.len()]);
        }
        assert(t =~= z.subrange(n - 1 - t.len(), n - 1));
        assert(u =~= z.subrange(n - 1 - u.len(), n - 1)) by {
            assert(z == y + identifier_code(d));
        }
    }
}

/// Types whose names differ by more than module paths have different
/// identifiers.
pub proof fn distinct_names_have_distinct_identifiers(a: Seq<char>, b: Seq<char>)
    requires
        unqualified(a).len() > 0,
        unqualified(b).len() > 0,
        identifier(a) == identifier(b),
    ensures
        unqualified(a) == unqualified(b),
{
    let code = |c: char| identifier_code(c);
    assert forall|x: Seq<char>, y: Seq<char>, c: char, d: char|
        #![trigger x + code(c), y + code(d)]
        x + code(c) == y + code(d) implies c == d by {
        lemma_identifier_readable(x, y, c, d);
    }
    text::lemma_coded_injective(unqualified(a), unqualified(b), code);
}

fn drop_last_word(kept: &mut Vec<char>)
    ensures
        final(kept)@ == without_last_word(old(kept)@),
{
    while kept.len() > 0 && word_char(kept[kept.len() - 1])
        invariant
            without_last_word(kept@) == without_last_word(old(kept)@),
        decreases kept@.len(),
    {
        assert(kept@.drop_last() =~= kept@.take(kept@.len() - 1));
        kept.pop();
    }
}

/// A type's full name without module paths.
pub fn unqualified_of(full: &str) -> (out: Vec<char>)
    ensures
        out@ == unqualified(full@),
{
    let v = text::chars(full);
    let n: usize = v.len();
    let mut kept: Vec<char> = Vec::new();
    let mut i: usize = 0;
    assert(kept@ =~= Seq::<char>::empty());
    while i < n
        invariant
            i <= n,
            n == v@.len(),
            v@ == full@,
            unqualified_from(full@, i as int, kept@) == unqualified(full@),
        decreases n - i,
    {
        if v[i] == ':' && i + 1 < n && v[i + 1] == ':' {
            drop_last_word(&mut kept);
            i += 2;
        } else {
            kept.push(v[i]);
            i += 1;
        }
    }
    kept
}

fn sign_text(c: char) -> (out: String)
    ensures
        out@ == sign_word(c),
{
    if c == '<' {
        "of".to_owned()
    } else if c == '>' {
        "end".to_owned()
    } else if c == ',' {
        "and".to_owned()
    } else {
        let number: u32 = c as u32;
        text::decimal_text(number as u64)
    }
}

/// An identifier for a type's full name.
pub fn identifier_of(full: &str) -> (out: String)
    ensures
        out@ == identifier(full@),
{
    let name = unqualified_of(full);
    if name.len() == 0 {
        return "Anonymous".to_owned();
    }
    let ghost code = |c: char| identifier_code(c);
    let mut out = String::new();
    assert(name@.take(0) =~= Seq::<char>::empty());
    for i in 0..name.len()
        invariant
            code == (|c: char| identifier_code(c)),
            out@ == text::coded(name@.take(i as int), code),
    {
        assert(name@.take(i + 1).drop_last() =~= name@.take(i as int));
        let c = name[i];
        let ghost before = out@;
        if word_char(c) {
            out.push(c);
            assert(out@ =~= before + identifier_code(c));
        } else {
            out.push('-');
            out.append(sign_text(c).as_str());
            out.push('-');
            assert(out@ =~= before + (seq!['-'] + sign_word(c) + seq!['-']));
        }
    }
    assert(name@.take(name@.len() as int) =~= name@);
    out
}

/// A name for `T`: the one it is registered under, or else one made from
/// `full`, its name in the language.
pub fn name_of<T: JsonSchema + ?Sized>(full: &str) -> (out: String)
    ensures
        out@ == match T::name() {
            Some(name) => name,
            None => identifier(full@),
        },
{
    match T::schema_name() {
        Some(name) => name,
        None => identifier_of(full),
    }
}

/// Builds a standalone document fragment for a single type. Handy in tests.
pub fn schema_for<T: JsonSchema>() -> (out: (Schema, SchemaMap))
    ensures
        out.0@ == used::<T>(Collected::empty()),
        schema::schemas_model(out.1) == used_collect::<T>(Collected::empty()).definitions,
{
    let mut generator = SchemaGenerator::new();
    let root = generator.subschema_for::<T>();
    (root, generator.into_definitions())
}

/// Using a type registers it, or leaves it to whoever is describing it, and
/// keeps what was there.
pub proof fn using_a_type_only_adds<T: JsonSchema + ?Sized>(g: Collected)
    requires
        ordered::distinct(g.definitions),
    ensures
        g.extends_to(used_collect::<T>(g)),
        T::name() matches Some(name) ==> used_collect::<T>(g).knows(name),
{
    match T::name() {
        None => {
            T::only_adds(g);
        },
        Some(name) => {
            if !g.knows(name) {
                let begun = g.begin(name);
                let inner = T::collect(begun);
                let schema = T::describe(begun);
                T::only_adds(begun);
                ordered::lemma_position(g.definitions, name);
                ordered::insertion_is_remembered(inner.definitions, name, schema, name);
                assert(inner.in_progress.drop_last() =~= g.in_progress);
                assert forall|other: Seq<char>|
                    ordered::position(g.definitions, other) is Some implies #[trigger] ordered::lookup(
                    used_collect::<T>(g).definitions,
                    other,
                ) == ordered::lookup(g.definitions, other) by {
                    ordered::insertion_is_remembered(inner.definitions, name, schema, other);
                    assert(ordered::lookup(inner.definitions, other) == ordered::lookup(
                        g.definitions,
                        other,
                    ));
                }
            }
        },
    }
}

/// A type that is registered, or that is being described, is only referenced:
/// describing it again, as a type that contains itself would, ends at once and
/// registers nothing.
pub proof fn a_known_type_is_only_referenced<T: JsonSchema + ?Sized>(
    g: Collected,
    name: Seq<char>,
)
    requires
        T::name() == Some(name),
        g.knows(name),
    ensures
        used::<T>(g) == SchemaModel::reference(component(name)),
        used_collect::<T>(g) == g,
{
}

/// No type is being described twice at a time, so a description nests no deeper
/// than there are names.
pub proof fn no_type_is_described_inside_itself<T: JsonSchema + ?Sized>(
    g: Collected,
    name: Seq<char>,
)
    requires
        T::name() == Some(name),
        !g.knows(name),
        g.in_progress.no_duplicates(),
    ensures
        g.begin(name).in_progress.no_duplicates(),
        g.begin(name).knows(name),
{
    assert(g.begin(name).in_progress[g.in_progress.len() as int] == name);
}

} // verus!
