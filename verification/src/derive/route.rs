//! The routing attributes.

use crate::derive::attr;
use crate::derive::attr::{Attr, Meta, SyntaxError};
use crate::json::{Value, ValueModel};
use crate::openapi::ordered;
use crate::openapi::schema;
use crate::openapi::spec::OperationModel;
use crate::operation;
use crate::operation::{ContextModel, OperationContext, OperationInput, OperationOutput};
use crate::text;
use vstd::prelude::*;
use vstd::string::*;

verus! {

/// The suffix that turns a handler name into its generated route type.
pub const ROUTE_SUFFIX: &'static str = "__route";

// ---------------------------------------------------------------------------
// the arguments of the attribute
// ---------------------------------------------------------------------------

/// What stands inside `#[get(..)]`: the path, if a string literal comes first,
/// and the options after it.
pub struct RouteInput {
    pub path: Option<String>,
    pub options: Vec<Meta>,
}

/// `#[get("/path", tags = ["x"], summary = "...")]`
pub struct RouteArgs {
    pub path: String,
    pub tags: Vec<String>,
    pub summary: Option<String>,
    pub description: Option<String>,
    pub operation_id: Option<String>,
    pub deprecated: bool,
    pub hidden: bool,
}

/// The arguments of a routing attribute, as a value.
#[verifier::ext_equal]
pub struct RouteArgsModel {
    pub path: Seq<char>,
    pub tags: Seq<Seq<char>>,
    pub summary: Option<Seq<char>>,
    pub description: Option<Seq<char>>,
    pub operation_id: Option<Seq<char>>,
    pub deprecated: bool,
    pub hidden: bool,
}

impl View for RouteArgs {
    type V = RouteArgsModel;

    open spec fn view(&self) -> RouteArgsModel {
        RouteArgsModel {
            path: self.path@,
            tags: text::views(self.tags@),
            summary: text::opt(self.summary),
            description: text::opt(self.description),
            operation_id: text::opt(self.operation_id),
            deprecated: self.deprecated,
            hidden: self.hidden,
        }
    }
}

pub open spec fn bare(path: Seq<char>) -> RouteArgsModel {
    RouteArgsModel {
        path,
        tags: Seq::empty(),
        summary: None,
        description: None,
        operation_id: None,
        deprecated: false,
        hidden: false,
    }
}

/// The arguments after one more option.
pub open spec fn option_read(args: RouteArgsModel, m: Meta) -> Result<RouteArgsModel, Seq<char>> {
    let name = m.path@;
    if name == "deprecated"@ || name == "hidden"@ {
        if m.value is Some || m.group is Some {
            Err("unexpected token"@)
        } else if name == "deprecated"@ {
            Ok(RouteArgsModel { deprecated: true, ..args })
        } else {
            Ok(RouteArgsModel { hidden: true, ..args })
        }
    } else {
        match m.value {
            None => Err("`"@ + name + "` needs a value"@),
            Some(value) => if name == "tags"@ {
                match attr::text_literals(value) {
                    Ok(tags) => Ok(RouteArgsModel { tags, ..args }),
                    Err(e) => Err(e),
                }
            } else if name == "summary"@ {
                match attr::text_literal(value) {
                    Ok(s) => Ok(RouteArgsModel { summary: Some(s), ..args }),
                    Err(e) => Err(e),
                }
            } else if name == "description"@ {
                match attr::text_literal(value) {
                    Ok(s) => Ok(RouteArgsModel { description: Some(s), ..args }),
                    Err(e) => Err(e),
                }
            } else if name == "operation_id"@ || name == "id"@ {
                match attr::text_literal(value) {
                    Ok(s) => Ok(RouteArgsModel { operation_id: Some(s), ..args }),
                    Err(e) => Err(e),
                }
            } else {
                Err(
                    "unknown route option `"@ + name
                        + "`; expected one of `tags`, `summary`, `description`, `operation_id`, `deprecated`, `hidden`"@,
                )
            },
        }
    }
}

pub open spec fn options_read(args: RouteArgsModel, options: Seq<Meta>) -> Result<
    RouteArgsModel,
    Seq<char>,
>
    decreases options.len(),
{
    if options.len() == 0 {
        Ok(args)
    } else {
        match options_read(args, options.drop_last()) {
            Err(e) => Err(e),
            Ok(before) => option_read(before, options.last()),
        }
    }
}

/// What the arguments of a routing attribute say.
pub open spec fn args_of(input: RouteInput) -> Result<RouteArgsModel, Seq<char>> {
    match input.path {
        None => Err("expected a route path, e.g. `#[get(\"/users/{id}\")]`"@),
        Some(path) => options_read(bare(path@), input.options@),
    }
}

proof fn lemma_options_stop(args: RouteArgsModel, options: Seq<Meta>, i: int)
    requires
        0 <= i <= options.len(),
        options_read(args, options.take(i)) is Err,
    ensures
        options_read(args, options) == options_read(args, options.take(i)),
    decreases options.len() - i,
{
    if i == options.len() {
        assert(options.take(i) =~= options);
    } else {
        assert(options.take(i + 1).drop_last() =~= options.take(i));
        lemma_options_stop(args, options, i + 1);
    }
}

fn read_option(args: RouteArgs, m: &Meta) -> (r: Result<RouteArgs, SyntaxError>)
    ensures
        match r {
            Ok(out) => option_read(args@, *m) == Ok::<RouteArgsModel, Seq<char>>(out@),
            Err(e) => option_read(args@, *m) == Err::<RouteArgsModel, Seq<char>>(e.message@),
        },
{
    let mut args = args;
    let name = m.path.as_str();
    if text::same(name, "deprecated") || text::same(name, "hidden") {
        if m.value.is_some() || m.group.is_some() {
            return Err(attr::syntax_error("unexpected token"));
        }
        if text::same(name, "deprecated") {
            args.deprecated = true;
        } else {
            args.hidden = true;
        }
        return Ok(args);
    }
    let value = match &m.value {
        Some(value) => value,
        None => {
            let mut message = "`".to_owned();
            message.append(name);
            message.append("` needs a value");
            return Err(SyntaxError { message });
        },
    };
    if text::same(name, "tags") {
        match attr::lit_str_array(value) {
            Ok(tags) => args.tags = tags,
            Err(e) => return Err(e),
        }
    } else if text::same(name, "summary") {
        match attr::lit_str(value) {
            Ok(s) => args.summary = Some(s),
            Err(e) => return Err(e),
        }
    } else if text::same(name, "description") {
        match attr::lit_str(value) {
            Ok(s) => args.description = Some(s),
            Err(e) => return Err(e),
        }
    } else if text::same(name, "operation_id") || text::same(name, "id") {
        match attr::lit_str(value) {
            Ok(s) => args.operation_id = Some(s),
            Err(e) => return Err(e),
        }
    } else {
        let mut message = "unknown route option `".to_owned();
        message.append(name);
        message.append(
            "`; expected one of `tags`, `summary`, `description`, `operation_id`, `deprecated`, `hidden`",
        );
        return Err(SyntaxError { message });
    }
    Ok(args)
}

impl RouteArgs {
    /// Reads the arguments of a routing attribute.
    pub fn parse(input: &RouteInput) -> (r: Result<Self, SyntaxError>)
        ensures
            match r {
                Ok(args) => args_of(*input) == Ok::<RouteArgsModel, Seq<char>>(args@),
                Err(e) => args_of(*input) == Err::<RouteArgsModel, Seq<char>>(e.message@),
            },
    {
        let path = match &input.path {
            Some(path) => path,
            None => return Err(
                attr::syntax_error("expected a route path, e.g. `#[get(\"/users/{id}\")]`"),
            ),
        };
        let mut args = RouteArgs {
            path: path.clone(),
            tags: Vec::new(),
            summary: None,
            description: None,
            operation_id: None,
            deprecated: false,
            hidden: false,
        };
        let ghost start = args@;
        assert(start =~= bare(path@));
        let options = &input.options;
        assert(options@.take(0) =~= Seq::<Meta>::empty());
        for i in 0..options.len()
            invariant
                start == bare(path@),
                input.path == Some(*path),
                *options == input.options,
                options_read(start, options@.take(i as int)) == Ok::<RouteArgsModel, Seq<char>>(
                    args@,
                ),
        {
            assert(options@.take(i + 1).drop_last() =~= options@.take(i as int));
            match read_option(args, &options[i]) {
                Ok(next) => args = next,
                Err(e) => {
                    proof {
                        lemma_options_stop(start, options@, i + 1);
                    }
                    return Err(e);
                },
            }
        }
        assert(options@.take(options@.len() as int) =~= options@);
        Ok(args)
    }
}

// ---------------------------------------------------------------------------
// the signature of the handler
// ---------------------------------------------------------------------------

/// A type as it is written.
pub enum TypeExpr {
    /// `impl Trait`
    ImplTrait,
    /// `a::B<C>`, with whether it is qualified (`<T as Trait>::B`).
    Path { qualified: bool, segments: Vec<PathSegment> },
    Tuple(Vec<TypeExpr>),
    Reference(Box<TypeExpr>),
    Paren(Box<TypeExpr>),
    Group(Box<TypeExpr>),
    Other,
}

/// One segment of a path, with its arguments in angle brackets.
pub struct PathSegment {
    pub ident: String,
    pub arguments: Option<Vec<GenericArg>>,
}

/// One argument in angle brackets.
pub enum GenericArg {
    Type(TypeExpr),
    /// A lifetime, a constant or a constraint.
    Other,
}

/// Whether `impl Trait` stands anywhere inside a type.
pub open spec fn has_impl(ty: TypeExpr) -> bool
    decreases ty,
{
    match ty {
        TypeExpr::ImplTrait => true,
        TypeExpr::Path { segments, .. } => segments_have_impl(segments@),
        TypeExpr::Tuple(list) => types_have_impl(list@),
        TypeExpr::Reference(inner) => has_impl(*inner),
        TypeExpr::Paren(inner) => has_impl(*inner),
        TypeExpr::Group(inner) => has_impl(*inner),
        TypeExpr::Other => false,
    }
}

/// Whether it stands inside one of several types.
pub open spec fn types_have_impl(list: Seq<TypeExpr>) -> bool
    decreases list,
{
    list.len() > 0 && (types_have_impl(list.drop_last()) || has_impl(list.last()))
}

/// Whether it stands inside one of a path's segments.
pub open spec fn segments_have_impl(list: Seq<PathSegment>) -> bool
    decreases list,
{
    list.len() > 0 && (segments_have_impl(list.drop_last()) || segment_has_impl(list.last()))
}

pub open spec fn segment_has_impl(segment: PathSegment) -> bool
    decreases segment,
{
    match segment.arguments {
        Some(args) => arguments_have_impl(args@),
        None => false,
    }
}

/// Whether it stands inside one of several generic arguments.
pub open spec fn arguments_have_impl(list: Seq<GenericArg>) -> bool
    decreases list,
{
    list.len() > 0 && (arguments_have_impl(list.drop_last()) || argument_has_impl(list.last()))
}

pub open spec fn argument_has_impl(arg: GenericArg) -> bool
    decreases arg,
{
    match arg {
        GenericArg::Type(ty) => has_impl(ty),
        GenericArg::Other => false,
    }
}

/// Finds `impl Trait` anywhere inside a type, including nested in generic
/// arguments: `Sse<impl Stream>` is just as unnameable as a bare `impl`.
pub fn find_impl_trait(ty: &TypeExpr) -> (found: bool)
    ensures
        found == has_impl(*ty),
    decreases *ty,
{
    match ty {
        TypeExpr::ImplTrait => true,
        TypeExpr::Path { segments, .. } => {
            let mut found = false;
            for i in 0..segments.len()
                invariant
                    found == segments_have_impl(segments@.take(i as int)),
                    decreases_to!(*ty => segments@),
            {
                assert(decreases_to!(segments@ => segments@[i as int]));
                assert(segments@.take(i + 1).drop_last() =~= segments@.take(i as int));
                if find_in_segment(&segments[i]) {
                    found = true;
                }
            }
            assert(segments@.take(segments@.len() as int) =~= segments@);
            found
        },
        TypeExpr::Tuple(list) => {
            let mut found = false;
            for i in 0..list.len()
                invariant
                    found == types_have_impl(list@.take(i as int)),
                    decreases_to!(*ty => list@),
            {
                assert(decreases_to!(list@ => list@[i as int]));
                assert(list@.take(i + 1).drop_last() =~= list@.take(i as int));
                if find_impl_trait(&list[i]) {
                    found = true;
                }
            }
            assert(list@.take(list@.len() as int) =~= list@);
            found
        },
        TypeExpr::Reference(inner) => find_impl_trait(inner),
        TypeExpr::Paren(inner) => find_impl_trait(inner),
        TypeExpr::Group(inner) => find_impl_trait(inner),
        TypeExpr::Other => false,
    }
}

fn find_in_segment(segment: &PathSegment) -> (found: bool)
    ensures
        found == segment_has_impl(*segment),
    decreases *segment,
{
    match &segment.arguments {
        Some(args) => {
            let mut found = false;
            assert(decreases_to!(*segment => segment.arguments));
            assert(decreases_to!(segment.arguments => segment.arguments->0));
            for i in 0..args.len()
                invariant
                    found == arguments_have_impl(args@.take(i as int)),
                    decreases_to!(*segment => args@),
            {
                assert(decreases_to!(args@ => args@[i as int]));
                assert(args@.take(i + 1).drop_last() =~= args@.take(i as int));
                if find_in_argument(&args[i]) {
                    found = true;
                }
            }
            assert(args@.take(args@.len() as int) =~= args@);
            found
        },
        None => false,
    }
}

fn find_in_argument(arg: &GenericArg) -> (found: bool)
    ensures
        found == argument_has_impl(*arg),
    decreases *arg,
{
    match arg {
        GenericArg::Type(ty) => find_impl_trait(ty),
        GenericArg::Other => false,
    }
}

/// The first type among generic arguments at or after `from`.
pub open spec fn first_type(args: Seq<GenericArg>, from: int) -> Option<TypeExpr>
    decreases args.len() - from,
{
    if from < 0 || from >= args.len() {
        None
    } else {
        match args[from] {
            GenericArg::Type(ty) => Some(ty),
            GenericArg::Other => first_type(args, from + 1),
        }
    }
}

/// The argument of a type that is written `Option<_>`.
pub open spec fn optional_type(ty: TypeExpr) -> Option<TypeExpr> {
    match ty {
        TypeExpr::Path { qualified, segments } => {
            if !qualified && segments@.len() > 0 && segments@.last().ident@ == "Option"@ {
                match segments@.last().arguments {
                    Some(args) => first_type(args@, 0),
                    None => None,
                }
            } else {
                None
            }
        },
        _ => None,
    }
}

/// The argument of a type that is syntactically `Option<_>`.
///
/// This has to be a syntactic check: a derive cannot ask the type system
/// whether a type is `Option`. A field aliased to `Option` under another name
/// is treated as required, which is the safe direction.
pub fn option_inner(ty: &TypeExpr) -> (inner: Option<&TypeExpr>)
    ensures
        match inner {
            Some(inner) => optional_type(*ty) == Some(*inner),
            None => optional_type(*ty) is None,
        },
{
    match ty {
        TypeExpr::Path { qualified, segments } => {
            let n: usize = segments.len();
            if *qualified || n == 0 || !text::same(segments[n - 1].ident.as_str(), "Option") {
                return None;
            }
            match &segments[n - 1].arguments {
                Some(args) => {
                    for i in 0..args.len()
                        invariant
                            first_type(args@, 0) == first_type(args@, i as int),
                            optional_type(*ty) == first_type(args@, 0),
                    {
                        if let GenericArg::Type(inner) = &args[i] {
                            return Some(inner);
                        }
                    }
                    None
                },
                None => None,
            }
        },
        _ => None,
    }
}

/// One argument of a handler.
pub enum Argument {
    /// `self`, in any form.
    Receiver,
    Typed(TypeExpr),
}

/// A handler as it was declared.
pub struct HandlerFn {
    pub ident: String,
    pub attrs: Vec<Attr>,
    pub is_async: bool,
    /// Whether it has type or constant parameters.
    pub is_generic: bool,
    pub arguments: Vec<Argument>,
    pub output: Option<TypeExpr>,
}

/// What is wrong with a handler's signature.
pub open spec fn signature_fault(f: HandlerFn) -> Option<Seq<char>> {
    if !f.is_async {
        Some("route handlers must be `async fn`"@)
    } else if f.is_generic {
        Some(
            "route handlers cannot be generic: the OpenAPI operation is built from concrete types, and there is no single operation to generate for a generic handler"@,
        )
    } else if f.output is Some && has_impl(f.output->0) {
        Some(
            "route handlers must name their return type; `impl Trait` cannot appear in it, because the generated operation has to refer to the type by name. Return a concrete type such as `Json<T>`, `Result<Json<T>, ApiError>`, or `Sse<EventStream>` (see `Sse::boxed`)"@,
        )
    } else {
        None
    }
}

/// Checks that an operation can be generated for a handler.
pub fn check_signature(f: &HandlerFn) -> (r: Result<(), SyntaxError>)
    ensures
        match r {
            Ok(_) => signature_fault(*f) is None,
            Err(e) => signature_fault(*f) == Some(e.message@),
        },
{
    if !f.is_async {
        return Err(attr::syntax_error("route handlers must be `async fn`"));
    }
    if f.is_generic {
        return Err(
            attr::syntax_error(
                "route handlers cannot be generic: the OpenAPI operation is built from concrete types, and there is no single operation to generate for a generic handler",
            ),
        );
    }
    if let Some(ty) = &f.output {
        if find_impl_trait(ty) {
            return Err(
                attr::syntax_error(
                    "route handlers must name their return type; `impl Trait` cannot appear in it, because the generated operation has to refer to the type by name. Return a concrete type such as `Json<T>`, `Result<Json<T>, ApiError>`, or `Sse<EventStream>` (see `Sse::boxed`)",
                ),
            );
        }
    }
    Ok(())
}

// ---------------------------------------------------------------------------
// the path
// ---------------------------------------------------------------------------

/// How far a template has been read: whether a brace is open, what stands
/// behind it so far, and the names that were closed.
#[verifier::ext_equal]
pub struct PathScan {
    pub inside: bool,
    pub current: Seq<char>,
    pub seen: Seq<Seq<char>>,
}

/// A text without the stars in front of it.
pub open spec fn without_stars(s: Seq<char>) -> Seq<char>
    decreases s.len(),
{
    if s.len() > 0 && s[0] == '*' {
        without_stars(s.skip(1))
    } else {
        s
    }
}

pub open spec fn path_step(s: PathScan, c: char) -> Result<PathScan, Seq<char>> {
    if c == '{' {
        if s.inside {
            Err("nested `{` in route path"@)
        } else {
            Ok(PathScan { inside: true, current: Seq::empty(), ..s })
        }
    } else if c == '}' {
        let name = without_stars(s.current);
        if !s.inside {
            Err("unmatched `}` in route path"@)
        } else if name.len() == 0 {
            Err("a path parameter needs a name, e.g. `{id}`"@)
        } else if s.seen.contains(name) {
            Err("path parameter `"@ + name + "` appears more than once"@)
        } else {
            Ok(PathScan { inside: false, seen: s.seen.push(name), ..s })
        }
    } else if s.inside {
        Ok(PathScan { current: s.current.push(c), ..s })
    } else {
        Ok(s)
    }
}

pub open spec fn path_scan(path: Seq<char>) -> Result<PathScan, Seq<char>>
    decreases path.len(),
{
    if path.len() == 0 {
        Ok(PathScan { inside: false, current: Seq::empty(), seen: Seq::empty() })
    } else {
        match path_scan(path.drop_last()) {
            Err(e) => Err(e),
            Ok(s) => path_step(s, path.last()),
        }
    }
}

/// What is wrong with a route template.
pub open spec fn path_fault(path: Seq<char>) -> Option<Seq<char>> {
    if path.len() == 0 || path[0] != '/' {
        Some("route path must start with `/`, got `"@ + path + "`"@)
    } else {
        match path_scan(path) {
            Err(e) => Some(e),
            Ok(s) => if s.inside {
                Some("unmatched `{` in route path"@)
            } else {
                None
            },
        }
    }
}

proof fn lemma_scan_stops(path: Seq<char>, i: int)
    requires
        0 <= i <= path.len(),
        path_scan(path.take(i)) is Err,
    ensures
        path_scan(path) == path_scan(path.take(i)),
    decreases path.len() - i,
{
    if i == path.len() {
        assert(path.take(i) =~= path);
    } else {
        assert(path.take(i + 1).drop_last() =~= path.take(i));
        lemma_scan_stops(path, i + 1);
    }
}

/// Removes the stars in front of a name.
fn trim_stars(v: &Vec<char>) -> (name: String)
    ensures
        name@ == without_stars(v@),
{
    let n: usize = v.len();
    let mut i: usize = 0;
    assert(v@.skip(0) =~= v@);
    while i < n && v[i] == '*'
        invariant
            i <= n,
            n == v@.len(),
            without_stars(v@) == without_stars(v@.skip(i as int)),
        decreases n - i,
    {
        assert(v@.skip(i as int).skip(1) =~= v@.skip(i + 1));
        i += 1;
    }
    assert(v@.subrange(i as int, n as int) =~= v@.skip(i as int));
    text::text_of(v, i, n)
}

/// Checks the template's braces balance and that names are usable.
pub fn validate_path(path: &str) -> (r: Result<(), SyntaxError>)
    ensures
        match r {
            Ok(_) => path_fault(path@) is None,
            Err(e) => path_fault(path@) == Some(e.message@),
        },
{
    let v = text::chars(path);
    if v.len() == 0 || v[0] != '/' {
        let mut message = "route path must start with `/`, got `".to_owned();
        message.append(path);
        message.append("`");
        return Err(SyntaxError { message });
    }
    let mut inside = false;
    let mut current: Vec<char> = Vec::new();
    let mut seen: Vec<String> = Vec::new();
    assert(path@.take(0) =~= Seq::<char>::empty());
    assert(text::views(seen@) =~= Seq::<Seq<char>>::empty());
    for i in 0..v.len()
        invariant
            v@ == path@,
            path@.len() > 0 && path@[0] == '/',
            path_scan(path@.take(i as int)) == Ok::<PathScan, Seq<char>>(
                PathScan { inside, current: current@, seen: text::views(seen@) },
            ),
    {
        let ch = v[i];
        let ghost before = PathScan { inside, current: current@, seen: text::views(seen@) };
        proof {
            assert(path@.take(i + 1).drop_last() =~= path@.take(i as int));
            assert(path@.take(i + 1).last() == ch);
            if path_step(before, ch) is Err {
                lemma_scan_stops(path@, i + 1);
            }
        }
        if ch == '{' {
            if inside {
                return Err(attr::syntax_error("nested `{` in route path"));
            }
            inside = true;
            current = Vec::new();
            assert(current@ =~= Seq::<char>::empty());
        } else if ch == '}' {
            if !inside {
                return Err(attr::syntax_error("unmatched `}` in route path"));
            }
            inside = false;
            let name = trim_stars(&current);
            if name.as_str().is_empty() {
                return Err(attr::syntax_error("a path parameter needs a name, e.g. `{id}`"));
            }
            if text::has_text(&seen, name.as_str()) {
                let mut message = "path parameter `".to_owned();
                message.append(name.as_str());
                message.append("` appears more than once");
                return Err(SyntaxError { message });
            }
            proof {
                text::lemma_views_push(seen@, name);
            }
            seen.push(name);
        } else if inside {
            current.push(ch);
        }
    }
    assert(path@.take(path@.len() as int) =~= path@);
    if inside {
        return Err(attr::syntax_error("unmatched `{` in route path"));
    }
    Ok(())
}

/// Reading on from `k`: `names` are the parameters closed so far, `open` is
/// where the brace that is still open stands.
proof fn lemma_names(
    path: Seq<char>,
    k: int,
    st: PathScan,
    open: int,
    names: Seq<Seq<char>>,
)
    requires
        0 <= k <= path.len(),
        path_scan(path.take(k)) == Ok::<PathScan, Seq<char>>(st),
        path_scan(path) is Ok,
        !path_scan(path)->Ok_0.inside,
        names.len() == st.seen.len(),
        forall|i: int| 0 <= i < names.len() ==> without_stars(#[trigger] names[i]) == st.seen[i],
        st.seen.no_duplicates(),
        st.inside ==> {
            &&& 0 <= open < k
            &&& path[open] == '{'
            &&& st.current == path.subrange(open + 1, k)
            &&& forall|j: int| open < j < k ==> #[trigger] path[j] != '}'
            &&& names + operation::names_from(path, open) == operation::names_from(path, 0)
        },
        !st.inside ==> names + operation::names_from(path, k) == operation::names_from(path, 0),
    ensures
        operation::names_from(path, 0).no_duplicates(),
    decreases path.len() - k,
{
    if k == path.len() {
        assert(path.take(k) =~= path);
        assert(names + operation::names_from(path, k) =~= names);
        assert forall|i: int, j: int|
            0 <= i < names.len() && 0 <= j < names.len() && i != j implies names[i]
            != names[j] by {
            assert(st.seen[i] != st.seen[j]);
        }
    } else {
        let c = path[k];
        assert(path.take(k + 1).drop_last() =~= path.take(k));
        assert(path.take(k + 1).last() == c);
        if path_step(st, c) is Err {
            lemma_scan_stops(path, k + 1);
        }
        let next = path_step(st, c)->Ok_0;
        if c == '{' {
            assert(next.current =~= path.subrange(k + 1, k + 1));
            lemma_names(path, k + 1, next, k, names);
        } else if c == '}' {
            let name = operation::unstarred(st.current);
            text::lemma_index_of(path, '{', open);
            text::lemma_index_of(path, '}', open + 1);
            assert(text::index_of(path, '{', open) == Some(open));
            assert(text::index_of(path, '}', open + 1) == Some(k));
            let more = names.push(name);
            assert(names + (seq![name] + operation::names_from(path, k + 1)) =~= more
                + operation::names_from(path, k + 1));
            lemma_names(path, k + 1, next, 0, more);
        } else if st.inside {
            assert(next.current =~= path.subrange(open + 1, k + 1));
            lemma_names(path, k + 1, next, open, names);
        } else {
            assert(text::index_of(path, '{', k) == text::index_of(path, '{', k + 1));
            assert(operation::names_from(path, k) == operation::names_from(path, k + 1));
            lemma_names(path, k + 1, next, 0, names);
        }
    }
}

/// A template that is accepted names each of its parameters once.
pub proof fn accepted_templates_name_each_parameter_once(path: Seq<char>)
    requires
        path_fault(path) is None,
    ensures
        operation::names_from(path, 0).no_duplicates(),
{
    assert(path.take(0) =~= Seq::<char>::empty());
    let names = Seq::<Seq<char>>::empty();
    assert(names + operation::names_from(path, 0) =~= operation::names_from(path, 0));
    lemma_names(
        path,
        0,
        PathScan { inside: false, current: Seq::empty(), seen: Seq::empty() },
        0,
        names,
    );
}

pub open spec fn is_brace(c: char) -> bool {
    c == '{' || c == '}'
}

/// The brace opened at `i` is closed at `j`, and no other stands between them.
pub open spec fn closes(path: Seq<char>, i: int, j: int) -> bool {
    &&& 0 <= i < j < path.len()
    &&& path[i] == '{'
    &&& path[j] == '}'
    &&& forall|k: int| i < k < j ==> !is_brace(#[trigger] path[k])
}

/// The parameter named between two braces.
pub open spec fn name_between(path: Seq<char>, i: int, j: int) -> Seq<char> {
    without_stars(path.subrange(i + 1, j))
}

/// The brace opened last is the one at `o`, and what stands behind it has been
/// read.
spec fn opened(path: Seq<char>, s: PathScan, o: int) -> bool {
    &&& 0 <= o < path.len()
    &&& path[o] == '{'
    &&& forall|k: int| o < k < path.len() ==> !is_brace(#[trigger] path[k])
    &&& s.current == path.subrange(o + 1, path.len() as int)
}

spec fn scanned(path: Seq<char>, s: PathScan) -> bool {
    &&& forall|i: int|
        0 <= i < path.len() && #[trigger] path[i] == '{' ==> (exists|j: int| closes(path, i, j))
            || (s.inside && opened(path, s, i))
    &&& forall|j: int|
        0 <= j < path.len() && #[trigger] path[j] == '}' ==> exists|i: int| closes(path, i, j)
    &&& forall|i: int, j: int| #[trigger]
        closes(path, i, j) ==> name_between(path, i, j).len() > 0 && s.seen.contains(
            name_between(path, i, j),
        )
    &&& s.inside ==> exists|o: int| opened(path, s, o)
    &&& forall|i: int, j: int, k: int, l: int|
        #![trigger closes(path, i, j), closes(path, k, l)]
        closes(path, i, j) && closes(path, k, l) && j < l ==> name_between(path, i, j)
            != name_between(path, k, l)
}

proof fn lemma_closes_before(path: Seq<char>, i: int, j: int)
    requires
        path.len() > 0,
        j < path.len() - 1,
    ensures
        closes(path, i, j) == closes(path.drop_last(), i, j),
        0 <= i < j ==> name_between(path, i, j) == name_between(path.drop_last(), i, j),
{
    let front = path.drop_last();
    if 0 <= i < j {
        assert(path.subrange(i + 1, j) =~= front.subrange(i + 1, j));
        assert(forall|k: int| i <= k <= j ==> path[k] == front[k]);
        if closes(path, i, j) {
            assert forall|k: int| i < k < j implies !is_brace(#[trigger] front[k]) by {
                assert(!is_brace(path[k]));
            }
        }
        if closes(front, i, j) {
            assert forall|k: int| i < k < j implies !is_brace(#[trigger] path[k]) by {
                assert(!is_brace(front[k]));
            }
        }
    }
}

#[verifier::spinoff_prover]
#[verifier::rlimit(60)]
proof fn lemma_scanned(path: Seq<char>)
    requires
        path_scan(path) is Ok,
    ensures
        scanned(path, path_scan(path)->Ok_0),
    decreases path.len(),
{
    let s = path_scan(path)->Ok_0;
    if path.len() > 0 {
        let front = path.drop_last();
        let n = path.len() - 1;
        let c = path.last();
        lemma_scanned(front);
        let before = path_scan(front)->Ok_0;
        assert(path[n] == c);
        assert forall|i: int, j: int| #[trigger] closes(path, i, j) implies j <= n && (j < n
            ==> closes(front, i, j)) by {
            if j < n {
                lemma_closes_before(path, i, j);
            }
        }
        // What was open before is closed by a brace here, or stays open.
        assert forall|o: int| #[trigger] opened(front, before, o) implies (c == '}' ==> closes(
            path,
            o,
            n,
        ) && name_between(path, o, n) == without_stars(before.current)) && (!is_brace(c)
            && before.inside ==> opened(path, s, o)) by {
            assert(path[o] == front[o]);
            if c == '}' {
                assert forall|k: int| o < k < n implies !is_brace(#[trigger] path[k]) by {
                    assert(!is_brace(front[k]));
                }
                assert(path.subrange(o + 1, n) =~= front.subrange(o + 1, n));
            }
            if !is_brace(c) && before.inside {
                assert forall|k: int| o < k < path.len() implies !is_brace(#[trigger] path[k]) by {
                    if k < n {
                        assert(!is_brace(front[k]));
                    }
                }
                assert(s.current =~= path.subrange(o + 1, path.len() as int));
            }
        }
        // Only the brace that is open can be closed here.
        assert forall|i: int| #[trigger] closes(path, i, n) implies name_between(path, i, n)
            == without_stars(before.current) by {
            let o = choose|o: int| opened(front, before, o);
            assert(opened(front, before, o));
            assert(path[o] == front[o] && path[i] == front[i]);
            if i < o {
                assert(!is_brace(path[o]));
            } else if o < i {
                assert(!is_brace(front[i]));
            }
        }
        assert forall|i: int| 0 <= i < path.len() && #[trigger] path[i] == '{' implies (exists|
            j: int,
        |
            closes(path, i, j)) || (s.inside && opened(path, s, i)) by {
            if i < n {
                assert(front[i] == '{');
                if exists|j: int| closes(front, i, j) {
                    let j = choose|j: int| closes(front, i, j);
                    lemma_closes_before(path, i, j);
                    assert(closes(path, i, j));
                } else {
                    assert(before.inside && opened(front, before, i));
                    if c == '}' {
                        assert(closes(path, i, n));
                    }
                }
            } else {
                assert(s.current =~= path.subrange(i + 1, path.len() as int));
                assert(opened(path, s, i));
            }
        }
        assert forall|j: int| 0 <= j < path.len() && #[trigger] path[j] == '}' implies exists|
            i: int,
        | closes(path, i, j) by {
            if j < n {
                assert(front[j] == '}');
                let i = choose|i: int| closes(front, i, j);
                lemma_closes_before(path, i, j);
                assert(closes(path, i, j));
            } else {
                let o = choose|o: int| opened(front, before, o);
                assert(opened(front, before, o));
                assert(closes(path, o, n));
            }
        }
        assert forall|i: int, j: int| #[trigger] closes(path, i, j) implies name_between(
            path,
            i,
            j,
        ).len() > 0 && s.seen.contains(name_between(path, i, j)) by {
            if j < n {
                lemma_closes_before(path, i, j);
                let name = name_between(front, i, j);
                assert(before.seen.contains(name));
                let k = choose|k: int| 0 <= k < before.seen.len() && before.seen[k] == name;
                assert(s.seen[k] == name);
            } else {
                assert(closes(path, i, n));
                assert(s.seen.last() == without_stars(before.current));
            }
        }
        assert forall|i: int, j: int, k: int, l: int|
            #![trigger closes(path, i, j), closes(path, k, l)]
            closes(path, i, j) && closes(path, k, l) && j < l implies name_between(path, i, j)
            != name_between(path, k, l) by {
            lemma_closes_before(path, i, j);
            if l < n {
                lemma_closes_before(path, k, l);
            } else {
                assert(closes(path, k, n));
                assert(closes(front, i, j));
            }
        }
        if s.inside {
            if c == '{' {
                assert(s.current =~= path.subrange(n + 1, path.len() as int));
                assert(opened(path, s, n));
            } else {
                let o = choose|o: int| opened(front, before, o);
                assert(opened(front, before, o));
                assert(opened(path, s, o));
            }
        }
    }
}

/// In a template that is accepted every opening brace is closed by the next
/// one, every closing brace closes one, and the names between them are not
/// empty and differ.
pub proof fn accepted_templates_close_every_brace(path: Seq<char>)
    requires
        path_fault(path) is None,
    ensures
        path.len() > 0 && path[0] == '/',
        forall|i: int|
            0 <= i < path.len() && #[trigger] path[i] == '{' ==> exists|j: int| closes(path, i, j),
        forall|j: int|
            0 <= j < path.len() && #[trigger] path[j] == '}' ==> exists|i: int| closes(path, i, j),
        forall|i: int, j: int| #[trigger]
            closes(path, i, j) ==> name_between(path, i, j).len() > 0,
        forall|i: int, j: int, k: int, l: int|
            #![trigger closes(path, i, j), closes(path, k, l)]
            closes(path, i, j) && closes(path, k, l) && j < l ==> name_between(path, i, j)
                != name_between(path, k, l),
{
    lemma_scanned(path);
}

// ---------------------------------------------------------------------------
// the route
// ---------------------------------------------------------------------------

/// The route that an attributed handler stands for.
pub struct RoutePlan {
    pub method: String,
    pub path: String,
    /// The name of the generated route type.
    pub route_ident: String,
    /// The note on the generated route type.
    pub note: String,
    pub summary: Option<String>,
    pub description: Option<String>,
    pub operation_id: Option<String>,
    pub tags: Vec<String>,
    pub deprecated: bool,
    pub hidden: bool,
    /// What the extracted arguments are bound to, one for each argument.
    pub bindings: Vec<String>,
}

/// A route, as a value.
#[verifier::ext_equal]
pub struct PlanModel {
    pub method: Seq<char>,
    pub path: Seq<char>,
    pub route_ident: Seq<char>,
    pub note: Seq<char>,
    pub summary: Option<Seq<char>>,
    pub description: Option<Seq<char>>,
    pub operation_id: Option<Seq<char>>,
    pub tags: Seq<Seq<char>>,
    pub deprecated: bool,
    pub hidden: bool,
    pub bindings: Seq<Seq<char>>,
}

impl View for RoutePlan {
    type V = PlanModel;

    open spec fn view(&self) -> PlanModel {
        PlanModel {
            method: self.method@,
            path: self.path@,
            route_ident: self.route_ident@,
            note: self.note@,
            summary: text::opt(self.summary),
            description: text::opt(self.description),
            operation_id: text::opt(self.operation_id),
            tags: text::views(self.tags@),
            deprecated: self.deprecated,
            hidden: self.hidden,
            bindings: text::views(self.bindings@),
        }
    }
}

/// The first, or else the second.
pub open spec fn or_else(a: Option<Seq<char>>, b: Option<Seq<char>>) -> Option<Seq<char>> {
    match a {
        Some(x) => Some(x),
        None => b,
    }
}

/// The names of `n` bindings.
pub open spec fn binding_names(n: nat) -> Seq<Seq<char>> {
    Seq::new(n, |i: int| "__arg"@ + text::decimal(i as nat))
}

pub open spec fn has_receiver(arguments: Seq<Argument>) -> bool {
    exists|i: int| 0 <= i < arguments.len() && #[trigger] arguments[i] is Receiver
}

pub open spec fn route_note(ident: Seq<char>, method: Seq<char>, path: Seq<char>) -> Seq<char> {
    "Route definition for [`"@ + ident + "`]: `"@ + method + " "@ + path
        + "`. Generated by `#["@ + text::ascii_lower(method) + "]`."@
}

/// The route an attribute and a handler stand for. Doc comments become the
/// operation's prose unless overridden.
pub open spec fn plan_of(method: Seq<char>, input: RouteInput, f: HandlerFn) -> Result<
    PlanModel,
    Seq<char>,
> {
    match args_of(input) {
        Err(e) => Err(e),
        Ok(args) => match signature_fault(f) {
            Some(e) => Err(e),
            None => match path_fault(args.path) {
                Some(e) => Err(e),
                None => if has_receiver(f.arguments@) {
                    Err("route handlers cannot take `self`; they are free functions"@)
                } else {
                    let docs = attr::docs_of(attr::doc_lines(f.attrs@));
                    Ok(
                        PlanModel {
                            method,
                            path: args.path,
                            route_ident: f.ident@ + ROUTE_SUFFIX@,
                            note: route_note(f.ident@, method, args.path),
                            summary: or_else(args.summary, docs.summary),
                            description: or_else(args.description, docs.description),
                            operation_id: args.operation_id,
                            tags: args.tags,
                            deprecated: args.deprecated,
                            hidden: args.hidden,
                            bindings: binding_names(f.arguments@.len()),
                        },
                    )
                },
            },
        },
    }
}

/// The name of a handler's generated route type.
pub fn route_ident(ident: &str) -> (out: String)
    ensures
        out@ == ident@ + ROUTE_SUFFIX@,
{
    let mut out = ident.to_owned();
    out.append(ROUTE_SUFFIX);
    out
}

fn bindings(arguments: &Vec<Argument>) -> (out: Vec<String>)
    ensures
        text::views(out@) == binding_names(arguments@.len()),
{
    let mut out: Vec<String> = Vec::new();
    for i in 0..arguments.len()
        invariant
            out@.len() == i,
            forall|j: int|
                0 <= j < i ==> (#[trigger] out@[j])@ == "__arg"@ + text::decimal(j as nat),
    {
        let mut name = "__arg".to_owned();
        name.append(text::decimal_text(i as u64).as_str());
        out.push(name);
    }
    assert(text::views(out@) =~= binding_names(arguments@.len()));
    out
}

/// Works out the route that `#[method(input)]` on a handler stands for.
pub fn expand(method: &str, input: &RouteInput, f: &HandlerFn) -> (r: Result<
    RoutePlan,
    SyntaxError,
>)
    ensures
        match r {
            Ok(plan) => plan_of(method@, *input, *f) == Ok::<PlanModel, Seq<char>>(plan@),
            Err(e) => plan_of(method@, *input, *f) == Err::<PlanModel, Seq<char>>(e.message@),
        },
{
    let args = match RouteArgs::parse(input) {
        Ok(args) => args,
        Err(e) => return Err(e),
    };
    match check_signature(f) {
        Ok(_) => {},
        Err(e) => return Err(e),
    }
    match validate_path(args.path.as_str()) {
        Ok(_) => {},
        Err(e) => return Err(e),
    }
    for i in 0..f.arguments.len()
        invariant
            forall|j: int| 0 <= j < i ==> !(#[trigger] f.arguments@[j] is Receiver),
            args_of(*input) == Ok::<RouteArgsModel, Seq<char>>(args@),
            signature_fault(*f) is None,
            path_fault(args@.path) is None,
    {
        if let Argument::Receiver = &f.arguments[i] {
            assert(f.arguments@[i as int] is Receiver);
            return Err(
                attr::syntax_error("route handlers cannot take `self`; they are free functions"),
            );
        }
    }
    let docs = attr::doc_comment(&f.attrs);
    let mut note = "Route definition for [`".to_owned();
    note.append(f.ident.as_str());
    note.append("`]: `");
    note.append(method);
    note.append(" ");
    note.append(args.path.as_str());
    note.append("`. Generated by `#[");
    note.append(text::lower_text(method).as_str());
    note.append("]`.");
    let summary = match args.summary {
        Some(s) => Some(s),
        None => docs.summary,
    };
    let description = match args.description {
        Some(s) => Some(s),
        None => docs.description,
    };
    Ok(
        RoutePlan {
            method: method.to_owned(),
            path: args.path,
            route_ident: route_ident(f.ident.as_str()),
            note,
            summary,
            description,
            operation_id: args.operation_id,
            tags: args.tags,
            deprecated: args.deprecated,
            hidden: args.hidden,
            bindings: bindings(&f.arguments),
        },
    )
}

impl PlanModel {
    /// The operation with what the attribute and the doc comment say of it.
    pub open spec fn stated(self, o: OperationModel) -> OperationModel {
        OperationModel {
            summary: or_else(self.summary, o.summary),
            description: or_else(self.description, o.description),
            operation_id: or_else(self.operation_id, o.operation_id),
            tags: o.tags + self.tags,
            deprecated: self.deprecated || o.deprecated,
            extensions: if self.hidden {
                ordered::inserted(o.extensions, "x-internal"@, ValueModel::Bool(true))
            } else {
                o.extensions
            },
            ..o
        }
    }
}

impl RoutePlan {
    /// States what the attribute and the doc comment say of the operation.
    pub fn state(&self, ctx: &mut OperationContext)
        ensures
            final(ctx)@ == old(ctx)@.with_operation(self@.stated(old(ctx)@.operation)),
    {
        let ghost start = ctx@;
        if let Some(s) = &self.summary {
            ctx.operation.summary = Some(s.clone());
        }
        if let Some(s) = &self.description {
            ctx.operation.description = Some(s.clone());
        }
        if let Some(s) = &self.operation_id {
            ctx.operation.operation_id = Some(s.clone());
        }
        let ghost stated = ctx@;
        assert(stated.operation.tags + self@.tags.take(0) =~= stated.operation.tags);
        for i in 0..self.tags.len()
            invariant
                ctx@ == stated.with_operation(
                    OperationModel {
                        tags: stated.operation.tags + self@.tags.take(i as int),
                        ..stated.operation
                    },
                ),
        {
            let tag = self.tags[i].clone();
            proof {
                text::lemma_views_push(ctx.operation.tags@, tag);
            }
            ctx.operation.tags.push(tag);
            assert(stated.operation.tags + self@.tags.take(i + 1) =~= (stated.operation.tags
                + self@.tags.take(i as int)).push(self@.tags[i as int]));
        }
        assert(self@.tags.take(self@.tags.len() as int) =~= self@.tags);
        if self.deprecated {
            ctx.operation.deprecated = true;
        }
        if self.hidden {
            let value = Value::Bool(true);
            let ghost before = ctx.operation.extensions;
            ctx.operation.extensions.insert("x-internal".to_owned(), value);
            proof {
                schema::lemma_values_inserted(
                    before,
                    ctx.operation.extensions,
                    "x-internal"@,
                    value,
                );
            }
        }
        assert(ctx@.operation =~= self@.stated(start.operation));
    }
}

/// The arguments of a handler, first to last: `(A, (B, ()))`.
pub trait Arguments {
    spec fn described(c: ContextModel) -> ContextModel;

    fn describe(ctx: &mut OperationContext)
        ensures
            final(ctx)@ == Self::described(old(ctx)@),
    ;
}

impl Arguments for () {
    open spec fn described(c: ContextModel) -> ContextModel {
        c
    }

    fn describe(ctx: &mut OperationContext) {
    }
}

impl<A: OperationInput, R: Arguments> Arguments for (A, R) {
    open spec fn described(c: ContextModel) -> ContextModel {
        R::described(A::described(c))
    }

    fn describe(ctx: &mut OperationContext) {
        A::describe(ctx);
        R::describe(ctx);
    }
}

impl PlanModel {
    /// The operation of a route: what is stated of it, then its arguments in
    /// order, then what it returns.
    pub open spec fn documented<A: Arguments, O: OperationOutput>(self, c: ContextModel)
        -> ContextModel {
        O::described(A::described(c.with_operation(self.stated(c.operation))))
    }
}

impl RoutePlan {
    /// Describes the route of a handler with these argument and return types.
    pub fn document<A: Arguments, O: OperationOutput>(&self, ctx: &mut OperationContext)
        ensures
            final(ctx)@ == self@.documented::<A, O>(old(ctx)@),
    {
        self.state(ctx);
        A::describe(ctx);
        O::describe(ctx);
    }
}

} // verus!
