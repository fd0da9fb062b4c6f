//! Reading a whole type declaration.

use crate::derive::attr;
use crate::derive::attr::{Attr, SyntaxError};
use crate::derive::decl;
use crate::derive::decl::{Container, ContainerModel, Field, FieldDecl, FieldModel};
use crate::derive::schema::Shape;
use crate::derive::variants;
use crate::derive::variants::{Variant, VariantDecl, VariantModel};
use vstd::prelude::*;
use vstd::string::*;

verus! {

/// What a type declaration consists of.
pub enum Data {
    Struct { shape: Shape, fields: Vec<FieldDecl> },
    Enum { variants: Vec<VariantDecl> },
    Union,
}

/// A type declaration.
pub struct DeriveInput {
    pub ident: String,
    pub attrs: Vec<Attr>,
    pub data: Data,
}

/// The parts of a declaration, with what their attributes say of them.
pub enum Body {
    Struct { shape: Shape, declared: usize, fields: Vec<Field> },
    Enum { variants: Vec<Variant> },
}

/// The parts of a declaration, as a value.
pub enum BodyModel {
    Struct { shape: Shape, declared: usize, fields: Seq<FieldModel> },
    Enum { variants: Seq<VariantModel> },
}

impl View for Body {
    type V = BodyModel;

    open spec fn view(&self) -> BodyModel {
        match self {
            Body::Struct { shape, declared, fields } => BodyModel::Struct {
                shape: *shape,
                declared: *declared,
                fields: decl::field_models(fields@),
            },
            Body::Enum { variants } => BodyModel::Enum {
                variants: variants::variant_models(variants@),
            },
        }
    }
}

/// A declaration that was understood.
pub struct Derived {
    pub container: Container,
    pub body: Body,
}

/// The variants of a declaration, or the error of the first that is not
/// understood.
pub open spec fn variants_of(c: ContainerModel, decls: Seq<VariantDecl>) -> Result<
    Seq<VariantModel>,
    Seq<char>,
>
    decreases decls.len(),
{
    if decls.len() == 0 {
        Ok(Seq::empty())
    } else {
        match variants_of(c, decls.drop_last()) {
            Err(e) => Err(e),
            Ok(before) => match variants::variant_of(c, decls.last()) {
                Ok(v) => Ok(before.push(v)),
                Err(e) => Err(e),
            },
        }
    }
}

/// What the parts of a declaration say.
pub open spec fn body_of(c: ContainerModel, data: Data) -> Result<BodyModel, Seq<char>> {
    match data {
        Data::Struct { shape, fields } => match decl::fields_of(fields@, c.rename_all) {
            Ok(list) => Ok(
                BodyModel::Struct { shape, declared: fields@.len() as usize, fields: list },
            ),
            Err(e) => Err(e),
        },
        Data::Enum { variants } => match variants_of(c, variants@) {
            Ok(list) => Ok(BodyModel::Enum { variants: list }),
            Err(e) => Err(e),
        },
        Data::Union => Err(
            "`Schema` cannot be derived for unions; they have no JSON representation"@,
        ),
    }
}

/// What a declaration says: its attributes are read first, then its parts.
pub open spec fn derived(input: DeriveInput) -> Result<(ContainerModel, BodyModel), Seq<char>> {
    match decl::container_of(input.attrs@) {
        Err(e) => Err(e),
        Ok(c) => match body_of(c, input.data) {
            Ok(body) => Ok((c, body)),
            Err(e) => Err(e),
        },
    }
}

proof fn lemma_variants_stop(c: ContainerModel, decls: Seq<VariantDecl>, i: int)
    requires
        0 <= i <= decls.len(),
        variants_of(c, decls.take(i)) is Err,
    ensures
        variants_of(c, decls) == variants_of(c, decls.take(i)),
    decreases decls.len() - i,
{
    if i == decls.len() {
        assert(decls.take(i) =~= decls);
    } else {
        assert(decls.take(i + 1).drop_last() =~= decls.take(i));
        lemma_variants_stop(c, decls, i + 1);
    }
}

/// Reads the variants of a declaration.
pub fn collect_variants(container: &Container, decls: &Vec<VariantDecl>) -> (r: Result<
    Vec<Variant>,
    SyntaxError,
>)
    ensures
        match r {
            Ok(list) => variants_of(container@, decls@) == Ok::<Seq<VariantModel>, Seq<char>>(
                variants::variant_models(list@),
            ),
            Err(e) => variants_of(container@, decls@) == Err::<Seq<VariantModel>, Seq<char>>(
                e.message@,
            ),
        },
{
    let mut out: Vec<Variant> = Vec::new();
    assert(decls@.take(0) =~= Seq::<VariantDecl>::empty());
    assert(variants::variant_models(out@) =~= Seq::<VariantModel>::empty());
    for i in 0..decls.len()
        invariant
            variants_of(container@, decls@.take(i as int)) == Ok::<Seq<VariantModel>, Seq<char>>(
                variants::variant_models(out@),
            ),
    {
        assert(decls@.take(i + 1).drop_last() =~= decls@.take(i as int));
        match Variant::parse(container, &decls[i]) {
            Ok(v) => {
                assert(variants::variant_models(out@.push(v)) =~= variants::variant_models(
                    out@,
                ).push(v@));
                out.push(v);
            },
            Err(e) => {
                proof {
                    lemma_variants_stop(container@, decls@, i + 1);
                }
                return Err(e);
            },
        }
    }
    assert(decls@.take(decls@.len() as int) =~= decls@);
    Ok(out)
}

/// Reads a declaration.
pub fn derive(input: &DeriveInput) -> (r: Result<Derived, SyntaxError>)
    ensures
        match r {
            Ok(d) => derived(*input) == Ok::<(ContainerModel, BodyModel), Seq<char>>(
                (d.container@, d.body@),
            ),
            Err(e) => derived(*input) == Err::<(ContainerModel, BodyModel), Seq<char>>(e.message@),
        },
{
    let container = match Container::parse(&input.attrs) {
        Ok(c) => c,
        Err(e) => return Err(e),
    };
    let body = match &input.data {
        Data::Struct { shape, fields } => match decl::collect_fields(
            fields,
            container.rename_all,
        ) {
            Ok(list) => Body::Struct { shape: *shape, declared: fields.len(), fields: list },
            Err(e) => return Err(e),
        },
        Data::Enum { variants } => match collect_variants(&container, variants) {
            Ok(list) => Body::Enum { variants: list },
            Err(e) => return Err(e),
        },
        Data::Union => return Err(
            attr::syntax_error(
                "`Schema` cannot be derived for unions; they have no JSON representation",
            ),
        ),
    };
    Ok(Derived { container, body })
}

} // verus!
