//! Reading a struct definition, as Rust source text, into the derive's model.
//!
//! `syn` does the parsing; its syntax tree is opaque here, so each accessor
//! below only hands back a piece of it, and verified code assembles the model.

use vstd::prelude::*;
use vstd::string::StringExecFns;
use crate::derive::expand::{compile_errors, expansion, messages};
use crate::derive::model::{AttrModel, DeriveModel, ExprModel, FieldModel, LitModel, MetaKind, MetaModel, Shape};
use quote::ToTokens;
use syn::ext::IdentExt;

verus! {

#[verifier::external_type_specification]
#[verifier::external_body]
pub struct ExDeriveInput(syn::DeriveInput);

#[verifier::external_type_specification]
#[verifier::external_body]
pub struct ExAttribute(syn::Attribute);

#[verifier::external_type_specification]
#[verifier::external_body]
pub struct ExField(syn::Field);

#[verifier::external_type_specification]
#[verifier::external_body]
pub struct ExMeta(syn::Meta);

#[verifier::external_type_specification]
#[verifier::external_body]
pub struct ExExpr(syn::Expr);

/// What kind of item a derive input is, with the named fields of a struct.
pub enum ItemShape<'a> {
    /// A struct with named fields.
    Named(Vec<&'a syn::Field>),
    /// A tuple struct.
    Tuple,
    /// A unit struct.
    Unit,
    /// An enum.
    Enum,
    /// A union.
    Union,
}

/// The shape of one option inside an attribute's parentheses.
pub enum MetaShape<'a> {
    /// A bare path.
    Path,
    /// A path followed by parentheses.
    List,
    /// `name = value`, with the value.
    NameValue(&'a syn::Expr),
}

/// Parses a struct definition. Wraps `syn::parse_str::<syn::DeriveInput>`; on
/// failure, syn's message (the error's `Display`).
///
/// Whether a text parses, and with which message, depends on the lexer that
/// proc-macro2 runs in this process (the compiler's inside a procedural macro,
/// its own elsewhere), so nothing is stated of the outcome.
#[verifier::external_body]
fn parse_derive_input(source: &str) -> Result<syn::DeriveInput, String> {
    syn::parse_str::<syn::DeriveInput>(source).map_err(|e| e.to_string())
}

/// The item's name, through `<syn::Ident as Display>`.
#[verifier::external_body]
fn item_name(input: &syn::DeriveInput) -> String {
    input.ident.to_string()
}

/// The item's generics after `impl`, after its name, and its `where` clause,
/// through `syn::Generics::split_for_impl` and `quote::ToTokens`.
#[verifier::external_body]
fn item_generics(input: &syn::DeriveInput) -> (String, String, String) {
    let (impl_generics, ty_generics, where_clause) = input.generics.split_for_impl();
    (
        impl_generics.to_token_stream().to_string(),
        ty_generics.to_token_stream().to_string(),
        where_clause.to_token_stream().to_string(),
    )
}

/// The item's attributes: the `attrs` field of `syn::DeriveInput`.
#[verifier::external_body]
fn item_attrs(input: &syn::DeriveInput) -> &Vec<syn::Attribute> {
    &input.attrs
}

/// Tells the variants of `syn::Data` and `syn::Fields` apart.
#[verifier::external_body]
fn item_shape(input: &syn::DeriveInput) -> ItemShape<'_> {
    match &input.data {
        syn::Data::Struct(data) => match &data.fields {
            syn::Fields::Named(named) => ItemShape::Named(named.named.iter().collect()),
            syn::Fields::Unnamed(_) => ItemShape::Tuple,
            syn::Fields::Unit => ItemShape::Unit,
        },
        syn::Data::Enum(_) => ItemShape::Enum,
        syn::Data::Union(_) => ItemShape::Union,
    }
}

/// A field's name as written and with any `r#` removed, through
/// `<syn::Ident as Display>` and `syn::ext::IdentExt::unraw`.
#[verifier::external_body]
fn field_ident(field: &syn::Field) -> Option<(String, String)> {
    field.ident.as_ref().map(|i| (i.to_string(), i.unraw().to_string()))
}

/// A field's attributes: the `attrs` field of `syn::Field`.
#[verifier::external_body]
fn field_attrs(field: &syn::Field) -> &Vec<syn::Attribute> {
    &field.attrs
}

/// The attribute's name when its path is one identifier, through
/// `syn::Path::get_ident`.
#[verifier::external_body]
fn attr_ident(attr: &syn::Attribute) -> Option<String> {
    attr.path().get_ident().map(|i| i.to_string())
}

/// Whether the attribute is a bare path: tells the variants of `syn::Meta` apart.
#[verifier::external_body]
fn attr_is_bare(attr: &syn::Attribute) -> bool {
    match attr.meta {
        syn::Meta::Path(_) => true,
        _ => false,
    }
}

/// The comma-separated options in the attribute's parentheses, through
/// `syn::Attribute::parse_args_with`; on failure, syn's message.
#[verifier::external_body]
fn attr_args(attr: &syn::Attribute) -> Result<Vec<syn::Meta>, String> {
    attr.parse_args_with(syn::punctuated::Punctuated::<syn::Meta, syn::token::Comma>::parse_terminated)
        .map(|metas| metas.into_iter().collect())
        .map_err(|e| e.to_string())
}

/// The option's name when its path is one identifier, through `syn::Path::get_ident`.
#[verifier::external_body]
fn meta_ident(meta: &syn::Meta) -> Option<String> {
    meta.path().get_ident().map(|i| i.to_string())
}

/// Tells the variants of `syn::Meta` apart.
#[verifier::external_body]
fn meta_shape(meta: &syn::Meta) -> MetaShape<'_> {
    match meta {
        syn::Meta::Path(_) => MetaShape::Path,
        syn::Meta::List(_) => MetaShape::List,
        syn::Meta::NameValue(nv) => MetaShape::NameValue(&nv.value),
    }
}

/// The expression as the model holds it: invisible groups, string literals
/// (their value through `syn::LitStr::value`, their text through
/// `quote::ToTokens`), and anything else.
#[verifier::external_body]
fn expr_model(e: &syn::Expr) -> ExprModel {
    match e {
        syn::Expr::Group(g) => ExprModel::Group(Box::new(expr_model(&g.expr))),
        syn::Expr::Lit(syn::ExprLit { lit: syn::Lit::Str(s), .. }) => ExprModel::Str(LitModel {
            value: s.value(),
            token: s.to_token_stream().to_string(),
        }),
        _ => ExprModel::Other,
    }
}

fn meta_model(meta: &syn::Meta) -> MetaModel {
    let kind = match meta_shape(meta) {
        MetaShape::Path => MetaKind::Path,
        MetaShape::List => MetaKind::List,
        MetaShape::NameValue(value) => MetaKind::NameValue(expr_model(value)),
    };
    MetaModel { ident: meta_ident(meta), kind }
}

fn attr_model(attr: &syn::Attribute) -> AttrModel {
    let args = match attr_args(attr) {
        Ok(metas) => {
            let mut out: Vec<MetaModel> = Vec::new();
            for i in 0..metas.len() {
                out.push(meta_model(&metas[i]));
            }
            Ok(out)
        },
        Err(e) => Err(e),
    };
    AttrModel { ident: attr_ident(attr), bare: attr_is_bare(attr), args }
}

fn attrs_model(attrs: &Vec<syn::Attribute>) -> (r: Vec<AttrModel>)
    ensures
        r@.len() == attrs@.len(),
{
    let mut out: Vec<AttrModel> = Vec::new();
    for i in 0..attrs.len()
        invariant
            out@.len() == i,
    {
        out.push(attr_model(&attrs[i]));
    }
    out
}

/// The model of a parsed struct definition; `None` when a field of a struct
/// with named fields has no name.
fn derive_model(input: &syn::DeriveInput) -> Option<DeriveModel> {
    let shape = match item_shape(input) {
        ItemShape::Named(fields) => {
            let mut out: Vec<FieldModel> = Vec::new();
            for i in 0..fields.len() {
                let (name, unraw) = field_ident(fields[i])?;
                out.push(FieldModel { name, unraw, attrs: attrs_model(field_attrs(fields[i])) });
            }
            Shape::Named(out)
        },
        ItemShape::Tuple => Shape::Tuple,
        ItemShape::Unit => Shape::Unit,
        ItemShape::Enum => Shape::Enum,
        ItemShape::Union => Shape::Union,
    };
    let (impl_generics, ty_generics, where_clause) = item_generics(input);
    Some(DeriveModel {
        name: item_name(input),
        impl_generics,
        ty_generics,
        where_clause,
        attrs: attrs_model(item_attrs(input)),
        shape,
    })
}

/// An outcome of the derive reduced to plain values.
pub open spec fn outcome(r: Result<String, Vec<String>>) -> Result<Seq<char>, Seq<Seq<char>>> {
    match r {
        Ok(s) => Ok(s@),
        Err(v) => Err(messages(v@)),
    }
}

/// The code the derive hands the compiler for `m`.
pub open spec fn derive_output(m: DeriveModel) -> Seq<char> {
    match expansion(m) {
        Ok(code) => code,
        Err(es) => compile_errors(es),
    }
}

/// A read definition, its message as characters.
pub open spec fn parsed_view(p: Result<DeriveModel, String>) -> Result<DeriveModel, Seq<char>> {
    match p {
        Ok(m) => Ok(m),
        Err(e) => Err(e@),
    }
}

/// What the derive makes of a definition read into `parsed`: the expansion of
/// the model, or the one error that stopped the reading.
pub open spec fn expansion_of(parsed: Result<DeriveModel, Seq<char>>) -> Result<Seq<char>, Seq<Seq<char>>> {
    match parsed {
        Ok(m) => expansion(m),
        Err(e) => Err(seq![e]),
    }
}

/// The code the derive hands the compiler for a definition read into `parsed`.
pub open spec fn output_of(parsed: Result<DeriveModel, Seq<char>>) -> Seq<char> {
    match parsed {
        Ok(m) => derive_output(m),
        Err(e) => compile_errors(seq![e]),
    }
}

/// Parses a struct definition written as source text and reads it into the
/// derive's model; on failure, syn's message, or "expected a named field" for
/// a field of a struct with named fields that has no name.
pub fn parse_derive_model(source: &str) -> Result<DeriveModel, String> {
    let input = parse_derive_input(source)?;
    match derive_model(&input) {
        Some(model) => Ok(model),
        None => Err(String::from_str("expected a named field")),
    }
}

/// Run the derive over a definition already read: the `Layered` impl, or every
/// error found (the reading's own error alone, when it failed).
pub fn expand_parsed(parsed: Result<DeriveModel, String>) -> (r: Result<String, Vec<String>>)
    ensures
        outcome(r) == expansion_of(parsed_view(parsed)),
        r matches Err(v) ==> v@.len() > 0,
{
    match parsed {
        Ok(model) => crate::derive::expand::expand(&model),
        Err(e) => {
            let mut v = Vec::new();
            v.push(e);
            proof {
                assert(messages(v@) =~= seq![v@[0]@]);
            }
            Err(v)
        },
    }
}

/// Run the derive over a struct definition written as source text: the
/// `Layered` impl, or every error found.
pub fn expand_source(source: &str) -> (r: Result<String, Vec<String>>)
    ensures
        exists|parsed: Result<DeriveModel, Seq<char>>| #[trigger] expansion_of(parsed) == outcome(r),
        r matches Err(v) ==> v@.len() > 0,
{
    let parsed = parse_derive_model(source);
    let ghost p = parsed_view(parsed);
    let r = expand_parsed(parsed);
    proof {
        assert(expansion_of(p) == outcome(r));
    }
    r
}

/// What the derive hands the compiler for a definition already read: the code
/// of the impl, or a `compile_error!` for every error found.
pub fn derive_parsed(parsed: Result<DeriveModel, String>) -> (r: String)
    ensures
        r@ == output_of(parsed_view(parsed)),
{
    match parsed {
        Ok(model) => crate::derive::expand::expand_to_code(&model),
        Err(e) => {
            let mut errors = Vec::new();
            errors.push(e);
            let mut s = String::new();
            crate::derive::expand::push_compile_errors(&mut s, &errors);
            proof {
                assert(messages(errors@) =~= seq![errors@[0]@]);
                assert(s@ =~= compile_errors(messages(errors@)));
            }
            s
        },
    }
}

/// Derive `Layered` for a struct definition written as source text: the code
/// of the impl, or a `compile_error!` for every error found (a definition
/// that does not parse included).
pub fn derive_layered(source: &str) -> (r: String)
    ensures
        exists|parsed: Result<DeriveModel, Seq<char>>| #[trigger] output_of(parsed) == r@,
{
    let parsed = parse_derive_model(source);
    let ghost p = parsed_view(parsed);
    let r = derive_parsed(parsed);
    proof {
        assert(output_of(p) == r@);
    }
    r
}

} // verus!
