//! What the derive reads of a struct definition, as plain values.

use vstd::prelude::*;

verus! {

/// A string literal: its value, and its text as written in the source.
pub struct LitModel {
    /// The value the literal denotes.
    pub value: String,
    /// The literal as written, quotes and escapes included.
    pub token: String,
}

/// The value side of a `name = value` option.
pub enum ExprModel {
    /// An invisible group around an expression, as `macro_rules!` leaves around
    /// a substituted fragment.
    Group(Box<ExprModel>),
    /// A string literal.
    Str(LitModel),
    /// Any other expression.
    Other,
}

/// The shape of one option inside an attribute's parentheses.
pub enum MetaKind {
    /// A bare path, as `no_env`.
    Path,
    /// A path followed by parentheses, as `skip(...)`.
    List,
    /// `name = value`.
    NameValue(ExprModel),
}

/// One option inside an attribute's parentheses.
pub struct MetaModel {
    /// The option's name, when its path is a single identifier.
    pub ident: Option<String>,
    /// Its shape.
    pub kind: MetaKind,
}

/// One attribute on the struct or on a field.
pub struct AttrModel {
    /// The attribute's name, when its path is a single identifier.
    pub ident: Option<String>,
    /// Whether the attribute is a bare path, as `#[layered]`.
    pub bare: bool,
    /// The comma-separated options in its parentheses, or why they do not parse.
    pub args: Result<Vec<MetaModel>, String>,
}

/// A named field.
pub struct FieldModel {
    /// The field's name as written, `r#` included.
    pub name: String,
    /// The field's name without any `r#`.
    pub unraw: String,
    /// Its attributes.
    pub attrs: Vec<AttrModel>,
}

/// What kind of item the derive is applied to.
pub enum Shape {
    /// A struct with named fields.
    Named(Vec<FieldModel>),
    /// A tuple struct.
    Tuple,
    /// A unit struct.
    Unit,
    /// An enum.
    Enum,
    /// A union.
    Union,
}

/// A struct definition that the derive is applied to.
pub struct DeriveModel {
    /// The type's name.
    pub name: String,
    /// Generics as written after `impl`, such as `< T : Clone >`.
    pub impl_generics: String,
    /// Generics as written after the type's name, such as `< T >`.
    pub ty_generics: String,
    /// The `where` clause, or nothing.
    pub where_clause: String,
    /// Attributes on the item.
    pub attrs: Vec<AttrModel>,
    /// Its fields, or what else it is.
    pub shape: Shape,
}

impl Clone for LitModel {
    fn clone(&self) -> (r: Self)
        ensures
            r == *self,
    {
        LitModel { value: self.value.clone(), token: self.token.clone() }
    }
}

impl Clone for ExprModel {
    fn clone(&self) -> (r: Self)
        ensures
            r == *self,
        decreases self,
    {
        match self {
            ExprModel::Group(inner) => ExprModel::Group(Box::new((**inner).clone())),
            ExprModel::Str(lit) => ExprModel::Str(lit.clone()),
            ExprModel::Other => ExprModel::Other,
        }
    }
}

/// Whether `ident` is the identifier `name`.
pub open spec fn is_ident(ident: Option<String>, name: Seq<char>) -> bool {
    match ident {
        Some(s) => s@ == name,
        None => false,
    }
}

/// Whether `ident` is the identifier `name`.
pub fn ident_is(ident: &Option<String>, name: &str) -> (r: bool)
    ensures
        r == is_ident(*ident, name@),
{
    match ident {
        Some(s) => crate::text::str_eq(s.as_str(), name),
        None => false,
    }
}

} // verus!
