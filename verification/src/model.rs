//! Plain-value description of a derive input, as the compiler hands it over.
//!
//! Every element that a diagnostic may point at carries a `span`: an opaque
//! number chosen by whoever built the value, handed back in diagnostics.
use vstd::prelude::*;

verus! {

/// Delimiter of a token group.
#[derive(Debug, Clone, Copy, PartialEq, Eq, Structural)]
pub enum Delimiter {
    Parenthesis,
    Brace,
    Bracket,
    NoDelimiter,
}

/// One token tree of an attribute's argument list.
#[derive(Debug)]
pub enum TokenTree {
    /// A delimited group of tokens.
    Group { delimiter: Delimiter, stream: Vec<TokenTree>, span: usize },
    /// An identifier or keyword.
    Ident { text: String, span: usize },
    /// A punctuation character; `joint` when the next character belongs to the same operator.
    Punct { ch: char, joint: bool, span: usize },
    /// A literal, by its source text (`"abc"`, `12usize`, ...).
    Literal { text: String, span: usize },
}

/// The shape of an attribute after its path.
#[derive(Debug)]
pub enum AttrMeta {
    /// `#[name]`
    Path,
    /// `#[name(tokens)]`, any delimiter.
    List { tokens: Vec<TokenTree>, span: usize },
    /// `#[name = value]`
    NameValue,
}

/// An attribute on the container or on a field.
#[derive(Debug)]
pub struct Attribute {
    /// The attribute's name when its path is one plain identifier.
    pub path_ident: Option<String>,
    pub meta: AttrMeta,
    pub span: usize,
}

/// A generic argument of a path segment, as far as the derive reads it.
#[derive(Debug)]
pub enum GenericArgument {
    Type(Type),
    /// A lifetime, a constant, a binding or a constraint.
    Other,
}

/// The arguments of a path segment.
#[derive(Debug)]
pub enum PathArguments {
    NoArguments,
    AngleBracketed(Vec<GenericArgument>),
    Parenthesized,
}

/// One segment of a type path.
#[derive(Debug)]
pub struct PathSegment {
    pub ident: String,
    pub arguments: PathArguments,
}

/// The structure of a type, as far as the derive reads it.
#[derive(Debug)]
pub enum TypeShape {
    /// A path type; `qself` when it has a qualified self (`<T as Trait>::X`).
    Path { qself: bool, segments: Vec<PathSegment> },
    /// Any other type.
    Other,
}

/// A type: its source text and its structure.
#[derive(Debug)]
pub struct Type {
    pub text: String,
    pub shape: TypeShape,
}

/// Kind of a generic parameter.
#[derive(Debug, Clone, Copy, PartialEq, Eq, Structural)]
pub enum GenericParamKind {
    Lifetime,
    Type,
    Const,
}

/// A generic parameter of the container.
#[derive(Debug)]
pub struct GenericParam {
    pub kind: GenericParamKind,
    /// The parameter as used in type position: `'a`, `T`, `N`.
    pub name: String,
    /// The declaration without default: `'a: 'b`, `T: Clone`, `const N: usize`.
    pub decl: String,
    /// The default after `=`, for a type or const parameter that has one.
    pub default: Option<String>,
}

/// The generics of the container.
#[derive(Debug)]
pub struct Generics {
    pub params: Vec<GenericParam>,
    /// The where clause with its keyword, or empty.
    pub where_clause: String,
}

/// A field of the container.
#[derive(Debug)]
pub struct FieldInput {
    /// The field's name; `None` for tuple fields.
    pub ident: Option<String>,
    pub ty: Type,
    pub attrs: Vec<Attribute>,
    pub span: usize,
}

/// The fields of a struct or of an enum variant.
#[derive(Debug)]
pub enum Fields {
    Named(Vec<FieldInput>),
    Unnamed { span: usize },
    Unit,
}

/// The body of the container.
#[derive(Debug)]
pub enum Data {
    Struct(Fields),
    Enum { variants: Vec<Fields> },
    Union,
}

/// The whole derive input.
#[derive(Debug)]
pub struct DeriveInput {
    pub attrs: Vec<Attribute>,
    /// The visibility as source text (`pub`, `pub(crate)`, or empty).
    pub vis: String,
    pub ident: String,
    pub generics: Generics,
    pub data: Data,
    /// Span of the whole input, for what concerns it as a whole.
    pub span: usize,
}

} // verus!
