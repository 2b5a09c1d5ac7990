use vstd::prelude::*;

verus! {

/// Where a piece of attribute syntax stands in the source: at a position
/// the caller numbered, or at the macro's call site for syntax made from a
/// string.
#[derive(Debug, Clone, Copy, PartialEq, Eq)]
pub enum Span {
    CallSite,
    At(u64),
}

/// An identifier.
pub struct Ident {
    pub name: String,
    pub span: Span,
}

/// A segment of a path: its identifier, and the text of its generic
/// arguments when it has any.
pub struct PathSegment {
    pub ident: Ident,
    pub arguments: Option<String>,
}

/// A path such as `a::b::c`.
pub struct Path {
    pub leading_colon: bool,
    pub segments: Vec<PathSegment>,
    pub span: Span,
}

/// A string literal.
pub struct LitStr {
    pub value: String,
    pub span: Span,
}

/// A literal: a string, or another kind, kept as its text.
pub enum Lit {
    Str(LitStr),
    Other { text: String, span: Span },
}

/// `path(nested, ..)`; `nested_span` covers the items in the brackets.
pub struct MetaList {
    pub path: Path,
    pub nested: Vec<NestedMeta>,
    pub span: Span,
    pub nested_span: Span,
}

/// `path = lit`.
pub struct MetaNameValue {
    pub path: Path,
    pub lit: Lit,
    pub span: Span,
}

/// An item of an attribute.
pub enum Meta {
    Path(Path),
    List(MetaList),
    NameValue(MetaNameValue),
}

/// An item inside the brackets of an attribute: a meta item or a literal.
pub enum NestedMeta {
    Meta(Meta),
    Lit(Lit),
}

/// A type, kept as its text.
pub struct Type {
    pub text: String,
    pub span: Span,
}

/// The pattern of a function parameter: an identifier, or another pattern.
pub enum Pat {
    Ident(Ident),
    Other(Span),
}

/// An attribute on a parameter: its path, and its items as they read; a
/// reading that failed is kept as its error.
pub struct Attribute {
    pub path: Path,
    pub meta: Result<Meta, AttrError>,
    pub span: Span,
}

/// A typed function parameter with its attributes.
pub struct PatType {
    pub attrs: Vec<Attribute>,
    pub pat: Pat,
    pub ty: Type,
    pub span: Span,
}

/// A function parameter: `self`, or a typed one.
pub enum FnArg {
    Receiver(Span),
    Typed(PatType),
}

/// The parameters of a function.
pub struct ItemFn {
    pub inputs: Vec<FnArg>,
}

/// A refused attribute: where, and why.
pub struct AttrError {
    pub span: Span,
    pub message: String,
}

impl Path {
    /// The path is the single identifier `name`.
    pub open spec fn spec_is_ident(self, name: Seq<char>) -> bool {
        &&& !self.leading_colon
        &&& self.segments@.len() == 1
        &&& self.segments@[0].arguments is None
        &&& self.segments@[0].ident.name@ == name
    }

    pub fn is_ident(&self, name: &str) -> (r: bool)
        ensures
            r == self.spec_is_ident(name@),
    {
        !self.leading_colon && self.segments.len() == 1 && self.segments[0].arguments.is_none()
            && crate::util::str_eq(self.segments[0].ident.name.as_str(), name)
    }
}

pub open spec fn lit_span(l: Lit) -> Span {
    match l {
        Lit::Str(s) => s.span,
        Lit::Other { span, .. } => span,
    }
}

pub open spec fn meta_span(m: Meta) -> Span {
    match m {
        Meta::Path(p) => p.span,
        Meta::List(l) => l.span,
        Meta::NameValue(nv) => nv.span,
    }
}

/// Where an item stands.
pub open spec fn nested_span(n: NestedMeta) -> Span {
    match n {
        NestedMeta::Meta(m) => meta_span(m),
        NestedMeta::Lit(l) => lit_span(l),
    }
}

pub fn span_of_lit(l: &Lit) -> (r: Span)
    ensures
        r == lit_span(*l),
{
    match l {
        Lit::Str(s) => s.span,
        Lit::Other { span, .. } => *span,
    }
}

pub fn span_of_meta(m: &Meta) -> (r: Span)
    ensures
        r == meta_span(*m),
{
    match m {
        Meta::Path(p) => p.span,
        Meta::List(l) => l.span,
        Meta::NameValue(nv) => nv.span,
    }
}

pub fn span_of(n: &NestedMeta) -> (r: Span)
    ensures
        r == nested_span(*n),
{
    match n {
        NestedMeta::Meta(m) => span_of_meta(m),
        NestedMeta::Lit(l) => span_of_lit(l),
    }
}

/// The error `message` at `span`.
pub fn attr_error(span: Span, message: &str) -> (r: AttrError)
    ensures
        r.span == span,
        r.message@ == message@,
{
    AttrError { span, message: String::from_str(message) }
}

} // verus!
