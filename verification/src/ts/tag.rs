use vstd::prelude::*;

use crate::attrs::syntax::{Lit, LitStr, Meta, Span};

verus! {

/// How serde tags the variants of an enum: the field that names the
/// variant, and the field that holds its contents.
pub struct SerdeTag {
    pub tag: Option<LitStr>,
    pub contents: Option<LitStr>,
}

/// A string literal as its text and place.
pub open spec fn lit_view(l: LitStr) -> (Seq<char>, Span) {
    (l.value@, l.span)
}

pub open spec fn opt_lit_view(l: Option<LitStr>) -> Option<(Seq<char>, Span)> {
    match l {
        Some(l) => Some(lit_view(l)),
        None => None,
    }
}

/// A tagging as the texts and places of its two literals.
pub type TagView = (Option<(Seq<char>, Span)>, Option<(Seq<char>, Span)>);

pub open spec fn tag_view(t: Option<SerdeTag>) -> Option<TagView> {
    match t {
        Some(t) => Some((opt_lit_view(t.tag), opt_lit_view(t.contents))),
        None => None,
    }
}

/// The string literal that `meta` sets, when it is `name = "text"`.
pub open spec fn str_value(meta: Meta) -> Option<(Seq<char>, Span)> {
    match meta {
        Meta::NameValue(nv) => match nv.lit {
            Lit::Str(s) => Some(lit_view(s)),
            _ => None,
        },
        _ => None,
    }
}

pub open spec fn meta_is(meta: Meta, name: Seq<char>) -> bool {
    match meta {
        Meta::Path(p) => p.spec_is_ident(name),
        Meta::List(l) => l.path.spec_is_ident(name),
        Meta::NameValue(nv) => nv.path.spec_is_ident(name),
    }
}

/// What one serde item does to a tagging: `untagged` removes it; `tag =
/// "..."` and `contents = "..."` set their field, starting from an empty
/// tagging where there was none; anything else leaves it as it was.
pub open spec fn spec_apply_meta(this: Option<TagView>, meta: Meta) -> Option<TagView> {
    let base: TagView = match this {
        Some(t) => t,
        None => (None, None),
    };
    if meta_is(meta, "untagged"@) {
        None
    } else if meta_is(meta, "tag"@) {
        match str_value(meta) {
            Some(s) => Some((Some(s), base.1)),
            None => this,
        }
    } else if meta_is(meta, "contents"@) {
        match str_value(meta) {
            Some(s) => Some((base.0, Some(s))),
            None => this,
        }
    } else {
        this
    }
}

fn copy_lit(l: &LitStr) -> (r: LitStr)
    ensures
        lit_view(r) == lit_view(*l),
{
    LitStr { value: l.value.clone(), span: l.span }
}

fn meta_path_is(meta: &Meta, name: &str) -> (r: bool)
    ensures
        r == meta_is(*meta, name@),
{
    match meta {
        Meta::Path(p) => p.is_ident(name),
        Meta::List(l) => l.path.is_ident(name),
        Meta::NameValue(nv) => nv.path.is_ident(name),
    }
}

fn str_value_of(meta: &Meta) -> (r: Option<LitStr>)
    ensures
        opt_lit_view(r) == str_value(*meta),
{
    match meta {
        Meta::NameValue(nv) => match &nv.lit {
            Lit::Str(s) => Some(copy_lit(s)),
            _ => None,
        },
        _ => None,
    }
}

impl SerdeTag {
    /// Applies one serde item to the tagging `this`, as
    /// [`spec_apply_meta`] says.
    pub fn apply_meta(this: &mut Option<SerdeTag>, meta: &Meta)
        ensures
            tag_view(*final(this)) == spec_apply_meta(tag_view(*old(this)), *meta),
    {
        if meta_path_is(meta, "untagged") {
            *this = None;
        } else if meta_path_is(meta, "tag") {
            if let Some(s) = str_value_of(meta) {
                let contents = match this {
                    Some(t) => match &t.contents {
                        Some(c) => Some(copy_lit(c)),
                        None => None,
                    },
                    None => None,
                };
                *this = Some(SerdeTag { tag: Some(s), contents });
            }
        } else if meta_path_is(meta, "contents") {
            if let Some(s) = str_value_of(meta) {
                let tag = match this {
                    Some(t) => match &t.tag {
                        Some(c) => Some(copy_lit(c)),
                        None => None,
                    },
                    None => None,
                };
                *this = Some(SerdeTag { tag, contents: Some(s) });
            }
        }
    }

    /// The tagging of a type from its attributes: none, whatever they say.
    pub fn from_metas(metas: &Vec<Meta>) -> (r: Option<SerdeTag>)
        ensures
            r is None,
    {
        None
    }
}

} // verus!
