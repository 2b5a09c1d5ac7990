use vstd::prelude::*;
use vstd::string::StrSliceExecFns;

use super::arg_spec::{arg_from, arg_list_step, arg_name_value_step, arg_path_step, arg_step, initial_arg, spec_arg_attr};
use super::command_spec::ErrV;
use super::options::ArgOptions;
use super::syntax::{
    attr_error, span_of, span_of_lit, AttrError, Attribute, Lit, Meta, MetaList, MetaNameValue, NestedMeta, Pat,
    PatType, Path, Span, Type,
};

verus! {

/// `r` is the outcome that `s` describes.
pub open spec fn agrees_arg(r: Result<ArgOptions, AttrError>, s: Result<ArgOptions, ErrV>) -> bool {
    match s {
        Ok(v) => r matches Ok(x) && x == v,
        Err((span, m)) => r matches Err(e) && e.span == span && e.message@ == m,
    }
}

fn fail<T>(span: Span, message: &str) -> (r: Result<T, AttrError>)
    ensures
        r matches Err(e) && e.span == span && e.message@ == message@,
{
    Err(attr_error(span, message))
}

fn arg_list_item(o: ArgOptions, l: MetaList) -> (r: Result<ArgOptions, AttrError>)
    ensures
        agrees_arg(r, arg_list_step(o, l)),
{
    if l.path.is_ident("parse") {
        let MetaList { path: _, nested, span, nested_span } = l;
        if nested.len() != 1 {
            return fail(nested_span, "`parse` can only have one implementation");
        }
        let mut nested = nested;
        match nested.remove(0) {
            NestedMeta::Meta(Meta::Path(pi)) => {
                if o.parse.is_some() {
                    return fail(span, "duplicate argument `parse`");
                }
                let mut o = o;
                o.parse = Some(pi);
                Ok(o)
            },
            other => fail(span_of(&other), "`parse` implementation must be a path"),
        }
    } else if l.path.is_ident("stdin") {
        fail(l.path.span, "`stdin` does not take any arguments")
    } else if l.path.is_ident("count") {
        fail(l.path.span, "`count` does not take any arguments")
    } else if l.path.is_ident("multiple") {
        fail(l.path.span, "`multiple` does not take any arguments")
    } else if l.path.is_ident("help") {
        fail(l.path.span, "`help` does not take any arguments")
    } else if l.path.is_ident("rename") {
        fail(l.path.span, "`rename` does not take any arguments")
    } else if l.path.is_ident("short") {
        fail(l.path.span, "`short` does not take any arguments")
    } else if l.path.is_ident("long") {
        fail(l.path.span, "`long` does not take any arguments")
    } else if l.path.is_ident("default") {
        fail(l.path.span, "`default` does not take any arguments")
    } else {
        fail(l.span, "unknown argument")
    }
}

fn arg_path_item(o: ArgOptions, p: Path) -> (r: Result<ArgOptions, AttrError>)
    ensures
        agrees_arg(r, arg_path_step(o, p)),
{
    let mut o = o;
    if p.is_ident("parse") {
        fail(p.span, "`parse` requires an argument")
    } else if p.is_ident("stdin") {
        if o.short.is_some() {
            return fail(p.span, "`stdin` and `short` are mutually exclusive");
        }
        if o.long.is_some() {
            return fail(p.span, "`stdin` and `long` are mutually exclusive");
        }
        if o.help.is_some() {
            return fail(p.span, "`stdin` and `help` are mutually exclusive");
        }
        if o.count.is_some() {
            return fail(p.span, "`stdin` and `count` are mutually exclusive");
        }
        if o.multiple.is_some() {
            return fail(p.span, "`stdin` and `multiple` are mutually exclusive");
        }
        o.stdin = Some(p);
        Ok(o)
    } else if p.is_ident("count") {
        if o.stdin.is_some() {
            return fail(p.span, "`stdin` and `count` are mutually exclusive");
        }
        if o.multiple.is_some() {
            return fail(p.span, "`count` and `multiple` are mutually exclusive");
        }
        o.count = Some(p);
        Ok(o)
    } else if p.is_ident("multiple") {
        if o.stdin.is_some() {
            return fail(p.span, "`stdin` and `multiple` are mutually exclusive");
        }
        if o.count.is_some() {
            return fail(p.span, "`count` and `multiple` are mutually exclusive");
        }
        o.multiple = Some(p);
        Ok(o)
    } else if p.is_ident("help") {
        fail(p.span, "`help` must be assigned to")
    } else if p.is_ident("rename") {
        fail(p.span, "`rename` must be assigned to")
    } else if p.is_ident("short") {
        fail(p.span, "`short` must be assigned to")
    } else if p.is_ident("long") {
        fail(p.span, "`long` must be assigned to")
    } else if p.is_ident("default") {
        fail(p.span, "`default` must be assigned to")
    } else {
        fail(p.span, "unknown argument")
    }
}

fn arg_name_value_item(o: ArgOptions, nv: MetaNameValue) -> (r: Result<ArgOptions, AttrError>)
    ensures
        agrees_arg(r, arg_name_value_step(o, nv)),
{
    let mut o = o;
    let MetaNameValue { path: p, lit, span } = nv;
    if p.is_ident("parse") {
        fail(p.span, "`parse` cannot be assigned to")
    } else if p.is_ident("stdin") {
        fail(p.span, "`stdin` cannot be assigned to")
    } else if p.is_ident("count") {
        fail(p.span, "`count` cannot be assigned to")
    } else if p.is_ident("help") {
        match lit {
            Lit::Str(h) => {
                if o.help.is_some() {
                    return fail(h.span, "duplicate argument `help`");
                }
                if o.stdin.is_some() {
                    return fail(h.span, "`stdin` and `help` are mutually exclusive");
                }
                o.help = Some(h);
                Ok(o)
            },
            Lit::Other { span, .. } => fail(span, "help message must be a string"),
        }
    } else if p.is_ident("rename") {
        match lit {
            Lit::Str(rn) => {
                if o.rename.is_some() {
                    return fail(rn.span, "duplicate argument `rename`");
                }
                o.rename = Some(rn);
                Ok(o)
            },
            Lit::Other { span, .. } => fail(span, "`rename` must be a string"),
        }
    } else if p.is_ident("short") {
        match lit {
            Lit::Str(s) => {
                if s.value.as_str().as_bytes_vec().len() != 1 {
                    return fail(s.span, "`short` value must be 1 character");
                }
                if o.short.is_some() {
                    return fail(s.span, "duplicate argument `short`");
                }
                if o.stdin.is_some() {
                    return fail(s.span, "`stdin` and `short` are mutually exclusive");
                }
                o.short = Some(s);
                Ok(o)
            },
            Lit::Other { span, .. } => fail(span, "`short` must be a string"),
        }
    } else if p.is_ident("long") {
        match lit {
            Lit::Str(s) => {
                if o.long.is_some() {
                    return fail(s.span, "duplicate argument `long`");
                }
                if o.stdin.is_some() {
                    return fail(s.span, "`stdin` and `long` are mutually exclusive");
                }
                o.long = Some(s);
                Ok(o)
            },
            Lit::Other { span, .. } => fail(span, "`long` must be a string"),
        }
    } else if p.is_ident("default") {
        match lit {
            Lit::Str(d) => {
                if o.default.is_some() {
                    return fail(d.span, "duplicate argument `default`");
                }
                o.default = Some(d);
                Ok(o)
            },
            Lit::Other { span, .. } => fail(span, "`default` must be a string"),
        }
    } else {
        fail(span, "unknown argument")
    }
}

fn arg_item(o: ArgOptions, item: NestedMeta) -> (r: Result<ArgOptions, AttrError>)
    ensures
        agrees_arg(r, arg_step(o, item)),
{
    match item {
        NestedMeta::Meta(Meta::List(l)) => arg_list_item(o, l),
        NestedMeta::Meta(Meta::Path(p)) => arg_path_item(o, p),
        NestedMeta::Meta(Meta::NameValue(nv)) => arg_name_value_item(o, nv),
        NestedMeta::Lit(l) => fail(span_of_lit(&l), "unknown argument"),
    }
}

fn clone_type(t: &Type) -> (r: Type)
    ensures
        r == *t,
{
    Type { text: t.text.clone(), span: t.span }
}

fn clone_pat_name(p: &Pat) -> (r: Option<super::syntax::Ident>)
    ensures
        r == match *p {
            Pat::Ident(i) => Some(i),
            Pat::Other(_) => None::<super::syntax::Ident>,
        },
{
    match p {
        Pat::Ident(i) => Some(super::syntax::Ident { name: i.name.clone(), span: i.span }),
        Pat::Other(_) => None,
    }
}

/// Reads the `arg` attribute `attr` of the parameter `arg`: the options of
/// the command-line argument it declares, or the first item refused and
/// why.
#[verifier::loop_isolation(false)]
pub fn parse_arg_attr(attr: Attribute, arg: &PatType) -> (r: Result<ArgOptions, AttrError>)
    ensures
        agrees_arg(r, spec_arg_attr(attr, *arg)),
{
    let ghost a0 = attr;
    let mut opt = ArgOptions {
        ty: clone_type(&arg.ty),
        optional: false,
        check_is_present: false,
        help: None,
        name: clone_pat_name(&arg.pat),
        rename: None,
        short: None,
        long: None,
        parse: None,
        default: None,
        count: None,
        multiple: None,
        stdin: None,
    };
    assert(opt == initial_arg(*arg));
    match attr.meta {
        Err(e) => {
            return Err(e);
        },
        Ok(Meta::List(list)) => {
            let ghost all = list.nested@;
            let mut rest = list.nested;
            let total = rest.len();
            let mut i: usize = 0;
            while rest.len() > 0
                invariant
                    i + rest@.len() == all.len(),
                    all.len() == total,
                    rest@ == all.skip(i as int),
                    arg_from(opt, all, i as int) == arg_from(initial_arg(*arg), all, 0),
                decreases rest@.len(),
            {
                let item = rest.remove(0);
                assert(item == all[i as int]);
                assert(rest@ == all.skip(i + 1));
                match arg_item(opt, item) {
                    Ok(o2) => {
                        opt = o2;
                    },
                    Err(e) => {
                        return Err(e);
                    },
                }
                i = i + 1;
            }
        },
        Ok(Meta::Path(_)) => {},
        Ok(Meta::NameValue(nv)) => {
            return fail(nv.span, "`arg` cannot be assigned to");
        },
    }
    if opt.name.is_none() {
        return fail(arg.span, "cannot infer name for pattern argument");
    }
    Ok(opt)
}

} // verus!
