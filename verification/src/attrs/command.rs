use quote::ToTokens;
use vstd::prelude::*;

use super::command_spec::{
    aliases_from, all_parse_ok, command_check, command_from, command_step, custom_cli_step, exec_ctx_step, has_key,
    list_at, list_step, metadata_from, name_value_step, parse_ok, path_step, res_at, self_impl_step,
    spec_command_attr, subcommands_from, ErrV, ExecKind,
};
use super::options::{
    common, to_parent, with_common, ExecutionContext, LeafOptions, Options, OptionsV, ParentOptions, SelfImplInfo,
};
use super::syntax::{
    attr_error, span_of, span_of_lit, AttrError, Ident, Lit, LitStr, Meta, MetaList, MetaNameValue, NestedMeta,
    Path, PathSegment, Span,
};

verus! {

/// `r` is the outcome that `s` describes.
pub open spec fn agrees(r: Result<Options, AttrError>, s: Result<OptionsV, ErrV>) -> bool {
    match s {
        Ok(v) => r matches Ok(x) && x@ == v,
        Err((span, m)) => r matches Err(e) && e.span == span && e.message@ == m,
    }
}

/// `r` is the outcome that `s` describes.
pub open spec fn agrees_parent(r: Result<ParentOptions, AttrError>, s: Result<super::options::ParentOptionsV, ErrV>) -> bool {
    match s {
        Ok(v) => r matches Ok(x) && x@ == v,
        Err((span, m)) => r matches Err(e) && e.span == span && e.message@ == m,
    }
}

/// `r` is the outcome that `s` describes.
pub open spec fn agrees_seq<T>(r: Result<Vec<T>, AttrError>, s: Result<Seq<T>, ErrV>) -> bool {
    match s {
        Ok(v) => r matches Ok(x) && x@ == v,
        Err((span, m)) => r matches Err(e) && e.span == span && e.message@ == m,
    }
}

fn fail<T>(span: Span, message: &str) -> (r: Result<T, AttrError>)
    ensures
        r matches Err(e) && e.span == span && e.message@ == message@,
{
    Err(attr_error(span, message))
}

/// The rest of the options that [`Options::into_common`] leaves.
pub open spec fn rest_of(o: OptionsV, rest: Option<(Vec<Path>, Option<SelfImplInfo>)>) -> bool {
    match o {
        OptionsV::Leaf(_) => rest is None,
        OptionsV::Parent(p) => rest matches Some((s, i)) && s@ == p.subcommands && i == p.self_impl,
    }
}

fn put_common(c: LeafOptions, rest: Option<(Vec<Path>, Option<SelfImplInfo>)>, Ghost(o): Ghost<OptionsV>) -> (r:
    Options)
    requires
        rest_of(o, rest),
    ensures
        r@ == with_common(o, c@),
{
    Options::from_common(c, rest)
}

/// What parsing a string as a path gave, in the form the specification
/// holds it.
pub open spec fn path_res_view(r: Result<Path, AttrError>) -> Result<Path, ErrV> {
    match r {
        Ok(p) => Ok(p),
        Err(e) => Err((e.span, e.message@)),
    }
}

/// The results of parsing the string items of one list.
pub open spec fn res_view(res: Seq<Result<Path, AttrError>>) -> Seq<Result<Path, ErrV>> {
    res.map_values(|r: Result<Path, AttrError>| path_res_view(r))
}

/// The results for each item of the attribute.
pub open spec fn lists_view(rs: Seq<Vec<Result<Path, AttrError>>>) -> Seq<Seq<Result<Path, ErrV>>> {
    rs.map_values(|v: Vec<Result<Path, AttrError>>| res_view(v@))
}

/// `syn::parse_str` of a path, with the path's spans set to the call site's
/// and an error kept as its text. Which path a string gives, and the text
/// of an error, depend on the lexer that runs (the compiler's inside a
/// procedural macro, proc-macro2's own elsewhere), so the contract leaves
/// them open: it states only that a path has at least one segment (syn's
/// path parser reads one before anything else) and that every span built
/// here is the call site's.
#[verifier::external_body]
fn parse_path_str(s: &str) -> (r: Result<Path, AttrError>)
    ensures
        parse_ok(path_res_view(r)),
{
    match syn::parse_str::<syn::Path>(s) {
        Ok(p) => Ok(Path {
            leading_colon: p.leading_colon.is_some(),
            segments: p.segments.iter().map(|seg| PathSegment {
                ident: Ident { name: seg.ident.to_string(), span: Span::CallSite },
                arguments: if seg.arguments.is_none() { None } else { Some(seg.arguments.to_token_stream().to_string()) },
            }).collect(),
            span: Span::CallSite,
        }),
        Err(e) => Err(AttrError { span: Span::CallSite, message: e.to_string() }),
    }
}

/// The result that stands for an item that is not a string.
fn no_path() -> (r: Result<Path, AttrError>)
    ensures
        path_res_view(r) == Err::<Path, ErrV>((Span::CallSite, Seq::empty())),
{
    Err(AttrError { span: Span::CallSite, message: String::new() })
}

fn exec_ctx_item(o: Options, p: Path, which: ExecKind) -> (r: Result<Options, AttrError>)
    ensures
        agrees(r, exec_ctx_step(o@, p, which)),
{
    let ghost o0 = o@;
    let (mut c, rest) = o.into_common();
    match &c.exec_ctx {
        ExecutionContext::Standard => {},
        ExecutionContext::CliOnly(_) => {
            return match which {
                ExecKind::CliOnly => fail(p.span, "duplicate argument: `cli_only`"),
                ExecKind::RpcOnly => fail(p.span, "`rpc_only` and `cli_only` are mutually exclusive"),
                ExecKind::Local => fail(p.span, "`local` and `cli_only` are mutually exclusive"),
            };
        },
        ExecutionContext::RpcOnly(_) => {
            return match which {
                ExecKind::CliOnly => fail(p.span, "`cli_only` and `rpc_only` are mutually exclusive"),
                ExecKind::RpcOnly => fail(p.span, "duplicate argument: `rpc_only`"),
                ExecKind::Local => fail(p.span, "`local` and `rpc_only` are mutually exclusive"),
            };
        },
        ExecutionContext::Local(_) => {
            return match which {
                ExecKind::CliOnly => fail(p.span, "`cli_only` and `local` are mutually exclusive"),
                ExecKind::RpcOnly => fail(p.span, "`rpc_only` and `local` are mutually exclusive"),
                ExecKind::Local => fail(p.span, "duplicate argument: `local`"),
            };
        },
        ExecutionContext::CustomCli { .. } => {
            return match which {
                ExecKind::CliOnly => fail(p.span, "`cli_only` and `custom_cli` are mutually exclusive"),
                ExecKind::RpcOnly => fail(p.span, "`rpc_only` and `custom_cli` are mutually exclusive"),
                ExecKind::Local => fail(p.span, "`local` and `custom_cli` are mutually exclusive"),
            };
        },
    }
    c.exec_ctx = match which {
        ExecKind::CliOnly => ExecutionContext::CliOnly(p),
        ExecKind::RpcOnly => ExecutionContext::RpcOnly(p),
        ExecKind::Local => ExecutionContext::Local(p),
    };
    Ok(put_common(c, rest, Ghost(o0)))
}

fn path_item(o: Options, p: Path) -> (r: Result<Options, AttrError>)
    ensures
        agrees(r, path_step(o@, p)),
{
    if p.is_ident("subcommands") {
        fail(p.span, "`subcommands` requires at least 1 argument")
    } else if p.is_ident("display") {
        fail(p.span, "`display` requires an argument")
    } else if p.is_ident("custom_cli") {
        fail(p.span, "`custom_cli` requires an argument")
    } else if p.is_ident("alias") {
        fail(p.span, "`alias` requires an argument")
    } else if p.is_ident("cli_only") {
        exec_ctx_item(o, p, ExecKind::CliOnly)
    } else if p.is_ident("rpc_only") {
        exec_ctx_item(o, p, ExecKind::RpcOnly)
    } else if p.is_ident("local") {
        exec_ctx_item(o, p, ExecKind::Local)
    } else if p.is_ident("blocking") {
        let ghost o0 = o@;
        let (mut c, rest) = o.into_common();
        if c.blocking.is_some() {
            return fail(p.span, "duplicate argument `blocking`");
        }
        c.blocking = Some(p);
        Ok(put_common(c, rest, Ghost(o0)))
    } else if p.is_ident("about") {
        fail(p.span, "`about` must be assigned to")
    } else if p.is_ident("rename") {
        fail(p.span, "`rename` must be assigned to")
    } else if p.is_ident("metadata") {
        fail(p.span, "`metadata` takes a list of identifiers to be assigned to")
    } else {
        fail(p.span, "unknown argument")
    }
}

fn name_value_item(o: Options, nv: MetaNameValue) -> (r: Result<Options, AttrError>)
    ensures
        agrees(r, name_value_step(o@, nv)),
{
    let ghost o0 = o@;
    let ghost nv0 = nv;
    let MetaNameValue { path: p, lit, span } = nv;
    if p.is_ident("subcommands") {
        fail(p.span, "`subcommands` cannot be assigned to")
    } else if p.is_ident("display") {
        fail(p.span, "`display` cannot be assigned to")
    } else if p.is_ident("custom_cli") {
        fail(p.span, "`custom_cli` cannot be assigned to")
    } else if p.is_ident("alias") {
        let (mut c, rest) = o.into_common();
        if c.aliases.len() > 0 {
            return fail(p.span, "duplicate argument `alias`");
        }
        match lit {
            Lit::Str(a) => {
                c.aliases.push(a);
                Ok(put_common(c, rest, Ghost(o0)))
            },
            Lit::Other { span, .. } => fail(span, "`alias` must be a string"),
        }
    } else if p.is_ident("cli_only") {
        fail(p.span, "`cli_only` cannot be assigned to")
    } else if p.is_ident("rpc_only") {
        fail(p.span, "`rpc_only` cannot be assigned to")
    } else if p.is_ident("local") {
        fail(p.span, "`local` cannot be assigned to")
    } else if p.is_ident("blocking") {
        fail(p.span, "`blocking` cannot be assigned to")
    } else if p.is_ident("about") {
        match lit {
            Lit::Str(a) => {
                let (mut c, rest) = o.into_common();
                if c.about.is_some() {
                    return fail(a.span, "duplicate argument `about`");
                }
                c.about = Some(a);
                Ok(put_common(c, rest, Ghost(o0)))
            },
            Lit::Other { span, .. } => fail(span, "about message must be a string"),
        }
    } else if p.is_ident("rename") {
        match lit {
            Lit::Str(a) => {
                let (mut c, rest) = o.into_common();
                if c.rename.is_some() {
                    return fail(a.span, "duplicate argument `rename`");
                }
                c.rename = Some(a);
                Ok(put_common(c, rest, Ghost(o0)))
            },
            Lit::Other { span, .. } => fail(span, "`rename` must be a string"),
        }
    } else if p.is_ident("metadata") {
        fail(p.span, "`metadata` cannot be assigned to")
    } else {
        fail(span, "unknown argument")
    }
}

/// Adds the string items of `aliases(..)`.
fn add_aliases(start: Vec<LitStr>, items: Vec<NestedMeta>) -> (r: Result<Vec<LitStr>, AttrError>)
    ensures
        agrees_seq(r, aliases_from(start@, items@, 0)),
{
    let ghost all = items@;
    let ghost a0 = start@;
    let mut aliases = start;
    let mut rest = items;
    let total = rest.len();
    let mut i: usize = 0;
    while rest.len() > 0
        invariant
            i + rest@.len() == all.len(),
            all.len() == total,
            all == items@,
            rest@ == all.skip(i as int),
            aliases_from(aliases@, all, i as int) == aliases_from(a0, all, 0),
            a0 == start@,
        decreases rest@.len(),
    {
        let item = rest.remove(0);
        assert(item == all[i as int]);
        assert(rest@ == all.skip(i + 1));
        match item {
            NestedMeta::Lit(Lit::Str(a)) => {
                aliases.push(a);
            },
            other => {
                return fail(span_of(&other), "`alias` must be a string");
            },
        }
        i = i + 1;
    }
    Ok(aliases)
}

/// Adds the `name = literal` items of `metadata(..)`.
#[verifier::loop_isolation(false)]
fn add_metadata(start: Vec<(Ident, Lit)>, items: Vec<NestedMeta>) -> (r: Result<Vec<(Ident, Lit)>, AttrError>)
    ensures
        agrees_seq(r, metadata_from(start@, items@, 0)),
{
    let ghost all = items@;
    let ghost m0 = start@;
    let mut md = start;
    let mut rest = items;
    let total = rest.len();
    let mut i: usize = 0;
    while rest.len() > 0
        invariant
            i + rest@.len() == all.len(),
            all.len() == total,
            all == items@,
            rest@ == all.skip(i as int),
            metadata_from(md@, all, i as int) == metadata_from(m0, all, 0),
            m0 == start@,
        decreases rest@.len(),
    {
        let item = rest.remove(0);
        assert(item == all[i as int]);
        assert(rest@ == all.skip(i + 1));
        match item {
            NestedMeta::Meta(Meta::NameValue(pair)) => {
                let MetaNameValue { path, lit, span: _ } = pair;
                let single = !path.leading_colon && path.segments.len() == 1 && path.segments[0].arguments.is_none();
                if !single {
                    return fail(path.span, "must be an identifier");
                }
                let mut segments = path.segments;
                let seg = segments.remove(0);
                let ident = seg.ident;
                let mut k: usize = 0;
                while k < md.len()
                    invariant
                        k <= md@.len(),
                        forall|q: int| 0 <= q < k ==> (#[trigger] md@[q]).0.name@ != ident.name@,
                    decreases md@.len() - k,
                {
                    if crate::util::str_eq(md[k].0.name.as_str(), ident.name.as_str()) {
                        assert(has_key(md@, ident.name@));
                        let mut message = String::from_str("duplicate metadata `");
                        message.append(ident.name.as_str());
                        message.append("`");
                        return Err(AttrError { span: ident.span, message });
                    }
                    k = k + 1;
                }
                md.push((ident, lit));
            },
            other => {
                return fail(span_of(&other), "`metadata` takes a list of identifiers to be assigned to");
            },
        }
        i = i + 1;
    }
    Ok(md)
}

/// Puts the implementation named in `self(..)` into `p`.
fn self_impl_item(p: ParentOptions, l: MetaList) -> (r: Result<ParentOptions, AttrError>)
    ensures
        agrees_parent(r, self_impl_step(p@, l)),
{
    let MetaList { path: _, nested, span, nested_span } = l;
    if nested.len() != 1 {
        return fail(nested_span, "`self` can only have one implementation");
    }
    let mut nested = nested;
    let item = nested.remove(0);
    let mut p = p;
    match item {
        NestedMeta::Meta(Meta::Path(sp)) => {
            if p.self_impl.is_some() {
                return fail(sp.span, "duplicate argument `self`");
            }
            p.self_impl = Some(SelfImplInfo { path: sp, is_async: false, blocking: false });
            Ok(p)
        },
        NestedMeta::Meta(Meta::List(inner)) => {
            if inner.nested.len() != 1 {
                return fail(inner.span, "`self` implementation must be a path, or a list with 1 argument");
            }
            if p.self_impl.is_some() {
                return fail(span, "duplicate argument `self`");
            }
            let MetaList { path: ipath, nested: inested, span: _, nested_span: _ } = inner;
            let mut inested = inested;
            let first = inested.remove(0);
            let blocking = match &first {
                NestedMeta::Meta(Meta::Path(q)) => {
                    if q.is_ident("blocking") {
                        true
                    } else if q.is_ident("async") {
                        false
                    } else {
                        return fail(q.span, "unknown argument");
                    }
                },
                other => {
                    return fail(span_of(other), "unknown argument");
                },
            };
            p.self_impl = Some(SelfImplInfo { path: ipath, is_async: !blocking, blocking });
            Ok(p)
        },
        other => fail(span_of(&other), "`self` implementation must be a path, or a list with 1 argument"),
    }
}

/// Takes the first of `rest`, or the result that stands for a missing one.
fn take_first(rest: &mut Vec<Result<Path, AttrError>>) -> (r: Result<Path, AttrError>)
    ensures
        path_res_view(r) == res_at(res_view(old(rest)@), 0),
        forall|j: int| 0 <= j ==> #[trigger] res_at(res_view(final(rest)@), j) == res_at(res_view(old(rest)@), j + 1),
{
    if rest.len() > 0 {
        let r = rest.remove(0);
        proof {
            assert forall|j: int| 0 <= j implies #[trigger] res_at(res_view(rest@), j) == res_at(res_view(old(rest)@), j + 1) by {
                if j < rest@.len() {
                    assert(rest@[j] == old(rest)@[j + 1]);
                }
            }
        }
        r
    } else {
        no_path()
    }
}

/// Adds the items of `subcommands(..)`; `res` holds, at each item's
/// place, what parsing it as a path gave where it is a string.
fn add_subcommands(start: ParentOptions, items: Vec<NestedMeta>, res: Vec<Result<Path, AttrError>>) -> (r: Result<
    ParentOptions,
    AttrError,
>)
    ensures
        agrees_parent(r, subcommands_from(start@, items@, 0, res_view(res@))),
{
    let ghost all = items@;
    let ghost rv = res_view(res@);
    let ghost p0 = start@;
    let mut p = start;
    let mut rest = items;
    let mut rrest = res;
    let total = rest.len();
    let mut i: usize = 0;
    while rest.len() > 0
        invariant
            i + rest@.len() == all.len(),
            all.len() == total,
            all == items@,
            p0 == start@,
            rv == res_view(res@),
            rest@ == all.skip(i as int),
            forall|j: int| 0 <= j ==> #[trigger] res_at(res_view(rrest@), j) == res_at(rv, i + j),
            subcommands_from(p@, all, i as int, rv) == subcommands_from(p0, all, 0, rv),
        decreases rest@.len(),
    {
        let item = rest.remove(0);
        assert(item == all[i as int]);
        assert(rest@ == all.skip(i + 1));
        let ghost before = rrest@;
        let parsed = take_first(&mut rrest);
        assert(res_at(res_view(before), 0) == res_at(rv, i + 0));
        assert forall|j: int| 0 <= j implies #[trigger] res_at(res_view(rrest@), j) == res_at(rv, (i + 1) + j) by {
            assert(res_at(res_view(rrest@), j) == res_at(res_view(before), j + 1));
            assert(res_at(res_view(before), j + 1) == res_at(rv, i + (j + 1)));
        }
        match item {
            NestedMeta::Meta(Meta::Path(sub)) => {
                p.subcommands.push(sub);
            },
            NestedMeta::Lit(Lit::Str(_)) => {
                match parsed {
                    Ok(path) => {
                        p.subcommands.push(path);
                    },
                    Err(e) => {
                        return Err(e);
                    },
                }
            },
            NestedMeta::Meta(Meta::List(l)) => {
                if l.path.is_ident("self") {
                    match self_impl_item(p, l) {
                        Ok(p2) => {
                            p = p2;
                        },
                        Err(e) => {
                            return Err(e);
                        },
                    }
                } else {
                    return fail(l.span, "unknown argument to `subcommands`");
                }
            },
            other => {
                return fail(span_of(&other), "unknown argument to `subcommands`");
            },
        }
        i = i + 1;
    }
    Ok(p)
}

fn custom_cli_item(o: Options, l: MetaList) -> (r: Result<Options, AttrError>)
    ensures
        agrees(r, custom_cli_step(o@, l)),
{
    let ghost o0 = o@;
    let MetaList { path: custom, nested, span, nested_span } = l;
    if nested.len() != 1 {
        return fail(nested_span, "`custom_cli` can only have one implementation");
    }
    let (mut c, rest) = o.into_common();
    match &c.exec_ctx {
        ExecutionContext::Standard => {},
        ExecutionContext::CliOnly(_) => {
            return fail(span, "duplicate argument: `cli_only`");
        },
        ExecutionContext::RpcOnly(_) => {
            return fail(span, "`cli_only` and `rpc_only` are mutually exclusive");
        },
        ExecutionContext::Local(_) => {
            return fail(span, "`cli_only` and `local` are mutually exclusive");
        },
        ExecutionContext::CustomCli { .. } => {
            return fail(span, "`cli_only` and `custom_cli` are mutually exclusive");
        },
    }
    let mut nested = nested;
    let item = nested.remove(0);
    match item {
        NestedMeta::Meta(Meta::Path(ci)) => {
            c.exec_ctx = ExecutionContext::CustomCli { custom, cli: ci, is_async: false };
            Ok(put_common(c, rest, Ghost(o0)))
        },
        NestedMeta::Meta(Meta::List(ci)) => {
            if ci.nested.len() != 1 {
                return fail(ci.span, "`custom_cli` implementation must be a path, or a list with 1 argument");
            }
            let MetaList { path: cli, nested: cn, span: _, nested_span: _ } = ci;
            let mut cn = cn;
            let first = cn.remove(0);
            match &first {
                NestedMeta::Meta(Meta::Path(q)) => {
                    if !q.is_ident("async") {
                        return fail(q.span, "unknown argument");
                    }
                },
                other => {
                    return fail(span_of(other), "unknown argument");
                },
            }
            c.exec_ctx = ExecutionContext::CustomCli { custom, cli, is_async: false };
            Ok(put_common(c, rest, Ghost(o0)))
        },
        other => fail(span_of(&other), "`custom_cli` implementation must be a path, or a list with 1 argument"),
    }
}

fn list_item(o: Options, l: MetaList, res: Vec<Result<Path, AttrError>>) -> (r: Result<Options, AttrError>)
    ensures
        agrees(r, list_step(o@, l, res_view(res@))),
{
    let ghost o0 = o@;
    if l.path.is_ident("subcommands") {
        if matches!(o, Options::Parent(_)) {
            return fail(l.span, "duplicate argument `subcommands`");
        }
        let p = o.into_parent();
        let MetaList { path, nested, span: _, nested_span: _ } = l;
        match add_subcommands(p, nested, res) {
            Ok(p2) => {
                if p2.subcommands.len() == 0 && p2.self_impl.is_none() {
                    fail(path.span, "`subcommands` requires at least 1 argument")
                } else {
                    Ok(Options::Parent(p2))
                }
            },
            Err(e) => Err(e),
        }
    } else if l.path.is_ident("display") {
        let MetaList { path: _, nested, span: _, nested_span } = l;
        if nested.len() != 1 {
            return fail(nested_span, "`display` can only have one implementation");
        }
        let mut nested = nested;
        let item = nested.remove(0);
        match item {
            NestedMeta::Meta(Meta::Path(d)) => {
                let (mut c, rest) = o.into_common();
                if c.display.is_some() {
                    return fail(d.span, "duplicate argument `display`");
                }
                c.display = Some(d);
                Ok(put_common(c, rest, Ghost(o0)))
            },
            other => fail(span_of(&other), "`display` implementation must be a path"),
        }
    } else if l.path.is_ident("custom_cli") {
        custom_cli_item(o, l)
    } else if l.path.is_ident("aliases") {
        let (c, rest) = o.into_common();
        if c.aliases.len() > 0 {
            return fail(l.span, "duplicate argument `alias`");
        }
        let mut c = c;
        let mut aliases: Vec<LitStr> = Vec::new();
        std::mem::swap(&mut aliases, &mut c.aliases);
        match add_aliases(aliases, l.nested) {
            Ok(a) => {
                c.aliases = a;
                Ok(put_common(c, rest, Ghost(o0)))
            },
            Err(e) => Err(e),
        }
    } else if l.path.is_ident("cli_only") {
        fail(l.path.span, "`cli_only` does not take any arguments")
    } else if l.path.is_ident("rpc_only") {
        fail(l.path.span, "`rpc_only` does not take any arguments")
    } else if l.path.is_ident("local") {
        fail(l.path.span, "`local` does not take any arguments")
    } else if l.path.is_ident("blocking") {
        fail(l.path.span, "`blocking` does not take any arguments")
    } else if l.path.is_ident("about") {
        fail(l.path.span, "`about` does not take any arguments")
    } else if l.path.is_ident("rename") {
        fail(l.path.span, "`rename` does not take any arguments")
    } else if l.path.is_ident("metadata") {
        let (mut c, rest) = o.into_common();
        let mut md: Vec<(Ident, Lit)> = Vec::new();
        std::mem::swap(&mut md, &mut c.metadata);
        match add_metadata(md, l.nested) {
            Ok(m) => {
                c.metadata = m;
                Ok(put_common(c, rest, Ghost(o0)))
            },
            Err(e) => Err(e),
        }
    } else {
        fail(l.span, "unknown argument")
    }
}

/// Applies one item of the `command` attribute.
fn command_item(o: Options, arg: NestedMeta, res: Vec<Result<Path, AttrError>>) -> (r: Result<Options, AttrError>)
    ensures
        agrees(r, command_step(o@, arg, res_view(res@))),
{
    match arg {
        NestedMeta::Meta(Meta::List(l)) => list_item(o, l, res),
        NestedMeta::Meta(Meta::Path(p)) => path_item(o, p),
        NestedMeta::Meta(Meta::NameValue(nv)) => name_value_item(o, nv),
        NestedMeta::Lit(l) => fail(span_of_lit(&l), "unknown argument"),
    }
}

fn check_command(o: Options) -> (r: Result<Options, AttrError>)
    ensures
        agrees(r, command_check(o@)),
{
    match &o {
        Options::Parent(p) => {
            if p.self_impl.is_none() {
                if let Some(d) = &p.common.display {
                    return fail(d.span, "cannot define `display` for a command without an implementation");
                }
                match &p.common.exec_ctx {
                    ExecutionContext::CliOnly(c) => {
                        return fail(c.span, "cannot define `cli_only` for a command without an implementation");
                    },
                    ExecutionContext::RpcOnly(c) => {
                        return fail(c.span, "cannot define `rpc_only` for a command without an implementation");
                    },
                    _ => {},
                }
            }
        },
        Options::Leaf(_) => {},
    }
    Ok(o)
}

/// Parses, for each item of the attribute that is a `subcommands(..)` list,
/// the string items in it as paths; every other place holds the result
/// that stands for an item that is not a string.
pub fn resolve_subcommand_paths(args: &Vec<NestedMeta>) -> (r: Vec<Vec<Result<Path, AttrError>>>)
    ensures
        r@.len() == args@.len(),
        all_parse_ok(lists_view(r@)),
{
    let mut r: Vec<Vec<Result<Path, AttrError>>> = Vec::new();
    let mut i: usize = 0;
    while i < args.len()
        invariant
            i <= args@.len(),
            r@.len() == i,
            all_parse_ok(lists_view(r@)),
        decreases args@.len() - i,
    {
        let mut list: Vec<Result<Path, AttrError>> = Vec::new();
        match &args[i] {
            NestedMeta::Meta(Meta::List(l)) => {
                if l.path.is_ident("subcommands") {
                    let mut j: usize = 0;
                    while j < l.nested.len()
                        invariant
                            j <= l.nested@.len(),
                            list@.len() == j,
                            forall|k: int| 0 <= k < j ==> parse_ok(#[trigger] path_res_view(list@[k])),
                        decreases l.nested@.len() - j,
                    {
                        let parsed = match &l.nested[j] {
                            NestedMeta::Lit(Lit::Str(lit)) => parse_path_str(lit.value.as_str()),
                            _ => no_path(),
                        };
                        list.push(parsed);
                        j = j + 1;
                    }
                }
            },
            _ => {},
        }
        let ghost before = r@;
        r.push(list);
        proof {
            assert forall|a: int, b: int| 0 <= a < lists_view(r@).len() && 0 <= b < lists_view(r@)[a].len() implies parse_ok(
                #[trigger] lists_view(r@)[a][b],
            ) by {
                if a < before.len() {
                    assert(lists_view(r@)[a] == lists_view(before)[a]);
                } else {
                    assert(lists_view(r@)[a][b] == path_res_view(list@[b]));
                }
            }
        }
        i = i + 1;
    }
    r
}

/// Takes the first of `rest`, or an empty list where there is none.
fn take_first_list(rest: &mut Vec<Vec<Result<Path, AttrError>>>) -> (r: Vec<Result<Path, AttrError>>)
    ensures
        res_view(r@) == list_at(lists_view(old(rest)@), 0),
        forall|j: int| 0 <= j ==> #[trigger] list_at(lists_view(final(rest)@), j) == list_at(lists_view(old(rest)@), j + 1),
{
    if rest.len() > 0 {
        let r = rest.remove(0);
        proof {
            assert forall|j: int| 0 <= j implies #[trigger] list_at(lists_view(rest@), j) == list_at(lists_view(old(rest)@), j + 1) by {
                if j < rest@.len() {
                    assert(rest@[j] == old(rest)@[j + 1]);
                }
            }
        }
        r
    } else {
        let r: Vec<Result<Path, AttrError>> = Vec::new();
        assert(res_view(r@) =~= Seq::empty());
        r
    }
}

/// Reads the items of the `command` attribute, given for each item what
/// parsing the string items in its brackets as paths gave: the options they
/// set, or the first item that is refused and why.
pub fn parse_command_attr_with(args: Vec<NestedMeta>, paths: Vec<Vec<Result<Path, AttrError>>>) -> (r: Result<
    Options,
    AttrError,
>)
    ensures
        agrees(r, spec_command_attr(args@, lists_view(paths@))),
{
    let ghost all = args@;
    let ghost rv = lists_view(paths@);
    let mut o = Options::Leaf(LeafOptions::new());
    let ghost o0 = o@;
    let mut rest = args;
    let mut prest = paths;
    let total = rest.len();
    let mut i: usize = 0;
    while rest.len() > 0
        invariant
            i + rest@.len() == all.len(),
            all.len() == total,
            all == args@,
            o0 == OptionsV::Leaf(super::options::default_leaf()),
            rv == lists_view(paths@),
            rest@ == all.skip(i as int),
            forall|j: int| 0 <= j ==> #[trigger] list_at(lists_view(prest@), j) == list_at(rv, i + j),
            command_from(o@, all, i as int, rv) == command_from(o0, all, 0, rv),
        decreases rest@.len(),
    {
        let item = rest.remove(0);
        assert(item == all[i as int]);
        assert(rest@ == all.skip(i + 1));
        let ghost before = prest@;
        let res = take_first_list(&mut prest);
        assert(list_at(lists_view(before), 0) == list_at(rv, i + 0));
        assert forall|j: int| 0 <= j implies #[trigger] list_at(lists_view(prest@), j) == list_at(rv, (i + 1) + j) by {
            assert(list_at(lists_view(prest@), j) == list_at(lists_view(before), j + 1));
            assert(list_at(lists_view(before), j + 1) == list_at(rv, i + (j + 1)));
        }
        match command_item(o, item, res) {
            Ok(o2) => {
                o = o2;
            },
            Err(e) => {
                return Err(e);
            },
        }
        i = i + 1;
    }
    check_command(o)
}

/// Reads the items of the `command` attribute: the options they set, or the
/// first item that is refused and why. The string items of `subcommands(..)`
/// are parsed as paths first; the outcome is what the items give with some
/// such parse results, each a path of at least one segment at the call
/// site or an error there.
pub fn parse_command_attr(args: Vec<NestedMeta>) -> (r: Result<Options, AttrError>)
    ensures
        exists|rs: Seq<Seq<Result<Path, ErrV>>>| all_parse_ok(rs) && agrees(r, #[trigger] spec_command_attr(args@, rs)),
{
    let paths = resolve_subcommand_paths(&args);
    let ghost rs = lists_view(paths@);
    let r = parse_command_attr_with(args, paths);
    assert(all_parse_ok(rs) && agrees(r, spec_command_attr(args@, rs)));
    r
}

} // verus!
