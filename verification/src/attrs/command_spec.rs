use vstd::prelude::*;

use super::options::{
    common, to_parent, with_common, ExecutionContext, LeafOptionsV, OptionsV, ParentOptionsV, SelfImplInfo,
};
use super::syntax::{lit_span, nested_span, Lit, Meta, MetaList, MetaNameValue, NestedMeta, Path, Span};

verus! {

/// An error: where, and the message.
pub type ErrV = (Span, Seq<char>);

pub open spec fn fail<T>(span: Span, message: Seq<char>) -> Result<T, ErrV> {
    Err((span, message))
}

/// Which of the items that set where a command runs.
#[derive(Debug, Clone, Copy, PartialEq, Eq)]
pub enum ExecKind {
    CliOnly,
    RpcOnly,
    Local,
}

/// The options after setting where the command runs, as the item `which`
/// at `p` asks, when nothing was set yet; else the error that what was set
/// gives.
pub open spec fn exec_ctx_step(o: OptionsV, p: Path, which: ExecKind) -> Result<OptionsV, ErrV> {
    let c = common(o);
    match c.exec_ctx {
        ExecutionContext::Standard => {
            let ctx = if which == ExecKind::CliOnly {
                ExecutionContext::CliOnly(p)
            } else if which == ExecKind::RpcOnly {
                ExecutionContext::RpcOnly(p)
            } else {
                ExecutionContext::Local(p)
            };
            Ok(with_common(o, LeafOptionsV { exec_ctx: ctx, ..c }))
        },
        ExecutionContext::CliOnly(_) => if which == ExecKind::CliOnly {
            fail(p.span, "duplicate argument: `cli_only`"@)
        } else if which == ExecKind::RpcOnly {
            fail(p.span, "`rpc_only` and `cli_only` are mutually exclusive"@)
        } else {
            fail(p.span, "`local` and `cli_only` are mutually exclusive"@)
        },
        ExecutionContext::RpcOnly(_) => if which == ExecKind::CliOnly {
            fail(p.span, "`cli_only` and `rpc_only` are mutually exclusive"@)
        } else if which == ExecKind::RpcOnly {
            fail(p.span, "duplicate argument: `rpc_only`"@)
        } else {
            fail(p.span, "`local` and `rpc_only` are mutually exclusive"@)
        },
        ExecutionContext::Local(_) => if which == ExecKind::CliOnly {
            fail(p.span, "`cli_only` and `local` are mutually exclusive"@)
        } else if which == ExecKind::RpcOnly {
            fail(p.span, "`rpc_only` and `local` are mutually exclusive"@)
        } else {
            fail(p.span, "duplicate argument: `local`"@)
        },
        ExecutionContext::CustomCli { .. } => if which == ExecKind::CliOnly {
            fail(p.span, "`cli_only` and `custom_cli` are mutually exclusive"@)
        } else if which == ExecKind::RpcOnly {
            fail(p.span, "`rpc_only` and `custom_cli` are mutually exclusive"@)
        } else {
            fail(p.span, "`local` and `custom_cli` are mutually exclusive"@)
        },
    }
}

/// An item given as a bare path.
pub open spec fn path_step(o: OptionsV, p: Path) -> Result<OptionsV, ErrV> {
    let c = common(o);
    if p.spec_is_ident("subcommands"@) {
        fail(p.span, "`subcommands` requires at least 1 argument"@)
    } else if p.spec_is_ident("display"@) {
        fail(p.span, "`display` requires an argument"@)
    } else if p.spec_is_ident("custom_cli"@) {
        fail(p.span, "`custom_cli` requires an argument"@)
    } else if p.spec_is_ident("alias"@) {
        fail(p.span, "`alias` requires an argument"@)
    } else if p.spec_is_ident("cli_only"@) {
        exec_ctx_step(o, p, ExecKind::CliOnly)
    } else if p.spec_is_ident("rpc_only"@) {
        exec_ctx_step(o, p, ExecKind::RpcOnly)
    } else if p.spec_is_ident("local"@) {
        exec_ctx_step(o, p, ExecKind::Local)
    } else if p.spec_is_ident("blocking"@) {
        if c.blocking is Some {
            fail(p.span, "duplicate argument `blocking`"@)
        } else {
            Ok(with_common(o, LeafOptionsV { blocking: Some(p), ..c }))
        }
    } else if p.spec_is_ident("about"@) {
        fail(p.span, "`about` must be assigned to"@)
    } else if p.spec_is_ident("rename"@) {
        fail(p.span, "`rename` must be assigned to"@)
    } else if p.spec_is_ident("metadata"@) {
        fail(p.span, "`metadata` takes a list of identifiers to be assigned to"@)
    } else {
        fail(p.span, "unknown argument"@)
    }
}

/// An item given as `name = literal`.
pub open spec fn name_value_step(o: OptionsV, nv: MetaNameValue) -> Result<OptionsV, ErrV> {
    let c = common(o);
    let p = nv.path;
    if p.spec_is_ident("subcommands"@) {
        fail(p.span, "`subcommands` cannot be assigned to"@)
    } else if p.spec_is_ident("display"@) {
        fail(p.span, "`display` cannot be assigned to"@)
    } else if p.spec_is_ident("custom_cli"@) {
        fail(p.span, "`custom_cli` cannot be assigned to"@)
    } else if p.spec_is_ident("alias"@) {
        if c.aliases.len() > 0 {
            fail(p.span, "duplicate argument `alias`"@)
        } else {
            match nv.lit {
                Lit::Str(a) => Ok(with_common(o, LeafOptionsV { aliases: c.aliases.push(a), ..c })),
                _ => fail(lit_span(nv.lit), "`alias` must be a string"@),
            }
        }
    } else if p.spec_is_ident("cli_only"@) {
        fail(p.span, "`cli_only` cannot be assigned to"@)
    } else if p.spec_is_ident("rpc_only"@) {
        fail(p.span, "`rpc_only` cannot be assigned to"@)
    } else if p.spec_is_ident("local"@) {
        fail(p.span, "`local` cannot be assigned to"@)
    } else if p.spec_is_ident("blocking"@) {
        fail(p.span, "`blocking` cannot be assigned to"@)
    } else if p.spec_is_ident("about"@) {
        match nv.lit {
            Lit::Str(a) => if c.about is Some {
                fail(a.span, "duplicate argument `about`"@)
            } else {
                Ok(with_common(o, LeafOptionsV { about: Some(a), ..c }))
            },
            _ => fail(lit_span(nv.lit), "about message must be a string"@),
        }
    } else if p.spec_is_ident("rename"@) {
        match nv.lit {
            Lit::Str(a) => if c.rename is Some {
                fail(a.span, "duplicate argument `rename`"@)
            } else {
                Ok(with_common(o, LeafOptionsV { rename: Some(a), ..c }))
            },
            _ => fail(lit_span(nv.lit), "`rename` must be a string"@),
        }
    } else if p.spec_is_ident("metadata"@) {
        fail(p.span, "`metadata` cannot be assigned to"@)
    } else {
        fail(nv.span, "unknown argument"@)
    }
}

/// The items of `aliases(..)` from the `i`-th on, added to `aliases`.
pub open spec fn aliases_from(aliases: Seq<super::syntax::LitStr>, items: Seq<NestedMeta>, i: int) -> Result<
    Seq<super::syntax::LitStr>,
    ErrV,
>
    decreases items.len() - i,
{
    if i < 0 || i >= items.len() {
        Ok(aliases)
    } else {
        match items[i] {
            NestedMeta::Lit(Lit::Str(a)) => aliases_from(aliases.push(a), items, i + 1),
            _ => fail(nested_span(items[i]), "`alias` must be a string"@),
        }
    }
}

/// The text of an error for a key given twice in `metadata(..)`.
pub open spec fn duplicate_metadata(name: Seq<char>) -> Seq<char> {
    "duplicate metadata `"@ + name + "`"@
}

/// Whether the entries have the key `name`.
pub open spec fn has_key(md: Seq<(super::syntax::Ident, Lit)>, name: Seq<char>) -> bool {
    exists|k: int| 0 <= k < md.len() && (#[trigger] md[k]).0.name@ == name
}

/// The items of `metadata(..)` from the `i`-th on, added to `md`.
pub open spec fn metadata_from(md: Seq<(super::syntax::Ident, Lit)>, items: Seq<NestedMeta>, i: int) -> Result<
    Seq<(super::syntax::Ident, Lit)>,
    ErrV,
>
    decreases items.len() - i,
{
    if i < 0 || i >= items.len() {
        Ok(md)
    } else {
        match items[i] {
            NestedMeta::Meta(Meta::NameValue(pair)) => {
                if pair.path.spec_is_ident(pair.path.segments@[0].ident.name@) {
                    let ident = pair.path.segments@[0].ident;
                    if has_key(md, ident.name@) {
                        fail(ident.span, duplicate_metadata(ident.name@))
                    } else {
                        metadata_from(md.push((ident, pair.lit)), items, i + 1)
                    }
                } else {
                    fail(pair.path.span, "must be an identifier"@)
                }
            },
            _ => fail(nested_span(items[i]), "`metadata` takes a list of identifiers to be assigned to"@),
        }
    }
}

/// The implementation named in `self(..)`, the single item of the list
/// `l`, put into `p`.
pub open spec fn self_impl_step(p: ParentOptionsV, l: MetaList) -> Result<ParentOptionsV, ErrV> {
    if l.nested@.len() != 1 {
        fail(l.nested_span, "`self` can only have one implementation"@)
    } else {
        match l.nested@[0] {
            NestedMeta::Meta(Meta::Path(sp)) => if p.self_impl is Some {
                fail(sp.span, "duplicate argument `self`"@)
            } else {
                Ok(ParentOptionsV { self_impl: Some(SelfImplInfo { path: sp, is_async: false, blocking: false }), ..p })
            },
            NestedMeta::Meta(Meta::List(inner)) if inner.nested@.len() == 1 => if p.self_impl is Some {
                fail(l.span, "duplicate argument `self`"@)
            } else {
                match inner.nested@[0] {
                    NestedMeta::Meta(Meta::Path(q)) if q.spec_is_ident("blocking"@) => Ok(
                        ParentOptionsV {
                            self_impl: Some(SelfImplInfo { path: inner.path, is_async: false, blocking: true }),
                            ..p
                        },
                    ),
                    NestedMeta::Meta(Meta::Path(q)) if q.spec_is_ident("async"@) => Ok(
                        ParentOptionsV {
                            self_impl: Some(SelfImplInfo { path: inner.path, is_async: true, blocking: false }),
                            ..p
                        },
                    ),
                    a => fail(nested_span(a), "unknown argument"@),
                }
            },
            a => fail(nested_span(a), "`self` implementation must be a path, or a list with 1 argument"@),
        }
    }
}

/// What parsing a string as a path may give, whatever the lexer that
/// parses it: a path of at least one segment, its spans the call site's,
/// or an error at the call site.
pub open spec fn parse_ok(r: Result<Path, ErrV>) -> bool {
    match r {
        Ok(p) => p.span == Span::CallSite && p.segments@.len() > 0 && forall|k: int|
            0 <= k < p.segments@.len() ==> (#[trigger] p.segments@[k]).ident.span == Span::CallSite,
        Err(e) => e.0 == Span::CallSite,
    }
}

/// The `j`-th of the results of parsing the items of a list, an error at
/// the call site where there is none.
pub open spec fn res_at(res: Seq<Result<Path, ErrV>>, j: int) -> Result<Path, ErrV> {
    if 0 <= j < res.len() {
        res[j]
    } else {
        Err((Span::CallSite, Seq::empty()))
    }
}

/// The `i`-th of the lists of results, empty where there is none.
pub open spec fn list_at(rs: Seq<Seq<Result<Path, ErrV>>>, i: int) -> Seq<Result<Path, ErrV>> {
    if 0 <= i < rs.len() {
        rs[i]
    } else {
        Seq::empty()
    }
}

/// Every result is one that parsing a string as a path may give.
pub open spec fn all_parse_ok(rs: Seq<Seq<Result<Path, ErrV>>>) -> bool {
    forall|i: int, j: int| 0 <= i < rs.len() && 0 <= j < rs[i].len() ==> parse_ok(#[trigger] rs[i][j])
}

/// The items of `subcommands(..)` from the `i`-th on, added to `p`; a
/// string item names the path that `res` holds at its place, what parsing
/// it gave.
pub open spec fn subcommands_from(p: ParentOptionsV, items: Seq<NestedMeta>, i: int, res: Seq<Result<Path, ErrV>>) -> Result<ParentOptionsV, ErrV>
    decreases items.len() - i,
{
    if i < 0 || i >= items.len() {
        Ok(p)
    } else {
        match items[i] {
            NestedMeta::Meta(Meta::Path(s)) => subcommands_from(
                ParentOptionsV { subcommands: p.subcommands.push(s), ..p },
                items,
                i + 1,
                res,
            ),
            NestedMeta::Lit(Lit::Str(_)) => match res_at(res, i) {
                Ok(path) => subcommands_from(ParentOptionsV { subcommands: p.subcommands.push(path), ..p }, items, i + 1, res),
                Err(e) => Err(e),
            },
            NestedMeta::Meta(Meta::List(l)) if l.path.spec_is_ident("self"@) => match self_impl_step(p, l) {
                Ok(p2) => subcommands_from(p2, items, i + 1, res),
                Err(e) => Err(e),
            },
            a => fail(nested_span(a), "unknown argument to `subcommands`"@),
        }
    }
}

/// `custom_cli(..)` with its single item.
pub open spec fn custom_cli_step(o: OptionsV, l: MetaList) -> Result<OptionsV, ErrV> {
    let c = common(o);
    if l.nested@.len() != 1 {
        fail(l.nested_span, "`custom_cli` can only have one implementation"@)
    } else {
        match c.exec_ctx {
            ExecutionContext::Standard => match l.nested@[0] {
                NestedMeta::Meta(Meta::Path(ci)) => Ok(
                    with_common(
                        o,
                        LeafOptionsV {
                            exec_ctx: ExecutionContext::CustomCli { custom: l.path, cli: ci, is_async: false },
                            ..c
                        },
                    ),
                ),
                NestedMeta::Meta(Meta::List(ci)) if ci.nested@.len() == 1 => match ci.nested@[0] {
                    NestedMeta::Meta(Meta::Path(q)) if q.spec_is_ident("async"@) => Ok(
                        with_common(
                            o,
                            LeafOptionsV {
                                exec_ctx: ExecutionContext::CustomCli { custom: l.path, cli: ci.path, is_async: false },
                                ..c
                            },
                        ),
                    ),
                    a => fail(nested_span(a), "unknown argument"@),
                },
                a => fail(nested_span(a), "`custom_cli` implementation must be a path, or a list with 1 argument"@),
            },
            ExecutionContext::CliOnly(_) => fail(l.span, "duplicate argument: `cli_only`"@),
            ExecutionContext::RpcOnly(_) => fail(l.span, "`cli_only` and `rpc_only` are mutually exclusive"@),
            ExecutionContext::Local(_) => fail(l.span, "`cli_only` and `local` are mutually exclusive"@),
            ExecutionContext::CustomCli { .. } => fail(l.span, "`cli_only` and `custom_cli` are mutually exclusive"@),
        }
    }
}

/// An item given as `name(..)`; `res` holds what parsing its string items
/// gave. A second `subcommands(..)` list is refused.
pub open spec fn list_step(o: OptionsV, l: MetaList, res: Seq<Result<Path, ErrV>>) -> Result<OptionsV, ErrV> {
    let c = common(o);
    let p = l.path;
    if p.spec_is_ident("subcommands"@) {
        let inner = to_parent(o);
        if o is Parent {
            fail(l.span, "duplicate argument `subcommands`"@)
        } else {
            match subcommands_from(inner, l.nested@, 0, res) {
                Ok(p2) => if p2.subcommands.len() == 0 && p2.self_impl is None {
                    fail(p.span, "`subcommands` requires at least 1 argument"@)
                } else {
                    Ok(OptionsV::Parent(p2))
                },
                Err(e) => Err(e),
            }
        }
    } else if p.spec_is_ident("display"@) {
        if l.nested@.len() != 1 {
            fail(l.nested_span, "`display` can only have one implementation"@)
        } else {
            match l.nested@[0] {
                NestedMeta::Meta(Meta::Path(d)) => if c.display is Some {
                    fail(d.span, "duplicate argument `display`"@)
                } else {
                    Ok(with_common(o, LeafOptionsV { display: Some(d), ..c }))
                },
                a => fail(nested_span(a), "`display` implementation must be a path"@),
            }
        }
    } else if p.spec_is_ident("custom_cli"@) {
        custom_cli_step(o, l)
    } else if p.spec_is_ident("aliases"@) {
        if c.aliases.len() > 0 {
            fail(l.span, "duplicate argument `alias`"@)
        } else {
            match aliases_from(c.aliases, l.nested@, 0) {
                Ok(a) => Ok(with_common(o, LeafOptionsV { aliases: a, ..c })),
                Err(e) => Err(e),
            }
        }
    } else if p.spec_is_ident("cli_only"@) {
        fail(p.span, "`cli_only` does not take any arguments"@)
    } else if p.spec_is_ident("rpc_only"@) {
        fail(p.span, "`rpc_only` does not take any arguments"@)
    } else if p.spec_is_ident("local"@) {
        fail(p.span, "`local` does not take any arguments"@)
    } else if p.spec_is_ident("blocking"@) {
        fail(p.span, "`blocking` does not take any arguments"@)
    } else if p.spec_is_ident("about"@) {
        fail(p.span, "`about` does not take any arguments"@)
    } else if p.spec_is_ident("rename"@) {
        fail(p.span, "`rename` does not take any arguments"@)
    } else if p.spec_is_ident("metadata"@) {
        match metadata_from(c.metadata, l.nested@, 0) {
            Ok(md) => Ok(with_common(o, LeafOptionsV { metadata: md, ..c })),
            Err(e) => Err(e),
        }
    } else {
        fail(l.span, "unknown argument"@)
    }
}

/// One item of the `command` attribute applied to the options `o`; `res`
/// holds what parsing the string items in its brackets gave.
pub open spec fn command_step(o: OptionsV, arg: NestedMeta, res: Seq<Result<Path, ErrV>>) -> Result<OptionsV, ErrV> {
    match arg {
        NestedMeta::Meta(Meta::List(l)) => list_step(o, l, res),
        NestedMeta::Meta(Meta::Path(p)) => path_step(o, p),
        NestedMeta::Meta(Meta::NameValue(nv)) => name_value_step(o, nv),
        NestedMeta::Lit(l) => fail(lit_span(l), "unknown argument"@),
    }
}

/// The items of the attribute from the `i`-th on applied in turn.
pub open spec fn command_from(o: OptionsV, args: Seq<NestedMeta>, i: int, rs: Seq<Seq<Result<Path, ErrV>>>) -> Result<OptionsV, ErrV>
    decreases args.len() - i,
{
    if i < 0 || i >= args.len() {
        Ok(o)
    } else {
        match command_step(o, args[i], list_at(rs, i)) {
            Ok(o2) => command_from(o2, args, i + 1, rs),
            Err(e) => Err(e),
        }
    }
}

/// A command with subcommands and no implementation of its own can
/// neither show a result nor run on one side only.
pub open spec fn command_check(o: OptionsV) -> Result<OptionsV, ErrV> {
    match o {
        OptionsV::Parent(p) => if p.self_impl is None {
            match p.common.display {
                Some(d) => fail(d.span, "cannot define `display` for a command without an implementation"@),
                None => match p.common.exec_ctx {
                    ExecutionContext::CliOnly(c) => fail(
                        c.span,
                        "cannot define `cli_only` for a command without an implementation"@,
                    ),
                    ExecutionContext::RpcOnly(r) => fail(
                        r.span,
                        "cannot define `rpc_only` for a command without an implementation"@,
                    ),
                    _ => Ok(o),
                },
            }
        } else {
            Ok(o)
        },
        OptionsV::Leaf(_) => Ok(o),
    }
}

/// The options that the items of the `command` attribute give, or the
/// first error in them; `rs` holds, for each item, what parsing the string
/// items in its brackets gave, in their places.
pub open spec fn spec_command_attr(args: Seq<NestedMeta>, rs: Seq<Seq<Result<Path, ErrV>>>) -> Result<OptionsV, ErrV> {
    match command_from(OptionsV::Leaf(super::options::default_leaf()), args, 0, rs) {
        Ok(o) => command_check(o),
        Err(e) => Err(e),
    }
}

/// The forms an item of an attribute takes: a bare word, `word(..)`, or
/// `word = literal`.
#[derive(Debug, Clone, Copy, PartialEq, Eq)]
pub enum ItemForm {
    Word,
    Call,
    Assign,
}

/// `a` is the item `name` in the form `form`.
pub open spec fn item_named(a: NestedMeta, form: ItemForm, name: Seq<char>) -> bool {
    match a {
        NestedMeta::Meta(Meta::Path(p)) => form == ItemForm::Word && p.spec_is_ident(name),
        NestedMeta::Meta(Meta::List(l)) => form == ItemForm::Call && l.path.spec_is_ident(name),
        NestedMeta::Meta(Meta::NameValue(nv)) => form == ItemForm::Assign && nv.path.spec_is_ident(name),
        NestedMeta::Lit(_) => false,
    }
}

/// The items hold `name` in the form `form`.
pub open spec fn given(args: Seq<NestedMeta>, form: ItemForm, name: Seq<char>) -> bool {
    exists|i: int| 0 <= i < args.len() && #[trigger] item_named(args[i], form, name)
}

/// The options of a command that an item sets.
#[derive(Debug, Clone, Copy, PartialEq, Eq)]
pub enum OptionKey {
    /// The command has subcommands: `subcommands(..)`.
    Parent,
    /// `about = ".."`.
    About,
    /// `blocking`.
    Blocking,
    /// `display(..)`.
    Display,
    /// `rename = ".."`.
    Rename,
    /// `cli_only`.
    CliOnly,
    /// `rpc_only`.
    RpcOnly,
    /// `local`.
    Local,
    /// `custom_cli(..)`.
    CustomCli,
}

/// The item that sets the option `k`: its form and its name.
pub open spec fn key_item(k: OptionKey) -> (ItemForm, Seq<char>) {
    match k {
        OptionKey::Parent => (ItemForm::Call, "subcommands"@),
        OptionKey::About => (ItemForm::Assign, "about"@),
        OptionKey::Blocking => (ItemForm::Word, "blocking"@),
        OptionKey::Display => (ItemForm::Call, "display"@),
        OptionKey::Rename => (ItemForm::Assign, "rename"@),
        OptionKey::CliOnly => (ItemForm::Word, "cli_only"@),
        OptionKey::RpcOnly => (ItemForm::Word, "rpc_only"@),
        OptionKey::Local => (ItemForm::Word, "local"@),
        OptionKey::CustomCli => (ItemForm::Call, "custom_cli"@),
    }
}

/// The options `o` have the option `k` set.
pub open spec fn option_set(o: OptionsV, k: OptionKey) -> bool {
    let c = common(o);
    match k {
        OptionKey::Parent => o is Parent,
        OptionKey::About => c.about is Some,
        OptionKey::Blocking => c.blocking is Some,
        OptionKey::Display => c.display is Some,
        OptionKey::Rename => c.rename is Some,
        OptionKey::CliOnly => c.exec_ctx is CliOnly,
        OptionKey::RpcOnly => c.exec_ctx is RpcOnly,
        OptionKey::Local => c.exec_ctx is Local,
        OptionKey::CustomCli => c.exec_ctx is CustomCli,
    }
}

/// The items of `subcommands(..)` leave the common options alone.
proof fn lemma_subcommands_common(p: ParentOptionsV, items: Seq<NestedMeta>, i: int, res: Seq<Result<Path, ErrV>>)
    requires
        subcommands_from(p, items, i, res) is Ok,
    ensures
        (subcommands_from(p, items, i, res)->Ok_0).common == p.common,
    decreases items.len() - i,
{
    if 0 <= i < items.len() {
        match items[i] {
            NestedMeta::Meta(Meta::Path(s)) => {
                lemma_subcommands_common(ParentOptionsV { subcommands: p.subcommands.push(s), ..p }, items, i + 1, res);
            },
            NestedMeta::Lit(Lit::Str(_)) => {
                if let Ok(path) = res_at(res, i) {
                    lemma_subcommands_common(ParentOptionsV { subcommands: p.subcommands.push(path), ..p }, items, i + 1, res);
                }
            },
            NestedMeta::Meta(Meta::List(l)) => {
                if l.path.spec_is_ident("self"@) {
                    if let Ok(p2) = self_impl_step(p, l) {
                        lemma_subcommands_common(p2, items, i + 1, res);
                    }
                }
            },
            _ => {},
        }
    }
}

/// The names of the items of the `command` attribute differ.
proof fn lemma_item_names()
    ensures
        "subcommands"@ != "about"@,
        "subcommands"@ != "blocking"@,
        "subcommands"@ != "display"@,
        "subcommands"@ != "rename"@,
        "subcommands"@ != "cli_only"@,
        "subcommands"@ != "rpc_only"@,
        "subcommands"@ != "local"@,
        "subcommands"@ != "custom_cli"@,
        "subcommands"@ != "alias"@,
        "subcommands"@ != "aliases"@,
        "subcommands"@ != "metadata"@,
        "about"@ != "blocking"@,
        "about"@ != "display"@,
        "about"@ != "rename"@,
        "about"@ != "cli_only"@,
        "about"@ != "rpc_only"@,
        "about"@ != "local"@,
        "about"@ != "custom_cli"@,
        "about"@ != "alias"@,
        "about"@ != "aliases"@,
        "about"@ != "metadata"@,
        "blocking"@ != "display"@,
        "blocking"@ != "rename"@,
        "blocking"@ != "cli_only"@,
        "blocking"@ != "rpc_only"@,
        "blocking"@ != "local"@,
        "blocking"@ != "custom_cli"@,
        "blocking"@ != "alias"@,
        "blocking"@ != "aliases"@,
        "blocking"@ != "metadata"@,
        "display"@ != "rename"@,
        "display"@ != "cli_only"@,
        "display"@ != "rpc_only"@,
        "display"@ != "local"@,
        "display"@ != "custom_cli"@,
        "display"@ != "alias"@,
        "display"@ != "aliases"@,
        "display"@ != "metadata"@,
        "rename"@ != "cli_only"@,
        "rename"@ != "rpc_only"@,
        "rename"@ != "local"@,
        "rename"@ != "custom_cli"@,
        "rename"@ != "alias"@,
        "rename"@ != "aliases"@,
        "rename"@ != "metadata"@,
        "cli_only"@ != "rpc_only"@,
        "cli_only"@ != "local"@,
        "cli_only"@ != "custom_cli"@,
        "cli_only"@ != "alias"@,
        "cli_only"@ != "aliases"@,
        "cli_only"@ != "metadata"@,
        "rpc_only"@ != "local"@,
        "rpc_only"@ != "custom_cli"@,
        "rpc_only"@ != "alias"@,
        "rpc_only"@ != "aliases"@,
        "rpc_only"@ != "metadata"@,
        "local"@ != "custom_cli"@,
        "local"@ != "alias"@,
        "local"@ != "aliases"@,
        "local"@ != "metadata"@,
        "custom_cli"@ != "alias"@,
        "custom_cli"@ != "aliases"@,
        "custom_cli"@ != "metadata"@,
        "alias"@ != "aliases"@,
        "alias"@ != "metadata"@,
        "aliases"@ != "metadata"@,
{
    reveal_strlit("subcommands");
    reveal_strlit("about");
    reveal_strlit("blocking");
    reveal_strlit("display");
    reveal_strlit("rename");
    reveal_strlit("cli_only");
    reveal_strlit("rpc_only");
    reveal_strlit("local");
    reveal_strlit("custom_cli");
    reveal_strlit("alias");
    reveal_strlit("aliases");
    reveal_strlit("metadata");
    assert("subcommands"@.len() == 11 && "subcommands"@[0] == 's' && "subcommands"@[1] == 'u');
    assert("about"@.len() == 5 && "about"@[0] == 'a' && "about"@[1] == 'b');
    assert("blocking"@.len() == 8 && "blocking"@[0] == 'b' && "blocking"@[1] == 'l');
    assert("display"@.len() == 7 && "display"@[0] == 'd' && "display"@[1] == 'i');
    assert("rename"@.len() == 6 && "rename"@[0] == 'r' && "rename"@[1] == 'e');
    assert("cli_only"@.len() == 8 && "cli_only"@[0] == 'c' && "cli_only"@[1] == 'l');
    assert("rpc_only"@.len() == 8 && "rpc_only"@[0] == 'r' && "rpc_only"@[1] == 'p');
    assert("local"@.len() == 5 && "local"@[0] == 'l' && "local"@[1] == 'o');
    assert("custom_cli"@.len() == 10 && "custom_cli"@[0] == 'c' && "custom_cli"@[1] == 'u');
    assert("alias"@.len() == 5 && "alias"@[0] == 'a' && "alias"@[1] == 'l');
    assert("aliases"@.len() == 7 && "aliases"@[0] == 'a' && "aliases"@[1] == 'l');
    assert("metadata"@.len() == 8 && "metadata"@[0] == 'm' && "metadata"@[1] == 'e');
}

/// An item that is accepted sets the option it names, and leaves every
/// other option as it was.
proof fn lemma_command_step_sets(o: OptionsV, a: NestedMeta, res: Seq<Result<Path, ErrV>>, k: OptionKey)
    requires
        command_step(o, a, res) is Ok,
    ensures
        option_set(command_step(o, a, res)->Ok_0, k) == (option_set(o, k) || item_named(a, key_item(k).0, key_item(k).1)),
{
    reveal_strlit("subcommands");
    reveal_strlit("about");
    reveal_strlit("blocking");
    reveal_strlit("display");
    reveal_strlit("rename");
    reveal_strlit("cli_only");
    reveal_strlit("rpc_only");
    reveal_strlit("local");
    reveal_strlit("custom_cli");
    reveal_strlit("alias");
    reveal_strlit("aliases");
    reveal_strlit("metadata");
    reveal_strlit("about");
    lemma_item_names();
    let c = common(o);
    match a {
        NestedMeta::Meta(Meta::Path(p)) => {
            let goal = option_set(command_step(o, a, res)->Ok_0, k) == (option_set(o, k) || item_named(a, key_item(k).0, key_item(k).1));
            if p.spec_is_ident("cli_only"@) {
                assert(path_step(o, p) == exec_ctx_step(o, p, ExecKind::CliOnly));
                assert(goal);
            } else if p.spec_is_ident("rpc_only"@) {
                assert(path_step(o, p) == exec_ctx_step(o, p, ExecKind::RpcOnly));
                assert(goal);
            } else if p.spec_is_ident("local"@) {
                assert(path_step(o, p) == exec_ctx_step(o, p, ExecKind::Local));
                assert(goal);
            } else if p.spec_is_ident("blocking"@) {
                assert(path_step(o, p) == Ok::<OptionsV, ErrV>(with_common(o, LeafOptionsV { blocking: Some(p), ..c })));
                assert(goal);
            } else {
                assert(goal);
            }
        },
        NestedMeta::Meta(Meta::List(l)) => {
            let q = l.path;
            let goal = option_set(command_step(o, a, res)->Ok_0, k) == (option_set(o, k) || item_named(a, key_item(k).0, key_item(k).1));
            assert(command_step(o, a, res) == list_step(o, l, res));
            if q.spec_is_ident("subcommands"@) {
                lemma_subcommands_common(to_parent(o), l.nested@, 0, res);
                assert(command_step(o, a, res)->Ok_0 is Parent);
                assert(goal);
            } else if q.spec_is_ident("display"@) {
                assert(goal);
            } else if q.spec_is_ident("custom_cli"@) {
                assert(command_step(o, a, res) == custom_cli_step(o, l));
                assert(goal);
            } else if q.spec_is_ident("aliases"@) {
                assert(goal);
            } else if q.spec_is_ident("metadata"@) {
                assert(goal);
            } else {
                assert(goal);
            }
        },
        NestedMeta::Meta(Meta::NameValue(nv)) => {
            let q = nv.path;
            let goal = option_set(command_step(o, a, res)->Ok_0, k) == (option_set(o, k) || item_named(a, key_item(k).0, key_item(k).1));
            assert(command_step(o, a, res) == name_value_step(o, nv));
            if q.spec_is_ident("alias"@) {
                assert(goal);
            } else if q.spec_is_ident("about"@) {
                assert(goal);
            } else if q.spec_is_ident("rename"@) {
                assert(goal);
            } else {
                assert(goal);
            }
        },
        NestedMeta::Lit(_) => {},
    }
}

/// The items from the `i`-th on, applied to `o`, set exactly the options
/// that `o` had and those that they name.
proof fn lemma_command_from_sets(o: OptionsV, args: Seq<NestedMeta>, i: int, rs: Seq<Seq<Result<Path, ErrV>>>, k: OptionKey)
    requires
        0 <= i <= args.len(),
        command_from(o, args, i, rs) is Ok,
    ensures
        option_set(command_from(o, args, i, rs)->Ok_0, k) == (option_set(o, k) || exists|j: int|
            i <= j < args.len() && #[trigger] item_named(args[j], key_item(k).0, key_item(k).1)),
    decreases args.len() - i,
{
    if i < args.len() {
        lemma_command_step_sets(o, args[i], list_at(rs, i), k);
        let o2 = command_step(o, args[i], list_at(rs, i))->Ok_0;
        lemma_command_from_sets(o2, args, i + 1, rs, k);
        if exists|j: int| i <= j < args.len() && #[trigger] item_named(args[j], key_item(k).0, key_item(k).1) {
            let j = choose|j: int| i <= j < args.len() && #[trigger] item_named(args[j], key_item(k).0, key_item(k).1);
            if j > i {
                assert(i + 1 <= j < args.len() && item_named(args[j], key_item(k).0, key_item(k).1));
            }
        }
    }
}

/// Each option that the `command` attribute accepts is set exactly when
/// the item that names it is given.
proof fn lemma_command_option(args: Seq<NestedMeta>, rs: Seq<Seq<Result<Path, ErrV>>>, k: OptionKey)
    requires
        spec_command_attr(args, rs) is Ok,
    ensures
        option_set(spec_command_attr(args, rs)->Ok_0, k) == given(args, key_item(k).0, key_item(k).1),
{
    let o0 = OptionsV::Leaf(super::options::default_leaf());
    lemma_command_from_sets(o0, args, 0, rs, k);
}

/// The options that the `command` attribute accepts are set exactly when
/// the items that name them are given: a command has subcommands exactly
/// when `subcommands(..)` is given; it has an about text, a blocking mark,
/// a display or a new name exactly when `about = ".."`, `blocking`,
/// `display(..)` or `rename = ".."` is given; and it runs on the command
/// line only, on the server only, locally or through a custom command
/// line exactly when `cli_only`, `rpc_only`, `local` or `custom_cli(..)`
/// is given, on the server as usual when none is.
pub proof fn lemma_command_options(args: Seq<NestedMeta>, rs: Seq<Seq<Result<Path, ErrV>>>, k: OptionKey)
    requires
        spec_command_attr(args, rs) is Ok,
    ensures
        option_set(spec_command_attr(args, rs)->Ok_0, k) == given(args, key_item(k).0, key_item(k).1),
        spec_command_attr(args, rs)->Ok_0 is Parent == given(args, ItemForm::Call, "subcommands"@),
        common(spec_command_attr(args, rs)->Ok_0).exec_ctx is Standard == !(given(args, ItemForm::Word, "cli_only"@)
            || given(args, ItemForm::Word, "rpc_only"@) || given(args, ItemForm::Word, "local"@) || given(
            args,
            ItemForm::Call,
            "custom_cli"@,
        )),
{
    let o = spec_command_attr(args, rs)->Ok_0;
    lemma_command_option(args, rs, k);
    lemma_command_option(args, rs, OptionKey::Parent);
    assert(key_item(OptionKey::Parent) == (ItemForm::Call, "subcommands"@));
    assert(option_set(o, OptionKey::Parent) == o is Parent);
    lemma_command_option(args, rs, OptionKey::CliOnly);
    lemma_command_option(args, rs, OptionKey::RpcOnly);
    lemma_command_option(args, rs, OptionKey::Local);
    lemma_command_option(args, rs, OptionKey::CustomCli);
    assert(key_item(OptionKey::CliOnly) == (ItemForm::Word, "cli_only"@));
    assert(key_item(OptionKey::RpcOnly) == (ItemForm::Word, "rpc_only"@));
    assert(key_item(OptionKey::Local) == (ItemForm::Word, "local"@));
    assert(key_item(OptionKey::CustomCli) == (ItemForm::Call, "custom_cli"@));
}


/// The options `o` hold the value written in the item `a`, where `a` sets
/// an option: the text of `about = ".."` or `rename = ".."`, the word of
/// `blocking`, `cli_only`, `rpc_only` or `local`, the path in `display(..)`,
/// and both paths of `custom_cli(..)`.
pub open spec fn keeps_written(o: OptionsV, a: NestedMeta) -> bool {
    let c = common(o);
    match a {
        NestedMeta::Meta(Meta::Path(p)) => if p.spec_is_ident("blocking"@) {
            c.blocking == Some(p)
        } else if p.spec_is_ident("cli_only"@) {
            c.exec_ctx == ExecutionContext::CliOnly(p)
        } else if p.spec_is_ident("rpc_only"@) {
            c.exec_ctx == ExecutionContext::RpcOnly(p)
        } else if p.spec_is_ident("local"@) {
            c.exec_ctx == ExecutionContext::Local(p)
        } else {
            true
        },
        NestedMeta::Meta(Meta::NameValue(nv)) => if nv.path.spec_is_ident("about"@) {
            nv.lit matches Lit::Str(t) && c.about == Some(t)
        } else if nv.path.spec_is_ident("rename"@) {
            nv.lit matches Lit::Str(t) && c.rename == Some(t)
        } else {
            true
        },
        NestedMeta::Meta(Meta::List(l)) => if l.path.spec_is_ident("display"@) {
            l.nested@.len() == 1 && (l.nested@[0] matches NestedMeta::Meta(Meta::Path(d)) && c.display == Some(d))
        } else if l.path.spec_is_ident("custom_cli"@) {
            l.nested@.len() == 1 && match l.nested@[0] {
                NestedMeta::Meta(Meta::Path(ci)) => c.exec_ctx == ExecutionContext::CustomCli {
                    custom: l.path,
                    cli: ci,
                    is_async: false,
                },
                NestedMeta::Meta(Meta::List(ci)) => c.exec_ctx == ExecutionContext::CustomCli {
                    custom: l.path,
                    cli: ci.path,
                    is_async: false,
                },
                _ => false,
            }
        } else {
            true
        },
        NestedMeta::Lit(_) => true,
    }
}

/// `a` is one of the items that set where a command runs.
pub open spec fn names_exec_ctx(a: NestedMeta) -> bool {
    ||| item_named(a, ItemForm::Word, "cli_only"@)
    ||| item_named(a, ItemForm::Word, "rpc_only"@)
    ||| item_named(a, ItemForm::Word, "local"@)
    ||| item_named(a, ItemForm::Call, "custom_cli"@)
}

/// An accepted item writes its value into the option it sets, which was
/// unset before, and leaves the values of the other options as they were.
proof fn lemma_step_values(o: OptionsV, b: NestedMeta, res: Seq<Result<Path, ErrV>>)
    requires
        command_step(o, b, res) is Ok,
    ensures
        ({
            let c = common(o);
            let c2 = common(command_step(o, b, res)->Ok_0);
            &&& keeps_written(command_step(o, b, res)->Ok_0, b)
            &&& c2.about == c.about || (c.about is None && item_named(b, ItemForm::Assign, "about"@))
            &&& c2.rename == c.rename || (c.rename is None && item_named(b, ItemForm::Assign, "rename"@))
            &&& c2.blocking == c.blocking || (c.blocking is None && item_named(b, ItemForm::Word, "blocking"@))
            &&& c2.display == c.display || (c.display is None && item_named(b, ItemForm::Call, "display"@))
            &&& c2.exec_ctx == c.exec_ctx || (c.exec_ctx is Standard && names_exec_ctx(b))
        }),
{
    reveal_strlit("subcommands");
    reveal_strlit("about");
    reveal_strlit("blocking");
    reveal_strlit("display");
    reveal_strlit("rename");
    reveal_strlit("cli_only");
    reveal_strlit("rpc_only");
    reveal_strlit("local");
    reveal_strlit("custom_cli");
    reveal_strlit("alias");
    reveal_strlit("aliases");
    reveal_strlit("metadata");
    lemma_item_names();
    let c = common(o);
    match b {
        NestedMeta::Meta(Meta::Path(p)) => {
            if p.spec_is_ident("cli_only"@) {
                assert(path_step(o, p) == exec_ctx_step(o, p, ExecKind::CliOnly));
            } else if p.spec_is_ident("rpc_only"@) {
                assert(path_step(o, p) == exec_ctx_step(o, p, ExecKind::RpcOnly));
            } else if p.spec_is_ident("local"@) {
                assert(path_step(o, p) == exec_ctx_step(o, p, ExecKind::Local));
            } else if p.spec_is_ident("blocking"@) {
                assert(path_step(o, p) == Ok::<OptionsV, ErrV>(with_common(o, LeafOptionsV { blocking: Some(p), ..c })));
            }
        },
        NestedMeta::Meta(Meta::List(l)) => {
            let q = l.path;
            assert(command_step(o, b, res) == list_step(o, l, res));
            if q.spec_is_ident("subcommands"@) {
                lemma_subcommands_common(to_parent(o), l.nested@, 0, res);
            } else if q.spec_is_ident("custom_cli"@) {
                assert(command_step(o, b, res) == custom_cli_step(o, l));
            }
        },
        NestedMeta::Meta(Meta::NameValue(nv)) => {
            assert(command_step(o, b, res) == name_value_step(o, nv));
        },
        NestedMeta::Lit(_) => {},
    }
}

/// An item that names an option already set is refused.
proof fn lemma_step_refuses_set(o: OptionsV, b: NestedMeta, res: Seq<Result<Path, ErrV>>, k: OptionKey)
    requires
        option_set(o, k),
        item_named(b, key_item(k).0, key_item(k).1),
    ensures
        command_step(o, b, res) is Err,
{
    reveal_strlit("subcommands");
    reveal_strlit("about");
    reveal_strlit("blocking");
    reveal_strlit("display");
    reveal_strlit("rename");
    reveal_strlit("cli_only");
    reveal_strlit("rpc_only");
    reveal_strlit("local");
    reveal_strlit("custom_cli");
    reveal_strlit("alias");
    reveal_strlit("aliases");
    reveal_strlit("metadata");
    lemma_item_names();
    match b {
        NestedMeta::Meta(Meta::Path(p)) => {
            if p.spec_is_ident("cli_only"@) {
                assert(path_step(o, p) == exec_ctx_step(o, p, ExecKind::CliOnly));
            } else if p.spec_is_ident("rpc_only"@) {
                assert(path_step(o, p) == exec_ctx_step(o, p, ExecKind::RpcOnly));
            } else if p.spec_is_ident("local"@) {
                assert(path_step(o, p) == exec_ctx_step(o, p, ExecKind::Local));
            }
        },
        NestedMeta::Meta(Meta::List(l)) => {
            assert(command_step(o, b, res) == list_step(o, l, res));
            if l.path.spec_is_ident("custom_cli"@) {
                assert(command_step(o, b, res) == custom_cli_step(o, l));
            }
        },
        NestedMeta::Meta(Meta::NameValue(nv)) => {
            assert(command_step(o, b, res) == name_value_step(o, nv));
        },
        NestedMeta::Lit(_) => {},
    }
}

/// Applied from the `m`-th item on, the items keep the value written in
/// the `i`-th one: once it is written, where `i` comes before `m`, or when
/// it is reached.
proof fn lemma_from_keeps(o: OptionsV, args: Seq<NestedMeta>, m: int, rs: Seq<Seq<Result<Path, ErrV>>>, i: int)
    requires
        0 <= m <= args.len(),
        0 <= i < args.len(),
        command_from(o, args, m, rs) is Ok,
        i < m ==> keeps_written(o, args[i]),
    ensures
        keeps_written(command_from(o, args, m, rs)->Ok_0, args[i]),
    decreases args.len() - m,
{
    if m < args.len() {
        let o2 = command_step(o, args[m], list_at(rs, m))->Ok_0;
        lemma_step_values(o, args[m], list_at(rs, m));
        lemma_from_keeps(o2, args, m + 1, rs, i);
    }
}

/// From the `m`-th item on, with the option `k` set in `o`, an item that
/// names it again is refused.
proof fn lemma_from_refuses(o: OptionsV, args: Seq<NestedMeta>, m: int, rs: Seq<Seq<Result<Path, ErrV>>>, k: OptionKey, j: int)
    requires
        0 <= m <= j < args.len(),
        option_set(o, k),
        item_named(args[j], key_item(k).0, key_item(k).1),
    ensures
        command_from(o, args, m, rs) is Err,
    decreases args.len() - m,
{
    if m == j {
        lemma_step_refuses_set(o, args[m], list_at(rs, m), k);
    } else if command_step(o, args[m], list_at(rs, m)) is Ok {
        lemma_command_step_sets(o, args[m], list_at(rs, m), k);
        lemma_from_refuses(command_step(o, args[m], list_at(rs, m))->Ok_0, args, m + 1, rs, k, j);
    }
}

/// From the `m`-th item on, two items that name one option are refused.
proof fn lemma_from_twice(o: OptionsV, args: Seq<NestedMeta>, m: int, rs: Seq<Seq<Result<Path, ErrV>>>, k: OptionKey, i: int, j: int)
    requires
        0 <= m <= i < j < args.len(),
        item_named(args[i], key_item(k).0, key_item(k).1),
        item_named(args[j], key_item(k).0, key_item(k).1),
    ensures
        command_from(o, args, m, rs) is Err,
    decreases args.len() - m,
{
    if command_step(o, args[m], list_at(rs, m)) is Ok {
        let o2 = command_step(o, args[m], list_at(rs, m))->Ok_0;
        if m == i {
            lemma_command_step_sets(o, args[m], list_at(rs, m), k);
            lemma_from_refuses(o2, args, m + 1, rs, k, j);
        } else {
            lemma_from_twice(o2, args, m + 1, rs, k, i, j);
        }
    }
}

/// An option of the `command` attribute given twice is refused: a second
/// `subcommands(..)`, `about = ".."`, `blocking`, `display(..)`,
/// `rename = ".."`, `cli_only`, `rpc_only`, `local` or `custom_cli(..)`
/// never overrides the first.
pub proof fn lemma_command_repeated(args: Seq<NestedMeta>, rs: Seq<Seq<Result<Path, ErrV>>>, k: OptionKey, i: int, j: int)
    requires
        0 <= i < j < args.len(),
        item_named(args[i], key_item(k).0, key_item(k).1),
        item_named(args[j], key_item(k).0, key_item(k).1),
    ensures
        spec_command_attr(args, rs) is Err,
{
    lemma_from_twice(OptionsV::Leaf(super::options::default_leaf()), args, 0, rs, k, i, j);
}

/// Each option that an item of an accepted `command` attribute sets holds
/// the value written in that item: the about text and the new name are
/// the strings given, `blocking`, `cli_only`, `rpc_only` and `local` are
/// kept as written, `display(..)` holds its path and `custom_cli(..)` its
/// two paths.
pub proof fn lemma_command_values(args: Seq<NestedMeta>, rs: Seq<Seq<Result<Path, ErrV>>>, i: int)
    requires
        spec_command_attr(args, rs) is Ok,
        0 <= i < args.len(),
    ensures
        keeps_written(spec_command_attr(args, rs)->Ok_0, args[i]),
{
    lemma_from_keeps(OptionsV::Leaf(super::options::default_leaf()), args, 0, rs, i);
}

/// Each item is a string.
pub open spec fn all_strings(items: Seq<NestedMeta>) -> bool {
    forall|k: int| 0 <= k < items.len() ==> (#[trigger] items[k]) matches NestedMeta::Lit(Lit::Str(_))
}

/// From the `i`-th item on, string items are added after `acc`, each in
/// its place.
proof fn lemma_aliases_from_strings(acc: Seq<super::syntax::LitStr>, items: Seq<NestedMeta>, i: int)
    requires
        0 <= i <= items.len(),
        all_strings(items),
    ensures
        aliases_from(acc, items, i) matches Ok(r) && r.len() == acc.len() + items.len() - i && r.take(acc.len() as int)
            == acc && forall|k: int| i <= k < items.len() ==> #[trigger] items[k] == NestedMeta::Lit(
            Lit::Str(r[acc.len() + k - i]),
        ),
    decreases items.len() - i,
{
    if i < items.len() {
        let a = items[i]->Lit_0->Str_0;
        assert(items[i] == NestedMeta::Lit(Lit::Str(a)));
        lemma_aliases_from_strings(acc.push(a), items, i + 1);
        let r = aliases_from(acc, items, i)->Ok_0;
        assert(r.take(acc.len() + 1int) == acc.push(a));
        assert(r.take(acc.len() as int) =~= acc.push(a).take(acc.len() as int));
        assert(r[acc.len() as int] == acc.push(a)[acc.len() as int]);
    } else {
        assert(acc.take(acc.len() as int) =~= acc);
    }
}

/// `aliases(..)` with string items only keeps the aliases already there
/// and adds every item after them, in the order given: the result has one
/// alias per item, and the alias at each place is that item's string.
pub proof fn lemma_aliases_all(aliases: Seq<super::syntax::LitStr>, items: Seq<NestedMeta>)
    requires
        all_strings(items),
    ensures
        aliases_from(aliases, items, 0) matches Ok(r) && r.len() == aliases.len() + items.len() && r.take(
            aliases.len() as int,
        ) == aliases && forall|k: int| 0 <= k < items.len() ==> #[trigger] items[k] == NestedMeta::Lit(
            Lit::Str(r[aliases.len() + k]),
        ),
{
    lemma_aliases_from_strings(aliases, items, 0);
}

/// An item of `aliases(..)` that is not a string is refused, whatever
/// comes before it.
pub proof fn lemma_aliases_refuse(aliases: Seq<super::syntax::LitStr>, items: Seq<NestedMeta>, k: int)
    requires
        0 <= k < items.len(),
        !(items[k] matches NestedMeta::Lit(Lit::Str(_))),
    ensures
        aliases_from(aliases, items, 0) is Err,
{
    lemma_aliases_refuse_from(aliases, items, 0, k);
}

proof fn lemma_aliases_refuse_from(acc: Seq<super::syntax::LitStr>, items: Seq<NestedMeta>, i: int, k: int)
    requires
        0 <= i <= k < items.len(),
        !(items[k] matches NestedMeta::Lit(Lit::Str(_))),
    ensures
        aliases_from(acc, items, i) is Err,
    decreases k - i,
{
    if i < k {
        if let NestedMeta::Lit(Lit::Str(a)) = items[i] {
            lemma_aliases_refuse_from(acc.push(a), items, i + 1, k);
        }
    }
}

} // verus!
