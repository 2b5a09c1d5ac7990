use vstd::prelude::*;

use super::{
    ContextId, DisplayMode, HandlerId, IntoHandlers, LeafHandler, ParamsId, ParentHandler, SubcommandMap,
    TsBindings, into_handlers, meta_insert,
};
use crate::ts::{TSVisitor, TS};
use crate::value::Value;

verus! {

impl TsBindings {
    /// Bindings with the given parameter and result types.
    pub fn new(params: TSVisitor, ret: Option<TSVisitor>) -> (r: Self)
        ensures
            r.enabled,
            r.params == params,
            r.ret == ret,
    {
        TsBindings { enabled: true, params, ret }
    }
}

impl TsBindings {
    /// The bindings of a handler whose parameters have the type `P` and
    /// whose result has the type `R`, each written out.
    pub fn for_types<P: TS, R: TS>() -> (r: Self)
        requires
            P::spec_visit_ok(Map::empty()),
            R::spec_visit_ok(Map::empty()),
        ensures
            r.enabled,
            r.params.wf(),
            r.params.ts@ == P::spec_text(),
            r.params.defs() == P::spec_defs(),
            r.ret matches Some(v) && v.wf() && v.ts@ == R::spec_text() && v.defs() == R::spec_defs(),
    {
        let params = visited::<P>();
        let ret = visited::<R>();
        TsBindings { enabled: true, params, ret: Some(ret) }
    }

    /// The bindings of a handler without a result of its own (a parent),
    /// whose parameters have the type `P`.
    pub fn for_params<P: TS>() -> (r: Self)
        requires
            P::spec_visit_ok(Map::empty()),
        ensures
            r.enabled,
            r.params.wf(),
            r.params.ts@ == P::spec_text(),
            r.params.defs() == P::spec_defs(),
            r.ret is None,
    {
        TsBindings { enabled: true, params: visited::<P>(), ret: None }
    }
}

/// A fresh visitor that has visited `T`.
fn visited<T: TS>() -> (r: TSVisitor)
    requires
        T::spec_visit_ok(Map::empty()),
    ensures
        r.wf(),
        r.ts@ == T::spec_text(),
        r.defs() == T::spec_defs(),
{
    let mut v = TSVisitor::new();
    assert(v.wf());
    T::visit_ts(&mut v);
    assert(v.ts@ =~= T::spec_text());
    assert(v.defs() =~= T::spec_defs());
    v
}

/// A handler running the synchronous implementation `id`, served in
/// `contexts` (`None`: in any context), with parameters `params`.
pub fn from_fn(id: HandlerId, contexts: Option<Vec<ContextId>>, params: ParamsId, ts: TsBindings) -> (r: LeafHandler)
    ensures
        r.id == id,
        r.contexts == contexts,
        r.cli_contexts is None,
        r.params == params,
        !r.blocking,
        r.metadata@.len() == 0,
        r.display == DisplayMode::Default,
        r.about is None,
        r.ts == ts,
        r.remote is None,
{
    LeafHandler {
        id,
        contexts,
        cli_contexts: None,
        params,
        blocking: false,
        metadata: Vec::new(),
        display: DisplayMode::Default,
        about: None,
        ts,
        remote: None,
    }
}

/// As [`from_fn`], for an implementation that blocks: it is run apart from
/// the asynchronous tasks.
pub fn from_fn_blocking(id: HandlerId, contexts: Option<Vec<ContextId>>, params: ParamsId, ts: TsBindings) -> (r:
    LeafHandler)
    ensures
        r.id == id,
        r.contexts == contexts,
        r.cli_contexts is None,
        r.params == params,
        r.blocking,
        r.metadata@.len() == 0,
        r.display == DisplayMode::Default,
        r.about is None,
        r.ts == ts,
        r.remote is None,
{
    let mut r = from_fn(id, contexts, params, ts);
    r.blocking = true;
    r
}

/// As [`from_fn`], for an asynchronous implementation.
pub fn from_fn_async(id: HandlerId, contexts: Option<Vec<ContextId>>, params: ParamsId, ts: TsBindings) -> (r:
    LeafHandler)
    ensures
        r.id == id,
        r.contexts == contexts,
        r.cli_contexts is None,
        r.params == params,
        !r.blocking,
        r.metadata@.len() == 0,
        r.display == DisplayMode::Default,
        r.about is None,
        r.ts == ts,
        r.remote is None,
{
    from_fn(id, contexts, params, ts)
}

impl LeafHandler {
    /// Sets metadata `key` to `value`.
    pub fn with_metadata(self, key: String, value: Value) -> (r: Self)
        ensures
            forall|k: Seq<char>| #[trigger] crate::assoc::assoc_get(super::meta_view(r.metadata@), k) == if k
                == key@ {
                Some(value)
            } else {
                crate::assoc::assoc_get(super::meta_view(self.metadata@), k)
            },
            r.id == self.id && r.contexts == self.contexts && r.cli_contexts == self.cli_contexts && r.params
                == self.params && r.blocking == self.blocking && r.display == self.display && r.about
                == self.about && r.ts == self.ts && r.remote == self.remote,
    {
        let mut r = self;
        meta_insert(&mut r.metadata, key, value);
        r
    }
}

impl ParentHandler {
    /// A parent with no subcommands, whose own parameters are `params`.
    pub fn new(params: ParamsId, params_ts: TSVisitor) -> (r: Self)
        ensures
            r.params == params,
            r.subcommands.0@.len() == 0,
            r.subcommands.wf(),
            r.metadata@.len() == 0,
            r.about is None,
            r.ts.enabled,
            r.ts.params == params_ts,
            r.ts.ret is None,
    {
        ParentHandler {
            params,
            subcommands: SubcommandMap::new(),
            metadata: Vec::new(),
            about: None,
            ts: TsBindings { enabled: true, params: params_ts, ret: None },
        }
    }

    /// Sets metadata `key` to `value`.
    pub fn with_metadata(self, key: String, value: Value) -> (r: Self)
        ensures
            forall|k: Seq<char>| #[trigger] crate::assoc::assoc_get(super::meta_view(r.metadata@), k) == if k
                == key@ {
                Some(value)
            } else {
                crate::assoc::assoc_get(super::meta_view(self.metadata@), k)
            },
            r.params == self.params,
            r.subcommands == self.subcommands,
            r.about == self.about,
            r.ts == self.ts,
    {
        let mut r = self;
        meta_insert(&mut r.metadata, key, value);
        r
    }

    /// Registers `handler` as the subcommand `name`, for the contexts it is
    /// served in; in each of them it replaces what was there.
    pub fn subcommand<H: IntoHandlers>(self, name: String, handler: H) -> (r: Self)
        ensures
            exists|h: super::DynHandler|
                h.node() == handler.spec_node() && h.has_cli() == handler.spec_cli() && forall|
                    n: Option<Seq<char>>,
                    k: Option<ContextId>,
                | #[trigger] r.subcommands.lookup(n, k) == if n == Some(name@) && super::adapters::registered(
                    handler.spec_node(),
                    handler.spec_cli(),
                    k,
                ) {
                    Some(h)
                } else {
                    self.subcommands.lookup(n, k)
                },
            r.params == self.params,
            r.metadata == self.metadata,
            r.about == self.about,
            r.ts == self.ts,
            self.subcommands.wf() ==> r.subcommands.wf(),
    {
        let (contexts, h) = into_handlers(handler);
        let ghost g = h;
        let mut r = self;
        r.subcommands.insert(Some(name), contexts, h);
        assert(g.node() == handler.spec_node());
        r
    }

    /// Registers `handler` as the root handler: the one that serves when no
    /// subcommand is named.
    pub fn root_handler<H: IntoHandlers>(self, handler: H) -> (r: Self)
        ensures
            exists|h: super::DynHandler|
                h.node() == handler.spec_node() && h.has_cli() == handler.spec_cli() && forall|
                    n: Option<Seq<char>>,
                    k: Option<ContextId>,
                | #[trigger] r.subcommands.lookup(n, k) == if n is None && super::adapters::registered(
                    handler.spec_node(),
                    handler.spec_cli(),
                    k,
                ) {
                    Some(h)
                } else {
                    self.subcommands.lookup(n, k)
                },
            r.params == self.params,
            r.metadata == self.metadata,
            r.about == self.about,
            r.ts == self.ts,
            self.subcommands.wf() ==> r.subcommands.wf(),
    {
        let (contexts, h) = into_handlers(handler);
        let ghost g = h;
        let mut r = self;
        r.subcommands.insert(None, contexts, h);
        assert(g.node() == handler.spec_node());
        r
    }
}

} // verus!
