use std::sync::Arc;

use vstd::prelude::*;

use super::{ContextId, DisplayMode, DynHandler, LeafHandler, Node, ParentHandler, TsBindings, intersect_type_ids};
use crate::ts::TSVisitor;

verus! {

/// `key` is where a handler with contexts `n` gets registered: with
/// command-line bindings, only where both the handler and its bindings
/// accept the context.
pub open spec fn node_any(n: Node) -> bool {
    match n {
        Node::Leaf(l) => l.contexts is None,
        Node::Parent(p) => p.has_key(None),
    }
}

/// The node accepts context `c` (any node with no set of contexts does).
pub open spec fn node_has(n: Node, c: ContextId) -> bool {
    match n {
        Node::Leaf(l) => super::in_set(super::ctx_set_view(l.contexts), c) || l.remote == Some(c),
        Node::Parent(p) => p.has_key(None) || p.has_key(Some(c)),
    }
}

/// The command-line bindings of the node accept any context.
pub open spec fn cli_any(n: Node) -> bool {
    match n {
        Node::Leaf(l) => l.cli_contexts is None,
        Node::Parent(_) => true,
    }
}

pub open spec fn cli_has(n: Node, c: ContextId) -> bool {
    match n {
        Node::Leaf(l) => super::in_set(super::ctx_set_view(l.cli_contexts), c),
        Node::Parent(_) => true,
    }
}

/// The context keys under which a handler is registered.
pub open spec fn registered(n: Node, cli: bool, key: Option<ContextId>) -> bool {
    if cli {
        if node_any(n) && cli_any(n) {
            key is None
        } else {
            key matches Some(c) && node_has(n, c) && cli_has(n, c)
        }
    } else {
        if node_any(n) {
            key is None
        } else {
            key matches Some(c) && node_has(n, c)
        }
    }
}

impl ParentHandler {
    /// Some subcommand is registered for the context key `key`.
    pub open spec fn has_key(self, key: Option<ContextId>) -> bool {
        exists|i: int, j: int|
            0 <= i < self.subcommands.0@.len() && 0 <= j < self.subcommands.0@[i].handlers@.len()
                && #[trigger] self.subcommands.0@[i].handlers@[j].0 == key
    }

    /// The contexts in which some subcommand is served: `None` when one is
    /// served in any context.
    pub fn get_contexts(&self) -> (r: Option<Vec<ContextId>>)
        ensures
            (r is None) == self.has_key(None),
            r matches Some(v) ==> forall|c: ContextId| #[trigger] v@.contains(c) == self.has_key(Some(c)),
    {
        let mut set: Vec<ContextId> = Vec::new();
        let mut i: usize = 0;
        while i < self.subcommands.0.len()
            invariant
                i <= self.subcommands.0@.len(),
                forall|q: int, j: int|
                    0 <= q < i && 0 <= j < self.subcommands.0@[q].handlers@.len() ==> #[trigger] self.subcommands.0@[q].handlers@[j].0
                        is Some,
                forall|c: ContextId| #[trigger] set@.contains(c) == exists|q: int, j: int|
                    0 <= q < i && 0 <= j < self.subcommands.0@[q].handlers@.len()
                        && #[trigger] self.subcommands.0@[q].handlers@[j].0 == Some(c),
            decreases self.subcommands.0@.len() - i,
        {
            let hs = &self.subcommands.0[i].handlers;
            let mut j: usize = 0;
            while j < hs.len()
                invariant
                    i < self.subcommands.0@.len(),
                    *hs == self.subcommands.0@[i as int].handlers,
                    j <= hs@.len(),
                    forall|q: int, k: int|
                        0 <= q < i && 0 <= k < self.subcommands.0@[q].handlers@.len() ==> #[trigger] self.subcommands.0@[q].handlers@[k].0
                            is Some,
                    forall|k: int| 0 <= k < j ==> #[trigger] hs@[k].0 is Some,
                    forall|c: ContextId| #[trigger] set@.contains(c) == ((exists|q: int, k: int|
                        0 <= q < i && 0 <= k < self.subcommands.0@[q].handlers@.len()
                            && #[trigger] self.subcommands.0@[q].handlers@[k].0 == Some(c)) || (exists|k: int|
                        0 <= k < j && #[trigger] hs@[k].0 == Some(c))),
                decreases hs@.len() - j,
            {
                match hs[j].0 {
                    None => {
                        assert(self.subcommands.0@[i as int].handlers@[j as int].0 == None::<ContextId>);
                        return None;
                    },
                    Some(c) => {
                        let ghost s0 = set@;
                        if !contains_id(&set, c) {
                            set.push(c);
                        }
                        proof {
                            assert forall|x: ContextId| #[trigger] set@.contains(x) == (s0.contains(x) || x == c) by {
                                if set@.len() > s0.len() {
                                    assert(set@ =~= s0.push(c));
                                    crate::assoc::lemma_contains_push(s0, c, x);
                                }
                            }
                            assert forall|x: ContextId| #[trigger] set@.contains(x) == ((exists|q: int, k: int|
                                0 <= q < i && 0 <= k < self.subcommands.0@[q].handlers@.len()
                                    && #[trigger] self.subcommands.0@[q].handlers@[k].0 == Some(x)) || (exists|k: int|
                                0 <= k < j + 1 && #[trigger] hs@[k].0 == Some(x))) by {
                                if x == c {
                                    assert(hs@[j as int].0 == Some(x));
                                }
                            }
                        }
                    },
                }
                j = j + 1;
            }
            proof {
                assert(j == hs@.len());
                assert forall|c: ContextId| #[trigger] set@.contains(c) implies exists|q: int, k: int|
                    0 <= q < i + 1 && 0 <= k < self.subcommands.0@[q].handlers@.len()
                        && #[trigger] self.subcommands.0@[q].handlers@[k].0 == Some(c) by {
                    if exists|k: int| 0 <= k < j && #[trigger] hs@[k].0 == Some(c) {
                        let k = choose|k: int| 0 <= k < j && #[trigger] hs@[k].0 == Some(c);
                        assert(self.subcommands.0@[i as int].handlers@[k].0 == Some(c));
                    } else {
                        let (q, k) = choose|q: int, k: int|
                            0 <= q < i && 0 <= k < self.subcommands.0@[q].handlers@.len()
                                && #[trigger] self.subcommands.0@[q].handlers@[k].0 == Some(c);
                        assert(self.subcommands.0@[q].handlers@[k].0 == Some(c));
                    }
                }
                assert forall|c: ContextId| (exists|q: int, k: int|
                    0 <= q < i + 1 && 0 <= k < self.subcommands.0@[q].handlers@.len()
                        && #[trigger] self.subcommands.0@[q].handlers@[k].0 == Some(c)) implies #[trigger] set@.contains(c) by {
                    let (q, k) = choose|q: int, k: int|
                        0 <= q < i + 1 && 0 <= k < self.subcommands.0@[q].handlers@.len()
                            && #[trigger] self.subcommands.0@[q].handlers@[k].0 == Some(c);
                    if q == i {
                        assert(hs@[k].0 == Some(c));
                        assert(exists|k2: int| 0 <= k2 < j && #[trigger] hs@[k2].0 == Some(c));
                    } else {
                        assert(self.subcommands.0@[q].handlers@[k].0 == Some(c));
                        assert(exists|q2: int, k2: int|
                            0 <= q2 < i && 0 <= k2 < self.subcommands.0@[q2].handlers@.len()
                                && #[trigger] self.subcommands.0@[q2].handlers@[k2].0 == Some(c));
                    }
                }
            }
            i = i + 1;
        }
        proof {
            if self.has_key(None) {
                let (q, k) = choose|q: int, k: int|
                    0 <= q < self.subcommands.0@.len() && 0 <= k < self.subcommands.0@[q].handlers@.len()
                        && #[trigger] self.subcommands.0@[q].handlers@[k].0 == None::<ContextId>;
                assert(self.subcommands.0@[q].handlers@[k].0 is Some);
            }
        }
        Some(set)
    }
}

fn contains_id(v: &Vec<ContextId>, c: ContextId) -> (r: bool)
    ensures
        r == v@.contains(c),
{
    let mut i: usize = 0;
    while i < v.len()
        invariant
            i <= v@.len(),
            forall|k: int| 0 <= k < i ==> v@[k] != c,
        decreases v@.len() - i,
    {
        if v[i] == c {
            assert(v@[i as int] == c);
            return true;
        }
        i = i + 1;
    }
    false
}

fn copy_ids(v: &Option<Vec<ContextId>>) -> (r: Option<Vec<ContextId>>)
    ensures
        super::ctx_set_view(r) == super::ctx_set_view(*v),
{
    match v {
        None => None,
        Some(v) => {
            let mut r: Vec<ContextId> = Vec::new();
            let mut i: usize = 0;
            while i < v.len()
                invariant
                    i <= v@.len(),
                    r@ =~= v@.take(i as int),
                decreases v@.len() - i,
            {
                r.push(v[i]);
                i = i + 1;
            }
            assert(v@.take(i as int) =~= v@);
            Some(r)
        },
    }
}

impl Node {
    /// The contexts the node is served in (`Handler::contexts`).
    pub fn contexts(&self) -> (r: Option<Vec<ContextId>>)
        ensures
            (r is None) == node_any(*self),
            forall|c: ContextId| !node_any(*self) ==> #[trigger] super::in_set(super::ctx_set_view(r), c) == node_has(*self, c),
    {
        match self {
            Node::Leaf(l) => {
                let r = copy_ids(&l.contexts);
                match r {
                    Some(mut v) => {
                        let ghost v0 = v@;
                        assert(super::ctx_set_view(l.contexts) == Some(v0));
                        if let Some(c) = l.remote {
                            v.push(c);
                            proof {
                                assert forall|x: ContextId| #[trigger] v@.contains(x) == (v0.contains(x) || x == c) by {
                                    crate::assoc::lemma_contains_push(v0, c, x);
                                }
                            }
                        }
                        assert forall|x: ContextId| #[trigger] super::in_set(Some(v@), x) == node_has(*self, x) by {
                            assert(node_has(*self, x) == (v0.contains(x) || l.remote == Some(x)));
                        }
                        Some(v)
                    },
                    None => None,
                }
            },
            Node::Parent(p) => p.get_contexts(),
        }
    }

    /// The contexts its command-line bindings accept.
    pub fn cli_contexts(&self) -> (r: Option<Vec<ContextId>>)
        ensures
            (r is None) == cli_any(*self),
            forall|c: ContextId| #[trigger] super::in_set(super::ctx_set_view(r), c) == cli_has(*self, c),
    {
        match self {
            Node::Leaf(l) => copy_ids(&l.cli_contexts),
            Node::Parent(_) => None,
        }
    }
}

/// A value that becomes a node of the handler tree.
pub trait IntoHandlers: Sized {
    /// The node it becomes.
    spec fn spec_node(self) -> Node;

    /// Whether it keeps its command-line bindings.
    spec fn spec_cli(self) -> bool;

    fn into_node(self) -> (r: (Node, bool))
        ensures
            r.0 == self.spec_node(),
            r.1 == self.spec_cli(),
    ;
}

/// Turns a handler into what a parent registers: the contexts to register
/// it for (`None`: any context) and the type-erased handler.
pub fn into_handlers<H: IntoHandlers>(handler: H) -> (r: (Option<Vec<ContextId>>, DynHandler))
    ensures
        r.1.node() == handler.spec_node(),
        r.1.has_cli() == handler.spec_cli(),
        forall|k: Option<ContextId>| #[trigger] super::covers(super::ctx_set_view(r.0), k) == registered(
            handler.spec_node(),
            handler.spec_cli(),
            k,
        ),
{
    let (node, cli) = handler.into_node();
    let contexts = if cli {
        intersect_type_ids(node.contexts(), node.cli_contexts())
    } else {
        node.contexts()
    };
    let ghost n = node;
    let h = if cli {
        DynHandler::WithCli(Arc::new(node))
    } else {
        DynHandler::WithoutCli(Arc::new(node))
    };
    proof {
        assert forall|k: Option<ContextId>| #[trigger] super::covers(super::ctx_set_view(contexts), k) == registered(n, cli, k) by {
            if let Some(c) = k {
                assert(super::in_set(super::ctx_set_view(contexts), c) == (contexts is None || super::ctx_set_view(contexts).unwrap().contains(c)));
            }
        }
    }
    (contexts, h)
}

impl IntoHandlers for LeafHandler {
    open spec fn spec_node(self) -> Node {
        Node::Leaf(self)
    }

    open spec fn spec_cli(self) -> bool {
        true
    }

    fn into_node(self) -> (r: (Node, bool)) {
        (Node::Leaf(self), true)
    }
}

impl IntoHandlers for ParentHandler {
    open spec fn spec_node(self) -> Node {
        Node::Parent(self)
    }

    open spec fn spec_cli(self) -> bool {
        true
    }

    fn into_node(self) -> (r: (Node, bool)) {
        (Node::Parent(self), true)
    }
}

} // verus!

verus! {

/// A handler that wraps another one and changes some of its bindings.
pub trait Adapter {
    type Inner;

    /// The wrapped handler.
    spec fn inner(&self) -> Self::Inner;

    fn as_inner(&self) -> (r: &Self::Inner)
        ensures
            *r == self.inner(),
    ;
}

/// The node with its display mode set (parents show nothing themselves, so
/// they are left as they are).
pub open spec fn with_display(n: Node, d: DisplayMode) -> Node {
    match n {
        Node::Leaf(l) => Node::Leaf(LeafHandler { display: d, ..l }),
        Node::Parent(p) => Node::Parent(p),
    }
}

pub open spec fn with_about(n: Node, m: String) -> Node {
    match n {
        Node::Leaf(l) => Node::Leaf(LeafHandler { about: Some(m), ..l }),
        Node::Parent(p) => Node::Parent(ParentHandler { about: Some(m), ..p }),
    }
}

pub open spec fn ts_of(n: Node) -> TsBindings {
    match n {
        Node::Leaf(l) => l.ts,
        Node::Parent(p) => p.ts,
    }
}

pub open spec fn with_ts(n: Node, ts: TsBindings) -> Node {
    match n {
        Node::Leaf(l) => Node::Leaf(LeafHandler { ts: ts, ..l }),
        Node::Parent(p) => Node::Parent(ParentHandler { ts: ts, ..p }),
    }
}

fn set_display(n: Node, d: DisplayMode) -> (r: Node)
    ensures
        r == with_display(n, d),
{
    match n {
        Node::Leaf(mut l) => {
            l.display = d;
            Node::Leaf(l)
        },
        Node::Parent(p) => Node::Parent(p),
    }
}

fn set_about(n: Node, m: String) -> (r: Node)
    ensures
        r == with_about(n, m),
{
    match n {
        Node::Leaf(mut l) => {
            l.about = Some(m);
            Node::Leaf(l)
        },
        Node::Parent(mut p) => {
            p.about = Some(m);
            Node::Parent(p)
        },
    }
}

fn take_ts(n: Node) -> (r: (Node, TsBindings))
    ensures
        r.1 == ts_of(n),
        forall|t: TsBindings| with_ts(r.0, t) == with_ts(n, t),
{
    match n {
        Node::Leaf(mut l) => {
            let mut ts = TsBindings { enabled: false, params: TSVisitor::new(), ret: None };
            std::mem::swap(&mut ts, &mut l.ts);
            (Node::Leaf(l), ts)
        },
        Node::Parent(mut p) => {
            let mut ts = TsBindings { enabled: false, params: TSVisitor::new(), ret: None };
            std::mem::swap(&mut ts, &mut p.ts);
            (Node::Parent(p), ts)
        },
    }
}

fn put_ts(n: Node, ts: TsBindings) -> (r: Node)
    ensures
        r == with_ts(n, ts),
{
    match n {
        Node::Leaf(mut l) => {
            l.ts = ts;
            Node::Leaf(l)
        },
        Node::Parent(mut p) => {
            p.ts = ts;
            Node::Parent(p)
        },
    }
}

/// Leaves the handler out of the command line.
pub struct NoCli<H>(pub H);

/// Shows nothing on the command line for the handler's result.
pub struct NoDisplay<H>(pub H);

/// Shows the handler's result on the command line with the display function
/// `print` of the caller.
pub struct CustomDisplay<H> {
    pub print: u64,
    pub handler: H,
}

/// As [`CustomDisplay`], with a display function that runs in the contexts
/// `contexts` (`None`: in any context).
pub struct CustomDisplayFn<H> {
    pub print: u64,
    pub contexts: Option<Vec<ContextId>>,
    pub handler: H,
}

/// Gives the handler's command an about text.
pub struct WithAbout<H> {
    pub handler: H,
    pub message: String,
}

/// Leaves the handler out of the TypeScript bindings.
pub struct NoTS<H>(pub H);

/// Replaces the TypeScript type of the handler's parameters.
pub struct OverrideParamsTS<H> {
    pub handler: H,
    pub params_ts: TSVisitor,
}

/// Replaces the TypeScript type of the handler's result.
pub struct OverrideReturnTS<H> {
    pub handler: H,
    pub return_ty: TSVisitor,
}

/// Serves the handler in the context `remote` too, where calls are
/// forwarded to a server.
pub struct RemoteCaller<H> {
    pub handler: H,
    pub remote: ContextId,
}

impl<H> Adapter for NoCli<H> {
    type Inner = H;

    open spec fn inner(&self) -> H {
        self.0
    }

    fn as_inner(&self) -> (r: &H)
        ensures
            *r == self.0,
    {
        &self.0
    }
}

impl<H> Adapter for NoDisplay<H> {
    type Inner = H;

    open spec fn inner(&self) -> H {
        self.0
    }

    fn as_inner(&self) -> (r: &H)
        ensures
            *r == self.0,
    {
        &self.0
    }
}

impl<H> Adapter for CustomDisplay<H> {
    type Inner = H;

    open spec fn inner(&self) -> H {
        self.handler
    }

    fn as_inner(&self) -> (r: &H)
        ensures
            *r == self.handler,
    {
        &self.handler
    }
}

impl<H> Adapter for CustomDisplayFn<H> {
    type Inner = H;

    open spec fn inner(&self) -> H {
        self.handler
    }

    fn as_inner(&self) -> (r: &H)
        ensures
            *r == self.handler,
    {
        &self.handler
    }
}

impl<H> Adapter for WithAbout<H> {
    type Inner = H;

    open spec fn inner(&self) -> H {
        self.handler
    }

    fn as_inner(&self) -> (r: &H)
        ensures
            *r == self.handler,
    {
        &self.handler
    }
}

impl<H> Adapter for NoTS<H> {
    type Inner = H;

    open spec fn inner(&self) -> H {
        self.0
    }

    fn as_inner(&self) -> (r: &H)
        ensures
            *r == self.0,
    {
        &self.0
    }
}

impl<H> Adapter for OverrideParamsTS<H> {
    type Inner = H;

    open spec fn inner(&self) -> H {
        self.handler
    }

    fn as_inner(&self) -> (r: &H)
        ensures
            *r == self.handler,
    {
        &self.handler
    }
}

impl<H> Adapter for OverrideReturnTS<H> {
    type Inner = H;

    open spec fn inner(&self) -> H {
        self.handler
    }

    fn as_inner(&self) -> (r: &H)
        ensures
            *r == self.handler,
    {
        &self.handler
    }
}

impl<H> Adapter for RemoteCaller<H> {
    type Inner = H;

    open spec fn inner(&self) -> H {
        self.handler
    }

    fn as_inner(&self) -> (r: &H)
        ensures
            *r == self.handler,
    {
        &self.handler
    }
}

impl<H: IntoHandlers> IntoHandlers for NoCli<H> {
    open spec fn spec_node(self) -> Node {
        self.0.spec_node()
    }

    open spec fn spec_cli(self) -> bool {
        false
    }

    fn into_node(self) -> (r: (Node, bool)) {
        let (n, _) = self.0.into_node();
        (n, false)
    }
}

impl<H: IntoHandlers> IntoHandlers for NoDisplay<H> {
    open spec fn spec_node(self) -> Node {
        with_display(self.0.spec_node(), DisplayMode::Hidden)
    }

    open spec fn spec_cli(self) -> bool {
        self.0.spec_cli()
    }

    fn into_node(self) -> (r: (Node, bool)) {
        let (n, cli) = self.0.into_node();
        (set_display(n, DisplayMode::Hidden), cli)
    }
}

impl<H: IntoHandlers> IntoHandlers for CustomDisplay<H> {
    open spec fn spec_node(self) -> Node {
        with_display(self.handler.spec_node(), DisplayMode::Custom(self.print))
    }

    open spec fn spec_cli(self) -> bool {
        self.handler.spec_cli()
    }

    fn into_node(self) -> (r: (Node, bool)) {
        let (n, cli) = self.handler.into_node();
        (set_display(n, DisplayMode::Custom(self.print)), cli)
    }
}

impl<H: IntoHandlers> IntoHandlers for CustomDisplayFn<H> {
    open spec fn spec_node(self) -> Node {
        match with_display(self.handler.spec_node(), DisplayMode::Custom(self.print)) {
            Node::Leaf(l) => Node::Leaf(LeafHandler { cli_contexts: self.contexts, ..l }),
            Node::Parent(p) => Node::Parent(p),
        }
    }

    open spec fn spec_cli(self) -> bool {
        self.handler.spec_cli()
    }

    fn into_node(self) -> (r: (Node, bool)) {
        let (n, cli) = self.handler.into_node();
        match set_display(n, DisplayMode::Custom(self.print)) {
            Node::Leaf(mut l) => {
                l.cli_contexts = self.contexts;
                (Node::Leaf(l), cli)
            },
            Node::Parent(p) => (Node::Parent(p), cli),
        }
    }
}

impl<H: IntoHandlers> IntoHandlers for WithAbout<H> {
    open spec fn spec_node(self) -> Node {
        with_about(self.handler.spec_node(), self.message)
    }

    open spec fn spec_cli(self) -> bool {
        self.handler.spec_cli()
    }

    fn into_node(self) -> (r: (Node, bool)) {
        let (n, cli) = self.handler.into_node();
        (set_about(n, self.message), cli)
    }
}

impl<H: IntoHandlers> IntoHandlers for NoTS<H> {
    open spec fn spec_node(self) -> Node {
        with_ts(self.0.spec_node(), TsBindings { enabled: false, ..ts_of(self.0.spec_node()) })
    }

    open spec fn spec_cli(self) -> bool {
        self.0.spec_cli()
    }

    fn into_node(self) -> (r: (Node, bool)) {
        let (n, cli) = self.0.into_node();
        let (n, mut ts) = take_ts(n);
        ts.enabled = false;
        (put_ts(n, ts), cli)
    }
}

impl<H: IntoHandlers> IntoHandlers for OverrideParamsTS<H> {
    open spec fn spec_node(self) -> Node {
        with_ts(self.handler.spec_node(), TsBindings { params: self.params_ts, ..ts_of(self.handler.spec_node()) })
    }

    open spec fn spec_cli(self) -> bool {
        self.handler.spec_cli()
    }

    fn into_node(self) -> (r: (Node, bool)) {
        let (n, cli) = self.handler.into_node();
        let (n, mut ts) = take_ts(n);
        ts.params = self.params_ts;
        (put_ts(n, ts), cli)
    }
}

impl<H: IntoHandlers> IntoHandlers for OverrideReturnTS<H> {
    open spec fn spec_node(self) -> Node {
        with_ts(self.handler.spec_node(), TsBindings { ret: Some(self.return_ty), ..ts_of(self.handler.spec_node()) })
    }

    open spec fn spec_cli(self) -> bool {
        self.handler.spec_cli()
    }

    fn into_node(self) -> (r: (Node, bool)) {
        let (n, cli) = self.handler.into_node();
        let (n, mut ts) = take_ts(n);
        ts.ret = Some(self.return_ty);
        (put_ts(n, ts), cli)
    }
}

impl<H: IntoHandlers> IntoHandlers for RemoteCaller<H> {
    open spec fn spec_node(self) -> Node {
        match self.handler.spec_node() {
            Node::Leaf(l) => Node::Leaf(LeafHandler { remote: Some(self.remote), ..l }),
            Node::Parent(p) => Node::Parent(p),
        }
    }

    open spec fn spec_cli(self) -> bool {
        self.handler.spec_cli()
    }

    fn into_node(self) -> (r: (Node, bool)) {
        let (n, cli) = self.handler.into_node();
        match n {
            Node::Leaf(mut l) => {
                l.remote = Some(self.remote);
                (Node::Leaf(l), cli)
            },
            Node::Parent(p) => (Node::Parent(p), cli),
        }
    }
}

/// Builders for the adapters.
pub trait HandlerExt: IntoHandlers {
    fn no_cli(self) -> (r: NoCli<Self>)
        ensures
            r.0 == self,
    {
        NoCli(self)
    }

    fn no_display(self) -> (r: NoDisplay<Self>)
        ensures
            r.0 == self,
    {
        NoDisplay(self)
    }

    fn with_custom_display(self, print: u64) -> (r: CustomDisplay<Self>)
        ensures
            r.handler == self,
            r.print == print,
    {
        CustomDisplay { print, handler: self }
    }

    fn with_custom_display_fn(self, print: u64, contexts: Option<Vec<ContextId>>) -> (r: CustomDisplayFn<Self>)
        ensures
            r.handler == self,
            r.print == print,
            r.contexts == contexts,
    {
        CustomDisplayFn { print, contexts, handler: self }
    }

    fn with_about(self, message: String) -> (r: WithAbout<Self>)
        ensures
            r.handler == self,
            r.message == message,
    {
        WithAbout { handler: self, message }
    }

    fn no_ts(self) -> (r: NoTS<Self>)
        ensures
            r.0 == self,
    {
        NoTS(self)
    }

    fn override_params_ts(self, params_ts: TSVisitor) -> (r: OverrideParamsTS<Self>)
        ensures
            r.handler == self,
            r.params_ts == params_ts,
    {
        OverrideParamsTS { handler: self, params_ts }
    }

    fn override_return_ts(self, return_ty: TSVisitor) -> (r: OverrideReturnTS<Self>)
        ensures
            r.handler == self,
            r.return_ty == return_ty,
    {
        OverrideReturnTS { handler: self, return_ty }
    }

    fn with_call_remote(self, remote: ContextId) -> (r: RemoteCaller<Self>)
        ensures
            r.handler == self,
            r.remote == remote,
    {
        RemoteCaller { handler: self, remote }
    }
}

impl<T: IntoHandlers> HandlerExt for T {

}

} // verus!
