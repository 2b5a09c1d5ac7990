use vstd::prelude::*;

use super::TSVisitor;
use super::types::json_name;
use crate::handler::{
    Adapter, ContextId, CustomDisplay, CustomDisplayFn, LeafHandler, Node, NoCli, NoDisplay, NoTS,
    OverrideParamsTS, OverrideReturnTS, ParentHandler, RemoteCaller, SubcommandMap, WithAbout,
};

verus! {

/// Visiting the parts in turn puts their definitions over `m`.
pub open spec fn merge_defs(m: Map<Seq<char>, Seq<char>>, parts: Seq<TSVisitor>) -> Map<Seq<char>, Seq<char>>
    decreases parts.len(),
{
    if parts.len() == 0 {
        m
    } else {
        merge_defs(m.union_prefer_right(parts[0].defs()), parts.drop_first())
    }
}

/// The parts may be visited in turn on a visitor holding `m`: each is well
/// formed, and agrees with what was recorded before it.
pub open spec fn merge_ok(m: Map<Seq<char>, Seq<char>>, parts: Seq<TSVisitor>) -> bool
    decreases parts.len(),
{
    if parts.len() == 0 {
        true
    } else {
        &&& parts[0].wf()
        &&& super::compatible(m, parts[0].defs())
        &&& merge_ok(m.union_prefer_right(parts[0].defs()), parts.drop_first())
    }
}

pub proof fn lemma_merge_append(m: Map<Seq<char>, Seq<char>>, a: Seq<TSVisitor>, b: Seq<TSVisitor>)
    ensures
        merge_defs(m, a + b) == merge_defs(merge_defs(m, a), b),
        merge_ok(m, a + b) == (merge_ok(m, a) && merge_ok(merge_defs(m, a), b)),
    decreases a.len(),
{
    if a.len() == 0 {
        assert(a + b =~= b);
    } else {
        assert((a + b).drop_first() =~= a.drop_first() + b);
        assert((a + b)[0] == a[0]);
        lemma_merge_append(m.union_prefer_right(a[0].defs()), a.drop_first(), b);
    }
}

proof fn lemma_merge_one(m: Map<Seq<char>, Seq<char>>, v: TSVisitor)
    ensures
        merge_defs(m, seq![v]) == m.union_prefer_right(v.defs()),
        merge_ok(m, seq![v]) == (v.wf() && super::compatible(m, v.defs())),
{
    let s = seq![v];
    assert(s.drop_first() =~= Seq::<TSVisitor>::empty());
    assert(s.len() == 1 && s[0] == v);
    let m1 = m.union_prefer_right(v.defs());
    assert(merge_defs(m1, s.drop_first()) == m1);
    assert(merge_ok(m1, s.drop_first()));
}

/// The bindings of the handler are written; else it stands as `unknown`.
pub open spec fn ts_enabled(n: Node) -> bool {
    match n {
        Node::Leaf(l) => l.ts.enabled,
        Node::Parent(p) => p.ts.enabled,
    }
}

/// The text of a result type, and the visitor that holds it.
pub open spec fn ret_text(r: Option<TSVisitor>) -> Seq<char> {
    match r {
        Some(v) => ";_RETURN:"@ + v.ts@,
        None => Seq::empty(),
    }
}

pub open spec fn ret_parts(r: Option<TSVisitor>) -> Seq<TSVisitor> {
    match r {
        Some(v) => seq![v],
        None => Seq::empty(),
    }
}

/// The bindings of a handler, `{_PARAMS:..;_RETURN:..;_CHILDREN:..}`, and
/// the visitors whose definitions they record, in order.
pub open spec fn node_ts(n: Node, ctx: ContextId) -> (Seq<char>, Seq<TSVisitor>)
    decreases n, 0int,
{
    match n {
        Node::Leaf(l) => (
            "{_PARAMS:"@ + l.ts.params.ts@ + ret_text(l.ts.ret) + "}"@,
            seq![l.ts.params] + ret_parts(l.ts.ret),
        ),
        Node::Parent(p) => {
            let c = children_ts(p.subcommands, ctx, 0);
            ("{_PARAMS:"@ + p.ts.params.ts@ + ";_CHILDREN:"@ + "{"@ + c.0 + "}"@ + "}"@, seq![p.ts.params] + c.1)
        },
    }
}

/// The bindings of the entries of `m` from the `i`-th on: for each entry
/// with a handler for `ctx`, its name as JSON, then the handler's bindings
/// (`unknown` when it has none).
pub open spec fn children_ts(m: SubcommandMap, ctx: ContextId, i: int) -> (Seq<char>, Seq<TSVisitor>)
    decreases m, m.0@.len() - i,
{
    if i < 0 || i >= m.0@.len() {
        (Seq::empty(), Seq::empty())
    } else {
        let rest = children_ts(m, ctx, i + 1);
        let e = m.0@[i];
        match crate::handler::entry_select(e, ctx) {
            Some(j) => {
                if 0 <= j < e.handlers@.len() {
                    let h = e.handlers@[j].1.node();
                    let sub = if ts_enabled(h) {
                        node_ts(h, ctx)
                    } else {
                        ("unknown"@, Seq::empty())
                    };
                    (
                        super::types::json_name_text(crate::handler::name_view(e.name)) + ":"@ + sub.0 + ";"@
                            + rest.0,
                        sub.1 + rest.1,
                    )
                } else {
                    rest
                }
            },
            None => rest,
        }
    }
}

/// Appends `s` to the text of `visitor`.
fn push_text(visitor: &mut TSVisitor, s: &str)
    ensures
        final(visitor).ts@ == old(visitor).ts@ + s@,
        final(visitor).definitions == old(visitor).definitions,
{
    visitor.ts.append(s);
}

/// Appends the bindings of the entries of `m`.
fn visit_children(m: &SubcommandMap, visitor: &mut TSVisitor, ctx: ContextId)
    requires
        old(visitor).wf(),
        merge_ok(old(visitor).defs(), children_ts(*m, ctx, 0).1),
    ensures
        final(visitor).wf(),
        final(visitor).ts@ == old(visitor).ts@ + children_ts(*m, ctx, 0).0,
        final(visitor).defs() == merge_defs(old(visitor).defs(), children_ts(*m, ctx, 0).1),
    decreases *m, m.0@.len() + 1,
{
    let ghost t0 = visitor.ts@;
    let ghost m0 = visitor.defs();
    let ghost total = children_ts(*m, ctx, 0);
    assert(t0 + total.0 =~= visitor.ts@ + children_ts(*m, ctx, 0).0);
    let mut i: usize = 0;
    while i < m.0.len()
        invariant
            i <= m.0@.len(),
            visitor.wf(),
            total == children_ts(*m, ctx, 0),
            visitor.ts@ + children_ts(*m, ctx, i as int).0 == t0 + total.0,
            merge_ok(visitor.defs(), children_ts(*m, ctx, i as int).1),
            merge_defs(visitor.defs(), children_ts(*m, ctx, i as int).1) == merge_defs(m0, total.1),
        decreases m.0@.len() - i,
    {
        let ghost before_t = visitor.ts@;
        let ghost before = visitor.defs();
        let ghost rest = children_ts(*m, ctx, i + 1);
        let e = &m.0[i];
        let sel = crate::handler::select_in_entry(e, ctx);
        match sel {
            Some(j) => {
                let node = e.handlers[j].1.node_ref();
                let ghost sub = if ts_enabled(*node) {
                    node_ts(*node, ctx)
                } else {
                    ("unknown"@, Seq::<TSVisitor>::empty())
                };
                proof {
                    lemma_merge_append(before, sub.1, rest.1);
                }
                let key = match &e.name {
                    Some(n) => json_name(Some(n.as_str())),
                    None => json_name(None),
                };
                push_text(visitor, key.as_str());
                push_text(visitor, ":");
                assert(visitor.defs() == before);
                if node_has_ts(node) {
                    visit_node(node, visitor, ctx);
                } else {
                    push_text(visitor, "unknown");
                    assert(merge_defs(before, Seq::<TSVisitor>::empty()) == before);
                }
                push_text(visitor, ";");
                assert(visitor.ts@ + rest.0 =~= before_t + children_ts(*m, ctx, i as int).0);
            },
            None => {},
        }
        i = i + 1;
    }
    assert(children_ts(*m, ctx, i as int).1 =~= Seq::<TSVisitor>::empty());
}

fn node_has_ts(n: &Node) -> (r: bool)
    ensures
        r == ts_enabled(*n),
{
    match n {
        Node::Leaf(l) => l.ts.enabled,
        Node::Parent(p) => p.ts.enabled,
    }
}

/// Appends the bindings of a handler.
fn visit_node(n: &Node, visitor: &mut TSVisitor, ctx: ContextId)
    requires
        old(visitor).wf(),
        merge_ok(old(visitor).defs(), node_ts(*n, ctx).1),
    ensures
        final(visitor).wf(),
        final(visitor).ts@ == old(visitor).ts@ + node_ts(*n, ctx).0,
        final(visitor).defs() == merge_defs(old(visitor).defs(), node_ts(*n, ctx).1),
    decreases *n, 0int,
{
    let ghost t0 = visitor.ts@;
    let ghost m0 = visitor.defs();
    match n {
        Node::Leaf(l) => {
            proof {
                lemma_merge_append(m0, seq![l.ts.params], ret_parts(l.ts.ret));
                lemma_merge_one(m0, l.ts.params);
            }
            push_text(visitor, "{_PARAMS:");
            assert(visitor.defs() == m0);
            visitor.append_visitor(&l.ts.params);
            let ghost m1 = visitor.defs();
            match &l.ts.ret {
                Some(r) => {
                    proof {
                        lemma_merge_one(m1, *r);
                    }
                    push_text(visitor, ";_RETURN:");
                    assert(visitor.defs() == m1);
                    visitor.append_visitor(r);
                },
                None => {
                    assert(merge_defs(m1, Seq::<TSVisitor>::empty()) == m1);
                },
            }
            push_text(visitor, "}");
            assert(visitor.ts@ =~= t0 + node_ts(*n, ctx).0);
        },
        Node::Parent(p) => {
            let ghost c = children_ts(p.subcommands, ctx, 0);
            proof {
                lemma_merge_append(m0, seq![p.ts.params], c.1);
                lemma_merge_one(m0, p.ts.params);
            }
            push_text(visitor, "{_PARAMS:");
            assert(visitor.defs() == m0);
            visitor.append_visitor(&p.ts.params);
            push_text(visitor, ";_CHILDREN:");
            push_text(visitor, "{");
            visit_children(&p.subcommands, visitor, ctx);
            push_text(visitor, "}");
            push_text(visitor, "}");
            assert(visitor.ts@ =~= t0 + node_ts(*n, ctx).0);
        },
    }
}

/// What an optional reference refers to.
pub open spec fn opt_val<T>(o: Option<&T>) -> Option<T> {
    match o {
        Some(x) => Some(*x),
        None => None,
    }
}

/// A handler whose parameters have a TypeScript type.
pub trait ParamsTS {
    spec fn spec_params_ts(&self) -> TSVisitor;

    fn params_ts(&self) -> (r: &TSVisitor)
        ensures
            *r == self.spec_params_ts(),
    ;
}

/// A handler whose result may have a TypeScript type.
pub trait ReturnTS {
    spec fn spec_return_ts(&self) -> Option<TSVisitor>;

    fn return_ts(&self) -> (r: Option<&TSVisitor>)
        ensures
            opt_val(r) == self.spec_return_ts(),
    ;
}

/// A handler that may have subcommands.
pub trait ChildrenTS {
    spec fn spec_children_ts(&self) -> Option<SubcommandMap>;

    fn children_ts(&self) -> (r: Option<&SubcommandMap>)
        ensures
            opt_val(r) == self.spec_children_ts(),
    ;
}

/// The TypeScript bindings of a handler: the type of its parameters, of its
/// result if it has one, and of its subcommands if it has any.
pub struct HandlerTS<'a> {
    pub params_ts: &'a TSVisitor,
    pub return_ts: Option<&'a TSVisitor>,
    pub children: Option<&'a SubcommandMap>,
}

/// A handler that may be left out of the bindings.
pub trait HandlerTSBindings {
    /// The handler is in the bindings.
    spec fn spec_has_ts(&self) -> bool;

    fn get_ts(&self) -> (r: Option<HandlerTS<'_>>)
        ensures
            r is Some == self.spec_has_ts(),
    ;
}

/// The text of the bindings `h` gives in context `ctx`, and the visitors
/// whose definitions it records, in order.
pub open spec fn handler_ts_text(h: HandlerTS, ctx: ContextId) -> (Seq<char>, Seq<TSVisitor>) {
    let c = match h.children {
        Some(m) => {
            let x = children_ts(*m, ctx, 0);
            (";_CHILDREN:"@ + "{"@ + x.0 + "}"@, x.1)
        },
        None => (Seq::empty(), Seq::empty()),
    };
    (
        "{_PARAMS:"@ + h.params_ts.ts@ + ret_text(opt_val(h.return_ts)) + c.0 + "}"@,
        seq![*h.params_ts] + ret_parts(opt_val(h.return_ts)) + c.1,
    )
}

impl<'a> HandlerTS<'a> {
    /// The bindings of `handler`.
    pub fn new<H: ParamsTS + ReturnTS + ChildrenTS>(handler: &'a H) -> (r: Self)
        ensures
            *r.params_ts == handler.spec_params_ts(),
            opt_val(r.return_ts) == handler.spec_return_ts(),
            opt_val(r.children) == handler.spec_children_ts(),
    {
        HandlerTS {
            params_ts: handler.params_ts(),
            return_ts: handler.return_ts(),
            children: handler.children_ts(),
        }
    }

    /// Appends the bindings, `{_PARAMS:..;_RETURN:..;_CHILDREN:..}`, the
    /// subcommands taken as they serve `ctx`.
    pub fn visit(&self, visitor: &mut TSVisitor, ctx: ContextId)
        requires
            old(visitor).wf(),
            merge_ok(old(visitor).defs(), handler_ts_text(*self, ctx).1),
        ensures
            final(visitor).wf(),
            final(visitor).ts@ == old(visitor).ts@ + handler_ts_text(*self, ctx).0,
            final(visitor).defs() == merge_defs(old(visitor).defs(), handler_ts_text(*self, ctx).1),
    {
        let ghost t0 = visitor.ts@;
        let ghost m0 = visitor.defs();
        let ghost rp = ret_parts(opt_val(self.return_ts));
        let ghost cp = match self.children {
            Some(m) => children_ts(*m, ctx, 0).1,
            None => Seq::<TSVisitor>::empty(),
        };
        proof {
            assert(handler_ts_text(*self, ctx).1 == seq![*self.params_ts] + rp + cp);
            lemma_merge_append(m0, seq![*self.params_ts] + rp, cp);
            lemma_merge_append(m0, seq![*self.params_ts], rp);
            lemma_merge_one(m0, *self.params_ts);
        }
        push_text(visitor, "{_PARAMS:");
        assert(visitor.defs() == m0);
        visitor.append_visitor(self.params_ts);
        let ghost m1 = visitor.defs();
        match self.return_ts {
            Some(r) => {
                proof {
                    lemma_merge_one(m1, *r);
                }
                push_text(visitor, ";_RETURN:");
                assert(visitor.defs() == m1);
                visitor.append_visitor(r);
            },
            None => {
                assert(merge_defs(m1, Seq::<TSVisitor>::empty()) == m1);
            },
        }
        let ghost m2 = visitor.defs();
        match self.children {
            Some(m) => {
                push_text(visitor, ";_CHILDREN:");
                push_text(visitor, "{");
                assert(visitor.defs() == m2);
                visit_children(m, visitor, ctx);
                push_text(visitor, "}");
            },
            None => {
                assert(merge_defs(m2, Seq::<TSVisitor>::empty()) == m2);
            },
        }
        push_text(visitor, "}");
        assert(visitor.ts@ =~= t0 + handler_ts_text(*self, ctx).0);
    }
}

/// The bindings of a node are those that [`HandlerTS::visit`] writes for it.
pub proof fn lemma_node_ts(n: Node, h: HandlerTS, ctx: ContextId)
    requires
        *h.params_ts == n.spec_params_ts(),
        opt_val(h.return_ts) == n.spec_return_ts(),
        opt_val(h.children) == n.spec_children_ts(),
    ensures
        handler_ts_text(h, ctx) == node_ts(n, ctx),
{
    match n {
        Node::Leaf(l) => {
            assert(handler_ts_text(h, ctx).0 =~= node_ts(n, ctx).0);
            assert(handler_ts_text(h, ctx).1 =~= node_ts(n, ctx).1);
        },
        Node::Parent(p) => {
            assert(handler_ts_text(h, ctx).0 =~= node_ts(n, ctx).0);
            assert(handler_ts_text(h, ctx).1 =~= node_ts(n, ctx).1);
        },
    }
}

impl ParamsTS for LeafHandler {
    open spec fn spec_params_ts(&self) -> TSVisitor {
        self.ts.params
    }

    fn params_ts(&self) -> (r: &TSVisitor) {
        &self.ts.params
    }
}

impl ReturnTS for LeafHandler {
    open spec fn spec_return_ts(&self) -> Option<TSVisitor> {
        self.ts.ret
    }

    fn return_ts(&self) -> (r: Option<&TSVisitor>) {
        match &self.ts.ret {
            Some(r) => Some(r),
            None => None,
        }
    }
}

impl ChildrenTS for LeafHandler {
    open spec fn spec_children_ts(&self) -> Option<SubcommandMap> {
        None
    }

    fn children_ts(&self) -> (r: Option<&SubcommandMap>) {
        None
    }
}

impl ParamsTS for ParentHandler {
    open spec fn spec_params_ts(&self) -> TSVisitor {
        self.ts.params
    }

    fn params_ts(&self) -> (r: &TSVisitor) {
        &self.ts.params
    }
}

impl ReturnTS for ParentHandler {
    open spec fn spec_return_ts(&self) -> Option<TSVisitor> {
        None
    }

    fn return_ts(&self) -> (r: Option<&TSVisitor>) {
        None
    }
}

impl ChildrenTS for ParentHandler {
    open spec fn spec_children_ts(&self) -> Option<SubcommandMap> {
        Some(self.subcommands)
    }

    fn children_ts(&self) -> (r: Option<&SubcommandMap>) {
        Some(&self.subcommands)
    }
}

impl ParamsTS for Node {
    open spec fn spec_params_ts(&self) -> TSVisitor {
        match self {
            Node::Leaf(l) => l.spec_params_ts(),
            Node::Parent(p) => p.spec_params_ts(),
        }
    }

    fn params_ts(&self) -> (r: &TSVisitor) {
        match self {
            Node::Leaf(l) => l.params_ts(),
            Node::Parent(p) => p.params_ts(),
        }
    }
}

impl ReturnTS for Node {
    open spec fn spec_return_ts(&self) -> Option<TSVisitor> {
        match self {
            Node::Leaf(l) => l.spec_return_ts(),
            Node::Parent(p) => p.spec_return_ts(),
        }
    }

    fn return_ts(&self) -> (r: Option<&TSVisitor>) {
        match self {
            Node::Leaf(l) => l.return_ts(),
            Node::Parent(p) => p.return_ts(),
        }
    }
}

impl ChildrenTS for Node {
    open spec fn spec_children_ts(&self) -> Option<SubcommandMap> {
        match self {
            Node::Leaf(l) => l.spec_children_ts(),
            Node::Parent(p) => p.spec_children_ts(),
        }
    }

    fn children_ts(&self) -> (r: Option<&SubcommandMap>) {
        match self {
            Node::Leaf(l) => l.children_ts(),
            Node::Parent(p) => p.children_ts(),
        }
    }
}

impl HandlerTSBindings for LeafHandler {
    open spec fn spec_has_ts(&self) -> bool {
        self.ts.enabled
    }

    fn get_ts(&self) -> (r: Option<HandlerTS<'_>>) {
        if self.ts.enabled {
            Some(HandlerTS::new(self))
        } else {
            None
        }
    }
}

impl HandlerTSBindings for ParentHandler {
    open spec fn spec_has_ts(&self) -> bool {
        self.ts.enabled
    }

    fn get_ts(&self) -> (r: Option<HandlerTS<'_>>) {
        if self.ts.enabled {
            Some(HandlerTS::new(self))
        } else {
            None
        }
    }
}

impl HandlerTSBindings for Node {
    open spec fn spec_has_ts(&self) -> bool {
        ts_enabled(*self)
    }

    fn get_ts(&self) -> (r: Option<HandlerTS<'_>>) {
        if node_has_ts(self) {
            Some(HandlerTS::new(self))
        } else {
            None
        }
    }
}

impl<H> HandlerTSBindings for NoTS<H> {
    open spec fn spec_has_ts(&self) -> bool {
        false
    }

    fn get_ts(&self) -> (r: Option<HandlerTS<'_>>) {
        None
    }
}

/// An adapter that takes the parameter type of the handler it wraps.
pub trait PassthroughParamsTS: Adapter {}

/// An adapter that takes the result type of the handler it wraps.
pub trait PassthroughReturnTS: Adapter {}

/// An adapter that takes the subcommands of the handler it wraps.
pub trait PassthroughChildrenTS: Adapter {}

impl<T: PassthroughParamsTS> ParamsTS for T where T::Inner: ParamsTS {
    open spec fn spec_params_ts(&self) -> TSVisitor {
        self.inner().spec_params_ts()
    }

    fn params_ts(&self) -> (r: &TSVisitor) {
        self.as_inner().params_ts()
    }
}

impl<T: PassthroughReturnTS> ReturnTS for T where T::Inner: ReturnTS {
    open spec fn spec_return_ts(&self) -> Option<TSVisitor> {
        self.inner().spec_return_ts()
    }

    fn return_ts(&self) -> (r: Option<&TSVisitor>) {
        self.as_inner().return_ts()
    }
}

impl<T: PassthroughChildrenTS> ChildrenTS for T where T::Inner: ChildrenTS {
    open spec fn spec_children_ts(&self) -> Option<SubcommandMap> {
        self.inner().spec_children_ts()
    }

    fn children_ts(&self) -> (r: Option<&SubcommandMap>) {
        self.as_inner().children_ts()
    }
}

impl<H> PassthroughParamsTS for NoCli<H> {}

impl<H> PassthroughReturnTS for NoCli<H> {}

impl<H> PassthroughChildrenTS for NoCli<H> {}

impl<H> PassthroughParamsTS for NoDisplay<H> {}

impl<H> PassthroughReturnTS for NoDisplay<H> {}

impl<H> PassthroughChildrenTS for NoDisplay<H> {}

impl<H> PassthroughParamsTS for CustomDisplay<H> {}

impl<H> PassthroughReturnTS for CustomDisplay<H> {}

impl<H> PassthroughChildrenTS for CustomDisplay<H> {}

impl<H> PassthroughParamsTS for CustomDisplayFn<H> {}

impl<H> PassthroughReturnTS for CustomDisplayFn<H> {}

impl<H> PassthroughChildrenTS for CustomDisplayFn<H> {}

impl<H> PassthroughParamsTS for WithAbout<H> {}

impl<H> PassthroughReturnTS for WithAbout<H> {}

impl<H> PassthroughChildrenTS for WithAbout<H> {}

impl<H> PassthroughParamsTS for RemoteCaller<H> {}

impl<H> PassthroughReturnTS for RemoteCaller<H> {}

impl<H> PassthroughChildrenTS for RemoteCaller<H> {}

impl<H> ParamsTS for OverrideParamsTS<H> {
    open spec fn spec_params_ts(&self) -> TSVisitor {
        self.params_ts
    }

    fn params_ts(&self) -> (r: &TSVisitor) {
        &self.params_ts
    }
}

impl<H> PassthroughReturnTS for OverrideParamsTS<H> {}

impl<H> PassthroughChildrenTS for OverrideParamsTS<H> {}

impl<H> ReturnTS for OverrideReturnTS<H> {
    open spec fn spec_return_ts(&self) -> Option<TSVisitor> {
        Some(self.return_ty)
    }

    fn return_ts(&self) -> (r: Option<&TSVisitor>) {
        Some(&self.return_ty)
    }
}

impl<H> PassthroughParamsTS for OverrideReturnTS<H> {}

impl<H> PassthroughChildrenTS for OverrideReturnTS<H> {}

} // verus!
