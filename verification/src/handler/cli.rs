use vstd::prelude::*;

use super::{ContextId, DynHandler, Node, ParamsId, ParentHandler};
use crate::value::{combine, Merged, Value};

verus! {

/// A command-line command: the arguments of a parameter type, and
/// subcommands.
pub struct CliCommand {
    pub params: ParamsId,
    pub name: Option<String>,
    pub about: Option<String>,
    pub subcommand_required: bool,
    pub subcommands: Vec<CliCommand>,
}

/// Entry `i` of `p` has its handler `j` serving `ctx`, with command-line
/// bindings.
pub open spec fn cli_at(p: ParentHandler, ctx: ContextId, i: int, j: int) -> bool {
    &&& 0 <= i < p.subcommands.0@.len()
    &&& super::entry_select(p.subcommands.0@[i], ctx) == Some(j)
    &&& 0 <= j < p.subcommands.0@[i].handlers@.len()
    &&& p.subcommands.0@[i].handlers@[j].1.has_cli()
}

/// Entry `i` of `p` gives a named subcommand on the command line.
pub open spec fn named_cli(p: ParentHandler, ctx: ContextId, i: int) -> bool {
    p.subcommands.0@[i].name is Some && exists|j: int| cli_at(p, ctx, i, j)
}

/// The number of named subcommands that the first `i` entries give.
pub open spec fn cli_count(p: ParentHandler, ctx: ContextId, i: int) -> nat
    decreases i,
{
    if i <= 0 {
        0
    } else {
        cli_count(p, ctx, i - 1) + if named_cli(p, ctx, i - 1) {
            1nat
        } else {
            0nat
        }
    }
}

/// The root handler of `p` has command-line bindings in `ctx`.
pub open spec fn root_cli(p: ParentHandler, ctx: ContextId) -> bool {
    exists|i: int, j: int| #[trigger] cli_at(p, ctx, i, j) && p.subcommands.0@[i].name is None
}

/// `c` is the command of node `n` in context `ctx`.
pub open spec fn describes(c: CliCommand, n: Node, ctx: ContextId) -> bool
    decreases n,
{
    match n {
        Node::Leaf(l) => {
            &&& c.params == l.params
            &&& c.about == l.about
            &&& !c.subcommand_required
            &&& c.subcommands@.len() == 0
        },
        Node::Parent(p) => {
            &&& c.params == p.params
            &&& c.about == p.about
            &&& c.subcommand_required == !root_cli(p, ctx)
            &&& c.subcommands@.len() == cli_count(p, ctx, p.subcommands.0@.len() as int)
            &&& forall|i: int, j: int|
                0 <= i < p.subcommands.0@.len() && 0 <= j < p.subcommands.0@[i].handlers@.len() && #[trigger] cli_at(
                    p,
                    ctx,
                    i,
                    j,
                ) && p.subcommands.0@[i].name is Some ==> {
                    let k = cli_count(p, ctx, i);
                    &&& c.subcommands@[k as int].name == p.subcommands.0@[i].name
                    &&& describes(c.subcommands@[k as int], p.subcommands.0@[i].handlers@[j].1.node(), ctx)
                }
        },
    }
}

/// The arguments given on the command line to a command: the values of its
/// own arguments, and the subcommand given with its arguments.
pub struct CliArgs {
    pub params: Value,
    pub subcommand: Option<(String, Box<CliArgs>)>,
}

/// Why command-line arguments were refused.
#[derive(Debug, Clone, Copy, PartialEq, Eq)]
pub enum CliErrorKind {
    /// The arguments of a command and of its subcommand set the same key.
    ArgumentConflict,
    /// The arguments did not make a value of the parameter type.
    ValueValidation,
}

/// An error in the command-line arguments.
pub struct CliError {
    pub kind: CliErrorKind,
    pub message: String,
}

/// The handler that the subcommand `name` of a parent's command runs in
/// context `ctx`, when it has command-line bindings.
pub open spec fn cli_sub(p: ParentHandler, ctx: ContextId, name: Seq<char>) -> Option<DynHandler> {
    match p.subcommands.select(ctx, Some(name)) {
        Some((i, j)) => {
            if 0 <= i < p.subcommands.0@.len() && 0 <= j < p.subcommands.0@[i].handlers@.len()
                && p.subcommands.0@[i].handlers@[j].1.has_cli() {
                Some(p.subcommands.0@[i].handlers@[j].1)
            } else {
                None
            }
        },
        None => None,
    }
}

/// The method that the subcommands given in `args` name, below node `n`: a
/// subcommand without a handler with command-line bindings under its name
/// ends it.
pub open spec fn spec_cli_method(n: Node, args: CliArgs, ctx: ContextId) -> Seq<Seq<char>>
    decreases n,
{
    match n {
        Node::Leaf(_) => Seq::empty(),
        Node::Parent(p) => match args.subcommand {
            Some((name, sub)) => match p.subcommands.select(ctx, Some(name@)) {
                Some((i, j)) => {
                    if 0 <= i < p.subcommands.0@.len() && 0 <= j < p.subcommands.0@[i].handlers@.len()
                        && p.subcommands.0@[i].handlers@[j].1.has_cli() {
                        seq![name@] + spec_cli_method(p.subcommands.0@[i].handlers@[j].1.node(), *sub, ctx)
                    } else {
                        Seq::empty()
                    }
                },
                None => Seq::empty(),
            },
            None => Seq::empty(),
        },
    }
}

/// The arguments of each level that the method goes through, the outer
/// ones first.
pub open spec fn spec_cli_chain(n: Node, args: CliArgs, ctx: ContextId) -> Seq<Value>
    decreases n,
{
    match n {
        Node::Leaf(_) => seq![args.params],
        Node::Parent(p) => match args.subcommand {
            Some((name, sub)) => match p.subcommands.select(ctx, Some(name@)) {
                Some((i, j)) => {
                    if 0 <= i < p.subcommands.0@.len() && 0 <= j < p.subcommands.0@[i].handlers@.len()
                        && p.subcommands.0@[i].handlers@[j].1.has_cli() {
                        seq![args.params] + spec_cli_chain(p.subcommands.0@[i].handlers@[j].1.node(), *sub, ctx)
                    } else {
                        seq![args.params]
                    }
                },
                None => seq![args.params],
            },
            None => seq![args.params],
        },
    }
}

/// `r` is what parsing `args` against node `n` gives: the method, with the
/// arguments of its levels merged into one object, the outer ones first;
/// or the conflict that the merge meets.
pub open spec fn parsed(n: Node, args: CliArgs, ctx: ContextId, r: Result<(Vec<String>, Value), CliError>) -> bool {
    match crate::value::merge_chain(spec_cli_chain(n, args, ctx)) {
        Merged::Whole(v) => r matches Ok((m, w)) && super::names(m@) == spec_cli_method(n, args, ctx) && w == v,
        Merged::Entries(e) => r matches Ok((m, w)) && super::names(m@) == spec_cli_method(n, args, ctx)
            && (w matches Value::Object(o) && o@ == e),
        Merged::Failed(msg) => r matches Err(ce) && ce.kind == CliErrorKind::ArgumentConflict && ce.message@ == msg,
    }
}

fn no_method() -> (r: Vec<String>)
    ensures
        super::names(r@) == Seq::<Seq<char>>::empty(),
{
    let r: Vec<String> = Vec::new();
    assert(super::names(r@) =~= Seq::<Seq<char>>::empty());
    r
}

fn clone_name(n: &Option<String>) -> (r: Option<String>)
    ensures
        r == *n,
{
    match n {
        Some(s) => Some(s.clone()),
        None => None,
    }
}

impl Node {
    /// The command-line command of this node for the context `ctx`.
    pub fn cli_command(&self, ctx: ContextId) -> (r: CliCommand)
        ensures
            describes(r, *self, ctx),
            r.name is None,
        decreases self, 1nat,
    {
        match self {
            Node::Leaf(l) => CliCommand {
                params: l.params,
                name: None,
                about: clone_name(&l.about),
                subcommand_required: false,
                subcommands: Vec::new(),
            },
            Node::Parent(p) => p.cli_command(ctx),
        }
    }
}

impl ParentHandler {
    /// The command-line command of this handler for the context `ctx`: one
    /// named subcommand per entry whose handler for `ctx` has command-line
    /// bindings; a subcommand is required unless the root handler has them.
    pub fn cli_command(&self, ctx: ContextId) -> (r: CliCommand)
        ensures
            describes(r, Node::Parent(*self), ctx),
            r.name is None,
        decreases self, 0nat,
    {
        let ghost p = *self;
        let mut subs: Vec<CliCommand> = Vec::new();
        let mut required = true;
        let mut i: usize = 0;
        while i < self.subcommands.0.len()
            invariant
                p == *self,
                i <= p.subcommands.0@.len(),
                subs@.len() == cli_count(p, ctx, i as int),
                required == !(exists|a: int, b: int| #[trigger] cli_at(p, ctx, a, b) && a < i && p.subcommands.0@[a].name is None),
                forall|a: int, b: int|
                    0 <= a < i && 0 <= b < p.subcommands.0@[a].handlers@.len() && #[trigger] cli_at(p, ctx, a, b)
                        && p.subcommands.0@[a].name is Some ==> {
                        let k = cli_count(p, ctx, a);
                        &&& subs@[k as int].name == p.subcommands.0@[a].name
                        &&& describes(subs@[k as int], p.subcommands.0@[a].handlers@[b].1.node(), ctx)
                    },
            decreases p.subcommands.0@.len() - i,
        {
            let e = &self.subcommands.0[i];
            let sel = super::select_in_entry(e, ctx);
            let ghost before = subs@;
            proof {
                assert(cli_count(p, ctx, i + 1) == cli_count(p, ctx, i as int) + if named_cli(p, ctx, i as int) {
                    1nat
                } else {
                    0nat
                });
            }
            match sel {
                Some(j) => {
                    let h = &e.handlers[j].1;
                    assert(*e == p.subcommands.0@[i as int]);
                    assert(super::entry_select(p.subcommands.0@[i as int], ctx) == Some(j as int));
                    if h.is_with_cli() {
                        assert(cli_at(p, ctx, i as int, j as int));
                        match &e.name {
                            Some(n) => {
                                let mut c = h.node_ref().cli_command(ctx);
                                c.name = Some(n.clone());
                                subs.push(c);
                                assert(named_cli(p, ctx, i as int));
                            },
                            None => {
                                required = false;
                                assert(!named_cli(p, ctx, i as int));
                            },
                        }
                    } else {
                        assert(!named_cli(p, ctx, i as int)) by {
                            if named_cli(p, ctx, i as int) {
                                let b = choose|b: int| cli_at(p, ctx, i as int, b);
                            }
                        }
                    }
                },
                None => {
                    assert(!named_cli(p, ctx, i as int));
                },
            }
            proof {
                assert(required == !(exists|a: int, b: int| #[trigger] cli_at(p, ctx, a, b) && a < i + 1
                    && p.subcommands.0@[a].name is None)) by {
                    if exists|a: int, b: int| #[trigger] cli_at(p, ctx, a, b) && a < i + 1
                        && p.subcommands.0@[a].name is None {
                        let (a, b) = choose|a: int, b: int| #[trigger] cli_at(p, ctx, a, b) && a < i + 1
                            && p.subcommands.0@[a].name is None;
                        assert(!required);
                    }
                }
                assert forall|a: int, b: int|
                    0 <= a < i + 1 && 0 <= b < p.subcommands.0@[a].handlers@.len() && #[trigger] cli_at(p, ctx, a, b)
                        && p.subcommands.0@[a].name is Some implies ({
                        let k = cli_count(p, ctx, a);
                        &&& subs@[k as int].name == p.subcommands.0@[a].name
                        &&& describes(subs@[k as int], p.subcommands.0@[a].handlers@[b].1.node(), ctx)
                    }) by {
                    lemma_cli_count_mono(p, ctx, a, i as int);
                    if a < i {
                        assert(subs@[cli_count(p, ctx, a) as int] == before[cli_count(p, ctx, a) as int]);
                    }
                }
            }
            i = i + 1;
        }
        CliCommand {
            params: self.params,
            name: None,
            about: clone_name(&self.about),
            subcommand_required: required,
            subcommands: subs,
        }
    }
}

/// A parent's command leaves the subcommand optional exactly when the
/// root handler that serves the context has command-line bindings: a root
/// handler without them, or none, makes a subcommand required.
pub proof fn lemma_subcommand_required(c: CliCommand, p: ParentHandler, ctx: ContextId)
    requires
        p.subcommands.wf(),
        describes(c, Node::Parent(p), ctx),
    ensures
        c.subcommand_required == !(p.subcommands.spec_get(ctx, None) matches Some(h) && h.has_cli()),
{
    p.subcommands.lemma_select_bounds(ctx, None);
    if root_cli(p, ctx) {
        let (i, j) = choose|i: int, j: int| #[trigger] cli_at(p, ctx, i, j) && p.subcommands.0@[i].name is None;
        assert(super::is_first_name(p.subcommands.0@, None, i)) by {
            assert forall|k: int| 0 <= k < i implies super::name_view(#[trigger] p.subcommands.0@[k].name) != None::<
                Seq<char>,
            > by {
                assert(super::name_lt(
                    super::name_view(p.subcommands.0@[k].name),
                    super::name_view(p.subcommands.0@[i].name),
                ));
            }
        }
        super::lemma_first_name_unique(p.subcommands.0@, None, i);
    }
    if p.subcommands.spec_get(ctx, None) matches Some(h) && h.has_cli() {
        let (i, j) = p.subcommands.select(ctx, None)->Some_0;
        assert(cli_at(p, ctx, i, j));
    }
}

impl Node {
    /// Reads the command-line arguments given to this node's command: the
    /// method that the chosen subcommands name, and their arguments merged.
    pub fn cli_parse(&self, args: CliArgs, ctx: ContextId) -> (r: Result<(Vec<String>, Value), CliError>)
        ensures
            parsed(*self, args, ctx, r),
            spec_cli_chain(*self, args, ctx).len() >= 1,
        decreases self, 1nat,
    {
        match self {
            Node::Leaf(_) => Ok((no_method(), args.params)),
            Node::Parent(p) => p.cli_parse(args, ctx),
        }
    }
}

/// When the arguments of every level hold each key once, what reading
/// them gives holds each key once.
pub proof fn lemma_cli_parse_wf(n: Node, args: CliArgs, ctx: ContextId, r: Result<(Vec<String>, Value), CliError>)
    requires
        parsed(n, args, ctx, r),
        forall|i: int| 0 <= i < spec_cli_chain(n, args, ctx).len() ==> (#[trigger] spec_cli_chain(n, args, ctx)[i]).wf(),
    ensures
        r matches Ok((_, w)) ==> w.wf(),
{
    crate::value::lemma_merge_chain_wf(spec_cli_chain(n, args, ctx));
}

impl ParentHandler {
    /// Reads the command-line arguments given to this handler's command.
    pub fn cli_parse(&self, args: CliArgs, ctx: ContextId) -> (r: Result<(Vec<String>, Value), CliError>)
        ensures
            parsed(Node::Parent(*self), args, ctx, r),
            spec_cli_chain(Node::Parent(*self), args, ctx).len() >= 1,
        decreases self, 0nat,
    {
        let ghost a0 = args;
        let CliArgs { params, subcommand } = args;
        proof {
            assert(seq![a0.params].len() == 1);
            assert(crate::value::merge_chain(seq![a0.params]) == Merged::Whole(a0.params));
        }
        let (name, sub) = match subcommand {
            None => {
                return Ok((no_method(), params));
            },
            Some(x) => x,
        };
        let found = self.subcommands.get(ctx, Some(name.as_str()));
        proof {
            self.subcommands.lemma_select_bounds(ctx, Some(name@));
        }
        let h = match found {
            Some((_, h)) => h,
            None => {
                return Ok((no_method(), params));
            },
        };
        if !h.is_with_cli() {
            return Ok((no_method(), params));
        }
        let ghost sub0 = *sub;
        let ghost inner_chain = spec_cli_chain(h.node(), sub0, ctx);
        let inner = h.node_ref().cli_parse(*sub, ctx);
        proof {
            assert(spec_cli_chain(Node::Parent(*self), a0, ctx) == seq![a0.params] + inner_chain);
            assert((seq![a0.params] + inner_chain).drop_first() =~= inner_chain);
        }
        let (m, v) = match inner {
            Err(e) => {
                return Err(e);
            },
            Ok(x) => x,
        };
        let ghost m0 = m@;
        match combine(params, v) {
            Ok(w) => {
                let mut m = m;
                let mut m2: Vec<String> = Vec::new();
                m2.push(name);
                m2.append(&mut m);
                assert(super::names(m2@) =~= seq![a0.subcommand.unwrap().0@] + super::names(m0));
                Ok((m2, w))
            },
            Err(e) => Err(CliError { kind: CliErrorKind::ArgumentConflict, message: e.message }),
        }
    }
}

proof fn lemma_cli_count_mono(p: ParentHandler, ctx: ContextId, a: int, b: int)
    requires
        0 <= a <= b,
    ensures
        cli_count(p, ctx, a) <= cli_count(p, ctx, b),
        named_cli(p, ctx, a) && a < b ==> cli_count(p, ctx, a) < cli_count(p, ctx, b),
    decreases b - a,
{
    if a < b {
        lemma_cli_count_mono(p, ctx, a, b - 1);
    }
}

} // verus!
