use std::sync::Arc;

use vstd::prelude::*;
use vstd::string::StrSliceExecFns;

use crate::util::{share, str_eq};
use crate::error::{method_not_found, RpcError};
use crate::ts::TSVisitor;
use crate::value::Value;

verus! {

/// Stands for the type of a context (the `TypeId` of a context type).
pub type ContextId = u64;

/// Names the implementation that a leaf handler runs; the caller holds the
/// implementations and runs the one named by an [`Invocation`].
pub type HandlerId = u64;

/// Names the parameter type of a handler: its command-line arguments.
pub type ParamsId = u64;

/// How a leaf handler shows its result on the command line.
#[derive(Debug, Clone, Copy, PartialEq, Eq)]
pub enum DisplayMode {
    /// Print the result with its `Display` implementation.
    Default,
    /// Print nothing.
    Hidden,
    /// Run the caller's display function with this id.
    Custom(u64),
}

/// A handler that runs an implementation.
pub struct LeafHandler {
    pub id: HandlerId,
    /// The contexts the implementation accepts; `None` accepts any context.
    pub contexts: Option<Vec<ContextId>>,
    /// The contexts its command-line bindings accept; `None` accepts any.
    pub cli_contexts: Option<Vec<ContextId>>,
    pub params: ParamsId,
    pub blocking: bool,
    pub metadata: Vec<(String, Value)>,
    pub display: DisplayMode,
    pub about: Option<String>,
    pub ts: TsBindings,
    /// The context in which calls are forwarded to a server instead of run.
    pub remote: Option<ContextId>,
}

/// The TypeScript bindings of a handler: the text of its parameter type and
/// of its result type, each with the definitions it refers to.
pub struct TsBindings {
    /// False when the handler is left out of the bindings.
    pub enabled: bool,
    pub params: TSVisitor,
    pub ret: Option<TSVisitor>,
}

/// A node of the handler tree.
pub enum Node {
    Leaf(LeafHandler),
    Parent(ParentHandler),
}

/// A type-erased handler, with or without command-line bindings.
pub enum DynHandler {
    WithoutCli(Arc<Node>),
    WithCli(Arc<Node>),
}

/// The handlers registered under one name, each for a context (`None`: for
/// any context).
pub struct Subcommand {
    pub name: Option<String>,
    pub handlers: Vec<(Option<ContextId>, DynHandler)>,
}

/// Subcommands by name; the entry named `None` is the root handler.
pub struct SubcommandMap(pub Vec<Subcommand>);

/// A handler that dispatches to the subcommand named by the next component
/// of the method.
pub struct ParentHandler {
    pub params: ParamsId,
    pub subcommands: SubcommandMap,
    pub metadata: Vec<(String, Value)>,
    pub about: Option<String>,
    pub ts: TsBindings,
}

/// A request to the caller to run one implementation.
pub struct Invocation {
    pub handler: HandlerId,
    pub context: ContextId,
    /// The components of the method that led to the handler.
    pub parent_method: Vec<String>,
    /// The components of the method left over below the handler.
    pub method: Vec<String>,
    pub params: Value,
    pub blocking: bool,
    pub display: DisplayMode,
    /// The call is to be forwarded to a server rather than run here.
    pub remote: bool,
    /// The parameter types of the parents that the call passed through,
    /// from the root down: the handler inherits their parameters, each
    /// read from `params` by its type.
    pub inherited: Vec<ParamsId>,
}

pub open spec fn name_view(n: Option<String>) -> Option<Seq<char>> {
    match n {
        Some(s) => Some(s@),
        None => None,
    }
}

pub open spec fn str_name_view(n: Option<&str>) -> Option<Seq<char>> {
    match n {
        Some(s) => Some(s@),
        None => None,
    }
}

/// The views of a list of names.
pub open spec fn names(v: Seq<String>) -> Seq<Seq<char>> {
    v.map_values(|s: String| s@)
}

impl DynHandler {
    pub fn node_ref(&self) -> (r: &Node)
        ensures
            *r == self.node(),
    {
        match self {
            DynHandler::WithoutCli(n) => &**n,
            DynHandler::WithCli(n) => &**n,
        }
    }

    pub fn is_with_cli(&self) -> (r: bool)
        ensures
            r == self.has_cli(),
    {
        match self {
            DynHandler::WithoutCli(_) => false,
            DynHandler::WithCli(_) => true,
        }
    }

    pub open spec fn node(self) -> Node {
        match self {
            DynHandler::WithoutCli(n) => *n,
            DynHandler::WithCli(n) => *n,
        }
    }

    pub open spec fn has_cli(self) -> bool {
        self is WithCli
    }
}

/// `i` is the first index of an entry named `n`.
pub open spec fn is_first_name(s: Seq<Subcommand>, n: Option<Seq<char>>, i: int) -> bool {
    &&& 0 <= i < s.len()
    &&& name_view(s[i].name) == n
    &&& forall|k: int| 0 <= k < i ==> name_view(#[trigger] s[k].name) != n
}

/// `j` is the first index of a handler registered for `key`.
pub open spec fn is_first_key(s: Seq<(Option<ContextId>, DynHandler)>, key: Option<ContextId>, j: int) -> bool {
    &&& 0 <= j < s.len()
    &&& s[j].0 == key
    &&& forall|k: int| 0 <= k < j ==> #[trigger] s[k].0 != key
}

pub open spec fn name_index(s: Seq<Subcommand>, n: Option<Seq<char>>) -> Option<int> {
    if exists|i: int| is_first_name(s, n, i) {
        Some(choose|i: int| is_first_name(s, n, i))
    } else {
        None
    }
}

pub open spec fn key_index(s: Seq<(Option<ContextId>, DynHandler)>, key: Option<ContextId>) -> Option<int> {
    if exists|j: int| is_first_key(s, key, j) {
        Some(choose|j: int| is_first_key(s, key, j))
    } else {
        None
    }
}

pub proof fn lemma_first_name_unique(s: Seq<Subcommand>, n: Option<Seq<char>>, i: int)
    requires
        is_first_name(s, n, i),
    ensures
        name_index(s, n) == Some(i),
{
    let c = choose|i: int| is_first_name(s, n, i);
    if c < i {
        assert(name_view(s[c].name) != n);
    } else if i < c {
        assert(name_view(s[i].name) != n);
    }
}

pub proof fn lemma_first_key_unique(s: Seq<(Option<ContextId>, DynHandler)>, key: Option<ContextId>, j: int)
    requires
        is_first_key(s, key, j),
    ensures
        key_index(s, key) == Some(j),
{
    let c = choose|j: int| is_first_key(s, key, j);
    if c < j {
        assert(s[c].0 != key);
    } else if j < c {
        assert(s[j].0 != key);
    }
}

/// `m1` is `m0` with `h` registered under `name` for each context of
/// `contexts` (`None`: for any context).
pub open spec fn inserted(
    m0: SubcommandMap,
    m1: SubcommandMap,
    name: Option<Seq<char>>,
    contexts: Option<Seq<ContextId>>,
    h: DynHandler,
) -> bool {
    &&& forall|n: Option<Seq<char>>, k: Option<ContextId>| #[trigger] m1.lookup(n, k) == if n == name && covers(
        contexts,
        k,
    ) {
        Some(h)
    } else {
        m0.lookup(n, k)
    }
    &&& forall|n: Option<Seq<char>>| (#[trigger] name_index(m1.0@, n) is Some) == (name_index(m0.0@, n) is Some || n
        == name)
}

impl SubcommandMap {
    /// The handler registered under `n` for exactly `key`.
    pub open spec fn lookup(self, n: Option<Seq<char>>, key: Option<ContextId>) -> Option<DynHandler> {
        match name_index(self.0@, n) {
            Some(i) => match key_index(self.0@[i].handlers@, key) {
                Some(j) => Some(self.0@[i].handlers@[j].1),
                None => None,
            },
            None => None,
        }
    }

    /// Where the handler that serves `ctx` under `n` is: the one registered
    /// for `ctx` itself, else the one registered for any context.
    pub open spec fn select(self, ctx: ContextId, n: Option<Seq<char>>) -> Option<(int, int)> {
        match name_index(self.0@, n) {
            Some(i) => match key_index(self.0@[i].handlers@, Some(ctx)) {
                Some(j) => Some((i, j)),
                None => match key_index(self.0@[i].handlers@, None) {
                    Some(j) => Some((i, j)),
                    None => None,
                },
            },
            None => None,
        }
    }

    /// The handler that serves `ctx` under `n`.
    pub open spec fn spec_get(self, ctx: ContextId, n: Option<Seq<char>>) -> Option<DynHandler> {
        match self.select(ctx, n) {
            Some((i, j)) => Some(self.0@[i].handlers@[j].1),
            None => None,
        }
    }

    pub proof fn lemma_select_bounds(self, ctx: ContextId, n: Option<Seq<char>>)
        ensures
            self.select(ctx, n) matches Some((i, j)) ==> 0 <= i < self.0@.len() && 0 <= j
                < self.0@[i].handlers@.len() && name_view(self.0@[i].name) == n,
    {
        if let Some(i) = name_index(self.0@, n) {
            assert(is_first_name(self.0@, n, i));
            if let Some(j) = key_index(self.0@[i].handlers@, Some(ctx)) {
                assert(is_first_key(self.0@[i].handlers@, Some(ctx), j));
            } else if let Some(j) = key_index(self.0@[i].handlers@, None) {
                assert(is_first_key(self.0@[i].handlers@, None, j));
            }
        }
    }

    /// The entries are in the order of their names, each name once, as in
    /// a map ordered by name.
    pub open spec fn wf(self) -> bool {
        names_sorted(self.0@)
    }

    pub fn new() -> (r: Self)
        ensures
            r.0@.len() == 0,
            r.wf(),
    {
        SubcommandMap(Vec::new())
    }

    /// Registers `handler` under `name` for each context of `contexts`
    /// (`None`: for any context), replacing what was registered there.
    pub fn insert(&mut self, name: Option<String>, contexts: Option<Vec<ContextId>>, handler: DynHandler)
        ensures
            inserted(*old(self), *final(self), name_view(name), ctx_set_view(contexts), handler),
            old(self).wf() ==> final(self).wf(),
    {
        let ghost nv = name_view(name);
        let ghost s0 = self.0@;
        let found = match &name {
            Some(s) => self.find_name(Some(s.as_str())),
            None => self.find_name(None),
        };
        let idx = match found {
            Some(i) => i,
            None => {
                let pos = match &name {
                    Some(s) => self.sorted_position(Some(s.as_str())),
                    None => self.sorted_position(None),
                };
                let e = Subcommand { name, handlers: Vec::new() };
                proof {
                    lemma_name_index_insert(self.0@, pos as int, e);
                    if names_sorted(s0) {
                        lemma_sorted_insert(s0, pos as int, e);
                    }
                }
                self.0.insert(pos, e);
                pos
            },
        };
        let ghost s1 = self.0@;
        assert(found is Some ==> s1 == s0);
        assert(found is None ==> name_index(s0, nv) is None && s1[idx as int].handlers@.len() == 0 && s1
            == s0.insert(idx as int, s1[idx as int]));
        assert(names_sorted(s0) ==> names_sorted(s1));
        assert(is_first_name(s1, nv, idx as int)) by {
            if found is Some {
                assert(s1 == s0);
            } else {
                assert(name_index(s1, nv) == Some(idx as int));
                let c = choose|i: int| is_first_name(s1, nv, i);
            }
        }
        let ghost cset = ctx_set_view(contexts);
        let mut entry = self.0.remove(idx);
        let ghost h0 = entry.handlers@;
        assert(entry == s1[idx as int]);
        match contexts {
            None => {
                insert_key(&mut entry.handlers, None, handler);
            },
            Some(cs) => {
                let mut i: usize = 0;
                while i < cs.len()
                    invariant
                        i <= cs@.len(),
                        forall|k: Option<ContextId>| #[trigger] lookup_key(entry.handlers@, k) == if k matches Some(
                            c,
                        ) && cs@.take(i as int).contains(c) {
                            Some(handler)
                        } else {
                            lookup_key(h0, k)
                        },
                        name_view(entry.name) == nv,
                    decreases cs@.len() - i,
                {
                    let h = clone_dyn(&handler);
                    let ghost before = entry.handlers@;
                    insert_key(&mut entry.handlers, Some(cs[i]), h);
                    let ghost pre = cs@.take(i as int);
                    let ghost post = cs@.take(i + 1);
                    assert(post =~= pre.push(cs@[i as int]));
                    assert forall|k: Option<ContextId>| #[trigger] lookup_key(entry.handlers@, k) == if k matches Some(
                        c,
                    ) && post.contains(c) {
                        Some(handler)
                    } else {
                        lookup_key(h0, k)
                    } by {
                        if let Some(c) = k {
                            if c == cs@[i as int] {
                                assert(post[i as int] == c);
                            } else {
                                if post.contains(c) {
                                    let m = choose|m: int| 0 <= m < post.len() && post[m] == c;
                                    assert(pre[m] == c);
                                }
                                if pre.contains(c) {
                                    let m = choose|m: int| 0 <= m < pre.len() && pre[m] == c;
                                    assert(post[m] == c);
                                }
                            }
                        }
                    }
                    i = i + 1;
                }
                assert(cs@.take(cs@.len() as int) =~= cs@);
            },
        }
        assert(forall|k: Option<ContextId>| #[trigger] lookup_key(entry.handlers@, k) == if covers(cset, k) {
            Some(handler)
        } else {
            lookup_key(h0, k)
        });
        proof {
            lemma_name_index_update(s1, idx as int, entry);
        }
        self.0.insert(idx, entry);
        assert(self.0@ =~= s1.update(idx as int, entry));
        assert(forall|n: Option<Seq<char>>| #[trigger] name_index(self.0@, n) == name_index(s1, n));
        assert(self.0@ == s1.update(idx as int, entry));
        assert(names_sorted(s0) ==> names_sorted(self.0@)) by {
            if names_sorted(s0) {
                assert forall|i: int, j: int| 0 <= i < j < self.0@.len() implies name_lt(
                    name_view(#[trigger] self.0@[i].name),
                    name_view(#[trigger] self.0@[j].name),
                ) by {
                    assert(name_view(self.0@[i].name) == name_view(s1[i].name));
                    assert(name_view(self.0@[j].name) == name_view(s1[j].name));
                }
            }
        }
        proof {
            if found is None {
                lemma_name_index_insert(s0, idx as int, s1[idx as int]);
            }
        }
        assert forall|k: Option<ContextId>| #[trigger] self.lookup(nv, k) == if covers(cset, k) {
            Some(handler)
        } else {
            old(self).lookup(nv, k)
        } by {
            assert(name_index(self.0@, nv) == Some(idx as int)) by {
                lemma_first_name_unique(s1, nv, idx as int);
            }
            assert(self.0@[idx as int] == entry);
            assert(self.lookup(nv, k) == lookup_key(entry.handlers@, k));
            assert(s0 == old(self).0@);
            if found is Some {
                lemma_first_name_unique(s0, nv, idx as int);
                assert(s0[idx as int].handlers@ == h0);
                assert(old(self).lookup(nv, k) == lookup_key(h0, k));
            } else {
                assert(h0.len() == 0);
                if exists|j: int| is_first_key(h0, k, j) {
                    let j = choose|j: int| is_first_key(h0, k, j);
                }
            }
        }
        assert forall|n: Option<Seq<char>>, k: Option<ContextId>| n != nv implies #[trigger] self.lookup(n, k)
            == old(self).lookup(n, k) by {
            if let Some(m) = name_index(s0, n) {
                assert(is_first_name(s0, n, m));
                if found is Some {
                    assert(m != idx);
                    assert(self.0@[m] == s0[m]);
                } else {
                    let m2 = if m < idx {
                        m
                    } else {
                        m + 1
                    };
                    assert(name_index(s1, n) == Some(m2));
                    assert(s1[m2] == s0[m]);
                    assert(self.0@[m2] == s0[m]);
                }
            }
        }
        assert forall|n: Option<Seq<char>>| (#[trigger] name_index(self.0@, n) is Some) == (name_index(
            s0,
            n,
        ) is Some || n == nv) by {
            if n == nv {
                lemma_first_name_unique(s1, nv, idx as int);
            }
        }
    }

    /// The handler that serves `ctx` under `name`, with the name it is
    /// registered under.
    pub fn get(&self, ctx: ContextId, name: Option<&str>) -> (r: Option<(&Option<String>, &DynHandler)>)
        ensures
            match self.select(ctx, str_name_view(name)) {
                Some((i, j)) => r matches Some((n, h)) && name_view(*n) == str_name_view(name) && *h
                    == self.0@[i].handlers@[j].1,
                None => r is None,
            },
    {
        match self.find_name(name) {
            Some(i) => {
                proof {
                    lemma_first_name_unique(self.0@, str_name_view(name), i as int);
                }
                let entry = &self.0[i];
                let j = match find_key(&entry.handlers, Some(ctx)) {
                    Some(j) => {
                        proof {
                            lemma_first_key_unique(entry.handlers@, Some(ctx), j as int);
                        }
                        j
                    },
                    None => match find_key(&entry.handlers, None) {
                        Some(j) => {
                            proof {
                                lemma_first_key_unique(entry.handlers@, None, j as int);
                            }
                            j
                        },
                        None => {
                            return None;
                        },
                    },
                };
                Some((&entry.name, &entry.handlers[j].1))
            },
            None => None,
        }
    }

    /// Where an entry named `name` belongs: before the first entry whose
    /// name comes after it.
    fn sorted_position(&self, name: Option<&str>) -> (r: usize)
        ensures
            r <= self.0@.len(),
            forall|k: int| 0 <= k < r ==> !name_lt(str_name_view(name), name_view(#[trigger] self.0@[k].name)),
            r < self.0@.len() ==> name_lt(str_name_view(name), name_view(self.0@[r as int].name)),
    {
        let mut i: usize = 0;
        while i < self.0.len()
            invariant
                i <= self.0@.len(),
                forall|k: int| 0 <= k < i ==> !name_lt(str_name_view(name), name_view(#[trigger] self.0@[k].name)),
            decreases self.0@.len() - i,
        {
            let after = match (name, &self.0[i].name) {
                (None, Some(_)) => true,
                (Some(a), Some(b)) => crate::util::str_lt(a, b.as_str()),
                _ => false,
            };
            if after {
                return i;
            }
            i = i + 1;
        }
        i
    }

    fn find_name(&self, name: Option<&str>) -> (r: Option<usize>)
        ensures
            match r {
                Some(i) => is_first_name(self.0@, str_name_view(name), i as int),
                None => name_index(self.0@, str_name_view(name)) is None,
            },
    {
        let ghost n = str_name_view(name);
        let mut i: usize = 0;
        while i < self.0.len()
            invariant
                i <= self.0@.len(),
                n == str_name_view(name),
                forall|k: int| 0 <= k < i ==> name_view(#[trigger] self.0@[k].name) != n,
            decreases self.0@.len() - i,
        {
            let same = match (&self.0[i].name, name) {
                (Some(a), Some(b)) => str_eq(a.as_str(), b),
                (None, None) => true,
                _ => false,
            };
            if same {
                return Some(i);
            }
            i = i + 1;
        }
        proof {
            if exists|i: int| is_first_name(self.0@, n, i) {
                let c = choose|i: int| is_first_name(self.0@, n, i);
                assert(name_view(self.0@[c].name) != n);
            }
        }
        None
    }
}

/// The handler that serves `ctx` under `n` is the one registered for `ctx`
/// itself, else the one registered for any context.
pub proof fn lemma_get_lookup(m: SubcommandMap, ctx: ContextId, n: Option<Seq<char>>)
    ensures
        m.spec_get(ctx, n) == match m.lookup(n, Some(ctx)) {
            Some(h) => Some(h),
            None => m.lookup(n, None),
        },
{
}

/// After a handler is registered under a name for some contexts, it is the
/// one that serves those contexts under that name; the handlers under other
/// names are as they were.
pub proof fn lemma_get_after_insert(
    m0: SubcommandMap,
    m1: SubcommandMap,
    name: Option<Seq<char>>,
    contexts: Option<Seq<ContextId>>,
    h: DynHandler,
    ctx: ContextId,
    n: Option<Seq<char>>,
)
    requires
        inserted(m0, m1, name, contexts, h),
    ensures
        n == name && (contexts matches Some(cs) && cs.contains(ctx)) ==> m1.spec_get(ctx, n) == Some(h),
        n == name && contexts is None && m0.lookup(n, Some(ctx)) is None ==> m1.spec_get(ctx, n) == Some(h),
        n != name ==> m1.spec_get(ctx, n) == m0.spec_get(ctx, n),
{
    lemma_get_lookup(m0, ctx, n);
    lemma_get_lookup(m1, ctx, n);
    assert(m1.lookup(n, Some(ctx)) == if n == name && covers(contexts, Some(ctx)) {
        Some(h)
    } else {
        m0.lookup(n, Some(ctx))
    });
    assert(m1.lookup(n, None) == if n == name && covers(contexts, None) {
        Some(h)
    } else {
        m0.lookup(n, None)
    });
}

/// The handler registered for exactly `key` in a list.
pub open spec fn lookup_key(s: Seq<(Option<ContextId>, DynHandler)>, key: Option<ContextId>) -> Option<DynHandler> {
    match key_index(s, key) {
        Some(j) => Some(s[j].1),
        None => None,
    }
}

proof fn lemma_first_key_exists(s: Seq<(Option<ContextId>, DynHandler)>, key: Option<ContextId>, m: int)
    requires
        0 <= m < s.len(),
        s[m].0 == key,
    ensures
        key_index(s, key) is Some,
    decreases m,
{
    if forall|q: int| 0 <= q < m ==> #[trigger] s[q].0 != key {
        assert(is_first_key(s, key, m));
    } else {
        let q = choose|q: int| 0 <= q < m && #[trigger] s[q].0 == key;
        lemma_first_key_exists(s, key, q);
    }
}

proof fn lemma_first_name_exists(s: Seq<Subcommand>, n: Option<Seq<char>>, m: int)
    requires
        0 <= m < s.len(),
        name_view(s[m].name) == n,
    ensures
        name_index(s, n) is Some,
    decreases m,
{
    if forall|q: int| 0 <= q < m ==> name_view(#[trigger] s[q].name) != n {
        assert(is_first_name(s, n, m));
    } else {
        let q = choose|q: int| 0 <= q < m && name_view(#[trigger] s[q].name) == n;
        lemma_first_name_exists(s, n, q);
    }
}

proof fn lemma_lookup_key_set(s: Seq<(Option<ContextId>, DynHandler)>, j: int, key: Option<ContextId>, h: DynHandler)
    requires
        is_first_key(s, key, j),
    ensures
        forall|k: Option<ContextId>| #[trigger] lookup_key(s.update(j, (key, h)), k) == if k == key {
            Some(h)
        } else {
            lookup_key(s, k)
        },
{
    let t = s.update(j, (key, h));
    assert forall|k: Option<ContextId>| #[trigger] lookup_key(t, k) == if k == key {
        Some(h)
    } else {
        lookup_key(s, k)
    } by {
        if k == key {
            assert(is_first_key(t, key, j));
            lemma_first_key_unique(t, key, j);
        } else {
            if let Some(i) = key_index(s, k) {
                assert(is_first_key(s, k, i));
                assert(is_first_key(t, k, i));
                lemma_first_key_unique(t, k, i);
            } else {
                if exists|i: int| is_first_key(t, k, i) {
                    let i = choose|i: int| is_first_key(t, k, i);
                    assert(s[i].0 == k);
                    lemma_first_key_exists(s, k, i);
                }
            }
        }
    }
}

proof fn lemma_lookup_key_push(s: Seq<(Option<ContextId>, DynHandler)>, key: Option<ContextId>, h: DynHandler)
    requires
        key_index(s, key) is None,
    ensures
        forall|k: Option<ContextId>| #[trigger] lookup_key(s.push((key, h)), k) == if k == key {
            Some(h)
        } else {
            lookup_key(s, k)
        },
{
    let t = s.push((key, h));
    assert forall|k: Option<ContextId>| #[trigger] lookup_key(t, k) == if k == key {
        Some(h)
    } else {
        lookup_key(s, k)
    } by {
        if k == key {
            assert forall|m: int| 0 <= m < s.len() implies #[trigger] t[m].0 != key by {
                if t[m].0 == key {
                    assert(s[m].0 == key);
                    lemma_first_key_exists(s, key, m);
                }
            }
            assert(is_first_key(t, key, s.len() as int));
            lemma_first_key_unique(t, key, s.len() as int);
        } else {
            if let Some(i) = key_index(s, k) {
                assert(is_first_key(s, k, i));
                assert(is_first_key(t, k, i));
                lemma_first_key_unique(t, k, i);
            } else {
                if exists|i: int| is_first_key(t, k, i) {
                    let i = choose|i: int| is_first_key(t, k, i);
                    assert(i < s.len());
                    assert(s[i].0 == k);
                    lemma_first_key_exists(s, k, i);
                }
            }
        }
    }
}

proof fn lemma_name_index_update(s: Seq<Subcommand>, i: int, e: Subcommand)
    requires
        0 <= i < s.len(),
        name_view(e.name) == name_view(s[i].name),
    ensures
        forall|n: Option<Seq<char>>| #[trigger] name_index(s.update(i, e), n) == name_index(s, n),
{
    let t = s.update(i, e);
    assert forall|n: Option<Seq<char>>| #[trigger] name_index(t, n) == name_index(s, n) by {
        assert forall|m: int| 0 <= m < s.len() implies name_view(#[trigger] t[m].name) == name_view(s[m].name) by {}
        if let Some(m) = name_index(s, n) {
            assert(is_first_name(s, n, m));
            assert(is_first_name(t, n, m));
            lemma_first_name_unique(t, n, m);
        } else if exists|m: int| is_first_name(t, n, m) {
            let m = choose|m: int| is_first_name(t, n, m);
            assert(name_view(s[m].name) == n);
            lemma_first_name_exists(s, n, m);
        }
    }
}

proof fn lemma_name_index_push(s: Seq<Subcommand>, e: Subcommand)
    requires
        name_index(s, name_view(e.name)) is None,
    ensures
        forall|n: Option<Seq<char>>| #[trigger] name_index(s.push(e), n) == if n == name_view(e.name) {
            Some(s.len() as int)
        } else {
            name_index(s, n)
        },
{
    let t = s.push(e);
    assert forall|n: Option<Seq<char>>| #[trigger] name_index(t, n) == if n == name_view(e.name) {
        Some(s.len() as int)
    } else {
        name_index(s, n)
    } by {
        if n == name_view(e.name) {
            assert forall|m: int| 0 <= m < s.len() implies name_view(#[trigger] t[m].name) != n by {
                if name_view(t[m].name) == n {
                    assert(name_view(s[m].name) == n);
                    lemma_first_name_exists(s, n, m);
                }
            }
            assert(is_first_name(t, n, s.len() as int));
            lemma_first_name_unique(t, n, s.len() as int);
        } else if let Some(m) = name_index(s, n) {
            assert(is_first_name(s, n, m));
            assert(is_first_name(t, n, m));
            lemma_first_name_unique(t, n, m);
        } else if exists|m: int| is_first_name(t, n, m) {
            let m = choose|m: int| is_first_name(t, n, m);
            assert(m < s.len());
            assert(name_view(s[m].name) == n);
            lemma_first_name_exists(s, n, m);
        }
    }
}

/// The order of names: the root entry's (none) first, then the names in
/// the order of strings.
pub open spec fn name_lt(a: Option<Seq<char>>, b: Option<Seq<char>>) -> bool {
    match (a, b) {
        (None, Some(_)) => true,
        (Some(x), Some(y)) => crate::util::seq_lt(x, y),
        _ => false,
    }
}

pub proof fn lemma_name_lt_total(a: Option<Seq<char>>, b: Option<Seq<char>>)
    ensures
        a != b ==> (name_lt(a, b) || name_lt(b, a)),
        !(name_lt(a, b) && name_lt(b, a)),
{
    if let (Some(x), Some(y)) = (a, b) {
        crate::util::lemma_seq_lt_total(x, y);
    }
}

pub proof fn lemma_name_lt_trans(a: Option<Seq<char>>, b: Option<Seq<char>>, c: Option<Seq<char>>)
    requires
        name_lt(a, b),
        name_lt(b, c),
    ensures
        name_lt(a, c),
{
    if let (Some(x), Some(y), Some(z)) = (a, b, c) {
        crate::util::lemma_seq_lt_trans(x, y, z);
    }
}

/// The entries are in the order of their names, each name once.
pub open spec fn names_sorted(s: Seq<Subcommand>) -> bool {
    forall|i: int, j: int| 0 <= i < j < s.len() ==> name_lt(name_view(#[trigger] s[i].name), name_view(#[trigger] s[j].name))
}

/// Inserting an entry under a new name at position `pos` leaves the other
/// names where they were, shifted past it.
proof fn lemma_name_index_insert(s: Seq<Subcommand>, pos: int, e: Subcommand)
    requires
        0 <= pos <= s.len(),
        name_index(s, name_view(e.name)) is None,
    ensures
        forall|n: Option<Seq<char>>| #[trigger] name_index(s.insert(pos, e), n) == if n == name_view(e.name) {
            Some(pos)
        } else {
            match name_index(s, n) {
                Some(m) => Some(if m < pos {
                    m
                } else {
                    m + 1
                }),
                None => None,
            }
        },
{
    let t = s.insert(pos, e);
    assert forall|n: Option<Seq<char>>| #[trigger] name_index(t, n) == if n == name_view(e.name) {
        Some(pos)
    } else {
        match name_index(s, n) {
            Some(m) => Some(if m < pos {
                m
            } else {
                m + 1
            }),
            None => None,
        }
    } by {
        if n == name_view(e.name) {
            assert forall|m: int| 0 <= m < pos implies name_view(#[trigger] t[m].name) != n by {
                assert(t[m] == s[m]);
                if name_view(s[m].name) == n {
                    lemma_first_name_exists(s, n, m);
                }
            }
            assert(is_first_name(t, n, pos));
            lemma_first_name_unique(t, n, pos);
        } else if let Some(m) = name_index(s, n) {
            assert(is_first_name(s, n, m));
            let m2 = if m < pos {
                m
            } else {
                m + 1
            };
            assert(t[m2] == s[m]);
            assert forall|q: int| 0 <= q < m2 implies name_view(#[trigger] t[q].name) != n by {
                if q < pos {
                    assert(t[q] == s[q]);
                } else if q > pos {
                    assert(t[q] == s[q - 1]);
                }
            }
            assert(is_first_name(t, n, m2));
            lemma_first_name_unique(t, n, m2);
        } else if exists|m: int| is_first_name(t, n, m) {
            let m = choose|m: int| is_first_name(t, n, m);
            if m < pos {
                assert(t[m] == s[m]);
                lemma_first_name_exists(s, n, m);
            } else if m > pos {
                assert(t[m] == s[m - 1]);
                lemma_first_name_exists(s, n, m - 1);
            }
        }
    }
}

/// An entry under a new name inserted where its name belongs keeps the
/// entries in order.
proof fn lemma_sorted_insert(s: Seq<Subcommand>, pos: int, e: Subcommand)
    requires
        names_sorted(s),
        0 <= pos <= s.len(),
        name_index(s, name_view(e.name)) is None,
        forall|k: int| 0 <= k < pos ==> !name_lt(name_view(e.name), name_view(#[trigger] s[k].name)),
        pos < s.len() ==> name_lt(name_view(e.name), name_view(s[pos].name)),
    ensures
        names_sorted(s.insert(pos, e)),
{
    let t = s.insert(pos, e);
    let nv = name_view(e.name);
    assert forall|i: int, j: int| 0 <= i < j < t.len() implies name_lt(name_view(#[trigger] t[i].name), name_view(
        #[trigger] t[j].name,
    )) by {
        if i == pos {
            assert(t[j] == s[j - 1]);
            if j - 1 > pos {
                assert(name_lt(name_view(s[pos].name), name_view(s[j - 1].name)));
                lemma_name_lt_trans(nv, name_view(s[pos].name), name_view(s[j - 1].name));
            }
        } else if j == pos {
            assert(t[i] == s[i]);
            if name_view(s[i].name) == nv {
                lemma_first_name_exists(s, nv, i);
            }
            lemma_name_lt_total(nv, name_view(s[i].name));
        } else {
            let i0 = if i < pos {
                i
            } else {
                i - 1
            };
            let j0 = if j < pos {
                j
            } else {
                j - 1
            };
            assert(t[i] == s[i0] && t[j] == s[j0]);
            assert(name_lt(name_view(s[i0].name), name_view(s[j0].name)));
        }
    }
}

/// `key` is one of the context keys that a set of contexts stands for:
/// `None` for "any context", else one `Some` per context of the set.
pub open spec fn covers(set: Option<Seq<ContextId>>, key: Option<ContextId>) -> bool {
    match set {
        None => key is None,
        Some(cs) => key matches Some(c) && cs.contains(c),
    }
}

pub open spec fn ctx_set_view(set: Option<Vec<ContextId>>) -> Option<Seq<ContextId>> {
    match set {
        Some(v) => Some(v@),
        None => None,
    }
}

fn insert_key(hs: &mut Vec<(Option<ContextId>, DynHandler)>, key: Option<ContextId>, h: DynHandler)
    ensures
        forall|k: Option<ContextId>| #[trigger] lookup_key(final(hs)@, k) == if k == key {
            Some(h)
        } else {
            lookup_key(old(hs)@, k)
        },
{
    match find_key(hs, key) {
        Some(j) => {
            proof {
                lemma_lookup_key_set(hs@, j as int, key, h);
            }
            hs.set(j, (key, h));
        },
        None => {
            proof {
                lemma_lookup_key_push(hs@, key, h);
            }
            hs.push((key, h));
        },
    }
}

pub(crate) fn find_key(s: &Vec<(Option<ContextId>, DynHandler)>, key: Option<ContextId>) -> (r: Option<usize>)
    ensures
        match r {
            Some(j) => is_first_key(s@, key, j as int),
            None => key_index(s@, key) is None,
        },
{
    let mut j: usize = 0;
    while j < s.len()
        invariant
            j <= s@.len(),
            forall|k: int| 0 <= k < j ==> #[trigger] s@[k].0 != key,
        decreases s@.len() - j,
    {
        if s[j].0 == key {
            return Some(j);
        }
        j = j + 1;
    }
    proof {
        if exists|j: int| is_first_key(s@, key, j) {
            let c = choose|j: int| is_first_key(s@, key, j);
            assert(s@[c].0 != key);
        }
    }
    None
}

} // verus!

verus! {
fn clone_dyn(h: &DynHandler) -> (r: DynHandler)
    ensures r == *h,
{
    match h {
        DynHandler::WithoutCli(n) => DynHandler::WithoutCli(share(n)),
        DynHandler::WithCli(n) => DynHandler::WithCli(share(n)),
    }
}
}

verus! {

/// The index of the handler of an entry that serves `ctx`: the one
/// registered for `ctx`, else the one registered for any context.
pub open spec fn entry_select(e: Subcommand, ctx: ContextId) -> Option<int> {
    match key_index(e.handlers@, Some(ctx)) {
        Some(j) => Some(j),
        None => key_index(e.handlers@, None),
    }
}

/// The handler of entry `e` that serves `ctx`, as `entry_select` picks it.
pub(crate) fn select_in_entry(e: &Subcommand, ctx: ContextId) -> (r: Option<usize>)
    ensures
        match entry_select(*e, ctx) {
            Some(j) => r matches Some(x) && x == j && 0 <= j < e.handlers@.len(),
            None => r is None,
        },
{
    match find_key(&e.handlers, Some(ctx)) {
        Some(j) => {
            proof {
                lemma_first_key_unique(e.handlers@, Some(ctx), j as int);
            }
            Some(j)
        },
        None => match find_key(&e.handlers, None) {
            Some(j) => {
                proof {
                    lemma_first_key_unique(e.handlers@, None, j as int);
                }
                Some(j)
            },
            None => None,
        },
    }
}

impl ParentHandler {
    /// Where a method leads: the leaf reached, and how many components of
    /// the method were used on the way. With `cli`, only handlers with
    /// command-line bindings are followed.
    pub open spec fn spec_route(self, ctx: ContextId, m: Seq<Seq<char>>, cli: bool) -> Option<(LeafHandler, nat)>
        decreases self,
    {
        let cmd = if m.len() > 0 {
            Some(m[0])
        } else {
            None
        };
        let used: nat = if m.len() > 0 {
            1
        } else {
            0
        };
        match self.subcommands.select(ctx, cmd) {
            Some((i, j)) => {
                if 0 <= i < self.subcommands.0@.len() && 0 <= j < self.subcommands.0@[i].handlers@.len() {
                    let h = self.subcommands.0@[i].handlers@[j].1;
                    if cli && !h.has_cli() {
                        None
                    } else {
                        match h.node() {
                            Node::Leaf(l) => Some((l, used)),
                            Node::Parent(c) => match c.spec_route(ctx, m.skip(used as int), cli) {
                                Some((l, k)) => Some((l, k + used)),
                                None => None,
                            },
                        }
                    }
                } else {
                    None
                }
            },
            None => None,
        }
    }

    /// The parameter types of the parents, from this one down, that a
    /// method routed as [`ParentHandler::spec_route`] routes it passes
    /// through.
    pub open spec fn spec_inherited(self, ctx: ContextId, m: Seq<Seq<char>>, cli: bool) -> Seq<ParamsId>
        decreases self,
    {
        let cmd = if m.len() > 0 {
            Some(m[0])
        } else {
            None
        };
        let used: nat = if m.len() > 0 {
            1
        } else {
            0
        };
        match self.subcommands.select(ctx, cmd) {
            Some((i, j)) => {
                if 0 <= i < self.subcommands.0@.len() && 0 <= j < self.subcommands.0@[i].handlers@.len() {
                    let h = self.subcommands.0@[i].handlers@[j].1;
                    match h.node() {
                        Node::Leaf(_) => seq![self.params],
                        Node::Parent(c) => seq![self.params] + c.spec_inherited(ctx, m.skip(used as int), cli),
                    }
                } else {
                    Seq::empty()
                }
            },
            None => Seq::empty(),
        }
    }

    pub proof fn lemma_route_len(self, ctx: ContextId, m: Seq<Seq<char>>, cli: bool)
        ensures
            self.spec_route(ctx, m, cli) matches Some((_, k)) ==> k <= m.len(),
        decreases self,
    {
        let cmd = if m.len() > 0 {
            Some(m[0])
        } else {
            None
        };
        let used: nat = if m.len() > 0 {
            1
        } else {
            0
        };
        if let Some((i, j)) = self.subcommands.select(ctx, cmd) {
            if 0 <= i < self.subcommands.0@.len() && 0 <= j < self.subcommands.0@[i].handlers@.len() {
                let h = self.subcommands.0@[i].handlers@[j].1;
                if let Node::Parent(c) = h.node() {
                    c.lemma_route_len(ctx, m.skip(used as int), cli);
                }
            }
        }
    }

    /// A method that leads to a leaf along handlers with command-line
    /// bindings leads to the same leaf when all handlers may be followed.
    pub proof fn lemma_cli_route_is_route(self, ctx: ContextId, m: Seq<Seq<char>>)
        ensures
            self.spec_route(ctx, m, true) is Some ==> self.spec_route(ctx, m, false) == self.spec_route(ctx, m, true),
        decreases self,
    {
        let cmd = if m.len() > 0 {
            Some(m[0])
        } else {
            None
        };
        let used: nat = if m.len() > 0 {
            1
        } else {
            0
        };
        if let Some((i, j)) = self.subcommands.select(ctx, cmd) {
            if 0 <= i < self.subcommands.0@.len() && 0 <= j < self.subcommands.0@[i].handlers@.len() {
                let h = self.subcommands.0@[i].handlers@[j].1;
                if let Node::Parent(c) = h.node() {
                    c.lemma_cli_route_is_route(ctx, m.skip(used as int));
                }
            }
        }
    }

    /// Finds the leaf that serves `method` in the context `ctx`, taking one
    /// component of the method at each level (none when it is used up: then
    /// the root handler of the level serves).
    pub fn route(
        &self,
        ctx: ContextId,
        parent_method: Vec<String>,
        method: Vec<String>,
        params: Value,
        inherited: Vec<ParamsId>,
        cli: bool,
    ) -> (r: Result<Invocation, RpcError>)
        ensures
            match self.spec_route(ctx, names(method@), cli) {
                Some((l, k)) => r matches Ok(inv) && inv.handler == l.id && inv.context == ctx && names(
                    inv.parent_method@,
                ) == names(parent_method@) + names(method@).take(k as int) && names(inv.method@) == names(
                    method@,
                ).skip(k as int) && inv.params == params && inv.blocking == l.blocking && inv.display
                    == l.display && inv.remote == (l.remote == Some(ctx)) && inv.inherited@ == inherited@
                    + self.spec_inherited(ctx, names(method@), cli),
                None => r matches Err(e) && crate::error::is_method_not_found(e),
            },
        decreases self,
    {
        let ghost m0 = names(method@);
        let ghost pm0 = names(parent_method@);
        let mut parent_method = parent_method;
        let mut method = method;
        let cmd: Option<String> = if method.len() > 0 {
            Some(method.remove(0))
        } else {
            None
        };
        let found = match &cmd {
            Some(c) => self.subcommands.get(ctx, Some(c.as_str())),
            None => self.subcommands.get(ctx, None),
        };
        let ghost used: nat = if m0.len() > 0 {
            1
        } else {
            0
        };
        proof {
            self.subcommands.lemma_select_bounds(ctx, if m0.len() > 0 { Some(m0[0]) } else { None });
            if m0.len() > 0 {
                assert(names(method@) =~= m0.skip(1));
            } else {
                assert(names(method@) =~= m0.skip(0));
            }
        }
        if let Some(c) = cmd {
            parent_method.push(c);
        }
        let ghost inh0 = inherited@;
        let mut inherited = inherited;
        inherited.push(self.params);
        proof {
            assert(names(parent_method@) =~= pm0 + m0.take(used as int));
        }
        match found {
            None => Err(method_not_found()),
            Some((_, h)) => {
                if cli && !h.is_with_cli() {
                    return Err(method_not_found());
                }
                match h.node_ref() {
                    Node::Leaf(l) => Ok(
                        Invocation {
                            handler: l.id,
                            context: ctx,
                            parent_method,
                            method,
                            params,
                            blocking: l.blocking,
                            display: l.display,
                            remote: match l.remote {
                                Some(c) => c == ctx,
                                None => false,
                            },
                            inherited,
                        },
                    ),
                    Node::Parent(p) => {
                        let r = p.route(ctx, parent_method, method, params, inherited, cli);
                        proof {
                            assert(inh0.push(self.params) + p.spec_inherited(ctx, m0.skip(used as int), cli) =~= inh0
                                + (seq![self.params] + p.spec_inherited(ctx, m0.skip(used as int), cli)));
                            p.lemma_route_len(ctx, m0.skip(used as int), cli);
                            if let Some((l, k)) = p.spec_route(ctx, m0.skip(used as int), cli) {
                                assert(m0.take(used as int) + m0.skip(used as int).take(k as int) =~= m0.take(
                                    (k + used) as int,
                                ));
                                assert(m0.skip(used as int).skip(k as int) =~= m0.skip((k + used) as int));
                            }
                        }
                        r
                    },
                }
            },
        }
    }
}

} // verus!

verus! {

/// `i` is the index of the first '.' of `m`.
pub open spec fn is_first_dot(m: Seq<char>, i: int) -> bool {
    0 <= i < m.len() && m[i] == '.' && forall|k: int| 0 <= k < i ==> #[trigger] m[k] != '.'
}

/// A dotted method split at its first dot: the name before it and the rest
/// after it. An empty method has neither; a method without a dot is all
/// name.
pub open spec fn split_dot(m: Seq<char>) -> (Option<Seq<char>>, Option<Seq<char>>) {
    if m.len() == 0 {
        (None, None)
    } else if exists|i: int| is_first_dot(m, i) {
        let i = choose|i: int| is_first_dot(m, i);
        (Some(m.take(i)), Some(m.skip(i + 1)))
    } else {
        (Some(m), None)
    }
}

/// Every dot of `m` stands between two non-empty parts.
pub open spec fn dotted(m: Seq<char>) -> bool {
    forall|i: int| 0 <= i < m.len() && #[trigger] m[i] == '.' ==> 0 < i < m.len() - 1 && m[i - 1] != '.'
}

/// Past the first dot of a dotted method comes a non-empty dotted method,
/// and before it a non-empty part.
proof fn lemma_dotted_tail(m: Seq<char>, d: int)
    requires
        dotted(m),
        is_first_dot(m, d),
    ensures
        d > 0,
        m.skip(d + 1).len() > 0,
        dotted(m.skip(d + 1)),
{
    let t = m.skip(d + 1);
    assert(m[d] == '.');
    assert forall|i: int| 0 <= i < t.len() && #[trigger] t[i] == '.' implies 0 < i < t.len() - 1 && t[i - 1] != '.' by {
        assert(t[i] == m[d + 1 + i]);
        if i == 0 {
            assert(m[d + 1] == '.');
            assert(m[d + 1 - 1] == '.');
        } else {
            assert(t[i - 1] == m[d + i]);
        }
    }
}

/// Joining a part before a non-empty list puts a dot between them.
proof fn lemma_join_cons(a: Seq<char>, rest: Seq<Seq<char>>)
    requires
        rest.len() > 0,
    ensures
        crate::cli::join_dots(seq![a] + rest) == a + "."@ + crate::cli::join_dots(rest),
    decreases rest.len(),
{
    let s = seq![a] + rest;
    if rest.len() == 1 {
        assert(s.drop_last() =~= seq![a]);
        assert(s.last() == rest[0]);
        assert(crate::cli::join_dots(seq![a]) == a);
        assert(crate::cli::join_dots(rest) == rest[0]);
        assert(crate::cli::join_dots(s) == crate::cli::join_dots(s.drop_last()) + "."@ + s.last());
    } else {
        lemma_join_cons(a, rest.drop_last());
        assert(s.drop_last() =~= seq![a] + rest.drop_last());
        assert(s.last() == rest.last());
        assert(crate::cli::join_dots(s) == crate::cli::join_dots(s.drop_last()) + "."@ + s.last());
        assert(crate::cli::join_dots(rest) == crate::cli::join_dots(rest.drop_last()) + "."@ + rest.last());
        assert(a + "."@ + crate::cli::join_dots(rest.drop_last()) + "."@ + rest.last() =~= a + "."@ + (
        crate::cli::join_dots(rest.drop_last()) + "."@ + rest.last()));
    }
}

fn split_at_dot(m: &str) -> (r: (Option<&str>, Option<&str>))
    ensures
        split_dot(m@) == (str_name_view(r.0), str_name_view(r.1)),
{
    let n = m.unicode_len();
    if n == 0 {
        return (None, None);
    }
    let mut i: usize = 0;
    while i < n
        invariant
            i <= n,
            n == m@.len(),
            forall|k: int| 0 <= k < i ==> #[trigger] m@[k] != '.',
        decreases n - i,
    {
        if m.get_char(i) == '.' {
            proof {
                assert(is_first_dot(m@, i as int));
                let c = choose|c: int| is_first_dot(m@, c);
                if c < i {
                    assert(m@[c] != '.');
                } else if i < c {
                    assert(m@[i as int] != '.');
                }
            }
            return (Some(m.substring_char(0, i)), Some(m.substring_char(i + 1, n)));
        }
        i = i + 1;
    }
    proof {
        if exists|c: int| is_first_dot(m@, c) {
            let c = choose|c: int| is_first_dot(m@, c);
            assert(m@[c] != '.');
        }
    }
    (Some(m), None)
}

impl ParentHandler {
    /// Of a method whose dot-separated parts are all non-empty (or the empty
    /// method), the components that `method_from_dots` finds, joined with
    /// dots, give back the method.
    pub proof fn lemma_from_dots_join(self, m: Seq<char>, ctx: ContextId)
        requires
            dotted(m),
            self.spec_from_dots(m, ctx) is Some,
        ensures
            crate::cli::join_dots(self.spec_from_dots(m, ctx).unwrap()) == m,
        decreases self,
    {
        let (head, tail) = split_dot(m);
        if let Some((i, j)) = self.subcommands.select(ctx, head) {
            let h = self.subcommands.0@[i].handlers@[j].1;
            if m.len() == 0 {
                assert(crate::cli::join_dots(Seq::<Seq<char>>::empty()) == m);
            } else if exists|d: int| is_first_dot(m, d) {
                let d = choose|d: int| is_first_dot(m, d);
                let a = m.take(d);
                let t = m.skip(d + 1);
                assert(head == Some(a) && tail == Some(t));
                lemma_dotted_tail(m, d);
                if let Node::Parent(c) = h.node() {
                    c.lemma_from_dots_join(t, ctx);
                    let rest = c.spec_from_dots(t, ctx).unwrap();
                    let (h2, _) = split_dot(t);
                    assert(h2 is Some);
                    assert(rest.len() > 0);
                    lemma_join_cons(a, rest);
                    assert(a + "."@ + t =~= m) by {
                        reveal_strlit(".");
                    }
                } else {
                    assert(t.len() > 0);
                }
            } else {
                assert(crate::cli::join_dots(seq![m]) == m);
            }
        }
    }

    /// The method components that a dotted method names, as `method_from_dots`
    /// finds them.
    pub open spec fn spec_from_dots(self, m: Seq<char>, ctx: ContextId) -> Option<Seq<Seq<char>>>
        decreases self,
    {
        let (head, tail) = split_dot(m);
        match self.subcommands.select(ctx, head) {
            Some((i, j)) => {
                if 0 <= i < self.subcommands.0@.len() && 0 <= j < self.subcommands.0@[i].handlers@.len() {
                    let h = self.subcommands.0@[i].handlers@[j].1;
                    let prefix = match head {
                        Some(n) => seq![n],
                        None => Seq::<Seq<char>>::empty(),
                    };
                    match tail {
                        None => Some(prefix),
                        Some(t) => match h.node() {
                            Node::Leaf(_) => if t.len() == 0 {
                                Some(prefix)
                            } else {
                                None
                            },
                            Node::Parent(c) => match c.spec_from_dots(t, ctx) {
                                Some(rest) => Some(prefix + rest),
                                None => None,
                            },
                        },
                    }
                } else {
                    None
                }
            },
            None => None,
        }
    }

    /// Turns a dotted method into its components, following the handlers
    /// that serve `ctx`; `None` when no handler serves it. An empty method
    /// names the root handler.
    pub fn method_from_dots(&self, method: &str, ctx: ContextId) -> (r: Option<Vec<String>>)
        ensures
            match self.spec_from_dots(method@, ctx) {
                Some(v) => r matches Some(x) && names(x@) == v,
                None => r is None,
            },
        decreases self,
    {
        let (head, tail) = split_at_dot(method);
        let found = self.subcommands.get(ctx, head);
        proof {
            self.subcommands.lemma_select_bounds(ctx, str_name_view(head));
        }
        let (name, h) = match found {
            Some(x) => x,
            None => {
                return None;
            },
        };
        let mut res: Vec<String> = Vec::new();
        if let Some(n) = name {
            res.push(n.clone());
        }
        proof {
            assert(names(res@) =~= match str_name_view(head) {
                Some(n) => seq![n],
                None => Seq::<Seq<char>>::empty(),
            });
        }
        match tail {
            None => Some(res),
            Some(t) => match h.node_ref() {
                Node::Leaf(_) => {
                    if t.unicode_len() == 0 {
                        Some(res)
                    } else {
                        None
                    }
                },
                Node::Parent(c) => match c.method_from_dots(t, ctx) {
                    Some(rest) => {
                        let ghost r0 = res@;
                        let mut rest = rest;
                        res.append(&mut rest);
                        proof {
                            assert(names(res@) =~= names(r0) + c.spec_from_dots(t@, ctx).unwrap());
                        }
                        Some(res)
                    },
                    None => None,
                },
            },
        }
    }
}

} // verus!

verus! {

/// The node that the names `ns` lead to from `p` in context `ctx`: each
/// name picks the handler registered under it for `ctx` (else for any
/// context), and every name but the last must pick a parent.
pub open spec fn reaches(p: ParentHandler, ctx: ContextId, ns: Seq<Seq<char>>) -> Option<Node>
    decreases ns.len(),
{
    if ns.len() == 0 {
        None
    } else {
        match p.subcommands.spec_get(ctx, Some(ns[0])) {
            None => None,
            Some(h) => if ns.len() == 1 {
                Some(h.node())
            } else {
                match h.node() {
                    Node::Parent(c) => reaches(c, ctx, ns.drop_first()),
                    Node::Leaf(_) => None,
                }
            },
        }
    }
}

/// Each name is non-empty and holds no dot, so that joining them with dots
/// can be undone.
pub open spec fn plain_names(ns: Seq<Seq<char>>) -> bool {
    forall|k: int| 0 <= k < ns.len() ==> (#[trigger] ns[k]).len() > 0 && forall|q: int|
        0 <= q < ns[k].len() ==> ns[k][q] != '.'
}

/// A name without a dot, followed by a dot and the rest, is split at that
/// dot.
proof fn lemma_split_joined(a: Seq<char>, t: Seq<char>)
    requires
        a.len() > 0,
        forall|q: int| 0 <= q < a.len() ==> a[q] != '.',
    ensures
        split_dot(a + "."@ + t) == (Some(a), Some(t)),
{
    reveal_strlit(".");
    let m = a + "."@ + t;
    let d = a.len() as int;
    assert(m[d] == '.');
    assert forall|k: int| 0 <= k < d implies #[trigger] m[k] != '.' by {
        assert(m[k] == a[k]);
    }
    assert(is_first_dot(m, d));
    let c = choose|c: int| is_first_dot(m, c);
    if c < d {
        assert(m[c] == a[c]);
    } else if c > d {
        assert(m[d] != '.');
    }
    assert(m.take(d) =~= a);
    assert(m.skip(d + 1) =~= t);
}

/// A name without a dot is not split.
proof fn lemma_split_plain(a: Seq<char>)
    requires
        a.len() > 0,
        forall|q: int| 0 <= q < a.len() ==> a[q] != '.',
    ensures
        split_dot(a) == (Some(a), None::<Seq<char>>),
{
    if exists|c: int| is_first_dot(a, c) {
        let c = choose|c: int| is_first_dot(a, c);
        assert(a[c] == '.');
    }
}

impl ParentHandler {
    /// Every method that leads through the tree is found, at any depth:
    /// when the names `ns` lead from this handler, parent after parent, to
    /// a handler that serves `ctx`, the method they make joined with dots
    /// is found, and its components are those names.
    pub proof fn lemma_from_dots_finds(self, ns: Seq<Seq<char>>, ctx: ContextId)
        requires
            reaches(self, ctx, ns) is Some,
            plain_names(ns),
        ensures
            self.spec_from_dots(crate::cli::join_dots(ns), ctx) == Some(ns),
        decreases ns.len(),
    {
        let a = ns[0];
        assert(ns[0].len() > 0);
        self.subcommands.lemma_select_bounds(ctx, Some(a));
        let (i, j) = self.subcommands.select(ctx, Some(a))->Some_0;
        let h = self.subcommands.0@[i].handlers@[j].1;
        if ns.len() == 1 {
            lemma_split_plain(a);
            assert(crate::cli::join_dots(ns) == a);
            assert(seq![a] =~= ns);
        } else {
            let rest = ns.drop_first();
            assert(seq![a] + rest =~= ns);
            lemma_join_cons(a, rest);
            lemma_split_joined(a, crate::cli::join_dots(rest));
            let c = h.node()->Parent_0;
            assert forall|k: int| 0 <= k < rest.len() implies (#[trigger] rest[k]).len() > 0 && forall|q: int|
                0 <= q < rest[k].len() ==> rest[k][q] != '.' by {
                assert(rest[k] == ns[k + 1]);
            }
            c.lemma_from_dots_finds(rest, ctx);
        }
    }

    /// The metadata of a method that leads to a leaf gives the leaf's own
    /// value of a key first: each level looks up the component after those
    /// already used, so the levels above cannot hide what the leaf sets.
    pub proof fn lemma_metadata_leaf_first(
        self,
        ns: Seq<Seq<char>>,
        ctx: ContextId,
        l: LeafHandler,
        key: Seq<char>,
        v: Value,
    )
        requires
            reaches(self, ctx, ns) == Some(Node::Leaf(l)),
            crate::assoc::assoc_get(meta_view(l.metadata@), key) == Some(v),
        ensures
            self.spec_metadata(ns, ctx, key) == Some(v),
        decreases ns.len(),
    {
        self.subcommands.lemma_select_bounds(ctx, Some(ns[0]));
        if ns.len() > 1 {
            let (i, j) = self.subcommands.select(ctx, Some(ns[0]))->Some_0;
            let c = self.subcommands.0@[i].handlers@[j].1.node()->Parent_0;
            assert(ns.skip(1) =~= ns.drop_first());
            c.lemma_metadata_leaf_first(ns.drop_first(), ctx, l, key, v);
        }
    }

    /// Only registered handlers are found: components found for a dotted
    /// method lead from this handler, parent after parent, to a handler
    /// that serves `ctx`.
    pub proof fn lemma_from_dots_sound(self, m: Seq<char>, ctx: ContextId)
        requires
            self.spec_from_dots(m, ctx) is Some,
            self.spec_from_dots(m, ctx)->Some_0.len() > 0,
        ensures
            reaches(self, ctx, self.spec_from_dots(m, ctx)->Some_0) is Some,
        decreases self,
    {
        let (head, tail) = split_dot(m);
        let ns = self.spec_from_dots(m, ctx)->Some_0;
        self.subcommands.lemma_select_bounds(ctx, head);
        let (i, j) = self.subcommands.select(ctx, head)->Some_0;
        let h = self.subcommands.0@[i].handlers@[j].1;
        assert(head is Some);
        assert(ns[0] == head->Some_0);
        if ns.len() > 1 {
            let t = tail->Some_0;
            let c = h.node()->Parent_0;
            let rest = c.spec_from_dots(t, ctx)->Some_0;
            assert(ns.drop_first() =~= rest);
            c.lemma_from_dots_sound(t, ctx);
        }
    }

    /// The own metadata value of `key` at depth `d` along `ns`: this
    /// handler's at depth 0, else that of the parent the first `d` names
    /// lead to.
    pub open spec fn level_meta(self, ctx: ContextId, ns: Seq<Seq<char>>, d: int, key: Seq<char>) -> Option<Value> {
        if d == 0 {
            crate::assoc::assoc_get(meta_view(self.metadata@), key)
        } else {
            match reaches(self, ctx, ns.take(d)) {
                Some(Node::Parent(c)) => crate::assoc::assoc_get(meta_view(c.metadata@), key),
                _ => None,
            }
        }
    }

    /// The metadata of a method that leads to a leaf which leaves a key
    /// unset is the value of the deepest level above it that sets the key,
    /// and none where no level does.
    pub proof fn lemma_metadata_nearest(self, ns: Seq<Seq<char>>, ctx: ContextId, l: LeafHandler, key: Seq<char>, d: int)
        requires
            reaches(self, ctx, ns) == Some(Node::Leaf(l)),
            crate::assoc::assoc_get(meta_view(l.metadata@), key) is None,
            -1 <= d < ns.len(),
            d >= 0 ==> self.level_meta(ctx, ns, d, key) is Some,
            forall|k: int| d < k < ns.len() ==> (#[trigger] self.level_meta(ctx, ns, k, key)) is None,
        ensures
            self.spec_metadata(ns, ctx, key) == if d >= 0 {
                self.level_meta(ctx, ns, d, key)
            } else {
                None
            },
        decreases ns.len(),
    {
        self.subcommands.lemma_select_bounds(ctx, Some(ns[0]));
        let own = crate::assoc::assoc_get(meta_view(self.metadata@), key);
        assert(own == self.level_meta(ctx, ns, 0, key));
        if ns.len() > 1 {
            let (i, j) = self.subcommands.select(ctx, Some(ns[0]))->Some_0;
            let c = self.subcommands.0@[i].handlers@[j].1.node()->Parent_0;
            let rest = ns.drop_first();
            assert forall|k: int| 0 <= k < rest.len() implies #[trigger] c.level_meta(ctx, rest, k, key)
                == self.level_meta(ctx, ns, k + 1, key) by {
                assert(ns.take(k + 1)[0] == ns[0]);
                if k == 0 {
                    assert(ns.take(1) =~= seq![ns[0]]);
                } else {
                    assert(ns.take(k + 1).drop_first() =~= rest.take(k));
                }
            }
            let d2 = if d >= 1 {
                d - 1
            } else {
                -1
            };
            assert forall|k: int| d2 < k < rest.len() implies (#[trigger] c.level_meta(ctx, rest, k, key)) is None by {
                assert(self.level_meta(ctx, ns, k + 1, key) is None);
            }
            if d2 >= 0 {
                assert(c.level_meta(ctx, rest, d2, key) == self.level_meta(ctx, ns, d, key));
            }
            assert(ns.skip(1) =~= rest);
            c.lemma_metadata_nearest(rest, ctx, l, key, d2);
            if d < 0 {
                assert(self.level_meta(ctx, ns, 0, key) is None);
            }
        } else {
            if d < 0 {
                assert(self.level_meta(ctx, ns, 0, key) is None);
            }
        }
    }
}

} // verus!

verus! {

/// Metadata entries with their keys viewed.
pub open spec fn meta_view(s: Seq<(String, Value)>) -> Seq<(Seq<char>, Value)> {
    s.map_values(|e: (String, Value)| (e.0@, e.1))
}

/// Borrowed metadata entries with their keys viewed.
pub open spec fn meta_ref_view<'a>(s: Seq<(&'a String, &'a Value)>) -> Seq<(Seq<char>, Value)> {
    s.map_values(|e: (&'a String, &'a Value)| (e.0@, *e.1))
}

fn entries_refs<'a>(s: &'a Vec<(String, Value)>) -> (r: Vec<(&'a String, &'a Value)>)
    ensures
        meta_ref_view(r@) == meta_view(s@),
{
    let mut r: Vec<(&'a String, &'a Value)> = Vec::new();
    let mut i: usize = 0;
    while i < s.len()
        invariant
            i <= s@.len(),
            meta_ref_view(r@) =~= meta_view(s@).take(i as int),
        decreases s@.len() - i,
    {
        let e = &s[i];
        r.push((&e.0, &e.1));
        assert(meta_view(s@).take(i + 1) =~= meta_view(s@).take(i as int).push(meta_view(s@)[i as int]));
        i = i + 1;
    }
    assert(meta_view(s@).take(i as int) =~= meta_view(s@));
    r
}

fn ref_has_key<'a>(s: &Vec<(&'a String, &'a Value)>, upto: usize, key: &String) -> (r: bool)
    requires
        upto <= s@.len(),
    ensures
        r == crate::assoc::assoc_get(meta_ref_view(s@.take(upto as int)), key@) is Some,
{
    let ghost v = meta_ref_view(s@.take(upto as int));
    let mut i: usize = 0;
    while i < upto
        invariant
            i <= upto,
            upto <= s@.len(),
            v == meta_ref_view(s@.take(upto as int)),
            forall|q: int| 0 <= q < i ==> (#[trigger] s@[q]).0@ != key@,
        decreases upto - i,
    {
        if *s[i].0 == *key {
            proof {
                assert(v[i as int].0 == key@);
                crate::assoc::lemma_first_exists(v, key@, i as int);
            }
            return true;
        }
        i = i + 1;
    }
    proof {
        if exists|q: int| crate::assoc::is_first(v, key@, q) {
            let q = choose|q: int| crate::assoc::is_first(v, key@, q);
            assert(s@[q].0@ == key@);
        }
    }
    false
}

impl ParentHandler {
    /// The value of metadata `key` for a method: the one the handler reached
    /// gives, else the one this level gives.
    pub open spec fn spec_metadata(self, m: Seq<Seq<char>>, ctx: ContextId, key: Seq<char>) -> Option<Value>
        decreases self,
    {
        let cmd = if m.len() > 0 {
            Some(m[0])
        } else {
            None
        };
        let used: nat = if m.len() > 0 {
            1
        } else {
            0
        };
        let own = crate::assoc::assoc_get(meta_view(self.metadata@), key);
        match self.subcommands.select(ctx, cmd) {
            Some((i, j)) => {
                if 0 <= i < self.subcommands.0@.len() && 0 <= j < self.subcommands.0@[i].handlers@.len() {
                    let child = match self.subcommands.0@[i].handlers@[j].1.node() {
                        Node::Leaf(l) => crate::assoc::assoc_get(meta_view(l.metadata@), key),
                        Node::Parent(c) => c.spec_metadata(m.skip(used as int), ctx, key),
                    };
                    match child {
                        Some(v) => Some(v),
                        None => own,
                    }
                } else {
                    own
                }
            },
            None => own,
        }
    }

    /// The metadata that applies to `method`: each level's own, overridden
    /// by the levels below it.
    pub fn metadata(&self, method: &Vec<String>, ctx: ContextId) -> (r: Vec<(&String, &Value)>)
        ensures
            forall|key: Seq<char>| #[trigger] crate::assoc::assoc_get(meta_ref_view(r@), key) == self.spec_metadata(
                names(method@),
                ctx,
                key,
            ),
    {
        let r = self.metadata_from(method, 0, ctx);
        assert(names(method@).skip(0) =~= names(method@));
        r
    }

    fn metadata_from(&self, method: &Vec<String>, start: usize, ctx: ContextId) -> (r: Vec<(&String, &Value)>)
        requires
            start <= method@.len(),
        ensures
            forall|key: Seq<char>| #[trigger] crate::assoc::assoc_get(meta_ref_view(r@), key) == self.spec_metadata(
                names(method@).skip(start as int),
                ctx,
                key,
            ),
        decreases self,
    {
        let ghost m = names(method@).skip(start as int);
        let cmd = if start < method.len() {
            Some(method[start].as_str())
        } else {
            None
        };
        proof {
            assert(str_name_view(cmd) == if m.len() > 0 {
                Some(m[0])
            } else {
                None
            });
            self.subcommands.lemma_select_bounds(ctx, str_name_view(cmd));
        }
        let mut res = match self.subcommands.get(ctx, cmd) {
            Some((_, h)) => match h.node_ref() {
                Node::Leaf(l) => entries_refs(&l.metadata),
                Node::Parent(c) => {
                    let next = if start < method.len() {
                        start + 1
                    } else {
                        start
                    };
                    let r = c.metadata_from(method, next, ctx);
                    assert(names(method@).skip(next as int) =~= m.skip(if m.len() > 0 { 1int } else { 0 }));
                    r
                },
            },
            None => Vec::new(),
        };
        let ghost child = meta_ref_view(res@);
        proof {
            crate::assoc::lemma_assoc_empty(meta_view(self.metadata@).take(0));
        }
        let child_len = res.len();
        let mut i: usize = 0;
        while i < self.metadata.len()
            invariant
                i <= self.metadata@.len(),
                child_len <= res@.len(),
                meta_ref_view(res@.take(child_len as int)) == child,
                forall|key: Seq<char>| #[trigger] crate::assoc::assoc_get(meta_ref_view(res@), key) == match crate::assoc::assoc_get(
                    child,
                    key,
                ) {
                    Some(v) => Some(v),
                    None => crate::assoc::assoc_get(meta_view(self.metadata@).take(i as int), key),
                },
            decreases self.metadata@.len() - i,
        {
            let e = &self.metadata[i];
            let ghost pv = meta_view(self.metadata@);
            let ghost before = meta_ref_view(res@);
            let ghost res0 = res@;
            proof {
                assert(pv.take(i + 1) =~= pv.take(i as int).push(pv[i as int]));
                crate::assoc::lemma_assoc_push(pv.take(i as int), pv[i as int]);
            }
            if !ref_has_key(&res, child_len, &e.0) {
                res.push((&e.0, &e.1));
                proof {
                    assert(meta_ref_view(res@) =~= before.push((e.0@, e.1)));
                    crate::assoc::lemma_assoc_push(before, (e.0@, e.1));
                    assert(res@.take(child_len as int) =~= res0.take(child_len as int));
                }
            }
            i = i + 1;
        }
        assert(meta_view(self.metadata@).take(i as int) =~= meta_view(self.metadata@));
        res
    }
}

} // verus!

verus! {

/// Sets metadata `key` to `value`, keeping every other key.
#[verifier::loop_isolation(false)]
pub(crate) fn meta_insert(v: &mut Vec<(String, Value)>, key: String, value: Value)
    ensures
        forall|k: Seq<char>| #[trigger] crate::assoc::assoc_get(meta_view(final(v)@), k) == if k == key@ {
            Some(value)
        } else {
            crate::assoc::assoc_get(meta_view(old(v)@), k)
        },
{
    let ghost s0 = meta_view(v@);
    let mut i: usize = 0;
    while i < v.len()
        invariant
            i <= v@.len(),
            s0 == meta_view(v@),
            forall|q: int| 0 <= q < i ==> (#[trigger] s0[q]).0 != key@,
        decreases v@.len() - i,
    {
        if v[i].0 == key {
            proof {
                assert(crate::assoc::is_first(s0, s0[i as int].0, i as int));
                crate::assoc::lemma_assoc_update(s0, i as int, value);
            }
            let ghost kv = key@;
            v.set(i, (key, value));
            assert(meta_view(v@) =~= s0.update(i as int, (kv, value)));
            return;
        }
        i = i + 1;
    }
    proof {
        crate::assoc::lemma_assoc_push(s0, (key@, value));
        assert forall|k: Seq<char>| k == key@ implies #[trigger] crate::assoc::assoc_get(s0, k) is None by {
            if exists|m: int| crate::assoc::is_first(s0, k, m) {
                let m = choose|m: int| crate::assoc::is_first(s0, k, m);
                assert(s0[m].0 != key@);
            }
        }
    }
    let ghost kv = key@;
    v.push((key, value));
    assert(meta_view(v@) =~= s0.push((kv, value)));
}

/// The contexts a value of `Option<Vec<ContextId>>` stands for, as a
/// membership test: `None` stands for "any context".
pub open spec fn in_set(set: Option<Seq<ContextId>>, c: ContextId) -> bool {
    match set {
        None => true,
        Some(cs) => cs.contains(c),
    }
}

/// The intersection of two sets of contexts, `None` standing for "any".
pub fn intersect_type_ids(a: Option<Vec<ContextId>>, b: Option<Vec<ContextId>>) -> (r: Option<Vec<ContextId>>)
    ensures
        (r is None) == (a is None && b is None),
        forall|c: ContextId| #[trigger] in_set(ctx_set_view(r), c) == (in_set(ctx_set_view(a), c) && in_set(
            ctx_set_view(b),
            c,
        )),
{
    match (a, b) {
        (None, None) => None,
        (Some(a), None) => Some(a),
        (None, Some(b)) => Some(b),
        (Some(a), Some(b)) => {
            let mut r: Vec<ContextId> = Vec::new();
            let mut i: usize = 0;
            while i < a.len()
                invariant
                    i <= a@.len(),
                    forall|c: ContextId| #[trigger] r@.contains(c) == (a@.take(i as int).contains(c) && b@.contains(c)),
                decreases a@.len() - i,
            {
                let c = a[i];
                let mut found = false;
                let mut j: usize = 0;
                while j < b.len()
                    invariant
                        j <= b@.len(),
                        found == b@.take(j as int).contains(c),
                    decreases b@.len() - j,
                {
                    assert(b@.take(j + 1) =~= b@.take(j as int).push(b@[j as int]));
                    proof {
                        crate::assoc::lemma_contains_push(b@.take(j as int), b@[j as int], c);
                    }
                    if b[j] == c {
                        found = true;
                    }
                    j = j + 1;
                }
                assert(b@.take(j as int) =~= b@);
                let ghost r0 = r@;
                if found {
                    r.push(c);
                }
                assert(a@.take(i + 1) =~= a@.take(i as int).push(c));
                assert forall|x: ContextId| #[trigger] r@.contains(x) == (a@.take(i + 1).contains(x) && b@.contains(x)) by {
                    crate::assoc::lemma_contains_push(a@.take(i as int), c, x);
                    if found {
                        assert(r@ =~= r0.push(c));
                        crate::assoc::lemma_contains_push(r0, c, x);
                    }
                }
                i = i + 1;
            }
            assert(a@.take(i as int) =~= a@);
            Some(r)
        },
    }
}

} // verus!

verus! {

/// The types a handler works with: its parameters, those it takes from the
/// handlers above it, its result and its error.
pub trait HandlerTypes {
    type Params;
    type InheritedParams;
    type Ok;
    type Err;
}

/// Parameters that hold nothing.
pub struct Empty {}

/// Parameters that hold nothing.
pub struct NoParams {}

impl HandlerTypes for LeafHandler {
    type Params = Value;
    type InheritedParams = Value;
    type Ok = Value;
    type Err = RpcError;
}

impl HandlerTypes for ParentHandler {
    type Params = Value;
    type InheritedParams = Value;
    type Ok = Value;
    type Err = RpcError;
}

impl HandlerTypes for Node {
    type Params = Value;
    type InheritedParams = Value;
    type Ok = Value;
    type Err = RpcError;
}

} // verus!

mod adapters;
mod builders;
pub mod cli;

pub use adapters::{
    into_handlers, Adapter, CustomDisplay, CustomDisplayFn, HandlerExt, IntoHandlers, NoCli, NoDisplay, NoTS,
    OverrideParamsTS, OverrideReturnTS, RemoteCaller, WithAbout,
};
pub use cli::{CliArgs, CliCommand, CliError, CliErrorKind};
pub use builders::{from_fn, from_fn_async, from_fn_blocking};
