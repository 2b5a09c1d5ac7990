use vstd::prelude::*;

use crate::util::{lemma_seq_lt_total, lemma_seq_lt_trans, seq_lt, str_lt};

mod types;
mod bindings;
mod tag;

pub use bindings::{
    ChildrenTS, HandlerTS, HandlerTSBindings, ParamsTS, PassthroughChildrenTS, PassthroughParamsTS,
    PassthroughReturnTS, ReturnTS,
};

pub use tag::{spec_apply_meta, tag_view, SerdeTag};
pub use types::{
    struct_close, struct_open, variant_open, visit_array, visit_enum, visit_field, visit_map, LiteralTS, Never,
    StructInfo, Unknown, TS,
};

verus! {

/// Collects TypeScript type text, and the named type definitions that the
/// text refers to.
pub struct TSVisitor {
    pub definitions: Vec<(String, String)>,
    pub ts: String,
}

/// The definitions of a list of (name, definition) pairs, the first pair of
/// a name counting.
pub open spec fn def_index(s: Seq<(String, String)>, name: Seq<char>) -> Option<int> {
    if exists|i: int| is_first_def(s, name, i) {
        Some(choose|i: int| is_first_def(s, name, i))
    } else {
        None
    }
}

pub open spec fn is_first_def(s: Seq<(String, String)>, name: Seq<char>, i: int) -> bool {
    &&& 0 <= i < s.len()
    &&& s[i].0@ == name
    &&& forall|k: int| 0 <= k < i ==> (#[trigger] s[k].0)@ != name
}

/// The definition held under `name`.
pub open spec fn def_get(s: Seq<(String, String)>, name: Seq<char>) -> Option<Seq<char>> {
    match def_index(s, name) {
        Some(i) => Some(s[i].1@),
        None => None,
    }
}

/// The definitions as a map from name to definition.
pub open spec fn defs_map(s: Seq<(String, String)>) -> Map<Seq<char>, Seq<char>> {
    Map::new(|k: Seq<char>| def_get(s, k) is Some, |k: Seq<char>| def_get(s, k).unwrap())
}

/// Inserting each pair in turn into `m` finds no name already defined
/// otherwise, and no empty definition.
pub open spec fn can_load(m: Map<Seq<char>, Seq<char>>, entries: Seq<(Seq<char>, Seq<char>)>) -> bool
    decreases entries.len(),
{
    if entries.len() == 0 {
        true
    } else {
        let (k, v) = entries[0];
        &&& v.len() > 0
        &&& (m.contains_key(k) ==> m[k] == v)
        &&& can_load(m.insert(k, v), entries.drop_first())
    }
}

/// `m` with each pair inserted in turn.
pub open spec fn load(m: Map<Seq<char>, Seq<char>>, entries: Seq<(Seq<char>, Seq<char>)>) -> Map<
    Seq<char>,
    Seq<char>,
>
    decreases entries.len(),
{
    if entries.len() == 0 {
        m
    } else {
        load(m.insert(entries[0].0, entries[0].1), entries.drop_first())
    }
}

pub open spec fn def_pairs(s: Seq<(String, String)>) -> Seq<(Seq<char>, Seq<char>)> {
    s.map_values(|e: (String, String)| (e.0@, e.1@))
}

/// Two sets of definitions agree on every name that both define.
pub open spec fn compatible(a: Map<Seq<char>, Seq<char>>, b: Map<Seq<char>, Seq<char>>) -> bool {
    forall|k: Seq<char>| a.contains_key(k) && b.contains_key(k) ==> #[trigger] a[k] == #[trigger] b[k]
}

/// No definition is empty.
pub open spec fn nonempty_defs(m: Map<Seq<char>, Seq<char>>) -> bool {
    forall|k: Seq<char>| m.contains_key(k) ==> (#[trigger] m[k]).len() > 0
}

/// Each name is defined once, and no definition is empty.
pub open spec fn defs_wf(s: Seq<(String, String)>) -> bool {
    &&& forall|i: int, j: int| 0 <= i < j < s.len() ==> (#[trigger] s[i].0)@ != (#[trigger] s[j].0)@
    &&& forall|i: int| 0 <= i < s.len() ==> (#[trigger] s[i].1)@.len() > 0
}

impl TSVisitor {
    pub open spec fn defs(self) -> Map<Seq<char>, Seq<char>> {
        defs_map(self.definitions@)
    }

    /// Each name is defined once, and no definition is empty.
    pub open spec fn wf(self) -> bool {
        defs_wf(self.definitions@)
    }

    /// An empty visitor.
    pub fn new() -> (r: Self)
        ensures
            r.ts@ == Seq::<char>::empty(),
            r.definitions@.len() == 0,
            r.defs() == Map::<Seq<char>, Seq<char>>::empty(),
    {
        let r = TSVisitor { definitions: Vec::new(), ts: String::new() };
        assert(r.defs() =~= Map::<Seq<char>, Seq<char>>::empty()) by {
            assert forall|k: Seq<char>| !(#[trigger] def_index(r.definitions@, k) is Some) by {
                if exists|i: int| is_first_def(r.definitions@, k, i) {
                    let i = choose|i: int| is_first_def(r.definitions@, k, i);
                }
            }
        }
        r
    }

    /// Records the definition of `name`. A name defined twice must be
    /// defined the same way both times. The definitions are kept in the
    /// order of their names.
    #[verifier::loop_isolation(false)]
    pub fn insert_definition(&mut self, name: String, definition: String)
        requires
            definition@.len() > 0,
            old(self).defs().contains_key(name@) ==> old(self).defs()[name@] == definition@,
        ensures
            final(self).defs() == old(self).defs().insert(name@, definition@),
            forall|k: Seq<char>| #[trigger] old(self).defs().contains_key(k) ==> final(self).defs().contains_key(k)
                && final(self).defs()[k] == old(self).defs()[k],
            final(self).ts == old(self).ts,
            old(self).wf() ==> final(self).wf(),
            defs_sorted(old(self).definitions@) ==> defs_sorted(final(self).definitions@),
    {
        let ghost s0 = self.definitions@;
        let ghost nv = name@;
        let ghost dv = definition@;
        let mut i: usize = 0;
        while i < self.definitions.len()
            invariant
                i <= self.definitions@.len(),
                self.definitions@ == s0,
                nv == name@,
                defs_map(s0).contains_key(nv) ==> defs_map(s0)[nv] == dv,
                forall|k: int| 0 <= k < i ==> (#[trigger] s0[k].0)@ != nv,
            decreases self.definitions@.len() - i,
        {
            if self.definitions[i].0 == name {
                proof {
                    assert(is_first_def(s0, nv, i as int));
                    lemma_first_def_unique(s0, nv, i as int);
                    assert(defs_map(s0).contains_key(nv));
                    assert(defs_map(s0) =~= defs_map(s0).insert(nv, dv));
                }
                // the definition already held is the same one
                return;
            }
            i = i + 1;
        }
        proof {
            if exists|j: int| is_first_def(s0, nv, j) {
                let j = choose|j: int| is_first_def(s0, nv, j);
                assert(s0[j].0@ != nv);
            }
        }
        let pos = self.def_position(name.as_str());
        let e = (name, definition);
        proof {
            lemma_def_index_insert(s0, pos as int, e);
            if defs_sorted(s0) {
                lemma_defs_sorted_insert(s0, pos as int, e);
            }
        }
        self.definitions.insert(pos, e);
        proof {
            let s1 = self.definitions@;
            assert(s1 == s0.insert(pos as int, e));
            if defs_wf(s0) {
                assert forall|a: int, b: int| 0 <= a < b < s1.len() implies (#[trigger] s1[a].0)@ != (
                #[trigger] s1[b].0)@ by {
                    let a0 = if a < pos { a } else { a - 1 };
                    let b0 = if b < pos { b } else { b - 1 };
                    if a == pos {
                        assert(s1[b] == s0[b0]);
                        assert(s0[b0].0@ != nv);
                    } else if b == pos {
                        assert(s1[a] == s0[a0]);
                        assert(s0[a0].0@ != nv);
                    } else {
                        assert(s1[a] == s0[a0] && s1[b] == s0[b0]);
                    }
                }
                assert forall|a: int| 0 <= a < s1.len() implies (#[trigger] s1[a].1)@.len() > 0 by {
                    if a < pos {
                        assert(s1[a] == s0[a]);
                    } else if a > pos {
                        assert(s1[a] == s0[a - 1]);
                    }
                }
            }
            assert forall|k: Seq<char>| #[trigger] def_get(s1, k) == if k == nv {
                Some(dv)
            } else {
                def_get(s0, k)
            } by {
                if k != nv {
                    if let Some(m) = def_index(s0, k) {
                        assert(is_first_def(s0, k, m));
                        if m >= pos {
                            assert(s1[m + 1] == s0[m]);
                        }
                    }
                }
            }
            assert(defs_map(s1) =~= defs_map(s0).insert(nv, dv));
        }
    }

    /// Where a definition named `name` belongs: before the first one whose
    /// name comes after it.
    fn def_position(&self, name: &str) -> (r: usize)
        ensures
            r <= self.definitions@.len(),
            forall|k: int| 0 <= k < r ==> !seq_lt(name@, (#[trigger] self.definitions@[k].0)@),
            r < self.definitions@.len() ==> seq_lt(name@, self.definitions@[r as int].0@),
    {
        let mut i: usize = 0;
        while i < self.definitions.len()
            invariant
                i <= self.definitions@.len(),
                forall|k: int| 0 <= k < i ==> !seq_lt(name@, (#[trigger] self.definitions@[k].0)@),
            decreases self.definitions@.len() - i,
        {
            if str_lt(name, self.definitions[i].0.as_str()) {
                return i;
            }
            i = i + 1;
        }
        i
    }
}

/// The definitions are in the order of their names.
pub open spec fn defs_sorted(s: Seq<(String, String)>) -> bool {
    forall|i: int, j: int| 0 <= i < j < s.len() ==> seq_lt((#[trigger] s[i].0)@, (#[trigger] s[j].0)@)
}

/// Inserting a definition under a new name at position `pos` leaves the
/// others where they were, shifted past it.
proof fn lemma_def_index_insert(s: Seq<(String, String)>, pos: int, e: (String, String))
    requires
        0 <= pos <= s.len(),
        def_index(s, e.0@) is None,
    ensures
        forall|n: Seq<char>| #[trigger] def_index(s.insert(pos, e), n) == if n == e.0@ {
            Some(pos)
        } else {
            match def_index(s, n) {
                Some(m) => Some(if m < pos {
                    m
                } else {
                    m + 1
                }),
                None => None,
            }
        },
{
    let t = s.insert(pos, e);
    assert forall|n: Seq<char>| #[trigger] def_index(t, n) == if n == e.0@ {
        Some(pos)
    } else {
        match def_index(s, n) {
            Some(m) => Some(if m < pos {
                m
            } else {
                m + 1
            }),
            None => None,
        }
    } by {
        if n == e.0@ {
            assert forall|m: int| 0 <= m < pos implies (#[trigger] t[m].0)@ != n by {
                assert(t[m] == s[m]);
                if s[m].0@ == n {
                    lemma_first_def_exists(s, n, m);
                }
            }
            assert(is_first_def(t, n, pos));
            lemma_first_def_unique(t, n, pos);
        } else if let Some(m) = def_index(s, n) {
            assert(is_first_def(s, n, m));
            let m2 = if m < pos {
                m
            } else {
                m + 1
            };
            assert(t[m2] == s[m]);
            assert forall|q: int| 0 <= q < m2 implies (#[trigger] t[q].0)@ != n by {
                if q < pos {
                    assert(t[q] == s[q]);
                } else if q > pos {
                    assert(t[q] == s[q - 1]);
                }
            }
            assert(is_first_def(t, n, m2));
            lemma_first_def_unique(t, n, m2);
        } else if exists|m: int| is_first_def(t, n, m) {
            let m = choose|m: int| is_first_def(t, n, m);
            if m < pos {
                assert(t[m] == s[m]);
                lemma_first_def_exists(s, n, m);
            } else if m > pos {
                assert(t[m] == s[m - 1]);
                lemma_first_def_exists(s, n, m - 1);
            }
        }
    }
}

/// A definition under a new name inserted where its name belongs keeps
/// the definitions in order.
proof fn lemma_defs_sorted_insert(s: Seq<(String, String)>, pos: int, e: (String, String))
    requires
        defs_sorted(s),
        0 <= pos <= s.len(),
        def_index(s, e.0@) is None,
        forall|k: int| 0 <= k < pos ==> !seq_lt(e.0@, (#[trigger] s[k].0)@),
        pos < s.len() ==> seq_lt(e.0@, s[pos].0@),
    ensures
        defs_sorted(s.insert(pos, e)),
{
    let t = s.insert(pos, e);
    let nv = e.0@;
    assert forall|i: int, j: int| 0 <= i < j < t.len() implies seq_lt((#[trigger] t[i].0)@, (#[trigger] t[j].0)@) by {
        if i == pos {
            assert(t[j] == s[j - 1]);
            if j - 1 > pos {
                assert(seq_lt(s[pos].0@, s[j - 1].0@));
                lemma_seq_lt_trans(nv, s[pos].0@, s[j - 1].0@);
            }
        } else if j == pos {
            assert(t[i] == s[i]);
            if s[i].0@ == nv {
                lemma_first_def_exists(s, nv, i);
            }
            lemma_seq_lt_total(nv, s[i].0@);
        } else {
            let i0 = if i < pos {
                i
            } else {
                i - 1
            };
            let j0 = if j < pos {
                j
            } else {
                j - 1
            };
            assert(t[i] == s[i0] && t[j] == s[j0]);
            assert(seq_lt(s[i0].0@, s[j0].0@));
        }
    }
}

/// A name held at some position has a first position.
proof fn lemma_first_def_exists(s: Seq<(String, String)>, name: Seq<char>, i: int)
    requires
        0 <= i < s.len(),
        s[i].0@ == name,
    ensures
        def_index(s, name) is Some,
    decreases i,
{
    if forall|k: int| 0 <= k < i ==> (#[trigger] s[k].0)@ != name {
        assert(is_first_def(s, name, i));
    } else {
        let k = choose|k: int| 0 <= k < i && (#[trigger] s[k].0)@ == name;
        lemma_first_def_exists(s, name, k);
    }
}

/// Loading `s` then `t` is loading `s + t`, and may be done when both steps
/// may.
pub proof fn lemma_load_append(
    m: Map<Seq<char>, Seq<char>>,
    s: Seq<(Seq<char>, Seq<char>)>,
    t: Seq<(Seq<char>, Seq<char>)>,
)
    ensures
        load(m, s + t) == load(load(m, s), t),
        can_load(m, s + t) == (can_load(m, s) && can_load(load(m, s), t)),
    decreases s.len(),
{
    if s.len() == 0 {
        assert(s + t =~= t);
    } else {
        assert((s + t).drop_first() =~= s.drop_first() + t);
        assert((s + t)[0] == s[0]);
        lemma_load_append(m.insert(s[0].0, s[0].1), s.drop_first(), t);
    }
}

pub proof fn lemma_load_one(m: Map<Seq<char>, Seq<char>>, k: Seq<char>, v: Seq<char>)
    ensures
        load(m, seq![(k, v)]) == m.insert(k, v),
        can_load(m, seq![(k, v)]) == (v.len() > 0 && (m.contains_key(k) ==> m[k] == v)),
{
    let s = seq![(k, v)];
    assert(s.drop_first() =~= Seq::<(Seq<char>, Seq<char>)>::empty());
    assert(load(m.insert(k, v), s.drop_first()) == m.insert(k, v));
    assert(can_load(m.insert(k, v), s.drop_first()));
}

impl TSVisitor {
    /// Records the definitions that `other` collected, then `name` defined
    /// as the text of `other`.
    pub fn load_definition(&mut self, name: String, other: TSVisitor)
        requires
            can_load(old(self).defs(), def_pairs(other.definitions@).push((name@, other.ts@))),
        ensures
            final(self).defs() == load(old(self).defs(), def_pairs(other.definitions@).push((name@, other.ts@))),
            final(self).ts == old(self).ts,
            old(self).wf() ==> final(self).wf(),
            defs_sorted(old(self).definitions@) ==> defs_sorted(final(self).definitions@),
    {
        let ghost m0 = self.defs();
        let ghost pairs = def_pairs(other.definitions@);
        let ghost last = seq![(name@, other.ts@)];
        proof {
            assert(pairs.push((name@, other.ts@)) =~= pairs + last);
            lemma_load_append(m0, pairs, last);
        }
        let TSVisitor { definitions, ts } = other;
        let mut rest = definitions;
        let n0 = rest.len();
        assert(pairs.len() == n0);
        let mut i: usize = 0;
        while rest.len() > 0
            invariant
                i <= pairs.len(),
                def_pairs(rest@) == pairs.skip(i as int),
                self.defs() == load(m0, pairs.take(i as int)),
                can_load(self.defs(), pairs.skip(i as int) + last),
                self.ts == old(self).ts,
                old(self).wf() ==> self.wf(),
                defs_sorted(old(self).definitions@) ==> defs_sorted(self.definitions@),
                pairs.len() == i + rest@.len(),
                pairs.len() <= usize::MAX,
            decreases rest@.len(),
        {
            let ghost before = self.defs();
            let ghost r0 = rest@;
            let (n, d) = rest.remove(0);
            proof {
                assert(pairs[i as int] == (n@, d@));
                let tail = pairs.skip(i as int);
                assert(tail =~= seq![(n@, d@)] + (pairs.skip(i + 1) + Seq::empty()));
                assert(tail + last =~= seq![(n@, d@)] + (pairs.skip(i + 1) + last));
                lemma_load_append(before, seq![(n@, d@)], pairs.skip(i + 1) + last);
                lemma_load_one(before, n@, d@);
                assert(pairs.take(i + 1) =~= pairs.take(i as int) + seq![(n@, d@)]);
                lemma_load_append(m0, pairs.take(i as int), seq![(n@, d@)]);
                assert(rest@ =~= r0.drop_first());
                assert forall|q: int| 0 <= q < rest@.len() implies #[trigger] def_pairs(rest@)[q] == pairs.skip(
                    i + 1,
                )[q] by {
                    assert(def_pairs(r0)[q + 1] == pairs.skip(i as int)[q + 1]);
                }
                assert(def_pairs(rest@) =~= pairs.skip(i + 1));
            }
            self.insert_definition(n, d);
            i = i + 1;
        }
        proof {
            assert(pairs.take(i as int) =~= pairs);
            assert(pairs.skip(i as int) + last =~= last);
            lemma_load_one(self.defs(), name@, ts@);
        }
        self.insert_definition(name, ts);
    }
}

/// The definitions of a list are those of its tail, with its first pair
/// put over them.
pub proof fn lemma_defs_cons(s: Seq<(String, String)>)
    requires
        s.len() > 0,
    ensures
        defs_map(s) == defs_map(s.drop_first()).insert(s[0].0@, s[0].1@),
{
    let t = s.drop_first();
    assert forall|k: Seq<char>| #[trigger] def_get(s, k) == if k == s[0].0@ {
        Some(s[0].1@)
    } else {
        def_get(t, k)
    } by {
        if k == s[0].0@ {
            assert(is_first_def(s, k, 0));
            lemma_first_def_unique(s, k, 0);
        } else {
            if let Some(m) = def_index(t, k) {
                assert(is_first_def(t, k, m));
                assert forall|q: int| 0 <= q < m + 1 implies (#[trigger] s[q].0)@ != k by {
                    if q > 0 {
                        assert(s[q] == t[q - 1]);
                    }
                }
                assert(is_first_def(s, k, m + 1));
                lemma_first_def_unique(s, k, m + 1);
            } else if exists|m: int| is_first_def(s, k, m) {
                let m = choose|m: int| is_first_def(s, k, m);
                assert(m > 0);
                assert forall|q: int| 0 <= q < m - 1 implies (#[trigger] t[q].0)@ != k by {
                    assert(s[q + 1] == t[q]);
                }
                assert(is_first_def(t, k, m - 1));
            }
        }
    }
    assert(defs_map(s) =~= defs_map(t).insert(s[0].0@, s[0].1@));
}

/// Loading the definitions of a well-formed list puts them over what was
/// there, and may be done exactly when the two agree.
pub proof fn lemma_load_wf(m: Map<Seq<char>, Seq<char>>, s: Seq<(String, String)>)
    requires
        defs_wf(s),
    ensures
        load(m, def_pairs(s)) == m.union_prefer_right(defs_map(s)),
        can_load(m, def_pairs(s)) == compatible(m, defs_map(s)),
        nonempty_defs(defs_map(s)),
    decreases s.len(),
{
    if s.len() == 0 {
        assert(defs_map(s) =~= Map::<Seq<char>, Seq<char>>::empty()) by {
            assert forall|k: Seq<char>| !(#[trigger] def_index(s, k) is Some) by {
                if exists|i: int| is_first_def(s, k, i) {
                    let i = choose|i: int| is_first_def(s, k, i);
                }
            }
        }
        assert(m.union_prefer_right(defs_map(s)) =~= m);
        assert(def_pairs(s) =~= Seq::<(Seq<char>, Seq<char>)>::empty());
    } else {
        let t = s.drop_first();
        let (k0, v0) = (s[0].0@, s[0].1@);
        assert(defs_wf(t)) by {
            assert forall|i: int, j: int| 0 <= i < j < t.len() implies (#[trigger] t[i].0)@ != (
            #[trigger] t[j].0)@ by {
                assert(s[i + 1] == t[i] && s[j + 1] == t[j]);
            }
            assert forall|i: int| 0 <= i < t.len() implies (#[trigger] t[i].1)@.len() > 0 by {
                assert(s[i + 1] == t[i]);
            }
        }
        lemma_defs_cons(s);
        lemma_load_wf(m.insert(k0, v0), t);
        assert(def_pairs(s).drop_first() =~= def_pairs(t));
        assert(def_pairs(s)[0] == (k0, v0));
        assert(!defs_map(t).contains_key(k0)) by {
            if defs_map(t).contains_key(k0) {
                let i = def_index(t, k0).unwrap();
                assert(is_first_def(t, k0, i));
                assert(s[i + 1] == t[i]);
                assert((s[0].0)@ != (s[i + 1].0)@);
            }
        }
        assert(m.insert(k0, v0).union_prefer_right(defs_map(t)) =~= m.union_prefer_right(defs_map(s)));
        assert(compatible(m.insert(k0, v0), defs_map(t)) && v0.len() > 0 && (m.contains_key(k0) ==> m[k0]
            == v0) <==> compatible(m, defs_map(s))) by {
            if compatible(m, defs_map(s)) {
                assert(defs_map(s)[k0] == v0);
                assert forall|k: Seq<char>| m.insert(k0, v0).contains_key(k) && defs_map(t).contains_key(
                    k,
                ) implies #[trigger] m.insert(k0, v0)[k] == #[trigger] defs_map(t)[k] by {
                    assert(defs_map(s)[k] == defs_map(t)[k]);
                }
            }
            if compatible(m.insert(k0, v0), defs_map(t)) && (m.contains_key(k0) ==> m[k0] == v0) {
                assert forall|k: Seq<char>| m.contains_key(k) && defs_map(s).contains_key(k) implies #[trigger] m[k]
                    == #[trigger] defs_map(s)[k] by {
                    if k != k0 {
                        assert(m.insert(k0, v0)[k] == m[k]);
                    }
                }
            }
        }
        assert(s[0].1@.len() > 0);
    }
}

impl TSVisitor {
    /// Appends what `other` collected: its text, and its definitions.
    pub fn append_visitor(&mut self, other: &TSVisitor)
        requires
            old(self).wf(),
            other.wf(),
            compatible(old(self).defs(), other.defs()),
        ensures
            final(self).wf(),
            final(self).ts@ == old(self).ts@ + other.ts@,
            final(self).defs() == old(self).defs().union_prefer_right(other.defs()),
            defs_sorted(old(self).definitions@) ==> defs_sorted(final(self).definitions@),
    {
        let ghost m0 = self.defs();
        let ghost pairs = def_pairs(other.definitions@);
        proof {
            lemma_load_wf(m0, other.definitions@);
        }
        self.ts.append(other.ts.as_str());
        assert(self.defs() == m0);
        assert(pairs.skip(0) =~= pairs);
        assert(pairs.take(0) =~= Seq::<(Seq<char>, Seq<char>)>::empty());
        let mut i: usize = 0;
        while i < other.definitions.len()
            invariant
                i <= pairs.len(),
                pairs.len() == other.definitions@.len(),
                pairs == def_pairs(other.definitions@),
                self.wf(),
                defs_sorted(old(self).definitions@) ==> defs_sorted(self.definitions@),
                self.ts@ == old(self).ts@ + other.ts@,
                self.defs() == load(m0, pairs.take(i as int)),
                can_load(self.defs(), pairs.skip(i as int)),
            decreases other.definitions@.len() - i,
        {
            let ghost before = self.defs();
            let (n, d) = (&other.definitions[i].0, &other.definitions[i].1);
            proof {
                assert(pairs[i as int] == (n@, d@));
                assert(pairs.skip(i as int) =~= seq![(n@, d@)] + pairs.skip(i + 1));
                lemma_load_append(before, seq![(n@, d@)], pairs.skip(i + 1));
                lemma_load_one(before, n@, d@);
                assert(pairs.take(i + 1) =~= pairs.take(i as int) + seq![(n@, d@)]);
                lemma_load_append(m0, pairs.take(i as int), seq![(n@, d@)]);
            }
            self.insert_definition(n.clone(), d.clone());
            i = i + 1;
        }
        proof {
            assert(pairs.take(i as int) =~= pairs);
        }
    }
}

proof fn lemma_first_def_unique(s: Seq<(String, String)>, name: Seq<char>, i: int)
    requires
        is_first_def(s, name, i),
    ensures
        def_index(s, name) == Some(i),
{
    let c = choose|i: int| is_first_def(s, name, i);
    if c < i {
        assert(s[c].0@ != name);
    } else if i < c {
        assert(s[i].0@ != name);
    }
}

/// The definitions after the insertions `ins` in turn, starting from `m`.
pub open spec fn defs_after(m: Map<Seq<char>, Seq<char>>, ins: Seq<(Seq<char>, Seq<char>)>) -> Map<Seq<char>, Seq<char>>
    decreases ins.len(),
{
    if ins.len() == 0 {
        m
    } else {
        defs_after(m.insert(ins[0].0, ins[0].1), ins.drop_first())
    }
}

/// Each insertion of `ins`, made in turn from `m`, gives a name that is
/// already defined the definition it has, as
/// [`TSVisitor::insert_definition`] asks.
pub open spec fn inserts_agree(m: Map<Seq<char>, Seq<char>>, ins: Seq<(Seq<char>, Seq<char>)>) -> bool
    decreases ins.len(),
{
    ins.len() == 0 || ((m.contains_key(ins[0].0) ==> m[ins[0].0] == ins[0].1) && inserts_agree(
        m.insert(ins[0].0, ins[0].1),
        ins.drop_first(),
    ))
}

/// A name keeps its first definition: through any run of insertions that
/// the visitor accepts, a name already defined stays defined the same way.
pub proof fn lemma_definitions_kept(m: Map<Seq<char>, Seq<char>>, ins: Seq<(Seq<char>, Seq<char>)>, k: Seq<char>)
    requires
        inserts_agree(m, ins),
        m.contains_key(k),
    ensures
        defs_after(m, ins).contains_key(k),
        defs_after(m, ins)[k] == m[k],
    decreases ins.len(),
{
    if ins.len() > 0 {
        lemma_definitions_kept(m.insert(ins[0].0, ins[0].1), ins.drop_first(), k);
    }
}

} // verus!
