use vstd::prelude::*;

verus! {

/// A JSON value. Numbers are kept as their decimal text, objects as an
/// insertion-ordered list of entries.
#[derive(Debug, PartialEq)]
pub enum Value {
    Null,
    Bool(bool),
    Number(String),
    String(String),
    Array(Vec<Value>),
    Object(Vec<(String, Value)>),
}

/// No key occurs twice among the entries.
pub open spec fn keys_unique(s: Seq<(String, Value)>) -> bool {
    forall|i: int, j: int| 0 <= i < j < s.len() ==> (#[trigger] s[i]).0@ != (#[trigger] s[j]).0@
}

impl Value {
    /// An object holds each key once, as a JSON object does.
    pub open spec fn wf(self) -> bool {
        match self {
            Value::Object(o) => keys_unique(o@),
            _ => true,
        }
    }
}

/// Which way a conversion between values and typed data failed.
#[derive(Debug, PartialEq, Eq, Clone, Copy)]
pub enum ValueErrorKind {
    Serialization,
    Deserialization,
}

/// An error of a conversion or a merge of values.
#[derive(Debug)]
pub struct ValueError {
    pub kind: ValueErrorKind,
    pub message: String,
}

/// The keys of a list of object entries, in order.
pub open spec fn entry_keys(entries: Seq<(String, Value)>) -> Seq<Seq<char>> {
    entries.map_values(|e: (String, Value)| e.0@)
}

/// Inserting the entry `b[j]` after `a` and the entries of `b` before it
/// meets a key that is already there.
pub open spec fn conflicts_at(a: Seq<(String, Value)>, b: Seq<(String, Value)>, j: int) -> bool {
    entry_keys(a + b.take(j)).contains(b[j].0@)
}

/// No entry of `b` before index `j` conflicts.
pub open spec fn no_conflict_before(a: Seq<(String, Value)>, b: Seq<(String, Value)>, j: int) -> bool {
    forall|k: int| 0 <= k < j ==> !#[trigger] conflicts_at(a, b, k)
}

fn contains_key(entries: &Vec<(String, Value)>, key: &String) -> (r: bool)
    ensures
        r == entry_keys(entries@).contains(key@),
{
    let mut i: usize = 0;
    while i < entries.len()
        invariant
            i <= entries.len(),
            forall|k: int| 0 <= k < i ==> entries@[k].0@ != key@,
        decreases entries.len() - i,
    {
        if entries[i].0 == *key {
            assert(entry_keys(entries@)[i as int] == key@);
            return true;
        }
        i = i + 1;
    }
    proof {
        if entry_keys(entries@).contains(key@) {
            let k = choose|k: int| 0 <= k < entry_keys(entries@).len() && entry_keys(entries@)[k] == key@;
            assert(entries@[k].0@ == key@);
        }
    }
    false
}

/// The entries of an object; `None` for a value that is not one.
pub open spec fn entries_of(v: Value) -> Option<Seq<(String, Value)>> {
    match v {
        Value::Object(o) => Some(o@),
        _ => None,
    }
}

/// The index of the first entry of `b` whose key is already there when it
/// is inserted after `a` and the entries of `b` before it.
pub open spec fn first_conflict(a: Seq<(String, Value)>, b: Seq<(String, Value)>) -> int {
    choose|j: int| 0 <= j < b.len() && no_conflict_before(a, b, j) && #[trigger] conflicts_at(a, b, j)
}

/// What a merge of values gives: a value left as it is, the entries of the
/// merged object, or the message of the error.
pub enum Merged {
    Whole(Value),
    Entries(Seq<(String, Value)>),
    Failed(Seq<char>),
}

/// Merging the object `a` with the entries `b` of another (`None`: not an
/// object): the entries of `a` followed by those of `b` when no entry of `b`
/// meets a key already there; else the error naming the first such key, or
/// the error for a value that is not an object.
pub open spec fn merge_into(a: Value, b: Option<Seq<(String, Value)>>) -> Merged {
    match (a, b) {
        (Value::Object(x), Some(y)) => {
            if no_conflict_before(x@, y, y.len() as int) {
                Merged::Entries(x@ + y)
            } else {
                Merged::Failed("duplicate key: "@ + y[first_conflict(x@, y)].0@)
            }
        },
        _ => Merged::Failed("params must be object"@),
    }
}

/// Merging a list of values from the last one to the first: each value is
/// merged with what the values after it gave.
pub open spec fn merge_chain(ps: Seq<Value>) -> Merged
    decreases ps.len(),
{
    if ps.len() == 0 {
        Merged::Failed(Seq::empty())
    } else if ps.len() == 1 {
        Merged::Whole(ps[0])
    } else {
        match merge_chain(ps.drop_first()) {
            Merged::Whole(w) => merge_into(ps[0], entries_of(w)),
            Merged::Entries(b) => merge_into(ps[0], Some(b)),
            Merged::Failed(m) => Merged::Failed(m),
        }
    }
}

/// `r` is what `combine` gives for `v1` and `v2`.
pub open spec fn combines_to(v1: Value, v2: Value, r: Result<Value, ValueError>) -> bool {
    match merge_into(v1, entries_of(v2)) {
        Merged::Entries(e) => r matches Ok(Value::Object(o)) && o@ == e,
        Merged::Failed(m) => r matches Err(x) && x.kind == ValueErrorKind::Serialization && x.message@ == m,
        Merged::Whole(_) => false,
    }
}

proof fn lemma_first_conflict(a: Seq<(String, Value)>, b: Seq<(String, Value)>, j: int)
    requires
        0 <= j < b.len(),
        no_conflict_before(a, b, j),
        conflicts_at(a, b, j),
    ensures
        first_conflict(a, b) == j,
{
    let c = first_conflict(a, b);
    if c < j {
        assert(!conflicts_at(a, b, c));
    } else if j < c {
        assert(!conflicts_at(a, b, j));
    }
}

/// No two entries of `b` share a key, and none has a key of `a`.
pub open spec fn fresh_keys(a: Seq<(String, Value)>, b: Seq<(String, Value)>) -> bool {
    &&& forall|i: int, j: int| 0 <= i < j < b.len() ==> (#[trigger] b[i]).0@ != (#[trigger] b[j]).0@
    &&& forall|i: int, t: int| 0 <= i < b.len() && 0 <= t < a.len() ==> (#[trigger] b[i]).0@ != (#[trigger] a[t]).0@
}

proof fn lemma_conflicts_at(a: Seq<(String, Value)>, b: Seq<(String, Value)>, j: int)
    requires
        0 <= j < b.len(),
    ensures
        conflicts_at(a, b, j) <==> (exists|t: int| 0 <= t < a.len() && (#[trigger] a[t]).0@ == b[j].0@) || (exists|
            k: int,
        | 0 <= k < j && (#[trigger] b[k]).0@ == b[j].0@),
{
    let s = a + b.take(j);
    let ks = entry_keys(s);
    if conflicts_at(a, b, j) {
        let t = choose|t: int| 0 <= t < ks.len() && ks[t] == b[j].0@;
        if t < a.len() {
            assert(a[t] == s[t]);
        } else {
            assert(b[t - a.len()] == s[t]);
        }
    }
    if exists|t: int| 0 <= t < a.len() && (#[trigger] a[t]).0@ == b[j].0@ {
        let t = choose|t: int| 0 <= t < a.len() && (#[trigger] a[t]).0@ == b[j].0@;
        assert(ks[t] == b[j].0@);
    }
    if exists|k: int| 0 <= k < j && (#[trigger] b[k]).0@ == b[j].0@ {
        let k = choose|k: int| 0 <= k < j && (#[trigger] b[k]).0@ == b[j].0@;
        assert(ks[a.len() + k] == b[j].0@);
    }
}

/// Merging succeeds exactly when the entries merged in have keys of their
/// own: none twice, and none already there.
pub proof fn lemma_merge_fresh(a: Seq<(String, Value)>, b: Seq<(String, Value)>)
    ensures
        no_conflict_before(a, b, b.len() as int) == fresh_keys(a, b),
{
    if no_conflict_before(a, b, b.len() as int) {
        assert forall|i: int, j: int| 0 <= i < j < b.len() implies (#[trigger] b[i]).0@ != (#[trigger] b[j]).0@ by {
            lemma_conflicts_at(a, b, j);
            assert(!conflicts_at(a, b, j));
        }
        assert forall|i: int, t: int| 0 <= i < b.len() && 0 <= t < a.len() implies (#[trigger] b[i]).0@ != (
        #[trigger] a[t]).0@ by {
            lemma_conflicts_at(a, b, i);
            assert(!conflicts_at(a, b, i));
        }
    }
    if fresh_keys(a, b) {
        assert forall|j: int| 0 <= j < b.len() implies !#[trigger] conflicts_at(a, b, j) by {
            lemma_conflicts_at(a, b, j);
        }
    }
}

/// Entries with keys of their own added to entries that hold each key once
/// hold each key once.
pub proof fn lemma_fresh_unique(a: Seq<(String, Value)>, b: Seq<(String, Value)>)
    requires
        fresh_keys(a, b),
    ensures
        keys_unique(a) ==> keys_unique(a + b),
{
    let s = a + b;
    if keys_unique(a) {
        assert forall|i: int, j: int| 0 <= i < j < s.len() implies (#[trigger] s[i]).0@ != (#[trigger] s[j]).0@ by {
            if j < a.len() {
                assert(s[i] == a[i] && s[j] == a[j]);
            } else if i < a.len() {
                assert(s[i] == a[i] && s[j] == b[j - a.len()]);
            } else {
                assert(s[i] == b[i - a.len()] && s[j] == b[j - a.len()]);
            }
        }
    }
}

/// Merging values whose objects hold each key once gives an object that
/// holds each key once.
pub proof fn lemma_merge_chain_wf(ps: Seq<Value>)
    requires
        forall|i: int| 0 <= i < ps.len() ==> (#[trigger] ps[i]).wf(),
    ensures
        merge_chain(ps) matches Merged::Entries(e) ==> keys_unique(e),
        merge_chain(ps) matches Merged::Whole(w) ==> w.wf(),
    decreases ps.len(),
{
    if ps.len() > 1 {
        let rest = ps.drop_first();
        assert forall|i: int| 0 <= i < rest.len() implies (#[trigger] rest[i]).wf() by {
            assert(rest[i] == ps[i + 1]);
        }
        lemma_merge_chain_wf(rest);
        assert(ps[0].wf());
        let y = match merge_chain(rest) {
            Merged::Whole(w) => entries_of(w),
            Merged::Entries(b) => Some(b),
            Merged::Failed(_) => None,
        };
        if let (Value::Object(x), Some(b)) = (ps[0], y) {
            if no_conflict_before(x@, b, b.len() as int) {
                lemma_merge_fresh(x@, b);
                lemma_fresh_unique(x@, b);
            }
        }
    }
}

/// Merging in an object without entries leaves an object as it is.
pub proof fn lemma_merge_nothing(x: Vec<(String, Value)>)
    ensures
        merge_into(Value::Object(x), Some(Seq::empty())) == Merged::Entries(x@),
{
    assert(x@ + Seq::<(String, Value)>::empty() =~= x@);
}

/// Merging three lists of entries in either grouping succeeds on the same
/// inputs, with the same entries.
pub proof fn lemma_merge_assoc(x: Seq<(String, Value)>, y: Seq<(String, Value)>, z: Seq<(String, Value)>)
    ensures
        (no_conflict_before(x, y, y.len() as int) && no_conflict_before(x + y, z, z.len() as int)) == (
        no_conflict_before(y, z, z.len() as int) && no_conflict_before(x, y + z, (y + z).len() as int)),
        (x + y) + z == x + (y + z),
{
    lemma_merge_fresh(x, y);
    lemma_merge_fresh(x + y, z);
    lemma_merge_fresh(y, z);
    lemma_merge_fresh(x, y + z);
    let yz = y + z;
    let xy = x + y;
    if fresh_keys(x, y) && fresh_keys(xy, z) {
        assert forall|i: int, j: int| 0 <= i < j < yz.len() implies (#[trigger] yz[i]).0@ != (#[trigger] yz[j]).0@ by {
            if j >= y.len() {
                if i >= y.len() {
                    assert(yz[i] == z[i - y.len()] && yz[j] == z[j - y.len()]);
                } else {
                    assert(yz[i] == xy[x.len() + i]);
                    assert(yz[j] == z[j - y.len()]);
                }
            }
        }
        assert forall|i: int, t: int| 0 <= i < yz.len() && 0 <= t < x.len() implies (#[trigger] yz[i]).0@ != (
        #[trigger] x[t]).0@ by {
            if i >= y.len() {
                assert(yz[i] == z[i - y.len()]);
                assert(x[t] == xy[t]);
            }
        }
        assert forall|i: int, t: int| 0 <= i < z.len() && 0 <= t < y.len() implies (#[trigger] z[i]).0@ != (
        #[trigger] y[t]).0@ by {
            assert(y[t] == xy[x.len() + t]);
        }
    }
    if fresh_keys(y, z) && fresh_keys(x, yz) {
        assert forall|i: int, j: int| 0 <= i < j < y.len() implies (#[trigger] y[i]).0@ != (#[trigger] y[j]).0@ by {
            assert(y[i] == yz[i] && y[j] == yz[j]);
        }
        assert forall|i: int, t: int| 0 <= i < y.len() && 0 <= t < x.len() implies (#[trigger] y[i]).0@ != (
        #[trigger] x[t]).0@ by {
            assert(y[i] == yz[i]);
        }
        assert forall|i: int, t: int| 0 <= i < z.len() && 0 <= t < xy.len() implies (#[trigger] z[i]).0@ != (
        #[trigger] xy[t]).0@ by {
            assert(z[i] == yz[y.len() + i]);
            if t >= x.len() {
                assert(xy[t] == y[t - x.len()]);
            } else {
                assert(xy[t] == x[t]);
            }
        }
    }
    assert((x + y) + z =~= x + (y + z));
}

/// Merges two objects into one. Fails when either value is not an object,
/// or when an entry of `v2` would overwrite a key already present.
#[verifier::loop_isolation(false)]
pub fn combine(v1: Value, v2: Value) -> (r: Result<Value, ValueError>)
    ensures
        combines_to(v1, v2, r),
        v1.wf() ==> (r matches Ok(v) ==> v.wf()),
{
    let (mut a, b) = match (v1, v2) {
        (Value::Object(a), Value::Object(b)) => (a, b),
        _ => {
            return Err(
                ValueError {
                    kind: ValueErrorKind::Serialization,
                    message: String::from_str("params must be object"),
                },
            );
        },
    };
    let ghost a0 = a@;
    let ghost b0 = b@;
    let mut rest = b;
    let n = rest.len();
    assert(b0.len() == n);
    let mut j: usize = 0;
    while rest.len() > 0
        invariant
            j + rest@.len() == b0.len(),
            a@ == a0 + b0.take(j as int),
            rest@ == b0.skip(j as int),
            no_conflict_before(a0, b0, j as int),
            b0.len() <= usize::MAX,
        decreases rest@.len(),
    {
        let entry = rest.remove(0);
        assert(entry == b0[j as int]);
        if contains_key(&a, &entry.0) {
            assert(conflicts_at(a0, b0, j as int));
            let mut message = String::from_str("duplicate key: ");
            message.append(entry.0.as_str());
            assert(message@ == "duplicate key: "@ + b0[j as int].0@);
            assert(!no_conflict_before(a0, b0, b0.len() as int));
            proof {
                lemma_first_conflict(a0, b0, j as int);
            }
            return Err(ValueError { kind: ValueErrorKind::Serialization, message });
        }
        a.push(entry);
        assert(b0.take(j + 1) == b0.take(j as int).push(b0[j as int]));
        assert(rest@ == b0.skip(j + 1));
        j = j + 1;
    }
    assert(b0.take(b0.len() as int) == b0);
    proof {
        lemma_merge_fresh(a0, b0);
        lemma_fresh_unique(a0, b0);
    }
    Ok(Value::Object(a))
}

} // verus!
