use vstd::prelude::*;

verus! {

/// `i` is the index of the first pair of `s` whose key is `k`.
pub open spec fn is_first<V>(s: Seq<(Seq<char>, V)>, k: Seq<char>, i: int) -> bool {
    &&& 0 <= i < s.len()
    &&& s[i].0 == k
    &&& forall|q: int| 0 <= q < i ==> (#[trigger] s[q]).0 != k
}

/// The value of the first pair of `s` whose key is `k`.
pub open spec fn assoc_get<V>(s: Seq<(Seq<char>, V)>, k: Seq<char>) -> Option<V> {
    if exists|i: int| is_first(s, k, i) {
        Some(s[choose|i: int| is_first(s, k, i)].1)
    } else {
        None
    }
}

pub proof fn lemma_first_unique<V>(s: Seq<(Seq<char>, V)>, k: Seq<char>, i: int)
    requires
        is_first(s, k, i),
    ensures
        assoc_get(s, k) == Some(s[i].1),
{
    let c = choose|i: int| is_first(s, k, i);
    if c < i {
        assert(s[c].0 != k);
    } else if i < c {
        assert(s[i].0 != k);
    }
}

pub proof fn lemma_first_exists<V>(s: Seq<(Seq<char>, V)>, k: Seq<char>, m: int)
    requires
        0 <= m < s.len(),
        s[m].0 == k,
    ensures
        assoc_get(s, k) is Some,
    decreases m,
{
    if forall|q: int| 0 <= q < m ==> (#[trigger] s[q]).0 != k {
        assert(is_first(s, k, m));
    } else {
        let q = choose|q: int| 0 <= q < m && (#[trigger] s[q]).0 == k;
        lemma_first_exists(s, k, q);
    }
}

/// A pair pushed at the end is found only where no earlier pair has its
/// key.
pub proof fn lemma_assoc_push<V>(s: Seq<(Seq<char>, V)>, e: (Seq<char>, V))
    ensures
        forall|k: Seq<char>| #[trigger] assoc_get(s.push(e), k) == match assoc_get(s, k) {
            Some(v) => Some(v),
            None => if e.0 == k {
                Some(e.1)
            } else {
                None
            },
        },
{
    let t = s.push(e);
    assert forall|k: Seq<char>| #[trigger] assoc_get(t, k) == match assoc_get(s, k) {
        Some(v) => Some(v),
        None => if e.0 == k {
            Some(e.1)
        } else {
            None
        },
    } by {
        if exists|i: int| is_first(s, k, i) {
            let i = choose|i: int| is_first(s, k, i);
            assert(is_first(t, k, i));
            lemma_first_unique(t, k, i);
            lemma_first_unique(s, k, i);
        } else {
            assert forall|q: int| 0 <= q < s.len() implies (#[trigger] t[q]).0 != k by {
                if s[q].0 == k {
                    lemma_first_exists(s, k, q);
                }
            }
            if e.0 == k {
                assert(is_first(t, k, s.len() as int));
                lemma_first_unique(t, k, s.len() as int);
            } else if exists|i: int| is_first(t, k, i) {
                let i = choose|i: int| is_first(t, k, i);
                assert(t[i].0 == k);
            }
        }
    }
}

/// Replacing the first pair of a key changes what that key finds, and
/// nothing else.
pub proof fn lemma_assoc_update<V>(s: Seq<(Seq<char>, V)>, i: int, v: V)
    requires
        0 <= i < s.len(),
        is_first(s, s[i].0, i),
    ensures
        forall|k: Seq<char>| #[trigger] assoc_get(s.update(i, (s[i].0, v)), k) == if k == s[i].0 {
            Some(v)
        } else {
            assoc_get(s, k)
        },
{
    let t = s.update(i, (s[i].0, v));
    assert forall|k: Seq<char>| #[trigger] assoc_get(t, k) == if k == s[i].0 {
        Some(v)
    } else {
        assoc_get(s, k)
    } by {
        if k == s[i].0 {
            assert(is_first(t, k, i));
            lemma_first_unique(t, k, i);
        } else if exists|m: int| is_first(s, k, m) {
            let m = choose|m: int| is_first(s, k, m);
            assert(is_first(t, k, m));
            lemma_first_unique(t, k, m);
            lemma_first_unique(s, k, m);
        } else if exists|m: int| is_first(t, k, m) {
            let m = choose|m: int| is_first(t, k, m);
            assert(s[m].0 == k);
            lemma_first_exists(s, k, m);
        }
    }
}

pub proof fn lemma_contains_push<T>(s: Seq<T>, x: T, c: T)
    ensures
        s.push(x).contains(c) == (s.contains(c) || x == c),
{
    let t = s.push(x);
    if t.contains(c) && x != c {
        let q = choose|q: int| 0 <= q < t.len() && #[trigger] t[q] == c;
        assert(s[q] == c);
    }
    if s.contains(c) {
        let q = choose|q: int| 0 <= q < s.len() && #[trigger] s[q] == c;
        assert(t[q] == c);
    }
    if x == c {
        assert(t[s.len() as int] == c);
    }
}

pub proof fn lemma_assoc_empty<V>(s: Seq<(Seq<char>, V)>)
    requires
        s.len() == 0,
    ensures
        forall|k: Seq<char>| #[trigger] assoc_get(s, k) is None,
{
    assert forall|k: Seq<char>| #[trigger] assoc_get(s, k) is None by {
        if exists|i: int| is_first(s, k, i) {
            let i = choose|i: int| is_first(s, k, i);
        }
    }
}

} // verus!
