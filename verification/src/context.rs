use vstd::prelude::*;

use crate::handler::ContextId;

verus! {

/// A context that handlers run in, known by the id of its type.
pub trait Context {
    spec fn spec_type_id() -> ContextId;

    fn type_id() -> (r: ContextId)
        ensures
            r == Self::spec_type_id(),
    ;
}

/// A context of either of two types.
pub enum EitherContext<C1, C2> {
    C1(C1),
    C2(C2),
}

impl<C1: Context, C2: Context> EitherContext<C1, C2> {
    /// The ids of the two context types, in increasing order, once each.
    pub fn type_ids() -> (r: Vec<ContextId>)
        ensures
            r@.to_set() == set![C1::spec_type_id(), C2::spec_type_id()],
            forall|i: int, j: int| 0 <= i < j < r@.len() ==> r@[i] < r@[j],
    {
        let a = C1::type_id();
        let b = C2::type_id();
        let mut r: Vec<ContextId> = Vec::new();
        if a < b {
            r.push(a);
            r.push(b);
            assert(r@[0] == a && r@[1] == b);
        } else if b < a {
            r.push(b);
            r.push(a);
            assert(r@[0] == b && r@[1] == a);
        } else {
            r.push(a);
            assert(r@[0] == a);
        }
        proof {
            assert(r@.contains(a));
            assert(r@.contains(b));
            assert(r@.to_set() =~= set![a, b]);
        }
        r
    }

    /// The id of the type of the context held.
    pub fn inner_type_id(&self) -> (r: ContextId)
        ensures
            r == match self {
                EitherContext::C1(_) => C1::spec_type_id(),
                EitherContext::C2(_) => C2::spec_type_id(),
            },
    {
        match self {
            EitherContext::C1(_) => C1::type_id(),
            EitherContext::C2(_) => C2::type_id(),
        }
    }
}

} // verus!
