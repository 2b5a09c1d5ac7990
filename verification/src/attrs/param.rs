use vstd::prelude::*;

use super::arg::{agrees_arg, parse_arg_attr};
use super::arg_spec::spec_arg_attr;
use super::command_spec::{fail, ErrV};
use super::options::ParamType;
use super::syntax::{attr_error, AttrError, Attribute, FnArg, ItemFn, Path, PatType, Span, Type};

verus! {

/// The attributes that say what a parameter of a command stands for.
#[derive(Debug, Clone, Copy, PartialEq, Eq)]
pub enum Marker {
    Arg,
    Context,
    ParentData,
    Request,
    Response,
}

/// The marker that an attribute's path names, if any.
pub open spec fn marker_of(p: Path) -> Option<Marker> {
    if p.spec_is_ident("arg"@) {
        Some(Marker::Arg)
    } else if p.spec_is_ident("context"@) {
        Some(Marker::Context)
    } else if p.spec_is_ident("parent_data"@) {
        Some(Marker::ParentData)
    } else if p.spec_is_ident("request"@) {
        Some(Marker::Request)
    } else if p.spec_is_ident("response"@) {
        Some(Marker::Response)
    } else {
        None
    }
}

/// What the marker attribute `a` (naming `m`) makes of the parameter `pt`
/// marked `ty` so far.
pub open spec fn marker_step(ty: ParamType, m: Marker, a: Attribute, pt: PatType) -> Result<ParamType, ErrV> {
    let s = a.span;
    match m {
        Marker::Arg => match ty {
            ParamType::Unmarked => match spec_arg_attr(a, pt) {
                Ok(o) => Ok(ParamType::Arg(o)),
                Err(e) => Err(e),
            },
            ParamType::Arg(_) => fail(s, "`arg` attribute may only be specified once"@),
            ParamType::Context(_) => fail(s, "`arg` and `context` are mutually exclusive"@),
            ParamType::ParentData(_) => fail(s, "`arg` and `parent_data` are mutually exclusive"@),
            ParamType::Request => fail(s, "`arg` and `request` are mutually exclusive"@),
            ParamType::Response => fail(s, "`arg` and `response` are mutually exclusive"@),
        },
        Marker::Context => match ty {
            ParamType::Unmarked => Ok(ParamType::Context(pt.ty)),
            ParamType::Context(_) => fail(s, "`context` attribute may only be specified once"@),
            ParamType::Arg(_) => fail(s, "`arg` and `context` are mutually exclusive"@),
            ParamType::ParentData(_) => fail(s, "`context` and `parent_data` are mutually exclusive"@),
            ParamType::Request => fail(s, "`context` and `request` are mutually exclusive"@),
            ParamType::Response => fail(s, "`context` and `response` are mutually exclusive"@),
        },
        Marker::ParentData => match ty {
            ParamType::Unmarked => Ok(ParamType::ParentData(pt.ty)),
            ParamType::ParentData(_) => fail(s, "`parent_data` attribute may only be specified once"@),
            ParamType::Arg(_) => fail(s, "`arg` and `parent_data` are mutually exclusive"@),
            ParamType::Context(_) => fail(s, "`context` and `parent_data` are mutually exclusive"@),
            ParamType::Request => fail(s, "`parent_data` and `request` are mutually exclusive"@),
            ParamType::Response => fail(s, "`parent_data` and `response` are mutually exclusive"@),
        },
        Marker::Request => match ty {
            ParamType::Unmarked => Ok(ParamType::Request),
            ParamType::Request => fail(s, "`request` attribute may only be specified once"@),
            ParamType::Arg(_) => fail(s, "`arg` and `request` are mutually exclusive"@),
            ParamType::Context(_) => fail(s, "`context` and `request` are mutually exclusive"@),
            ParamType::ParentData(_) => fail(s, "`parent_data` and `request` are mutually exclusive"@),
            ParamType::Response => fail(s, "`request` and `response` are mutually exclusive"@),
        },
        Marker::Response => match ty {
            ParamType::Unmarked => Ok(ParamType::Response),
            ParamType::Response => fail(s, "`response` attribute may only be specified once"@),
            ParamType::Arg(_) => fail(s, "`arg` and `response` are mutually exclusive"@),
            ParamType::Context(_) => fail(s, "`context` and `response` are mutually exclusive"@),
            ParamType::ParentData(_) => Ok(ty),
            ParamType::Request => fail(s, "`request` and `response` are mutually exclusive"@),
        },
    }
}

/// The attributes of `pt` from the `i`-th on read in turn, the marker
/// attributes taken out: the attributes left, and what the parameter is
/// marked as, or the first error (the attributes after it stay).
pub open spec fn attrs_scan(pt: PatType, ty: ParamType, attrs: Seq<Attribute>, i: int, kept: Seq<Attribute>) -> (
    Seq<Attribute>,
    Result<ParamType, ErrV>,
)
    decreases attrs.len() - i,
{
    if i < 0 || i >= attrs.len() {
        (kept, Ok(ty))
    } else {
        let a = attrs[i];
        match marker_of(a.path) {
            None => attrs_scan(pt, ty, attrs, i + 1, kept.push(a)),
            Some(m) => match marker_step(ty, m, a, pt) {
                Ok(ty2) => attrs_scan(pt, ty2, attrs, i + 1, kept),
                Err(e) => (kept + attrs.skip(i + 1), Err(e)),
            },
        }
    }
}

/// What reading the parameter `pt` gives: its attributes left, and what it
/// stands for; a parameter with no marker is refused.
pub open spec fn param_result(pt: PatType) -> (Seq<Attribute>, Result<ParamType, ErrV>) {
    let (kept, res) = attrs_scan(pt, ParamType::Unmarked, pt.attrs@, 0, Seq::empty());
    match res {
        Ok(ParamType::Unmarked) => (
            kept,
            fail(pt.span, "must specify either `arg`, `context`, `parent_data`, `request`, or `response` attributes"@),
        ),
        _ => (kept, res),
    }
}

/// The attributes of `s` that are not markers, in their order.
pub open spec fn non_markers(s: Seq<Attribute>) -> Seq<Attribute>
    decreases s.len(),
{
    if s.len() == 0 {
        s
    } else if marker_of(s[0].path) is None {
        seq![s[0]] + non_markers(s.drop_first())
    } else {
        non_markers(s.drop_first())
    }
}

/// The marker attributes of `s`, in their order.
pub open spec fn marker_attrs(s: Seq<Attribute>) -> Seq<Attribute>
    decreases s.len(),
{
    if s.len() == 0 {
        s
    } else if marker_of(s[0].path) is Some {
        seq![s[0]] + marker_attrs(s.drop_first())
    } else {
        marker_attrs(s.drop_first())
    }
}

/// What the marker attributes `ms` of the parameter `pt` make it: nothing
/// when there is none; an argument as its one `arg` attribute declares
/// it; a context, a request or a response by its one attribute of that
/// kind; the data of the parent by a `parent_data` attribute, which any
/// number of `response` attributes may follow.
pub open spec fn role_of(t: ParamType, ms: Seq<Attribute>, pt: PatType) -> bool {
    match t {
        ParamType::Unmarked => ms.len() == 0,
        ParamType::Arg(o) => ms.len() == 1 && marker_of(ms[0].path) == Some(Marker::Arg) && spec_arg_attr(ms[0], pt)
            == Ok::<super::options::ArgOptions, ErrV>(o),
        ParamType::Context(x) => ms.len() == 1 && marker_of(ms[0].path) == Some(Marker::Context) && x == pt.ty,
        ParamType::Request => ms.len() == 1 && marker_of(ms[0].path) == Some(Marker::Request),
        ParamType::Response => ms.len() == 1 && marker_of(ms[0].path) == Some(Marker::Response),
        ParamType::ParentData(x) => {
            &&& ms.len() >= 1
            &&& marker_of(ms[0].path) == Some(Marker::ParentData)
            &&& x == pt.ty
            &&& forall|j: int| 0 < j < ms.len() ==> marker_of((#[trigger] ms[j]).path) == Some(Marker::Response)
        },
    }
}

/// A marker attribute that is accepted adds to what the markers seen so
/// far make of the parameter.
proof fn lemma_marker_step_role(ty: ParamType, m: Marker, a: Attribute, pt: PatType, seen: Seq<Attribute>)
    requires
        role_of(ty, seen, pt),
        marker_of(a.path) == Some(m),
        marker_step(ty, m, a, pt) is Ok,
    ensures
        role_of(marker_step(ty, m, a, pt)->Ok_0, seen.push(a), pt),
{
    let s2 = seen.push(a);
    assert(s2[s2.len() - 1] == a);
    if ty is Unmarked {
        assert(seen.len() == 0);
        assert(s2 =~= seq![a]);
    } else if ty is ParentData {
        assert(s2[0] == seen[0]);
        assert forall|j: int| 0 < j < s2.len() implies marker_of((#[trigger] s2[j]).path) == Some(Marker::Response) by {
            if j < seen.len() {
                assert(s2[j] == seen[j]);
            }
        }
    }
}

/// Reading the attributes from the `i`-th on keeps the attributes that are
/// not markers, in their order, and what it makes of the parameter is
/// what all its marker attributes make of it.
proof fn lemma_attrs_scan(
    pt: PatType,
    ty: ParamType,
    attrs: Seq<Attribute>,
    i: int,
    kept: Seq<Attribute>,
    seen: Seq<Attribute>,
)
    requires
        0 <= i <= attrs.len(),
        role_of(ty, seen, pt),
        attrs_scan(pt, ty, attrs, i, kept).1 is Ok,
    ensures
        attrs_scan(pt, ty, attrs, i, kept).0 == kept + non_markers(attrs.skip(i)),
        role_of(attrs_scan(pt, ty, attrs, i, kept).1->Ok_0, seen + marker_attrs(attrs.skip(i)), pt),
    decreases attrs.len() - i,
{
    let s = attrs.skip(i);
    if i == attrs.len() {
        assert(s.len() == 0);
        assert(kept + non_markers(s) =~= kept);
        assert(seen + marker_attrs(s) =~= seen);
    } else {
        let a = attrs[i];
        assert(s[0] == a);
        assert(s.drop_first() =~= attrs.skip(i + 1));
        match marker_of(a.path) {
            None => {
                lemma_attrs_scan(pt, ty, attrs, i + 1, kept.push(a), seen);
                assert(kept.push(a) + non_markers(attrs.skip(i + 1)) =~= kept + (seq![a] + non_markers(attrs.skip(i + 1))));
            },
            Some(m) => {
                lemma_marker_step_role(ty, m, a, pt, seen);
                let ty2 = marker_step(ty, m, a, pt)->Ok_0;
                lemma_attrs_scan(pt, ty2, attrs, i + 1, kept, seen.push(a));
                assert(seen.push(a) + marker_attrs(attrs.skip(i + 1)) =~= seen + (seq![a] + marker_attrs(
                    attrs.skip(i + 1),
                )));
            },
        }
    }
}

/// A parameter read without error keeps its attributes that are not
/// markers, in their order, and stands for exactly one thing: an argument
/// as its one `arg` attribute declares it, a context or the data of the
/// parent of its own type, a request or a response, each by its one
/// marker attribute (`response` attributes may follow `parent_data`).
pub proof fn lemma_param_attrs(pt: PatType)
    requires
        param_result(pt).1 is Ok,
    ensures
        param_result(pt).0 == non_markers(pt.attrs@),
        role_of(param_result(pt).1->Ok_0, marker_attrs(pt.attrs@), pt),
        !(param_result(pt).1->Ok_0 is Unmarked),
{
    let attrs = pt.attrs@;
    assert(attrs.skip(0) =~= attrs);
    assert(role_of(ParamType::Unmarked, Seq::empty(), pt));
    lemma_attrs_scan(pt, ParamType::Unmarked, attrs, 0, Seq::empty(), Seq::empty());
    assert(Seq::<Attribute>::empty() + non_markers(attrs) =~= non_markers(attrs));
    assert(Seq::<Attribute>::empty() + marker_attrs(attrs) =~= marker_attrs(attrs));
}

/// Reading the parameter `a` is refused.
pub open spec fn refused(a: FnArg) -> bool {
    match a {
        FnArg::Receiver(_) => true,
        FnArg::Typed(pt) => param_result(pt).1 is Err,
    }
}

/// The error that reading the refused parameter `a` gives.
pub open spec fn refusal(a: FnArg) -> ErrV {
    match a {
        FnArg::Receiver(s) => (s, "commands may not take `self` as an argument"@),
        FnArg::Typed(pt) => param_result(pt).1->Err_0,
    }
}

/// `b` is `a` with its attributes replaced by `attrs`.
pub open spec fn with_attrs(a: FnArg, b: FnArg, attrs: Seq<Attribute>) -> bool {
    match a {
        FnArg::Typed(x) => b matches FnArg::Typed(y) && y.attrs@ == attrs && y.pat == x.pat && y.ty == x.ty && y.span
            == x.span,
        FnArg::Receiver(_) => b == a,
    }
}

/// `b` is the parameter `a` after reading it.
pub open spec fn read_param(a: FnArg, b: FnArg) -> bool {
    match a {
        FnArg::Typed(x) => with_attrs(a, b, param_result(x).0),
        FnArg::Receiver(_) => b == a,
    }
}

/// `f` is the first refused parameter.
pub open spec fn first_refused(inputs: Seq<FnArg>, f: int) -> bool {
    &&& 0 <= f < inputs.len()
    &&& refused(inputs[f])
    &&& forall|k: int| 0 <= k < f ==> !refused(#[trigger] inputs[k])
}

fn fail_at<T>(span: Span, message: &str) -> (r: Result<T, AttrError>)
    ensures
        r matches Err(e) && e.span == span && e.message@ == message@,
{
    Err(attr_error(span, message))
}

fn marker(p: &Path) -> (r: Option<Marker>)
    ensures
        r == marker_of(*p),
{
    if p.is_ident("arg") {
        Some(Marker::Arg)
    } else if p.is_ident("context") {
        Some(Marker::Context)
    } else if p.is_ident("parent_data") {
        Some(Marker::ParentData)
    } else if p.is_ident("request") {
        Some(Marker::Request)
    } else if p.is_ident("response") {
        Some(Marker::Response)
    } else {
        None
    }
}

fn clone_type(t: &Type) -> (r: Type)
    ensures
        r == *t,
{
    Type { text: t.text.clone(), span: t.span }
}

fn apply_marker(ty: ParamType, m: Marker, a: Attribute, pt: &PatType) -> (r: Result<ParamType, AttrError>)
    ensures
        match marker_step(ty, m, a, *pt) {
            Ok(t) => r matches Ok(x) && x == t,
            Err((span, msg)) => r matches Err(e) && e.span == span && e.message@ == msg,
        },
{
    let s = a.span;
    match m {
        Marker::Arg => match ty {
            ParamType::Unmarked => {
                let ghost a0 = a;
                match parse_arg_attr(a, pt) {
                    Ok(o) => Ok(ParamType::Arg(o)),
                    Err(e) => Err(e),
                }
            },
            ParamType::Arg(_) => fail_at(s, "`arg` attribute may only be specified once"),
            ParamType::Context(_) => fail_at(s, "`arg` and `context` are mutually exclusive"),
            ParamType::ParentData(_) => fail_at(s, "`arg` and `parent_data` are mutually exclusive"),
            ParamType::Request => fail_at(s, "`arg` and `request` are mutually exclusive"),
            ParamType::Response => fail_at(s, "`arg` and `response` are mutually exclusive"),
        },
        Marker::Context => match ty {
            ParamType::Unmarked => Ok(ParamType::Context(clone_type(&pt.ty))),
            ParamType::Context(_) => fail_at(s, "`context` attribute may only be specified once"),
            ParamType::Arg(_) => fail_at(s, "`arg` and `context` are mutually exclusive"),
            ParamType::ParentData(_) => fail_at(s, "`context` and `parent_data` are mutually exclusive"),
            ParamType::Request => fail_at(s, "`context` and `request` are mutually exclusive"),
            ParamType::Response => fail_at(s, "`context` and `response` are mutually exclusive"),
        },
        Marker::ParentData => match ty {
            ParamType::Unmarked => Ok(ParamType::ParentData(clone_type(&pt.ty))),
            ParamType::ParentData(_) => fail_at(s, "`parent_data` attribute may only be specified once"),
            ParamType::Arg(_) => fail_at(s, "`arg` and `parent_data` are mutually exclusive"),
            ParamType::Context(_) => fail_at(s, "`context` and `parent_data` are mutually exclusive"),
            ParamType::Request => fail_at(s, "`parent_data` and `request` are mutually exclusive"),
            ParamType::Response => fail_at(s, "`parent_data` and `response` are mutually exclusive"),
        },
        Marker::Request => match ty {
            ParamType::Unmarked => Ok(ParamType::Request),
            ParamType::Request => fail_at(s, "`request` attribute may only be specified once"),
            ParamType::Arg(_) => fail_at(s, "`arg` and `request` are mutually exclusive"),
            ParamType::Context(_) => fail_at(s, "`context` and `request` are mutually exclusive"),
            ParamType::ParentData(_) => fail_at(s, "`parent_data` and `request` are mutually exclusive"),
            ParamType::Response => fail_at(s, "`request` and `response` are mutually exclusive"),
        },
        Marker::Response => match ty {
            ParamType::Unmarked => Ok(ParamType::Response),
            ParamType::Response => fail_at(s, "`response` attribute may only be specified once"),
            ParamType::Arg(_) => fail_at(s, "`arg` and `response` are mutually exclusive"),
            ParamType::Context(_) => fail_at(s, "`context` and `response` are mutually exclusive"),
            ParamType::ParentData(t) => Ok(ParamType::ParentData(t)),
            ParamType::Request => fail_at(s, "`request` and `response` are mutually exclusive"),
        },
    }
}

/// Reads the attributes of `pt`, taking out the marker attributes.
fn read_attrs(pt: &mut PatType) -> (r: Result<ParamType, AttrError>)
    ensures
        final(pt).pat == old(pt).pat,
        final(pt).ty == old(pt).ty,
        final(pt).span == old(pt).span,
        final(pt).attrs@ == param_result(*old(pt)).0,
        match param_result(*old(pt)).1 {
            Ok(t) => r matches Ok(x) && x == t,
            Err((span, msg)) => r matches Err(e) && e.span == span && e.message@ == msg,
        },
{
    let ghost p0 = *pt;
    let ghost all = pt.attrs@;
    let mut rest: Vec<Attribute> = Vec::new();
    std::mem::swap(&mut rest, &mut pt.attrs);
    let mut kept: Vec<Attribute> = Vec::new();
    let mut ty = ParamType::Unmarked;
    let total = rest.len();
    let mut i: usize = 0;
    while rest.len() > 0
        invariant
            i + rest@.len() == all.len(),
            all.len() == total,
            all == p0.attrs@,
            p0 == *old(pt),
            rest@ == all.skip(i as int),
            pt.pat == p0.pat && pt.ty == p0.ty && pt.span == p0.span,
            pt.attrs@.len() == 0,
            attrs_scan(p0, ty, all, i as int, kept@) == attrs_scan(p0, ParamType::Unmarked, all, 0, Seq::empty()),
        decreases rest@.len(),
    {
        let a = rest.remove(0);
        assert(a == all[i as int]);
        assert(rest@ == all.skip(i + 1));
        match marker(&a.path) {
            None => {
                kept.push(a);
            },
            Some(m) => {
                assert(pt.pat == p0.pat && pt.ty == p0.ty && pt.span == p0.span);
                let probe = PatType { attrs: Vec::new(), pat: clone_pat(&pt.pat), ty: clone_type(&pt.ty), span: pt.span };
                assert(marker_step(ty, m, a, probe) == marker_step(ty, m, a, p0)) by {
                    assert(super::arg_spec::initial_arg(probe) == super::arg_spec::initial_arg(p0));
                }
                match apply_marker(ty, m, a, &probe) {
                    Ok(t) => {
                        ty = t;
                    },
                    Err(e) => {
                        kept.append(&mut rest);
                        pt.attrs = kept;
                        return Err(e);
                    },
                }
            },
        }
        i = i + 1;
    }
    pt.attrs = kept;
    match ty {
        ParamType::Unmarked => fail_at(
            pt.span,
            "must specify either `arg`, `context`, `parent_data`, `request`, or `response` attributes",
        ),
        other => Ok(other),
    }
}

fn clone_pat(p: &super::syntax::Pat) -> (r: super::syntax::Pat)
    ensures
        r == *p,
{
    match p {
        super::syntax::Pat::Ident(i) => super::syntax::Pat::Ident(
            super::syntax::Ident { name: i.name.clone(), span: i.span },
        ),
        super::syntax::Pat::Other(s) => super::syntax::Pat::Other(*s),
    }
}

/// Reads the parameters of a command: what each stands for, taking their
/// marker attributes out. A `self` parameter, or a parameter refused,
/// ends the reading: the parameters before it have been read, and those
/// after it are left as they were.
pub fn parse_param_attrs(item: &mut ItemFn) -> (r: Result<Vec<ParamType>, AttrError>)
    ensures
        final(item).inputs@.len() == old(item).inputs@.len(),
        (exists|f: int| first_refused(old(item).inputs@, f)) ==> ({
            let f = choose|f: int| first_refused(old(item).inputs@, f);
            &&& r matches Err(e) && e.span == refusal(old(item).inputs@[f]).0 && e.message@ == refusal(
                old(item).inputs@[f],
            ).1
            &&& forall|k: int| 0 <= k <= f ==> read_param(old(item).inputs@[k], #[trigger] final(item).inputs@[k])
            &&& forall|k: int| f < k < old(item).inputs@.len() ==> #[trigger] final(item).inputs@[k] == old(
                item,
            ).inputs@[k]
        }),
        !(exists|f: int| first_refused(old(item).inputs@, f)) ==> (r matches Ok(v) && v@.len() == old(
            item,
        ).inputs@.len() && forall|k: int|
            0 <= k < old(item).inputs@.len() ==> read_param(old(item).inputs@[k], #[trigger] final(item).inputs@[k])
                && (old(item).inputs@[k] matches FnArg::Typed(pt) && param_result(pt).1 == Ok::<ParamType, ErrV>(
            v@[k],
        ))),
{
    let ghost all = item.inputs@;
    let mut rest: Vec<FnArg> = Vec::new();
    std::mem::swap(&mut rest, &mut item.inputs);
    let mut done: Vec<FnArg> = Vec::new();
    let mut params: Vec<ParamType> = Vec::new();
    let total = rest.len();
    let mut i: usize = 0;
    while rest.len() > 0
        invariant
            i + rest@.len() == all.len(),
            all.len() == total,
            all == old(item).inputs@,
            rest@ == all.skip(i as int),
            done@.len() == i,
            params@.len() == i,
            item.inputs@.len() == 0,
            forall|k: int| 0 <= k < i ==> !refused(#[trigger] all[k]),
            forall|k: int| 0 <= k < i ==> read_param(all[k], #[trigger] done@[k]),
            forall|k: int|
                0 <= k < i ==> (#[trigger] all[k] matches FnArg::Typed(pt) && param_result(pt).1 == Ok::<
                    ParamType,
                    ErrV,
                >(params@[k])),
        decreases rest@.len(),
    {
        let a = rest.remove(0);
        assert(a == all[i as int]);
        assert(rest@ == all.skip(i + 1));
        match a {
            FnArg::Receiver(s) => {
                let ghost d0 = done@;
                done.push(FnArg::Receiver(s));
                done.append(&mut rest);
                item.inputs = done;
                proof {
                    assert(first_refused(all, i as int));
                    let f = choose|f: int| first_refused(all, f);
                    if f < i {
                        assert(!refused(all[f]));
                    } else if i < f {
                        assert(!refused(all[i as int]));
                    }
                    assert forall|k: int| i < k < all.len() implies #[trigger] item.inputs@[k] == all[k] by {
                        assert(item.inputs@[k] == all.skip(i + 1)[k - i - 1]);
                    }
                    assert forall|k: int| 0 <= k <= i implies read_param(all[k], #[trigger] item.inputs@[k]) by {
                        if k < i {
                            assert(item.inputs@[k] == d0[k]);
                        }
                    }
                }
                return fail_at(s, "commands may not take `self` as an argument");
            },
            FnArg::Typed(pt) => {
                let mut pt = pt;
                let res = read_attrs(&mut pt);
                let ghost d0 = done@;
                done.push(FnArg::Typed(pt));
                match res {
                    Ok(t) => {
                        params.push(t);
                        proof {
                            assert forall|k: int| 0 <= k < i + 1 implies read_param(all[k], #[trigger] done@[k]) by {
                                if k < i {
                                    assert(done@[k] == d0[k]);
                                }
                            }
                        }
                    },
                    Err(e) => {
                        done.append(&mut rest);
                        item.inputs = done;
                        proof {
                            assert(first_refused(all, i as int));
                            let f = choose|f: int| first_refused(all, f);
                            if f < i {
                                assert(!refused(all[f]));
                            } else if i < f {
                                assert(!refused(all[i as int]));
                            }
                            assert forall|k: int| i < k < all.len() implies #[trigger] item.inputs@[k] == all[k] by {
                                assert(item.inputs@[k] == all.skip(i + 1)[k - i - 1]);
                            }
                            assert forall|k: int| 0 <= k <= i implies read_param(all[k], #[trigger] item.inputs@[k]) by {
                                if k < i {
                                    assert(item.inputs@[k] == d0[k]);
                                }
                            }
                        }
                        return Err(e);
                    },
                }
            },
        }
        i = i + 1;
    }
    item.inputs = done;
    proof {
        if exists|f: int| first_refused(all, f) {
            let f = choose|f: int| first_refused(all, f);
            assert(!refused(all[f]));
        }
    }
    Ok(params)
}

} // verus!
