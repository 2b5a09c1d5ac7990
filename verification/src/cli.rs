use std::marker::PhantomData;

use vstd::prelude::*;

use crate::error::{internal_error, parse_error, RpcError};
use crate::handler::{CliArgs, CliCommand, CliError, ContextId, Invocation, Node, ParentHandler};
use crate::server::{RpcParams, RpcRequest, RpcResponse};
use crate::util::str_eq;
use crate::value::{keys_unique, Value};

verus! {

/// A command-line program over a handler tree, run in one context.
pub struct CliApp {
    pub root_handler: ParentHandler,
    pub context: ContextId,
}

/// Why a command line could not be run.
pub enum CliRunError {
    /// The arguments were refused.
    Cli(CliError),
    /// No handler serves the method.
    Rpc(RpcError),
}

/// What running a command line comes to: the implementation to run, and
/// whether its result can be shown on the command line (every handler on
/// the way has command-line bindings); when it cannot, the run ends in
/// "method not found" after the implementation has run.
pub struct CliPlan {
    pub invocation: Invocation,
    pub display: bool,
}

impl CliApp {
    pub fn new(root_handler: ParentHandler, context: ContextId) -> (r: Self)
        ensures
            r.root_handler == root_handler,
            r.context == context,
    {
        CliApp { root_handler, context }
    }

    /// The program's command: the command of its configuration `config`,
    /// with a named subcommand for each entry of the root whose handler for
    /// the context has command-line bindings.
    pub fn command(&self, config: CliCommand) -> (r: CliCommand)
        ensures
            r.params == config.params,
            r.name == config.name,
            r.about == config.about,
            r.subcommand_required == config.subcommand_required,
            exists|c: CliCommand|
                crate::handler::cli::describes(c, Node::Parent(self.root_handler), self.context)
                    && r.subcommands@ == config.subcommands@ + c.subcommands@,
    {
        let mut c = self.root_handler.cli_command(self.context);
        let ghost c0 = c;
        let mut config = config;
        let ghost s0 = config.subcommands@;
        config.subcommands.append(&mut c.subcommands);
        assert(config.subcommands@ == s0 + c0.subcommands@);
        config
    }

    /// Reads the command line `args` (the arguments of the root handler and
    /// the subcommands given) and finds what to run.
    pub fn plan(&self, args: CliArgs) -> (r: Result<CliPlan, CliRunError>)
        ensures
            ({
                let n = Node::Parent(self.root_handler);
                let ctx = self.context;
                match crate::value::merge_chain(crate::handler::cli::spec_cli_chain(n, args, ctx)) {
                    crate::value::Merged::Failed(msg) => r matches Err(CliRunError::Cli(e)) && e.message@ == msg,
                    _ => {
                        let m = crate::handler::cli::spec_cli_method(n, args, ctx);
                        match self.root_handler.spec_route(ctx, m, false) {
                            Some((l, k)) => r matches Ok(plan) && plan.invocation.handler == l.id
                                && plan.invocation.context == ctx && crate::handler::names(
                                plan.invocation.parent_method@,
                            ) == m.take(k as int) && crate::handler::names(plan.invocation.method@) == m.skip(
                                k as int,
                            ) && plan.invocation.display == l.display && plan.invocation.blocking == l.blocking
                                && plan.invocation.remote == (l.remote == Some(ctx)) && plan.invocation.inherited@
                                == self.root_handler.spec_inherited(ctx, m, false) && plan.display == (
                            self.root_handler.spec_route(ctx, m, true) is Some),
                            None => r matches Err(CliRunError::Rpc(e)) && crate::error::is_method_not_found(e),
                        }
                    },
                }
            }),
    {
        let ghost a0 = args;
        let (method, params) = match self.root_handler.cli_parse(args, self.context) {
            Ok(x) => x,
            Err(e) => {
                return Err(CliRunError::Cli(e));
            },
        };
        let ghost mv = crate::handler::names(method@);
        let shown = self.root_handler.route(
            self.context,
            Vec::new(),
            clone_names(&method),
            crate::value::Value::Null,
            Vec::new(),
            true,
        ).is_ok();
        match self.root_handler.route(self.context, Vec::new(), method, params, Vec::new(), false) {
            Ok(invocation) => {
                proof {
                    assert(crate::handler::names(Seq::<String>::empty()) =~= Seq::<Seq<char>>::empty());
                    let (l, k) = self.root_handler.spec_route(self.context, mv, false).unwrap();
                    assert(Seq::<Seq<char>>::empty() + mv.take(k as int) =~= mv.take(k as int));
                    assert(Seq::<crate::handler::ParamsId>::empty() + self.root_handler.spec_inherited(
                        self.context,
                        mv,
                        false,
                    ) =~= self.root_handler.spec_inherited(self.context, mv, false));
                }
                Ok(CliPlan { invocation, display: shown })
            },
            Err(e) => Err(CliRunError::Rpc(e)),
        }
    }
}

fn clone_names(v: &Vec<String>) -> (r: Vec<String>)
    ensures
        crate::handler::names(r@) == crate::handler::names(v@),
{
    let mut r: Vec<String> = Vec::new();
    let mut i: usize = 0;
    while i < v.len()
        invariant
            i <= v@.len(),
            r@.len() == i,
            forall|k: int| 0 <= k < i ==> (#[trigger] r@[k])@ == v@[k]@,
        decreases v@.len() - i,
    {
        r.push(v[i].clone());
        i = i + 1;
    }
    assert(crate::handler::names(r@) =~= crate::handler::names(v@));
    r
}

/// The method components joined with dots.
pub open spec fn join_dots(parts: Seq<Seq<char>>) -> Seq<char>
    decreases parts.len(),
{
    if parts.len() == 0 {
        Seq::empty()
    } else if parts.len() == 1 {
        parts[0]
    } else {
        join_dots(parts.drop_last()) + "."@ + parts.last()
    }
}

/// Appends the `n`-th part to the first `n` parts joined.
fn append_part(r: &mut String, part: &str, first: bool, Ghost(parts): Ghost<Seq<Seq<char>>>, Ghost(n): Ghost<int>)
    requires
        0 <= n < parts.len(),
        part@ == parts[n],
        first == (n == 0),
        old(r)@ == join_dots(parts.take(n)),
    ensures
        final(r)@ == join_dots(parts.take(n + 1)),
{
    if !first {
        r.append(".");
    }
    r.append(part);
    proof {
        let t = parts.take(n + 1);
        assert(t.drop_last() =~= parts.take(n));
        assert(t.last() == parts[n]);
        if n == 0 {
            assert(t =~= seq![parts[0]]);
        }
    }
}

/// A handler that forwards its calls to the server of `RemoteContext`
/// that serves `RemoteHandler`.
pub struct CallRemote<RemoteContext, RemoteHandler>(pub PhantomData<(RemoteContext, RemoteHandler)>);

impl<RemoteContext, RemoteHandler> CallRemote<RemoteContext, RemoteHandler> {
    pub fn new() -> (r: Self)
        ensures
            r == CallRemote::<RemoteContext, RemoteHandler>(PhantomData),
    {
        CallRemote(PhantomData)
    }

    /// The method a forwarded call names on the server: the method that led
    /// to the handler, then what is left of it, joined with dots.
    pub fn full_method(&self, parent_method: &Vec<String>, method: &Vec<String>) -> (r: String)
        ensures
            r@ == join_dots(crate::handler::names(parent_method@) + crate::handler::names(method@)),
    {
        let ghost parts = crate::handler::names(parent_method@) + crate::handler::names(method@);
        let mut r = String::new();
        assert(parts.take(0) =~= Seq::<Seq<char>>::empty());
        let mut i: usize = 0;
        while i < parent_method.len()
            invariant
                i <= parent_method@.len(),
                parts == crate::handler::names(parent_method@) + crate::handler::names(method@),
                r@ == join_dots(parts.take(i as int)),
            decreases parent_method@.len() - i,
        {
            assert(parent_method[i as int]@ == parts[i as int]);
            append_part(&mut r, parent_method[i].as_str(), i == 0, Ghost(parts), Ghost(i as int));
            i = i + 1;
        }
        let mut j: usize = 0;
        while j < method.len()
            invariant
                j <= method@.len(),
                parts == crate::handler::names(parent_method@) + crate::handler::names(method@),
                r@ == join_dots(parts.take(parent_method@.len() + j)),
            decreases method@.len() - j,
        {
            assert(method[j as int]@ == parts[parent_method@.len() + j]);
            append_part(&mut r, method[j].as_str(), parent_method.len() == 0 && j == 0, Ghost(parts), Ghost(parent_method@.len() + j));
            j = j + 1;
        }
        let ghost n = parent_method@.len() + method@.len();
        assert(parts.take(n as int) =~= parts);
        r
    }
}

/// The request that a call of `method` on a remote server sends: id 0,
/// and the parameters by name.
pub fn remote_request(method: String, params: Vec<(String, Value)>) -> (r: RpcRequest)
    ensures
        r.id matches Some(Value::Number(n)) && n@ == "0"@,
        r.method == method,
        r.params == RpcParams::Named(params),
{
    RpcRequest { id: Some(Value::Number(String::from_str("0"))), method, params: RpcParams::Named(params) }
}

/// Whether the reply to a remote call over HTTP is read, by its content
/// type: only a JSON reply is.
pub fn reads_reply(content_type: Option<&str>) -> (r: bool)
    ensures
        r == (content_type matches Some(t) && t@ == "application/json"@),
{
    match content_type {
        Some(t) => str_eq(t, "application/json"),
        None => false,
    }
}

/// The error of a remote call whose reply is not JSON.
pub fn missing_content_type() -> (e: RpcError)
    ensures
        e.code == crate::error::internal_error_code(),
        e.message@ == "Internal error"@,
        e.data matches Some(Value::String(d)) && d@ == "missing content type"@,
{
    internal_error(String::from_str("missing content type"))
}

/// The result of a remote call from the reply that was read: the reply
/// could not be read (an internal error, with the reason), it was not a
/// response (a parse error, with the reason), or the response's result.
pub fn reply_result(reply: Result<Result<RpcResponse, String>, String>) -> (r: Result<Value, RpcError>)
    ensures
        match reply {
            Err(d) => r matches Err(e) && crate::error::is_standard_with(
                e,
                crate::error::internal_error_code(),
                "Internal error"@,
                d,
            ),
            Ok(Err(d)) => r matches Err(e) && crate::error::is_standard_with(
                e,
                crate::error::parse_error_code(),
                "Parse error"@,
                d,
            ),
            Ok(Ok(response)) => r == response.result,
        },
{
    match reply {
        Err(d) => Err(internal_error(d)),
        Ok(Err(d)) => Err(parse_error(d)),
        Ok(Ok(response)) => response.result,
    }
}

/// The entries that a value gives when serde writes it flattened into an
/// object: an object its entries, null none; anything else cannot be
/// flattened.
pub open spec fn flat_entries(v: Value) -> Option<Seq<(String, Value)>> {
    match v {
        Value::Object(o) => Some(o@),
        Value::Null => Some(Seq::empty()),
        _ => None,
    }
}

/// `s` without its entries under `k`.
pub open spec fn drop_key(s: Seq<(String, Value)>, k: Seq<char>) -> Seq<(String, Value)>
    decreases s.len(),
{
    if s.len() == 0 {
        s
    } else {
        let r = drop_key(s.drop_last(), k);
        if s.last().0@ == k {
            r
        } else {
            r.push(s.last())
        }
    }
}

/// The entries of `acc` with each of `es` put in turn, as a map keeps
/// them: an entry under a key already held replaces it and goes last.
pub open spec fn put_all(acc: Seq<(String, Value)>, es: Seq<(String, Value)>) -> Seq<(String, Value)>
    decreases es.len(),
{
    if es.len() == 0 {
        acc
    } else {
        put_all(drop_key(acc, es[0].0@).push(es[0]), es.drop_first())
    }
}

/// Taking out the entries under `k` leaves entries that hold each key
/// once, none of them `k`, when `s` held each key once.
proof fn lemma_drop_key(s: Seq<(String, Value)>, k: Seq<char>)
    ensures
        keys_unique(s) ==> keys_unique(drop_key(s, k)),
        forall|i: int| 0 <= i < drop_key(s, k).len() ==> (#[trigger] drop_key(s, k)[i]).0@ != k,
        forall|i: int| 0 <= i < drop_key(s, k).len() ==> s.contains(#[trigger] drop_key(s, k)[i]),
    decreases s.len(),
{
    if s.len() > 0 {
        let r = drop_key(s.drop_last(), k);
        lemma_drop_key(s.drop_last(), k);
        assert forall|i: int| 0 <= i < r.len() implies s.contains(#[trigger] r[i]) by {
            let t = choose|t: int| 0 <= t < s.drop_last().len() && s.drop_last()[t] == r[i];
            assert(s[t] == r[i]);
        }
        if s.last().0@ != k {
            let d = r.push(s.last());
            assert(s[s.len() - 1] == s.last());
            if keys_unique(s) {
                assert(keys_unique(s.drop_last()));
                assert forall|i: int, j: int| 0 <= i < j < d.len() implies (#[trigger] d[i]).0@ != (#[trigger] d[j]).0@ by {
                    if j == r.len() {
                        assert(d[i] == r[i]);
                        let t = choose|t: int| 0 <= t < s.drop_last().len() && s.drop_last()[t] == r[i];
                        assert(s[t] == r[i]);
                    }
                }
            }
            assert forall|i: int| 0 <= i < d.len() implies s.contains(#[trigger] d[i]) by {
                if i < r.len() {
                    assert(d[i] == r[i]);
                } else {
                    assert(d[i] == s[s.len() - 1]);
                }
            }
        }
    }
}

/// Putting entries in turn into entries that hold each key once keeps each
/// key once.
proof fn lemma_put_all_unique(acc: Seq<(String, Value)>, es: Seq<(String, Value)>)
    requires
        keys_unique(acc),
    ensures
        keys_unique(put_all(acc, es)),
    decreases es.len(),
{
    if es.len() > 0 {
        let d = drop_key(acc, es[0].0@);
        lemma_drop_key(acc, es[0].0@);
        let p = d.push(es[0]);
        assert forall|i: int, j: int| 0 <= i < j < p.len() implies (#[trigger] p[i]).0@ != (#[trigger] p[j]).0@ by {
            if j == d.len() {
                assert(p[i] == d[i]);
            } else {
                assert(p[i] == d[i] && p[j] == d[j]);
            }
        }
        lemma_put_all_unique(p, es.drop_first());
    }
}

/// The parameters that a forwarded call sends, as serde writes a handler's
/// own parameters and the inherited ones flattened into one object.
pub open spec fn spec_remote_params(params: Value, inherited: Value) -> Option<Seq<(String, Value)>> {
    match (flat_entries(params), flat_entries(inherited)) {
        (Some(a), Some(b)) => Some(put_all(Seq::empty(), a + b)),
        _ => None,
    }
}

/// `acc` with the entry `e` put: any entry under its key taken out, and
/// `e` added last.
fn put_entry(acc: Vec<(String, Value)>, e: (String, Value)) -> (r: Vec<(String, Value)>)
    ensures
        r@ == drop_key(acc@, e.0@).push(e),
{
    let ghost all = acc@;
    let mut out: Vec<(String, Value)> = Vec::new();
    let mut rest = acc;
    let ghost mut j: int = 0;
    assert(all.take(0) =~= Seq::<(String, Value)>::empty());
    while rest.len() > 0
        invariant
            0 <= j <= all.len(),
            rest@ == all.skip(j),
            out@ == drop_key(all.take(j), e.0@),
        decreases rest@.len(),
    {
        let x = rest.remove(0);
        proof {
            assert(x == all[j]);
            assert(all.take(j + 1).drop_last() =~= all.take(j));
            assert(all.take(j + 1).last() == all[j]);
            assert(rest@ =~= all.skip(j + 1));
        }
        if !str_eq(x.0.as_str(), e.0.as_str()) {
            out.push(x);
        }
        proof {
            j = j + 1;
        }
    }
    assert(all.take(j) =~= all);
    out.push(e);
    out
}

/// The entries of a value written flattened, or `None` for a value that
/// cannot be.
fn flat_of(v: Value) -> (r: Option<Vec<(String, Value)>>)
    ensures
        match flat_entries(v) {
            Some(s) => r matches Some(x) && x@ == s,
            None => r is None,
        },
{
    match v {
        Value::Object(o) => Some(o),
        Value::Null => Some(Vec::new()),
        _ => None,
    }
}

/// The parameters that a forwarded call sends: the handler's own and the
/// inherited ones in one object, as serde writes the pair flattened. Each
/// entry is put in turn, so a key given twice keeps its last value, at
/// the place where it was last put. `None` where either is neither an
/// object nor null: serde cannot flatten it, and the call fails with a
/// parse error that carries serde's reason.
pub fn remote_params(params: Value, inherited: Value) -> (r: Option<Vec<(String, Value)>>)
    ensures
        match spec_remote_params(params, inherited) {
            Some(s) => r matches Some(v) && v@ == s,
            None => r is None,
        },
        r matches Some(v) ==> keys_unique(v@),
{
    let a = match flat_of(params) {
        Some(a) => a,
        None => return None,
    };
    let b = match flat_of(inherited) {
        Some(b) => b,
        None => return None,
    };
    let ghost es = a@ + b@;
    let mut acc: Vec<(String, Value)> = Vec::new();
    let mut rest = a;
    let mut more = b;
    rest.append(&mut more);
    assert(rest@ == es);
    let ghost mut i: int = 0;
    assert(es.skip(0) =~= es);
    while rest.len() > 0
        invariant
            0 <= i <= es.len(),
            rest@ == es.skip(i),
            put_all(acc@, es.skip(i)) == put_all(Seq::empty(), es),
        decreases rest@.len(),
    {
        let e = rest.remove(0);
        proof {
            let s = es.skip(i);
            assert(e == s[0]);
            assert(s.drop_first() =~= es.skip(i + 1));
            assert(rest@ =~= es.skip(i + 1));
        }
        acc = put_entry(acc, e);
        proof {
            i = i + 1;
        }
    }
    assert(es.skip(i) =~= Seq::<(String, Value)>::empty());
    proof {
        lemma_put_all_unique(Seq::empty(), es);
    }
    Some(acc)
}

/// The result of a forwarded call from what the server answered: the
/// result, when it could be read as the handler's result; an internal
/// error with the reason when it could not; the server's error as it is.
pub fn remote_outcome(answer: Result<Result<Value, String>, RpcError>) -> (r: Result<Value, RpcError>)
    ensures
        match answer {
            Ok(Ok(v)) => r == Ok::<Value, RpcError>(v),
            Ok(Err(d)) => r matches Err(e) && crate::error::is_standard_with(
                e,
                crate::error::internal_error_code(),
                "Internal error"@,
                d,
            ),
            Err(e) => r == Err::<Value, RpcError>(e),
        },
{
    match answer {
        Ok(Ok(v)) => Ok(v),
        Ok(Err(d)) => Err(internal_error(d)),
        Err(e) => Err(e),
    }
}

/// `k` is the key of one of the entries `ks`.
pub open spec fn key_in(ks: Seq<(String, Value)>, k: Seq<char>) -> bool {
    exists|j: int| 0 <= j < ks.len() && (#[trigger] ks[j]).0@ == k
}

/// The entries of `s` whose keys none of `ks` holds, in their order.
pub open spec fn drop_keys(s: Seq<(String, Value)>, ks: Seq<(String, Value)>) -> Seq<(String, Value)>
    decreases s.len(),
{
    if s.len() == 0 {
        s
    } else {
        let r = drop_keys(s.drop_last(), ks);
        if key_in(ks, s.last().0@) {
            r
        } else {
            r.push(s.last())
        }
    }
}

/// The raw parameters of a call with the keys of the extra values taken
/// out; both must be objects.
pub open spec fn spec_without(raw: Value, extra: Value) -> Option<Seq<(String, Value)>> {
    match (raw, extra) {
        (Value::Object(a), Value::Object(b)) => Some(drop_keys(a@, b@)),
        _ => None,
    }
}

/// Whether one of `ks` has the key `k`.
fn has_key_among(ks: &Vec<(String, Value)>, k: &str) -> (r: bool)
    ensures
        r == key_in(ks@, k@),
{
    let mut j: usize = 0;
    while j < ks.len()
        invariant
            j <= ks@.len(),
            forall|m: int| 0 <= m < j ==> (#[trigger] ks@[m]).0@ != k@,
        decreases ks@.len() - j,
    {
        if str_eq(ks[j].0.as_str(), k) {
            assert(ks@[j as int].0@ == k@);
            return true;
        }
        j = j + 1;
    }
    false
}

/// `raw` with the entries under the keys that `extra` holds taken out, the
/// others kept in their order; `None` where either is not an object.
pub fn without(raw: Value, extra: &Value) -> (r: Option<Value>)
    ensures
        match spec_without(raw, *extra) {
            Some(s) => r matches Some(Value::Object(v)) && v@ == s,
            None => r is None,
        },
{
    let ks = match extra {
        Value::Object(ks) => ks,
        _ => return None,
    };
    let entries = match raw {
        Value::Object(entries) => entries,
        _ => return None,
    };
    let ghost all = entries@;
    let mut out: Vec<(String, Value)> = Vec::new();
    let mut rest = entries;
    let ghost mut i: int = 0;
    assert(all.take(0) =~= Seq::<(String, Value)>::empty());
    while rest.len() > 0
        invariant
            0 <= i <= all.len(),
            rest@ == all.skip(i),
            out@ == drop_keys(all.take(i), ks@),
        decreases rest@.len(),
    {
        let e = rest.remove(0);
        assert(e == all[i]);
        assert(all.take(i + 1).drop_last() =~= all.take(i));
        assert(all.take(i + 1).last() == e);
        if !has_key_among(ks, e.0.as_str()) {
            out.push(e);
        }
        proof {
            i = i + 1;
        }
        assert(rest@ =~= all.skip(i));
    }
    assert(all.take(i) =~= all);
    Some(Value::Object(out))
}

/// What a handler served from a remote context hands to the remote call
/// of the command line: the full method, the raw parameters without the
/// extra ones, and the extra ones on their own.
pub struct RemoteCall {
    pub method: String,
    pub params: Value,
    pub extra: Value,
}

/// The remote call for the handler at `parent_method` and `method`, given
/// the raw parameters and the extra values; invalid params where either is
/// not an object.
pub fn remote_call(parent_method: &Vec<String>, method: &Vec<String>, raw_params: Value, extra: Value) -> (r: Result<
    RemoteCall,
    RpcError,
>)
    ensures
        match spec_without(raw_params, extra) {
            Some(s) => r matches Ok(c) && c.method@ == join_dots(
                crate::handler::names(parent_method@) + crate::handler::names(method@),
            ) && (c.params matches Value::Object(v) && v@ == s) && c.extra == extra,
            None => r matches Err(e) && e.code == crate::error::invalid_params_code() && e.message@ == "Invalid params"@
                && (e.data matches Some(Value::String(d)) && d@ == "the parameters and the extra values must be objects"@),
        },
{
    match without(raw_params, &extra) {
        Some(params) => {
            let caller: CallRemote<(), ()> = CallRemote::new();
            let method = caller.full_method(parent_method, method);
            Ok(RemoteCall { method, params, extra })
        },
        None => Err(
            crate::error::invalid_params(String::from_str("the parameters and the extra values must be objects")),
        ),
    }
}

} // verus!
