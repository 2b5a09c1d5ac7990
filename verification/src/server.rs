use vstd::prelude::*;

use crate::error::{invalid_params, method_not_found, RpcError};
use crate::handler::{ContextId, Invocation, ParentHandler};
use crate::value::Value;

verus! {

/// The parameters of a JSON-RPC request: a list, or an object.
pub enum RpcParams {
    Positional(Vec<Value>),
    Named(Vec<(String, Value)>),
}

/// A JSON-RPC request.
pub struct RpcRequest {
    pub id: Option<Value>,
    pub method: String,
    pub params: RpcParams,
}

/// A JSON-RPC response: the id of the request, and its result or error.
pub struct RpcResponse {
    pub id: Option<Value>,
    pub result: Result<Value, RpcError>,
}

/// A request, or a batch of requests answered together.
pub enum SingleOrBatchRpcRequest {
    Single(RpcRequest),
    Batch(Vec<RpcRequest>),
}

/// `r` is what [`Server::handle_single_request`] gives for `request`.
pub open spec fn answers(s: Server, request: RpcRequest, r: Result<(Option<Value>, Invocation), RpcResponse>) -> bool {
    match request.params {
        RpcParams::Named(a) => match spec_command(s.root_handler, s.context, request.method@) {
            Some((l, m, k)) => r matches Ok((id, inv)) && id == request.id && (inv.params matches Value::Object(o)
                && o@ == a@) && invokes(inv, l, m, k, s.context, inv.params) && inv.inherited@
                == s.root_handler.spec_inherited(s.context, m, false),
            None => r matches Err(resp) && resp.id == request.id && (resp.result matches Err(e)
                && crate::error::is_method_not_found(e)),
        },
        RpcParams::Positional(_) => r matches Err(resp) && resp.id == request.id && (resp.result matches Err(e)
            && e.code == crate::error::invalid_params_code() && e.message@ == "Invalid params"@ && (e.data matches Some(
            Value::String(d),
        ) && d@ == "positional parameters unsupported"@)),
    }
}

/// Serves the handlers of a tree in one context.
pub struct Server {
    pub root_handler: ParentHandler,
    pub context: ContextId,
}

/// The leaf that a dotted method leads to from `p` in context `ctx`, with
/// the method's components and how many of them the way there used.
pub open spec fn spec_command(p: ParentHandler, ctx: ContextId, method: Seq<char>) -> Option<
    (crate::handler::LeafHandler, Seq<Seq<char>>, nat),
> {
    match p.spec_from_dots(method, ctx) {
        Some(m) => match p.spec_route(ctx, m, false) {
            Some((l, k)) => Some((l, m, k)),
            None => None,
        },
        None => None,
    }
}

/// `inv` runs leaf `l` for the method whose components are `m`, `k` of
/// them used on the way, with `params`.
pub open spec fn invokes(
    inv: Invocation,
    l: crate::handler::LeafHandler,
    m: Seq<Seq<char>>,
    k: nat,
    ctx: ContextId,
    params: Value,
) -> bool {
    &&& inv.handler == l.id
    &&& inv.context == ctx
    &&& crate::handler::names(inv.parent_method@) == m.take(k as int)
    &&& crate::handler::names(inv.method@) == m.skip(k as int)
    &&& inv.params == params
    &&& inv.blocking == l.blocking
    &&& inv.display == l.display
    &&& inv.remote == (l.remote == Some(ctx))
}

impl Server {
    pub fn new(root_handler: ParentHandler, context: ContextId) -> (r: Self)
        ensures
            r.root_handler == root_handler,
            r.context == context,
    {
        Server { root_handler, context }
    }

    /// What a call of the dotted `method` with `params` runs: the leaf that
    /// the method leads to in the server's context, or "method not found".
    pub fn handle_command(&self, method: &str, params: Value) -> (r: Result<Invocation, RpcError>)
        ensures
            match spec_command(self.root_handler, self.context, method@) {
                Some((l, m, k)) => r matches Ok(inv) && invokes(inv, l, m, k, self.context, params)
                    && inv.inherited@ == self.root_handler.spec_inherited(self.context, m, false),
                None => r matches Err(e) && crate::error::is_method_not_found(e),
            },
    {
        match self.root_handler.method_from_dots(method, self.context) {
            None => Err(method_not_found()),
            Some(m) => {
                let ghost mv = crate::handler::names(m@);
                let r = self.root_handler.route(self.context, Vec::new(), m, params, Vec::new(), false);
                proof {
                    assert(crate::handler::names(Seq::<String>::empty()) =~= Seq::<Seq<char>>::empty());
                    assert(Seq::<crate::handler::ParamsId>::empty() + self.root_handler.spec_inherited(self.context, mv, false)
                        =~= self.root_handler.spec_inherited(self.context, mv, false));
                    if let Some((l, k)) = self.root_handler.spec_route(self.context, mv, false) {
                        assert(Seq::<Seq<char>>::empty() + mv.take(k as int) =~= mv.take(k as int));
                    }
                }
                r
            },
        }
    }

    /// What a single request asks: the invocation to run, with the id to
    /// answer under; or, when it cannot be run, the response to send at
    /// once. Parameters given as a list are refused.
    pub fn handle_single_request(&self, request: RpcRequest) -> (r: Result<(Option<Value>, Invocation), RpcResponse>)
        ensures
            answers(*self, request, r),
    {
        let RpcRequest { id, method, params } = request;
        match params {
            RpcParams::Named(a) => match self.handle_command(method.as_str(), Value::Object(a)) {
                Ok(inv) => Ok((id, inv)),
                Err(e) => Err(RpcResponse { id, result: Err(e) }),
            },
            RpcParams::Positional(_) => {
                let detail = String::from_str("positional parameters unsupported");
                Err(RpcResponse { id, result: Err(invalid_params(detail)) })
            },
        }
    }

    /// What each request of a batch asks, in the order of the batch; a
    /// single request is a batch of one.
    pub fn handle(&self, request: SingleOrBatchRpcRequest) -> (r: Vec<Result<(Option<Value>, Invocation), RpcResponse>>)
        ensures
            match request {
                SingleOrBatchRpcRequest::Single(req) => r@.len() == 1 && answers(*self, req, r@[0]),
                SingleOrBatchRpcRequest::Batch(reqs) => r@.len() == reqs@.len() && forall|i: int|
                    0 <= i < reqs@.len() ==> answers(*self, reqs@[i], #[trigger] r@[i]),
            },
    {
        let mut out: Vec<Result<(Option<Value>, Invocation), RpcResponse>> = Vec::new();
        match request {
            SingleOrBatchRpcRequest::Single(req) => {
                out.push(self.handle_single_request(req));
            },
            SingleOrBatchRpcRequest::Batch(reqs) => {
                let ghost all = reqs@;
                let mut rest = reqs;
                let total = rest.len();
                let mut i: usize = 0;
                while rest.len() > 0
                    invariant
                        i + rest@.len() == all.len(),
                        all.len() == total,
                        rest@ == all.skip(i as int),
                        out@.len() == i,
                        forall|k: int| 0 <= k < i ==> answers(*self, all[k], #[trigger] out@[k]),
                    decreases rest@.len(),
                {
                    let req = rest.remove(0);
                    assert(req == all[i as int]);
                    assert(rest@ == all.skip(i + 1));
                    out.push(self.handle_single_request(req));
                    i = i + 1;
                }
            },
        }
        out
    }

    /// The metadata of the handler that the dotted `method` leads to, each
    /// level's own overridden by the levels below it; "method not found"
    /// when no handler serves the method.
    pub fn request_metadata(&self, method: &str) -> (r: Result<Vec<(&String, &Value)>, RpcError>)
        ensures
            match self.root_handler.spec_from_dots(method@, self.context) {
                Some(m) => r matches Ok(md) && forall|key: Seq<char>| #[trigger] crate::assoc::assoc_get(
                    crate::handler::meta_ref_view(md@),
                    key,
                ) == self.root_handler.spec_metadata(m, self.context, key),
                None => r matches Err(e) && crate::error::is_method_not_found(e),
            },
    {
        match self.root_handler.method_from_dots(method, self.context) {
            None => Err(method_not_found()),
            Some(m) => Ok(self.root_handler.metadata(&m, self.context)),
        }
    }
}

} // verus!
