//! The order in which middlewares see a request and its response.
//!
//! A middleware sees each request on its way in, where it may answer the
//! request itself, and each response on its way out. The middlewares run
//! asynchronously and belong to the caller, so the library decides only
//! what happens next: the caller performs the step, reports how it went,
//! and asks again.
use vstd::prelude::*;

use crate::error::{internal_error, parse_error, RpcError};
use crate::server::RpcResponse;

verus! {

/// A step of answering one JSON-RPC request.
#[derive(Debug, Clone, Copy, PartialEq, Eq)]
pub enum RpcStep {
    /// Request middleware `i` sees the request; they go from the last
    /// registered to the first.
    Request(usize),
    /// The handler runs.
    Handle,
    /// Response middleware `i` sees the response; they go from the first
    /// registered to the last.
    Response(usize),
    /// The response is sent.
    Finish,
}

/// Where one request stands among `middlewares` middlewares.
#[derive(Debug, Clone, Copy, PartialEq, Eq)]
pub struct RpcPipeline {
    pub middlewares: usize,
    pub step: RpcStep,
}

/// What follows the request phase: the first response middleware, or the
/// end when there is none.
pub open spec fn after_request(n: usize) -> RpcStep {
    if n == 0 {
        RpcStep::Finish
    } else {
        RpcStep::Response(0)
    }
}

/// The first step among `n` middlewares.
pub open spec fn first_rpc_step(n: usize) -> RpcStep {
    if n == 0 {
        RpcStep::Handle
    } else {
        RpcStep::Request((n - 1) as usize)
    }
}

/// The step after `step` among `n` middlewares; `answered` says whether a
/// request middleware answered the request itself.
pub open spec fn next_rpc_step(n: usize, step: RpcStep, answered: bool) -> RpcStep {
    match step {
        RpcStep::Request(i) => if answered {
            after_request(n)
        } else if i == 0 {
            RpcStep::Handle
        } else {
            RpcStep::Request((i - 1) as usize)
        },
        RpcStep::Handle => after_request(n),
        RpcStep::Response(i) => if i + 1 < n {
            RpcStep::Response((i + 1) as usize)
        } else {
            RpcStep::Finish
        },
        RpcStep::Finish => RpcStep::Finish,
    }
}

impl RpcPipeline {
    /// Every middleware that a step names exists.
    pub open spec fn wf(self) -> bool {
        match self.step {
            RpcStep::Request(i) => i < self.middlewares,
            RpcStep::Response(i) => i < self.middlewares,
            _ => true,
        }
    }

    /// A request that enters `middlewares` middlewares.
    pub fn new(middlewares: usize) -> (r: Self)
        ensures
            r.middlewares == middlewares,
            r.step == first_rpc_step(middlewares),
            r.wf(),
    {
        let step = if middlewares == 0 {
            RpcStep::Handle
        } else {
            RpcStep::Request(middlewares - 1)
        };
        RpcPipeline { middlewares, step }
    }

    /// Whether the pipeline is well formed, so that it can move on.
    pub fn is_wf(&self) -> (r: bool)
        ensures
            r == self.wf(),
    {
        match self.step {
            RpcStep::Request(i) => i < self.middlewares,
            RpcStep::Response(i) => i < self.middlewares,
            _ => true,
        }
    }

    /// Moves past the current step; `answered` says whether the request
    /// middleware of that step answered the request itself, and counts
    /// nowhere else.
    pub fn advance(&mut self, answered: bool)
        requires
            old(self).wf(),
        ensures
            final(self).middlewares == old(self).middlewares,
            final(self).step == next_rpc_step(old(self).middlewares, old(self).step, answered),
            final(self).wf(),
    {
        let n = self.middlewares;
        let next = match self.step {
            RpcStep::Request(i) => if answered {
                if n == 0 {
                    RpcStep::Finish
                } else {
                    RpcStep::Response(0)
                }
            } else if i == 0 {
                RpcStep::Handle
            } else {
                RpcStep::Request(i - 1)
            },
            RpcStep::Handle => if n == 0 {
                RpcStep::Finish
            } else {
                RpcStep::Response(0)
            },
            RpcStep::Response(i) => if i + 1 < n {
                RpcStep::Response(i + 1)
            } else {
                RpcStep::Finish
            },
            RpcStep::Finish => RpcStep::Finish,
        };
        self.step = next;
    }
}

/// The step at which request middleware `k` answers, when `answered_by`
/// names `k`.
pub open spec fn answers_at(step: RpcStep, answered_by: Option<usize>) -> bool {
    match (step, answered_by) {
        (RpcStep::Request(i), Some(k)) => i == k,
        _ => false,
    }
}

/// How many request middlewares see the request when the first of them
/// to answer, counting from the last, is `answered_by`.
pub open spec fn requests_seen(n: usize, answered_by: Option<usize>) -> int {
    match answered_by {
        Some(k) => n - k,
        None => n as int,
    }
}

/// Whether the handler runs: when no request middleware answered.
pub open spec fn handled(answered_by: Option<usize>) -> int {
    if answered_by is None {
        1
    } else {
        0
    }
}

/// Every step that a request takes among `n` middlewares when request
/// middleware `answered_by` is the one that answers it (`None`: none
/// does): the request middlewares from the last down to the one that
/// answers, the handler when none answers, then every response
/// middleware from the first to the last, and the end.
pub open spec fn rpc_trace(n: usize, answered_by: Option<usize>) -> Seq<RpcStep> {
    let a = requests_seen(n, answered_by);
    let h = handled(answered_by);
    Seq::new(
        (a + h + n + 1) as nat,
        |j: int|
            if j < a {
                RpcStep::Request((n - 1 - j) as usize)
            } else if j < a + h {
                RpcStep::Handle
            } else if j < a + h + n {
                RpcStep::Response((j - a - h) as usize)
            } else {
                RpcStep::Finish
            },
    )
}

/// A request among `n` middlewares goes through exactly the steps of
/// [`rpc_trace`]: it starts at the first, each step leads to the next
/// when the middleware named by `answered_by`, and no other, answers,
/// and it ends with the response sent. The handler runs exactly when no
/// request middleware answers, and every response middleware sees the
/// response whichever answered.
pub proof fn lemma_rpc_trace(n: usize, answered_by: Option<usize>)
    requires
        answered_by matches Some(k) ==> k < n,
    ensures
        rpc_trace(n, answered_by).len() == requests_seen(n, answered_by) + handled(answered_by) + n + 1,
        rpc_trace(n, answered_by)[0] == first_rpc_step(n),
        rpc_trace(n, answered_by).last() == RpcStep::Finish,
        forall|j: int|
            0 <= j < rpc_trace(n, answered_by).len() - 1 ==> #[trigger] rpc_trace(n, answered_by)[j + 1]
                == next_rpc_step(n, rpc_trace(n, answered_by)[j], answers_at(rpc_trace(n, answered_by)[j], answered_by)),
        rpc_trace(n, answered_by).contains(RpcStep::Handle) <==> answered_by is None,
        forall|i: usize| i < n ==> #[trigger] rpc_trace(n, answered_by).contains(RpcStep::Response(i)),
{
    let t = rpc_trace(n, answered_by);
    let a = requests_seen(n, answered_by);
    let h = handled(answered_by);
    assert(t[0] == first_rpc_step(n));
    assert forall|j: int| 0 <= j < t.len() - 1 implies #[trigger] t[j + 1] == next_rpc_step(
        n,
        t[j],
        answers_at(t[j], answered_by),
    ) by {
        if j < a {
            if j + 1 < a {
            } else if answered_by is None {
            } else {
            }
        } else if j < a + h {
        } else if j < a + h + n {
        }
    }
    if answered_by is None {
        assert(t[a] == RpcStep::Handle);
    } else {
        assert forall|j: int| 0 <= j < t.len() implies t[j] != RpcStep::Handle by {}
    }
    assert forall|i: usize| i < n implies #[trigger] t.contains(RpcStep::Response(i)) by {
        assert(t[a + h + i] == RpcStep::Response(i));
    }
}

/// What an HTTP request is answered with.
#[derive(Debug, Clone, Copy, PartialEq, Eq)]
pub enum HttpReply {
    /// The error that stopped it before any handler: the context could
    /// not be made, or the body was not a request.
    Error,
    /// The response that an HTTP request middleware gave in its place.
    FromMiddleware,
    /// The answers to the requests of the body: one answer for a single
    /// request, a list for a batch.
    Answers,
}

/// A step of answering one HTTP request that carries JSON-RPC requests.
#[derive(Debug, Clone, Copy, PartialEq, Eq)]
pub enum HttpStep {
    /// The context for the request is made.
    MakeContext,
    /// HTTP request middleware `i` sees the request; they go from the last
    /// registered to the first.
    Request(usize),
    /// The body is read as a request or a batch.
    ReadBody,
    /// Request `r` of the body is answered, among the middlewares as
    /// [`RpcPipeline`] orders it, with a copy of the middlewares of its own.
    Rpc(usize),
    /// HTTP response middleware `middleware`, in the copy that answered
    /// request `copy`, sees the response; the middlewares go from the first
    /// registered to the last, each in all its copies.
    Response { middleware: usize, copy: usize },
    /// The reply is sent.
    Reply(HttpReply),
}

/// How a step went.
#[derive(Debug, Clone, Copy, PartialEq, Eq)]
pub enum HttpEvent {
    /// The step went through: the context was made, a request middleware
    /// let the request pass, a request of the body was answered, or a
    /// response middleware ran.
    Passed,
    /// The step stopped the request: the context could not be made, a
    /// request middleware answered in its place, or the body could not be
    /// read.
    Stopped,
    /// The body was one request.
    Single,
    /// The body was a batch of this many requests.
    Batch(usize),
}

/// Where one HTTP request stands among `middlewares` middlewares; its
/// body holds `requests` requests once it has been read.
#[derive(Debug, Clone, Copy, PartialEq, Eq)]
pub struct HttpPipeline {
    pub middlewares: usize,
    pub requests: usize,
    pub step: HttpStep,
}

/// `event` can report on `step`.
pub open spec fn fits(step: HttpStep, event: HttpEvent) -> bool {
    match step {
        HttpStep::MakeContext => event is Passed || event is Stopped,
        HttpStep::Request(_) => event is Passed || event is Stopped,
        HttpStep::ReadBody => !(event is Passed),
        HttpStep::Rpc(_) => event is Passed,
        HttpStep::Response { .. } => event is Passed,
        HttpStep::Reply(_) => false,
    }
}

/// What follows the HTTP request middlewares: reading the body.
pub open spec fn after_http_request(n: usize, i: usize) -> HttpStep {
    if i == 0 {
        HttpStep::ReadBody
    } else {
        HttpStep::Request((i - 1) as usize)
    }
}

/// What follows the requests of the body: the first response middleware
/// in its first copy, or the reply when there is none.
pub open spec fn after_rpc(n: usize, m: usize) -> HttpStep {
    if n == 0 || m == 0 {
        HttpStep::Reply(HttpReply::Answers)
    } else {
        HttpStep::Response { middleware: 0, copy: 0 }
    }
}

/// The state after `p` on `event`.
pub open spec fn next_http(p: HttpPipeline, event: HttpEvent) -> HttpPipeline {
    let n = p.middlewares;
    let m = p.requests;
    match p.step {
        HttpStep::MakeContext => if event is Stopped {
            HttpPipeline { step: HttpStep::Reply(HttpReply::Error), ..p }
        } else if n == 0 {
            HttpPipeline { step: HttpStep::ReadBody, ..p }
        } else {
            HttpPipeline { step: HttpStep::Request((n - 1) as usize), ..p }
        },
        HttpStep::Request(i) => if event is Stopped {
            HttpPipeline { step: HttpStep::Reply(HttpReply::FromMiddleware), ..p }
        } else {
            HttpPipeline { step: after_http_request(n, i), ..p }
        },
        HttpStep::ReadBody => match event {
            HttpEvent::Single => HttpPipeline { requests: 1, step: HttpStep::Rpc(0), ..p },
            HttpEvent::Batch(k) => if k == 0 {
                HttpPipeline { requests: 0, step: HttpStep::Reply(HttpReply::Answers), ..p }
            } else {
                HttpPipeline { requests: k, step: HttpStep::Rpc(0), ..p }
            },
            _ => HttpPipeline { step: HttpStep::Reply(HttpReply::Error), ..p },
        },
        HttpStep::Rpc(r) => if r + 1 < m {
            HttpPipeline { step: HttpStep::Rpc((r + 1) as usize), ..p }
        } else {
            HttpPipeline { step: after_rpc(n, m), ..p }
        },
        HttpStep::Response { middleware: i, copy: c } => if c + 1 < m {
            HttpPipeline { step: HttpStep::Response { middleware: i, copy: (c + 1) as usize }, ..p }
        } else if i + 1 < n {
            HttpPipeline { step: HttpStep::Response { middleware: (i + 1) as usize, copy: 0 }, ..p }
        } else {
            HttpPipeline { step: HttpStep::Reply(HttpReply::Answers), ..p }
        },
        HttpStep::Reply(_) => p,
    }
}

/// The phase of a step, counted down to the reply: making the context,
/// the request middlewares, reading the body, answering the requests with
/// the response middlewares after them, and the reply.
pub open spec fn http_phase(step: HttpStep) -> nat {
    match step {
        HttpStep::MakeContext => 4,
        HttpStep::Request(_) => 3,
        HttpStep::ReadBody => 2,
        HttpStep::Rpc(_) => 1,
        HttpStep::Response { .. } => 1,
        HttpStep::Reply(_) => 0,
    }
}

/// How many steps are left in the phase of `p`.
pub open spec fn http_steps_left(p: HttpPipeline) -> nat {
    let n = p.middlewares as nat;
    let m = p.requests as nat;
    match p.step {
        HttpStep::Request(i) => i as nat,
        HttpStep::Rpc(r) => (m - r) as nat + n * m,
        HttpStep::Response { middleware: i, copy: c } => ((n - i) * m - c) as nat,
        _ => 0,
    }
}

impl HttpPipeline {
    /// Every middleware, request and copy that a step names exists.
    pub open spec fn wf(self) -> bool {
        match self.step {
            HttpStep::Request(i) => i < self.middlewares,
            HttpStep::Rpc(r) => r < self.requests,
            HttpStep::Response { middleware, copy } => middleware < self.middlewares && copy
                < self.requests,
            _ => true,
        }
    }

    /// An HTTP request that enters `middlewares` middlewares.
    pub fn new(middlewares: usize) -> (r: Self)
        ensures
            r == (HttpPipeline { middlewares, requests: 0, step: HttpStep::MakeContext }),
            r.wf(),
    {
        HttpPipeline { middlewares, requests: 0, step: HttpStep::MakeContext }
    }

    /// Whether the pipeline is well formed and `event` can report on its
    /// current step, so that it can move on.
    pub fn can_advance(&self, event: &HttpEvent) -> (r: bool)
        ensures
            r == (self.wf() && fits(self.step, *event)),
    {
        let wf = match self.step {
            HttpStep::Request(i) => i < self.middlewares,
            HttpStep::Rpc(r) => r < self.requests,
            HttpStep::Response { middleware, copy } => middleware < self.middlewares && copy < self.requests,
            _ => true,
        };
        let fit = match self.step {
            HttpStep::MakeContext => matches!(event, HttpEvent::Passed) || matches!(event, HttpEvent::Stopped),
            HttpStep::Request(_) => matches!(event, HttpEvent::Passed) || matches!(event, HttpEvent::Stopped),
            HttpStep::ReadBody => !matches!(event, HttpEvent::Passed),
            HttpStep::Rpc(_) => matches!(event, HttpEvent::Passed),
            HttpStep::Response { .. } => matches!(event, HttpEvent::Passed),
            HttpStep::Reply(_) => false,
        };
        wf && fit
    }

    /// Moves past the current step, which went as `event` says.
    pub fn advance(&mut self, event: HttpEvent)
        requires
            old(self).wf(),
            fits(old(self).step, event),
        ensures
            *final(self) == next_http(*old(self), event),
            final(self).wf(),
    {
        let n = self.middlewares;
        let m = self.requests;
        match self.step {
            HttpStep::MakeContext => {
                self.step = if matches!(event, HttpEvent::Stopped) {
                    HttpStep::Reply(HttpReply::Error)
                } else if n == 0 {
                    HttpStep::ReadBody
                } else {
                    HttpStep::Request(n - 1)
                };
            },
            HttpStep::Request(i) => {
                self.step = if matches!(event, HttpEvent::Stopped) {
                    HttpStep::Reply(HttpReply::FromMiddleware)
                } else if i == 0 {
                    HttpStep::ReadBody
                } else {
                    HttpStep::Request(i - 1)
                };
            },
            HttpStep::ReadBody => match event {
                HttpEvent::Single => {
                    self.requests = 1;
                    self.step = HttpStep::Rpc(0);
                },
                HttpEvent::Batch(k) => {
                    self.requests = k;
                    self.step = if k == 0 {
                        HttpStep::Reply(HttpReply::Answers)
                    } else {
                        HttpStep::Rpc(0)
                    };
                },
                _ => {
                    self.step = HttpStep::Reply(HttpReply::Error);
                },
            },
            HttpStep::Rpc(r) => {
                self.step = if r + 1 < m {
                    HttpStep::Rpc(r + 1)
                } else if n == 0 || m == 0 {
                    HttpStep::Reply(HttpReply::Answers)
                } else {
                    HttpStep::Response { middleware: 0, copy: 0 }
                };
            },
            HttpStep::Response { middleware: i, copy: c } => {
                self.step = if c + 1 < m {
                    HttpStep::Response { middleware: i, copy: c + 1 }
                } else if i + 1 < n {
                    HttpStep::Response { middleware: i + 1, copy: 0 }
                } else {
                    HttpStep::Reply(HttpReply::Answers)
                };
            },
            HttpStep::Reply(_) => {},
        }
    }
}

/// Every step brings an HTTP request closer to its reply: each event that
/// fits either moves it to a later phase or leaves fewer steps in its
/// phase, so every request is replied to.
pub proof fn lemma_http_progress(p: HttpPipeline, event: HttpEvent)
    requires
        p.wf(),
        fits(p.step, event),
    ensures
        next_http(p, event).wf(),
        http_phase(next_http(p, event).step) < http_phase(p.step) || (http_phase(next_http(p, event).step)
            == http_phase(p.step) && http_steps_left(next_http(p, event)) < http_steps_left(p)),
{
    let n = p.middlewares as nat;
    let m = p.requests as nat;
    match p.step {
        HttpStep::Rpc(r) => {
            if r + 1 >= m && n > 0 && m > 0 {
                assert(n * m >= m) by (nonlinear_arith)
                    requires
                        n > 0,
                ;
            }
        },
        HttpStep::Response { middleware: i, copy: c } => {
            assert((n - i) * m == (n - (i + 1)) * m + m) by (nonlinear_arith);
            assert((n - (i + 1)) * m >= 0) by (nonlinear_arith)
                requires
                    i < n,
            ;
        },
        _ => {},
    }
}

/// How an HTTP request goes: stopped because its context could not be
/// made, answered by request middleware `k`, stopped because its body was
/// not a request, or carrying one request or a batch of some.
#[derive(Debug, Clone, Copy, PartialEq, Eq)]
pub enum HttpRun {
    NoContext,
    AnsweredBy(usize),
    Unreadable,
    Single,
    Batch(usize),
}

/// How many requests the body of `run` holds.
pub open spec fn run_requests(run: HttpRun) -> nat {
    match run {
        HttpRun::Single => 1,
        HttpRun::Batch(m) => m as nat,
        _ => 0,
    }
}

/// Whether the body of `run` is read and holds requests.
pub open spec fn run_reads(run: HttpRun) -> bool {
    run is Single || run is Batch
}

/// What the reply to `run` is.
pub open spec fn run_reply(run: HttpRun) -> HttpReply {
    match run {
        HttpRun::NoContext => HttpReply::Error,
        HttpRun::Unreadable => HttpReply::Error,
        HttpRun::AnsweredBy(_) => HttpReply::FromMiddleware,
        _ => HttpReply::Answers,
    }
}

/// How `step` goes in `run`.
pub open spec fn http_event(run: HttpRun, step: HttpStep) -> HttpEvent {
    match step {
        HttpStep::MakeContext => if run is NoContext {
            HttpEvent::Stopped
        } else {
            HttpEvent::Passed
        },
        HttpStep::Request(i) => match run {
            HttpRun::AnsweredBy(k) => if k == i {
                HttpEvent::Stopped
            } else {
                HttpEvent::Passed
            },
            _ => HttpEvent::Passed,
        },
        HttpStep::ReadBody => match run {
            HttpRun::Single => HttpEvent::Single,
            HttpRun::Batch(m) => HttpEvent::Batch(m),
            _ => HttpEvent::Stopped,
        },
        _ => HttpEvent::Passed,
    }
}

/// How many request middlewares see the request in `run`.
pub open spec fn http_requests_seen(n: usize, run: HttpRun) -> int {
    match run {
        HttpRun::NoContext => 0,
        HttpRun::AnsweredBy(k) => n - k,
        _ => n as int,
    }
}

/// How many steps `run` takes among `n` middlewares, the reply included.
pub open spec fn http_trace_len(n: usize, run: HttpRun) -> nat {
    let m = run_requests(run);
    match run {
        HttpRun::NoContext => 2,
        HttpRun::AnsweredBy(k) => (n - k + 2) as nat,
        HttpRun::Unreadable => (n + 3) as nat,
        _ => (n + 3 + m + n * m) as nat,
    }
}

/// The `j`-th step of `run` among `n` middlewares: the context, the
/// request middlewares from the last down to the one that answers, the
/// body, each request of the body, each response middleware from the
/// first to the last in the copy of each request in turn, and the reply.
pub open spec fn http_step_at(n: usize, run: HttpRun, j: int) -> HttpStep {
    let m = run_requests(run);
    let a = http_requests_seen(n, run);
    let x = j - (n + 2) - m;
    if j == 0 {
        HttpStep::MakeContext
    } else if run is NoContext {
        HttpStep::Reply(HttpReply::Error)
    } else if j <= a {
        HttpStep::Request((n - j) as usize)
    } else if run is AnsweredBy {
        HttpStep::Reply(HttpReply::FromMiddleware)
    } else if j == n + 1 {
        HttpStep::ReadBody
    } else if run is Unreadable {
        HttpStep::Reply(HttpReply::Error)
    } else if j - (n + 2) < m {
        HttpStep::Rpc((j - (n + 2)) as usize)
    } else if x < n * m {
        HttpStep::Response { middleware: (x / (m as int)) as usize, copy: (x % (m as int)) as usize }
    } else {
        HttpStep::Reply(HttpReply::Answers)
    }
}

/// The state of `run` at its `j`-th step: the body's requests are known
/// once it has been read.
pub open spec fn http_state_at(n: usize, run: HttpRun, j: int) -> HttpPipeline {
    HttpPipeline {
        middlewares: n,
        requests: if run_reads(run) && j > n + 1 {
            run_requests(run) as usize
        } else {
            0
        },
        step: http_step_at(n, run, j),
    }
}

/// Where response middleware steps fall: the `x`-th of `n * m` is
/// middleware `x / m` in copy `x % m`, and the next one follows it.
proof fn lemma_response_index(x: int, n: int, m: int)
    requires
        0 <= x < n * m,
        m > 0,
        n > 0,
    ensures
        0 <= x / m < n,
        0 <= x % m < m,
        x % m + 1 < m ==> (x + 1) / m == x / m && (x + 1) % m == x % m + 1,
        x % m + 1 == m ==> (x + 1) / m == x / m + 1 && (x + 1) % m == 0,
        x + 1 == n * m ==> x / m == n - 1 && x % m == m - 1,
{
    let q = x / m;
    let r = x % m;
    vstd::arithmetic::div_mod::lemma_fundamental_div_mod(x, m);
    vstd::arithmetic::div_mod::lemma_mod_bound(x, m);
    vstd::arithmetic::div_mod::lemma_div_pos_is_pos(x, m);
    assert(x == m * q + r);
    assert(q < n) by (nonlinear_arith)
        requires
            x == m * q + r,
            0 <= r,
            x < n * m,
            m > 0,
    ;
    if r + 1 < m {
        vstd::arithmetic::div_mod::lemma_fundamental_div_mod_converse(x + 1, m, q, r + 1);
    } else {
        assert(x + 1 == (q + 1) * m + 0) by (nonlinear_arith)
            requires
                x == m * q + r,
                r + 1 == m,
        ;
        vstd::arithmetic::div_mod::lemma_fundamental_div_mod_converse(x + 1, m, q + 1, 0);
    }
    if x + 1 == n * m {
        vstd::arithmetic::div_mod::lemma_fundamental_div_mod_converse(x + 1, m, n, 0);
    }
}

/// One step of [`lemma_http_trace`].
proof fn lemma_http_step(n: usize, run: HttpRun, j: int)
    requires
        run matches HttpRun::AnsweredBy(k) ==> k < n,
        0 <= j < http_trace_len(n, run) - 1,
    ensures
        ({
            let p = http_state_at(n, run, j);
            &&& p.wf()
            &&& fits(p.step, http_event(run, p.step))
            &&& next_http(p, http_event(run, p.step)) == http_state_at(n, run, j + 1)
        }),
{
    let m = run_requests(run);
    let a = http_requests_seen(n, run);
    let p = http_state_at(n, run, j);
    let q = http_state_at(n, run, j + 1);
    if j == 0 {
        assert(p.step == HttpStep::MakeContext);
        if run is NoContext {
            assert(q.step == HttpStep::Reply(HttpReply::Error));
        } else if n == 0 {
            assert(q.step == HttpStep::ReadBody);
        } else {
            assert(q.step == HttpStep::Request((n - 1) as usize));
        }
    } else if j <= a {
        assert(p.step == HttpStep::Request((n - j) as usize));
        if j + 1 <= a {
            assert(q.step == HttpStep::Request((n - j - 1) as usize));
        } else if run is AnsweredBy {
            assert(q.step == HttpStep::Reply(HttpReply::FromMiddleware));
        } else {
            assert(j == n);
            assert(q.step == HttpStep::ReadBody);
        }
    } else if j == n + 1 {
        assert(p.step == HttpStep::ReadBody);
        assert(p.requests == 0);
        if run_reads(run) {
            assert(q.requests == m);
            if m == 0 {
                assert(n * m == 0) by (nonlinear_arith)
                    requires
                        m == 0,
                ;
                assert(q.step == HttpStep::Reply(HttpReply::Answers));
            } else {
                assert(q.step == HttpStep::Rpc(0));
            }
        } else {
            assert(q.step == HttpStep::Reply(HttpReply::Error));
        }
    } else {
        assert(run_reads(run));
        assert(p.requests == m && q.requests == m);
        assert(n * m >= 0) by (nonlinear_arith);
        let r = j - (n + 2);
        if r < m {
            assert(p.step == HttpStep::Rpc(r as usize));
            if r + 1 < m {
                assert(q.step == HttpStep::Rpc((r + 1) as usize));
            } else if n == 0 {
                assert(n * m == 0) by (nonlinear_arith)
                    requires
                        n == 0,
                ;
                assert(q.step == HttpStep::Reply(HttpReply::Answers));
            } else {
                assert(0int / (m as int) == 0 && 0int % (m as int) == 0) by {
                    vstd::arithmetic::div_mod::lemma_fundamental_div_mod_converse(0, m as int, 0, 0);
                }
                assert(n * m > 0) by (nonlinear_arith)
                    requires
                        n > 0,
                        m > 0,
                ;
                assert(q.step == HttpStep::Response { middleware: 0, copy: 0 });
            }
        } else {
            let x = r - m;
            assert(x < n * m);
            assert(m > 0) by {
                if m == 0 {
                    assert(n * m == 0) by (nonlinear_arith)
                        requires
                            m == 0,
                    ;
                }
            }
            assert(n > 0) by {
                if n == 0 {
                    assert(n * m == 0) by (nonlinear_arith)
                        requires
                            n == 0,
                    ;
                }
            }
            lemma_response_index(x, n as int, m as int);
            let i = x / (m as int);
            let c = x % (m as int);
            assert(p.step == HttpStep::Response { middleware: i as usize, copy: c as usize });
            if x + 1 < n * m {
                lemma_response_index(x + 1, n as int, m as int);
                assert(q.step == HttpStep::Response {
                    middleware: ((x + 1) / (m as int)) as usize,
                    copy: ((x + 1) % (m as int)) as usize,
                });
            } else {
                assert(q.step == HttpStep::Reply(HttpReply::Answers));
            }
        }
    }
}

/// An HTTP request among `n` middlewares goes through exactly the steps
/// of [`http_step_at`]: it starts as [`HttpPipeline::new`] leaves it, each
/// step fits how it goes in `run` and leads to the next, and it ends with
/// the reply that `run` calls for. Every response middleware sees the
/// response in the copy of every request, the first middleware in all its
/// copies before the second.
pub proof fn lemma_http_trace(n: usize, run: HttpRun)
    requires
        run matches HttpRun::AnsweredBy(k) ==> k < n,
    ensures
        http_state_at(n, run, 0) == (HttpPipeline { middlewares: n, requests: 0, step: HttpStep::MakeContext }),
        http_step_at(n, run, http_trace_len(n, run) - 1) == HttpStep::Reply(run_reply(run)),
        forall|j: int|
            0 <= j < http_trace_len(n, run) - 1 ==> {
                let p = #[trigger] http_state_at(n, run, j);
                &&& p.wf()
                &&& fits(p.step, http_event(run, p.step))
                &&& next_http(p, http_event(run, p.step)) == http_state_at(n, run, j + 1)
            },
{
    let m = run_requests(run);
    assert forall|j: int| 0 <= j < http_trace_len(n, run) - 1 implies {
        let p = #[trigger] http_state_at(n, run, j);
        &&& p.wf()
        &&& fits(p.step, http_event(run, p.step))
        &&& next_http(p, http_event(run, p.step)) == http_state_at(n, run, j + 1)
    } by {
        lemma_http_step(n, run, j);
    }
    if run_reads(run) {
        assert(n * m >= 0) by (nonlinear_arith);
    }
}

/// Why the body of an HTTP request was not a request: it could not be
/// read, or it was not JSON for a request or a batch (with the reason).
pub enum BodyFailure {
    Unreadable(String),
    Invalid(String),
}

/// The error for a body that was not a request: an internal error for one
/// that could not be read, a parse error for one that was not a request,
/// each with the reason.
pub fn body_error(failure: BodyFailure) -> (e: RpcError)
    ensures
        match failure {
            BodyFailure::Unreadable(d) => crate::error::is_standard_with(
                e,
                crate::error::internal_error_code(),
                "Internal error"@,
                d,
            ),
            BodyFailure::Invalid(d) => crate::error::is_standard_with(
                e,
                crate::error::parse_error_code(),
                "Parse error"@,
                d,
            ),
        },
{
    match failure {
        BodyFailure::Unreadable(d) => internal_error(d),
        BodyFailure::Invalid(d) => parse_error(d),
    }
}

/// The reply to an HTTP request stopped by `e` before any handler ran
/// ([`HttpReply::Error`]): a response without an id, carrying the error.
pub fn error_reply(e: RpcError) -> (r: RpcResponse)
    ensures
        r.id is None,
        r.result == Err::<crate::value::Value, RpcError>(e),
{
    RpcResponse { id: None, result: Err(e) }
}

/// The body of the reply to the requests of an HTTP request
/// ([`HttpReply::Answers`]): the one response to a single request, or the
/// list of the responses to a batch, in the order of the batch.
pub enum HttpAnswers {
    One(RpcResponse),
    Many(Vec<RpcResponse>),
}

/// The answers `answers`, one per request of the body in its order, as the
/// body of the reply.
pub fn http_answers(single: bool, answers: Vec<RpcResponse>) -> (r: HttpAnswers)
    requires
        single ==> answers@.len() == 1,
    ensures
        single ==> r == HttpAnswers::One(answers@[0]),
        !single ==> r == HttpAnswers::Many(answers),
{
    if single {
        let mut answers = answers;
        let one = answers.remove(0);
        HttpAnswers::One(one)
    } else {
        HttpAnswers::Many(answers)
    }
}

} // verus!
