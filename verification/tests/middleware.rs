use rpc_toolkit::error::method_not_found;
use rpc_toolkit::middleware::{body_error, error_reply, http_answers, BodyFailure, HttpAnswers};
use rpc_toolkit::server::RpcResponse;
use rpc_toolkit::value::Value;
use rpc_toolkit::middleware::{HttpEvent, HttpPipeline, HttpReply, HttpStep, RpcPipeline, RpcStep};
use rpc_toolkit::middleware::HttpEvent as E;
use rpc_toolkit::middleware::HttpStep as H;
use rpc_toolkit::middleware::RpcStep as R;

fn rpc_steps(n: usize, answered_by: Option<usize>) -> Vec<RpcStep> {
    let mut p = RpcPipeline::new(n);
    let mut steps = vec![p.step];
    while p.step != RpcStep::Finish {
        let answered = matches!((p.step, answered_by), (RpcStep::Request(i), Some(k)) if i == k);
        p.advance(answered);
        steps.push(p.step);
    }
    steps
}

fn http_steps(n: usize, events: &[HttpEvent]) -> Vec<HttpStep> {
    let mut p = HttpPipeline::new(n);
    let mut steps = vec![p.step];
    for e in events {
        p.advance(*e);
        steps.push(p.step);
    }
    steps
}

#[test]
fn request_middlewares_run_from_the_last_and_response_middlewares_from_the_first() {
    assert_eq!(
        rpc_steps(2, None),
        vec![R::Request(1), R::Request(0), R::Handle, R::Response(0), R::Response(1), R::Finish]
    );
}

#[test]
fn a_middleware_that_answers_skips_the_handler_but_not_the_responses() {
    assert_eq!(rpc_steps(3, Some(1)), vec![R::Request(2), R::Request(1), R::Response(0), R::Response(1), R::Response(2), R::Finish]);
    assert_eq!(rpc_steps(1, Some(0)), vec![R::Request(0), R::Response(0), R::Finish]);
}

#[test]
fn without_middlewares_only_the_handler_runs() {
    assert_eq!(rpc_steps(0, None), vec![RpcStep::Handle, RpcStep::Finish]);
}

#[test]
fn a_single_request_over_http_passes_every_middleware() {
    assert_eq!(
        http_steps(2, &[E::Passed, E::Passed, E::Passed, E::Single, E::Passed, E::Passed, E::Passed]),
        vec![
            H::MakeContext,
            H::Request(1),
            H::Request(0),
            H::ReadBody,
            H::Rpc(0),
            H::Response { middleware: 0, copy: 0 },
            H::Response { middleware: 1, copy: 0 },
            H::Reply(HttpReply::Answers),
        ]
    );
}

#[test]
fn a_batch_runs_each_response_middleware_in_every_copy() {
    let steps = http_steps(2, &[E::Passed, E::Passed, E::Passed, E::Batch(2), E::Passed, E::Passed, E::Passed, E::Passed, E::Passed, E::Passed]);
    assert_eq!(
        steps[4..].to_vec(),
        vec![
            H::Rpc(0),
            H::Rpc(1),
            H::Response { middleware: 0, copy: 0 },
            H::Response { middleware: 0, copy: 1 },
            H::Response { middleware: 1, copy: 0 },
            H::Response { middleware: 1, copy: 1 },
            H::Reply(HttpReply::Answers),
        ]
    );
}

#[test]
fn an_empty_batch_is_answered_without_middlewares() {
    assert_eq!(
        http_steps(1, &[E::Passed, E::Passed, E::Batch(0)]),
        vec![H::MakeContext, H::Request(0), H::ReadBody, H::Reply(HttpReply::Answers)]
    );
}

#[test]
fn what_stops_an_http_request_decides_its_reply() {
    assert_eq!(http_steps(2, &[E::Stopped]), vec![H::MakeContext, H::Reply(HttpReply::Error)]);
    assert_eq!(
        http_steps(2, &[E::Passed, E::Stopped]),
        vec![H::MakeContext, H::Request(1), H::Reply(HttpReply::FromMiddleware)]
    );
    assert_eq!(
        http_steps(0, &[E::Passed, E::Stopped]),
        vec![H::MakeContext, H::ReadBody, H::Reply(HttpReply::Error)]
    );
}

#[test]
fn without_middlewares_a_request_goes_straight_to_its_reply() {
    let p = HttpPipeline::new(0);
    assert_eq!(p.requests, 0);
    assert_eq!(
        http_steps(0, &[E::Passed, E::Single, E::Passed]),
        vec![H::MakeContext, H::ReadBody, H::Rpc(0), H::Reply(HttpReply::Answers)]
    );
}

#[test]
fn the_error_reply_and_the_answers() {
    let r = error_reply(method_not_found());
    assert!(r.id.is_none());
    assert_eq!(r.result, Err(method_not_found()));
    let e = body_error(BodyFailure::Invalid("not json".to_string()));
    assert_eq!(e.code, -32700);
    let e = body_error(BodyFailure::Unreadable("closed".to_string()));
    assert_eq!(e.code, -32603);
    let one = RpcResponse { id: None, result: Ok(Value::Null) };
    match http_answers(true, vec![one]) {
        HttpAnswers::One(r) => assert_eq!(r.result, Ok(Value::Null)),
        HttpAnswers::Many(_) => panic!("a list for a single request"),
    }
    match http_answers(false, vec![]) {
        HttpAnswers::Many(v) => assert!(v.is_empty()),
        HttpAnswers::One(_) => panic!("one answer for a batch"),
    }
}
