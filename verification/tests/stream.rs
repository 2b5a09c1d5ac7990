use rpc_toolkit::error::method_not_found;
use rpc_toolkit::stream::{poll_select_all, JobRunner, RunningCommands, StreamAction};
use rpc_toolkit::value::Value;

fn v(s: &str) -> Value {
    Value::String(s.to_string())
}

#[test]
fn a_request_of_the_stream_is_run() {
    let mut r = RunningCommands::new();
    assert_eq!(r.on_request(Ok(Some(v("a")))), StreamAction::Run(v("a")));
    assert!(!r.closed);
    r.started(7);
    assert_eq!(r.running, vec![7]);
}

#[test]
fn a_finished_task_gives_its_answer_and_the_last_takes_its_place() {
    let mut r = RunningCommands::new();
    r.started(1);
    r.started(2);
    r.started(3);
    assert_eq!(r.finished(0, Ok(Ok(v("x")))), StreamAction::Yield(v("x")));
    assert_eq!(r.running, vec![3, 2]);
    assert_eq!(r.idle(), StreamAction::Wait);
}

#[test]
fn an_error_ends_the_answers() {
    let mut r = RunningCommands::new();
    r.started(1);
    assert_eq!(r.finished(0, Ok(Err(method_not_found()))), StreamAction::Fail(method_not_found()));
    assert!(r.running.is_empty());
    assert_eq!(r.on_request(Err(method_not_found())), StreamAction::Fail(method_not_found()));
}

#[test]
fn a_task_that_ends_abnormally_is_an_internal_error() {
    let mut r = RunningCommands::new();
    r.started(4);
    match r.finished(0, Err("task panicked".to_string())) {
        StreamAction::Fail(e) => {
            assert_eq!(e.code, -32603);
            assert_eq!(e.message, "Internal error");
            assert_eq!(e.data, Some(v("task panicked")));
        }
        other => panic!("unexpected {:?}", other),
    }
}

#[test]
fn the_answers_end_once_the_requests_have_ended_and_every_task_is_answered() {
    let mut r = RunningCommands::new();
    r.started(1);
    assert_eq!(r.on_request(Ok(None)), StreamAction::Wait);
    assert!(r.closed);
    assert_eq!(r.idle(), StreamAction::Wait);
    assert_eq!(r.finished(0, Ok(Ok(Value::Null))), StreamAction::Yield(Value::Null));
    assert_eq!(r.idle(), StreamAction::End);
}

#[test]
fn the_first_finished_job_is_taken_out() {
    let mut jobs = vec![10, 20, 30, 40];
    assert_eq!(poll_select_all(&mut jobs, Some(1)), Some(20));
    assert_eq!(jobs, vec![10, 40, 30]);
    assert_eq!(poll_select_all(&mut jobs, None), None);
    assert_eq!(jobs, vec![10, 40, 30]);
}

#[test]
fn a_job_runner_ends_when_its_source_has_ended_and_its_jobs_are_done() {
    let mut r = JobRunner::new();
    r.on_job(Some(1));
    r.on_job(Some(2));
    assert_eq!(r.poll_next(None), None);
    r.on_job(None);
    assert!(r.closed);
    assert_eq!(r.poll_next(None), None);
    assert_eq!(r.poll_next(Some(0)), Some(Some(1)));
    assert_eq!(r.running, vec![2]);
    assert_eq!(r.poll_next(Some(0)), Some(Some(2)));
    assert_eq!(r.poll_next(None), Some(None));
}
