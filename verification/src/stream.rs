//! Answering a stream of requests, several at a time.
//!
//! Each request of the stream runs as a task of its own; answers are given
//! in the order in which the tasks finish. The tasks and the stream are the
//! caller's; the library keeps the list of running tasks and decides what
//! each event leads to.
use vstd::prelude::*;

use crate::error::{internal_error, RpcError};
use crate::value::Value;

verus! {

/// What the caller does next.
#[derive(Debug, PartialEq)]
pub enum StreamAction {
    /// Run this request as a new task, and report it with
    /// [`RunningCommands::started`].
    Run(Value),
    /// Wait for the next event.
    Wait,
    /// Give this answer, then wait for the next event.
    Yield(Value),
    /// Give this error and end the stream of answers.
    Fail(RpcError),
    /// End the stream of answers.
    End,
}

/// The tasks that answer requests of a stream, by id, and whether the
/// stream of requests has ended.
pub struct RunningCommands {
    pub closed: bool,
    pub running: Vec<u64>,
}

impl RunningCommands {
    /// Nothing running, and more requests to come.
    pub fn new() -> (r: Self)
        ensures
            !r.closed,
            r.running@.len() == 0,
    {
        RunningCommands { closed: false, running: Vec::new() }
    }

    /// The stream of requests gave `read`: a request to run, its end, or
    /// an error, which ends the stream of answers with it.
    pub fn on_request(&mut self, read: Result<Option<Value>, RpcError>) -> (r: StreamAction)
        ensures
            final(self).running@ == old(self).running@,
            match read {
                Ok(Some(v)) => r == StreamAction::Run(v) && final(self).closed == old(self).closed,
                Ok(None) => r == StreamAction::Wait && final(self).closed,
                Err(e) => r == StreamAction::Fail(e) && final(self).closed == old(self).closed,
            },
    {
        match read {
            Ok(Some(v)) => StreamAction::Run(v),
            Ok(None) => {
                self.closed = true;
                StreamAction::Wait
            },
            Err(e) => StreamAction::Fail(e),
        }
    }

    /// The task `task` was started for a request.
    pub fn started(&mut self, task: u64)
        ensures
            final(self).closed == old(self).closed,
            final(self).running@ == old(self).running@.push(task),
    {
        self.running.push(task);
    }

    /// The task at position `i` finished with `outcome`: the answer of the
    /// request, or, when the task itself ended abnormally, the reason. It
    /// is no longer running, and the last task takes its place. An answer
    /// is given; an error, or the reason as an internal error, ends the
    /// stream of answers.
    pub fn finished(&mut self, i: usize, outcome: Result<Result<Value, RpcError>, String>) -> (r: StreamAction)
        requires
            i < old(self).running@.len(),
        ensures
            final(self).closed == old(self).closed,
            final(self).running@ == old(self).running@.update(i as int, old(self).running@.last()).drop_last(),
            final(self).running@.to_multiset() == old(self).running@.to_multiset().remove(
                old(self).running@[i as int],
            ),
            match outcome {
                Ok(Ok(v)) => r == StreamAction::Yield(v),
                Ok(Err(e)) => r == StreamAction::Fail(e),
                Err(d) => r matches StreamAction::Fail(e) && crate::error::is_standard_with(
                    e,
                    crate::error::internal_error_code(),
                    "Internal error"@,
                    d,
                ),
            },
    {
        let ghost s = self.running@;
        self.running.swap_remove(i);
        proof {
            lemma_swap_remove_multiset(s, i as int);
        }
        match outcome {
            Ok(Ok(v)) => StreamAction::Yield(v),
            Ok(Err(e)) => StreamAction::Fail(e),
            Err(d) => StreamAction::Fail(internal_error(d)),
        }
    }

    /// No task is ready: the stream of answers ends once the requests have
    /// ended and every task has been answered, and waits before that.
    pub fn idle(&self) -> (r: StreamAction)
        ensures
            r == (if self.closed && self.running@.len() == 0 {
                StreamAction::End
            } else {
                StreamAction::Wait
            }),
    {
        if self.closed && self.running.len() == 0 {
            StreamAction::End
        } else {
            StreamAction::Wait
        }
    }
}

/// Of `jobs`, the one at position `ready`, the first found finished when
/// they were polled in order, is taken out, the last taking its place;
/// `None` when none had finished, and nothing changes.
pub fn poll_select_all(jobs: &mut Vec<u64>, ready: Option<usize>) -> (r: Option<u64>)
    requires
        ready matches Some(i) ==> i < old(jobs)@.len(),
    ensures
        match ready {
            Some(i) => r == Some(old(jobs)@[i as int]) && final(jobs)@ == old(jobs)@.update(
                i as int,
                old(jobs)@.last(),
            ).drop_last() && final(jobs)@.to_multiset() == old(jobs)@.to_multiset().remove(
                old(jobs)@[i as int],
            ),
            None => r is None && final(jobs)@ == old(jobs)@,
        },
{
    match ready {
        Some(i) => {
            let ghost s = jobs@;
            let job = jobs.swap_remove(i);
            proof {
                lemma_swap_remove_multiset(s, i as int);
            }
            Some(job)
        },
        None => None,
    }
}

/// Jobs that run together, by id, with their results taken in the order
/// in which they finish, and whether more jobs can come.
pub struct JobRunner {
    pub closed: bool,
    pub running: Vec<u64>,
}

impl JobRunner {
    /// No job, and more to come.
    pub fn new() -> (r: Self)
        ensures
            !r.closed,
            r.running@.len() == 0,
    {
        JobRunner { closed: false, running: Vec::new() }
    }

    /// The source of jobs gave `job`: a new job that now runs, or its end.
    pub fn on_job(&mut self, job: Option<u64>)
        ensures
            match job {
                Some(id) => final(self).running@ == old(self).running@.push(id) && final(self).closed
                    == old(self).closed,
                None => final(self).running@ == old(self).running@ && final(self).closed,
            },
    {
        match job {
            Some(id) => self.running.push(id),
            None => self.closed = true,
        }
    }

    /// The next result after polling the jobs in order, `ready` being the
    /// position of the first one found finished: `Some(Some(id))` for that
    /// job, taken out; `Some(None)` when no job runs and none can come,
    /// the end of the results; `None` when the results must be waited for.
    pub fn poll_next(&mut self, ready: Option<usize>) -> (r: Option<Option<u64>>)
        requires
            ready matches Some(i) ==> i < old(self).running@.len(),
        ensures
            final(self).closed == old(self).closed,
            match ready {
                Some(i) => r == Some(Some(old(self).running@[i as int])) && final(self).running@
                    == old(self).running@.update(i as int, old(self).running@.last()).drop_last(),
                None => final(self).running@ == old(self).running@ && r == (if old(self).closed
                    && old(self).running@.len() == 0 {
                    Some(None::<u64>)
                } else {
                    None
                }),
            },
    {
        match poll_select_all(&mut self.running, ready) {
            Some(id) => Some(Some(id)),
            None => if self.closed && self.running.len() == 0 {
                Some(None)
            } else {
                None
            },
        }
    }
}

/// Moving the last element into position `i` and dropping the last place
/// removes exactly the element at `i`.
proof fn lemma_swap_remove_multiset(s: Seq<u64>, i: int)
    requires
        0 <= i < s.len(),
    ensures
        s.update(i, s.last()).drop_last().to_multiset() == s.to_multiset().remove(s[i]),
{
    broadcast use vstd::seq_lib::to_multiset_update, vstd::seq_lib::to_multiset_build;
    broadcast use vstd::multiset::group_multiset_axioms;

    let u = s.update(i, s.last());
    assert(u.drop_last().push(u.last()) =~= u);
    assert(u.last() == s.last());
    assert(u.to_multiset() == s.to_multiset().insert(s.last()).remove(s[i]));
    assert(u.to_multiset() == u.drop_last().to_multiset().insert(s.last()));
    assert(s.to_multiset().count(s[i]) > 0) by {
        broadcast use vstd::seq_lib::to_multiset_contains;

        assert(s.contains(s[i]));
    }
    assert forall|x: u64| #[trigger] u.drop_last().to_multiset().count(x) == s.to_multiset().remove(
        s[i],
    ).count(x) by {
        assert(u.to_multiset().count(x) == u.drop_last().to_multiset().count(x) + if x == s.last() {
            1int
        } else {
            0int
        });
    }
    assert(u.drop_last().to_multiset() =~= s.to_multiset().remove(s[i]));
}

} // verus!
