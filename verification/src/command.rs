use std::marker::PhantomData;

use vstd::prelude::*;

use crate::error::{internal_error, invalid_params, parse_error, RpcError};
use crate::util::Flat;
use crate::value::Value;

verus! {

/// A command of the command tree, with the command whose arguments it
/// takes from above (`NoParent` when it takes none).
pub trait Command: Sized {
    type Parent;

    /// The name of the command.
    fn name() -> &'static str;
}

/// The method that led to a command, and the arguments it takes from the
/// commands above it.
pub struct ParentInfo<T> {
    pub method: Vec<&'static str>,
    pub params: T,
}

/// The chain of commands above `Cmd`: a witness that their arguments can
/// be asked for.
pub struct ParentChain<Cmd>(pub PhantomData<Cmd>);

/// A witness that the arguments `T` are available.
pub struct Contains<T>(pub PhantomData<T>);

/// The arguments of a command that takes nothing from above.
pub struct NoParent {}

impl Command for NoParent {
    type Parent = NoParent;

    fn name() -> (r: &'static str)
        ensures
            r@ == Seq::<char>::empty(),
    {
        proof {
            reveal_strlit("");
        }
        ""
    }
}

impl Contains<NoParent> {
    /// The witness that nothing is asked for.
    pub fn none() -> (r: Self)
        ensures
            r == Contains::<NoParent>(PhantomData),
    {
        Contains(PhantomData)
    }
}

impl<Cmd: Command> ParentChain<Cmd> {
    /// The arguments of `Cmd` itself are available to its subcommands.
    pub fn child(&self) -> (r: Contains<Cmd>)
        ensures
            r == Contains::<Cmd>(PhantomData),
    {
        Contains(PhantomData)
    }

    /// The chain above the parent of `Cmd`.
    pub fn parent(&self) -> (r: ParentChain<Cmd::Parent>)
        ensures
            r == ParentChain::<Cmd::Parent>(PhantomData),
    {
        ParentChain(PhantomData)
    }
}

impl<T, U> Contains<Flat<T, U>> {
    /// Two witnesses make one for both sets of arguments.
    pub fn both(a: Contains<T>, b: Contains<U>) -> (r: Self)
        ensures
            r == Contains::<Flat<T, U>>(PhantomData),
    {
        Contains(PhantomData)
    }
}

/// A marker of the type of `actual`.
pub fn make_phantom<T>(actual: T) -> (r: PhantomData<T>)
    ensures
        r == PhantomData::<T>,
{
    PhantomData
}

/// Compiles only when both values have the same type.
pub fn match_types<T>(a: &T, b: &T) {
}

/// How far a call of a command's implementation got: the reading of the
/// arguments it takes from above or of its own failed (with the reason),
/// the implementation failed, its result could not be written as a value,
/// the task running it ended abnormally, or it gave a value.
pub enum CallStage {
    ParentParams(String),
    Params(String),
    Failed(RpcError),
    Unserializable(String),
    Aborted(String),
    Done(Value),
}

/// `r` answers a call that got as far as `stage`: arguments that could
/// not be read are invalid parameters, a failed implementation gives its
/// error, a result that could not be written is a parse error, an aborted
/// task is an internal error, and a value is the result.
pub open spec fn answers(stage: CallStage, r: Result<Value, RpcError>) -> bool {
    match stage {
        CallStage::ParentParams(d) => r matches Err(e) && crate::error::is_standard_with(
            e,
            crate::error::invalid_params_code(),
            "Invalid params"@,
            d,
        ),
        CallStage::Params(d) => r matches Err(e) && crate::error::is_standard_with(
            e,
            crate::error::invalid_params_code(),
            "Invalid params"@,
            d,
        ),
        CallStage::Failed(e) => r == Err::<Value, RpcError>(e),
        CallStage::Unserializable(d) => r matches Err(e) && crate::error::is_standard_with(
            e,
            crate::error::parse_error_code(),
            "Parse error"@,
            d,
        ),
        CallStage::Aborted(d) => r matches Err(e) && crate::error::is_standard_with(
            e,
            crate::error::internal_error_code(),
            "Internal error"@,
            d,
        ),
        CallStage::Done(v) => r == Ok::<Value, RpcError>(v),
    }
}

/// `r` answers a call run on a blocking task: what the call got to when
/// the task finished, or the reason the task ended abnormally.
pub open spec fn joined_answers(joined: Result<CallStage, String>, r: Result<Value, RpcError>) -> bool {
    match joined {
        Ok(stage) => answers(stage, r),
        Err(d) => answers(CallStage::Aborted(d), r),
    }
}

/// The answer to a call that got as far as `stage`.
pub fn call_result(stage: CallStage) -> (r: Result<Value, RpcError>)
    ensures
        answers(stage, r),
{
    match stage {
        CallStage::ParentParams(d) => Err(invalid_params(d)),
        CallStage::Params(d) => Err(invalid_params(d)),
        CallStage::Failed(e) => Err(e),
        CallStage::Unserializable(d) => Err(parse_error(d)),
        CallStage::Aborted(d) => Err(internal_error(d)),
        CallStage::Done(v) => Ok(v),
    }
}

/// The answer to a call run on a blocking task: as the call went when the
/// task finished, an internal error with the reason when it did not.
pub fn joined_result(joined: Result<CallStage, String>) -> (r: Result<Value, RpcError>)
    ensures
        joined_answers(joined, r),
{
    match joined {
        Ok(stage) => call_result(stage),
        Err(d) => call_result(CallStage::Aborted(d)),
    }
}

/// A call answers alike whether it runs on a blocking task or not: for a
/// task that finishes, each answer of the one way is an answer of the
/// other.
pub proof fn lemma_blocking_agrees(stage: CallStage, r: Result<Value, RpcError>)
    ensures
        joined_answers(Ok(stage), r) == answers(stage, r),
{
}

} // verus!
