use std::marker::PhantomData;

use rpc_toolkit::command::{
    call_result, joined_result, make_phantom, match_types, CallStage, Command, Contains, NoParent, ParentChain,
};
use rpc_toolkit::error::method_not_found;
use rpc_toolkit::value::Value;
use rpc_toolkit::context::{Context, EitherContext};

struct Top;
impl Command for Top {
    type Parent = NoParent;
    fn name() -> &'static str {
        "top"
    }
}

struct A;
impl Context for A {
    fn spec_type_id() -> u64 {
        20
    }
    fn type_id() -> u64 {
        20
    }
}
struct B;
impl Context for B {
    fn spec_type_id() -> u64 {
        10
    }
    fn type_id() -> u64 {
        10
    }
}

#[test]
fn parent_chains_give_witnesses() {
    let chain: ParentChain<Top> = ParentChain(PhantomData);
    let _c: Contains<Top> = chain.child();
    let _p: ParentChain<NoParent> = chain.parent();
    let _n: Contains<NoParent> = Contains::none();
    assert_eq!(Top::name(), "top");
    assert_eq!(NoParent::name(), "");
    let p: PhantomData<u32> = make_phantom(5u32);
    assert_eq!(p, PhantomData);
    match_types(&1u8, &2u8);
}

#[test]
fn either_context_ids() {
    assert_eq!(EitherContext::<A, B>::type_ids(), vec![10, 20]);
    assert_eq!(EitherContext::<A, A>::type_ids(), vec![20]);
    assert_eq!(EitherContext::<A, B>::C1(A).inner_type_id(), 20);
    assert_eq!(EitherContext::<A, B>::C2(B).inner_type_id(), 10);
}

#[test]
fn call_stages_answer_with_their_errors() {
    let e = call_result(CallStage::ParentParams("missing field".to_string())).unwrap_err();
    assert_eq!((e.code, e.message.as_str()), (-32602, "Invalid params"));
    assert_eq!(e.data, Some(Value::String("missing field".to_string())));
    let e = call_result(CallStage::Params("bad".to_string())).unwrap_err();
    assert_eq!(e.code, -32602);
    let e = call_result(CallStage::Failed(method_not_found())).unwrap_err();
    assert_eq!(e.code, -32601);
    let e = call_result(CallStage::Unserializable("nan".to_string())).unwrap_err();
    assert_eq!((e.code, e.message.as_str()), (-32700, "Parse error"));
    let e = call_result(CallStage::Aborted("panicked".to_string())).unwrap_err();
    assert_eq!((e.code, e.message.as_str()), (-32603, "Internal error"));
    assert_eq!(call_result(CallStage::Done(Value::Bool(true))).unwrap(), Value::Bool(true));
}

#[test]
fn a_call_on_a_blocking_task_answers_as_a_direct_one() {
    assert_eq!(joined_result(Ok(CallStage::Done(Value::Bool(true)))), call_result(CallStage::Done(Value::Bool(true))));
    assert_eq!(
        joined_result(Ok(CallStage::Params("bad".to_string()))),
        call_result(CallStage::Params("bad".to_string()))
    );
    let e = joined_result(Err("task panicked".to_string())).unwrap_err();
    assert_eq!((e.code, e.message.as_str()), (-32603, "Internal error"));
    assert_eq!(e.data, Some(Value::String("task panicked".to_string())));
}
