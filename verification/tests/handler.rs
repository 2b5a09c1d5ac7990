use rpc_toolkit::error::RpcError;
use rpc_toolkit::handler::{
    from_fn, from_fn_async, intersect_type_ids, DisplayMode, HandlerExt, Invocation, ParentHandler,
    TsBindings,
};
use rpc_toolkit::server::{RpcParams, RpcRequest, Server, SingleOrBatchRpcRequest};
use rpc_toolkit::ts::TSVisitor;
use rpc_toolkit::value::Value;

const CTX: u64 = 7;
const OTHER_CTX: u64 = 8;

fn s(x: &str) -> String {
    x.to_string()
}

fn names(v: &[String]) -> Vec<&str> {
    v.iter().map(|x| x.as_str()).collect()
}

fn ts() -> TsBindings {
    TsBindings::new(TSVisitor::new(), None)
}

fn thing_params(thing: &str) -> Value {
    Value::Object(vec![(s("thing"), Value::String(s(thing)))])
}

fn basic_tree() -> ParentHandler {
    ParentHandler::new(0, TSVisitor::new())
        .subcommand(s("thing1"), from_fn_async(1, None, 10, ts()))
        .subcommand(
            s("group"),
            ParentHandler::new(0, TSVisitor::new())
                .subcommand(s("thing1"), from_fn_async(1, None, 10, ts()))
                .subcommand(s("thing2"), from_fn_async(2, None, 20, ts()))
                .subcommand(s("no-ts"), from_fn(3, None, 30, ts()).no_ts()),
        )
}

fn expect_ok(r: Result<Invocation, RpcError>) -> Invocation {
    match r {
        Ok(inv) => inv,
        Err(e) => panic!("unexpected error {:?}", e),
    }
}

#[test]
fn test_basic_server() {
    let server = Server::new(basic_tree(), CTX);

    let inv = expect_ok(server.handle_command("thing1", thing_params("test")));
    assert_eq!(inv.handler, 1);
    assert_eq!(inv.context, CTX);
    assert_eq!(names(&inv.parent_method), vec!["thing1"]);
    assert!(inv.method.is_empty());
    assert_eq!(inv.params, thing_params("test"));

    let inv = expect_ok(server.handle_command("group.thing1", thing_params("nested")));
    assert_eq!(inv.handler, 1);
    assert_eq!(names(&inv.parent_method), vec!["group", "thing1"]);
    assert_eq!(inv.params, thing_params("nested"));

    let inv = expect_ok(server.handle_command("group.thing2", Value::Object(vec![])));
    assert_eq!(inv.handler, 2);
    assert_eq!(names(&inv.parent_method), vec!["group", "thing2"]);
}

#[test]
fn unknown_method_is_not_found() {
    let server = Server::new(basic_tree(), CTX);
    for m in ["thing3", "group.thing3", "thing1.extra", "group.thing1.x"] {
        match server.handle_command(m, Value::Null) {
            Err(e) => {
                assert_eq!(e.code, -32601);
                assert_eq!(e.message, "Method not found");
                assert_eq!(e.data, None);
            }
            Ok(inv) => panic!("{} should not be found, got handler {}", m, inv.handler),
        }
    }
}

#[test]
fn trailing_dot_after_leaf_is_the_leaf() {
    let server = Server::new(basic_tree(), CTX);
    let inv = expect_ok(server.handle_command("thing1.", Value::Null));
    assert_eq!(inv.handler, 1);
}

#[test]
fn root_handler_serves_the_empty_method() {
    let root = ParentHandler::new(0, TSVisitor::new())
        .root_handler(from_fn(9, None, 0, ts()))
        .subcommand(
            s("group"),
            ParentHandler::new(0, TSVisitor::new()).root_handler(from_fn(5, None, 0, ts())),
        );
    let server = Server::new(root, CTX);
    let inv = expect_ok(server.handle_command("", Value::Null));
    assert_eq!(inv.handler, 9);
    assert!(inv.parent_method.is_empty());
    let inv = expect_ok(server.handle_command("group", Value::Null));
    assert_eq!(inv.handler, 5);
    assert_eq!(names(&inv.parent_method), vec!["group"]);
}

#[test]
fn handlers_are_chosen_by_context() {
    let root = ParentHandler::new(0, TSVisitor::new())
        .subcommand(s("only"), from_fn(1, Some(vec![CTX]), 0, ts()))
        .subcommand(s("any"), from_fn(2, None, 0, ts()))
        .subcommand(s("both"), from_fn(3, None, 0, ts()))
        .subcommand(s("both"), from_fn(4, Some(vec![OTHER_CTX]), 0, ts()));
    let here = Server::new(root, CTX);
    assert_eq!(expect_ok(here.handle_command("only", Value::Null)).handler, 1);
    assert_eq!(expect_ok(here.handle_command("any", Value::Null)).handler, 2);
    assert_eq!(expect_ok(here.handle_command("both", Value::Null)).handler, 3);
    let there = Server::new(here.root_handler, OTHER_CTX);
    assert!(there.handle_command("only", Value::Null).is_err());
    assert_eq!(expect_ok(there.handle_command("any", Value::Null)).handler, 2);
    assert_eq!(expect_ok(there.handle_command("both", Value::Null)).handler, 4);
}

#[test]
fn a_later_subcommand_replaces_an_earlier_one() {
    let root = ParentHandler::new(0, TSVisitor::new())
        .subcommand(s("x"), from_fn(1, None, 0, ts()))
        .subcommand(s("x"), from_fn(2, None, 0, ts()));
    let server = Server::new(root, CTX);
    assert_eq!(expect_ok(server.handle_command("x", Value::Null)).handler, 2);
}

#[test]
fn invocation_carries_blocking_display_and_remote() {
    let root = ParentHandler::new(0, TSVisitor::new())
        .subcommand(s("quiet"), from_fn(1, None, 0, ts()).no_display())
        .subcommand(s("shown"), from_fn(2, None, 0, ts()).with_custom_display(77))
        .subcommand(s("remote"), from_fn(3, Some(vec![OTHER_CTX]), 0, ts()).with_call_remote(CTX));
    let server = Server::new(root, CTX);
    let q = expect_ok(server.handle_command("quiet", Value::Null));
    assert_eq!(q.display, DisplayMode::Hidden);
    assert!(!q.blocking);
    let c = expect_ok(server.handle_command("shown", Value::Null));
    assert_eq!(c.display, DisplayMode::Custom(77));
    let r = expect_ok(server.handle_command("remote", Value::Null));
    assert_eq!(r.handler, 3);
    assert!(r.remote);
}

#[test]
fn positional_parameters_are_refused() {
    let server = Server::new(basic_tree(), CTX);
    let req = RpcRequest {
        id: Some(Value::Number(s("1"))),
        method: s("thing1"),
        params: RpcParams::Positional(vec![Value::Bool(true)]),
    };
    match server.handle_single_request(req) {
        Err(resp) => {
            assert_eq!(resp.id, Some(Value::Number(s("1"))));
            let e = resp.result.unwrap_err();
            assert_eq!(e.code, -32602);
            assert_eq!(e.message, "Invalid params");
            assert_eq!(e.data, Some(Value::String(s("positional parameters unsupported"))));
        }
        Ok(_) => panic!("positional parameters were accepted"),
    }
}

#[test]
fn named_parameters_become_an_object() {
    let server = Server::new(basic_tree(), CTX);
    let req = RpcRequest {
        id: Some(Value::String(s("a"))),
        method: s("group.thing2"),
        params: RpcParams::Named(vec![(s("verbose"), Value::Bool(true))]),
    };
    match server.handle_single_request(req) {
        Ok((id, inv)) => {
            assert_eq!(id, Some(Value::String(s("a"))));
            assert_eq!(inv.handler, 2);
            assert_eq!(inv.params, Value::Object(vec![(s("verbose"), Value::Bool(true))]));
        }
        Err(resp) => panic!("refused: {:?}", resp.result.err()),
    }
    let req = RpcRequest {
        id: None,
        method: s("nothing"),
        params: RpcParams::Named(vec![]),
    };
    match server.handle_single_request(req) {
        Err(resp) => {
            assert_eq!(resp.id, None);
            assert_eq!(resp.result.unwrap_err().code, -32601);
        }
        Ok(_) => panic!("unknown method accepted"),
    }
}

#[test]
fn metadata_of_the_child_overrides_the_parent() {
    let root = ParentHandler::new(0, TSVisitor::new())
        .with_metadata(s("auth"), Value::Bool(true))
        .with_metadata(s("level"), Value::Number(s("1")))
        .subcommand(
            s("open"),
            from_fn(1, None, 0, ts()).with_metadata(s("auth"), Value::Bool(false)),
        )
        .subcommand(s("closed"), from_fn(2, None, 0, ts()));
    let server = Server::new(root, CTX);
    let md = server.request_metadata("open").unwrap();
    fn get<'a>(md: &[(&'a String, &'a Value)], k: &str) -> Option<&'a Value> {
        md.iter().find(|(key, _)| key.as_str() == k).map(|(_, v)| *v)
    }
    assert_eq!(get(&md, "auth"), Some(&Value::Bool(false)));
    assert_eq!(get(&md, "level"), Some(&Value::Number(s("1"))));
    let md = server.request_metadata("closed").unwrap();
    assert_eq!(get(&md, "auth"), Some(&Value::Bool(true)));
    let e = server.request_metadata("missing").unwrap_err();
    assert_eq!(e.code, -32601);
}

#[test]
fn intersections_of_context_sets() {
    assert_eq!(intersect_type_ids(None, None), None);
    assert_eq!(intersect_type_ids(Some(vec![1, 2]), None), Some(vec![1, 2]));
    assert_eq!(intersect_type_ids(None, Some(vec![3])), Some(vec![3]));
    let r = intersect_type_ids(Some(vec![1, 2, 3]), Some(vec![3, 2, 9])).unwrap();
    let mut r = r;
    r.sort();
    r.dedup();
    assert_eq!(r, vec![2, 3]);
    assert_eq!(intersect_type_ids(Some(vec![1]), Some(vec![2])), Some(vec![]));
}

#[test]
fn a_batch_is_answered_request_by_request() {
    let server = Server::new(basic_tree(), CTX);
    let req = |id: &str, method: &str, params: RpcParams| RpcRequest {
        id: Some(Value::String(s(id))),
        method: s(method),
        params,
    };
    let answers = server.handle(SingleOrBatchRpcRequest::Batch(vec![
        req("1", "thing1", RpcParams::Named(vec![])),
        req("2", "missing", RpcParams::Named(vec![])),
        req("3", "group.thing2", RpcParams::Positional(vec![])),
    ]));
    assert_eq!(answers.len(), 3);
    match &answers[0] {
        Ok((id, inv)) => {
            assert_eq!(id, &Some(Value::String(s("1"))));
            assert_eq!(inv.handler, 1);
        }
        Err(_) => panic!("first refused"),
    }
    match &answers[1] {
        Err(resp) => assert_eq!(resp.result.as_ref().unwrap_err().code, -32601),
        Ok(_) => panic!("second accepted"),
    }
    match &answers[2] {
        Err(resp) => {
            assert_eq!(resp.id, Some(Value::String(s("3"))));
            assert_eq!(resp.result.as_ref().unwrap_err().code, -32602);
        }
        Ok(_) => panic!("third accepted"),
    }
    let single = server.handle(SingleOrBatchRpcRequest::Single(req("4", "thing1", RpcParams::Named(vec![]))));
    assert_eq!(single.len(), 1);
}

#[test]
fn subcommands_are_kept_in_name_order() {
    let root = ParentHandler::new(0, TSVisitor::new())
        .subcommand(s("zeta"), from_fn(1, None, 0, ts()))
        .subcommand(s("alpha"), from_fn(2, None, 0, ts()))
        .subcommand(s("mid"), from_fn(3, None, 0, ts()))
        .subcommand(s("alpha"), from_fn(4, None, 0, ts()));
    let order: Vec<Option<String>> = root.subcommands.0.iter().map(|e| e.name.clone()).collect();
    assert_eq!(order, vec![Some(s("alpha")), Some(s("mid")), Some(s("zeta"))]);
}

#[test]
fn a_handler_inherits_the_parameter_types_of_its_parents() {
    let root = ParentHandler::new(100, TSVisitor::new())
        .subcommand(s("top"), from_fn(1, None, 10, ts()))
        .subcommand(
            s("group"),
            ParentHandler::new(101, TSVisitor::new()).subcommand(s("inner"), from_fn(2, None, 20, ts())),
        );
    let server = Server::new(root, CTX);
    assert_eq!(expect_ok(server.handle_command("top", Value::Null)).inherited, vec![100]);
    assert_eq!(expect_ok(server.handle_command("group.inner", Value::Null)).inherited, vec![100, 101]);
}
