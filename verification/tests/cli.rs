use rpc_toolkit::cli::{
    missing_content_type, reads_reply, remote_call, remote_outcome, remote_params, remote_request, reply_result, without,
    CallRemote, CliApp, CliRunError,
};
use rpc_toolkit::server::{RpcParams, RpcResponse};
use rpc_toolkit::handler::{
    from_fn, CliArgs, CliCommand, CliErrorKind, HandlerExt, IntoHandlers, ParentHandler, TsBindings,
};
use rpc_toolkit::ts::TSVisitor;
use rpc_toolkit::value::Value;

const CTX: u64 = 3;

fn s(x: &str) -> String {
    x.to_string()
}

fn ts() -> TsBindings {
    TsBindings::new(TSVisitor::new(), None)
}

fn obj(entries: &[(&str, &str)]) -> Value {
    Value::Object(entries.iter().map(|(k, v)| (s(k), Value::String(s(v)))).collect())
}

fn args(params: Value, sub: Option<(&str, CliArgs)>) -> CliArgs {
    CliArgs {
        params,
        subcommand: sub.map(|(n, a)| (s(n), Box::new(a))),
    }
}

fn tree() -> ParentHandler {
    ParentHandler::new(100, TSVisitor::new())
        .subcommand(s("hello"), from_fn(1, None, 11, ts()).with_about(s("Say hello")))
        .subcommand(s("server-only"), from_fn(2, None, 12, ts()).no_cli())
        .subcommand(
            s("fizz"),
            ParentHandler::new(101, TSVisitor::new())
                .subcommand(s("buzz"), from_fn(3, None, 13, ts()))
                .root_handler(from_fn(4, None, 14, ts())),
        )
}

#[test]
fn the_command_has_one_subcommand_per_command_line_handler() {
    let (node, _) = tree().into_node();
    let c = node.cli_command(CTX);
    assert_eq!(c.params, 100);
    assert!(c.subcommand_required);
    let subs: Vec<_> = c.subcommands.iter().map(|c| c.name.clone().unwrap()).collect();
    assert_eq!(subs, vec![s("fizz"), s("hello")]);
    assert_eq!(c.subcommands[1].about, Some(s("Say hello")));
    assert_eq!(c.subcommands[1].params, 11);
    let fizz = &c.subcommands[0];
    assert!(!fizz.subcommand_required);
    assert_eq!(fizz.subcommands.len(), 1);
    assert_eq!(fizz.subcommands[0].name, Some(s("buzz")));
}

#[test]
fn parsing_merges_the_arguments_of_each_level() {
    let (node, _) = tree().into_node();
    let a = args(
        obj(&[("verbose", "yes")]),
        Some(("fizz", args(obj(&[("level", "2")]), Some(("buzz", args(obj(&[("x", "1")]), None)))))),
    );
    let (method, params) = node.cli_parse(a, CTX).ok().unwrap();
    assert_eq!(method, vec![s("fizz"), s("buzz")]);
    assert_eq!(params, obj(&[("verbose", "yes"), ("level", "2"), ("x", "1")]));
}

#[test]
fn parsing_refuses_an_argument_set_twice() {
    let (node, _) = tree().into_node();
    let a = args(obj(&[("x", "a")]), Some(("hello", args(obj(&[("x", "b")]), None))));
    let e = node.cli_parse(a, CTX).err().unwrap();
    assert_eq!(e.kind, CliErrorKind::ArgumentConflict);
    assert_eq!(e.message, "duplicate key: x");
}

#[test]
fn a_subcommand_without_command_line_bindings_ends_the_method() {
    let (node, _) = tree().into_node();
    let a = args(obj(&[("x", "a")]), Some(("server-only", args(obj(&[("y", "b")]), None))));
    let (method, params) = node.cli_parse(a, CTX).ok().unwrap();
    assert!(method.is_empty());
    assert_eq!(params, obj(&[("x", "a")]));
}

#[test]
fn the_app_plans_what_to_run() {
    let app = CliApp::new(tree(), CTX);
    let config = CliCommand {
        params: 900,
        name: Some(s("test-cli")),
        about: None,
        subcommand_required: false,
        subcommands: vec![],
    };
    let c = app.command(config);
    assert_eq!(c.params, 900);
    assert_eq!(c.name, Some(s("test-cli")));
    assert_eq!(c.subcommands.len(), 2);

    let plan = match app.plan(args(obj(&[]), Some(("hello", args(obj(&[("name", "me")]), None))))) {
        Ok(p) => p,
        Err(_) => panic!("refused"),
    };
    assert_eq!(plan.invocation.handler, 1);
    assert_eq!(plan.invocation.params, obj(&[("name", "me")]));
    assert!(plan.display);

    let plan = match app.plan(args(obj(&[]), Some(("fizz", args(obj(&[]), None))))) {
        Ok(p) => p,
        Err(_) => panic!("refused"),
    };
    assert_eq!(plan.invocation.handler, 4);

    match app.plan(args(obj(&[]), None)) {
        Err(CliRunError::Rpc(e)) => assert_eq!(e.code, -32601),
        _ => panic!("no handler should serve the bare command"),
    }
    match app.plan(args(obj(&[("a", "1")]), Some(("hello", args(obj(&[("a", "2")]), None))))) {
        Err(CliRunError::Cli(e)) => assert_eq!(e.message, "duplicate key: a"),
        _ => panic!("conflict not reported"),
    }
}

#[test]
fn remote_calls_name_the_full_method() {
    let r: CallRemote<u8, u8> = CallRemote::new();
    assert_eq!(r.full_method(&vec![s("a"), s("b")], &vec![s("c")]), "a.b.c");
    assert_eq!(r.full_method(&vec![], &vec![s("c")]), "c");
    assert_eq!(r.full_method(&vec![s("a")], &vec![]), "a");
    assert_eq!(r.full_method(&vec![], &vec![]), "");
}

#[test]
fn a_remote_call_sends_id_zero_and_named_parameters() {
    let r = remote_request(s("group.thing"), vec![(s("x"), Value::Bool(true))]);
    assert_eq!(r.id, Some(Value::Number(s("0"))));
    assert_eq!(r.method, "group.thing");
    match r.params {
        RpcParams::Named(p) => assert_eq!(p, vec![(s("x"), Value::Bool(true))]),
        RpcParams::Positional(_) => panic!("parameters by position"),
    }
}

#[test]
fn only_a_json_reply_is_read() {
    assert!(reads_reply(Some("application/json")));
    assert!(!reads_reply(Some("text/plain")));
    assert!(!reads_reply(None));
    let e = missing_content_type();
    assert_eq!(e.code, -32603);
    assert_eq!(e.data, Some(Value::String(s("missing content type"))));
}

#[test]
fn the_reply_gives_the_result_or_says_why_not() {
    let ok = RpcResponse { id: None, result: Ok(Value::Null) };
    assert_eq!(reply_result(Ok(Ok(ok))), Ok(Value::Null));
    let e = reply_result(Ok(Err(s("bad json")))).unwrap_err();
    assert_eq!((e.code, e.data), (-32700, Some(Value::String(s("bad json")))));
    let e = reply_result(Err(s("closed"))).unwrap_err();
    assert_eq!((e.code, e.data), (-32603, Some(Value::String(s("closed")))));
}

fn make_api() -> ParentHandler {
    ParentHandler::new(0, TSVisitor::new())
        .subcommand(s("echo"), from_fn(1, None, 21, ts()).with_call_remote(9))
        .subcommand(s("hello"), from_fn(2, None, 22, ts()))
        .subcommand(s("a_hello"), from_fn(3, None, 0, ts()))
        .subcommand(
            s("dondes"),
            ParentHandler::new(23, TSVisitor::new()).subcommand(s("donde"), from_fn(4, None, 0, ts()).no_cli()),
        )
        .subcommand(
            s("fizz"),
            ParentHandler::new(23, TSVisitor::new()).root_handler(from_fn(5, None, 0, ts())),
        )
        .subcommand(
            s("error"),
            ParentHandler::new(23, TSVisitor::new()).root_handler(from_fn(6, None, 0, ts()).no_cli()),
        )
}

#[test]
fn test_cli() {
    let app = CliApp::new(make_api(), CTX);
    let plan = match app.plan(args(obj(&[]), Some(("hello", args(obj(&[("whom", "me")]), None))))) {
        Ok(p) => p,
        Err(_) => panic!("hello refused"),
    };
    assert_eq!(plan.invocation.handler, 2);
    assert_eq!(plan.invocation.params, obj(&[("whom", "me")]));
    let plan = match app.plan(args(obj(&[]), Some(("fizz", args(obj(&[("donde", "buzz")]), None))))) {
        Ok(p) => p,
        Err(_) => panic!("fizz refused"),
    };
    assert_eq!(plan.invocation.handler, 5);
    assert_eq!(plan.invocation.params, obj(&[("donde", "buzz")]));
}

#[test]
fn a_forwarded_call_sends_its_own_and_the_inherited_parameters() {
    let own = obj(&[("a", "1"), ("b", "2")]);
    let inherited = obj(&[("c", "3"), ("a", "9")]);
    let sent = remote_params(own, inherited).unwrap();
    assert_eq!(
        sent,
        vec![(s("b"), Value::String(s("2"))), (s("c"), Value::String(s("3"))), (s("a"), Value::String(s("9")))]
    );
    assert_eq!(remote_params(Value::Null, obj(&[("x", "1")])).unwrap(), vec![(s("x"), Value::String(s("1")))]);
    assert!(remote_params(Value::String(s("x")), Value::Null).is_none());
    assert!(remote_params(obj(&[]), Value::Array(vec![])).is_none());
}

#[test]
fn a_forwarded_call_gives_the_result_or_the_error() {
    assert_eq!(remote_outcome(Ok(Ok(Value::Bool(true)))), Ok(Value::Bool(true)));
    let e = remote_outcome(Ok(Err(s("bad result")))).unwrap_err();
    assert_eq!((e.code, e.data), (-32603, Some(Value::String(s("bad result")))));
    let server = rpc_toolkit::error::method_not_found();
    assert_eq!(remote_outcome(Err(server)), Err(rpc_toolkit::error::method_not_found()));
}

#[test]
fn without_takes_out_the_keys_of_the_extra_values() {
    let raw = obj(&[("a", "1"), ("token", "t"), ("b", "2")]);
    assert_eq!(without(raw, &obj(&[("token", "x")])), Some(obj(&[("a", "1"), ("b", "2")])));
    assert_eq!(without(obj(&[("a", "1")]), &obj(&[])), Some(obj(&[("a", "1")])));
    assert_eq!(without(obj(&[("a", "1")]), &obj(&[("a", "1"), ("b", "2")])), Some(obj(&[])));
    assert_eq!(without(Value::Null, &obj(&[])), None);
    assert_eq!(without(obj(&[("a", "1")]), &Value::Null), None);
}

#[test]
fn a_remote_call_sends_the_parameters_without_the_extra_ones() {
    let call = remote_call(
        &vec![s("group")],
        &vec![s("echo")],
        obj(&[("message", "hi"), ("token", "t")]),
        obj(&[("token", "t")]),
    )
    .ok()
    .unwrap();
    assert_eq!(call.method, "group.echo");
    assert_eq!(call.params, obj(&[("message", "hi")]));
    assert_eq!(call.extra, obj(&[("token", "t")]));
    let e = remote_call(&vec![], &vec![s("echo")], Value::Bool(true), obj(&[])).err().unwrap();
    assert_eq!(e.code, -32602);
    assert_eq!(e.data, Some(Value::String(s("the parameters and the extra values must be objects"))));
}
