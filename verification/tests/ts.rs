use std::collections::{BTreeMap, HashMap};

use rpc_toolkit::handler::{from_fn, HandlerExt, IntoHandlers, Node, ParentHandler, TsBindings};
use rpc_toolkit::ts::{
    struct_close, struct_open, variant_open, visit_array, visit_enum, visit_field, visit_map, HandlerTS,
    HandlerTSBindings, LiteralTS, Never, StructInfo, TSVisitor, Unknown, TS,
};
use rpc_toolkit::value::Value;

fn s(x: &str) -> String {
    x.to_string()
}

fn text_of<T: TS>() -> String {
    let mut v = TSVisitor::new();
    T::visit_ts(&mut v);
    v.ts
}

#[test]
fn primitive_types_have_their_names() {
    assert_eq!(text_of::<bool>(), "boolean");
    assert_eq!(text_of::<String>(), "string");
    assert_eq!(text_of::<u8>(), "number");
    assert_eq!(text_of::<i32>(), "number");
    assert_eq!(text_of::<usize>(), "number");
    assert_eq!(text_of::<u64>(), "bigint");
    assert_eq!(text_of::<i128>(), "bigint");
    assert_eq!(text_of::<Unknown>(), "unknown");
    assert_eq!(text_of::<Value>(), "unknown");
    assert_eq!(text_of::<Never>(), "never");
    assert_eq!(text_of::<Box<bool>>(), "boolean");
}

#[test]
fn arrays_and_maps() {
    assert_eq!(text_of::<Vec<u32>>(), "(number)[]");
    assert_eq!(text_of::<Vec<Vec<bool>>>(), "((boolean)[])[]");
    assert_eq!(text_of::<HashMap<String, bool>>(), "{[key:string]:boolean}");
    assert_eq!(text_of::<BTreeMap<u8, u64>>(), "{[key:number]:bigint}");
    let mut v = TSVisitor::new();
    visit_array::<String>(&mut v);
    visit_map::<String, Vec<i8>>(&mut v);
    assert_eq!(v.ts, "(string)[]{[key:string]:(number)[]}");
    assert!(v.definitions.is_empty());
}

#[test]
fn visit_ty_with_a_name_records_the_text_under_it() {
    let mut v = TSVisitor::new();
    v.visit_ty::<bool>(Some(s("Flag")));
    assert_eq!(v.ts, "Flag");
    assert_eq!(v.definitions, vec![(s("Flag"), s("boolean"))]);
    v.visit_ty::<bool>(None);
    assert_eq!(v.ts, "Flagboolean");
    v.visit_ty::<Vec<bool>>(Some(s("Flags")));
    assert_eq!(v.ts, "FlagbooleanFlags");
    assert_eq!(v.definitions, vec![(s("Flag"), s("boolean")), (s("Flags"), s("(boolean)[]"))]);
}

#[test]
fn fields_are_named_or_quoted() {
    let mut v = TSVisitor::new();
    visit_field::<String>(&mut v, Some("name"));
    visit_field::<u64>(&mut v, Some("foo-bar"));
    visit_field::<bool>(&mut v, Some("1st"));
    visit_field::<bool>(&mut v, Some("_x"));
    visit_field::<bool>(&mut v, None);
    assert_eq!(v.ts, "name:string;\"foo-bar\":bigint;\"1st\":boolean;\"_x\":boolean;boolean,");
}

#[test]
fn definitions_are_recorded_once() {
    let mut v = TSVisitor::new();
    v.insert_definition(s("A"), s("string"));
    v.insert_definition(s("A"), s("string"));
    assert_eq!(v.definitions, vec![(s("A"), s("string"))]);
    let mut inner = TSVisitor::new();
    inner.insert_definition(s("B"), s("number"));
    inner.ts.push_str("{b:B;}");
    v.load_definition(s("C"), inner);
    assert_eq!(
        v.definitions,
        vec![(s("A"), s("string")), (s("B"), s("number")), (s("C"), s("{b:B;}"))]
    );
    assert_eq!(v.ts, "");
}

#[test]
fn literal_text_is_appended_as_it_is() {
    let mut v = TSVisitor::new();
    LiteralTS(s("\"a\"|\"b\"")).visit(&mut v);
    assert_eq!(v.ts, "\"a\"|\"b\"");
}

#[test]
fn handler_bindings_list_params_result_and_children() {
    let leaf = from_fn(1, None, 0, TsBindings::for_types::<String, bool>());
    let hidden = from_fn(2, None, 0, TsBindings::for_types::<u8, u8>()).no_ts();
    let root = ParentHandler::new(0, text_visitor("{}"))
        .subcommand(s("echo"), leaf)
        .subcommand(s("secret"), hidden)
        .subcommand(
            s("group"),
            ParentHandler::new(0, text_visitor("{v:boolean;}"))
                .subcommand(s("n"), from_fn(3, None, 0, TsBindings::for_types::<Vec<u32>, Unknown>())),
        );
    let (node, _) = root.into_node();
    let ts = node.get_ts().unwrap();
    let mut v = TSVisitor::new();
    ts.visit(&mut v, 5);
    assert_eq!(
        v.ts,
        "{_PARAMS:{};_CHILDREN:{\"echo\":{_PARAMS:string;_RETURN:boolean};\"group\":{_PARAMS:{v:boolean;};_CHILDREN:{\"n\":{_PARAMS:(number)[];_RETURN:unknown};}};\"secret\":unknown;}}"
    );
    if let Node::Parent(p) = &node {
        let h = HandlerTS::new(p);
        assert!(h.return_ts.is_none());
        assert!(h.children.is_some());
    }
}

fn text_visitor(t: &str) -> TSVisitor {
    let mut v = TSVisitor::new();
    v.ts.push_str(t);
    v
}

fn struct_text(info: StructInfo) -> String {
    let mut v = TSVisitor::new();
    let named = struct_open(&mut v, info);
    if named {
        visit_field::<bool>(&mut v, Some("a"));
        visit_field::<String>(&mut v, Some("b c"));
    } else {
        bool::visit_ts(&mut v);
    }
    struct_close(&mut v, info);
    v.ts
}

#[test]
fn structs_are_objects_tuples_or_their_one_field() {
    assert_eq!(struct_text(StructInfo { named_fields: true, field_count: 2 }), "{a:boolean;\"b c\":string;}");
    assert_eq!(struct_text(StructInfo { named_fields: false, field_count: 1 }), "boolean");
    let mut v = TSVisitor::new();
    assert!(struct_open(&mut v, StructInfo { named_fields: false, field_count: 2 }));
    visit_field::<bool>(&mut v, None);
    visit_field::<u8>(&mut v, None);
    struct_close(&mut v, StructInfo { named_fields: false, field_count: 2 });
    assert_eq!(v.ts, "[boolean,number,]");
}

#[test]
fn enum_variants_are_a_union_and_no_variant_is_never() {
    let mut v = TSVisitor::new();
    assert!(!visit_enum(&mut v, 0));
    assert_eq!(v.ts, "never");
    let mut v = TSVisitor::new();
    assert!(visit_enum(&mut v, 2));
    variant_open(&mut v, 2);
    LiteralTS(s("\"a\"")).visit(&mut v);
    variant_open(&mut v, 2);
    LiteralTS(s("\"b\"")).visit(&mut v);
    assert_eq!(v.ts, "|\"a\"|\"b\"");
    let mut v = TSVisitor::new();
    variant_open(&mut v, 1);
    assert_eq!(v.ts, "");
}

#[test]
fn definitions_are_kept_in_the_order_of_their_names() {
    let mut v = TSVisitor::new();
    v.insert_definition(s("Zed"), s("number"));
    v.insert_definition(s("Alpha"), s("string"));
    v.insert_definition(s("Mid"), s("boolean"));
    v.insert_definition(s("Alpha"), s("string"));
    let names: Vec<&str> = v.definitions.iter().map(|(n, _)| n.as_str()).collect();
    assert_eq!(names, vec!["Alpha", "Mid", "Zed"]);
}

#[test]
fn quoted_field_names_are_escaped_as_json_strings() {
    let mut v = TSVisitor::new();
    visit_field::<bool>(&mut v, Some("a\"b\\c"));
    visit_field::<bool>(&mut v, Some("tab\there"));
    visit_field::<bool>(&mut v, Some("bell\u{7}"));
    assert_eq!(v.ts, "\"a\\\"b\\\\c\":boolean;\"tab\\there\":boolean;\"bell\\u0007\":boolean;");
}
