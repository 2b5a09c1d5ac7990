use rpc_toolkit::value::{combine, Value, ValueErrorKind};

fn s(x: &str) -> String {
    x.to_string()
}

fn obj(entries: &[(&str, i64)]) -> Value {
    Value::Object(entries.iter().map(|(k, v)| (s(k), Value::Number(v.to_string()))).collect())
}

#[test]
fn combine_puts_the_second_object_after_the_first() {
    let r = combine(obj(&[("a", 1), ("b", 2)]), obj(&[("c", 3)])).unwrap();
    assert_eq!(r, obj(&[("a", 1), ("b", 2), ("c", 3)]));
}

#[test]
fn combine_with_an_empty_object_changes_nothing() {
    assert_eq!(combine(obj(&[("a", 1)]), obj(&[])).unwrap(), obj(&[("a", 1)]));
    assert_eq!(combine(obj(&[]), obj(&[("a", 1)])).unwrap(), obj(&[("a", 1)]));
}

#[test]
fn combine_refuses_a_duplicate_key() {
    let e = combine(obj(&[("a", 1), ("b", 2)]), obj(&[("c", 3), ("b", 4), ("a", 5)])).unwrap_err();
    assert_eq!(e.kind, ValueErrorKind::Serialization);
    assert_eq!(e.message, "duplicate key: b");
}

#[test]
fn combine_refuses_a_key_repeated_in_the_second_object() {
    let e = combine(obj(&[("a", 1)]), obj(&[("c", 3), ("c", 4)])).unwrap_err();
    assert_eq!(e.message, "duplicate key: c");
}

#[test]
fn combine_refuses_values_that_are_not_objects() {
    for (a, b) in [
        (Value::Null, obj(&[])),
        (obj(&[]), Value::Bool(true)),
        (Value::Array(vec![]), Value::String(s("x"))),
    ] {
        let e = combine(a, b).unwrap_err();
        assert_eq!(e.kind, ValueErrorKind::Serialization);
        assert_eq!(e.message, "params must be object");
    }
}

#[test]
fn combining_in_either_grouping_gives_the_same_object() {
    let x = || obj(&[("a", 1)]);
    let y = || obj(&[("b", 2)]);
    let z = || obj(&[("c", 3)]);
    let left = combine(combine(x(), y()).unwrap(), z()).unwrap();
    let right = combine(x(), combine(y(), z()).unwrap()).unwrap();
    assert_eq!(left, right);
}

#[test]
fn a_line_of_input_loses_its_newline() {
    assert_eq!(rpc_toolkit::util::stdin_text("42\n"), "42");
    assert_eq!(rpc_toolkit::util::stdin_text("42"), "42");
    assert_eq!(rpc_toolkit::util::stdin_text("a\n\n"), "a\n");
    assert_eq!(rpc_toolkit::util::stdin_text(""), "");
}
