use rpc_toolkit::error::{internal_error, invalid_params, invalid_request, method_not_found, parse_error};
use rpc_toolkit::value::Value;

#[test]
fn standard_errors_have_their_codes_and_messages() {
    let e = method_not_found();
    assert_eq!((e.code, e.message.as_str(), e.data), (-32601, "Method not found", None));
    let e = invalid_params("bad".to_string());
    assert_eq!((e.code, e.message.as_str()), (-32602, "Invalid params"));
    assert_eq!(e.data, Some(Value::String("bad".to_string())));
    let e = invalid_request("worse".to_string());
    assert_eq!((e.code, e.message.as_str()), (-32600, "Invalid Request"));
    assert_eq!(e.data, Some(Value::String("worse".to_string())));
    let e = parse_error("eof".to_string());
    assert_eq!((e.code, e.message.as_str()), (-32700, "Parse error"));
    let e = internal_error("oops".to_string());
    assert_eq!((e.code, e.message.as_str()), (-32603, "Internal error"));
    assert_eq!(e.data, Some(Value::String("oops".to_string())));
}
