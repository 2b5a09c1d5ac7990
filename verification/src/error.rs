use vstd::prelude::*;

use crate::value::Value;

verus! {

/// A JSON-RPC error: a code, a message, and optional data.
#[derive(Debug, PartialEq)]
pub struct RpcError {
    pub code: i32,
    pub message: String,
    pub data: Option<Value>,
}

pub open spec fn parse_error_code() -> i32 {
    -32700i32
}

pub open spec fn invalid_request_code() -> i32 {
    -32600i32
}

pub open spec fn method_not_found_code() -> i32 {
    -32601i32
}

pub open spec fn invalid_params_code() -> i32 {
    -32602i32
}

pub open spec fn internal_error_code() -> i32 {
    -32603i32
}

/// `e` is the standard error of code `code` and message `message`, with
/// no data.
pub open spec fn is_standard(e: RpcError, code: i32, message: Seq<char>) -> bool {
    e.code == code && e.message@ == message && e.data is None
}

/// `e` is the standard error of code `code` and message `message`, with
/// the string `detail` as its data.
pub open spec fn is_standard_with(e: RpcError, code: i32, message: Seq<char>, detail: String) -> bool {
    e.code == code && e.message@ == message && e.data == Some(Value::String(detail))
}

pub open spec fn is_method_not_found(e: RpcError) -> bool {
    is_standard(e, method_not_found_code(), "Method not found"@)
}

/// `yajrc::METHOD_NOT_FOUND_ERROR`: code -32601, message "Method not
/// found", no data.
#[verifier::external_body]
fn yajrc_method_not_found() -> (e: RpcError)
    ensures
        is_standard(e, method_not_found_code(), "Method not found"@),
{
    let e = yajrc::METHOD_NOT_FOUND_ERROR;
    RpcError { code: e.code, message: e.message.into_owned(), data: None }
}

/// `yajrc::INVALID_PARAMS_ERROR`: code -32602, message "Invalid params",
/// no data.
#[verifier::external_body]
fn yajrc_invalid_params() -> (e: RpcError)
    ensures
        is_standard(e, invalid_params_code(), "Invalid params"@),
{
    let e = yajrc::INVALID_PARAMS_ERROR;
    RpcError { code: e.code, message: e.message.into_owned(), data: None }
}

/// `yajrc::INVALID_REQUEST_ERROR`: code -32600, message "Invalid Request",
/// no data.
#[verifier::external_body]
fn yajrc_invalid_request() -> (e: RpcError)
    ensures
        is_standard(e, invalid_request_code(), "Invalid Request"@),
{
    let e = yajrc::INVALID_REQUEST_ERROR;
    RpcError { code: e.code, message: e.message.into_owned(), data: None }
}

/// `yajrc::PARSE_ERROR`: code -32700, message "Parse error", no data.
#[verifier::external_body]
fn yajrc_parse_error() -> (e: RpcError)
    ensures
        is_standard(e, parse_error_code(), "Parse error"@),
{
    let e = yajrc::PARSE_ERROR;
    RpcError { code: e.code, message: e.message.into_owned(), data: None }
}

/// `yajrc::INTERNAL_ERROR`: code -32603, message "Internal error", no
/// data.
#[verifier::external_body]
fn yajrc_internal_error() -> (e: RpcError)
    ensures
        is_standard(e, internal_error_code(), "Internal error"@),
{
    let e = yajrc::INTERNAL_ERROR;
    RpcError { code: e.code, message: e.message.into_owned(), data: None }
}

/// The error for a method that no handler serves.
pub fn method_not_found() -> (e: RpcError)
    ensures
        is_method_not_found(e),
{
    yajrc_method_not_found()
}

/// The error for parameters that do not fit the method, with the reason as
/// data.
pub fn invalid_params(detail: String) -> (e: RpcError)
    ensures
        is_standard_with(e, invalid_params_code(), "Invalid params"@, detail),
{
    let mut e = yajrc_invalid_params();
    e.data = Some(Value::String(detail));
    e
}

/// The error for a request that is not a valid JSON-RPC request, with the
/// reason as data.
pub fn invalid_request(detail: String) -> (e: RpcError)
    ensures
        is_standard_with(e, invalid_request_code(), "Invalid Request"@, detail),
{
    let mut e = yajrc_invalid_request();
    e.data = Some(Value::String(detail));
    e
}

/// The error for a request or response that could not be parsed, with the
/// reason as data.
pub fn parse_error(detail: String) -> (e: RpcError)
    ensures
        is_standard_with(e, parse_error_code(), "Parse error"@, detail),
{
    let mut e = yajrc_parse_error();
    e.data = Some(Value::String(detail));
    e
}

/// The error for a failure inside the server, with the reason as data.
pub fn internal_error(detail: String) -> (e: RpcError)
    ensures
        is_standard_with(e, internal_error_code(), "Internal error"@, detail),
{
    let mut e = yajrc_internal_error();
    e.data = Some(Value::String(detail));
    e
}

} // verus!
