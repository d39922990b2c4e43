//! JSON-RPC 2.0 and the MCP messages that travel in it.
use vstd::prelude::*;

use crate::json::{json_option, Field, Json, JsonNumber, JsonView, NumberView};

verus! {

/// The request is not JSON, or no request.
pub const PARSE_ERROR: i64 = -32700;

/// There is no such method.
pub const METHOD_NOT_FOUND: i64 = -32601;

/// The parameters do not fit the method.
pub const INVALID_PARAMS: i64 = -32602;

/// The request could not be carried out.
pub const INTERNAL_ERROR: i64 = -32603;

// ---------------------------------------------------------------------------
// Requests
// ---------------------------------------------------------------------------

/// A request, or a notification where it has no identifier.
pub struct JsonRpcRequest {
    pub id: Option<Json>,
    pub method: String,
    pub params: Option<Json>,
}

/// The model of [`JsonRpcRequest`].
pub struct RequestView {
    pub id: Option<JsonView>,
    pub method: Seq<char>,
    pub params: Option<JsonView>,
}

impl View for JsonRpcRequest {
    type V = RequestView;

    open spec fn view(&self) -> RequestView {
        RequestView { id: json_option(self.id), method: self.method@, params: json_option(self.params) }
    }
}

/// The value under `key`, where it is there and not null.
pub open spec fn present(j: JsonView, key: Seq<char>) -> Option<JsonView> {
    match j.member(key) {
        Some(JsonView::Null) => None,
        other => other,
    }
}

/// What a request says, or what is wrong with it.
pub open spec fn read_request(j: JsonView) -> Result<RequestView, Seq<char>> {
    match j.text_field("method"@) {
        Field::Missing => Err("missing field `method`"@),
        Field::Wrong => Err("invalid type for field `method`, expected a string"@),
        Field::Value(method) => Ok(
            RequestView { id: present(j, "id"@), method, params: present(j, "params"@) },
        ),
    }
}

/// The value under `key`, where it is there and not null.
fn present_value(j: &Json, key: &str) -> (r: Option<Json>)
    ensures
        json_option(r) == present(j@, key@),
{
    match j.get(key) {
        Some(Json::Null) => None,
        Some(v) => Some(v.clone()),
        None => None,
    }
}

impl JsonRpcRequest {
    /// Reads a request.
    pub fn from_json(j: &Json) -> (r: Result<JsonRpcRequest, String>)
        ensures
            match r {
                Ok(req) => read_request(j@) == Ok::<RequestView, Seq<char>>(req@),
                Err(e) => read_request(j@) == Err::<RequestView, Seq<char>>(e@),
            },
    {
        match j.text_field("method") {
            Field::Missing => Err("missing field `method`".to_owned()),
            Field::Wrong => Err("invalid type for field `method`, expected a string".to_owned()),
            Field::Value(method) => Ok(
                JsonRpcRequest { id: present_value(j, "id"), method, params: present_value(j, "params") },
            ),
        }
    }
}

// ---------------------------------------------------------------------------
// Responses
// ---------------------------------------------------------------------------

/// An identifier in a response: null where the request had none.
pub open spec fn id_json(id: Option<JsonView>) -> JsonView {
    match id {
        Some(v) => v,
        None => JsonView::Null,
    }
}

/// A response with a result.
pub open spec fn ok_response(id: Option<JsonView>, result: JsonView) -> JsonView {
    JsonView::object().with("id"@, id_json(id)).with("jsonrpc"@, JsonView::Text("2.0"@)).with("result"@, result)
}

/// A response with an error.
pub open spec fn err_response(id: Option<JsonView>, code: int, message: Seq<char>) -> JsonView {
    JsonView::object().with(
        "error"@,
        JsonView::object().with("code"@, JsonView::Number(NumberView::Negative(code))).with(
            "message"@,
            JsonView::Text(message),
        ),
    ).with("id"@, id_json(id)).with("jsonrpc"@, JsonView::Text("2.0"@))
}

/// An identifier in a response.
fn id_or_null(id: &Option<Json>) -> (r: Json)
    ensures
        r@ == id_json(json_option(*id)),
{
    match id {
        Some(v) => v.clone(),
        None => Json::Null,
    }
}

/// A response with a result.
pub fn respond(id: &Option<Json>, result: Json) -> (r: Json)
    ensures
        r@ == ok_response(json_option(*id), result@),
{
    Json::object().with("id", id_or_null(id)).with("jsonrpc", Json::text("2.0")).with("result", result)
}

/// A response with an error.
pub fn respond_error(id: &Option<Json>, code: i64, message: &str) -> (r: Json)
    ensures
        r@ == err_response(json_option(*id), code as int, message@),
{
    let error = Json::object().with("code", Json::Number(JsonNumber::Negative(code))).with(
        "message",
        Json::text(message),
    );
    Json::object().with("error", error).with("id", id_or_null(id)).with("jsonrpc", Json::text("2.0"))
}

/// The result of a tool call: one text, and whether it tells of an error.
pub open spec fn call_result(text: Seq<char>, is_error: bool) -> JsonView {
    JsonView::object().with(
        "content"@,
        JsonView::Array(
            seq![JsonView::object().with("text"@, JsonView::Text(text)).with("type"@, JsonView::Text("text"@))],
        ),
    ).with("isError"@, JsonView::Bool(is_error))
}

/// The result of a tool call.
pub fn tool_call_result(text: &str, is_error: bool) -> (r: Json)
    ensures
        r@ == call_result(text@, is_error),
{
    let mut content: Vec<Json> = Vec::new();
    content.push(Json::object().with("text", Json::text(text)).with("type", Json::text("text")));
    let list = Json::array(content);
    assert(list@->Array_0 =~= seq![
        JsonView::object().with("text"@, JsonView::Text(text@)).with("type"@, JsonView::Text("text"@)),
    ]);
    Json::object().with("content", list).with("isError", Json::Bool(is_error))
}

// ---------------------------------------------------------------------------
// Parameters of `tools/call`
// ---------------------------------------------------------------------------

/// The name and the arguments of a `tools/call`, if its parameters hold them.
/// The arguments are an object, by default an empty one.
pub open spec fn call_params(params: Option<JsonView>) -> Option<(Seq<char>, JsonView)> {
    match params {
        None => None,
        Some(p) => match (p.text_field("name"@), p.member("arguments"@)) {
            (Field::Value(name), None) => Some((name, JsonView::object())),
            (Field::Value(name), Some(a)) => if a is Object {
                Some((name, a))
            } else {
                None
            },
            _ => None,
        },
    }
}

/// Reads the parameters of a `tools/call`.
pub fn read_call_params(params: &Option<Json>) -> (r: Option<(String, Json)>)
    ensures
        match r {
            Some(c) => call_params(json_option(*params)) == Some((c.0@, c.1@)),
            None => call_params(json_option(*params)) is None,
        },
{
    match params {
        None => None,
        Some(p) => match p.text_field("name") {
            Field::Value(name) => match p.get("arguments") {
                None => Some((name, Json::object())),
                Some(a) => {
                    if a.as_object().is_some() {
                        Some((name, a.clone()))
                    } else {
                        None
                    }
                },
            },
            _ => None,
        },
    }
}

} // verus!
