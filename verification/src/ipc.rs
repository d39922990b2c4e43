//! The local socket of the bridge daemon.
//!
//! One JSON document on a line goes each way:
//!
//! ```text
//! → {"method":"network_peers","params":{}}
//! ← {"peers":[...]}
//! ```
use vstd::prelude::*;

use crate::json::{lemma_member_added, lemma_member_kept, printed, read_json, Json, JsonView};
use crate::text::{trim, trimmed};

verus! {

/// The socket of the daemon.
pub const SOCKET_PATH: &'static str = "/tmp/clawshake-bridge.sock";

/// The named pipe of the daemon, on Windows.
pub const PIPE_PATH: &'static str = "\\\\.\\pipe\\clawshake-bridge";

/// How long a request may take, in seconds.
pub const REQUEST_TIMEOUT_SECS: u64 = 15;

/// A request.
pub open spec fn request_json(method: Seq<char>, params: JsonView) -> JsonView {
    JsonView::object().with("method"@, JsonView::Text(method)).with("params"@, params)
}

/// The line of a request.
pub fn request_line(method: &str, params: Json) -> (r: String)
    ensures
        r@ == printed(request_json(method@, params@)) + "\n"@,
{
    let mut line = Json::object().with("method", Json::text(method)).with("params", params).to_text();
    line.push_str("\n");
    line
}

/// The answer on a line, or what is wrong with it.
pub fn read_response(line: &str) -> (r: Result<Json, String>)
    ensures
        match read_json(vstd::utf8::encode_utf8(trimmed(line@))) {
            Ok(v) => r is Ok && r->Ok_0@ == v,
            Err(e) => r is Err && r->Err_0@ == "parse response JSON: "@ + e,
        },
{
    let text = trim(line);
    match Json::read(text.as_str()) {
        Ok(v) => Ok(v),
        Err(e) => {
            let mut m = "parse response JSON: ".to_owned();
            m.push_str(e.as_str());
            Err(m)
        },
    }
}

/// A request says which method is called, and with which parameters.
pub proof fn law_requests_read_back(method: Seq<char>, params: JsonView)
    ensures
        request_json(method, params).text_at("method"@) == Some(method),
        request_json(method, params).member("params"@) == Some(params),
{
    reveal_strlit("method");
    reveal_strlit("params");
    assert("method"@[0] == 'm' && "params"@[0] == 'p');
    let empty = JsonView::object();
    let m = JsonView::Text(method);
    lemma_member_added(empty, "method"@, m);
    lemma_member_added(empty.with("method"@, m), "params"@, params);
    lemma_member_kept(empty.with("method"@, m), "params"@, params, "method"@);
}

} // verus!
