//! Speaking to MCP servers.
//!
//! A server is either a process that reads requests from its standard input,
//! one on each line, or an HTTP endpoint.  This module holds the messages and
//! what the answers mean, and matches the answers of a process to the requests
//! that wait for them.
use vstd::prelude::*;

use std::collections::HashSet;

use crate::channels::{content_text, content_text_of};
use crate::json::{
    items_view, lemma_member_added, lemma_put, printed, read_json, texts_view, Json, JsonView, NumberView,
};
use crate::mcp_server::{PROTOCOL_VERSION, SERVER_VERSION};
use crate::shell::{Spawn, SpawnView};
use crate::text::{chars_of, decimal, decimal_text, join_texts, joined_by, trim, trimmed};

verus! {

// ---------------------------------------------------------------------------
// Messages
// ---------------------------------------------------------------------------

/// A `tools/list` request.
pub open spec fn list_json() -> JsonView {
    JsonView::object().with("id"@, JsonView::Number(NumberView::Unsigned(1))).with(
        "jsonrpc"@,
        JsonView::Text("2.0"@),
    ).with("method"@, JsonView::Text("tools/list"@)).with("params"@, JsonView::object())
}

/// A `tools/list` request.
pub fn tools_list_request() -> (r: Json)
    ensures
        r@ == list_json(),
{
    Json::object().with("id", Json::natural(1)).with("jsonrpc", Json::text("2.0")).with(
        "method",
        Json::text("tools/list"),
    ).with("params", Json::object())
}

/// The tools in the answer to `tools/list`; none where it holds no list.
pub open spec fn listed_tools(response: JsonView) -> Seq<JsonView> {
    match response.member("result"@) {
        Some(result) => match result.items_at("tools"@) {
            Some(items) => items,
            None => Seq::empty(),
        },
        None => Seq::empty(),
    }
}

/// The tools in the answer to `tools/list`.
pub fn tools_list(response: &Json) -> (r: Vec<Json>)
    ensures
        items_view(r@) == listed_tools(response@),
{
    let mut out: Vec<Json> = Vec::new();
    assert(items_view(out@) =~= Seq::empty());
    let result = match response.get("result") {
        Some(v) => v,
        None => return out,
    };
    match result.get("tools") {
        Some(Json::Array(items)) => {
            let mut i: usize = 0;
            while i < items.len()
                invariant
                    i <= items@.len(),
                    out@.len() == i,
                    forall|j: int| 0 <= j < i ==> (#[trigger] out@[j])@ == items@[j]@,
                decreases items@.len() - i,
            {
                out.push(items[i].clone());
                i += 1;
            }
            assert(items_view(out@) =~= result@.items_at("tools"@)->0);
            out
        },
        _ => out,
    }
}

/// What the answer to `tools/call` says: the text, or the error.
pub open spec fn called(response: JsonView) -> Result<Seq<char>, Seq<char>> {
    match response.member("error"@) {
        Some(e) => Err(
            "MCP error: "@ + (match e.text_at("message"@) {
                Some(m) => m,
                None => "unknown MCP error"@,
            }),
        ),
        None => match response.member("result"@) {
            None => Ok(Seq::empty()),
            Some(result) => if result.truth_at("isError"@) == Some(true) {
                Err(content_text(result))
            } else {
                Ok(content_text(result))
            },
        },
    }
}

/// The text in the answer to `tools/call`.
pub fn tools_call(response: &Json) -> (r: Result<String, String>)
    ensures
        match called(response@) {
            Ok(t) => r is Ok && r->Ok_0@ == t,
            Err(e) => r is Err && r->Err_0@ == e,
        },
{
    match response.get("error") {
        Some(e) => {
            let mut text = "MCP error: ".to_owned();
            match e.str_at("message") {
                Some(m) => text.push_str(m),
                None => text.push_str("unknown MCP error"),
            }
            return Err(text);
        },
        None => {},
    }
    let result = match response.get("result") {
        Some(v) => v,
        None => {
            let t = String::new();
            assert(t@ =~= Seq::empty());
            return Ok(t);
        },
    };
    let text = content_text_of(result);
    match result.bool_at("isError") {
        Some(true) => Err(text),
        _ => Ok(text),
    }
}

/// The first request to a server.
pub open spec fn initialize_json(id: int, client_name: Seq<char>) -> JsonView {
    JsonView::object().with("id"@, JsonView::Number(NumberView::Unsigned(id))).with(
        "jsonrpc"@,
        JsonView::Text("2.0"@),
    ).with("method"@, JsonView::Text("initialize"@)).with(
        "params"@,
        JsonView::object().with("capabilities"@, JsonView::object()).with(
            "clientInfo"@,
            JsonView::object().with("name"@, JsonView::Text(client_name)).with(
                "version"@,
                JsonView::Text(SERVER_VERSION@),
            ),
        ).with("protocolVersion"@, JsonView::Text(PROTOCOL_VERSION@)),
    )
}

/// The first request to a server.
pub fn initialize_request(id: u64, client_name: &str) -> (r: Json)
    ensures
        r@ == initialize_json(id as int, client_name@),
{
    let client = Json::object().with("name", Json::text(client_name)).with("version", Json::text(SERVER_VERSION));
    let params = Json::object().with("capabilities", Json::object()).with("clientInfo", client).with(
        "protocolVersion",
        Json::text(PROTOCOL_VERSION),
    );
    Json::object().with("id", Json::natural(id)).with("jsonrpc", Json::text("2.0")).with(
        "method",
        Json::text("initialize"),
    ).with("params", params)
}

/// What a server is told when it has answered the first request.
pub open spec fn initialized_json() -> JsonView {
    JsonView::object().with("jsonrpc"@, JsonView::Text("2.0"@)).with(
        "method"@,
        JsonView::Text("notifications/initialized"@),
    ).with("params"@, JsonView::object())
}

/// What a server is told when it has answered the first request.
pub fn initialized_notification() -> (r: Json)
    ensures
        r@ == initialized_json(),
{
    Json::object().with("jsonrpc", Json::text("2.0")).with("method", Json::text("notifications/initialized")).with(
        "params",
        Json::object(),
    )
}

/// A message as one line.
pub fn message_line(message: &Json) -> (r: String)
    ensures
        r@ == printed(message@) + "\n"@,
{
    let mut line = message.to_text();
    line.push_str("\n");
    line
}

// ---------------------------------------------------------------------------
// Starting a server
// ---------------------------------------------------------------------------

/// The process of a server: through a shell, so that wrapper scripts and the
/// search path work.
pub open spec fn server_spawn(command: Seq<char>, args: Seq<Seq<char>>, windows: bool) -> SpawnView {
    if windows {
        SpawnView { program: "cmd"@, args: seq!["/C"@, command] + args }
    } else {
        SpawnView {
            program: "sh"@,
            args: seq![
                "-c"@,
                if args.len() == 0 {
                    command
                } else {
                    command + " "@ + joined_by(args, " "@)
                },
            ],
        }
    }
}

/// The process of a server.
pub fn plan_server(command: &str, args: &Vec<String>, windows: bool) -> (r: Spawn)
    ensures
        r@ == server_spawn(command@, texts_view(args@), windows),
{
    let mut all: Vec<String> = Vec::new();
    if windows {
        all.push("/C".to_owned());
        all.push(command.to_owned());
        let mut i: usize = 0;
        assert(texts_view(all@) =~= seq!["/C"@, command@] + texts_view(args@).take(0));
        while i < args.len()
            invariant
                i <= args@.len(),
                texts_view(all@) == seq!["/C"@, command@] + texts_view(args@).take(i as int),
            decreases args@.len() - i,
        {
            let ghost was = texts_view(all@);
            all.push(args[i].clone());
            assert(texts_view(all@) =~= was.push(args@[i as int]@));
            assert(texts_view(all@) =~= seq!["/C"@, command@] + texts_view(args@).take(i + 1));
            i += 1;
        }
        assert(texts_view(args@).take(i as int) =~= texts_view(args@));
        return Spawn { program: "cmd".to_owned(), args: all };
    }
    let mut line = command.to_owned();
    assert(texts_view(args@).len() == args@.len());
    if args.len() != 0 {
        line.push_str(" ");
        let joined = join_texts(args, " ");
        assert(texts_view(args@) =~= Seq::new(args@.len(), |i: int| args@[i]@));
        line.push_str(joined.as_str());
    }
    all.push("-c".to_owned());
    all.push(line);
    let r = Spawn { program: "sh".to_owned(), args: all };
    assert(r@.args =~= server_spawn(command@, texts_view(args@), windows).args);
    r
}

/// The backend at a local port.
pub struct HttpBackend {
    /// Where requests are posted.
    pub url: String,
}

impl HttpBackend {
    /// The backend at `http://127.0.0.1:<port>`.
    pub fn new(port: u16) -> (r: HttpBackend)
        ensures
            r.url@ == "http://127.0.0.1:"@ + decimal(port as nat),
    {
        let mut url = "http://127.0.0.1:".to_owned();
        url.push_str(decimal_text(port as u64).as_str());
        HttpBackend { url }
    }
}

/// The backend that is a process.
pub struct StdioBackend {
    /// How it is started.
    pub process: Spawn,
    /// The name by which this node introduces itself.
    pub client_name: String,
}

impl StdioBackend {
    /// The backend that `command` starts.
    pub fn new(command: &str, windows: bool) -> (r: StdioBackend)
        ensures
            r.process@ == server_spawn(command@, Seq::empty(), windows),
            r.client_name@ == "clawshake-bridge"@,
    {
        let none: Vec<String> = Vec::new();
        assert(texts_view(none@) =~= Seq::empty());
        StdioBackend { process: plan_server(command, &none, windows), client_name: "clawshake-bridge".to_owned() }
    }
}

// ---------------------------------------------------------------------------
// Requests that wait
// ---------------------------------------------------------------------------

/// The requests to a process that wait for their answers.
pub struct StdioSession {
    next_id: u64,
    pending: HashSet<u64>,
}

/// The model of [`StdioSession`].
#[verifier::ext_equal]
pub struct SessionView {
    /// The identifier of the next request.
    pub next_id: int,
    /// The identifiers of the requests that wait.
    pub pending: Set<u64>,
}

impl View for StdioSession {
    type V = SessionView;

    closed spec fn view(&self) -> SessionView {
        SessionView { next_id: self.next_id as int, pending: self.pending@ }
    }
}

/// The identifier after this one.
pub open spec fn id_after(id: int) -> int {
    if id == u64::MAX {
        0
    } else {
        id + 1
    }
}

/// What a line of a process means.
pub enum LineEnd {
    /// Nothing: the line is blank.
    Blank,
    /// The line is no JSON; the text says why.
    Bad(String),
    /// No request waits for it: it is a notification, or came too late.
    Dropped,
    /// The answer to the request with this identifier.
    Answer { id: u64, message: Json },
}

/// The request that a message answers, if one waits for it.
pub open spec fn answered(message: JsonView, pending: Set<u64>) -> Option<u64> {
    match message.natural_at("id"@) {
        Some(id) => if 0 <= id <= u64::MAX && pending.contains(id as u64) {
            Some(id as u64)
        } else {
            None
        },
        None => None,
    }
}

impl StdioSession {
    /// A session without requests.
    pub fn new() -> (r: StdioSession)
        ensures
            r@ == (SessionView { next_id: 1, pending: Set::<u64>::empty() }),
    {
        StdioSession { next_id: 1, pending: HashSet::new() }
    }

    /// An identifier for a new request.
    pub fn fresh_id(&mut self) -> (r: u64)
        ensures
            r == old(self)@.next_id,
            final(self)@ == (SessionView { next_id: id_after(old(self)@.next_id), pending: old(self)@.pending }),
    {
        let id: u64 = self.next_id;
        self.next_id = if id == u64::MAX {
            0
        } else {
            id + 1
        };
        id
    }

    /// Sends a message under an identifier: the line, and the request waits.
    pub fn send(&mut self, id: u64, message: &Json) -> (r: String)
        ensures
            r@ == printed(message@) + "\n"@,
            final(self)@ == (SessionView { next_id: old(self)@.next_id, pending: old(self)@.pending.insert(id) }),
    {
        broadcast use vstd::std_specs::hash::group_hash_axioms;

        self.pending.insert(id);
        message_line(message)
    }

    /// Sends a request under a fresh identifier, in place of its own, which
    /// may be one of a remote caller.
    pub fn call(&mut self, request: Json) -> (r: (u64, String))
        requires
            request@.settable(),
        ensures
            r.0 == old(self)@.next_id,
            r.1@ == printed(
                request@.setting("id"@, JsonView::Number(NumberView::Unsigned(old(self)@.next_id))),
            ) + "\n"@,
            final(self)@ == (SessionView {
                next_id: id_after(old(self)@.next_id),
                pending: old(self)@.pending.insert(r.0),
            }),
    {
        let id: u64 = self.fresh_id();
        let stamped = request.setting("id", Json::natural(id));
        let line = self.send(id, &stamped);
        (id, line)
    }

    /// Reads a line of the process.
    pub fn on_line(&mut self, line: &str) -> (r: LineEnd)
        ensures
            final(self)@.next_id == old(self)@.next_id,
            trimmed(line@).len() == 0 ==> r is Blank && final(self)@.pending == old(self)@.pending,
            trimmed(line@).len() != 0 ==> match read_json(vstd::utf8::encode_utf8(trimmed(line@))) {
                Err(e) => r is Bad && r->Bad_0@ == e && final(self)@.pending == old(self)@.pending,
                Ok(message) => match answered(message, old(self)@.pending) {
                    Some(id) => r is Answer && r->id == id && r->message@ == message && final(self)@.pending
                        == old(self)@.pending.remove(id),
                    None => r is Dropped && final(self)@.pending == old(self)@.pending,
                },
            },
    {
        broadcast use vstd::std_specs::hash::group_hash_axioms;

        let text = trim(line);
        if chars_of(text.as_str()).len() == 0 {
            return LineEnd::Blank;
        }
        let message = match Json::read(text.as_str()) {
            Ok(m) => m,
            Err(e) => return LineEnd::Bad(e),
        };
        match message.u64_at("id") {
            Some(id) => {
                if self.pending.remove(&id) {
                    LineEnd::Answer { id, message }
                } else {
                    assert(self.pending@ =~= old(self)@.pending);
                    LineEnd::Dropped
                }
            },
            None => LineEnd::Dropped,
        }
    }

    /// Gives up all requests.
    pub fn shutdown(&mut self)
        ensures
            final(self)@ == (SessionView { next_id: old(self)@.next_id, pending: Set::<u64>::empty() }),
    {
        self.pending.clear();
    }
}

// ---------------------------------------------------------------------------
// Laws
// ---------------------------------------------------------------------------

/// A request that was sent under a fresh identifier is met by the answer that
/// bears it, whatever identifier the request came with, and by no second one.
pub proof fn law_answers_meet_their_requests(request: JsonView, id: u64, answer: JsonView, pending: Set<u64>)
    requires
        request.settable(),
        answer.settable(),
    ensures
        ({
            let number = JsonView::Number(NumberView::Unsigned(id as int));
            let sent = request.setting("id"@, number);
            let echoed = answer.setting("id"@, sent.member("id"@)->0);
            &&& sent.natural_at("id"@) == Some(id as int)
            &&& answered(echoed, pending.insert(id)) == Some(id)
            &&& answered(echoed, pending.insert(id).remove(id)) is None
        }),
{
    let number = JsonView::Number(NumberView::Unsigned(id as int));
    lemma_set_member(request, number);
    lemma_set_member(answer, number);
}

proof fn lemma_set_member(v: JsonView, number: JsonView)
    requires
        v.settable(),
    ensures
        v.setting("id"@, number).member("id"@) == Some(number),
{
    match v {
        JsonView::Object(members) => {
            lemma_put(members, "id"@, number, "id"@);
        },
        _ => {
            lemma_member_added(JsonView::object(), "id"@, number);
        },
    }
}

/// Once the session is shut down, no answer meets a request.
pub proof fn law_nothing_waits_after_shutdown(message: JsonView)
    ensures
        answered(message, Set::<u64>::empty()) is None,
{
}

} // verus!
