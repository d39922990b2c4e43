//! Interactive I/O channels for agents.
//!
//! A channel bridges some external input source (terminal, web UI, chat
//! platform) into the broker's event queue.  All channels use the `channel.*`
//! topics:
//!
//! | Topic                            | Direction    |
//! |----------------------------------|--------------|
//! | `channel.cli`                    | user → agent |
//! | `channel.cli.response`           | agent → user |
//! | `channel.ui.<frame_id>`          | user → agent |
//! | `channel.ui.<frame_id>.response` | agent → UI   |
use vstd::prelude::*;

use crate::json::{items_view, parsed, read_json, texts_view, Json, JsonNumber, JsonView, NumberView};
use crate::text::{chars_of, ends_with, join_texts, joined_by, same, strip_prefix, text_of, trim, trimmed};

verus! {

/// Topic prefix for all interactive channel events.
pub const TOPIC_PREFIX: &'static str = "channel";

/// Topic for terminal input.
pub const TOPIC_CLI: &'static str = "channel.cli";

/// Topic for answers to the terminal.
pub const TOPIC_CLI_RESPONSE: &'static str = "channel.cli.response";

/// Topic prefix for webview interaction events.  The full topic is
/// `channel.ui.<frame_id>`.
pub const TOPIC_UI: &'static str = "channel.ui";

// ---------------------------------------------------------------------------
// Webview topics
// ---------------------------------------------------------------------------

/// The inbound topic for a frame.
pub open spec fn frame_topic(frame_id: Seq<char>) -> Seq<char> {
    "channel.ui."@ + frame_id
}

/// The response topic for a frame.
pub open spec fn frame_response_topic(frame_id: Seq<char>) -> Seq<char> {
    "channel.ui."@ + frame_id + ".response"@
}

/// The frame whose response topic this is.
pub open spec fn response_frame(topic: Seq<char>) -> Option<Seq<char>> {
    if !"channel.ui."@.is_prefix_of(topic) {
        None
    } else {
        let rest = topic.skip("channel.ui."@.len() as int);
        if !".response"@.is_suffix_of(rest) {
            None
        } else {
            let frame_id = rest.take(rest.len() - ".response"@.len());
            if frame_id.len() == 0 {
                None
            } else {
                Some(frame_id)
            }
        }
    }
}

/// Builds the inbound topic for a frame: `channel.ui.<frame_id>`.
pub fn ui_topic(frame_id: &str) -> (r: String)
    ensures
        r@ == frame_topic(frame_id@),
{
    let mut r = "channel.ui.".to_owned();
    r.push_str(frame_id);
    r
}

/// Builds the response topic for a frame: `channel.ui.<frame_id>.response`.
pub fn ui_response_topic(frame_id: &str) -> (r: String)
    ensures
        r@ == frame_response_topic(frame_id@),
{
    let mut r = "channel.ui.".to_owned();
    r.push_str(frame_id);
    r.push_str(".response");
    r
}

/// Extracts the frame from a response topic, if it is one.
pub fn parse_ui_response_frame_id(topic: &str) -> (r: Option<String>)
    ensures
        match r {
            Some(id) => response_frame(topic@) == Some(id@),
            None => response_frame(topic@) is None,
        },
{
    let rest = match strip_prefix(topic, "channel.ui.") {
        Some(r) => r,
        None => return None,
    };
    if !ends_with(rest.as_str(), ".response") {
        return None;
    }
    let cs = chars_of(rest.as_str());
    let tail = chars_of(".response");
    let end: usize = cs.len() - tail.len();
    if end == 0 {
        return None;
    }
    let id = text_of(&cs, 0, end);
    assert(id@ =~= rest@.take(rest@.len() - ".response"@.len()));
    Some(id)
}

// ---------------------------------------------------------------------------
// Tool calls over MCP
// ---------------------------------------------------------------------------

/// A `tools/call` request.
pub open spec fn call_json(tool: Seq<char>, arguments: JsonView) -> JsonView {
    JsonView::object().with("id"@, JsonView::Number(NumberView::Unsigned(1))).with(
        "jsonrpc"@,
        JsonView::Text("2.0"@),
    ).with("method"@, JsonView::Text("tools/call"@)).with(
        "params"@,
        JsonView::object().with("arguments"@, arguments).with("name"@, JsonView::Text(tool)),
    )
}

/// A `tools/call` request.
pub fn tools_call_request(tool: &str, arguments: Json) -> (r: Json)
    ensures
        r@ == call_json(tool@, arguments@),
{
    Json::object().with("id", Json::natural(1)).with("jsonrpc", Json::text("2.0")).with(
        "method",
        Json::text("tools/call"),
    ).with("params", Json::object().with("arguments", arguments).with("name", Json::text(tool)))
}

/// The `text` members among the items.
pub open spec fn item_texts(items: Seq<JsonView>) -> Seq<Seq<char>>
    decreases items.len(),
{
    if items.len() == 0 {
        Seq::empty()
    } else {
        let before = item_texts(items.drop_last());
        match items.last().text_at("text"@) {
            Some(t) => before.push(t),
            None => before,
        }
    }
}

/// The `text` members among the items.
pub(crate) fn texts_of_items(items: &Vec<Json>) -> (r: Vec<String>)
    ensures
        texts_view(r@) == item_texts(items_view(items@)),
{
    let ghost all = items_view(items@);
    let mut out: Vec<String> = Vec::new();
    let mut i: usize = 0;
    assert(all.take(0) =~= Seq::empty());
    assert(texts_view(out@) =~= Seq::empty());
    while i < items.len()
        invariant
            i <= items@.len(),
            all == items_view(items@),
            texts_view(out@) == item_texts(all.take(i as int)),
        decreases items@.len() - i,
    {
        assert(all.take(i + 1).drop_last() =~= all.take(i as int));
        assert(all.take(i + 1).last() == items@[i as int]@);
        match items[i].str_at("text") {
            Some(t) => {
                let ghost was = texts_view(out@);
                out.push(t.to_owned());
                assert(texts_view(out@) =~= was.push(t@));
            },
            None => {},
        }
        i += 1;
    }
    assert(all.take(i as int) =~= all);
    out
}

/// The text of a tool result: the texts of its content, line by line.
pub open spec fn content_text(result: JsonView) -> Seq<char> {
    match result.items_at("content"@) {
        Some(items) => joined_by(item_texts(items), "\n"@),
        None => Seq::empty(),
    }
}

/// The text of a tool result: the texts of its content, line by line.
pub(crate) fn content_text_of(result: &Json) -> (r: String)
    ensures
        r@ == content_text(result@),
{
    match result.get("content") {
        Some(c) => match c.as_array() {
            Some(items) => {
                let texts = texts_of_items(items);
                assert(items_view(items@) =~= result@.items_at("content"@)->0);
                assert(texts_view(texts@) =~= Seq::new(texts@.len(), |i: int| texts@[i]@));
                join_texts(&texts, "\n")
            },
            None => {
                let r = String::new();
                assert(r@ =~= Seq::empty());
                r
            },
        },
        None => {
            let r = String::new();
            assert(r@ =~= Seq::empty());
            r
        },
    }
}

/// What a `tools/call` response says: the text, or the error.
pub open spec fn tool_result(body: JsonView) -> Result<Seq<char>, Seq<char>> {
    match (body.member("error"@), body.member("result"@)) {
        (Some(e), _) => Err(
            "Broker error: "@ + (match e.text_at("message"@) {
                Some(m) => m,
                None => "unknown error"@,
            }),
        ),
        (None, None) => Err("Missing result in broker response"@),
        (None, Some(result)) => if result.truth_at("isError"@) == Some(true) {
            Err("Tool error: "@ + content_text(result))
        } else {
            Ok(content_text(result))
        },
    }
}

/// Extracts the text from a `tools/call` response.
pub fn extract_tool_result(body: &Json) -> (r: Result<String, String>)
    ensures
        match tool_result(body@) {
            Ok(t) => r is Ok && r->Ok_0@ == t,
            Err(e) => r is Err && r->Err_0@ == e,
        },
{
    match body.get("error") {
        Some(e) => {
            let mut text = "Broker error: ".to_owned();
            match e.str_at("message") {
                Some(m) => text.push_str(m),
                None => text.push_str("unknown error"),
            }
            return Err(text);
        },
        None => {},
    }
    let result = match body.get("result") {
        Some(r) => r,
        None => return Err("Missing result in broker response".to_owned()),
    };
    let text = content_text_of(result);
    match result.bool_at("isError") {
        Some(true) => {
            let mut e = "Tool error: ".to_owned();
            e.push_str(text.as_str());
            Err(e)
        },
        _ => Ok(text),
    }
}

/// The parameters of a `network_call`.
pub open spec fn remote_json(peer_id: Seq<char>, tool: Seq<char>, arguments: JsonView) -> JsonView {
    JsonView::object().with("arguments"@, arguments).with("peer_id"@, JsonView::Text(peer_id)).with(
        "tool"@,
        JsonView::Text(tool),
    )
}

/// The parameters of a `network_call`.
pub fn remote_call_params(peer_id: &str, tool: &str, arguments: Json) -> (r: Json)
    ensures
        r@ == remote_json(peer_id@, tool@, arguments@),
{
    Json::object().with("arguments", arguments).with("peer_id", Json::text(peer_id)).with("tool", Json::text(tool))
}

/// What a `network_call` answered: the text, or the error.
pub fn remote_call_result(answer: &Json) -> (r: Result<String, String>)
    ensures
        match answer@.text_at("error"@) {
            Some(e) => r is Err && r->Err_0@ == "Remote call failed: "@ + e,
            None => r is Ok && r->Ok_0@ == (match answer@.text_at("result"@) {
                Some(t) => t,
                None => Seq::empty(),
            }),
        },
{
    match answer.str_at("error") {
        Some(e) => {
            let mut text = "Remote call failed: ".to_owned();
            text.push_str(e);
            return Err(text);
        },
        None => {},
    }
    match answer.str_at("result") {
        Some(t) => Ok(t.to_owned()),
        None => {
            let r = String::new();
            assert(r@ =~= Seq::empty());
            Ok(r)
        },
    }
}

// ---------------------------------------------------------------------------
// The terminal
// ---------------------------------------------------------------------------

/// The arguments of the `listen` call that asks for the cursor: a very short
/// one, with no event to match.
pub open spec fn probe_json() -> JsonView {
    JsonView::object().with("timeout_secs"@, JsonView::Number(NumberView::Float("0.001"@))).with(
        "topics"@,
        JsonView::Array(seq![JsonView::Text(TOPIC_CLI_RESPONSE@)]),
    )
}

/// The topics that the terminal listens to.
fn answer_topics() -> (r: Json)
    ensures
        r@ == JsonView::Array(seq![JsonView::Text(TOPIC_CLI_RESPONSE@)]),
{
    let mut topics: Vec<Json> = Vec::new();
    topics.push(Json::text(TOPIC_CLI_RESPONSE));
    let r = Json::array(topics);
    assert(r@->Array_0 =~= seq![JsonView::Text(TOPIC_CLI_RESPONSE@)]);
    r
}

/// The arguments of the `listen` call that asks for the cursor.
pub fn cursor_probe() -> (r: Json)
    ensures
        r@ == probe_json(),
{
    Json::object().with("timeout_secs", Json::Number(JsonNumber::Float("0.001".to_owned()))).with(
        "topics",
        answer_topics(),
    )
}

/// The cursor in the answer to a `listen` call, or zero.
pub open spec fn cursor_in(text: Seq<char>) -> int {
    match parsed(vstd::utf8::encode_utf8(text)) {
        Some(v) => match v.natural_at("cursor"@) {
            Some(c) => c,
            None => 0,
        },
        None => 0,
    }
}

/// The cursor in the answer to a `listen` call, or zero.
pub fn cursor_of(text: &str) -> (r: u64)
    ensures
        r == cursor_in(text@),
{
    match Json::from_text(text) {
        Some(v) => match v.u64_at("cursor") {
            Some(c) => c,
            None => 0,
        },
        None => 0,
    }
}

/// What happened to the terminal.
pub enum ReplEvent {
    /// A line was typed, or the input ended.
    Line(Option<String>),
    /// The message was sent, or the error.
    Emitted(Result<(), String>),
    /// The answer of the `listen` call, or the error.
    Listened(Result<String, String>),
}

/// What the terminal does next.
pub enum ReplAction {
    /// Read the next line.
    Prompt,
    /// Call `emit` with these arguments.
    Emit(Json),
    /// Call `listen` with these arguments.
    Listen(Json),
    /// Leave.
    Leave,
}

/// The model of [`ReplAction`].
pub enum ReplActionView {
    Prompt,
    Emit(JsonView),
    Listen(JsonView),
    Leave,
}

impl View for ReplAction {
    type V = ReplActionView;

    open spec fn view(&self) -> ReplActionView {
        match self {
            ReplAction::Prompt => ReplActionView::Prompt,
            ReplAction::Emit(j) => ReplActionView::Emit(j@),
            ReplAction::Listen(j) => ReplActionView::Listen(j@),
            ReplAction::Leave => ReplActionView::Leave,
        }
    }
}

/// One step of the terminal: the answers to print, a note on the side, and
/// what to do next.
pub struct ReplStep {
    pub answers: Vec<String>,
    pub note: Option<String>,
    pub action: ReplAction,
}

/// The model of a step, with the cursor behind it.
pub struct StepView {
    pub cursor: int,
    pub answers: Seq<Seq<char>>,
    pub note: Option<Seq<char>>,
    pub action: ReplActionView,
}

/// The arguments that send a message to the agent.
pub open spec fn message_json(text: Seq<char>) -> JsonView {
    JsonView::object().with("data"@, JsonView::object().with("text"@, JsonView::Text(text))).with(
        "topic"@,
        JsonView::Text(TOPIC_CLI@),
    )
}

/// The arguments that wait for the agent's answer.
pub open spec fn wait_json(cursor: int) -> JsonView {
    JsonView::object().with("after"@, JsonView::Number(NumberView::Unsigned(cursor))).with(
        "timeout_secs"@,
        JsonView::Number(NumberView::Unsigned(120)),
    ).with("topics"@, JsonView::Array(seq![JsonView::Text(TOPIC_CLI_RESPONSE@)]))
}

/// The answers among the events.
pub open spec fn answers_in(events: Seq<JsonView>) -> Seq<Seq<char>>
    decreases events.len(),
{
    if events.len() == 0 {
        Seq::empty()
    } else {
        let before = answers_in(events.drop_last());
        match events.last().member("data"@) {
            Some(data) => match data.text_at("text"@) {
                Some(t) => before.push(t),
                None => before,
            },
            None => before,
        }
    }
}

/// The answers among the events of a parsed `listen` answer.
pub open spec fn answers_of(v: JsonView) -> Seq<Seq<char>> {
    match v.items_at("events"@) {
        Some(events) => answers_in(events),
        None => Seq::empty(),
    }
}

/// A step without answers.
pub open spec fn quiet_step(cursor: int, note: Option<Seq<char>>, action: ReplActionView) -> StepView {
    StepView { cursor, answers: Seq::empty(), note, action }
}

/// What the terminal does at an event.
pub open spec fn repl_step(cursor: int, event: ReplEvent) -> StepView {
    match event {
        ReplEvent::Line(None) => quiet_step(cursor, Some("Goodbye."@), ReplActionView::Leave),
        ReplEvent::Line(Some(line)) => {
            let text = trimmed(line@);
            if text.len() == 0 {
                quiet_step(cursor, None, ReplActionView::Prompt)
            } else if text == "exit"@ || text == "quit"@ {
                quiet_step(cursor, Some("Goodbye."@), ReplActionView::Leave)
            } else {
                quiet_step(cursor, None, ReplActionView::Emit(message_json(text)))
            }
        },
        ReplEvent::Emitted(Err(e)) => quiet_step(
            cursor,
            Some("Error sending message: "@ + e@),
            ReplActionView::Prompt,
        ),
        ReplEvent::Emitted(Ok(_)) => quiet_step(cursor, None, ReplActionView::Listen(wait_json(cursor))),
        ReplEvent::Listened(Err(e)) => quiet_step(
            cursor,
            Some("Error waiting for response: "@ + e@),
            ReplActionView::Prompt,
        ),
        ReplEvent::Listened(Ok(text)) => match read_json(vstd::utf8::encode_utf8(text@)) {
            Err(e) => quiet_step(cursor, Some("Failed to parse listen result: "@ + e), ReplActionView::Prompt),
            Ok(v) => StepView {
                cursor: match v.natural_at("cursor"@) {
                    Some(c) => c,
                    None => cursor,
                },
                answers: answers_of(v),
                note: if answers_of(v).len() == 0 {
                    Some("(no response within timeout)"@)
                } else {
                    None
                },
                action: ReplActionView::Prompt,
            },
        },
    }
}

/// The answers among the events of a parsed `listen` answer.
fn collect_answers(v: &Json) -> (r: Vec<String>)
    ensures
        texts_view(r@) == answers_of(v@),
{
    let mut out: Vec<String> = Vec::new();
    assert(texts_view(out@) =~= Seq::empty());
    let events = match v.get("events") {
        Some(e) => match e.as_array() {
            Some(items) => items,
            None => return out,
        },
        None => return out,
    };
    let ghost all = items_view(events@);
    let mut i: usize = 0;
    assert(all =~= v@.items_at("events"@)->0);
    assert(all.take(0) =~= Seq::empty());
    while i < events.len()
        invariant
            i <= events@.len(),
            all == items_view(events@),
            texts_view(out@) == answers_in(all.take(i as int)),
        decreases events@.len() - i,
    {
        assert(all.take(i + 1).drop_last() =~= all.take(i as int));
        assert(all.take(i + 1).last() == events@[i as int]@);
        match events[i].get("data") {
            Some(data) => match data.str_at("text") {
                Some(t) => {
                    let ghost was = texts_view(out@);
                    out.push(t.to_owned());
                    assert(texts_view(out@) =~= was.push(t@));
                },
                None => {},
            },
            None => {},
        }
        i += 1;
    }
    assert(all.take(i as int) =~= all);
    out
}

/// A step without answers.
fn quiet(note: Option<String>, action: ReplAction) -> (r: ReplStep)
    ensures
        texts_view(r.answers@) == Seq::<Seq<char>>::empty(),
        r.note == note,
        r.action == action,
{
    let answers: Vec<String> = Vec::new();
    assert(texts_view(answers@) =~= Seq::empty());
    ReplStep { answers, note, action }
}

/// A terminal session: how far its user has read.
pub struct Repl {
    pub cursor: u64,
}

impl Repl {
    /// Takes an event and says what to do next.
    pub fn step(&mut self, event: &ReplEvent) -> (r: ReplStep)
        ensures
            repl_step(old(self).cursor as int, *event) == (StepView {
                cursor: final(self).cursor as int,
                answers: texts_view(r.answers@),
                note: match r.note {
                    Some(n) => Some(n@),
                    None => None,
                },
                action: r.action@,
            }),
    {
        match event {
            ReplEvent::Line(None) => quiet(Some("Goodbye.".to_owned()), ReplAction::Leave),
            ReplEvent::Line(Some(line)) => {
                let text = trim(line.as_str());
                if chars_of(text.as_str()).len() == 0 {
                    quiet(None, ReplAction::Prompt)
                } else if same(text.as_str(), "exit") || same(text.as_str(), "quit") {
                    quiet(Some("Goodbye.".to_owned()), ReplAction::Leave)
                } else {
                    let args = Json::object().with("data", Json::object().with("text", Json::text(text.as_str()))).with(
                        "topic",
                        Json::text(TOPIC_CLI),
                    );
                    quiet(None, ReplAction::Emit(args))
                }
            },
            ReplEvent::Emitted(Err(e)) => {
                let mut note = "Error sending message: ".to_owned();
                note.push_str(e.as_str());
                quiet(Some(note), ReplAction::Prompt)
            },
            ReplEvent::Emitted(Ok(_)) => {
                let args = Json::object().with("after", Json::natural(self.cursor)).with(
                    "timeout_secs",
                    Json::natural(120),
                ).with("topics", answer_topics());
                quiet(None, ReplAction::Listen(args))
            },
            ReplEvent::Listened(Err(e)) => {
                let mut note = "Error waiting for response: ".to_owned();
                note.push_str(e.as_str());
                quiet(Some(note), ReplAction::Prompt)
            },
            ReplEvent::Listened(Ok(text)) => match Json::read(text.as_str()) {
                Err(e) => {
                    let mut note = "Failed to parse listen result: ".to_owned();
                    note.push_str(e.as_str());
                    quiet(Some(note), ReplAction::Prompt)
                },
                Ok(v) => {
                    match v.u64_at("cursor") {
                        Some(c) => {
                            self.cursor = c;
                        },
                        None => {},
                    }
                    let answers = collect_answers(&v);
                    assert(texts_view(answers@).len() == answers@.len());
                    let note = if answers.len() == 0 {
                        Some("(no response within timeout)".to_owned())
                    } else {
                        None
                    };
                    ReplStep { answers, note, action: ReplAction::Prompt }
                },
            },
        }
    }
}

// ---------------------------------------------------------------------------
// Laws
// ---------------------------------------------------------------------------

/// The frame in a response topic is the one the topic was built for, and only
/// response topics of a named frame have one.
pub proof fn law_response_topics_read_back(frame_id: Seq<char>, topic: Seq<char>)
    ensures
        frame_id.len() > 0 ==> response_frame(frame_response_topic(frame_id)) == Some(frame_id),
        response_frame(topic) == Some(frame_id) <==> frame_id.len() > 0 && topic == frame_response_topic(frame_id),
{
    let head = "channel.ui."@;
    let tail = ".response"@;
    let built = frame_response_topic(frame_id);
    assert(built.subrange(0, head.len() as int) =~= head);
    assert(built.skip(head.len() as int) =~= frame_id + tail);
    assert((frame_id + tail).subrange(frame_id.len() as int, (frame_id + tail).len() as int) =~= tail);
    assert((frame_id + tail).take(frame_id.len() as int) =~= frame_id);
    if response_frame(topic) == Some(frame_id) {
        let rest = topic.skip(head.len() as int);
        assert(topic =~= head + rest) by {
            assert(topic.subrange(0, head.len() as int) =~= head);
        }
        assert(rest =~= frame_id + tail) by {
            assert(rest.subrange(rest.len() - tail.len(), rest.len() as int) =~= tail);
        }
        assert(topic =~= built);
    }
}

/// A message that is sent is listened for from the cursor on, and the cursor
/// moves only when an answer carries one.
pub proof fn law_cursor_moves_with_answers(cursor: int, event: ReplEvent)
    ensures
        repl_step(cursor, event).cursor != cursor ==> event is Listened,
        event == ReplEvent::Emitted(Ok(())) ==> repl_step(cursor, event).action == ReplActionView::Listen(
            wait_json(cursor),
        ),
{
}

/// Listening starts behind the cursor that the queue gave.
pub proof fn law_the_cursor_is_taken(text: Seq<char>, v: JsonView, cursor: int)
    requires
        parsed(vstd::utf8::encode_utf8(text)) == Some(v),
    ensures
        v.natural_at("cursor"@) == Some(cursor) ==> cursor_in(text) == cursor,
        v.natural_at("cursor"@) is None ==> cursor_in(text) == 0,
{
}

} // verus!
