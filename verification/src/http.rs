//! The broker's HTTP endpoints: what each request is answered.
use vstd::prelude::*;

use crate::event_queue::{pushed, EventQueue};
use crate::ids::{new_uuid, uuid_shaped};
use crate::json::{printed, string_view, Json, JsonView, NumberView};
use crate::table::NameSet;

verus! {

// ---------------------------------------------------------------------------
// Sessions
// ---------------------------------------------------------------------------

/// Where a session's requests are posted.
pub open spec fn endpoint(session_id: Seq<char>) -> Seq<char> {
    "/messages?sessionId="@ + session_id
}

/// Where a session's requests are posted.
pub fn endpoint_of(session_id: &str) -> (r: String)
    ensures
        r@ == endpoint(session_id@),
{
    let mut r = "/messages?sessionId=".to_owned();
    r.push_str(session_id);
    r
}

/// Opens a session under a random identifier.  Returns the identifier and the
/// data of the `endpoint` event.
pub fn open_session(sessions: &mut NameSet) -> (r: (String, String))
    requires
        old(sessions).wf(),
    ensures
        final(sessions).wf(),
        uuid_shaped(r.0@),
        r.1@ == endpoint(r.0@),
        final(sessions)@ == old(sessions)@.insert(r.0@),
{
    let id = new_uuid();
    let _ = sessions.insert(id.as_str());
    let data = endpoint_of(id.as_str());
    (id, data)
}

/// The status of a `POST /messages`: bad without a session, not found for an
/// unknown one, else accepted.
pub fn message_status(session_id: Option<&str>, sessions: &NameSet) -> (r: u16)
    requires
        sessions.wf(),
    ensures
        r == (match session_id {
            None => 400u16,
            Some(id) => if sessions@.contains(id@) {
                202u16
            } else {
                404u16
            },
        }),
{
    match session_id {
        None => 400,
        Some(id) => {
            if sessions.contains(id) {
                202
            } else {
                404
            }
        },
    }
}

/// The notification that the tools have changed.
pub open spec fn list_changed_json() -> JsonView {
    JsonView::object().with("jsonrpc"@, JsonView::Text("2.0"@)).with(
        "method"@,
        JsonView::Text("notifications/tools/list_changed"@),
    )
}

/// The notification that the tools have changed.
pub fn list_changed() -> (r: String)
    ensures
        r@ == printed(list_changed_json()),
{
    Json::object().with("jsonrpc", Json::text("2.0")).with(
        "method",
        Json::text("notifications/tools/list_changed"),
    ).to_text()
}

// ---------------------------------------------------------------------------
// POST /events
// ---------------------------------------------------------------------------

/// The body of a `POST /events`.
pub struct EventBody {
    pub topic: String,
    pub data: Json,
    pub source: Option<String>,
}

/// Where an event comes from: `webhook` by default.
pub open spec fn event_source(source: Option<Seq<char>>) -> Seq<char> {
    match source {
        Some(s) => s,
        None => "webhook"@,
    }
}

/// The answer to an event that was taken.
pub open spec fn taken_json(id: int) -> JsonView {
    JsonView::object().with("id"@, JsonView::Number(NumberView::Unsigned(id))).with("ok"@, JsonView::Bool(true))
}

/// The answer to an event that was refused.
pub open spec fn refused_json(error: Seq<char>) -> JsonView {
    JsonView::object().with("error"@, JsonView::Text("Bad request: "@ + error)).with("ok"@, JsonView::Bool(false))
}

/// Handles `POST /events`: an event of an external adapter goes into the
/// queue, unless its body was refused.  Returns the status and the answer.
pub fn events_handler(body: Result<EventBody, String>, queue: &mut EventQueue, ts: &str) -> (r: (u16, Json))
    requires
        old(queue).wf(),
        old(queue)@.next_id < u64::MAX,
    ensures
        final(queue).wf(),
        match body {
            Ok(b) => r.0 == 200 && r.1@ == taken_json(old(queue)@.next_id) && final(queue)@ == pushed(
                old(queue)@,
                b.topic@,
                event_source(string_view(b.source)),
                b.data@,
                ts@,
            ),
            Err(e) => r.0 == 400 && r.1@ == refused_json(e@) && final(queue)@ == old(queue)@,
        },
{
    match body {
        Ok(b) => {
            let source = match b.source {
                Some(s) => s,
                None => "webhook".to_owned(),
            };
            let id: u64 = queue.push(b.topic.as_str(), source.as_str(), b.data, ts);
            (200, Json::object().with("id", Json::natural(id)).with("ok", Json::Bool(true)))
        },
        Err(e) => {
            let mut t = "Bad request: ".to_owned();
            t.push_str(e.as_str());
            (400, Json::object().with("error", Json::text(t.as_str())).with("ok", Json::Bool(false)))
        },
    }
}

} // verus!
