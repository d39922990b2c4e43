//! The webview channel: frames, the messages between the broker and the host
//! page, and the `ui_*` tools.
//!
//! Agents create and update frames through tool calls; what users do in them
//! flows back through the event queue on the `channel.ui.<frame_id>` topics.
use vstd::prelude::*;

use crate::channels::{frame_topic, parse_ui_response_frame_id, response_frame, ui_topic};
use crate::event_queue::{pushed, Event, EventQueue, QueueView};
use crate::ids::{new_uuid, uuid_shaped};
use crate::json::{
    items_view, lemma_put, lookup, parsed, placed, printed, printed_pretty, record_tag, string_view, strs_view, texts_view, variant_fields,
    Field, Json, JsonView, NumberView,
};
use crate::manifest::{optional_text, optional_text_of};
use crate::pages::{INLINE_CSP, SNAPSHOT_SCRIPT};
use crate::schema::{choice, choice_schema, define, definition, typed, typed_schema, untyped, untyped_schema};
use crate::table::{lemma_table_order, NameSet, Table};
use crate::text::{chars_of, decimal, decimal_text, lemma_occurs_between, occurs, same};

verus! {

// ---------------------------------------------------------------------------
// Frames
// ---------------------------------------------------------------------------

/// What backs a frame.
pub enum FrameContent {
    /// HTML of the agent, served by the broker.
    Inline { html: String, css: String, js: String },
    /// A URL that the frame navigates to.
    Src(String),
}

/// A webview frame.
pub struct Frame {
    pub content: FrameContent,
    pub title: String,
    pub width: u32,
    pub height: u32,
    /// The window that shows the frame: every one, where none is named.
    pub window: Option<String>,
}

/// The model of [`FrameContent`].
pub enum ContentView {
    Inline { html: Seq<char>, css: Seq<char>, js: Seq<char> },
    Src(Seq<char>),
}

/// The model of [`Frame`].
pub struct FrameView {
    pub content: ContentView,
    pub title: Seq<char>,
    pub width: int,
    pub height: int,
    pub window: Option<Seq<char>>,
}

impl View for FrameContent {
    type V = ContentView;

    open spec fn view(&self) -> ContentView {
        match self {
            FrameContent::Inline { html, css, js } => ContentView::Inline { html: html@, css: css@, js: js@ },
            FrameContent::Src(url) => ContentView::Src(url@),
        }
    }
}

impl View for Frame {
    type V = FrameView;

    open spec fn view(&self) -> FrameView {
        FrameView {
            content: self.content@,
            title: self.title@,
            width: self.width as int,
            height: self.height as int,
            window: string_view(self.window),
        }
    }
}

impl Clone for FrameContent {
    fn clone(&self) -> (r: FrameContent)
        ensures
            r@ == self@,
    {
        match self {
            FrameContent::Inline { html, css, js } => FrameContent::Inline {
                html: html.clone(),
                css: css.clone(),
                js: js.clone(),
            },
            FrameContent::Src(url) => FrameContent::Src(url.clone()),
        }
    }
}

/// A copy of an optional text.
fn copy_text(t: &Option<String>) -> (r: Option<String>)
    ensures
        string_view(r) == string_view(*t),
{
    match t {
        Some(s) => Some(s.clone()),
        None => None,
    }
}

impl Clone for Frame {
    fn clone(&self) -> (r: Frame)
        ensures
            r@ == self@,
    {
        Frame {
            content: self.content.clone(),
            title: self.title.clone(),
            width: self.width,
            height: self.height,
            window: copy_text(&self.window),
        }
    }
}

// ---------------------------------------------------------------------------
// Messages to the host page
// ---------------------------------------------------------------------------

/// A message from the broker to the host page.
pub enum WsOutgoing {
    Render { frame_id: String, src: String, title: String, width: u32, height: u32, window: Option<String> },
    Push { frame_id: String, data: Json },
    Close { frame_id: String },
    SnapshotRequest { frame_id: String, format: String, request_id: String },
    WindowOpen { label: String, title: String, url: String, width: u32, height: u32 },
    WindowClose { label: String },
    WindowResize { label: String, width: u32, height: u32 },
    WindowSetTitle { label: String, title: String },
    WindowFocus { label: String },
    WindowNotify { title: String, body: String },
    WindowListRequest { request_id: String },
}

/// A number of pixels.
pub open spec fn pixels(n: int) -> JsonView {
    JsonView::Number(NumberView::Unsigned(n))
}

/// A message that renders a frame.
pub open spec fn render_json(frame_id: Seq<char>, src: Seq<char>, frame: FrameView) -> JsonView {
    let start = JsonView::object().with("frame_id"@, JsonView::Text(frame_id)).with(
        "height"@,
        pixels(frame.height),
    ).with("src"@, JsonView::Text(src)).with("title"@, JsonView::Text(frame.title)).with(
        "type"@,
        JsonView::Text("render"@),
    ).with("width"@, pixels(frame.width));
    match frame.window {
        Some(w) => start.with("window"@, JsonView::Text(w)),
        None => start,
    }
}

/// A message that pushes data to a frame.
pub open spec fn push_json(frame_id: Seq<char>, data: JsonView) -> JsonView {
    JsonView::object().with("data"@, data).with("frame_id"@, JsonView::Text(frame_id)).with(
        "type"@,
        JsonView::Text("push"@),
    )
}

/// A message that closes a frame.
pub open spec fn close_json(frame_id: Seq<char>) -> JsonView {
    JsonView::object().with("frame_id"@, JsonView::Text(frame_id)).with("type"@, JsonView::Text("close"@))
}

/// A message that asks for a snapshot.
pub open spec fn snapshot_json(frame_id: Seq<char>, format: Seq<char>, request_id: Seq<char>) -> JsonView {
    JsonView::object().with("format"@, JsonView::Text(format)).with("frame_id"@, JsonView::Text(frame_id)).with(
        "request_id"@,
        JsonView::Text(request_id),
    ).with("type"@, JsonView::Text("snapshot_request"@))
}

/// A message that opens a window.
pub open spec fn window_open_json(
    label: Seq<char>,
    title: Seq<char>,
    url: Seq<char>,
    width: int,
    height: int,
) -> JsonView {
    JsonView::object().with("height"@, pixels(height)).with("label"@, JsonView::Text(label)).with(
        "title"@,
        JsonView::Text(title),
    ).with("type"@, JsonView::Text("window_open"@)).with("url"@, JsonView::Text(url)).with("width"@, pixels(width))
}

/// A message that closes a window.
pub open spec fn window_close_json(label: Seq<char>) -> JsonView {
    JsonView::object().with("label"@, JsonView::Text(label)).with("type"@, JsonView::Text("window_close"@))
}

/// A message that resizes a window.
pub open spec fn window_resize_json(label: Seq<char>, width: int, height: int) -> JsonView {
    JsonView::object().with("height"@, pixels(height)).with("label"@, JsonView::Text(label)).with(
        "type"@,
        JsonView::Text("window_resize"@),
    ).with("width"@, pixels(width))
}

/// A message that sets a window's title.
pub open spec fn window_set_title_json(label: Seq<char>, title: Seq<char>) -> JsonView {
    JsonView::object().with("label"@, JsonView::Text(label)).with("title"@, JsonView::Text(title)).with(
        "type"@,
        JsonView::Text("window_set_title"@),
    )
}

/// A message that brings a window to the front.
pub open spec fn window_focus_json(label: Seq<char>) -> JsonView {
    JsonView::object().with("label"@, JsonView::Text(label)).with("type"@, JsonView::Text("window_focus"@))
}

/// A message that shows a notification.
pub open spec fn window_notify_json(title: Seq<char>, body: Seq<char>) -> JsonView {
    JsonView::object().with("body"@, JsonView::Text(body)).with("title"@, JsonView::Text(title)).with(
        "type"@,
        JsonView::Text("window_notify"@),
    )
}

/// A message that asks for the open windows.
pub open spec fn window_list_json(request_id: Seq<char>) -> JsonView {
    JsonView::object().with("request_id"@, JsonView::Text(request_id)).with(
        "type"@,
        JsonView::Text("window_list_request"@),
    )
}

impl View for WsOutgoing {
    type V = JsonView;

    /// A message is what it says to the host page.
    open spec fn view(&self) -> JsonView {
        match self {
            WsOutgoing::Render { frame_id, src, title, width, height, window } => render_json(
                frame_id@,
                src@,
                FrameView {
                    content: ContentView::Src(src@),
                    title: title@,
                    width: *width as int,
                    height: *height as int,
                    window: string_view(*window),
                },
            ),
            WsOutgoing::Push { frame_id, data } => push_json(frame_id@, data@),
            WsOutgoing::Close { frame_id } => close_json(frame_id@),
            WsOutgoing::SnapshotRequest { frame_id, format, request_id } => snapshot_json(
                frame_id@,
                format@,
                request_id@,
            ),
            WsOutgoing::WindowOpen { label, title, url, width, height } => window_open_json(
                label@,
                title@,
                url@,
                *width as int,
                *height as int,
            ),
            WsOutgoing::WindowClose { label } => window_close_json(label@),
            WsOutgoing::WindowResize { label, width, height } => window_resize_json(
                label@,
                *width as int,
                *height as int,
            ),
            WsOutgoing::WindowSetTitle { label, title } => window_set_title_json(label@, title@),
            WsOutgoing::WindowFocus { label } => window_focus_json(label@),
            WsOutgoing::WindowNotify { title, body } => window_notify_json(title@, body@),
            WsOutgoing::WindowListRequest { request_id } => window_list_json(request_id@),
        }
    }
}

impl WsOutgoing {
    /// The message as JSON.
    pub fn to_json(&self) -> (r: Json)
        ensures
            r@ == self@,
    {
        match self {
            WsOutgoing::Render { frame_id, src, title, width, height, window } => {
                let start = Json::object().with("frame_id", Json::text(frame_id.as_str())).with(
                    "height",
                    Json::natural(*height as u64),
                ).with("src", Json::text(src.as_str())).with("title", Json::text(title.as_str())).with(
                    "type",
                    Json::text("render"),
                ).with("width", Json::natural(*width as u64));
                match window {
                    Some(w) => start.with("window", Json::text(w.as_str())),
                    None => start,
                }
            },
            WsOutgoing::Push { frame_id, data } => Json::object().with("data", data.clone()).with(
                "frame_id",
                Json::text(frame_id.as_str()),
            ).with("type", Json::text("push")),
            WsOutgoing::Close { frame_id } => Json::object().with("frame_id", Json::text(frame_id.as_str())).with(
                "type",
                Json::text("close"),
            ),
            WsOutgoing::SnapshotRequest { frame_id, format, request_id } => Json::object().with(
                "format",
                Json::text(format.as_str()),
            ).with("frame_id", Json::text(frame_id.as_str())).with("request_id", Json::text(request_id.as_str())).with(
                "type",
                Json::text("snapshot_request"),
            ),
            WsOutgoing::WindowOpen { label, title, url, width, height } => Json::object().with(
                "height",
                Json::natural(*height as u64),
            ).with("label", Json::text(label.as_str())).with("title", Json::text(title.as_str())).with(
                "type",
                Json::text("window_open"),
            ).with("url", Json::text(url.as_str())).with("width", Json::natural(*width as u64)),
            WsOutgoing::WindowClose { label } => Json::object().with("label", Json::text(label.as_str())).with(
                "type",
                Json::text("window_close"),
            ),
            WsOutgoing::WindowResize { label, width, height } => Json::object().with(
                "height",
                Json::natural(*height as u64),
            ).with("label", Json::text(label.as_str())).with("type", Json::text("window_resize")).with(
                "width",
                Json::natural(*width as u64),
            ),
            WsOutgoing::WindowSetTitle { label, title } => Json::object().with(
                "label",
                Json::text(label.as_str()),
            ).with("title", Json::text(title.as_str())).with("type", Json::text("window_set_title")),
            WsOutgoing::WindowFocus { label } => Json::object().with("label", Json::text(label.as_str())).with(
                "type",
                Json::text("window_focus"),
            ),
            WsOutgoing::WindowNotify { title, body } => Json::object().with("body", Json::text(body.as_str())).with(
                "title",
                Json::text(title.as_str()),
            ).with("type", Json::text("window_notify")),
            WsOutgoing::WindowListRequest { request_id } => Json::object().with(
                "request_id",
                Json::text(request_id.as_str()),
            ).with("type", Json::text("window_list_request")),
        }
    }

    /// The text that goes over the wire.
    pub fn to_text(&self) -> (r: String)
        ensures
            r@ == printed(self@),
    {
        self.to_json().to_text()
    }
}

// ---------------------------------------------------------------------------
// Messages from the host page
// ---------------------------------------------------------------------------

/// A message from the host page to the broker.
pub enum WsIncoming {
    Interaction { frame_id: String, event: String, id: String, data: Json },
    Close { frame_id: String },
    SnapshotResponse { request_id: String, result: Option<String>, error: Option<String> },
    WindowListResponse { request_id: String, windows: Json },
    /// A window that has just opened asks for all frames.
    ReplayRequest,
}

/// The model of [`WsIncoming`].
pub enum IncomingView {
    Interaction { frame_id: Seq<char>, event: Seq<char>, id: Seq<char>, data: JsonView },
    Close { frame_id: Seq<char> },
    SnapshotResponse { request_id: Seq<char>, result: Option<Seq<char>>, error: Option<Seq<char>> },
    WindowListResponse { request_id: Seq<char>, windows: JsonView },
    ReplayRequest,
}

impl View for WsIncoming {
    type V = IncomingView;

    open spec fn view(&self) -> IncomingView {
        match self {
            WsIncoming::Interaction { frame_id, event, id, data } => IncomingView::Interaction {
                frame_id: frame_id@,
                event: event@,
                id: id@,
                data: data@,
            },
            WsIncoming::Close { frame_id } => IncomingView::Close { frame_id: frame_id@ },
            WsIncoming::SnapshotResponse { request_id, result, error } => IncomingView::SnapshotResponse {
                request_id: request_id@,
                result: string_view(*result),
                error: string_view(*error),
            },
            WsIncoming::WindowListResponse { request_id, windows } => IncomingView::WindowListResponse {
                request_id: request_id@,
                windows: windows@,
            },
            WsIncoming::ReplayRequest => IncomingView::ReplayRequest,
        }
    }
}

/// The value under `key`, or null.
pub open spec fn member_or_null(j: JsonView, key: Seq<char>) -> JsonView {
    match j.member(key) {
        Some(v) => v,
        None => JsonView::Null,
    }
}

/// The names of the fields of a message, in their order, behind its tag.
pub open spec fn incoming_names(kind: Seq<char>) -> Seq<Seq<char>> {
    if kind == "interaction"@ {
        seq!["frame_id"@, "event"@, "id"@, "data"@]
    } else if kind == "close"@ {
        seq!["frame_id"@]
    } else if kind == "snapshot_response"@ {
        seq!["request_id"@, "result"@, "error"@]
    } else if kind == "window_list_response"@ {
        seq!["request_id"@, "windows"@]
    } else {
        Seq::empty()
    }
}

/// How many fields a message has at least.
pub open spec fn incoming_least(kind: Seq<char>) -> int {
    if kind == "interaction"@ {
        3
    } else if kind == "replay_request"@ {
        0
    } else {
        1
    }
}

/// What a message from the host page with this tag says.
pub open spec fn incoming_from(kind: Seq<char>, j: JsonView) -> Option<IncomingView> {
    if kind == "interaction"@ {
        match (j.text_field("frame_id"@), j.text_field("event"@), j.text_field("id"@)) {
            (Field::Value(frame_id), Field::Value(event), Field::Value(id)) => Some(
                IncomingView::Interaction { frame_id, event, id, data: member_or_null(j, "data"@) },
            ),
            _ => None,
        }
    } else if kind == "close"@ {
        match j.text_field("frame_id"@) {
            Field::Value(frame_id) => Some(IncomingView::Close { frame_id }),
            _ => None,
        }
    } else if kind == "snapshot_response"@ {
        match (j.text_field("request_id"@), optional_text(j, "result"@), optional_text(j, "error"@)) {
            (Field::Value(request_id), Field::Value(result), Field::Value(error)) => Some(
                IncomingView::SnapshotResponse { request_id, result, error },
            ),
            _ => None,
        }
    } else if kind == "window_list_response"@ {
        match j.text_field("request_id"@) {
            Field::Value(request_id) => Some(
                IncomingView::WindowListResponse { request_id, windows: member_or_null(j, "windows"@) },
            ),
            _ => None,
        }
    } else if kind == "replay_request"@ {
        Some(IncomingView::ReplayRequest)
    } else {
        None
    }
}

/// What a message from the host page says.
pub open spec fn read_incoming(j: JsonView) -> Option<IncomingView> {
    match record_tag(j, "type"@) {
        Field::Value(kind) => match variant_fields(j, incoming_names(kind), incoming_least(kind)) {
            Some(fields) => incoming_from(kind, fields),
            None => None,
        },
        _ => None,
    }
}

/// The names of the fields of a message, and how many there are at least.
fn names_of_incoming(kind: &str) -> (r: (Vec<&'static str>, usize))
    ensures
        strs_view(r.0@) == incoming_names(kind@),
        r.1 == incoming_least(kind@),
{
    let (names, least): (Vec<&'static str>, usize) = if same(kind, "interaction") {
        (vec!["frame_id", "event", "id", "data"], 3)
    } else if same(kind, "close") {
        (vec!["frame_id"], 1)
    } else if same(kind, "snapshot_response") {
        (vec!["request_id", "result", "error"], 1)
    } else if same(kind, "window_list_response") {
        (vec!["request_id", "windows"], 1)
    } else if same(kind, "replay_request") {
        (Vec::new(), 0)
    } else {
        (Vec::new(), 1)
    };
    proof {
        lemma_kinds_differ();
    }
    assert(strs_view(names@) =~= incoming_names(kind@));
    (names, least)
}

proof fn lemma_kinds_differ()
    ensures
        "replay_request"@ != "interaction"@ && "replay_request"@ != "close"@,
        "replay_request"@ != "snapshot_response"@ && "replay_request"@ != "window_list_response"@,
{
    reveal_strlit("replay_request");
    reveal_strlit("interaction");
    reveal_strlit("close");
    reveal_strlit("snapshot_response");
    reveal_strlit("window_list_response");
    assert("replay_request"@[0] == 'r' && "interaction"@[0] == 'i' && "close"@[0] == 'c');
    assert("snapshot_response"@[0] == 's' && "window_list_response"@[0] == 'w');
}

/// The value under `key`, or null.
fn value_or(j: &Json, key: &str) -> (r: Json)
    ensures
        r@ == member_or_null(j@, key@),
{
    match j.get(key) {
        Some(v) => v.clone(),
        None => Json::Null,
    }
}

impl WsIncoming {
    /// Reads a message from the host page.
    pub fn from_json(j: &Json) -> (r: Option<WsIncoming>)
        ensures
            match r {
                Some(m) => read_incoming(j@) == Some(m@),
                None => read_incoming(j@) is None,
            },
    {
        let kind = match j.record_tag("type") {
            Field::Value(t) => t,
            _ => return None,
        };
        let (names, least) = names_of_incoming(kind.as_str());
        let fields = match j.variant_fields(&names, least) {
            Some(f) => f,
            None => return None,
        };
        let j = &fields;
        if same(kind.as_str(), "interaction") {
            let frame_id = match j.text_field("frame_id") {
                Field::Value(t) => t,
                _ => return None,
            };
            let event = match j.text_field("event") {
                Field::Value(t) => t,
                _ => return None,
            };
            let id = match j.text_field("id") {
                Field::Value(t) => t,
                _ => return None,
            };
            Some(WsIncoming::Interaction { frame_id, event, id, data: value_or(j, "data") })
        } else if same(kind.as_str(), "close") {
            match j.text_field("frame_id") {
                Field::Value(frame_id) => Some(WsIncoming::Close { frame_id }),
                _ => None,
            }
        } else if same(kind.as_str(), "snapshot_response") {
            let request_id = match j.text_field("request_id") {
                Field::Value(t) => t,
                _ => return None,
            };
            let result = match optional_text_of(j, "result") {
                Field::Value(t) => t,
                _ => return None,
            };
            let error = match optional_text_of(j, "error") {
                Field::Value(t) => t,
                _ => return None,
            };
            Some(WsIncoming::SnapshotResponse { request_id, result, error })
        } else if same(kind.as_str(), "window_list_response") {
            match j.text_field("request_id") {
                Field::Value(request_id) => Some(
                    WsIncoming::WindowListResponse { request_id, windows: value_or(j, "windows") },
                ),
                _ => None,
            }
        } else if same(kind.as_str(), "replay_request") {
            Some(WsIncoming::ReplayRequest)
        } else {
            None
        }
    }
}

// ---------------------------------------------------------------------------
// The store
// ---------------------------------------------------------------------------

/// The open frames, and the requests that wait for the host page.
pub struct FrameStore {
    frames: Table<Frame>,
    snapshots: NameSet,
    lists: NameSet,
}

/// The model of [`FrameStore`].
#[verifier::ext_equal]
pub struct StoreView {
    /// The frames by their identifiers.
    pub frames: Map<Seq<char>, FrameView>,
    /// Snapshot requests that wait for an answer.
    pub snapshots: Set<Seq<char>>,
    /// Requests for the window list that wait for an answer.
    pub lists: Set<Seq<char>>,
}

impl View for FrameStore {
    type V = StoreView;

    closed spec fn view(&self) -> StoreView {
        StoreView {
            frames: self.frames@.map_values(|f: Frame| f@),
            snapshots: self.snapshots@,
            lists: self.lists@,
        }
    }
}

impl FrameStore {
    /// The store is as described.
    pub closed spec fn wf(&self) -> bool {
        self.frames.wf() && self.snapshots.wf() && self.lists.wf()
    }

    /// The identifiers of the frames, each once.
    pub closed spec fn order(&self) -> Seq<Seq<char>> {
        self.frames.order()
    }

    /// A store without frames.
    pub fn new() -> (r: FrameStore)
        ensures
            r.wf(),
            r@.frames == Map::<Seq<char>, FrameView>::empty(),
            r@.snapshots == Set::<Seq<char>>::empty(),
            r@.lists == Set::<Seq<char>>::empty(),
    {
        let r = FrameStore { frames: Table::new(), snapshots: NameSet::new(), lists: NameSet::new() };
        assert(r@.frames =~= Map::<Seq<char>, FrameView>::empty());
        r
    }

    /// Inserts or replaces a frame.
    pub fn insert(&mut self, frame_id: &str, frame: Frame)
        requires
            old(self).wf(),
        ensures
            final(self).wf(),
            final(self)@ == (StoreView { frames: old(self)@.frames.insert(frame_id@, frame@), ..old(self)@ }),
    {
        let ghost f = frame;
        self.frames.insert(frame_id, frame);
        assert(self@.frames =~= old(self)@.frames.insert(frame_id@, f@));
    }

    /// The frame with this identifier.
    pub fn get(&self, frame_id: &str) -> (r: Option<Frame>)
        requires
            self.wf(),
        ensures
            match r {
                Some(f) => self@.frames.contains_key(frame_id@) && f@ == self@.frames[frame_id@],
                None => !self@.frames.contains_key(frame_id@),
            },
    {
        match self.frames.get(frame_id) {
            Some(f) => Some(f.clone()),
            None => None,
        }
    }

    /// Takes a frame out.
    pub fn remove(&mut self, frame_id: &str) -> (r: Option<Frame>)
        requires
            old(self).wf(),
        ensures
            final(self).wf(),
            final(self)@ == (StoreView { frames: old(self)@.frames.remove(frame_id@), ..old(self)@ }),
            match r {
                Some(f) => old(self)@.frames.contains_key(frame_id@) && f@ == old(self)@.frames[frame_id@],
                None => !old(self)@.frames.contains_key(frame_id@),
            },
    {
        let gone = self.frames.remove(frame_id);
        assert(self@.frames =~= old(self)@.frames.remove(frame_id@));
        gone
    }

    /// All open frames with their identifiers.
    pub fn list_all(&self) -> (r: Vec<(String, Frame)>)
        requires
            self.wf(),
        ensures
            r@.len() == self.order().len(),
            forall|i: int|
                0 <= i < r@.len() ==> (#[trigger] r@[i]).0@ == self.order()[i] && self@.frames.contains_key(r@[i].0@)
                    && r@[i].1@ == self@.frames[r@[i].0@],
            self.order().no_duplicates(),
            forall|n: Seq<char>| #[trigger] self@.frames.contains_key(n) ==> self.order().contains(n),
    {
        proof {
            lemma_table_order(&self.frames);
        }
        let mut out: Vec<(String, Frame)> = Vec::new();
        let mut i: usize = 0;
        let n: usize = self.frames.len();
        while i < n
            invariant
                self.wf(),
                n == self.frames.order().len(),
                i <= n,
                out@.len() == i,
                forall|k: int|
                    0 <= k < i ==> (#[trigger] out@[k]).0@ == self.order()[k] && self@.frames.contains_key(out@[k].0@)
                        && out@[k].1@ == self@.frames[out@[k].0@],
            decreases n - i,
        {
            let (id, f) = self.frames.at(i);
            out.push((id.to_owned(), f.clone()));
            i += 1;
        }
        out
    }

    /// Registers a snapshot request, so that its answer is waited for.
    pub fn register_snapshot(&mut self, request_id: &str)
        requires
            old(self).wf(),
        ensures
            final(self).wf(),
            final(self)@ == (StoreView { snapshots: old(self)@.snapshots.insert(request_id@), ..old(self)@ }),
    {
        let _ = self.snapshots.insert(request_id);
    }

    /// Takes a snapshot request as answered.  Returns whether it was waited
    /// for.
    pub fn resolve_snapshot(&mut self, request_id: &str) -> (r: bool)
        requires
            old(self).wf(),
        ensures
            final(self).wf(),
            final(self)@ == (StoreView { snapshots: old(self)@.snapshots.remove(request_id@), ..old(self)@ }),
            r == old(self)@.snapshots.contains(request_id@),
    {
        self.snapshots.remove(request_id)
    }

    /// Registers a request for the window list.
    pub fn register_list_request(&mut self, request_id: &str)
        requires
            old(self).wf(),
        ensures
            final(self).wf(),
            final(self)@ == (StoreView { lists: old(self)@.lists.insert(request_id@), ..old(self)@ }),
    {
        let _ = self.lists.insert(request_id);
    }

    /// Takes a request for the window list as answered.  Returns whether it
    /// was waited for.
    pub fn resolve_list_request(&mut self, request_id: &str) -> (r: bool)
        requires
            old(self).wf(),
        ensures
            final(self).wf(),
            final(self)@ == (StoreView { lists: old(self)@.lists.remove(request_id@), ..old(self)@ }),
            r == old(self)@.lists.contains(request_id@),
    {
        self.lists.remove(request_id)
    }
}

// ---------------------------------------------------------------------------
// Serving frames
// ---------------------------------------------------------------------------

/// The URL at which the broker serves an inline frame.
pub open spec fn frame_url(port: nat, frame_id: Seq<char>) -> Seq<char> {
    "http://127.0.0.1:"@ + decimal(port) + "/ui/frame/"@ + frame_id
}

/// Where the host page finds a frame.
pub open spec fn frame_src(port: nat, frame_id: Seq<char>, content: ContentView) -> Seq<char> {
    match content {
        ContentView::Inline { .. } => frame_url(port, frame_id),
        ContentView::Src(url) => url,
    }
}

/// Where the host page finds a frame.
pub fn src_of(port: u16, frame_id: &str, content: &FrameContent) -> (r: String)
    ensures
        r@ == frame_src(port as nat, frame_id@, content@),
{
    match content {
        FrameContent::Inline { .. } => {
            let mut r = "http://127.0.0.1:".to_owned();
            r.push_str(decimal_text(port as u64).as_str());
            r.push_str("/ui/frame/");
            r.push_str(frame_id);
            r
        },
        FrameContent::Src(url) => url.clone(),
    }
}

/// `text` between two tags, or nothing where there is no text.
pub open spec fn block(open: Seq<char>, text: Seq<char>, close: Seq<char>) -> Seq<char> {
    if text.len() == 0 {
        Seq::empty()
    } else {
        open + text + close
    }
}

/// The document of an inline frame.
pub open spec fn inline_frame(html: Seq<char>, css: Seq<char>, js: Seq<char>) -> Seq<char> {
    "<!DOCTYPE html>\n<html>\n<head>\n<meta charset=\"utf-8\">\n<meta http-equiv=\"Content-Security-Policy\" content=\""@
        + INLINE_CSP@ + "\">\n"@ + block("<style>"@, css, "</style>"@) + "\n</head>\n<body>\n"@ + html + "\n"@
        + SNAPSHOT_SCRIPT@ + "\n"@ + block("<script>"@, js, "</script>"@) + "\n</body>\n</html>"@
}

/// Builds the document of an inline frame: the agent's HTML, CSS and JavaScript
/// with a content security policy and the script that takes snapshots.
pub fn build_inline_frame(html: &str, css: &str, js: &str) -> (r: String)
    ensures
        r@ == inline_frame(html@, css@, js@),
{
    let mut r =
        "<!DOCTYPE html>\n<html>\n<head>\n<meta charset=\"utf-8\">\n<meta http-equiv=\"Content-Security-Policy\" content=\"".to_owned();
    r.push_str(INLINE_CSP);
    r.push_str("\">\n");
    let ghost before_css = r@;
    if chars_of(css).len() > 0 {
        r.push_str("<style>");
        r.push_str(css);
        r.push_str("</style>");
    }
    assert(r@ =~= before_css + block("<style>"@, css@, "</style>"@));
    r.push_str("\n</head>\n<body>\n");
    r.push_str(html);
    r.push_str("\n");
    r.push_str(SNAPSHOT_SCRIPT);
    r.push_str("\n");
    let ghost before_js = r@;
    if chars_of(js).len() > 0 {
        r.push_str("<script>");
        r.push_str(js);
        r.push_str("</script>");
    }
    assert(r@ =~= before_js + block("<script>"@, js@, "</script>"@));
    r.push_str("\n</body>\n</html>");
    r
}

/// The answer to `GET /ui/frame/<id>`.
pub enum FrameAnswer {
    /// The document.
    Page(String),
    /// The frame is elsewhere.
    Redirect(String),
    NotFound,
}

/// Serves the content of a frame.
pub fn ui_frame_content(frame_id: &str, store: &FrameStore) -> (r: FrameAnswer)
    requires
        store.wf(),
    ensures
        if store@.frames.contains_key(frame_id@) {
            match store@.frames[frame_id@].content {
                ContentView::Inline { html, css, js } => r matches FrameAnswer::Page(p) && p@ == inline_frame(
                    html,
                    css,
                    js,
                ),
                ContentView::Src(url) => r matches FrameAnswer::Redirect(u) && u@ == url,
            }
        } else {
            r is NotFound
        },
{
    match store.get(frame_id) {
        Some(f) => match &f.content {
            FrameContent::Inline { html, css, js } => FrameAnswer::Page(
                build_inline_frame(html.as_str(), css.as_str(), js.as_str()),
            ),
            FrameContent::Src(url) => FrameAnswer::Redirect(url.clone()),
        },
        None => FrameAnswer::NotFound,
    }
}

// ---------------------------------------------------------------------------
// The socket
// ---------------------------------------------------------------------------

/// Longer messages from the host page are dropped.
pub const MAX_MESSAGE_BYTES: usize = 65536;

/// The models of a list of messages.
pub open spec fn messages_view(v: Seq<WsOutgoing>) -> Seq<JsonView> {
    Seq::new(v.len(), |i: int| v[i]@)
}

/// The messages that show all open frames.
pub open spec fn replayed(port: nat, frames: Map<Seq<char>, FrameView>, order: Seq<Seq<char>>) -> Seq<JsonView> {
    Seq::new(
        order.len(),
        |i: int|
            render_json(order[i], frame_src(port, order[i], frames[order[i]].content), frames[order[i]]),
    )
}

/// The messages that show all open frames to a host page that has just
/// connected.
pub fn replay(store: &FrameStore, port: u16) -> (r: Vec<WsOutgoing>)
    requires
        store.wf(),
    ensures
        messages_view(r@) == replayed(port as nat, store@.frames, store.order()),
{
    let all = store.list_all();
    let mut out: Vec<WsOutgoing> = Vec::new();
    let mut i: usize = 0;
    while i < all.len()
        invariant
            i <= all@.len(),
            out@.len() == i,
            all@.len() == store.order().len(),
            forall|k: int|
                0 <= k < all@.len() ==> (#[trigger] all@[k]).0@ == store.order()[k] && all@[k].1@
                    == store@.frames[all@[k].0@],
            forall|k: int|
                0 <= k < i ==> (#[trigger] out@[k])@ == render_json(
                    store.order()[k],
                    frame_src(port as nat, store.order()[k], store@.frames[store.order()[k]].content),
                    store@.frames[store.order()[k]],
                ),
        decreases all@.len() - i,
    {
        let frame = &all[i].1;
        let src = src_of(port, all[i].0.as_str(), &frame.content);
        out.push(
            WsOutgoing::Render {
                frame_id: all[i].0.clone(),
                src,
                title: frame.title.clone(),
                width: frame.width,
                height: frame.height,
                window: copy_text(&frame.window),
            },
        );
        i += 1;
    }
    assert(messages_view(out@) =~= replayed(port as nat, store@.frames, store.order()));
    out
}

/// What a message from the host page leads to.
pub enum Reaction {
    /// Nothing, or only the store or the queue changed.
    Done,
    /// A snapshot request is answered.
    Snapshot { request_id: String, outcome: Result<String, String> },
    /// A request for the window list is answered.
    Windows { request_id: String, windows: Json },
    /// These messages go back.
    Send(Vec<WsOutgoing>),
}

/// The outcome of a snapshot request.
pub open spec fn snapshot_outcome(result: Option<Seq<char>>, error: Option<Seq<char>>) -> Result<Seq<char>, Seq<char>> {
    match (result, error) {
        (Some(t), _) => Ok(t),
        (None, Some(e)) => Err(e),
        (None, None) => Err("empty snapshot response"@),
    }
}

/// The payload of an interaction event.
pub open spec fn interaction_json(frame_id: Seq<char>, event: Seq<char>, id: Seq<char>, data: JsonView) -> JsonView {
    JsonView::object().with("data"@, data).with("event"@, JsonView::Text(event)).with(
        "frame_id"@,
        JsonView::Text(frame_id),
    ).with("id"@, JsonView::Text(id))
}

/// What a text from the host page says: nothing where it is too long or cannot
/// be read.
pub open spec fn incoming(text: Seq<char>) -> Option<IncomingView> {
    if vstd::utf8::encode_utf8(text).len() > MAX_MESSAGE_BYTES {
        None
    } else {
        match parsed(vstd::utf8::encode_utf8(text)) {
            Some(v) => read_incoming(v),
            None => None,
        }
    }
}

/// The store and the queue after a message.
pub open spec fn after_message(
    m: IncomingView,
    store: StoreView,
    queue: QueueView,
    ts: Seq<char>,
) -> (StoreView, QueueView) {
    match m {
        IncomingView::Interaction { frame_id, event, id, data } => (
            store,
            pushed(queue, frame_topic(frame_id), "webview"@, interaction_json(frame_id, event, id, data), ts),
        ),
        IncomingView::Close { frame_id } => (StoreView { frames: store.frames.remove(frame_id), ..store }, queue),
        IncomingView::SnapshotResponse { request_id, .. } => (
            StoreView { snapshots: store.snapshots.remove(request_id), ..store },
            queue,
        ),
        IncomingView::WindowListResponse { request_id, .. } => (
            StoreView { lists: store.lists.remove(request_id), ..store },
            queue,
        ),
        IncomingView::ReplayRequest => (store, queue),
    }
}

/// What is done at a message, with the store as it was.
pub open spec fn reacts(m: IncomingView, store: StoreView, order: Seq<Seq<char>>, port: nat, r: Reaction) -> bool {
    match m {
        IncomingView::Interaction { .. } => r is Done,
        IncomingView::Close { .. } => r is Done,
        IncomingView::SnapshotResponse { request_id, result, error } => if store.snapshots.contains(request_id) {
            r matches Reaction::Snapshot { request_id: id, outcome } && id@ == request_id && (match snapshot_outcome(
                result,
                error,
            ) {
                Ok(t) => outcome is Ok && outcome->Ok_0@ == t,
                Err(e) => outcome is Err && outcome->Err_0@ == e,
            })
        } else {
            r is Done
        },
        IncomingView::WindowListResponse { request_id, windows } => if store.lists.contains(request_id) {
            r matches Reaction::Windows { request_id: id, windows: w } && id@ == request_id && w@ == windows
        } else {
            r is Done
        },
        IncomingView::ReplayRequest => r matches Reaction::Send(list) && messages_view(list@) == replayed(
            port,
            store.frames,
            order,
        ),
    }
}

/// Takes a text from the host page.
pub fn on_message(text: &str, store: &mut FrameStore, queue: &mut EventQueue, port: u16, ts: &str) -> (r: Reaction)
    requires
        old(store).wf(),
        old(queue).wf(),
        old(queue)@.next_id < u64::MAX,
    ensures
        final(store).wf(),
        final(queue).wf(),
        match incoming(text@) {
            None => r is Done && final(store)@ == old(store)@ && final(queue)@ == old(queue)@,
            Some(m) => {
                &&& (final(store)@, final(queue)@) == after_message(m, old(store)@, old(queue)@, ts@)
                &&& reacts(m, old(store)@, old(store).order(), port as nat, r)
            },
        },
{
    if text.as_bytes().len() > MAX_MESSAGE_BYTES {
        return Reaction::Done;
    }
    let value = match Json::from_text(text) {
        Some(v) => v,
        None => return Reaction::Done,
    };
    let message = match WsIncoming::from_json(&value) {
        Some(m) => m,
        None => return Reaction::Done,
    };
    match message {
        WsIncoming::Interaction { frame_id, event, id, data } => {
            let payload = Json::object().with("data", data).with("event", Json::text(event.as_str())).with(
                "frame_id",
                Json::text(frame_id.as_str()),
            ).with("id", Json::text(id.as_str()));
            let topic = ui_topic(frame_id.as_str());
            let _ = queue.push(topic.as_str(), "webview", payload, ts);
            Reaction::Done
        },
        WsIncoming::Close { frame_id } => {
            let _ = store.remove(frame_id.as_str());
            Reaction::Done
        },
        WsIncoming::SnapshotResponse { request_id, result, error } => {
            if !store.resolve_snapshot(request_id.as_str()) {
                return Reaction::Done;
            }
            let outcome = match (result, error) {
                (Some(t), _) => Ok(t),
                (None, Some(e)) => Err(e),
                (None, None) => Err("empty snapshot response".to_owned()),
            };
            Reaction::Snapshot { request_id, outcome }
        },
        WsIncoming::WindowListResponse { request_id, windows } => {
            if !store.resolve_list_request(request_id.as_str()) {
                return Reaction::Done;
            }
            Reaction::Windows { request_id, windows }
        },
        WsIncoming::ReplayRequest => Reaction::Send(replay(store, port)),
    }
}

/// The push that an event leads to: one on a frame's response topic goes to
/// that frame, every other is left alone.
pub fn ui_push_for(event: &Event) -> (r: Option<WsOutgoing>)
    ensures
        match response_frame(event@.topic) {
            Some(frame_id) => r is Some && r->0@ == push_json(frame_id, event@.data),
            None => r is None,
        },
{
    match parse_ui_response_frame_id(event.topic.as_str()) {
        Some(frame_id) => Some(WsOutgoing::Push { frame_id, data: event.data.clone() }),
        None => None,
    }
}

// ---------------------------------------------------------------------------
// ui_render
// ---------------------------------------------------------------------------

/// The text under `key`, or a default.
pub open spec fn text_or(j: JsonView, key: Seq<char>, default: Seq<char>) -> Seq<char> {
    match j.text_at(key) {
        Some(t) => t,
        None => default,
    }
}

/// The text under `key`, or a default.
pub(crate) fn text_or_default(j: &Json, key: &str, default: &str) -> (r: String)
    ensures
        r@ == text_or(j@, key@, default@),
{
    match j.str_at(key) {
        Some(t) => t.to_owned(),
        None => default.to_owned(),
    }
}

/// The low half of a number.
pub open spec fn low_half(n: int) -> int {
    n % 0x1_0000_0000
}

/// The low half of a number.
pub(crate) fn low_half_of(n: u64) -> (r: u32)
    ensures
        r == low_half(n as int),
{
    assert((n % 0x1_0000_0000) as u32 == n % 0x1_0000_0000) by (bit_vector);
    (n % 0x1_0000_0000) as u32
}

/// The size under `key`, or a default.
pub open spec fn size_or(j: JsonView, key: Seq<char>, default: int) -> int {
    match j.natural_at(key) {
        Some(n) => low_half(n),
        None => default,
    }
}

/// The size under `key`, or a default.
pub(crate) fn size_or_default(j: &Json, key: &str, default: u32) -> (r: u32)
    ensures
        r == size_or(j@, key@, default as int),
{
    match j.u64_at(key) {
        Some(n) => low_half_of(n),
        None => default,
    }
}

/// Why a call of `ui_render` is refused, if it is.
pub open spec fn render_refusal(arguments: JsonView) -> Option<Seq<char>> {
    match (arguments.text_at("html"@), arguments.text_at("src"@)) {
        (Some(_), Some(_)) => Some("'html' and 'src' are mutually exclusive — provide one or the other"@),
        (None, None) => Some("either 'html' or 'src' is required"@),
        _ => None,
    }
}

/// The frame that a call of `ui_render` makes.
pub open spec fn rendered_frame(arguments: JsonView) -> FrameView {
    FrameView {
        content: match arguments.text_at("html"@) {
            Some(html) => ContentView::Inline {
                html,
                css: text_or(arguments, "css"@, ""@),
                js: text_or(arguments, "js"@, ""@),
            },
            None => ContentView::Src(arguments.text_at("src"@)->0),
        },
        title: text_or(arguments, "title"@, "Agent UI"@),
        width: size_or(arguments, "width"@, 800),
        height: size_or(arguments, "height"@, 600),
        window: None,
    }
}

/// What the caller of `ui_render` is answered.
pub open spec fn rendered_json(frame_id: Seq<char>, src: Seq<char>, port: nat) -> JsonView {
    JsonView::object().with("frame_id"@, JsonView::Text(frame_id)).with("frame_url"@, JsonView::Text(src)).with(
        "ui_url"@,
        JsonView::Text("http://127.0.0.1:"@ + decimal(port) + "/ui"@),
    )
}

/// Whether a call of `ui_render` ended as it should, with the identifier of
/// its frame.
pub open spec fn render_done(
    arguments: JsonView,
    frame_id: Seq<char>,
    port: nat,
    before: StoreView,
    after: StoreView,
    r: (String, WsOutgoing),
) -> bool {
    let frame = rendered_frame(arguments);
    let src = frame_src(port, frame_id, frame.content);
    &&& r.0@ == printed_pretty(rendered_json(frame_id, src, port))
    &&& r.1@ == render_json(frame_id, src, frame)
    &&& after == StoreView { frames: before.frames.insert(frame_id, frame), ..before }
}

/// Handles `ui_render` with the identifier for a new frame given.  Returns the
/// answer and the message to the host pages.
pub fn render_with_id(arguments: &Json, fresh: &str, store: &mut FrameStore, port: u16) -> (r: Result<
    (String, WsOutgoing),
    String,
>)
    requires
        old(store).wf(),
    ensures
        final(store).wf(),
        match render_refusal(arguments@) {
            Some(e) => r is Err && r->Err_0@ == e && final(store)@ == old(store)@,
            None => r is Ok && render_done(
                arguments@,
                text_or(arguments@, "frame_id"@, fresh@),
                port as nat,
                old(store)@,
                final(store)@,
                r->Ok_0,
            ),
        },
{
    let html = arguments.str_at("html");
    let src = arguments.str_at("src");
    if html.is_some() && src.is_some() {
        return Err("'html' and 'src' are mutually exclusive — provide one or the other".to_owned());
    }
    let content = match (html, src) {
        (Some(h), _) => FrameContent::Inline {
            html: h.to_owned(),
            css: text_or_default(arguments, "css", ""),
            js: text_or_default(arguments, "js", ""),
        },
        (None, Some(s)) => FrameContent::Src(s.to_owned()),
        (None, None) => return Err("either 'html' or 'src' is required".to_owned()),
    };
    let frame_id = text_or_default(arguments, "frame_id", fresh);
    let frame = Frame {
        content,
        title: text_or_default(arguments, "title", "Agent UI"),
        width: size_or_default(arguments, "width", 800),
        height: size_or_default(arguments, "height", 600),
        window: None,
    };
    assert(frame@ == rendered_frame(arguments@));
    let url = src_of(port, frame_id.as_str(), &frame.content);
    let message = WsOutgoing::Render {
        frame_id: frame_id.clone(),
        src: url.clone(),
        title: frame.title.clone(),
        width: frame.width,
        height: frame.height,
        window: None,
    };
    store.insert(frame_id.as_str(), frame);
    let mut ui_url = "http://127.0.0.1:".to_owned();
    ui_url.push_str(decimal_text(port as u64).as_str());
    ui_url.push_str("/ui");
    let answer = Json::object().with("frame_id", Json::text(frame_id.as_str())).with(
        "frame_url",
        Json::text(url.as_str()),
    ).with("ui_url", Json::text(ui_url.as_str()));
    Ok((answer.to_pretty_text(), message))
}

/// Handles `ui_render`: creates or replaces a frame.  A new frame gets a random
/// identifier.
pub fn handle_render(arguments: &Json, store: &mut FrameStore, port: u16) -> (r: Result<(String, WsOutgoing), String>)
    requires
        old(store).wf(),
    ensures
        final(store).wf(),
        match render_refusal(arguments@) {
            Some(e) => r is Err && r->Err_0@ == e && final(store)@ == old(store)@,
            None => r is Ok && exists|fresh: Seq<char>| #[trigger]
                uuid_shaped(fresh) && render_done(
                    arguments@,
                    text_or(arguments@, "frame_id"@, fresh),
                    port as nat,
                    old(store)@,
                    final(store)@,
                    r->Ok_0,
                ),
        },
{
    let fresh = new_uuid();
    assert(uuid_shaped(fresh@));
    render_with_id(arguments, fresh.as_str(), store, port)
}

// ---------------------------------------------------------------------------
// ui_push, ui_snapshot, ui_close
// ---------------------------------------------------------------------------

/// `{"ok":true}`.
pub open spec fn ok_json() -> JsonView {
    JsonView::object().with("ok"@, JsonView::Bool(true))
}

/// `{"ok":true}`.
pub(crate) fn ok_text() -> (r: String)
    ensures
        r@ == printed(ok_json()),
{
    Json::object().with("ok", Json::Bool(true)).to_text()
}

/// Why a call of `ui_push` is refused, if it is.
pub open spec fn push_refusal(arguments: JsonView, frames: Map<Seq<char>, FrameView>) -> Option<Seq<char>> {
    match arguments.text_at("frame_id"@) {
        None => Some("missing required field: frame_id"@),
        Some(id) => if frames.contains_key(id) {
            None
        } else {
            Some("no open frame with id '"@ + id + "' — call ui_render first"@)
        },
    }
}

/// The data that a call of `ui_push` delivers: what was given, with the
/// selector where it is an object.
pub open spec fn pushed_data(arguments: JsonView) -> JsonView {
    let data = match arguments.member("data"@) {
        Some(d) => d,
        None => JsonView::object(),
    };
    match arguments.text_at("selector"@) {
        Some(s) => if data is Object {
            data.setting("selector"@, JsonView::Text(s))
        } else {
            data
        },
        None => data,
    }
}

/// Handles `ui_push`: a partial update goes to an open frame.
pub fn handle_push(arguments: &Json, store: &FrameStore) -> (r: Result<(String, WsOutgoing), String>)
    requires
        store.wf(),
    ensures
        match push_refusal(arguments@, store@.frames) {
            Some(e) => r is Err && r->Err_0@ == e,
            None => r is Ok && r->Ok_0.0@ == printed(ok_json()) && r->Ok_0.1@ == push_json(
                arguments@.text_at("frame_id"@)->0,
                pushed_data(arguments@),
            ),
        },
{
    let frame_id = match arguments.str_at("frame_id") {
        Some(id) => id,
        None => return Err("missing required field: frame_id".to_owned()),
    };
    if store.get(frame_id).is_none() {
        let mut e = "no open frame with id '".to_owned();
        e.push_str(frame_id);
        e.push_str("' — call ui_render first");
        return Err(e);
    }
    let given = match arguments.get("data") {
        Some(d) => d.clone(),
        None => Json::object(),
    };
    let data = match arguments.str_at("selector") {
        Some(s) => {
            if given.as_object().is_some() {
                given.setting("selector", Json::text(s))
            } else {
                given
            }
        },
        None => given,
    };
    Ok((ok_text(), WsOutgoing::Push { frame_id: frame_id.to_owned(), data }))
}

/// Why a call of `ui_snapshot` is refused, if it is.
pub open spec fn snapshot_refusal(arguments: JsonView, frames: Map<Seq<char>, FrameView>) -> Option<Seq<char>> {
    match arguments.text_at("frame_id"@) {
        None => Some("missing required field: frame_id"@),
        Some(id) => if !frames.contains_key(id) {
            Some("no open frame with id '"@ + id + "'"@)
        } else if text_or(arguments, "format"@, "text"@) == "screenshot"@ {
            Some(
                "screenshot format requires a headless capture sidecar (not yet implemented). Use 'text' or 'html' format for broker-served frames."@,
            )
        } else {
            None
        },
    }
}

/// Handles `ui_snapshot` with the identifier of the request given: the request
/// is registered, and this message asks the host page.
pub fn snapshot_with_id(arguments: &Json, request_id: &str, store: &mut FrameStore) -> (r: Result<WsOutgoing, String>)
    requires
        old(store).wf(),
    ensures
        final(store).wf(),
        match snapshot_refusal(arguments@, old(store)@.frames) {
            Some(e) => r is Err && r->Err_0@ == e && final(store)@ == old(store)@,
            None => r is Ok && r->Ok_0@ == snapshot_json(
                arguments@.text_at("frame_id"@)->0,
                text_or(arguments@, "format"@, "text"@),
                request_id@,
            ) && final(store)@ == (StoreView {
                snapshots: old(store)@.snapshots.insert(request_id@),
                ..old(store)@
            }),
        },
{
    let frame_id = match arguments.str_at("frame_id") {
        Some(id) => id,
        None => return Err("missing required field: frame_id".to_owned()),
    };
    if store.get(frame_id).is_none() {
        let mut e = "no open frame with id '".to_owned();
        e.push_str(frame_id);
        e.push_str("'");
        return Err(e);
    }
    let format = text_or_default(arguments, "format", "text");
    if same(format.as_str(), "screenshot") {
        return Err(
            "screenshot format requires a headless capture sidecar (not yet implemented). Use 'text' or 'html' format for broker-served frames.".to_owned(),
        );
    }
    store.register_snapshot(request_id);
    Ok(WsOutgoing::SnapshotRequest { frame_id: frame_id.to_owned(), format, request_id: request_id.to_owned() })
}

/// Handles `ui_snapshot`: asks the host page under a random identifier, which
/// is returned with the message.
pub fn handle_snapshot(arguments: &Json, store: &mut FrameStore) -> (r: Result<(String, WsOutgoing), String>)
    requires
        old(store).wf(),
    ensures
        final(store).wf(),
        match snapshot_refusal(arguments@, old(store)@.frames) {
            Some(e) => r is Err && r->Err_0@ == e && final(store)@ == old(store)@,
            None => r is Ok && uuid_shaped(r->Ok_0.0@) && r->Ok_0.1@ == snapshot_json(
                arguments@.text_at("frame_id"@)->0,
                text_or(arguments@, "format"@, "text"@),
                r->Ok_0.0@,
            ) && final(store)@ == (StoreView {
                snapshots: old(store)@.snapshots.insert(r->Ok_0.0@),
                ..old(store)@
            }),
        },
{
    let request_id = new_uuid();
    match snapshot_with_id(arguments, request_id.as_str(), store) {
        Ok(message) => Ok((request_id, message)),
        Err(e) => Err(e),
    }
}

/// How a snapshot request ended.
pub enum SnapshotEnd {
    Answered(Result<String, String>),
    /// The host page is gone.
    Disconnected,
    /// Ten seconds have passed.
    TimedOut,
}

/// What the caller of `ui_snapshot` is answered.
pub fn snapshot_result(end: &SnapshotEnd) -> (r: Result<String, String>)
    ensures
        match end {
            SnapshotEnd::Answered(Ok(text)) => r is Ok && r->Ok_0@ == printed_pretty(
                JsonView::object().with("snapshot"@, JsonView::Text(text@)),
            ),
            SnapshotEnd::Answered(Err(e)) => r is Err && r->Err_0@ == "snapshot failed: "@ + e@,
            SnapshotEnd::Disconnected => r is Err && r->Err_0@
                == "snapshot response channel closed — host page disconnected"@,
            SnapshotEnd::TimedOut => r is Err && r->Err_0@
                == "snapshot timed out after 10s — is the /ui page open in a browser?"@,
        },
{
    match end {
        SnapshotEnd::Answered(Ok(text)) => Ok(
            Json::object().with("snapshot", Json::text(text.as_str())).to_pretty_text(),
        ),
        SnapshotEnd::Answered(Err(e)) => {
            let mut t = "snapshot failed: ".to_owned();
            t.push_str(e.as_str());
            Err(t)
        },
        SnapshotEnd::Disconnected => Err("snapshot response channel closed — host page disconnected".to_owned()),
        SnapshotEnd::TimedOut => Err("snapshot timed out after 10s — is the /ui page open in a browser?".to_owned()),
    }
}

/// Handles `ui_close`: the frame goes, and the host pages are told.
pub fn handle_close(arguments: &Json, store: &mut FrameStore) -> (r: Result<(String, WsOutgoing), String>)
    requires
        old(store).wf(),
    ensures
        final(store).wf(),
        match arguments@.text_at("frame_id"@) {
            None => r is Err && r->Err_0@ == "missing required field: frame_id"@ && final(store)@ == old(store)@,
            Some(id) => r is Ok && r->Ok_0.0@ == printed(ok_json()) && r->Ok_0.1@ == close_json(id) && final(store)@
                == (StoreView { frames: old(store)@.frames.remove(id), ..old(store)@ }),
        },
{
    let frame_id = match arguments.str_at("frame_id") {
        Some(id) => id,
        None => return Err("missing required field: frame_id".to_owned()),
    };
    let _ = store.remove(frame_id);
    Ok((ok_text(), WsOutgoing::Close { frame_id: frame_id.to_owned() }))
}

// ---------------------------------------------------------------------------
// Definitions
// ---------------------------------------------------------------------------

/// What `ui_render` does.
pub const UI_RENDER_TEXT: &'static str = "Render HTML content or a local URL in a sandboxed webview frame. Returns a frame_id for subsequent updates or snapshots. The webview opens in the user's browser at the /ui endpoint. Use 'html' for agent-generated content (forms, tables, charts) or 'src' for dev server previews (e.g. http://localhost:5173). Elements with a data-emit attribute automatically send click events back — no JavaScript required for basic interactivity.";

/// The `css` parameter of `ui_render`.
pub const UI_RENDER_CSS: &'static str = "CSS to inject as a <style> block. Only used with 'html'.";

/// The `frame_id` parameter of `ui_render`.
pub const UI_RENDER_FRAME_ID: &'static str = "Reuse an existing frame instead of creating a new one. If omitted, a new frame_id is generated.";

/// The `height` parameter of `ui_render`.
pub const UI_RENDER_HEIGHT: &'static str = "Frame height in pixels. Default: 600.";

/// The `html` parameter of `ui_render`.
pub const UI_RENDER_HTML: &'static str = "Raw HTML content to render. Mutually exclusive with 'src'.";

/// The `js` parameter of `ui_render`.
pub const UI_RENDER_JS: &'static str = "JavaScript to inject. Only used with 'html'. Receives ui_push payloads via window.addEventListener('clawshake', e => e.detail).";

/// The `src` parameter of `ui_render`.
pub const UI_RENDER_SRC: &'static str = "Local URL to render (e.g. 'http://localhost:5173' for a dev server). Mutually exclusive with 'html'.";

/// The `title` parameter of `ui_render`.
pub const UI_RENDER_TITLE: &'static str = "Display title for the frame tab. Default: 'Agent UI'.";

/// The `width` parameter of `ui_render`.
pub const UI_RENDER_WIDTH: &'static str = "Frame width in pixels. Default: 800.";

/// What `ui_push` does.
pub const UI_PUSH_TEXT: &'static str = "Push a partial update to an open webview frame without re-rendering. The data is delivered via postMessage to the frame's JavaScript. If 'selector' is provided, the matched element's innerHTML is replaced with data.html automatically. For custom handling, listen for the 'clawshake' event: window.addEventListener('clawshake', e => console.log(e.detail)).";

/// The `data` parameter of `ui_push`.
pub const UI_PUSH_DATA: &'static str = "Arbitrary JSON payload delivered to the frame.";

/// The `frame_id` parameter of `ui_push`.
pub const UI_PUSH_FRAME_ID: &'static str = "Target frame ID from a prior ui_render call.";

/// The `selector` parameter of `ui_push`.
pub const UI_PUSH_SELECTOR: &'static str = "Optional CSS selector. If provided along with data.html, replaces the element's innerHTML.";

/// What `ui_snapshot` does.
pub const UI_SNAPSHOT_TEXT: &'static str = "Capture the current content of an open webview frame. Returns DOM text or HTML for verification. Only works for broker-served frames (html mode), not external src URLs due to cross-origin restrictions.";

/// The `format` parameter of `ui_snapshot`.
pub const UI_SNAPSHOT_FORMAT: &'static str = "Output format. 'text' returns innerText, 'html' returns outerHTML. Default: 'text'.";

/// The `frame_id` parameter of `ui_snapshot`.
pub const UI_SNAPSHOT_FRAME_ID: &'static str = "Target frame ID.";

/// What `ui_close` does.
pub const UI_CLOSE_TEXT: &'static str = "Close an open webview frame and remove it from the display.";

/// The `frame_id` parameter of `ui_close`.
pub const UI_CLOSE_FRAME_ID: &'static str = "Frame ID to close.";

/// The definition of `ui_render`.
pub open spec fn ui_render_definition() -> JsonView {
    definition(
        "ui_render"@,
        UI_RENDER_TEXT@,
        JsonView::object()
            .with("css"@, typed("string"@, UI_RENDER_CSS@))
            .with("frame_id"@, typed("string"@, UI_RENDER_FRAME_ID@))
            .with("height"@, typed("number"@, UI_RENDER_HEIGHT@))
            .with("html"@, typed("string"@, UI_RENDER_HTML@))
            .with("js"@, typed("string"@, UI_RENDER_JS@))
            .with("src"@, typed("string"@, UI_RENDER_SRC@))
            .with("title"@, typed("string"@, UI_RENDER_TITLE@))
            .with("width"@, typed("number"@, UI_RENDER_WIDTH@)),
        None,
    )
}

/// The definition of `ui_push`.
pub open spec fn ui_push_definition() -> JsonView {
    definition(
        "ui_push"@,
        UI_PUSH_TEXT@,
        JsonView::object()
            .with("data"@, untyped(UI_PUSH_DATA@))
            .with("frame_id"@, typed("string"@, UI_PUSH_FRAME_ID@))
            .with("selector"@, typed("string"@, UI_PUSH_SELECTOR@)),
        Some(seq!["frame_id"@, "data"@]),
    )
}

/// The definition of `ui_snapshot`.
pub open spec fn ui_snapshot_definition() -> JsonView {
    definition(
        "ui_snapshot"@,
        UI_SNAPSHOT_TEXT@,
        JsonView::object()
            .with("format"@, choice("text"@, "html"@, UI_SNAPSHOT_FORMAT@))
            .with("frame_id"@, typed("string"@, UI_SNAPSHOT_FRAME_ID@)),
        Some(seq!["frame_id"@]),
    )
}

/// The definition of `ui_close`.
pub open spec fn ui_close_definition() -> JsonView {
    definition(
        "ui_close"@,
        UI_CLOSE_TEXT@,
        JsonView::object()
            .with("frame_id"@, typed("string"@, UI_CLOSE_FRAME_ID@)),
        Some(seq!["frame_id"@]),
    )
}

/// The definition of `ui_render`.
fn define_ui_render() -> (r: Json)
    ensures
        r@ == ui_render_definition(),
{
    define(
        "ui_render",
        UI_RENDER_TEXT,
        Json::object()
            .with("css", typed_schema("string", UI_RENDER_CSS))
            .with("frame_id", typed_schema("string", UI_RENDER_FRAME_ID))
            .with("height", typed_schema("number", UI_RENDER_HEIGHT))
            .with("html", typed_schema("string", UI_RENDER_HTML))
            .with("js", typed_schema("string", UI_RENDER_JS))
            .with("src", typed_schema("string", UI_RENDER_SRC))
            .with("title", typed_schema("string", UI_RENDER_TITLE))
            .with("width", typed_schema("number", UI_RENDER_WIDTH)),
        None,
    )
}

/// The definition of `ui_push`.
fn define_ui_push() -> (r: Json)
    ensures
        r@ == ui_push_definition(),
{
    let mut required: Vec<String> = Vec::new();
    required.push("frame_id".to_owned());
    required.push("data".to_owned());
    assert(texts_view(required@) =~= seq!["frame_id"@, "data"@]);
    define(
        "ui_push",
        UI_PUSH_TEXT,
        Json::object()
            .with("data", untyped_schema(UI_PUSH_DATA))
            .with("frame_id", typed_schema("string", UI_PUSH_FRAME_ID))
            .with("selector", typed_schema("string", UI_PUSH_SELECTOR)),
        Some(required),
    )
}

/// The definition of `ui_snapshot`.
fn define_ui_snapshot() -> (r: Json)
    ensures
        r@ == ui_snapshot_definition(),
{
    let mut required: Vec<String> = Vec::new();
    required.push("frame_id".to_owned());
    assert(texts_view(required@) =~= seq!["frame_id"@]);
    define(
        "ui_snapshot",
        UI_SNAPSHOT_TEXT,
        Json::object()
            .with("format", choice_schema("text", "html", UI_SNAPSHOT_FORMAT))
            .with("frame_id", typed_schema("string", UI_SNAPSHOT_FRAME_ID)),
        Some(required),
    )
}

/// The definition of `ui_close`.
fn define_ui_close() -> (r: Json)
    ensures
        r@ == ui_close_definition(),
{
    let mut required: Vec<String> = Vec::new();
    required.push("frame_id".to_owned());
    assert(texts_view(required@) =~= seq!["frame_id"@]);
    define(
        "ui_close",
        UI_CLOSE_TEXT,
        Json::object()
            .with("frame_id", typed_schema("string", UI_CLOSE_FRAME_ID)),
        Some(required),
    )
}

/// The definitions of the webview tools.
pub open spec fn webview_definitions() -> Seq<JsonView> {
    seq![ui_render_definition(), ui_push_definition(), ui_snapshot_definition(), ui_close_definition()]
}

/// The definitions of the webview tools.
pub fn webview_tool_definitions() -> (r: Vec<Json>)
    ensures
        items_view(r@) == webview_definitions(),
{
    let mut out: Vec<Json> = Vec::new();
    out.push(define_ui_render());
    out.push(define_ui_push());
    out.push(define_ui_snapshot());
    out.push(define_ui_close());
    assert(items_view(out@) =~= webview_definitions());
    out
}

// ---------------------------------------------------------------------------
// Laws
// ---------------------------------------------------------------------------

/// What is rendered is served: an inline frame at its URL, a frame with a
/// source at that source.
pub proof fn law_rendered_frame_is_there(
    arguments: JsonView,
    frame_id: Seq<char>,
    port: nat,
    before: StoreView,
    after: StoreView,
    r: (String, WsOutgoing),
)
    requires
        render_refusal(arguments) is None,
        render_done(arguments, frame_id, port, before, after, r),
    ensures
        after.frames.contains_key(frame_id),
        after.frames[frame_id] == rendered_frame(arguments),
        forall|other: Seq<char>| other != frame_id ==> before.frames.contains_key(other)
            == after.frames.contains_key(other) && (before.frames.contains_key(other) ==> after.frames[other]
            == before.frames[other]),
        after.snapshots == before.snapshots,
        push_refusal(JsonView::object().with("frame_id"@, JsonView::Text(frame_id)), after.frames) is None,
{
    let args = JsonView::object().with("frame_id"@, JsonView::Text(frame_id));
    assert(args->Object_0.last() == ("frame_id"@, JsonView::Text(frame_id)));
    assert(args.member("frame_id"@) == Some(JsonView::Text(frame_id)));
}

/// An answer to a snapshot request is passed on at most once.
pub proof fn law_snapshots_are_answered_once(
    request_id: Seq<char>,
    result: Option<Seq<char>>,
    error: Option<Seq<char>>,
    store: StoreView,
    queue: QueueView,
    ts: Seq<char>,
    order: Seq<Seq<char>>,
    port: nat,
    r: Reaction,
)
    ensures
        ({
            let m = IncomingView::SnapshotResponse { request_id, result, error };
            let after = after_message(m, store, queue, ts).0;
            reacts(m, after, order, port, r) ==> r is Done
        }),
{
}

/// A frame is made as the caller asked: from its HTML, CSS and JavaScript, or
/// from a source, under its title and in its size; without a title or a size,
/// under `Agent UI` and in 800 by 600.
pub proof fn law_frames_are_made_as_asked(arguments: JsonView)
    requires
        render_refusal(arguments) is None,
    ensures
        ({
            let f = rendered_frame(arguments);
            &&& match f.content {
                ContentView::Inline { html, css, js } => {
                    &&& arguments.text_at("html"@) == Some(html)
                    &&& arguments.text_at("css"@) is Some ==> arguments.text_at("css"@) == Some(css)
                    &&& arguments.text_at("css"@) is None ==> css.len() == 0
                    &&& arguments.text_at("js"@) is Some ==> arguments.text_at("js"@) == Some(js)
                    &&& arguments.text_at("js"@) is None ==> js.len() == 0
                },
                ContentView::Src(url) => arguments.text_at("src"@) == Some(url) && arguments.text_at("html"@) is None,
            }
            &&& arguments.text_at("title"@) is Some ==> f.title == arguments.text_at("title"@)->0
            &&& arguments.text_at("title"@) is None ==> f.title == "Agent UI"@
            &&& arguments.natural_at("width"@) is Some && 0 <= arguments.natural_at("width"@)->0 <= u32::MAX ==> f.width
                == arguments.natural_at("width"@)->0
            &&& arguments.natural_at("height"@) is Some && 0 <= arguments.natural_at("height"@)->0 <= u32::MAX
                ==> f.height == arguments.natural_at("height"@)->0
            &&& arguments.natural_at("width"@) is None ==> f.width == 800
            &&& arguments.natural_at("height"@) is None ==> f.height == 600
        }),
{
    reveal_strlit("");
    assert(""@.len() == 0);
}

/// A frame is refused exactly where both its HTML and a source are given, or
/// neither is.
pub proof fn law_frames_have_one_content(arguments: JsonView)
    ensures
        render_refusal(arguments) is None <==> (arguments.text_at("html"@) is Some) != (arguments.text_at(
            "src"@,
        ) is Some),
{
}

/// The document of a frame holds the caller's HTML, CSS and JavaScript, the
/// last two in their own elements, and the content security policy before them.
pub proof fn law_documents_hold_what_was_given(html: Seq<char>, css: Seq<char>, js: Seq<char>)
    ensures
        occurs(inline_frame(html, css, js), html),
        css.len() > 0 ==> occurs(inline_frame(html, css, js), "<style>"@ + css + "</style>"@),
        js.len() > 0 ==> occurs(inline_frame(html, css, js), "<script>"@ + js + "</script>"@),
        occurs(inline_frame(html, css, js), INLINE_CSP@),
        occurs(inline_frame(html, css, js), SNAPSHOT_SCRIPT@),
{
    let doc = inline_frame(html, css, js);
    let head =
        "<!DOCTYPE html>\n<html>\n<head>\n<meta charset=\"utf-8\">\n<meta http-equiv=\"Content-Security-Policy\" content=\""@;
    let style = block("<style>"@, css, "</style>"@);
    let script = block("<script>"@, js, "</script>"@);
    let open = "\n</head>\n<body>\n"@;
    let close = "\n</body>\n</html>"@;
    let quote = "\">\n"@;
    let line = "\n"@;
    lemma_occurs_between(head, INLINE_CSP@, quote + style + open + html + line + SNAPSHOT_SCRIPT@ + line + script + close);
    assert(head + INLINE_CSP@ + (quote + style + open + html + line + SNAPSHOT_SCRIPT@ + line + script + close) =~= doc);
    lemma_occurs_between(head + INLINE_CSP@ + quote, style, open + html + line + SNAPSHOT_SCRIPT@ + line + script + close);
    assert(head + INLINE_CSP@ + quote + style + (open + html + line + SNAPSHOT_SCRIPT@ + line + script + close) =~= doc);
    lemma_occurs_between(
        head + INLINE_CSP@ + quote + style + open,
        html,
        line + SNAPSHOT_SCRIPT@ + line + script + close,
    );
    assert(head + INLINE_CSP@ + quote + style + open + html + (line + SNAPSHOT_SCRIPT@ + line + script + close) =~= doc);
    lemma_occurs_between(
        head + INLINE_CSP@ + quote + style + open + html + line,
        SNAPSHOT_SCRIPT@,
        line + script + close,
    );
    assert(head + INLINE_CSP@ + quote + style + open + html + line + SNAPSHOT_SCRIPT@ + (line + script + close) =~= doc);
    lemma_occurs_between(
        head + INLINE_CSP@ + quote + style + open + html + line + SNAPSHOT_SCRIPT@ + line,
        script,
        close,
    );
    assert(head + INLINE_CSP@ + quote + style + open + html + line + SNAPSHOT_SCRIPT@ + line + script + close =~= doc);
}

/// An inline frame is found at the broker, under its identifier; any other at
/// its own source.
pub proof fn law_frames_are_found(port: nat, frame_id: Seq<char>, content: ContentView)
    ensures
        content is Src ==> frame_src(port, frame_id, content) == content->Src_0,
        content is Inline ==> frame_src(port, frame_id, content) == "http://127.0.0.1:"@ + decimal(port)
            + "/ui/frame/"@ + frame_id,
{
}

/// A host page that connects is shown every open frame, each once.
pub proof fn law_every_frame_is_replayed(
    port: nat,
    frames: Map<Seq<char>, FrameView>,
    order: Seq<Seq<char>>,
    frame_id: Seq<char>,
)
    requires
        order.contains(frame_id),
    ensures
        replayed(port, frames, order).len() == order.len(),
        replayed(port, frames, order).contains(
            render_json(frame_id, frame_src(port, frame_id, frames[frame_id].content), frames[frame_id]),
        ),
{
    let i = choose|i: int| 0 <= i < order.len() && order[i] == frame_id;
    assert(replayed(port, frames, order)[i] == render_json(
        frame_id,
        frame_src(port, frame_id, frames[frame_id].content),
        frames[frame_id],
    ));
}

/// What a user does in a frame becomes an event on that frame's topic, which
/// says what was done, to what and with what; nothing else changes.
pub proof fn law_interactions_become_events(
    frame_id: Seq<char>,
    event: Seq<char>,
    id: Seq<char>,
    data: JsonView,
    store: StoreView,
    queue: QueueView,
    ts: Seq<char>,
)
    ensures
        ({
            let m = IncomingView::Interaction { frame_id, event, id, data };
            let (s, q) = after_message(m, store, queue, ts);
            let e = q.events.last();
            &&& s == store
            &&& q.events.len() > 0
            &&& e.topic == frame_topic(frame_id)
            &&& e.ts == ts
            &&& e.data.text_at("frame_id"@) == Some(frame_id)
            &&& e.data.text_at("event"@) == Some(event)
            &&& e.data.text_at("id"@) == Some(id)
            &&& e.data.member("data"@) == Some(data)
        }),
{
    crate::messages::law_frames_get_their_messages(frame_id, data, Seq::empty(), Seq::empty(), event, id);
}

/// A frame that the user closes is gone, and no other is.
pub proof fn law_closed_frames_are_gone(
    frame_id: Seq<char>,
    other: Seq<char>,
    store: StoreView,
    queue: QueueView,
    ts: Seq<char>,
)
    ensures
        ({
            let (s, q) = after_message(IncomingView::Close { frame_id }, store, queue, ts);
            &&& !s.frames.contains_key(frame_id)
            &&& other != frame_id ==> (s.frames.contains_key(other) <==> store.frames.contains_key(other))
            &&& s.snapshots == store.snapshots && s.lists == store.lists
            &&& q == queue
        }),
{
}

/// A snapshot that is waited for is passed on: its text where there is one,
/// else its error.  One that nobody waits for is not.
pub proof fn law_snapshots_are_passed_on(
    request_id: Seq<char>,
    result: Option<Seq<char>>,
    error: Option<Seq<char>>,
    store: StoreView,
    order: Seq<Seq<char>>,
    port: nat,
    r: Reaction,
)
    requires
        reacts(IncomingView::SnapshotResponse { request_id, result, error }, store, order, port, r),
    ensures
        store.snapshots.contains(request_id) ==> r is Snapshot && r->Snapshot_request_id@ == request_id,
        store.snapshots.contains(request_id) && result is Some ==> r->Snapshot_outcome is Ok
            && r->Snapshot_outcome->Ok_0@ == result->0,
        store.snapshots.contains(request_id) && result is None ==> r->Snapshot_outcome is Err,
        store.snapshots.contains(request_id) && result is None && error is Some ==> r->Snapshot_outcome->Err_0@
            == error->0,
        !store.snapshots.contains(request_id) ==> r is Done,
{
}

/// What is pushed to a frame is what the caller gave, with the selector added
/// where it is an object.
pub proof fn law_pushes_deliver_what_was_given(arguments: JsonView, key: Seq<char>)
    requires
        arguments.member("data"@) is Some,
        arguments.member("data"@)->0 is Object,
    ensures
        arguments.text_at("selector"@) is None ==> pushed_data(arguments) == arguments.member("data"@)->0,
        arguments.text_at("selector"@) is Some ==> pushed_data(arguments).text_at("selector"@) == arguments.text_at(
            "selector"@,
        ),
        arguments.text_at("selector"@) is Some && key != "selector"@ ==> pushed_data(arguments).member(key)
            == arguments.member("data"@)->0.member(key),
{
    if arguments.text_at("selector"@) is Some {
        lemma_put(
            arguments.member("data"@)->0->Object_0,
            "selector"@,
            JsonView::Text(arguments.text_at("selector"@)->0),
            key,
        );
    }
}

/// A push or a snapshot needs an open frame; a snapshot comes as text or HTML.
pub proof fn law_frames_must_be_open(arguments: JsonView, frames: Map<Seq<char>, FrameView>)
    ensures
        push_refusal(arguments, frames) is None <==> arguments.text_at("frame_id"@) is Some && frames.contains_key(
            arguments.text_at("frame_id"@)->0,
        ),
        snapshot_refusal(arguments, frames) is None <==> arguments.text_at("frame_id"@) is Some && frames.contains_key(
            arguments.text_at("frame_id"@)->0,
        ) && arguments.text_at("format"@) != Some("screenshot"@),
{
    reveal_strlit("text");
    reveal_strlit("screenshot");
    assert("text"@.len() == 4 && "screenshot"@.len() == 10);
}

/// A message of the host page is read by its kind, with what its fields say.
pub proof fn law_host_messages_are_read(
    j: JsonView,
    frame_id: Seq<char>,
    event: Seq<char>,
    id: Seq<char>,
    request_id: Seq<char>,
)
    ensures
        j.text_field("frame_id"@) == Field::Value(frame_id) ==> incoming_from("close"@, j) == Some(
            IncomingView::Close { frame_id },
        ),
        j.text_field("frame_id"@) == Field::Value(frame_id) && j.text_field("event"@) == Field::Value(event)
            && j.text_field("id"@) == Field::Value(id) && j.member("data"@) is Some ==> incoming_from(
            "interaction"@,
            j,
        ) == Some(IncomingView::Interaction { frame_id, event, id, data: j.member("data"@)->0 }),
        j.text_field("request_id"@) == Field::Value(request_id) && j.member("windows"@) is Some ==> incoming_from(
            "window_list_response"@,
            j,
        ) == Some(IncomingView::WindowListResponse { request_id, windows: j.member("windows"@)->0 }),
        j.text_field("request_id"@) == Field::Value(request_id) && optional_text(j, "result"@) is Value
            && optional_text(j, "error"@) is Value ==> incoming_from("snapshot_response"@, j) == Some(
            IncomingView::SnapshotResponse {
                request_id,
                result: optional_text(j, "result"@)->Value_0,
                error: optional_text(j, "error"@)->Value_0,
            },
        ),
        incoming_from("replay_request"@, j) == Some(IncomingView::ReplayRequest),
{
    reveal_strlit("interaction");
    reveal_strlit("close");
    reveal_strlit("snapshot_response");
    reveal_strlit("window_list_response");
    reveal_strlit("replay_request");
    assert("interaction"@.len() == 11 && "close"@.len() == 5 && "snapshot_response"@.len() == 17
        && "window_list_response"@.len() == 20 && "replay_request"@.len() == 14);
}

/// A message of the host is read by its type, whether its fields have names or
/// stand in their order; one that is too long is not read.
pub proof fn law_host_messages_are_told_by_their_type(
    j: JsonView,
    kind: Seq<char>,
    text: Seq<char>,
    frame_id: Seq<char>,
    event: Seq<char>,
    id: Seq<char>,
)
    ensures
        !(j is Array) && j.text_field("type"@) == Field::Value(kind) ==> read_incoming(j) == incoming_from(kind, j),
        !(j is Array) && !(j.text_field("type"@) is Value) ==> read_incoming(j) is None,
        read_incoming(JsonView::Array(seq![JsonView::Text("close"@), JsonView::Text(frame_id)])) == Some(
            IncomingView::Close { frame_id },
        ),
        read_incoming(
            JsonView::Array(
                seq![
                    JsonView::Text("interaction"@),
                    JsonView::Text(frame_id),
                    JsonView::Text(event),
                    JsonView::Text(id),
                ],
            ),
        ) == Some(IncomingView::Interaction { frame_id, event, id, data: JsonView::Null }),
        vstd::utf8::encode_utf8(text).len() > 65536 ==> incoming(text) is None,
        vstd::utf8::encode_utf8(text).len() <= 65536 && parsed(vstd::utf8::encode_utf8(text)) == Some(j)
            ==> incoming(text) == read_incoming(j),
        parsed(vstd::utf8::encode_utf8(text)) is None ==> incoming(text) is None,
{
    reveal_strlit("interaction");
    reveal_strlit("close");
    assert("interaction"@.len() == 11 && "close"@.len() == 5);
    reveal_strlit("frame_id");
    reveal_strlit("event");
    reveal_strlit("id");
    reveal_strlit("data");
    assert("frame_id"@.len() == 8 && "event"@.len() == 5 && "id"@.len() == 2 && "data"@.len() == 4);
    let one = seq![JsonView::Text("close"@), JsonView::Text(frame_id)];
    let members = seq![("frame_id"@, JsonView::Text(frame_id))];
    assert(placed(one.skip(1), incoming_names("close"@))->Object_0 =~= members);
    reveal_with_fuel(lookup, 5);
    assert(members.drop_last() =~= Seq::empty());
    let three = seq![
        JsonView::Text("interaction"@),
        JsonView::Text(frame_id),
        JsonView::Text(event),
        JsonView::Text(id),
    ];
    let first = seq![("frame_id"@, JsonView::Text(frame_id))];
    let second = first.push(("event"@, JsonView::Text(event)));
    let all = second.push(("id"@, JsonView::Text(id)));
    assert(placed(three.skip(1), incoming_names("interaction"@))->Object_0 =~= all);
    assert(all.drop_last() =~= second);
    assert(second.drop_last() =~= first);
    assert(first.drop_last() =~= Seq::empty());
}

/// A list of windows goes to the call that waits for it, which waits no longer;
/// one that nobody waits for is dropped.
pub proof fn law_window_lists_are_passed_on(
    request_id: Seq<char>,
    windows: JsonView,
    store: StoreView,
    order: Seq<Seq<char>>,
    port: nat,
    r: Reaction,
    queue: QueueView,
    ts: Seq<char>,
    other: Seq<char>,
)
    requires
        reacts(IncomingView::WindowListResponse { request_id, windows }, store, order, port, r),
    ensures
        store.lists.contains(request_id) ==> r is Windows && r->Windows_request_id@ == request_id
            && r->Windows_windows@ == windows,
        !store.lists.contains(request_id) ==> r is Done,
        ({
            let (after, events) = after_message(
                IncomingView::WindowListResponse { request_id, windows },
                store,
                queue,
                ts,
            );
            &&& !after.lists.contains(request_id)
            &&& other != request_id ==> after.lists.contains(other) == store.lists.contains(other)
            &&& after.frames == store.frames
            &&& after.snapshots == store.snapshots
            &&& events == queue
        }),
{
}

} // verus!
