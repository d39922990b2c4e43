//! The `window_*` tools: native windows, or browser tabs.
//!
//! Each tool sends a message to the connected host pages.
use vstd::prelude::*;

use crate::ids::{new_uuid, uuid_shaped};
use crate::json::{items_view, printed, texts_view, Json, JsonView};
use crate::schema::{define, definition, typed, typed_schema};
use crate::text::chars_of;
use crate::webview::{
    low_half, low_half_of, ok_json, ok_text, size_or, size_or_default, text_or, text_or_default, window_close_json,
    window_focus_json, window_list_json, window_notify_json, window_open_json, window_resize_json,
    window_set_title_json, FrameStore, StoreView, WsOutgoing,
};

verus! {

/// The URL of a new window: the one given, or the host page for its label.
pub open spec fn window_url(arguments: JsonView) -> Seq<char> {
    let url = text_or(arguments, "url"@, ""@);
    if url.len() == 0 {
        "/ui?window="@ + text_or(arguments, "label"@, "new"@)
    } else {
        url
    }
}

/// Handles `window_open`: opens a new window or tab.
pub fn handle_open(arguments: &Json) -> (r: (String, WsOutgoing))
    ensures
        r.0@ == printed(
            JsonView::object().with("label"@, JsonView::Text(text_or(arguments@, "label"@, "new"@))).with(
                "ok"@,
                JsonView::Bool(true),
            ),
        ),
        r.1@ == window_open_json(
            text_or(arguments@, "label"@, "new"@),
            text_or(arguments@, "title"@, "clawshake"@),
            window_url(arguments@),
            size_or(arguments@, "width"@, 1200),
            size_or(arguments@, "height"@, 800),
        ),
{
    let label = text_or_default(arguments, "label", "new");
    let title = text_or_default(arguments, "title", "clawshake");
    let given = text_or_default(arguments, "url", "");
    let url = if chars_of(given.as_str()).len() == 0 {
        let mut u = "/ui?window=".to_owned();
        u.push_str(label.as_str());
        u
    } else {
        given
    };
    let width: u32 = size_or_default(arguments, "width", 1200);
    let height: u32 = size_or_default(arguments, "height", 800);
    let reply = Json::object().with("label", Json::text(label.as_str())).with("ok", Json::Bool(true)).to_text();
    (reply, WsOutgoing::WindowOpen { label, title, url, width, height })
}

/// Handles `window_close`: closes a window.
pub fn handle_close(arguments: &Json) -> (r: (String, WsOutgoing))
    ensures
        r.0@ == printed(ok_json()),
        r.1@ == window_close_json(text_or(arguments@, "label"@, "main"@)),
{
    (ok_text(), WsOutgoing::WindowClose { label: text_or_default(arguments, "label", "main") })
}

/// Handles `window_resize`: resizes a window.
pub fn handle_resize(arguments: &Json) -> (r: Result<(String, WsOutgoing), String>)
    ensures
        match (arguments@.natural_at("width"@), arguments@.natural_at("height"@)) {
            (None, _) => r is Err && r->Err_0@ == "missing required field: width"@,
            (Some(_), None) => r is Err && r->Err_0@ == "missing required field: height"@,
            (Some(w), Some(h)) => r is Ok && r->Ok_0.0@ == printed(ok_json()) && r->Ok_0.1@ == window_resize_json(
                text_or(arguments@, "label"@, "main"@),
                low_half(w),
                low_half(h),
            ),
        },
{
    let label = text_or_default(arguments, "label", "main");
    let width: u32 = match arguments.u64_at("width") {
        Some(w) => low_half_of(w),
        None => return Err("missing required field: width".to_owned()),
    };
    let height: u32 = match arguments.u64_at("height") {
        Some(h) => low_half_of(h),
        None => return Err("missing required field: height".to_owned()),
    };
    Ok((ok_text(), WsOutgoing::WindowResize { label, width, height }))
}

/// Handles `window_set_title`: changes a window's title.
pub fn handle_set_title(arguments: &Json) -> (r: Result<(String, WsOutgoing), String>)
    ensures
        match arguments@.text_at("title"@) {
            None => r is Err && r->Err_0@ == "missing required field: title"@,
            Some(t) => r is Ok && r->Ok_0.0@ == printed(ok_json()) && r->Ok_0.1@ == window_set_title_json(
                text_or(arguments@, "label"@, "main"@),
                t,
            ),
        },
{
    let label = text_or_default(arguments, "label", "main");
    match arguments.str_at("title") {
        Some(t) => Ok((ok_text(), WsOutgoing::WindowSetTitle { label, title: t.to_owned() })),
        None => Err("missing required field: title".to_owned()),
    }
}

/// Handles `window_focus`: brings a window to the front.
pub fn handle_focus(arguments: &Json) -> (r: (String, WsOutgoing))
    ensures
        r.0@ == printed(ok_json()),
        r.1@ == window_focus_json(text_or(arguments@, "label"@, "main"@)),
{
    (ok_text(), WsOutgoing::WindowFocus { label: text_or_default(arguments, "label", "main") })
}

/// Handles `window_notify`: shows a system notification.
pub fn handle_notify(arguments: &Json) -> (r: Result<(String, WsOutgoing), String>)
    ensures
        match arguments@.text_at("title"@) {
            None => r is Err && r->Err_0@ == "missing required field: title"@,
            Some(t) => r is Ok && r->Ok_0.0@ == printed(ok_json()) && r->Ok_0.1@ == window_notify_json(
                t,
                text_or(arguments@, "body"@, ""@),
            ),
        },
{
    match arguments.str_at("title") {
        Some(t) => Ok(
            (
                ok_text(),
                WsOutgoing::WindowNotify { title: t.to_owned(), body: text_or_default(arguments, "body", "") },
            ),
        ),
        None => Err("missing required field: title".to_owned()),
    }
}

/// What a `window_list` call does first.
pub enum ListStart {
    /// No host page is connected: this is the answer.
    Answer(String),
    /// The request with this identifier goes out.
    Ask { request_id: String, message: WsOutgoing },
}

/// The answer without windows.
pub open spec fn no_windows_json() -> JsonView {
    JsonView::object().with("windows"@, JsonView::Array(Seq::empty()))
}

/// An empty list.
fn empty_list() -> (r: Json)
    ensures
        r@ == JsonView::Array(Seq::empty()),
{
    let r = Json::array(Vec::new());
    assert(r@->Array_0 =~= Seq::empty());
    r
}

/// Handles `window_list`: asks the window server under a random identifier,
/// where one is connected.
pub fn handle_list(store: &mut FrameStore, connected: bool) -> (r: ListStart)
    requires
        old(store).wf(),
    ensures
        final(store).wf(),
        match r {
            ListStart::Answer(text) => !connected && text@ == printed(no_windows_json()) && final(store)@ == old(
                store,
            )@,
            ListStart::Ask { request_id, message } => connected && uuid_shaped(request_id@) && message@
                == window_list_json(request_id@) && final(store)@ == (StoreView {
                lists: old(store)@.lists.insert(request_id@),
                ..old(store)@
            }),
        },
{
    if !connected {
        return ListStart::Answer(Json::object().with("windows", empty_list()).to_text());
    }
    let request_id = new_uuid();
    store.register_list_request(request_id.as_str());
    let message = WsOutgoing::WindowListRequest { request_id: request_id.clone() };
    ListStart::Ask { request_id, message }
}

/// What the caller of `window_list` is answered: the windows, or none where no
/// answer came in time.
pub fn list_result(windows: Option<&Json>) -> (r: String)
    ensures
        r@ == printed(
            match windows {
                Some(w) => JsonView::object().with("windows"@, w@),
                None => JsonView::object().with("note"@, JsonView::Text("timeout"@)).with(
                    "windows"@,
                    JsonView::Array(Seq::empty()),
                ),
            },
        ),
{
    match windows {
        Some(w) => Json::object().with("windows", w.clone()).to_text(),
        None => Json::object().with("note", Json::text("timeout")).with("windows", empty_list()).to_text(),
    }
}

// ---------------------------------------------------------------------------
// Definitions
// ---------------------------------------------------------------------------

/// What `window_open` does.
pub const WINDOW_OPEN_TEXT: &'static str = "Open a new native window (when running in clawshake-window) or browser tab (in browser mode). Use this to create additional windows for dashboards, monitors, or setup wizards.";

/// The `height` parameter of `window_open`.
pub const WINDOW_OPEN_HEIGHT: &'static str = "Window height in pixels. Default: 800.";

/// The `label` parameter of `window_open`.
pub const WINDOW_OPEN_LABEL: &'static str = "Unique label for the window. Used to reference it in other window_* calls. Default: 'new'.";

/// The `title` parameter of `window_open`.
pub const WINDOW_OPEN_TITLE: &'static str = "Window title bar text. Default: 'clawshake'.";

/// The `url` parameter of `window_open`.
pub const WINDOW_OPEN_URL: &'static str = "URL to load in the window. Defaults to /ui?window=<label>, which shows only frames targeted at this window (plus untagged frames).";

/// The `width` parameter of `window_open`.
pub const WINDOW_OPEN_WIDTH: &'static str = "Window width in pixels. Default: 1200.";

/// What `window_close` does.
pub const WINDOW_CLOSE_TEXT: &'static str = "Close a native window by its label. In browser mode, this is a no-op. Closing the 'main' window will shut down the application in native mode.";

/// The `label` parameter of `window_close`.
pub const WINDOW_CLOSE_LABEL: &'static str = "Window label to close. Default: 'main'.";

/// What `window_resize` does.
pub const WINDOW_RESIZE_TEXT: &'static str = "Resize a native window. In browser mode, this is a no-op (browser windows cannot be resized programmatically).";

/// The `height` parameter of `window_resize`.
pub const WINDOW_RESIZE_HEIGHT: &'static str = "New height in pixels.";

/// The `label` parameter of `window_resize`.
pub const WINDOW_RESIZE_LABEL: &'static str = "Window label to resize. Default: 'main'.";

/// The `width` parameter of `window_resize`.
pub const WINDOW_RESIZE_WIDTH: &'static str = "New width in pixels.";

/// What `window_set_title` does.
pub const WINDOW_SET_TITLE_TEXT: &'static str = "Change the title bar text of a native window. In browser mode, changes document.title instead.";

/// The `label` parameter of `window_set_title`.
pub const WINDOW_SET_TITLE_LABEL: &'static str = "Window label. Default: 'main'.";

/// The `title` parameter of `window_set_title`.
pub const WINDOW_SET_TITLE_TITLE: &'static str = "New title text.";

/// What `window_focus` does.
pub const WINDOW_FOCUS_TEXT: &'static str = "Bring a native window to the front. In browser mode, attempts window.focus().";

/// The `label` parameter of `window_focus`.
pub const WINDOW_FOCUS_LABEL: &'static str = "Window label to focus. Default: 'main'.";

/// What `window_notify` does.
pub const WINDOW_NOTIFY_TEXT: &'static str = "Show a system notification. Works in both native (Tauri) and browser mode (Web Notifications API, requires user permission). Use for alerting the user about background events.";

/// The `body` parameter of `window_notify`.
pub const WINDOW_NOTIFY_BODY: &'static str = "Notification body text.";

/// The `title` parameter of `window_notify`.
pub const WINDOW_NOTIFY_TITLE: &'static str = "Notification title.";

/// What `window_list` does.
pub const WINDOW_LIST_TEXT: &'static str = "List currently open windows. In browser mode, only the main tab is known. In native mode (clawshake-window), returns all open Tauri windows.";

/// The definition of `window_open`.
pub open spec fn window_open_definition() -> JsonView {
    definition(
        "window_open"@,
        WINDOW_OPEN_TEXT@,
        JsonView::object()
            .with("height"@, typed("number"@, WINDOW_OPEN_HEIGHT@))
            .with("label"@, typed("string"@, WINDOW_OPEN_LABEL@))
            .with("title"@, typed("string"@, WINDOW_OPEN_TITLE@))
            .with("url"@, typed("string"@, WINDOW_OPEN_URL@))
            .with("width"@, typed("number"@, WINDOW_OPEN_WIDTH@)),
        None,
    )
}

/// The definition of `window_close`.
pub open spec fn window_close_definition() -> JsonView {
    definition(
        "window_close"@,
        WINDOW_CLOSE_TEXT@,
        JsonView::object()
            .with("label"@, typed("string"@, WINDOW_CLOSE_LABEL@)),
        None,
    )
}

/// The definition of `window_resize`.
pub open spec fn window_resize_definition() -> JsonView {
    definition(
        "window_resize"@,
        WINDOW_RESIZE_TEXT@,
        JsonView::object()
            .with("height"@, typed("number"@, WINDOW_RESIZE_HEIGHT@))
            .with("label"@, typed("string"@, WINDOW_RESIZE_LABEL@))
            .with("width"@, typed("number"@, WINDOW_RESIZE_WIDTH@)),
        Some(seq!["width"@, "height"@]),
    )
}

/// The definition of `window_set_title`.
pub open spec fn window_set_title_definition() -> JsonView {
    definition(
        "window_set_title"@,
        WINDOW_SET_TITLE_TEXT@,
        JsonView::object()
            .with("label"@, typed("string"@, WINDOW_SET_TITLE_LABEL@))
            .with("title"@, typed("string"@, WINDOW_SET_TITLE_TITLE@)),
        Some(seq!["title"@]),
    )
}

/// The definition of `window_focus`.
pub open spec fn window_focus_definition() -> JsonView {
    definition(
        "window_focus"@,
        WINDOW_FOCUS_TEXT@,
        JsonView::object()
            .with("label"@, typed("string"@, WINDOW_FOCUS_LABEL@)),
        None,
    )
}

/// The definition of `window_notify`.
pub open spec fn window_notify_definition() -> JsonView {
    definition(
        "window_notify"@,
        WINDOW_NOTIFY_TEXT@,
        JsonView::object()
            .with("body"@, typed("string"@, WINDOW_NOTIFY_BODY@))
            .with("title"@, typed("string"@, WINDOW_NOTIFY_TITLE@)),
        Some(seq!["title"@]),
    )
}

/// The definition of `window_list`.
pub open spec fn window_list_definition() -> JsonView {
    definition(
        "window_list"@,
        WINDOW_LIST_TEXT@,
        JsonView::object(),
        None,
    )
}

/// The definition of `window_open`.
fn define_window_open() -> (r: Json)
    ensures
        r@ == window_open_definition(),
{
    define(
        "window_open",
        WINDOW_OPEN_TEXT,
        Json::object()
            .with("height", typed_schema("number", WINDOW_OPEN_HEIGHT))
            .with("label", typed_schema("string", WINDOW_OPEN_LABEL))
            .with("title", typed_schema("string", WINDOW_OPEN_TITLE))
            .with("url", typed_schema("string", WINDOW_OPEN_URL))
            .with("width", typed_schema("number", WINDOW_OPEN_WIDTH)),
        None,
    )
}

/// The definition of `window_close`.
fn define_window_close() -> (r: Json)
    ensures
        r@ == window_close_definition(),
{
    define(
        "window_close",
        WINDOW_CLOSE_TEXT,
        Json::object()
            .with("label", typed_schema("string", WINDOW_CLOSE_LABEL)),
        None,
    )
}

/// The definition of `window_resize`.
fn define_window_resize() -> (r: Json)
    ensures
        r@ == window_resize_definition(),
{
    let mut required: Vec<String> = Vec::new();
    required.push("width".to_owned());
    required.push("height".to_owned());
    assert(texts_view(required@) =~= seq!["width"@, "height"@]);
    define(
        "window_resize",
        WINDOW_RESIZE_TEXT,
        Json::object()
            .with("height", typed_schema("number", WINDOW_RESIZE_HEIGHT))
            .with("label", typed_schema("string", WINDOW_RESIZE_LABEL))
            .with("width", typed_schema("number", WINDOW_RESIZE_WIDTH)),
        Some(required),
    )
}

/// The definition of `window_set_title`.
fn define_window_set_title() -> (r: Json)
    ensures
        r@ == window_set_title_definition(),
{
    let mut required: Vec<String> = Vec::new();
    required.push("title".to_owned());
    assert(texts_view(required@) =~= seq!["title"@]);
    define(
        "window_set_title",
        WINDOW_SET_TITLE_TEXT,
        Json::object()
            .with("label", typed_schema("string", WINDOW_SET_TITLE_LABEL))
            .with("title", typed_schema("string", WINDOW_SET_TITLE_TITLE)),
        Some(required),
    )
}

/// The definition of `window_focus`.
fn define_window_focus() -> (r: Json)
    ensures
        r@ == window_focus_definition(),
{
    define(
        "window_focus",
        WINDOW_FOCUS_TEXT,
        Json::object()
            .with("label", typed_schema("string", WINDOW_FOCUS_LABEL)),
        None,
    )
}

/// The definition of `window_notify`.
fn define_window_notify() -> (r: Json)
    ensures
        r@ == window_notify_definition(),
{
    let mut required: Vec<String> = Vec::new();
    required.push("title".to_owned());
    assert(texts_view(required@) =~= seq!["title"@]);
    define(
        "window_notify",
        WINDOW_NOTIFY_TEXT,
        Json::object()
            .with("body", typed_schema("string", WINDOW_NOTIFY_BODY))
            .with("title", typed_schema("string", WINDOW_NOTIFY_TITLE)),
        Some(required),
    )
}

/// The definition of `window_list`.
fn define_window_list() -> (r: Json)
    ensures
        r@ == window_list_definition(),
{
    define(
        "window_list",
        WINDOW_LIST_TEXT,
        Json::object(),
        None,
    )
}

/// The definitions of the window tools.
pub open spec fn window_definitions() -> Seq<JsonView> {
    seq![window_open_definition(), window_close_definition(), window_resize_definition(), window_set_title_definition(), window_focus_definition(), window_notify_definition(), window_list_definition()]
}

/// The definitions of the window tools.
pub fn window_tool_definitions() -> (r: Vec<Json>)
    ensures
        items_view(r@) == window_definitions(),
{
    let mut out: Vec<Json> = Vec::new();
    out.push(define_window_open());
    out.push(define_window_close());
    out.push(define_window_resize());
    out.push(define_window_set_title());
    out.push(define_window_focus());
    out.push(define_window_notify());
    out.push(define_window_list());
    assert(items_view(out@) =~= window_definitions());
    out
}

/// A window opens at the URL that was given, or at the host page for its own
/// label.
pub proof fn law_windows_open_at_their_url(arguments: JsonView)
    ensures
        arguments.text_at("url"@) is Some && arguments.text_at("url"@)->0.len() > 0 ==> window_url(arguments)
            == arguments.text_at("url"@)->0,
        arguments.text_at("url"@) is None && arguments.text_at("label"@) is Some ==> window_url(arguments)
            == "/ui?window="@ + arguments.text_at("label"@)->0,
        arguments.text_at("url"@) is None && arguments.text_at("label"@) is None ==> window_url(arguments)
            == "/ui?window="@ + "new"@,
{
    reveal_strlit("");
    assert(""@.len() == 0);
}

} // verus!
