//! The streaming wire protocol, `/clawshake/stream/1.0.0`.
//!
//! A stream carries frames in both directions: chunks of data, the completion
//! of a request, and errors.  Each frame is a JSON object behind its length.
use vstd::prelude::*;

use crate::json::{
    canonical, json_option, lemma_member_added, lemma_member_kept, lemma_not_raw, lookup, names_rise, parsed, placed, printed,
    record_tag, strs_view, variant_fields, Field, Json, JsonNumber, JsonView, NumberView,
};
use crate::rpc::present;
use crate::text::{less_at, same, text_lt};

verus! {

/// The stream protocol identifier.
pub const STREAM_PROTOCOL: &'static str = "/clawshake/stream/1.0.0";

/// A frame.  Both sides may send any; `request_id` tells which exchange a
/// frame belongs to.
#[derive(Debug, PartialEq)]
pub enum StreamFrame {
    /// A chunk of data.
    Chunk { request_id: String, data: Json },
    /// The request is complete.
    Done { request_id: String, meta: Option<Json> },
    /// The request failed.
    Error { request_id: String, message: String, code: Option<i32> },
}

/// The model of [`StreamFrame`].
pub enum FrameView {
    Chunk { request_id: Seq<char>, data: JsonView },
    Done { request_id: Seq<char>, meta: Option<JsonView> },
    Error { request_id: Seq<char>, message: Seq<char>, code: Option<int> },
}

impl View for StreamFrame {
    type V = FrameView;

    open spec fn view(&self) -> FrameView {
        match self {
            StreamFrame::Chunk { request_id, data } => FrameView::Chunk { request_id: request_id@, data: data@ },
            StreamFrame::Done { request_id, meta } => FrameView::Done {
                request_id: request_id@,
                meta: json_option(*meta),
            },
            StreamFrame::Error { request_id, message, code } => FrameView::Error {
                request_id: request_id@,
                message: message@,
                code: match code {
                    Some(c) => Some(*c as int),
                    None => None,
                },
            },
        }
    }
}

/// An integer as JSON.
pub open spec fn integer(n: int) -> JsonView {
    if n >= 0 {
        JsonView::Number(NumberView::Unsigned(n))
    } else {
        JsonView::Number(NumberView::Negative(n))
    }
}

/// An integer as JSON.
fn integer_json(n: i32) -> (r: Json)
    ensures
        r@ == integer(n as int),
{
    if n >= 0 {
        Json::natural(n as u64)
    } else {
        Json::Number(JsonNumber::Negative(n as i64))
    }
}

/// A frame as JSON.
pub open spec fn frame_json(f: FrameView) -> JsonView {
    match f {
        FrameView::Chunk { request_id, data } => JsonView::object().with("data"@, data).with(
            "request_id"@,
            JsonView::Text(request_id),
        ).with("type"@, JsonView::Text("chunk"@)),
        FrameView::Done { request_id, meta } => {
            let start = match meta {
                Some(m) => JsonView::object().with("meta"@, m),
                None => JsonView::object(),
            };
            start.with("request_id"@, JsonView::Text(request_id)).with("type"@, JsonView::Text("done"@))
        },
        FrameView::Error { request_id, message, code } => {
            let start = match code {
                Some(c) => JsonView::object().with("code"@, integer(c)),
                None => JsonView::object(),
            };
            start.with("message"@, JsonView::Text(message)).with("request_id"@, JsonView::Text(request_id)).with(
                "type"@,
                JsonView::Text("error"@),
            )
        },
    }
}

/// The error code of a frame: none, or an integer of 32 bits.
pub open spec fn read_code(j: JsonView) -> Field<Option<int>> {
    match present(j, "code"@) {
        None => Field::Value(None),
        Some(JsonView::Number(NumberView::Unsigned(n))) => if n <= i32::MAX {
            Field::Value(Some(n))
        } else {
            Field::Wrong
        },
        Some(JsonView::Number(NumberView::Negative(n))) => if i32::MIN <= n <= i32::MAX {
            Field::Value(Some(n))
        } else {
            Field::Wrong
        },
        Some(_) => Field::Wrong,
    }
}

/// The names of the fields of a frame, in their order, behind its tag.
pub open spec fn frame_names(kind: Seq<char>) -> Seq<Seq<char>> {
    if kind == "chunk"@ {
        seq!["request_id"@, "data"@]
    } else if kind == "done"@ {
        seq!["request_id"@, "meta"@]
    } else {
        seq!["request_id"@, "message"@, "code"@]
    }
}

/// How many fields a frame has at least.
pub open spec fn frame_least(kind: Seq<char>) -> int {
    if kind == "done"@ {
        1
    } else {
        2
    }
}

/// The frame with this tag in the fields of a record, if it is one.
pub open spec fn frame_from(kind: Seq<char>, j: JsonView) -> Option<FrameView> {
    match j.text_field("request_id"@) {
        Field::Value(request_id) => if kind == "chunk"@ {
            match j.member("data"@) {
                Some(data) => Some(FrameView::Chunk { request_id, data }),
                None => None,
            }
        } else if kind == "done"@ {
            Some(FrameView::Done { request_id, meta: present(j, "meta"@) })
        } else if kind == "error"@ {
            match (j.text_field("message"@), read_code(j)) {
                (Field::Value(message), Field::Value(code)) => Some(FrameView::Error { request_id, message, code }),
                _ => None,
            }
        } else {
            None
        },
        _ => None,
    }
}

/// The frame in a JSON value, if it is one.
pub open spec fn read_frame(j: JsonView) -> Option<FrameView> {
    match record_tag(j, "type"@) {
        Field::Value(kind) => match variant_fields(j, frame_names(kind), frame_least(kind)) {
            Some(fields) => frame_from(kind, fields),
            None => None,
        },
        _ => None,
    }
}

impl StreamFrame {
    /// The request that the frame belongs to.
    pub fn request_id(&self) -> (r: &str)
        ensures
            r@ == (match self@ {
                FrameView::Chunk { request_id, .. } => request_id,
                FrameView::Done { request_id, .. } => request_id,
                FrameView::Error { request_id, .. } => request_id,
            }),
    {
        match self {
            StreamFrame::Chunk { request_id, .. } => request_id.as_str(),
            StreamFrame::Done { request_id, .. } => request_id.as_str(),
            StreamFrame::Error { request_id, .. } => request_id.as_str(),
        }
    }

    /// A request in one chunk.
    pub fn request(request_id: &str, data: Json) -> (r: StreamFrame)
        ensures
            r@ == (FrameView::Chunk { request_id: request_id@, data: data@ }),
    {
        StreamFrame::Chunk { request_id: request_id.to_owned(), data }
    }

    /// The completion of a request.
    pub fn done(request_id: &str) -> (r: StreamFrame)
        ensures
            r@ == (FrameView::Done { request_id: request_id@, meta: None }),
    {
        StreamFrame::Done { request_id: request_id.to_owned(), meta: None }
    }

    /// The completion of a request, with metadata.
    pub fn done_with_meta(request_id: &str, meta: Json) -> (r: StreamFrame)
        ensures
            r@ == (FrameView::Done { request_id: request_id@, meta: Some(meta@) }),
    {
        StreamFrame::Done { request_id: request_id.to_owned(), meta: Some(meta) }
    }

    /// The failure of a request.
    pub fn error(request_id: &str, message: &str, code: Option<i32>) -> (r: StreamFrame)
        ensures
            r@ == (FrameView::Error {
                request_id: request_id@,
                message: message@,
                code: match code {
                    Some(c) => Some(c as int),
                    None => None,
                },
            }),
    {
        StreamFrame::Error { request_id: request_id.to_owned(), message: message.to_owned(), code }
    }

    /// The frame as JSON.
    pub fn to_json(&self) -> (r: Json)
        ensures
            r@ == frame_json(self@),
    {
        match self {
            StreamFrame::Chunk { request_id, data } => Json::object().with("data", data.clone()).with(
                "request_id",
                Json::text(request_id.as_str()),
            ).with("type", Json::text("chunk")),
            StreamFrame::Done { request_id, meta } => {
                let start = match meta {
                    Some(m) => Json::object().with("meta", m.clone()),
                    None => Json::object(),
                };
                start.with("request_id", Json::text(request_id.as_str())).with("type", Json::text("done"))
            },
            StreamFrame::Error { request_id, message, code } => {
                let start = match code {
                    Some(c) => Json::object().with("code", integer_json(*c)),
                    None => Json::object(),
                };
                start.with("message", Json::text(message.as_str())).with(
                    "request_id",
                    Json::text(request_id.as_str()),
                ).with("type", Json::text("error"))
            },
        }
    }

    /// Reads a frame.
    pub fn from_json(j: &Json) -> (r: Option<StreamFrame>)
        ensures
            match r {
                Some(f) => read_frame(j@) == Some(f@),
                None => read_frame(j@) is None,
            },
    {
        let kind = match j.record_tag("type") {
            Field::Value(t) => t,
            _ => return None,
        };
        let chunk = same(kind.as_str(), "chunk");
        let done = same(kind.as_str(), "done");
        let names: Vec<&str> = if chunk {
            vec!["request_id", "data"]
        } else if done {
            vec!["request_id", "meta"]
        } else {
            vec!["request_id", "message", "code"]
        };
        assert(strs_view(names@) =~= frame_names(kind@));
        let least: usize = if done {
            1
        } else {
            2
        };
        let fields = match j.variant_fields(&names, least) {
            Some(f) => f,
            None => return None,
        };
        let j = &fields;
        let request_id = match j.text_field("request_id") {
            Field::Value(t) => t,
            _ => return None,
        };
        if chunk {
            match j.get("data") {
                Some(d) => Some(StreamFrame::Chunk { request_id, data: d.clone() }),
                None => None,
            }
        } else if done {
            let meta = match j.get("meta") {
                Some(Json::Null) => None,
                Some(m) => Some(m.clone()),
                None => None,
            };
            Some(StreamFrame::Done { request_id, meta })
        } else if same(kind.as_str(), "error") {
            let message = match j.text_field("message") {
                Field::Value(t) => t,
                _ => return None,
            };
            let code: Option<i32> = match j.get("code") {
                None => None,
                Some(Json::Null) => None,
                Some(Json::Number(JsonNumber::Unsigned(n))) => {
                    if *n <= 0x7fff_ffff {
                        Some(*n as i32)
                    } else {
                        return None;
                    }
                },
                Some(Json::Number(JsonNumber::Negative(n))) => {
                    if -0x8000_0000 <= *n && *n <= 0x7fff_ffff {
                        Some(*n as i32)
                    } else {
                        return None;
                    }
                },
                Some(_) => return None,
            };
            Some(StreamFrame::Error { request_id, message, code })
        } else {
            None
        }
    }

    /// The frame as bytes for the wire.
    pub fn to_bytes(&self) -> (r: Vec<u8>)
        ensures
            r@ == vstd::utf8::encode_utf8(printed(frame_json(self@))),
            canonical(frame_json(self@), 127) ==> parsed(r@) == Some(frame_json(self@)),
    {
        self.to_json().to_bytes()
    }

    /// Reads a frame from the wire.  Of a name that an object holds twice, the
    /// last value counts.
    pub fn from_bytes(bytes: &[u8]) -> (r: Option<StreamFrame>)
        ensures
            match parsed(bytes@) {
                Some(v) => match r {
                    Some(f) => read_frame(v) == Some(f@),
                    None => read_frame(v) is None,
                },
                None => r is None,
            },
    {
        match Json::from_bytes(bytes) {
            Some(v) => StreamFrame::from_json(&v),
            None => None,
        }
    }
}

// ---------------------------------------------------------------------------
// Laws
// ---------------------------------------------------------------------------

proof fn lemma_words()
    ensures
        "type"@ != "request_id"@,
        "type"@ != "data"@,
        "type"@ != "meta"@,
        "type"@ != "code"@,
        "type"@ != "message"@,
        "request_id"@ != "data"@,
        "request_id"@ != "meta"@,
        "request_id"@ != "code"@,
        "request_id"@ != "message"@,
        "message"@ != "code"@,
        "chunk"@ != "done"@,
        "chunk"@ != "error"@,
        "done"@ != "error"@,
        text_lt("data"@, "request_id"@),
        text_lt("data"@, "type"@),
        text_lt("request_id"@, "type"@),
        text_lt("meta"@, "request_id"@),
        text_lt("meta"@, "type"@),
        text_lt("code"@, "message"@),
        text_lt("code"@, "request_id"@),
        text_lt("code"@, "type"@),
        text_lt("message"@, "request_id"@),
        text_lt("message"@, "type"@),
{
    reveal_strlit("type");
    reveal_strlit("request_id");
    reveal_strlit("data");
    reveal_strlit("meta");
    reveal_strlit("code");
    reveal_strlit("message");
    reveal_strlit("chunk");
    reveal_strlit("done");
    reveal_strlit("error");
    assert("type"@.len() == 4 && "type"@[0] == 't');
    assert("request_id"@.len() == 10 && "request_id"@[0] == 'r');
    assert("data"@.len() == 4 && "data"@[0] == 'd');
    assert("meta"@.len() == 4 && "meta"@[0] == 'm');
    assert("code"@.len() == 4 && "code"@[0] == 'c');
    assert("message"@.len() == 7 && "message"@[0] == 'm');
    assert("chunk"@.len() == 5 && "chunk"@[0] == 'c');
    assert("done"@.len() == 4 && "done"@[0] == 'd');
    assert("error"@.len() == 5 && "error"@[0] == 'e');
    assert(less_at("data"@, "request_id"@, 0));
    assert(less_at("data"@, "type"@, 0));
    assert(less_at("request_id"@, "type"@, 0));
    assert(less_at("meta"@, "request_id"@, 0));
    assert(less_at("meta"@, "type"@, 0));
    assert(less_at("code"@, "message"@, 0));
    assert(less_at("code"@, "request_id"@, 0));
    assert(less_at("code"@, "type"@, 0));
    assert(less_at("message"@, "request_id"@, 0));
    assert(less_at("message"@, "type"@, 0));
}

/// Every frame reads back from its JSON, but for metadata that is null, which
/// reads as none.
pub proof fn law_frames_read_back(f: FrameView)
    requires
        f matches FrameView::Done { meta: Some(m), .. } ==> !(m is Null),
        f matches FrameView::Error { code: Some(c), .. } ==> i32::MIN <= c <= i32::MAX,
    ensures
        read_frame(frame_json(f)) == Some(f),
{
    lemma_words();
    let empty = JsonView::object();
    assert(empty.member("meta"@) is None);
    assert(empty.member("code"@) is None);
    match f {
        FrameView::Chunk { request_id, data } => {
            let a = empty.with("data"@, data);
            lemma_member_added(empty, "data"@, data);
            let b = a.with("request_id"@, JsonView::Text(request_id));
            lemma_member_added(a, "request_id"@, JsonView::Text(request_id));
            lemma_member_kept(a, "request_id"@, JsonView::Text(request_id), "data"@);
            lemma_member_added(b, "type"@, JsonView::Text("chunk"@));
            lemma_member_kept(b, "type"@, JsonView::Text("chunk"@), "request_id"@);
            lemma_member_kept(b, "type"@, JsonView::Text("chunk"@), "data"@);
        },
        FrameView::Done { request_id, meta } => {
            let a = match meta {
                Some(m) => empty.with("meta"@, m),
                None => empty,
            };
            if meta is Some {
                lemma_member_added(empty, "meta"@, meta->0);
            }
            let b = a.with("request_id"@, JsonView::Text(request_id));
            lemma_member_added(a, "request_id"@, JsonView::Text(request_id));
            lemma_member_kept(a, "request_id"@, JsonView::Text(request_id), "meta"@);
            lemma_member_added(b, "type"@, JsonView::Text("done"@));
            lemma_member_kept(b, "type"@, JsonView::Text("done"@), "request_id"@);
            lemma_member_kept(b, "type"@, JsonView::Text("done"@), "meta"@);
        },
        FrameView::Error { request_id, message, code } => {
            let a = match code {
                Some(c) => empty.with("code"@, integer(c)),
                None => empty,
            };
            if code is Some {
                lemma_member_added(empty, "code"@, integer(code->0));
            }
            let b = a.with("message"@, JsonView::Text(message));
            lemma_member_added(a, "message"@, JsonView::Text(message));
            lemma_member_kept(a, "message"@, JsonView::Text(message), "code"@);
            let c = b.with("request_id"@, JsonView::Text(request_id));
            lemma_member_added(b, "request_id"@, JsonView::Text(request_id));
            lemma_member_kept(b, "request_id"@, JsonView::Text(request_id), "message"@);
            lemma_member_kept(b, "request_id"@, JsonView::Text(request_id), "code"@);
            lemma_member_added(c, "type"@, JsonView::Text("error"@));
            lemma_member_kept(c, "type"@, JsonView::Text("error"@), "request_id"@);
            lemma_member_kept(c, "type"@, JsonView::Text("error"@), "message"@);
            lemma_member_kept(c, "type"@, JsonView::Text("error"@), "code"@);
        },
    }
}

/// A frame whose payload JSON text keeps exactly is itself kept exactly: its
/// members rise, so that the bytes it is written to read back as the frame.
pub proof fn law_frames_survive_the_wire(f: FrameView)
    requires
        f matches FrameView::Chunk { data, .. } ==> canonical(data, 126),
        f matches FrameView::Done { meta: Some(m), .. } ==> canonical(m, 126),
        f matches FrameView::Error { code: Some(c), .. } ==> i32::MIN <= c <= i32::MAX,
    ensures
        canonical(frame_json(f), 127),
{
    lemma_words();
    let members = frame_json(f)->Object_0;
    match f {
        FrameView::Chunk { request_id, data } => {
            assert(members =~= seq![
                ("data"@, data),
                ("request_id"@, JsonView::Text(request_id)),
                ("type"@, JsonView::Text("chunk"@)),
            ]);
        },
        FrameView::Done { request_id, meta } => {
            if meta is Some {
                assert(members =~= seq![
                    ("meta"@, meta->0),
                    ("request_id"@, JsonView::Text(request_id)),
                    ("type"@, JsonView::Text("done"@)),
                ]);
            } else {
                assert(members =~= seq![
                    ("request_id"@, JsonView::Text(request_id)),
                    ("type"@, JsonView::Text("done"@)),
                ]);
            }
        },
        FrameView::Error { request_id, message, code } => {
            if code is Some {
                assert(members =~= seq![
                    ("code"@, integer(code->0)),
                    ("message"@, JsonView::Text(message)),
                    ("request_id"@, JsonView::Text(request_id)),
                    ("type"@, JsonView::Text("error"@)),
                ]);
            } else {
                assert(members =~= seq![
                    ("message"@, JsonView::Text(message)),
                    ("request_id"@, JsonView::Text(request_id)),
                    ("type"@, JsonView::Text("error"@)),
                ]);
            }
        },
    }
    assert(names_rise(members));
    reveal_strlit("data");
    reveal_strlit("meta");
    reveal_strlit("request_id");
    reveal_strlit("code");
    reveal_strlit("message");
    lemma_not_raw(members[0].0);
    assert forall|i: int| 0 <= i < members.len() implies canonical((#[trigger] members[i]).1, 126) by {}
}

/// A frame is read by its type, whether its fields have names or stand in their
/// order.
pub proof fn law_frames_are_told_by_their_type(j: JsonView, request_id: Seq<char>, data: JsonView)
    ensures
        !(j is Array) && j.text_field("type"@) == Field::Value("chunk"@) && j.text_field("request_id"@) == Field::Value(
            request_id,
        ) && j.member("data"@) == Some(data) ==> read_frame(j) == Some(FrameView::Chunk { request_id, data }),
        !(j is Array) && !(j.text_field("type"@) is Value) ==> read_frame(j) is None,
        read_frame(JsonView::Array(seq![JsonView::Text("done"@), JsonView::Text(request_id)])) == Some(
            FrameView::Done { request_id, meta: None },
        ),
        read_frame(JsonView::Array(seq![JsonView::Text("chunk"@), JsonView::Text(request_id), data])) == Some(
            FrameView::Chunk { request_id, data },
        ),
        read_frame(JsonView::Array(seq![JsonView::Text("chunk"@), JsonView::Text(request_id)])) is None,
{
    reveal_strlit("chunk");
    reveal_strlit("done");
    assert("chunk"@.len() == 5 && "done"@.len() == 4);
    reveal_strlit("request_id");
    reveal_strlit("data");
    reveal_strlit("meta");
    assert("request_id"@.len() == 10 && "data"@.len() == 4 && "meta"@.len() == 4);
    reveal_with_fuel(lookup, 4);
    let one = seq![JsonView::Text("done"@), JsonView::Text(request_id)];
    let first = seq![("request_id"@, JsonView::Text(request_id))];
    assert(placed(one.skip(1), frame_names("done"@))->Object_0 =~= first);
    assert(first.drop_last() =~= Seq::empty());
    let two = seq![JsonView::Text("chunk"@), JsonView::Text(request_id), data];
    let all = first.push(("data"@, data));
    assert(placed(two.skip(1), frame_names("chunk"@))->Object_0 =~= all);
    assert(all.drop_last() =~= first);
    let less = seq![JsonView::Text("chunk"@), JsonView::Text(request_id)];
    assert(less.skip(1).len() == 1);
}

} // verus!
