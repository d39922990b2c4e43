//! The `network.*` tools of the bridge.
//!
//! The bridge answers them itself, from the table of discovered peers, with
//! no call to the backend.  Only `network.call` goes out, to the peer it
//! names.
use vstd::prelude::*;

use crate::channels::{call_json, tools_call_request};
use crate::json::{items_view, json_option, printed, read_json, text_view, texts_view, Json, JsonView, NumberView};
use crate::manifest::{text_array, text_values};
use crate::models::{ModelAnnounce, ModelView};
use crate::peer_table::{peers_view, summaries_view, PeerInfo, PeerTable, PeerView, SummaryView, ToolSummary};
use crate::schema::{define, definition, typed, typed_schema};
use crate::table::NameSet;
use crate::text::{contains, lowercased, occurs, same, to_lowercase};

verus! {

/// The identifiers of the peers that are connected now.
pub type ConnectedPeers = NameSet;

/// No connected peers.
pub fn new_connected_peers() -> (r: ConnectedPeers)
    ensures
        r.wf(),
        r@ == Set::<Seq<char>>::empty(),
{
    NameSet::new()
}

/// An error as an answer.
pub open spec fn error_json(message: Seq<char>) -> JsonView {
    JsonView::object().with("error"@, JsonView::Text(message))
}

/// An error as an answer.
pub fn err(message: &str) -> (r: Json)
    ensures
        r@ == error_json(message@),
{
    Json::object().with("error", Json::text(message))
}

/// The three parts one after the other.
fn join3(a: &str, b: &str, c: &str) -> (r: String)
    ensures
        r@ == a@ + b@ + c@,
{
    let mut out = a.to_owned();
    out.push_str(b);
    out.push_str(c);
    out
}

// ---------------------------------------------------------------------------
// Answers from the table
// ---------------------------------------------------------------------------

/// A peer in the answer to `network.peers`.
pub open spec fn peer_json(p: PeerView) -> JsonView {
    JsonView::object().with("addrs"@, JsonView::Array(text_values(p.addrs))).with(
        "last_seen"@,
        JsonView::Number(NumberView::Unsigned(p.last_seen)),
    ).with("peer_id"@, JsonView::Text(p.peer_id)).with(
        "tool_count"@,
        JsonView::Number(NumberView::Unsigned(p.tools.len() as int)),
    )
}

/// The answer to `network.peers`.
pub open spec fn peers_json(peers: Seq<PeerView>) -> JsonView {
    JsonView::object().with("peers"@, JsonView::Array(Seq::new(peers.len(), |i: int| peer_json(peers[i]))))
}

/// Answers `network.peers`: all discovered peers.
pub fn peers(table: &PeerTable) -> (r: Json)
    requires
        table.wf(),
    ensures
        r@ == peers_json(table.listed()),
{
    let all = table.all();
    let mut list: Vec<Json> = Vec::new();
    let mut i: usize = 0;
    while i < all.len()
        invariant
            i <= all@.len(),
            list@.len() == i,
            forall|j: int| 0 <= j < i ==> (#[trigger] list@[j])@ == peer_json(all@[j]@),
        decreases all@.len() - i,
    {
        let p = &all[i];
        let item = Json::object().with("addrs", text_array(p.addrs.as_slice())).with(
            "last_seen",
            Json::natural(p.last_seen),
        ).with("peer_id", Json::text(p.peer_id.as_str())).with(
            "tool_count",
            Json::natural(p.tools.len() as u64),
        );
        assert(p@.tools.len() == p.tools@.len());
        list.push(item);
        i += 1;
    }
    let items = Json::array(list);
    assert(items@->Array_0 =~= Seq::new(table.listed().len(), |k: int| peer_json(table.listed()[k]))) by {
        assert forall|k: int| 0 <= k < all@.len() implies all@[k]@ == #[trigger] table.listed()[k] by {
            assert(peers_view(all@)[k] == all@[k]@);
        }
    }
    Json::object().with("peers", items)
}

/// A tool in the answer to `network.tools`.
pub open spec fn tool_json(t: SummaryView) -> JsonView {
    JsonView::object().with("description"@, JsonView::Text(t.description)).with("name"@, JsonView::Text(t.name))
}

/// What `network.tools` and `network.describe` say of an unknown peer.
pub open spec fn unknown_peer(peer_id: Seq<char>) -> Seq<char> {
    "peer "@ + peer_id + " not found in table"@
}

/// The answer to `network.tools`.
pub open spec fn tools_json(params: JsonView, table: Map<Seq<char>, PeerView>) -> JsonView {
    match params.text_at("peer_id"@) {
        None => error_json("missing required parameter: peer_id"@),
        Some(id) => if table.contains_key(id) {
            let tools = table[id].tools;
            JsonView::object().with("peer_id"@, JsonView::Text(id)).with(
                "tools"@,
                JsonView::Array(Seq::new(tools.len(), |i: int| tool_json(tools[i]))),
            )
        } else {
            error_json(unknown_peer(id))
        },
    }
}

/// Answers `network.tools`: the tools of one peer.
pub fn tools(params: &Json, table: &PeerTable) -> (r: Json)
    requires
        table.wf(),
    ensures
        r@ == tools_json(params@, table@),
{
    let id = match params.str_at("peer_id") {
        Some(s) => s,
        None => return err("missing required parameter: peer_id"),
    };
    match table.get(id) {
        Some(peer) => {
            let mut list: Vec<Json> = Vec::new();
            let mut i: usize = 0;
            while i < peer.tools.len()
                invariant
                    i <= peer.tools@.len(),
                    list@.len() == i,
                    forall|j: int| 0 <= j < i ==> (#[trigger] list@[j])@ == tool_json(peer.tools@[j]@),
                decreases peer.tools@.len() - i,
            {
                let t = &peer.tools[i];
                list.push(
                    Json::object().with("description", Json::text(t.description.as_str())).with(
                        "name",
                        Json::text(t.name.as_str()),
                    ),
                );
                i += 1;
            }
            let items = Json::array(list);
            assert(items@->Array_0 =~= Seq::new(peer@.tools.len(), |k: int| tool_json(peer@.tools[k])));
            Json::object().with("peer_id", Json::text(id)).with("tools", items)
        },
        None => err(join3("peer ", id, " not found in table").as_str()),
    }
}

/// Whether a tool matches a query in small letters.
pub open spec fn matches_query(t: SummaryView, query: Seq<char>) -> bool {
    occurs(lowercased(t.name), query) || occurs(lowercased(t.description), query)
}

/// A tool in the answer to `network.search`.
pub open spec fn found_json(p: PeerView, t: SummaryView) -> JsonView {
    JsonView::object().with("addrs"@, JsonView::Array(text_values(p.addrs))).with(
        "description"@,
        JsonView::Text(t.description),
    ).with("peer_id"@, JsonView::Text(p.peer_id)).with("tool_name"@, JsonView::Text(t.name))
}

/// The tools of one peer that match.
pub open spec fn found_on(p: PeerView, tools: Seq<SummaryView>, query: Seq<char>) -> Seq<JsonView>
    decreases tools.len(),
{
    if tools.len() == 0 {
        Seq::empty()
    } else {
        let before = found_on(p, tools.drop_last(), query);
        if matches_query(tools.last(), query) {
            before.push(found_json(p, tools.last()))
        } else {
            before
        }
    }
}

/// The tools of all peers that match.
pub open spec fn found(peers: Seq<PeerView>, query: Seq<char>) -> Seq<JsonView>
    decreases peers.len(),
{
    if peers.len() == 0 {
        Seq::empty()
    } else {
        found(peers.drop_last(), query) + found_on(peers.last(), peers.last().tools, query)
    }
}

/// The answer to `network.search`.
pub open spec fn search_json(params: JsonView, peers: Seq<PeerView>) -> JsonView {
    match params.text_at("query"@) {
        None => error_json("missing required parameter: query"@),
        Some(q) => JsonView::object().with("query"@, JsonView::Text(lowercased(q))).with(
            "results"@,
            JsonView::Array(found(peers, lowercased(q))),
        ),
    }
}

/// Adds the tools of one peer that match.
fn search_peer(out: &mut Vec<Json>, p: &PeerInfo, query: &str)
    ensures
        items_view(final(out)@) == items_view(old(out)@) + found_on(p@, p@.tools, query@),
{
    let ghost start = items_view(out@);
    let ghost all = p@.tools;
    let mut i: usize = 0;
    assert(all.take(0) =~= Seq::empty());
    assert(items_view(out@) =~= start + found_on(p@, all.take(0), query@));
    while i < p.tools.len()
        invariant
            i <= p.tools@.len(),
            all == p@.tools,
            all.len() == p.tools@.len(),
            items_view(out@) == start + found_on(p@, all.take(i as int), query@),
        decreases p.tools@.len() - i,
    {
        let t = &p.tools[i];
        assert(all.take(i + 1).drop_last() =~= all.take(i as int));
        assert(all.take(i + 1).last() == t@);
        if contains(to_lowercase(t.name.as_str()).as_str(), query) || contains(
            to_lowercase(t.description.as_str()).as_str(),
            query,
        ) {
            let ghost was = items_view(out@);
            out.push(
                Json::object().with("addrs", text_array(p.addrs.as_slice())).with(
                    "description",
                    Json::text(t.description.as_str()),
                ).with("peer_id", Json::text(p.peer_id.as_str())).with("tool_name", Json::text(t.name.as_str())),
            );
            assert(items_view(out@) =~= was.push(found_json(p@, t@)));
            assert(items_view(out@) =~= start + found_on(p@, all.take(i + 1), query@));
        }
        i += 1;
    }
    assert(all.take(i as int) =~= all);
}

/// Answers `network.search`: the tools of all peers whose name or description
/// holds the query, whatever the case of the letters.
pub fn search(params: &Json, table: &PeerTable) -> (r: Json)
    requires
        table.wf(),
    ensures
        r@ == search_json(params@, table.listed()),
{
    let query = match params.str_at("query") {
        Some(s) => to_lowercase(s),
        None => return err("missing required parameter: query"),
    };
    let peers = table.all();
    let ghost all = table.listed();
    let mut results: Vec<Json> = Vec::new();
    let mut i: usize = 0;
    assert(all.take(0) =~= Seq::empty());
    assert(items_view(results@) =~= Seq::empty());
    while i < peers.len()
        invariant
            i <= peers@.len(),
            all == peers_view(peers@),
            items_view(results@) == found(all.take(i as int), query@),
        decreases peers@.len() - i,
    {
        assert(all.take(i + 1).drop_last() =~= all.take(i as int));
        assert(all.take(i + 1).last() == peers@[i as int]@);
        search_peer(&mut results, &peers[i], query.as_str());
        i += 1;
    }
    assert(all.take(i as int) =~= all);
    Json::object().with("query", Json::text(query.as_str())).with("results", Json::array(results))
}

/// The first tool called `name`.
pub open spec fn first_named(tools: Seq<SummaryView>, name: Seq<char>) -> Option<SummaryView>
    decreases tools.len(),
{
    if tools.len() == 0 {
        None
    } else {
        match first_named(tools.drop_last(), name) {
            Some(t) => Some(t),
            None => if tools.last().name == name {
                Some(tools.last())
            } else {
                None
            },
        }
    }
}

/// The answer to `network.describe`.
pub open spec fn describe_json(params: JsonView, table: Map<Seq<char>, PeerView>) -> JsonView {
    match (params.text_at("peer_id"@), params.text_at("tool_name"@)) {
        (None, _) => error_json("missing required parameter: peer_id"@),
        (Some(_), None) => error_json("missing required parameter: tool_name"@),
        (Some(id), Some(name)) => if !table.contains_key(id) {
            error_json(unknown_peer(id))
        } else {
            match first_named(table[id].tools, name) {
                Some(t) => JsonView::object().with("description"@, JsonView::Text(t.description)).with(
                    "peer_id"@,
                    JsonView::Text(id),
                ).with("tool_name"@, JsonView::Text(t.name)),
                None => error_json("tool "@ + name + " not found on peer "@ + id),
            }
        },
    }
}

/// The first tool called `name`.
fn find_tool<'a>(tools: &'a Vec<ToolSummary>, name: &str) -> (r: Option<&'a ToolSummary>)
    ensures
        match r {
            Some(t) => first_named(summaries_view(tools@), name@) == Some(t@),
            None => first_named(summaries_view(tools@), name@) is None,
        },
{
    let ghost all = summaries_view(tools@);
    let mut found_tool: Option<&'a ToolSummary> = None;
    let mut i: usize = 0;
    assert(all.take(0) =~= Seq::empty());
    while i < tools.len()
        invariant
            i <= tools@.len(),
            all == summaries_view(tools@),
            match found_tool {
                Some(t) => first_named(all.take(i as int), name@) == Some(t@),
                None => first_named(all.take(i as int), name@) is None,
            },
        decreases tools@.len() - i,
    {
        assert(all.take(i + 1).drop_last() =~= all.take(i as int));
        assert(all.take(i + 1).last() == tools@[i as int]@);
        if found_tool.is_none() && same(tools[i].name.as_str(), name) {
            found_tool = Some(&tools[i]);
        }
        i += 1;
    }
    assert(all.take(i as int) =~= all);
    found_tool
}

/// Answers `network.describe`: one tool of one peer.
pub fn describe(params: &Json, table: &PeerTable) -> (r: Json)
    requires
        table.wf(),
    ensures
        r@ == describe_json(params@, table@),
{
    let id = match params.str_at("peer_id") {
        Some(s) => s,
        None => return err("missing required parameter: peer_id"),
    };
    let name = match params.str_at("tool_name") {
        Some(s) => s,
        None => return err("missing required parameter: tool_name"),
    };
    match table.get(id) {
        Some(peer) => match find_tool(&peer.tools, name) {
            Some(t) => Json::object().with("description", Json::text(t.description.as_str())).with(
                "peer_id",
                Json::text(id),
            ).with("tool_name", Json::text(t.name.as_str())),
            None => {
                let mut m = join3("tool ", name, " not found on peer ");
                m.push_str(id);
                err(m.as_str())
            },
        },
        None => err(join3("peer ", id, " not found in table").as_str()),
    }
}

/// The answer to `network.record`.
pub open spec fn record_answer(params: JsonView, table: Map<Seq<char>, PeerView>) -> JsonView {
    match params.text_at("peer_id"@) {
        None => error_json("missing required parameter: peer_id"@),
        Some(id) => if !table.contains_key(id) {
            error_json(unknown_peer(id))
        } else {
            match table[id].raw_record {
                Some(record) => record,
                None => error_json("peer "@ + id + " has announced no record"@),
            }
        },
    }
}

/// Answers `network.record`: the announcement of one peer as it was published.
pub fn record(params: &Json, table: &PeerTable) -> (r: Json)
    requires
        table.wf(),
    ensures
        r@ == record_answer(params@, table@),
{
    let id = match params.str_at("peer_id") {
        Some(s) => s,
        None => return err("missing required parameter: peer_id"),
    };
    match table.get(id) {
        Some(peer) => match peer.raw_record {
            Some(record) => record,
            None => err(join3("peer ", id, " has announced no record").as_str()),
        },
        None => err(join3("peer ", id, " not found in table").as_str()),
    }
}

/// A model in the answer to `network.models`, addressed as `name@peer`.
pub open spec fn served_json(peer_id: Seq<char>, m: ModelView) -> JsonView {
    let start = match m.context_length {
        Some(n) => JsonView::object().with("context_length"@, JsonView::Number(NumberView::Unsigned(n))),
        None => JsonView::object(),
    };
    let middle = start.with("id"@, JsonView::Text(m.name + "@"@ + peer_id)).with("name"@, JsonView::Text(m.name));
    match m.params {
        Some(p) => middle.with("params"@, JsonView::Text(p)),
        None => middle,
    }.with("peer_id"@, JsonView::Text(peer_id))
}

/// The models of one peer.
pub open spec fn served_by(p: PeerView) -> Seq<JsonView> {
    Seq::new(p.models.len(), |i: int| served_json(p.peer_id, p.models[i]))
}

/// The models of all peers, or of the one that is asked for.
pub open spec fn served(peers: Seq<PeerView>, asked: Option<Seq<char>>) -> Seq<JsonView>
    decreases peers.len(),
{
    if peers.len() == 0 {
        Seq::empty()
    } else {
        let before = served(peers.drop_last(), asked);
        if asked is None || asked == Some(peers.last().peer_id) {
            before + served_by(peers.last())
        } else {
            before
        }
    }
}

fn served_model(peer_id: &str, m: &ModelAnnounce) -> (r: Json)
    ensures
        r@ == served_json(peer_id@, m@),
{
    let start = match m.context_length {
        Some(n) => Json::object().with("context_length", Json::natural(n)),
        None => Json::object(),
    };
    let middle = start.with("id", Json::text(join3(m.name.as_str(), "@", peer_id).as_str())).with(
        "name",
        Json::text(m.name.as_str()),
    );
    let with_params = match &m.params {
        Some(p) => middle.with("params", Json::text(p.as_str())),
        None => middle,
    };
    with_params.with("peer_id", Json::text(peer_id))
}

/// Adds the models of one peer.
fn serve_peer(out: &mut Vec<Json>, p: &PeerInfo)
    ensures
        items_view(final(out)@) == items_view(old(out)@) + served_by(p@),
{
    let ghost start = items_view(out@);
    let ghost all = served_by(p@);
    let mut i: usize = 0;
    assert(items_view(out@) =~= start + all.take(0));
    while i < p.models.len()
        invariant
            i <= p.models@.len(),
            all == served_by(p@),
            all.len() == p.models@.len(),
            items_view(out@) == start + all.take(i as int),
        decreases p.models@.len() - i,
    {
        let ghost was = items_view(out@);
        let item = served_model(p.peer_id.as_str(), &p.models[i]);
        out.push(item);
        assert(items_view(out@) =~= was.push(all[i as int]));
        assert(was.push(all[i as int]) =~= start + all.take(i + 1));
        i += 1;
    }
    assert(all.take(i as int) =~= all);
}

/// Answers `network.models`: the models of all peers, or of one.
pub fn models(params: &Json, table: &PeerTable) -> (r: Json)
    requires
        table.wf(),
    ensures
        r@ == JsonView::Array(served(table.listed(), params@.text_at("peer_id"@))),
{
    let asked = params.str_at("peer_id");
    let peers = table.all();
    let ghost all = table.listed();
    let ghost wanted = params@.text_at("peer_id"@);
    let mut out: Vec<Json> = Vec::new();
    let mut i: usize = 0;
    assert(all.take(0) =~= Seq::empty());
    assert(items_view(out@) =~= Seq::empty());
    while i < peers.len()
        invariant
            i <= peers@.len(),
            all == peers_view(peers@),
            wanted == text_view(asked),
            items_view(out@) == served(all.take(i as int), wanted),
        decreases peers@.len() - i,
    {
        assert(all.take(i + 1).drop_last() =~= all.take(i as int));
        assert(all.take(i + 1).last() == peers@[i as int]@);
        let hit = match asked {
            Some(id) => same(id, peers[i].peer_id.as_str()),
            None => true,
        };
        if hit {
            serve_peer(&mut out, &peers[i]);
        }
        i += 1;
    }
    assert(all.take(i as int) =~= all);
    Json::array(out)
}

/// The answer to `network.ping`.
pub open spec fn ping_json(params: JsonView, connected: Set<Seq<char>>) -> JsonView {
    match params.text_at("peer_id"@) {
        None => error_json("missing required parameter: peer_id"@),
        Some(id) => JsonView::object().with("peer_id"@, JsonView::Text(id)).with(
            "reachable"@,
            JsonView::Bool(connected.contains(id)),
        ),
    }
}

/// Answers `network.ping`: whether a peer is connected now.
pub fn ping(params: &Json, connected: &ConnectedPeers) -> (r: Json)
    ensures
        r@ == ping_json(params@, connected@),
{
    match params.str_at("peer_id") {
        Some(id) => Json::object().with("peer_id", Json::text(id)).with(
            "reachable",
            Json::Bool(connected.contains(id)),
        ),
        None => err("missing required parameter: peer_id"),
    }
}

// ---------------------------------------------------------------------------
// Calls to a peer
// ---------------------------------------------------------------------------

/// A request to be sent to a peer.
pub struct OutboundCall {
    /// The peer.
    pub peer_id: String,
    /// The request as it is sent.
    pub request: Vec<u8>,
}

/// The peer and the request of `network.call`, or why there is none.
pub open spec fn outbound(params: JsonView) -> Result<(Seq<char>, JsonView), Seq<char>> {
    match (params.text_at("peer_id"@), params.text_at("tool"@)) {
        (None, _) => Err("missing required parameter: peer_id"@),
        (Some(_), None) => Err("missing required parameter: tool"@),
        (Some(id), Some(tool)) => Ok(
            (
                id,
                call_json(
                    tool,
                    match params.member("arguments"@) {
                        Some(a) => a,
                        None => JsonView::object(),
                    },
                ),
            ),
        ),
    }
}

/// Starts `network.call`: the request that goes to the peer, or the error
/// that answers the call.
pub fn call(params: &Json) -> (r: Result<OutboundCall, Json>)
    ensures
        match outbound(params@) {
            Ok((id, request)) => r is Ok && r->Ok_0.peer_id@ == id && r->Ok_0.request@ == vstd::utf8::encode_utf8(
                printed(request),
            ),
            Err(m) => r is Err && r->Err_0@ == error_json(m),
        },
{
    let id = match params.str_at("peer_id") {
        Some(s) => s,
        None => return Err(err("missing required parameter: peer_id")),
    };
    let tool = match params.str_at("tool") {
        Some(s) => s,
        None => return Err(err("missing required parameter: tool")),
    };
    let arguments = match params.get("arguments") {
        Some(a) => a.clone(),
        None => Json::object(),
    };
    Ok(OutboundCall { peer_id: id.to_owned(), request: tools_call_request(tool, arguments).to_bytes() })
}

/// How a call to a peer ended.
pub enum CallEnd {
    /// There is no channel for calls.
    NoChannel,
    /// The channel for calls is closed.
    ChannelClosed,
    /// The channel for the response was dropped.
    ResponseDropped,
    /// The call failed.
    Failed(String),
    /// The peer answered.
    Answered(Vec<u8>),
}

/// The answer to `network.call` when the call has ended.
pub open spec fn call_answer(end: CallEnd) -> JsonView {
    match end {
        CallEnd::NoChannel => error_json("network.call: no P2P call channel available"@),
        CallEnd::ChannelClosed => error_json("network.call: P2P call channel closed"@),
        CallEnd::ResponseDropped => error_json("network.call: response channel dropped unexpectedly"@),
        CallEnd::Failed(e) => error_json("P2P call failed: "@ + e@),
        CallEnd::Answered(bytes) => match read_json(bytes@) {
            Ok(v) => v,
            Err(e) => error_json("failed to parse response from peer: "@ + e),
        },
    }
}

/// Finishes `network.call`: the peer's response, or an error.
pub fn call_result(end: &CallEnd) -> (r: Json)
    ensures
        r@ == call_answer(*end),
{
    match end {
        CallEnd::NoChannel => err("network.call: no P2P call channel available"),
        CallEnd::ChannelClosed => err("network.call: P2P call channel closed"),
        CallEnd::ResponseDropped => err("network.call: response channel dropped unexpectedly"),
        CallEnd::Failed(e) => {
            let mut m = "P2P call failed: ".to_owned();
            m.push_str(e.as_str());
            err(m.as_str())
        },
        CallEnd::Answered(bytes) => match Json::read_bytes(bytes.as_slice()) {
            Ok(v) => v,
            Err(e) => {
                let mut m = "failed to parse response from peer: ".to_owned();
                m.push_str(e.as_str());
                err(m.as_str())
            },
        },
    }
}

// ---------------------------------------------------------------------------
// Dispatch
// ---------------------------------------------------------------------------

/// What is done for a `network.*` call.
pub enum Handled {
    /// The answer is here.
    Answer(Json),
    /// A request goes to a peer first.
    Send(OutboundCall),
}

/// The answer to a `network.*` call other than `network.call`.
pub open spec fn local_answer(
    method: Seq<char>,
    params: JsonView,
    table: Map<Seq<char>, PeerView>,
    peers: Seq<PeerView>,
    connected: Set<Seq<char>>,
) -> JsonView {
    if method == "network.peers"@ {
        peers_json(peers)
    } else if method == "network.tools"@ {
        tools_json(params, table)
    } else if method == "network.search"@ {
        search_json(params, peers)
    } else if method == "network.describe"@ {
        describe_json(params, table)
    } else if method == "network.ping"@ {
        ping_json(params, connected)
    } else if method == "network.record"@ {
        record_answer(params, table)
    } else if method == "network.models"@ {
        JsonView::Array(served(peers, params.text_at("peer_id"@)))
    } else {
        error_json("unknown network method: "@ + method)
    }
}

/// The parameters, by default none.
pub open spec fn params_or_none(params: Option<JsonView>) -> JsonView {
    match params {
        Some(p) => p,
        None => JsonView::object(),
    }
}

/// Handles a `network.*` call.  Every error is an answer with an `error`
/// member.  `network.call` needs a channel for calls; the other methods do not.
pub fn handle(
    method: &str,
    params: Option<Json>,
    table: &PeerTable,
    connected: &ConnectedPeers,
    channel: bool,
) -> (r: Handled)
    requires
        table.wf(),
    ensures
        method@ != "network.call"@ ==> r is Answer && r->Answer_0@ == local_answer(
            method@,
            params_or_none(json_option(params)),
            table@,
            table.listed(),
            connected@,
        ),
        method@ == "network.call"@ && !channel ==> r is Answer && r->Answer_0@ == call_answer(CallEnd::NoChannel),
        method@ == "network.call"@ && channel ==> match outbound(params_or_none(json_option(params))) {
            Ok((id, request)) => r is Send && r->Send_0.peer_id@ == id && r->Send_0.request@
                == vstd::utf8::encode_utf8(printed(request)),
            Err(m) => r is Answer && r->Answer_0@ == error_json(m),
        },
{
    proof {
        lemma_methods_differ();
    }
    let params = match params {
        Some(p) => p,
        None => Json::object(),
    };
    if same(method, "network.peers") {
        Handled::Answer(peers(table))
    } else if same(method, "network.tools") {
        Handled::Answer(tools(&params, table))
    } else if same(method, "network.search") {
        Handled::Answer(search(&params, table))
    } else if same(method, "network.describe") {
        Handled::Answer(describe(&params, table))
    } else if same(method, "network.ping") {
        Handled::Answer(ping(&params, connected))
    } else if same(method, "network.record") {
        Handled::Answer(record(&params, table))
    } else if same(method, "network.models") {
        Handled::Answer(models(&params, table))
    } else if same(method, "network.call") {
        if !channel {
            return Handled::Answer(call_result(&CallEnd::NoChannel));
        }
        match call(&params) {
            Ok(c) => Handled::Send(c),
            Err(e) => Handled::Answer(e),
        }
    } else {
        let mut m = "unknown network method: ".to_owned();
        m.push_str(method);
        Handled::Answer(err(m.as_str()))
    }
}

proof fn lemma_methods_differ()
    ensures
        "network.call"@ != "network.peers"@,
        "network.call"@ != "network.tools"@,
        "network.call"@ != "network.search"@,
        "network.call"@ != "network.describe"@,
        "network.call"@ != "network.ping"@,
        "network.call"@ != "network.record"@,
        "network.call"@ != "network.models"@,
{
    reveal_strlit("network.call");
    reveal_strlit("network.peers");
    reveal_strlit("network.tools");
    reveal_strlit("network.search");
    reveal_strlit("network.describe");
    reveal_strlit("network.ping");
    reveal_strlit("network.record");
    reveal_strlit("network.models");
    assert("network.record"@.len() == 14);
    assert("network.models"@.len() == 14);
    assert("network.call"@.len() == 12 && "network.call"@[8] == 'c');
    assert("network.peers"@.len() == 13);
    assert("network.tools"@.len() == 13);
    assert("network.search"@.len() == 14);
    assert("network.describe"@.len() == 16);
    assert("network.ping"@.len() == 12 && "network.ping"@[8] == 'p');
}

// ---------------------------------------------------------------------------
// Laws
// ---------------------------------------------------------------------------

/// Every model of every peer is listed, and under that peer too.
pub proof fn law_models_are_listed(peers: Seq<PeerView>, asked: Option<Seq<char>>, i: int, j: int)
    requires
        0 <= i < peers.len(),
        0 <= j < peers[i].models.len(),
        asked is None || asked == Some(peers[i].peer_id),
    ensures
        served(peers, asked).contains(served_json(peers[i].peer_id, peers[i].models[j])),
    decreases peers.len(),
{
    let wanted = served_json(peers[i].peer_id, peers[i].models[j]);
    let before = served(peers.drop_last(), asked);
    let all = served(peers, asked);
    if i < peers.len() - 1 {
        law_models_are_listed(peers.drop_last(), asked, i, j);
        let k = choose|k: int| 0 <= k < before.len() && before[k] == wanted;
        assert(all[k] == wanted);
    } else {
        assert(served_by(peers.last())[j] == wanted);
        assert(all[before.len() + j] == wanted);
    }
}

proof fn lemma_found_on(p: PeerView, tools: Seq<SummaryView>, query: Seq<char>, i: int)
    requires
        0 <= i < tools.len(),
        matches_query(tools[i], query),
    ensures
        found_on(p, tools, query).contains(found_json(p, tools[i])),
    decreases tools.len(),
{
    let before = found_on(p, tools.drop_last(), query);
    let all = found_on(p, tools, query);
    if i < tools.len() - 1 {
        lemma_found_on(p, tools.drop_last(), query, i);
        let k = choose|k: int| 0 <= k < before.len() && before[k] == found_json(p, tools[i]);
        assert(all[k] == before[k]);
    } else {
        assert(all[all.len() - 1] == found_json(p, tools[i]));
    }
}

/// A search finds every tool that matches, on every peer.
pub proof fn law_search_finds_what_matches(peers: Seq<PeerView>, query: Seq<char>, i: int, j: int)
    requires
        0 <= i < peers.len(),
        0 <= j < peers[i].tools.len(),
        matches_query(peers[i].tools[j], query),
    ensures
        found(peers, query).contains(found_json(peers[i], peers[i].tools[j])),
    decreases peers.len(),
{
    let before = found(peers.drop_last(), query);
    let last = found_on(peers.last(), peers.last().tools, query);
    let all = found(peers, query);
    if i < peers.len() - 1 {
        law_search_finds_what_matches(peers.drop_last(), query, i, j);
        let k = choose|k: int| 0 <= k < before.len() && before[k] == found_json(peers[i], peers[i].tools[j]);
        assert(all[k] == before[k]);
    } else {
        lemma_found_on(peers[i], peers[i].tools, query, j);
        let k = choose|k: int| 0 <= k < last.len() && last[k] == found_json(peers[i], peers[i].tools[j]);
        assert(all[before.len() + k] == last[k]);
    }
}

/// `item` is a tool of one of the peers that matches.
pub open spec fn is_match(peers: Seq<PeerView>, query: Seq<char>, item: JsonView) -> bool {
    exists|i: int, j: int|
        0 <= i < peers.len() && 0 <= j < peers[i].tools.len() && matches_query(#[trigger] peers[i].tools[j], query)
            && item == found_json(peers[i], peers[i].tools[j])
}

proof fn lemma_found_on_matches(p: PeerView, tools: Seq<SummaryView>, query: Seq<char>, k: int) -> (j: int)
    requires
        0 <= k < found_on(p, tools, query).len(),
    ensures
        0 <= j < tools.len(),
        matches_query(tools[j], query),
        found_on(p, tools, query)[k] == found_json(p, tools[j]),
    decreases tools.len(),
{
    let before = found_on(p, tools.drop_last(), query);
    if k < before.len() {
        lemma_found_on_matches(p, tools.drop_last(), query, k)
    } else {
        tools.len() - 1
    }
}

/// A search finds nothing but tools that match.
pub proof fn law_search_finds_only_matches(peers: Seq<PeerView>, query: Seq<char>, k: int)
    requires
        0 <= k < found(peers, query).len(),
    ensures
        is_match(peers, query, found(peers, query)[k]),
    decreases peers.len(),
{
    let before = found(peers.drop_last(), query);
    if k < before.len() {
        law_search_finds_only_matches(peers.drop_last(), query, k);
        let (i, j) = choose|i: int, j: int|
            0 <= i < peers.drop_last().len() && 0 <= j < peers.drop_last()[i].tools.len() && matches_query(
                #[trigger] peers.drop_last()[i].tools[j],
                query,
            ) && before[k] == found_json(peers.drop_last()[i], peers.drop_last()[i].tools[j]);
        assert(peers[i] == peers.drop_last()[i]);
        assert(matches_query(peers[i].tools[j], query));
    } else {
        let j = lemma_found_on_matches(peers.last(), peers.last().tools, query, k - before.len());
        assert(matches_query(peers[peers.len() - 1].tools[j], query));
    }
}

// ---------------------------------------------------------------------------
// Definitions
// ---------------------------------------------------------------------------

/// What `network.peers` does.
pub const BRIDGE_NETWORK_PEERS_TEXT: &'static str = "List all discovered bridge nodes on the network with their peer IDs, addresses, tool counts, and last-seen timestamps.";

/// What `network.tools` does.
pub const BRIDGE_NETWORK_TOOLS_TEXT: &'static str = "Get the full tool list (name + description) for a specific peer.";

/// The `peer_id` parameter of `network.tools`.
pub const BRIDGE_NETWORK_TOOLS_PEER_ID: &'static str = "libp2p peer ID string (from network.peers)";

/// What `network.search` does.
pub const BRIDGE_NETWORK_SEARCH_TEXT: &'static str = "Search for tools across all known peers by tool name or description substring.";

/// The `query` parameter of `network.search`.
pub const BRIDGE_NETWORK_SEARCH_QUERY: &'static str = "Case-insensitive substring to match against tool names and descriptions";

/// What `network.describe` does.
pub const BRIDGE_NETWORK_DESCRIBE_TEXT: &'static str = "Get the description for a specific tool on a specific peer.";

/// The `peer_id` parameter of `network.describe`.
pub const BRIDGE_NETWORK_DESCRIBE_PEER_ID: &'static str = "libp2p peer ID string";

/// The `tool_name` parameter of `network.describe`.
pub const BRIDGE_NETWORK_DESCRIBE_TOOL_NAME: &'static str = "Fully-qualified tool name (e.g. \"spotify.play\")";

/// What `network.ping` does.
pub const BRIDGE_NETWORK_PING_TEXT: &'static str = "Check whether a peer currently has an active connection to this node.";

/// The `peer_id` parameter of `network.ping`.
pub const BRIDGE_NETWORK_PING_PEER_ID: &'static str = "libp2p peer ID string";

/// What `network.call` does.
pub const BRIDGE_NETWORK_CALL_TEXT: &'static str = "Invoke a tool on a specific remote peer over the P2P network and return its result. The peer must be currently connected (use network.ping to check). Arguments must match the tool's inputSchema (use network.describe to inspect it).";

/// The `arguments` parameter of `network.call`.
pub const BRIDGE_NETWORK_CALL_ARGUMENTS: &'static str = "Arguments to pass to the tool. Must match the tool's inputSchema. Omit or pass {} for tools with no required arguments.";

/// The `peer_id` parameter of `network.call`.
pub const BRIDGE_NETWORK_CALL_PEER_ID: &'static str = "libp2p peer ID string of the target peer";

/// The `tool` parameter of `network.call`.
pub const BRIDGE_NETWORK_CALL_TOOL: &'static str = "Fully-qualified tool name to invoke on the remote peer (e.g. \"spotify.play\")";

/// The definition of `network.peers`.
pub open spec fn bridge_network_peers_definition() -> JsonView {
    definition(
        "network.peers"@,
        BRIDGE_NETWORK_PEERS_TEXT@,
        JsonView::object(),
        Some(Seq::empty()),
    )
}

/// The definition of `network.tools`.
pub open spec fn bridge_network_tools_definition() -> JsonView {
    definition(
        "network.tools"@,
        BRIDGE_NETWORK_TOOLS_TEXT@,
        JsonView::object()
            .with("peer_id"@, typed("string"@, BRIDGE_NETWORK_TOOLS_PEER_ID@)),
        Some(seq!["peer_id"@]),
    )
}

/// The definition of `network.search`.
pub open spec fn bridge_network_search_definition() -> JsonView {
    definition(
        "network.search"@,
        BRIDGE_NETWORK_SEARCH_TEXT@,
        JsonView::object()
            .with("query"@, typed("string"@, BRIDGE_NETWORK_SEARCH_QUERY@)),
        Some(seq!["query"@]),
    )
}

/// The definition of `network.describe`.
pub open spec fn bridge_network_describe_definition() -> JsonView {
    definition(
        "network.describe"@,
        BRIDGE_NETWORK_DESCRIBE_TEXT@,
        JsonView::object()
            .with("peer_id"@, typed("string"@, BRIDGE_NETWORK_DESCRIBE_PEER_ID@))
            .with("tool_name"@, typed("string"@, BRIDGE_NETWORK_DESCRIBE_TOOL_NAME@)),
        Some(seq!["peer_id"@, "tool_name"@]),
    )
}

/// The definition of `network.ping`.
pub open spec fn bridge_network_ping_definition() -> JsonView {
    definition(
        "network.ping"@,
        BRIDGE_NETWORK_PING_TEXT@,
        JsonView::object()
            .with("peer_id"@, typed("string"@, BRIDGE_NETWORK_PING_PEER_ID@)),
        Some(seq!["peer_id"@]),
    )
}

/// The definition of `network.call`.
pub open spec fn bridge_network_call_definition() -> JsonView {
    definition(
        "network.call"@,
        BRIDGE_NETWORK_CALL_TEXT@,
        JsonView::object()
            .with("arguments"@, typed("object"@, BRIDGE_NETWORK_CALL_ARGUMENTS@))
            .with("peer_id"@, typed("string"@, BRIDGE_NETWORK_CALL_PEER_ID@))
            .with("tool"@, typed("string"@, BRIDGE_NETWORK_CALL_TOOL@)),
        Some(seq!["peer_id"@, "tool"@]),
    )
}

/// The definition of `network.peers`.
fn define_bridge_network_peers() -> (r: Json)
    ensures
        r@ == bridge_network_peers_definition(),
{
    let required: Vec<String> = Vec::new();
    assert(texts_view(required@) =~= Seq::empty());
    define(
        "network.peers",
        BRIDGE_NETWORK_PEERS_TEXT,
        Json::object(),
        Some(required),
    )
}

/// The definition of `network.tools`.
fn define_bridge_network_tools() -> (r: Json)
    ensures
        r@ == bridge_network_tools_definition(),
{
    let mut required: Vec<String> = Vec::new();
    required.push("peer_id".to_owned());
    assert(texts_view(required@) =~= seq!["peer_id"@]);
    define(
        "network.tools",
        BRIDGE_NETWORK_TOOLS_TEXT,
        Json::object()
            .with("peer_id", typed_schema("string", BRIDGE_NETWORK_TOOLS_PEER_ID)),
        Some(required),
    )
}

/// The definition of `network.search`.
fn define_bridge_network_search() -> (r: Json)
    ensures
        r@ == bridge_network_search_definition(),
{
    let mut required: Vec<String> = Vec::new();
    required.push("query".to_owned());
    assert(texts_view(required@) =~= seq!["query"@]);
    define(
        "network.search",
        BRIDGE_NETWORK_SEARCH_TEXT,
        Json::object()
            .with("query", typed_schema("string", BRIDGE_NETWORK_SEARCH_QUERY)),
        Some(required),
    )
}

/// The definition of `network.describe`.
fn define_bridge_network_describe() -> (r: Json)
    ensures
        r@ == bridge_network_describe_definition(),
{
    let mut required: Vec<String> = Vec::new();
    required.push("peer_id".to_owned());
    required.push("tool_name".to_owned());
    assert(texts_view(required@) =~= seq!["peer_id"@, "tool_name"@]);
    define(
        "network.describe",
        BRIDGE_NETWORK_DESCRIBE_TEXT,
        Json::object()
            .with("peer_id", typed_schema("string", BRIDGE_NETWORK_DESCRIBE_PEER_ID))
            .with("tool_name", typed_schema("string", BRIDGE_NETWORK_DESCRIBE_TOOL_NAME)),
        Some(required),
    )
}

/// The definition of `network.ping`.
fn define_bridge_network_ping() -> (r: Json)
    ensures
        r@ == bridge_network_ping_definition(),
{
    let mut required: Vec<String> = Vec::new();
    required.push("peer_id".to_owned());
    assert(texts_view(required@) =~= seq!["peer_id"@]);
    define(
        "network.ping",
        BRIDGE_NETWORK_PING_TEXT,
        Json::object()
            .with("peer_id", typed_schema("string", BRIDGE_NETWORK_PING_PEER_ID)),
        Some(required),
    )
}

/// The definition of `network.call`.
fn define_bridge_network_call() -> (r: Json)
    ensures
        r@ == bridge_network_call_definition(),
{
    let mut required: Vec<String> = Vec::new();
    required.push("peer_id".to_owned());
    required.push("tool".to_owned());
    assert(texts_view(required@) =~= seq!["peer_id"@, "tool"@]);
    define(
        "network.call",
        BRIDGE_NETWORK_CALL_TEXT,
        Json::object()
            .with("arguments", typed_schema("object", BRIDGE_NETWORK_CALL_ARGUMENTS))
            .with("peer_id", typed_schema("string", BRIDGE_NETWORK_CALL_PEER_ID))
            .with("tool", typed_schema("string", BRIDGE_NETWORK_CALL_TOOL)),
        Some(required),
    )
}

/// The definitions of the `network.*` tools.
pub open spec fn bridge_definitions() -> Seq<JsonView> {
    seq![bridge_network_peers_definition(), bridge_network_tools_definition(), bridge_network_search_definition(), bridge_network_describe_definition(), bridge_network_ping_definition(), bridge_network_call_definition()]
}

/// The definitions of the `network.*` tools.
pub fn tool_definitions() -> (r: Vec<Json>)
    ensures
        items_view(r@) == bridge_definitions(),
{
    let mut out: Vec<Json> = Vec::new();
    out.push(define_bridge_network_peers());
    out.push(define_bridge_network_tools());
    out.push(define_bridge_network_search());
    out.push(define_bridge_network_describe());
    out.push(define_bridge_network_ping());
    out.push(define_bridge_network_call());
    assert(items_view(out@) =~= bridge_definitions());
    out
}

} // verus!
