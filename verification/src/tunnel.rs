//! Tunnels between bridges.
//!
//! A tunnel stream starts with a header that names the tunnel.  The name
//! `_rpc` stands for calls of tools: one request and one response follow.
//! Any other name stands for a local port that was exposed; the bytes of the
//! stream are then passed on to it and back.
use vstd::prelude::*;

use crate::config::texts_option;
use crate::event_queue::{texts_among, texts_in, texts_under};
use crate::expose::{connected_json, register_json, unregister_json, ExposeView};
use crate::identity::AgentId;
use crate::json::{
    canonical, json_option, lemma_fields_2, lemma_fields_3, lemma_member_added, lemma_member_kept, lemma_not_raw, lemma_put, parsed, printed, read_json, texts_view,
    Json, JsonView, NumberView,
};
use crate::manifest::text_values;
use crate::peer_id::{read_peer, record_key};
use crate::permissions::{effective, Decision, PermissionStore, Rule, RuleKey};
use crate::rpc::{
    call_result, err_response, ok_response, respond, respond_error, tool_call_result, INTERNAL_ERROR, PARSE_ERROR,
};
use crate::table::Table;
use crate::text::{decimal, decimal_text, lemma_occurs_between, occurs, same};

verus! {

/// The protocol of tunnel streams.
pub const TUNNEL_PROTOCOL: &'static str = "/clawshake/tunnel/1.0.0";

/// The protocol of single calls.
pub const CALL_PROTOCOL: &'static str = "/clawshake/mcp/1.0.0";

/// The name of the tunnel for calls of tools.
pub const RPC_TUNNEL_NAME: &'static str = "_rpc";

/// The byte by which a tunnel is accepted.
pub const ACCEPTED: u8 = 1;

/// The byte by which a tunnel is refused.
pub const REFUSED: u8 = 0;

// ---------------------------------------------------------------------------
// Header
// ---------------------------------------------------------------------------

/// The header of a tunnel.
pub open spec fn header_json(name: Seq<char>) -> JsonView {
    JsonView::object().with("name"@, JsonView::Text(name))
}

/// The header of a tunnel as it is sent.
pub fn tunnel_header(name: &str) -> (r: Vec<u8>)
    ensures
        r@ == vstd::utf8::encode_utf8(printed(header_json(name@))),
        parsed(r@) == Some(header_json(name@)),
{
    let header = Json::object().with("name", Json::text(name));
    assert(canonical(header@, 127)) by {
        assert(canonical(JsonView::Text(name@), 126));
        reveal_strlit("name");
        lemma_not_raw("name"@);
    }
    header.to_bytes()
}

/// Whether the answer to a header accepts the tunnel.
pub fn check_ack(ack: u8) -> (r: Result<(), String>)
    ensures
        r is Ok == (ack == ACCEPTED),
        r is Err ==> r->Err_0@ == "Tunnel rejected by remote bridge"@,
{
    if ack != ACCEPTED {
        return Err("Tunnel rejected by remote bridge".to_owned());
    }
    Ok(())
}

// ---------------------------------------------------------------------------
// Inbound tunnels
// ---------------------------------------------------------------------------

/// A local port that peers may reach.
pub struct TunnelEntry {
    pub port: u16,
    /// The peers that may connect: any, where there is no list.
    pub peers: Option<Vec<String>>,
}

/// The model of [`TunnelEntry`].
pub struct TunnelView {
    pub port: int,
    pub peers: Option<Seq<Seq<char>>>,
}

impl View for TunnelEntry {
    type V = TunnelView;

    open spec fn view(&self) -> TunnelView {
        TunnelView { port: self.port as int, peers: texts_option(self.peers) }
    }
}

/// The ports that peers may reach, by their names.
pub type TunnelTable = Table<TunnelEntry>;

/// The model of a [`TunnelTable`].
pub open spec fn tunnels(table: Map<Seq<char>, TunnelEntry>) -> Map<Seq<char>, TunnelView> {
    table.map_values(|e: TunnelEntry| e@)
}

/// What becomes of an inbound tunnel.
#[verifier::ext_equal]
pub enum InboundView {
    Rpc,
    Splice { port: int },
    Refused { reason: Seq<char> },
    Failed { reason: Seq<char> },
}

/// What becomes of an inbound tunnel.
pub enum Inbound {
    /// Accepted: a request for a tool follows.
    Rpc,
    /// Accepted: the stream is joined to this local port.
    Splice { port: u16 },
    /// Refused with a byte that says so.
    Refused { reason: String },
    /// Closed without a byte.
    Failed { reason: String },
}

impl View for Inbound {
    type V = InboundView;

    open spec fn view(&self) -> InboundView {
        match self {
            Inbound::Rpc => InboundView::Rpc,
            Inbound::Splice { port } => InboundView::Splice { port: *port as int },
            Inbound::Refused { reason } => InboundView::Refused { reason: reason@ },
            Inbound::Failed { reason } => InboundView::Failed { reason: reason@ },
        }
    }
}

/// Whether a peer may connect.
pub open spec fn admitted(e: TunnelView, peer: Seq<char>) -> bool {
    e.peers matches Some(list) ==> list.contains(peer)
}

/// What becomes of a tunnel that is called `name`.
pub open spec fn named_tunnel(name: Seq<char>, peer: Seq<char>, table: Map<Seq<char>, TunnelView>) -> InboundView {
    if name == RPC_TUNNEL_NAME@ {
        InboundView::Rpc
    } else if !table.contains_key(name) {
        InboundView::Failed { reason: "no active tunnel for name '"@ + name + "'"@ }
    } else if !admitted(table[name], peer) {
        InboundView::Refused { reason: "peer "@ + peer + " not in allowlist for tunnel '"@ + name + "'"@ }
    } else {
        InboundView::Splice { port: table[name].port }
    }
}

/// What becomes of an inbound tunnel with this header.
pub open spec fn inbound(header: Seq<u8>, peer: Seq<char>, table: Map<Seq<char>, TunnelView>) -> InboundView {
    match read_json(header) {
        Err(e) => InboundView::Failed { reason: "parsing tunnel header: "@ + e },
        Ok(h) => match h.text_at("name"@) {
            None => InboundView::Failed { reason: "tunnel header missing 'name' field"@ },
            Some(name) => named_tunnel(name, peer, table),
        },
    }
}

/// Whether a peer stands in a list.
fn listed(list: &Vec<String>, peer: &str) -> (r: bool)
    ensures
        r == texts_view(list@).contains(peer@),
{
    let mut i: usize = 0;
    while i < list.len()
        invariant
            i <= list@.len(),
            forall|j: int| 0 <= j < i ==> (#[trigger] list@[j])@ != peer@,
        decreases list@.len() - i,
    {
        if same(list[i].as_str(), peer) {
            assert(texts_view(list@)[i as int] == peer@);
            return true;
        }
        i += 1;
    }
    false
}

/// Decides what becomes of an inbound tunnel.
pub fn handle_inbound_tunnel(header: &[u8], peer: &str, table: &TunnelTable) -> (r: Inbound)
    requires
        table.wf(),
    ensures
        r@ == inbound(header@, peer@, tunnels(table@)),
{
    let h = match Json::read_bytes(header) {
        Ok(h) => h,
        Err(e) => {
            let mut reason = "parsing tunnel header: ".to_owned();
            reason.push_str(e.as_str());
            return Inbound::Failed { reason };
        },
    };
    let name = match h.str_at("name") {
        Some(n) => n,
        None => return Inbound::Failed { reason: "tunnel header missing 'name' field".to_owned() },
    };
    if same(name, RPC_TUNNEL_NAME) {
        return Inbound::Rpc;
    }
    let entry = match table.get(name) {
        Some(e) => e,
        None => {
            let mut reason = "no active tunnel for name '".to_owned();
            reason.push_str(name);
            reason.push_str("'");
            return Inbound::Failed { reason };
        },
    };
    let open = match &entry.peers {
        Some(list) => listed(list, peer),
        None => true,
    };
    if !open {
        let mut reason = "peer ".to_owned();
        reason.push_str(peer);
        reason.push_str(" not in allowlist for tunnel '");
        reason.push_str(name);
        reason.push_str("'");
        return Inbound::Refused { reason };
    }
    Inbound::Splice { port: entry.port }
}

// ---------------------------------------------------------------------------
// Exposed ports
// ---------------------------------------------------------------------------

/// The port that a notice of the broker registers, with its name.
pub open spec fn registration(params: JsonView) -> Option<(Seq<char>, TunnelView)> {
    match (params.text_at("name"@), params.natural_at("port"@)) {
        (Some(name), Some(port)) => if port <= 65535 {
            Some((name, TunnelView { port, peers: texts_under(params, "peers"@) }))
        } else {
            None
        },
        _ => None,
    }
}

/// Registers an exposed port, in the place of one with the same name.
pub fn register_tunnel(params: &Json, table: &mut TunnelTable) -> (r: Result<(), String>)
    requires
        old(table).wf(),
    ensures
        final(table).wf(),
        match registration(params@) {
            Some((name, entry)) => r is Ok && tunnels(final(table)@) == tunnels(old(table)@).insert(name, entry),
            None => r is Err && r->Err_0@ == "tunnel_register needs a name and a port"@ && final(table)@ == old(
                table,
            )@,
        },
{
    match (params.str_at("name"), params.u64_at("port")) {
        (Some(name), Some(port)) => {
            if port <= 65535 {
                let entry = TunnelEntry { port: port as u16, peers: texts_in(params, "peers") };
                table.insert(name, entry);
                assert(tunnels(table@) =~= tunnels(old(table)@).insert(name@, entry@));
                return Ok(());
            }
        },
        _ => {},
    }
    Err("tunnel_register needs a name and a port".to_owned())
}

/// Forgets an exposed port.
pub fn unregister_tunnel(params: &Json, table: &mut TunnelTable)
    requires
        old(table).wf(),
    ensures
        final(table).wf(),
        tunnels(final(table)@) == (match params@.text_at("name"@) {
            Some(name) => tunnels(old(table)@).remove(name),
            None => tunnels(old(table)@),
        }),
{
    match params.str_at("name") {
        Some(name) => {
            let _ = table.remove(name);
            assert(tunnels(table@) =~= tunnels(old(table)@).remove(name@));
        },
        None => {},
    }
}

// ---------------------------------------------------------------------------
// Inbound calls
// ---------------------------------------------------------------------------

/// The method of a request.
pub open spec fn method_of(request: JsonView) -> Seq<char> {
    match request.text_at("method"@) {
        Some(m) => m,
        None => "?"@,
    }
}

/// What a request needs a permission for: a call of a tool, for the tool;
/// any other request, for its method.
pub open spec fn subject(request: JsonView) -> Seq<char> {
    let method = method_of(request);
    if method == "tools/call"@ {
        match request.member("params"@) {
            Some(p) => match p.text_at("name"@) {
                Some(name) => name,
                None => method,
            },
            None => method,
        }
    } else {
        method
    }
}

/// What a peer without permission is told.
pub open spec fn denied_text(caller: Seq<char>, tool: Seq<char>) -> Seq<char> {
    "Permission denied: peer '"@ + caller + "' is not allowed to call '"@ + tool
        + "'. The node operator can grant access with: clawshake permissions allow p2p:"@ + caller + " "@ + tool
}

/// The response to a request without permission.
pub open spec fn permission_denied_json(id: Option<JsonView>, tool: Seq<char>, caller: Seq<char>) -> JsonView {
    ok_response(id, call_result(denied_text(caller, tool), true))
}

/// What a caller is told when the backend fails.
pub open spec fn backend_failed_text(method: Seq<char>, error: Seq<char>) -> Seq<char> {
    "The local broker failed to process the request for method '"@ + method + "': "@ + error
        + ". This may indicate the broker is misconfigured or the tool is unavailable."@
}

/// What becomes of an inbound request.
pub enum Forward {
    /// The caller gets this response.
    Reply(Vec<u8>),
    /// The request goes to the backend.
    Call { request: Json, id: Option<Json>, method: String },
}

/// The response to a request that does not reach the backend, if there is one.
pub open spec fn early_reply(raw: Seq<u8>, caller: String, rules: Map<RuleKey, Rule>) -> Option<JsonView> {
    match parsed(raw) {
        None => Some(err_response(None, PARSE_ERROR as int, "Parse error"@)),
        Some(request) => if effective(rules, AgentId::P2p(caller), subject(request)) == Decision::Allow {
            None
        } else {
            Some(permission_denied_json(request.member("id"@), subject(request), caller@))
        },
    }
}

/// The member `key`, copied.
fn member_copy(j: &Json, key: &str) -> (r: Option<Json>)
    ensures
        json_option(r) == j@.member(key@),
{
    match j.get(key) {
        Some(v) => Some(v.clone()),
        None => None,
    }
}

/// What a peer without permission is told.
fn permission_denied_response(id: &Option<Json>, tool: &str, caller: &str) -> (r: Vec<u8>)
    ensures
        r@ == vstd::utf8::encode_utf8(printed(permission_denied_json(json_option(*id), tool@, caller@))),
{
    let mut text = "Permission denied: peer '".to_owned();
    text.push_str(caller);
    text.push_str("' is not allowed to call '");
    text.push_str(tool);
    text.push_str("'. The node operator can grant access with: clawshake permissions allow p2p:");
    text.push_str(caller);
    text.push_str(" ");
    text.push_str(tool);
    respond(id, tool_call_result(text.as_str(), true)).to_bytes()
}

/// What a request needs a permission for.
fn subject_of(request: &Json) -> (r: String)
    ensures
        r@ == subject(request@),
{
    let method = match request.str_at("method") {
        Some(m) => m,
        None => "?",
    };
    if same(method, "tools/call") {
        match request.get("params") {
            Some(p) => match p.str_at("name") {
                Some(name) => return name.to_owned(),
                None => {},
            },
            None => {},
        }
    }
    method.to_owned()
}

/// Decides what becomes of a request from a peer.  The caller's identity is
/// that of the transport.  A peer is never asked for: what is not allowed is
/// denied.
pub fn forward(raw: &[u8], caller: &String, store: &PermissionStore) -> (r: Forward)
    requires
        store.wf(),
    ensures
        match early_reply(raw@, *caller, store@) {
            Some(reply) => r is Reply && r->Reply_0@ == vstd::utf8::encode_utf8(printed(reply)),
            None => match r {
                Forward::Call { request, id, method } => parsed(raw@) == Some(request@) && json_option(id)
                    == request@.member("id"@) && method@ == method_of(request@),
                Forward::Reply(_) => false,
            },
        },
{
    let request = match Json::from_bytes(raw) {
        Some(v) => v,
        None => {
            let id: Option<Json> = None;
            return Forward::Reply(respond_error(&id, PARSE_ERROR, "Parse error").to_bytes());
        },
    };
    let id = member_copy(&request, "id");
    let tool = subject_of(&request);
    let agent = AgentId::P2p(caller.clone());
    match store.check(&agent, tool.as_str()) {
        Decision::Allow => {},
        _ => return Forward::Reply(permission_denied_response(&id, tool.as_str(), caller.as_str())),
    }
    let method = match request.str_at("method") {
        Some(m) => m.to_owned(),
        None => "?".to_owned(),
    };
    Forward::Call { request, id, method }
}

/// The response to a request that went to the backend.
pub open spec fn late_reply(id: Option<JsonView>, method: Seq<char>, outcome: Result<JsonView, Seq<char>>) -> JsonView {
    match outcome {
        Ok(response) => match id {
            Some(v) => response.setting("id"@, v),
            None => response,
        },
        Err(e) => err_response(id, INTERNAL_ERROR as int, backend_failed_text(method, e)),
    }
}

/// The response for the caller once the backend has answered: the backend's
/// own, under the identifier that the caller chose.
pub fn forward_result(id: &Option<Json>, method: &str, outcome: Result<Json, String>) -> (r: Vec<u8>)
    requires
        outcome is Ok && id is Some ==> outcome->Ok_0@.settable(),
    ensures
        r@ == vstd::utf8::encode_utf8(
            printed(
                late_reply(
                    json_option(*id),
                    method@,
                    match outcome {
                        Ok(v) => Ok(v@),
                        Err(e) => Err(e@),
                    },
                ),
            ),
        ),
{
    match outcome {
        Ok(response) => match id {
            Some(v) => response.setting("id", v.clone()).to_bytes(),
            None => response.to_bytes(),
        },
        Err(e) => {
            let mut text = "The local broker failed to process the request for method '".to_owned();
            text.push_str(method);
            text.push_str("': ");
            text.push_str(e.as_str());
            text.push_str(". This may indicate the broker is misconfigured or the tool is unavailable.");
            respond_error(id, INTERNAL_ERROR, text.as_str()).to_bytes()
        },
    }
}

/// The response where no backend is configured.
pub fn no_backend_response() -> (r: Vec<u8>)
    ensures
        r@ == vstd::utf8::encode_utf8(
            printed(err_response(None, INTERNAL_ERROR as int, "No MCP backend configured on this node"@)),
        ),
{
    let id: Option<Json> = None;
    respond_error(&id, INTERNAL_ERROR, "No MCP backend configured on this node").to_bytes()
}

// ---------------------------------------------------------------------------
// Outbound calls
// ---------------------------------------------------------------------------

/// How long a call to a peer may take, in seconds.
pub const RPC_TIMEOUT_SECS: u64 = 60;

/// What a caller is told when a peer does not answer in time.
pub fn timed_out(peer: &str) -> (r: String)
    ensures
        r@ == "RPC call to "@ + peer@ + " timed out after 60 s"@,
{
    let mut m = "RPC call to ".to_owned();
    m.push_str(peer);
    m.push_str(" timed out after 60 s");
    m
}

/// What a caller is told when a peer's identifier cannot be read.
pub fn invalid_peer(peer: &str, error: &str) -> (r: String)
    ensures
        r@ == "invalid peer_id '"@ + peer@ + "': "@ + error@,
{
    let mut m = "invalid peer_id '".to_owned();
    m.push_str(peer);
    m.push_str("': ");
    m.push_str(error);
    m
}

/// The peer that a call or a lookup goes to, as the bytes of its identifier, or
/// what the caller is told where the identifier cannot be read.
pub fn call_target(peer_id: &str) -> (r: Result<Vec<u8>, String>)
    ensures
        match r {
            Ok(b) => read_peer(peer_id@) == Ok::<Seq<u8>, Seq<char>>(b@),
            Err(m) => read_peer(peer_id@) is Err && m@ == "invalid peer_id '"@ + peer_id@ + "': "@ + read_peer(
                peer_id@,
            )->Err_0,
        },
{
    match record_key(peer_id) {
        Ok(b) => Ok(b),
        Err(e) => Err(invalid_peer(peer_id, e.as_str())),
    }
}

// ---------------------------------------------------------------------------
// Outbound tunnels
// ---------------------------------------------------------------------------

/// A tunnel that a peer has authorized.
pub struct TunnelOffer {
    /// The name of the tunnel on the peer's side.
    pub name: String,
    /// The local port that the caller asked for.
    pub local_port: Option<u16>,
    /// The identifier of the response.
    pub id: Json,
}

/// The model of [`TunnelOffer`].
pub struct OfferView {
    pub name: Seq<char>,
    pub local_port: Option<int>,
    pub id: JsonView,
}

impl View for TunnelOffer {
    type V = OfferView;

    open spec fn view(&self) -> OfferView {
        OfferView {
            name: self.name@,
            local_port: match self.local_port {
                Some(p) => Some(p as int),
                None => None,
            },
            id: self.id@,
        }
    }
}

/// The first text of a response to a tool call.
pub open spec fn first_text(response: JsonView) -> Option<Seq<char>> {
    match response.member("result"@) {
        Some(result) => match result.items_at("content"@) {
            Some(items) => if items.len() == 0 {
                None
            } else {
                items[0].text_at("text"@)
            },
            None => None,
        },
        None => None,
    }
}

/// The authorization in a text, if it is one.
pub open spec fn authorization(inner: JsonView, id: JsonView) -> Option<OfferView> {
    if inner.truth_at("authorized"@) == Some(true) && inner.natural_at("port"@) is Some {
        Some(
            OfferView {
                name: match inner.text_at("name"@) {
                    Some(n) => n,
                    None => "unknown"@,
                },
                local_port: match inner.natural_at("local_port"@) {
                    Some(p) => Some(p % 65536),
                    None => None,
                },
                id,
            },
        )
    } else {
        None
    }
}

/// The identifier of a response, 1 by default.
pub open spec fn response_id(response: JsonView) -> JsonView {
    match response.member("id"@) {
        Some(id) => id,
        None => JsonView::Number(NumberView::Unsigned(1)),
    }
}

/// The tunnel that a response authorizes, if it does.
pub open spec fn offered(response: JsonView) -> Option<OfferView> {
    match first_text(response) {
        Some(text) => match parsed(vstd::utf8::encode_utf8(text)) {
            Some(inner) => authorization(inner, response_id(response)),
            None => None,
        },
        None => None,
    }
}

/// The first text of a response to a tool call.
fn first_text_of(response: &Json) -> (r: Option<&str>)
    ensures
        match r {
            Some(t) => first_text(response@) == Some(t@),
            None => first_text(response@) is None,
        },
{
    let result = match response.get("result") {
        Some(v) => v,
        None => return None,
    };
    match result.get("content") {
        Some(Json::Array(items)) => {
            assert(result@.items_at("content"@)->0.len() == items@.len());
            if items.len() == 0 {
                return None;
            }
            assert(result@.items_at("content"@)->0[0] == items@[0]@);
            items[0].str_at("text")
        },
        _ => None,
    }
}

/// Looks for the authorization of a tunnel in a response.  Any other response
/// is delivered as it is.
pub fn tunnel_offer(raw_response: &[u8]) -> (r: Option<TunnelOffer>)
    ensures
        match parsed(raw_response@) {
            Some(response) => match r {
                Some(o) => offered(response) == Some(o@),
                None => offered(response) is None,
            },
            None => r is None,
        },
{
    let response = match Json::from_bytes(raw_response) {
        Some(v) => v,
        None => return None,
    };
    let text = match first_text_of(&response) {
        Some(t) => t,
        None => return None,
    };
    let inner = match Json::from_text(text) {
        Some(v) => v,
        None => return None,
    };
    match inner.bool_at("authorized") {
        Some(true) => {},
        _ => return None,
    }
    if inner.u64_at("port").is_none() {
        return None;
    }
    let local_port: Option<u16> = match inner.u64_at("local_port") {
        Some(p) => Some((p % 65536) as u16),
        None => None,
    };
    let name = match inner.str_at("name") {
        Some(n) => n.to_owned(),
        None => "unknown".to_owned(),
    };
    let id = match response.get("id") {
        Some(v) => v.clone(),
        None => Json::natural(1),
    };
    Some(TunnelOffer { name, local_port, id })
}

/// The local address that a tunnel listens on: any free port, where the
/// caller asked for none.
pub open spec fn listen_address(offer: OfferView) -> Seq<char> {
    "127.0.0.1:"@ + decimal(
        match offer.local_port {
            Some(p) => p as nat,
            None => 0,
        },
    )
}

/// What the caller is told of an open tunnel.
pub open spec fn opened_json(local_port: int) -> JsonView {
    JsonView::object().with("local_port"@, JsonView::Number(NumberView::Unsigned(local_port))).with(
        "local_url"@,
        JsonView::Text("http://localhost:"@ + decimal(local_port as nat)),
    )
}

impl TunnelOffer {
    /// The local address that the tunnel listens on.
    pub fn bind_address(&self) -> (r: String)
        ensures
            r@ == listen_address(self@),
    {
        let port: u64 = match self.local_port {
            Some(p) => p as u64,
            None => 0,
        };
        let mut out = "127.0.0.1:".to_owned();
        out.push_str(decimal_text(port).as_str());
        out
    }

    /// The response that tells the caller where the tunnel listens.
    pub fn opened_response(&self, local_port: u16) -> (r: Vec<u8>)
        ensures
            r@ == vstd::utf8::encode_utf8(
                printed(ok_response(Some(self@.id), call_result(printed(opened_json(local_port as int)), false))),
            ),
    {
        let mut url = "http://localhost:".to_owned();
        url.push_str(decimal_text(local_port as u64).as_str());
        let told = Json::object().with("local_port", Json::natural(local_port as u64)).with(
            "local_url",
            Json::text(url.as_str()),
        ).to_text();
        let id: Option<Json> = Some(self.id.clone());
        respond(&id, tool_call_result(told.as_str(), false)).to_bytes()
    }
}

// ---------------------------------------------------------------------------
// Laws
// ---------------------------------------------------------------------------

/// A request goes to the backend only where the rules allow the peer what it
/// asks for.
pub proof fn law_only_allowed_requests_are_forwarded(raw: Seq<u8>, caller: String, rules: Map<RuleKey, Rule>)
    requires
        early_reply(raw, caller, rules) is None,
    ensures
        parsed(raw) is Some,
        effective(rules, AgentId::P2p(caller), subject(parsed(raw)->0)) == Decision::Allow,
{
}

/// A response of the backend goes back under the caller's identifier, and is
/// otherwise as the backend gave it.
pub proof fn law_callers_get_their_identifiers_back(
    id: JsonView,
    method: Seq<char>,
    response: JsonView,
    other: Seq<char>,
)
    requires
        response.settable(),
    ensures
        late_reply(Some(id), method, Ok(response)).member("id"@) == Some(id),
        other != "id"@ ==> late_reply(Some(id), method, Ok(response)).member(other) == response.member(other),
{
    match response {
        JsonView::Object(members) => {
            lemma_put(members, "id"@, id, other);
        },
        _ => {
            lemma_member_added(JsonView::object(), "id"@, id);
            if other != "id"@ {
                lemma_member_kept(JsonView::object(), "id"@, id, other);
            }
        },
    }
}

/// A peer that is not on the list of a tunnel does not reach its port.
pub proof fn law_unlisted_peers_are_refused(name: Seq<char>, peer: Seq<char>, table: Map<Seq<char>, TunnelView>)
    requires
        table.contains_key(name),
        table[name].peers is Some,
        !table[name].peers->0.contains(peer),
    ensures
        !(named_tunnel(name, peer, table) is Splice),
{
}

/// Once the broker's notice of an exposed port has arrived, the peers that may
/// connect reach that port by its name, and no others do; once the notice that
/// it is no longer exposed has arrived, none does.
pub proof fn law_exposed_ports_are_reached(e: ExposeView, table: Map<Seq<char>, TunnelView>, peer: Seq<char>)
    requires
        0 <= e.port <= 65535,
        e.name != RPC_TUNNEL_NAME@,
    ensures
        ({
            let entry = TunnelView { port: e.port, peers: e.peers };
            let with = table.insert(e.name, entry);
            &&& registration(register_json(e)) == Some((e.name, entry))
            &&& named_tunnel(e.name, peer, with) == (InboundView::Splice { port: e.port }) <==> admitted(entry, peer)
            &&& unregister_json(e.name).text_at("name"@) == Some(e.name)
            &&& named_tunnel(e.name, peer, with.remove(e.name)) is Failed
        }),
{
    lemma_words();
    let name = JsonView::Text(e.name);
    let peers = match e.peers {
        Some(p) => JsonView::Array(text_values(p)),
        None => JsonView::Null,
    };
    let port = JsonView::Number(NumberView::Unsigned(e.port));
    let a = JsonView::object().with("name"@, name);
    let b = a.with("peers"@, peers);
    lemma_member_added(JsonView::object(), "name"@, name);
    lemma_member_kept(a, "peers"@, peers, "name"@);
    lemma_member_kept(b, "port"@, port, "name"@);
    lemma_member_added(a, "peers"@, peers);
    lemma_member_kept(b, "port"@, port, "peers"@);
    lemma_member_added(b, "port"@, port);
    assert(b.with("port"@, port)->Object_0 =~= register_json(e)->Object_0);
    assert(a->Object_0 =~= unregister_json(e.name)->Object_0);
    if e.peers is Some {
        lemma_texts_among(e.peers->0);
    }
}

proof fn lemma_texts_among(texts: Seq<Seq<char>>)
    ensures
        texts_among(text_values(texts)) == texts,
    decreases texts.len(),
{
    if texts.len() > 0 {
        lemma_texts_among(texts.drop_last());
        assert(text_values(texts).drop_last() =~= text_values(texts.drop_last()));
        assert(texts.drop_last().push(texts.last()) =~= texts);
    } else {
        assert(texts_among(text_values(texts)) =~= texts);
    }
}

/// The header of a tunnel names it on the other side.
pub proof fn law_headers_name_their_tunnels(name: Seq<char>)
    ensures
        header_json(name).text_at("name"@) == Some(name),
{
    lemma_member_added(JsonView::object(), "name"@, JsonView::Text(name));
}

/// What a `connect_*` tool answers opens a tunnel of that name on the caller's
/// side, on the port that the caller asked for.
pub proof fn law_connect_answers_open_tunnels(
    id: JsonView,
    text: Seq<char>,
    name: Seq<char>,
    port: int,
    local_port: Option<int>,
)
    requires
        parsed(vstd::utf8::encode_utf8(text)) == Some(connected_json(name, port, local_port)),
        local_port matches Some(p) ==> 0 <= p <= 65535,
    ensures
        offered(ok_response(Some(id), call_result(text, false))) == Some(OfferView { name, local_port, id }),
{
    lemma_words();
    let start = JsonView::object().with("id"@, id);
    let middle = start.with("jsonrpc"@, JsonView::Text("2.0"@));
    let result = call_result(text, false);
    let response = middle.with("result"@, result);
    lemma_member_added(JsonView::object(), "id"@, id);
    lemma_member_kept(start, "jsonrpc"@, JsonView::Text("2.0"@), "id"@);
    lemma_member_kept(middle, "result"@, result, "id"@);
    lemma_member_added(middle, "result"@, result);
    let item = JsonView::object().with("text"@, JsonView::Text(text)).with("type"@, JsonView::Text("text"@));
    lemma_member_added(JsonView::object(), "text"@, JsonView::Text(text));
    lemma_member_kept(
        JsonView::object().with("text"@, JsonView::Text(text)),
        "type"@,
        JsonView::Text("text"@),
        "text"@,
    );
    let content = JsonView::Array(seq![item]);
    lemma_member_added(JsonView::object(), "content"@, content);
    lemma_member_kept(JsonView::object().with("content"@, content), "isError"@, JsonView::Bool(false), "content"@);
    assert(first_text(response) == Some(text));
    let inner = connected_json(name, port, local_port);
    let a = JsonView::object().with("authorized"@, JsonView::Bool(true));
    lemma_member_added(JsonView::object(), "authorized"@, JsonView::Bool(true));
    let b = match local_port {
        Some(p) => a.with("local_port"@, JsonView::Number(NumberView::Unsigned(p))),
        None => a,
    };
    if local_port is Some {
        let n = JsonView::Number(NumberView::Unsigned(local_port->0));
        lemma_member_added(a, "local_port"@, n);
        lemma_member_kept(a, "local_port"@, n, "authorized"@);
    } else {
        lemma_member_kept(JsonView::object(), "authorized"@, JsonView::Bool(true), "local_port"@);
        assert(JsonView::object().member("local_port"@) is None);
    }
    let t = JsonView::Text(name);
    let c = b.with("name"@, t);
    lemma_member_added(b, "name"@, t);
    lemma_member_kept(b, "name"@, t, "authorized"@);
    lemma_member_kept(b, "name"@, t, "local_port"@);
    let q = JsonView::Number(NumberView::Unsigned(port));
    let d = c.with("port"@, q);
    lemma_member_added(c, "port"@, q);
    lemma_member_kept(c, "port"@, q, "authorized"@);
    lemma_member_kept(c, "port"@, q, "local_port"@);
    lemma_member_kept(c, "port"@, q, "name"@);
    assert(d->Object_0 =~= inner->Object_0);
}

proof fn lemma_words()
    ensures
        "id"@ != "jsonrpc"@ && "id"@ != "result"@ && "jsonrpc"@ != "result"@,
        "text"@ != "type"@ && "content"@ != "isError"@,
        "authorized"@ != "local_port"@ && "authorized"@ != "name"@ && "authorized"@ != "port"@,
        "local_port"@ != "name"@ && "local_port"@ != "port"@ && "name"@ != "port"@,
        "peers"@ != "name"@ && "peers"@ != "port"@,
{
    reveal_strlit("id");
    reveal_strlit("jsonrpc");
    reveal_strlit("result");
    reveal_strlit("text");
    reveal_strlit("type");
    reveal_strlit("content");
    reveal_strlit("isError");
    reveal_strlit("authorized");
    reveal_strlit("local_port");
    reveal_strlit("name");
    reveal_strlit("port");
    reveal_strlit("peers");
    assert("peers"@[1] == 'e' && "port"@[1] == 'o');
    assert("id"@.len() == 2 && "jsonrpc"@.len() == 7 && "result"@.len() == 6);
    assert("text"@[1] == 'e' && "type"@[1] == 'y');
    assert("content"@[0] == 'c' && "isError"@[0] == 'i');
    assert("authorized"@[0] == 'a' && "local_port"@[0] == 'l' && "name"@[0] == 'n' && "port"@[0] == 'p');
}

/// A call of a tool needs the permission for that tool, and any other request
/// that for its method.
pub proof fn law_calls_need_permission_for_their_tool(request: JsonView)
    ensures
        request.text_at("method"@) == Some("tools/call"@) && request.member("params"@) is Some && request.member(
            "params"@,
        )->0.text_at("name"@) is Some ==> subject(request) == request.member("params"@)->0.text_at("name"@)->0,
        request.text_at("method"@) is Some && request.text_at("method"@)->0 != "tools/call"@ ==> subject(request)
            == request.text_at("method"@)->0,
{
}

/// A request that the rules do not allow the peer is answered at once: as a
/// failed call, under its own identifier, with a text that names the peer and
/// what it asked for.
pub proof fn law_denied_requests_are_answered(raw: Seq<u8>, caller: String, rules: Map<RuleKey, Rule>)
    requires
        parsed(raw) is Some,
        effective(rules, AgentId::P2p(caller), subject(parsed(raw)->0)) != Decision::Allow,
        parsed(raw)->0.member("id"@) is Some,
    ensures
        early_reply(raw, caller, rules) is Some,
        early_reply(raw, caller, rules)->0.member("id"@) == parsed(raw)->0.member("id"@),
        early_reply(raw, caller, rules)->0.member("result"@) is Some,
        early_reply(raw, caller, rules)->0.member("result"@)->0.truth_at("isError"@) == Some(true),
        first_text(early_reply(raw, caller, rules)->0) is Some,
        occurs(first_text(early_reply(raw, caller, rules)->0)->0, caller@),
        occurs(first_text(early_reply(raw, caller, rules)->0)->0, subject(parsed(raw)->0)),
{
    lemma_words();
    let request = parsed(raw)->0;
    let id = request.member("id"@)->0;
    let tool = subject(request);
    let text = denied_text(caller@, tool);
    let result = call_result(text, true);
    lemma_fields_3("id"@, id, "jsonrpc"@, JsonView::Text("2.0"@), "result"@, result);
    let item = JsonView::object().with("text"@, JsonView::Text(text)).with("type"@, JsonView::Text("text"@));
    lemma_fields_2("text"@, JsonView::Text(text), "type"@, JsonView::Text("text"@));
    lemma_fields_2("content"@, JsonView::Array(seq![item]), "isError"@, JsonView::Bool(true));
    let head = "Permission denied: peer '"@;
    let mid = "' is not allowed to call '"@;
    let tail = "'. The node operator can grant access with: clawshake permissions allow p2p:"@ + caller@ + " "@ + tool;
    lemma_occurs_between(head, caller@, mid + tool + tail);
    assert(head + caller@ + (mid + tool + tail) =~= text);
    lemma_occurs_between(head + caller@ + mid, tool, tail);
    assert(head + caller@ + mid + tool + tail =~= text);
}

/// What is allowed goes to the backend, and what is no JSON does not.
pub proof fn law_allowed_requests_are_forwarded(raw: Seq<u8>, caller: String, rules: Map<RuleKey, Rule>)
    ensures
        parsed(raw) is Some && effective(rules, AgentId::P2p(caller), subject(parsed(raw)->0)) == Decision::Allow
            ==> early_reply(raw, caller, rules) is None,
        parsed(raw) is None ==> early_reply(raw, caller, rules) is Some && early_reply(raw, caller, rules)->0.member(
            "error"@,
        ) is Some,
{
    reveal_strlit("error");
    reveal_strlit("id");
    reveal_strlit("jsonrpc");
    assert("error"@.len() == 5 && "id"@.len() == 2 && "jsonrpc"@.len() == 7);
    let error = JsonView::object().with("code"@, JsonView::Number(NumberView::Negative(-32700))).with(
        "message"@,
        JsonView::Text("Parse error"@),
    );
    lemma_fields_3("error"@, error, "id"@, JsonView::Null, "jsonrpc"@, JsonView::Text("2.0"@));
}

/// A tunnel leads to the port that is exposed under its name, for every peer
/// where no list is kept, and else for those on the list; one that is called
/// `_rpc` carries calls; no other name leads anywhere.
pub proof fn law_tunnels_lead_to_their_ports(name: Seq<char>, peer: Seq<char>, table: Map<Seq<char>, TunnelView>)
    ensures
        named_tunnel("_rpc"@, peer, table) is Rpc,
        name != "_rpc"@ && table.contains_key(name) && (table[name].peers is None || table[name].peers->0.contains(
            peer,
        )) ==> named_tunnel(name, peer, table) == (InboundView::Splice { port: table[name].port }),
        name != "_rpc"@ && !table.contains_key(name) ==> named_tunnel(name, peer, table) is Failed,
{
}

/// A caller whose request the backend failed on gets an error under its own
/// identifier, with what the backend said.
pub proof fn law_backend_failures_are_answered(id: JsonView, method: Seq<char>, error: Seq<char>)
    ensures
        ({
            let reply = late_reply(Some(id), method, Err(error));
            &&& reply.member("id"@) == Some(id)
            &&& reply.member("error"@) is Some
            &&& reply.member("error"@)->0.text_at("message"@) is Some
            &&& occurs(reply.member("error"@)->0.text_at("message"@)->0, error)
            &&& occurs(reply.member("error"@)->0.text_at("message"@)->0, method)
        }),
{
    reveal_strlit("error");
    reveal_strlit("id");
    reveal_strlit("jsonrpc");
    reveal_strlit("code");
    reveal_strlit("message");
    assert("error"@.len() == 5 && "id"@.len() == 2 && "jsonrpc"@.len() == 7 && "code"@.len() == 4 && "message"@.len()
        == 7);
    let text = backend_failed_text(method, error);
    let code = JsonView::Number(NumberView::Negative(INTERNAL_ERROR as int));
    lemma_fields_2("code"@, code, "message"@, JsonView::Text(text));
    let e = JsonView::object().with("code"@, code).with("message"@, JsonView::Text(text));
    lemma_fields_3("error"@, e, "id"@, id, "jsonrpc"@, JsonView::Text("2.0"@));
    let head = "The local broker failed to process the request for method '"@;
    let tail = ". This may indicate the broker is misconfigured or the tool is unavailable."@;
    lemma_occurs_between(head + method + "': "@, error, tail);
    lemma_occurs_between(head, method, "': "@ + error + tail);
    assert(head + method + ("': "@ + error + tail) =~= text);
}

/// A tunnel listens on the caller's own machine, at the port that was asked
/// for, or at any.
pub proof fn law_tunnels_listen_locally(offer: OfferView, port: int)
    requires
        0 <= port,
    ensures
        offer.local_port == Some(port) ==> listen_address(offer) == "127.0.0.1:"@ + decimal(port as nat),
        offer.local_port is None ==> listen_address(offer) == "127.0.0.1:"@ + decimal(0),
{
}

/// A stream goes to the tunnel that its header names, and a peer that the tunnel
/// does not admit is refused; without a name it fails.
pub proof fn law_headers_name_their_tunnel(
    header: Seq<u8>,
    h: JsonView,
    name: Seq<char>,
    peer: Seq<char>,
    table: Map<Seq<char>, TunnelView>,
)
    requires
        read_json(header) == Ok::<JsonView, Seq<char>>(h),
    ensures
        h.text_at("name"@) == Some(name) && name != "_rpc"@ && table.contains_key(name) && table[name].peers is None
            ==> inbound(header, peer, table) == (InboundView::Splice { port: table[name].port }),
        h.text_at("name"@) == Some(name) && name != "_rpc"@ && table.contains_key(name) && table[name].peers is Some
            && !table[name].peers->0.contains(peer) ==> inbound(header, peer, table) is Refused,
        h.text_at("name"@) == Some(name) && name != "_rpc"@ && table.contains_key(name) && table[name].peers is Some
            && table[name].peers->0.contains(peer) ==> inbound(header, peer, table) == (InboundView::Splice {
            port: table[name].port,
        }),
        h.text_at("name"@) == Some(name) && name != "_rpc"@ && !table.contains_key(name) ==> inbound(
            header,
            peer,
            table,
        ) is Failed,
        h.text_at("name"@) is None ==> inbound(header, peer, table) is Failed,
{
}

} // verus!
