//! What the `network.*` tools answer, told by what a caller learns from it.
use vstd::prelude::*;

use crate::channels::call_json;
use crate::json::{lemma_fields_2, lemma_fields_3, lemma_member_added, lemma_member_kept, JsonView, NumberView};
use crate::manifest::text_values;
use crate::messages::{law_calls_carry_tool_and_arguments, law_peers_are_shown_as_they_are};
use crate::models::ModelView;
use crate::network::{
    call_answer, describe_json, error_json, first_named, found, found_json, law_models_are_listed,
    law_search_finds_only_matches, law_search_finds_what_matches, local_answer, matches_query, outbound, peer_json,
    peers_json, ping_json, record_answer, search_json, served, served_json, tool_json, tools_json, CallEnd,
};
use crate::peer_table::{PeerView, SummaryView};
use crate::text::{lowercased, occurs};

verus! {

/// The names of the members are told apart.
proof fn lemma_names()
    ensures
        "peer_id"@ != "tools"@,
        "peer_id"@ != "reachable"@,
        "query"@ != "results"@,
        "description"@ != "peer_id"@,
        "description"@ != "tool_name"@,
        "peer_id"@ != "tool_name"@,
        "context_length"@ != "id"@,
        "context_length"@ != "name"@,
        "context_length"@ != "params"@,
        "context_length"@ != "peer_id"@,
        "id"@ != "name"@,
        "id"@ != "params"@,
        "id"@ != "peer_id"@,
        "name"@ != "params"@,
        "name"@ != "peer_id"@,
        "params"@ != "peer_id"@,
        "jsonrpc"@ != "error"@,
{
    reveal_strlit("peer_id");
    reveal_strlit("tools");
    reveal_strlit("reachable");
    reveal_strlit("query");
    reveal_strlit("results");
    reveal_strlit("description");
    reveal_strlit("tool_name");
    reveal_strlit("context_length");
    reveal_strlit("id");
    reveal_strlit("name");
    reveal_strlit("params");
    reveal_strlit("jsonrpc");
    reveal_strlit("error");
    assert("peer_id"@.len() == 7 && "tools"@.len() == 5 && "reachable"@.len() == 9 && "query"@.len() == 5);
    assert("results"@.len() == 7 && "description"@.len() == 11 && "tool_name"@.len() == 9);
    assert("context_length"@.len() == 14 && "id"@.len() == 2 && "name"@.len() == 4 && "params"@.len() == 6);
    assert("jsonrpc"@.len() == 7 && "error"@.len() == 5);
}

/// An answer that is an error says why, and nothing that a caller could take
/// for a result.
proof fn lemma_errors(message: Seq<char>)
    ensures
        error_json(message).text_at("error"@) == Some(message),
{
    lemma_member_added(JsonView::object(), "error"@, JsonView::Text(message));
}

/// Each method has its own answer.
pub proof fn law_methods_have_their_answers(
    params: JsonView,
    table: Map<Seq<char>, PeerView>,
    peers: Seq<PeerView>,
    connected: Set<Seq<char>>,
)
    ensures
        local_answer("network.peers"@, params, table, peers, connected) == peers_json(peers),
        local_answer("network.tools"@, params, table, peers, connected) == tools_json(params, table),
        local_answer("network.search"@, params, table, peers, connected) == search_json(params, peers),
        local_answer("network.describe"@, params, table, peers, connected) == describe_json(params, table),
        local_answer("network.ping"@, params, table, peers, connected) == ping_json(params, connected),
        local_answer("network.record"@, params, table, peers, connected) == record_answer(params, table),
        local_answer("network.models"@, params, table, peers, connected) == JsonView::Array(
            served(peers, params.text_at("peer_id"@)),
        ),
        local_answer("network.call"@, params, table, peers, connected).text_at("error"@) is Some,
{
    reveal_strlit("network.call");
    reveal_strlit("network.peers");
    reveal_strlit("network.tools");
    reveal_strlit("network.search");
    reveal_strlit("network.describe");
    reveal_strlit("network.ping");
    reveal_strlit("network.record");
    reveal_strlit("network.models");
    assert("network.call"@.len() == 12 && "network.call"@[8] == 'c');
    assert("network.ping"@.len() == 12 && "network.ping"@[8] == 'p');
    assert("network.peers"@.len() == 13 && "network.peers"@[8] == 'p');
    assert("network.tools"@.len() == 13 && "network.tools"@[8] == 't');
    assert("network.search"@.len() == 14 && "network.search"@[8] == 's');
    assert("network.record"@.len() == 14 && "network.record"@[8] == 'r');
    assert("network.models"@.len() == 14 && "network.models"@[8] == 'm');
    assert("network.describe"@.len() == 16);
    lemma_errors("unknown network method: "@ + "network.call"@);
}

/// Every known peer is listed, with where it is and how many tools it has.
pub proof fn law_every_peer_is_listed(peers: Seq<PeerView>, i: int)
    requires
        0 <= i < peers.len(),
    ensures
        peers_json(peers).items_at("peers"@) is Some,
        peers_json(peers).items_at("peers"@)->0.len() == peers.len(),
        ({
            let item = peers_json(peers).items_at("peers"@)->0[i];
            &&& item.text_at("peer_id"@) == Some(peers[i].peer_id)
            &&& item.items_at("addrs"@) == Some(text_values(peers[i].addrs))
            &&& item.natural_at("tool_count"@) == Some(peers[i].tools.len() as int)
            &&& item.natural_at("last_seen"@) == Some(peers[i].last_seen)
        }),
{
    let items = Seq::new(peers.len(), |k: int| peer_json(peers[k]));
    lemma_member_added(JsonView::object(), "peers"@, JsonView::Array(items));
    assert(peers_json(peers).items_at("peers"@)->0 =~= items);
    let any = SummaryView { name: Seq::empty(), description: Seq::empty(), input_schema: None };
    law_peers_are_shown_as_they_are(peers[i], any);
}

/// Every tool of a known peer is listed under that peer; an unknown peer is an
/// error.
pub proof fn law_every_tool_of_a_peer_is_listed(params: JsonView, table: Map<Seq<char>, PeerView>, id: Seq<char>, j: int)
    requires
        params.text_at("peer_id"@) == Some(id),
    ensures
        table.contains_key(id) ==> tools_json(params, table).text_at("peer_id"@) == Some(id),
        table.contains_key(id) && 0 <= j < table[id].tools.len() ==> {
            let items = tools_json(params, table).items_at("tools"@);
            &&& items is Some
            &&& items->0.len() == table[id].tools.len()
            &&& items->0[j].text_at("name"@) == Some(table[id].tools[j].name)
            &&& items->0[j].text_at("description"@) == Some(table[id].tools[j].description)
        },
        !table.contains_key(id) ==> tools_json(params, table).text_at("error"@) is Some,
{
    lemma_names();
    if table.contains_key(id) {
        let tools = table[id].tools;
        let items = Seq::new(tools.len(), |k: int| tool_json(tools[k]));
        lemma_fields_2("peer_id"@, JsonView::Text(id), "tools"@, JsonView::Array(items));
        assert(tools_json(params, table).items_at("tools"@)->0 =~= items);
        if 0 <= j < tools.len() {
            law_peers_are_shown_as_they_are(table[id], tools[j]);
        }
    } else {
        lemma_errors(crate::network::unknown_peer(id));
    }
}

/// A search finds a tool on a peer by a part of its name or description, in
/// whatever case, and says which tool it is, on which peer and where.
pub proof fn law_tools_are_found_by_search(params: JsonView, peers: Seq<PeerView>, query: Seq<char>, i: int, j: int)
    requires
        params.text_at("query"@) == Some(query),
        0 <= i < peers.len(),
        0 <= j < peers[i].tools.len(),
        occurs(lowercased(peers[i].tools[j].name), lowercased(query)) || occurs(
            lowercased(peers[i].tools[j].description),
            lowercased(query),
        ),
    ensures
        search_json(params, peers).items_at("results"@) is Some,
        exists|k: int|
            0 <= k < search_json(params, peers).items_at("results"@)->0.len() && {
                let item = #[trigger] search_json(params, peers).items_at("results"@)->0[k];
                &&& item.text_at("tool_name"@) == Some(peers[i].tools[j].name)
                &&& item.text_at("description"@) == Some(peers[i].tools[j].description)
                &&& item.text_at("peer_id"@) == Some(peers[i].peer_id)
                &&& item.items_at("addrs"@) == Some(text_values(peers[i].addrs))
            },
{
    lemma_names();
    let q = lowercased(query);
    let all = found(peers, q);
    lemma_fields_2("query"@, JsonView::Text(q), "results"@, JsonView::Array(all));
    assert(matches_query(peers[i].tools[j], q));
    law_search_finds_what_matches(peers, q, i, j);
    let wanted = found_json(peers[i], peers[i].tools[j]);
    let k = choose|k: int| 0 <= k < all.len() && all[k] == wanted;
    law_peers_are_shown_as_they_are(peers[i], peers[i].tools[j]);
    assert(search_json(params, peers).items_at("results"@)->0 == all);
    assert(search_json(params, peers).items_at("results"@)->0[k] == wanted);
}

/// What a search finds holds the query in its name or its description.
pub proof fn law_search_results_match(params: JsonView, peers: Seq<PeerView>, query: Seq<char>, k: int)
    requires
        params.text_at("query"@) == Some(query),
        0 <= k < found(peers, lowercased(query)).len(),
    ensures
        search_json(params, peers).items_at("results"@) == Some(found(peers, lowercased(query))),
        ({
            let item = found(peers, lowercased(query))[k];
            &&& item.text_at("tool_name"@) is Some
            &&& item.text_at("description"@) is Some
            &&& occurs(lowercased(item.text_at("tool_name"@)->0), lowercased(query)) || occurs(
                lowercased(item.text_at("description"@)->0),
                lowercased(query),
            )
        }),
{
    lemma_names();
    let q = lowercased(query);
    lemma_fields_2("query"@, JsonView::Text(q), "results"@, JsonView::Array(found(peers, q)));
    law_search_finds_only_matches(peers, q, k);
    let item = found(peers, q)[k];
    assert(crate::network::is_match(peers, q, item));
    let (i, j) = choose|i: int, j: int|
        0 <= i < peers.len() && 0 <= j < peers[i].tools.len() && matches_query(#[trigger] peers[i].tools[j], q) && item
            == found_json(peers[i], peers[i].tools[j]);
    law_peers_are_shown_as_they_are(peers[i], peers[i].tools[j]);
}

/// The first tool of a name is the one that a search by the name gives.
proof fn lemma_first_named(tools: Seq<SummaryView>, j: int)
    requires
        0 <= j < tools.len(),
        forall|k: int| 0 <= k < j ==> (#[trigger] tools[k]).name != tools[j].name,
    ensures
        first_named(tools, tools[j].name) == Some(tools[j]),
    decreases tools.len(),
{
    let head = tools.drop_last();
    if j < tools.len() - 1 {
        assert forall|k: int| 0 <= k < j implies (#[trigger] head[k]).name != head[j].name by {
            assert(tools[k].name != tools[j].name);
        }
        lemma_first_named(head, j);
    } else {
        lemma_none_named(head, tools[j].name);
    }
}

proof fn lemma_none_named(tools: Seq<SummaryView>, name: Seq<char>)
    requires
        forall|k: int| 0 <= k < tools.len() ==> (#[trigger] tools[k]).name != name,
    ensures
        first_named(tools, name) is None,
    decreases tools.len(),
{
    if tools.len() > 0 {
        let head = tools.drop_last();
        assert forall|k: int| 0 <= k < head.len() implies (#[trigger] head[k]).name != name by {
            assert(tools[k].name != name);
        }
        lemma_none_named(head, name);
        assert(tools[tools.len() - 1].name != name);
    }
}

/// A tool of a peer is described by what the peer says of it.
pub proof fn law_tools_are_described(params: JsonView, table: Map<Seq<char>, PeerView>, id: Seq<char>, j: int)
    requires
        params.text_at("peer_id"@) == Some(id),
        table.contains_key(id),
        0 <= j < table[id].tools.len(),
        params.text_at("tool_name"@) == Some(table[id].tools[j].name),
        forall|k: int| 0 <= k < j ==> (#[trigger] table[id].tools[k]).name != table[id].tools[j].name,
    ensures
        describe_json(params, table).text_at("description"@) == Some(table[id].tools[j].description),
        describe_json(params, table).text_at("tool_name"@) == Some(table[id].tools[j].name),
        describe_json(params, table).text_at("peer_id"@) == Some(id),
{
    lemma_names();
    let t = table[id].tools[j];
    lemma_first_named(table[id].tools, j);
    lemma_fields_3(
        "description"@,
        JsonView::Text(t.description),
        "peer_id"@,
        JsonView::Text(id),
        "tool_name"@,
        JsonView::Text(t.name),
    );
}

/// A peer is reachable while it is connected.
pub proof fn law_connected_peers_are_reachable(params: JsonView, connected: Set<Seq<char>>, id: Seq<char>)
    requires
        params.text_at("peer_id"@) == Some(id),
    ensures
        ping_json(params, connected).truth_at("reachable"@) == Some(connected.contains(id)),
        ping_json(params, connected).text_at("peer_id"@) == Some(id),
{
    lemma_names();
    lemma_fields_2("peer_id"@, JsonView::Text(id), "reachable"@, JsonView::Bool(connected.contains(id)));
}

/// The record of a peer is given as the peer announced it.
pub proof fn law_records_are_given_as_announced(params: JsonView, table: Map<Seq<char>, PeerView>, id: Seq<char>)
    requires
        params.text_at("peer_id"@) == Some(id),
    ensures
        table.contains_key(id) && table[id].raw_record is Some ==> record_answer(params, table)
            == table[id].raw_record->0,
        !table.contains_key(id) || table[id].raw_record is None ==> record_answer(params, table).text_at(
            "error"@,
        ) is Some,
{
    lemma_errors(crate::network::unknown_peer(id));
    lemma_errors("peer "@ + id + " has announced no record"@);
}

/// A model is listed with the peer that serves it, under a name that tells the
/// models of all peers apart, and with what is known of it.
pub proof fn law_served_models_say_what_they_are(peer_id: Seq<char>, m: ModelView)
    ensures
        served_json(peer_id, m).text_at("id"@) == Some(m.name + "@"@ + peer_id),
        served_json(peer_id, m).text_at("name"@) == Some(m.name),
        served_json(peer_id, m).text_at("peer_id"@) == Some(peer_id),
        m.context_length is Some ==> served_json(peer_id, m).natural_at("context_length"@) == m.context_length,
        m.params is Some ==> served_json(peer_id, m).text_at("params"@) == m.params,
{
    lemma_names();
    let id = JsonView::Text(m.name + "@"@ + peer_id);
    let name = JsonView::Text(m.name);
    let peer = JsonView::Text(peer_id);
    let start = match m.context_length {
        Some(n) => JsonView::object().with("context_length"@, JsonView::Number(NumberView::Unsigned(n))),
        None => JsonView::object(),
    };
    if m.context_length is Some {
        lemma_member_added(
            JsonView::object(),
            "context_length"@,
            JsonView::Number(NumberView::Unsigned(m.context_length->0)),
        );
    }
    let a = start.with("id"@, id);
    lemma_member_added(start, "id"@, id);
    lemma_member_kept(start, "id"@, id, "context_length"@);
    let b = a.with("name"@, name);
    lemma_member_added(a, "name"@, name);
    lemma_member_kept(a, "name"@, name, "context_length"@);
    lemma_member_kept(a, "name"@, name, "id"@);
    let c = match m.params {
        Some(p) => b.with("params"@, JsonView::Text(p)),
        None => b,
    };
    if m.params is Some {
        let p = JsonView::Text(m.params->0);
        lemma_member_added(b, "params"@, p);
        lemma_member_kept(b, "params"@, p, "context_length"@);
        lemma_member_kept(b, "params"@, p, "id"@);
        lemma_member_kept(b, "params"@, p, "name"@);
    }
    lemma_member_added(c, "peer_id"@, peer);
    lemma_member_kept(c, "peer_id"@, peer, "context_length"@);
    lemma_member_kept(c, "peer_id"@, peer, "id"@);
    lemma_member_kept(c, "peer_id"@, peer, "name"@);
    lemma_member_kept(c, "peer_id"@, peer, "params"@);
}

/// Asked for the models of one peer, only those are listed.
pub proof fn law_only_the_asked_peer_is_listed(peers: Seq<PeerView>, asked: Seq<char>, k: int)
    requires
        0 <= k < served(peers, Some(asked)).len(),
    ensures
        served(peers, Some(asked))[k].text_at("peer_id"@) == Some(asked),
    decreases peers.len(),
{
    let before = served(peers.drop_last(), Some(asked));
    if k < before.len() {
        law_only_the_asked_peer_is_listed(peers.drop_last(), asked, k);
        assert(served(peers, Some(asked))[k] == before[k]);
    } else {
        let p = peers.last();
        law_served_models_say_what_they_are(p.peer_id, p.models[k - before.len()]);
    }
}

/// A model that a node announced is listed for it by its peers.
pub proof fn law_announced_models_are_listed(peers: Seq<PeerView>, i: int, j: int)
    requires
        0 <= i < peers.len(),
        0 <= j < peers[i].models.len(),
    ensures
        exists|k: int|
            0 <= k < served(peers, None).len() && (#[trigger] served(peers, None)[k]).text_at("name"@) == Some(
                peers[i].models[j].name,
            ) && served(peers, None)[k].text_at("peer_id"@) == Some(peers[i].peer_id),
{
    law_models_are_listed(peers, None, i, j);
    let m = served_json(peers[i].peer_id, peers[i].models[j]);
    law_served_models_say_what_they_are(peers[i].peer_id, peers[i].models[j]);
    let k = choose|k: int| 0 <= k < served(peers, None).len() && served(peers, None)[k] == m;
    assert(served(peers, None)[k] == m);
}

/// A call of a peer's tool goes to that peer, as a call of that tool with the
/// arguments of the caller, or with none where there are none.
pub proof fn law_calls_go_to_their_peer(params: JsonView, id: Seq<char>, tool: Seq<char>)
    requires
        params.text_at("peer_id"@) == Some(id),
        params.text_at("tool"@) == Some(tool),
    ensures
        outbound(params) is Ok,
        ({
            let (to, request) = outbound(params)->Ok_0;
            &&& to == id
            &&& request.text_at("method"@) == Some("tools/call"@)
            &&& request.member("params"@) is Some
            &&& request.member("params"@)->0.text_at("name"@) == Some(tool)
            &&& params.member("arguments"@) is Some ==> request.member("params"@)->0.member("arguments"@)
                == params.member("arguments"@)
            &&& params.member("arguments"@) is None ==> request.member("params"@)->0.member("arguments"@) == Some(
                JsonView::object(),
            )
        }),
{
    let arguments = match params.member("arguments"@) {
        Some(a) => a,
        None => JsonView::object(),
    };
    law_calls_carry_tool_and_arguments(tool, id, arguments);
    assert(outbound(params)->Ok_0.1 == call_json(tool, arguments));
}

/// What a peer answers is the answer of the call; where there is none, the
/// answer is an error.
pub proof fn law_peers_answers_are_passed_on(end: CallEnd)
    ensures
        end matches CallEnd::Answered(bytes) ==> (crate::json::read_json(bytes@) matches Ok(v) ==> call_answer(end)
            == v),
        end !is Answered ==> call_answer(end).text_at("error"@) is Some,
        end matches CallEnd::Failed(e) ==> occurs(call_answer(end).text_at("error"@)->0, e@),
{
    match end {
        CallEnd::NoChannel => lemma_errors("network.call: no P2P call channel available"@),
        CallEnd::ChannelClosed => lemma_errors("network.call: P2P call channel closed"@),
        CallEnd::ResponseDropped => lemma_errors("network.call: response channel dropped unexpectedly"@),
        CallEnd::Failed(e) => {
            lemma_errors("P2P call failed: "@ + e@);
            crate::text::lemma_occurs_between("P2P call failed: "@, e@, Seq::empty());
            assert("P2P call failed: "@ + e@ + Seq::empty() =~= "P2P call failed: "@ + e@);
        },
        CallEnd::Answered(_) => {},
    }
}

} // verus!
