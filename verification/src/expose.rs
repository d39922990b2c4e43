//! Sharing local ports: the expose table, and the `network_expose`,
//! `network_unexpose` and `connect_*` tools.
//!
//! The table tracks which local TCP ports are shared with the network.  It is
//! ephemeral: it does not survive a restart of the broker.
use vstd::prelude::*;

use crate::config::{copy_texts, texts_option};
use crate::event_queue::{law_texts_are_taken_out, texts_in, texts_under};
use crate::ids::{new_uuid, uuid_shaped};
use crate::json::{canonical, lemma_not_raw, names_rise, parsed, printed_pretty, string_view, text_view, Json, JsonView, NumberView};
use crate::manifest::{text_array, text_values, InputSchema, InvokeConfig, InvokeView, SchemaView, Tool, ToolView};
use crate::registry::{without_source, LoadedView, ManifestRegistry};
use crate::table::{lemma_table_order, Table};
use crate::text::{
    alphanumeric, chars_of, is_alphanumeric, lemma_occurs_between, less_at, occurs, strip_prefix, text_lt,
};

verus! {

/// A single exposed port.
pub struct ExposeEntry {
    /// Unique identifier returned to the caller.
    pub expose_id: String,
    /// The human-readable name, which is the suffix in `connect_{name}`.
    pub name: String,
    /// The local TCP port to tunnel to.
    pub port: u16,
    /// Shown in the description of the `connect_{name}` tool.
    pub description: Option<String>,
    /// The peers that may connect: any connected peer, where there is no list.
    pub peers: Option<Vec<String>>,
}

/// The model of [`ExposeEntry`].
pub struct ExposeView {
    pub expose_id: Seq<char>,
    pub name: Seq<char>,
    pub port: int,
    pub description: Option<Seq<char>>,
    pub peers: Option<Seq<Seq<char>>>,
}

impl View for ExposeEntry {
    type V = ExposeView;

    open spec fn view(&self) -> ExposeView {
        ExposeView {
            expose_id: self.expose_id@,
            name: self.name@,
            port: self.port as int,
            description: string_view(self.description),
            peers: texts_option(self.peers),
        }
    }
}

/// A copy of an optional list of texts.
pub(crate) fn copy_peers(peers: &Option<Vec<String>>) -> (r: Option<Vec<String>>)
    ensures
        texts_option(r) == texts_option(*peers),
{
    match peers {
        Some(p) => Some(copy_texts(p.as_slice())),
        None => None,
    }
}

impl Clone for ExposeEntry {
    fn clone(&self) -> (r: ExposeEntry)
        ensures
            r@ == self@,
    {
        ExposeEntry {
            expose_id: self.expose_id.clone(),
            name: self.name.clone(),
            port: self.port,
            description: match &self.description {
                Some(d) => Some(d.clone()),
                None => None,
            },
            peers: copy_peers(&self.peers),
        }
    }
}

/// The exposed ports by their names.
pub struct ExposeTable {
    entries: Table<ExposeEntry>,
}

impl View for ExposeTable {
    type V = Map<Seq<char>, ExposeView>;

    closed spec fn view(&self) -> Map<Seq<char>, ExposeView> {
        self.entries@.map_values(|e: ExposeEntry| e@)
    }
}

impl ExposeTable {
    /// Every entry stands under its name.
    pub closed spec fn wf(&self) -> bool {
        self.entries.wf() && forall|n: Seq<char>| #[trigger]
            self.entries@.contains_key(n) ==> self.entries@[n].name@ == n
    }

    /// A table without entries.
    pub fn new() -> (r: ExposeTable)
        ensures
            r.wf(),
            r@ == Map::<Seq<char>, ExposeView>::empty(),
    {
        let r = ExposeTable { entries: Table::new() };
        assert(r@ =~= Map::<Seq<char>, ExposeView>::empty());
        r
    }

    /// Inserts or replaces an entry.  Returns its identifier.
    pub fn insert(&mut self, entry: ExposeEntry) -> (r: String)
        requires
            old(self).wf(),
        ensures
            final(self).wf(),
            final(self)@ == old(self)@.insert(entry@.name, entry@),
            r@ == entry@.expose_id,
    {
        let id = entry.expose_id.clone();
        let name = entry.name.clone();
        let ghost e = entry;
        self.entries.insert(name.as_str(), entry);
        assert(self@ =~= old(self)@.insert(e@.name, e@));
        id
    }

    /// Removes an entry by name.  Returns whether it existed.
    pub fn remove(&mut self, name: &str) -> (r: bool)
        requires
            old(self).wf(),
        ensures
            final(self).wf(),
            final(self)@ == old(self)@.remove(name@),
            r == old(self)@.contains_key(name@),
    {
        let gone = self.entries.remove(name);
        assert(self@ =~= old(self)@.remove(name@));
        gone.is_some()
    }

    /// The entry with this name.
    pub fn get(&self, name: &str) -> (r: Option<ExposeEntry>)
        requires
            self.wf(),
        ensures
            match r {
                Some(e) => self@.contains_key(name@) && e@ == self@[name@] && e@.name == name@,
                None => !self@.contains_key(name@),
            },
    {
        match self.entries.get(name) {
            Some(e) => Some(e.clone()),
            None => None,
        }
    }

    /// All entries, each once.
    pub fn all(&self) -> (r: Vec<ExposeEntry>)
        requires
            self.wf(),
        ensures
            forall|i: int|
                0 <= i < r@.len() ==> self@.contains_key((#[trigger] r@[i])@.name) && r@[i]@ == self@[r@[i]@.name],
            forall|i: int, j: int| 0 <= i < j < r@.len() ==> (#[trigger] r@[i])@.name != (#[trigger] r@[j])@.name,
            forall|n: Seq<char>| #[trigger]
                self@.contains_key(n) ==> exists|i: int| 0 <= i < r@.len() && (#[trigger] r@[i])@.name == n,
    {
        proof {
            lemma_table_order(&self.entries);
        }
        let ghost order = self.entries.order();
        let mut out: Vec<ExposeEntry> = Vec::new();
        let mut i: usize = 0;
        let n: usize = self.entries.len();
        while i < n
            invariant
                self.wf(),
                order == self.entries.order(),
                n == order.len(),
                i <= n,
                out@.len() == i,
                forall|k: int|
                    0 <= k < i ==> self@.contains_key(order[k]) && (#[trigger] out@[k])@ == self@[order[k]]
                        && out@[k]@.name == order[k],
            decreases n - i,
        {
            let (_, e) = self.entries.at(i);
            out.push(e.clone());
            i += 1;
        }
        assert forall|m: Seq<char>| #[trigger] self@.contains_key(m) implies exists|k: int|
            0 <= k < out@.len() && (#[trigger] out@[k])@.name == m by {
            assert(self.entries@.contains_key(m));
            assert(order.contains(m));
            let k = choose|k: int| 0 <= k < order.len() && order[k] == m;
            assert(out@[k]@.name == m);
        }
        out
    }
}

// ---------------------------------------------------------------------------
// network_expose
// ---------------------------------------------------------------------------

/// A name that can follow `connect_`: letters, digits and underscores.
pub open spec fn good_name(name: Seq<char>) -> bool {
    name.len() > 0 && forall|i: int| 0 <= i < name.len() ==> alphanumeric(#[trigger] name[i]) || name[i] == '_'
}

/// Whether a name can follow `connect_`.
pub fn is_good_name(name: &str) -> (r: bool)
    ensures
        r == good_name(name@),
{
    let cs = chars_of(name);
    if cs.len() == 0 {
        return false;
    }
    let mut i: usize = 0;
    while i < cs.len()
        invariant
            cs@ == name@,
            i <= cs@.len(),
            forall|j: int| 0 <= j < i ==> alphanumeric(#[trigger] name@[j]) || name@[j] == '_',
        decreases cs@.len() - i,
    {
        let c = cs[i];
        if !is_alphanumeric(c) && c != '_' {
            assert(!(alphanumeric(name@[i as int]) || name@[i as int] == '_'));
            return false;
        }
        i += 1;
    }
    true
}

/// Why a call of `network_expose` is refused, if it is.
pub open spec fn expose_refusal(arguments: JsonView, table: Map<Seq<char>, ExposeView>) -> Option<Seq<char>> {
    match (arguments.natural_at("port"@), arguments.text_at("name"@)) {
        (None, _) => Some("missing required parameter: port"@),
        (Some(port), name) => if port > 65535 {
            Some("port must be a valid u16 (0–65535)"@)
        } else {
            match name {
                None => Some("missing required parameter: name"@),
                Some(n) => if !good_name(n) {
                    Some("name must be non-empty and contain only alphanumeric characters or underscores"@)
                } else if table.contains_key(n) {
                    Some("an expose with name '"@ + n + "' already exists — call network_unexpose first"@)
                } else {
                    None
                },
            }
        },
    }
}

/// The entry that a call of `network_expose` makes.
pub open spec fn expose_entry(arguments: JsonView, uuid: Seq<char>) -> ExposeView {
    ExposeView {
        expose_id: "expose_"@ + uuid,
        name: arguments.text_at("name"@)->0,
        port: arguments.natural_at("port"@)->0,
        description: arguments.text_at("description"@),
        peers: texts_under(arguments, "peers"@),
    }
}

/// The tool by which peers connect to an exposed port.
pub open spec fn connect_tool_view(name: Seq<char>, description: Option<Seq<char>>) -> ToolView {
    ToolView {
        name: "connect_"@ + name,
        description: match description {
            Some(d) => "Connect to "@ + name + " on this peer. "@ + d
                + ". Returns a local URL for the tunneled service."@,
            None => "Connect to "@ + name + " on this peer. Returns a local URL for the tunneled service."@,
        },
        schema: SchemaView {
            schema_type: "object"@,
            properties: seq![
                (
                    "local_port"@,
                    JsonView::Object(
                        seq![
                            (
                                "description"@,
                                JsonView::Text(
                                    "Optional. Local port to bind the tunnel on. If omitted, an ephemeral port is assigned."@,
                                ),
                            ),
                            ("type"@, JsonView::Text("integer"@)),
                        ],
                    ),
                ),
            ],
            required: Seq::empty(),
        },
        needs: None,
        invoke: InvokeView::InProcess,
    }
}

/// The tool by which peers connect to an exposed port.
pub fn connect_tool(name: &str, description: Option<&str>) -> (r: Tool)
    ensures
        r@ == connect_tool_view(name@, text_view(description)),
{
    let mut tool_name = "connect_".to_owned();
    tool_name.push_str(name);
    let mut text = "Connect to ".to_owned();
    text.push_str(name);
    match description {
        Some(d) => {
            text.push_str(" on this peer. ");
            text.push_str(d);
            text.push_str(". Returns a local URL for the tunneled service.");
        },
        None => {
            text.push_str(" on this peer. Returns a local URL for the tunneled service.");
        },
    }
    let property = Json::object().with(
        "description",
        Json::text("Optional. Local port to bind the tunnel on. If omitted, an ephemeral port is assigned."),
    ).with("type", Json::text("integer"));
    assert(property@->Object_0 =~= connect_tool_view(name@, None).schema.properties[0].1->Object_0);
    let mut properties: Vec<(String, Json)> = Vec::new();
    properties.push(("local_port".to_owned(), property));
    let required: Vec<String> = Vec::new();
    let r = Tool {
        name: tool_name,
        description: text,
        input_schema: InputSchema { schema_type: "object".to_owned(), properties, required },
        needs: None,
        invoke: InvokeConfig::InProcess,
    };
    assert(r@.schema.properties =~= connect_tool_view(name@, None).schema.properties);
    assert(r@.schema.required =~= Seq::empty());
    r
}

/// What the bridge is told of an exposed port.
pub open spec fn register_json(e: ExposeView) -> JsonView {
    JsonView::Object(
        seq![
            ("name"@, JsonView::Text(e.name)),
            (
                "peers"@,
                match e.peers {
                    Some(p) => JsonView::Array(text_values(p)),
                    None => JsonView::Null,
                },
            ),
            ("port"@, JsonView::Number(NumberView::Unsigned(e.port))),
        ],
    )
}

/// What the caller of `network_expose` is answered.
pub open spec fn exposed_json(e: ExposeView) -> JsonView {
    JsonView::Object(
        seq![
            ("expose_id"@, JsonView::Text(e.expose_id)),
            ("name"@, JsonView::Text(e.name)),
            ("port"@, JsonView::Number(NumberView::Unsigned(e.port))),
            ("tool"@, JsonView::Text("connect_"@ + e.name)),
        ],
    )
}

/// What remains to be done after the table has changed: the bridge is told
/// (`notice` are the parameters), the tools are announced anew, and the caller
/// gets `reply`.
pub struct TableChange {
    pub notice: Json,
    pub reply: String,
}

/// Handles `network_expose(port, name, description?, peers?)` with the random
/// part of the identifier given.
pub fn expose_with_id(
    arguments: &Json,
    uuid: &str,
    table: &mut ExposeTable,
    registry: &mut ManifestRegistry,
) -> (r: Result<TableChange, String>)
    requires
        old(table).wf(),
        old(registry).wf(),
    ensures
        final(table).wf(),
        final(registry).wf(),
        match expose_refusal(arguments@, old(table)@) {
            Some(e) => r is Err && r->Err_0@ == e && final(table)@ == old(table)@ && final(registry)@ == old(
                registry,
            )@,
            None => {
                let entry = expose_entry(arguments@, uuid@);
                &&& r is Ok
                &&& r->Ok_0.notice@ == register_json(entry)
                &&& r->Ok_0.reply@ == printed_pretty(exposed_json(entry))
                &&& final(table)@ == old(table)@.insert(entry.name, entry)
                &&& final(registry)@ == old(registry)@.insert(
                    "connect_"@ + entry.name,
                    (LoadedView {
                        tool: connect_tool_view(entry.name, entry.description),
                        source: "expose:"@ + entry.name,
                        hidden: false,
                    }),
                )
            },
        },
{
    let port: u64 = match arguments.u64_at("port") {
        Some(p) => p,
        None => return Err("missing required parameter: port".to_owned()),
    };
    if port > 65535 {
        return Err("port must be a valid u16 (0–65535)".to_owned());
    }
    let name = match arguments.str_at("name") {
        Some(n) => n,
        None => return Err("missing required parameter: name".to_owned()),
    };
    if !is_good_name(name) {
        return Err("name must be non-empty and contain only alphanumeric characters or underscores".to_owned());
    }
    let description = arguments.str_at("description");
    let peers = texts_in(arguments, "peers");
    if table.get(name).is_some() {
        let mut e = "an expose with name '".to_owned();
        e.push_str(name);
        e.push_str("' already exists — call network_unexpose first");
        return Err(e);
    }
    let mut expose_id = "expose_".to_owned();
    expose_id.push_str(uuid);
    let ghost entry_view = expose_entry(arguments@, uuid@);
    let peers_json = match &peers {
        Some(p) => text_array(p.as_slice()),
        None => Json::Null,
    };
    let notice = Json::object().with("name", Json::text(name)).with("peers", peers_json).with(
        "port",
        Json::natural(port),
    );
    assert(notice@->Object_0 =~= register_json(entry_view)->Object_0);
    let entry = ExposeEntry {
        expose_id: expose_id.clone(),
        name: name.to_owned(),
        port: port as u16,
        description: match description {
            Some(d) => Some(d.to_owned()),
            None => None,
        },
        peers,
    };
    assert(entry@ == entry_view);
    let _ = table.insert(entry);
    let tool = connect_tool(name, description);
    let mut source = "expose:".to_owned();
    source.push_str(name);
    let tool_name = tool.name.clone();
    registry.register_builtin(tool, source.as_str());
    let answer = Json::object().with("expose_id", Json::text(expose_id.as_str())).with("name", Json::text(name)).with(
        "port",
        Json::natural(port),
    ).with("tool", Json::text(tool_name.as_str()));
    assert(answer@->Object_0 =~= exposed_json(entry_view)->Object_0);
    Ok(TableChange { notice, reply: answer.to_pretty_text() })
}

/// Handles `network_expose`: creates an entry with a random identifier and
/// registers its `connect_{name}` tool.
pub fn handle_expose(arguments: &Json, table: &mut ExposeTable, registry: &mut ManifestRegistry) -> (r: Result<
    TableChange,
    String,
>)
    requires
        old(table).wf(),
        old(registry).wf(),
    ensures
        final(table).wf(),
        final(registry).wf(),
        match expose_refusal(arguments@, old(table)@) {
            Some(e) => r is Err && r->Err_0@ == e && final(table)@ == old(table)@ && final(registry)@ == old(
                registry,
            )@,
            None => r is Ok && exists|uuid: Seq<char>|
                {
                    let entry = expose_entry(arguments@, uuid);
                    &&& #[trigger] uuid_shaped(uuid)
                    &&& r->Ok_0.notice@ == register_json(entry)
                    &&& r->Ok_0.reply@ == printed_pretty(exposed_json(entry))
                    &&& final(table)@ == old(table)@.insert(entry.name, entry)
                    &&& final(registry)@ == old(registry)@.insert(
                        "connect_"@ + entry.name,
                        (LoadedView {
                            tool: connect_tool_view(entry.name, entry.description),
                            source: "expose:"@ + entry.name,
                        hidden: false,
                        }),
                    )
                },
        },
{
    let uuid = new_uuid();
    assert(uuid_shaped(uuid@));
    expose_with_id(arguments, uuid.as_str(), table, registry)
}

// ---------------------------------------------------------------------------
// network_unexpose
// ---------------------------------------------------------------------------

/// What the caller of `network_unexpose` is answered.
pub open spec fn unexposed_json(name: Seq<char>) -> JsonView {
    JsonView::Object(seq![("name"@, JsonView::Text(name)), ("ok"@, JsonView::Bool(true))])
}

/// What the bridge is told of a port that is no longer exposed.
pub open spec fn unregister_json(name: Seq<char>) -> JsonView {
    JsonView::Object(seq![("name"@, JsonView::Text(name))])
}

/// Why a call of `network_unexpose` is refused, if it is.
pub open spec fn unexpose_refusal(arguments: JsonView, table: Map<Seq<char>, ExposeView>) -> Option<Seq<char>> {
    match arguments.text_at("name"@) {
        None => Some("missing required parameter: name"@),
        Some(n) => if table.contains_key(n) {
            None
        } else {
            Some("no active expose with name '"@ + n + "'"@)
        },
    }
}

/// That nothing is exposed under this name.
fn no_expose(name: &str) -> (r: String)
    ensures
        r@ == "no active expose with name '"@ + name@ + "'"@,
{
    let mut e = "no active expose with name '".to_owned();
    e.push_str(name);
    e.push_str("'");
    e
}

/// Handles `network_unexpose(name)`: removes the entry and unregisters its
/// `connect_{name}` tool.
pub fn handle_unexpose(arguments: &Json, table: &mut ExposeTable, registry: &mut ManifestRegistry) -> (r: Result<
    TableChange,
    String,
>)
    requires
        old(table).wf(),
        old(registry).wf(),
    ensures
        final(table).wf(),
        final(registry).wf(),
        match unexpose_refusal(arguments@, old(table)@) {
            Some(e) => r is Err && r->Err_0@ == e && final(table)@ == old(table)@ && final(registry)@ == old(
                registry,
            )@,
            None => {
                let name = arguments@.text_at("name"@)->0;
                &&& r is Ok
                &&& r->Ok_0.notice@ == unregister_json(name)
                &&& r->Ok_0.reply@ == printed_pretty(unexposed_json(name))
                &&& final(table)@ == old(table)@.remove(name)
                &&& final(registry)@ == without_source(old(registry)@, "expose:"@ + name)
            },
        },
{
    let name = match arguments.str_at("name") {
        Some(n) => n,
        None => return Err("missing required parameter: name".to_owned()),
    };
    if !table.remove(name) {
        assert(table@ =~= old(table)@);
        return Err(no_expose(name));
    }
    let mut source = "expose:".to_owned();
    source.push_str(name);
    registry.unload_source(source.as_str());
    let notice = Json::object().with("name", Json::text(name));
    assert(notice@->Object_0 =~= unregister_json(name@)->Object_0);
    let answer = Json::object().with("name", Json::text(name)).with("ok", Json::Bool(true));
    assert(answer@->Object_0 =~= unexposed_json(name@)->Object_0);
    Ok(TableChange { notice, reply: answer.to_pretty_text() })
}

// ---------------------------------------------------------------------------
// connect_*
// ---------------------------------------------------------------------------

/// The authorization that the caller's bridge acts on.
pub open spec fn connected_json(name: Seq<char>, port: int, local_port: Option<int>) -> JsonView {
    JsonView::Object(
        match local_port {
            Some(p) => seq![
                ("authorized"@, JsonView::Bool(true)),
                ("local_port"@, JsonView::Number(NumberView::Unsigned(p))),
                ("name"@, JsonView::Text(name)),
                ("port"@, JsonView::Number(NumberView::Unsigned(port))),
            ],
            None => seq![
                ("authorized"@, JsonView::Bool(true)),
                ("name"@, JsonView::Text(name)),
                ("port"@, JsonView::Number(NumberView::Unsigned(port))),
            ],
        },
    )
}

/// What a call of a `connect_*` tool is answered.
pub open spec fn connect_answer(
    tool_name: Seq<char>,
    arguments: JsonView,
    table: Map<Seq<char>, ExposeView>,
) -> Result<JsonView, Seq<char>> {
    if !"connect_"@.is_prefix_of(tool_name) {
        Err("unexpected tool name: "@ + tool_name)
    } else {
        let name = tool_name.skip("connect_"@.len() as int);
        if table.contains_key(name) {
            Ok(connected_json(name, table[name].port, arguments.natural_at("local_port"@)))
        } else {
            Err("no active expose with name '"@ + name + "'"@)
        }
    }
}

/// Handles a call of a `connect_*` tool: looks the name up and returns the
/// authorization, with the caller's `local_port` echoed.
pub fn handle_connect(tool_name: &str, arguments: &Json, table: &ExposeTable) -> (r: Result<String, String>)
    requires
        table.wf(),
    ensures
        match connect_answer(tool_name@, arguments@, table@) {
            Ok(v) => r is Ok && r->Ok_0@ == printed_pretty(v) && parsed(vstd::utf8::encode_utf8(r->Ok_0@)) == Some(v),
            Err(e) => r is Err && r->Err_0@ == e,
        },
{
    let name = match strip_prefix(tool_name, "connect_") {
        Some(n) => n,
        None => {
            let mut e = "unexpected tool name: ".to_owned();
            e.push_str(tool_name);
            return Err(e);
        },
    };
    let entry = match table.get(name.as_str()) {
        Some(e) => e,
        None => return Err(no_expose(name.as_str())),
    };
    let start = Json::object().with("authorized", Json::Bool(true));
    let local_port = arguments.u64_at("local_port");
    let middle = match local_port {
        Some(p) => start.with("local_port", Json::natural(p)),
        None => start,
    };
    let answer = middle.with("name", Json::text(name.as_str())).with("port", Json::natural(entry.port as u64));
    assert(answer@->Object_0 =~= connected_json(
        name@,
        entry.port as int,
        arguments@.natural_at("local_port"@),
    )->Object_0);
    proof {
        lemma_authorization_is_canonical(name@, entry.port as int, arguments@.natural_at("local_port"@));
    }
    Ok(answer.to_pretty_text())
}

proof fn lemma_authorization_is_canonical(name: Seq<char>, port: int, local_port: Option<int>)
    requires
        0 <= port <= 65535,
        local_port matches Some(p) ==> 0 <= p <= u64::MAX,
    ensures
        canonical(connected_json(name, port, local_port), 127),
{
    reveal_strlit("authorized");
    reveal_strlit("local_port");
    reveal_strlit("name");
    reveal_strlit("port");
    assert(less_at("authorized"@, "local_port"@, 0));
    assert(less_at("authorized"@, "name"@, 0));
    assert(less_at("authorized"@, "port"@, 0));
    assert(less_at("local_port"@, "name"@, 0));
    assert(less_at("local_port"@, "port"@, 0));
    assert(less_at("name"@, "port"@, 0));
    assert(text_lt("authorized"@, "local_port"@) && text_lt("authorized"@, "name"@) && text_lt("authorized"@, "port"@));
    assert(text_lt("local_port"@, "name"@) && text_lt("local_port"@, "port"@) && text_lt("name"@, "port"@));
    let members = connected_json(name, port, local_port)->Object_0;
    assert(names_rise(members));
    lemma_not_raw("authorized"@);
    assert(members[0].0 == "authorized"@);
    assert forall|i: int| 0 <= i < members.len() implies canonical((#[trigger] members[i]).1, 126) by {}
}

// ---------------------------------------------------------------------------
// Laws
// ---------------------------------------------------------------------------

/// Once a port is exposed, its `connect_{name}` tool authorizes and names that
/// port, and exposing the name again is refused.
pub proof fn law_exposed_can_be_connected(
    arguments: JsonView,
    uuid: Seq<char>,
    table: Map<Seq<char>, ExposeView>,
    call: JsonView,
)
    requires
        expose_refusal(arguments, table) is None,
    ensures
        ({
            let entry = expose_entry(arguments, uuid);
            let after = table.insert(entry.name, entry);
            &&& connect_answer("connect_"@ + entry.name, call, after) == Ok::<JsonView, Seq<char>>(
                connected_json(entry.name, entry.port, call.natural_at("local_port"@)),
            )
            &&& expose_refusal(arguments, after) is Some
        }),
{
    let entry = expose_entry(arguments, uuid);
    let tool_name = "connect_"@ + entry.name;
    assert("connect_"@.is_prefix_of(tool_name)) by {
        assert(tool_name.subrange(0, "connect_"@.len() as int) =~= "connect_"@);
    }
    assert(tool_name.skip("connect_"@.len() as int) =~= entry.name);
}

/// Once a name is no longer exposed, its `connect_{name}` tool is refused, and
/// the name can be exposed again.
pub proof fn law_unexposed_cannot_be_connected(
    arguments: JsonView,
    table: Map<Seq<char>, ExposeView>,
    call: JsonView,
    again: JsonView,
)
    requires
        unexpose_refusal(arguments, table) is None,
    ensures
        ({
            let name = arguments.text_at("name"@)->0;
            let after = table.remove(name);
            &&& connect_answer("connect_"@ + name, call, after) is Err
            &&& unexpose_refusal(arguments, after) is Some
            &&& again.text_at("name"@) == Some(name) && good_name(name) && again.natural_at("port"@) is Some
                && again.natural_at("port"@)->0 <= 65535 ==> expose_refusal(again, after) is None
        }),
{
    let name = arguments.text_at("name"@)->0;
    let tool_name = "connect_"@ + name;
    assert("connect_"@.is_prefix_of(tool_name)) by {
        assert(tool_name.subrange(0, "connect_"@.len() as int) =~= "connect_"@);
    }
    assert(tool_name.skip("connect_"@.len() as int) =~= name);
}

/// What is exposed is the port, under the name, for the peers and with the
/// description that the caller gave; the identifier is the caller's handle on
/// it.
pub proof fn law_exposed_as_asked(arguments: JsonView, uuid: Seq<char>)
    requires
        expose_refusal(arguments, Map::empty()) is None,
    ensures
        ({
            let e = expose_entry(arguments, uuid);
            &&& arguments.natural_at("port"@) == Some(e.port)
            &&& e.port <= 65535
            &&& arguments.text_at("name"@) == Some(e.name)
            &&& good_name(e.name)
            &&& e.description == arguments.text_at("description"@)
            &&& arguments.items_at("peers"@) is None ==> e.peers is None
            &&& arguments.items_at("peers"@) is Some ==> e.peers is Some && forall|p: Seq<char>| #[trigger]
                e.peers->0.contains(p) <==> arguments.items_at("peers"@)->0.contains(JsonView::Text(p))
            &&& uuid.is_suffix_of(e.expose_id)
        }),
{
    let e = expose_entry(arguments, uuid);
    assert(e.expose_id.subrange(e.expose_id.len() - uuid.len(), e.expose_id.len() as int) =~= uuid);
    if arguments.items_at("peers"@) is Some {
        let items = arguments.items_at("peers"@)->0;
        assert forall|p: Seq<char>| #[trigger] e.peers->0.contains(p) <==> items.contains(JsonView::Text(p)) by {
            law_texts_are_taken_out(items, p);
        }
    }
}

/// Exposing is refused exactly where the port is missing or no port, or the
/// name is missing, cannot follow `connect_` or is taken.
pub proof fn law_exposing_is_refused_only_for_cause(arguments: JsonView, table: Map<Seq<char>, ExposeView>)
    ensures
        expose_refusal(arguments, table) is None <==> {
            &&& arguments.natural_at("port"@) is Some
            &&& arguments.natural_at("port"@)->0 <= 65535
            &&& arguments.text_at("name"@) is Some
            &&& good_name(arguments.text_at("name"@)->0)
            &&& !table.contains_key(arguments.text_at("name"@)->0)
        },
        unexpose_refusal(arguments, table) is None <==> arguments.text_at("name"@) is Some && table.contains_key(
            arguments.text_at("name"@)->0,
        ),
{
}

/// The tool of an exposed port is called by the port's name, is handled by the
/// broker itself and tells what it connects to.
pub proof fn law_connect_tools_are_named_after_their_port(name: Seq<char>, text: Seq<char>)
    ensures
        connect_tool_view(name, None).name == "connect_"@ + name,
        connect_tool_view(name, Some(text)).name == "connect_"@ + name,
        connect_tool_view(name, Some(text)).invoke is InProcess,
        occurs(connect_tool_view(name, Some(text)).description, text),
        occurs(connect_tool_view(name, Some(text)).description, name),
        connect_tool_view(name, Some(text)).schema.required.len() == 0,
        connect_tool_view(name, Some(text)).schema.properties.len() == 1,
        connect_tool_view(name, Some(text)).schema.properties[0].0 == "local_port"@,
{
    let head = "Connect to "@;
    let mid = " on this peer. "@;
    let tail = ". Returns a local URL for the tunneled service."@;
    lemma_occurs_between(head + name + mid, text, tail);
    lemma_occurs_between(head, name, mid + text + tail);
    assert(head + name + (mid + text + tail) =~= connect_tool_view(name, Some(text)).description);
}

} // verus!
