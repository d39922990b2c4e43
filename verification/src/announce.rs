//! Announcements: what a node tells its peers about itself.
//!
//! A record is published in the DHT under the node's identifier, on startup
//! and every few minutes.  Any node that knows the identifier can look the
//! record up.
use vstd::prelude::*;

use crate::addr::{addr_text, addrs_view, Multiaddr, PartView};
use crate::config::copy_texts;
use crate::json::{
    canonical, items_view, lemma_canonical_object, lemma_canonical_with, lemma_member_added, lemma_member_kept,
    lemma_not_raw, parsed, printed, record_fields, string_view, strs_view, texts_view, Field, Json, JsonView,
    NumberView,
};
use crate::manifest::{optional_text, optional_text_of, text_array, text_values};
use crate::models::{
    copy_models, law_models_read_back, model_json, models_view, read_model, ModelAnnounce, ModelView,
};
use crate::peer_table::{summaries_view, PeerInfo, PeerSource, PeerTable, PeerView, SummaryView, ToolSummary};
use crate::permissions::{exposed, PermissionStore, Rule, RuleKey};
use crate::text::{less_at, text_lt};

verus! {

// ---------------------------------------------------------------------------
// Tools
// ---------------------------------------------------------------------------

/// A tool in an announcement.
pub struct ToolAnnounce {
    pub name: String,
    pub description: String,
    /// The schema of its parameters.
    pub input_schema: Json,
}

/// The model of [`ToolAnnounce`].
pub struct ToolAnnounceView {
    pub name: Seq<char>,
    pub description: Seq<char>,
    pub input_schema: JsonView,
}

impl View for ToolAnnounce {
    type V = ToolAnnounceView;

    open spec fn view(&self) -> ToolAnnounceView {
        ToolAnnounceView { name: self.name@, description: self.description@, input_schema: self.input_schema@ }
    }
}

/// The models of a list of announced tools.
pub open spec fn announced_view(v: Seq<ToolAnnounce>) -> Seq<ToolAnnounceView> {
    Seq::new(v.len(), |i: int| v[i]@)
}

/// The schema where a tool gives none.
pub open spec fn object_schema() -> JsonView {
    JsonView::object().with("type"@, JsonView::Text("object"@))
}

/// The schema where a tool gives none.
pub fn default_input_schema() -> (r: Json)
    ensures
        r@ == object_schema(),
{
    Json::object().with("type", Json::text("object"))
}

/// A tool as JSON.
pub open spec fn tool_announce_json(t: ToolAnnounceView) -> JsonView {
    JsonView::object().with("description"@, JsonView::Text(t.description)).with(
        "inputSchema"@,
        t.input_schema,
    ).with("name"@, JsonView::Text(t.name))
}

/// The description of a tool, an empty one by default.
pub open spec fn read_description(j: JsonView) -> Field<Seq<char>> {
    match j.text_field("description"@) {
        Field::Missing => Field::Value(Seq::empty()),
        other => other,
    }
}

/// The tool in the fields of a record, if it is one.
pub open spec fn tool_announce_from(j: JsonView) -> Option<ToolAnnounceView> {
    match (j.text_field("name"@), read_description(j)) {
        (Field::Value(name), Field::Value(description)) => Some(
            ToolAnnounceView {
                name,
                description,
                input_schema: match j.member("inputSchema"@) {
                    Some(s) => s,
                    None => object_schema(),
                },
            },
        ),
        _ => None,
    }
}

/// The tool in a JSON value, if it is one.
pub open spec fn read_tool_announce(j: JsonView) -> Option<ToolAnnounceView> {
    match record_fields(j, seq!["name"@, "description"@, "inputSchema"@], 1) {
        Some(fields) => tool_announce_from(fields),
        None => None,
    }
}

/// The tools in a list of values, if all are tools.
pub open spec fn read_tools(items: Seq<JsonView>) -> Option<Seq<ToolAnnounceView>>
    decreases items.len(),
{
    if items.len() == 0 {
        Some(Seq::empty())
    } else {
        match (read_tools(items.drop_last()), read_tool_announce(items.last())) {
            (Some(before), Some(t)) => Some(before.push(t)),
            _ => None,
        }
    }
}

/// The models in a list of values, if all are models.
pub open spec fn read_models(items: Seq<JsonView>) -> Option<Seq<ModelView>>
    decreases items.len(),
{
    if items.len() == 0 {
        Some(Seq::empty())
    } else {
        match (read_models(items.drop_last()), read_model(items.last())) {
            (Some(before), Some(m)) => Some(before.push(m)),
            _ => None,
        }
    }
}

impl ToolAnnounce {
    /// The tool as JSON.
    pub fn to_json(&self) -> (r: Json)
        ensures
            r@ == tool_announce_json(self@),
    {
        Json::object().with("description", Json::text(self.description.as_str())).with(
            "inputSchema",
            self.input_schema.clone(),
        ).with("name", Json::text(self.name.as_str()))
    }

    /// Reads a tool.
    pub fn from_json(j: &Json) -> (r: Option<ToolAnnounce>)
        ensures
            match r {
                Some(t) => read_tool_announce(j@) == Some(t@),
                None => read_tool_announce(j@) is None,
            },
    {
        let names: Vec<&str> = vec!["name", "description", "inputSchema"];
        assert(strs_view(names@) =~= seq!["name"@, "description"@, "inputSchema"@]);
        let fields = match j.record_fields(&names, 1) {
            Some(f) => f,
            None => return None,
        };
        let j = &fields;
        let name = match j.text_field("name") {
            Field::Value(t) => t,
            _ => return None,
        };
        let description = match j.text_field("description") {
            Field::Value(t) => t,
            Field::Missing => {
                let t = String::new();
                assert(t@ =~= Seq::empty());
                t
            },
            Field::Wrong => return None,
        };
        let input_schema = match j.get("inputSchema") {
            Some(s) => s.clone(),
            None => default_input_schema(),
        };
        Some(ToolAnnounce { name, description, input_schema })
    }
}

/// Reads a list of tools.
fn tools_from(items: &Vec<Json>) -> (r: Option<Vec<ToolAnnounce>>)
    ensures
        match r {
            Some(v) => read_tools(items_view(items@)) == Some(announced_view(v@)),
            None => read_tools(items_view(items@)) is None,
        },
{
    let ghost all = items_view(items@);
    let mut out: Vec<ToolAnnounce> = Vec::new();
    let mut ok = true;
    let mut i: usize = 0;
    assert(all.take(0) =~= Seq::empty());
    assert(announced_view(out@) =~= Seq::empty());
    while i < items.len()
        invariant
            i <= items@.len(),
            all == items_view(items@),
            ok ==> read_tools(all.take(i as int)) == Some(announced_view(out@)),
            !ok ==> read_tools(all.take(i as int)) is None,
        decreases items@.len() - i,
    {
        assert(all.take(i + 1).drop_last() =~= all.take(i as int));
        assert(all.take(i + 1).last() == items@[i as int]@);
        match ToolAnnounce::from_json(&items[i]) {
            Some(t) => {
                let ghost was = announced_view(out@);
                let ghost v = t@;
                out.push(t);
                assert(announced_view(out@) =~= was.push(v));
            },
            None => {
                ok = false;
            },
        }
        i += 1;
    }
    assert(all.take(i as int) =~= all);
    if ok {
        Some(out)
    } else {
        None
    }
}

/// Reads a list of models.
fn models_from(items: &Vec<Json>) -> (r: Option<Vec<ModelAnnounce>>)
    ensures
        match r {
            Some(v) => read_models(items_view(items@)) == Some(models_view(v@)),
            None => read_models(items_view(items@)) is None,
        },
{
    let ghost all = items_view(items@);
    let mut out: Vec<ModelAnnounce> = Vec::new();
    let mut ok = true;
    let mut i: usize = 0;
    assert(all.take(0) =~= Seq::empty());
    assert(models_view(out@) =~= Seq::empty());
    while i < items.len()
        invariant
            i <= items@.len(),
            all == items_view(items@),
            ok ==> read_models(all.take(i as int)) == Some(models_view(out@)),
            !ok ==> read_models(all.take(i as int)) is None,
        decreases items@.len() - i,
    {
        assert(all.take(i + 1).drop_last() =~= all.take(i as int));
        assert(all.take(i + 1).last() == items@[i as int]@);
        match ModelAnnounce::from_json(&items[i]) {
            Some(m) => {
                let ghost was = models_view(out@);
                let ghost v = m@;
                out.push(m);
                assert(models_view(out@) =~= was.push(v));
            },
            None => {
                ok = false;
            },
        }
        i += 1;
    }
    assert(all.take(i as int) =~= all);
    if ok {
        Some(out)
    } else {
        None
    }
}

// ---------------------------------------------------------------------------
// Records
// ---------------------------------------------------------------------------

/// What a node publishes.
pub struct AnnouncementRecord {
    /// The version: 1 has tools only, 2 tools and models.
    pub v: u8,
    /// The publishing peer.
    pub peer_id: String,
    pub tools: Vec<ToolAnnounce>,
    pub models: Vec<ModelAnnounce>,
    /// A description in words.
    pub description: Option<String>,
    /// Addresses for direct connections.
    pub addrs: Vec<String>,
    /// Unix time in seconds when the record was built.
    pub ts: u64,
}

/// The model of [`AnnouncementRecord`].
#[verifier::ext_equal]
pub struct RecordView {
    pub v: int,
    pub peer_id: Seq<char>,
    pub tools: Seq<ToolAnnounceView>,
    pub models: Seq<ModelView>,
    pub description: Option<Seq<char>>,
    pub addrs: Seq<Seq<char>>,
    pub ts: int,
}

impl View for AnnouncementRecord {
    type V = RecordView;

    open spec fn view(&self) -> RecordView {
        RecordView {
            v: self.v as int,
            peer_id: self.peer_id@,
            tools: announced_view(self.tools@),
            models: models_view(self.models@),
            description: string_view(self.description),
            addrs: texts_view(self.addrs@),
            ts: self.ts as int,
        }
    }
}

/// The tools of a record as JSON.
pub open spec fn tools_json(tools: Seq<ToolAnnounceView>) -> JsonView {
    JsonView::Array(Seq::new(tools.len(), |i: int| tool_announce_json(tools[i])))
}

/// The models of a record as JSON.
pub open spec fn models_json(models: Seq<ModelView>) -> JsonView {
    JsonView::Array(Seq::new(models.len(), |i: int| model_json(models[i])))
}

/// A record as JSON.
pub open spec fn record_json(r: RecordView) -> JsonView {
    let start = JsonView::object().with("addrs"@, JsonView::Array(text_values(r.addrs)));
    let middle = match r.description {
        Some(d) => start.with("description"@, JsonView::Text(d)),
        None => start,
    };
    middle.with("models"@, models_json(r.models)).with("peer_id"@, JsonView::Text(r.peer_id)).with(
        "tools"@,
        tools_json(r.tools),
    ).with("ts"@, JsonView::Number(NumberView::Unsigned(r.ts))).with(
        "v"@,
        JsonView::Number(NumberView::Unsigned(r.v)),
    )
}

/// The models of a record, none by default.
pub open spec fn models_member(j: JsonView) -> Option<Seq<ModelView>> {
    match j.member("models"@) {
        None => Some(Seq::empty()),
        Some(JsonView::Array(items)) => read_models(items),
        Some(_) => None,
    }
}

/// The tools of a record.
pub open spec fn tools_member(j: JsonView) -> Option<Seq<ToolAnnounceView>> {
    match j.member("tools"@) {
        Some(JsonView::Array(items)) => read_tools(items),
        _ => None,
    }
}

/// The announcement in the fields of a record, if it is one.
pub open spec fn record_from(j: JsonView) -> Option<RecordView> {
    match (
        (j.natural_field("v"@, 255), j.text_field("peer_id"@), tools_member(j)),
        (models_member(j), optional_text(j, "description"@)),
        (j.texts_field("addrs"@), j.natural_field("ts"@, u64::MAX as int)),
    ) {
        (
            (Field::Value(v), Field::Value(peer_id), Some(tools)),
            (Some(models), Field::Value(description)),
            (Field::Value(addrs), Field::Value(ts)),
        ) => Some(RecordView { v, peer_id, tools, models, description, addrs, ts }),
        _ => None,
    }
}

/// The record in a JSON value, if it is one.
pub open spec fn read_record(j: JsonView) -> Option<RecordView> {
    match record_fields(j, seq!["v"@, "peer_id"@, "tools"@, "models"@, "description"@, "addrs"@, "ts"@], 7) {
        Some(fields) => record_from(fields),
        None => None,
    }
}

impl AnnouncementRecord {
    /// The record as JSON.
    pub fn to_json(&self) -> (r: Json)
        ensures
            r@ == record_json(self@),
    {
        let mut tools: Vec<Json> = Vec::new();
        let mut i: usize = 0;
        while i < self.tools.len()
            invariant
                i <= self.tools@.len(),
                tools@.len() == i,
                forall|j: int| 0 <= j < i ==> (#[trigger] tools@[j])@ == tool_announce_json(self.tools@[j]@),
            decreases self.tools@.len() - i,
        {
            tools.push(self.tools[i].to_json());
            i += 1;
        }
        let tools_list = Json::array(tools);
        assert(tools_list@->Array_0 =~= tools_json(self@.tools)->Array_0);
        let mut models: Vec<Json> = Vec::new();
        let mut k: usize = 0;
        while k < self.models.len()
            invariant
                k <= self.models@.len(),
                models@.len() == k,
                forall|j: int| 0 <= j < k ==> (#[trigger] models@[j])@ == model_json(self.models@[j]@),
            decreases self.models@.len() - k,
        {
            models.push(self.models[k].to_json());
            k += 1;
        }
        let models_list = Json::array(models);
        assert(models_list@->Array_0 =~= models_json(self@.models)->Array_0);
        let start = Json::object().with("addrs", text_array(self.addrs.as_slice()));
        let middle = match &self.description {
            Some(d) => start.with("description", Json::text(d.as_str())),
            None => start,
        };
        middle.with("models", models_list).with("peer_id", Json::text(self.peer_id.as_str())).with(
            "tools",
            tools_list,
        ).with("ts", Json::natural(self.ts)).with("v", Json::natural(self.v as u64))
    }

    /// Reads a record.
    pub fn from_json(j: &Json) -> (r: Option<AnnouncementRecord>)
        ensures
            match r {
                Some(a) => read_record(j@) == Some(a@),
                None => read_record(j@) is None,
            },
    {
        let names: Vec<&str> = vec!["v", "peer_id", "tools", "models", "description", "addrs", "ts"];
        assert(strs_view(names@) =~= seq!["v"@, "peer_id"@, "tools"@, "models"@, "description"@, "addrs"@, "ts"@]);
        let fields = match j.record_fields(&names, 7) {
            Some(f) => f,
            None => return None,
        };
        let j = &fields;
        let v: u8 = match j.natural_field("v", 255) {
            Field::Value(n) => n as u8,
            _ => return None,
        };
        let peer_id = match j.text_field("peer_id") {
            Field::Value(t) => t,
            _ => return None,
        };
        let tools = match j.get("tools") {
            Some(Json::Array(items)) => {
                assert(items_view(items@) =~= j@.member("tools"@)->0->Array_0);
                match tools_from(items) {
                    Some(t) => t,
                    None => return None,
                }
            },
            _ => return None,
        };
        let models = match j.get("models") {
            None => {
                let m: Vec<ModelAnnounce> = Vec::new();
                assert(models_view(m@) =~= Seq::empty());
                m
            },
            Some(Json::Array(items)) => {
                assert(items_view(items@) =~= j@.member("models"@)->0->Array_0);
                match models_from(items) {
                    Some(m) => m,
                    None => return None,
                }
            },
            Some(_) => return None,
        };
        let description = match optional_text_of(j, "description") {
            Field::Value(d) => d,
            _ => return None,
        };
        let addrs = match j.texts_field("addrs") {
            Field::Value(a) => a,
            _ => return None,
        };
        let ts: u64 = match j.natural_field("ts", u64::MAX) {
            Field::Value(n) => n,
            _ => return None,
        };
        Some(AnnouncementRecord { v, peer_id, tools, models, description, addrs, ts })
    }

    /// The record as bytes.
    pub fn to_bytes(&self) -> (r: Vec<u8>)
        ensures
            r@ == vstd::utf8::encode_utf8(printed(record_json(self@))),
            canonical(record_json(self@), 127) ==> parsed(r@) == Some(record_json(self@)),
    {
        self.to_json().to_bytes()
    }

    /// Reads a record from bytes.  Of a name that an object holds twice, the
    /// last value counts.
    pub fn from_bytes(bytes: &[u8]) -> (r: Option<AnnouncementRecord>)
        ensures
            match parsed(bytes@) {
                Some(v) => match r {
                    Some(a) => read_record(v) == Some(a@),
                    None => read_record(v) is None,
                },
                None => r is None,
            },
    {
        match Json::from_bytes(bytes) {
            Some(v) => AnnouncementRecord::from_json(&v),
            None => None,
        }
    }

    /// What the record says of its peer.
    pub fn to_peer_info(&self) -> (r: PeerInfo)
        ensures
            r@ == peer_of(self@),
    {
        let mut tools: Vec<ToolSummary> = Vec::new();
        let mut i: usize = 0;
        while i < self.tools.len()
            invariant
                i <= self.tools@.len(),
                tools@.len() == i,
                forall|j: int| 0 <= j < i ==> (#[trigger] tools@[j])@ == summary_of(self.tools@[j]@),
            decreases self.tools@.len() - i,
        {
            tools.push(
                ToolSummary {
                    name: self.tools[i].name.clone(),
                    description: self.tools[i].description.clone(),
                    input_schema: Some(self.tools[i].input_schema.clone()),
                },
            );
            i += 1;
        }
        assert(summaries_view(tools@) =~= peer_of(self@).tools);
        PeerInfo {
            peer_id: self.peer_id.clone(),
            description: match &self.description {
                Some(d) => Some(d.clone()),
                None => None,
            },
            addrs: copy_texts(self.addrs.as_slice()),
            tools,
            models: copy_models(&self.models),
            source: PeerSource::Libp2p,
            last_seen: self.ts,
            raw_record: Some(self.to_json()),
        }
    }
}

/// What an announced tool says to a caller.
pub open spec fn summary_of(t: ToolAnnounceView) -> SummaryView {
    SummaryView { name: t.name, description: t.description, input_schema: Some(t.input_schema) }
}

/// What a record says of its peer.
pub open spec fn peer_of(r: RecordView) -> PeerView {
    PeerView {
        peer_id: r.peer_id,
        description: r.description,
        addrs: r.addrs,
        tools: Seq::new(r.tools.len(), |i: int| summary_of(r.tools[i])),
        models: r.models,
        source: PeerSource::Libp2p,
        last_seen: r.ts,
        raw_record: Some(record_json(r)),
    }
}

// ---------------------------------------------------------------------------
// Building a record
// ---------------------------------------------------------------------------

/// A tool of the backend as it is announced.
pub open spec fn announced_tool(t: JsonView) -> ToolAnnounceView {
    ToolAnnounceView {
        name: t.text_at("name"@)->0,
        description: match t.text_at("description"@) {
            Some(d) => d,
            None => Seq::empty(),
        },
        input_schema: match t.member("inputSchema"@) {
            Some(s) => s,
            None => object_schema(),
        },
    }
}

/// The tools of the backend that are announced: those with a name, that some
/// remote agent may call.
pub open spec fn announced_tools(raw: Seq<JsonView>, rules: Map<RuleKey, Rule>) -> Seq<ToolAnnounceView>
    decreases raw.len(),
{
    if raw.len() == 0 {
        Seq::empty()
    } else {
        let before = announced_tools(raw.drop_last(), rules);
        match raw.last().text_at("name"@) {
            Some(name) => if exposed(rules, name) {
                before.push(announced_tool(raw.last()))
            } else {
                before
            },
            None => before,
        }
    }
}

/// The record of a node.
pub open spec fn built_record(
    peer_id: Seq<char>,
    addrs: Seq<Seq<char>>,
    raw: Option<Seq<JsonView>>,
    rules: Map<RuleKey, Rule>,
    models: Seq<ModelView>,
    description: Option<Seq<char>>,
    ts: int,
) -> RecordView {
    RecordView {
        v: if models.len() == 0 {
            1
        } else {
            2
        },
        peer_id,
        tools: match raw {
            Some(r) => announced_tools(r, rules),
            None => Seq::empty(),
        },
        models,
        description,
        addrs,
        ts,
    }
}

/// The tools of the backend that are announced.
fn collect_tools(raw: &Vec<Json>, permissions: &PermissionStore) -> (r: Vec<ToolAnnounce>)
    requires
        permissions.wf(),
    ensures
        announced_view(r@) == announced_tools(items_view(raw@), permissions@),
{
    let ghost all = items_view(raw@);
    let mut out: Vec<ToolAnnounce> = Vec::new();
    let mut i: usize = 0;
    assert(all.take(0) =~= Seq::empty());
    assert(announced_view(out@) =~= Seq::empty());
    while i < raw.len()
        invariant
            permissions.wf(),
            i <= raw@.len(),
            all == items_view(raw@),
            announced_view(out@) == announced_tools(all.take(i as int), permissions@),
        decreases raw@.len() - i,
    {
        assert(all.take(i + 1).drop_last() =~= all.take(i as int));
        assert(all.take(i + 1).last() == raw@[i as int]@);
        match raw[i].str_at("name") {
            Some(name) => {
                if permissions.is_network_exposed(name) {
                    let ghost was = announced_view(out@);
                    let description = match raw[i].str_at("description") {
                        Some(d) => d.to_owned(),
                        None => {
                            let d = String::new();
                            assert(d@ =~= Seq::empty());
                            d
                        },
                    };
                    let input_schema = match raw[i].get("inputSchema") {
                        Some(s) => s.clone(),
                        None => default_input_schema(),
                    };
                    out.push(ToolAnnounce { name: name.to_owned(), description, input_schema });
                    assert(announced_view(out@) =~= was.push(announced_tool(raw@[i as int]@)));
                }
            },
            None => {},
        }
        i += 1;
    }
    assert(all.take(i as int) =~= all);
    out
}

/// The texts of some addresses.
pub open spec fn addr_texts(addrs: Seq<Seq<PartView>>) -> Seq<Seq<char>> {
    Seq::new(addrs.len(), |i: int| addr_text(addrs[i]))
}

fn print_addrs(addrs: &Vec<Multiaddr>) -> (r: Vec<String>)
    ensures
        texts_view(r@) == addr_texts(addrs_view(addrs@)),
{
    let mut out: Vec<String> = Vec::new();
    let mut i: usize = 0;
    while i < addrs.len()
        invariant
            i <= addrs@.len(),
            out@.len() == i,
            forall|j: int| 0 <= j < i ==> (#[trigger] out@[j])@ == addr_text(addrs@[j]@),
        decreases addrs@.len() - i,
    {
        out.push(addrs[i].to_text());
        i += 1;
    }
    assert(texts_view(out@) =~= addr_texts(addrs_view(addrs@)));
    out
}

/// Builds the record of this node.  Without a backend the tools are empty, so
/// that its description and addresses are still visible; with one, only the
/// tools that some remote agent may call are announced.
pub fn build_record(
    peer_id: &str,
    addrs: &Vec<Multiaddr>,
    tools: Option<&Vec<Json>>,
    permissions: &PermissionStore,
    models: Vec<ModelAnnounce>,
    description: Option<String>,
    ts: u64,
) -> (r: AnnouncementRecord)
    requires
        permissions.wf(),
    ensures
        r@ == built_record(
            peer_id@,
            addr_texts(addrs_view(addrs@)),
            match tools {
                Some(t) => Some(items_view(t@)),
                None => None,
            },
            permissions@,
            models_view(models@),
            string_view(description),
            ts as int,
        ),
        r@.peer_id == peer_id@,
        r@.models == models_view(models@),
        r@.v == 2 <==> models@.len() > 0,
        r@.v == 1 <==> models@.len() == 0,
        r@.description == string_view(description),
        r@.addrs.len() == addrs@.len(),
        forall|i: int| 0 <= i < addrs@.len() ==> #[trigger] r@.addrs[i] == addr_text(addrs@[i]@),
        r@.ts == ts,
        tools is None ==> r@.tools.len() == 0,
{
    let announced = match tools {
        Some(t) => collect_tools(t, permissions),
        None => {
            let t: Vec<ToolAnnounce> = Vec::new();
            assert(announced_view(t@) =~= Seq::empty());
            t
        },
    };
    assert(models_view(models@).len() == models@.len());
    let v: u8 = if models.len() == 0 {
        1
    } else {
        2
    };
    AnnouncementRecord {
        v,
        peer_id: peer_id.to_owned(),
        tools: announced,
        models,
        description,
        addrs: print_addrs(addrs),
        ts,
    }
}

// ---------------------------------------------------------------------------
// Records of other nodes
// ---------------------------------------------------------------------------

/// The record in some bytes, if they hold one.
pub open spec fn record_in(bytes: Seq<u8>) -> Option<RecordView> {
    match parsed(bytes) {
        Some(v) => read_record(v),
        None => None,
    }
}

/// The peers after a record was found.
pub open spec fn peers_after(peers: Map<Seq<char>, PeerView>, bytes: Seq<u8>) -> Map<Seq<char>, PeerView> {
    match record_in(bytes) {
        Some(r) => peers.insert(r.peer_id, peer_of(r)),
        None => peers,
    }
}

/// A record was found in the DHT: what it says of its peer is kept.  What is
/// no announcement is passed over.  Returns whether the table has changed.
pub fn on_record_found(bytes: &[u8], table: &mut PeerTable) -> (r: bool)
    requires
        old(table).wf(),
    ensures
        final(table).wf(),
        final(table)@ == peers_after(old(table)@, bytes@),
        r == record_in(bytes@) is Some,
{
    match AnnouncementRecord::from_bytes(bytes) {
        Some(record) => {
            table.upsert(record.to_peer_info());
            true
        },
        None => false,
    }
}

// ---------------------------------------------------------------------------
// Laws
// ---------------------------------------------------------------------------

/// What a node publishes is what its peers then know of it.
pub proof fn law_published_records_reach_the_table(
    r: RecordView,
    bytes: Seq<u8>,
    peers: Map<Seq<char>, PeerView>,
)
    requires
        0 <= r.v <= 255,
        0 <= r.ts <= u64::MAX,
        parsed(bytes) == Some(record_json(r)),
    ensures
        peers_after(peers, bytes) == peers.insert(r.peer_id, peer_of(r)),
{
    law_records_read_back(r);
}

/// What peers list for a node is what it announced: its models, its
/// description, its addresses, and the time; and of its tools, with a backend,
/// those that some remote agent may call.
pub proof fn law_peers_list_what_was_announced(
    peer_id: Seq<char>,
    addrs: Seq<Seq<char>>,
    raw: Option<Seq<JsonView>>,
    rules: Map<RuleKey, Rule>,
    models: Seq<ModelView>,
    description: Option<Seq<char>>,
    ts: int,
)
    ensures
        ({
            let p = peer_of(built_record(peer_id, addrs, raw, rules, models, description, ts));
            &&& p.peer_id == peer_id
            &&& p.models == models
            &&& p.description == description
            &&& p.addrs == addrs
            &&& p.last_seen == ts
            &&& p.source is Libp2p
            &&& raw is None ==> p.tools.len() == 0
            &&& forall|i: int|
                raw is Some && 0 <= i < raw->0.len() && (#[trigger] raw->0[i]).text_at("name"@) is Some && exposed(
                    rules,
                    raw->0[i].text_at("name"@)->0,
                ) ==> exists|k: int|
                    0 <= k < p.tools.len() && (#[trigger] p.tools[k]).name == raw->0[i].text_at("name"@)->0
                        && p.tools[k].description == (match raw->0[i].text_at("description"@) {
                        Some(d) => d,
                        None => Seq::empty(),
                    }) && (raw->0[i].member("inputSchema"@) is Some ==> p.tools[k].input_schema
                        == raw->0[i].member("inputSchema"@))
            &&& forall|k: int|
                0 <= k < p.tools.len() ==> exposed(rules, (#[trigger] p.tools[k]).name)
        }),
{
    let r = built_record(peer_id, addrs, raw, rules, models, description, ts);
    let p = peer_of(r);
    if raw is Some {
        let all = raw->0;
        let announced = announced_tools(all, rules);
        assert forall|i: int|
            0 <= i < all.len() && (#[trigger] all[i]).text_at("name"@) is Some && exposed(
                rules,
                all[i].text_at("name"@)->0,
            ) implies exists|k: int|
            0 <= k < p.tools.len() && (#[trigger] p.tools[k]).name == all[i].text_at("name"@)->0
                && p.tools[k].description == (match all[i].text_at("description"@) {
                Some(d) => d,
                None => Seq::empty(),
            }) && (all[i].member("inputSchema"@) is Some ==> p.tools[k].input_schema == all[i].member(
                "inputSchema"@,
            )) by {
            law_exposed_tools_are_announced(all, rules, i);
            let k = choose|k: int| 0 <= k < announced.len() && announced[k] == announced_tool(all[i]);
            assert(p.tools[k] == summary_of(announced[k]));
        }
        assert forall|k: int| 0 <= k < p.tools.len() implies exposed(rules, (#[trigger] p.tools[k]).name) by {
            law_only_exposed_tools_are_announced(all, rules, k);
            assert(p.tools[k] == summary_of(announced[k]));
        }
    }
}

/// Only tools that some remote agent may call are announced.
pub proof fn law_only_exposed_tools_are_announced(raw: Seq<JsonView>, rules: Map<RuleKey, Rule>, i: int)
    requires
        0 <= i < announced_tools(raw, rules).len(),
    ensures
        exposed(rules, announced_tools(raw, rules)[i].name),
    decreases raw.len(),
{
    let before = announced_tools(raw.drop_last(), rules);
    if i < before.len() {
        law_only_exposed_tools_are_announced(raw.drop_last(), rules, i);
        assert(announced_tools(raw, rules)[i] == before[i]);
    }
}

/// Every named tool of the backend that some remote agent may call is
/// announced.
pub proof fn law_exposed_tools_are_announced(raw: Seq<JsonView>, rules: Map<RuleKey, Rule>, i: int)
    requires
        0 <= i < raw.len(),
        raw[i].text_at("name"@) is Some,
        exposed(rules, raw[i].text_at("name"@)->0),
    ensures
        announced_tools(raw, rules).contains(announced_tool(raw[i])),
    decreases raw.len(),
{
    let before = announced_tools(raw.drop_last(), rules);
    let all = announced_tools(raw, rules);
    if i < raw.len() - 1 {
        law_exposed_tools_are_announced(raw.drop_last(), rules, i);
        let k = choose|k: int| 0 <= k < before.len() && before[k] == announced_tool(raw[i]);
        assert(all[k] == before[k]);
    } else {
        assert(all[all.len() - 1] == announced_tool(raw[i]));
    }
}

proof fn lemma_tool_reads_back(t: ToolAnnounceView)
    ensures
        read_tool_announce(tool_announce_json(t)) == Some(t),
{
    reveal_strlit("description");
    reveal_strlit("inputSchema");
    reveal_strlit("name");
    assert("description"@.len() == 11 && "description"@[0] == 'd');
    assert("inputSchema"@.len() == 11 && "inputSchema"@[0] == 'i');
    assert("name"@.len() == 4);
    let empty = JsonView::object();
    let d = JsonView::Text(t.description);
    let a = empty.with("description"@, d);
    lemma_member_added(empty, "description"@, d);
    let b = a.with("inputSchema"@, t.input_schema);
    lemma_member_added(a, "inputSchema"@, t.input_schema);
    lemma_member_kept(a, "inputSchema"@, t.input_schema, "description"@);
    lemma_member_added(b, "name"@, JsonView::Text(t.name));
    lemma_member_kept(b, "name"@, JsonView::Text(t.name), "description"@);
    lemma_member_kept(b, "name"@, JsonView::Text(t.name), "inputSchema"@);
}

proof fn lemma_tools_read_back(tools: Seq<ToolAnnounceView>)
    ensures
        read_tools(tools_json(tools)->Array_0) == Some(tools),
    decreases tools.len(),
{
    let items = tools_json(tools)->Array_0;
    if tools.len() == 0 {
        assert(tools =~= Seq::empty());
    } else {
        lemma_tools_read_back(tools.drop_last());
        lemma_tool_reads_back(tools.last());
        assert(items.drop_last() =~= tools_json(tools.drop_last())->Array_0);
        assert(tools.drop_last().push(tools.last()) =~= tools);
    }
}

proof fn lemma_models_read_back(models: Seq<ModelView>)
    ensures
        read_models(models_json(models)->Array_0) == Some(models),
    decreases models.len(),
{
    let items = models_json(models)->Array_0;
    if models.len() == 0 {
        assert(models =~= Seq::empty());
    } else {
        lemma_models_read_back(models.drop_last());
        law_models_read_back(models.last());
        assert(items.drop_last() =~= models_json(models.drop_last())->Array_0);
        assert(models.drop_last().push(models.last()) =~= models);
    }
}

proof fn lemma_record_keys()
    ensures
        "addrs"@ != "description"@ && "addrs"@ != "models"@ && "addrs"@ != "peer_id"@ && "addrs"@ != "tools"@ && "addrs"@
            != "ts"@ && "addrs"@ != "v"@,
        "description"@ != "models"@ && "description"@ != "peer_id"@ && "description"@ != "tools"@ && "description"@
            != "ts"@ && "description"@ != "v"@,
        "models"@ != "peer_id"@ && "models"@ != "tools"@ && "models"@ != "ts"@ && "models"@ != "v"@,
        "peer_id"@ != "tools"@ && "peer_id"@ != "ts"@ && "peer_id"@ != "v"@,
        "tools"@ != "ts"@ && "tools"@ != "v"@,
        "ts"@ != "v"@,
{
    reveal_strlit("addrs");
    reveal_strlit("description");
    reveal_strlit("models");
    reveal_strlit("peer_id");
    reveal_strlit("tools");
    reveal_strlit("ts");
    reveal_strlit("v");
    assert("addrs"@.len() == 5 && "addrs"@[0] == 'a');
    assert("description"@.len() == 11);
    assert("models"@.len() == 6);
    assert("peer_id"@.len() == 7);
    assert("tools"@.len() == 5 && "tools"@[0] == 't');
    assert("ts"@.len() == 2);
    assert("v"@.len() == 1);
}

/// Every record reads back from its JSON.
pub proof fn law_records_read_back(r: RecordView)
    requires
        0 <= r.v <= 255,
        0 <= r.ts <= u64::MAX,
    ensures
        read_record(record_json(r)) == Some(r),
{
    lemma_record_keys();
    lemma_tools_read_back(r.tools);
    lemma_models_read_back(r.models);
    let empty = JsonView::object();
    let addrs = JsonView::Array(text_values(r.addrs));
    let models = models_json(r.models);
    let peer = JsonView::Text(r.peer_id);
    let tools = tools_json(r.tools);
    let ts = JsonView::Number(NumberView::Unsigned(r.ts));
    let v = JsonView::Number(NumberView::Unsigned(r.v));
    let a = empty.with("addrs"@, addrs);
    lemma_member_added(empty, "addrs"@, addrs);
    lemma_member_kept(empty, "addrs"@, addrs, "description"@);
    assert(empty.member("description"@) is None);
    let b = match r.description {
        Some(d) => a.with("description"@, JsonView::Text(d)),
        None => a,
    };
    if r.description is Some {
        let d = JsonView::Text(r.description->0);
        lemma_member_added(a, "description"@, d);
        lemma_member_kept(a, "description"@, d, "addrs"@);
    }
    let c = b.with("models"@, models);
    lemma_member_added(b, "models"@, models);
    lemma_member_kept(b, "models"@, models, "addrs"@);
    lemma_member_kept(b, "models"@, models, "description"@);
    let d = c.with("peer_id"@, peer);
    lemma_member_added(c, "peer_id"@, peer);
    lemma_member_kept(c, "peer_id"@, peer, "addrs"@);
    lemma_member_kept(c, "peer_id"@, peer, "description"@);
    lemma_member_kept(c, "peer_id"@, peer, "models"@);
    let e = d.with("tools"@, tools);
    lemma_member_added(d, "tools"@, tools);
    lemma_member_kept(d, "tools"@, tools, "addrs"@);
    lemma_member_kept(d, "tools"@, tools, "description"@);
    lemma_member_kept(d, "tools"@, tools, "models"@);
    lemma_member_kept(d, "tools"@, tools, "peer_id"@);
    let f = e.with("ts"@, ts);
    lemma_member_added(e, "ts"@, ts);
    lemma_member_kept(e, "ts"@, ts, "addrs"@);
    lemma_member_kept(e, "ts"@, ts, "description"@);
    lemma_member_kept(e, "ts"@, ts, "models"@);
    lemma_member_kept(e, "ts"@, ts, "peer_id"@);
    lemma_member_kept(e, "ts"@, ts, "tools"@);
    lemma_member_added(f, "v"@, v);
    lemma_member_kept(f, "v"@, v, "addrs"@);
    lemma_member_kept(f, "v"@, v, "description"@);
    lemma_member_kept(f, "v"@, v, "models"@);
    lemma_member_kept(f, "v"@, v, "peer_id"@);
    lemma_member_kept(f, "v"@, v, "tools"@);
    lemma_member_kept(f, "v"@, v, "ts"@);
    let items = text_values(r.addrs);
    assert(Seq::new(items.len(), |i: int| items[i]->Text_0) =~= r.addrs);
}

/// A record that came from a node's own values: its numbers fit, and the schemas
/// of its tools are not too deep.
pub open spec fn sendable(r: RecordView) -> bool {
    &&& 0 <= r.v <= 255
    &&& 0 <= r.ts <= u64::MAX
    &&& forall|i: int| 0 <= i < r.tools.len() ==> canonical((#[trigger] r.tools[i]).input_schema, 124)
    &&& forall|i: int|
        0 <= i < r.models.len() ==> ((#[trigger] r.models[i]).context_length matches Some(n) ==> 0 <= n <= u64::MAX)
}

proof fn lemma_names_rise()
    ensures
        text_lt("addrs"@, "description"@) && text_lt("addrs"@, "models"@),
        text_lt("description"@, "models"@) && text_lt("models"@, "peer_id"@),
        text_lt("peer_id"@, "tools"@) && text_lt("tools"@, "ts"@) && text_lt("ts"@, "v"@),
        text_lt("description"@, "inputSchema"@) && text_lt("inputSchema"@, "name"@),
        text_lt("context_length"@, "name"@) && text_lt("name"@, "params"@),
{
    reveal_strlit("addrs");
    reveal_strlit("description");
    reveal_strlit("models");
    reveal_strlit("peer_id");
    reveal_strlit("tools");
    reveal_strlit("ts");
    reveal_strlit("v");
    reveal_strlit("inputSchema");
    reveal_strlit("name");
    reveal_strlit("context_length");
    reveal_strlit("params");
    assert(less_at("addrs"@, "description"@, 0) && less_at("addrs"@, "models"@, 0));
    assert(less_at("description"@, "models"@, 0) && less_at("models"@, "peer_id"@, 0));
    assert(less_at("peer_id"@, "tools"@, 0) && less_at("tools"@, "ts"@, 1) && less_at("ts"@, "v"@, 0));
    assert(less_at("description"@, "inputSchema"@, 0) && less_at("inputSchema"@, "name"@, 0));
    assert(less_at("context_length"@, "name"@, 0) && less_at("name"@, "params"@, 0));
}

proof fn lemma_tool_canonical(t: ToolAnnounceView)
    requires
        canonical(t.input_schema, 124),
    ensures
        canonical(tool_announce_json(t), 125),
{
    lemma_names_rise();
    let empty = JsonView::object();
    let d = JsonView::Text(t.description);
    lemma_canonical_object(125);
    reveal_strlit("description");
    lemma_not_raw("description"@);
    lemma_canonical_with(empty, "description"@, d, 125);
    let a = empty.with("description"@, d);
    lemma_canonical_with(a, "inputSchema"@, t.input_schema, 125);
    let b = a.with("inputSchema"@, t.input_schema);
    lemma_canonical_with(b, "name"@, JsonView::Text(t.name), 125);
}

proof fn lemma_model_canonical(m: ModelView)
    requires
        m.context_length matches Some(n) ==> 0 <= n <= u64::MAX,
    ensures
        canonical(model_json(m), 125),
{
    lemma_names_rise();
    let empty = JsonView::object();
    lemma_canonical_object(125);
    reveal_strlit("context_length");
    reveal_strlit("name");
    lemma_not_raw("context_length"@);
    lemma_not_raw("name"@);
    let start = match m.context_length {
        Some(n) => empty.with("context_length"@, JsonView::Number(NumberView::Unsigned(n))),
        None => empty,
    };
    if m.context_length is Some {
        lemma_canonical_with(
            empty,
            "context_length"@,
            JsonView::Number(NumberView::Unsigned(m.context_length->0)),
            125,
        );
    }
    lemma_canonical_with(start, "name"@, JsonView::Text(m.name), 125);
    let middle = start.with("name"@, JsonView::Text(m.name));
    if m.params is Some {
        lemma_canonical_with(middle, "params"@, JsonView::Text(m.params->0), 125);
    }
}

/// Every record survives being written and read.
pub proof fn law_records_survive_the_wire(r: RecordView)
    requires
        sendable(r),
    ensures
        canonical(record_json(r), 127),
{
    lemma_names_rise();
    let empty = JsonView::object();
    let addrs = JsonView::Array(text_values(r.addrs));
    let models = models_json(r.models);
    let tools = tools_json(r.tools);
    let peer = JsonView::Text(r.peer_id);
    let ts = JsonView::Number(NumberView::Unsigned(r.ts));
    let v = JsonView::Number(NumberView::Unsigned(r.v));
    assert(canonical(addrs, 126)) by {
        assert forall|i: int| 0 <= i < r.addrs.len() implies canonical(#[trigger] text_values(r.addrs)[i], 125) by {}
    }
    assert(canonical(models, 126)) by {
        assert forall|i: int| 0 <= i < r.models.len() implies canonical(#[trigger] models->Array_0[i], 125) by {
            lemma_model_canonical(r.models[i]);
        }
    }
    assert(canonical(tools, 126)) by {
        assert forall|i: int| 0 <= i < r.tools.len() implies canonical(#[trigger] tools->Array_0[i], 125) by {
            lemma_tool_canonical(r.tools[i]);
        }
    }
    lemma_canonical_object(127);
    reveal_strlit("addrs");
    lemma_not_raw("addrs"@);
    lemma_canonical_with(empty, "addrs"@, addrs, 127);
    let a = empty.with("addrs"@, addrs);
    let b = match r.description {
        Some(d) => a.with("description"@, JsonView::Text(d)),
        None => a,
    };
    if r.description is Some {
        lemma_canonical_with(a, "description"@, JsonView::Text(r.description->0), 127);
    }
    lemma_canonical_with(b, "models"@, models, 127);
    let c = b.with("models"@, models);
    lemma_canonical_with(c, "peer_id"@, peer, 127);
    let d = c.with("peer_id"@, peer);
    lemma_canonical_with(d, "tools"@, tools, 127);
    let e = d.with("tools"@, tools);
    lemma_canonical_with(e, "ts"@, ts, 127);
    let f = e.with("ts"@, ts);
    lemma_canonical_with(f, "v"@, v, 127);
}

} // verus!
