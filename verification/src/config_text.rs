//! Writing the configuration, so that it reads back.
use vstd::prelude::*;

use crate::config::{
    advertise_field, default_config, parsed_toml, policy_field, read_config, read_memory, read_models, read_network,
    read_sandbox, read_shell, section, AdvertiseModels, AdvertiseView, Config, ConfigView, MemoryConfig, MemoryView,
    ModelsConfig, ModelsView, NetworkConfig, NetworkView, SandboxDefaults, SandboxNetworkPolicy, SandboxView,
    ShellConfig, ShellView,
};
use crate::json::{
    json_option, lemma_member_added, lemma_member_kept, lemma_not_raw, names_rise, raw_name, string_view, to_value, Field, Json, JsonView,
    NumberView,
};
use crate::manifest::{text_array, text_values};
use crate::text::{lemma_text_lt_irreflexive, lemma_text_lt_transitive, less_at, text_lt};

verus! {

// ---------------------------------------------------------------------------
// TOML texts
// ---------------------------------------------------------------------------

/// What `toml::to_string_pretty` writes for a value, or nothing where TOML has
/// no text for it.
pub uninterp spec fn printed_toml(value: JsonView) -> Option<Seq<char>>;

/// A text of printable characters.
pub open spec fn printable(t: Seq<char>) -> bool {
    forall|i: int| 0 <= i < t.len() ==> ' ' <= #[trigger] t[i] && t[i] != '\x7f'
}

/// The value is at most `depth` levels deep, holds no null, its numbers are
/// integers of 64 bits, its texts are printable, the names in its objects
/// rise, and none of them is [`raw_name`].
pub open spec fn tidy(v: JsonView, depth: nat) -> bool
    decreases depth,
{
    match v {
        JsonView::Null => false,
        JsonView::Bool(_) => true,
        JsonView::Text(t) => printable(t),
        JsonView::Number(NumberView::Unsigned(n)) => 0 <= n <= u64::MAX,
        JsonView::Number(NumberView::Negative(n)) => i64::MIN <= n < 0,
        JsonView::Number(NumberView::Float(_)) => false,
        JsonView::Array(items) => depth > 0 && forall|i: int|
            0 <= i < items.len() ==> tidy(#[trigger] items[i], (depth - 1) as nat),
        JsonView::Object(members) => depth > 0 && names_rise(members) && forall|i: int|
            0 <= i < members.len() ==> (#[trigger] members[i]).0 != raw_name() && tidy(
                members[i].1,
                (depth - 1) as nat,
            ),
    }
}

/// `toml::to_string_pretty`: what it returns is a function of the value alone,
/// and `toml::from_str` reads it back as the value, where the value is a table
/// of printable texts, truth values, integers of 64 bits, lists and tables,
/// not more than four levels deep, the members of its tables stand in the order
/// in which a `toml` map keeps them, and none of them has the name that
/// `serde_json` keeps for raw values, which reads the document.  The layout of
/// the text is left unsaid.
#[verifier::external_body]
fn print_toml(json: &Json) -> (r: Option<String>)
    ensures
        string_view(r) == printed_toml(json@),
        json@ is Object && tidy(json@, 4) ==> r is Some && parsed_toml(r->0@) == Some(json@),
{
    toml::to_string_pretty(&to_value(json)).ok()
}

// ---------------------------------------------------------------------------
// The document of a configuration
// ---------------------------------------------------------------------------

/// An object with one more member, where there is a value for it.
pub open spec fn with_some(o: JsonView, key: Seq<char>, value: Option<JsonView>) -> JsonView {
    match value {
        Some(v) => o.with(key, v),
        None => o,
    }
}

/// A natural number as JSON.
pub open spec fn natural_json(n: int) -> JsonView {
    JsonView::Number(NumberView::Unsigned(n))
}

/// An optional text as JSON.
pub open spec fn some_text(t: Option<Seq<char>>) -> Option<JsonView> {
    match t {
        Some(s) => Some(JsonView::Text(s)),
        None => None,
    }
}

/// An optional number as JSON.
pub open spec fn some_natural(n: Option<int>) -> Option<JsonView> {
    match n {
        Some(v) => Some(natural_json(v)),
        None => None,
    }
}

/// A list of texts as JSON.
pub open spec fn texts_json(texts: Seq<Seq<char>>) -> JsonView {
    JsonView::Array(text_values(texts))
}

/// An optional list of texts as JSON.
pub open spec fn some_texts(texts: Option<Seq<Seq<char>>>) -> Option<JsonView> {
    match texts {
        Some(t) => Some(texts_json(t)),
        None => None,
    }
}

/// The table `[network]`.
pub open spec fn network_doc(n: NetworkView) -> JsonView {
    let a = JsonView::object().with("bootstrap"@, texts_json(n.bootstrap));
    let b = with_some(a, "description"@, some_text(n.description));
    let c = with_some(b, "identity_path"@, some_text(n.identity_path));
    let d = with_some(c, "listen_port"@, some_natural(n.listen_port));
    d.with("relay_server"@, JsonView::Bool(n.relay_server))
}

/// The value of `advertise`.
pub open spec fn advertise_doc(a: AdvertiseView) -> JsonView {
    match a {
        AdvertiseView::All => JsonView::Text("all"@),
        AdvertiseView::Nothing => JsonView::Text("none"@),
        AdvertiseView::List(names) => texts_json(names),
    }
}

/// The table `[models]`.
pub open spec fn models_doc(m: ModelsView) -> JsonView {
    let a = JsonView::object().with("advertise"@, advertise_doc(m.advertise));
    let b = with_some(a, "endpoint"@, some_text(m.endpoint));
    b.with("proxy_port"@, natural_json(m.proxy_port))
}

/// The table `[tools.shell]`.
pub open spec fn shell_doc(s: ShellView) -> JsonView {
    JsonView::object().with("blocked_patterns"@, texts_json(s.blocked_patterns)).with(
        "default_timeout_secs"@,
        natural_json(s.default_timeout_secs),
    ).with("max_output_bytes"@, natural_json(s.max_output_bytes))
}

/// The table `[memory.ingest]`.
pub open spec fn ingest_doc(m: MemoryView) -> JsonView {
    JsonView::object().with("chunk_max_chars"@, natural_json(m.chunk_max_chars)).with(
        "chunk_overlap_chars"@,
        natural_json(m.chunk_overlap_chars),
    )
}

/// The table `[memory.watch]`.
pub open spec fn watch_doc(m: MemoryView) -> JsonView {
    JsonView::object().with("debounce_secs"@, natural_json(m.debounce_secs)).with(
        "watch_transcripts"@,
        JsonView::Bool(m.watch_transcripts),
    )
}

/// The table `[memory]`.
pub open spec fn memory_doc(m: MemoryView) -> JsonView {
    let a = with_some(JsonView::object(), "db_path"@, some_text(m.db_path));
    let b = a.with("enabled"@, JsonView::Bool(m.enabled));
    let c = with_some(b, "identity_path"@, some_text(m.identity_path));
    let d = c.with("ingest"@, ingest_doc(m));
    let e = with_some(d, "instructions_path"@, some_text(m.instructions_path));
    let f = with_some(e, "notes_dir"@, some_text(m.notes_dir));
    let g = with_some(f, "skill_dirs"@, some_texts(m.skill_dirs));
    let h = with_some(g, "transcript_dir"@, some_text(m.transcript_dir));
    h.with("watch"@, watch_doc(m))
}

/// The word of a network policy.
pub open spec fn policy_word(p: SandboxNetworkPolicy) -> Seq<char> {
    match p {
        SandboxNetworkPolicy::NoAccess => "none"@,
        SandboxNetworkPolicy::Allow => "allow"@,
        SandboxNetworkPolicy::OutboundOnly => "outbound_only"@,
    }
}

/// The table `[sandbox]`.
pub open spec fn sandbox_doc(s: SandboxView) -> JsonView {
    JsonView::object().with("enabled"@, JsonView::Bool(s.enabled)).with("memory_bytes"@, natural_json(s.memory_bytes)).with(
        "network"@,
        JsonView::Text(policy_word(s.network)),
    ).with("read_only_mounts"@, texts_json(s.read_only_mounts)).with("timeout_secs"@, natural_json(s.timeout_secs))
}

/// The document of a configuration.  Settings without a value are left out.
pub open spec fn config_doc(c: ConfigView) -> JsonView {
    JsonView::object().with("memory"@, memory_doc(c.memory)).with("models"@, models_doc(c.models)).with(
        "network"@,
        network_doc(c.network),
    ).with("sandbox"@, sandbox_doc(c.sandbox)).with("tools"@, JsonView::object().with("shell"@, shell_doc(c.shell)))
}

fn put_some(o: Json, key: &str, value: Option<Json>) -> (r: Json)
    requires
        o@ is Object,
    ensures
        r@ == with_some(o@, key@, json_option(value)),
        r@ is Object,
{
    match value {
        Some(v) => o.with(key, v),
        None => o,
    }
}

fn text_of(t: &Option<String>) -> (r: Option<Json>)
    ensures
        json_option(r) == some_text(string_view(*t)),
{
    match t {
        Some(s) => Some(Json::text(s.as_str())),
        None => None,
    }
}

impl NetworkConfig {
    fn to_document(&self) -> (r: Json)
        ensures
            r@ == network_doc(self@),
    {
        let port = match self.listen_port {
            Some(p) => Some(Json::natural(p as u64)),
            None => None,
        };
        let a = Json::object().with("bootstrap", text_array(self.bootstrap.as_slice()));
        let b = put_some(a, "description", text_of(&self.description));
        let c = put_some(b, "identity_path", text_of(&self.identity_path));
        let d = put_some(c, "listen_port", port);
        d.with("relay_server", Json::Bool(self.relay_server))
    }
}

impl ModelsConfig {
    fn to_document(&self) -> (r: Json)
        ensures
            r@ == models_doc(self@),
    {
        let advertise = match &self.advertise {
            AdvertiseModels::All(_) => Json::text("all"),
            AdvertiseModels::Nothing(_) => Json::text("none"),
            AdvertiseModels::List(names) => text_array(names.as_slice()),
        };
        let a = Json::object().with("advertise", advertise);
        let b = put_some(a, "endpoint", text_of(&self.endpoint));
        b.with("proxy_port", Json::natural(self.proxy_port as u64))
    }
}

impl ShellConfig {
    fn to_document(&self) -> (r: Json)
        ensures
            r@ == shell_doc(self@),
    {
        Json::object().with("blocked_patterns", text_array(self.blocked_patterns.as_slice())).with(
            "default_timeout_secs",
            Json::natural(self.default_timeout_secs),
        ).with("max_output_bytes", Json::natural(self.max_output_bytes as u64))
    }
}

impl MemoryConfig {
    fn to_document(&self) -> (r: Json)
        ensures
            r@ == memory_doc(self@),
    {
        let ingest = Json::object().with("chunk_max_chars", Json::natural(self.ingest.chunk_max_chars as u64)).with(
            "chunk_overlap_chars",
            Json::natural(self.ingest.chunk_overlap_chars as u64),
        );
        let watch = Json::object().with("debounce_secs", Json::natural(self.watch.debounce_secs)).with(
            "watch_transcripts",
            Json::Bool(self.watch.watch_transcripts),
        );
        let skills = match &self.skill_dirs {
            Some(dirs) => Some(text_array(dirs.as_slice())),
            None => None,
        };
        let a = put_some(Json::object(), "db_path", text_of(&self.db_path));
        let b = a.with("enabled", Json::Bool(self.enabled));
        let c = put_some(b, "identity_path", text_of(&self.identity_path));
        let d = c.with("ingest", ingest);
        let e = put_some(d, "instructions_path", text_of(&self.instructions_path));
        let f = put_some(e, "notes_dir", text_of(&self.notes_dir));
        let g = put_some(f, "skill_dirs", skills);
        let h = put_some(g, "transcript_dir", text_of(&self.transcript_dir));
        h.with("watch", watch)
    }
}

impl SandboxDefaults {
    fn to_document(&self) -> (r: Json)
        ensures
            r@ == sandbox_doc(self@),
    {
        let network = match self.network {
            SandboxNetworkPolicy::NoAccess => Json::text("none"),
            SandboxNetworkPolicy::Allow => Json::text("allow"),
            SandboxNetworkPolicy::OutboundOnly => Json::text("outbound_only"),
        };
        Json::object().with("enabled", Json::Bool(self.enabled)).with("memory_bytes", Json::natural(self.memory_bytes)).with(
            "network",
            network,
        ).with("read_only_mounts", text_array(self.read_only_mounts.as_slice())).with(
            "timeout_secs",
            Json::natural(self.timeout_secs),
        )
    }
}

impl Config {
    /// The document of the configuration.
    pub fn to_document(&self) -> (r: Json)
        ensures
            r@ == config_doc(self@),
    {
        Json::object().with("memory", self.memory.to_document()).with("models", self.models.to_document()).with(
            "network",
            self.network.to_document(),
        ).with("sandbox", self.sandbox.to_document()).with(
            "tools",
            Json::object().with("shell", self.tools.shell.to_document()),
        )
    }
}

// ---------------------------------------------------------------------------
// What can be written
// ---------------------------------------------------------------------------

/// Texts of printable characters.
pub open spec fn all_printable(texts: Seq<Seq<char>>) -> bool {
    forall|i: int| 0 <= i < texts.len() ==> printable(#[trigger] texts[i])
}

/// A text of printable characters, or none.
pub open spec fn printable_if_there(t: Option<Seq<char>>) -> bool {
    t is Some ==> printable(t->0)
}

/// The numbers are those of their types.
pub open spec fn in_range(c: ConfigView) -> bool {
    &&& c.network.listen_port is Some ==> 0 <= c.network.listen_port->0 <= 65535
    &&& 0 <= c.models.proxy_port <= 65535
    &&& 0 <= c.shell.default_timeout_secs <= u64::MAX
    &&& 0 <= c.shell.max_output_bytes <= usize::MAX
    &&& 0 <= c.memory.debounce_secs <= u64::MAX
    &&& 0 <= c.memory.chunk_max_chars <= usize::MAX
    &&& 0 <= c.memory.chunk_overlap_chars <= usize::MAX
    &&& 0 <= c.sandbox.memory_bytes <= u64::MAX
    &&& 0 <= c.sandbox.timeout_secs <= u64::MAX
}

/// The texts are printable.
pub open spec fn writable(c: ConfigView) -> bool {
    &&& all_printable(c.network.bootstrap)
    &&& printable_if_there(c.network.description)
    &&& printable_if_there(c.network.identity_path)
    &&& printable_if_there(c.models.endpoint)
    &&& c.models.advertise is List ==> all_printable(c.models.advertise->List_0)
    &&& all_printable(c.shell.blocked_patterns)
    &&& printable_if_there(c.memory.db_path)
    &&& printable_if_there(c.memory.transcript_dir)
    &&& c.memory.skill_dirs is Some ==> all_printable(c.memory.skill_dirs->0)
    &&& printable_if_there(c.memory.notes_dir)
    &&& printable_if_there(c.memory.identity_path)
    &&& printable_if_there(c.memory.instructions_path)
    &&& all_printable(c.sandbox.read_only_mounts)
}

// ---------------------------------------------------------------------------
// Reading back
// ---------------------------------------------------------------------------

/// The object holds these fields: the given ones under their names, in rising
/// order, and no others.
#[verifier::opaque]
pub open spec fn holds(o: JsonView, fields: Seq<(Seq<char>, Option<JsonView>)>) -> bool {
    &&& o is Object
    &&& names_rise(o->Object_0)
    &&& fields.len() == 0 ==> o->Object_0.len() == 0
    &&& forall|i: int|
        0 <= i < o->Object_0.len() ==> (#[trigger] o->Object_0[i]).0 == fields.last().0 || text_lt(
            o->Object_0[i].0,
            fields.last().0,
        )
    &&& forall|j: int| 0 <= j < fields.len() - 1 ==> text_lt((#[trigger] fields[j]).0, fields.last().0)
    &&& forall|j: int| 0 <= j < fields.len() ==> o.member((#[trigger] fields[j]).0) == fields[j].1
}

/// A name that comes after all members is no member.
proof fn lemma_member_beyond(members: Seq<(Seq<char>, JsonView)>, key: Seq<char>)
    requires
        forall|i: int| 0 <= i < members.len() ==> text_lt((#[trigger] members[i]).0, key),
    ensures
        JsonView::Object(members).member(key) is None,
    decreases members.len(),
{
    if members.len() > 0 {
        assert(text_lt(members[members.len() - 1].0, key));
        lemma_text_lt_irreflexive(key);
        assert forall|i: int| 0 <= i < members.drop_last().len() implies text_lt(
            (#[trigger] members.drop_last()[i]).0,
            key,
        ) by {
            assert(text_lt(members[i].0, key));
        }
        lemma_member_beyond(members.drop_last(), key);
    }
}

/// A field whose name comes after the others is added to an object.
proof fn lemma_holds(
    o: JsonView,
    fields: Seq<(Seq<char>, Option<JsonView>)>,
    key: Seq<char>,
    value: Option<JsonView>,
    depth: nat,
)
    requires
        holds(o, fields),
        fields.len() > 0 ==> text_lt(fields.last().0, key),
        key.len() > 0 && key[0] != '$',
    ensures
        holds(with_some(o, key, value), fields.push((key, value))),
        tidy(o, (depth + 1) as nat) && (value is Some ==> tidy(value->0, depth)) ==> tidy(
            with_some(o, key, value),
            (depth + 1) as nat,
        ),
{
    reveal(holds);
    let before = o->Object_0;
    let now = with_some(o, key, value);
    let after = now->Object_0;
    let all = fields.push((key, value));
    assert forall|i: int| 0 <= i < before.len() implies text_lt((#[trigger] before[i]).0, key) by {
        if before[i].0 != fields.last().0 {
            lemma_text_lt_transitive(before[i].0, fields.last().0, key);
        }
    }
    lemma_member_beyond(before, key);
    assert forall|i: int, j: int| 0 <= i < j < after.len() implies text_lt(
        (#[trigger] after[i]).0,
        (#[trigger] after[j]).0,
    ) by {
        if j < before.len() {
            assert(after[i] == before[i] && after[j] == before[j]);
        } else {
            assert(after[i] == before[i]);
        }
    }
    assert forall|j: int| 0 <= j < all.len() - 1 implies text_lt((#[trigger] all[j]).0, all.last().0) by {
        assert(all[j] == fields[j]);
        if j < fields.len() - 1 {
            lemma_text_lt_transitive(fields[j].0, fields.last().0, key);
        }
    }
    assert forall|i: int| 0 <= i < after.len() implies (#[trigger] after[i]).0 == all.last().0 || text_lt(
        after[i].0,
        all.last().0,
    ) by {
        if i < before.len() {
            assert(after[i] == before[i]);
        }
    }
    assert forall|j: int| 0 <= j < all.len() implies now.member((#[trigger] all[j]).0) == all[j].1 by {
        if j < fields.len() {
            assert(all[j] == fields[j]);
            assert(text_lt(all[j].0, key));
            lemma_text_lt_irreflexive(key);
            if value is Some {
                lemma_member_kept(o, key, value->0, fields[j].0);
            }
        } else if value is Some {
            lemma_member_added(o, key, value->0);
        }
    }
    lemma_not_raw(key);
    if tidy(o, (depth + 1) as nat) && (value is Some ==> tidy(value->0, depth)) {
        assert forall|i: int| 0 <= i < after.len() implies (#[trigger] after[i]).0 != raw_name() && tidy(
            after[i].1,
            depth,
        ) by {
            if i < before.len() {
                assert(after[i] == before[i]);
            }
        }
    }
}

/// The empty object holds no fields.
proof fn lemma_holds_nothing()
    ensures
        holds(JsonView::object(), Seq::empty()),
{
    reveal(holds);
}

/// An object gives back the fields that it holds.
proof fn lemma_field(o: JsonView, fields: Seq<(Seq<char>, Option<JsonView>)>, j: int)
    requires
        holds(o, fields),
        0 <= j < fields.len(),
    ensures
        o is Object,
        o.member(fields[j].0) == fields[j].1,
{
    reveal(holds);
}

/// A list of texts reads back as the texts.
proof fn lemma_texts_read_back(o: JsonView, key: Seq<char>, texts: Seq<Seq<char>>, depth: nat)
    requires
        o.member(key) == Some(texts_json(texts)),
    ensures
        o.texts_field(key) == Field::Value(texts),
        depth > 0 && all_printable(texts) ==> tidy(texts_json(texts), depth),
{
    let items = text_values(texts);
    assert(Seq::new(items.len(), |i: int| items[i]->Text_0) =~= texts);
    if depth > 0 && all_printable(texts) {
        assert forall|i: int| 0 <= i < items.len() implies tidy(#[trigger] items[i], (depth - 1) as nat) by {
            assert(printable(texts[i]));
        }
    }
}

/// A list of printable texts can be written.
proof fn lemma_texts_written(texts: Seq<Seq<char>>, depth: nat)
    ensures
        depth > 0 && all_printable(texts) ==> tidy(texts_json(texts), depth),
{
    let o = JsonView::object().with(Seq::empty(), texts_json(texts));
    lemma_member_added(JsonView::object(), Seq::empty(), texts_json(texts));
    lemma_texts_read_back(o, Seq::empty(), texts, depth);
}

proof fn lemma_network(c: ConfigView)
    requires
        in_range(c),
    ensures
        network_doc(c.network) is Object,
        read_network(network_doc(c.network)) == Some(c.network),
        writable(c) ==> tidy(network_doc(c.network), 3),
{
    let n = c.network;
    reveal_strlit("bootstrap");
    reveal_strlit("description");
    reveal_strlit("identity_path");
    reveal_strlit("listen_port");
    reveal_strlit("relay_server");
    assert(less_at("bootstrap"@, "description"@, 0));
    assert(less_at("description"@, "identity_path"@, 0));
    assert(less_at("identity_path"@, "listen_port"@, 0));
    assert(less_at("listen_port"@, "relay_server"@, 0));
    let f0 = Seq::<(Seq<char>, Option<JsonView>)>::empty();
    let o0 = JsonView::object();
    lemma_holds_nothing();
    let v1 = Some(texts_json(n.bootstrap));
    let f1 = f0.push(("bootstrap"@, v1));
    let o1 = with_some(o0, "bootstrap"@, v1);
    lemma_holds(o0, f0, "bootstrap"@, v1, 2);
    let v2 = some_text(n.description);
    let f2 = f1.push(("description"@, v2));
    let o2 = with_some(o1, "description"@, v2);
    lemma_holds(o1, f1, "description"@, v2, 2);
    let v3 = some_text(n.identity_path);
    let f3 = f2.push(("identity_path"@, v3));
    let o3 = with_some(o2, "identity_path"@, v3);
    lemma_holds(o2, f2, "identity_path"@, v3, 2);
    let v4 = some_natural(n.listen_port);
    let f4 = f3.push(("listen_port"@, v4));
    let o4 = with_some(o3, "listen_port"@, v4);
    lemma_holds(o3, f3, "listen_port"@, v4, 2);
    let v5 = Some(JsonView::Bool(n.relay_server));
    let f5 = f4.push(("relay_server"@, v5));
    let o5 = with_some(o4, "relay_server"@, v5);
    lemma_holds(o4, f4, "relay_server"@, v5, 2);
    assert(o5 == network_doc(n));
    lemma_field(o5, f5, 0);
    lemma_field(o5, f5, 1);
    lemma_field(o5, f5, 2);
    lemma_field(o5, f5, 3);
    lemma_field(o5, f5, 4);
    lemma_texts_read_back(o5, "bootstrap"@, n.bootstrap, 2);
}

proof fn lemma_models(c: ConfigView)
    requires
        in_range(c),
    ensures
        models_doc(c.models) is Object,
        read_models(models_doc(c.models)) == Some(c.models),
        writable(c) ==> tidy(models_doc(c.models), 3),
{
    reveal_strlit("all");
    reveal_strlit("none");
    assert(printable("all"@) && printable("none"@));
    assert("all"@.len() != "none"@.len());
    if c.models.advertise is List {
        let list = JsonView::object().with("advertise"@, texts_json(c.models.advertise->List_0));
        lemma_member_added(JsonView::object(), "advertise"@, texts_json(c.models.advertise->List_0));
        lemma_texts_read_back(list, "advertise"@, c.models.advertise->List_0, 2);
    }
    reveal_strlit("advertise");
    reveal_strlit("endpoint");
    reveal_strlit("proxy_port");
    assert(less_at("advertise"@, "endpoint"@, 0));
    assert(less_at("endpoint"@, "proxy_port"@, 0));
    let f0 = Seq::<(Seq<char>, Option<JsonView>)>::empty();
    let o0 = JsonView::object();
    lemma_holds_nothing();
    let v1 = Some(advertise_doc(c.models.advertise));
    let f1 = f0.push(("advertise"@, v1));
    let o1 = with_some(o0, "advertise"@, v1);
    lemma_holds(o0, f0, "advertise"@, v1, 2);
    let v2 = some_text(c.models.endpoint);
    let f2 = f1.push(("endpoint"@, v2));
    let o2 = with_some(o1, "endpoint"@, v2);
    lemma_holds(o1, f1, "endpoint"@, v2, 2);
    let v3 = Some(natural_json(c.models.proxy_port));
    let f3 = f2.push(("proxy_port"@, v3));
    let o3 = with_some(o2, "proxy_port"@, v3);
    lemma_holds(o2, f2, "proxy_port"@, v3, 2);
    assert(o3 == models_doc(c.models));
    lemma_field(o3, f3, 0);
    lemma_field(o3, f3, 1);
    lemma_field(o3, f3, 2);
    if c.models.advertise is List {
        lemma_texts_read_back(o3, "advertise"@, c.models.advertise->List_0, 2);
    }
    assert(advertise_field(o3) == Field::Value(c.models.advertise));
}

proof fn lemma_shell(c: ConfigView)
    requires
        in_range(c),
    ensures
        shell_doc(c.shell) is Object,
        read_shell(shell_doc(c.shell)) == Some(c.shell),
        writable(c) ==> tidy(shell_doc(c.shell), 2),
{
    lemma_texts_written(c.shell.blocked_patterns, 1);
    reveal_strlit("blocked_patterns");
    reveal_strlit("default_timeout_secs");
    reveal_strlit("max_output_bytes");
    assert(less_at("blocked_patterns"@, "default_timeout_secs"@, 0));
    assert(less_at("default_timeout_secs"@, "max_output_bytes"@, 0));
    let f0 = Seq::<(Seq<char>, Option<JsonView>)>::empty();
    let o0 = JsonView::object();
    lemma_holds_nothing();
    let v1 = Some(texts_json(c.shell.blocked_patterns));
    let f1 = f0.push(("blocked_patterns"@, v1));
    let o1 = with_some(o0, "blocked_patterns"@, v1);
    lemma_holds(o0, f0, "blocked_patterns"@, v1, 1);
    let v2 = Some(natural_json(c.shell.default_timeout_secs));
    let f2 = f1.push(("default_timeout_secs"@, v2));
    let o2 = with_some(o1, "default_timeout_secs"@, v2);
    lemma_holds(o1, f1, "default_timeout_secs"@, v2, 1);
    let v3 = Some(natural_json(c.shell.max_output_bytes));
    let f3 = f2.push(("max_output_bytes"@, v3));
    let o3 = with_some(o2, "max_output_bytes"@, v3);
    lemma_holds(o2, f2, "max_output_bytes"@, v3, 1);
    assert(o3 == shell_doc(c.shell));
    lemma_field(o3, f3, 0);
    lemma_field(o3, f3, 1);
    lemma_field(o3, f3, 2);
    lemma_texts_read_back(o3, "blocked_patterns"@, c.shell.blocked_patterns, 1);
}

proof fn lemma_ingest(c: ConfigView)
    requires
        in_range(c),
    ensures
        ingest_doc(c.memory) is Object,
        ingest_doc(c.memory).natural_field("chunk_max_chars"@, usize::MAX as int) == Field::Value(
            c.memory.chunk_max_chars,
        ),
        ingest_doc(c.memory).natural_field("chunk_overlap_chars"@, usize::MAX as int) == Field::Value(
            c.memory.chunk_overlap_chars,
        ),
        writable(c) ==> tidy(ingest_doc(c.memory), 2),
{
    reveal_strlit("chunk_max_chars");
    reveal_strlit("chunk_overlap_chars");
    assert(less_at("chunk_max_chars"@, "chunk_overlap_chars"@, 6));
    let f0 = Seq::<(Seq<char>, Option<JsonView>)>::empty();
    let o0 = JsonView::object();
    lemma_holds_nothing();
    let v1 = Some(natural_json(c.memory.chunk_max_chars));
    let f1 = f0.push(("chunk_max_chars"@, v1));
    let o1 = with_some(o0, "chunk_max_chars"@, v1);
    lemma_holds(o0, f0, "chunk_max_chars"@, v1, 1);
    let v2 = Some(natural_json(c.memory.chunk_overlap_chars));
    let f2 = f1.push(("chunk_overlap_chars"@, v2));
    let o2 = with_some(o1, "chunk_overlap_chars"@, v2);
    lemma_holds(o1, f1, "chunk_overlap_chars"@, v2, 1);
    assert(o2 == ingest_doc(c.memory));
    lemma_field(o2, f2, 0);
    lemma_field(o2, f2, 1);
}

proof fn lemma_watch(c: ConfigView)
    requires
        in_range(c),
    ensures
        watch_doc(c.memory) is Object,
        watch_doc(c.memory).natural_field("debounce_secs"@, u64::MAX as int) == Field::Value(
            c.memory.debounce_secs,
        ),
        watch_doc(c.memory).truth_field("watch_transcripts"@) == Field::Value(c.memory.watch_transcripts),
        writable(c) ==> tidy(watch_doc(c.memory), 2),
{
    reveal_strlit("debounce_secs");
    reveal_strlit("watch_transcripts");
    assert(less_at("debounce_secs"@, "watch_transcripts"@, 0));
    let f0 = Seq::<(Seq<char>, Option<JsonView>)>::empty();
    let o0 = JsonView::object();
    lemma_holds_nothing();
    let v1 = Some(natural_json(c.memory.debounce_secs));
    let f1 = f0.push(("debounce_secs"@, v1));
    let o1 = with_some(o0, "debounce_secs"@, v1);
    lemma_holds(o0, f0, "debounce_secs"@, v1, 1);
    let v2 = Some(JsonView::Bool(c.memory.watch_transcripts));
    let f2 = f1.push(("watch_transcripts"@, v2));
    let o2 = with_some(o1, "watch_transcripts"@, v2);
    lemma_holds(o1, f1, "watch_transcripts"@, v2, 1);
    assert(o2 == watch_doc(c.memory));
    lemma_field(o2, f2, 0);
    lemma_field(o2, f2, 1);
}

proof fn lemma_memory(c: ConfigView)
    requires
        in_range(c),
    ensures
        memory_doc(c.memory) is Object,
        read_memory(memory_doc(c.memory)) == Some(c.memory),
        writable(c) ==> tidy(memory_doc(c.memory), 3),
{
    lemma_ingest(c);
    lemma_watch(c);
    if c.memory.skill_dirs is Some {
        lemma_texts_written(c.memory.skill_dirs->0, 2);
    }
    reveal_strlit("db_path");
    reveal_strlit("enabled");
    reveal_strlit("identity_path");
    reveal_strlit("ingest");
    reveal_strlit("instructions_path");
    reveal_strlit("notes_dir");
    reveal_strlit("skill_dirs");
    reveal_strlit("transcript_dir");
    reveal_strlit("watch");
    assert(less_at("db_path"@, "enabled"@, 0));
    assert(less_at("enabled"@, "identity_path"@, 0));
    assert(less_at("identity_path"@, "ingest"@, 1));
    assert(less_at("ingest"@, "instructions_path"@, 2));
    assert(less_at("instructions_path"@, "notes_dir"@, 0));
    assert(less_at("notes_dir"@, "skill_dirs"@, 0));
    assert(less_at("skill_dirs"@, "transcript_dir"@, 0));
    assert(less_at("transcript_dir"@, "watch"@, 0));
    let f0 = Seq::<(Seq<char>, Option<JsonView>)>::empty();
    let o0 = JsonView::object();
    lemma_holds_nothing();
    let v1 = some_text(c.memory.db_path);
    let f1 = f0.push(("db_path"@, v1));
    let o1 = with_some(o0, "db_path"@, v1);
    lemma_holds(o0, f0, "db_path"@, v1, 2);
    let v2 = Some(JsonView::Bool(c.memory.enabled));
    let f2 = f1.push(("enabled"@, v2));
    let o2 = with_some(o1, "enabled"@, v2);
    lemma_holds(o1, f1, "enabled"@, v2, 2);
    let v3 = some_text(c.memory.identity_path);
    let f3 = f2.push(("identity_path"@, v3));
    let o3 = with_some(o2, "identity_path"@, v3);
    lemma_holds(o2, f2, "identity_path"@, v3, 2);
    let v4 = Some(ingest_doc(c.memory));
    let f4 = f3.push(("ingest"@, v4));
    let o4 = with_some(o3, "ingest"@, v4);
    lemma_holds(o3, f3, "ingest"@, v4, 2);
    let v5 = some_text(c.memory.instructions_path);
    let f5 = f4.push(("instructions_path"@, v5));
    let o5 = with_some(o4, "instructions_path"@, v5);
    lemma_holds(o4, f4, "instructions_path"@, v5, 2);
    let v6 = some_text(c.memory.notes_dir);
    let f6 = f5.push(("notes_dir"@, v6));
    let o6 = with_some(o5, "notes_dir"@, v6);
    lemma_holds(o5, f5, "notes_dir"@, v6, 2);
    let v7 = some_texts(c.memory.skill_dirs);
    let f7 = f6.push(("skill_dirs"@, v7));
    let o7 = with_some(o6, "skill_dirs"@, v7);
    lemma_holds(o6, f6, "skill_dirs"@, v7, 2);
    let v8 = some_text(c.memory.transcript_dir);
    let f8 = f7.push(("transcript_dir"@, v8));
    let o8 = with_some(o7, "transcript_dir"@, v8);
    lemma_holds(o7, f7, "transcript_dir"@, v8, 2);
    let v9 = Some(watch_doc(c.memory));
    let f9 = f8.push(("watch"@, v9));
    let o9 = with_some(o8, "watch"@, v9);
    lemma_holds(o8, f8, "watch"@, v9, 2);
    assert(o9 == memory_doc(c.memory));
    lemma_field(o9, f9, 0);
    lemma_field(o9, f9, 1);
    lemma_field(o9, f9, 2);
    lemma_field(o9, f9, 3);
    lemma_field(o9, f9, 4);
    lemma_field(o9, f9, 5);
    lemma_field(o9, f9, 6);
    lemma_field(o9, f9, 7);
    lemma_field(o9, f9, 8);
    if c.memory.skill_dirs is Some {
        lemma_texts_read_back(o9, "skill_dirs"@, c.memory.skill_dirs->0, 2);
    }
    assert(section(o9, "ingest"@) == Some(ingest_doc(c.memory)));
    assert(section(o9, "watch"@) == Some(watch_doc(c.memory)));
}

proof fn lemma_sandbox(c: ConfigView)
    requires
        in_range(c),
    ensures
        sandbox_doc(c.sandbox) is Object,
        read_sandbox(sandbox_doc(c.sandbox)) == Some(c.sandbox),
        writable(c) ==> tidy(sandbox_doc(c.sandbox), 3),
{
    reveal_strlit("none");
    reveal_strlit("allow");
    reveal_strlit("outbound_only");
    assert(printable("none"@) && printable("allow"@) && printable("outbound_only"@));
    lemma_texts_written(c.sandbox.read_only_mounts, 2);
    reveal_strlit("enabled");
    reveal_strlit("memory_bytes");
    reveal_strlit("network");
    reveal_strlit("read_only_mounts");
    reveal_strlit("timeout_secs");
    assert(less_at("enabled"@, "memory_bytes"@, 0));
    assert(less_at("memory_bytes"@, "network"@, 0));
    assert(less_at("network"@, "read_only_mounts"@, 0));
    assert(less_at("read_only_mounts"@, "timeout_secs"@, 0));
    let f0 = Seq::<(Seq<char>, Option<JsonView>)>::empty();
    let o0 = JsonView::object();
    lemma_holds_nothing();
    let v1 = Some(JsonView::Bool(c.sandbox.enabled));
    let f1 = f0.push(("enabled"@, v1));
    let o1 = with_some(o0, "enabled"@, v1);
    lemma_holds(o0, f0, "enabled"@, v1, 2);
    let v2 = Some(natural_json(c.sandbox.memory_bytes));
    let f2 = f1.push(("memory_bytes"@, v2));
    let o2 = with_some(o1, "memory_bytes"@, v2);
    lemma_holds(o1, f1, "memory_bytes"@, v2, 2);
    let v3 = Some(JsonView::Text(policy_word(c.sandbox.network)));
    let f3 = f2.push(("network"@, v3));
    let o3 = with_some(o2, "network"@, v3);
    lemma_holds(o2, f2, "network"@, v3, 2);
    let v4 = Some(texts_json(c.sandbox.read_only_mounts));
    let f4 = f3.push(("read_only_mounts"@, v4));
    let o4 = with_some(o3, "read_only_mounts"@, v4);
    lemma_holds(o3, f3, "read_only_mounts"@, v4, 2);
    let v5 = Some(natural_json(c.sandbox.timeout_secs));
    let f5 = f4.push(("timeout_secs"@, v5));
    let o5 = with_some(o4, "timeout_secs"@, v5);
    lemma_holds(o4, f4, "timeout_secs"@, v5, 2);
    assert(o5 == sandbox_doc(c.sandbox));
    lemma_field(o5, f5, 0);
    lemma_field(o5, f5, 1);
    lemma_field(o5, f5, 2);
    lemma_field(o5, f5, 3);
    lemma_field(o5, f5, 4);
    lemma_texts_read_back(o5, "read_only_mounts"@, c.sandbox.read_only_mounts, 2);
    assert("none"@.len() == 4 && "allow"@.len() == 5 && "outbound_only"@.len() == 13);
    assert(policy_field(o5) == Field::Value(c.sandbox.network));
}

proof fn lemma_config(c: ConfigView)
    requires
        in_range(c),
    ensures
        config_doc(c) is Object,
        read_config(config_doc(c)) == Some(c),
        writable(c) ==> tidy(config_doc(c), 4),
{
    lemma_network(c);
    lemma_models(c);
    lemma_shell(c);
    lemma_memory(c);
    lemma_sandbox(c);
    let tools = JsonView::object().with("shell"@, shell_doc(c.shell));
    lemma_holds_nothing();
    reveal_strlit("shell");
    lemma_holds(
        JsonView::object(),
        Seq::<(Seq<char>, Option<JsonView>)>::empty(),
        "shell"@,
        Some(shell_doc(c.shell)),
        2,
    );
    lemma_member_added(JsonView::object(), "shell"@, shell_doc(c.shell));
    assert(tools.member("shell"@) == Some(shell_doc(c.shell)));
    reveal_strlit("memory");
    reveal_strlit("models");
    reveal_strlit("network");
    reveal_strlit("sandbox");
    reveal_strlit("tools");
    assert(less_at("memory"@, "models"@, 1));
    assert(less_at("models"@, "network"@, 0));
    assert(less_at("network"@, "sandbox"@, 0));
    assert(less_at("sandbox"@, "tools"@, 0));
    let f0 = Seq::<(Seq<char>, Option<JsonView>)>::empty();
    let o0 = JsonView::object();
    lemma_holds_nothing();
    let v1 = Some(memory_doc(c.memory));
    let f1 = f0.push(("memory"@, v1));
    let o1 = with_some(o0, "memory"@, v1);
    lemma_holds(o0, f0, "memory"@, v1, 3);
    let v2 = Some(models_doc(c.models));
    let f2 = f1.push(("models"@, v2));
    let o2 = with_some(o1, "models"@, v2);
    lemma_holds(o1, f1, "models"@, v2, 3);
    let v3 = Some(network_doc(c.network));
    let f3 = f2.push(("network"@, v3));
    let o3 = with_some(o2, "network"@, v3);
    lemma_holds(o2, f2, "network"@, v3, 3);
    let v4 = Some(sandbox_doc(c.sandbox));
    let f4 = f3.push(("sandbox"@, v4));
    let o4 = with_some(o3, "sandbox"@, v4);
    lemma_holds(o3, f3, "sandbox"@, v4, 3);
    let v5 = Some(JsonView::object().with("shell"@, shell_doc(c.shell)));
    let f5 = f4.push(("tools"@, v5));
    let o5 = with_some(o4, "tools"@, v5);
    lemma_holds(o4, f4, "tools"@, v5, 3);
    assert(o5 == config_doc(c));
    lemma_field(o5, f5, 0);
    lemma_field(o5, f5, 1);
    lemma_field(o5, f5, 2);
    lemma_field(o5, f5, 3);
    lemma_field(o5, f5, 4);
    assert(section(o5, "memory"@) == Some(memory_doc(c.memory)));
    assert(section(o5, "models"@) == Some(models_doc(c.models)));
    assert(section(o5, "network"@) == Some(network_doc(c.network)));
    assert(section(o5, "sandbox"@) == Some(sandbox_doc(c.sandbox)));
    assert(section(o5, "tools"@) == Some(tools));
}

impl Config {
    /// The text of the configuration file, which reads back as the configuration
    /// where its texts are printable.
    pub fn to_toml(&self) -> (r: Option<String>)
        ensures
            string_view(r) == printed_toml(config_doc(self@)),
            writable(self@) ==> r is Some && parsed_toml(r->0@) is Some && read_config(parsed_toml(r->0@)->0) == Some(
                self@,
            ),
    {
        proof {
            assert(in_range(self@));
            lemma_config(self@);
        }
        print_toml(&self.to_document())
    }
}

// ---------------------------------------------------------------------------
// Laws
// ---------------------------------------------------------------------------

/// Every configuration reads back from its document.
pub proof fn law_configurations_read_back(c: ConfigView)
    requires
        in_range(c),
    ensures
        read_config(config_doc(c)) == Some(c),
{
    lemma_config(c);
}

/// The default configuration can be written.
pub proof fn law_default_is_writable()
    ensures
        in_range(default_config()),
        writable(default_config()),
{
}

} // verus!
