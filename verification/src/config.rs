//! Node-level configuration, kept in `~/.clawshake/config.toml`.
//!
//! The file is entirely optional.  When absent every field falls back to its
//! default, which means that an unconfigured node discovers peers only on the
//! local network: no external connections are made.
use vstd::prelude::*;

use crate::json::{
    from_value, json_option, placed, string_view, strs_view, texts_field_view, texts_view, Field, Json, JsonView,
};
use crate::paths::{dir_of, join, joined};
use crate::text::same;

verus! {

// ---------------------------------------------------------------------------
// Sections
// ---------------------------------------------------------------------------

/// The whole file.
#[derive(Debug)]
pub struct Config {
    pub network: NetworkConfig,
    pub models: ModelsConfig,
    pub tools: ToolsConfig,
    pub memory: MemoryConfig,
    pub sandbox: SandboxDefaults,
}

/// `[memory]`: long-term memory.  Paths override the defaults in
/// `~/.clawshake/`.
#[derive(Debug)]
pub struct MemoryConfig {
    /// When false, memory tools are not registered and the watcher is not
    /// started.
    pub enabled: bool,
    /// Override `~/.clawshake/memory.db`.
    pub db_path: Option<String>,
    /// Override `~/.clawshake/log`.
    pub transcript_dir: Option<String>,
    /// Override `[~/.clawshake/skills, ~/.agents/skills]`.
    pub skill_dirs: Option<Vec<String>>,
    /// Override `~/.clawshake/notes`.
    pub notes_dir: Option<String>,
    /// Override `~/.clawshake/identity.md`.
    pub identity_path: Option<String>,
    /// Override `~/.clawshake/instructions.md`.
    pub instructions_path: Option<String>,
    pub watch: MemoryWatchConfig,
    pub ingest: MemoryIngestConfig,
}

/// `[memory.watch]`: file-system watcher settings.
#[derive(Debug)]
pub struct MemoryWatchConfig {
    /// Debounce interval in seconds.
    pub debounce_secs: u64,
    /// Whether to watch the transcript directory for new entries.
    pub watch_transcripts: bool,
}

/// `[memory.ingest]`: chunking parameters.
#[derive(Debug)]
pub struct MemoryIngestConfig {
    /// Maximum characters per chunk.
    pub chunk_max_chars: usize,
    /// Overlap between consecutive chunks.
    pub chunk_overlap_chars: usize,
}

/// `[tools]`.
#[derive(Debug)]
pub struct ToolsConfig {
    pub shell: ShellConfig,
}

/// `[tools.shell]`.
#[derive(Debug)]
pub struct ShellConfig {
    /// Additional blocked command patterns (appended to the built-in list).
    pub blocked_patterns: Vec<String>,
    /// Default timeout in seconds.
    pub default_timeout_secs: u64,
    /// Maximum output size in bytes before truncation.
    pub max_output_bytes: usize,
}

/// `[network]`.
#[derive(Debug)]
pub struct NetworkConfig {
    /// Human-readable description of this node.
    pub description: Option<String>,
    /// Peers to dial on startup; with none the node stays local.
    pub bootstrap: Vec<String>,
    /// Port for inbound connections; `0` means pick a random port.
    pub listen_port: Option<u16>,
    /// Forward traffic between peers behind NAT.
    pub relay_server: bool,
    /// The key file, by default `~/.clawshake/identity.key`.
    pub identity_path: Option<String>,
}

/// `[models]`: model proxy settings.
#[derive(Debug)]
pub struct ModelsConfig {
    /// Local model server endpoint.
    pub endpoint: Option<String>,
    /// Which models to advertise.
    pub advertise: AdvertiseModels,
    /// Port of the local proxy.
    pub proxy_port: u16,
}

/// Which models are advertised on the network.
#[derive(Debug, PartialEq)]
pub enum AdvertiseModels {
    /// All models of the backend.
    All(AdvertiseAll),
    /// No models.
    Nothing(AdvertiseNone),
    /// The models with these names.
    List(Vec<String>),
}

/// The word `"all"`.
#[derive(Debug, Clone, Copy, PartialEq, Eq, Structural)]
pub enum AdvertiseAll {
    All,
}

/// The word `"none"`.
#[derive(Debug, Clone, Copy, PartialEq, Eq, Structural)]
pub enum AdvertiseNone {
    Nothing,
}

/// `[sandbox]`: default process isolation for tool execution.
#[derive(Debug)]
pub struct SandboxDefaults {
    /// Apply sandboxing to command-line tools by default.
    pub enabled: bool,
    /// Network policy for sandboxed processes.
    pub network: SandboxNetworkPolicy,
    /// Maximum resident memory in bytes (0 = unlimited).
    pub memory_bytes: u64,
    /// Maximum runtime in seconds (0 = unlimited).
    pub timeout_secs: u64,
    /// Additional host paths to mount read-only.
    pub read_only_mounts: Vec<String>,
}

/// Network policy for sandboxed processes.
#[derive(Debug, Clone, Copy, PartialEq, Eq, Structural)]
pub enum SandboxNetworkPolicy {
    /// Block all network access.
    NoAccess,
    /// Allow unrestricted network access.
    Allow,
    /// Allow outbound connections, block inbound ones.
    OutboundOnly,
}

// ---------------------------------------------------------------------------
// Models
// ---------------------------------------------------------------------------

/// The model of an optional list of texts.
pub open spec fn texts_option(v: Option<Vec<String>>) -> Option<Seq<Seq<char>>> {
    match v {
        Some(l) => Some(texts_view(l@)),
        None => None,
    }
}

/// The model of [`NetworkConfig`].
pub struct NetworkView {
    pub description: Option<Seq<char>>,
    pub bootstrap: Seq<Seq<char>>,
    pub listen_port: Option<int>,
    pub relay_server: bool,
    pub identity_path: Option<Seq<char>>,
}

/// The model of [`AdvertiseModels`].
pub enum AdvertiseView {
    All,
    Nothing,
    List(Seq<Seq<char>>),
}

/// The model of [`ModelsConfig`].
pub struct ModelsView {
    pub endpoint: Option<Seq<char>>,
    pub advertise: AdvertiseView,
    pub proxy_port: int,
}

/// The model of [`ShellConfig`].
pub struct ShellView {
    pub blocked_patterns: Seq<Seq<char>>,
    pub default_timeout_secs: int,
    pub max_output_bytes: int,
}

/// The model of [`MemoryConfig`].
pub struct MemoryView {
    pub enabled: bool,
    pub db_path: Option<Seq<char>>,
    pub transcript_dir: Option<Seq<char>>,
    pub skill_dirs: Option<Seq<Seq<char>>>,
    pub notes_dir: Option<Seq<char>>,
    pub identity_path: Option<Seq<char>>,
    pub instructions_path: Option<Seq<char>>,
    pub debounce_secs: int,
    pub watch_transcripts: bool,
    pub chunk_max_chars: int,
    pub chunk_overlap_chars: int,
}

/// The model of [`SandboxDefaults`].
pub struct SandboxView {
    pub enabled: bool,
    pub network: SandboxNetworkPolicy,
    pub memory_bytes: int,
    pub timeout_secs: int,
    pub read_only_mounts: Seq<Seq<char>>,
}

/// The model of [`Config`].
pub struct ConfigView {
    pub network: NetworkView,
    pub models: ModelsView,
    pub shell: ShellView,
    pub memory: MemoryView,
    pub sandbox: SandboxView,
}

/// The model of an optional port.
pub open spec fn port_view(p: Option<u16>) -> Option<int> {
    match p {
        Some(n) => Some(n as int),
        None => None,
    }
}

impl View for NetworkConfig {
    type V = NetworkView;

    open spec fn view(&self) -> NetworkView {
        NetworkView {
            description: string_view(self.description),
            bootstrap: texts_view(self.bootstrap@),
            listen_port: port_view(self.listen_port),
            relay_server: self.relay_server,
            identity_path: string_view(self.identity_path),
        }
    }
}

impl View for AdvertiseModels {
    type V = AdvertiseView;

    open spec fn view(&self) -> AdvertiseView {
        match self {
            AdvertiseModels::All(_) => AdvertiseView::All,
            AdvertiseModels::Nothing(_) => AdvertiseView::Nothing,
            AdvertiseModels::List(names) => AdvertiseView::List(texts_view(names@)),
        }
    }
}

impl View for ModelsConfig {
    type V = ModelsView;

    open spec fn view(&self) -> ModelsView {
        ModelsView {
            endpoint: string_view(self.endpoint),
            advertise: self.advertise@,
            proxy_port: self.proxy_port as int,
        }
    }
}

impl View for ShellConfig {
    type V = ShellView;

    open spec fn view(&self) -> ShellView {
        ShellView {
            blocked_patterns: texts_view(self.blocked_patterns@),
            default_timeout_secs: self.default_timeout_secs as int,
            max_output_bytes: self.max_output_bytes as int,
        }
    }
}

impl View for MemoryConfig {
    type V = MemoryView;

    open spec fn view(&self) -> MemoryView {
        MemoryView {
            enabled: self.enabled,
            db_path: string_view(self.db_path),
            transcript_dir: string_view(self.transcript_dir),
            skill_dirs: texts_option(self.skill_dirs),
            notes_dir: string_view(self.notes_dir),
            identity_path: string_view(self.identity_path),
            instructions_path: string_view(self.instructions_path),
            debounce_secs: self.watch.debounce_secs as int,
            watch_transcripts: self.watch.watch_transcripts,
            chunk_max_chars: self.ingest.chunk_max_chars as int,
            chunk_overlap_chars: self.ingest.chunk_overlap_chars as int,
        }
    }
}

impl View for SandboxDefaults {
    type V = SandboxView;

    open spec fn view(&self) -> SandboxView {
        SandboxView {
            enabled: self.enabled,
            network: self.network,
            memory_bytes: self.memory_bytes as int,
            timeout_secs: self.timeout_secs as int,
            read_only_mounts: texts_view(self.read_only_mounts@),
        }
    }
}

impl View for Config {
    type V = ConfigView;

    open spec fn view(&self) -> ConfigView {
        ConfigView {
            network: self.network@,
            models: self.models@,
            shell: self.tools.shell@,
            memory: self.memory@,
            sandbox: self.sandbox@,
        }
    }
}

// ---------------------------------------------------------------------------
// Defaults
// ---------------------------------------------------------------------------

/// The configuration of a fresh install.
pub open spec fn default_config() -> ConfigView {
    ConfigView {
        network: NetworkView {
            description: None,
            bootstrap: Seq::empty(),
            listen_port: None,
            relay_server: false,
            identity_path: None,
        },
        models: ModelsView { endpoint: None, advertise: AdvertiseView::Nothing, proxy_port: 11435 },
        shell: ShellView { blocked_patterns: Seq::empty(), default_timeout_secs: 30, max_output_bytes: 1_048_576 },
        memory: MemoryView {
            enabled: true,
            db_path: None,
            transcript_dir: None,
            skill_dirs: None,
            notes_dir: None,
            identity_path: None,
            instructions_path: None,
            debounce_secs: 2,
            watch_transcripts: true,
            chunk_max_chars: 1600,
            chunk_overlap_chars: 320,
        },
        sandbox: SandboxView {
            enabled: false,
            network: SandboxNetworkPolicy::NoAccess,
            memory_bytes: 0,
            timeout_secs: 0,
            read_only_mounts: Seq::empty(),
        },
    }
}

/// No texts.
fn no_texts() -> (r: Vec<String>)
    ensures
        texts_view(r@) == Seq::<Seq<char>>::empty(),
{
    let r: Vec<String> = Vec::new();
    assert(texts_view(r@) =~= Seq::<Seq<char>>::empty());
    r
}

impl Default for NetworkConfig {
    fn default() -> (r: NetworkConfig)
        ensures
            r@ == default_config().network,
    {
        NetworkConfig {
            description: None,
            bootstrap: no_texts(),
            listen_port: None,
            relay_server: false,
            identity_path: None,
        }
    }
}

impl Default for AdvertiseModels {
    fn default() -> (r: AdvertiseModels)
        ensures
            r@ is Nothing,
    {
        AdvertiseModels::Nothing(AdvertiseNone::Nothing)
    }
}

impl Default for ModelsConfig {
    fn default() -> (r: ModelsConfig)
        ensures
            r@ == default_config().models,
    {
        ModelsConfig { endpoint: None, advertise: AdvertiseModels::default(), proxy_port: 11435 }
    }
}

impl Default for ShellConfig {
    fn default() -> (r: ShellConfig)
        ensures
            r@ == default_config().shell,
    {
        ShellConfig { blocked_patterns: no_texts(), default_timeout_secs: 30, max_output_bytes: 1_048_576 }
    }
}

impl Default for ToolsConfig {
    fn default() -> (r: ToolsConfig)
        ensures
            r.shell@ == default_config().shell,
    {
        ToolsConfig { shell: ShellConfig::default() }
    }
}

impl Default for MemoryWatchConfig {
    fn default() -> (r: MemoryWatchConfig)
        ensures
            r.debounce_secs == 2,
            r.watch_transcripts,
    {
        MemoryWatchConfig { debounce_secs: 2, watch_transcripts: true }
    }
}

impl Default for MemoryIngestConfig {
    fn default() -> (r: MemoryIngestConfig)
        ensures
            r.chunk_max_chars == 1600,
            r.chunk_overlap_chars == 320,
    {
        MemoryIngestConfig { chunk_max_chars: 1600, chunk_overlap_chars: 320 }
    }
}

impl Default for MemoryConfig {
    fn default() -> (r: MemoryConfig)
        ensures
            r@ == default_config().memory,
    {
        MemoryConfig {
            enabled: true,
            db_path: None,
            transcript_dir: None,
            skill_dirs: None,
            notes_dir: None,
            identity_path: None,
            instructions_path: None,
            watch: MemoryWatchConfig::default(),
            ingest: MemoryIngestConfig::default(),
        }
    }
}

impl Default for SandboxNetworkPolicy {
    fn default() -> (r: SandboxNetworkPolicy)
        ensures
            r is NoAccess,
    {
        SandboxNetworkPolicy::NoAccess
    }
}

impl Default for SandboxDefaults {
    fn default() -> (r: SandboxDefaults)
        ensures
            r@ == default_config().sandbox,
    {
        SandboxDefaults {
            enabled: false,
            network: SandboxNetworkPolicy::default(),
            memory_bytes: 0,
            timeout_secs: 0,
            read_only_mounts: no_texts(),
        }
    }
}

impl Default for Config {
    fn default() -> (r: Config)
        ensures
            r@ == default_config(),
    {
        Config {
            network: NetworkConfig::default(),
            models: ModelsConfig::default(),
            tools: ToolsConfig::default(),
            memory: MemoryConfig::default(),
            sandbox: SandboxDefaults::default(),
        }
    }
}

impl ModelsConfig {
    /// Whether a model server endpoint is configured.
    pub fn is_enabled(&self) -> (r: bool)
        ensures
            r == self@.endpoint is Some,
    {
        self.endpoint.is_some()
    }
}

impl AdvertiseModels {
    /// Whether no models should be advertised: that is said, or the list of
    /// their names is empty.
    pub fn is_none(&self) -> (r: bool)
        ensures
            r == (self@ is Nothing || self@ == AdvertiseView::List(Seq::empty())),
    {
        match self {
            AdvertiseModels::All(_) => false,
            AdvertiseModels::Nothing(_) => true,
            AdvertiseModels::List(names) => {
                assert(texts_view(names@).len() == names@.len());
                assert(names@.len() == 0 ==> texts_view(names@) =~= Seq::empty());
                assert(names@.len() != 0 ==> texts_view(names@) != Seq::<Seq<char>>::empty());
                names.len() == 0
            },
        }
    }
}

// ---------------------------------------------------------------------------
// Command-line overrides
// ---------------------------------------------------------------------------

/// What the command line makes of the network section: a port other than 0, a
/// non-empty peer list and an identity replace the configured ones; the relay
/// flag can only add.
pub open spec fn overridden(
    n: NetworkView,
    p2p_port: int,
    boot_peers: Seq<Seq<char>>,
    relay_server: bool,
    identity: Option<Seq<char>>,
) -> NetworkView {
    NetworkView {
        listen_port: if p2p_port != 0 {
            Some(p2p_port)
        } else {
            n.listen_port
        },
        bootstrap: if boot_peers.len() != 0 {
            boot_peers
        } else {
            n.bootstrap
        },
        relay_server: n.relay_server || relay_server,
        identity_path: if identity is Some {
            identity
        } else {
            n.identity_path
        },
        ..n
    }
}

/// The port to listen on.
pub open spec fn effective_port(n: NetworkView, relay_default: int) -> int {
    match n.listen_port {
        Some(p) => p,
        None => if n.relay_server {
            relay_default
        } else {
            0
        },
    }
}

/// A copy of a list of texts.
pub(crate) fn copy_texts(v: &[String]) -> (r: Vec<String>)
    ensures
        r@ == v@,
{
    let mut out: Vec<String> = Vec::new();
    let mut i: usize = 0;
    while i < v.len()
        invariant
            i <= v@.len(),
            out@ =~= v@.take(i as int),
        decreases v@.len() - i,
    {
        out.push(v[i].clone());
        i += 1;
    }
    assert(out@ =~= v@);
    out
}

impl Config {
    /// Merges command-line flags into the loaded configuration: defaults, then
    /// the file, then the flags.  Absent flags leave the file's values.
    pub fn apply_p2p_overrides(
        &mut self,
        p2p_port: u16,
        boot_peers: &[String],
        relay_server: bool,
        identity: Option<&str>,
    )
        ensures
            final(self)@ == (ConfigView {
                network: overridden(
                    old(self)@.network,
                    p2p_port as int,
                    texts_view(boot_peers@),
                    relay_server,
                    crate::json::text_view(identity),
                ),
                ..old(self)@
            }),
    {
        if p2p_port != 0 {
            self.network.listen_port = Some(p2p_port);
        }
        if boot_peers.len() != 0 {
            self.network.bootstrap = copy_texts(boot_peers);
        }
        if relay_server {
            self.network.relay_server = true;
        }
        if let Some(path) = identity {
            self.network.identity_path = Some(path.to_owned());
        }
    }

    /// The port to listen on: the configured one, else the relay's default for
    /// a relay server, else any.
    pub fn effective_p2p_port(&self, relay_default: u16) -> (r: u16)
        ensures
            r == effective_port(self@.network, relay_default as int),
    {
        match self.network.listen_port {
            Some(p) => p,
            None => {
                if self.network.relay_server {
                    relay_default
                } else {
                    0
                }
            },
        }
    }
}

/// A flag on the command line wins over the file, and the file over the
/// default.
pub proof fn law_command_line_wins(n: NetworkView, port: int, peers: Seq<Seq<char>>, relay: bool, identity: Option<Seq<char>>, relay_default: int)
    ensures
        port != 0 ==> effective_port(overridden(n, port, peers, relay, identity), relay_default) == port,
        port == 0 && n.listen_port is Some ==> effective_port(overridden(n, port, peers, relay, identity), relay_default)
            == n.listen_port->0,
        port == 0 && n.listen_port is None && (relay || n.relay_server) ==> effective_port(
            overridden(n, port, peers, relay, identity),
            relay_default,
        ) == relay_default,
        overridden(n, 0, Seq::empty(), false, None) == n,
{
}

// ---------------------------------------------------------------------------
// Files
// ---------------------------------------------------------------------------

/// The configuration directory: `~/.clawshake`, where there is a home
/// directory.
pub fn config_dir(home: Option<&str>) -> (r: Option<String>)
    ensures
        string_view(r) == (match home {
            Some(h) => Some(dir_of(h@)),
            None => None,
        }),
{
    match home {
        Some(h) => Some(join(h, ".clawshake")),
        None => None,
    }
}

/// The configuration file: `~/.clawshake/config.toml`.
pub fn config_path(home: Option<&str>) -> (r: Option<String>)
    ensures
        string_view(r) == (match home {
            Some(h) => Some(joined(dir_of(h@), "config.toml"@)),
            None => None,
        }),
{
    match config_dir(home) {
        Some(d) => Some(join(d.as_str(), "config.toml")),
        None => None,
    }
}

/// The file to load: the given one, else the default one, if there is a home
/// directory.
pub fn config_file(path: Option<&str>, home: Option<&str>) -> (r: Option<String>)
    ensures
        string_view(r) == (match path {
            Some(p) => Some(p@),
            None => match home {
                Some(h) => Some(joined(dir_of(h@), "config.toml"@)),
                None => None,
            },
        }),
{
    match path {
        Some(p) => Some(p.to_owned()),
        None => config_path(home),
    }
}

// ---------------------------------------------------------------------------
// Reading
// ---------------------------------------------------------------------------

/// What `toml::from_str` reads from a text: the document as a value, or
/// nothing where the text is not a TOML document.
pub uninterp spec fn parsed_toml(text: Seq<char>) -> Option<JsonView>;

/// `toml::from_str`: what it returns is a function of the text alone; the TOML
/// grammar is left unsaid.
#[verifier::external_body]
fn parse_toml(text: &str) -> (r: Option<Json>)
    ensures
        json_option(r) == parsed_toml(text@),
{
    match toml::from_str(text) {
        Ok(document) => Some(from_value(document)),
        Err(_) => None,
    }
}

/// The value of a field, or a default where it is missing.
pub open spec fn or_default<T>(f: Field<T>, default: T) -> T {
    match f {
        Field::Value(v) => v,
        _ => default,
    }
}

/// The value of a field, if it is there.
pub open spec fn if_there<T>(f: Field<T>) -> Option<T> {
    match f {
        Field::Value(v) => Some(v),
        _ => None,
    }
}

/// The names of the fields of a section, in their order.
pub open spec fn section_names(key: Seq<char>) -> Seq<Seq<char>> {
    if key == "network"@ {
        seq!["description"@, "bootstrap"@, "listen_port"@, "relay_server"@, "identity_path"@]
    } else if key == "models"@ {
        seq!["endpoint"@, "advertise"@, "proxy_port"@]
    } else if key == "tools"@ {
        seq!["shell"@]
    } else if key == "shell"@ {
        seq!["blocked_patterns"@, "default_timeout_secs"@, "max_output_bytes"@]
    } else if key == "memory"@ {
        seq![
            "enabled"@,
            "db_path"@,
            "transcript_dir"@,
            "skill_dirs"@,
            "notes_dir"@,
            "identity_path"@,
            "instructions_path"@,
            "watch"@,
            "ingest"@,
        ]
    } else if key == "watch"@ {
        seq!["debounce_secs"@, "watch_transcripts"@]
    } else if key == "ingest"@ {
        seq!["chunk_max_chars"@, "chunk_overlap_chars"@]
    } else {
        seq!["enabled"@, "network"@, "memory_bytes"@, "timeout_secs"@, "read_only_mounts"@]
    }
}

/// The section `key`: an empty one where it is missing, a table, or an array
/// of its first fields; nothing where it is something else.
pub open spec fn section(j: JsonView, key: Seq<char>) -> Option<JsonView> {
    match j.member(key) {
        None => Some(JsonView::Object(Seq::empty())),
        Some(JsonView::Object(m)) => Some(JsonView::Object(m)),
        Some(JsonView::Array(items)) => Some(placed(items, section_names(key))),
        Some(_) => None,
    }
}

/// What a `[network]` table says.
pub open spec fn read_network(j: JsonView) -> Option<NetworkView> {
    let description = j.text_field("description"@);
    let bootstrap = j.texts_field("bootstrap"@);
    let listen_port = j.natural_field("listen_port"@, 65535);
    let relay_server = j.truth_field("relay_server"@);
    let identity_path = j.text_field("identity_path"@);
    if description is Wrong || bootstrap is Wrong || listen_port is Wrong || relay_server is Wrong || identity_path is Wrong {
        None
    } else {
        Some(
            NetworkView {
                description: if_there(description),
                bootstrap: or_default(bootstrap, Seq::empty()),
                listen_port: if_there(listen_port),
                relay_server: or_default(relay_server, false),
                identity_path: if_there(identity_path),
            },
        )
    }
}

/// What `advertise` says: `"all"`, `"none"` or a list of names.
pub open spec fn advertise_field(j: JsonView) -> Field<AdvertiseView> {
    match j.member("advertise"@) {
        None => Field::Missing,
        Some(JsonView::Text(t)) => if t == "all"@ {
            Field::Value(AdvertiseView::All)
        } else if t == "none"@ {
            Field::Value(AdvertiseView::Nothing)
        } else {
            Field::Wrong
        },
        Some(_) => match j.texts_field("advertise"@) {
            Field::Value(names) => Field::Value(AdvertiseView::List(names)),
            _ => Field::Wrong,
        },
    }
}

/// Which models are advertised where nothing is said: all, once an endpoint is
/// set.
pub open spec fn advertised_by_default(endpoint: Option<Seq<char>>) -> AdvertiseView {
    if endpoint is Some {
        AdvertiseView::All
    } else {
        AdvertiseView::Nothing
    }
}

/// What a `[models]` table says.
pub open spec fn read_models(j: JsonView) -> Option<ModelsView> {
    let endpoint = j.text_field("endpoint"@);
    let advertise = advertise_field(j);
    let proxy_port = j.natural_field("proxy_port"@, 65535);
    if endpoint is Wrong || advertise is Wrong || proxy_port is Wrong {
        None
    } else {
        Some(
            ModelsView {
                endpoint: if_there(endpoint),
                advertise: or_default(advertise, advertised_by_default(if_there(endpoint))),
                proxy_port: or_default(proxy_port, 11435),
            },
        )
    }
}

/// What a `[tools.shell]` table says.
pub open spec fn read_shell(j: JsonView) -> Option<ShellView> {
    let patterns = j.texts_field("blocked_patterns"@);
    let timeout = j.natural_field("default_timeout_secs"@, u64::MAX as int);
    let output = j.natural_field("max_output_bytes"@, usize::MAX as int);
    if patterns is Wrong || timeout is Wrong || output is Wrong {
        None
    } else {
        Some(
            ShellView {
                blocked_patterns: or_default(patterns, Seq::empty()),
                default_timeout_secs: or_default(timeout, 30),
                max_output_bytes: or_default(output, 1_048_576),
            },
        )
    }
}

/// What a `[memory]` table says.
pub open spec fn read_memory(j: JsonView) -> Option<MemoryView> {
    let enabled = j.truth_field("enabled"@);
    let db_path = j.text_field("db_path"@);
    let transcript_dir = j.text_field("transcript_dir"@);
    let skill_dirs = j.texts_field("skill_dirs"@);
    let notes_dir = j.text_field("notes_dir"@);
    let identity_path = j.text_field("identity_path"@);
    let instructions_path = j.text_field("instructions_path"@);
    match (section(j, "watch"@), section(j, "ingest"@)) {
        (Some(watch), Some(ingest)) => {
            let debounce = watch.natural_field("debounce_secs"@, u64::MAX as int);
            let transcripts = watch.truth_field("watch_transcripts"@);
            let max_chars = ingest.natural_field("chunk_max_chars"@, usize::MAX as int);
            let overlap = ingest.natural_field("chunk_overlap_chars"@, usize::MAX as int);
            if enabled is Wrong || db_path is Wrong || transcript_dir is Wrong || skill_dirs is Wrong || notes_dir is Wrong
                || identity_path is Wrong || instructions_path is Wrong || debounce is Wrong || transcripts is Wrong
                || max_chars is Wrong || overlap is Wrong {
                None
            } else {
                Some(
                    MemoryView {
                        enabled: or_default(enabled, true),
                        db_path: if_there(db_path),
                        transcript_dir: if_there(transcript_dir),
                        skill_dirs: if_there(skill_dirs),
                        notes_dir: if_there(notes_dir),
                        identity_path: if_there(identity_path),
                        instructions_path: if_there(instructions_path),
                        debounce_secs: or_default(debounce, 2),
                        watch_transcripts: or_default(transcripts, true),
                        chunk_max_chars: or_default(max_chars, 1600),
                        chunk_overlap_chars: or_default(overlap, 320),
                    },
                )
            }
        },
        _ => None,
    }
}

/// What `network` in a `[sandbox]` table says.
pub open spec fn policy_field(j: JsonView) -> Field<SandboxNetworkPolicy> {
    match j.text_field("network"@) {
        Field::Missing => Field::Missing,
        Field::Wrong => Field::Wrong,
        Field::Value(t) => if t == "none"@ {
            Field::Value(SandboxNetworkPolicy::NoAccess)
        } else if t == "allow"@ {
            Field::Value(SandboxNetworkPolicy::Allow)
        } else if t == "outbound_only"@ {
            Field::Value(SandboxNetworkPolicy::OutboundOnly)
        } else {
            Field::Wrong
        },
    }
}

/// What a `[sandbox]` table says.
pub open spec fn read_sandbox(j: JsonView) -> Option<SandboxView> {
    let enabled = j.truth_field("enabled"@);
    let network = policy_field(j);
    let memory = j.natural_field("memory_bytes"@, u64::MAX as int);
    let timeout = j.natural_field("timeout_secs"@, u64::MAX as int);
    let mounts = j.texts_field("read_only_mounts"@);
    if enabled is Wrong || network is Wrong || memory is Wrong || timeout is Wrong || mounts is Wrong {
        None
    } else {
        Some(
            SandboxView {
                enabled: or_default(enabled, false),
                network: or_default(network, SandboxNetworkPolicy::NoAccess),
                memory_bytes: or_default(memory, 0),
                timeout_secs: or_default(timeout, 0),
                read_only_mounts: or_default(mounts, Seq::empty()),
            },
        )
    }
}

/// What a document says: each section with its defaults filled in, or nothing
/// where some field has another type.
pub open spec fn read_config(j: JsonView) -> Option<ConfigView> {
    match (
        section(j, "network"@),
        section(j, "models"@),
        section(j, "tools"@),
        section(j, "memory"@),
        section(j, "sandbox"@),
    ) {
        (Some(network), Some(models), Some(tools), Some(memory), Some(sandbox)) => match section(tools, "shell"@) {
            Some(shell) => match (
                read_network(network),
                read_models(models),
                read_shell(shell),
                read_memory(memory),
                read_sandbox(sandbox),
            ) {
                (Some(network), Some(models), Some(shell), Some(memory), Some(sandbox)) => Some(
                    ConfigView { network, models, shell, memory, sandbox },
                ),
                _ => None,
            },
            None => None,
        },
        _ => None,
    }
}

fn take_text(f: Field<String>, ok: &mut bool) -> (r: Option<String>)
    ensures
        string_view(r) == if_there(crate::json::text_field_view(f)),
        *final(ok) == (*old(ok) && !(f is Wrong)),
{
    match f {
        Field::Value(v) => Some(v),
        Field::Missing => None,
        Field::Wrong => {
            *ok = false;
            None
        },
    }
}

fn take_texts(f: Field<Vec<String>>, ok: &mut bool) -> (r: Option<Vec<String>>)
    ensures
        texts_option(r) == if_there(texts_field_view(f)),
        *final(ok) == (*old(ok) && !(f is Wrong)),
{
    match f {
        Field::Value(v) => Some(v),
        Field::Missing => None,
        Field::Wrong => {
            *ok = false;
            None
        },
    }
}

fn take_list(f: Field<Vec<String>>, ok: &mut bool) -> (r: Vec<String>)
    ensures
        texts_view(r@) == or_default(texts_field_view(f), Seq::empty()),
        *final(ok) == (*old(ok) && !(f is Wrong)),
{
    match f {
        Field::Value(v) => v,
        Field::Missing => no_texts(),
        Field::Wrong => {
            *ok = false;
            no_texts()
        },
    }
}

fn take_truth(f: Field<bool>, default: bool, ok: &mut bool) -> (r: bool)
    ensures
        r == or_default(f, default),
        *final(ok) == (*old(ok) && !(f is Wrong)),
{
    match f {
        Field::Value(v) => v,
        Field::Missing => default,
        Field::Wrong => {
            *ok = false;
            default
        },
    }
}

fn take_natural(f: Field<u64>, default: u64, ok: &mut bool) -> (r: u64)
    ensures
        r == or_default(f, default),
        *final(ok) == (*old(ok) && !(f is Wrong)),
{
    match f {
        Field::Value(v) => v,
        Field::Missing => default,
        Field::Wrong => {
            *ok = false;
            default
        },
    }
}

/// The names of the fields of a section, in their order.
fn names_in(key: &str) -> (r: Vec<&'static str>)
    ensures
        strs_view(r@) == section_names(key@),
{
    let names: Vec<&'static str> = if same(key, "network") {
        vec!["description", "bootstrap", "listen_port", "relay_server", "identity_path"]
    } else if same(key, "models") {
        vec!["endpoint", "advertise", "proxy_port"]
    } else if same(key, "tools") {
        vec!["shell"]
    } else if same(key, "shell") {
        vec!["blocked_patterns", "default_timeout_secs", "max_output_bytes"]
    } else if same(key, "memory") {
        vec![
            "enabled",
            "db_path",
            "transcript_dir",
            "skill_dirs",
            "notes_dir",
            "identity_path",
            "instructions_path",
            "watch",
            "ingest",
        ]
    } else if same(key, "watch") {
        vec!["debounce_secs", "watch_transcripts"]
    } else if same(key, "ingest") {
        vec!["chunk_max_chars", "chunk_overlap_chars"]
    } else {
        vec!["enabled", "network", "memory_bytes", "timeout_secs", "read_only_mounts"]
    };
    assert(strs_view(names@) =~= section_names(key@));
    names
}

/// The section `key`.
fn take_section(j: &Json, key: &str) -> (r: Option<Json>)
    ensures
        json_option(r) == section(j@, key@),
{
    match j.get(key) {
        None => Some(Json::object()),
        Some(v) => match v {
            Json::Object(_) => Some(v.clone()),
            Json::Array(_) => Some(v.section_fields(&names_in(key))),
            _ => None,
        },
    }
}

fn network_from(j: &Json) -> (r: Option<NetworkConfig>)
    ensures
        match r {
            Some(c) => read_network(j@) == Some(c@),
            None => read_network(j@) is None,
        },
{
    let mut ok = true;
    let description = take_text(j.text_field("description"), &mut ok);
    let bootstrap = take_list(j.texts_field("bootstrap"), &mut ok);
    let port = j.natural_field("listen_port", 65535);
    let listen_port: Option<u16> = match port {
        Field::Value(n) => Some(n as u16),
        Field::Missing => None,
        Field::Wrong => {
            ok = false;
            None
        },
    };
    let relay_server = take_truth(j.truth_field("relay_server"), false, &mut ok);
    let identity_path = take_text(j.text_field("identity_path"), &mut ok);
    if ok {
        Some(NetworkConfig { description, bootstrap, listen_port, relay_server, identity_path })
    } else {
        None
    }
}

fn advertise_from(j: &Json) -> (r: Field<AdvertiseModels>)
    ensures
        match r {
            Field::Missing => advertise_field(j@) is Missing,
            Field::Wrong => advertise_field(j@) is Wrong,
            Field::Value(a) => advertise_field(j@) == Field::Value(a@),
        },
{
    match j.get("advertise") {
        None => Field::Missing,
        Some(Json::Text(t)) => {
            if same(t.as_str(), "all") {
                Field::Value(AdvertiseModels::All(AdvertiseAll::All))
            } else if same(t.as_str(), "none") {
                Field::Value(AdvertiseModels::Nothing(AdvertiseNone::Nothing))
            } else {
                Field::Wrong
            }
        },
        Some(_) => match j.texts_field("advertise") {
            Field::Value(names) => Field::Value(AdvertiseModels::List(names)),
            _ => Field::Wrong,
        },
    }
}

fn models_from(j: &Json) -> (r: Option<ModelsConfig>)
    ensures
        match r {
            Some(c) => read_models(j@) == Some(c@),
            None => read_models(j@) is None,
        },
{
    let mut ok = true;
    let endpoint = take_text(j.text_field("endpoint"), &mut ok);
    let advertise = match advertise_from(j) {
        Field::Value(a) => a,
        Field::Missing => if endpoint.is_some() {
            AdvertiseModels::All(AdvertiseAll::All)
        } else {
            AdvertiseModels::default()
        },
        Field::Wrong => {
            ok = false;
            AdvertiseModels::default()
        },
    };
    let proxy_port: u64 = take_natural(j.natural_field("proxy_port", 65535), 11435, &mut ok);
    if ok {
        Some(ModelsConfig { endpoint, advertise, proxy_port: proxy_port as u16 })
    } else {
        None
    }
}

fn shell_from(j: &Json) -> (r: Option<ShellConfig>)
    ensures
        match r {
            Some(c) => read_shell(j@) == Some(c@),
            None => read_shell(j@) is None,
        },
{
    let mut ok = true;
    let blocked_patterns = take_list(j.texts_field("blocked_patterns"), &mut ok);
    let default_timeout_secs: u64 = take_natural(j.natural_field("default_timeout_secs", u64::MAX), 30, &mut ok);
    let max: u64 = take_natural(j.natural_field("max_output_bytes", usize::MAX as u64), 1_048_576, &mut ok);
    if ok {
        Some(ShellConfig { blocked_patterns, default_timeout_secs, max_output_bytes: max as usize })
    } else {
        None
    }
}

fn memory_from(j: &Json) -> (r: Option<MemoryConfig>)
    ensures
        match r {
            Some(c) => read_memory(j@) == Some(c@),
            None => read_memory(j@) is None,
        },
{
    let watch = match take_section(j, "watch") {
        Some(w) => w,
        None => return None,
    };
    let ingest = match take_section(j, "ingest") {
        Some(i) => i,
        None => return None,
    };
    let mut ok = true;
    let enabled = take_truth(j.truth_field("enabled"), true, &mut ok);
    let db_path = take_text(j.text_field("db_path"), &mut ok);
    let transcript_dir = take_text(j.text_field("transcript_dir"), &mut ok);
    let skill_dirs = take_texts(j.texts_field("skill_dirs"), &mut ok);
    let notes_dir = take_text(j.text_field("notes_dir"), &mut ok);
    let identity_path = take_text(j.text_field("identity_path"), &mut ok);
    let instructions_path = take_text(j.text_field("instructions_path"), &mut ok);
    let debounce_secs: u64 = take_natural(watch.natural_field("debounce_secs", u64::MAX), 2, &mut ok);
    let watch_transcripts = take_truth(watch.truth_field("watch_transcripts"), true, &mut ok);
    let max: u64 = take_natural(ingest.natural_field("chunk_max_chars", usize::MAX as u64), 1600, &mut ok);
    let overlap: u64 = take_natural(ingest.natural_field("chunk_overlap_chars", usize::MAX as u64), 320, &mut ok);
    if ok {
        Some(
            MemoryConfig {
                enabled,
                db_path,
                transcript_dir,
                skill_dirs,
                notes_dir,
                identity_path,
                instructions_path,
                watch: MemoryWatchConfig { debounce_secs, watch_transcripts },
                ingest: MemoryIngestConfig {
                    chunk_max_chars: max as usize,
                    chunk_overlap_chars: overlap as usize,
                },
            },
        )
    } else {
        None
    }
}

fn policy_from(j: &Json) -> (r: Field<SandboxNetworkPolicy>)
    ensures
        r == policy_field(j@),
{
    match j.text_field("network") {
        Field::Missing => Field::Missing,
        Field::Wrong => Field::Wrong,
        Field::Value(t) => {
            if same(t.as_str(), "none") {
                Field::Value(SandboxNetworkPolicy::NoAccess)
            } else if same(t.as_str(), "allow") {
                Field::Value(SandboxNetworkPolicy::Allow)
            } else if same(t.as_str(), "outbound_only") {
                Field::Value(SandboxNetworkPolicy::OutboundOnly)
            } else {
                Field::Wrong
            }
        },
    }
}

fn sandbox_from(j: &Json) -> (r: Option<SandboxDefaults>)
    ensures
        match r {
            Some(c) => read_sandbox(j@) == Some(c@),
            None => read_sandbox(j@) is None,
        },
{
    let mut ok = true;
    let enabled = take_truth(j.truth_field("enabled"), false, &mut ok);
    let network = match policy_from(j) {
        Field::Value(p) => p,
        Field::Missing => SandboxNetworkPolicy::NoAccess,
        Field::Wrong => {
            ok = false;
            SandboxNetworkPolicy::NoAccess
        },
    };
    let memory_bytes: u64 = take_natural(j.natural_field("memory_bytes", u64::MAX), 0, &mut ok);
    let timeout_secs: u64 = take_natural(j.natural_field("timeout_secs", u64::MAX), 0, &mut ok);
    let read_only_mounts = take_list(j.texts_field("read_only_mounts"), &mut ok);
    if ok {
        Some(SandboxDefaults { enabled, network, memory_bytes, timeout_secs, read_only_mounts })
    } else {
        None
    }
}

impl Config {
    /// Reads a document: missing fields get their defaults; a field of another
    /// type makes the whole document invalid.
    pub fn from_document(j: &Json) -> (r: Option<Config>)
        ensures
            match r {
                Some(c) => read_config(j@) == Some(c@),
                None => read_config(j@) is None,
            },
    {
        match (
            take_section(j, "network"),
            take_section(j, "models"),
            take_section(j, "tools"),
            take_section(j, "memory"),
            take_section(j, "sandbox"),
        ) {
            (Some(network), Some(models), Some(tools), Some(memory), Some(sandbox)) => {
                let shell = match take_section(&tools, "shell") {
                    Some(s) => s,
                    None => return None,
                };
                match (
                    network_from(&network),
                    models_from(&models),
                    shell_from(&shell),
                    memory_from(&memory),
                    sandbox_from(&sandbox),
                ) {
                    (Some(network), Some(models), Some(shell), Some(memory), Some(sandbox)) => Some(
                        Config { network, models, tools: ToolsConfig { shell }, memory, sandbox },
                    ),
                    _ => None,
                }
            },
            _ => None,
        }
    }

    /// Reads the text of a configuration file.
    pub fn from_toml(text: &str) -> (r: Option<Config>)
        ensures
            match (r, parsed_toml(text@)) {
                (Some(c), Some(j)) => read_config(j) == Some(c@),
                (None, Some(j)) => read_config(j) is None,
                (None, None) => true,
                (Some(_), None) => false,
            },
    {
        match parse_toml(text) {
            Some(j) => Config::from_document(&j),
            None => None,
        }
    }
}

/// Loads the configuration from the contents of its file: the defaults where
/// there is no file, nothing where its text is no configuration.
pub fn load(contents: Option<&str>) -> (r: Option<Config>)
    ensures
        match contents {
            None => r is Some && r->0@ == default_config(),
            Some(text) => match parsed_toml(text@) {
                Some(j) => match read_config(j) {
                    Some(c) => r is Some && r->0@ == c,
                    None => r is None,
                },
                None => r is None,
            },
        },
{
    match contents {
        None => Some(Config::default()),
        Some(text) => Config::from_toml(text),
    }
}

/// An empty file is the default configuration.
pub proof fn law_empty_document_is_default()
    ensures
        read_config(JsonView::Object(Seq::empty())) == Some(default_config()),
{
}

} // verus!
