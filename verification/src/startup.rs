//! Starting the broker and the bridge.
use vstd::prelude::*;

use crate::builtins::{register, with_builtins};
use crate::json::texts_view;
use crate::mcp_client::{plan_server, server_spawn, HttpBackend};
use crate::paths::{dir_of, join, joined};
use crate::registry::{LoadedView, ManifestRegistry};
use crate::shell::{Spawn, SpawnView};
use crate::text::{decimal, same};

verus! {

// ---------------------------------------------------------------------------
// Paths
// ---------------------------------------------------------------------------

/// The directory of the manifests and the file of the permissions, in a home
/// directory.
pub fn resolve_paths(home: &str) -> (r: (String, String))
    ensures
        r.0@ == joined(dir_of(home@), "manifests"@),
        r.1@ == joined(dir_of(home@), "permissions.db"@),
{
    let dir = join(home, ".clawshake");
    (join(dir.as_str(), "manifests"), join(dir.as_str(), "permissions.db"))
}

// ---------------------------------------------------------------------------
// Code mode
// ---------------------------------------------------------------------------

/// `which::which`, asked for Node.js: whether an executable of that name is on
/// the search path now.  Nothing is claimed of the answer, which rests on the
/// machine.
#[verifier::external_body]
fn node_on_path() -> (r: bool) {
    which::which("node").is_ok()
}

/// Whether code mode is active: it was asked for, and Node.js is there.
pub fn code_mode_active(code_mode_flag: bool, has_node: bool) -> (r: bool)
    ensures
        r == (code_mode_flag && has_node),
{
    code_mode_flag && has_node
}

/// Looks for Node.js: whether it is there, and whether code mode is active.
/// That Node.js is there is not enough: code is run only where that was asked
/// for.
pub fn detect_code_mode(code_mode_flag: bool) -> (r: (bool, bool))
    ensures
        r.1 == (code_mode_flag && r.0),
{
    let has_node = node_on_path();
    (has_node, code_mode_active(code_mode_flag, has_node))
}

// ---------------------------------------------------------------------------
// The broker
// ---------------------------------------------------------------------------

/// How the broker is started.
pub struct BrokerConfig {
    /// The directory of the manifests.
    pub manifests_dir: String,
    /// The file of the permissions.
    pub db_path: String,
    /// The HTTP port; 0 for the standard streams alone.
    pub port: u16,
    /// Whether code mode was asked for.
    pub code_mode: bool,
    /// Whether the bridge is running.
    pub bridge_available: bool,
    /// Whether memory is on.
    pub memory: bool,
}

/// What is left of the start for the caller.
pub struct BrokerHandle {
    pub registry: ManifestRegistry,
    pub port: u16,
}

/// The part of the start before any manifest is loaded: the registry holds the
/// built-in tools.
pub fn prepare_broker(config: &BrokerConfig, has_node: bool) -> (r: BrokerHandle)
    ensures
        r.registry.wf(),
        r.registry@ == with_builtins(
            Map::<Seq<char>, LoadedView>::empty(),
            config.code_mode && has_node,
            config.bridge_available,
            config.memory,
        ),
        r.port == config.port,
{
    let mut registry = ManifestRegistry::new();
    register(
        &mut registry,
        code_mode_active(config.code_mode, has_node),
        config.bridge_available,
        config.memory,
    );
    BrokerHandle { registry, port: config.port }
}

// ---------------------------------------------------------------------------
// The bridge
// ---------------------------------------------------------------------------

/// The flags of the peer-to-peer network.
pub struct P2pArgs {
    /// The TCP port for connections of peers; 0 for a random one.
    pub p2p_port: u16,
    /// The addresses of the peers to dial first.
    pub boot_peers: Vec<String>,
    /// Leave out the peers to dial first that are built in.
    pub no_default_boot: bool,
    /// Forward traffic between peers behind NAT, on a stable port.
    pub relay_server: bool,
    /// The file of the key pair.
    pub identity: Option<String>,
}

/// The flags of the MCP server behind the bridge.
pub struct McpArgs {
    /// It listens on this HTTP port.
    pub mcp_port: Option<u16>,
    /// It is started by this command.
    pub mcp_cmd: Option<String>,
}

/// The MCP server behind the bridge.
pub enum Backend {
    /// A process, and the name by which this node introduces itself to it.
    Stdio { process: Spawn, label: String },
    /// An HTTP endpoint.
    Http(HttpBackend),
    /// There is none: the node only discovers others.
    DiscoveryOnly,
}

/// The model of [`Backend`].
#[verifier::ext_equal]
pub enum BackendView {
    Stdio { process: SpawnView, label: Seq<char> },
    Http { url: Seq<char> },
    DiscoveryOnly,
}

impl View for Backend {
    type V = BackendView;

    open spec fn view(&self) -> BackendView {
        match self {
            Backend::Stdio { process, label } => BackendView::Stdio { process: process@, label: label@ },
            Backend::Http(b) => BackendView::Http { url: b.url@ },
            Backend::DiscoveryOnly => BackendView::DiscoveryOnly,
        }
    }
}

/// The MCP server that the flags choose: the command goes before the port.
pub open spec fn chosen_backend(args: McpArgs, label: Seq<char>, windows: bool) -> BackendView {
    match (args.mcp_cmd, args.mcp_port) {
        (Some(cmd), _) => BackendView::Stdio { process: server_spawn(cmd@, Seq::empty(), windows), label },
        (None, Some(port)) => BackendView::Http { url: "http://127.0.0.1:"@ + decimal(port as nat) },
        (None, None) => BackendView::DiscoveryOnly,
    }
}

impl McpArgs {
    /// Whether one of the flags was given.
    pub fn is_track1(&self) -> (r: bool)
        ensures
            r == (self.mcp_cmd is Some || self.mcp_port is Some),
    {
        self.mcp_cmd.is_some() || self.mcp_port.is_some()
    }

    /// The MCP server that the flags choose.
    pub fn build(&self, label: &str, windows: bool) -> (r: Backend)
        ensures
            r@ == chosen_backend(*self, label@, windows),
    {
        match &self.mcp_cmd {
            Some(cmd) => {
                let none: Vec<String> = Vec::new();
                assert(texts_view(none@) =~= Seq::empty());
                Backend::Stdio { process: plan_server(cmd.as_str(), &none, windows), label: label.to_owned() }
            },
            None => match self.mcp_port {
                Some(port) => Backend::Http(HttpBackend::new(port)),
                None => Backend::DiscoveryOnly,
            },
        }
    }
}

/// There is a backend exactly when one of the flags was given.
pub proof fn law_flags_give_a_backend(args: McpArgs, label: Seq<char>, windows: bool)
    ensures
        chosen_backend(args, label, windows) is DiscoveryOnly <==> !(args.mcp_cmd is Some || args.mcp_port is Some),
{
}

// ---------------------------------------------------------------------------
// Changes of the permissions
// ---------------------------------------------------------------------------

/// What happened to files in the directory of the permissions.
#[derive(Clone, Copy, PartialEq, Eq, Structural)]
pub enum FileEvent {
    Modified,
    Created,
    Other,
}

/// Whether `name` is the file of the permissions, or of its write-ahead log.
pub open spec fn is_db_file(name: Seq<char>, db_name: Seq<char>) -> bool {
    name == db_name || name == db_name + "-wal"@
}

/// Some of the names is one of the database.
pub open spec fn some_db_file(names: Seq<Seq<char>>, db_name: Seq<char>) -> bool {
    exists|i: int| 0 <= i < names.len() && is_db_file(#[trigger] names[i], db_name)
}

/// Whether the permissions may have changed, so that the tools are announced
/// anew.  A small change is written to the write-ahead log alone.
pub fn permissions_changed(names: &Vec<String>, event: FileEvent, db_name: &str) -> (r: bool)
    ensures
        r == (some_db_file(texts_view(names@), db_name@) && event != FileEvent::Other),
{
    let mut log = db_name.to_owned();
    log.push_str("-wal");
    let mut hit = false;
    let mut i: usize = 0;
    while i < names.len()
        invariant
            log@ == db_name@ + "-wal"@,
            i <= names@.len(),
            hit ==> some_db_file(texts_view(names@), db_name@),
            !hit ==> forall|j: int| 0 <= j < i ==> !is_db_file((#[trigger] names@[j])@, db_name@),
        decreases names@.len() - i,
    {
        if same(names[i].as_str(), db_name) || same(names[i].as_str(), log.as_str()) {
            assert(is_db_file(texts_view(names@)[i as int], db_name@));
            hit = true;
        }
        i += 1;
    }
    assert(hit == some_db_file(texts_view(names@), db_name@));
    hit && event != FileEvent::Other
}

} // verus!
