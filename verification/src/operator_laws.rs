//! What the operator of a node can rely on: the command line, the
//! configuration, the login and the jobs.
use vstd::prelude::*;

use crate::addr::{own_host, unroutable, PartView};
use crate::auth::{access, cookie_text, decoded, last_token, session, session_part};
use crate::commands::{
    action_text, age, changed_text, installable, installed_text, manifest_file, manifest_lines, padded, published, rule_row, rule_rows,
    rules_after, snapshot_names, tool_row, tool_rows, tool_table, truncated, valid_text, Heading, LineView, PermissionsAction,
};
use crate::config::{
    default_config, overridden, read_config, read_memory, read_models, read_network, read_sandbox, read_shell,
    NetworkView,
};
use crate::cron::{add_refusal, added_job, with_job, SchedulerView};
use crate::http::{endpoint, event_source};
use crate::identity::{agent_class, agent_name, AgentId};
use crate::json::{parsed, Field, JsonView};
use crate::manifest::{read_manifest, ManifestView, SourceView, ToolView};
use crate::paths::joined;
use crate::peer_id::{identity_in, read_key};
use crate::permissions::{decision_word, effective, exposed, PermissionRecord, Rule, RuleKey};
use crate::startup::{chosen_backend, is_db_file, some_db_file, BackendView, McpArgs};
use crate::text::{decimal, lemma_occurs_between, lemma_occurs_in_more, lemma_occurs_through, occurs, split_at};

verus! {

// ---------------------------------------------------------------------------
// Permissions
// ---------------------------------------------------------------------------

/// Allowing a peer a tool lets it call the tool, denying keeps it from it, and
/// removing leaves no rule for the pair; no other rule is touched.
pub proof fn law_permission_commands_decide(
    m: Map<RuleKey, Rule>,
    peer: String,
    agent_id: String,
    tool_name: String,
    now: i64,
    other: RuleKey,
)
    requires
        agent_id@ == "p2p:"@ + peer@,
    ensures
        effective(rules_after(m, PermissionsAction::Allow { agent_id, tool_name }, now), AgentId::P2p(peer), tool_name@)
            is Allow,
        effective(rules_after(m, PermissionsAction::Deny { agent_id, tool_name }, now), AgentId::P2p(peer), tool_name@)
            is Deny,
        !rules_after(m, PermissionsAction::Remove { agent_id, tool_name }, now).contains_key(
            RuleKey { agent: agent_id@, resource: tool_name@ },
        ),
        exposed(rules_after(m, PermissionsAction::Allow { agent_id, tool_name }, now), tool_name@),
        rules_after(m, PermissionsAction::List, now) == m,
        other != (RuleKey { agent: agent_id@, resource: tool_name@ }) ==> {
            &&& rules_after(m, PermissionsAction::Allow { agent_id, tool_name }, now).contains_key(other)
                <==> m.contains_key(other)
            &&& rules_after(m, PermissionsAction::Deny { agent_id, tool_name }, now).contains_key(other)
                <==> m.contains_key(other)
            &&& rules_after(m, PermissionsAction::Remove { agent_id, tool_name }, now).contains_key(other)
                <==> m.contains_key(other)
            &&& m.contains_key(other) ==> rules_after(m, PermissionsAction::Allow { agent_id, tool_name }, now)[other]
                == m[other] && rules_after(m, PermissionsAction::Deny { agent_id, tool_name }, now)[other] == m[other]
                && rules_after(m, PermissionsAction::Remove { agent_id, tool_name }, now)[other] == m[other]
        },
{
    let allowed = rules_after(m, PermissionsAction::Allow { agent_id, tool_name }, now);
    crate::permissions::law_callable_is_exposed(allowed, peer, tool_name@);
}

/// What a command says names the agent and the tool it was about.
pub proof fn law_permission_commands_tell(rows: Seq<PermissionRecord>, agent_id: String, tool_name: String)
    ensures
        occurs(action_text(rows, PermissionsAction::Allow { agent_id, tool_name }), agent_id@),
        occurs(action_text(rows, PermissionsAction::Allow { agent_id, tool_name }), tool_name@),
        occurs(action_text(rows, PermissionsAction::Deny { agent_id, tool_name }), agent_id@),
        occurs(action_text(rows, PermissionsAction::Deny { agent_id, tool_name }), tool_name@),
        occurs(action_text(rows, PermissionsAction::Remove { agent_id, tool_name }), agent_id@),
        occurs(action_text(rows, PermissionsAction::Remove { agent_id, tool_name }), tool_name@),
{
    lemma_changed("✓ allow  "@, agent_id@, tool_name@);
    lemma_changed("✓ deny   "@, agent_id@, tool_name@);
    lemma_changed("✓ removed  "@, agent_id@, tool_name@);
}

proof fn lemma_changed(word: Seq<char>, agent: Seq<char>, tool: Seq<char>)
    ensures
        occurs(changed_text(word, agent, tool), agent),
        occurs(changed_text(word, agent, tool), tool),
{
    lemma_occurs_between(word, agent, "  "@ + tool + "\n"@);
    assert(word + agent + ("  "@ + tool + "\n"@) =~= changed_text(word, agent, tool));
    lemma_occurs_between(word + agent + "  "@, tool, "\n"@);
}

proof fn lemma_padded(s: Seq<char>, width: nat)
    ensures
        occurs(padded(s, width), s),
{
    let none = Seq::<char>::empty();
    lemma_occurs_between(none, s, none);
    assert(none + s + none =~= s);
    if s.len() < width {
        let pad = crate::commands::repeated(' ', (width - s.len()) as nat);
        lemma_occurs_between(none, s, pad);
        assert(none + s + pad =~= s + pad);
    }
}

/// The list of rules shows every rule: its decision, its agent and its tool.
pub proof fn law_every_rule_is_listed(rows: Seq<PermissionRecord>, i: int)
    requires
        0 <= i < rows.len(),
    ensures
        occurs(action_text(rows, PermissionsAction::List), rule_row(rows[i])),
        occurs(rule_row(rows[i]), rows[i].agent_id@),
        occurs(rule_row(rows[i]), rows[i].resource@),
        decision_word(rows[i].decision).is_prefix_of(rule_row(rows[i])),
{
    lemma_rule_rows(rows, i);
    let r = rows[i];
    let word = decision_word(r.decision);
    let row = rule_row(r);
    let head = padded("decision"@, 12) + "  "@ + padded("agent_id"@, 40) + "  tool_name\n"@
        + crate::commands::repeated('-', 72) + "\n"@;
    lemma_occurs_in_more(head, rule_rows(rows), Seq::empty(), row);
    lemma_padded(r.agent_id@, 40);
    lemma_occurs_between(word + "  "@, padded(r.agent_id@, 40), "  "@ + r.resource@ + "\n"@);
    assert(word + "  "@ + padded(r.agent_id@, 40) + ("  "@ + r.resource@ + "\n"@) =~= row);
    lemma_occurs_through(row, padded(r.agent_id@, 40), r.agent_id@);
    lemma_occurs_between(word + "  "@ + padded(r.agent_id@, 40) + "  "@, r.resource@, "\n"@);
    assert(word =~= row.subrange(0, word.len() as int));
}

proof fn lemma_rule_rows(rows: Seq<PermissionRecord>, i: int)
    requires
        0 <= i < rows.len(),
    ensures
        occurs(rule_rows(rows), rule_row(rows[i])),
    decreases rows.len(),
{
    let before = rule_rows(rows.drop_last());
    let last = rule_row(rows.last());
    if i < rows.len() - 1 {
        lemma_rule_rows(rows.drop_last(), i);
        lemma_occurs_in_more(Seq::empty(), before, last, rule_row(rows[i]));
    } else {
        lemma_occurs_between(before, last, Seq::empty());
        assert(before + last + Seq::empty() =~= before + last);
    }
}

// ---------------------------------------------------------------------------
// Tools
// ---------------------------------------------------------------------------

/// The table shows every tool by its name, with a tick where some peer may
/// call it, and with its description.
pub proof fn law_every_tool_is_shown(
    tools: Seq<LineView>,
    heading: Heading,
    manifests_dir: Seq<char>,
    rules: Map<RuleKey, Rule>,
    i: int,
)
    requires
        0 <= i < tools.len(),
    ensures
        occurs(tool_table(tools, heading, manifests_dir, rules), tools[i].name),
        exposed(rules, tools[i].name) ==> occurs(tool_table(tools, heading, manifests_dir, rules), "  ✓"@),
        !exposed(rules, tools[i].name) ==> occurs(tool_table(tools, heading, manifests_dir, rules), "  ✗"@),
        tools[i].description.len() <= 40 ==> occurs(
            tool_table(tools, heading, manifests_dir, rules),
            tools[i].description,
        ),
{
    let t = tools[i];
    let table = tool_table(tools, heading, manifests_dir, rules);
    let row = tool_row(t, rules);
    lemma_tool_rows(tools, rules, i);
    let head = crate::commands::heading_text(heading) + padded("Name"@, 30) + "  "@ + padded("Pub"@, 5)
        + "  Description\n"@ + crate::commands::repeated('-', 78) + "\n"@;
    lemma_occurs_in_more(head, tool_rows(tools, rules), Seq::empty(), row);
    let mark = if exposed(rules, t.name) {
        "  ✓"@
    } else {
        "  ✗"@
    };
    let told = truncated(t.description, 40);
    lemma_padded(t.name, 30);
    lemma_padded(mark, 5);
    lemma_occurs_between(Seq::empty(), padded(t.name, 30), "  "@ + padded(mark, 5) + "  "@ + told + "\n"@);
    assert(Seq::empty() + padded(t.name, 30) + ("  "@ + padded(mark, 5) + "  "@ + told + "\n"@) =~= row);
    lemma_occurs_between(padded(t.name, 30) + "  "@, padded(mark, 5), "  "@ + told + "\n"@);
    assert(padded(t.name, 30) + "  "@ + padded(mark, 5) + ("  "@ + told + "\n"@) =~= row);
    lemma_occurs_between(padded(t.name, 30) + "  "@ + padded(mark, 5) + "  "@, told, "\n"@);
    lemma_occurs_through(row, padded(t.name, 30), t.name);
    lemma_occurs_through(row, padded(mark, 5), mark);
    lemma_occurs_through(table, row, t.name);
    lemma_occurs_through(table, row, mark);
    lemma_occurs_through(table, row, told);
}

proof fn lemma_tool_rows(tools: Seq<LineView>, rules: Map<RuleKey, Rule>, i: int)
    requires
        0 <= i < tools.len(),
    ensures
        occurs(tool_rows(tools, rules), tool_row(tools[i], rules)),
    decreases tools.len(),
{
    let before = tool_rows(tools.drop_last(), rules);
    let last = tool_row(tools.last(), rules);
    if i < tools.len() - 1 {
        lemma_tool_rows(tools.drop_last(), rules, i);
        lemma_occurs_in_more(Seq::empty(), before, last, tool_row(tools[i], rules));
    } else {
        lemma_occurs_between(before, last, Seq::empty());
        assert(before + last + Seq::empty() =~= before + last);
    }
}

/// One more name counts as published exactly where some peer may call it.
pub proof fn law_published_tools_are_counted(names: Seq<Seq<char>>, name: Seq<char>, rules: Map<RuleKey, Rule>)
    ensures
        published(Seq::empty(), rules) == 0,
        exposed(rules, name) ==> published(names.push(name), rules) == published(names, rules) + 1,
        !exposed(rules, name) ==> published(names.push(name), rules) == published(names, rules),
{
    assert(names.push(name).drop_last() =~= names);
}

/// The names in a snapshot are those of its tools, in their order.
pub proof fn law_snapshot_names(tools: Seq<JsonView>, tool: JsonView, name: Seq<char>)
    requires
        tool.text_at("name"@) == Some(name),
    ensures
        snapshot_names(tools.push(tool)) == snapshot_names(tools).push(name),
{
    assert(tools.push(tool).drop_last() =~= tools);
}

/// A manifest can be installed exactly where it can be read and holds a tool
/// or names a server.
pub proof fn law_installable_manifests(content: Seq<char>, file: Seq<char>)
    ensures
        installable(content, file) is Ok <==> {
            let j = parsed(vstd::utf8::encode_utf8(content));
            &&& j is Some
            &&& read_manifest(j->0) is Some
            &&& read_manifest(j->0)->0.tools.len() > 0 || read_manifest(j->0)->0.mcp is Some
        },
        installable(content, file) is Ok ==> read_manifest(parsed(vstd::utf8::encode_utf8(content))->0) == Some(
            installable(content, file)->Ok_0,
        ),
{
}

/// Every tool of a manifest is told by its name.
pub proof fn law_manifest_tools_are_told(tools: Seq<ToolView>, i: int)
    requires
        0 <= i < tools.len(),
    ensures
        occurs(manifest_lines(tools), "    - "@ + tools[i].name + ": "@),
    decreases tools.len(),
{
    let before = manifest_lines(tools.drop_last());
    let t = tools.last();
    let tail = truncated(t.description, 50) + "\n"@;
    if i < tools.len() - 1 {
        law_manifest_tools_are_told(tools.drop_last(), i);
        let rest = "    - "@ + t.name + ": "@ + tail;
        lemma_occurs_in_more(Seq::empty(), before, rest, "    - "@ + tools[i].name + ": "@);
        assert(before + rest =~= manifest_lines(tools));
    } else {
        let said = "    - "@ + t.name + ": "@;
        lemma_occurs_between(before, said, tail);
        assert(before + said + tail =~= manifest_lines(tools));
    }
}

/// The file of a manifest is named after it, in the manifests directory.
pub proof fn law_manifest_files(name: Seq<char>, dir: Seq<char>)
    ensures
        manifest_file(name, dir) == joined(dir, name + ".json"@),
{
}

/// Ages are told in seconds up to a minute, in minutes up to an hour, and in
/// hours from there on.
pub proof fn law_ages_are_told(n: nat)
    ensures
        n < 60 ==> age(n) == decimal(n) + "s ago"@,
        1 <= n < 60 ==> age((n * 60) as nat) == decimal(n) + "m ago"@,
        1 <= n ==> age((n * 3600) as nat) == decimal(n) + "h ago"@,
{
}

// ---------------------------------------------------------------------------
// Configuration
// ---------------------------------------------------------------------------

/// What the command line gives goes before what the file says: the peers, the
/// identity and the port; the relay flag adds; the description stays.
pub proof fn law_flags_go_first(
    n: NetworkView,
    port: int,
    peers: Seq<Seq<char>>,
    relay: bool,
    identity: Option<Seq<char>>,
)
    ensures
        ({
            let o = overridden(n, port, peers, relay, identity);
            &&& port != 0 ==> o.listen_port == Some(port)
            &&& port == 0 ==> o.listen_port == n.listen_port
            &&& peers.len() > 0 ==> o.bootstrap == peers
            &&& peers.len() == 0 ==> o.bootstrap == n.bootstrap
            &&& o.relay_server <==> relay || n.relay_server
            &&& identity is Some ==> o.identity_path == identity
            &&& identity is None ==> o.identity_path == n.identity_path
            &&& o.description == n.description
        }),
{
}

/// A `[network]` table is taken as it says.
pub proof fn law_network_table(j: JsonView)
    requires
        read_network(j) is Some,
    ensures
        ({
            let n = read_network(j)->0;
            &&& n.description == j.text_at("description"@)
            &&& n.identity_path == j.text_at("identity_path"@)
            &&& j.texts_field("bootstrap"@) is Value ==> n.bootstrap == j.texts_field("bootstrap"@)->Value_0
            &&& j.member("bootstrap"@) is None ==> n.bootstrap.len() == 0
            &&& j.natural_at("listen_port"@) is Some ==> n.listen_port == j.natural_at("listen_port"@)
            &&& j.member("listen_port"@) is None ==> n.listen_port is None
            &&& j.truth_at("relay_server"@) is Some ==> n.relay_server == j.truth_at("relay_server"@)->0
            &&& j.member("relay_server"@) is None ==> !n.relay_server
        }),
{
}

/// A `[models]` table is taken as it says; without `advertise` all models are
/// announced once there is an endpoint.
pub proof fn law_models_table(j: JsonView)
    requires
        read_models(j) is Some,
    ensures
        ({
            let m = read_models(j)->0;
            &&& m.endpoint == j.text_at("endpoint"@)
            &&& j.text_at("advertise"@) == Some("all"@) ==> m.advertise is All
            &&& j.text_at("advertise"@) == Some("none"@) ==> m.advertise is Nothing
            &&& j.items_at("advertise"@) is Some ==> m.advertise is List && j.texts_field("advertise"@) == Field::Value(
                m.advertise->List_0,
            )
            &&& j.member("advertise"@) is None && j.text_at("endpoint"@) is Some ==> m.advertise is All
            &&& j.member("advertise"@) is None && j.text_at("endpoint"@) is None ==> m.advertise is Nothing
            &&& j.natural_at("proxy_port"@) is Some ==> Some(m.proxy_port) == j.natural_at("proxy_port"@)
            &&& j.member("proxy_port"@) is None ==> m.proxy_port == 11435
        }),
{
    reveal_strlit("all");
    reveal_strlit("none");
    assert("all"@.len() == 3 && "none"@.len() == 4);
}

/// A `[tools.shell]` table is taken as it says.
pub proof fn law_shell_table(j: JsonView)
    requires
        read_shell(j) is Some,
    ensures
        ({
            let s = read_shell(j)->0;
            &&& j.texts_field("blocked_patterns"@) is Value ==> s.blocked_patterns == j.texts_field(
                "blocked_patterns"@,
            )->Value_0
            &&& j.member("blocked_patterns"@) is None ==> s.blocked_patterns.len() == 0
            &&& j.natural_at("default_timeout_secs"@) is Some ==> Some(s.default_timeout_secs) == j.natural_at(
                "default_timeout_secs"@,
            )
            &&& j.member("default_timeout_secs"@) is None ==> s.default_timeout_secs == 30
            &&& j.natural_at("max_output_bytes"@) is Some ==> Some(s.max_output_bytes) == j.natural_at(
                "max_output_bytes"@,
            )
            &&& j.member("max_output_bytes"@) is None ==> s.max_output_bytes == 1_048_576
        }),
{
}

/// A `[memory]` table is taken as it says.
pub proof fn law_memory_table(j: JsonView)
    requires
        read_memory(j) is Some,
    ensures
        ({
            let m = read_memory(j)->0;
            &&& j.truth_at("enabled"@) is Some ==> m.enabled == j.truth_at("enabled"@)->0
            &&& j.member("enabled"@) is None ==> m.enabled
            &&& m.db_path == j.text_at("db_path"@)
            &&& m.transcript_dir == j.text_at("transcript_dir"@)
            &&& m.notes_dir == j.text_at("notes_dir"@)
            &&& m.identity_path == j.text_at("identity_path"@)
            &&& m.instructions_path == j.text_at("instructions_path"@)
            &&& j.texts_field("skill_dirs"@) is Value ==> m.skill_dirs == Some(j.texts_field("skill_dirs"@)->Value_0)
            &&& j.member("skill_dirs"@) is None ==> m.skill_dirs is None
            &&& j.member("watch"@) is None ==> m.debounce_secs == 2 && m.watch_transcripts
            &&& j.member("ingest"@) is None ==> m.chunk_max_chars == 1600 && m.chunk_overlap_chars == 320
            &&& j.member("watch"@) is Some && j.member("watch"@)->0 is Object ==> {
                let w = j.member("watch"@)->0;
                &&& w.natural_at("debounce_secs"@) is Some ==> Some(m.debounce_secs) == w.natural_at("debounce_secs"@)
                &&& w.truth_at("watch_transcripts"@) is Some ==> Some(m.watch_transcripts) == w.truth_at(
                    "watch_transcripts"@,
                )
            }
            &&& j.member("ingest"@) is Some && j.member("ingest"@)->0 is Object ==> {
                let g = j.member("ingest"@)->0;
                &&& g.natural_at("chunk_max_chars"@) is Some ==> Some(m.chunk_max_chars) == g.natural_at(
                    "chunk_max_chars"@,
                )
                &&& g.natural_at("chunk_overlap_chars"@) is Some ==> Some(m.chunk_overlap_chars) == g.natural_at(
                    "chunk_overlap_chars"@,
                )
            }
        }),
{
    let none = JsonView::Object(Seq::empty());
    assert(none.member("debounce_secs"@) is None && none.member("watch_transcripts"@) is None);
    assert(none.member("chunk_max_chars"@) is None && none.member("chunk_overlap_chars"@) is None);
}

/// A `[sandbox]` table is taken as it says.
pub proof fn law_sandbox_table(j: JsonView)
    requires
        read_sandbox(j) is Some,
    ensures
        ({
            let s = read_sandbox(j)->0;
            &&& j.truth_at("enabled"@) is Some ==> s.enabled == j.truth_at("enabled"@)->0
            &&& j.member("enabled"@) is None ==> !s.enabled
            &&& j.text_at("network"@) == Some("none"@) ==> s.network is NoAccess
            &&& j.text_at("network"@) == Some("allow"@) ==> s.network is Allow
            &&& j.text_at("network"@) == Some("outbound_only"@) ==> s.network is OutboundOnly
            &&& j.member("network"@) is None ==> s.network is NoAccess
            &&& j.natural_at("memory_bytes"@) is Some ==> Some(s.memory_bytes) == j.natural_at("memory_bytes"@)
            &&& j.natural_at("timeout_secs"@) is Some ==> Some(s.timeout_secs) == j.natural_at("timeout_secs"@)
            &&& j.texts_field("read_only_mounts"@) is Value ==> s.read_only_mounts == j.texts_field(
                "read_only_mounts"@,
            )->Value_0
        }),
{
    reveal_strlit("none");
    reveal_strlit("allow");
    reveal_strlit("outbound_only");
    assert("none"@.len() == 4 && "allow"@.len() == 5 && "outbound_only"@.len() == 13);
}

/// Each section of a document is read from the table of its own name.
pub proof fn law_sections_are_read_from_their_tables(
    j: JsonView,
    network: JsonView,
    models: JsonView,
    memory: JsonView,
    sandbox: JsonView,
)
    requires
        read_config(j) is Some,
    ensures
        j.member("network"@) == Some(network) && network is Object ==> read_network(network) == Some(
            read_config(j)->0.network,
        ),
        j.member("models"@) == Some(models) && models is Object ==> read_models(models) == Some(
            read_config(j)->0.models,
        ),
        j.member("memory"@) == Some(memory) && memory is Object ==> read_memory(memory) == Some(
            read_config(j)->0.memory,
        ),
        j.member("sandbox"@) == Some(sandbox) && sandbox is Object ==> read_sandbox(sandbox) == Some(
            read_config(j)->0.sandbox,
        ),
        j.member("tools"@) is Some && j.member("tools"@)->0 is Object && j.member("tools"@)->0.member("shell"@) is Some
            && j.member("tools"@)->0.member("shell"@)->0 is Object ==> read_shell(
            j.member("tools"@)->0.member("shell"@)->0,
        ) == Some(read_config(j)->0.shell),
{
}

/// A fresh install announces nothing, relays for nobody, and keeps a memory.
pub proof fn law_fresh_install()
    ensures
        default_config().models.advertise is Nothing,
        default_config().models.endpoint is None,
        !default_config().network.relay_server,
        default_config().network.bootstrap.len() == 0,
        default_config().memory.enabled,
        !default_config().sandbox.enabled,
        default_config().sandbox.network is NoAccess,
        default_config().shell.blocked_patterns.len() == 0,
{
}

// ---------------------------------------------------------------------------
// Login and events
// ---------------------------------------------------------------------------

/// A request with another token, and without the session's cookie, does not
/// pass: a browser is sent to log in, anything else is refused.
pub proof fn law_wrong_tokens_do_not_pass(path: Seq<char>, given: Seq<char>, accept: Option<Seq<char>>, token: Seq<char>)
    requires
        given != token,
        path != "/ui/login"@,
    ensures
        accept is Some && occurs(accept->0, "text/html"@) ==> access(
            path,
            Some("Bearer "@ + given),
            None,
            accept,
            Some(token),
        ) is ToLogin,
        accept is None ==> access(path, Some("Bearer "@ + given), None, accept, Some(token)) is Unauthorized,
        access(path, Some("Bearer "@ + given), None, accept, Some(given)) is Pass,
        access("/ui/login"@, None, None, accept, Some(token)) is Pass,
        access(path, None, None, accept, Some(token)) !is Pass,
{
    let h = "Bearer "@ + given;
    assert(h.subrange(0, "Bearer "@.len() as int) =~= "Bearer "@);
    assert(h.skip("Bearer "@.len() as int) =~= given);
}

/// The token of a form is the value behind `token=`; a pair behind it that is
/// no token does not change that.
pub proof fn law_form_tokens_are_read(pairs: Seq<Seq<char>>, value: Seq<char>, other: Seq<char>)
    ensures
        last_token(pairs.push("token="@ + value)) == Some(decoded(value)),
        !"token="@.is_prefix_of(other) ==> last_token(pairs.push(other)) == last_token(pairs),
        last_token(Seq::empty()) is None,
{
    let pair = "token="@ + value;
    let all = pairs.push(pair);
    assert(all.last() == pair);
    assert(pair.subrange(0, "token="@.len() as int) =~= "token="@);
    assert(pair.skip("token="@.len() as int) =~= value);
    assert(pairs.push(other).drop_last() =~= pairs);
}

/// A value of a form without `+` and `%` is taken as it is.
pub proof fn law_plain_values_are_taken(value: Seq<char>)
    requires
        forall|i: int| 0 <= i < value.len() ==> #[trigger] value[i] != '+' && value[i] != '%',
    ensures
        decoded(value) == value,
{
    reveal_strlit("+");
    reveal_strlit("%26");
    reveal_strlit("%3D");
    assert("+"@[0] == '+' && "%26"@[0] == '%' && "%3D"@[0] == '%');
    assert("+"@.len() == 1 && "%26"@.len() == 3 && "%3D"@.len() == 3);
    lemma_absent_start(value, "+"@);
    lemma_absent_start(value, "%26"@);
    lemma_absent_start(value, "%3D"@);
    crate::template::lemma_replaced_absent(value, "+"@, " "@);
    crate::template::lemma_replaced_absent(value, "%26"@, "&"@);
    crate::template::lemma_replaced_absent(value, "%3D"@, "="@);
}

proof fn lemma_absent_start(s: Seq<char>, pattern: Seq<char>)
    requires
        pattern.len() > 0,
        forall|i: int| 0 <= i < s.len() ==> #[trigger] s[i] != pattern[0],
    ensures
        forall|k: int| !crate::text::occurs_at(s, pattern, k),
{
    assert forall|k: int| !crate::text::occurs_at(s, pattern, k) by {
        if crate::text::occurs_at(s, pattern, k) {
            assert(s.subrange(k, k + pattern.len())[0] == s[k]);
        }
    }
}

/// The cookie of a session cannot be read by scripts and is sent to this site
/// only.
pub proof fn law_session_cookies_are_kept_close(token: Seq<char>)
    ensures
        occurs(cookie_text(token), "__clawshake_session"@ + "="@ + token),
        occurs(cookie_text(token), "; Path=/; HttpOnly; SameSite=Strict; Max-Age=31536000"@),
{
    let kept = "__clawshake_session"@ + "="@ + token;
    let rest = "; Path=/; HttpOnly; SameSite=Strict; Max-Age=31536000"@;
    lemma_occurs_between(Seq::empty(), kept, rest);
    assert(Seq::empty() + kept + rest =~= cookie_text(token));
    lemma_occurs_between(kept, rest, Seq::empty());
    assert(kept + rest + Seq::empty() =~= cookie_text(token));
}

/// A request has the session where some cookie is the session's, whatever
/// else the header holds.
pub proof fn law_any_cookie_may_be_the_session(header: Seq<char>, token: Seq<char>, i: int)
    requires
        0 <= i < split_at(header, ';').len(),
        crate::text::trimmed(split_at(header, ';')[i]) == "__clawshake_session"@ + "="@ + token,
    ensures
        session(Some(header), token),
        !session(None, token),
{
    assert(session_part(split_at(header, ';')[i], token));
}

/// An event of an adapter comes from where it says, or from a webhook.
pub proof fn law_event_sources(source: Seq<char>)
    ensures
        event_source(Some(source)) == source,
        event_source(None) == "webhook"@,
{
}

/// Each session has its own place to post to.
pub proof fn law_sessions_have_their_endpoints(a: Seq<char>, b: Seq<char>)
    ensures
        a.is_suffix_of(endpoint(a)),
        endpoint(a) == endpoint(b) ==> a == b,
{
    let head = "/messages?sessionId="@;
    let e = endpoint(a);
    assert(e.subrange(e.len() - a.len(), e.len() as int) =~= a);
    if e == endpoint(b) {
        assert(e.skip(head.len() as int) =~= a);
        assert(endpoint(b).skip(head.len() as int) =~= b);
    }
}

// ---------------------------------------------------------------------------
// Starting
// ---------------------------------------------------------------------------

/// A command goes before a port; the port is one of this machine.
pub proof fn law_commands_go_before_ports(args: McpArgs, label: Seq<char>, windows: bool)
    ensures
        args.mcp_cmd is Some ==> chosen_backend(args, label, windows) is Stdio,
        args.mcp_cmd is Some && !windows ==> chosen_backend(args, label, windows)->Stdio_process.args.last()
            == args.mcp_cmd->0@,
        args.mcp_cmd is None && args.mcp_port is Some ==> chosen_backend(args, label, windows) == (BackendView::Http {
            url: "http://127.0.0.1:"@ + decimal(args.mcp_port->0 as nat),
        }),
        args.mcp_cmd is None && args.mcp_port is None ==> chosen_backend(args, label, windows) is DiscoveryOnly,
{
}

/// A change of the database of permissions is one of its file or of its
/// write-ahead log.
pub proof fn law_database_files(names: Seq<Seq<char>>, db_name: Seq<char>, i: int)
    requires
        0 <= i < names.len(),
    ensures
        names[i] == db_name ==> some_db_file(names, db_name),
        names[i] == db_name + "-wal"@ ==> some_db_file(names, db_name),
        !is_db_file(db_name + ".bak"@, db_name),
{
    reveal_strlit(".bak");
    reveal_strlit("-wal");
    assert(".bak"@.len() == 4 && "-wal"@.len() == 4 && ".bak"@[0] == '.' && "-wal"@[0] == '-');
    let other = db_name + ".bak"@;
    assert(other[db_name.len() as int] == '.');
    assert((db_name + "-wal"@)[db_name.len() as int] == '-');
    if names[i] == db_name || names[i] == db_name + "-wal"@ {
        assert(is_db_file(names[i], db_name));
    }
}

/// A node is who its key says, and has no identity without one.
pub proof fn law_identities_come_from_keys(path: Seq<char>, bytes: Seq<u8>)
    ensures
        identity_in(path, None) is Err,
        read_key(bytes) is Ok ==> identity_in(path, Some(bytes)) == read_key(bytes),
        read_key(bytes) is Err ==> identity_in(path, Some(bytes)) is Err,
{
}

/// The rules know each agent by the name of its class and its own.
pub proof fn law_agent_names(key: String)
    ensures
        agent_name(AgentId::Local) == "local"@,
        agent_name(AgentId::P2p(key)) == "p2p:"@ + key@,
        agent_name(AgentId::Tailscale(key)) == "tailscale:"@ + key@,
        agent_class(AgentId::P2p(key)) == "p2p:*"@,
        agent_class(AgentId::Tailscale(key)) == "tailscale:*"@,
{
}

// ---------------------------------------------------------------------------
// Jobs
// ---------------------------------------------------------------------------

/// A job is what the caller asked for: its label, its interval of at least
/// five seconds, and its data.
pub proof fn law_jobs_are_added_as_asked(s: SchedulerView, arguments: JsonView)
    ensures
        add_refusal(arguments) is None <==> arguments.text_at("label"@) is Some && arguments.natural_at(
            "interval_secs"@,
        ) is Some && arguments.natural_at("interval_secs"@)->0 >= 5,
        add_refusal(arguments) is None ==> {
            let job = with_job(s, added_job(arguments, s.next_id)).jobs.last();
            &&& Some(job.label) == arguments.text_at("label"@)
            &&& Some(job.interval_secs) == arguments.natural_at("interval_secs"@)
            &&& job.id == s.next_id
            &&& arguments.member("data"@) is Some ==> job.data == arguments.member("data"@)->0
            &&& arguments.member("data"@) is None ==> job.data is Null
        },
{
}

/// A job that is added leaves the others as they are.
pub proof fn law_other_jobs_stay(s: SchedulerView, arguments: JsonView, i: int)
    requires
        0 <= i < s.jobs.len(),
    ensures
        with_job(s, added_job(arguments, s.next_id)).jobs[i] == s.jobs[i],
        with_job(s, added_job(arguments, s.next_id)).jobs.len() == s.jobs.len() + 1,
        with_job(s, added_job(arguments, s.next_id)).next_id == s.next_id + 1,
{
}

// ---------------------------------------------------------------------------
// Addresses
// ---------------------------------------------------------------------------

/// Which IPv4 addresses lead nowhere from outside, octet by octet.
pub proof fn law_private_addresses(a: int, b: int, c: int, d: int)
    requires
        0 <= a < 256,
        0 <= b < 256,
        0 <= c < 256,
        0 <= d < 256,
    ensures
        unroutable(PartView::Ip4(a * 0x100_0000 + b * 0x1_0000 + c * 0x100 + d)) <==> {
            ||| a == 10
            ||| a == 127
            ||| a == 172 && 16 <= b < 32
            ||| a == 192 && b == 168
            ||| a == 169 && b == 254
            ||| a == 0 && b == 0 && c == 0 && d == 0
        },
        own_host(PartView::Ip4(a * 0x100_0000 + b * 0x1_0000 + c * 0x100 + d)) <==> a == 127 || (a == 0 && b == 0 && c
            == 0 && d == 0),
{
    let ip = a * 0x100_0000 + b * 0x1_0000 + c * 0x100 + d;
    assert(ip / 0x100_0000 == a);
    assert(ip / 0x1_0000 == a * 256 + b);
    assert(ip / 0x10_0000 == a * 16 + b / 16);
}

/// Which IPv6 addresses lead nowhere from outside: the own host, the link and
/// the private networks.
pub proof fn law_private_ip6_addresses(first: int, rest: int)
    requires
        0 <= first < 0x1_0000,
        0 <= rest < 0x1_0000_0000_0000_0000_0000_0000_0000,
    ensures
        unroutable(PartView::Ip6(first * 0x1_0000_0000_0000_0000_0000_0000_0000 + rest)) <==> {
            ||| first == 0xfe80
            ||| 0xfc00 <= first < 0xfe00
            ||| first == 0 && (rest == 0 || rest == 1)
        },
{
    let ip = first * 0x1_0000_0000_0000_0000_0000_0000_0000 + rest;
    assert(ip / 0x1_0000_0000_0000_0000_0000_0000_0000 == first);
}

/// A name of a host is no IP that could lead nowhere.
pub proof fn law_names_are_routable(p: PartView)
    requires
        p !is Ip4,
        p !is Ip6,
    ensures
        !unroutable(p),
        !own_host(p),
{
}

/// A column is as wide as it was made, or as wide as its text, which stands
/// first in it.
pub proof fn law_columns_are_padded(s: Seq<char>, width: nat)
    ensures
        padded(s, width).len() == (if s.len() < width {
            width
        } else {
            s.len()
        }),
        padded(s, width).take(s.len() as int) == s,
        forall|i: int| s.len() <= i < padded(s, width).len() ==> #[trigger] padded(s, width)[i] == ' ',
{
    assert(padded(s, width).take(s.len() as int) =~= s);
}

/// A tool that passed the check is told with its version, the number of its
/// tools and where its server is.
pub proof fn law_valid_manifests_are_told(name: Seq<char>, m: ManifestView)
    ensures
        occurs(valid_text(name, m), name + " is valid (version "@ + m.version + ")\n"@),
        m.tools.len() > 0 ==> occurs(valid_text(name, m), decimal(m.tools.len()) + " static tool(s):\n"@),
        m.tools.len() > 0 ==> occurs(valid_text(name, m), manifest_lines(m.tools)),
        m.mcp matches Some(SourceView::Stdio { command, .. }) ==> occurs(valid_text(name, m), "stdio ("@ + command),
        m.mcp matches Some(SourceView::Http { url }) ==> occurs(valid_text(name, m), "http ("@ + url),
{
    let none = Seq::<char>::empty();
    let first = name + " is valid (version "@ + m.version + ")\n"@;
    let counted = decimal(m.tools.len()) + " static tool(s):\n"@;
    let static_tools = if m.tools.len() == 0 {
        none
    } else {
        "  "@ + decimal(m.tools.len()) + " static tool(s):\n"@ + manifest_lines(m.tools)
    };
    let source = match m.mcp {
        None => none,
        Some(SourceView::Stdio { command, .. }) => "  MCP source: stdio ("@ + command + ")\n"@,
        Some(SourceView::Http { url }) => "  MCP source: http ("@ + url + ")\n"@,
    };
    let all = valid_text(name, m);
    assert(all =~= "✓ "@ + first + (static_tools + source));
    lemma_occurs_between("✓ "@, first, static_tools + source);
    if m.tools.len() > 0 {
        assert(all =~= ("✓ "@ + first + "  "@) + counted + (manifest_lines(m.tools) + source));
        lemma_occurs_between("✓ "@ + first + "  "@, counted, manifest_lines(m.tools) + source);
        assert(all =~= ("✓ "@ + first + "  "@ + counted) + manifest_lines(m.tools) + source);
        lemma_occurs_between("✓ "@ + first + "  "@ + counted, manifest_lines(m.tools), source);
    }
    let before = "✓ "@ + first + static_tools;
    match m.mcp {
        None => {},
        Some(SourceView::Stdio { command, .. }) => {
            lemma_source_told(command);
            assert(source == "  MCP source: stdio ("@ + command + ")\n"@);
            lemma_occurs_in_more(before, source, none, "stdio ("@ + command);
            assert(all =~= before + source + none);
        },
        Some(SourceView::Http { url }) => {
            lemma_source_told(url);
            assert(source == "  MCP source: http ("@ + url + ")\n"@);
            lemma_occurs_in_more(before, source, none, "http ("@ + url);
            assert(all =~= before + source + none);
        },
    }
}

proof fn lemma_source_told(place: Seq<char>)
    ensures
        occurs("  MCP source: stdio ("@ + place + ")\n"@, "stdio ("@ + place),
        occurs("  MCP source: http ("@ + place + ")\n"@, "http ("@ + place),
{
    reveal_strlit("  MCP source: stdio (");
    reveal_strlit("  MCP source: http (");
    reveal_strlit("  MCP source: ");
    reveal_strlit("stdio (");
    reveal_strlit("http (");
    assert("  MCP source: stdio ("@ =~= "  MCP source: "@ + "stdio ("@);
    assert("  MCP source: http ("@ =~= "  MCP source: "@ + "http ("@);
    lemma_occurs_between("  MCP source: "@, "stdio ("@ + place, ")\n"@);
    lemma_occurs_between("  MCP source: "@, "http ("@ + place, ")\n"@);
    assert("  MCP source: stdio ("@ + place + ")\n"@ =~= "  MCP source: "@ + ("stdio ("@ + place) + ")\n"@);
    assert("  MCP source: http ("@ + place + ")\n"@ =~= "  MCP source: "@ + ("http ("@ + place) + ")\n"@);
}

/// An installed manifest is told with where it went, the number of its tools and
/// whether a server brings more.
pub proof fn law_installed_manifests_are_told(name: Seq<char>, dest: Seq<char>, m: ManifestView)
    ensures
        occurs(installed_text(name, dest, m), name + " → "@ + dest),
        m.tools.len() > 0 ==> occurs(
            installed_text(name, dest, m),
            decimal(m.tools.len()) + " static tool(s)\n"@,
        ),
        m.mcp is Some ==> occurs(installed_text(name, dest, m), "  + MCP source (dynamic tools)\n"@),
        m.tools.len() == 0 && m.mcp is None ==> installed_text(name, dest, m) == "Installed "@ + name + " → "@ + dest
            + "\n"@,
{
    let none = Seq::<char>::empty();
    let all = installed_text(name, dest, m);
    let line = name + " → "@ + dest;
    let counted = decimal(m.tools.len()) + " static tool(s)\n"@;
    let static_tools = if m.tools.len() == 0 {
        none
    } else {
        "  "@ + decimal(m.tools.len()) + " static tool(s)\n"@
    };
    let source = if m.mcp is Some {
        "  + MCP source (dynamic tools)\n"@
    } else {
        none
    };
    assert(all =~= "Installed "@ + line + ("\n"@ + static_tools + source));
    lemma_occurs_between("Installed "@, line, "\n"@ + static_tools + source);
    if m.tools.len() > 0 {
        assert(all =~= ("Installed "@ + line + "\n"@ + "  "@) + counted + source);
        lemma_occurs_between("Installed "@ + line + "\n"@ + "  "@, counted, source);
    }
    if m.mcp is Some {
        assert(all =~= ("Installed "@ + line + "\n"@ + static_tools) + source + none);
        lemma_occurs_between("Installed "@ + line + "\n"@ + static_tools, source, none);
    }
    if m.tools.len() == 0 && m.mcp is None {
        assert(all =~= "Installed "@ + name + " → "@ + dest + "\n"@);
    }
}

} // verus!
