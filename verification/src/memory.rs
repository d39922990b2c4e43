//! Long-term memory: where it lives, and what the `memory_*` tools ask for.
//!
//! The store itself is another program's work; here stand the paths, the
//! requests and the answers.
use vstd::prelude::*;

use crate::config::{copy_texts, MemoryConfig};
use crate::json::{items_view, string_view, text_view, texts_view, Json, JsonView};
use crate::paths::{join, joined};
use crate::schema::{
    define, define_hidden, definition, hidden_definition, typed, typed_schema,
};
use crate::text::{decimal, decimal_text, same};
use crate::webview::{text_or, text_or_default};

verus! {

// ---------------------------------------------------------------------------
// Paths
// ---------------------------------------------------------------------------

/// Where memory lives.
pub struct MemoryContext {
    pub db_path: String,
    pub transcript_dir: String,
    pub skill_dirs: Vec<String>,
    pub notes_dir: String,
    pub identity_path: String,
    pub instructions_path: String,
}

/// The model of [`MemoryContext`].
#[verifier::ext_equal]
pub struct MemoryPaths {
    pub db_path: Seq<char>,
    pub transcript_dir: Seq<char>,
    pub skill_dirs: Seq<Seq<char>>,
    pub notes_dir: Seq<char>,
    pub identity_path: Seq<char>,
    pub instructions_path: Seq<char>,
}

impl View for MemoryContext {
    type V = MemoryPaths;

    open spec fn view(&self) -> MemoryPaths {
        MemoryPaths {
            db_path: self.db_path@,
            transcript_dir: self.transcript_dir@,
            skill_dirs: texts_view(self.skill_dirs@),
            notes_dir: self.notes_dir@,
            identity_path: self.identity_path@,
            instructions_path: self.instructions_path@,
        }
    }
}

/// The configured path, or `name` in `dir`.
pub open spec fn path_or(given: Option<String>, dir: Seq<char>, name: Seq<char>) -> Seq<char> {
    match given {
        Some(p) => p@,
        None => joined(dir, name),
    }
}

/// The configured path, or `name` in `dir`.
fn path_or_default(given: &Option<String>, dir: &str, name: &str) -> (r: String)
    ensures
        r@ == path_or(*given, dir@, name@),
{
    match given {
        Some(p) => p.clone(),
        None => join(dir, name),
    }
}

/// The paths of a configuration: those it names, and defaults under the
/// configuration directory and the home directory.
pub open spec fn memory_paths(dir: Seq<char>, home: Seq<char>, cfg: MemoryConfig) -> MemoryPaths {
    MemoryPaths {
        db_path: path_or(cfg.db_path, dir, "memory.db"@),
        transcript_dir: path_or(cfg.transcript_dir, dir, "log"@),
        skill_dirs: match cfg.skill_dirs {
            Some(d) => texts_view(d@),
            None => seq![joined(dir, "skills"@), joined(joined(home, ".agents"@), "skills"@)],
        },
        notes_dir: path_or(cfg.notes_dir, dir, "notes"@),
        identity_path: path_or(cfg.identity_path, dir, "identity.md"@),
        instructions_path: path_or(cfg.instructions_path, dir, "instructions.md"@),
    }
}

/// Resolves the paths of the `[memory]` section against the configuration
/// directory; without a home directory the current one stands in.
pub fn build_memory_context(clawshake_dir: &str, home: Option<&str>, cfg: &MemoryConfig) -> (r: MemoryContext)
    ensures
        r@ == memory_paths(
            clawshake_dir@,
            match home {
                Some(h) => h@,
                None => "."@,
            },
            *cfg,
        ),
{
    let base = match home {
        Some(h) => h,
        None => ".",
    };
    let skill_dirs = match &cfg.skill_dirs {
        Some(d) => copy_texts(d.as_slice()),
        None => {
            let mut d: Vec<String> = Vec::new();
            d.push(join(clawshake_dir, "skills"));
            d.push(join(join(base, ".agents").as_str(), "skills"));
            assert(texts_view(d@) =~= seq![
                joined(clawshake_dir@, "skills"@),
                joined(joined(base@, ".agents"@), "skills"@),
            ]);
            d
        },
    };
    MemoryContext {
        db_path: path_or_default(&cfg.db_path, clawshake_dir, "memory.db"),
        transcript_dir: path_or_default(&cfg.transcript_dir, clawshake_dir, "log"),
        skill_dirs,
        notes_dir: path_or_default(&cfg.notes_dir, clawshake_dir, "notes"),
        identity_path: path_or_default(&cfg.identity_path, clawshake_dir, "identity.md"),
        instructions_path: path_or_default(&cfg.instructions_path, clawshake_dir, "instructions.md"),
    }
}

/// The directories that have to exist before the watcher starts: those of the
/// transcripts, the default notes and the skills.
pub fn watched_dirs(context: &MemoryContext, clawshake_dir: &str) -> (r: Vec<String>)
    ensures
        texts_view(r@) == seq![context@.transcript_dir, joined(clawshake_dir@, "notes"@)] + context@.skill_dirs,
{
    let mut dirs: Vec<String> = Vec::new();
    dirs.push(context.transcript_dir.clone());
    dirs.push(join(clawshake_dir, "notes"));
    let ghost start = texts_view(dirs@);
    let ghost all = texts_view(context.skill_dirs@);
    let mut i: usize = 0;
    assert(start =~= seq![context@.transcript_dir, joined(clawshake_dir@, "notes"@)]);
    assert(texts_view(dirs@) =~= start + all.take(0));
    while i < context.skill_dirs.len()
        invariant
            i <= context.skill_dirs@.len(),
            all == texts_view(context.skill_dirs@),
            texts_view(dirs@) == start + all.take(i as int),
        decreases context.skill_dirs@.len() - i,
    {
        let ghost was = texts_view(dirs@);
        dirs.push(context.skill_dirs[i].clone());
        assert(texts_view(dirs@) =~= was.push(all[i as int]));
        assert(texts_view(dirs@) =~= start + all.take(i + 1));
        i += 1;
    }
    assert(all.take(i as int) =~= all);
    dirs
}

// ---------------------------------------------------------------------------
// Requests
// ---------------------------------------------------------------------------

/// What a `memory_recall` call asks for: a query and how many results.
pub fn recall_request(arguments: &Json) -> (r: (String, u64))
    ensures
        r.0@ == text_or(arguments@, "query"@, ""@),
        r.1 == (match arguments@.natural_at("limit"@) {
            Some(n) => n,
            None => 10,
        }),
{
    let limit: u64 = match arguments.u64_at("limit") {
        Some(n) => n,
        None => 10,
    };
    (text_or_default(arguments, "query", ""), limit)
}

/// An entry for today's transcript.
#[allow(inconsistent_fields)]
pub enum WriteEntry {
    /// The conversation starts anew.
    Reset { role: Option<String>, content: Option<String>, name: Option<String>, reason: Option<String> },
    /// The conversation is compacted.
    Compact { role: Option<String>, content: Option<String>, name: Option<String>, reason: Option<String> },
    Message { role: String, content: String },
    ToolCall { name: String, content: String },
    ToolResult { name: String, content: String },
}

/// The model of [`WriteEntry`].
#[allow(inconsistent_fields)]
pub enum EntryView {
    Reset { role: Option<Seq<char>>, content: Option<Seq<char>>, name: Option<Seq<char>>, reason: Option<Seq<char>> },
    Compact { role: Option<Seq<char>>, content: Option<Seq<char>>, name: Option<Seq<char>>, reason: Option<Seq<char>> },
    Message { role: Seq<char>, content: Seq<char> },
    ToolCall { name: Seq<char>, content: Seq<char> },
    ToolResult { name: Seq<char>, content: Seq<char> },
}

impl View for WriteEntry {
    type V = EntryView;

    open spec fn view(&self) -> EntryView {
        match self {
            WriteEntry::Reset { role, content, name, reason } => EntryView::Reset {
                role: string_view(*role),
                content: string_view(*content),
                name: string_view(*name),
                reason: string_view(*reason),
            },
            WriteEntry::Compact { role, content, name, reason } => EntryView::Compact {
                role: string_view(*role),
                content: string_view(*content),
                name: string_view(*name),
                reason: string_view(*reason),
            },
            WriteEntry::Message { role, content } => EntryView::Message { role: role@, content: content@ },
            WriteEntry::ToolCall { name, content } => EntryView::ToolCall { name: name@, content: content@ },
            WriteEntry::ToolResult { name, content } => EntryView::ToolResult { name: name@, content: content@ },
        }
    }
}

/// The entry that a `memory_append` call writes, if its arguments suffice.
pub open spec fn entry_of(arguments: JsonView) -> Option<EntryView> {
    let role = arguments.text_at("role"@);
    let content = arguments.text_at("content"@);
    let name = arguments.text_at("name"@);
    let reason = arguments.text_at("reason"@);
    let op = text_or(arguments, "op"@, "append"@);
    if op == "reset"@ {
        Some(EntryView::Reset { role, content, name, reason })
    } else if op == "compact"@ {
        Some(EntryView::Compact { role, content, name, reason })
    } else {
        match (name, content, role) {
            (Some(n), Some(c), Some(r)) if r == "tool"@ => Some(EntryView::ToolResult { name: n, content: c }),
            (Some(n), Some(c), _) => Some(EntryView::ToolCall { name: n, content: c }),
            (None, Some(c), Some(r)) => Some(EntryView::Message { role: r, content: c }),
            _ => None,
        }
    }
}

/// A copy of an optional text.
fn owned(t: Option<&str>) -> (r: Option<String>)
    ensures
        string_view(r) == text_view(t),
{
    match t {
        Some(s) => Some(s.to_owned()),
        None => None,
    }
}

/// The entry that a `memory_append` call writes.
pub fn append_request(arguments: &Json) -> (r: Result<WriteEntry, String>)
    ensures
        match entry_of(arguments@) {
            Some(e) => r is Ok && r->Ok_0@ == e,
            None => r is Err && r->Err_0@
                == "memory_append requires at least 'role' + 'content', or 'name' + 'content'"@,
        },
{
    let role = arguments.str_at("role");
    let content = arguments.str_at("content");
    let name = arguments.str_at("name");
    let reason = arguments.str_at("reason");
    let op = text_or_default(arguments, "op", "append");
    if same(op.as_str(), "reset") {
        return Ok(
            WriteEntry::Reset { role: owned(role), content: owned(content), name: owned(name), reason: owned(reason) },
        );
    }
    if same(op.as_str(), "compact") {
        return Ok(
            WriteEntry::Compact {
                role: owned(role),
                content: owned(content),
                name: owned(name),
                reason: owned(reason),
            },
        );
    }
    match (name, content, role) {
        (Some(n), Some(c), Some(r)) => {
            if same(r, "tool") {
                Ok(WriteEntry::ToolResult { name: n.to_owned(), content: c.to_owned() })
            } else {
                Ok(WriteEntry::ToolCall { name: n.to_owned(), content: c.to_owned() })
            }
        },
        (Some(n), Some(c), None) => Ok(WriteEntry::ToolCall { name: n.to_owned(), content: c.to_owned() }),
        (None, Some(c), Some(r)) => Ok(WriteEntry::Message { role: r.to_owned(), content: c.to_owned() }),
        _ => Err("memory_append requires at least 'role' + 'content', or 'name' + 'content'".to_owned()),
    }
}

/// What the caller of `memory_append` is answered once the entry is written.
pub fn append_reply() -> (r: String)
    ensures
        r@ == "ok"@,
{
    "ok".to_owned()
}

/// What the caller of `memory_ingest` is answered.
pub fn ingest_reply(count: u64) -> (r: String)
    ensures
        r@ == decimal(count as nat) + " chunks ingested"@,
{
    let mut r = decimal_text(count);
    r.push_str(" chunks ingested");
    r
}

/// What the caller of `memory_embed` is answered.
pub fn embed_reply(count: u64) -> (r: String)
    ensures
        r@ == decimal(count as nat) + " chunks embedded"@,
{
    let mut r = decimal_text(count);
    r.push_str(" chunks embedded");
    r
}

// ---------------------------------------------------------------------------
// Definitions
// ---------------------------------------------------------------------------

/// What `memory_recall` does.
pub const MEMORY_RECALL_TEXT: &'static str = "Search your long-term memory (past conversations, notes, skills). Returns the most relevant chunks. Use this to recall information from previous sessions or knowledge you've accumulated.";

/// The `limit` parameter of `memory_recall`.
pub const MEMORY_RECALL_LIMIT: &'static str = "Maximum number of results to return. Default: 10";

/// The `query` parameter of `memory_recall`.
pub const MEMORY_RECALL_QUERY: &'static str = "Natural-language search query describing what you want to remember.";

/// What `memory_procedural` does.
pub const MEMORY_PROCEDURAL_TEXT: &'static str = "Load the agent's procedural memory (identity, instructions, skill catalog). Called at startup by the agent runtime.";

/// What `memory_append` does.
pub const MEMORY_APPEND_TEXT: &'static str = "Append an entry to the conversation transcript. Called by the agent runtime after each message turn.";

/// The `content` parameter of `memory_append`.
pub const MEMORY_APPEND_CONTENT: &'static str = "Message content";

/// The `name` parameter of `memory_append`.
pub const MEMORY_APPEND_NAME: &'static str = "Tool name (for tool_call and tool_result entries)";

/// The `op` parameter of `memory_append`.
pub const MEMORY_APPEND_OP: &'static str = "Operation: append (default), reset, or compact";

/// The `reason` parameter of `memory_append`.
pub const MEMORY_APPEND_REASON: &'static str = "Reason for reset/compact entries";

/// The `role` parameter of `memory_append`.
pub const MEMORY_APPEND_ROLE: &'static str = "Message role: user, assistant, or tool";

/// What `memory_ingest` does.
pub const MEMORY_INGEST_TEXT: &'static str = "Trigger a manual ingest pass over transcripts.";

/// What `memory_embed` does.
pub const MEMORY_EMBED_TEXT: &'static str = "Trigger embedding of un-embedded chunks.";

/// The definition of `memory_recall`.
pub open spec fn memory_recall_definition() -> JsonView {
    definition(
        "memory_recall"@,
        MEMORY_RECALL_TEXT@,
        JsonView::object()
            .with("limit"@, typed("number"@, MEMORY_RECALL_LIMIT@))
            .with("query"@, typed("string"@, MEMORY_RECALL_QUERY@)),
        Some(seq!["query"@]),
    )
}

/// The definition of `memory_procedural`.
pub open spec fn memory_procedural_definition() -> JsonView {
    hidden_definition(
        "memory_procedural"@,
        MEMORY_PROCEDURAL_TEXT@,
        JsonView::object(),
        Some(Seq::empty()),
    )
}

/// The definition of `memory_append`.
pub open spec fn memory_append_definition() -> JsonView {
    hidden_definition(
        "memory_append"@,
        MEMORY_APPEND_TEXT@,
        JsonView::object()
            .with("content"@, typed("string"@, MEMORY_APPEND_CONTENT@))
            .with("name"@, typed("string"@, MEMORY_APPEND_NAME@))
            .with("op"@, typed("string"@, MEMORY_APPEND_OP@))
            .with("reason"@, typed("string"@, MEMORY_APPEND_REASON@))
            .with("role"@, typed("string"@, MEMORY_APPEND_ROLE@)),
        Some(seq!["role"@, "content"@]),
    )
}

/// The definition of `memory_ingest`.
pub open spec fn memory_ingest_definition() -> JsonView {
    hidden_definition(
        "memory_ingest"@,
        MEMORY_INGEST_TEXT@,
        JsonView::object(),
        Some(Seq::empty()),
    )
}

/// The definition of `memory_embed`.
pub open spec fn memory_embed_definition() -> JsonView {
    hidden_definition(
        "memory_embed"@,
        MEMORY_EMBED_TEXT@,
        JsonView::object(),
        Some(Seq::empty()),
    )
}

/// The definition of `memory_recall`.
fn define_memory_recall() -> (r: Json)
    ensures
        r@ == memory_recall_definition(),
{
    let mut required: Vec<String> = Vec::new();
    required.push("query".to_owned());
    assert(texts_view(required@) =~= seq!["query"@]);
    define(
        "memory_recall",
        MEMORY_RECALL_TEXT,
        Json::object()
            .with("limit", typed_schema("number", MEMORY_RECALL_LIMIT))
            .with("query", typed_schema("string", MEMORY_RECALL_QUERY)),
        Some(required),
    )
}

/// The definition of `memory_procedural`.
fn define_memory_procedural() -> (r: Json)
    ensures
        r@ == memory_procedural_definition(),
{
    let required: Vec<String> = Vec::new();
    assert(texts_view(required@) =~= Seq::empty());
    define_hidden(
        "memory_procedural",
        MEMORY_PROCEDURAL_TEXT,
        Json::object(),
        Some(required),
    )
}

/// The definition of `memory_append`.
fn define_memory_append() -> (r: Json)
    ensures
        r@ == memory_append_definition(),
{
    let mut required: Vec<String> = Vec::new();
    required.push("role".to_owned());
    required.push("content".to_owned());
    assert(texts_view(required@) =~= seq!["role"@, "content"@]);
    define_hidden(
        "memory_append",
        MEMORY_APPEND_TEXT,
        Json::object()
            .with("content", typed_schema("string", MEMORY_APPEND_CONTENT))
            .with("name", typed_schema("string", MEMORY_APPEND_NAME))
            .with("op", typed_schema("string", MEMORY_APPEND_OP))
            .with("reason", typed_schema("string", MEMORY_APPEND_REASON))
            .with("role", typed_schema("string", MEMORY_APPEND_ROLE)),
        Some(required),
    )
}

/// The definition of `memory_ingest`.
fn define_memory_ingest() -> (r: Json)
    ensures
        r@ == memory_ingest_definition(),
{
    let required: Vec<String> = Vec::new();
    assert(texts_view(required@) =~= Seq::empty());
    define_hidden(
        "memory_ingest",
        MEMORY_INGEST_TEXT,
        Json::object(),
        Some(required),
    )
}

/// The definition of `memory_embed`.
fn define_memory_embed() -> (r: Json)
    ensures
        r@ == memory_embed_definition(),
{
    let required: Vec<String> = Vec::new();
    assert(texts_view(required@) =~= Seq::empty());
    define_hidden(
        "memory_embed",
        MEMORY_EMBED_TEXT,
        Json::object(),
        Some(required),
    )
}

/// The definitions of the memory tools.
pub open spec fn memory_definitions() -> Seq<JsonView> {
    seq![memory_recall_definition(), memory_procedural_definition(), memory_append_definition(), memory_ingest_definition(), memory_embed_definition()]
}

/// The definitions of the memory tools.
pub fn memory_tool_definitions() -> (r: Vec<Json>)
    ensures
        items_view(r@) == memory_definitions(),
{
    let mut out: Vec<Json> = Vec::new();
    out.push(define_memory_recall());
    out.push(define_memory_procedural());
    out.push(define_memory_append());
    out.push(define_memory_ingest());
    out.push(define_memory_embed());
    assert(items_view(out@) =~= memory_definitions());
    out
}

/// An entry is what the caller says it is: a reset or a compaction where it is
/// asked for; else a tool's result, a call of a tool, or a message, by what is
/// given; nothing where that is too little.
pub proof fn law_entries_are_told_apart(arguments: JsonView, name: Seq<char>, content: Seq<char>, role: Seq<char>)
    requires
        arguments.text_at("content"@) == Some(content),
    ensures
        arguments.text_at("op"@) == Some("reset"@) ==> entry_of(arguments) == Some(
            EntryView::Reset {
                role: arguments.text_at("role"@),
                content: Some(content),
                name: arguments.text_at("name"@),
                reason: arguments.text_at("reason"@),
            },
        ),
        arguments.text_at("op"@) == Some("compact"@) ==> entry_of(arguments) == Some(
            EntryView::Compact {
                role: arguments.text_at("role"@),
                content: Some(content),
                name: arguments.text_at("name"@),
                reason: arguments.text_at("reason"@),
            },
        ),
        arguments.text_at("op"@) is None && arguments.text_at("name"@) == Some(name) && arguments.text_at("role"@)
            == Some("tool"@) ==> entry_of(arguments) == Some(EntryView::ToolResult { name, content }),
        arguments.text_at("op"@) is None && arguments.text_at("name"@) == Some(name) && arguments.text_at("role"@)
            != Some("tool"@) ==> entry_of(arguments) == Some(EntryView::ToolCall { name, content }),
        arguments.text_at("op"@) is None && arguments.text_at("name"@) is None && arguments.text_at("role"@) == Some(
            role,
        ) ==> entry_of(arguments) == Some(EntryView::Message { role, content }),
        arguments.text_at("op"@) is None && arguments.text_at("name"@) is None && arguments.text_at("role"@) is None
            ==> entry_of(arguments) is None,
{
    reveal_strlit("reset");
    reveal_strlit("compact");
    reveal_strlit("append");
    assert("reset"@.len() == 5 && "compact"@.len() == 7 && "append"@.len() == 6);
}

/// A configured path is used as it is; each default has its own name under the
/// configuration directory.
pub proof fn law_memory_paths(dir: Seq<char>, home: Seq<char>, cfg: MemoryConfig)
    ensures
        ({
            let p = memory_paths(dir, home, cfg);
            &&& cfg.db_path is Some ==> p.db_path == cfg.db_path->0@
            &&& cfg.db_path is None ==> p.db_path == joined(dir, "memory.db"@)
            &&& cfg.transcript_dir is Some ==> p.transcript_dir == cfg.transcript_dir->0@
            &&& cfg.transcript_dir is None ==> p.transcript_dir == joined(dir, "log"@)
            &&& cfg.notes_dir is Some ==> p.notes_dir == cfg.notes_dir->0@
            &&& cfg.notes_dir is None ==> p.notes_dir == joined(dir, "notes"@)
            &&& cfg.identity_path is Some ==> p.identity_path == cfg.identity_path->0@
            &&& cfg.identity_path is None ==> p.identity_path == joined(dir, "identity.md"@)
            &&& cfg.instructions_path is Some ==> p.instructions_path == cfg.instructions_path->0@
            &&& cfg.instructions_path is None ==> p.instructions_path == joined(dir, "instructions.md"@)
            &&& cfg.skill_dirs is Some ==> p.skill_dirs == texts_view(cfg.skill_dirs->0@)
            &&& cfg.skill_dirs is None ==> p.skill_dirs.contains(joined(dir, "skills"@)) && p.skill_dirs.contains(
                joined(joined(home, ".agents"@), "skills"@),
            )
        }),
{
    let p = memory_paths(dir, home, cfg);
    if cfg.skill_dirs is None {
        assert(p.skill_dirs[0] == joined(dir, "skills"@));
        assert(p.skill_dirs[1] == joined(joined(home, ".agents"@), "skills"@));
    }
}

} // verus!
