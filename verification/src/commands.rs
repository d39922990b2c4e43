//! What the command line shows: the `tools` and `permissions` subcommands.
//!
//! The functions take what was read from the files, and return the text that
//! is printed.
use vstd::prelude::*;

use crate::json::{
    canonical, items_view, lemma_member_added, lemma_member_kept, lemma_not_raw, names_rise, parsed, printed,
    printed_pretty, texts_view, Json, JsonView, NumberView,
};
use crate::manifest::{read_manifest, tools_view, Manifest, ManifestView, McpSource, SourceView, ToolView};
use crate::paths::{join, joined};
use crate::permissions::{
    decision_word, exposed, key, Decision, PermissionRecord, PermissionStore, Rule, RuleKey,
};
use crate::registry::{loaded_view, LoadedTool, LoadedView};
use crate::text::{chars_of, decimal, decimal_text, less_at, text_of};

verus! {

/// `tools` subcommands.
pub enum ToolsAction {
    /// List all registered tools, as a table or as JSON.
    List { json: bool },
    /// Check a manifest file without installing it.
    Validate { file: String },
    /// Install a manifest file.
    Add { file: String },
    /// Remove an installed manifest, by its name without the ending.
    Remove { name: String },
}

// ---------------------------------------------------------------------------
// Text
// ---------------------------------------------------------------------------

/// `n` times the character `c`.
pub open spec fn repeated(c: char, n: nat) -> Seq<char> {
    Seq::new(n, |i: int| c)
}

/// The text, with spaces behind it up to `width` characters.
pub open spec fn padded(s: Seq<char>, width: nat) -> Seq<char> {
    if s.len() >= width {
        s
    } else {
        s + repeated(' ', (width - s.len()) as nat)
    }
}

/// The text, cut to `max` characters, the last of them an ellipsis if
/// anything was cut.
pub open spec fn truncated(s: Seq<char>, max: nat) -> Seq<char> {
    if s.len() <= max {
        s
    } else {
        s.take(max - 1) + "…"@
    }
}

/// Cuts a text to `max` characters, the last of them an ellipsis if anything
/// was cut.
pub fn truncate(s: &str, max: usize) -> (r: String)
    requires
        max > 0 || s@.len() == 0,
    ensures
        r@ == truncated(s@, max as nat),
{
    let cs = chars_of(s);
    if cs.len() <= max {
        return s.to_owned();
    }
    let mut out = text_of(&cs, 0, max - 1);
    assert(out@ =~= s@.take(max - 1));
    out.push_str("…");
    out
}

/// Adds `n` times the character `c`.
fn push_repeated(out: &mut String, c: char, n: usize)
    ensures
        final(out)@ == old(out)@ + repeated(c, n as nat),
{
    let ghost start = out@;
    let mut i: usize = 0;
    assert(out@ =~= start + repeated(c, 0));
    while i < n
        invariant
            i <= n,
            out@ == start + repeated(c, i as nat),
        decreases n - i,
    {
        out.push(c);
        assert(out@ =~= start + repeated(c, (i + 1) as nat));
        i += 1;
    }
}

/// Adds a text, with spaces behind it up to `width` characters.
fn push_padded(out: &mut String, s: &str, width: usize)
    ensures
        final(out)@ == old(out)@ + padded(s@, width as nat),
{
    let n: usize = chars_of(s).len();
    out.push_str(s);
    if n < width {
        push_repeated(out, ' ', width - n);
        assert(out@ =~= old(out)@ + padded(s@, width as nat));
    }
}

/// How long ago something was, in words.
pub open spec fn age(seconds: nat) -> Seq<char> {
    if seconds < 60 {
        decimal(seconds) + "s ago"@
    } else if seconds < 3600 {
        decimal(seconds / 60) + "m ago"@
    } else {
        decimal(seconds / 3600) + "h ago"@
    }
}

/// How long ago `updated_at` was at `now`, in words.
pub fn format_age(updated_at: u64, now: u64) -> (r: String)
    ensures
        r@ == age(
            if now >= updated_at {
                (now - updated_at) as nat
            } else {
                0
            },
        ),
{
    let secs: u64 = if now >= updated_at {
        now - updated_at
    } else {
        0
    };
    let mut out: String;
    if secs < 60 {
        out = decimal_text(secs);
        out.push_str("s ago");
    } else if secs < 3600 {
        out = decimal_text(secs / 60);
        out.push_str("m ago");
    } else {
        out = decimal_text(secs / 3600);
        out.push_str("h ago");
    }
    out
}

// ---------------------------------------------------------------------------
// tools list
// ---------------------------------------------------------------------------

/// The snapshot of the registry in a JSON value: when it was written, and the
/// tools.
pub open spec fn snapshot_in(v: JsonView) -> Option<(int, Seq<JsonView>)> {
    match (v.member("updated_at"@), v.items_at("tools"@)) {
        (Some(t), Some(tools)) => Some(
            (
                match t.natural() {
                    Some(n) => n,
                    None => 0,
                },
                tools,
            ),
        ),
        _ => None,
    }
}

/// Reads the snapshot of the registry that the broker has written.
pub fn read_registry_snapshot(content: &str) -> (r: Option<(u64, Vec<Json>)>)
    ensures
        match parsed(vstd::utf8::encode_utf8(content@)) {
            Some(v) => match r {
                Some(s) => snapshot_in(v) == Some((s.0 as int, items_view(s.1@))),
                None => snapshot_in(v) is None,
            },
            None => r is None,
        },
{
    let v = match Json::from_text(content) {
        Some(v) => v,
        None => return None,
    };
    let updated_at: u64 = match v.get("updated_at") {
        Some(t) => match t.as_u64() {
            Some(n) => n,
            None => 0,
        },
        None => return None,
    };
    match v.get("tools") {
        Some(Json::Array(items)) => {
            let mut tools: Vec<Json> = Vec::new();
            let mut i: usize = 0;
            while i < items.len()
                invariant
                    i <= items@.len(),
                    tools@.len() == i,
                    forall|j: int| 0 <= j < i ==> (#[trigger] tools@[j])@ == items@[j]@,
                decreases items@.len() - i,
            {
                tools.push(items[i].clone());
                i += 1;
            }
            assert(items_view(tools@) =~= v@.items_at("tools"@)->0);
            Some((updated_at, tools))
        },
        _ => None,
    }
}

/// A tool in a listing.
pub struct ToolLine {
    pub name: String,
    pub description: String,
    pub source: String,
}

/// The model of [`ToolLine`].
pub struct LineView {
    pub name: Seq<char>,
    pub description: Seq<char>,
    pub source: Seq<char>,
}

impl View for ToolLine {
    type V = LineView;

    open spec fn view(&self) -> LineView {
        LineView { name: self.name@, description: self.description@, source: self.source@ }
    }
}

/// The models of a listing.
pub open spec fn lines_view(v: Seq<ToolLine>) -> Seq<LineView> {
    Seq::new(v.len(), |i: int| v[i]@)
}

/// The text under `key`, by default an empty one.
pub open spec fn text_or_empty(j: JsonView, name: Seq<char>) -> Seq<char> {
    match j.text_at(name) {
        Some(t) => t,
        None => Seq::empty(),
    }
}

fn text_or_none(j: &Json, name: &str) -> (r: String)
    ensures
        r@ == text_or_empty(j@, name@),
{
    match j.str_at(name) {
        Some(t) => t.to_owned(),
        None => {
            let t = String::new();
            assert(t@ =~= Seq::empty());
            t
        },
    }
}

/// A tool of a snapshot.
pub open spec fn snapshot_line(t: JsonView) -> LineView {
    LineView {
        name: text_or_empty(t, "name"@),
        description: text_or_empty(t, "description"@),
        source: text_or_empty(t, "source"@),
    }
}

/// The tools of a snapshot.
pub fn snapshot_lines(tools: &Vec<Json>) -> (r: Vec<ToolLine>)
    ensures
        lines_view(r@) == Seq::new(tools@.len(), |i: int| snapshot_line(tools@[i]@)),
{
    let mut out: Vec<ToolLine> = Vec::new();
    let mut i: usize = 0;
    while i < tools.len()
        invariant
            i <= tools@.len(),
            out@.len() == i,
            forall|j: int| 0 <= j < i ==> (#[trigger] out@[j])@ == snapshot_line(tools@[j]@),
        decreases tools@.len() - i,
    {
        out.push(
            ToolLine {
                name: text_or_none(&tools[i], "name"),
                description: text_or_none(&tools[i], "description"),
                source: text_or_none(&tools[i], "source"),
            },
        );
        i += 1;
    }
    assert(lines_view(out@) =~= Seq::new(tools@.len(), |k: int| snapshot_line(tools@[k]@)));
    out
}

/// A loaded tool in a snapshot.
pub open spec fn entry_json(t: LoadedView) -> JsonView {
    JsonView::object().with("description"@, JsonView::Text(t.tool.description)).with(
        "name"@,
        JsonView::Text(t.tool.name),
    ).with("source"@, JsonView::Text(t.source))
}

/// The snapshot of the registry at `now`.
pub open spec fn snapshot_json(tools: Seq<LoadedView>, now: int) -> JsonView {
    JsonView::object().with("tools"@, JsonView::Array(Seq::new(tools.len(), |i: int| entry_json(tools[i])))).with(
        "updated_at"@,
        JsonView::Number(NumberView::Unsigned(now)),
    )
}

proof fn lemma_snapshot_is_canonical(tools: Seq<LoadedView>, now: int)
    requires
        0 <= now <= u64::MAX,
    ensures
        canonical(snapshot_json(tools, now), 127),
{
    reveal_strlit("description");
    reveal_strlit("name");
    reveal_strlit("source");
    reveal_strlit("tools");
    reveal_strlit("updated_at");
    assert(less_at("description"@, "name"@, 0) && less_at("description"@, "source"@, 0) && less_at(
        "name"@,
        "source"@,
        0,
    ) && less_at("tools"@, "updated_at"@, 0));
    lemma_not_raw("description"@);
    lemma_not_raw("tools"@);
    let items = Seq::new(tools.len(), |i: int| entry_json(tools[i]));
    assert forall|i: int| 0 <= i < items.len() implies canonical(#[trigger] items[i], 125) by {
        let members = entry_json(tools[i])->Object_0;
        assert(names_rise(members));
        assert(members[0].0 == "description"@);
        assert forall|k: int| 0 <= k < members.len() implies canonical((#[trigger] members[k]).1, 124) by {}
    }
    assert(canonical(JsonView::Array(items), 126));
    let members = snapshot_json(tools, now)->Object_0;
    assert(names_rise(members));
    assert(members[0] == ("tools"@, JsonView::Array(items)));
    assert forall|k: int| 0 <= k < members.len() implies canonical((#[trigger] members[k]).1, 126) by {}
}

/// Writes the snapshot of the registry.
pub fn registry_snapshot(tools: &Vec<LoadedTool>, now: u64) -> (r: String)
    ensures
        r@ == printed(snapshot_json(loaded_view(tools@), now as int)),
        parsed(vstd::utf8::encode_utf8(r@)) == Some(snapshot_json(loaded_view(tools@), now as int)),
{
    let ghost all = loaded_view(tools@);
    let mut items: Vec<Json> = Vec::new();
    let mut i: usize = 0;
    while i < tools.len()
        invariant
            i <= tools@.len(),
            items@.len() == i,
            all == loaded_view(tools@),
            forall|j: int| 0 <= j < i ==> (#[trigger] items@[j])@ == entry_json(all[j]),
        decreases tools@.len() - i,
    {
        let t = &tools[i];
        items.push(
            Json::object().with("description", Json::text(t.tool.description.as_str())).with(
                "name",
                Json::text(t.tool.name.as_str()),
            ).with("source", Json::text(t.source.as_str())),
        );
        i += 1;
    }
    let list = Json::array(items);
    assert(list@->Array_0 =~= Seq::new(all.len(), |k: int| entry_json(all[k])));
    let snapshot = Json::object().with("tools", list).with("updated_at", Json::natural(now));
    proof {
        lemma_snapshot_is_canonical(all, now as int);
    }
    snapshot.to_text()
}

/// A loaded tool in a listing.
pub open spec fn loaded_line(t: LoadedView) -> LineView {
    LineView { name: t.tool.name, description: t.tool.description, source: t.source }
}

/// The loaded tools.
pub fn loaded_lines(tools: &Vec<LoadedTool>) -> (r: Vec<ToolLine>)
    ensures
        lines_view(r@) == Seq::new(tools@.len(), |i: int| loaded_line(tools@[i]@)),
{
    let mut out: Vec<ToolLine> = Vec::new();
    let mut i: usize = 0;
    while i < tools.len()
        invariant
            i <= tools@.len(),
            out@.len() == i,
            forall|j: int| 0 <= j < i ==> (#[trigger] out@[j])@ == loaded_line(tools@[j]@),
        decreases tools@.len() - i,
    {
        out.push(
            ToolLine {
                name: tools[i].tool.name.clone(),
                description: tools[i].tool.description.clone(),
                source: tools[i].source.clone(),
            },
        );
        i += 1;
    }
    assert(lines_view(out@) =~= Seq::new(tools@.len(), |k: int| loaded_line(tools@[k]@)));
    out
}

/// Where a listing comes from.
pub enum Heading {
    /// The snapshot of the broker, so old.
    Snapshot { age: String },
    /// The manifests alone: the broker has never run.
    Offline,
}

/// The first line of a listing.
pub open spec fn heading_text(h: Heading) -> Seq<char> {
    match h {
        Heading::Snapshot { age } => "(registry snapshot — updated "@ + age@ + ")\n"@,
        Heading::Offline => "(offline — no registry snapshot found, showing manifest scan)\n"@,
    }
}

/// A tool in the table.
pub open spec fn tool_row(t: LineView, rules: Map<RuleKey, Rule>) -> Seq<char> {
    padded(t.name, 30) + "  "@ + padded(
        if exposed(rules, t.name) {
            "  ✓"@
        } else {
            "  ✗"@
        },
        5,
    ) + "  "@ + truncated(t.description, 40) + "\n"@
}

/// The rows of the table.
pub open spec fn tool_rows(tools: Seq<LineView>, rules: Map<RuleKey, Rule>) -> Seq<char>
    decreases tools.len(),
{
    if tools.len() == 0 {
        Seq::empty()
    } else {
        tool_rows(tools.drop_last(), rules) + tool_row(tools.last(), rules)
    }
}

/// The table of tools.
pub open spec fn tool_table(
    tools: Seq<LineView>,
    heading: Heading,
    manifests_dir: Seq<char>,
    rules: Map<RuleKey, Rule>,
) -> Seq<char> {
    if tools.len() == 0 {
        "No tools registered.\nAdd manifests to "@ + manifests_dir + "\n"@
    } else {
        heading_text(heading) + padded("Name"@, 30) + "  "@ + padded("Pub"@, 5) + "  Description\n"@ + repeated('-', 78)
            + "\n"@ + tool_rows(tools, rules)
    }
}

/// A tool as JSON.
pub open spec fn tool_entry(t: LineView, rules: Map<RuleKey, Rule>) -> JsonView {
    JsonView::object().with("description"@, JsonView::Text(t.description)).with("name"@, JsonView::Text(t.name)).with(
        "published"@,
        JsonView::Bool(exposed(rules, t.name)),
    ).with("source"@, JsonView::Text(t.source))
}

/// The tools as JSON.
pub open spec fn tool_entries(tools: Seq<LineView>, rules: Map<RuleKey, Rule>) -> JsonView {
    JsonView::Array(Seq::new(tools.len(), |i: int| tool_entry(tools[i], rules)))
}

/// The tools as JSON.
fn entries_of(tools: &Vec<ToolLine>, permissions: &PermissionStore) -> (r: Json)
    requires
        permissions.wf(),
    ensures
        r@ == tool_entries(lines_view(tools@), permissions@),
{
    let mut out: Vec<Json> = Vec::new();
    let mut i: usize = 0;
    while i < tools.len()
        invariant
            permissions.wf(),
            i <= tools@.len(),
            out@.len() == i,
            forall|j: int| 0 <= j < i ==> (#[trigger] out@[j])@ == tool_entry(tools@[j]@, permissions@),
        decreases tools@.len() - i,
    {
        let t = &tools[i];
        let published = permissions.is_network_exposed(t.name.as_str());
        out.push(
            Json::object().with("description", Json::text(t.description.as_str())).with(
                "name",
                Json::text(t.name.as_str()),
            ).with("published", Json::Bool(published)).with("source", Json::text(t.source.as_str())),
        );
        i += 1;
    }
    let r = Json::array(out);
    assert(r@->Array_0 =~= tool_entries(lines_view(tools@), permissions@)->Array_0);
    r
}

/// Adds a tool to the table.
fn push_row(out: &mut String, t: &ToolLine, permissions: &PermissionStore)
    requires
        permissions.wf(),
    ensures
        final(out)@ == old(out)@ + tool_row(t@, permissions@),
{
    push_padded(out, t.name.as_str(), 30);
    out.push_str("  ");
    if permissions.is_network_exposed(t.name.as_str()) {
        push_padded(out, "  ✓", 5);
    } else {
        push_padded(out, "  ✗", 5);
    }
    out.push_str("  ");
    out.push_str(truncate(t.description.as_str(), 40).as_str());
    out.push_str("\n");
    assert(out@ =~= old(out)@ + tool_row(t@, permissions@));
}

/// Lists the tools, as a table or as JSON.
pub fn list_tools(
    tools: &Vec<ToolLine>,
    heading: &Heading,
    manifests_dir: &str,
    permissions: &PermissionStore,
    json: bool,
) -> (r: String)
    requires
        permissions.wf(),
    ensures
        json ==> r@ == printed_pretty(tool_entries(lines_view(tools@), permissions@)) + "\n"@,
        !json ==> r@ == tool_table(lines_view(tools@), *heading, manifests_dir@, permissions@),
{
    if json {
        let mut out = entries_of(tools, permissions).to_pretty_text();
        out.push_str("\n");
        return out;
    }
    assert(lines_view(tools@).len() == tools@.len());
    if tools.len() == 0 {
        let mut out = "No tools registered.\nAdd manifests to ".to_owned();
        out.push_str(manifests_dir);
        out.push_str("\n");
        return out;
    }
    let mut out: String;
    match heading {
        Heading::Snapshot { age } => {
            out = "(registry snapshot — updated ".to_owned();
            out.push_str(age.as_str());
            out.push_str(")\n");
        },
        Heading::Offline => {
            out = "(offline — no registry snapshot found, showing manifest scan)\n".to_owned();
        },
    }
    push_padded(&mut out, "Name", 30);
    out.push_str("  ");
    push_padded(&mut out, "Pub", 5);
    out.push_str("  Description\n");
    push_repeated(&mut out, '-', 78);
    out.push_str("\n");
    let ghost start = out@;
    let ghost all = lines_view(tools@);
    let mut i: usize = 0;
    assert(all.take(0) =~= Seq::empty());
    assert(out@ =~= start + tool_rows(all.take(0), permissions@));
    while i < tools.len()
        invariant
            permissions.wf(),
            i <= tools@.len(),
            all == lines_view(tools@),
            out@ == start + tool_rows(all.take(i as int), permissions@),
        decreases tools@.len() - i,
    {
        assert(all.take(i + 1).drop_last() =~= all.take(i as int));
        assert(all.take(i + 1).last() == tools@[i as int]@);
        push_row(&mut out, &tools[i], permissions);
        assert(out@ =~= start + tool_rows(all.take(i + 1), permissions@));
        i += 1;
    }
    assert(all.take(i as int) =~= all);
    assert(out@ =~= tool_table(all, *heading, manifests_dir@, permissions@));
    out
}

/// The names of the tools in a snapshot.
pub open spec fn snapshot_names(tools: Seq<JsonView>) -> Seq<Seq<char>>
    decreases tools.len(),
{
    if tools.len() == 0 {
        Seq::empty()
    } else {
        let before = snapshot_names(tools.drop_last());
        match tools.last().text_at("name"@) {
            Some(n) => before.push(n),
            None => before,
        }
    }
}

/// The names of the tools in a snapshot.
pub fn names_in_snapshot(tools: &Vec<Json>) -> (r: Vec<String>)
    ensures
        texts_view(r@) == snapshot_names(items_view(tools@)),
{
    let ghost all = items_view(tools@);
    let mut out: Vec<String> = Vec::new();
    let mut i: usize = 0;
    assert(all.take(0) =~= Seq::empty());
    assert(texts_view(out@) =~= Seq::empty());
    while i < tools.len()
        invariant
            i <= tools@.len(),
            all == items_view(tools@),
            texts_view(out@) == snapshot_names(all.take(i as int)),
        decreases tools@.len() - i,
    {
        assert(all.take(i + 1).drop_last() =~= all.take(i as int));
        assert(all.take(i + 1).last() == tools@[i as int]@);
        match tools[i].str_at("name") {
            Some(n) => {
                let ghost was = texts_view(out@);
                out.push(n.to_owned());
                assert(texts_view(out@) =~= was.push(n@));
            },
            None => {},
        }
        i += 1;
    }
    assert(all.take(i as int) =~= all);
    out
}

/// How many of the names some remote agent may call.
pub open spec fn published(names: Seq<Seq<char>>, rules: Map<RuleKey, Rule>) -> nat
    decreases names.len(),
{
    if names.len() == 0 {
        0
    } else {
        published(names.drop_last(), rules) + if exposed(rules, names.last()) {
            1nat
        } else {
            0nat
        }
    }
}

/// How many tools there are, and how many of them are published; none is where
/// the permissions cannot be read.
pub fn tool_counts(names: &Vec<String>, permissions: Option<&PermissionStore>) -> (r: (usize, usize))
    requires
        permissions matches Some(p) ==> p.wf(),
    ensures
        r.0 == names@.len(),
        r.1 == match permissions {
            Some(p) => published(texts_view(names@), p@),
            None => 0,
        },
        r.1 <= r.0,
{
    let store = match permissions {
        Some(p) => p,
        None => return (names.len(), 0),
    };
    let ghost all = texts_view(names@);
    let mut count: usize = 0;
    let mut i: usize = 0;
    assert(all.take(0) =~= Seq::empty());
    while i < names.len()
        invariant
            store.wf(),
            i <= names@.len(),
            count <= i,
            all == texts_view(names@),
            count == published(all.take(i as int), store@),
        decreases names@.len() - i,
    {
        assert(all.take(i + 1).drop_last() =~= all.take(i as int));
        assert(all.take(i + 1).last() == names@[i as int]@);
        if store.is_network_exposed(names[i].as_str()) {
            count += 1;
        }
        i += 1;
    }
    assert(all.take(i as int) =~= all);
    (names.len(), count)
}

// ---------------------------------------------------------------------------
// tools validate, add and remove
// ---------------------------------------------------------------------------

/// The manifest in a text, or why it cannot be installed.
pub open spec fn installable(content: Seq<char>, file: Seq<char>) -> Result<ManifestView, Seq<char>> {
    match parsed(vstd::utf8::encode_utf8(content)) {
        None => Err("Invalid manifest JSON in "@ + file),
        Some(j) => match read_manifest(j) {
            None => Err("Invalid manifest JSON in "@ + file),
            Some(m) => if m.tools.len() == 0 && m.mcp is None {
                Err("Manifest "@ + file + " has no tools and no mcp source — at least one is required"@)
            } else {
                Ok(m)
            },
        },
    }
}

/// Reads a manifest that is to be installed.
fn read_installable(content: &str, file: &str) -> (r: Result<Manifest, String>)
    ensures
        match installable(content@, file@) {
            Ok(m) => r is Ok && r->Ok_0@ == m,
            Err(e) => r is Err && r->Err_0@ == e,
        },
{
    let manifest = match Manifest::from_text(content) {
        Some(m) => m,
        None => {
            let mut e = "Invalid manifest JSON in ".to_owned();
            e.push_str(file);
            return Err(e);
        },
    };
    assert(manifest@.tools.len() == manifest.tools@.len());
    if manifest.tools.len() == 0 && manifest.mcp.is_none() {
        let mut e = "Manifest ".to_owned();
        e.push_str(file);
        e.push_str(" has no tools and no mcp source — at least one is required");
        return Err(e);
    }
    Ok(manifest)
}

/// The tools of a manifest, line by line.
pub open spec fn manifest_lines(tools: Seq<ToolView>) -> Seq<char>
    decreases tools.len(),
{
    if tools.len() == 0 {
        Seq::empty()
    } else {
        manifest_lines(tools.drop_last()) + "    - "@ + tools.last().name + ": "@ + truncated(
            tools.last().description,
            50,
        ) + "\n"@
    }
}

/// What is said of a valid manifest.
pub open spec fn valid_text(name: Seq<char>, m: ManifestView) -> Seq<char> {
    "✓ "@ + name + " is valid (version "@ + m.version + ")\n"@ + (if m.tools.len() == 0 {
        Seq::empty()
    } else {
        "  "@ + decimal(m.tools.len()) + " static tool(s):\n"@ + manifest_lines(m.tools)
    }) + (match m.mcp {
        None => Seq::empty(),
        Some(SourceView::Stdio { command, .. }) => "  MCP source: stdio ("@ + command + ")\n"@,
        Some(SourceView::Http { url }) => "  MCP source: http ("@ + url + ")\n"@,
    })
}

/// Checks a manifest: what it holds, or why it is refused.  `file` is the path
/// and `name` the name without the ending.
pub fn validate_manifest(content: &str, file: &str, name: &str) -> (r: Result<String, String>)
    ensures
        match installable(content@, file@) {
            Ok(m) => r is Ok && r->Ok_0@ == valid_text(name@, m),
            Err(e) => r is Err && r->Err_0@ == e,
        },
{
    let manifest = match read_installable(content, file) {
        Ok(m) => m,
        Err(e) => return Err(e),
    };
    let ghost all = manifest@.tools;
    assert(all.len() == manifest.tools@.len());
    let mut out = "✓ ".to_owned();
    out.push_str(name);
    out.push_str(" is valid (version ");
    out.push_str(manifest.version.as_str());
    out.push_str(")\n");
    let ghost first = out@;
    if manifest.tools.len() != 0 {
        out.push_str("  ");
        out.push_str(decimal_text(manifest.tools.len() as u64).as_str());
        out.push_str(" static tool(s):\n");
        let ghost start = out@;
        let mut i: usize = 0;
        assert(all.take(0) =~= Seq::empty());
        assert(out@ =~= start + manifest_lines(all.take(0)));
        while i < manifest.tools.len()
            invariant
                i <= manifest.tools@.len(),
                all == manifest@.tools,
                all == tools_view(manifest.tools@),
                out@ == start + manifest_lines(all.take(i as int)),
            decreases manifest.tools@.len() - i,
        {
            let t = &manifest.tools[i];
            assert(all.take(i + 1).drop_last() =~= all.take(i as int));
            assert(all.take(i + 1).last() == t@);
            out.push_str("    - ");
            out.push_str(t.name.as_str());
            out.push_str(": ");
            out.push_str(truncate(t.description.as_str(), 50).as_str());
            out.push_str("\n");
            assert(out@ =~= start + manifest_lines(all.take(i + 1)));
            i += 1;
        }
        assert(all.take(i as int) =~= all);
        assert(out@ =~= first + ("  "@ + decimal(all.len()) + " static tool(s):\n"@ + manifest_lines(all)));
    } else {
        assert(out@ =~= first + Seq::<char>::empty());
    }
    let ghost second = out@;
    match &manifest.mcp {
        None => {
            assert(out@ =~= second + Seq::<char>::empty());
        },
        Some(McpSource::Stdio { command, .. }) => {
            out.push_str("  MCP source: stdio (");
            out.push_str(command.as_str());
            out.push_str(")\n");
            assert(out@ =~= second + ("  MCP source: stdio ("@ + command@ + ")\n"@));
        },
        Some(McpSource::Http { url }) => {
            out.push_str("  MCP source: http (");
            out.push_str(url.as_str());
            out.push_str(")\n");
            assert(out@ =~= second + ("  MCP source: http ("@ + url@ + ")\n"@));
        },
    }
    Ok(out)
}

/// What is said of an installed manifest.
pub open spec fn installed_text(name: Seq<char>, dest: Seq<char>, m: ManifestView) -> Seq<char> {
    "Installed "@ + name + " → "@ + dest + "\n"@ + (if m.tools.len() == 0 {
        Seq::empty()
    } else {
        "  "@ + decimal(m.tools.len()) + " static tool(s)\n"@
    }) + (if m.mcp is Some {
        "  + MCP source (dynamic tools)\n"@
    } else {
        Seq::empty()
    })
}

/// Where a manifest goes, and what is said when it is there.
pub struct Installation {
    pub dest: String,
    pub told: String,
}

/// Installs a manifest: where it goes, or why it is refused.  `file` is the
/// path and `name` its last part without the ending, if it has one.  A manifest
/// of the same name is replaced.
pub fn add_manifest(content: &str, file: &str, name: Option<&str>, manifests_dir: &str) -> (r: Result<
    Installation,
    String,
>)
    ensures
        match (installable(content@, file@), name) {
            (Err(e), _) => r is Err && r->Err_0@ == e,
            (Ok(_), None) => r is Err && r->Err_0@ == "Cannot determine file name from "@ + file@,
            (Ok(m), Some(n)) => r is Ok && r->Ok_0.dest@ == manifest_file(n@, manifests_dir@) && r->Ok_0.told@
                == installed_text(n@, manifest_file(n@, manifests_dir@), m),
        },
{
    let manifest = match read_installable(content, file) {
        Ok(m) => m,
        Err(e) => return Err(e),
    };
    let name = match name {
        Some(n) => n,
        None => {
            let mut e = "Cannot determine file name from ".to_owned();
            e.push_str(file);
            return Err(e);
        },
    };
    assert(manifest@.tools.len() == manifest.tools@.len());
    let dest = manifest_path(name, manifests_dir);
    let mut told = "Installed ".to_owned();
    told.push_str(name);
    told.push_str(" → ");
    told.push_str(dest.as_str());
    told.push_str("\n");
    let ghost first = told@;
    if manifest.tools.len() > 0 {
        told.push_str("  ");
        told.push_str(decimal_text(manifest.tools.len() as u64).as_str());
        told.push_str(" static tool(s)\n");
        assert(told@ =~= first + ("  "@ + decimal(manifest@.tools.len()) + " static tool(s)\n"@));
    } else {
        assert(told@ =~= first + Seq::<char>::empty());
    }
    let ghost second = told@;
    if manifest.mcp.is_some() {
        told.push_str("  + MCP source (dynamic tools)\n");
    } else {
        assert(told@ =~= second + Seq::<char>::empty());
    }
    Ok(Installation { dest, told })
}

/// The file of an installed manifest.
pub open spec fn manifest_file(name: Seq<char>, manifests_dir: Seq<char>) -> Seq<char> {
    joined(manifests_dir, name + ".json"@)
}

/// The file of an installed manifest.
pub fn manifest_path(name: &str, manifests_dir: &str) -> (r: String)
    ensures
        r@ == manifest_file(name@, manifests_dir@),
{
    let mut f = name.to_owned();
    f.push_str(".json");
    join(manifests_dir, f.as_str())
}

/// Removes a manifest: what is said when its file is gone, or why there is
/// nothing to remove.
pub fn remove_manifest(name: &str, manifests_dir: &str, exists: bool) -> (r: Result<String, String>)
    ensures
        exists ==> r is Ok && r->Ok_0@ == "Removed "@ + name@ + " ("@ + manifest_file(name@, manifests_dir@) + ")\n"@,
        !exists ==> r is Err && r->Err_0@ == "No manifest named \""@ + name@ + "\" in "@ + manifests_dir@,
{
    if !exists {
        let mut e = "No manifest named \"".to_owned();
        e.push_str(name);
        e.push_str("\" in ");
        e.push_str(manifests_dir);
        return Err(e);
    }
    let mut told = "Removed ".to_owned();
    told.push_str(name);
    told.push_str(" (");
    told.push_str(manifest_path(name, manifests_dir).as_str());
    told.push_str(")\n");
    Ok(told)
}

// ---------------------------------------------------------------------------
// permissions
// ---------------------------------------------------------------------------

/// `permissions` subcommands.  An agent is `local`, `p2p:<peer-id>`, or a
/// class such as `p2p:*`; a tool is its name, or `*`.
pub enum PermissionsAction {
    /// Allow an agent to call a tool.
    Allow { agent_id: String, tool_name: String },
    /// Deny an agent a tool.
    Deny { agent_id: String, tool_name: String },
    /// Remove a rule: the default applies again.
    Remove { agent_id: String, tool_name: String },
    /// List all rules.
    List,
}

/// A rule in the list.
pub open spec fn rule_row(r: PermissionRecord) -> Seq<char> {
    decision_word(r.decision) + "  "@ + padded(r.agent_id@, 40) + "  "@ + r.resource@ + "\n"@
}

/// The rules in the list.
pub open spec fn rule_rows(rows: Seq<PermissionRecord>) -> Seq<char>
    decreases rows.len(),
{
    if rows.len() == 0 {
        Seq::empty()
    } else {
        rule_rows(rows.drop_last()) + rule_row(rows.last())
    }
}

/// The list of rules.
pub open spec fn rule_table(rows: Seq<PermissionRecord>) -> Seq<char> {
    if rows.len() == 0 {
        "(no rules)\n"@
    } else {
        padded("decision"@, 12) + "  "@ + padded("agent_id"@, 40) + "  tool_name\n"@ + repeated('-', 72) + "\n"@
            + rule_rows(rows)
    }
}

/// The list of rules.
fn list_rules(rows: &Vec<PermissionRecord>) -> (r: String)
    ensures
        r@ == rule_table(rows@),
{
    if rows.len() == 0 {
        return "(no rules)\n".to_owned();
    }
    let mut out = String::new();
    push_padded(&mut out, "decision", 12);
    assert(out@ =~= padded("decision"@, 12));
    out.push_str("  ");
    push_padded(&mut out, "agent_id", 40);
    out.push_str("  tool_name\n");
    push_repeated(&mut out, '-', 72);
    out.push_str("\n");
    let ghost start = out@;
    let ghost all = rows@;
    let mut i: usize = 0;
    assert(all.take(0) =~= Seq::empty());
    assert(out@ =~= start + rule_rows(all.take(0)));
    while i < rows.len()
        invariant
            i <= rows@.len(),
            all == rows@,
            out@ == start + rule_rows(all.take(i as int)),
        decreases rows@.len() - i,
    {
        assert(all.take(i + 1).drop_last() =~= all.take(i as int));
        assert(all.take(i + 1).last() == rows@[i as int]);
        out.push_str(rows[i].decision.to_string().as_str());
        out.push_str("  ");
        push_padded(&mut out, rows[i].agent_id.as_str(), 40);
        out.push_str("  ");
        out.push_str(rows[i].resource.as_str());
        out.push_str("\n");
        assert(out@ =~= start + rule_rows(all.take(i + 1)));
        i += 1;
    }
    assert(all.take(i as int) =~= all);
    out
}

/// What is said when a rule has changed.
pub open spec fn changed_text(word: Seq<char>, agent: Seq<char>, tool: Seq<char>) -> Seq<char> {
    word + agent + "  "@ + tool + "\n"@
}

fn tell_change(word: &str, agent: &str, tool: &str) -> (r: String)
    ensures
        r@ == changed_text(word@, agent@, tool@),
{
    let mut out = word.to_owned();
    out.push_str(agent);
    out.push_str("  ");
    out.push_str(tool);
    out.push_str("\n");
    out
}

/// The rules after a subcommand.
pub open spec fn rules_after(m: Map<RuleKey, Rule>, action: PermissionsAction, now: i64) -> Map<RuleKey, Rule> {
    match action {
        PermissionsAction::Allow { agent_id, tool_name } => m.insert(
            key(agent_id@, tool_name@),
            Rule { decision: Decision::Allow, granted_at: Some(now) },
        ),
        PermissionsAction::Deny { agent_id, tool_name } => m.insert(
            key(agent_id@, tool_name@),
            Rule { decision: Decision::Deny, granted_at: Some(now) },
        ),
        PermissionsAction::Remove { agent_id, tool_name } => m.remove(key(agent_id@, tool_name@)),
        PermissionsAction::List => m,
    }
}

/// What is said of a subcommand.
pub open spec fn action_text(rows: Seq<PermissionRecord>, action: PermissionsAction) -> Seq<char> {
    match action {
        PermissionsAction::Allow { agent_id, tool_name } => changed_text("✓ allow  "@, agent_id@, tool_name@),
        PermissionsAction::Deny { agent_id, tool_name } => changed_text("✓ deny   "@, agent_id@, tool_name@),
        PermissionsAction::Remove { agent_id, tool_name } => changed_text("✓ removed  "@, agent_id@, tool_name@),
        PermissionsAction::List => rule_table(rows),
    }
}

/// Runs a `permissions` subcommand: changes the rules, and says what it did.
pub fn run_permissions_action(action: &PermissionsAction, store: &mut PermissionStore, now: i64) -> (r: String)
    requires
        old(store).wf(),
    ensures
        final(store).wf(),
        final(store)@ == rules_after(old(store)@, *action, now),
        r@ == action_text(old(store).listed(), *action),
{
    match action {
        PermissionsAction::Allow { agent_id, tool_name } => {
            store.set(agent_id.as_str(), tool_name.as_str(), Decision::Allow, now);
            tell_change("✓ allow  ", agent_id.as_str(), tool_name.as_str())
        },
        PermissionsAction::Deny { agent_id, tool_name } => {
            store.set(agent_id.as_str(), tool_name.as_str(), Decision::Deny, now);
            tell_change("✓ deny   ", agent_id.as_str(), tool_name.as_str())
        },
        PermissionsAction::Remove { agent_id, tool_name } => {
            store.remove(agent_id.as_str(), tool_name.as_str());
            tell_change("✓ removed  ", agent_id.as_str(), tool_name.as_str())
        },
        PermissionsAction::List => list_rules(&store.list()),
    }
}

// ---------------------------------------------------------------------------
// Laws
// ---------------------------------------------------------------------------

/// A text is never cut to more than `max` characters.
pub proof fn law_truncated_texts_fit(s: Seq<char>, max: nat)
    requires
        max > 0,
    ensures
        truncated(s, max).len() <= max,
        s.len() <= max ==> truncated(s, max) == s,
{
    reveal_strlit("…");
    assert("…"@.len() == 1);
}

/// What the broker writes of its registry is what the command line lists: the
/// same time and the same tools in the same order.
pub proof fn law_snapshots_read_back(tools: Seq<LoadedView>, now: int, i: int)
    requires
        0 <= i < tools.len(),
    ensures
        match snapshot_in(snapshot_json(tools, now)) {
            Some((at, items)) => at == now && items.len() == tools.len() && snapshot_line(items[i]) == loaded_line(
                tools[i],
            ),
            None => false,
        },
{
    reveal_strlit("description");
    reveal_strlit("name");
    reveal_strlit("source");
    reveal_strlit("tools");
    reveal_strlit("updated_at");
    assert("description"@[0] == 'd' && "name"@[0] == 'n' && "source"@[0] == 's');
    assert("tools"@[0] == 't' && "updated_at"@[0] == 'u');
    let list = JsonView::Array(Seq::new(tools.len(), |k: int| entry_json(tools[k])));
    let at = JsonView::Number(NumberView::Unsigned(now));
    lemma_member_added(JsonView::object(), "tools"@, list);
    lemma_member_kept(JsonView::object().with("tools"@, list), "updated_at"@, at, "tools"@);
    lemma_member_added(JsonView::object().with("tools"@, list), "updated_at"@, at);
    let (d, n, c) = (
        JsonView::Text(tools[i].tool.description),
        JsonView::Text(tools[i].tool.name),
        JsonView::Text(tools[i].source),
    );
    let one = JsonView::object().with("description"@, d);
    let two = one.with("name"@, n);
    lemma_member_added(JsonView::object(), "description"@, d);
    lemma_member_kept(one, "name"@, n, "description"@);
    lemma_member_kept(two, "source"@, c, "description"@);
    lemma_member_added(one, "name"@, n);
    lemma_member_kept(two, "source"@, c, "name"@);
    lemma_member_added(two, "source"@, c);
}

} // verus!
