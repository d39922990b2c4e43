//! Code mode: `run_code` and `describe_tools`.
//!
//! From the registered tools a JavaScript shim is generated, one async
//! function per tool, each of which calls back into the broker.  The agent's
//! script is wrapped and run behind the shim.
use vstd::prelude::*;

use crate::json::{texts_view, JsonView};
use crate::manifest::{InputSchema, SchemaView};
use crate::registry::{loaded_view, LoadedTool, LoadedView, ManifestRegistry};
use crate::text::{
    ascii_digit, ascii_letter, chars_of, contains, decimal, decimal_text, from_utf8_lossy, is_ascii_digit,
    is_ascii_word, join_texts, joined_by, lemma_joined_hold, lemma_occurs_between, lemma_occurs_in_more,
    lemma_occurs_through, lemma_placed, lowercased, occurs, occurs_at, place, placed, replace, replaced, rising, same,
    split_words, text_in, to_lowercase, words,
};

verus! {

/// How long a script may run, in seconds.
pub const RUN_CODE_TIMEOUT_SECS: u64 = 30;

// ---------------------------------------------------------------------------
// Identifiers and parameter hints
// ---------------------------------------------------------------------------

/// A character that can stand in a JavaScript identifier.
pub open spec fn ident_char(c: char) -> bool {
    ascii_letter(c) || ascii_digit(c) || c == '_' || c == '$'
}

/// `c`, or an underscore in place of what cannot stand in an identifier.
pub open spec fn ident_for(c: char) -> char {
    if ident_char(c) {
        c
    } else {
        '_'
    }
}

/// A text made safe as a JavaScript identifier.
pub open spec fn js_ident(s: Seq<char>) -> Seq<char> {
    let out = Seq::new(s.len(), |i: int| ident_for(s[i]));
    if out.len() == 0 {
        "_unnamed"@
    } else if ascii_digit(out[0]) {
        seq!['_'] + out
    } else {
        out
    }
}

/// Makes a text safe as a JavaScript identifier: other characters than
/// letters, digits, `_` and `$` become underscores, and it does not start with
/// a digit.
pub fn safe_js_ident(s: &str) -> (r: String)
    ensures
        r@ == js_ident(s@),
{
    let cs = chars_of(s);
    let mut out = String::new();
    if cs.len() == 0 {
        return "_unnamed".to_owned();
    }
    if is_ascii_digit(cs[0]) {
        out.push('_');
        assert(ident_for(s@[0]) == s@[0]);
    } else {
        assert(!ascii_digit(ident_for(s@[0])));
    }
    let ghost lead = out@;
    let ghost all = Seq::new(s@.len(), |i: int| ident_for(s@[i]));
    let mut i: usize = 0;
    assert(out@ =~= lead + all.take(0));
    while i < cs.len()
        invariant
            cs@ == s@,
            i <= cs@.len(),
            all == Seq::new(s@.len(), |i: int| ident_for(s@[i])),
            out@ == lead + all.take(i as int),
        decreases cs@.len() - i,
    {
        let c = cs[i];
        let ghost was = out@;
        if is_ascii_word(c) || c == '_' || c == '$' {
            out.push(c);
        } else {
            out.push('_');
        }
        assert(out@ =~= lead + all.take(i + 1));
        i += 1;
    }
    assert(all.take(i as int) =~= all);
    assert(lead =~= (if ascii_digit(all[0]) {
        seq!['_']
    } else {
        Seq::empty()
    }));
    assert(out@ =~= js_ident(s@));
    out
}

/// The type that a property declares.
pub open spec fn type_of(property: JsonView) -> Seq<char> {
    match property.text_at("type"@) {
        Some(t) => t,
        None => "any"@,
    }
}

/// How one parameter is hinted: its name, a question mark where it is
/// optional, and its type.
pub open spec fn param_part(property: (Seq<char>, JsonView), required: Seq<Seq<char>>) -> Seq<char> {
    property.0 + (if required.contains(property.0) {
        ": "@
    } else {
        "?: "@
    }) + type_of(property.1)
}

/// The parameters of a schema in short.
pub open spec fn param_hint(schema: SchemaView) -> Seq<char> {
    joined_by(
        Seq::new(schema.properties.len(), |i: int| param_part(schema.properties[i], schema.required)),
        ", "@,
    )
}

/// Whether `name` is among `names`.
pub(crate) fn among(names: &Vec<String>, name: &str) -> (r: bool)
    ensures
        r == texts_view(names@).contains(name@),
{
    let mut i: usize = 0;
    while i < names.len()
        invariant
            i <= names@.len(),
            forall|j: int| 0 <= j < i ==> (#[trigger] names@[j])@ != name@,
        decreases names@.len() - i,
    {
        if same(names[i].as_str(), name) {
            assert(texts_view(names@)[i as int] == name@);
            return true;
        }
        i += 1;
    }
    assert forall|j: int| 0 <= j < texts_view(names@).len() implies texts_view(names@)[j] != name@ by {
        assert(names@[j]@ != name@);
    }
    false
}

/// The parameters of a schema in short.
pub fn param_hint_from_schema(schema: &InputSchema) -> (r: String)
    ensures
        r@ == param_hint(schema@),
{
    let mut parts: Vec<String> = Vec::new();
    let mut i: usize = 0;
    while i < schema.properties.len()
        invariant
            i <= schema.properties@.len(),
            parts@.len() == i,
            forall|j: int|
                0 <= j < i ==> (#[trigger] parts@[j])@ == param_part(
                    (schema.properties@[j].0@, schema.properties@[j].1@),
                    texts_view(schema.required@),
                ),
        decreases schema.properties@.len() - i,
    {
        let mut part = schema.properties[i].0.clone();
        if among(&schema.required, schema.properties[i].0.as_str()) {
            part.push_str(": ");
        } else {
            part.push_str("?: ");
        }
        match schema.properties[i].1.str_at("type") {
            Some(t) => part.push_str(t),
            None => part.push_str("any"),
        }
        parts.push(part);
        i += 1;
    }
    assert(Seq::new(parts@.len(), |i: int| parts@[i]@) =~= Seq::new(
        schema@.properties.len(),
        |i: int| param_part(schema@.properties[i], schema@.required),
    ));
    join_texts(&parts, ", ")
}

// ---------------------------------------------------------------------------
// Grouping by source
// ---------------------------------------------------------------------------

/// The sources of the tools, in order, without those of code mode itself.
pub open spec fn sources_of(tools: Seq<LoadedView>) -> Seq<Seq<char>>
    decreases tools.len(),
{
    if tools.len() == 0 {
        Seq::empty()
    } else {
        let before = sources_of(tools.drop_last());
        if tools.last().source == "codemode"@ {
            before
        } else {
            placed(before, tools.last().source)
        }
    }
}

/// The tools that came from `source`, in order.
pub open spec fn tools_from(tools: Seq<LoadedView>, source: Seq<char>) -> Seq<LoadedView>
    decreases tools.len(),
{
    if tools.len() == 0 {
        Seq::empty()
    } else {
        let before = tools_from(tools.drop_last(), source);
        if tools.last().source == source {
            before.push(tools.last())
        } else {
            before
        }
    }
}

/// The sources of the tools, in order, without those of code mode itself.
fn collect_sources(tools: &Vec<LoadedTool>) -> (r: Vec<String>)
    ensures
        texts_view(r@) == sources_of(loaded_view(tools@)),
{
    let ghost all = loaded_view(tools@);
    let mut out: Vec<String> = Vec::new();
    let mut i: usize = 0;
    assert(all.take(0) =~= Seq::empty());
    assert(texts_view(out@) =~= Seq::empty());
    while i < tools.len()
        invariant
            i <= tools@.len(),
            all == loaded_view(tools@),
            texts_view(out@) == sources_of(all.take(i as int)),
        decreases tools@.len() - i,
    {
        assert(all.take(i + 1).drop_last() =~= all.take(i as int));
        assert(all.take(i + 1).last() == tools@[i as int]@);
        if !same(tools[i].source.as_str(), "codemode") {
            place(&mut out, tools[i].source.as_str());
        }
        i += 1;
    }
    assert(all.take(i as int) =~= all);
    out
}

// ---------------------------------------------------------------------------
// The shim
// ---------------------------------------------------------------------------

/// The declaration of a tool's function.
pub open spec fn tool_const(name: Seq<char>) -> Seq<char> {
    "const "@ + js_ident(name) + " = (args) => _call('"@ + name + "', args);\n"@
}

/// A description that can stand in a comment.
pub open spec fn comment_text(description: Seq<char>) -> Seq<char> {
    replaced(description, "*/"@, "* /"@)
}

/// A tool in the shim: its description in a comment, and its function.
pub open spec fn tool_decl(t: LoadedView) -> Seq<char> {
    "/** "@ + comment_text(t.tool.description) + " */\n"@ + tool_const(t.tool.name)
}

/// A tool as a query shows it: with a hint on its parameters.
pub open spec fn tool_hint(t: LoadedView) -> Seq<char> {
    "/** "@ + comment_text(t.tool.description) + " @param {"@ + param_hint(t.tool.schema) + "} args */\n"@ + tool_const(
        t.tool.name,
    )
}

/// The tools of a list, one after the other.
pub open spec fn decls(tools: Seq<LoadedView>, hints: bool) -> Seq<char>
    decreases tools.len(),
{
    if tools.len() == 0 {
        Seq::empty()
    } else {
        decls(tools.drop_last(), hints) + (if hints {
            tool_hint(tools.last())
        } else {
            tool_decl(tools.last())
        })
    }
}

/// The tools of each source, with an empty line behind each group.
pub open spec fn groups(tools: Seq<LoadedView>, sources: Seq<Seq<char>>, hints: bool) -> Seq<char>
    decreases sources.len(),
{
    if sources.len() == 0 {
        Seq::empty()
    } else {
        groups(tools, sources.drop_last(), hints) + decls(tools_from(tools, sources.last()), hints) + "\n"@
    }
}

/// The line that sums a source up.
pub open spec fn category(tools: Seq<LoadedView>, source: Seq<char>) -> Seq<char> {
    let group = tools_from(tools, source);
    "- "@ + source + " ("@ + decimal(group.len()) + " tools): "@ + joined_by(
        Seq::new(group.len(), |i: int| group[i].tool.name),
        ", "@,
    ) + "\n"@
}

/// The lines that sum the sources up.
pub open spec fn category_lines(tools: Seq<LoadedView>, sources: Seq<Seq<char>>) -> Seq<char>
    decreases sources.len(),
{
    if sources.len() == 0 {
        Seq::empty()
    } else {
        category_lines(tools, sources.drop_last()) + category(tools, sources.last())
    }
}

/// How the helper starts: the address of the broker, up to its port.
pub const HELPER_BROKER: &'static str = "const _BROKER = 'http://127.0.0.1:";

/// The head of the helper, behind the port.
pub const HELPER_HEAD: &'static str = "';\nasync function _call(name, args) {\n  const r = await fetch(`${_BROKER}/invoke`, {\n    method: 'POST',\n    headers: {'Content-Type': 'application/json'},\n";

/// What the helper posts: the tool's name, and the caller's arguments or none.
pub const HELPER_BODY: &'static str = "    body: JSON.stringify({tool: name, arguments: args || {}})\n";

/// What the helper makes of the answer: a failure is thrown, a result is parsed
/// where it is JSON.
pub const HELPER_ANSWER: &'static str = "  });\n  if (!r.ok) throw new Error(`invoke failed: ${r.status}`);\n  const j = await r.json();\n  if (j.is_error) throw new Error(j.result);\n  try { return JSON.parse(j.result); } catch { return j.result; }\n}\n\n";

/// The helper through which every function of the shim calls the broker.
pub open spec fn call_helper(port: nat) -> Seq<char> {
    HELPER_BROKER@ + decimal(port) + HELPER_HEAD@ + HELPER_BODY@ + HELPER_ANSWER@
}

/// The full shim.
pub open spec fn shim_js(port: nat, tools: Seq<LoadedView>) -> Seq<char> {
    call_helper(port) + groups(tools, sources_of(tools), false)
}

/// The summary of the sources.
pub open spec fn shim_categories(tools: Seq<LoadedView>) -> Seq<char> {
    category_lines(tools, sources_of(tools))
}

/// Writes a tool, as in the shim or with a hint on its parameters.
fn write_tool(out: &mut String, t: &LoadedTool, hints: bool)
    ensures
        final(out)@ == old(out)@ + (if hints {
            tool_hint(t@)
        } else {
            tool_decl(t@)
        }),
{
    proof {
        reveal_strlit("*/");
    }
    out.push_str("/** ");
    out.push_str(replace(t.tool.description.as_str(), "*/", "* /").as_str());
    if hints {
        out.push_str(" @param {");
        out.push_str(param_hint_from_schema(&t.tool.input_schema).as_str());
        out.push_str("} args */\n");
    } else {
        out.push_str(" */\n");
    }
    out.push_str("const ");
    out.push_str(safe_js_ident(t.tool.name.as_str()).as_str());
    out.push_str(" = (args) => _call('");
    out.push_str(t.tool.name.as_str());
    out.push_str("', args);\n");
    assert(out@ =~= old(out)@ + (if hints {
        tool_hint(t@)
    } else {
        tool_decl(t@)
    }));
}

/// Writes the tools of one source.  Returns their names.
fn write_group(out: &mut String, tools: &Vec<LoadedTool>, source: &str, hints: bool) -> (r: Vec<String>)
    ensures
        final(out)@ == old(out)@ + decls(tools_from(loaded_view(tools@), source@), hints) + "\n"@,
        texts_view(r@) == Seq::new(
            tools_from(loaded_view(tools@), source@).len(),
            |i: int| tools_from(loaded_view(tools@), source@)[i].tool.name,
        ),
{
    let ghost all = loaded_view(tools@);
    let ghost start = out@;
    let mut names: Vec<String> = Vec::new();
    let mut i: usize = 0;
    assert(all.take(0) =~= Seq::empty());
    assert(out@ =~= start + decls(tools_from(all.take(0), source@), hints));
    assert(texts_view(names@) =~= Seq::empty());
    while i < tools.len()
        invariant
            i <= tools@.len(),
            all == loaded_view(tools@),
            out@ == start + decls(tools_from(all.take(i as int), source@), hints),
            texts_view(names@) == Seq::new(
                tools_from(all.take(i as int), source@).len(),
                |k: int| tools_from(all.take(i as int), source@)[k].tool.name,
            ),
        decreases tools@.len() - i,
    {
        let ghost before = tools_from(all.take(i as int), source@);
        assert(all.take(i + 1).drop_last() =~= all.take(i as int));
        assert(all.take(i + 1).last() == tools@[i as int]@);
        if same(tools[i].source.as_str(), source) {
            let ghost was = texts_view(names@);
            let ghost text = out@;
            write_tool(out, &tools[i], hints);
            names.push(tools[i].tool.name.clone());
            assert(before.push(tools@[i as int]@).drop_last() =~= before);
            assert(out@ =~= start + decls(before.push(tools@[i as int]@), hints));
            assert(texts_view(names@) =~= was.push(tools@[i as int]@.tool.name));
            assert(texts_view(names@) =~= Seq::new(
                tools_from(all.take(i + 1), source@).len(),
                |k: int| tools_from(all.take(i + 1), source@)[k].tool.name,
            ));
        }
        i += 1;
    }
    assert(all.take(i as int) =~= all);
    out.push_str("\n");
    names
}

/// A generated shim, with a summary of the sources.
pub struct CachedShim {
    /// The helper and one function for each tool.
    pub full_js: String,
    /// One line for each source.
    pub categories: String,
}

impl Clone for CachedShim {
    fn clone(&self) -> (r: CachedShim)
        ensures
            r.full_js@ == self.full_js@,
            r.categories@ == self.categories@,
    {
        CachedShim { full_js: self.full_js.clone(), categories: self.categories.clone() }
    }
}

/// Generates the shim and the summary from the loaded tools.  The tools of
/// code mode itself are left out.
pub fn generate_shim(port: u16, tools: &Vec<LoadedTool>) -> (r: CachedShim)
    ensures
        r.full_js@ == shim_js(port as nat, loaded_view(tools@)),
        r.categories@ == shim_categories(loaded_view(tools@)),
{
    let ghost all = loaded_view(tools@);
    let sources = collect_sources(tools);
    let ghost names = texts_view(sources@);
    let mut js = HELPER_BROKER.to_owned();
    js.push_str(decimal_text(port as u64).as_str());
    js.push_str(HELPER_HEAD);
    js.push_str(HELPER_BODY);
    js.push_str(HELPER_ANSWER);
    let mut categories = String::new();
    let mut i: usize = 0;
    assert(names.take(0) =~= Seq::empty());
    assert(js@ =~= call_helper(port as nat) + groups(all, names.take(0), false));
    assert(categories@ =~= category_lines(all, names.take(0)));
    while i < sources.len()
        invariant
            i <= sources@.len(),
            all == loaded_view(tools@),
            names == texts_view(sources@),
            js@ == call_helper(port as nat) + groups(all, names.take(i as int), false),
            categories@ == category_lines(all, names.take(i as int)),
        decreases sources@.len() - i,
    {
        assert(names.take(i + 1).drop_last() =~= names.take(i as int));
        assert(names.take(i + 1).last() == sources@[i as int]@);
        let source = sources[i].as_str();
        let group = write_group(&mut js, tools, source, false);
        assert(js@ =~= call_helper(port as nat) + groups(all, names.take(i + 1), false));
        let ghost was = categories@;
        categories.push_str("- ");
        categories.push_str(source);
        categories.push_str(" (");
        categories.push_str(decimal_text(group.len() as u64).as_str());
        categories.push_str(" tools): ");
        categories.push_str(join_texts(&group, ", ").as_str());
        categories.push_str("\n");
        assert(texts_view(group@) =~= Seq::new(group@.len(), |i: int| group@[i]@));
        assert(categories@ =~= was + category(all, source@));
        i += 1;
    }
    assert(names.take(i as int) =~= names);
    CachedShim { full_js: js, categories }
}

// ---------------------------------------------------------------------------
// Queries
// ---------------------------------------------------------------------------

/// Some keyword occurs in the tool's source, name or description.
pub open spec fn hit(t: LoadedView, keywords: Seq<Seq<char>>) -> bool {
    t.source != "codemode"@ && exists|k: int|
        0 <= k < keywords.len() && {
            ||| occurs(lowercased(t.source), #[trigger] keywords[k])
            ||| occurs(lowercased(t.tool.name), keywords[k])
            ||| occurs(lowercased(t.tool.description), keywords[k])
        }
}

/// The tools that a query finds.
pub open spec fn hits(tools: Seq<LoadedView>, keywords: Seq<Seq<char>>) -> Seq<LoadedView>
    decreases tools.len(),
{
    if tools.len() == 0 {
        Seq::empty()
    } else {
        let before = hits(tools.drop_last(), keywords);
        if hit(tools.last(), keywords) {
            before.push(tools.last())
        } else {
            before
        }
    }
}

/// What a query is answered.
pub open spec fn filtered_shim(tools: Seq<LoadedView>, query: Seq<char>) -> Seq<char> {
    let found = hits(tools, words(lowercased(query)));
    if found.len() == 0 {
        "No tools matching '"@ + query + "'. Call describe_tools with no query to see all categories."@
    } else {
        "// Use these functions inside run_code's script parameter:\n\n"@ + groups(found, sources_of(found), true)
    }
}

/// Whether some keyword occurs in the tool's source, name or description.
fn is_hit(t: &LoadedTool, keywords: &Vec<String>) -> (r: bool)
    ensures
        r == hit(t@, texts_view(keywords@)),
{
    if same(t.source.as_str(), "codemode") {
        return false;
    }
    let source = to_lowercase(t.source.as_str());
    let name = to_lowercase(t.tool.name.as_str());
    let description = to_lowercase(t.tool.description.as_str());
    let ghost words = texts_view(keywords@);
    let mut i: usize = 0;
    while i < keywords.len()
        invariant
            i <= keywords@.len(),
            words == texts_view(keywords@),
            t@.source != "codemode"@,
            source@ == lowercased(t@.source),
            name@ == lowercased(t@.tool.name),
            description@ == lowercased(t@.tool.description),
            forall|k: int|
                0 <= k < i ==> !occurs(lowercased(t@.source), #[trigger] words[k]) && !occurs(
                    lowercased(t@.tool.name),
                    words[k],
                ) && !occurs(lowercased(t@.tool.description), words[k]),
        decreases keywords@.len() - i,
    {
        let k = keywords[i].as_str();
        assert(words[i as int] == k@);
        if contains(source.as_str(), k) || contains(name.as_str(), k) || contains(description.as_str(), k) {
            return true;
        }
        i += 1;
    }
    false
}

/// The shim with only the tools that match the query.
pub fn generate_filtered_shim(tools: &Vec<LoadedTool>, query: &str) -> (r: String)
    ensures
        r@ == filtered_shim(loaded_view(tools@), query@),
{
    let keywords = split_words(to_lowercase(query).as_str());
    let ghost all = loaded_view(tools@);
    let ghost wanted = words(lowercased(query@));
    let mut found: Vec<LoadedTool> = Vec::new();
    let mut i: usize = 0;
    assert(all.take(0) =~= Seq::empty());
    assert(loaded_view(found@) =~= Seq::empty());
    while i < tools.len()
        invariant
            i <= tools@.len(),
            all == loaded_view(tools@),
            wanted == texts_view(keywords@),
            loaded_view(found@) == hits(all.take(i as int), wanted),
        decreases tools@.len() - i,
    {
        assert(all.take(i + 1).drop_last() =~= all.take(i as int));
        assert(all.take(i + 1).last() == tools@[i as int]@);
        if is_hit(&tools[i], &keywords) {
            let ghost was = loaded_view(found@);
            found.push(tools[i].clone());
            assert(loaded_view(found@) =~= was.push(tools@[i as int]@));
        }
        i += 1;
    }
    assert(all.take(i as int) =~= all);
    assert(loaded_view(found@).len() == found@.len());
    if found.len() == 0 {
        let mut none = "No tools matching '".to_owned();
        none.push_str(query);
        none.push_str("'. Call describe_tools with no query to see all categories.");
        return none;
    }
    let ghost kept = loaded_view(found@);
    let sources = collect_sources(&found);
    let ghost names = texts_view(sources@);
    let mut js = "// Use these functions inside run_code's script parameter:\n\n".to_owned();
    let ghost head = js@;
    let mut s: usize = 0;
    assert(names.take(0) =~= Seq::empty());
    assert(js@ =~= head + groups(kept, names.take(0), true));
    while s < sources.len()
        invariant
            s <= sources@.len(),
            kept == loaded_view(found@),
            names == texts_view(sources@),
            js@ == head + groups(kept, names.take(s as int), true),
        decreases sources@.len() - s,
    {
        assert(names.take(s + 1).drop_last() =~= names.take(s as int));
        assert(names.take(s + 1).last() == sources@[s as int]@);
        let _ = write_group(&mut js, &found, sources[s].as_str(), true);
        assert(js@ =~= head + groups(kept, names.take(s + 1), true));
        s += 1;
    }
    assert(names.take(s as int) =~= names);
    js
}

// ---------------------------------------------------------------------------
// The cache
// ---------------------------------------------------------------------------

/// What the shim shows of a tool.
struct ToolLine {
    name: String,
    source: String,
    description: String,
}

/// The model of a [`ToolLine`].
pub struct LineView {
    pub name: Seq<char>,
    pub source: Seq<char>,
    pub description: Seq<char>,
}

/// What the shim shows of the tools.
pub open spec fn outline(tools: Seq<LoadedView>) -> Seq<LineView> {
    Seq::new(
        tools.len(),
        |i: int|
            LineView { name: tools[i].tool.name, source: tools[i].source, description: tools[i].tool.description },
    )
}

spec fn lines_view(lines: Seq<ToolLine>) -> Seq<LineView> {
    Seq::new(
        lines.len(),
        |i: int| LineView { name: lines[i].name@, source: lines[i].source@, description: lines[i].description@ },
    )
}

proof fn lemma_same_sources(a: Seq<LoadedView>, b: Seq<LoadedView>)
    requires
        outline(a) == outline(b),
    ensures
        sources_of(a) == sources_of(b),
    decreases a.len(),
{
    assert(a.len() == outline(a).len() && b.len() == outline(b).len());
    if a.len() > 0 {
        assert(outline(a).last() == outline(b).last());
        assert(outline(a.drop_last()) =~= outline(a).drop_last());
        assert(outline(b.drop_last()) =~= outline(b).drop_last());
        lemma_same_sources(a.drop_last(), b.drop_last());
        let (x, y) = (outline(a)[a.len() - 1], outline(b)[b.len() - 1]);
        assert(x.name == a.last().tool.name && x.source == a.last().source && x.description
            == a.last().tool.description);
        assert(y.name == b.last().tool.name && y.source == b.last().source && y.description
            == b.last().tool.description);
    }
}

proof fn lemma_same_group(a: Seq<LoadedView>, b: Seq<LoadedView>, source: Seq<char>)
    requires
        outline(a) == outline(b),
    ensures
        outline(tools_from(a, source)) == outline(tools_from(b, source)),
    decreases a.len(),
{
    assert(a.len() == outline(a).len() && b.len() == outline(b).len());
    if a.len() > 0 {
        assert(outline(a).last() == outline(b).last());
        assert(outline(a.drop_last()) =~= outline(a).drop_last());
        assert(outline(b.drop_last()) =~= outline(b).drop_last());
        lemma_same_group(a.drop_last(), b.drop_last(), source);
        let x = tools_from(a.drop_last(), source);
        let y = tools_from(b.drop_last(), source);
        assert(outline(x.push(a.last())) =~= outline(x).push(outline(a).last()));
        assert(outline(y.push(b.last())) =~= outline(y).push(outline(b).last()));
    }
}

proof fn lemma_same_decls(a: Seq<LoadedView>, b: Seq<LoadedView>)
    requires
        outline(a) == outline(b),
    ensures
        decls(a, false) == decls(b, false),
    decreases a.len(),
{
    assert(a.len() == outline(a).len() && b.len() == outline(b).len());
    if a.len() > 0 {
        assert(outline(a).last() == outline(b).last());
        assert(outline(a.drop_last()) =~= outline(a).drop_last());
        assert(outline(b.drop_last()) =~= outline(b).drop_last());
        lemma_same_decls(a.drop_last(), b.drop_last());
        let (x, y) = (outline(a)[a.len() - 1], outline(b)[b.len() - 1]);
        assert(x.name == a.last().tool.name && x.source == a.last().source && x.description
            == a.last().tool.description);
        assert(y.name == b.last().tool.name && y.source == b.last().source && y.description
            == b.last().tool.description);
    }
}

proof fn lemma_same_lines(a: Seq<LoadedView>, b: Seq<LoadedView>, sources: Seq<Seq<char>>)
    requires
        outline(a) == outline(b),
    ensures
        groups(a, sources, false) == groups(b, sources, false),
        category_lines(a, sources) == category_lines(b, sources),
    decreases sources.len(),
{
    if sources.len() > 0 {
        lemma_same_lines(a, b, sources.drop_last());
        let x = tools_from(a, sources.last());
        let y = tools_from(b, sources.last());
        lemma_same_group(a, b, sources.last());
        lemma_same_decls(x, y);
        assert(x.len() == outline(x).len() && y.len() == outline(y).len());
        assert forall|i: int| 0 <= i < x.len() implies x[i].tool.name == y[i].tool.name by {
            assert(outline(x)[i] == outline(y)[i]);
        }
        assert(Seq::new(x.len(), |i: int| x[i].tool.name) =~= Seq::new(y.len(), |i: int| y[i].tool.name));
    }
}

/// The shim rests on nothing but what it shows of the tools.
proof fn lemma_same_shim(port: nat, a: Seq<LoadedView>, b: Seq<LoadedView>)
    requires
        outline(a) == outline(b),
    ensures
        shim_js(port, a) == shim_js(port, b),
        shim_categories(a) == shim_categories(b),
{
    lemma_same_sources(a, b);
    lemma_same_lines(a, b, sources_of(a));
}

/// What the shim shows of the tools.
fn outline_of(tools: &Vec<LoadedTool>) -> (r: Vec<ToolLine>)
    ensures
        lines_view(r@) == outline(loaded_view(tools@)),
{
    let mut out: Vec<ToolLine> = Vec::new();
    let mut i: usize = 0;
    while i < tools.len()
        invariant
            i <= tools@.len(),
            lines_view(out@) == outline(loaded_view(tools@)).take(i as int),
        decreases tools@.len() - i,
    {
        let t = &tools[i];
        let ghost before = lines_view(out@);
        let line = ToolLine {
            name: t.tool.name.clone(),
            source: t.source.clone(),
            description: t.tool.description.clone(),
        };
        out.push(line);
        assert(lines_view(out@) =~= before.push(outline(loaded_view(tools@))[i as int]));
        i += 1;
    }
    assert(lines_view(out@) =~= outline(loaded_view(tools@)));
    out
}

/// Whether the tools are as the lines show them.
fn shows(lines: &Vec<ToolLine>, tools: &Vec<LoadedTool>) -> (r: bool)
    ensures
        r == (lines_view(lines@) == outline(loaded_view(tools@))),
{
    let ghost shown = lines_view(lines@);
    let ghost wanted = outline(loaded_view(tools@));
    if lines.len() != tools.len() {
        assert(shown.len() != wanted.len());
        return false;
    }
    let mut i: usize = 0;
    while i < lines.len()
        invariant
            i <= lines@.len(),
            lines@.len() == tools@.len(),
            shown == lines_view(lines@),
            wanted == outline(loaded_view(tools@)),
            forall|j: int| 0 <= j < i ==> shown[j] == wanted[j],
        decreases lines@.len() - i,
    {
        let (l, t) = (&lines[i], &tools[i]);
        if !same(l.name.as_str(), t.tool.name.as_str()) || !same(l.source.as_str(), t.source.as_str()) || !same(
            l.description.as_str(),
            t.tool.description.as_str(),
        ) {
            assert(shown[i as int] != wanted[i as int]);
            return false;
        }
        i += 1;
    }
    assert(shown =~= wanted);
    true
}

/// The shim that was generated last, with the port and the tools it is for.
pub struct ShimCache {
    shim: Option<(u16, Vec<ToolLine>, CachedShim)>,
}

impl View for ShimCache {
    type V = Option<(nat, Seq<LineView>)>;

    /// The port and the tools that the shim in the cache is for.
    closed spec fn view(&self) -> Option<(nat, Seq<LineView>)> {
        match self.shim {
            Some((port, lines, _)) => Some((port as nat, lines_view(lines@))),
            None => None,
        }
    }
}

impl ShimCache {
    /// The shim in the cache is the one for its port and its tools.
    pub closed spec fn wf(&self) -> bool {
        match self.shim {
            Some((port, lines, s)) => forall|tools: Seq<LoadedView>| #[trigger]
                outline(tools) == lines_view(lines@) ==> s.full_js@ == shim_js(port as nat, tools) && s.categories@
                    == shim_categories(tools),
            None => true,
        }
    }

    /// An empty cache.
    pub fn new() -> (r: ShimCache)
        ensures
            r.wf(),
            r@ is None,
    {
        ShimCache { shim: None }
    }

    /// Empties the cache, so that the next request generates the shim anew.
    pub fn invalidate(&mut self)
        ensures
            final(self).wf(),
            final(self)@ is None,
    {
        self.shim = None;
    }

    /// The shim for a port and the tools in the registry: the one in the cache,
    /// or a new one where that is for another port or the tools have changed.
    pub fn get_or_generate(&mut self, port: u16, registry: &ManifestRegistry) -> (r: CachedShim)
        requires
            old(self).wf(),
            registry.wf(),
        ensures
            final(self).wf(),
            final(self)@ == Some((port as nat, outline(registry.listed()))),
            r.full_js@ == shim_js(port as nat, registry.listed()),
            r.categories@ == shim_categories(registry.listed()),
    {
        let tools = registry.all();
        match &self.shim {
            Some((cached, lines, s)) => {
                if *cached == port && shows(lines, &tools) {
                    return s.clone();
                }
            },
            None => {},
        }
        let shim = generate_shim(port, &tools);
        let ghost listed = loaded_view(tools@);
        self.shim = Some((port, outline_of(&tools), shim.clone()));
        assert forall|t: Seq<LoadedView>| #[trigger] outline(t) == outline(listed) implies shim.full_js@ == shim_js(
            port as nat,
            t,
        ) && shim.categories@ == shim_categories(t) by {
            lemma_same_shim(port as nat, t, listed);
        }
        shim
    }
}

// ---------------------------------------------------------------------------
// run_code
// ---------------------------------------------------------------------------

/// The program that Node.js is given: the shim, and behind it the agent's
/// script.  A value that the script returns is printed.
pub open spec fn program_text(shim: Seq<char>, script: Seq<char>) -> Seq<char> {
    shim + "\n;(async () => {\n"@ + script
        + "\n})().then(r => { if (r !== undefined) console.log(typeof r === 'string' ? r : JSON.stringify(r, null, 2)); }).catch(e => { console.error(e.message || e); process.exit(1); });\n"@
}

/// The program for a script, with the tools as they are.
pub fn run_code_program(script: &str, cache: &mut ShimCache, registry: &ManifestRegistry, port: u16) -> (r: String)
    requires
        old(cache).wf(),
        registry.wf(),
    ensures
        final(cache).wf(),
        r@ == program_text(shim_js(port as nat, registry.listed()), script@),
        final(cache)@ == Some((port as nat, outline(registry.listed()))),
{
    let shim = cache.get_or_generate(port, registry);
    let mut program = shim.full_js;
    program.push_str("\n;(async () => {\n");
    program.push_str(script);
    program.push_str(
        "\n})().then(r => { if (r !== undefined) console.log(typeof r === 'string' ? r : JSON.stringify(r, null, 2)); }).catch(e => { console.error(e.message || e); process.exit(1); });\n",
    );
    program
}

/// How a script ended.
pub enum ScriptEnd {
    /// It ran to its end.
    Exited { success: bool, status: String, stdout: Vec<u8>, stderr: Vec<u8> },
    /// Node.js could not be started.
    NotStarted { node: String, error: String },
    /// Node.js could not be waited for.
    Lost { error: String },
    /// It ran longer than it may.
    TimedOut { timeout_secs: u64 },
}

/// What the caller of `run_code` is answered.
pub open spec fn script_answer(end: ScriptEnd) -> Result<Seq<char>, Seq<char>> {
    match end {
        ScriptEnd::Exited { success, status, stdout, stderr } => if success {
            Ok(text_in(stdout@))
        } else if text_in(stderr@).len() == 0 {
            Err("Script exited with code "@ + status@)
        } else {
            Err(text_in(stderr@))
        },
        ScriptEnd::NotStarted { node, error } => Err(
            "Failed to spawn node ("@ + node@ + "): "@ + error@ + ". Is Node.js installed?"@,
        ),
        ScriptEnd::Lost { error } => Err("Failed to wait for node process: "@ + error@),
        ScriptEnd::TimedOut { timeout_secs } => Err(
            "Script timed out after "@ + decimal(timeout_secs as nat) + " seconds"@,
        ),
    }
}

/// What the caller of `run_code` is answered.
pub fn run_code_result(end: &ScriptEnd) -> (r: Result<String, String>)
    ensures
        match script_answer(*end) {
            Ok(t) => r is Ok && r->Ok_0@ == t,
            Err(e) => r is Err && r->Err_0@ == e,
        },
{
    match end {
        ScriptEnd::Exited { success, status, stdout, stderr } => {
            if *success {
                return Ok(from_utf8_lossy(stdout.as_slice()));
            }
            let err = from_utf8_lossy(stderr.as_slice());
            if chars_of(err.as_str()).len() == 0 {
                let mut e = "Script exited with code ".to_owned();
                e.push_str(status.as_str());
                Err(e)
            } else {
                Err(err)
            }
        },
        ScriptEnd::NotStarted { node, error } => {
            let mut e = "Failed to spawn node (".to_owned();
            e.push_str(node.as_str());
            e.push_str("): ");
            e.push_str(error.as_str());
            e.push_str(". Is Node.js installed?");
            Err(e)
        },
        ScriptEnd::Lost { error } => {
            let mut e = "Failed to wait for node process: ".to_owned();
            e.push_str(error.as_str());
            Err(e)
        },
        ScriptEnd::TimedOut { timeout_secs } => {
            let mut e = "Script timed out after ".to_owned();
            e.push_str(decimal_text(*timeout_secs).as_str());
            e.push_str(" seconds");
            Err(e)
        },
    }
}

// ---------------------------------------------------------------------------
// describe_tools
// ---------------------------------------------------------------------------

/// Handles `describe_tools`: without a query a summary of the sources, with
/// one the matching functions.
pub fn invoke_describe_tools(
    query: Option<&str>,
    cache: &mut ShimCache,
    registry: &ManifestRegistry,
    port: u16,
) -> (r: String)
    requires
        old(cache).wf(),
        registry.wf(),
    ensures
        final(cache).wf(),
        match query {
            Some(q) if q@.len() > 0 => r@ == filtered_shim(registry.listed(), q@) && final(cache)@ == old(cache)@,
            _ => {
                &&& r@ == "Available tool categories:\n"@ + shim_categories(registry.listed())
                    + "\nCall describe_tools with a tool name or keyword to get its JS function signature."@
                &&& final(cache)@ == Some((port as nat, outline(registry.listed())))
            },
        },
{
    match query {
        Some(q) => {
            if chars_of(q).len() > 0 {
                let tools = registry.all();
                return generate_filtered_shim(&tools, q);
            }
        },
        None => {},
    }
    let shim = cache.get_or_generate(port, registry);
    let mut text = "Available tool categories:\n".to_owned();
    text.push_str(shim.categories.as_str());
    text.push_str("\nCall describe_tools with a tool name or keyword to get its JS function signature.");
    text
}

// ---------------------------------------------------------------------------
// Laws
// ---------------------------------------------------------------------------

/// An identifier has only characters that JavaScript takes, and does not start
/// with a digit.
pub proof fn law_identifiers_are_safe(s: Seq<char>)
    ensures
        js_ident(s).len() > 0,
        !ascii_digit(js_ident(s)[0]),
        forall|i: int| 0 <= i < js_ident(s).len() ==> ident_char(#[trigger] js_ident(s)[i]),
{
    reveal_strlit("_unnamed");
    if s.len() == 0 {
        assert("_unnamed"@.len() == 8);
        assert("_unnamed"@ =~= seq!['_', 'u', 'n', 'n', 'a', 'm', 'e', 'd']);
    }
}

/// A safe name is its own identifier.
pub proof fn law_safe_names_are_kept(s: Seq<char>)
    requires
        s.len() > 0,
        !ascii_digit(s[0]),
        forall|i: int| 0 <= i < s.len() ==> ident_char(#[trigger] s[i]),
    ensures
        js_ident(s) == s,
{
    assert(Seq::new(s.len(), |i: int| ident_for(s[i])) =~= s);
}

/// The sources that are shown rise, and are those of the tools but for code
/// mode itself.
pub proof fn law_sources_are_those_of_the_tools(tools: Seq<LoadedView>)
    ensures
        rising(sources_of(tools)),
        forall|s: Seq<char>| #[trigger]
            sources_of(tools).contains(s) <==> s != "codemode"@ && exists|i: int|
                0 <= i < tools.len() && (#[trigger] tools[i]).source == s,
    decreases tools.len(),
{
    if tools.len() > 0 {
        let head = tools.drop_last();
        law_sources_are_those_of_the_tools(head);
        lemma_placed(sources_of(head), tools.last().source);
        assert forall|s: Seq<char>| #[trigger] sources_of(tools).contains(s) <==> s != "codemode"@ && exists|i: int|
            0 <= i < tools.len() && (#[trigger] tools[i]).source == s by {
            if sources_of(tools).contains(s) {
                if sources_of(head).contains(s) {
                    let i = choose|i: int| 0 <= i < head.len() && (#[trigger] head[i]).source == s;
                    assert(tools[i].source == s);
                } else {
                    assert(tools[tools.len() - 1].source == s);
                }
            }
            if s != "codemode"@ && exists|i: int| 0 <= i < tools.len() && (#[trigger] tools[i]).source == s {
                let i = choose|i: int| 0 <= i < tools.len() && (#[trigger] tools[i]).source == s;
                if i < head.len() {
                    assert(head[i].source == s);
                    assert(sources_of(head).contains(s));
                }
            }
        }
    }
}

/// What a query finds matches it, comes from the tools and is none of code
/// mode's own.
pub proof fn law_queries_find_what_matches(tools: Seq<LoadedView>, keywords: Seq<Seq<char>>, t: LoadedView)
    ensures
        hits(tools, keywords).contains(t) <==> tools.contains(t) && hit(t, keywords),
    decreases tools.len(),
{
    if tools.len() > 0 {
        let head = tools.drop_last();
        law_queries_find_what_matches(head, keywords, t);
        let before = hits(head, keywords);
        let all = hits(tools, keywords);
        if all.contains(t) {
            let i = choose|i: int| 0 <= i < all.len() && all[i] == t;
            if i < before.len() {
                assert(before[i] == t);
                let k = choose|k: int| 0 <= k < head.len() && head[k] == t;
                assert(tools[k] == t);
            } else {
                assert(tools[tools.len() - 1] == t);
            }
        }
        if tools.contains(t) && hit(t, keywords) {
            let k = choose|k: int| 0 <= k < tools.len() && tools[k] == t;
            if k < head.len() {
                assert(head[k] == t);
                let i = choose|i: int| 0 <= i < before.len() && before[i] == t;
                assert(all[i] == t);
            } else {
                assert(all[all.len() - 1] == t);
            }
        }
    }
}

/// What the shim calls a tool with reaches the broker: the helper posts the
/// tool's name and the caller's own arguments, or none where there are none,
/// to `/invoke` on the broker's port, and throws where the tool failed.
pub proof fn law_helper_posts_the_call(port: nat, tools: Seq<LoadedView>)
    ensures
        ("const _BROKER = 'http://127.0.0.1:"@ + decimal(port) + "';\n"@).is_prefix_of(shim_js(port, tools)),
        occurs(shim_js(port, tools), "async function _call(name, args) {"@),
        occurs(shim_js(port, tools), "await fetch(`${_BROKER}/invoke`, {\n    method: 'POST',"@),
        occurs(shim_js(port, tools), "body: JSON.stringify({tool: name, arguments: args || {}})"@),
        occurs(shim_js(port, tools), "if (!r.ok) throw new Error("@),
        occurs(shim_js(port, tools), "if (j.is_error) throw new Error(j.result);"@),
        occurs(shim_js(port, tools), "try { return JSON.parse(j.result); } catch { return j.result; }"@),
{
    reveal_strlit("const _BROKER = 'http://127.0.0.1:");
    reveal_strlit("';\n");
    reveal_strlit("';\nasync function _call(name, args) {\n  const r = await fetch(`${_BROKER}/invoke`, {\n    method: 'POST',\n    headers: {'Content-Type': 'application/json'},\n");
    reveal_strlit("    body: JSON.stringify({tool: name, arguments: args || {}})\n");
    reveal_strlit("  });\n  if (!r.ok) throw new Error(`invoke failed: ${r.status}`);\n  const j = await r.json();\n  if (j.is_error) throw new Error(j.result);\n  try { return JSON.parse(j.result); } catch { return j.result; }\n}\n\n");
    reveal_strlit("async function _call(name, args) {");
    reveal_strlit("await fetch(`${_BROKER}/invoke`, {\n    method: 'POST',");
    reveal_strlit("body: JSON.stringify({tool: name, arguments: args || {}})");
    reveal_strlit("if (!r.ok) throw new Error(");
    reveal_strlit("if (j.is_error) throw new Error(j.result);");
    reveal_strlit("try { return JSON.parse(j.result); } catch { return j.result; }");
    let shim = shim_js(port, tools);
    let rest = groups(tools, sources_of(tools), false);
    let start = HELPER_BROKER@ + decimal(port);
    assert(start + "';\n"@ =~= shim.take((start.len() + 3) as int));
    assert(HELPER_HEAD@.subrange(3, 37) =~= "async function _call(name, args) {"@);
    assert(occurs_at(HELPER_HEAD@, "async function _call(name, args) {"@, 3));
    assert(occurs_at(HELPER_HEAD@, "await fetch(`${_BROKER}/invoke`, {\n    method: 'POST',"@, 50));
    assert(occurs_at(HELPER_BODY@, "body: JSON.stringify({tool: name, arguments: args || {}})"@, 4));
    assert(occurs_at(HELPER_ANSWER@, "if (!r.ok) throw new Error("@, 8));
    assert(occurs_at(HELPER_ANSWER@, "if (j.is_error) throw new Error(j.result);"@, 96));
    assert(occurs_at(HELPER_ANSWER@, "try { return JSON.parse(j.result); } catch { return j.result; }"@, 141));
    lemma_occurs_between(start, HELPER_HEAD@, HELPER_BODY@ + HELPER_ANSWER@ + rest);
    lemma_occurs_between(start + HELPER_HEAD@, HELPER_BODY@, HELPER_ANSWER@ + rest);
    lemma_occurs_between(start + HELPER_HEAD@ + HELPER_BODY@, HELPER_ANSWER@, rest);
    assert(start + HELPER_HEAD@ + (HELPER_BODY@ + HELPER_ANSWER@ + rest) =~= shim);
    assert(start + HELPER_HEAD@ + HELPER_BODY@ + (HELPER_ANSWER@ + rest) =~= shim);
    assert(start + HELPER_HEAD@ + HELPER_BODY@ + HELPER_ANSWER@ + rest =~= shim);
    lemma_occurs_through(shim, HELPER_HEAD@, "async function _call(name, args) {"@);
    lemma_occurs_through(shim, HELPER_HEAD@, "await fetch(`${_BROKER}/invoke`, {\n    method: 'POST',"@);
    lemma_occurs_through(shim, HELPER_BODY@, "body: JSON.stringify({tool: name, arguments: args || {}})"@);
    lemma_occurs_through(shim, HELPER_ANSWER@, "if (!r.ok) throw new Error("@);
    lemma_occurs_through(shim, HELPER_ANSWER@, "if (j.is_error) throw new Error(j.result);"@);
    lemma_occurs_through(shim, HELPER_ANSWER@, "try { return JSON.parse(j.result); } catch { return j.result; }"@);
}

/// A source's group holds the tools of that source, each as it is.
pub proof fn law_groups_hold_their_tools(tools: Seq<LoadedView>, source: Seq<char>, t: LoadedView)
    ensures
        tools_from(tools, source).contains(t) <==> tools.contains(t) && t.source == source,
    decreases tools.len(),
{
    if tools.len() > 0 {
        let head = tools.drop_last();
        law_groups_hold_their_tools(head, source, t);
        let before = tools_from(head, source);
        let all = tools_from(tools, source);
        if all.contains(t) {
            let i = choose|i: int| 0 <= i < all.len() && all[i] == t;
            if i < before.len() {
                assert(before[i] == t);
                let k = choose|k: int| 0 <= k < head.len() && head[k] == t;
                assert(tools[k] == t);
            } else {
                assert(tools[tools.len() - 1] == t);
            }
        }
        if tools.contains(t) && t.source == source {
            let k = choose|k: int| 0 <= k < tools.len() && tools[k] == t;
            if k < head.len() {
                assert(head[k] == t);
                let i = choose|i: int| 0 <= i < before.len() && before[i] == t;
                assert(all[i] == t);
            } else {
                assert(all[all.len() - 1] == t);
            }
        }
    }
}

/// The text of a tool in a list: its description in a comment, and a function
/// under its identifier that calls it by its name.
proof fn lemma_decls_hold(tools: Seq<LoadedView>, hints: bool, i: int)
    requires
        0 <= i < tools.len(),
    ensures
        occurs(decls(tools, hints), if hints {
            tool_hint(tools[i])
        } else {
            tool_decl(tools[i])
        }),
    decreases tools.len(),
{
    let before = decls(tools.drop_last(), hints);
    let last = if hints {
        tool_hint(tools.last())
    } else {
        tool_decl(tools.last())
    };
    let wanted = if hints {
        tool_hint(tools[i])
    } else {
        tool_decl(tools[i])
    };
    if i < tools.len() - 1 {
        lemma_decls_hold(tools.drop_last(), hints, i);
        lemma_occurs_in_more(Seq::empty(), before, last, wanted);
    } else {
        lemma_occurs_between(before, last, Seq::empty());
        assert(before + last + Seq::empty() =~= before + last);
    }
}

/// A tool of a listed source stands in the groups.
proof fn lemma_groups_hold(tools: Seq<LoadedView>, sources: Seq<Seq<char>>, hints: bool, t: LoadedView)
    requires
        tools.contains(t),
        sources.contains(t.source),
    ensures
        occurs(groups(tools, sources, hints), if hints {
            tool_hint(t)
        } else {
            tool_decl(t)
        }),
    decreases sources.len(),
{
    let wanted = if hints {
        tool_hint(t)
    } else {
        tool_decl(t)
    };
    let before = groups(tools, sources.drop_last(), hints);
    let group = tools_from(tools, sources.last());
    let last = decls(group, hints);
    if sources.last() == t.source {
        law_groups_hold_their_tools(tools, t.source, t);
        let i = choose|i: int| 0 <= i < group.len() && group[i] == t;
        lemma_decls_hold(group, hints, i);
        lemma_occurs_in_more(before, last, "\n"@, wanted);
    } else {
        let k = choose|k: int| 0 <= k < sources.len() && sources[k] == t.source;
        assert(sources.drop_last()[k] == t.source);
        lemma_groups_hold(tools, sources.drop_last(), hints, t);
        lemma_occurs_in_more(Seq::empty(), before, last + "\n"@, wanted);
        assert(before + (last + "\n"@) =~= before + last + "\n"@);
    }
}

/// A tool's text calls the tool by its name, with the arguments of the caller.
proof fn lemma_tools_are_called(t: LoadedView)
    ensures
        occurs(tool_decl(t), "const "@ + js_ident(t.tool.name) + " = (args) => _call('"@ + t.tool.name + "', args);\n"@),
        occurs(tool_hint(t), "const "@ + js_ident(t.tool.name) + " = (args) => _call('"@ + t.tool.name + "', args);\n"@),
        occurs(tool_hint(t), " @param {"@ + param_hint(t.tool.schema) + "} args */\n"@),
        occurs(tool_decl(t), replaced(t.tool.description, "*/"@, "* /"@)),
        occurs(tool_hint(t), replaced(t.tool.description, "*/"@, "* /"@)),
{
    let call = "const "@ + js_ident(t.tool.name) + " = (args) => _call('"@ + t.tool.name + "', args);\n"@;
    let told = replaced(t.tool.description, "*/"@, "* /"@);
    let hint = " @param {"@ + param_hint(t.tool.schema) + "} args */\n"@;
    let plain = "/** "@ + told + " */\n"@;
    lemma_occurs_between(plain, call, Seq::empty());
    assert(plain + call + Seq::empty() =~= tool_decl(t));
    lemma_occurs_between("/** "@, told, " */\n"@ + call);
    assert("/** "@ + told + (" */\n"@ + call) =~= tool_decl(t));
    let full = "/** "@ + told + " @param {"@ + param_hint(t.tool.schema) + "} args */\n"@;
    lemma_occurs_between(full, call, Seq::empty());
    assert(full + call + Seq::empty() =~= tool_hint(t));
    lemma_occurs_between("/** "@, told, hint + call);
    assert("/** "@ + told + (hint + call) =~= tool_hint(t));
    lemma_occurs_between("/** "@ + told, hint, call);
    assert("/** "@ + told + hint + call =~= tool_hint(t));
}

/// Every tool but those of code mode itself can be called from a script: the
/// shim has a function for it, under its identifier, that calls it by its
/// name with the arguments it is given, and shows its description.
pub proof fn law_every_tool_can_be_called(port: nat, tools: Seq<LoadedView>, i: int)
    requires
        0 <= i < tools.len(),
        tools[i].source != "codemode"@,
    ensures
        occurs(
            shim_js(port, tools),
            "const "@ + js_ident(tools[i].tool.name) + " = (args) => _call('"@ + tools[i].tool.name + "', args);\n"@,
        ),
        occurs(shim_js(port, tools), replaced(tools[i].tool.description, "*/"@, "* /"@)),
{
    let t = tools[i];
    law_sources_are_those_of_the_tools(tools);
    assert(tools[i].source == t.source);
    assert(sources_of(tools).contains(t.source));
    lemma_groups_hold(tools, sources_of(tools), false, t);
    lemma_tools_are_called(t);
    let text = groups(tools, sources_of(tools), false);
    let call = "const "@ + js_ident(t.tool.name) + " = (args) => _call('"@ + t.tool.name + "', args);\n"@;
    lemma_occurs_through(text, tool_decl(t), call);
    lemma_occurs_through(text, tool_decl(t), replaced(t.tool.description, "*/"@, "* /"@));
    lemma_occurs_in_more(call_helper(port), text, Seq::empty(), call);
    lemma_occurs_in_more(call_helper(port), text, Seq::empty(), replaced(t.tool.description, "*/"@, "* /"@));
}

/// A query shows every tool that one of its words is found in: how it is
/// called, what it takes and what it does.
pub proof fn law_queries_show_what_they_find(tools: Seq<LoadedView>, query: Seq<char>, i: int, k: int)
    requires
        0 <= i < tools.len(),
        tools[i].source != "codemode"@,
        0 <= k < words(lowercased(query)).len(),
        occurs(lowercased(tools[i].source), words(lowercased(query))[k]) || occurs(
            lowercased(tools[i].tool.name),
            words(lowercased(query))[k],
        ) || occurs(lowercased(tools[i].tool.description), words(lowercased(query))[k]),
    ensures
        occurs(
            filtered_shim(tools, query),
            "const "@ + js_ident(tools[i].tool.name) + " = (args) => _call('"@ + tools[i].tool.name + "', args);\n"@,
        ),
        occurs(filtered_shim(tools, query), " @param {"@ + param_hint(tools[i].tool.schema) + "} args */\n"@),
        occurs(filtered_shim(tools, query), replaced(tools[i].tool.description, "*/"@, "* /"@)),
{
    let t = tools[i];
    let keywords = words(lowercased(query));
    let found = hits(tools, keywords);
    assert(hit(t, keywords)) by {
        assert(occurs(lowercased(t.source), keywords[k]) || occurs(lowercased(t.tool.name), keywords[k]) || occurs(
            lowercased(t.tool.description),
            keywords[k],
        ));
    }
    assert(tools.contains(t));
    law_queries_find_what_matches(tools, keywords, t);
    let at = choose|at: int| 0 <= at < found.len() && found[at] == t;
    law_sources_are_those_of_the_tools(found);
    assert(found[at].source == t.source);
    assert(sources_of(found).contains(t.source));
    lemma_groups_hold(found, sources_of(found), true, t);
    lemma_tools_are_called(t);
    let text = groups(found, sources_of(found), true);
    let call = "const "@ + js_ident(t.tool.name) + " = (args) => _call('"@ + t.tool.name + "', args);\n"@;
    let hint = " @param {"@ + param_hint(t.tool.schema) + "} args */\n"@;
    let told = replaced(t.tool.description, "*/"@, "* /"@);
    let head = "// Use these functions inside run_code's script parameter:\n\n"@;
    lemma_occurs_through(text, tool_hint(t), call);
    lemma_occurs_through(text, tool_hint(t), hint);
    lemma_occurs_through(text, tool_hint(t), told);
    lemma_occurs_in_more(head, text, Seq::empty(), call);
    lemma_occurs_in_more(head, text, Seq::empty(), hint);
    lemma_occurs_in_more(head, text, Seq::empty(), told);
}

/// The summary names every tool but those of code mode itself, behind its
/// source and the number of tools that the source has.
pub proof fn law_every_tool_is_summed_up(tools: Seq<LoadedView>, i: int)
    requires
        0 <= i < tools.len(),
        tools[i].source != "codemode"@,
    ensures
        occurs(
            shim_categories(tools),
            "- "@ + tools[i].source + " ("@ + decimal(tools_from(tools, tools[i].source).len()) + " tools): "@,
        ),
        occurs(shim_categories(tools), tools[i].tool.name),
{
    law_sources_are_those_of_the_tools(tools);
    let t = tools[i];
    assert(tools[i].source == t.source);
    let sources = sources_of(tools);
    assert(sources.contains(t.source));
    let k = choose|k: int| 0 <= k < sources.len() && sources[k] == t.source;
    lemma_lines_hold(tools, sources, k);
    let line = category(tools, t.source);
    law_groups_hold_their_tools(tools, t.source, t);
    assert(tools.contains(t));
    lemma_category_holds(tools, t.source, t);
    lemma_occurs_through(
        shim_categories(tools),
        line,
        "- "@ + t.source + " ("@ + decimal(tools_from(tools, t.source).len()) + " tools): "@,
    );
    lemma_occurs_through(shim_categories(tools), line, t.tool.name);
}

/// The line of a source names the source, the number of its tools and each of
/// them.
proof fn lemma_category_holds(tools: Seq<LoadedView>, source: Seq<char>, t: LoadedView)
    requires
        tools_from(tools, source).contains(t),
    ensures
        occurs(
            category(tools, source),
            "- "@ + source + " ("@ + decimal(tools_from(tools, source).len()) + " tools): "@,
        ),
        occurs(category(tools, source), t.tool.name),
{
    let line = category(tools, source);
    let group = tools_from(tools, source);
    let head = "- "@ + source + " ("@ + decimal(group.len()) + " tools): "@;
    let names = Seq::new(group.len(), |i: int| group[i].tool.name);
    let at = choose|at: int| 0 <= at < group.len() && group[at] == t;
    assert(names[at] == t.tool.name);
    lemma_joined_hold(names, ", "@, at);
    let all = joined_by(names, ", "@);
    assert(line == head + all + "\n"@);
    lemma_occurs_in_more(head, all, "\n"@, t.tool.name);
    lemma_occurs_between(Seq::empty(), head, all + "\n"@);
    assert(Seq::empty() + head + (all + "\n"@) =~= head + all + "\n"@);
}

/// The line of every source stands in the summary.
proof fn lemma_lines_hold(tools: Seq<LoadedView>, sources: Seq<Seq<char>>, k: int)
    requires
        0 <= k < sources.len(),
    ensures
        occurs(category_lines(tools, sources), category(tools, sources[k])),
    decreases sources.len(),
{
    let before = category_lines(tools, sources.drop_last());
    let last = category(tools, sources.last());
    if k < sources.len() - 1 {
        lemma_lines_hold(tools, sources.drop_last(), k);
        lemma_occurs_in_more(Seq::empty(), before, last, category(tools, sources[k]));
    } else {
        lemma_occurs_between(before, last, Seq::empty());
        assert(before + last + Seq::empty() =~= before + last);
    }
}

/// A program starts with the shim, so that the script behind it can call the
/// tools; the script stands in it as it was written.
pub proof fn law_scripts_run_behind_the_shim(shim: Seq<char>, script: Seq<char>)
    ensures
        shim.is_prefix_of(program_text(shim, script)),
        exists|i: int| i >= shim.len() && #[trigger] occurs_at(program_text(shim, script), script, i),
{
    let program = program_text(shim, script);
    let open = "\n;(async () => {\n"@;
    assert(shim =~= program.take(shim.len() as int));
    let at = (shim.len() + open.len()) as int;
    assert(program.subrange(at, at + script.len()) =~= script);
    assert(occurs_at(program, script, at));
}

} // verus!
