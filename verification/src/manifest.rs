//! Manifests: files that declare tools and how to invoke them.
//!
//! A manifest either contains static tool definitions (`tools`) or points to
//! an external MCP server whose tools are discovered dynamically (`mcp`).
use vstd::prelude::*;

use crate::config::{copy_texts, or_default};
use crate::json::{
    lookup, parsed, record_fields, record_tag, string_view, strs_view, texts_view, variant_fields, Field, Json,
    JsonView,
};
use crate::template::pairs_view;
use crate::text::same;

verus! {

// ---------------------------------------------------------------------------
// Types
// ---------------------------------------------------------------------------

/// A manifest file, dropped into `~/.clawshake/manifests/`.
pub struct Manifest {
    pub version: String,
    /// Static tool definitions with explicit invoke configurations.
    pub tools: Vec<Tool>,
    /// An MCP server whose `tools/list` response becomes the tool set.
    pub mcp: Option<McpSource>,
}

/// How to connect to an external MCP server.
#[derive(Debug)]
pub enum McpSource {
    /// Spawn the server and communicate over stdin/stdout.
    Stdio { command: String, args: Vec<String> },
    /// Connect to a server listening on HTTP.
    Http { url: String },
}

/// A single callable tool.
pub struct Tool {
    pub name: String,
    pub description: String,
    /// JSON Schema object describing the tool's inputs.
    pub input_schema: InputSchema,
    /// A value that has to be configured for the tool to work.
    pub needs: Option<String>,
    pub invoke: InvokeConfig,
}

/// JSON Schema object for a tool's inputs.
pub struct InputSchema {
    /// Always "object" for MCP tools.
    pub schema_type: String,
    /// Property sub-schemas, kept as they are.
    pub properties: Vec<(String, Json)>,
    /// Names of required properties.
    pub required: Vec<String>,
}

/// How the broker invokes a tool.
#[derive(Debug)]
pub enum InvokeConfig {
    Deeplink { template: String },
    Cli {
        command: String,
        args: Vec<String>,
        /// Route through the system shell.
        shell: bool,
    },
    Http { url: String, method: Option<String>, headers: Vec<(String, String)> },
    AppleScript { script: String },
    PowerShell { script: String },
    /// Proxy to a running MCP server.  Not written in manifests.
    Mcp { server_key: String },
    /// Handled directly by the broker.  Not written in manifests.
    InProcess,
}

impl InvokeConfig {
    /// Whether the broker handles the tool itself.
    pub fn is_in_process(&self) -> (r: bool)
        ensures
            r == (*self is InProcess),
    {
        matches!(self, InvokeConfig::InProcess)
    }
}

/// The schema type where a manifest gives none.
pub fn default_object_type() -> (r: String)
    ensures
        r@ == "object"@,
{
    "object".to_owned()
}

// ---------------------------------------------------------------------------
// Models
// ---------------------------------------------------------------------------

/// The model of [`InputSchema`].
pub struct SchemaView {
    pub schema_type: Seq<char>,
    pub properties: Seq<(Seq<char>, JsonView)>,
    pub required: Seq<Seq<char>>,
}

/// The model of [`InvokeConfig`].
pub enum InvokeView {
    Deeplink { template: Seq<char> },
    Cli { command: Seq<char>, args: Seq<Seq<char>>, shell: bool },
    Http { url: Seq<char>, method: Option<Seq<char>>, headers: Seq<(Seq<char>, Seq<char>)> },
    AppleScript { script: Seq<char> },
    PowerShell { script: Seq<char> },
    Mcp { server_key: Seq<char> },
    InProcess,
}

/// The model of [`Tool`].
pub struct ToolView {
    pub name: Seq<char>,
    pub description: Seq<char>,
    pub schema: SchemaView,
    pub needs: Option<Seq<char>>,
    pub invoke: InvokeView,
}

/// The model of [`McpSource`].
pub enum SourceView {
    Stdio { command: Seq<char>, args: Seq<Seq<char>> },
    Http { url: Seq<char> },
}

/// The model of [`Manifest`].
pub struct ManifestView {
    pub version: Seq<char>,
    pub tools: Seq<ToolView>,
    pub mcp: Option<SourceView>,
}

/// The models of a list of members.
pub open spec fn members_view(v: Seq<(String, Json)>) -> Seq<(Seq<char>, JsonView)> {
    Seq::new(v.len(), |i: int| (v[i].0@, v[i].1@))
}

/// The models of a list of tools.
pub open spec fn tools_view(v: Seq<Tool>) -> Seq<ToolView> {
    Seq::new(v.len(), |i: int| v[i]@)
}

impl View for InputSchema {
    type V = SchemaView;

    open spec fn view(&self) -> SchemaView {
        SchemaView {
            schema_type: self.schema_type@,
            properties: members_view(self.properties@),
            required: texts_view(self.required@),
        }
    }
}

impl View for InvokeConfig {
    type V = InvokeView;

    open spec fn view(&self) -> InvokeView {
        match self {
            InvokeConfig::Deeplink { template } => InvokeView::Deeplink { template: template@ },
            InvokeConfig::Cli { command, args, shell } => InvokeView::Cli {
                command: command@,
                args: texts_view(args@),
                shell: *shell,
            },
            InvokeConfig::Http { url, method, headers } => InvokeView::Http {
                url: url@,
                method: string_view(*method),
                headers: pairs_view(headers@),
            },
            InvokeConfig::AppleScript { script } => InvokeView::AppleScript { script: script@ },
            InvokeConfig::PowerShell { script } => InvokeView::PowerShell { script: script@ },
            InvokeConfig::Mcp { server_key } => InvokeView::Mcp { server_key: server_key@ },
            InvokeConfig::InProcess => InvokeView::InProcess,
        }
    }
}

impl View for Tool {
    type V = ToolView;

    open spec fn view(&self) -> ToolView {
        ToolView {
            name: self.name@,
            description: self.description@,
            schema: self.input_schema@,
            needs: string_view(self.needs),
            invoke: self.invoke@,
        }
    }
}

impl View for McpSource {
    type V = SourceView;

    open spec fn view(&self) -> SourceView {
        match self {
            McpSource::Stdio { command, args } => SourceView::Stdio { command: command@, args: texts_view(args@) },
            McpSource::Http { url } => SourceView::Http { url: url@ },
        }
    }
}

/// The model of an optional source.
pub open spec fn source_option(s: Option<McpSource>) -> Option<SourceView> {
    match s {
        Some(m) => Some(m@),
        None => None,
    }
}

impl View for Manifest {
    type V = ManifestView;

    open spec fn view(&self) -> ManifestView {
        ManifestView { version: self.version@, tools: tools_view(self.tools@), mcp: source_option(self.mcp) }
    }
}

// ---------------------------------------------------------------------------
// Copies
// ---------------------------------------------------------------------------

/// A copy of a list of members.
pub(crate) fn copy_members(v: &Vec<(String, Json)>) -> (r: Vec<(String, Json)>)
    ensures
        members_view(r@) == members_view(v@),
{
    let mut out: Vec<(String, Json)> = Vec::new();
    let mut i: usize = 0;
    while i < v.len()
        invariant
            i <= v@.len(),
            out@.len() == i,
            forall|j: int| 0 <= j < i ==> (#[trigger] out@[j]).0@ == v@[j].0@ && out@[j].1@ == v@[j].1@,
        decreases v@.len() - i,
    {
        out.push((v[i].0.clone(), v[i].1.clone()));
        i += 1;
    }
    assert(members_view(out@) =~= members_view(v@));
    out
}

/// A copy of a list of pairs.
pub(crate) fn copy_pairs(v: &Vec<(String, String)>) -> (r: Vec<(String, String)>)
    ensures
        pairs_view(r@) == pairs_view(v@),
{
    let mut out: Vec<(String, String)> = Vec::new();
    let mut i: usize = 0;
    while i < v.len()
        invariant
            i <= v@.len(),
            out@.len() == i,
            forall|j: int| 0 <= j < i ==> (#[trigger] out@[j]).0@ == v@[j].0@ && out@[j].1@ == v@[j].1@,
        decreases v@.len() - i,
    {
        out.push((v[i].0.clone(), v[i].1.clone()));
        i += 1;
    }
    assert(pairs_view(out@) =~= pairs_view(v@));
    out
}

impl Clone for InputSchema {
    fn clone(&self) -> (r: InputSchema)
        ensures
            r@ == self@,
    {
        InputSchema {
            schema_type: self.schema_type.clone(),
            properties: copy_members(&self.properties),
            required: copy_texts(self.required.as_slice()),
        }
    }
}

/// A copy of an optional text.
pub(crate) fn copy_option(s: &Option<String>) -> (r: Option<String>)
    ensures
        r == *s,
{
    match s {
        Some(t) => Some(t.clone()),
        None => None,
    }
}

impl Clone for InvokeConfig {
    fn clone(&self) -> (r: InvokeConfig)
        ensures
            r@ == self@,
    {
        match self {
            InvokeConfig::Deeplink { template } => InvokeConfig::Deeplink { template: template.clone() },
            InvokeConfig::Cli { command, args, shell } => InvokeConfig::Cli {
                command: command.clone(),
                args: copy_texts(args.as_slice()),
                shell: *shell,
            },
            InvokeConfig::Http { url, method, headers } => InvokeConfig::Http {
                url: url.clone(),
                method: copy_option(method),
                headers: copy_pairs(headers),
            },
            InvokeConfig::AppleScript { script } => InvokeConfig::AppleScript { script: script.clone() },
            InvokeConfig::PowerShell { script } => InvokeConfig::PowerShell { script: script.clone() },
            InvokeConfig::Mcp { server_key } => InvokeConfig::Mcp { server_key: server_key.clone() },
            InvokeConfig::InProcess => InvokeConfig::InProcess,
        }
    }
}

impl Clone for Tool {
    fn clone(&self) -> (r: Tool)
        ensures
            r@ == self@,
    {
        Tool {
            name: self.name.clone(),
            description: self.description.clone(),
            input_schema: self.input_schema.clone(),
            needs: copy_option(&self.needs),
            invoke: self.invoke.clone(),
        }
    }
}

/// The schema of a tool without inputs.
pub open spec fn default_schema() -> SchemaView {
    SchemaView { schema_type: "object"@, properties: Seq::empty(), required: Seq::empty() }
}

impl Default for InputSchema {
    fn default() -> (r: InputSchema)
        ensures
            r@ == default_schema(),
    {
        let r = InputSchema { schema_type: default_object_type(), properties: Vec::new(), required: Vec::new() };
        assert(r@.properties =~= Seq::empty());
        assert(r@.required =~= Seq::empty());
        r
    }
}

// ---------------------------------------------------------------------------
// Schemas as JSON
// ---------------------------------------------------------------------------

/// The texts as JSON values.
pub open spec fn text_values(v: Seq<Seq<char>>) -> Seq<JsonView> {
    Seq::new(v.len(), |i: int| JsonView::Text(v[i]))
}

/// A schema as JSON; an empty list of required properties is left out.
pub open spec fn schema_json(s: SchemaView) -> JsonView {
    if s.required.len() == 0 {
        JsonView::Object(
            seq![
                ("properties"@, JsonView::Object(s.properties)),
                ("type"@, JsonView::Text(s.schema_type)),
            ],
        )
    } else {
        JsonView::Object(
            seq![
                ("properties"@, JsonView::Object(s.properties)),
                ("required"@, JsonView::Array(text_values(s.required))),
                ("type"@, JsonView::Text(s.schema_type)),
            ],
        )
    }
}

/// The array of `texts`.
pub fn text_array(texts: &[String]) -> (r: Json)
    ensures
        r@ == JsonView::Array(text_values(texts_view(texts@))),
{
    let mut items: Vec<Json> = Vec::new();
    let mut i: usize = 0;
    while i < texts.len()
        invariant
            i <= texts@.len(),
            items@.len() == i,
            forall|j: int| 0 <= j < i ==> (#[trigger] items@[j])@ == JsonView::Text(texts@[j]@),
        decreases texts@.len() - i,
    {
        items.push(Json::text(texts[i].as_str()));
        i += 1;
    }
    let r = Json::array(items);
    assert(r@->Array_0 =~= text_values(texts_view(texts@)));
    r
}

impl InputSchema {
    /// The schema as JSON.
    pub fn to_json(&self) -> (r: Json)
        ensures
            r@ == schema_json(self@),
    {
        let properties = Json::Object(copy_members(&self.properties));
        assert(properties@->Object_0 =~= self@.properties);
        let mut r = Json::object().with("properties", properties);
        if self.required.len() != 0 {
            r = r.with("required", text_array(self.required.as_slice()));
        }
        r = r.with("type", Json::text(self.schema_type.as_str()));
        assert(r@->Object_0 =~= schema_json(self@)->Object_0);
        r
    }
}

// ---------------------------------------------------------------------------
// Reading
// ---------------------------------------------------------------------------

/// The optional text `key`: missing or null, or a text.
pub open spec fn optional_text(j: JsonView, key: Seq<char>) -> Field<Option<Seq<char>>> {
    match j.member(key) {
        None => Field::Value(None),
        Some(JsonView::Null) => Field::Value(None),
        Some(JsonView::Text(t)) => Field::Value(Some(t)),
        Some(_) => Field::Wrong,
    }
}

/// The members of the object `key`; none where it is missing.
pub open spec fn object_field(j: JsonView, key: Seq<char>) -> Field<Seq<(Seq<char>, JsonView)>> {
    match j.member(key) {
        None => Field::Value(Seq::empty()),
        Some(JsonView::Object(m)) => Field::Value(m),
        Some(_) => Field::Wrong,
    }
}

/// The object `key` of texts.
pub open spec fn pairs_field(j: JsonView, key: Seq<char>) -> Field<Seq<(Seq<char>, Seq<char>)>> {
    match object_field(j, key) {
        Field::Value(m) => if forall|i: int| 0 <= i < m.len() ==> (#[trigger] m[i]).1 is Text {
            Field::Value(Seq::new(m.len(), |i: int| (m[i].0, m[i].1->Text_0)))
        } else {
            Field::Wrong
        },
        _ => Field::Wrong,
    }
}

/// What the fields of an `inputSchema` say.
pub open spec fn schema_from(j: JsonView) -> Option<SchemaView> {
    let schema_type = j.text_field("type"@);
    let properties = object_field(j, "properties"@);
    let required = j.texts_field("required"@);
    if !(j is Object) || schema_type is Wrong || properties is Wrong || required is Wrong {
        None
    } else {
        Some(
            SchemaView {
                schema_type: or_default(schema_type, "object"@),
                properties: properties->Value_0,
                required: or_default(required, Seq::empty()),
            },
        )
    }
}

/// What an `inputSchema` says.
pub open spec fn read_schema(j: JsonView) -> Option<SchemaView> {
    match record_fields(j, seq!["type"@, "properties"@, "required"@], 0) {
        Some(fields) => schema_from(fields),
        None => None,
    }
}

/// The link of a deeplink tool: its `template`, or else its `url`.
pub open spec fn link_field(j: JsonView) -> Field<Seq<char>> {
    match j.text_field("template"@) {
        Field::Missing => j.text_field("url"@),
        f => f,
    }
}

/// What the fields of a command say.
pub open spec fn cli_from(j: JsonView) -> Option<InvokeView> {
    match (j.text_field("command"@), j.texts_field("args"@), j.truth_field("shell"@)) {
        (Field::Value(command), args, shell) => if args is Wrong || shell is Wrong {
            None
        } else {
            Some(
                InvokeView::Cli {
                    command,
                    args: or_default(args, Seq::empty()),
                    shell: or_default(shell, false),
                },
            )
        },
        _ => None,
    }
}

/// What the fields of a request say.
pub open spec fn http_from(j: JsonView) -> Option<InvokeView> {
    match (j.text_field("url"@), optional_text(j, "method"@), pairs_field(j, "headers"@)) {
        (Field::Value(url), Field::Value(method), Field::Value(headers)) => Some(
            InvokeView::Http { url, method, headers },
        ),
        _ => None,
    }
}

/// What an `invoke` object says.
pub open spec fn read_invoke(j: JsonView) -> Option<InvokeView> {
    match record_tag(j, "type"@) {
        Field::Value(t) => if t == "deeplink"@ {
            match variant_fields(j, seq!["template"@], 1) {
                Some(f) => match link_field(f) {
                    Field::Value(template) => Some(InvokeView::Deeplink { template }),
                    _ => None,
                },
                None => None,
            }
        } else if t == "cli"@ {
            match variant_fields(j, seq!["command"@, "args"@, "shell"@], 1) {
                Some(f) => cli_from(f),
                None => None,
            }
        } else if t == "http"@ {
            match variant_fields(j, seq!["url"@, "method"@, "headers"@], 1) {
                Some(f) => http_from(f),
                None => None,
            }
        } else if t == "apple_script"@ || t == "applescript"@ {
            match variant_fields(j, seq!["script"@], 1) {
                Some(f) => match f.text_field("script"@) {
                    Field::Value(script) => Some(InvokeView::AppleScript { script }),
                    _ => None,
                },
                None => None,
            }
        } else if t == "power_shell"@ || t == "powershell"@ {
            match variant_fields(j, seq!["script"@], 1) {
                Some(f) => match f.text_field("script"@) {
                    Field::Value(script) => Some(InvokeView::PowerShell { script }),
                    _ => None,
                },
                None => None,
            }
        } else {
            None
        },
        _ => None,
    }
}

/// The schema of a tool: the default one where it is missing.
pub open spec fn schema_field(j: JsonView) -> Option<SchemaView> {
    match j.member("inputSchema"@) {
        None => Some(default_schema()),
        Some(s) => read_schema(s),
    }
}

/// How a tool is invoked.
pub open spec fn invoke_field(j: JsonView) -> Option<InvokeView> {
    match j.member("invoke"@) {
        None => None,
        Some(i) => read_invoke(i),
    }
}

/// What the fields of a tool definition say.
pub open spec fn tool_from(j: JsonView) -> Option<ToolView> {
    match (
        j.text_field("name"@),
        j.text_field("description"@),
        schema_field(j),
        optional_text(j, "requires"@),
        invoke_field(j),
    ) {
        (Field::Value(name), Field::Value(description), Some(schema), Field::Value(needs), Some(invoke)) => Some(
            ToolView { name, description, schema, needs, invoke },
        ),
        _ => None,
    }
}

/// What a tool definition says.
pub open spec fn read_tool(j: JsonView) -> Option<ToolView> {
    match record_fields(j, seq!["name"@, "description"@, "inputSchema"@, "requires"@, "invoke"@], 5) {
        Some(fields) => tool_from(fields),
        None => None,
    }
}

/// The tool that a schema of a built-in tool describes: one that the broker
/// handles itself.
pub open spec fn schema_tool(j: JsonView) -> Option<ToolView> {
    match (j.text_field("name"@), j.text_field("description"@), schema_field(j)) {
        (Field::Value(name), Field::Value(description), Some(schema)) => Some(
            ToolView { name, description, schema, needs: None, invoke: InvokeView::InProcess },
        ),
        _ => None,
    }
}

/// What an `mcp` object says.
pub open spec fn read_source(j: JsonView) -> Option<SourceView> {
    match record_tag(j, "transport"@) {
        Field::Value(t) => if t == "stdio"@ {
            match variant_fields(j, seq!["command"@, "args"@], 1) {
                Some(f) => match (f.text_field("command"@), f.texts_field("args"@)) {
                    (Field::Value(command), args) => if args is Wrong {
                        None
                    } else {
                        Some(SourceView::Stdio { command, args: or_default(args, Seq::empty()) })
                    },
                    _ => None,
                },
                None => None,
            }
        } else if t == "http"@ {
            match variant_fields(j, seq!["url"@], 1) {
                Some(f) => match f.text_field("url"@) {
                    Field::Value(url) => Some(SourceView::Http { url }),
                    _ => None,
                },
                None => None,
            }
        } else {
            None
        },
        _ => None,
    }
}

/// The tools of a manifest; none where they are missing.
pub open spec fn tools_field(j: JsonView) -> Option<Seq<ToolView>> {
    match j.member("tools"@) {
        None => Some(Seq::empty()),
        Some(JsonView::Array(items)) => if forall|i: int| 0 <= i < items.len() ==> read_tool(#[trigger] items[i]) is Some {
            Some(Seq::new(items.len(), |i: int| read_tool(items[i])->0))
        } else {
            None
        },
        Some(_) => None,
    }
}

/// The source of a manifest: missing or null, or an object.
pub open spec fn source_field(j: JsonView) -> Field<Option<SourceView>> {
    match j.member("mcp"@) {
        None => Field::Value(None),
        Some(JsonView::Null) => Field::Value(None),
        Some(m) => match read_source(m) {
            Some(s) => Field::Value(Some(s)),
            None => Field::Wrong,
        },
    }
}

/// What the fields of a manifest say.
pub open spec fn manifest_from(j: JsonView) -> Option<ManifestView> {
    match (j.text_field("version"@), tools_field(j), source_field(j)) {
        (Field::Value(version), Some(tools), Field::Value(mcp)) => Some(ManifestView { version, tools, mcp }),
        _ => None,
    }
}

/// What a manifest says.
pub open spec fn read_manifest(j: JsonView) -> Option<ManifestView> {
    match record_fields(j, seq!["version"@, "tools"@, "mcp"@], 3) {
        Some(fields) => manifest_from(fields),
        None => None,
    }
}

/// The optional text `key`.
pub(crate) fn optional_text_of(j: &Json, key: &str) -> (r: Field<Option<String>>)
    ensures
        match r {
            Field::Missing => false,
            Field::Wrong => optional_text(j@, key@) is Wrong,
            Field::Value(t) => optional_text(j@, key@) == Field::Value(string_view(t)),
        },
{
    match j.get(key) {
        None => Field::Value(None),
        Some(Json::Null) => Field::Value(None),
        Some(Json::Text(t)) => Field::Value(Some(t.clone())),
        Some(_) => Field::Wrong,
    }
}

fn object_of(j: &Json, key: &str) -> (r: Option<Vec<(String, Json)>>)
    ensures
        match r {
            Some(m) => object_field(j@, key@) == Field::Value(members_view(m@)),
            None => object_field(j@, key@) is Wrong,
        },
{
    match j.get(key) {
        None => {
            let m: Vec<(String, Json)> = Vec::new();
            assert(members_view(m@) =~= Seq::empty());
            Some(m)
        },
        Some(v) => match v.as_object() {
            Some(m) => {
                let c = copy_members(m);
                assert(members_view(c@) =~= v@->Object_0);
                Some(c)
            },
            None => None,
        },
    }
}

fn pairs_of(j: &Json, key: &str) -> (r: Option<Vec<(String, String)>>)
    ensures
        match r {
            Some(p) => pairs_field(j@, key@) == Field::Value(pairs_view(p@)),
            None => pairs_field(j@, key@) is Wrong,
        },
{
    let m = match object_of(j, key) {
        Some(m) => m,
        None => return None,
    };
    let ghost all = members_view(m@);
    let mut out: Vec<(String, String)> = Vec::new();
    let mut i: usize = 0;
    while i < m.len()
        invariant
            i <= m@.len(),
            all == members_view(m@),
            object_field(j@, key@) == Field::Value(all),
            out@.len() == i,
            forall|k: int|
                0 <= k < i ==> (#[trigger] all[k]).1 == JsonView::Text(out@[k].1@) && out@[k].0@ == all[k].0,
        decreases m@.len() - i,
    {
        assert(all[i as int] == (m@[i as int].0@, m@[i as int].1@));
        match &m[i].1 {
            Json::Text(t) => {
                out.push((m[i].0.clone(), t.clone()));
            },
            _ => {
                assert(!(all[i as int].1 is Text));
                return None;
            },
        }
        i += 1;
    }
    assert(pairs_view(out@) =~= Seq::new(all.len(), |i: int| (all[i].0, all[i].1->Text_0)));
    Some(out)
}

impl InputSchema {
    /// Reads an `inputSchema`.
    pub fn from_json(j: &Json) -> (r: Option<InputSchema>)
        ensures
            match r {
                Some(s) => read_schema(j@) == Some(s@),
                None => read_schema(j@) is None,
            },
    {
        let names: Vec<&str> = vec!["type", "properties", "required"];
        assert(strs_view(names@) =~= seq!["type"@, "properties"@, "required"@]);
        let fields = match j.record_fields(&names, 0) {
            Some(f) => f,
            None => return None,
        };
        let j = &fields;
        if j.as_object().is_none() {
            return None;
        }
        let schema_type = match j.text_field("type") {
            Field::Value(t) => t,
            Field::Missing => default_object_type(),
            Field::Wrong => return None,
        };
        let properties = match object_of(j, "properties") {
            Some(p) => p,
            None => return None,
        };
        let required = match j.texts_field("required") {
            Field::Value(v) => v,
            Field::Missing => {
                let v: Vec<String> = Vec::new();
                assert(texts_view(v@) =~= Seq::empty());
                v
            },
            Field::Wrong => return None,
        };
        Some(InputSchema { schema_type, properties, required })
    }
}

impl InvokeConfig {
    /// Reads an `invoke` object.
    pub fn from_json(j: &Json) -> (r: Option<InvokeConfig>)
        ensures
            match r {
                Some(i) => read_invoke(j@) == Some(i@),
                None => read_invoke(j@) is None,
            },
    {
        let t = match j.record_tag("type") {
            Field::Value(t) => t,
            _ => return None,
        };
        if same(t.as_str(), "deeplink") {
            InvokeConfig::deeplink_of(j)
        } else if same(t.as_str(), "cli") {
            InvokeConfig::cli_of(j)
        } else if same(t.as_str(), "http") {
            InvokeConfig::http_of(j)
        } else if same(t.as_str(), "apple_script") || same(t.as_str(), "applescript") {
            match script_of(j) {
                Some(script) => Some(InvokeConfig::AppleScript { script }),
                None => None,
            }
        } else if same(t.as_str(), "power_shell") || same(t.as_str(), "powershell") {
            match script_of(j) {
                Some(script) => Some(InvokeConfig::PowerShell { script }),
                None => None,
            }
        } else {
            None
        }
    }

    fn deeplink_of(j: &Json) -> (r: Option<InvokeConfig>)
        ensures
            (match variant_fields(j@, seq!["template"@], 1) {
                Some(f) => match link_field(f) {
                    Field::Value(template) => r is Some && r->0@ == (InvokeView::Deeplink { template }),
                    _ => r is None,
                },
                None => r is None,
            }),
    {
        let names: Vec<&str> = vec!["template"];
        assert(strs_view(names@) =~= seq!["template"@]);
        let f = match j.variant_fields(&names, 1) {
            Some(f) => f,
            None => return None,
        };
        let link = match f.text_field("template") {
            Field::Missing => f.text_field("url"),
            t => t,
        };
        match link {
            Field::Value(template) => Some(InvokeConfig::Deeplink { template }),
            _ => None,
        }
    }

    fn cli_of(j: &Json) -> (r: Option<InvokeConfig>)
        ensures
            (match variant_fields(j@, seq!["command"@, "args"@, "shell"@], 1) {
                Some(f) => match r {
                    Some(i) => cli_from(f) == Some(i@),
                    None => cli_from(f) is None,
                },
                None => r is None,
            }),
    {
        let names: Vec<&str> = vec!["command", "args", "shell"];
        assert(strs_view(names@) =~= seq!["command"@, "args"@, "shell"@]);
        let f = match j.variant_fields(&names, 1) {
            Some(f) => f,
            None => return None,
        };
        match (f.text_field("command"), f.texts_field("args"), f.truth_field("shell")) {
            (Field::Value(command), args, shell) => {
                let args = match args {
                    Field::Value(v) => v,
                    Field::Missing => {
                        let v: Vec<String> = Vec::new();
                        assert(texts_view(v@) =~= Seq::empty());
                        v
                    },
                    Field::Wrong => return None,
                };
                let shell = match shell {
                    Field::Value(b) => b,
                    Field::Missing => false,
                    Field::Wrong => return None,
                };
                Some(InvokeConfig::Cli { command, args, shell })
            },
            _ => None,
        }
    }

    fn http_of(j: &Json) -> (r: Option<InvokeConfig>)
        ensures
            (match variant_fields(j@, seq!["url"@, "method"@, "headers"@], 1) {
                Some(f) => match r {
                    Some(i) => http_from(f) == Some(i@),
                    None => http_from(f) is None,
                },
                None => r is None,
            }),
    {
        let names: Vec<&str> = vec!["url", "method", "headers"];
        assert(strs_view(names@) =~= seq!["url"@, "method"@, "headers"@]);
        let f = match j.variant_fields(&names, 1) {
            Some(f) => f,
            None => return None,
        };
        match (f.text_field("url"), optional_text_of(&f, "method"), pairs_of(&f, "headers")) {
            (Field::Value(url), Field::Value(method), Some(headers)) => Some(
                InvokeConfig::Http { url, method, headers },
            ),
            _ => None,
        }
    }
}

/// The script of a script tool.
fn script_of(j: &Json) -> (r: Option<String>)
    ensures
        (match variant_fields(j@, seq!["script"@], 1) {
            Some(f) => match f.text_field("script"@) {
                Field::Value(script) => r is Some && r->0@ == script,
                _ => r is None,
            },
            None => r is None,
        }),
{
    let names: Vec<&str> = vec!["script"];
    assert(strs_view(names@) =~= seq!["script"@]);
    let f = match j.variant_fields(&names, 1) {
        Some(f) => f,
        None => return None,
    };
    match f.text_field("script") {
        Field::Value(script) => Some(script),
        _ => None,
    }
}

impl Tool {
    /// Reads a tool definition.
    pub fn from_json(j: &Json) -> (r: Option<Tool>)
        ensures
            match r {
                Some(t) => read_tool(j@) == Some(t@),
                None => read_tool(j@) is None,
            },
    {
        let names: Vec<&str> = vec!["name", "description", "inputSchema", "requires", "invoke"];
        assert(strs_view(names@) =~= seq!["name"@, "description"@, "inputSchema"@, "requires"@, "invoke"@]);
        let fields = match j.record_fields(&names, 5) {
            Some(f) => f,
            None => return None,
        };
        let j = &fields;
        let name = match j.text_field("name") {
            Field::Value(t) => t,
            _ => return None,
        };
        let description = match j.text_field("description") {
            Field::Value(t) => t,
            _ => return None,
        };
        let input_schema = match j.get("inputSchema") {
            None => InputSchema::default(),
            Some(s) => match InputSchema::from_json(s) {
                Some(s) => s,
                None => return None,
            },
        };
        let needs = match optional_text_of(j, "requires") {
            Field::Value(t) => t,
            _ => return None,
        };
        let invoke = match j.get("invoke") {
            None => return None,
            Some(i) => match InvokeConfig::from_json(i) {
                Some(i) => i,
                None => return None,
            },
        };
        Some(Tool { name, description, input_schema, needs, invoke })
    }

    /// Reads the schema of a built-in tool, which the broker handles itself.
    pub fn from_json_schema(j: &Json) -> (r: Option<Tool>)
        ensures
            match r {
                Some(t) => schema_tool(j@) == Some(t@),
                None => schema_tool(j@) is None,
            },
    {
        let name = match j.text_field("name") {
            Field::Value(t) => t,
            _ => return None,
        };
        let description = match j.text_field("description") {
            Field::Value(t) => t,
            _ => return None,
        };
        let input_schema = match j.get("inputSchema") {
            None => InputSchema::default(),
            Some(s) => match InputSchema::from_json(s) {
                Some(s) => s,
                None => return None,
            },
        };
        Some(Tool { name, description, input_schema, needs: None, invoke: InvokeConfig::InProcess })
    }
}

impl McpSource {
    /// Reads an `mcp` object.
    pub fn from_json(j: &Json) -> (r: Option<McpSource>)
        ensures
            match r {
                Some(s) => read_source(j@) == Some(s@),
                None => read_source(j@) is None,
            },
    {
        let t = match j.record_tag("transport") {
            Field::Value(t) => t,
            _ => return None,
        };
        if same(t.as_str(), "stdio") {
            let names: Vec<&str> = vec!["command", "args"];
            assert(strs_view(names@) =~= seq!["command"@, "args"@]);
            let f = match j.variant_fields(&names, 1) {
                Some(f) => f,
                None => return None,
            };
            match (f.text_field("command"), f.texts_field("args")) {
                (Field::Value(command), args) => {
                    let args = match args {
                        Field::Value(v) => v,
                        Field::Missing => {
                            let v: Vec<String> = Vec::new();
                            assert(texts_view(v@) =~= Seq::empty());
                            v
                        },
                        Field::Wrong => return None,
                    };
                    Some(McpSource::Stdio { command, args })
                },
                _ => None,
            }
        } else if same(t.as_str(), "http") {
            let names: Vec<&str> = vec!["url"];
            assert(strs_view(names@) =~= seq!["url"@]);
            let f = match j.variant_fields(&names, 1) {
                Some(f) => f,
                None => return None,
            };
            match f.text_field("url") {
                Field::Value(url) => Some(McpSource::Http { url }),
                _ => None,
            }
        } else {
            None
        }
    }
}

fn tools_of(j: &Json) -> (r: Option<Vec<Tool>>)
    ensures
        match r {
            Some(t) => tools_field(j@) == Some(tools_view(t@)),
            None => tools_field(j@) is None,
        },
{
    let mut out: Vec<Tool> = Vec::new();
    match j.get("tools") {
        None => {
            assert(tools_view(out@) =~= Seq::empty());
            Some(out)
        },
        Some(v) => match v.as_array() {
            Some(items) => {
                let ghost all = v@->Array_0;
                let mut i: usize = 0;
                while i < items.len()
                    invariant
                        i <= items@.len(),
                        j@.member("tools"@) == Some(JsonView::Array(all)),
                        all.len() == items@.len(),
                        forall|k: int| 0 <= k < items@.len() ==> all[k] == (#[trigger] items@[k])@,
                        out@.len() == i,
                        forall|k: int| 0 <= k < i ==> read_tool(#[trigger] all[k]) == Some(out@[k]@),
                    decreases items@.len() - i,
                {
                    assert(all[i as int] == items@[i as int]@);
                    match Tool::from_json(&items[i]) {
                        Some(t) => {
                            out.push(t);
                        },
                        None => {
                            assert(read_tool(all[i as int]) is None);
                            return None;
                        },
                    }
                    i += 1;
                }
                assert(tools_view(out@) =~= Seq::new(all.len(), |i: int| read_tool(all[i])->0));
                Some(out)
            },
            None => None,
        },
    }
}

impl Manifest {
    /// Reads a manifest.
    pub fn from_json(j: &Json) -> (r: Option<Manifest>)
        ensures
            match r {
                Some(m) => read_manifest(j@) == Some(m@),
                None => read_manifest(j@) is None,
            },
    {
        let names: Vec<&str> = vec!["version", "tools", "mcp"];
        assert(strs_view(names@) =~= seq!["version"@, "tools"@, "mcp"@]);
        let fields = match j.record_fields(&names, 3) {
            Some(f) => f,
            None => return None,
        };
        let j = &fields;
        let version = match j.text_field("version") {
            Field::Value(t) => t,
            _ => return None,
        };
        let tools = match tools_of(j) {
            Some(t) => t,
            None => return None,
        };
        let mcp = match j.get("mcp") {
            None => None,
            Some(Json::Null) => None,
            Some(m) => match McpSource::from_json(m) {
                Some(s) => Some(s),
                None => return None,
            },
        };
        Some(Manifest { version, tools, mcp })
    }

    /// Reads the text of a manifest file.  Of a name that an object holds twice,
    /// the last value counts.
    pub fn from_text(text: &str) -> (r: Option<Manifest>)
        ensures
            match (r, parsed(vstd::utf8::encode_utf8(text@))) {
                (Some(m), Some(j)) => read_manifest(j) == Some(m@),
                (None, Some(j)) => read_manifest(j) is None,
                (None, None) => true,
                (Some(_), None) => false,
            },
    {
        match Json::from_text(text) {
            Some(j) => Manifest::from_json(&j),
            None => None,
        }
    }
}

/// A schema written as JSON reads back as the schema.
pub proof fn law_schema_reads_back(s: SchemaView)
    ensures
        read_schema(schema_json(s)) == Some(s),
{
    reveal_strlit("properties");
    reveal_strlit("required");
    reveal_strlit("type");
    assert("properties"@.len() == 10 && "required"@.len() == 8 && "type"@.len() == 4);
    reveal_with_fuel(lookup, 4);
    let j = schema_json(s);
    if s.required.len() == 0 {
        let m = j->Object_0;
        assert(m.drop_last() =~= seq![m[0]]);
        assert(m.drop_last().drop_last() =~= Seq::empty());
        assert(s.required =~= Seq::empty());
    } else {
        let m = j->Object_0;
        assert(m.drop_last() =~= seq![m[0], m[1]]);
        assert(m.drop_last().drop_last() =~= seq![m[0]]);
        let items = text_values(s.required);
        assert(Seq::new(items.len(), |i: int| items[i]->Text_0) =~= s.required);
    }
}

} // verus!
