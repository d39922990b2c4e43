//! Building blocks for the schemas of built-in tools.
use vstd::prelude::*;

use crate::json::{texts_view, Json, JsonView};
use crate::manifest::{text_array, text_values};

verus! {

/// A parameter with a type.
pub open spec fn typed(kind: Seq<char>, text: Seq<char>) -> JsonView {
    JsonView::object().with("description"@, JsonView::Text(text)).with("type"@, JsonView::Text(kind))
}

/// A parameter with a type.
pub fn typed_schema(kind: &str, text: &str) -> (r: Json)
    ensures
        r@ == typed(kind@, text@),
{
    Json::object().with("description", Json::text(text)).with("type", Json::text(kind))
}

/// A parameter of any type.
pub open spec fn untyped(text: Seq<char>) -> JsonView {
    JsonView::object().with("description"@, JsonView::Text(text))
}

/// A parameter of any type.
pub fn untyped_schema(text: &str) -> (r: Json)
    ensures
        r@ == untyped(text@),
{
    Json::object().with("description", Json::text(text))
}

/// A parameter that is a list of texts.
pub open spec fn text_list(text: Seq<char>) -> JsonView {
    JsonView::object().with("description"@, JsonView::Text(text)).with(
        "items"@,
        JsonView::object().with("type"@, JsonView::Text("string"@)),
    ).with("type"@, JsonView::Text("array"@))
}

/// A parameter that is a list of texts.
pub fn text_list_schema(text: &str) -> (r: Json)
    ensures
        r@ == text_list(text@),
{
    Json::object().with("description", Json::text(text)).with(
        "items",
        Json::object().with("type", Json::text("string")),
    ).with("type", Json::text("array"))
}

/// A parameter that is one of two words.
pub open spec fn choice(first: Seq<char>, second: Seq<char>, text: Seq<char>) -> JsonView {
    JsonView::object().with("description"@, JsonView::Text(text)).with(
        "enum"@,
        JsonView::Array(seq![JsonView::Text(first), JsonView::Text(second)]),
    ).with("type"@, JsonView::Text("string"@))
}

/// A parameter that is one of two words.
pub fn choice_schema(first: &str, second: &str, text: &str) -> (r: Json)
    ensures
        r@ == choice(first@, second@, text@),
{
    let mut words: Vec<Json> = Vec::new();
    words.push(Json::text(first));
    words.push(Json::text(second));
    let list = Json::array(words);
    assert(list@->Array_0 =~= seq![JsonView::Text(first@), JsonView::Text(second@)]);
    Json::object().with("description", Json::text(text)).with("enum", list).with("type", Json::text("string"))
}

/// The schema of a tool's inputs.
pub open spec fn inputs(properties: JsonView, required: Option<Seq<Seq<char>>>) -> JsonView {
    let start = JsonView::object().with("properties"@, properties);
    let middle = match required {
        Some(names) => start.with("required"@, JsonView::Array(text_values(names))),
        None => start,
    };
    middle.with("type"@, JsonView::Text("object"@))
}

/// The schema of a tool's inputs.
fn input_schema(properties: Json, required: Option<Vec<String>>) -> (r: Json)
    ensures
        r@ == inputs(
            properties@,
            match required {
                Some(names) => Some(texts_view(names@)),
                None => None,
            },
        ),
{
    let start = Json::object().with("properties", properties);
    let middle = match required {
        Some(names) => start.with("required", text_array(names.as_slice())),
        None => start,
    };
    middle.with("type", Json::text("object"))
}

/// A tool definition.
pub open spec fn definition(
    name: Seq<char>,
    text: Seq<char>,
    properties: JsonView,
    required: Option<Seq<Seq<char>>>,
) -> JsonView {
    JsonView::object().with("description"@, JsonView::Text(text)).with(
        "inputSchema"@,
        inputs(properties, required),
    ).with("name"@, JsonView::Text(name))
}

/// A tool definition.
pub fn define(name: &str, text: &str, properties: Json, required: Option<Vec<String>>) -> (r: Json)
    ensures
        r@ == definition(
            name@,
            text@,
            properties@,
            match required {
                Some(names) => Some(texts_view(names@)),
                None => None,
            },
        ),
{
    Json::object().with("description", Json::text(text)).with("inputSchema", input_schema(properties, required)).with(
        "name",
        Json::text(name),
    )
}

/// The definition of a tool that is not listed.
pub open spec fn hidden_definition(
    name: Seq<char>,
    text: Seq<char>,
    properties: JsonView,
    required: Option<Seq<Seq<char>>>,
) -> JsonView {
    JsonView::object().with("description"@, JsonView::Text(text)).with("hidden"@, JsonView::Bool(true)).with(
        "inputSchema"@,
        inputs(properties, required),
    ).with("name"@, JsonView::Text(name))
}

/// The definition of a tool that is not listed.
pub fn define_hidden(name: &str, text: &str, properties: Json, required: Option<Vec<String>>) -> (r: Json)
    ensures
        r@ == hidden_definition(
            name@,
            text@,
            properties@,
            match required {
                Some(names) => Some(texts_view(names@)),
                None => None,
            },
        ),
{
    Json::object().with("description", Json::text(text)).with("hidden", Json::Bool(true)).with(
        "inputSchema",
        input_schema(properties, required),
    ).with("name", Json::text(name))
}

} // verus!
