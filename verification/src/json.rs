//! JSON values, as plain data that the verified code can read and build.
//!
//! A [`Json`] is what `serde_json` calls a value: the text form is read and
//! written by `serde_json` itself, everything in between works on this type.
use serde_json::Value;
use vstd::prelude::*;

use crate::text::{lemma_text_lt_irreflexive, lemma_text_lt_transitive, relate, same, text_lt, Relation};

verus! {

/// A JSON number: a non-negative or a negative integer, or the numeral of
/// anything else.
#[derive(Debug, PartialEq)]
pub enum JsonNumber {
    Unsigned(u64),
    Negative(i64),
    Float(String),
}

/// A JSON value.  An object is the list of its members.
#[derive(Debug, PartialEq)]
pub enum Json {
    Null,
    Bool(bool),
    Number(JsonNumber),
    Text(String),
    Array(Vec<Json>),
    Object(Vec<(String, Json)>),
}

/// The model of a number.
pub enum NumberView {
    Unsigned(int),
    Negative(int),
    Float(Seq<char>),
}

/// The model of a JSON value.
pub enum JsonView {
    Null,
    Bool(bool),
    Number(NumberView),
    Text(Seq<char>),
    Array(Seq<JsonView>),
    Object(Seq<(Seq<char>, JsonView)>),
}

/// The model of a number.
pub open spec fn number_view(n: JsonNumber) -> NumberView {
    match n {
        JsonNumber::Unsigned(u) => NumberView::Unsigned(u as int),
        JsonNumber::Negative(i) => NumberView::Negative(i as int),
        JsonNumber::Float(t) => NumberView::Float(t@),
    }
}

/// The model of a value.
pub open spec fn json_view(j: Json) -> JsonView
    decreases j,
{
    match j {
        Json::Null => JsonView::Null,
        Json::Bool(b) => JsonView::Bool(b),
        Json::Number(n) => JsonView::Number(number_view(n)),
        Json::Text(t) => JsonView::Text(t@),
        Json::Array(v) => JsonView::Array(
            Seq::new(
                v@.len(),
                |i: int| if 0 <= i < v@.len() { json_view(v@[i]) } else { JsonView::Null },
            ),
        ),
        Json::Object(v) => JsonView::Object(
            Seq::new(
                v@.len(),
                |i: int|
                    if 0 <= i < v@.len() {
                        (v@[i].0@, json_view(v@[i].1))
                    } else {
                        (Seq::empty(), JsonView::Null)
                    },
            ),
        ),
    }
}

impl View for Json {
    type V = JsonView;

    open spec fn view(&self) -> JsonView {
        json_view(*self)
    }
}

/// The value of the last member called `key`.
pub open spec fn lookup(members: Seq<(Seq<char>, JsonView)>, key: Seq<char>) -> Option<JsonView>
    decreases members.len(),
{
    if members.len() == 0 {
        None
    } else if members.last().0 == key {
        Some(members.last().1)
    } else {
        lookup(members.drop_last(), key)
    }
}

/// The models of a list of values.
pub open spec fn items_view(v: Seq<Json>) -> Seq<JsonView> {
    Seq::new(v.len(), |i: int| v[i]@)
}

impl JsonView {
    /// The object without members.
    pub open spec fn object() -> JsonView {
        JsonView::Object(Seq::empty())
    }

    /// This object with one more member.
    pub open spec fn with(self, key: Seq<char>, value: JsonView) -> JsonView {
        JsonView::Object(self->Object_0.push((key, value)))
    }

    /// Whether a member can be set: objects, and null, which becomes one.
    pub open spec fn settable(self) -> bool {
        self is Object || self is Null
    }

    /// This object with the member `key` set to `value`.
    pub open spec fn setting(self, key: Seq<char>, value: JsonView) -> JsonView {
        match self {
            JsonView::Object(members) => JsonView::Object(put(members, key, value)),
            _ => JsonView::object().with(key, value),
        }
    }
}

/// The members with `key` set to `value`: in the place of the member of that
/// name, or before the names that come after it.
pub open spec fn put(members: Seq<(Seq<char>, JsonView)>, key: Seq<char>, value: JsonView) -> Seq<
    (Seq<char>, JsonView),
>
    decreases members.len(),
{
    if members.len() == 0 {
        seq![(key, value)]
    } else if members.last().0 == key {
        members.drop_last().push((key, value))
    } else if text_lt(key, members.last().0) {
        put(members.drop_last(), key, value).push(members.last())
    } else {
        members.push((key, value))
    }
}

/// A member that was set is there; the others stay as they were.
pub proof fn lemma_put(members: Seq<(Seq<char>, JsonView)>, key: Seq<char>, value: JsonView, other: Seq<char>)
    ensures
        lookup(put(members, key, value), key) == Some(value),
        other != key ==> lookup(put(members, key, value), other) == lookup(members, other),
    decreases members.len(),
{
    let after = put(members, key, value);
    if members.len() == 0 {
        assert(after.drop_last() =~= members);
    } else if members.last().0 == key {
        assert(after.drop_last() =~= members.drop_last());
    } else if text_lt(key, members.last().0) {
        lemma_put(members.drop_last(), key, value, other);
        assert(after.drop_last() =~= put(members.drop_last(), key, value));
    } else {
        assert(after.drop_last() =~= members);
    }
}

impl JsonView {
    /// The member `key` of an object.
    pub open spec fn member(self, key: Seq<char>) -> Option<JsonView> {
        match self {
            JsonView::Object(members) => lookup(members, key),
            _ => None,
        }
    }

    /// The text, of a text.
    pub open spec fn text(self) -> Option<Seq<char>> {
        match self {
            JsonView::Text(t) => Some(t),
            _ => None,
        }
    }

    /// The truth value, of a truth value.
    pub open spec fn truth(self) -> Option<bool> {
        match self {
            JsonView::Bool(b) => Some(b),
            _ => None,
        }
    }

    /// The number, of a non-negative integer.
    pub open spec fn natural(self) -> Option<int> {
        match self {
            JsonView::Number(NumberView::Unsigned(n)) => Some(n),
            _ => None,
        }
    }

    /// The items, of an array.
    pub open spec fn items(self) -> Option<Seq<JsonView>> {
        match self {
            JsonView::Array(items) => Some(items),
            _ => None,
        }
    }

    /// The text under `key`.
    pub open spec fn text_at(self, key: Seq<char>) -> Option<Seq<char>> {
        match self.member(key) {
            Some(v) => v.text(),
            None => None,
        }
    }

    /// The non-negative integer under `key`.
    pub open spec fn natural_at(self, key: Seq<char>) -> Option<int> {
        match self.member(key) {
            Some(v) => v.natural(),
            None => None,
        }
    }

    /// The truth value under `key`.
    pub open spec fn truth_at(self, key: Seq<char>) -> Option<bool> {
        match self.member(key) {
            Some(v) => v.truth(),
            None => None,
        }
    }

    /// The items of the array under `key`.
    pub open spec fn items_at(self, key: Seq<char>) -> Option<Seq<JsonView>> {
        match self.member(key) {
            Some(v) => v.items(),
            None => None,
        }
    }
}

/// The model of an optional text.
pub open spec fn text_view(t: Option<&str>) -> Option<Seq<char>> {
    match t {
        Some(s) => Some(s@),
        None => None,
    }
}

/// The model of an optional owned text.
pub open spec fn string_view(t: Option<String>) -> Option<Seq<char>> {
    match t {
        Some(s) => Some(s@),
        None => None,
    }
}

/// The models of a list of texts.
pub open spec fn texts_view(v: Seq<String>) -> Seq<Seq<char>> {
    Seq::new(v.len(), |i: int| v[i]@)
}

/// The model of an optional value.
pub open spec fn json_option(j: Option<Json>) -> Option<JsonView> {
    match j {
        Some(v) => Some(v@),
        None => None,
    }
}

// ---------------------------------------------------------------------------
// Fields
// ---------------------------------------------------------------------------

/// What a typed field of an object is: not there, of another type, or a value.
pub enum Field<T> {
    Missing,
    Wrong,
    Value(T),
}

impl JsonView {
    /// The field `key` as a text.
    pub open spec fn text_field(self, key: Seq<char>) -> Field<Seq<char>> {
        match self.member(key) {
            None => Field::Missing,
            Some(JsonView::Text(t)) => Field::Value(t),
            Some(_) => Field::Wrong,
        }
    }

    /// The field `key` as a truth value.
    pub open spec fn truth_field(self, key: Seq<char>) -> Field<bool> {
        match self.member(key) {
            None => Field::Missing,
            Some(JsonView::Bool(b)) => Field::Value(b),
            Some(_) => Field::Wrong,
        }
    }

    /// The field `key` as an integer from 0 to `max`.
    pub open spec fn natural_field(self, key: Seq<char>, max: int) -> Field<int> {
        match self.member(key) {
            None => Field::Missing,
            Some(JsonView::Number(NumberView::Unsigned(n))) => if n <= max {
                Field::Value(n)
            } else {
                Field::Wrong
            },
            Some(_) => Field::Wrong,
        }
    }

    /// The field `key` as a list of texts.
    pub open spec fn texts_field(self, key: Seq<char>) -> Field<Seq<Seq<char>>> {
        match self.member(key) {
            None => Field::Missing,
            Some(JsonView::Array(items)) => if forall|i: int| 0 <= i < items.len() ==> #[trigger] items[i] is Text {
                Field::Value(Seq::new(items.len(), |i: int| items[i]->Text_0))
            } else {
                Field::Wrong
            },
            Some(_) => Field::Wrong,
        }
    }
}

/// The values under the names that they stand for by their position.
pub open spec fn placed(items: Seq<JsonView>, names: Seq<Seq<char>>) -> JsonView {
    JsonView::Object(
        Seq::new(
            if items.len() < names.len() {
                items.len()
            } else {
                names.len()
            },
            |i: int| (names[i], items[i]),
        ),
    )
}

/// The fields of a record: those of an object, or the items of an array in the
/// order of `names`, at least `least` of them and no more than there are names.
pub open spec fn record_fields(j: JsonView, names: Seq<Seq<char>>, least: int) -> Option<JsonView> {
    match j {
        JsonView::Array(items) => if least <= items.len() <= names.len() {
            Some(placed(items, names))
        } else {
            None
        },
        _ => Some(j),
    }
}

/// The tag of a tagged record: the field `key` of an object, or the first item
/// of an array.
pub open spec fn record_tag(j: JsonView, key: Seq<char>) -> Field<Seq<char>> {
    match j {
        JsonView::Array(items) => if items.len() == 0 {
            Field::Missing
        } else {
            match items[0] {
                JsonView::Text(t) => Field::Value(t),
                _ => Field::Wrong,
            }
        },
        _ => j.text_field(key),
    }
}

/// The fields of a tagged record: in an array they follow the tag.
pub open spec fn variant_fields(j: JsonView, names: Seq<Seq<char>>, least: int) -> Option<JsonView> {
    match j {
        JsonView::Array(items) => if items.len() == 0 {
            None
        } else {
            record_fields(JsonView::Array(items.skip(1)), names, least)
        },
        _ => Some(j),
    }
}

/// The models of a list of literals.
pub open spec fn strs_view(v: Seq<&str>) -> Seq<Seq<char>> {
    Seq::new(v.len(), |i: int| v[i]@)
}

/// The model of a text field.
pub open spec fn text_field_view(f: Field<String>) -> Field<Seq<char>> {
    match f {
        Field::Missing => Field::Missing,
        Field::Wrong => Field::Wrong,
        Field::Value(t) => Field::Value(t@),
    }
}

/// The model of a field that is a list of texts.
pub open spec fn texts_field_view(f: Field<Vec<String>>) -> Field<Seq<Seq<char>>> {
    match f {
        Field::Missing => Field::Missing,
        Field::Wrong => Field::Wrong,
        Field::Value(v) => Field::Value(texts_view(v@)),
    }
}

/// The items from `start` on under the names that they stand for.
fn place(items: &Vec<Json>, start: usize, names: &Vec<&str>) -> (r: Json)
    requires
        start <= items@.len(),
    ensures
        r@ == placed(items_view(items@).skip(start as int), strs_view(names@)),
{
    let ghost all = items_view(items@).skip(start as int);
    let mut r = Json::object();
    let mut i: usize = 0;
    assert(r@->Object_0 =~= placed(all.take(0), strs_view(names@))->Object_0);
    while i < names.len() && i < items.len() - start
        invariant
            start <= items@.len(),
            i <= names@.len(),
            i <= items@.len() - start,
            all == items_view(items@).skip(start as int),
            r@ == placed(all.take(i as int), strs_view(names@)),
        decreases names@.len() - i,
    {
        r = r.with(names[i], items[start + i].clone());
        i += 1;
        assert(r@->Object_0 =~= placed(all.take(i as int), strs_view(names@))->Object_0);
    }
    assert(r@->Object_0 =~= placed(all, strs_view(names@))->Object_0);
    r
}

impl Json {
    /// The fields of a record: those of an object, or the items of an array in
    /// the order of `names`.
    pub fn record_fields(&self, names: &Vec<&str>, least: usize) -> (r: Option<Json>)
        ensures
            json_option(r) == record_fields(self@, strs_view(names@), least as int),
    {
        match self {
            Json::Array(items) => {
                assert(self@->Array_0 =~= items_view(items@));
                if least <= items.len() && items.len() <= names.len() {
                    assert(items_view(items@).skip(0) =~= items_view(items@));
                    Some(place(items, 0, names))
                } else {
                    None
                }
            },
            _ => Some(self.clone()),
        }
    }

    /// The fields of a section: those of a table, or the items of an array in
    /// the order of `names`, as many as there are names.
    pub fn section_fields(&self, names: &Vec<&str>) -> (r: Json)
        ensures
            r@ == (match self@ {
                JsonView::Array(items) => placed(items, strs_view(names@)),
                _ => self@,
            }),
    {
        match self {
            Json::Array(items) => {
                assert(self@->Array_0 =~= items_view(items@));
                assert(items_view(items@).skip(0) =~= items_view(items@));
                place(items, 0, names)
            },
            _ => self.clone(),
        }
    }

    /// The tag of a tagged record.
    pub fn record_tag(&self, key: &str) -> (r: Field<String>)
        ensures
            text_field_view(r) == record_tag(self@, key@),
    {
        match self {
            Json::Array(items) => {
                assert(self@->Array_0 =~= items_view(items@));
                if items.len() == 0 {
                    return Field::Missing;
                }
                match &items[0] {
                    Json::Text(t) => Field::Value(t.clone()),
                    _ => Field::Wrong,
                }
            },
            _ => self.text_field(key),
        }
    }

    /// The fields of a tagged record.
    pub fn variant_fields(&self, names: &Vec<&str>, least: usize) -> (r: Option<Json>)
        ensures
            json_option(r) == variant_fields(self@, strs_view(names@), least as int),
    {
        match self {
            Json::Array(items) => {
                assert(self@->Array_0 =~= items_view(items@));
                if 0 < items.len() && least <= items.len() - 1 && items.len() - 1 <= names.len() {
                    Some(place(items, 1, names))
                } else {
                    None
                }
            },
            _ => Some(self.clone()),
        }
    }

    /// The field `key` as a text.
    pub fn text_field(&self, key: &str) -> (r: Field<String>)
        ensures
            text_field_view(r) == self@.text_field(key@),
    {
        match self.get(key) {
            None => Field::Missing,
            Some(Json::Text(t)) => Field::Value(t.clone()),
            Some(_) => Field::Wrong,
        }
    }

    /// The field `key` as a truth value.
    pub fn truth_field(&self, key: &str) -> (r: Field<bool>)
        ensures
            r == self@.truth_field(key@),
    {
        match self.get(key) {
            None => Field::Missing,
            Some(Json::Bool(b)) => Field::Value(*b),
            Some(_) => Field::Wrong,
        }
    }

    /// The field `key` as an integer from 0 to `max`.
    pub fn natural_field(&self, key: &str, max: u64) -> (r: Field<u64>)
        ensures
            match r {
                Field::Missing => self@.natural_field(key@, max as int) is Missing,
                Field::Wrong => self@.natural_field(key@, max as int) is Wrong,
                Field::Value(n) => self@.natural_field(key@, max as int) == Field::Value(n as int) && n <= max,
            },
    {
        match self.get(key) {
            None => Field::Missing,
            Some(Json::Number(JsonNumber::Unsigned(n))) => {
                if *n <= max {
                    Field::Value(*n)
                } else {
                    Field::Wrong
                }
            },
            Some(_) => Field::Wrong,
        }
    }

    /// The field `key` as a list of texts.
    pub fn texts_field(&self, key: &str) -> (r: Field<Vec<String>>)
        ensures
            texts_field_view(r) == self@.texts_field(key@),
    {
        match self.get(key) {
            None => Field::Missing,
            Some(Json::Array(items)) => {
                let ghost all = self@.member(key@)->0->Array_0;
                let mut out: Vec<String> = Vec::new();
                let mut i: usize = 0;
                while i < items.len()
                    invariant
                        i <= items@.len(),
                        self@.member(key@) == Some(JsonView::Array(all)),
                        all.len() == items@.len(),
                        forall|j: int| 0 <= j < items@.len() ==> #[trigger] all[j] == items@[j]@,
                        out@.len() == i,
                        forall|j: int| 0 <= j < i ==> #[trigger] all[j] == JsonView::Text(out@[j]@),
                    decreases items@.len() - i,
                {
                    match &items[i] {
                        Json::Text(t) => {
                            out.push(t.clone());
                        },
                        _ => {
                            assert(!(all[i as int] is Text));
                            return Field::Wrong;
                        },
                    }
                    i += 1;
                }
                assert(texts_view(out@) =~= Seq::new(all.len(), |i: int| all[i]->Text_0));
                Field::Value(out)
            },
            Some(_) => Field::Wrong,
        }
    }
}

impl Json {
    /// The member `key`, where this is an object that has it.
    pub fn get(&self, key: &str) -> (r: Option<&Json>)
        ensures
            r is Some <==> self@.member(key@) is Some,
            r is Some ==> r->0@ == self@.member(key@)->0,
    {
        match self {
            Json::Object(members) => {
                let ghost all = self@->Object_0;
                let mut i: usize = members.len();
                assert(all.take(all.len() as int) =~= all);
                while i > 0
                    invariant
                        i <= members@.len(),
                        self@ == JsonView::Object(all),
                        *self == Json::Object(*members),
                        all.len() == members@.len(),
                        lookup(all.take(i as int), key@) == lookup(all, key@),
                    decreases i,
                {
                    let ghost head = all.take(i as int);
                    assert(head.last() == all[i - 1]);
                    assert(head.drop_last() =~= all.take(i - 1));
                    i -= 1;
                    assert(all[i as int] == (members@[i as int].0@, members@[i as int].1@));
                    if same(members[i].0.as_str(), key) {
                        return Some(&members[i].1);
                    }
                }
                None
            },
            _ => None,
        }
    }

    /// The text, where this is one.
    pub fn as_str(&self) -> (r: Option<&str>)
        ensures
            text_view(r) == self@.text(),
    {
        match self {
            Json::Text(t) => Some(t.as_str()),
            _ => None,
        }
    }

    /// The truth value, where this is one.
    pub fn as_bool(&self) -> (r: Option<bool>)
        ensures
            r == self@.truth(),
    {
        match self {
            Json::Bool(b) => Some(*b),
            _ => None,
        }
    }

    /// The number, where this is a non-negative integer.
    pub fn as_u64(&self) -> (r: Option<u64>)
        ensures
            r is Some <==> self@.natural() is Some,
            r is Some ==> r->0 as int == self@.natural()->0,
    {
        match self {
            Json::Number(JsonNumber::Unsigned(n)) => Some(*n),
            _ => None,
        }
    }

    /// The items, where this is an array.
    pub fn as_array(&self) -> (r: Option<&Vec<Json>>)
        ensures
            r is Some <==> self@.items() is Some,
            r is Some ==> self@.items()->0.len() == r->0@.len() && forall|i: int|
                0 <= i < r->0@.len() ==> self@.items()->0[i] == (#[trigger] r->0@[i])@,
    {
        match self {
            Json::Array(v) => Some(v),
            _ => None,
        }
    }

    /// The members, where this is an object.
    pub fn as_object(&self) -> (r: Option<&Vec<(String, Json)>>)
        ensures
            r is Some <==> self@ is Object,
            r is Some ==> self@->Object_0.len() == r->0@.len() && forall|i: int|
                0 <= i < r->0@.len() ==> self@->Object_0[i] == (
                    (#[trigger] r->0@[i]).0@,
                    r->0@[i].1@,
                ),
    {
        match self {
            Json::Object(v) => Some(v),
            _ => None,
        }
    }

    /// The text under `key`.
    pub fn str_at(&self, key: &str) -> (r: Option<&str>)
        ensures
            text_view(r) == self@.text_at(key@),
    {
        match self.get(key) {
            Some(v) => v.as_str(),
            None => None,
        }
    }

    /// The non-negative integer under `key`.
    pub fn u64_at(&self, key: &str) -> (r: Option<u64>)
        ensures
            r is Some <==> self@.natural_at(key@) is Some,
            r is Some ==> r->0 as int == self@.natural_at(key@)->0,
    {
        match self.get(key) {
            Some(v) => v.as_u64(),
            None => None,
        }
    }

    /// The truth value under `key`.
    pub fn bool_at(&self, key: &str) -> (r: Option<bool>)
        ensures
            r == self@.truth_at(key@),
    {
        match self.get(key) {
            Some(v) => v.as_bool(),
            None => None,
        }
    }

    /// A text value.
    pub fn text(s: &str) -> (r: Json)
        ensures
            r@ == JsonView::Text(s@),
    {
        Json::Text(s.to_owned())
    }

    /// A non-negative integer value.
    pub fn natural(n: u64) -> (r: Json)
        ensures
            r@ == JsonView::Number(NumberView::Unsigned(n as int)),
    {
        Json::Number(JsonNumber::Unsigned(n))
    }

    /// A text value, or null.
    pub fn optional_text(s: Option<&str>) -> (r: Json)
        ensures
            r@ == (match s {
                Some(t) => JsonView::Text(t@),
                None => JsonView::Null,
            }),
    {
        match s {
            Some(t) => Json::text(t),
            None => Json::Null,
        }
    }

    /// An object without members.
    pub fn object() -> (r: Json)
        ensures
            r@ == JsonView::Object(Seq::empty()),
    {
        let r = Json::Object(Vec::new());
        assert(r@->Object_0 =~= Seq::empty());
        r
    }

    /// This object with one more member.
    pub fn with(self, key: &str, value: Json) -> (r: Json)
        requires
            self@ is Object,
        ensures
            r@ == JsonView::Object(self@->Object_0.push((key@, value@))),
    {
        match self {
            Json::Object(members) => {
                let ghost before = members@;
                let mut members = members;
                members.push((key.to_owned(), value));
                let r = Json::Object(members);
                assert(r@->Object_0 =~= Json::Object(members)@->Object_0);
                assert(r@->Object_0 =~= self@->Object_0.push((key@, value@)));
                r
            },
            _ => self,
        }
    }

    /// Whether a member can be set.
    pub fn is_settable(&self) -> (r: bool)
        ensures
            r == self@.settable(),
    {
        match self {
            Json::Object(_) => true,
            Json::Null => true,
            _ => false,
        }
    }

    /// This object with the member `key` set to `value`.
    pub fn setting(self, key: &str, value: Json) -> (r: Json)
        requires
            self@.settable(),
        ensures
            r@ == self@.setting(key@, value@),
    {
        match self {
            Json::Object(members) => {
                let ghost all = json_view(Json::Object(members))->Object_0;
                let mut members = members;
                let mut i: usize = members.len();
                assert(all.take(i as int) =~= all);
                assert(put(all, key@, value@) =~= put(all.take(i as int), key@, value@) + all.skip(i as int));
                while i > 0 && relate(key, members[i - 1].0.as_str()) == Relation::Before
                    invariant
                        i <= members@.len(),
                        all == json_view(Json::Object(members))->Object_0,
                        all.len() == members@.len(),
                        put(all, key@, value@) == put(all.take(i as int), key@, value@) + all.skip(i as int),
                    decreases i,
                {
                    proof {
                        let t = all.take(i as int);
                        assert(t.drop_last() =~= all.take(i - 1));
                        assert(t.last() == all[i - 1]);
                        assert(all[i - 1].0 == members@[i - 1].0@);
                        lemma_text_lt_irreflexive(key@);
                        assert(all.skip(i - 1) =~= seq![all[i - 1]] + all.skip(i as int));
                        assert(put(all, key@, value@) =~= put(all.take(i - 1), key@, value@) + all.skip(i - 1));
                    }
                    i -= 1;
                }
                proof {
                    let t = all.take(i as int);
                    if i > 0 {
                        assert(t.drop_last() =~= all.take(i - 1));
                        assert(t.last() == all[i - 1]);
                        assert(all[i - 1].0 == members@[i - 1].0@);
                    }
                }
                let ghost v = value@;
                if i > 0 && same(members[i - 1].0.as_str(), key) {
                    members.set(i - 1, (key.to_owned(), value));
                } else {
                    members.insert(i, (key.to_owned(), value));
                }
                let r = Json::Object(members);
                assert(r@->Object_0 =~= put(all, key@, v));
                r
            },
            _ => Json::object().with(key, value),
        }
    }

    /// The array of `items`.
    pub fn array(items: Vec<Json>) -> (r: Json)
        ensures
            r@ == JsonView::Array(items_view(items@)),
    {
        let r = Json::Array(items);
        assert(r@->Array_0 =~= items_view(items@));
        r
    }
}

impl Clone for Json {
    fn clone(&self) -> (r: Json)
        ensures
            r@ == self@,
        decreases self,
    {
        match self {
            Json::Null => Json::Null,
            Json::Bool(b) => Json::Bool(*b),
            Json::Number(JsonNumber::Unsigned(n)) => Json::Number(JsonNumber::Unsigned(*n)),
            Json::Number(JsonNumber::Negative(n)) => Json::Number(JsonNumber::Negative(*n)),
            Json::Number(JsonNumber::Float(t)) => Json::Number(JsonNumber::Float(t.clone())),
            Json::Text(t) => Json::Text(t.clone()),
            Json::Array(items) => {
                let mut out: Vec<Json> = Vec::new();
                let mut i: usize = 0;
                while i < items.len()
                    invariant
                        i <= items@.len(),
                        *self == Json::Array(*items),
                        out@.len() == i,
                        forall|k: int| 0 <= k < i ==> (#[trigger] out@[k])@ == items@[k]@,
                    decreases items@.len() - i,
                {
                    assert(decreases_to!(*self => (*self)->Array_0));
                    assert(decreases_to!(*self => (*self)->Array_0@));
                    assert(decreases_to!(*self => (*self)->Array_0@[i as int]));
                    out.push(items[i].clone());
                    i += 1;
                }
                let r = Json::Array(out);
                assert(r@->Array_0 =~= self@->Array_0);
                r
            },
            Json::Object(members) => {
                let mut out: Vec<(String, Json)> = Vec::new();
                let mut i: usize = 0;
                while i < members.len()
                    invariant
                        i <= members@.len(),
                        *self == Json::Object(*members),
                        out@.len() == i,
                        forall|k: int|
                            0 <= k < i ==> (#[trigger] out@[k]).0@ == members@[k].0@ && out@[k].1@
                                == members@[k].1@,
                    decreases members@.len() - i,
                {
                    assert(decreases_to!(*self => (*self)->Object_0));
                    assert(decreases_to!(*self => (*self)->Object_0@));
                    assert(decreases_to!(*self => (*self)->Object_0@[i as int]));
                    assert(decreases_to!(*self => (*self)->Object_0@[i as int].1));
                    out.push((members[i].0.clone(), members[i].1.clone()));
                    i += 1;
                }
                let r = Json::Object(out);
                assert(r@->Object_0 =~= self@->Object_0);
                r
            },
        }
    }
}

// ---------------------------------------------------------------------------
// serde_json
// ---------------------------------------------------------------------------

/// `serde_json::Value`, carried between the conversions below.
#[verifier::external_type_specification]
#[verifier::external_body]
pub struct ExValue(serde_json::Value);

/// What `serde_json::from_slice` reads from some bytes: the value, or the text
/// of its error where the bytes are not one JSON document.
pub uninterp spec fn read_json(bytes: Seq<u8>) -> Result<JsonView, Seq<char>>;

/// The value in some bytes, or nothing where they are not one JSON document.
pub open spec fn parsed(bytes: Seq<u8>) -> Option<JsonView> {
    match read_json(bytes) {
        Ok(v) => Some(v),
        Err(_) => None,
    }
}

/// What `serde_json::to_string` writes for a value.
pub uninterp spec fn printed(value: JsonView) -> Seq<char>;

/// What `serde_json::to_string_pretty` writes for a value.
pub uninterp spec fn printed_pretty(value: JsonView) -> Seq<char>;

/// An integer that JSON text keeps exactly.
pub open spec fn whole(n: NumberView) -> bool {
    match n {
        NumberView::Unsigned(u) => 0 <= u <= u64::MAX,
        NumberView::Negative(i) => i64::MIN <= i < 0,
        NumberView::Float(_) => false,
    }
}

/// The names of the members rise.
pub open spec fn names_rise(members: Seq<(Seq<char>, JsonView)>) -> bool {
    forall|i: int, j: int| 0 <= i < j < members.len() ==> text_lt((#[trigger] members[i]).0, (#[trigger] members[j]).0)
}

/// The name that `serde_json` keeps for itself: an object that opens with it is
/// read as the JSON in that member's text.
pub open spec fn raw_name() -> Seq<char> {
    "$serde_json::private::RawValue"@
}

/// The value is at most `depth` levels deep, its numbers are integers, the
/// names in its objects rise, and no object opens with [`raw_name`].
pub open spec fn canonical(v: JsonView, depth: nat) -> bool
    decreases depth,
{
    match v {
        JsonView::Null => true,
        JsonView::Bool(_) => true,
        JsonView::Text(_) => true,
        JsonView::Number(n) => whole(n),
        JsonView::Array(items) => depth > 0 && forall|i: int|
            0 <= i < items.len() ==> canonical(#[trigger] items[i], (depth - 1) as nat),
        JsonView::Object(members) => depth > 0 && names_rise(members) && (members.len() > 0 ==> members[0].0
            != raw_name()) && forall|i: int|
            0 <= i < members.len() ==> canonical((#[trigger] members[i]).1, (depth - 1) as nat),
    }
}

/// A name that does not begin with a dollar sign is not [`raw_name`].
pub proof fn lemma_not_raw(name: Seq<char>)
    requires
        name.len() > 0,
        name[0] != '$',
    ensures
        name != raw_name(),
{
    reveal_strlit("$serde_json::private::RawValue");
}

/// An object stays canonical when a member whose name comes after the others is
/// added.
pub proof fn lemma_canonical_with(o: JsonView, key: Seq<char>, value: JsonView, depth: nat)
    requires
        o is Object,
        depth > 0,
        canonical(o, depth),
        canonical(value, (depth - 1) as nat),
        o->Object_0.len() > 0 ==> text_lt(o->Object_0.last().0, key),
        o->Object_0.len() == 0 ==> key != raw_name(),
    ensures
        canonical(o.with(key, value), depth),
{
    let before = o->Object_0;
    let after = o.with(key, value)->Object_0;
    assert forall|i: int, j: int| 0 <= i < j < after.len() implies text_lt(
        (#[trigger] after[i]).0,
        (#[trigger] after[j]).0,
    ) by {
        if j < before.len() {
            assert(text_lt(before[i].0, before[j].0));
        } else if i < before.len() - 1 {
            assert(text_lt(before[i].0, before.last().0));
            lemma_text_lt_transitive(before[i].0, before.last().0, key);
        }
    }
    assert forall|i: int| 0 <= i < after.len() implies canonical((#[trigger] after[i]).1, (depth - 1) as nat) by {
        if i < before.len() {
            assert(after[i] == before[i]);
        }
    }
}

/// The object without members is canonical.
pub proof fn lemma_canonical_object(depth: nat)
    requires
        depth > 0,
    ensures
        canonical(JsonView::object(), depth),
{
}

/// A `serde_json::Value` as a [`Json`], variant by variant.  Nothing is
/// claimed of it.
#[verifier::external_body]
pub(crate) fn from_value(value: Value) -> (r: Json) {
    match value {
        Value::Null => Json::Null,
        Value::Bool(b) => Json::Bool(b),
        Value::Number(n) => match (n.as_u64(), n.as_i64()) {
            (Some(u), _) => Json::Number(JsonNumber::Unsigned(u)),
            (None, Some(i)) => Json::Number(JsonNumber::Negative(i)),
            (None, None) => Json::Number(JsonNumber::Float(n.to_string())),
        },
        Value::String(s) => Json::Text(s),
        Value::Array(items) => Json::Array(items.into_iter().map(from_value).collect()),
        Value::Object(m) => Json::Object(m.into_iter().map(|(k, v)| (k, from_value(v))).collect()),
    }
}

/// A [`Json`] as a `serde_json::Value`, variant by variant.  Nothing is
/// claimed of it.
#[verifier::external_body]
pub(crate) fn to_value(json: &Json) -> (r: Value) {
    match json {
        Json::Null => Value::Null,
        Json::Bool(b) => Value::Bool(*b),
        Json::Number(JsonNumber::Unsigned(n)) => Value::from(*n),
        Json::Number(JsonNumber::Negative(n)) => Value::from(*n),
        Json::Number(JsonNumber::Float(t)) => serde_json::from_str(t).unwrap_or(Value::Null),
        Json::Text(s) => Value::String(s.clone()),
        Json::Array(items) => Value::Array(items.iter().map(to_value).collect()),
        Json::Object(m) => Value::Object(m.iter().map(|e| (e.0.clone(), to_value(&e.1))).collect()),
    }
}

/// `serde_json::from_slice`: what it returns is a function of the bytes
/// alone; the JSON grammar is left unsaid.
#[verifier::external_body]
fn parse_slice(bytes: &[u8]) -> (r: Result<Json, String>)
    ensures
        match r {
            Ok(v) => read_json(bytes@) == Ok::<JsonView, Seq<char>>(v@),
            Err(e) => read_json(bytes@) == Err::<JsonView, Seq<char>>(e@),
        },
{
    match serde_json::from_slice(bytes) {
        Ok(value) => Ok(from_value(value)),
        Err(e) => Err(e.to_string()),
    }
}

/// `serde_json::to_string`: what it returns is a function of the value alone,
/// and `serde_json::from_slice` reads it back as the value, where the value
/// is not too deep for the reader (it gives up beyond 127 levels), its
/// numbers are integers, the members of its objects stand in the order in
/// which a `serde_json` map keeps them, and none of its objects opens with the
/// name that `serde_json` keeps for raw values.  The layout of the text is
/// left unsaid.
#[verifier::external_body]
fn print(json: &Json) -> (r: String)
    ensures
        r@ == printed(json@),
        canonical(json@, 127) ==> parsed(vstd::utf8::encode_utf8(r@)) == Some(json@),
{
    to_value(json).to_string()
}

/// `serde_json::to_string_pretty`: what it returns is a function of the value
/// alone, and `serde_json::from_slice` reads it back as the value, under the
/// same conditions as for `serde_json::to_string`.  The layout of the text is
/// left unsaid.
#[verifier::external_body]
fn print_pretty(json: &Json) -> (r: String)
    ensures
        r@ == printed_pretty(json@),
        canonical(json@, 127) ==> parsed(vstd::utf8::encode_utf8(r@)) == Some(json@),
{
    serde_json::to_string_pretty(&to_value(json)).unwrap_or_default()
}

impl Json {
    /// Reads one JSON document, or tells what is wrong with it.
    pub fn read(s: &str) -> (r: Result<Json, String>)
        ensures
            match r {
                Ok(v) => read_json(vstd::utf8::encode_utf8(s@)) == Ok::<JsonView, Seq<char>>(v@),
                Err(e) => read_json(vstd::utf8::encode_utf8(s@)) == Err::<JsonView, Seq<char>>(e@),
            },
    {
        parse_slice(s.as_bytes())
    }

    /// Reads one JSON document, or tells what is wrong with it.
    pub fn read_bytes(bytes: &[u8]) -> (r: Result<Json, String>)
        ensures
            match r {
                Ok(v) => read_json(bytes@) == Ok::<JsonView, Seq<char>>(v@),
                Err(e) => read_json(bytes@) == Err::<JsonView, Seq<char>>(e@),
            },
    {
        parse_slice(bytes)
    }

    /// Reads one JSON document.
    pub fn from_bytes(bytes: &[u8]) -> (r: Option<Json>)
        ensures
            json_option(r) == parsed(bytes@),
    {
        match parse_slice(bytes) {
            Ok(v) => Some(v),
            Err(_) => None,
        }
    }

    /// Reads one JSON document from text.
    pub fn from_text(s: &str) -> (r: Option<Json>)
        ensures
            json_option(r) == parsed(vstd::utf8::encode_utf8(s@)),
    {
        match parse_slice(s.as_bytes()) {
            Ok(v) => Some(v),
            Err(_) => None,
        }
    }

    /// The compact text of the value, which reads back as the value.
    pub fn to_text(&self) -> (r: String)
        ensures
            r@ == printed(self@),
            canonical(self@, 127) ==> parsed(vstd::utf8::encode_utf8(r@)) == Some(self@),
    {
        print(self)
    }

    /// The bytes of the compact text.
    pub fn to_bytes(&self) -> (r: Vec<u8>)
        ensures
            r@ == vstd::utf8::encode_utf8(printed(self@)),
            canonical(self@, 127) ==> parsed(r@) == Some(self@),
    {
        let t = self.to_text();
        let bytes = t.as_str().as_bytes();
        let mut out: Vec<u8> = Vec::new();
        let mut i: usize = 0;
        while i < bytes.len()
            invariant
                i <= bytes@.len(),
                out@ =~= bytes@.take(i as int),
            decreases bytes@.len() - i,
        {
            out.push(bytes[i]);
            i += 1;
        }
        assert(out@ =~= bytes@);
        out
    }

    /// The indented text of the value.
    pub fn to_pretty_text(&self) -> (r: String)
        ensures
            r@ == printed_pretty(self@),
            canonical(self@, 127) ==> parsed(vstd::utf8::encode_utf8(r@)) == Some(self@),
    {
        print_pretty(self)
    }
}

// ---------------------------------------------------------------------------
// Members of a growing object
// ---------------------------------------------------------------------------

/// The member that was added last is found.
pub proof fn lemma_member_added(j: JsonView, key: Seq<char>, value: JsonView)
    requires
        j is Object,
    ensures
        j.with(key, value).member(key) == Some(value),
{
    assert(j->Object_0.push((key, value)).last() == (key, value));
}

/// Adding a member leaves the others.
pub proof fn lemma_member_kept(j: JsonView, key: Seq<char>, value: JsonView, other: Seq<char>)
    requires
        j is Object,
        key != other,
    ensures
        j.with(key, value).member(other) == j.member(other),
{
    let members = j->Object_0.push((key, value));
    assert(members.last() == (key, value));
    assert(members.drop_last() =~= j->Object_0);
}

/// The members of an object that was built from two different ones.
pub proof fn lemma_fields_2(a: Seq<char>, a_value: JsonView, b: Seq<char>, b_value: JsonView)
    requires
        a != b,
    ensures
        ({
            let o = JsonView::object().with(a, a_value).with(b, b_value);
            &&& o.member(a) == Some(a_value)
            &&& o.member(b) == Some(b_value)
        }),
{
    let before = JsonView::object().with(a, a_value);
    lemma_member_added(JsonView::object(), a, a_value);
    lemma_member_added(before, b, b_value);
    lemma_member_kept(before, b, b_value, a);
}

/// The members of an object that was built from three different ones.
pub proof fn lemma_fields_3(a: Seq<char>, a_value: JsonView, b: Seq<char>, b_value: JsonView, c: Seq<char>, c_value: JsonView)
    requires
        a != b,
        a != c,
        b != c,
    ensures
        ({
            let o = JsonView::object().with(a, a_value).with(b, b_value).with(c, c_value);
            &&& o.member(a) == Some(a_value)
            &&& o.member(b) == Some(b_value)
            &&& o.member(c) == Some(c_value)
        }),
{
    let before = JsonView::object().with(a, a_value).with(b, b_value);
    lemma_fields_2(a, a_value, b, b_value);
    lemma_member_added(before, c, c_value);
    lemma_member_kept(before, c, c_value, a);
    lemma_member_kept(before, c, c_value, b);
}

/// The members of an object that was built from four different ones.
pub proof fn lemma_fields_4(a: Seq<char>, a_value: JsonView, b: Seq<char>, b_value: JsonView, c: Seq<char>, c_value: JsonView, d: Seq<char>, d_value: JsonView)
    requires
        a != b,
        a != c,
        a != d,
        b != c,
        b != d,
        c != d,
    ensures
        ({
            let o = JsonView::object().with(a, a_value).with(b, b_value).with(c, c_value).with(d, d_value);
            &&& o.member(a) == Some(a_value)
            &&& o.member(b) == Some(b_value)
            &&& o.member(c) == Some(c_value)
            &&& o.member(d) == Some(d_value)
        }),
{
    let before = JsonView::object().with(a, a_value).with(b, b_value).with(c, c_value);
    lemma_fields_3(a, a_value, b, b_value, c, c_value);
    lemma_member_added(before, d, d_value);
    lemma_member_kept(before, d, d_value, a);
    lemma_member_kept(before, d, d_value, b);
    lemma_member_kept(before, d, d_value, c);
}

/// The members of an object that was built from five different ones.
pub proof fn lemma_fields_5(a: Seq<char>, a_value: JsonView, b: Seq<char>, b_value: JsonView, c: Seq<char>, c_value: JsonView, d: Seq<char>, d_value: JsonView, e: Seq<char>, e_value: JsonView)
    requires
        a != b,
        a != c,
        a != d,
        a != e,
        b != c,
        b != d,
        b != e,
        c != d,
        c != e,
        d != e,
    ensures
        ({
            let o = JsonView::object().with(a, a_value).with(b, b_value).with(c, c_value).with(d, d_value).with(e, e_value);
            &&& o.member(a) == Some(a_value)
            &&& o.member(b) == Some(b_value)
            &&& o.member(c) == Some(c_value)
            &&& o.member(d) == Some(d_value)
            &&& o.member(e) == Some(e_value)
        }),
{
    let before = JsonView::object().with(a, a_value).with(b, b_value).with(c, c_value).with(d, d_value);
    lemma_fields_4(a, a_value, b, b_value, c, c_value, d, d_value);
    lemma_member_added(before, e, e_value);
    lemma_member_kept(before, e, e_value, a);
    lemma_member_kept(before, e, e_value, b);
    lemma_member_kept(before, e, e_value, c);
    lemma_member_kept(before, e, e_value, d);
}

/// The members of an object that was built from six different ones.
pub proof fn lemma_fields_6(a: Seq<char>, a_value: JsonView, b: Seq<char>, b_value: JsonView, c: Seq<char>, c_value: JsonView, d: Seq<char>, d_value: JsonView, e: Seq<char>, e_value: JsonView, f: Seq<char>, f_value: JsonView)
    requires
        a != b,
        a != c,
        a != d,
        a != e,
        a != f,
        b != c,
        b != d,
        b != e,
        b != f,
        c != d,
        c != e,
        c != f,
        d != e,
        d != f,
        e != f,
    ensures
        ({
            let o = JsonView::object().with(a, a_value).with(b, b_value).with(c, c_value).with(d, d_value).with(e, e_value).with(f, f_value);
            &&& o.member(a) == Some(a_value)
            &&& o.member(b) == Some(b_value)
            &&& o.member(c) == Some(c_value)
            &&& o.member(d) == Some(d_value)
            &&& o.member(e) == Some(e_value)
            &&& o.member(f) == Some(f_value)
        }),
{
    let before = JsonView::object().with(a, a_value).with(b, b_value).with(c, c_value).with(d, d_value).with(e, e_value);
    lemma_fields_5(a, a_value, b, b_value, c, c_value, d, d_value, e, e_value);
    lemma_member_added(before, f, f_value);
    lemma_member_kept(before, f, f_value, a);
    lemma_member_kept(before, f, f_value, b);
    lemma_member_kept(before, f, f_value, c);
    lemma_member_kept(before, f, f_value, d);
    lemma_member_kept(before, f, f_value, e);
}

} // verus!
