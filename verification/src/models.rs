//! Models that a node serves, as they are announced to its peers.
use vstd::prelude::*;

use crate::codemode::among;
use crate::config::{AdvertiseModels, AdvertiseView};
use crate::json::{
    lemma_member_added, lemma_member_kept, record_fields, string_view, strs_view, texts_view, Field, Json,
    JsonView, NumberView,
};
use crate::manifest::{optional_text, optional_text_of};
use crate::rpc::present;

verus! {

/// A model in an announcement.
#[derive(Debug, PartialEq)]
pub struct ModelAnnounce {
    /// The model as its backend calls it, e.g. `llama3.1:70b`.
    pub name: String,
    /// The longest context in tokens, if known.
    pub context_length: Option<u64>,
    /// The parameter count in words, if known.
    pub params: Option<String>,
}

/// The model of [`ModelAnnounce`].
pub struct ModelView {
    pub name: Seq<char>,
    pub context_length: Option<int>,
    pub params: Option<Seq<char>>,
}

impl View for ModelAnnounce {
    type V = ModelView;

    open spec fn view(&self) -> ModelView {
        ModelView {
            name: self.name@,
            context_length: match self.context_length {
                Some(n) => Some(n as int),
                None => None,
            },
            params: string_view(self.params),
        }
    }
}

impl Clone for ModelAnnounce {
    fn clone(&self) -> (r: ModelAnnounce)
        ensures
            r@ == self@,
    {
        ModelAnnounce {
            name: self.name.clone(),
            context_length: self.context_length,
            params: match &self.params {
                Some(p) => Some(p.clone()),
                None => None,
            },
        }
    }
}

/// The models of a list of announced models.
pub open spec fn models_view(v: Seq<ModelAnnounce>) -> Seq<ModelView> {
    Seq::new(v.len(), |i: int| v[i]@)
}

/// A copy of a list of announced models.
pub(crate) fn copy_models(v: &Vec<ModelAnnounce>) -> (r: Vec<ModelAnnounce>)
    ensures
        models_view(r@) == models_view(v@),
{
    let mut out: Vec<ModelAnnounce> = Vec::new();
    let mut i: usize = 0;
    while i < v.len()
        invariant
            i <= v@.len(),
            out@.len() == i,
            forall|j: int| 0 <= j < i ==> (#[trigger] out@[j])@ == v@[j]@,
        decreases v@.len() - i,
    {
        out.push(v[i].clone());
        i += 1;
    }
    assert(models_view(out@) =~= models_view(v@));
    out
}

/// A model as JSON: what is not known is left out.
pub open spec fn model_json(m: ModelView) -> JsonView {
    let start = match m.context_length {
        Some(n) => JsonView::object().with("context_length"@, JsonView::Number(NumberView::Unsigned(n))),
        None => JsonView::object(),
    };
    let middle = start.with("name"@, JsonView::Text(m.name));
    match m.params {
        Some(p) => middle.with("params"@, JsonView::Text(p)),
        None => middle,
    }
}

/// The context length of a model: none, or a natural number.
pub open spec fn read_length(j: JsonView) -> Field<Option<int>> {
    match present(j, "context_length"@) {
        None => Field::Value(None),
        Some(JsonView::Number(NumberView::Unsigned(n))) => Field::Value(Some(n)),
        Some(_) => Field::Wrong,
    }
}

/// The model in the fields of a record, if it is one.
pub open spec fn model_from(j: JsonView) -> Option<ModelView> {
    match (j.text_field("name"@), read_length(j), optional_text(j, "params"@)) {
        (Field::Value(name), Field::Value(context_length), Field::Value(params)) => Some(
            ModelView { name, context_length, params },
        ),
        _ => None,
    }
}

/// The model in a JSON value, if it is one.
pub open spec fn read_model(j: JsonView) -> Option<ModelView> {
    match record_fields(j, seq!["name"@, "context_length"@, "params"@], 1) {
        Some(fields) => model_from(fields),
        None => None,
    }
}

impl ModelAnnounce {
    /// The model as JSON.
    pub fn to_json(&self) -> (r: Json)
        ensures
            r@ == model_json(self@),
    {
        let start = match self.context_length {
            Some(n) => Json::object().with("context_length", Json::natural(n)),
            None => Json::object(),
        };
        let middle = start.with("name", Json::text(self.name.as_str()));
        match &self.params {
            Some(p) => middle.with("params", Json::text(p.as_str())),
            None => middle,
        }
    }

    /// Reads a model.
    pub fn from_json(j: &Json) -> (r: Option<ModelAnnounce>)
        ensures
            match r {
                Some(m) => read_model(j@) == Some(m@),
                None => read_model(j@) is None,
            },
    {
        let names: Vec<&str> = vec!["name", "context_length", "params"];
        assert(strs_view(names@) =~= seq!["name"@, "context_length"@, "params"@]);
        let fields = match j.record_fields(&names, 1) {
            Some(f) => f,
            None => return None,
        };
        let j = &fields;
        let name = match j.text_field("name") {
            Field::Value(t) => t,
            _ => return None,
        };
        let context_length: Option<u64> = match j.get("context_length") {
            None => None,
            Some(Json::Null) => None,
            Some(v) => match v.as_u64() {
                Some(n) => Some(n),
                None => return None,
            },
        };
        let params = match optional_text_of(j, "params") {
            Field::Value(p) => p,
            _ => return None,
        };
        Some(ModelAnnounce { name, context_length, params })
    }
}

// ---------------------------------------------------------------------------
// Which models are announced
// ---------------------------------------------------------------------------

/// The models with these names, in order.
pub open spec fn models_named(all: Seq<ModelView>, names: Seq<Seq<char>>) -> Seq<ModelView>
    decreases all.len(),
{
    if all.len() == 0 {
        Seq::empty()
    } else {
        let before = models_named(all.drop_last(), names);
        if names.contains(all.last().name) {
            before.push(all.last())
        } else {
            before
        }
    }
}

/// The models that a configuration announces.
pub open spec fn advertised(all: Seq<ModelView>, advertise: AdvertiseView) -> Seq<ModelView> {
    match advertise {
        AdvertiseView::All => all,
        AdvertiseView::Nothing => Seq::empty(),
        AdvertiseView::List(names) => models_named(all, names),
    }
}

/// The models to announce: those of the backend that the configuration names.
/// None where there is no backend, or where it did not answer.
pub fn query_models(listed: Option<&Vec<ModelAnnounce>>, advertise: &AdvertiseModels) -> (r: Vec<ModelAnnounce>)
    ensures
        models_view(r@) == (match listed {
            Some(all) => advertised(models_view(all@), advertise@),
            None => Seq::empty(),
        }),
{
    let mut out: Vec<ModelAnnounce> = Vec::new();
    assert(models_view(out@) =~= Seq::empty());
    let models = match listed {
        Some(m) => m,
        None => return out,
    };
    match advertise {
        AdvertiseModels::All(_) => copy_models(models),
        AdvertiseModels::Nothing(_) => out,
        AdvertiseModels::List(names) => {
            let ghost all = models_view(models@);
            let mut i: usize = 0;
            assert(all.take(0) =~= Seq::empty());
            while i < models.len()
                invariant
                    i <= models@.len(),
                    all == models_view(models@),
                    models_view(out@) == models_named(all.take(i as int), texts_view(names@)),
                decreases models@.len() - i,
            {
                assert(all.take(i + 1).drop_last() =~= all.take(i as int));
                assert(all.take(i + 1).last() == models@[i as int]@);
                if among(names, models[i].name.as_str()) {
                    let ghost was = models_view(out@);
                    out.push(models[i].clone());
                    assert(models_view(out@) =~= was.push(models@[i as int]@));
                }
                i += 1;
            }
            assert(all.take(i as int) =~= all);
            out
        },
    }
}

// ---------------------------------------------------------------------------
// Laws
// ---------------------------------------------------------------------------

/// Only models that the backend has and the configuration names are announced,
/// and all of them are.
pub proof fn law_named_models_are_announced(all: Seq<ModelView>, names: Seq<Seq<char>>, m: ModelView)
    ensures
        advertised(all, AdvertiseView::List(names)).contains(m) <==> all.contains(m) && names.contains(m.name),
    decreases all.len(),
{
    if all.len() > 0 {
        let head = all.drop_last();
        law_named_models_are_announced(head, names, m);
        let before = models_named(head, names);
        let now = models_named(all, names);
        if now.contains(m) {
            let i = choose|i: int| 0 <= i < now.len() && now[i] == m;
            if i < before.len() {
                assert(before[i] == m);
                let k = choose|k: int| 0 <= k < head.len() && head[k] == m;
                assert(all[k] == m);
            } else {
                assert(all[all.len() - 1] == m);
            }
        }
        if all.contains(m) && names.contains(m.name) {
            let k = choose|k: int| 0 <= k < all.len() && all[k] == m;
            if k < head.len() {
                assert(head[k] == m);
                let i = choose|i: int| 0 <= i < before.len() && before[i] == m;
                assert(now[i] == m);
            } else {
                assert(now[now.len() - 1] == m);
            }
        }
    }
}

/// Every model reads back from its JSON.
pub proof fn law_models_read_back(m: ModelView)
    ensures
        read_model(model_json(m)) == Some(m),
{
    reveal_strlit("context_length");
    reveal_strlit("name");
    reveal_strlit("params");
    assert("context_length"@.len() == 14);
    assert("name"@.len() == 4);
    assert("params"@.len() == 6);
    let empty = JsonView::object();
    assert(empty.member("context_length"@) is None);
    assert(empty.member("params"@) is None);
    let start = match m.context_length {
        Some(n) => empty.with("context_length"@, JsonView::Number(NumberView::Unsigned(n))),
        None => empty,
    };
    if m.context_length is Some {
        let n = JsonView::Number(NumberView::Unsigned(m.context_length->0));
        lemma_member_added(empty, "context_length"@, n);
        lemma_member_kept(empty, "context_length"@, n, "params"@);
    }
    let middle = start.with("name"@, JsonView::Text(m.name));
    lemma_member_added(start, "name"@, JsonView::Text(m.name));
    lemma_member_kept(start, "name"@, JsonView::Text(m.name), "context_length"@);
    lemma_member_kept(start, "name"@, JsonView::Text(m.name), "params"@);
    if m.params is Some {
        let p = JsonView::Text(m.params->0);
        lemma_member_added(middle, "params"@, p);
        lemma_member_kept(middle, "params"@, p, "name"@);
        lemma_member_kept(middle, "params"@, p, "context_length"@);
    }
}

} // verus!
