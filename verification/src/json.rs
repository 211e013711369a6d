//! JSON values, their models, lookups in objects and parsing.
use crate::items::Duplicate;
use vstd::prelude::*;

verus! {

broadcast use vstd::std_specs::vec::group_vec_axioms, vstd::seq::group_seq_axioms;

/// A JSON value. Numbers are held by their text; an object is the list of
/// its fields in order.
#[derive(Debug, PartialEq)]
pub enum Json {
    Null,
    Bool(bool),
    Number(String),
    String(String),
    Array(Vec<Json>),
    Object(Vec<(String, Json)>),
}

/// The fields of a JSON object.
pub type JsonMap = Vec<(String, Json)>;

/// The model of a JSON value.
pub enum JsonModel {
    Null,
    Bool(bool),
    Number(Seq<char>),
    String(Seq<char>),
    Array(Seq<JsonModel>),
    Object(Seq<(Seq<char>, JsonModel)>),
}

pub open spec fn json_model(j: Json) -> JsonModel
    decreases j, 0int,
{
    match j {
        Json::Null => JsonModel::Null,
        Json::Bool(b) => JsonModel::Bool(b),
        Json::Number(n) => JsonModel::Number(n@),
        Json::String(s) => JsonModel::String(s@),
        Json::Array(items) => JsonModel::Array(json_models(items@)),
        Json::Object(fields) => JsonModel::Object(fields_model(fields@)),
    }
}

pub open spec fn json_models(items: Seq<Json>) -> Seq<JsonModel>
    decreases items, 1int,
{
    if items.len() == 0 {
        Seq::empty()
    } else {
        json_models(items.drop_last()).push(json_model(items.last()))
    }
}

pub open spec fn fields_model(fields: Seq<(String, Json)>) -> Seq<(Seq<char>, JsonModel)>
    decreases fields, 1int,
{
    if fields.len() == 0 {
        Seq::empty()
    } else {
        fields_model(fields.drop_last()).push((fields.last().0@, json_model(fields.last().1)))
    }
}

impl View for Json {
    type V = JsonModel;

    open spec fn view(&self) -> JsonModel {
        json_model(*self)
    }
}

/// The model of the fields is taken field by field.
pub proof fn lemma_fields_model(fields: Seq<(String, Json)>)
    ensures
        fields_model(fields).len() == fields.len(),
        forall|k: int|
            0 <= k < fields.len() ==> #[trigger] fields_model(fields)[k] == (
                fields[k].0@,
                json_model(fields[k].1),
            ),
    decreases fields.len(),
{
    if fields.len() > 0 {
        lemma_fields_model(fields.drop_last());
    }
}

/// The value of the first field named `key`.
pub open spec fn lookup(fields: Seq<(Seq<char>, JsonModel)>, key: Seq<char>) -> Option<JsonModel>
    decreases fields.len(),
{
    if fields.len() == 0 {
        None
    } else if fields[0].0 == key {
        Some(fields[0].1)
    } else {
        lookup(fields.drop_first(), key)
    }
}

/// `lookup` skips the fields before the first one named `key`.
proof fn lemma_lookup_skip(fields: Seq<(Seq<char>, JsonModel)>, key: Seq<char>, i: int)
    requires
        0 <= i <= fields.len(),
        forall|k: int| 0 <= k < i ==> (#[trigger] fields[k]).0 != key,
    ensures
        lookup(fields, key) == lookup(fields.subrange(i, fields.len() as int), key),
    decreases i,
{
    if i > 0 {
        let rest = fields.drop_first();
        assert forall|k: int| 0 <= k < i - 1 implies (#[trigger] rest[k]).0 != key by {
            assert(rest[k] == fields[k + 1]);
        }
        lemma_lookup_skip(rest, key, i - 1);
        assert(rest.subrange(i - 1, rest.len() as int) =~= fields.subrange(i, fields.len() as int));
    } else {
        assert(fields.subrange(0, fields.len() as int) =~= fields);
    }
}

impl Json {
    /// A copy of this value.
    pub fn copy(&self) -> (r: Json)
        ensures
            r@ == self@,
        decreases self,
    {
        match self {
            Json::Null => Json::Null,
            Json::Bool(b) => Json::Bool(*b),
            Json::Number(n) => Json::Number(n.clone()),
            Json::String(s) => Json::String(s.clone()),
            Json::Array(items) => {
                let mut out: Vec<Json> = Vec::new();
                let mut i: usize = 0;
                while i < items.len()
                    invariant
                        i <= items.len(),
                        *self == Json::Array(*items),
                        json_models(out@) == json_models(items@.take(i as int)),
                    decreases items.len() - i,
                {
                    proof {
                        assert(decreases_to!(*self => self->Array_0));
                        assert(decreases_to!(*items => items[i as int]));
                    }
                    let c = items[i].copy();
                    let ghost before = out@;
                    out.push(c);
                    assert(out@.drop_last() =~= before);
                    assert(items@.take(i + 1).drop_last() =~= items@.take(i as int));
                    i += 1;
                }
                assert(items@.take(items.len() as int) =~= items@);
                Json::Array(out)
            },
            Json::Object(fields) => {
                proof {
                    assert(decreases_to!(*self => self->Object_0));
                }
                Json::Object(copy_fields(fields))
            },
        }
    }
}

/// A copy of the fields of an object.
pub fn copy_fields(fields: &JsonMap) -> (r: JsonMap)
    ensures
        fields_model(r@) == fields_model(fields@),
    decreases fields, 1int,
{
    let mut out: Vec<(String, Json)> = Vec::new();
    let mut i: usize = 0;
    while i < fields.len()
        invariant
            i <= fields.len(),
            fields_model(out@) == fields_model(fields@.take(i as int)),
        decreases fields.len() - i,
    {
        proof {
            assert(decreases_to!(*fields => fields[i as int]));
            assert(decreases_to!(fields[i as int] => fields[i as int].1));
        }
        let key = fields[i].0.clone();
        let value = fields[i].1.copy();
        let ghost before = out@;
        out.push((key, value));
        assert(out@.drop_last() =~= before);
        assert(fields@.take(i + 1).drop_last() =~= fields@.take(i as int));
        i += 1;
    }
    assert(fields@.take(fields.len() as int) =~= fields@);
    out
}

impl Duplicate for Json {
    fn duplicate(&self) -> (r: Self) {
        self.copy()
    }
}

/// A copy of the value of the first field named `key`, or `None` where no
/// field has that name.
pub fn get_field(fields: &JsonMap, key: &str) -> (r: Option<Json>)
    ensures
        match r {
            Some(v) => lookup(fields_model(fields@), key@) == Some(v@),
            None => lookup(fields_model(fields@), key@) is None,
        },
{
    let wanted: String = key.to_owned();
    let ghost model = fields_model(fields@);
    proof {
        lemma_fields_model(fields@);
    }
    let mut i: usize = 0;
    while i < fields.len()
        invariant
            i <= fields.len(),
            wanted@ == key@,
            model == fields_model(fields@),
            model.len() == fields.len(),
            forall|k: int|
                0 <= k < fields.len() ==> #[trigger] model[k] == (
                    fields@[k].0@,
                    json_model(fields@[k].1),
                ),
            forall|k: int| 0 <= k < i ==> (#[trigger] model[k]).0 != key@,
        decreases fields.len() - i,
    {
        if fields[i].0 == wanted {
            proof {
                lemma_lookup_skip(model, key@, i as int);
                assert(model.subrange(i as int, model.len() as int)[0] == model[i as int]);
            }
            return Some(fields[i].1.copy());
        }
        i += 1;
    }
    proof {
        lemma_lookup_skip(model, key@, i as int);
    }
    None
}

/// What `serde_json::from_str` makes of `text`: the value, or the message of
/// the error it reports.
pub uninterp spec fn spec_parse_json(text: Seq<char>) -> Result<JsonModel, Seq<char>>;

#[verifier::external_type_specification]
#[verifier::external_body]
pub struct ExJsonValue(serde_json::Value);

/// Turns a `serde_json::Value` into a `Json`, variant by variant.
#[verifier::external_body]
fn json_of_value(value: serde_json::Value) -> Json {
    match value {
        serde_json::Value::Null => Json::Null,
        serde_json::Value::Bool(b) => Json::Bool(b),
        serde_json::Value::Number(n) => Json::Number(n.to_string()),
        serde_json::Value::String(s) => Json::String(s),
        serde_json::Value::Array(a) => Json::Array(a.into_iter().map(json_of_value).collect()),
        serde_json::Value::Object(o) => Json::Object(
            o.into_iter().map(|(k, v)| (k, json_of_value(v))).collect(),
        ),
    }
}

/// `serde_json::from_str::<serde_json::Value>`: parses `text` as JSON. The
/// result depends on `text` alone; what it is, and the message of an error
/// (its `Display`), is left to the name `spec_parse_json`.
#[verifier::external_body]
pub(crate) fn parse_json(text: &str) -> (r: Result<Json, String>)
    ensures
        match r {
            Ok(j) => spec_parse_json(text@) == Ok::<JsonModel, Seq<char>>(j@),
            Err(m) => spec_parse_json(text@) == Err::<JsonModel, Seq<char>>(m@),
        },
{
    match serde_json::from_str::<serde_json::Value>(text) {
        Ok(v) => Ok(json_of_value(v)),
        Err(e) => Err(e.to_string()),
    }
}

} // verus!
