//! JSON documents as this library reads them, and the call into serde_json
//! that parses one.
use vstd::prelude::*;
use crate::text::strs_view;

verus! {

broadcast use vstd::std_specs::vec::group_vec_axioms;

/// A JSON value. Numbers keep their text; an object keeps the names and the
/// values of its members in two vectors of one length, in order.
pub enum Json {
    Null,
    Bool(bool),
    Number(String),
    Str(String),
    Array(Vec<Json>),
    Object(Vec<String>, Vec<Json>),
}

/// The mathematical value of a [`Json`].
pub enum JsonModel {
    Null,
    Bool(bool),
    Number(Seq<char>),
    Str(Seq<char>),
    Array(Seq<JsonModel>),
    Object(Seq<(Seq<char>, JsonModel)>),
}

/// The value that a [`Json`] stands for.
pub open spec fn json_model(j: &Json) -> JsonModel
    decreases j,
{
    match j {
        Json::Null => JsonModel::Null,
        Json::Bool(b) => JsonModel::Bool(*b),
        Json::Number(n) => JsonModel::Number(n@),
        Json::Str(s) => JsonModel::Str(s@),
        Json::Array(items) => JsonModel::Array(
            Seq::new(items@.len(), |i: int| if 0 <= i < items@.len() { json_model(&items@[i]) } else { JsonModel::Null }),
        ),
        Json::Object(names, values) => JsonModel::Object(
            Seq::new(
                if names@.len() <= values@.len() { names@.len() } else { values@.len() },
                |i: int|
                    if 0 <= i < names@.len() && i < values@.len() {
                        (names@[i]@, json_model(&values@[i]))
                    } else {
                        (Seq::empty(), JsonModel::Null)
                    },
            ),
        ),
    }
}

impl View for Json {
    type V = JsonModel;

    open spec fn view(&self) -> JsonModel {
        json_model(self)
    }
}

/// serde_json's value type, carried through opaquely.
#[verifier::external_type_specification]
#[verifier::external_body]
pub struct ExValue(serde_json::Value);

/// The document that a JSON text denotes, where the text is one.
pub uninterp spec fn json_document(text: Seq<char>) -> Option<JsonModel>;

/// Relies on serde_json::from_str (into a serde_json::Value): whether the text is
/// one JSON document, and which, depends on the text alone. The value is then
/// carried over variant by variant.
#[verifier::external_body]
pub(crate) fn parse_json(text: &str) -> (r: Option<Json>)
    ensures
        r is None <==> json_document(text@) is None,
        r matches Some(j) ==> json_document(text@) == Some(j@),
{
    serde_json::from_str::<serde_json::Value>(text).ok().map(json_from_value)
}

/// Carries a serde_json value over into a [`Json`], one variant for each; called
/// only by [`parse_json`], whose contract covers the whole result.
#[verifier::external_body]
fn json_from_value(v: serde_json::Value) -> Json {
    match v {
        serde_json::Value::Null => Json::Null,
        serde_json::Value::Bool(b) => Json::Bool(b),
        serde_json::Value::Number(n) => Json::Number(n.to_string()),
        serde_json::Value::String(s) => Json::Str(s),
        serde_json::Value::Array(a) => Json::Array(a.into_iter().map(json_from_value).collect()),
        serde_json::Value::Object(m) => {
            let (names, values) = m.into_iter().map(|(k, x)| (k, json_from_value(x))).unzip();
            Json::Object(names, values)
        },
    }
}

/// The value of the first member of an object named `key`.
pub open spec fn member(entries: Seq<(Seq<char>, JsonModel)>, key: Seq<char>) -> Option<JsonModel>
    decreases entries.len(),
{
    if entries.len() == 0 {
        None
    } else if entries[0].0 == key {
        Some(entries[0].1)
    } else {
        member(entries.drop_first(), key)
    }
}

/// The member `key` of an object; `None` also where `j` is no object.
pub open spec fn field(j: JsonModel, key: Seq<char>) -> Option<JsonModel> {
    match j {
        JsonModel::Object(entries) => member(entries, key),
        _ => None,
    }
}

/// The strings of an array that holds strings only.
pub open spec fn string_list(j: JsonModel) -> Option<Seq<Seq<char>>> {
    match j {
        JsonModel::Array(items) => if all_strings(items) {
            Some(items.map_values(|x: JsonModel| x->Str_0))
        } else {
            None
        },
        _ => None,
    }
}

pub open spec fn all_strings(items: Seq<JsonModel>) -> bool {
    forall|i: int| 0 <= i < items.len() ==> (#[trigger] items[i]) is Str
}

/// The string that a value is, where it is one.
pub open spec fn string_value(j: Option<JsonModel>) -> Option<Seq<char>> {
    match j {
        Some(JsonModel::Str(s)) => Some(s),
        _ => None,
    }
}

impl Json {
    /// The member `key` of this object.
    pub fn get(&self, key: &str) -> (r: Option<&Json>)
        ensures
            r is None <==> field(self@, key@) is None,
            r matches Some(x) ==> field(self@, key@) == Some(x@),
    {
        match self {
            Json::Object(names, values) => {
                let ghost es = self@->Object_0;
                let n = if names.len() <= values.len() {
                    names.len()
                } else {
                    values.len()
                };
                assert(es.subrange(0, es.len() as int) =~= es);
                let k = key.to_owned();
                let mut i: usize = 0;
                while i < n
                    invariant
                        i <= n,
                        n <= names@.len(),
                        n <= values@.len(),
                        es.len() == n,
                        self@ == JsonModel::Object(es),
                        forall|j: int| 0 <= j < n ==> #[trigger] es[j] == (names@[j]@, values@[j]@),
                        k@ == key@,
                        member(es, key@) == member(es.subrange(i as int, es.len() as int), key@),
                    decreases n - i,
                {
                    assert(es.subrange(i as int, es.len() as int).drop_first() =~= es.subrange(i + 1, es.len() as int));
                    if names[i] == k {
                        assert(es.subrange(i as int, es.len() as int)[0] == es[i as int]);
                        assert(member(es, key@) == Some(values@[i as int]@));
                        return Some(&values[i]);
                    }
                    i = i + 1;
                }
                None
            },
            _ => None,
        }
    }

    /// The string that this value is.
    pub fn as_str(&self) -> (r: Option<&String>)
        ensures
            r is None <==> string_value(Some(self@)) is None,
            r matches Some(s) ==> string_value(Some(self@)) == Some(s@),
    {
        match self {
            Json::Str(s) => Some(s),
            _ => None,
        }
    }

    /// The strings of this array, where it holds strings only.
    pub fn as_string_list(&self) -> (r: Option<Vec<String>>)
        ensures
            r is None <==> string_list(self@) is None,
            r matches Some(v) ==> string_list(self@) == Some(strs_view(v@)),
    {
        match self {
            Json::Array(items) => {
                let ghost its = self@->Array_0;
                let mut out: Vec<String> = Vec::new();
                let mut i: usize = 0;
                while i < items.len()
                    invariant
                        i <= items@.len(),
                        its.len() == items@.len(),
                        self@ == JsonModel::Array(its),
                        forall|j: int| 0 <= j < items@.len() ==> #[trigger] its[j] == items@[j]@,
                        out@.len() == i,
                        forall|j: int| 0 <= j < i ==> (#[trigger] its[j]) is Str && its[j]->Str_0 == out@[j]@,
                    decreases items@.len() - i,
                {
                    match &items[i] {
                        Json::Str(s) => {
                            out.push(s.clone());
                        },
                        _ => {
                            assert(!(its[i as int] is Str));
                            assert(!all_strings(its));
                            return None;
                        },
                    }
                    i = i + 1;
                }
                assert(strs_view(out@) =~= its.map_values(|x: JsonModel| x->Str_0));
                Some(out)
            },
            _ => None,
        }
    }
}

} // verus!
