use vstd::prelude::*;
use crate::json::{items_model, members_model, Json, JsonModel};

verus! {

#[verifier::external_type_specification]
#[verifier::external_body]
pub struct ExSerdeJsonValue(serde_json::Value);

/// The text that serde_json's pretty printer writes for a document, or `None`
/// when it reports an error. A repeated member name keeps the value of its
/// last occurrence, as a `serde_json::Map` insertion does.
pub uninterp spec fn pretty_json_text(doc: JsonModel) -> Option<Seq<char>>;

/// A `serde_json::Value` together with the document it encodes. Values are
/// made only by the constructors below, each of which builds the
/// `serde_json::Value` that corresponds to its document.
pub struct SerdeJson {
    value: serde_json::Value,
    doc: Ghost<JsonModel>,
}

impl SerdeJson {
    /// The document this value encodes.
    pub closed spec fn doc(&self) -> JsonModel {
        self.doc@
    }
}

/// The documents encoded by a sequence of values.
pub open spec fn serde_items(items: Seq<SerdeJson>) -> Seq<JsonModel> {
    items.map_values(|v: SerdeJson| v.doc())
}

/// The names and documents of a sequence of object members.
pub open spec fn serde_members(members: Seq<(String, SerdeJson)>) -> Seq<(Seq<char>, JsonModel)> {
    members.map_values(|m: (String, SerdeJson)| (m.0@, m.1.doc()))
}

/// serde_json's `Value::Bool`: the JSON boolean `b`.
#[verifier::external_body]
fn serde_bool(b: bool) -> (v: SerdeJson)
    ensures
        v.doc() == JsonModel::Bool(b),
{
    SerdeJson { value: serde_json::Value::Bool(b), doc: Ghost(JsonModel::Bool(b)) }
}

/// serde_json's `Value::from(u64)`: the JSON number `n`.
#[verifier::external_body]
fn serde_int(n: u64) -> (v: SerdeJson)
    ensures
        v.doc() == JsonModel::Int(n as int),
{
    SerdeJson { value: serde_json::Value::from(n), doc: Ghost(JsonModel::Int(n as int)) }
}

/// serde_json's `Value::String`: the JSON string holding `s`.
#[verifier::external_body]
fn serde_string(s: String) -> (v: SerdeJson)
    ensures
        v.doc() == JsonModel::Str(s@),
{
    let ghost text = s@;
    SerdeJson { value: serde_json::Value::String(s), doc: Ghost(JsonModel::Str(text)) }
}

/// serde_json's `Value::Array`: the JSON array of the given values, in order.
#[verifier::external_body]
fn serde_array(items: Vec<SerdeJson>) -> (v: SerdeJson)
    ensures
        v.doc() == JsonModel::Array(serde_items(items@)),
{
    let ghost docs = serde_items(items@);
    let values: Vec<serde_json::Value> = items.into_iter().map(|item| item.value).collect();
    SerdeJson { value: serde_json::Value::Array(values), doc: Ghost(JsonModel::Array(docs)) }
}

/// serde_json's `Value::Object`, with the members collected into a
/// `serde_json::Map`: the JSON object of the given members.
#[verifier::external_body]
fn serde_object(members: Vec<(String, SerdeJson)>) -> (v: SerdeJson)
    ensures
        v.doc() == JsonModel::Object(serde_members(members@)),
{
    let ghost docs = serde_members(members@);
    let map: serde_json::Map<String, serde_json::Value> =
        members.into_iter().map(|(name, member)| (name, member.value)).collect();
    SerdeJson { value: serde_json::Value::Object(map), doc: Ghost(JsonModel::Object(docs)) }
}

/// serde_json's `to_string_pretty` on the value: its pretty-printed text, or
/// `None` when serde_json reports an error.
#[verifier::external_body]
fn serde_to_string_pretty(v: &SerdeJson) -> (text: Option<String>)
    ensures
        match text {
            Some(t) => pretty_json_text(v.doc()) == Some(t@),
            None => pretty_json_text(v.doc()) is None,
        },
{
    serde_json::to_string_pretty(&v.value).ok()
}


/// The serde_json value of a document.
pub fn to_serde(doc: &Json) -> (v: SerdeJson)
    ensures
        v.doc() == doc.model(),
    decreases doc,
{
    match doc {
        Json::Bool(b) => serde_bool(*b),
        Json::Int(n) => serde_int(*n),
        Json::Str(s) => serde_string(s.clone()),
        Json::Array(items) => {
            let mut values: Vec<SerdeJson> = Vec::new();
            let mut i: usize = 0;
            while i < items.len()
                invariant
                    i <= items@.len(),
                    serde_items(values@) == items_model(items@.take(i as int)),
                    *doc == Json::Array(*items),
                decreases items@.len() - i,
            {
                assert(decreases_to!(*doc => (*doc)->Array_0));
                assert(decreases_to!(*items => items@));
                assert(decreases_to!(items@ => items@[i as int]));
                assert(decreases_to!(*doc => items@[i as int]));
                let v = to_serde(&items[i]);
                let ghost before = values@;
                values.push(v);
                assert(items@.take(i + 1).drop_last() =~= items@.take(i as int));
                assert(serde_items(values@) =~= serde_items(before).push(v.doc()));
                i = i + 1;
            }
            assert(items@.take(items@.len() as int) =~= items@);
            serde_array(values)
        },
        Json::Object(members) => {
            let mut values: Vec<(String, SerdeJson)> = Vec::new();
            let mut i: usize = 0;
            while i < members.len()
                invariant
                    i <= members@.len(),
                    serde_members(values@) == members_model(members@.take(i as int)),
                    *doc == Json::Object(*members),
                decreases members@.len() - i,
            {
                assert(decreases_to!(*doc => (*doc)->Object_0));
                assert(decreases_to!(*members => members@));
                assert(decreases_to!(members@ => members@[i as int]));
                assert(decreases_to!(members@[i as int] => members@[i as int].1));
                assert(decreases_to!(*doc => members@[i as int].1));
                let (name, member) = &members[i];
                let v = to_serde(member);
                let ghost before = values@;
                values.push((name.clone(), v));
                assert(members@.take(i + 1).drop_last() =~= members@.take(i as int));
                assert(serde_members(values@) =~= serde_members(before).push((name@, v.doc())));
                i = i + 1;
            }
            assert(members@.take(members@.len() as int) =~= members@);
            serde_object(values)
        },
    }
}

/// What a settings file holds for a document: serde_json's pretty-printed
/// text followed by a newline, or `{}` and a newline when serde_json reports
/// an error.
pub open spec fn settings_file_text(doc: JsonModel) -> Seq<char> {
    match pretty_json_text(doc) {
        Some(t) => t + "\n"@,
        None => "{}"@ + "\n"@,
    }
}

/// The text of a settings file for a document.
pub fn render_settings(doc: &Json) -> (text: String)
    ensures
        text@ == settings_file_text(doc.model()),
{
    let mut text = match serde_to_string_pretty(&to_serde(doc)) {
        Some(t) => t,
        None => String::from_str("{}"),
    };
    text.append("\n");
    text
}

} // verus!
