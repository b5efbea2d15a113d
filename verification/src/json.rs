use vstd::prelude::*;

verus! {

/// A JSON document, as the renderers build it. Object members keep the order
/// in which they were added; a later member with the same name replaces an
/// earlier one when the document is written out.
#[derive(Debug)]
pub enum Json {
    Bool(bool),
    Int(u64),
    Str(String),
    Array(Vec<Json>),
    Object(Vec<(String, Json)>),
}

/// The mathematical value of a JSON document.
pub enum JsonModel {
    Bool(bool),
    Int(int),
    Str(Seq<char>),
    Array(Seq<JsonModel>),
    Object(Seq<(Seq<char>, JsonModel)>),
}

impl Json {
    /// The value this document denotes.
    pub open spec fn model(self) -> JsonModel
        decreases self,
    {
        match self {
            Json::Bool(b) => JsonModel::Bool(b),
            Json::Int(n) => JsonModel::Int(n as int),
            Json::Str(s) => JsonModel::Str(s@),
            Json::Array(items) => JsonModel::Array(items_model(items@)),
            Json::Object(members) => JsonModel::Object(members_model(members@)),
        }
    }
}

/// The values of a sequence of documents.
pub open spec fn items_model(items: Seq<Json>) -> Seq<JsonModel>
    decreases items,
{
    if items.len() == 0 {
        Seq::empty()
    } else {
        items_model(items.drop_last()).push(items.last().model())
    }
}

/// The names and values of a sequence of object members.
pub open spec fn members_model(members: Seq<(String, Json)>) -> Seq<(Seq<char>, JsonModel)>
    decreases members,
{
    if members.len() == 0 {
        Seq::empty()
    } else {
        members_model(members.drop_last()).push((members.last().0@, members.last().1.model()))
    }
}

/// A JSON string holding the characters of `s`.
pub fn json_str(s: &str) -> (j: Json)
    ensures
        j.model() == JsonModel::Str(s@),
{
    Json::Str(String::from_str(s))
}

/// Adds a member at the end of an object under construction.
pub fn push_member(members: &mut Vec<(String, Json)>, name: &str, value: Json)
    ensures
        members_model(final(members)@) == members_model(old(members)@).push((name@, value.model())),
{
    members.push((String::from_str(name), value));
    assert(final(members)@.drop_last() =~= old(members)@);
}

/// Adds an element at the end of an array under construction.
pub fn push_item(items: &mut Vec<Json>, value: Json)
    ensures
        items_model(final(items)@) == items_model(old(items)@).push(value.model()),
{
    items.push(value);
    assert(final(items)@.drop_last() =~= old(items)@);
}

} // verus!
