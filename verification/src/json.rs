//! JSON documents, built and rendered by `serde_json`.

use serde_json::Value;
use vstd::prelude::*;

verus! {

/// A JSON document.
pub enum Json {
    Null,
    Number(nat),
    Text(Seq<char>),
    List(Seq<Json>),
    Object(Map<Seq<char>, Json>),
    /// What this library builds none of, by its text: a boolean, a fraction, a negative number.
    Other(Seq<char>),
}

/// The members of an object by their keys.
pub open spec fn members_of(members: Seq<(Seq<char>, Json)>) -> Map<Seq<char>, Json>
    decreases members.len(),
{
    if members.len() == 0 {
        Map::empty()
    } else {
        members_of(members.drop_last()).insert(members.last().0, members.last().1)
    }
}

/// No two members have the same key.
pub open spec fn keys_differ(members: Seq<(Seq<char>, Json)>) -> bool {
    forall|i: int, j: int| 0 <= i < j < members.len() ==> members[i].0 != members[j].0
}

/// The object with the given members.
pub open spec fn object(members: Seq<(Seq<char>, Json)>) -> Json {
    Json::Object(members_of(members))
}

/// `serde_json::Value`, a tree of nulls, numbers, strings, arrays and objects.
#[verifier::external_type_specification]
#[verifier::external_body]
pub struct ExValue(serde_json::Value);

/// The document that a `serde_json::Value` holds.
pub uninterp spec fn json_of(value: serde_json::Value) -> Json;

/// The text as which `serde_json` displays a document.
pub uninterp spec fn json_text(document: Json) -> Seq<char>;

/// The documents that the values hold.
pub open spec fn documents_of(values: Seq<serde_json::Value>) -> Seq<Json> {
    values.map_values(|v: serde_json::Value| json_of(v))
}

/// The keys and the documents that the values hold.
pub open spec fn pairs_of(members: Seq<(&str, serde_json::Value)>) -> Seq<(Seq<char>, Json)> {
    members.map_values(|m: (&str, serde_json::Value)| (m.0@, json_of(m.1)))
}

/// `serde_json::Value::from` for `()`: the null value.
#[verifier::external_body]
pub(crate) fn null() -> (value: Value)
    ensures
        json_of(value) == Json::Null,
{
    Value::from(())
}

/// `serde_json::Value::from` for `u64`: that number.
#[verifier::external_body]
pub(crate) fn number(n: u64) -> (value: Value)
    ensures
        json_of(value) == Json::Number(n as nat),
{
    Value::from(n)
}

/// `serde_json::Value::from` for `&str`: that string.
#[verifier::external_body]
pub(crate) fn text(s: &str) -> (value: Value)
    ensures
        json_of(value) == Json::Text(s@),
{
    Value::from(s)
}

/// `serde_json::Value::from` for `Vec`: the array of those values, in order.
#[verifier::external_body]
pub(crate) fn list(items: Vec<Value>) -> (value: Value)
    ensures
        json_of(value) == Json::List(documents_of(items@)),
{
    Value::from(items)
}

/// `serde_json::Value::from_iter` for pairs of different keys: the object with those members.
#[verifier::external_body]
pub(crate) fn keyed(members: Vec<(&str, Value)>) -> (value: Value)
    requires
        keys_differ(pairs_of(members@)),
    ensures
        json_of(value) == object(pairs_of(members@)),
{
    Value::from_iter(members)
}

/// `serde_json::Value::to_string`: the text of the document. It depends on nothing else, the
/// members of an object being kept in the order of their keys.
#[verifier::external_body]
pub(crate) fn render(value: &Value) -> (rendered: String)
    ensures
        rendered@ == json_text(json_of(*value)),
{
    value.to_string()
}

/// An object holds the members that it was made of, each under its key, and no others.
pub proof fn object_holds_its_members(members: Seq<(Seq<char>, Json)>)
    requires
        keys_differ(members),
    ensures
        object(members) matches Json::Object(held) && {
            &&& forall|i: int|
                0 <= i < members.len() ==> held.contains_key((#[trigger] members[i]).0)
                    && held[members[i].0] == members[i].1
            &&& forall|key: Seq<char>| #[trigger]
                held.contains_key(key) ==> exists|i: int|
                    0 <= i < members.len() && (#[trigger] members[i]).0 == key
        },
    decreases members.len(),
{
    if members.len() > 0 {
        let earlier = members.drop_last();
        object_holds_its_members(earlier);
        let held = members_of(members);
        assert forall|i: int| 0 <= i < members.len() implies held.contains_key(
            (#[trigger] members[i]).0,
        ) && held[members[i].0] == members[i].1 by {
            if i < earlier.len() {
                assert(earlier[i] == members[i]);
                assert(members[i].0 != members[members.len() - 1].0);
            }
        }
        assert forall|key: Seq<char>| #[trigger] held.contains_key(key) implies exists|i: int|
            0 <= i < members.len() && (#[trigger] members[i]).0 == key by {
            if key == members.last().0 {
                assert(members[members.len() - 1].0 == key);
            } else {
                assert(members_of(earlier).contains_key(key));
                let i = choose|i: int| 0 <= i < earlier.len() && (#[trigger] earlier[i]).0 == key;
                assert(members[i].0 == key);
            }
        }
    }
}

} // verus!
