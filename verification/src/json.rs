use vstd::prelude::*;

verus! {

/// A JSON object, as serde_json holds it.
#[verifier::external_type_specification]
#[verifier::external_body]
#[verifier::reject_recursive_types(K)]
#[verifier::reject_recursive_types(V)]
pub struct ExJsonObject<K, V>(serde_json::Map<K, V>);

/// A JSON value, as serde_json holds it.
#[verifier::external_type_specification]
#[verifier::external_body]
pub struct ExJsonValue(serde_json::Value);

/// All the keys of a JSON object.
pub uninterp spec fn object_keys(object: serde_json::Map<String, serde_json::Value>) -> Set<
    Seq<char>,
>;

/// All the keys of a JSON value that is an object.
pub uninterp spec fn value_keys(value: serde_json::Value) -> Set<Seq<char>>;

/// The keys of a JSON object under which the value `true` stands.
pub uninterp spec fn object_words(object: serde_json::Map<String, serde_json::Value>) -> Set<
    Seq<char>,
>;

/// The entries of a JSON object whose value is a string, each key with its
/// string.
pub uninterp spec fn object_texts(object: serde_json::Map<String, serde_json::Value>) -> Map<
    Seq<char>,
    Seq<char>,
>;

/// The keys under which the value `true` stands in a JSON value that is an
/// object.
pub uninterp spec fn present_words(value: serde_json::Value) -> Set<Seq<char>>;

/// No entries at all.
pub open spec fn no_texts() -> Map<Seq<char>, Seq<char>> {
    Map::empty()
}

/// Calls `Map::new` of serde_json: an object without entries.
#[verifier::external_body]
pub(crate) fn empty_object() -> (object: serde_json::Map<String, serde_json::Value>)
    ensures
        object_keys(object) == Set::<Seq<char>>::empty(),
        object_words(object) == Set::<Seq<char>>::empty(),
        object_texts(object) == no_texts(),
{
    serde_json::Map::new()
}

/// Calls `Map::insert` of serde_json with the value `true`: the key is then
/// a key of the object and stands for `true`, whatever stood under it, and
/// no other entry changes.
#[verifier::external_body]
pub(crate) fn mark_present(object: &mut serde_json::Map<String, serde_json::Value>, word: String)
    ensures
        object_keys(*final(object)) == object_keys(*old(object)).insert(word@),
        object_words(*final(object)) == object_words(*old(object)).insert(word@),
{
    object.insert(word, serde_json::Value::Bool(true));
}

/// Calls `Map::insert` of serde_json with a string value: the key then
/// stands for that string, whatever stood under it, and no other entry
/// changes.
#[verifier::external_body]
pub(crate) fn set_text(
    object: &mut serde_json::Map<String, serde_json::Value>,
    key: String,
    text: String,
)
    ensures
        object_texts(*final(object)) == object_texts(*old(object)).insert(key@, text@),
{
    object.insert(key, serde_json::Value::String(text));
}

/// Wraps an object as `Value::Object` of serde_json, keys and values as
/// they are.
#[verifier::external_body]
pub(crate) fn object_value(object: serde_json::Map<String, serde_json::Value>) -> (value:
    serde_json::Value)
    ensures
        value_keys(value) == object_keys(object),
        present_words(value) == object_words(object),
{
    serde_json::Value::Object(object)
}

} // verus!
