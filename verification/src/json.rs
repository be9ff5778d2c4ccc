//! JSON documents as the proxy reads them: a mathematical tree that stands for
//! a `serde_json::Value`, the `serde_json` calls the proxy makes, and a few
//! accessors built from them.

use vstd::prelude::*;

verus! {

/// What a JSON number offers to the proxy.
pub struct JsonNumber {
    /// The number as a signed 64-bit integer, where it is one.
    pub integer: Option<i64>,
    /// The number as it is written when the document is serialised.
    pub repr: Seq<char>,
}

/// The mathematical content of a JSON document.
pub enum JsonTree {
    Null,
    Bool(bool),
    Number(JsonNumber),
    Text(Seq<char>),
    Array(Seq<JsonTree>),
    Object(Map<Seq<char>, JsonTree>),
}

impl JsonTree {
    /// The member stored under `key`, if this is an object that has one.
    pub open spec fn member(self, key: Seq<char>) -> Option<JsonTree> {
        match self {
            JsonTree::Object(m) => if m.dom().contains(key) {
                Some(m[key])
            } else {
                None
            },
            _ => None,
        }
    }

    /// The text of this node, if it is a string.
    pub open spec fn text(self) -> Option<Seq<char>> {
        match self {
            JsonTree::Text(s) => Some(s),
            _ => None,
        }
    }

    /// The integer value of this node, if it is a number that fits `i64`.
    pub open spec fn integer(self) -> Option<i64> {
        match self {
            JsonTree::Number(n) => n.integer,
            _ => None,
        }
    }

    /// The elements of this node, if it is an array.
    pub open spec fn items(self) -> Option<Seq<JsonTree>> {
        match self {
            JsonTree::Array(a) => Some(a),
            _ => None,
        }
    }

    /// The text stored under `key`, if there is a member and it is a string.
    pub open spec fn text_at(self, key: Seq<char>) -> Option<Seq<char>> {
        match self.member(key) {
            Some(m) => m.text(),
            None => None,
        }
    }

    /// The integer stored under `key`, if there is a member and it is one.
    pub open spec fn integer_at(self, key: Seq<char>) -> Option<i64> {
        match self.member(key) {
            Some(m) => m.integer(),
            None => None,
        }
    }

    /// The integer stored under `key`, or else the one stored under `other`.
    pub open spec fn integer_at_either(self, key: Seq<char>, other: Seq<char>) -> Option<i64> {
        match self.integer_at(key) {
            Some(n) => Some(n),
            None => self.integer_at(other),
        }
    }

    /// True for an object or `null`: the nodes in which a member can be set.
    pub open spec fn takes_members(self) -> bool {
        self is Object || self is Null
    }

    /// This node with `value` stored under `key`. `null` becomes an object
    /// with that one member.
    pub open spec fn with_member(self, key: Seq<char>, value: JsonTree) -> JsonTree {
        match self {
            JsonTree::Object(m) => JsonTree::Object(m.insert(key, value)),
            _ => JsonTree::Object(Map::<Seq<char>, JsonTree>::empty().insert(key, value)),
        }
    }
}

#[verifier::external_type_specification]
#[verifier::external_body]
pub struct ExValue(serde_json::Value);

/// The tree that a `serde_json::Value` holds.
pub uninterp spec fn json_tree(v: &serde_json::Value) -> JsonTree;

/// The tree that `serde_json::from_str` reads from a text, if it accepts it.
pub uninterp spec fn json_parse(text: Seq<char>) -> Option<JsonTree>;

/// The text that `serde_json::to_string` writes for a tree.
pub uninterp spec fn json_text(tree: JsonTree) -> Seq<char>;

/// `serde_json::from_str` for a `Value`: the result holds the tree that the
/// text denotes, and there is none when the text is not JSON.
#[verifier::external_body]
pub(crate) fn parse_value(text: &str) -> (r: Option<serde_json::Value>)
    ensures
        match r {
            Some(v) => json_parse(text@) == Some(json_tree(&v)),
            None => json_parse(text@) is None,
        },
{
    serde_json::from_str(text).ok()
}

/// `serde_json::to_string` of a `Value`: a value is written into memory,
/// where nothing can fail, so there is always a text, and it depends on the
/// tree alone.
#[verifier::external_body]
pub(crate) fn value_to_text(v: &serde_json::Value) -> (r: Option<String>)
    ensures
        r is Some,
        r matches Some(s) ==> s@ == json_text(json_tree(v)),
{
    serde_json::to_string(v).ok()
}

/// `Value::get` with a string key: the member of an object, `None` for a
/// missing key or a value that is not an object.
#[verifier::external_body]
pub(crate) fn value_get<'a>(v: &'a serde_json::Value, key: &str) -> (r: Option<
    &'a serde_json::Value,
>)
    ensures
        match r {
            Some(m) => json_tree(v).member(key@) == Some(json_tree(m)),
            None => json_tree(v).member(key@) is None,
        },
{
    v.get(key)
}

/// `Value::as_str`: the text of a string value.
#[verifier::external_body]
pub(crate) fn value_as_str<'a>(v: &'a serde_json::Value) -> (r: Option<&'a str>)
    ensures
        match r {
            Some(s) => json_tree(v).text() == Some(s@),
            None => json_tree(v).text() is None,
        },
{
    v.as_str()
}

/// `Value::as_i64`: the integer of a number that fits `i64`.
#[verifier::external_body]
pub(crate) fn value_as_i64(v: &serde_json::Value) -> (r: Option<i64>)
    ensures
        r == json_tree(v).integer(),
{
    v.as_i64()
}

/// `Value::as_array`: the elements of an array value, in order.
#[verifier::external_body]
pub(crate) fn value_as_array<'a>(v: &'a serde_json::Value) -> (r: Option<
    &'a Vec<serde_json::Value>,
>)
    ensures
        match r {
            Some(a) => json_tree(v).items() == Some(trees_of(a@)),
            None => json_tree(v).items() is None,
        },
{
    v.as_array()
}

/// `Value::is_object`.
#[verifier::external_body]
pub(crate) fn value_is_object(v: &serde_json::Value) -> (r: bool)
    ensures
        r == (json_tree(v) is Object),
{
    v.is_object()
}

/// `Value::is_null`.
#[verifier::external_body]
pub(crate) fn value_is_null(v: &serde_json::Value) -> (r: bool)
    ensures
        r == (json_tree(v) is Null),
{
    v.is_null()
}

/// Assignment through `Value`'s string index, `v[key] = Value::String(..)`:
/// stores a string member in an object, turning `null` into an object first.
/// On any other value the index panics, so those are left out.
#[verifier::external_body]
pub(crate) fn value_set_text(v: &mut serde_json::Value, key: &str, text: &str)
    requires
        json_tree(old(v)).takes_members(),
    ensures
        json_tree(final(v)) == json_tree(old(v)).with_member(key@, JsonTree::Text(text@)),
{
    v[key] = serde_json::Value::String(text.to_string());
}

/// The trees of a list of values, in order.
pub open spec fn trees_of(values: Seq<serde_json::Value>) -> Seq<JsonTree> {
    Seq::new(values.len(), |i: int| json_tree(&values[i]))
}

/// The text stored under `key`.
pub fn text_at<'a>(v: &'a serde_json::Value, key: &str) -> (r: Option<&'a str>)
    ensures
        match r {
            Some(s) => json_tree(v).text_at(key@) == Some(s@),
            None => json_tree(v).text_at(key@) is None,
        },
{
    match value_get(v, key) {
        Some(m) => value_as_str(m),
        None => None,
    }
}

/// The integer stored under `key`.
pub fn integer_at(v: &serde_json::Value, key: &str) -> (r: Option<i64>)
    ensures
        r == json_tree(v).integer_at(key@),
{
    match value_get(v, key) {
        Some(m) => value_as_i64(m),
        None => None,
    }
}

/// The integer stored under `key`, or else the one stored under `other`.
pub fn integer_at_either(v: &serde_json::Value, key: &str, other: &str) -> (r: Option<i64>)
    ensures
        r == json_tree(v).integer_at_either(key@, other@),
{
    match integer_at(v, key) {
        Some(n) => Some(n),
        None => integer_at(v, other),
    }
}

} // verus!
