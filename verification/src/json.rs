//! JSON, as the `serde_json` crate reads and writes it.
use serde_json::Value;
use vstd::prelude::*;

verus! {

/// The JSON value of `serde_json`.
#[verifier::external_type_specification]
#[verifier::external_body]
pub struct ExValue(serde_json::Value);

/// The error of `serde_json`.
#[verifier::external_type_specification]
#[verifier::external_body]
pub struct ExError(serde_json::Error);

/// What can be told of a JSON value here.
pub enum Json {
    /// A string.
    Text(Seq<char>),
    /// `true` or `false`.
    Flag(bool),
    /// A whole number of at most 64 bits that is not negative.
    Count(u64),
    /// A negative whole number of at most 64 bits.
    Negative(i64),
    /// Any other number. Its value is not told: it may lose its last digits when it is written
    /// down and read again.
    Fraction,
    /// `null`.
    Null,
    /// A list with its items.
    List(Seq<Json>),
    /// An object with its members.
    Object(Map<Seq<char>, Json>),
}

/// How deep `serde_json` follows arrays and objects into each other.
pub const NESTING_MAX: usize = 127;

/// The content of a value.
pub uninterp spec fn json_of(v: Value) -> Json;

/// How deep arrays and objects lie in each other in a value.
pub uninterp spec fn nesting(v: Value) -> nat;

/// The text that an error prints as.
pub uninterp spec fn message(e: serde_json::Error) -> Seq<char>;

/// What `serde_json::from_str` reads from a text, or the message of its error.
pub uninterp spec fn parsed(text: Seq<char>) -> Result<Json, Seq<char>>;

/// `serde_json::from_str` into a `Value`. It gives up on text that is nested too deep.
#[verifier::external_body]
pub(crate) fn parse_json(text: &str) -> (r: Result<Value, serde_json::Error>)
    ensures
        match r {
            Ok(v) => parsed(text@) == Ok::<Json, Seq<char>>(json_of(v)) && nesting(v)
                <= NESTING_MAX,
            Err(e) => parsed(text@) == Err::<Json, Seq<char>>(message(e)),
        },
{
    serde_json::from_str(text)
}

/// `to_string` of a `serde_json::Error`.
#[verifier::external_body]
pub(crate) fn error_message(e: &serde_json::Error) -> (s: String)
    ensures
        s@ == message(*e),
{
    e.to_string()
}

/// `serde_json::to_string` of a `Value`. The text is one line, that of an object stands in braces,
/// and reading it gives the content of the value again. Which of the texts with that content it
/// is, is left unsaid.
#[verifier::external_body]
pub(crate) fn print_json(v: &Value) -> (r: Result<String, serde_json::Error>)
    requires
        nesting(*v) <= NESTING_MAX,
    ensures
        r is Ok,
        r matches Ok(s) ==> {
            &&& parsed(s@) == Ok::<Json, Seq<char>>(json_of(*v))
            &&& !s@.contains('\n')
            &&& json_of(*v) is Object ==> s@.len() >= 2 && s@[0] == '{' && s@.last() == '}'
        },
{
    serde_json::to_string(v)
}

/// `Value::get` with a key: the member of an object. What is not an object has no members.
#[verifier::external_body]
pub(crate) fn member<'a>(v: &'a Value, key: &str) -> (r: Option<&'a Value>)
    ensures
        match r {
            Some(m) => json_of(*v) matches Json::Object(members) && members.contains_key(key@)
                && json_of(*m) == members[key@],
            None => json_of(*v) matches Json::Object(members) ==> !members.contains_key(key@),
        },
{
    v.get(key)
}

/// `Value::as_str`: the text of a string, and nothing for anything else.
#[verifier::external_body]
pub(crate) fn as_text<'a>(v: &'a Value) -> (r: Option<&'a str>)
    ensures
        match r {
            Some(s) => json_of(*v) == Json::Text(s@),
            None => !(json_of(*v) is Text),
        },
{
    v.as_str()
}

/// `Value::Object` of `serde_json::Map::new`: an object without members.
#[verifier::external_body]
pub(crate) fn empty_object() -> (v: Value)
    ensures
        json_of(v) == Json::Object(Map::empty()),
        nesting(v) == 1,
{
    Value::Object(serde_json::Map::new())
}

/// A value for a member.
#[derive(Debug)]
pub enum Scalar {
    Text(String),
    Flag(bool),
    Count(u64),
}

impl View for Scalar {
    type V = Json;

    open spec fn view(&self) -> Json {
        match self {
            Scalar::Text(s) => Json::Text(s@),
            Scalar::Flag(b) => Json::Flag(*b),
            Scalar::Count(n) => Json::Count(*n),
        }
    }
}

/// `Value::as_object_mut` and `serde_json::Map::insert`: the member of an object with this key is
/// replaced, or there is one more. What is not an object stays as it is.
#[verifier::external_body]
pub(crate) fn set_member(v: &mut Value, key: &str, value: Scalar) -> (ok: bool)
    ensures
        ok <==> json_of(*old(v)) is Object,
        nesting(*final(v)) <= nesting(*old(v)),
        json_of(*final(v)) == (match json_of(*old(v)) {
            Json::Object(members) => Json::Object(members.insert(key@, value@)),
            other => other,
        }),
{
    let value = match value {
        Scalar::Text(s) => Value::String(s),
        Scalar::Flag(b) => Value::Bool(b),
        Scalar::Count(n) => Value::Number(n.into()),
    };
    match v.as_object_mut() {
        Some(members) => {
            members.insert(key.to_string(), value);
            true
        },
        None => false,
    }
}

} // verus!
