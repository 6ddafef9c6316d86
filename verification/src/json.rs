//! JSON documents, and what the library reads of them.
//!
//! A document stays a `serde_json::Value` throughout. The library never looks
//! inside one itself: it asks for one member by name and decides on the plain
//! values it gets back.
use vstd::prelude::*;

verus! {

#[verifier::external_type_specification]
#[verifier::external_body]
pub struct ExJsonValue(serde_json::Value);

/// A real number, kept as its IEEE 754 binary64 encoding. The library hands
/// such numbers on and compares them; it does no arithmetic on them.
#[derive(Clone, Copy, Debug, PartialEq, Eq, Structural)]
pub struct Real {
    pub bits: u64,
}

/// One member of a JSON object, as far as the library reads it.
#[derive(Debug)]
pub enum Member {
    /// A JSON string.
    Text(String),
    /// A JSON number: its JSON text, its value as a signed integer where it
    /// has one, and its value as a binary64 number.
    Number { text: String, integer: Option<i64>, float: Option<Real> },
    /// Null, a boolean, an array or an object.
    Other,
}

pub enum MemberView {
    Text(Seq<char>),
    Number { text: Seq<char>, integer: Option<i64>, float: Option<Real> },
    Other,
}

impl View for Member {
    type V = MemberView;

    open spec fn view(&self) -> MemberView {
        match self {
            Member::Text(s) => MemberView::Text(s@),
            Member::Number { text, integer, float } => MemberView::Number {
                text: text@,
                integer: *integer,
                float: *float,
            },
            Member::Other => MemberView::Other,
        }
    }
}

/// The members of a document by name. A document that is no JSON object has
/// none.
pub uninterp spec fn members(doc: serde_json::Value) -> Map<Seq<char>, MemberView>;

/// The elements of the array that a document holds under a name; `None` where
/// the document has no such member or the member is no array.
pub uninterp spec fn array_items(doc: serde_json::Value, key: Seq<char>) -> Option<
    Seq<serde_json::Value>,
>;

/// What a text holds as JSON: the document it denotes, or the parser's
/// complaint.
pub uninterp spec fn parsed_text(text: Seq<char>) -> Result<serde_json::Value, Seq<char>>;

/// The member of a document under a name, if there is one.
pub open spec fn lookup(doc: serde_json::Value, key: Seq<char>) -> Option<MemberView> {
    if members(doc).contains_key(key) {
        Some(members(doc)[key])
    } else {
        None
    }
}

/// `serde_json::Value::get` with a string index, the member found turned into
/// plain values: a string is cloned; a number is read with `Number`'s
/// `to_string`, `as_i64` and `as_f64`. The contract says that this is what
/// `members` holds under the name.
#[verifier::external_body]
pub(crate) fn member(doc: &serde_json::Value, key: &str) -> (r: Option<Member>)
    ensures
        r.is_some() == members(*doc).contains_key(key@),
        r.is_some() ==> r.unwrap()@ == members(*doc)[key@],
{
    match doc.get(key)? {
        serde_json::Value::String(s) => Some(Member::Text(s.clone())),
        serde_json::Value::Number(n) => Some(
            Member::Number {
                text: n.to_string(),
                integer: n.as_i64(),
                float: n.as_f64().map(|x| Real { bits: x.to_bits() }),
            },
        ),
        serde_json::Value::Null => Some(Member::Other),
        serde_json::Value::Bool(_) => Some(Member::Other),
        serde_json::Value::Array(_) => Some(Member::Other),
        serde_json::Value::Object(_) => Some(Member::Other),
    }
}

/// `serde_json::Value::get` with a string index, then `as_array`, the array
/// cloned. The contract says that these are the elements that `array_items`
/// names.
#[verifier::external_body]
pub(crate) fn array_member(doc: &serde_json::Value, key: &str) -> (r: Option<
    Vec<serde_json::Value>,
>)
    ensures
        r.is_some() == array_items(*doc, key@).is_some(),
        r.is_some() ==> r.unwrap()@ == array_items(*doc, key@).unwrap(),
{
    doc.get(key)?.as_array().cloned()
}

/// `serde_json::from_str` into a `Value`. The contract names what the text
/// holds: on success the document, on failure the error as `serde_json`
/// prints it.
#[verifier::external_body]
pub(crate) fn parse_document(text: &str) -> (r: Result<serde_json::Value, String>)
    ensures
        match r {
            Ok(doc) => parsed_text(text@) == Ok::<serde_json::Value, Seq<char>>(doc),
            Err(e) => parsed_text(text@) == Err::<serde_json::Value, Seq<char>>(e@),
        },
{
    match serde_json::from_str::<serde_json::Value>(text) {
        Ok(doc) => Ok(doc),
        Err(e) => Err(e.to_string()),
    }
}

pub assume_specification[ <serde_json::Value as Clone>::clone ](
    doc: &serde_json::Value,
) -> (r: serde_json::Value)
    ensures
        r == *doc,
;

} // verus!
