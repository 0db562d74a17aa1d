//! JSON values as they come from the front-end and go back to it.

use vstd::prelude::*;

verus! {

/// A JSON document of `serde_json`, carried through as it is.
#[verifier::external_type_specification]
#[verifier::external_body]
pub struct ExJsonDocument(serde_json::Value);

/// A JSON number of `serde_json`, carried through as it is.
#[verifier::external_type_specification]
#[verifier::external_body]
pub struct ExJsonNumber(serde_json::Number);

/// A JSON value, seen as far as the database cares.
#[derive(Debug, PartialEq)]
pub enum Json {
    Null,
    Bool(bool),
    /// An integer that fits in 64 signed bits.
    Integer(i64),
    /// Any other number.
    Real(serde_json::Number),
    Text(String),
    /// An array or an object.
    Nested(serde_json::Value),
}

/// What a [`Json`] is, with its text as a sequence of characters.
#[verifier::ext_equal]
pub enum JsonView {
    Null,
    Bool(bool),
    Integer(i64),
    Real(serde_json::Number),
    Text(Seq<char>),
    Nested(serde_json::Value),
}

impl View for Json {
    type V = JsonView;

    open spec fn view(&self) -> JsonView {
        match self {
            Json::Null => JsonView::Null,
            Json::Bool(b) => JsonView::Bool(*b),
            Json::Integer(i) => JsonView::Integer(*i),
            Json::Real(n) => JsonView::Real(*n),
            Json::Text(s) => JsonView::Text(s@),
            Json::Nested(v) => JsonView::Nested(*v),
        }
    }
}

/// What `serde_json::from_str` makes of a text: the document, or the message
/// of its error.
pub uninterp spec fn parsed_json(text: Seq<char>) -> Result<serde_json::Value, Seq<char>>;

/// `serde_json::from_str` into a document, with the display of its error. The
/// result depends on the text alone; [`parsed_json`] names it.
#[verifier::external_body]
pub(crate) fn parse_json(text: &str) -> (r: Result<serde_json::Value, String>)
    ensures
        match r {
            Ok(v) => parsed_json(text@) == Ok::<serde_json::Value, Seq<char>>(v),
            Err(e) => parsed_json(text@) == Err::<serde_json::Value, Seq<char>>(e@),
        },
{
    serde_json::from_str(text).map_err(|e| e.to_string())
}

/// The text as which a document is displayed: its compact JSON.
pub uninterp spec fn json_display(v: serde_json::Value) -> Seq<char>;

/// The display of `serde_json::Value`, by `to_string`. It depends on the
/// document alone; [`json_display`] names it.
#[verifier::external_body]
pub(crate) fn json_text(v: &serde_json::Value) -> (r: String)
    ensures
        r@ == json_display(*v),
{
    v.to_string()
}

/// `serde_json::Value::clone`: the copy is the same document.
pub assume_specification[ <serde_json::Value as std::clone::Clone>::clone ](
    v: &serde_json::Value,
) -> (r: serde_json::Value)
    ensures
        r == *v,
;

/// The kind of a document, with what it holds.
#[derive(Debug, PartialEq)]
pub enum Kind {
    Null,
    Bool(bool),
    Number(serde_json::Number),
    Text(String),
    Array(Vec<serde_json::Value>),
    Object,
}

/// What a document holds, by its kind.
#[verifier::ext_equal]
pub enum KindView {
    Null,
    Bool(bool),
    Number(serde_json::Number),
    Text(Seq<char>),
    Array(Seq<serde_json::Value>),
    Object,
}

impl View for Kind {
    type V = KindView;

    open spec fn view(&self) -> KindView {
        match self {
            Kind::Null => KindView::Null,
            Kind::Bool(b) => KindView::Bool(*b),
            Kind::Number(n) => KindView::Number(*n),
            Kind::Text(s) => KindView::Text(s@),
            Kind::Array(list) => KindView::Array(list@),
            Kind::Object => KindView::Object,
        }
    }
}

/// The kind of a document.
pub uninterp spec fn json_kind(v: serde_json::Value) -> KindView;

/// The variants of `serde_json::Value`, told apart, with what they hold but for
/// the members of an object. The result depends on the document alone;
/// [`json_kind`] names it.
#[verifier::external_body]
pub(crate) fn kind_of(v: &serde_json::Value) -> (r: Kind)
    ensures
        r@ == json_kind(*v),
{
    match v {
        serde_json::Value::Null => Kind::Null,
        serde_json::Value::Bool(b) => Kind::Bool(*b),
        serde_json::Value::Number(n) => Kind::Number(n.clone()),
        serde_json::Value::String(s) => Kind::Text(s.clone()),
        serde_json::Value::Array(list) => Kind::Array(list.clone()),
        serde_json::Value::Object(_) => Kind::Object,
    }
}

/// The number as a 64-bit integer, where it is one.
pub uninterp spec fn number_as_integer(n: serde_json::Number) -> Option<i64>;

/// `serde_json::Number::as_i64`: the number, where it is an integer that fits in
/// 64 signed bits. The result depends on the number alone;
/// [`number_as_integer`] names it.
#[verifier::external_body]
pub(crate) fn integer_of(n: &serde_json::Number) -> (r: Option<i64>)
    ensures
        r == number_as_integer(*n),
{
    n.as_i64()
}

/// What a document is, seen as far as the database cares.
pub open spec fn seen_as(v: serde_json::Value) -> JsonView {
    match json_kind(v) {
        KindView::Null => JsonView::Null,
        KindView::Bool(b) => JsonView::Bool(b),
        KindView::Number(n) => match number_as_integer(n) {
            Some(i) => JsonView::Integer(i),
            None => JsonView::Real(n),
        },
        KindView::Text(s) => JsonView::Text(s),
        KindView::Array(_) => JsonView::Nested(v),
        KindView::Object => JsonView::Nested(v),
    }
}

/// Sees a document as far as the database cares.
pub fn classify(v: &serde_json::Value) -> (r: Json)
    ensures
        r@ == seen_as(*v),
{
    match kind_of(v) {
        Kind::Null => Json::Null,
        Kind::Bool(b) => Json::Bool(b),
        Kind::Number(n) => number_to_json(integer_of(&n), n),
        Kind::Text(s) => Json::Text(s),
        Kind::Array(_) => Json::Nested(v.clone()),
        Kind::Object => Json::Nested(v.clone()),
    }
}

/// A number, with the 64-bit integer that it is, where it is one.
pub fn number_to_json(integer: Option<i64>, number: serde_json::Number) -> (r: Json)
    ensures
        r@ == match integer {
            Some(i) => JsonView::Integer(i),
            None => JsonView::Real(number),
        },
{
    match integer {
        Some(i) => Json::Integer(i),
        None => Json::Real(number),
    }
}

/// The member that an object has under a name.
pub uninterp spec fn json_member(v: serde_json::Value, name: Seq<char>) -> Option<
    serde_json::Value,
>;

/// `serde_json::Value::get` with a name: the member that an object has under it;
/// `None` where the document is no object or has no such member. The result
/// depends on the document and the name alone; [`json_member`] names it.
#[verifier::external_body]
pub(crate) fn member_of(v: &serde_json::Value, name: &str) -> (r: Option<serde_json::Value>)
    ensures
        r == json_member(*v, name@),
{
    v.get(name).cloned()
}

/// The text that a document is, if it is one.
pub open spec fn text_of_kind(kind: KindView) -> Option<Seq<char>> {
    match kind {
        KindView::Text(s) => Some(s),
        _ => None,
    }
}

/// The elements that a document has, if it is an array.
pub open spec fn list_of_kind(kind: KindView) -> Option<Seq<serde_json::Value>> {
    match kind {
        KindView::Array(list) => Some(list),
        _ => None,
    }
}

/// The text that an object has under a name; `None` where there is no such
/// member, or it is no text.
pub open spec fn json_member_text(v: serde_json::Value, name: Seq<char>) -> Option<Seq<char>> {
    match json_member(v, name) {
        Some(member) => text_of_kind(json_kind(member)),
        None => None,
    }
}

/// The elements of the array that an object has under a name; `None` where there
/// is no such member, or it is no array.
pub open spec fn json_member_list(v: serde_json::Value, name: Seq<char>) -> Option<
    Seq<serde_json::Value>,
> {
    match json_member(v, name) {
        Some(member) => list_of_kind(json_kind(member)),
        None => None,
    }
}

/// The text that an object has under a name.
pub fn member_text(v: &serde_json::Value, name: &str) -> (r: Option<String>)
    ensures
        json_member_text(*v, name@) == match r {
            Some(s) => Some(s@),
            None => None,
        },
{
    match member_of(v, name) {
        Some(member) => match kind_of(&member) {
            Kind::Text(s) => Some(s),
            _ => None,
        },
        None => None,
    }
}

/// The elements of the array that an object has under a name.
pub fn member_list(v: &serde_json::Value, name: &str) -> (r: Option<Vec<serde_json::Value>>)
    ensures
        json_member_list(*v, name@) == match r {
            Some(list) => Some(list@),
            None => None,
        },
{
    match member_of(v, name) {
        Some(member) => match kind_of(&member) {
            Kind::Array(list) => Some(list),
            _ => None,
        },
        None => None,
    }
}

/// Fields over sequences.
pub open spec fn fields_of(fields: Seq<(String, Json)>) -> Seq<(Seq<char>, JsonView)> {
    fields.map_values(|f: (String, Json)| (f.0@, f.1@))
}

/// The object with these fields.
pub uninterp spec fn json_object(fields: Seq<(Seq<char>, JsonView)>) -> serde_json::Value;

/// `serde_json::Value::Object` over a `serde_json::Map` that is filled field by
/// field; where a name comes twice, the later value stands. The result depends
/// on the fields alone; [`json_object`] names it.
#[verifier::external_body]
pub(crate) fn object_document(fields: Vec<(String, Json)>) -> (r: serde_json::Value)
    ensures
        r == json_object(fields_of(fields@)),
{
    let members = fields.into_iter().map(|(name, value)| match value {
        Json::Null => (name, serde_json::Value::Null),
        Json::Bool(b) => (name, serde_json::Value::Bool(b)),
        Json::Integer(i) => (name, serde_json::Value::from(i)),
        Json::Real(n) => (name, serde_json::Value::Number(n)),
        Json::Text(s) => (name, serde_json::Value::String(s)),
        Json::Nested(v) => (name, v),
    });
    serde_json::Value::Object(members.collect())
}

} // verus!
