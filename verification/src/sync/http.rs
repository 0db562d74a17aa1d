//! Requests to the server's endpoints and the failures of their replies.

use crate::text::{join2, trim_end_slashes, without_end_slashes};
use vstd::prelude::*;

verus! {

/// A request without its body.
#[derive(Debug, PartialEq)]
pub struct Request {
    pub url: String,
    /// Names and values of the query string, not yet encoded.
    pub query: Vec<(String, String)>,
    /// Names and values of the headers.
    pub headers: Vec<(String, String)>,
}

/// What a [`Request`] is, over sequences.
#[verifier::ext_equal]
pub struct RequestView {
    pub url: Seq<char>,
    pub query: Seq<(Seq<char>, Seq<char>)>,
    pub headers: Seq<(Seq<char>, Seq<char>)>,
}

/// Pairs of texts, over sequences.
pub open spec fn pairs(list: Seq<(String, String)>) -> Seq<(Seq<char>, Seq<char>)> {
    list.map_values(|p: (String, String)| (p.0@, p.1@))
}

impl View for Request {
    type V = RequestView;

    open spec fn view(&self) -> RequestView {
        RequestView { url: self.url@, query: pairs(self.query@), headers: pairs(self.headers@) }
    }
}

/// The address of a table's endpoint: slashes at the end of the base address do
/// not matter.
pub open spec fn endpoint(base_url: Seq<char>, table: Seq<char>, end: Seq<char>) -> Seq<char> {
    without_end_slashes(base_url) + "/offlite/sync/"@ + table + end
}

/// The address of a table's endpoint.
pub fn endpoint_url(base_url: &str, table_name: &str, end: &str) -> (r: String)
    ensures
        r@ == endpoint(base_url@, table_name@, end@),
{
    let mut url = trim_end_slashes(base_url).to_owned();
    url.append("/offlite/sync/");
    url.append(table_name);
    url.append(end);
    url
}

/// The value of the `Authorization` header.
pub open spec fn bearer(token: Seq<char>) -> Seq<char> {
    "Bearer "@ + token
}

/// A pair of texts.
pub fn pair(name: &str, value: &str) -> (r: (String, String))
    ensures
        r.0@ == name@,
        r.1@ == value@,
{
    (name.to_owned(), value.to_owned())
}

/// The `Authorization` header for a token.
pub fn authorization(token: &str) -> (r: (String, String))
    ensures
        r.0@ == "Authorization"@,
        r.1@ == bearer(token@),
{
    ("Authorization".to_owned(), join2("Bearer ", token))
}

/// A status that stands for success.
pub open spec fn succeeds(status: u16) -> bool {
    200 <= status < 300
}

/// Whether a status stands for success.
pub fn is_success(status: u16) -> (r: bool)
    ensures
        r == succeeds(status),
{
    200 <= status && status < 300
}

/// Where a request failed. The texts are those of the error, or of the status.
#[derive(Debug, PartialEq)]
pub enum Failure {
    /// The request could not be sent.
    Send(String),
    /// The status does not stand for success.
    Status(String),
    /// The body of the reply could not be read.
    Body(String),
    /// The body of the reply could not be decoded.
    Decode(String),
}

} // verus!
