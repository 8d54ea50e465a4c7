use std::sync::Arc;
use vstd::prelude::*;
use vstd::utf8::{decode_utf8, valid_utf8};

use crate::request::IronRequest;

verus! {

/// `String::from_utf8(bytes).ok()`: the text when the bytes are valid UTF-8, as std
/// documents it, and `None` otherwise.
#[verifier::external_body]
fn string_from_utf8(bytes: Vec<u8>) -> (r: Option<String>)
    ensures
        r is Some <==> valid_utf8(bytes@),
        r matches Some(s) ==> s@ == decode_utf8(bytes@),
{
    String::from_utf8(bytes).ok()
}

/// The text of the header `key` in a header map: the first value stored under that name
/// (names compared without regard to the case of ASCII letters), where that value is
/// visible ASCII; `None` where there is no such header or its value is not.
pub uninterp spec fn header_value_text(
    headers: reqwest::header::HeaderMap,
    key: Seq<char>,
) -> Option<Seq<char>>;

/// A character that `HeaderValue::to_str` lets through: visible ASCII or a tab.
pub open spec fn visible_ascii(c: char) -> bool {
    (32 <= c as u32 && c as u32 <= 126) || c == '\t'
}

/// `HeaderMap::get(key)` followed by `HeaderValue::to_str`. The result is named, as the map
/// is opaque here; what http's source shows is stated beside the name: `to_str` gives
/// text only when every byte is visible ASCII or a tab.
#[verifier::external_body]
fn header_text<'a>(headers: &'a reqwest::header::HeaderMap, key: &str) -> (r: Option<&'a str>)
    ensures
        r matches Some(t) ==> header_value_text(*headers, key@) == Some(t@),
        r is None ==> header_value_text(*headers, key@) is None,
        r matches Some(t) ==> forall|i: int| 0 <= i < t@.len() ==> visible_ascii(#[trigger] t@[i]),
{
    match headers.get(key) {
        Some(v) => v.to_str().ok(),
        None => None,
    }
}

/// A downloaded response, with the request that produced it.
#[derive(Debug, Clone)]
pub struct Response {
    /// The final URL of the response
    pub url: reqwest::Url,
    /// The HTTP status code
    pub status: u16,
    /// Response headers
    pub headers: reqwest::header::HeaderMap,
    /// Response body in raw bytes
    pub body: Vec<u8>,
    /// The request that generated this response
    pub request: Arc<IronRequest>,
    /// Protocol used (e.g. "HTTP/1.1", "h2")
    pub protocol: Option<String>,
}

impl Response {
    /// The body decoded as UTF-8 text, or `None` when it is not valid UTF-8.
    pub fn text(&self) -> (r: Option<String>)
        ensures
            r is Some <==> valid_utf8(self.body@),
            r matches Some(s) ==> s@ == decode_utf8(self.body@),
    {
        string_from_utf8(self.body.clone())
    }

    /// The value of a header, if present and visible ASCII.
    pub fn header(&self, key: &str) -> (r: Option<&str>)
        ensures
            r matches Some(t) ==> header_value_text(self.headers, key@) == Some(t@),
            r is None ==> header_value_text(self.headers, key@) is None,
            r matches Some(t) ==> forall|i: int|
                0 <= i < t@.len() ==> visible_ascii(#[trigger] t@[i]),
    {
        header_text(&self.headers, key)
    }

    /// A redirect is a response whose status is in the 3xx class.
    pub fn is_redirect(&self) -> (b: bool)
        ensures
            b == (300 <= self.status < 400),
    {
        300 <= self.status && self.status < 400
    }

    /// The length of the body.
    pub fn content_length(&self) -> (n: Option<usize>)
        ensures
            n == Some(self.body@.len() as usize),
    {
        Some(self.body.len())
    }
}

} // verus!
