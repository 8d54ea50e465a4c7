use std::collections::HashMap;
use vstd::prelude::*;
use vstd::string::StringExecFns;

verus! {

#[verifier::external_type_specification]
#[verifier::external_body]
pub struct ExUrl(reqwest::Url);

#[verifier::external_type_specification]
#[verifier::external_body]
pub struct ExMethod(reqwest::Method);

#[verifier::external_type_specification]
#[verifier::external_body]
#[verifier::reject_recursive_types(T)]
pub struct ExHeaderMap<T>(reqwest::header::HeaderMap<T>);

#[verifier::external_type_specification]
#[verifier::external_body]
pub struct ExHeaderValue(reqwest::header::HeaderValue);

/// `Clone` of `reqwest::Url` (url's `Url`). Nothing is stated of the copy; the library only
/// needs the call to be known so that `Request` can derive `Clone`.
pub assume_specification[ <reqwest::Url as Clone>::clone ](u: &reqwest::Url) -> reqwest::Url;

/// `Clone` of `reqwest::Method` (http's `Method`). Nothing is stated of the copy.
pub assume_specification[ <reqwest::Method as Clone>::clone ](m: &reqwest::Method) -> reqwest::Method;

/// `Clone` of `reqwest::header::HeaderMap` (http's `HeaderMap`). Nothing is stated of the copy.
pub assume_specification<T: Clone>[ <reqwest::header::HeaderMap<T> as Clone>::clone ](
    h: &reqwest::header::HeaderMap<T>,
) -> reqwest::header::HeaderMap<T>;

/// The name of an HTTP method, as `Method::as_str` gives it.
pub uninterp spec fn method_name(m: reqwest::Method) -> Seq<char>;

/// `reqwest::Method::GET`: the method whose name is "GET".
#[verifier::external_body]
fn method_get() -> (m: reqwest::Method)
    ensures
        method_name(m) == "GET"@,
{
    reqwest::Method::GET
}

/// A request as a spider writes it.
#[derive(Clone, Debug)]
pub struct Request {
    pub url: reqwest::Url,
    pub method: reqwest::Method,
    pub headers: Option<reqwest::header::HeaderMap>,
    pub body: Option<String>,
    pub meta: Option<HashMap<String, String>>,
}

/// A request together with the spider that made it, by the spider's id.
#[derive(Clone, Debug)]
pub struct IronRequest {
    pub spider_id: u64,
    pub request: Request,
}

/// Builds a `Request` step by step; the URL is the one part that must be given.
#[derive(Debug)]
pub struct RequestBuilder {
    url: Option<reqwest::Url>,
    method: reqwest::Method,
    headers: Option<reqwest::header::HeaderMap>,
    body: Option<String>,
    meta: Option<HashMap<String, String>>,
}

impl RequestBuilder {
    pub closed spec fn spec_url(&self) -> Option<reqwest::Url> {
        self.url
    }

    pub closed spec fn spec_method(&self) -> reqwest::Method {
        self.method
    }

    pub closed spec fn spec_headers(&self) -> Option<reqwest::header::HeaderMap> {
        self.headers
    }

    pub closed spec fn spec_body(&self) -> Option<String> {
        self.body
    }

    pub closed spec fn spec_meta(&self) -> Option<HashMap<String, String>> {
        self.meta
    }

    /// The request that this builder describes, once it has a URL.
    pub open spec fn spec_request(&self, url: reqwest::Url) -> Request {
        Request {
            url,
            method: self.spec_method(),
            headers: self.spec_headers(),
            body: self.spec_body(),
            meta: self.spec_meta(),
        }
    }

    /// A builder with no URL, no headers, no body and no meta, for a GET request.
    pub fn new() -> (b: Self)
        ensures
            b.spec_url() is None,
            method_name(b.spec_method()) == "GET"@,
            b.spec_headers() is None,
            b.spec_body() is None,
            b.spec_meta() is None,
    {
        RequestBuilder { url: None, method: method_get(), headers: None, body: None, meta: None }
    }

    pub fn url(self, url: reqwest::Url) -> (b: Self)
        ensures
            b.spec_url() == Some(url),
            b.spec_method() == self.spec_method(),
            b.spec_headers() == self.spec_headers(),
            b.spec_body() == self.spec_body(),
            b.spec_meta() == self.spec_meta(),
    {
        RequestBuilder { url: Some(url), ..self }
    }

    pub fn method(self, method: reqwest::Method) -> (b: Self)
        ensures
            b.spec_url() == self.spec_url(),
            b.spec_method() == method,
            b.spec_headers() == self.spec_headers(),
            b.spec_body() == self.spec_body(),
            b.spec_meta() == self.spec_meta(),
    {
        RequestBuilder { method, ..self }
    }

    pub fn headers(self, headers: reqwest::header::HeaderMap) -> (b: Self)
        ensures
            b.spec_url() == self.spec_url(),
            b.spec_method() == self.spec_method(),
            b.spec_headers() == Some(headers),
            b.spec_body() == self.spec_body(),
            b.spec_meta() == self.spec_meta(),
    {
        RequestBuilder { headers: Some(headers), ..self }
    }

    pub fn body(self, body: &str) -> (b: Self)
        ensures
            b.spec_url() == self.spec_url(),
            b.spec_method() == self.spec_method(),
            b.spec_headers() == self.spec_headers(),
            b.spec_body() matches Some(s) && s@ == body@,
            b.spec_meta() == self.spec_meta(),
    {
        RequestBuilder { body: Some(String::from_str(body)), ..self }
    }

    pub fn meta(self, meta: HashMap<String, String>) -> (b: Self)
        ensures
            b.spec_url() == self.spec_url(),
            b.spec_method() == self.spec_method(),
            b.spec_headers() == self.spec_headers(),
            b.spec_body() == self.spec_body(),
            b.spec_meta() == Some(meta),
    {
        RequestBuilder { meta: Some(meta), ..self }
    }

    /// The request, or the error "Missing URL" when no URL was given.
    pub fn build(self) -> (r: Result<Request, &'static str>)
        ensures
            self.spec_url() matches Some(url) ==> (r matches Ok(req) && req == self.spec_request(
                url,
            )),
            self.spec_url() is None ==> (r matches Err(e) && e@ == "Missing URL"@),
    {
        match self.url {
            Some(url) => Ok(
                Request {
                    url,
                    method: self.method,
                    headers: self.headers,
                    body: self.body,
                    meta: self.meta,
                },
            ),
            None => Err("Missing URL"),
        }
    }

    /// The request, attached to the spider `spider_id`, or the error "Missing URL".
    pub fn build_with_spider(self, spider_id: u64) -> (r: Result<IronRequest, &'static str>)
        ensures
            self.spec_url() matches Some(url) ==> (r matches Ok(req) && req == (IronRequest {
                spider_id,
                request: self.spec_request(url),
            })),
            self.spec_url() is None ==> (r matches Err(e) && e@ == "Missing URL"@),
    {
        let request = self.build()?;
        Ok(IronRequest { spider_id, request })
    }
}

impl Default for RequestBuilder {
    /// The same as `RequestBuilder::new`.
    fn default() -> (b: Self)
        ensures
            b.spec_url() is None,
            method_name(b.spec_method()) == "GET"@,
            b.spec_headers() is None,
            b.spec_body() is None,
            b.spec_meta() is None,
    {
        RequestBuilder::new()
    }
}

} // verus!
