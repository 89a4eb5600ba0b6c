//! A value-level description of one HTTP request.
//!
//! The library never performs network I/O itself: every operation that needs
//! the wire produces an [`HttpRequest`], a plain value that pins down the
//! method, the full URL, the form-encoded body (for the credential grants)
//! and the bearer token (for the resource reads).  The caller executes it
//! with whatever transport it owns and hands the response body back.

use vstd::prelude::*;
use vstd::string::*;

verus! {

#[derive(Clone, Copy, Debug, PartialEq, Eq, Structural)]
pub enum Method {
    Get,
    Post,
}

/// One fully determined HTTP request.
pub struct HttpRequest {
    pub method: Method,
    /// The complete URL, query string included.
    pub url: String,
    /// Present exactly on the credential grants: an
    /// `application/x-www-form-urlencoded` body.
    pub body: Option<String>,
    /// Present exactly on the resource reads: the access token to present as
    /// `Authorization: Bearer {token}`.
    pub bearer: Option<String>,
}

/// Concatenation of two string slices, specified by their views.
pub fn concat_str(a: &str, b: &str) -> (r: String)
    ensures
        r@ == a@ + b@,
{
    let mut s = String::from_str(a);
    s.append(b);
    s
}

/// An authenticated GET: no body, bearer set, URL equal to `url`.
pub open spec fn is_get_request(req: HttpRequest, url: Seq<char>, token: Seq<char>) -> bool {
    &&& req.method == Method::Get
    &&& req.url@ == url
    &&& req.body is None
    &&& req.bearer matches Some(t) && t@ == token
}

/// Builds the authenticated GET for `url_a + url_b` carrying `token`.
pub fn get_request(url_a: &str, url_b: &str, token: &str) -> (r: HttpRequest)
    ensures
        is_get_request(r, url_a@ + url_b@, token@),
{
    HttpRequest {
        method: Method::Get,
        url: concat_str(url_a, url_b),
        body: None,
        bearer: Some(String::from_str(token)),
    }
}

} // verus!
