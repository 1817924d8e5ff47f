//! The HTTP methods an endpoint can be documented under.

use vstd::prelude::*;

use crate::error::EndpointError;
use crate::handler_signature::is_named;

verus! {

/// One of the methods that endpoints are documented under.
#[derive(Clone, Copy, Debug, PartialEq, Eq, Structural, Hash)]
pub enum HttpMethod {
    Get,
    Post,
    Put,
    Delete,
    Head,
    Options,
    Connect,
    Patch,
}

/// The method's token, as a request line writes it.
pub open spec fn method_name(m: HttpMethod) -> Seq<char> {
    match m {
        HttpMethod::Get => "GET"@,
        HttpMethod::Post => "POST"@,
        HttpMethod::Put => "PUT"@,
        HttpMethod::Delete => "DELETE"@,
        HttpMethod::Head => "HEAD"@,
        HttpMethod::Options => "OPTIONS"@,
        HttpMethod::Connect => "CONNECT"@,
        HttpMethod::Patch => "PATCH"@,
    }
}

/// Whether `token` names one of the documented methods.
pub open spec fn is_method_name(token: Seq<char>) -> bool {
    exists|m: HttpMethod| method_name(m) == token
}

/// Whether `s` is a non-empty run of ASCII letters.
pub open spec fn is_ascii_letters(s: Seq<char>) -> bool {
    s.len() > 0 && forall|i: int|
        0 <= i < s.len() ==> ('A' <= #[trigger] s[i] <= 'Z' || 'a' <= s[i] <= 'z')
}

/// What `str::to_uppercase` returns for a string.
pub uninterp spec fn upper_of(s: Seq<char>) -> Seq<char>;

/// Relies on `str::to_uppercase`: the upper-case form depends on the
/// characters alone.
#[verifier::external_body]
fn to_uppercase(s: &str) -> (r: String)
    ensures
        r@ == upper_of(s@),
{
    s.to_uppercase()
}

/// Relies on `http::Method::from_bytes`: a non-empty run of ASCII letters is a
/// valid method token, and a parsed method reads back (`Method::as_str`) as the
/// token it was parsed from.
#[verifier::external_body]
fn http_method_token(token: &str) -> (r: Option<String>)
    ensures
        is_ascii_letters(token@) ==> r is Some,
        r matches Some(t) ==> t@ == token@,
{
    http::Method::from_bytes(token.as_bytes()).ok().map(|m| m.as_str().to_string())
}

proof fn lemma_method_names_are_letters(m: HttpMethod)
    ensures
        is_ascii_letters(method_name(m)),
{
    reveal_strlit("GET");
    reveal_strlit("POST");
    reveal_strlit("PUT");
    reveal_strlit("DELETE");
    reveal_strlit("HEAD");
    reveal_strlit("OPTIONS");
    reveal_strlit("CONNECT");
    reveal_strlit("PATCH");
}

impl HttpMethod {
    /// The method's token.
    pub fn as_str(&self) -> (r: &'static str)
        ensures
            r@ == method_name(*self),
    {
        match self {
            HttpMethod::Get => "GET",
            HttpMethod::Post => "POST",
            HttpMethod::Put => "PUT",
            HttpMethod::Delete => "DELETE",
            HttpMethod::Head => "HEAD",
            HttpMethod::Options => "OPTIONS",
            HttpMethod::Connect => "CONNECT",
            HttpMethod::Patch => "PATCH",
        }
    }
}

/// Reads a method token, in any letter case: the method whose token is the
/// upper-case form of `token`.  Any other token is rejected.
pub fn parse_method(token: &str) -> (r: Result<HttpMethod, EndpointError>)
    ensures
        match r {
            Ok(m) => method_name(m) == upper_of(token@),
            Err(e) => e == EndpointError::UnsupportedHttpMethod && !is_method_name(
                upper_of(token@),
            ),
        },
{
    let upper = to_uppercase(token);
    match http_method_token(upper.as_str()) {
        None => {
            proof {
                if is_method_name(upper@) {
                    let m = choose|m: HttpMethod| method_name(m) == upper@;
                    lemma_method_names_are_letters(m);
                }
            }
            Err(EndpointError::UnsupportedHttpMethod)
        },
        Some(text) => {
            if is_named(&text, "GET") {
                Ok(HttpMethod::Get)
            } else if is_named(&text, "POST") {
                Ok(HttpMethod::Post)
            } else if is_named(&text, "PUT") {
                Ok(HttpMethod::Put)
            } else if is_named(&text, "DELETE") {
                Ok(HttpMethod::Delete)
            } else if is_named(&text, "HEAD") {
                Ok(HttpMethod::Head)
            } else if is_named(&text, "OPTIONS") {
                Ok(HttpMethod::Options)
            } else if is_named(&text, "CONNECT") {
                Ok(HttpMethod::Connect)
            } else if is_named(&text, "PATCH") {
                Ok(HttpMethod::Patch)
            } else {
                assert(!is_method_name(upper@)) by {
                    if is_method_name(upper@) {
                        let m = choose|m: HttpMethod| method_name(m) == upper@;
                        assert(method_name(m) == text@);
                    }
                }
                Err(EndpointError::UnsupportedHttpMethod)
            }
        },
    }
}

} // verus!
