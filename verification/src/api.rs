//! The AdoptOpenJDK API client's own decisions: where each request goes,
//! which user agent it names, and how an answer's status is judged.

use vstd::prelude::*;
use vstd::string::*;
use crate::error::AdoptOpenJDKError;
use crate::request::LatestBinary;
use reqwest::header::HeaderValue;

verus! {

/// Where every API path is rooted.
pub open spec fn api_base() -> Seq<char> {
    "https://api.adoptopenjdk.net/v3/"@
}

/// Whether an HTTP status code is a success (200..=299), as
/// `StatusCode::is_success` judges it.
pub open spec fn spec_is_success(code: u16) -> bool {
    200 <= code && code < 300
}

/// An HTTP header value (http's `HeaderValue`, through reqwest).
#[verifier::external_type_specification]
#[verifier::external_body]
pub struct ExHeaderValue(HeaderValue);

/// Whether http accepts `s` as a header value: every byte is a tab or at
/// least 32 and not 127. In UTF-8 every byte of a character past ASCII is at
/// least 128, so this is a condition on the characters.
pub open spec fn spec_header_value_ok(s: Seq<char>) -> bool {
    forall|i: int| 0 <= i < s.len() ==> (s[i] == '\t' || (s[i] as u32 >= 32 && s[i] as u32 != 127))
}

/// The bytes a header value holds (http's `HeaderValue::as_bytes`).
pub uninterp spec fn spec_header_bytes(v: HeaderValue) -> Seq<u8>;

/// http's `HeaderValue::from_str`: a value exactly when every byte of `s` is
/// a tab or at least 32 and not 127, and then it holds the UTF-8 bytes of `s`
/// (`try_from_generic` copies `s.as_bytes()`).
#[verifier::external_body]
fn header_value(s: &str) -> (r: Option<HeaderValue>)
    ensures
        r is Some <==> spec_header_value_ok(s@),
        r matches Some(v) ==> spec_header_bytes(v) == vstd::utf8::encode_utf8(s@),
{
    HeaderValue::from_str(s).ok()
}

/// A client of the AdoptOpenJDK API, known by the user agent it sends.
#[derive(Clone, Debug)]
pub struct AdoptOpenJDK {
    user_agent: String,
}

impl View for AdoptOpenJDK {
    type V = Seq<char>;

    /// The user agent the client sends.
    closed spec fn view(&self) -> Seq<char> {
        self.user_agent@
    }
}

impl AdoptOpenJDK {
    /// A client that sends `user_agent` with each request.
    pub fn new(user_agent: String) -> (r: AdoptOpenJDK)
        ensures
            r@ == user_agent@,
    {
        AdoptOpenJDK { user_agent }
    }

    /// The user agent sent with each request.
    pub fn user_agent(&self) -> (r: &str)
        ensures
            r@ == self@,
    {
        self.user_agent.as_str()
    }

    /// The User-Agent header value sent with each request: the UTF-8 bytes of
    /// the user agent; `None` when the user agent cannot stand in a header.
    pub fn user_agent_header(&self) -> (r: Option<HeaderValue>)
        ensures
            r is Some <==> spec_header_value_ok(self@),
            r matches Some(v) ==> spec_header_bytes(v) == vstd::utf8::encode_utf8(self@),
    {
        header_value(self.user_agent.as_str())
    }

    /// The address of the API path `dest`.
    pub fn build_url(&self, dest: &str) -> (r: String)
        ensures
            r@ == api_base() + dest@,
    {
        let mut r = String::from_str("https://api.adoptopenjdk.net/v3/");
        r.append(dest);
        r
    }

    /// The address the list of available releases is asked at.
    pub fn releases_url(&self) -> (r: String)
        ensures
            r@ == api_base() + "info/available_releases"@,
    {
        self.build_url("info/available_releases")
    }

    /// The address the latest binary matching `request` is downloaded from.
    pub fn binary_url(&self, request: &LatestBinary) -> (r: String)
        ensures
            r@ == api_base() + "binary/latest/"@ + request.spec_to_string(),
    {
        let mut dest = String::from_str("binary/latest/");
        dest.append(request.to_string().as_str());
        let r = self.build_url(dest.as_str());
        assert(r@ =~= api_base() + "binary/latest/"@ + request.spec_to_string());
        r
    }

    /// How a download of `request` is announced.
    pub fn binary_label(request: &LatestBinary) -> (r: String)
        ensures
            r@ == "Adopt Open JDK "@ + request.spec_to_string(),
    {
        let mut r = String::from_str("Adopt Open JDK ");
        r.append(request.to_string().as_str());
        r
    }

    /// Whether an HTTP status code is a success (200..=299).
    pub fn is_success(code: u16) -> (r: bool)
        ensures
            r == spec_is_success(code),
            r <==> (200 <= code && code <= 299),
    {
        200 <= code && code < 300
    }

    /// A status is a success exactly when it lies in 200..=299: every 1xx, 3xx,
    /// 4xx and 5xx answer is judged a failure by `respond`.
    pub proof fn lemma_success_is_2xx(code: u16)
        ensures
            spec_is_success(code) <==> (200 <= code && code <= 299),
            code >= 300 || code < 200 ==> !spec_is_success(code),
    {
    }

    /// Judges the outcome of a request before its body is read: a failed
    /// request keeps its error, an answer with a status outside 200..=299
    /// becomes an `HTTPError`, and a successful answer's status is handed
    /// back, telling the caller to read the body.
    pub fn respond(result: Result<u16, AdoptOpenJDKError>) -> (r: Result<u16, AdoptOpenJDKError>)
        ensures
            match result {
                Err(e) => r == Err::<u16, AdoptOpenJDKError>(e),
                Ok(code) => if spec_is_success(code) {
                    r == Ok::<u16, AdoptOpenJDKError>(code)
                } else {
                    r == Err::<u16, AdoptOpenJDKError>(AdoptOpenJDKError::HTTPError(code))
                },
            },
            result matches Ok(code) ==> (r is Ok <==> 200 <= code && code <= 299),
    {
        match result {
            Err(e) => Err(e),
            Ok(code) => {
                if Self::is_success(code) {
                    Ok(code)
                } else {
                    Err(AdoptOpenJDKError::HTTPError(code))
                }
            },
        }
    }
}

} // verus!
