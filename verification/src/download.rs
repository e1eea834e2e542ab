//! The decisions of a resumable download: the file name the server gives,
//! the size it announces, and the range asked for when a partial file exists.

use vstd::prelude::*;
use vstd::string::*;
use crate::api::{spec_is_success, AdoptOpenJDK};
use crate::error::AdoptOpenJDKError;
use crate::text::{nth_field, split_field, parse_u64, spec_parse_u64, nat_decimal, push_decimal, push_char};

verus! {

/// The file name in a Content-Disposition value: the second piece of the
/// value split at "; ", and of that the second piece split at "=".
pub open spec fn spec_disposition_file_name(header: Seq<char>) -> Option<Seq<char>> {
    match nth_field(header, "; "@, 1) {
        Some(part) => nth_field(part, "="@, 1),
        None => None,
    }
}

/// The file name a Content-Disposition value gives, such as "x.tar.gz" for
/// "attachment; filename=x.tar.gz"; `None` when the value has no such piece.
pub fn disposition_file_name(header: &str) -> (r: Option<String>)
    ensures
        match r {
            Some(name) => spec_disposition_file_name(header@) == Some(name@),
            None => spec_disposition_file_name(header@) is None,
        },
{
    proof {
        reveal_strlit("; ");
        reveal_strlit("=");
    }
    match split_field(header, "; ", 1) {
        Some(part) => split_field(part.as_str(), "=", 1),
        None => None,
    }
}

/// The size a Content-Length value announces: the value read as a `u64`,
/// or 0 when it is missing or not a number.
pub fn content_length(header: Option<&str>) -> (r: u64)
    ensures
        match header {
            Some(h) => match spec_parse_u64(h@) {
                Ok(x) => r == x,
                Err(_) => r == 0,
            },
            None => r == 0,
        },
{
    match header {
        Some(h) => match parse_u64(h) {
            Ok(x) => x,
            Err(_) => 0,
        },
        None => 0,
    }
}

/// Where a download resumes when `existing` bytes of it are on disk: the
/// last byte present is fetched again. At least one byte must be present.
pub fn resume_offset(existing: u64) -> (r: u64)
    requires
        existing >= 1,
    ensures
        r == existing - 1,
{
    existing - 1
}

/// The Range value that asks for everything from `offset` on: "bytes={offset}-".
pub fn range_header(offset: u64) -> (r: String)
    ensures
        r@ == "bytes="@ + nat_decimal(offset as nat) + seq!['-'],
{
    let mut r = String::from_str("bytes=");
    push_decimal(&mut r, offset);
    push_char(&mut r, '-');
    r
}


/// What the url crate makes of `s`: its serialization, or None where it does not parse.
pub uninterp spec fn spec_parsed_url(s: Seq<char>) -> Option<Seq<char>>;

/// The url crate's `Url::parse` (through reqwest), serialized back to a
/// string. The serialization is named, not spelled out: the contract only
/// ties it to `s`.
#[verifier::external_body]
fn url_parse(s: &str) -> (r: Option<String>)
    ensures
        match r {
            Some(u) => spec_parsed_url(s@) == Some(u@),
            None => spec_parsed_url(s@) is None,
        },
{
    reqwest::Url::parse(s).ok().map(|u| u.to_string())
}

/// The address a download is fetched from: `url` as the url crate parses
/// and writes it back; `None` when it does not parse.
pub fn download_address(url: &str) -> (r: Option<String>)
    ensures
        match r {
            Some(u) => spec_parsed_url(url@) == Some(u@),
            None => spec_parsed_url(url@) is None,
        },
{
    url_parse(url)
}

/// The size the Content-Length value announces, 0 when missing or not a number.
pub open spec fn spec_content_length(length: Option<Seq<char>>) -> u64 {
    match length {
        Some(h) => match spec_parse_u64(h) {
            Ok(x) => x as u64,
            Err(_) => 0,
        },
        None => 0,
    }
}

/// Judges the answer to the HEAD request of a download: a status outside
/// 200..=299 is an `HTTPError`, a missing Content-Disposition is
/// `Custom("Fail")`, and otherwise the file name it gives and the size the
/// Content-Length value announces (0 when missing or not a number).
/// A present Content-Disposition of a successful answer must name a file.
pub fn plan_download(head_status: u16, disposition: Option<&str>, length: Option<&str>) -> (r: Result<
    (String, u64),
    AdoptOpenJDKError,
>)
    requires
        spec_is_success(head_status) && disposition is Some ==> spec_disposition_file_name(
            disposition->0@,
        ) is Some,
    ensures
        !spec_is_success(head_status) ==> r == Err::<(String, u64), AdoptOpenJDKError>(
            AdoptOpenJDKError::HTTPError(head_status),
        ),
        spec_is_success(head_status) && disposition is None ==> (r matches Err(
            AdoptOpenJDKError::Custom(m),
        ) && m@ == "Fail"@),
        spec_is_success(head_status) && disposition is Some ==> (r matches Ok((name, total))
            && spec_disposition_file_name(disposition->0@) == Some(name@) && total
            == spec_content_length(
            match length {
                Some(h) => Some(h@),
                None => None,
            },
        )),
{
    if !AdoptOpenJDK::is_success(head_status) {
        return Err(AdoptOpenJDKError::HTTPError(head_status));
    }
    match disposition {
        None => Err(AdoptOpenJDKError::Custom(String::from_str("Fail"))),
        Some(d) => {
            let name = match disposition_file_name(d) {
                Some(n) => n,
                None => {
                    return Err(AdoptOpenJDKError::Custom(String::from_str("Fail")));
                },
            };
            Ok((name, content_length(length)))
        },
    }
}

/// The Range value a download asks for: none without a partial file, and
/// "bytes={n-1}-" with a partial file of `n` bytes (at least one).
pub fn resume_range(existing: Option<u64>) -> (r: Option<String>)
    requires
        existing matches Some(n) ==> n >= 1,
    ensures
        match existing {
            None => r is None,
            Some(n) => r matches Some(h) && h@ == "bytes="@ + nat_decimal((n - 1) as nat) + seq![
                '-',
            ],
        },
{
    match existing {
        None => None,
        Some(n) => Some(range_header(resume_offset(n))),
    }
}

} // verus!
