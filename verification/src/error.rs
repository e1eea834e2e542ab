//! The errors the installer reports while talking to the AdoptOpenJDK API.

use vstd::prelude::*;
use vstd::string::*;
use crate::text::{nat_decimal, push_decimal};

verus! {

/// An error met while talking to the AdoptOpenJDK API or handling its answer.
/// Outside errors are carried by the text they describe themselves with.
#[derive(Clone, Debug, PartialEq, Eq)]
pub enum AdoptOpenJDKError {
    /// The API answered with a status code outside 200..=299.
    HTTPError(u16),
    /// The HTTP client failed; the text is the client's own description.
    ReqwestError(String),
    /// The body was not the JSON that was expected; the text is the parser's description.
    JSONError(String),
    /// A file operation failed; the text is the operating system's description.
    STDIoError(String),
    /// Any other failure, described by its text.
    Custom(String),
}

impl AdoptOpenJDKError {
    /// What the error says of itself.
    pub open spec fn spec_to_string(self) -> Seq<char> {
        match self {
            AdoptOpenJDKError::HTTPError(code) => "The API returned a non-success error code "@
                + nat_decimal(code as nat),
            AdoptOpenJDKError::ReqwestError(_) => "An error occurred while processing the HTTP response"@,
            AdoptOpenJDKError::JSONError(_) => "The JSON sent by AdoptOpenJDK did not match what this app was expecting"@,
            AdoptOpenJDKError::Custom(s) => s@,
            AdoptOpenJDKError::STDIoError(e) => "IO Error "@ + e@,
        }
    }

    /// What the error says of itself.
    pub fn to_string(&self) -> (r: String)
        ensures
            r@ == self.spec_to_string(),
    {
        match self {
            AdoptOpenJDKError::HTTPError(code) => {
                let mut r = String::from_str("The API returned a non-success error code ");
                push_decimal(&mut r, *code as u64);
                r
            },
            AdoptOpenJDKError::ReqwestError(_) => String::from_str(
                "An error occurred while processing the HTTP response",
            ),
            AdoptOpenJDKError::JSONError(_) => String::from_str(
                "The JSON sent by AdoptOpenJDK did not match what this app was expecting",
            ),
            AdoptOpenJDKError::Custom(s) => s.clone(),
            AdoptOpenJDKError::STDIoError(e) => {
                let mut r = String::from_str("IO Error ");
                r.append(e.as_str());
                r
            },
        }
    }
}

} // verus!
