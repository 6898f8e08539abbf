//! The errors of the miners' web APIs and how an unsuccessful HTTP status
//! becomes one.
use vstd::prelude::*;
use crate::text::{decimal_text, push_text, u64_to_text};

verus! {

/// `a` followed by `b`.
fn joined(a: &str, b: &str) -> (r: String)
    ensures
        r@ == a@ + b@,
{
    let mut s = String::new();
    push_text(&mut s, a);
    push_text(&mut s, b);
    s
}

/// Errors of the Braiins OS web API.
#[derive(Debug, Clone)]
pub enum BraiinsError {
    /// Connection problem (refused, unreachable, name resolution).
    NetworkError(String),
    /// The server answered with an unsuccessful HTTP status.
    HttpError(u16),
    /// The answer could not be parsed.
    ParseError(String),
    /// The request could not be built.
    RequestError(String),
    /// The request timed out.
    Timeout,
    /// The HTTP method is not supported.
    UnsupportedMethod(String),
    /// The retries ran out.
    MaxRetriesExceeded,
    /// Logging in failed.
    AuthenticationFailed,
    /// The server refused access (401).
    Unauthorized,
}

impl BraiinsError {
    /// The description of the error (its `Display`).
    pub open spec fn text_spec(&self) -> Seq<char> {
        match self {
            BraiinsError::NetworkError(m) => "Network error: "@ + m@,
            BraiinsError::HttpError(code) => "HTTP error: "@ + decimal_text(*code as nat),
            BraiinsError::ParseError(m) => "Parse error: "@ + m@,
            BraiinsError::RequestError(m) => "Request error: "@ + m@,
            BraiinsError::Timeout => "Request timeout"@,
            BraiinsError::UnsupportedMethod(m) => "Unsupported method: "@ + m@,
            BraiinsError::MaxRetriesExceeded => "Maximum retries exceeded"@,
            BraiinsError::AuthenticationFailed => "Authentication failed"@,
            BraiinsError::Unauthorized => "Unauthorized access"@,
        }
    }

    /// The description of the error (its `Display`).
    pub fn to_text(&self) -> (r: String)
        ensures
            r@ == self.text_spec(),
    {
        match self {
            BraiinsError::NetworkError(m) => joined("Network error: ", m.as_str()),
            BraiinsError::HttpError(code) => {
                let digits = u64_to_text(*code as u64);
                joined("HTTP error: ", digits.as_str())
            },
            BraiinsError::ParseError(m) => joined("Parse error: ", m.as_str()),
            BraiinsError::RequestError(m) => joined("Request error: ", m.as_str()),
            BraiinsError::Timeout => "Request timeout".to_owned(),
            BraiinsError::UnsupportedMethod(m) => joined("Unsupported method: ", m.as_str()),
            BraiinsError::MaxRetriesExceeded => "Maximum retries exceeded".to_owned(),
            BraiinsError::AuthenticationFailed => "Authentication failed".to_owned(),
            BraiinsError::Unauthorized => "Unauthorized access".to_owned(),
        }
    }
}

/// Errors of the ePIC PowerPlay web API.
#[derive(Debug, Clone)]
pub enum PowerPlayError {
    /// Connection problem (refused, unreachable, name resolution).
    NetworkError(String),
    /// The server answered with an unsuccessful HTTP status.
    HttpError(u16),
    /// The answer could not be parsed.
    ParseError(String),
    /// The request could not be built.
    RequestError(String),
    /// The request timed out.
    Timeout,
    /// The HTTP method is not supported.
    UnsupportedMethod(String),
    /// The retries ran out.
    MaxRetriesExceeded,
    /// Logging in failed.
    AuthenticationFailed,
    /// The server refused access (401).
    Unauthorized,
}

impl PowerPlayError {
    /// The description of the error (its `Display`).
    pub open spec fn text_spec(&self) -> Seq<char> {
        match self {
            PowerPlayError::NetworkError(m) => "Network error: "@ + m@,
            PowerPlayError::HttpError(code) => "HTTP error: "@ + decimal_text(*code as nat),
            PowerPlayError::ParseError(m) => "Parse error: "@ + m@,
            PowerPlayError::RequestError(m) => "Request error: "@ + m@,
            PowerPlayError::Timeout => "Request timeout"@,
            PowerPlayError::UnsupportedMethod(m) => "Unsupported method: "@ + m@,
            PowerPlayError::MaxRetriesExceeded => "Maximum retries exceeded"@,
            PowerPlayError::AuthenticationFailed => "Authentication failed"@,
            PowerPlayError::Unauthorized => "Unauthorized access"@,
        }
    }

    /// The description of the error (its `Display`).
    pub fn to_text(&self) -> (r: String)
        ensures
            r@ == self.text_spec(),
    {
        match self {
            PowerPlayError::NetworkError(m) => joined("Network error: ", m.as_str()),
            PowerPlayError::HttpError(code) => {
                let digits = u64_to_text(*code as u64);
                joined("HTTP error: ", digits.as_str())
            },
            PowerPlayError::ParseError(m) => joined("Parse error: ", m.as_str()),
            PowerPlayError::RequestError(m) => joined("Request error: ", m.as_str()),
            PowerPlayError::Timeout => "Request timeout".to_owned(),
            PowerPlayError::UnsupportedMethod(m) => joined("Unsupported method: ", m.as_str()),
            PowerPlayError::MaxRetriesExceeded => "Maximum retries exceeded".to_owned(),
            PowerPlayError::AuthenticationFailed => "Authentication failed".to_owned(),
            PowerPlayError::Unauthorized => "Unauthorized access".to_owned(),
        }
    }
}

/// The error for an unsuccessful status of the Braiins OS API: 401 means
/// unauthorized, any other status is an HTTP error with that status.
pub fn braiins_status_error(code: u16) -> (r: BraiinsError)
    ensures
        code == 401 ==> r is Unauthorized,
        code != 401 ==> (r matches BraiinsError::HttpError(c) && c == code),
{
    if code == 401 {
        BraiinsError::Unauthorized
    } else {
        BraiinsError::HttpError(code)
    }
}

} // verus!
