//! The bearer-token check every mutating route runs.
use vstd::prelude::*;

verus! {

use vstd::string::StringExecFns;
use crate::text::str_eq;

/// A request's accepted authorization header value.
pub struct ApiKey(pub String);

/// Why a request was refused.
#[derive(PartialEq, Eq, Structural, Debug)]
pub enum AuthError {
    /// No authorization header at all.
    MissingHeader,
    /// A header that is not the expected bearer line.
    WrongKey,
}

/// The exact header value a request must carry for the configured key.
pub open spec fn bearer_line(key: Seq<char>) -> Seq<char> {
    "Bearer "@ + key
}

impl ApiKey {
    /// Check a request's authorization header against the configured API
    /// key: the header must be exactly the bearer line for that key.
    pub fn from_header(header: Option<&str>, api_key: &str) -> (r: Result<ApiKey, AuthError>)
        ensures
            match r {
                Ok(k) => header matches Some(h) && h@ == bearer_line(api_key@) && k.0@ == h@,
                Err(AuthError::MissingHeader) => header is None,
                Err(AuthError::WrongKey) => header matches Some(h) && h@ != bearer_line(api_key@),
            },
    {
        match header {
            None => Err(AuthError::MissingHeader),
            Some(h) => {
                let mut expected: String = "Bearer ".to_owned();
                expected.append(api_key);
                if str_eq(h, expected.as_str()) {
                    Ok(ApiKey(h.to_owned()))
                } else {
                    Err(AuthError::WrongKey)
                }
            },
        }
    }
}

} // verus!
