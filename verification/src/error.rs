//! The ways in which handling a blocked request can fail.

use vstd::prelude::*;

verus! {

/// Every failure is terminal for the request during which it arises.
#[derive(Clone, Copy, Debug, PartialEq, Eq, Structural)]
pub enum FlaresolverrError {
    /// The solving service could not be reached.
    ConnectionProblem,
    /// The service's answer has no `solution` member.
    MissingSolution,
    /// The solution has no `cookies` member.
    MissingCookie,
    /// The solution's `cookies` member is not an array.
    CookiesNotAnArray,
    /// The solution has no `userAgent` member, or one that cannot be used.
    MissingUserAgent,
    /// A cookie lacks a required field, has a field of the wrong kind, or an
    /// expiry that no date stands for.
    CookieFormatError,
    /// A cookie's domain does not give a URL.
    UrlParseError,
    /// The blocked request cannot be sent a second time.
    RequestNotRetryable,
}

impl FlaresolverrError {
    /// The name of the failure, for logs.
    pub fn name(&self) -> (res: &'static str)
        ensures
            res@ == match *self {
                FlaresolverrError::ConnectionProblem => "ConnectionProblem"@,
                FlaresolverrError::MissingSolution => "MissingSolution"@,
                FlaresolverrError::MissingCookie => "MissingCookie"@,
                FlaresolverrError::CookiesNotAnArray => "CookiesNotAnArray"@,
                FlaresolverrError::MissingUserAgent => "MissingUserAgent"@,
                FlaresolverrError::CookieFormatError => "CookieFormatError"@,
                FlaresolverrError::UrlParseError => "UrlParseError"@,
                FlaresolverrError::RequestNotRetryable => "RequestNotRetryable"@,
            },
    {
        match self {
            FlaresolverrError::ConnectionProblem => "ConnectionProblem",
            FlaresolverrError::MissingSolution => "MissingSolution",
            FlaresolverrError::MissingCookie => "MissingCookie",
            FlaresolverrError::CookiesNotAnArray => "CookiesNotAnArray",
            FlaresolverrError::MissingUserAgent => "MissingUserAgent",
            FlaresolverrError::CookieFormatError => "CookieFormatError",
            FlaresolverrError::UrlParseError => "UrlParseError",
            FlaresolverrError::RequestNotRetryable => "RequestNotRetryable",
        }
    }
}

} // verus!
