//! The kinds of failure that the services report.

use vstd::prelude::*;

verus! {

/// Every operation that the outside world can call maps a failure to
/// exactly one of these kinds. The name of a kind is stable.
#[derive(Debug, Clone, Copy, PartialEq, Eq, Structural)]
pub enum ErrorKind {
    Validation,
    Unauthorized,
    Forbidden,
    NotFound,
    Conflict,
    RateLimited,
    UpstreamUnavailable,
    Internal,
}

impl ErrorKind {
    /// The name of the kind as it stands in an error body.
    pub fn name(&self) -> (s: &'static str)
        ensures
            s@ == match *self {
                ErrorKind::Validation => "Validation"@,
                ErrorKind::Unauthorized => "Unauthorized"@,
                ErrorKind::Forbidden => "Forbidden"@,
                ErrorKind::NotFound => "NotFound"@,
                ErrorKind::Conflict => "Conflict"@,
                ErrorKind::RateLimited => "RateLimited"@,
                ErrorKind::UpstreamUnavailable => "UpstreamUnavailable"@,
                ErrorKind::Internal => "Internal"@,
            },
    {
        match self {
            ErrorKind::Validation => "Validation",
            ErrorKind::Unauthorized => "Unauthorized",
            ErrorKind::Forbidden => "Forbidden",
            ErrorKind::NotFound => "NotFound",
            ErrorKind::Conflict => "Conflict",
            ErrorKind::RateLimited => "RateLimited",
            ErrorKind::UpstreamUnavailable => "UpstreamUnavailable",
            ErrorKind::Internal => "Internal",
        }
    }

    /// The HTTP status under which the kind is reported.
    pub open spec fn spec_status(self) -> u16 {
        match self {
            ErrorKind::Validation => 400,
            ErrorKind::Unauthorized => 401,
            ErrorKind::Forbidden => 403,
            ErrorKind::NotFound => 404,
            ErrorKind::Conflict => 409,
            ErrorKind::RateLimited => 429,
            ErrorKind::UpstreamUnavailable => 503,
            ErrorKind::Internal => 500,
        }
    }

    /// The HTTP status under which the kind is reported.
    pub fn status(&self) -> (code: u16)
        ensures
            code == self.spec_status(),
    {
        match self {
            ErrorKind::Validation => 400,
            ErrorKind::Unauthorized => 401,
            ErrorKind::Forbidden => 403,
            ErrorKind::NotFound => 404,
            ErrorKind::Conflict => 409,
            ErrorKind::RateLimited => 429,
            ErrorKind::UpstreamUnavailable => 503,
            ErrorKind::Internal => 500,
        }
    }
}

} // verus!
