//! Bearer-token checks for the protected API routes.
use vstd::prelude::*;
use crate::text::{chars_of, has_prefix, starts_with, trim, trimmed};

verus! {

/// Why a request was refused.
#[derive(Debug, Clone, Copy, PartialEq, Eq, Structural)]
pub enum AuthError {
    /// The header is missing, is not a bearer header, or names another token.
    Unauthorized,
    /// No token is configured on this host, so no request can be admitted.
    ServiceUnavailable,
}

/// The scheme that every accepted `Authorization` header begins with.
pub open spec fn bearer_scheme() -> Seq<char> {
    seq!['B', 'e', 'a', 'r', 'e', 'r', ' ']
}

/// The decision on a request: refused with `ServiceUnavailable` when no token is
/// configured, admitted when the header is `Bearer ` followed by the expected token
/// (white space around the token aside), refused with `Unauthorized` otherwise.
pub open spec fn auth_decision(header: Option<Seq<char>>, expected: Seq<char>) -> Result<(), AuthError> {
    if expected.len() == 0 {
        Err(AuthError::ServiceUnavailable)
    } else {
        match header {
            Some(h) => if has_prefix(h, bearer_scheme()) && trimmed(h.skip(7)) == expected {
                Ok(())
            } else {
                Err(AuthError::Unauthorized)
            },
            None => Err(AuthError::Unauthorized),
        }
    }
}

/// The token that the host expects: the environment's value when, trimmed, it is
/// not empty; otherwise the empty token, which admits nobody. No secret is read
/// from a file on disk.
pub open spec fn chosen_token(env_value: Option<Seq<char>>) -> Seq<char> {
    match env_value {
        Some(e) => trimmed(e),
        None => Seq::empty(),
    }
}

impl AuthError {
    /// The HTTP status that answers this refusal.
    pub open spec fn spec_status(self) -> u16 {
        match self {
            AuthError::Unauthorized => 401,
            AuthError::ServiceUnavailable => 503,
        }
    }

    /// The HTTP status that answers this refusal: 401 or 503.
    pub fn status_code(&self) -> (r: u16)
        ensures
            r == self.spec_status(),
    {
        match self {
            AuthError::Unauthorized => 401,
            AuthError::ServiceUnavailable => 503,
        }
    }

    /// The error text sent back with this refusal.
    pub fn message(&self) -> (r: String)
        ensures
            *self == AuthError::Unauthorized ==> r@ == "Unauthorized: invalid or missing Cortex bearer token"@,
            *self == AuthError::ServiceUnavailable ==> r@
                == "Service unavailable: Cortex authentication token unconfigured on host"@,
    {
        match self {
            AuthError::Unauthorized => String::from_str("Unauthorized: invalid or missing Cortex bearer token"),
            AuthError::ServiceUnavailable => String::from_str(
                "Service unavailable: Cortex authentication token unconfigured on host",
            ),
        }
    }
}

/// Checks an `Authorization` header against the host's token.
pub fn validate_auth_header(auth_header: Option<&str>, expected_token: &str) -> (r: Result<(), AuthError>)
    ensures
        r == auth_decision(auth_header.deep_view(), expected_token@),
{
    if expected_token.is_empty() {
        return Err(AuthError::ServiceUnavailable);
    }
    match auth_header {
        Some(header) => {
            let hv = chars_of(header);
            let scheme = chars_of("Bearer ");
            proof {
                reveal_strlit("Bearer ");
                assert(scheme@ =~= bearer_scheme());
            }
            if !starts_with(&hv, &scheme) {
                return Err(AuthError::Unauthorized);
            }
            let rest = header.substring_char(7, hv.len());
            assert(rest@ =~= header@.skip(7));
            let token = trim(rest);
            let expected = String::from_str(expected_token);
            if token == expected {
                Ok(())
            } else {
                Err(AuthError::Unauthorized)
            }
        },
        None => Err(AuthError::Unauthorized),
    }
}

/// The token that the host expects, from the `CORTEX_TOKEN` environment value
/// (`None` where it is absent).
pub fn resolve_token(env_value: Option<&str>) -> (r: String)
    ensures
        r@ == chosen_token(env_value.deep_view()),
{
    match env_value {
        Some(e) => trim(e),
        None => String::new(),
    }
}

} // verus!
