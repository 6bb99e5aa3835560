use cortex_rs::auth::{resolve_token, validate_auth_header, AuthError};

#[test]
fn test_validate_auth_header_success() {
    let expected = "secret_vault_token_42";
    let res = validate_auth_header(Some("Bearer secret_vault_token_42"), expected);
    assert_eq!(res, Ok(()));
}

#[test]
fn test_validate_auth_header_unauthenticated() {
    let expected = "secret_vault_token_42";
    let res_none = validate_auth_header(None, expected);
    assert_eq!(res_none, Err(AuthError::Unauthorized));

    let res_empty = validate_auth_header(Some(""), expected);
    assert_eq!(res_empty, Err(AuthError::Unauthorized));

    let res_no_bearer = validate_auth_header(Some("Basic 12345"), expected);
    assert_eq!(res_no_bearer, Err(AuthError::Unauthorized));
}

#[test]
fn test_validate_auth_header_invalid_token() {
    let expected = "secret_vault_token_42";
    let res = validate_auth_header(Some("Bearer wrong_secret"), expected);
    assert_eq!(res, Err(AuthError::Unauthorized));
}

#[test]
fn test_validate_auth_header_unconfigured_host() {
    let res = validate_auth_header(Some("Bearer any_token"), "");
    assert_eq!(res, Err(AuthError::ServiceUnavailable));
}

#[test]
fn auth_errors_carry_http_status_and_message() {
    assert_eq!(AuthError::Unauthorized.status_code(), 401);
    assert_eq!(AuthError::ServiceUnavailable.status_code(), 503);
    assert_eq!(AuthError::Unauthorized.message(), "Unauthorized: invalid or missing Cortex bearer token");
    assert_eq!(
        AuthError::ServiceUnavailable.message(),
        "Service unavailable: Cortex authentication token unconfigured on host"
    );
}

#[test]
fn bearer_token_is_trimmed_before_comparison() {
    assert_eq!(validate_auth_header(Some("Bearer   tok \t"), "tok"), Ok(()));
    // The scheme itself must be exact.
    assert_eq!(validate_auth_header(Some("bearer tok"), "tok"), Err(AuthError::Unauthorized));
    assert_eq!(validate_auth_header(Some("Bearer"), "tok"), Err(AuthError::Unauthorized));
}

#[test]
fn resolve_token_takes_the_trimmed_environment_value_only() {
    assert_eq!(resolve_token(Some("  test_token_12345 \n")), "test_token_12345");
    assert_eq!(resolve_token(Some("   ")), "");
    assert_eq!(resolve_token(None), "");
}
