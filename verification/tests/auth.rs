use deribit::ws::auth::{AuthError, AuthGrant, AuthResponse, AuthState};

fn response(access: Option<&str>, refresh: Option<&str>, expires_in: Option<i64>) -> AuthResponse {
    AuthResponse {
        access_token: access.map(|s| s.to_string()),
        refresh_token: refresh.map(|s| s.to_string()),
        expires_in,
    }
}

#[test]
fn new_state_is_unauthenticated() {
    let s = AuthState::new();
    assert!(s.access_token.is_none());
    assert!(s.refresh_token.is_none());
    assert!(s.expires_at.is_none());
    assert!(!s.is_authenticated());
    assert!(s.needs_refresh());
    assert_eq!(s.get_refresh_token(), None);
}

#[test]
fn needs_refresh_within_sixty_seconds_of_expiry() {
    let mut s = AuthState::new();
    s.expires_at = Some(1_000);
    assert!(!s.needs_refresh_at(939));
    assert!(s.needs_refresh_at(940));
    assert!(s.needs_refresh_at(2_000));
}

#[test]
fn needs_refresh_without_expiry() {
    let s = AuthState::new();
    assert!(s.needs_refresh_at(0));
    assert!(s.needs_refresh_at(i64::MIN));
}

#[test]
fn needs_refresh_at_extreme_expiry() {
    let mut s = AuthState::new();
    s.expires_at = Some(i64::MIN + 10);
    assert!(s.needs_refresh_at(i64::MIN));
}

#[test]
fn clock_reading_is_applied() {
    // The wall clock lies between these expiries: one far past, one far future.
    let mut s = AuthState::new();
    s.access_token = Some("tok".to_string());
    s.expires_at = Some(0);
    assert!(s.needs_refresh());
    assert!(!s.is_authenticated());
    s.expires_at = Some(i64::MAX);
    assert!(!s.needs_refresh());
    assert!(s.is_authenticated());
}

#[test]
fn process_auth_response_stores_tokens() {
    let mut s = AuthState::new();
    let r = s.process_auth_response_at(&response(Some("acc"), Some("ref"), Some(900)), 1_000);
    assert_eq!(r, Ok(()));
    assert_eq!(s.access_token.as_deref(), Some("acc"));
    assert_eq!(s.refresh_token.as_deref(), Some("ref"));
    assert_eq!(s.expires_at, Some(1_900));
    assert_eq!(s.get_refresh_token(), Some("ref"));
    assert!(s.is_authenticated_at(1_000));
    assert!(s.is_authenticated_at(1_839));
    assert!(!s.is_authenticated_at(1_840));
}

#[test]
fn process_auth_response_with_clock() {
    let mut s = AuthState::new();
    let r = s.process_auth_response(&response(Some("acc"), Some("ref"), Some(900)));
    assert_eq!(r, Ok(()));
    let e = s.expires_at.unwrap();
    assert!(e >= 900);
    assert!(s.is_authenticated());
}

#[test]
fn missing_access_token_is_refused() {
    let mut s = AuthState::new();
    s.refresh_token = Some("old".to_string());
    let r = s.process_auth_response_at(&response(None, Some("ref"), Some(900)), 5);
    assert_eq!(r, Err(AuthError::MissingAccessToken));
    assert_eq!(s.refresh_token.as_deref(), Some("old"));
    assert!(s.access_token.is_none());
}

#[test]
fn missing_refresh_token_is_refused() {
    let mut s = AuthState::new();
    let r = s.process_auth_response_at(&response(Some("acc"), None, Some(900)), 5);
    assert_eq!(r, Err(AuthError::MissingRefreshToken));
    assert!(s.access_token.is_none());
}

#[test]
fn missing_expires_in_is_refused() {
    let mut s = AuthState::new();
    let r = s.process_auth_response_at(&response(Some("acc"), Some("ref"), None), 5);
    assert_eq!(r, Err(AuthError::MissingExpiresIn));
    assert!(s.expires_at.is_none());
}

#[test]
fn expiry_out_of_range_is_refused() {
    let mut s = AuthState::new();
    let r = s.process_auth_response_at(&response(Some("acc"), Some("ref"), Some(i64::MAX)), 5);
    assert_eq!(r, Err(AuthError::ExpiryOutOfRange));
    assert!(s.access_token.is_none());
}

#[test]
fn auth_request_carries_credentials() {
    let r = AuthState::build_auth_request("id1", "secret1", 7);
    assert_eq!(r.id, 7);
    match r.grant {
        AuthGrant::ClientCredentials { client_id, client_secret } => {
            assert_eq!(client_id, "id1");
            assert_eq!(client_secret, "secret1");
        }
        _ => panic!("expected client credentials"),
    }
}

#[test]
fn refresh_request_carries_token() {
    let r = AuthState::build_refresh_request("rt", 9);
    assert_eq!(r.id, 9);
    match r.grant {
        AuthGrant::RefreshToken { refresh_token } => assert_eq!(refresh_token, "rt"),
        _ => panic!("expected refresh token"),
    }
}

#[test]
fn renewal_prefers_refresh_token() {
    let mut s = AuthState::new();
    let r = s.build_renewal_request("id", "sec", 3);
    assert!(matches!(r.grant, AuthGrant::ClientCredentials { .. }));
    s.refresh_token = Some("rt".to_string());
    let r = s.build_renewal_request("id", "sec", 4);
    assert_eq!(r.id, 4);
    match r.grant {
        AuthGrant::RefreshToken { refresh_token } => assert_eq!(refresh_token, "rt"),
        _ => panic!("expected refresh token"),
    }
}

#[test]
fn incomplete_result_with_clock_keeps_state() {
    let mut s = AuthState::new();
    s.access_token = Some("old".to_string());
    s.expires_at = Some(77);
    let r = s.process_auth_response(&response(Some("acc"), None, Some(900)));
    assert_eq!(r, Err(AuthError::MissingRefreshToken));
    assert_eq!(s.access_token.as_deref(), Some("old"));
    assert_eq!(s.expires_at, Some(77));
    let r = s.process_auth_response(&response(None, None, None));
    assert_eq!(r, Err(AuthError::MissingAccessToken));
    let r = s.process_auth_response(&response(Some("acc"), Some("ref"), None));
    assert_eq!(r, Err(AuthError::MissingExpiresIn));
    assert_eq!(s.expires_at, Some(77));
}

#[test]
fn negative_lifetime_is_accepted_with_clock() {
    let mut s = AuthState::new();
    let r = s.process_auth_response(&response(Some("acc"), Some("ref"), Some(-5)));
    assert_eq!(r, Ok(()));
    assert!(s.needs_refresh());
    assert!(!s.is_authenticated());
}
