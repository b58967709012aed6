use stream_stash::codec::{decode, encode};
use stream_stash::expires_at;
use stream_stash::google::{
    create_refreshed_session, create_session, get_user_email, revoke_session, ExchangeOutcome,
    RefreshOutcome, RefreshResponse, RevokeOutcome, TokenResponse, UserInfoOutcome, AUTH_SCOPE,
};
use stream_stash::session::{
    add_session_cookie, cookie_expires, protected_access, remove_session_cookie,
    temp_code_verifier_access, AccessCheck, LoggedInSession, Session, TempCodeVerifierSession,
};
use stream_stash::v1router::{logout, refresh_access, user_info};
use stream_stash::ApiError;

fn logged_in_cookie(access: &str, refresh: &str, expires_at: i64) -> String {
    encode(&Session::LoggedIn(LoggedInSession {
        access_token: access.to_string(),
        refresh_token: refresh.to_string(),
        expires_at,
    }))
    .unwrap()
}

fn temp_cookie(verifier: &str) -> String {
    encode(&Session::TempCodeVerifier(TempCodeVerifierSession {
        code_verifier: verifier.to_string(),
    }))
    .unwrap()
}

fn tokens(access: &str, refresh: &str, expires_in: u64) -> ExchangeOutcome {
    ExchangeOutcome::Tokens(TokenResponse {
        access_token: access.to_string(),
        refresh_token: refresh.to_string(),
        scope: AUTH_SCOPE.to_string(),
        expires_in,
    })
}

#[test]
fn expires_at_applies_the_tolerance() {
    assert_eq!(expires_at(1000, 3600), 1000 + 3600 - 100);
    assert_eq!(expires_at(0, 100), 0);
    assert_eq!(expires_at(-50, 150), 0);
}

#[test]
fn expiry_classification_boundary() {
    let s = LoggedInSession {
        access_token: "t".to_string(),
        refresh_token: "r".to_string(),
        expires_at: 500,
    };
    assert!(!s.is_expired(499));
    assert!(s.is_expired(500));
    assert!(s.is_expired(501));
}

#[test]
fn cookie_expires_is_31_days_out() {
    assert_eq!(cookie_expires(1000), 1000 + 2678400);
}

#[test]
fn session_cookie_carries_the_fixed_policy() {
    let s = Session::TempCodeVerifier(TempCodeVerifierSession {
        code_verifier: "v".to_string(),
    });
    let c = add_session_cookie(&s, 1000).unwrap();
    assert_eq!(c.name, "session");
    assert_eq!(c.domain, "stream-stash.com");
    assert_eq!(c.path, "/");
    assert!(c.secure);
    assert!(c.http_only);
    assert!(c.same_site_strict);
    assert!(!c.removal);
    assert_eq!(c.expires, 1000 + 2678400);
    assert_eq!(decode(&c.value).unwrap(), s);
}

#[test]
fn removal_cookie_carries_the_fixed_policy() {
    let c = remove_session_cookie();
    assert_eq!(c.name, "session");
    assert_eq!(c.domain, "stream-stash.com");
    assert_eq!(c.path, "/");
    assert!(c.secure);
    assert!(c.http_only);
    assert!(c.same_site_strict);
    assert!(c.removal);
    assert_eq!(c.value, "");
}

#[test]
fn protected_access_fails_closed() {
    // no cookie
    let r = protected_access(None, 100);
    assert!(matches!(r, Err(ApiError::Forbidden(_))));
    // garbage cookie
    let garbage = "not a cookie".to_string();
    let r = protected_access(Some(&garbage), 100);
    assert!(matches!(r, Err(ApiError::Forbidden(_))));
    // wrong variant
    let t = temp_cookie("v1");
    let r = protected_access(Some(&t), 100);
    assert!(matches!(r, Err(ApiError::Forbidden(_))));
}

#[test]
fn protected_access_grants_fresh_sessions() {
    let c = logged_in_cookie("t1", "r1", 1000);
    match protected_access(Some(&c), 999).unwrap() {
        AccessCheck::Grant(s) => {
            assert_eq!(s.access_token, "t1");
            assert_eq!(s.refresh_token, "r1");
            assert_eq!(s.expires_at, 1000);
        }
        other => panic!("expected a grant, got {other:?}"),
    }
}

#[test]
fn protected_access_demands_refresh_once_expired() {
    let c = logged_in_cookie("t1", "r1", 1000);
    match protected_access(Some(&c), 1000).unwrap() {
        AccessCheck::Refresh(tok) => assert_eq!(tok, "r1"),
        other => panic!("expected a refresh demand, got {other:?}"),
    }
}

#[test]
fn finish_login_guard_rejects_wrong_variant_before_any_network_call() {
    // a LoggedIn cookie presented to the login-completion guard is refused
    // outright; no exchange request is ever produced
    let c = logged_in_cookie("t1", "r1", 99999);
    let r = temp_code_verifier_access(Some(&c));
    assert!(matches!(r, Err(ApiError::Forbidden(_))));
    let r = temp_code_verifier_access(None);
    assert!(matches!(r, Err(ApiError::Forbidden(_))));
}

#[test]
fn finish_login_guard_hands_out_the_verifier() {
    let c = temp_cookie("v1");
    let s = temp_code_verifier_access(Some(&c)).unwrap();
    assert_eq!(s.code_verifier, "v1");
}

#[test]
fn create_session_builds_the_session_from_a_matching_grant() {
    let s = create_session(tokens("t1", "r1", 3600), 1000).unwrap();
    assert_eq!(s.access_token, "t1");
    assert_eq!(s.refresh_token, "r1");
    assert_eq!(s.expires_at, 1000 + 3600 - 100);
}

#[test]
fn create_session_rejects_scope_mismatch_as_forbidden() {
    let outcome = ExchangeOutcome::Tokens(TokenResponse {
        access_token: "t1".to_string(),
        refresh_token: "r1".to_string(),
        scope: "openid".to_string(),
        expires_in: 3600,
    });
    assert!(matches!(
        create_session(outcome, 1000),
        Err(ApiError::Forbidden(_))
    ));
}

#[test]
fn create_session_maps_provider_rejection_to_forbidden() {
    let outcome = ExchangeOutcome::Rejected("{\"error\":\"invalid_grant\"}".to_string());
    assert!(matches!(
        create_session(outcome, 1000),
        Err(ApiError::Forbidden(_))
    ));
}

#[test]
fn create_session_maps_transport_fault_to_internal() {
    let outcome = ExchangeOutcome::TransportFault("connection reset".to_string());
    assert!(matches!(
        create_session(outcome, 1000),
        Err(ApiError::InternalServerError(_))
    ));
}

#[test]
fn create_session_refuses_unusable_lifetime() {
    assert!(matches!(
        create_session(tokens("t1", "r1", 99), 1000),
        Err(ApiError::InternalServerError(_))
    ));
    assert!(matches!(
        create_session(tokens("t1", "r1", u64::MAX), 1000),
        Err(ApiError::InternalServerError(_))
    ));
}

#[test]
fn refreshed_session_carries_the_refresh_token_forward() {
    let outcome = RefreshOutcome::Tokens(RefreshResponse {
        access_token: "t2".to_string(),
        scope: AUTH_SCOPE.to_string(),
        expires_in: 3600,
    });
    let s = create_refreshed_session("r1".to_string(), outcome, 2000).unwrap();
    assert_eq!(s.access_token, "t2");
    assert_eq!(s.refresh_token, "r1");
    assert_eq!(s.expires_at, 2000 + 3600 - 100);
}

#[test]
fn failed_refresh_degrades_to_forbidden() {
    let outcome = RefreshOutcome::Rejected("{\"error\":\"invalid_grant\"}".to_string());
    let r = refresh_access("r1".to_string(), outcome, 2000);
    assert!(matches!(r, Err(ApiError::Forbidden(_))));
    let outcome = RefreshOutcome::TransportFault("timeout".to_string());
    let r = refresh_access("r1".to_string(), outcome, 2000);
    assert!(matches!(r, Err(ApiError::Forbidden(_))));
}

#[test]
fn expired_protected_request_refreshes_exactly_once() {
    let now = 5000;
    // an expired logged-in cookie
    let stale = logged_in_cookie("t1", "r1", now - 1500);
    // the one decision on the stale cookie is a refresh demand
    let mut refresh_calls = 0;
    let grant = match protected_access(Some(&stale), now).unwrap() {
        AccessCheck::Grant(s) => s,
        AccessCheck::Refresh(tok) => {
            refresh_calls += 1;
            let outcome = RefreshOutcome::Tokens(RefreshResponse {
                access_token: "t2".to_string(),
                scope: AUTH_SCOPE.to_string(),
                expires_in: 3600,
            });
            let (s, replacement) = refresh_access(tok, outcome, now).unwrap();
            // the replacement cookie decodes to a session expiring in the future
            match decode(&replacement.value).unwrap() {
                Session::LoggedIn(l) => {
                    assert_eq!(l.expires_at, now + 3600 - 100);
                    assert!(l.expires_at > now);
                }
                other => panic!("replacement cookie held {other:?}"),
            }
            s
        }
    };
    assert_eq!(refresh_calls, 1);
    assert_eq!(grant.access_token, "t2");
    // the replacement session itself is fresh: no second refresh
    assert!(!grant.is_expired(now));
}

#[test]
fn logout_without_valid_login_cookie_is_forbidden() {
    let r = protected_access(None, 100);
    assert!(matches!(r, Err(ApiError::Forbidden(_))));
    let t = temp_cookie("v1");
    let r = protected_access(Some(&t), 100);
    assert!(matches!(r, Err(ApiError::Forbidden(_))));
}

#[test]
fn logout_clears_the_cookie_on_any_provider_response() {
    let c = logout(RevokeOutcome::Response).unwrap();
    assert!(c.removal);
    assert_eq!(c.name, "session");
}

#[test]
fn logout_keeps_the_cookie_on_transport_failure() {
    // the explicit choice: a revoke that fails at the transport level aborts
    // the logout, and no removal directive is produced
    let r = logout(RevokeOutcome::TransportFault("timeout".to_string()));
    assert!(matches!(r, Err(ApiError::InternalServerError(_))));
}

#[test]
fn revoke_session_only_fails_on_transport() {
    assert!(revoke_session(RevokeOutcome::Response).is_ok());
    assert!(matches!(
        revoke_session(RevokeOutcome::TransportFault("x".to_string())),
        Err(ApiError::InternalServerError(_))
    ));
}

#[test]
fn get_user_email_extracts_the_email() {
    let r = get_user_email(UserInfoOutcome::Profile("a@b.example".to_string())).unwrap();
    assert_eq!(r, "a@b.example");
    assert!(matches!(
        get_user_email(UserInfoOutcome::Rejected("{}".to_string())),
        Err(ApiError::Forbidden(_))
    ));
    assert!(matches!(
        get_user_email(UserInfoOutcome::TransportFault("x".to_string())),
        Err(ApiError::InternalServerError(_))
    ));
}

#[test]
fn user_info_never_fails_for_anonymous_callers() {
    let b = user_info(None).unwrap();
    assert!(!b.logged_in);
    assert!(b.email.is_none());
}

#[test]
fn user_info_reports_the_logged_in_email() {
    let b = user_info(Some(UserInfoOutcome::Profile("a@b.example".to_string()))).unwrap();
    assert!(b.logged_in);
    assert_eq!(b.email.unwrap(), "a@b.example");
}
