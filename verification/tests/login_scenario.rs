//! The whole lifecycle, driven end to end against a stubbed provider:
//! begin login, finish login, a protected call while fresh, a transparent
//! refresh once expired, and logout.

use stream_stash::codec::{decode, encode};
use stream_stash::google::{
    generate_auth_url_and_code_verifier, ApplicationDetails, ExchangeOutcome, RefreshOutcome,
    RefreshResponse, RevokeOutcome, TokenResponse, AUTH_SCOPE,
};
use stream_stash::session::{
    add_session_cookie, protected_access, temp_code_verifier_access, AccessCheck, Session,
    TempCodeVerifierSession,
};
use stream_stash::v1router::{finish_login, google_login, logout, refresh_access};

#[test]
fn full_login_refresh_logout_scenario() {
    let now = 1_700_000_000i64;

    // begin login with a pinned verifier: cookie A holds the pending-login
    // variant with verifier "v1"
    let session_a = Session::TempCodeVerifier(TempCodeVerifierSession {
        code_verifier: "v1".to_string(),
    });
    let cookie_a = add_session_cookie(&session_a, now).unwrap();
    assert_eq!(decode(&cookie_a.value).unwrap(), session_a);

    // finish login: the guard yields the stored verifier, the stub provider
    // accepts code "c1" and grants the requested scope
    let guard = temp_code_verifier_access(Some(&cookie_a.value)).unwrap();
    assert_eq!(guard.code_verifier, "v1");
    let outcome = ExchangeOutcome::Tokens(TokenResponse {
        access_token: "t1".to_string(),
        refresh_token: "r1".to_string(),
        scope: AUTH_SCOPE.to_string(),
        expires_in: 3600,
    });
    let cookie_b = finish_login(outcome, now).unwrap();
    match decode(&cookie_b.value).unwrap() {
        Session::LoggedIn(l) => {
            assert_eq!(l.access_token, "t1");
            assert_eq!(l.refresh_token, "r1");
            assert_eq!(l.expires_at, now + 3500);
        }
        other => panic!("cookie B held {other:?}"),
    }

    // a protected call with cookie B and the clock unchanged succeeds
    // without any refresh call
    let mut refresh_calls = 0;
    match protected_access(Some(&cookie_b.value), now).unwrap() {
        AccessCheck::Grant(s) => assert_eq!(s.access_token, "t1"),
        AccessCheck::Refresh(_) => refresh_calls += 1,
    }
    assert_eq!(refresh_calls, 0);

    // advancing the clock past expires_at makes the same protected call
    // demand exactly one refresh, which yields cookie C with a new token
    let later = now + 3500;
    let cookie_c = match protected_access(Some(&cookie_b.value), later).unwrap() {
        AccessCheck::Grant(s) => panic!("stale session granted: {s:?}"),
        AccessCheck::Refresh(tok) => {
            refresh_calls += 1;
            assert_eq!(tok, "r1");
            let outcome = RefreshOutcome::Tokens(RefreshResponse {
                access_token: "t2".to_string(),
                scope: AUTH_SCOPE.to_string(),
                expires_in: 3600,
            });
            let (s, cookie_c) = refresh_access(tok, outcome, later).unwrap();
            assert_eq!(s.access_token, "t2");
            assert_eq!(s.refresh_token, "r1");
            cookie_c
        }
    };
    assert_eq!(refresh_calls, 1);
    match decode(&cookie_c.value).unwrap() {
        Session::LoggedIn(l) => {
            assert_eq!(l.access_token, "t2");
            assert_eq!(l.refresh_token, "r1");
            assert_eq!(l.expires_at, later + 3500);
            assert!(l.expires_at > later);
        }
        other => panic!("cookie C held {other:?}"),
    }

    // the refreshed cookie is granted without another refresh
    match protected_access(Some(&cookie_c.value), later).unwrap() {
        AccessCheck::Grant(s) => assert_eq!(s.access_token, "t2"),
        AccessCheck::Refresh(_) => panic!("second refresh demanded"),
    }

    // logout: the guard admits the session, revocation succeeds, and the
    // removal directive clears the cookie
    let revoked = logout(RevokeOutcome::Response).unwrap();
    assert!(revoked.removal);
}

#[test]
fn begin_login_emits_cookie_and_url_for_the_same_verifier() {
    let details = ApplicationDetails {
        client_id: "cid".to_string(),
        client_secret: "cs".to_string(),
    };
    let now = 1_700_000_000i64;
    let (body, cookie) = google_login(&details, now).unwrap();
    // the emitted cookie decodes to a pending-login session
    let verifier = match decode(&cookie.value).unwrap() {
        Session::TempCodeVerifier(t) => t.code_verifier,
        other => panic!("begin-login cookie held {other:?}"),
    };
    assert_eq!(verifier.len(), 128);
    assert!(body
        .google_auth_url
        .starts_with("https://accounts.google.com/o/oauth2/v2/auth?client_id=cid&"));
    // consistency with the library's own generator output shape
    let (url2, _) = generate_auth_url_and_code_verifier(&details);
    assert_eq!(
        url2.split("&code_challenge=").next(),
        body.google_auth_url.split("&code_challenge=").next()
    );
    // re-encoding the decoded session reproduces the cookie exactly
    let again = encode(&Session::TempCodeVerifier(TempCodeVerifierSession {
        code_verifier: verifier,
    }))
    .unwrap();
    assert_eq!(again, cookie.value);
}
