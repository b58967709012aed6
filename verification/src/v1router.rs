//! The operation layer behind each route: what every endpoint computes and
//! decides, with the HTTP dispatch, the cookie jar and the outbound calls
//! left to the surrounding program.
//!
//! Each login-flow operation appears as the step the routing layer runs
//! before its one network call (guards, request building) and the step it
//! runs after (turning the provider's answer into a session, a cookie
//! directive and a response body).

use vstd::prelude::*;

use crate::codec::{decodable, decoded_of};
use crate::google::{
    auth_url_chars, challenge_of, create_refreshed_session, create_session,
    generate_auth_url_and_code_verifier, get_user_email, lifetime_ok, revoke_session,
    scope_granted, verifier_bytes, ApplicationDetails, ExchangeOutcome, RefreshOutcome,
    RevokeOutcome, UserInfoOutcome,
};
use crate::session::{
    add_session_cookie, cookie_policy, remove_session_cookie, session_expired, LoggedInSession,
    LoggedInSessionView, Session, SessionView, SetCookie, TempCodeVerifierSession,
    COOKIE_MAX_AGE_SECONDS,
};
use crate::{ApiError, ApiResult, TOLERANCE};

verus! {

/// Response body of the login-start operation.
#[derive(Debug, Clone, PartialEq, Eq)]
pub struct GoogleLoginResBody {
    pub google_auth_url: String,
}

/// Request body of the login-completion operation.
#[derive(Debug, Clone, PartialEq, Eq)]
pub struct FinishLoginReqBody {
    pub code: String,
}

/// Response body of the user-info operation.
#[derive(Debug, Clone, PartialEq, Eq)]
pub struct UserInfoResBody {
    pub logged_in: bool,
    pub email: Option<String>,
}

/// Starts a login: draws the PKCE material, and returns the authorization
/// URL to send the browser to together with the cookie directive that
/// persists the verifier. Any previously stored session is simply
/// overwritten by that cookie.
pub fn google_login(
    google_application_details: &ApplicationDetails,
    now: i64,
) -> (r: ApiResult<(GoogleLoginResBody, SetCookie)>)
    requires
        now + COOKIE_MAX_AGE_SECONDS <= i64::MAX,
    ensures
        r is Ok,
        r matches Ok((body, cookie)) ==> {
            &&& cookie_policy(cookie)
            &&& !cookie.removal
            &&& decodable(cookie.value@)
            &&& decoded_of(cookie.value@) is TempCodeVerifier
            &&& body.google_auth_url@ == auth_url_chars(
                google_application_details.client_id@,
                challenge_of(
                    verifier_bytes(decoded_of(cookie.value@)->TempCodeVerifier_0.code_verifier),
                ),
            )
        },
{
    let (auth_url, code_verifier) = generate_auth_url_and_code_verifier(
        google_application_details,
    );
    let session = Session::TempCodeVerifier(TempCodeVerifierSession { code_verifier });
    let cookie = match add_session_cookie(&session, now) {
        Ok(cookie) => cookie,
        Err(e) => {
            proof {
                assert(session@.wf());
            }
            return Err(e);
        },
    };
    proof {
        crate::codec::lemma_round_trip(session@);
    }
    Ok((GoogleLoginResBody { google_auth_url: auth_url }, cookie))
}

/// A token response whose text fields fit the cookie wire format.
pub open spec fn tokens_encodable(access_token: Seq<char>, refresh_token: Seq<char>) -> bool {
    &&& access_token.len() < crate::session::MAX_FIELD_CHARS
    &&& refresh_token.len() < crate::session::MAX_FIELD_CHARS
}

/// Completes a login from the provider's answer to the code exchange: on
/// success the new logged-in session, already sealed into its cookie
/// directive; on failure the collapsed error. The routing layer runs this
/// only after the cookie guard produced the pending-login verifier.
pub fn finish_login(outcome: ExchangeOutcome, now: i64) -> (r: ApiResult<SetCookie>)
    requires
        now + COOKIE_MAX_AGE_SECONDS <= i64::MAX,
    ensures
        r is Ok <==> (outcome matches ExchangeOutcome::Tokens(t) && scope_granted(t.scope@)
            && lifetime_ok(now as int, t.expires_in) && tokens_encodable(
            t.access_token@,
            t.refresh_token@,
        )),
        outcome matches ExchangeOutcome::Tokens(t) ==> ((scope_granted(t.scope@) && lifetime_ok(
            now as int,
            t.expires_in,
        ) && tokens_encodable(t.access_token@, t.refresh_token@)) ==> (r matches Ok(c) && {
            &&& cookie_policy(c)
            &&& !c.removal
            &&& decodable(c.value@)
            &&& decoded_of(c.value@) == SessionView::LoggedIn(
                LoggedInSessionView {
                    access_token: t.access_token@,
                    refresh_token: t.refresh_token@,
                    expires_at: now + t.expires_in - TOLERANCE,
                },
            )
        })),
        outcome matches ExchangeOutcome::Tokens(t) ==> (!scope_granted(t.scope@) ==> (r matches
            Err(e) && e is Forbidden)),
        outcome is Rejected ==> (r matches Err(e) && e is Forbidden),
        outcome is TransportFault ==> (r matches Err(e) && e is InternalServerError),
        r matches Err(e) ==> (e is Forbidden || e is InternalServerError),
{
    let session = create_session(outcome, now)?;
    let wrapped = Session::LoggedIn(session);
    let cookie = add_session_cookie(&wrapped, now)?;
    proof {
        crate::codec::lemma_round_trip(wrapped@);
    }
    Ok(cookie)
}

/// Finishes a logout from the provider's answer to the revocation: on any
/// provider response the cookie-clearing directive; on a transport fault
/// the internal error, and the cookie stays in place for an explicit retry.
/// The routing layer runs this only for a caller the access check admitted.
pub fn logout(outcome: RevokeOutcome) -> (r: ApiResult<SetCookie>)
    ensures
        r is Ok <==> outcome is Response,
        r matches Ok(c) ==> cookie_policy(c) && c.removal,
        r matches Err(e) ==> e is InternalServerError,
{
    revoke_session(outcome)?;
    Ok(remove_session_cookie())
}

/// Builds the user-info response body. An anonymous caller (no fetch was
/// made) always succeeds with `logged_in: false`; for a logged-in caller
/// the provider's answer decides.
pub fn user_info(email_fetch: Option<UserInfoOutcome>) -> (r: ApiResult<UserInfoResBody>)
    ensures
        email_fetch is None ==> (r matches Ok(b) && !b.logged_in && b.email is None),
        email_fetch matches Some(o) ==> {
            &&& (o matches UserInfoOutcome::Profile(em) ==> (r matches Ok(b) && b.logged_in && (
            b.email matches Some(e) && e@ == em@)))
            &&& (o is Rejected ==> (r matches Err(e) && e is Forbidden))
            &&& (o is TransportFault ==> (r matches Err(e) && e is InternalServerError))
        },
{
    match email_fetch {
        None => Ok(UserInfoResBody { logged_in: false, email: None }),
        Some(outcome) => {
            let email = get_user_email(outcome)?;
            Ok(UserInfoResBody { logged_in: true, email: Some(email) })
        },
    }
}

/// Completes a transparent refresh from the provider's answer: on success
/// the replacement session (the refresh token carried forward unchanged),
/// sealed into the cookie directive that must overwrite the response cookie
/// before the request proceeds. Every failure — rejection, scope mismatch,
/// transport fault — degrades this request to "not logged in": `Forbidden`,
/// and the stale cookie is left in place.
pub fn refresh_access(refresh_token: String, outcome: RefreshOutcome, now: i64) -> (r: ApiResult<
    (LoggedInSession, SetCookie),
>)
    requires
        now + COOKIE_MAX_AGE_SECONDS <= i64::MAX,
    ensures
        r matches Err(e) ==> e is Forbidden,
        r is Ok <==> (outcome matches RefreshOutcome::Tokens(t) && scope_granted(t.scope@)
            && lifetime_ok(now as int, t.expires_in) && tokens_encodable(
            t.access_token@,
            refresh_token@,
        )),
        outcome matches RefreshOutcome::Tokens(t) ==> ((scope_granted(t.scope@) && lifetime_ok(
            now as int,
            t.expires_in,
        ) && tokens_encodable(t.access_token@, refresh_token@)) ==> (r matches Ok((s, c)) && {
            &&& s@.access_token == t.access_token@
            &&& s@.refresh_token == refresh_token@
            &&& s@.expires_at == now + t.expires_in - TOLERANCE
            &&& cookie_policy(c)
            &&& !c.removal
            &&& decodable(c.value@)
            &&& decoded_of(c.value@) == SessionView::LoggedIn(s@)
        })),
{
    let session = match create_refreshed_session(refresh_token, outcome, now) {
        Ok(session) => session,
        Err(_) => {
            return Err(ApiError::Forbidden("Could not refresh Google login".to_owned()));
        },
    };
    let wrapped = Session::LoggedIn(session);
    let cookie = match add_session_cookie(&wrapped, now) {
        Ok(cookie) => cookie,
        Err(_) => {
            return Err(ApiError::Forbidden("Could not add session cookie".to_owned()));
        },
    };
    proof {
        crate::codec::lemma_round_trip(wrapped@);
    }
    match wrapped {
        Session::LoggedIn(session) => Ok((session, cookie)),
        Session::TempCodeVerifier(_) => Err(
            ApiError::Forbidden("Could not refresh Google login".to_owned()),
        ),
    }
}

/// A session built by the expiry formula from a lifetime above the
/// tolerance is fresh: its replacement cookie expires strictly in the
/// future.
pub proof fn lemma_refreshed_session_fresh(l: LoggedInSessionView, now: int, expires_in: u64)
    requires
        lifetime_ok(now, expires_in),
        expires_in > TOLERANCE,
        l.expires_at == now + expires_in - TOLERANCE,
    ensures
        !session_expired(l, now),
        l.expires_at > now,
{
}

} // verus!
