//! The session value that lives inside the client's cookie, and the cookie
//! policy applied whenever it is written or removed.
//!
//! A session is either the temporary PKCE verifier held between the two login
//! steps, or a logged-in credential set. The value is persisted only in the
//! cookie; the server keeps no session state of its own.

use vstd::prelude::*;

use crate::codec::{decodable, decode, decoded_of, encode, spec_encode};
use crate::ApiError;

verus! {

/// Held between "login initiated" and "login completed": the PKCE verifier
/// that must be presented back to the provider during the code exchange.
#[derive(Debug, Clone, PartialEq, Eq)]
pub struct TempCodeVerifierSession {
    pub code_verifier: String,
}

/// A live authenticated session: the bearer credential, the long-lived
/// refresh credential, and the instant (unix seconds) the access token stops
/// being trusted.
#[derive(Debug, Clone, PartialEq, Eq)]
pub struct LoggedInSession {
    pub access_token: String,
    pub refresh_token: String,
    pub expires_at: i64,
}

/// The tagged union a cookie decodes to. The wire format writes the variant
/// tag explicitly, so decoding discriminates unambiguously.
#[derive(Debug, Clone, PartialEq, Eq)]
pub enum Session {
    LoggedIn(LoggedInSession),
    TempCodeVerifier(TempCodeVerifierSession),
}

/// Mathematical image of `TempCodeVerifierSession`.
pub struct TempCodeVerifierSessionView {
    pub code_verifier: Seq<char>,
}

/// Mathematical image of `LoggedInSession`.
pub struct LoggedInSessionView {
    pub access_token: Seq<char>,
    pub refresh_token: Seq<char>,
    pub expires_at: int,
}

/// Mathematical image of `Session`.
pub enum SessionView {
    LoggedIn(LoggedInSessionView),
    TempCodeVerifier(TempCodeVerifierSessionView),
}

impl View for TempCodeVerifierSession {
    type V = TempCodeVerifierSessionView;

    open spec fn view(&self) -> TempCodeVerifierSessionView {
        TempCodeVerifierSessionView { code_verifier: self.code_verifier@ }
    }
}

impl View for LoggedInSession {
    type V = LoggedInSessionView;

    open spec fn view(&self) -> LoggedInSessionView {
        LoggedInSessionView {
            access_token: self.access_token@,
            refresh_token: self.refresh_token@,
            expires_at: self.expires_at as int,
        }
    }
}

impl View for Session {
    type V = SessionView;

    open spec fn view(&self) -> SessionView {
        match self {
            Session::LoggedIn(s) => SessionView::LoggedIn(s@),
            Session::TempCodeVerifier(s) => SessionView::TempCodeVerifier(s@),
        }
    }
}

/// Field length bound forced by the wire format's fixed-width length
/// headers.
pub const MAX_FIELD_CHARS: u64 = 0x100000000;

impl SessionView {
    /// A session value the wire format can carry: the timestamp is a machine
    /// integer and each text field fits the format's length header.
    pub open spec fn wf(self) -> bool {
        match self {
            SessionView::TempCodeVerifier(t) => t.code_verifier.len() < MAX_FIELD_CHARS,
            SessionView::LoggedIn(l) => {
                &&& l.access_token.len() < MAX_FIELD_CHARS
                &&& l.refresh_token.len() < MAX_FIELD_CHARS
                &&& i64::MIN <= l.expires_at <= i64::MAX
            },
        }
    }
}

/// Name of the one cookie that carries the whole state machine.
pub const COOKIE_NAME: &'static str = "session";

pub const COOKIE_DOMAIN: &'static str = "stream-stash.com";

pub const COOKIE_PATH: &'static str = "/";

pub const COOKIE_SECURE: bool = true;

pub const COOKIE_HTTP_ONLY: bool = true;

/// 2678400 seconds = 31 days
pub const COOKIE_MAX_AGE_SECONDS: i64 = 2678400;

/// The instant a cookie written now stops being honoured by the browser.
pub fn cookie_expires(now: i64) -> (r: i64)
    requires
        now + COOKIE_MAX_AGE_SECONDS <= i64::MAX,
    ensures
        r == now + COOKIE_MAX_AGE_SECONDS,
{
    now + COOKIE_MAX_AGE_SECONDS
}

/// A set-cookie directive: everything the transport layer needs to write
/// (or clear) the session cookie, as plain values.
#[derive(Debug, Clone, PartialEq, Eq)]
pub struct SetCookie {
    pub name: String,
    pub value: String,
    pub domain: String,
    pub path: String,
    pub secure: bool,
    pub http_only: bool,
    pub same_site_strict: bool,
    /// Unix seconds at which the cookie lapses; meaningless on a removal.
    pub expires: i64,
    /// True for the directive that clears the cookie.
    pub removal: bool,
}

/// The fixed cookie attributes every directive carries.
pub open spec fn cookie_policy(c: SetCookie) -> bool {
    &&& c.name@ == COOKIE_NAME@
    &&& c.domain@ == COOKIE_DOMAIN@
    &&& c.path@ == COOKIE_PATH@
    &&& c.secure == COOKIE_SECURE
    &&& c.http_only == COOKIE_HTTP_ONLY
    &&& c.same_site_strict
}

/// The directive that stores a session in the cookie. Fails (as an internal
/// fault) only when the session cannot be spelled by the wire format.
pub fn add_session_cookie(session: &Session, now: i64) -> (r: Result<SetCookie, ApiError>)
    requires
        now + COOKIE_MAX_AGE_SECONDS <= i64::MAX,
    ensures
        r is Ok <==> session@.wf(),
        r matches Ok(c) ==> {
            &&& cookie_policy(c)
            &&& !c.removal
            &&& c.value@ == spec_encode(session@)
            &&& c.expires == now + COOKIE_MAX_AGE_SECONDS
        },
        r matches Err(e) ==> e is InternalServerError,
{
    let value = match encode(session) {
        Ok(value) => value,
        Err(_) => {
            return Err(
                ApiError::InternalServerError("Could not add session cookie".to_owned()),
            );
        },
    };
    Ok(
        SetCookie {
            name: COOKIE_NAME.to_owned(),
            value,
            domain: COOKIE_DOMAIN.to_owned(),
            path: COOKIE_PATH.to_owned(),
            secure: COOKIE_SECURE,
            http_only: COOKIE_HTTP_ONLY,
            same_site_strict: true,
            expires: cookie_expires(now),
            removal: false,
        },
    )
}

/// The directive that clears the session cookie.
pub fn remove_session_cookie() -> (r: SetCookie)
    ensures
        cookie_policy(r),
        r.removal,
        r.value@ == Seq::<char>::empty(),
{
    SetCookie {
        name: COOKIE_NAME.to_owned(),
        value: String::new(),
        domain: COOKIE_DOMAIN.to_owned(),
        path: COOKIE_PATH.to_owned(),
        secure: COOKIE_SECURE,
        http_only: COOKIE_HTTP_ONLY,
        same_site_strict: true,
        expires: 0,
        removal: true,
    }
}

/// A session whose access token is no longer trusted: `now` has reached
/// `expires_at`.
pub open spec fn session_expired(l: LoggedInSessionView, now: int) -> bool {
    now >= l.expires_at
}

impl LoggedInSession {
    /// Clock-relative sub-state of an authenticated session: expired as soon
    /// as `now` reaches `expires_at`, fresh strictly before.
    pub fn is_expired(&self, now: i64) -> (r: bool)
        ensures
            r == session_expired(self@, now as int),
    {
        now >= self.expires_at
    }
}

/// What a protected request may proceed with: a fresh session to use, or
/// the stored refresh token to present to the provider first.
#[derive(Debug, Clone, PartialEq, Eq)]
pub enum AccessCheck {
    Grant(LoggedInSession),
    Refresh(String),
}

/// The single precondition of every authenticated operation: decode the
/// presented cookie, classify it, and either grant the fresh session,
/// demand one refresh, or fail closed.
pub fn protected_access(cookie: Option<&String>, now: i64) -> (r: Result<AccessCheck, ApiError>)
    ensures
        r matches Err(e) ==> e is Forbidden,
        cookie is None ==> r is Err,
        cookie matches Some(c) ==> (!decodable(c@) ==> r is Err),
        cookie matches Some(c) ==> (decodable(c@) && decoded_of(c@) is TempCodeVerifier ==> r
            is Err),
        cookie matches Some(c) ==> ((decodable(c@) && decoded_of(c@) is LoggedIn
            && !session_expired(decoded_of(c@)->LoggedIn_0, now as int)) ==> (r matches Ok(
            AccessCheck::Grant(s),
        ) && s@ == decoded_of(c@)->LoggedIn_0)),
        cookie matches Some(c) ==> ((decodable(c@) && decoded_of(c@) is LoggedIn
            && session_expired(decoded_of(c@)->LoggedIn_0, now as int)) ==> (r matches Ok(
            AccessCheck::Refresh(tok),
        ) && tok@ == decoded_of(c@)->LoggedIn_0.refresh_token)),
{
    let c = match cookie {
        None => {
            return Err(ApiError::Forbidden("Could not get session cookie".to_owned()));
        },
        Some(c) => c,
    };
    match decode(c.as_str()) {
        Err(_) => Err(
            ApiError::Forbidden(
                "Could not parse LoggedInSession from session cookie".to_owned(),
            ),
        ),
        Ok(Session::TempCodeVerifier(_)) => Err(
            ApiError::Forbidden(
                "Could not parse LoggedInSession from session cookie".to_owned(),
            ),
        ),
        Ok(Session::LoggedIn(l)) => {
            if l.is_expired(now) {
                Ok(AccessCheck::Refresh(l.refresh_token))
            } else {
                Ok(AccessCheck::Grant(l))
            }
        },
    }
}

/// The guard of the login-completion step: the cookie must decode to the
/// pending-login variant; anything else fails closed, before any call to
/// the provider is considered.
pub fn temp_code_verifier_access(cookie: Option<&String>) -> (r: Result<
    TempCodeVerifierSession,
    ApiError,
>)
    ensures
        r matches Err(e) ==> e is Forbidden,
        cookie is None ==> r is Err,
        cookie matches Some(c) ==> (!decodable(c@) ==> r is Err),
        cookie matches Some(c) ==> (decodable(c@) && decoded_of(c@) is LoggedIn ==> r is Err),
        cookie matches Some(c) ==> ((decodable(c@) && decoded_of(c@) is TempCodeVerifier) ==> (r
            matches Ok(s) && s@ == decoded_of(c@)->TempCodeVerifier_0)),
{
    let c = match cookie {
        None => {
            return Err(ApiError::Forbidden("Could not get session cookie".to_owned()));
        },
        Some(c) => c,
    };
    match decode(c.as_str()) {
        Err(_) => Err(
            ApiError::Forbidden(
                "Could not parse TempCodeVerifierSession from session cookie".to_owned(),
            ),
        ),
        Ok(Session::LoggedIn(_)) => Err(
            ApiError::Forbidden(
                "Could not parse TempCodeVerifierSession from session cookie".to_owned(),
            ),
        ),
        Ok(Session::TempCodeVerifier(t)) => Ok(t),
    }
}

} // verus!
