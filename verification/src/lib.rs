//! Session and credential lifecycle for a cookie-backed OAuth2 login flow.
//!
//! The library owns the logic of the flow: PKCE material, the cookie wire
//! format for the session value, the scope check on provider responses, the
//! expiry arithmetic, and the decisions of the session state machine. All
//! network transport and HTTP routing live outside the library and hand it
//! plain values.

use vstd::prelude::*;

pub mod chars;
pub mod codec;
pub mod decfmt;
pub mod google;
pub mod hexfmt;
pub mod jsonenc;
pub mod session;
pub mod tmdb;
pub mod urlenc;
pub mod v1router;

verus! {

/// Safety margin, in seconds, subtracted from a token lifetime reported by
/// the provider, so a session counts as expired slightly before the provider
/// invalidates the token.
pub const TOLERANCE: u64 = 100;

/// The error taxonomy every failure collapses into before it reaches the
/// routing layer: `Forbidden` asks the client to re-authenticate,
/// `InternalServerError` reports a transport or configuration fault.
#[derive(Debug, Clone)]
pub enum ApiError {
    Forbidden(String),
    InternalServerError(String),
}

impl ApiError {
    /// True for the re-authenticate kind of failure.
    pub fn is_forbidden(&self) -> (r: bool)
        ensures
            r == self is Forbidden,
    {
        match self {
            ApiError::Forbidden(_) => true,
            ApiError::InternalServerError(_) => false,
        }
    }
}

pub type ApiResult<T> = Result<T, ApiError>;

/// The instant a token issued now with lifetime `expires_in` stops being
/// trusted: the reported lifetime minus the safety tolerance.
pub fn expires_at(now: i64, expires_in: u64) -> (r: i64)
    requires
        TOLERANCE <= expires_in,
        expires_in - TOLERANCE <= i64::MAX,
        now + expires_in - TOLERANCE <= i64::MAX,
    ensures
        r == now + expires_in - TOLERANCE,
{
    let margin: i64 = (expires_in - TOLERANCE) as i64;
    now + margin
}

} // verus!
