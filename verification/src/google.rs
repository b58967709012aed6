//! The identity-provider side of the flow: the PKCE material, the
//! authorization URL, the scope check, and the decisions taken on each kind
//! of provider response.
//!
//! Network transport stays outside the library: every function here either
//! computes a request (a URL, a header, a body) from plain values, or takes
//! the provider's already-parsed answer as a plain value and decides what it
//! means for the session.

use vstd::prelude::*;

use crate::session::LoggedInSession;
use crate::{expires_at, ApiError, ApiResult, TOLERANCE};
use vstd::string::StringExecFns;

verus! {

/// The exact scope set requested from the provider; a response granting any
/// other set is refused.
pub const AUTH_SCOPE: &'static str =
    "https://www.googleapis.com/auth/drive.appdata https://www.googleapis.com/auth/userinfo.email openid";

/// Where the provider sends the user back after consent.
pub const REDIRECT_URL: &'static str = "https://www.stream-stash.com/loginRedirect";

/// Process-wide provider credentials, loaded once at startup.
pub struct ApplicationDetails {
    pub client_id: String,
    pub client_secret: String,
}

/// The separators of a space-delimited scope string.
pub open spec fn is_space(c: char) -> bool {
    c == ' ' || c == '\t' || c == '\n' || c == '\r' || c == '\u{c}'
}

/// `[i0, j0)` delimits one scope token of `s`: a maximal run of
/// non-separator characters.
pub open spec fn token_span(s: Seq<char>, i0: int, j0: int) -> bool {
    &&& 0 <= i0 < j0 <= s.len()
    &&& (forall|k: int| i0 <= k < j0 ==> !is_space(#[trigger] s[k]))
    &&& (i0 == 0 || is_space(s[i0 - 1]))
    &&& (j0 == s.len() || is_space(s[j0]))
}

/// `w` is one of the scope tokens of `s`.
pub open spec fn is_scope_token(s: Seq<char>, w: Seq<char>) -> bool {
    exists|i0: int, j0: int| #[trigger] token_span(s, i0, j0) && w == s.subrange(i0, j0)
}

/// The scope string as a set: order and repetition do not matter.
pub open spec fn scope_set(s: Seq<char>) -> Set<Seq<char>> {
    Set::new(|w: Seq<char>| is_scope_token(s, w))
}

/// `w` appears among the collected tokens.
pub open spec fn tok_listed(ts: Seq<String>, w: Seq<char>) -> bool {
    exists|k: int| 0 <= k < ts.len() && #[trigger] ts[k]@ == w
}

/// Splits a scope string into its tokens. The result carries every scope
/// token of `s` and nothing else.
fn split_scope(s: &str) -> (toks: Vec<String>)
    ensures
        forall|k: int| 0 <= k < toks@.len() ==> is_scope_token(s@, #[trigger] toks@[k]@),
        forall|w: Seq<char>| is_scope_token(s@, w) ==> tok_listed(toks@, w),
{
    let v = crate::chars::chars_of_str(s);
    let n = v.len();
    let mut toks: Vec<String> = Vec::new();
    let mut i: usize = 0;
    while i < n
        invariant
            n == v@.len(),
            v@ == s@,
            i <= n,
            forall|k: int| 0 <= k < toks@.len() ==> is_scope_token(s@, #[trigger] toks@[k]@),
            forall|i0: int, j0: int|
                #[trigger] token_span(s@, i0, j0) && i0 < i ==> tok_listed(
                    toks@,
                    s@.subrange(i0, j0),
                ),
            i < n && !is_space(s@[i as int]) ==> (i == 0 || is_space(s@[i - 1])),
        decreases n - i,
    {
        let c = v[i];
        if c == ' ' || c == '\t' || c == '\n' || c == '\r' || c == '\u{c}' {
            proof {
                assert forall|i0: int, j0: int|
                    #[trigger] token_span(s@, i0, j0) && i0 < i + 1 implies tok_listed(
                    toks@,
                    s@.subrange(i0, j0),
                ) by {
                    if i0 == i {
                        assert(!is_space(s@[i0]));
                    }
                }
            }
            i = i + 1;
        } else {
            let start = i;
            let mut tok: Vec<char> = Vec::new();
            while i < n && !(v[i] == ' ' || v[i] == '\t' || v[i] == '\n' || v[i] == '\r' || v[i]
                == '\u{c}')
                invariant
                    n == v@.len(),
                    v@ == s@,
                    start <= i <= n,
                    start < n,
                    forall|k: int| start <= k < i ==> !is_space(#[trigger] s@[k]),
                    tok@ == s@.subrange(start as int, i as int),
                decreases n - i,
            {
                proof {
                    assert(tok@.push(v@[i as int]) =~= s@.subrange(start as int, i as int + 1));
                }
                tok.push(v[i]);
                i = i + 1;
            }
            let ghost end = i as int;
            let t = crate::chars::string_from_chars(tok);
            let ghost prev_toks = toks@;
            toks.push(t);
            proof {
                assert(toks@ == prev_toks.push(t));
                assert(token_span(s@, start as int, end));
                assert(toks@[toks@.len() - 1]@ == s@.subrange(start as int, end));
                assert forall|k: int| 0 <= k < toks@.len() implies is_scope_token(
                    s@,
                    #[trigger] toks@[k]@,
                ) by {
                    if k < prev_toks.len() {
                        assert(toks@[k] == prev_toks[k]);
                    } else {
                        assert(token_span(s@, start as int, end) && toks@[k]@ == s@.subrange(
                            start as int,
                            end,
                        ));
                    }
                }
                assert forall|i0: int, j0: int|
                    #[trigger] token_span(s@, i0, j0) && i0 < i implies tok_listed(
                    toks@,
                    s@.subrange(i0, j0),
                ) by {
                    if i0 < start {
                        assert(tok_listed(prev_toks, s@.subrange(i0, j0)));
                        let k = choose|k: int|
                            0 <= k < prev_toks.len() && #[trigger] prev_toks[k]@ == s@.subrange(
                                i0,
                                j0,
                            );
                        assert(toks@[k]@ == s@.subrange(i0, j0));
                    } else {
                        // a token starting inside a non-separator run starts
                        // at the run's start and ends at its end
                        assert(i0 == start) by {
                            if i0 > start {
                                assert(!is_space(s@[i0 - 1]));
                            }
                        };
                        assert(j0 == end) by {
                            if j0 < end {
                                assert(!is_space(s@[j0]));
                            }
                            if j0 > end {
                                assert(end < s@.len());
                                assert(forall|k: int| i0 <= k < j0 ==> !is_space(#[trigger] s@[k]));
                                assert(!is_space(s@[end]));
                                assert(i < n);
                                assert(is_space(s@[end]));
                            }
                        };
                        assert(toks@[toks@.len() - 1]@ == s@.subrange(i0, j0));
                    }
                }
            }
        }
    }
    toks
}

/// True when `w` is the view of some element of `ts`.
fn scope_token_listed(ts: &Vec<String>, w: &String) -> (r: bool)
    ensures
        r == tok_listed(ts@, w@),
{
    let n = ts.len();
    let mut k: usize = 0;
    while k < n
        invariant
            n == ts@.len(),
            k <= n,
            forall|m: int| 0 <= m < k ==> #[trigger] ts@[m]@ != w@,
        decreases n - k,
    {
        if ts[k].eq(w) {
            return true;
        }
        k = k + 1;
    }
    false
}

/// Set equality of two scope strings: every token of each appears in the
/// other. Order and duplication are irrelevant; a missing or extra token
/// fails.
pub fn scope_sets_equal(a: &str, b: &str) -> (r: bool)
    ensures
        r == (scope_set(a@) == scope_set(b@)),
{
    let ta = split_scope(a);
    let tb = split_scope(b);
    let na = ta.len();
    let mut k: usize = 0;
    while k < na
        invariant
            na == ta@.len(),
            k <= na,
            forall|k2: int| 0 <= k2 < ta@.len() ==> is_scope_token(a@, #[trigger] ta@[k2]@),
            forall|w: Seq<char>| is_scope_token(a@, w) ==> tok_listed(ta@, w),
            forall|k2: int| 0 <= k2 < tb@.len() ==> is_scope_token(b@, #[trigger] tb@[k2]@),
            forall|w: Seq<char>| is_scope_token(b@, w) ==> tok_listed(tb@, w),
            forall|m: int| 0 <= m < k ==> tok_listed(tb@, #[trigger] ta@[m]@),
        decreases na - k,
    {
        if !scope_token_listed(&tb, &ta[k]) {
            proof {
                let w = ta@[k as int]@;
                assert(scope_set(a@).contains(w));
                if is_scope_token(b@, w) {
                    assert(tok_listed(tb@, w));
                }
                assert(!scope_set(b@).contains(w));
            }
            return false;
        }
        k = k + 1;
    }
    let nb = tb.len();
    let mut m: usize = 0;
    while m < nb
        invariant
            nb == tb@.len(),
            m <= nb,
            forall|k2: int| 0 <= k2 < ta@.len() ==> is_scope_token(a@, #[trigger] ta@[k2]@),
            forall|w: Seq<char>| is_scope_token(a@, w) ==> tok_listed(ta@, w),
            forall|k2: int| 0 <= k2 < tb@.len() ==> is_scope_token(b@, #[trigger] tb@[k2]@),
            forall|w: Seq<char>| is_scope_token(b@, w) ==> tok_listed(tb@, w),
            forall|k2: int| 0 <= k2 < ta@.len() ==> tok_listed(tb@, #[trigger] ta@[k2]@),
            forall|m2: int| 0 <= m2 < m ==> tok_listed(ta@, #[trigger] tb@[m2]@),
        decreases nb - m,
    {
        if !scope_token_listed(&ta, &tb[m]) {
            proof {
                let w = tb@[m as int]@;
                assert(scope_set(b@).contains(w));
                if is_scope_token(a@, w) {
                    assert(tok_listed(ta@, w));
                }
                assert(!scope_set(a@).contains(w));
            }
            return false;
        }
        m = m + 1;
    }
    proof {
        assert forall|w: Seq<char>| scope_set(a@).contains(w) implies scope_set(b@).contains(
            w,
        ) by {
            assert(tok_listed(ta@, w));
            let k = choose|k: int| 0 <= k < ta@.len() && #[trigger] ta@[k]@ == w;
            assert(tok_listed(tb@, ta@[k]@));
            let m2 = choose|m2: int| 0 <= m2 < tb@.len() && #[trigger] tb@[m2]@ == ta@[k]@;
            assert(is_scope_token(b@, tb@[m2]@));
        }
        assert forall|w: Seq<char>| scope_set(b@).contains(w) implies scope_set(a@).contains(
            w,
        ) by {
            assert(tok_listed(tb@, w));
            let m2 = choose|m2: int| 0 <= m2 < tb@.len() && #[trigger] tb@[m2]@ == w;
            assert(tok_listed(ta@, tb@[m2]@));
            let k = choose|k: int| 0 <= k < ta@.len() && #[trigger] ta@[k]@ == tb@[m2]@;
            assert(is_scope_token(a@, ta@[k]@));
        }
        assert(scope_set(a@) =~= scope_set(b@));
    }
    true
}

/// A granted scope set that equals the requested one, token for token.
pub open spec fn scope_granted(s: Seq<char>) -> bool {
    scope_set(s) == scope_set(AUTH_SCOPE@)
}

/// The check applied to every token response: the provider must grant
/// exactly the requested scope set.
pub fn compare_scope(scope: String) -> (r: bool)
    ensures
        r == scope_granted(scope@),
{
    scope_sets_equal(scope.as_str(), AUTH_SCOPE)
}

/// The scope check is order-independent: two scope strings compare equal
/// one way round exactly when they compare equal the other way round.
pub proof fn lemma_scope_check_symmetric(a: Seq<char>, b: Seq<char>)
    ensures
        (scope_set(a) == scope_set(b)) == (scope_set(b) == scope_set(a)),
{
}


/// The verifier alphabet the generator draws from: ASCII letters, digits,
/// and `-.~_`.
pub open spec fn is_verifier_byte(b: u8) -> bool {
    ||| 0x41 <= b <= 0x5A
    ||| 0x61 <= b <= 0x7A
    ||| 0x30 <= b <= 0x39
    ||| b == 0x2D
    ||| b == 0x2E
    ||| b == 0x7E
    ||| b == 0x5F
}

/// What the provider must be shown to redeem a code: derived from the
/// verifier bytes alone (a SHA-256 digest in unpadded base64url).
pub uninterp spec fn challenge_of(verifier: Seq<u8>) -> Seq<char>;

/// Relies on `pkce::code_verifier`: it returns exactly `length` bytes, each
/// drawn from the RFC 7636 unreserved alphabet, and panics outside
/// 43..=128, which the precondition excludes.
#[verifier::external_body]
fn pkce_code_verifier(length: usize) -> (r: Vec<u8>)
    requires
        43 <= length <= 128,
    ensures
        r@.len() == length,
        forall|i: int| 0 <= i < r@.len() ==> is_verifier_byte(#[trigger] r@[i]),
{
    pkce::code_verifier(length)
}

/// Relies on `pkce::code_challenge`: a function of the verifier bytes alone
/// (SHA-256, then base64url without padding).
#[verifier::external_body]
fn pkce_code_challenge(verifier: &Vec<u8>) -> (r: String)
    ensures
        r@ == challenge_of(verifier@),
{
    pkce::code_challenge(verifier.as_slice())
}

/// The code points of a verifier string, byte for byte.
pub open spec fn verifier_bytes(s: Seq<char>) -> Seq<u8> {
    s.map_values(|c: char| c as u8)
}

/// The authorization redirect URL for one login attempt.
pub open spec fn auth_url_chars(client_id: Seq<char>, challenge: Seq<char>) -> Seq<char> {
    "https://accounts.google.com/o/oauth2/v2/auth?client_id="@
        + crate::urlenc::form_enc(client_id) + "&redirect_uri="@ + crate::urlenc::form_enc(
        REDIRECT_URL@,
    ) + "&response_type=code&prompt=consent&access_type=offline&scope="@
        + crate::urlenc::form_enc(AUTH_SCOPE@) + "&code_challenge="@ + crate::urlenc::form_enc(
        challenge,
    ) + "&code_challenge_method=S256"@
}

/// Starts a login attempt: draws a fresh PKCE verifier and builds the
/// authorization URL carrying its derived challenge. Pure computation; the
/// caller persists the verifier (in the session cookie) and sends the
/// browser to the URL.
pub fn generate_auth_url_and_code_verifier(
    google_application_details: &ApplicationDetails,
) -> (r: (String, String))
    ensures
        ({
            let (url, verifier) = r;
            &&& verifier@.len() == 128
            &&& (forall|i: int|
                0 <= i < verifier@.len() ==> is_verifier_byte(
                    #[trigger] verifier_bytes(verifier@)[i],
                ))
            &&& url@ == auth_url_chars(
                google_application_details.client_id@,
                challenge_of(verifier_bytes(verifier@)),
            )
        }),
{
    let code_verifier = pkce_code_verifier(128);
    let code_challenge = pkce_code_challenge(&code_verifier);

    let mut url: Vec<char> = Vec::new();
    crate::urlenc::push_chars(&mut url, "https://accounts.google.com/o/oauth2/v2/auth?client_id=");
    crate::urlenc::push_form_enc(&mut url, google_application_details.client_id.as_str());
    crate::urlenc::push_chars(&mut url, "&redirect_uri=");
    crate::urlenc::push_form_enc(&mut url, REDIRECT_URL);
    crate::urlenc::push_chars(
        &mut url,
        "&response_type=code&prompt=consent&access_type=offline&scope=",
    );
    crate::urlenc::push_form_enc(&mut url, AUTH_SCOPE);
    crate::urlenc::push_chars(&mut url, "&code_challenge=");
    crate::urlenc::push_form_enc(&mut url, code_challenge.as_str());
    crate::urlenc::push_chars(&mut url, "&code_challenge_method=S256");

    let n = code_verifier.len();
    let mut vc: Vec<char> = Vec::new();
    let mut i: usize = 0;
    while i < n
        invariant
            n == code_verifier@.len(),
            forall|j: int|
                0 <= j < code_verifier@.len() ==> is_verifier_byte(#[trigger] code_verifier@[j]),
            i <= n,
            vc@.len() == i,
            forall|j: int| 0 <= j < i ==> #[trigger] vc@[j] == code_verifier@[j] as char,
        decreases n - i,
    {
        let b = code_verifier[i];
        vc.push(b as char);
        i = i + 1;
    }
    let code_verifier_string = crate::chars::string_from_chars(vc);
    proof {
        assert(verifier_bytes(code_verifier_string@) =~= code_verifier@);
    }

    (crate::chars::string_from_chars(url), code_verifier_string)
}


/// The token set a successful code exchange returns, already parsed into
/// plain values by the transport layer.
#[derive(Debug, Clone, PartialEq, Eq)]
pub struct TokenResponse {
    pub access_token: String,
    pub refresh_token: String,
    pub scope: String,
    pub expires_in: u64,
}

/// What came back from the token endpoint for a code exchange: a token set,
/// a structurally valid rejection (the provider's own error body), or a
/// transport-level failure (connection, timeout, malformed response).
#[derive(Debug, Clone, PartialEq, Eq)]
pub enum ExchangeOutcome {
    Tokens(TokenResponse),
    Rejected(String),
    TransportFault(String),
}

/// The token set a successful refresh returns. This provider does not
/// rotate the refresh token, so none comes back; the caller carries the old
/// one forward.
#[derive(Debug, Clone, PartialEq, Eq)]
pub struct RefreshResponse {
    pub access_token: String,
    pub scope: String,
    pub expires_in: u64,
}

/// What came back from the token endpoint for a refresh.
#[derive(Debug, Clone, PartialEq, Eq)]
pub enum RefreshOutcome {
    Tokens(RefreshResponse),
    Rejected(String),
    TransportFault(String),
}

/// What came back from the revocation endpoint. Only HTTP-level success
/// matters; the response body is not inspected.
#[derive(Debug, Clone, PartialEq, Eq)]
pub enum RevokeOutcome {
    Response,
    TransportFault(String),
}

/// What came back from the profile endpoint.
#[derive(Debug, Clone, PartialEq, Eq)]
pub enum UserInfoOutcome {
    Profile(String),
    Rejected(String),
    TransportFault(String),
}

/// A reported token lifetime the expiry formula can be applied to: at least
/// the tolerance, and landing inside the timestamp type. Anything else in a
/// token response is treated as malformed.
pub open spec fn lifetime_ok(now: int, expires_in: u64) -> bool {
    &&& TOLERANCE <= expires_in
    &&& expires_in - TOLERANCE <= i64::MAX
    &&& now + expires_in - TOLERANCE <= i64::MAX
}

/// Checks a reported lifetime against `lifetime_ok` and computes the
/// session expiry instant.
fn checked_expires_at(now: i64, expires_in: u64) -> (r: Option<i64>)
    ensures
        r is Some <==> lifetime_ok(now as int, expires_in),
        r matches Some(ea) ==> ea == now + expires_in - TOLERANCE,
{
    if expires_in < TOLERANCE {
        return None;
    }
    let margin_u = expires_in - TOLERANCE;
    if margin_u > i64::MAX as u64 {
        return None;
    }
    let margin = margin_u as i64;
    if now > i64::MAX - margin {
        return None;
    }
    Some(expires_at(now, expires_in))
}

/// Builds the logged-in session a successful code exchange establishes, or
/// the failure it collapses to: a provider rejection or a scope mismatch is
/// `Forbidden`, a transport fault or an unusable reported lifetime is
/// internal.
pub fn create_session(outcome: ExchangeOutcome, now: i64) -> (r: ApiResult<LoggedInSession>)
    ensures
        r is Ok <==> (outcome matches ExchangeOutcome::Tokens(t) && scope_granted(t.scope@)
            && lifetime_ok(now as int, t.expires_in)),
        outcome matches ExchangeOutcome::Tokens(t) ==> ((scope_granted(t.scope@) && lifetime_ok(
            now as int,
            t.expires_in,
        )) ==> (r matches Ok(s) && s@.access_token == t.access_token@ && s@.refresh_token
            == t.refresh_token@ && s@.expires_at == now + t.expires_in - TOLERANCE)),
        outcome matches ExchangeOutcome::Tokens(t) ==> (!scope_granted(t.scope@) ==> (r matches
            Err(e) && e is Forbidden)),
        outcome matches ExchangeOutcome::Tokens(t) ==> ((scope_granted(t.scope@) && !lifetime_ok(
            now as int,
            t.expires_in,
        )) ==> (r matches Err(e) && e is InternalServerError)),
        outcome is Rejected ==> (r matches Err(e) && e is Forbidden),
        outcome is TransportFault ==> (r matches Err(e) && e is InternalServerError),
{
    match outcome {
        ExchangeOutcome::Tokens(t) => {
            if !compare_scope(t.scope) {
                return Err(
                    ApiError::Forbidden("Requested and received scope not the same".to_owned()),
                );
            }
            match checked_expires_at(now, t.expires_in) {
                None => Err(
                    ApiError::InternalServerError(
                        "Token lifetime reported by Google is unusable".to_owned(),
                    ),
                ),
                Some(expires_at) => Ok(
                    LoggedInSession {
                        access_token: t.access_token,
                        refresh_token: t.refresh_token,
                        expires_at,
                    },
                ),
            }
        },
        ExchangeOutcome::Rejected(err) => Err(
            ApiError::Forbidden("Could not authenticate with Google: ".to_owned().concat(
                err.as_str(),
            )),
        ),
        ExchangeOutcome::TransportFault(err) => Err(ApiError::InternalServerError(err)),
    }
}

/// Builds the replacement session a successful refresh establishes: a new
/// access token and expiry, the old refresh token carried forward
/// unchanged. Failures collapse exactly as in `create_session`.
pub fn create_refreshed_session(refresh_token: String, outcome: RefreshOutcome, now: i64) -> (r:
    ApiResult<LoggedInSession>)
    ensures
        r is Ok <==> (outcome matches RefreshOutcome::Tokens(t) && scope_granted(t.scope@)
            && lifetime_ok(now as int, t.expires_in)),
        outcome matches RefreshOutcome::Tokens(t) ==> ((scope_granted(t.scope@) && lifetime_ok(
            now as int,
            t.expires_in,
        )) ==> (r matches Ok(s) && s@.access_token == t.access_token@ && s@.refresh_token
            == refresh_token@ && s@.expires_at == now + t.expires_in - TOLERANCE)),
        outcome matches RefreshOutcome::Tokens(t) ==> (!scope_granted(t.scope@) ==> (r matches
            Err(e) && e is Forbidden)),
        outcome matches RefreshOutcome::Tokens(t) ==> ((scope_granted(t.scope@) && !lifetime_ok(
            now as int,
            t.expires_in,
        )) ==> (r matches Err(e) && e is InternalServerError)),
        outcome is Rejected ==> (r matches Err(e) && e is Forbidden),
        outcome is TransportFault ==> (r matches Err(e) && e is InternalServerError),
{
    match outcome {
        RefreshOutcome::Tokens(t) => {
            if !compare_scope(t.scope) {
                return Err(
                    ApiError::Forbidden("Requested and received scope not the same".to_owned()),
                );
            }
            match checked_expires_at(now, t.expires_in) {
                None => Err(
                    ApiError::InternalServerError(
                        "Token lifetime reported by Google is unusable".to_owned(),
                    ),
                ),
                Some(expires_at) => Ok(
                    LoggedInSession { access_token: t.access_token, refresh_token, expires_at },
                ),
            }
        },
        RefreshOutcome::Rejected(err) => Err(
            ApiError::Forbidden("Could not reauthenticate with Google: ".to_owned().concat(
                err.as_str(),
            )),
        ),
        RefreshOutcome::TransportFault(err) => Err(ApiError::InternalServerError(err)),
    }
}

/// Settles a revocation attempt: any response from the provider counts as
/// success, only a transport fault is an error.
pub fn revoke_session(outcome: RevokeOutcome) -> (r: ApiResult<()>)
    ensures
        r is Ok <==> outcome is Response,
        r matches Err(e) ==> e is InternalServerError,
{
    match outcome {
        RevokeOutcome::Response => Ok(()),
        RevokeOutcome::TransportFault(err) => Err(ApiError::InternalServerError(err)),
    }
}

/// Extracts the account email from a profile response, or the failure the
/// attempt collapses to.
pub fn get_user_email(outcome: UserInfoOutcome) -> (r: ApiResult<String>)
    ensures
        r is Ok <==> outcome is Profile,
        outcome matches UserInfoOutcome::Profile(email) ==> (r matches Ok(e) && e@ == email@),
        outcome is Rejected ==> (r matches Err(e) && e is Forbidden),
        outcome is TransportFault ==> (r matches Err(e) && e is InternalServerError),
{
    match outcome {
        UserInfoOutcome::Profile(email) => Ok(email),
        UserInfoOutcome::Rejected(err) => Err(
            ApiError::Forbidden("Could not get user information from Google: ".to_owned().concat(
                err.as_str(),
            )),
        ),
        UserInfoOutcome::TransportFault(err) => Err(ApiError::InternalServerError(err)),
    }
}

/// The revocation URL for an access token.
pub fn revoke_url(access_token: &str) -> (r: String)
    ensures
        r@ == "https://oauth2.googleapis.com/revoke?token="@ + crate::urlenc::form_enc(
            access_token@,
        ),
{
    let mut url: Vec<char> = Vec::new();
    crate::urlenc::push_chars(&mut url, "https://oauth2.googleapis.com/revoke?token=");
    crate::urlenc::push_form_enc(&mut url, access_token);
    crate::chars::string_from_chars(url)
}

/// The authorization header value a bearer-authenticated request carries.
pub fn bearer_header(access_token: &str) -> (r: String)
    ensures
        r@ == "Bearer "@ + access_token@,
{
    let mut h: Vec<char> = Vec::new();
    crate::urlenc::push_chars(&mut h, "Bearer ");
    crate::urlenc::push_chars(&mut h, access_token);
    crate::chars::string_from_chars(h)
}


/// The token endpoint, used for both the code exchange and the refresh.
pub const TOKEN_URL: &'static str = "https://oauth2.googleapis.com/token";

/// The bearer-authenticated profile endpoint.
pub const USERINFO_URL: &'static str = "https://www.googleapis.com/oauth2/v2/userinfo";

/// The JSON body of a code-exchange request.
pub open spec fn exchange_body_chars(
    client_id: Seq<char>,
    client_secret: Seq<char>,
    code: Seq<char>,
    code_verifier: Seq<char>,
) -> Seq<char> {
    "{\"client_id\":"@ + crate::jsonenc::json_str(client_id) + ",\"client_secret\":"@
        + crate::jsonenc::json_str(client_secret) + ",\"code\":"@ + crate::jsonenc::json_str(
        code,
    ) + ",\"code_verifier\":"@ + crate::jsonenc::json_str(code_verifier)
        + ",\"grant_type\":\"authorization_code\",\"redirect_uri\":"@
        + crate::jsonenc::json_str(REDIRECT_URL@) + "}"@
}

/// Frames the JSON body of a code-exchange request.
pub fn exchange_request_body(
    google_application_details: &ApplicationDetails,
    auth_code: &str,
    code_verifier: &str,
) -> (r: String)
    ensures
        r@ == exchange_body_chars(
            google_application_details.client_id@,
            google_application_details.client_secret@,
            auth_code@,
            code_verifier@,
        ),
{
    let mut b: Vec<char> = Vec::new();
    crate::urlenc::push_chars(&mut b, "{\"client_id\":");
    crate::jsonenc::push_json_str(&mut b, google_application_details.client_id.as_str());
    crate::urlenc::push_chars(&mut b, ",\"client_secret\":");
    crate::jsonenc::push_json_str(&mut b, google_application_details.client_secret.as_str());
    crate::urlenc::push_chars(&mut b, ",\"code\":");
    crate::jsonenc::push_json_str(&mut b, auth_code);
    crate::urlenc::push_chars(&mut b, ",\"code_verifier\":");
    crate::jsonenc::push_json_str(&mut b, code_verifier);
    crate::urlenc::push_chars(
        &mut b,
        ",\"grant_type\":\"authorization_code\",\"redirect_uri\":",
    );
    crate::jsonenc::push_json_str(&mut b, REDIRECT_URL);
    crate::urlenc::push_chars(&mut b, "}");
    crate::chars::string_from_chars(b)
}

/// The JSON body of a refresh request.
pub open spec fn refresh_body_chars(
    client_id: Seq<char>,
    client_secret: Seq<char>,
    refresh_token: Seq<char>,
) -> Seq<char> {
    "{\"client_id\":"@ + crate::jsonenc::json_str(client_id) + ",\"client_secret\":"@
        + crate::jsonenc::json_str(client_secret)
        + ",\"grant_type\":\"refresh_token\",\"refresh_token\":"@
        + crate::jsonenc::json_str(refresh_token) + "}"@
}

/// Frames the JSON body of a refresh request.
pub fn refresh_request_body(
    google_application_details: &ApplicationDetails,
    refresh_token: &str,
) -> (r: String)
    ensures
        r@ == refresh_body_chars(
            google_application_details.client_id@,
            google_application_details.client_secret@,
            refresh_token@,
        ),
{
    let mut b: Vec<char> = Vec::new();
    crate::urlenc::push_chars(&mut b, "{\"client_id\":");
    crate::jsonenc::push_json_str(&mut b, google_application_details.client_id.as_str());
    crate::urlenc::push_chars(&mut b, ",\"client_secret\":");
    crate::jsonenc::push_json_str(&mut b, google_application_details.client_secret.as_str());
    crate::urlenc::push_chars(
        &mut b,
        ",\"grant_type\":\"refresh_token\",\"refresh_token\":",
    );
    crate::jsonenc::push_json_str(&mut b, refresh_token);
    crate::urlenc::push_chars(&mut b, "}");
    crate::chars::string_from_chars(b)
}

} // verus!
