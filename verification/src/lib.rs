//! Client-side logic for the Bakaláři school-information-system API.
//!
//! The heart of the crate is the session lifecycle: a client logs in with
//! username and password, receives an access/refresh token pair with an
//! expiry instant, and must renew the pair through the refresh grant before
//! presenting a token that has expired.  Every resource accessor goes through
//! that gate, and concurrent callers that find the session expired must
//! converge on a single refresh exchange, because the server rotates the
//! refresh token on every renewal.
//!
//! Request construction (endpoint URLs, form-encoded grant bodies, bearer
//! headers, date formatting) and response interpretation (the JSON schema
//! mapping and the plain-text counter) are plain computations and are
//! specified and verified here.  The HTTP transport, the wall clock and the
//! JSON text codec live outside the library and hand it plain values: an
//! instant is a `u64` of seconds, a response body arrives as a [`json::JsonValue`]
//! tree or as text, and every operation that needs the wire returns a
//! [`request::HttpRequest`] value for the caller to execute.

use vstd::prelude::*;
use vstd::string::*;

pub mod json;
pub mod marks;
pub mod request;
pub mod shared;
pub mod timetable;

use json::JsonValue;
use json::field_int;
use json::field_str;
use json::get_str_field;
use json::get_u64_field;
use request::HttpRequest;
use request::Method;
use request::concat_str;

verus! {

/// Failure of a credential exchange (login or refresh).
#[derive(Clone, Copy, Debug, PartialEq, Eq, Structural)]
pub enum AuthError {
    /// The exchange completed but did not yield a decodable token payload.
    InvalidCredentials,
    /// The exchange could not be carried out at the network level.
    Transport,
}

/// The error taxonomy of the library.
#[derive(Clone, Copy, Debug, PartialEq, Eq, Structural)]
pub enum Error {
    /// A credential exchange failed; the caller must re-authenticate.
    Auth(AuthError),
    /// Network-level failure or non-success HTTP status on a resource call.
    Transport,
    /// A response body did not match the expected shape.
    Schema,
}

/// The caller's credentials: used once, at initial login.
#[derive(Debug)]
pub struct Credentials {
    pub username: String,
    pub password: String,
    pub base_url: String,
}

/// An access/refresh token pair together with the instant (seconds on the
/// wall clock supplied by the caller) at which the access token stops being
/// presentable.
#[derive(Debug)]
pub struct Session {
    pub access_token: String,
    pub refresh_token: String,
    pub expiry: u64,
}

impl Session {
    /// A token may be presented at instant `now` only while the session is
    /// fresh; at `expiry` itself it must already be renewed.
    pub open spec fn is_fresh(self, now: u64) -> bool {
        now < self.expiry
    }
}

/// A decoded success payload of the login or refresh endpoint:
/// `{access_token, refresh_token, expires_in}`, with `expires_in` the
/// declared token lifetime in seconds.
#[derive(Debug)]
pub struct TokenResponse {
    pub access_token: String,
    pub refresh_token: String,
    pub expires_in: u64,
}

/// The tree carries every field a token payload requires: the two tokens
/// and a non-negative lifetime in seconds.
pub open spec fn token_response_ok(v: JsonValue) -> bool {
    &&& field_str(v, "access_token"@) is Some
    &&& field_str(v, "refresh_token"@) is Some
    &&& (field_int(v, "expires_in"@) matches Some(n) && 0 <= n)
}

/// `t` is exactly what decoding `v` against the token-payload schema yields.
pub open spec fn token_response_matches(t: TokenResponse, v: JsonValue) -> bool {
    &&& field_str(v, "access_token"@) == Some(t.access_token@)
    &&& field_str(v, "refresh_token"@) == Some(t.refresh_token@)
    &&& field_int(v, "expires_in"@) == Some(t.expires_in as int)
}

/// Decodes the success payload of a credential exchange.  A body that does
/// not carry the expected shape means the exchange did not succeed, which
/// surfaces as an authentication failure, not as a resource schema error.
pub fn decode_token_response(v: &JsonValue) -> (r: Result<TokenResponse, Error>)
    ensures
        token_response_ok(*v) ==> (r matches Ok(t) && token_response_matches(t, *v)),
        !token_response_ok(*v) ==> r == Err::<TokenResponse, Error>(
            Error::Auth(AuthError::InvalidCredentials),
        ),
{
    let access_token = match get_str_field(v, "access_token") {
        Ok(s) => s,
        Err(_) => {
            return Err(Error::Auth(AuthError::InvalidCredentials));
        },
    };
    let refresh_token = match get_str_field(v, "refresh_token") {
        Ok(s) => s,
        Err(_) => {
            return Err(Error::Auth(AuthError::InvalidCredentials));
        },
    };
    let expires_in = match get_u64_field(v, "expires_in") {
        Ok(n) => n,
        Err(_) => {
            return Err(Error::Auth(AuthError::InvalidCredentials));
        },
    };
    Ok(TokenResponse { access_token, refresh_token, expires_in })
}

/// The client: the exclusive owner of the one mutable session, plus the two
/// URL prefixes every request is built from.  The transport handle stays with
/// the caller.
#[derive(Debug)]
pub struct BakalariClient {
    pub session: Session,
    /// True while a refresh exchange is in flight.  Concurrent callers that
    /// find it set must wait for that exchange instead of starting another:
    /// a second refresh would invalidate the first one's refresh token.
    pub refresh_pending: bool,
    pub base_url: String,
    pub api_url: String,
}

/// The form body of the password grant.
pub open spec fn login_body(username: Seq<char>, password: Seq<char>) -> Seq<char> {
    "client_id=ANDR&grant_type=password&username="@ + username + "&password="@ + password
}

/// The form body of the refresh grant.
pub open spec fn refresh_body(refresh_token: Seq<char>) -> Seq<char> {
    "client_id=ANDR&grant_type=refresh_token&refresh_token="@ + refresh_token
}

/// The credential endpoint; unlike the resource reads it is not versioned.
pub open spec fn login_url(base: Seq<char>) -> Seq<char> {
    base + "/api/login"@
}

/// The POST performing the password grant for these credentials.
pub open spec fn is_login_request(
    req: HttpRequest,
    base: Seq<char>,
    username: Seq<char>,
    password: Seq<char>,
) -> bool {
    &&& req.method == Method::Post
    &&& req.url@ == login_url(base)
    &&& req.body matches Some(b) && b@ == login_body(username, password)
    &&& req.bearer is None
}

/// The POST performing the refresh grant for this refresh token.
pub open spec fn is_refresh_request(
    req: HttpRequest,
    base: Seq<char>,
    refresh_token: Seq<char>,
) -> bool {
    &&& req.method == Method::Post
    &&& req.url@ == login_url(base)
    &&& req.body matches Some(b) && b@ == refresh_body(refresh_token)
    &&& req.bearer is None
}

/// What one caller's pass through the validity gate asks of the caller.
pub enum EnsureAction {
    /// The session is fresh: present its access token.
    Ready,
    /// The session had expired and no refresh was in flight: execute this
    /// refresh exchange and hand the decoded payload to
    /// [`BakalariClient::apply_refresh`] (or abort with
    /// [`BakalariClient::abort_refresh`] if the exchange fails).
    Refresh(HttpRequest),
    /// A refresh is already in flight: await its outcome; do not start
    /// another exchange.
    Wait,
}

/// The validity gate as a pure transition: the state after one caller's pass
/// at instant `now`, and whether that pass issues a refresh exchange.
pub open spec fn spec_step(c: BakalariClient, now: u64) -> (BakalariClient, bool) {
    if c.refresh_pending {
        (c, false)
    } else if c.session.is_fresh(now) {
        (c, false)
    } else {
        ((BakalariClient { refresh_pending: true, ..c }), true)
    }
}

/// The state after the in-flight refresh completes at instant `now` with
/// payload `resp`: the session is replaced wholesale — in particular the old
/// refresh token, which the server has just invalidated, is never kept — and
/// the expiry is counted from the moment the response is received.
pub open spec fn spec_apply(c: BakalariClient, resp: TokenResponse, now: u64) -> BakalariClient {
    BakalariClient {
        session: Session {
            access_token: resp.access_token,
            refresh_token: resp.refresh_token,
            expiry: (now + resp.expires_in) as u64,
        },
        refresh_pending: false,
        ..c
    }
}

/// The state and the number of refresh exchanges issued after a sequence of
/// callers pass the validity gate, the i-th at instant `nows[i]`, with no
/// refresh completing in between.
pub open spec fn spec_run_steps(c: BakalariClient, nows: Seq<u64>) -> (BakalariClient, nat)
    decreases nows.len(),
{
    if nows.len() == 0 {
        (c, 0)
    } else {
        let stepped = spec_step(c, nows[0]);
        let rest = spec_run_steps(stepped.0, nows.drop_first());
        (rest.0, rest.1 + if stepped.1 { 1nat } else { 0nat })
    }
}

impl BakalariClient {
    /// The resource prefix is the base address with the fixed version path.
    pub open spec fn wf(self) -> bool {
        self.api_url@ == self.base_url@ + "/api/3"@
    }

    /// The password-grant exchange that logs this user in.  Executing it is
    /// the caller's part; the decoded payload then goes to [`Self::new`].
    pub fn login_request(base_url: &str, username: &str, password: &str) -> (r: HttpRequest)
        ensures
            is_login_request(r, base_url@, username@, password@),
    {
        let mut body = String::from_str("client_id=ANDR&grant_type=password&username=");
        body.append(username);
        body.append("&password=");
        body.append(password);
        HttpRequest {
            method: Method::Post,
            url: concat_str(base_url, "/api/login"),
            body: Some(body),
            bearer: None,
        }
    }

    /// A client freshly logged in: the payload decoded from the login
    /// exchange received at instant `now`, with no refresh in flight.
    pub fn new(base_url: &str, resp: TokenResponse, now: u64) -> (c: Self)
        requires
            now + resp.expires_in <= u64::MAX,
        ensures
            c.wf(),
            c.base_url@ == base_url@,
            c.session.access_token == resp.access_token,
            c.session.refresh_token == resp.refresh_token,
            c.session.expiry == now + resp.expires_in,
            !c.refresh_pending,
    {
        BakalariClient {
            session: Session {
                access_token: resp.access_token,
                refresh_token: resp.refresh_token,
                expiry: now + resp.expires_in,
            },
            refresh_pending: false,
            base_url: String::from_str(base_url),
            api_url: concat_str(base_url, "/api/3"),
        }
    }

    /// Whether the access token may no longer be presented at instant `now`.
    pub fn check_if_token_expired(&self, now: u64) -> (r: bool)
        ensures
            r == !self.session.is_fresh(now),
    {
        now >= self.session.expiry
    }

    /// The refresh-grant exchange for the current refresh token.
    pub fn refresh_request(&self) -> (r: HttpRequest)
        ensures
            is_refresh_request(r, self.base_url@, self.session.refresh_token@),
    {
        let mut body = String::from_str("client_id=ANDR&grant_type=refresh_token&refresh_token=");
        body.append(self.session.refresh_token.as_str());
        HttpRequest {
            method: Method::Post,
            url: concat_str(self.base_url.as_str(), "/api/login"),
            body: Some(body),
            bearer: None,
        }
    }

    /// The validity gate.  Every resource accessor passes through here before
    /// presenting a token; no resource operation may skip it.  The returned
    /// action tells the caller whether the session is ready, whether this
    /// caller must execute the (single) refresh exchange, or whether one is
    /// already in flight and must be awaited.
    pub fn ensure_valid_step(&mut self, now: u64) -> (a: EnsureAction)
        ensures
            *final(self) == spec_step(*old(self), now).0,
            (a is Refresh) == spec_step(*old(self), now).1,
            a is Wait <==> old(self).refresh_pending,
            a is Ready <==> !old(self).refresh_pending && old(self).session.is_fresh(now),
            a matches EnsureAction::Refresh(req) ==> is_refresh_request(
                req,
                old(self).base_url@,
                old(self).session.refresh_token@,
            ),
    {
        if self.refresh_pending {
            EnsureAction::Wait
        } else if now < self.session.expiry {
            EnsureAction::Ready
        } else {
            let req = self.refresh_request();
            self.refresh_pending = true;
            EnsureAction::Refresh(req)
        }
    }

    /// Completes the in-flight refresh with the decoded payload, received at
    /// instant `now`.  The session is replaced wholesale.
    pub fn apply_refresh(&mut self, resp: TokenResponse, now: u64)
        requires
            old(self).refresh_pending,
            now + resp.expires_in <= u64::MAX,
        ensures
            *final(self) == spec_apply(*old(self), resp, now),
    {
        self.session = Session {
            access_token: resp.access_token,
            refresh_token: resp.refresh_token,
            expiry: now + resp.expires_in,
        };
        self.refresh_pending = false;
    }

    /// Abandons the in-flight refresh after a failed exchange: the session is
    /// left in its prior state and the next pass through the validity gate retries.
    pub fn abort_refresh(&mut self)
        ensures
            *final(self) == (BakalariClient { refresh_pending: false, ..*old(self) }),
    {
        self.refresh_pending = false;
    }
}

/// Ensuring validity twice in succession performs at most one refresh
/// exchange: on a fresh session neither pass exchanges anything and the state
/// is untouched; on an expired one the first pass issues the single exchange
/// and, once it completes, the second pass is a no-op.
pub proof fn lemma_ensure_valid_idempotent(c: BakalariClient, now: u64, resp: TokenResponse)
    requires
        !c.refresh_pending,
        resp.expires_in >= 1,
        now + resp.expires_in <= u64::MAX,
    ensures
        c.session.is_fresh(now) ==> {
            let first = spec_step(c, now);
            &&& !first.1
            &&& first.0 == c
            &&& !spec_step(first.0, now).1
        },
        !c.session.is_fresh(now) ==> {
            let first = spec_step(c, now);
            let completed = spec_apply(first.0, resp, now);
            &&& first.1
            &&& !spec_step(completed, now).1
            &&& spec_step(completed, now).0 == completed
        },
{
}

/// For every session with `expiry <= now`, the validity gate issues exactly one
/// refresh exchange, and completing that exchange yields a session with
/// `expiry > now`.
pub proof fn lemma_refresh_expired(c: BakalariClient, now: u64, resp: TokenResponse)
    requires
        !c.refresh_pending,
        c.session.expiry <= now,
        resp.expires_in >= 1,
        now + resp.expires_in <= u64::MAX,
    ensures
        spec_step(c, now).1,
        spec_apply(spec_step(c, now).0, resp, now).session.is_fresh(now),
{
}

/// While a refresh is in flight, no pass through the validity gate issues another
/// exchange or moves the state.
pub proof fn lemma_pending_no_refresh(c: BakalariClient, nows: Seq<u64>)
    requires
        c.refresh_pending,
    ensures
        spec_run_steps(c, nows) == (c, 0nat),
    decreases nows.len(),
{
    if nows.len() > 0 {
        lemma_pending_no_refresh(c, nows.drop_first());
    }
}

/// Single flight: any number of callers that each find the session expired
/// trigger exactly one refresh exchange between them; every later caller
/// waits, and all of them then complete against the one session that the
/// single exchange produces.
pub proof fn lemma_single_flight(c: BakalariClient, nows: Seq<u64>)
    requires
        !c.refresh_pending,
        nows.len() >= 1,
        forall|i: int| 0 <= i < nows.len() ==> c.session.expiry <= #[trigger] nows[i],
    ensures
        spec_run_steps(c, nows).1 == 1,
        spec_run_steps(c, nows).0 == (BakalariClient { refresh_pending: true, ..c }),
{
    let stepped = spec_step(c, nows[0]);
    lemma_pending_no_refresh(stepped.0, nows.drop_first());
}

/// Transparency of the internal refresh: a resource call that finds the
/// session expired performs the one refresh exchange and then proceeds with
/// a fresh session whose access token is the newly issued one — when the
/// exchange succeeds, the caller never sees an authorization failure.
pub proof fn lemma_transparent_refresh(c: BakalariClient, now: u64, resp: TokenResponse)
    requires
        !c.refresh_pending,
        c.session.expiry <= now,
        resp.expires_in >= 1,
        now + resp.expires_in <= u64::MAX,
    ensures
        ({
            let first = spec_step(c, now);
            let refreshed = spec_apply(first.0, resp, now);
            &&& first.1
            &&& refreshed.session.is_fresh(now)
            &&& refreshed.session.access_token == resp.access_token
            &&& !spec_step(refreshed, now).1
            &&& spec_step(refreshed, now).0 == refreshed
        }),
{
}

} // verus!


