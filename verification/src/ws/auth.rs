//! Token state of the authenticated websocket session.
use vstd::prelude::*;
use crate::clock::{unix_time_secs, MAX_UTC_TIMESTAMP};

verus! {

/// Seconds before expiry at which a token is renewed.
pub const REFRESH_MARGIN_SECS: i64 = 60;

/// Tokens of the session and the Unix time at which the access token expires.
pub struct AuthState {
    pub access_token: Option<String>,
    pub refresh_token: Option<String>,
    pub expires_at: Option<i64>,
}

/// The fields of a `public/auth` result that the session keeps.
pub struct AuthResponse {
    pub access_token: Option<String>,
    pub refresh_token: Option<String>,
    pub expires_in: Option<i64>,
}

/// Why an authentication result was refused.
#[derive(Debug, Clone, Copy, PartialEq, Eq, Structural)]
pub enum AuthError {
    MissingAccessToken,
    MissingRefreshToken,
    MissingExpiresIn,
    /// `now + expires_in` does not fit in an `i64`.
    ExpiryOutOfRange,
    /// The wall clock could not be read as a date.
    ClockUnavailable,
}

/// How a `public/auth` request asks for a token.
pub enum AuthGrant {
    ClientCredentials { client_id: String, client_secret: String },
    RefreshToken { refresh_token: String },
}

/// A `public/auth` JSON-RPC request.
pub struct AuthRequest {
    pub id: u64,
    pub grant: AuthGrant,
}

/// Whether a token expiring at `expires_at` is due for renewal at time `now`.
pub open spec fn refresh_due(expires_at: Option<i64>, now: int) -> bool {
    match expires_at {
        Some(e) => now >= e - REFRESH_MARGIN_SECS,
        None => true,
    }
}

/// The first field, if any, that `r` lacks, as the error it is refused with.
pub open spec fn missing_field(r: AuthResponse) -> Option<AuthError> {
    if r.access_token is None {
        Some(AuthError::MissingAccessToken)
    } else if r.refresh_token is None {
        Some(AuthError::MissingRefreshToken)
    } else if r.expires_in is None {
        Some(AuthError::MissingExpiresIn)
    } else {
        None
    }
}

/// The error, if any, with which `r` is refused at time `now`.
pub open spec fn auth_response_error(r: AuthResponse, now: int) -> Option<AuthError> {
    if missing_field(r) is Some {
        missing_field(r)
    } else if !(i64::MIN <= now + r.expires_in->0 <= i64::MAX) {
        Some(AuthError::ExpiryOutOfRange)
    } else {
        None
    }
}

/// What processing `result` at time `now` does: a refused result gives its
/// error and leaves the state as it was; an accepted one stores both tokens
/// and the expiry `now + expires_in`.
pub open spec fn auth_processed(
    before: AuthState,
    result: AuthResponse,
    now: int,
    r: Result<(), AuthError>,
    after: AuthState,
) -> bool {
    match auth_response_error(result, now) {
        Some(e) => r == Err::<(), AuthError>(e) && after == before,
        None => {
            &&& r is Ok
            &&& after.access_token == result.access_token
            &&& after.refresh_token == result.refresh_token
            &&& after.expires_at == Some((now + result.expires_in->0) as i64)
        },
    }
}

impl AuthState {
    /// An access token is held and is not due for renewal at time `now`.
    pub open spec fn authenticated_at(&self, now: int) -> bool {
        self.access_token is Some && !refresh_due(self.expires_at, now)
    }

    /// The unauthenticated state.
    pub fn new() -> (s: Self)
        ensures
            s.access_token is None,
            s.refresh_token is None,
            s.expires_at is None,
    {
        AuthState { access_token: None, refresh_token: None, expires_at: None }
    }

    /// Whether the token is due for renewal at Unix time `now`: no expiry is
    /// known, or `now` lies within `REFRESH_MARGIN_SECS` of it.
    pub fn needs_refresh_at(&self, now: i64) -> (r: bool)
        ensures
            r == refresh_due(self.expires_at, now as int),
    {
        match self.expires_at {
            Some(expires_at) => {
                match expires_at.checked_sub(REFRESH_MARGIN_SECS) {
                    Some(threshold) => now >= threshold,
                    None => true,
                }
            },
            None => true,
        }
    }

    /// `needs_refresh_at` at the current time of the wall clock, read only
    /// when an expiry is known. A clock that cannot be read as a date counts
    /// as due, so that the session renews its token.
    pub fn needs_refresh(&self) -> (r: bool)
        ensures
            self.expires_at is None ==> r,
            !r ==> exists|now: i64|
                0 <= now <= MAX_UTC_TIMESTAMP && !#[trigger] refresh_due(self.expires_at, now as int),
    {
        if self.expires_at.is_none() {
            return true;
        }
        match unix_time_secs() {
            Some(now) => self.needs_refresh_at(now),
            None => true,
        }
    }

    /// The refresh token, if one was granted.
    pub fn get_refresh_token(&self) -> (r: Option<&str>)
        ensures
            match self.refresh_token {
                Some(t) => r is Some && r->0@ == t@,
                None => r is None,
            },
    {
        match &self.refresh_token {
            Some(t) => Some(t.as_str()),
            None => None,
        }
    }

    /// Whether an access token is held that is not due for renewal at `now`.
    pub fn is_authenticated_at(&self, now: i64) -> (r: bool)
        ensures
            r == self.authenticated_at(now as int),
    {
        self.access_token.is_some() && !self.needs_refresh_at(now)
    }

    /// An access token is held and `needs_refresh` finds it not due.
    pub fn is_authenticated(&self) -> (r: bool)
        ensures
            self.access_token is None ==> !r,
            self.expires_at is None ==> !r,
            r ==> exists|now: i64|
                0 <= now <= MAX_UTC_TIMESTAMP && #[trigger] self.authenticated_at(now as int),
    {
        if self.access_token.is_none() {
            return false;
        }
        let due = self.needs_refresh();
        proof {
            if !due {
                let now = choose|now: i64|
                    0 <= now <= MAX_UTC_TIMESTAMP && !#[trigger] refresh_due(self.expires_at, now as int);
                assert(self.authenticated_at(now as int));
            }
        }
        !due
    }

    /// Takes the tokens of an authentication result received at Unix time
    /// `now`; the token then expires `expires_in` seconds after `now`.
    /// A refused result leaves the state as it was.
    pub fn process_auth_response_at(&mut self, result: &AuthResponse, now: i64) -> (r: Result<
        (),
        AuthError,
    >)
        ensures
            auth_processed(*old(self), *result, now as int, r, *final(self)),
    {
        let access_token = match &result.access_token {
            Some(t) => t.clone(),
            None => return Err(AuthError::MissingAccessToken),
        };
        let refresh_token = match &result.refresh_token {
            Some(t) => t.clone(),
            None => return Err(AuthError::MissingRefreshToken),
        };
        let expires_in = match result.expires_in {
            Some(e) => e,
            None => return Err(AuthError::MissingExpiresIn),
        };
        let expires_at = match now.checked_add(expires_in) {
            Some(e) => e,
            None => return Err(AuthError::ExpiryOutOfRange),
        };
        self.access_token = Some(access_token);
        self.refresh_token = Some(refresh_token);
        self.expires_at = Some(expires_at);
        Ok(())
    }

    /// `process_auth_response_at` at the current time of the wall clock.
    ///
    /// The fields of the result are checked first; the clock is read only
    /// for a complete result, and one that cannot be read as a date refuses
    /// it with `ClockUnavailable`, leaving the state as it was.
    pub fn process_auth_response(&mut self, result: &AuthResponse) -> (r: Result<(), AuthError>)
        ensures
            missing_field(*result) is Some ==> r == Err::<(), AuthError>(
                missing_field(*result)->0,
            ) && *final(self) == *old(self),
            r == Err::<(), AuthError>(AuthError::ClockUnavailable) ==> missing_field(*result) is None
                && *final(self) == *old(self),
            r != Err::<(), AuthError>(AuthError::ClockUnavailable) ==> exists|now: i64|
                0 <= now <= MAX_UTC_TIMESTAMP && #[trigger] auth_processed(
                    *old(self),
                    *result,
                    now as int,
                    r,
                    *final(self),
                ),
            missing_field(*result) is None && result.expires_in->0 <= i64::MAX - MAX_UTC_TIMESTAMP
                ==> (r is Ok || r == Err::<(), AuthError>(AuthError::ClockUnavailable)),
    {
        if result.access_token.is_none() {
            proof {
                assert(auth_processed(*self, *result, 0i64 as int, Err(AuthError::MissingAccessToken), *self));
            }
            return Err(AuthError::MissingAccessToken);
        }
        if result.refresh_token.is_none() {
            proof {
                assert(auth_processed(*self, *result, 0i64 as int, Err(AuthError::MissingRefreshToken), *self));
            }
            return Err(AuthError::MissingRefreshToken);
        }
        if result.expires_in.is_none() {
            proof {
                assert(auth_processed(*self, *result, 0i64 as int, Err(AuthError::MissingExpiresIn), *self));
            }
            return Err(AuthError::MissingExpiresIn);
        }
        let now = unix_time_secs();
        self.process_auth_response_with_clock(result, now)
    }

    /// Processes an authentication result with a reading `now` of the wall
    /// clock, `None` when the clock could not be read as a date. With a
    /// reading, the result is processed exactly as `process_auth_response_at`
    /// processes it at that time; without one, a result missing a field is
    /// refused for that field and a complete one with `ClockUnavailable`.
    /// `ClockUnavailable` comes only from a missing reading, and a refusal
    /// leaves the state as it was.
    pub fn process_auth_response_with_clock(&mut self, result: &AuthResponse, now: Option<i64>) -> (r:
        Result<(), AuthError>)
        ensures
            now is Some ==> auth_processed(*old(self), *result, now->0 as int, r, *final(self)),
            now is None ==> *final(self) == *old(self) && r == Err::<(), AuthError>(
                match missing_field(*result) {
                    Some(e) => e,
                    None => AuthError::ClockUnavailable,
                },
            ),
            r == Err::<(), AuthError>(AuthError::ClockUnavailable) ==> now is None,
    {
        match now {
            Some(t) => self.process_auth_response_at(result, t),
            None => {
                if result.access_token.is_none() {
                    Err(AuthError::MissingAccessToken)
                } else if result.refresh_token.is_none() {
                    Err(AuthError::MissingRefreshToken)
                } else if result.expires_in.is_none() {
                    Err(AuthError::MissingExpiresIn)
                } else {
                    Err(AuthError::ClockUnavailable)
                }
            },
        }
    }

    /// The `public/auth` request that asks for a token with the client's
    /// credentials.
    pub fn build_auth_request(client_id: &str, client_secret: &str, request_id: u64) -> (r:
        AuthRequest)
        ensures
            r.id == request_id,
            r.grant matches AuthGrant::ClientCredentials { client_id: id, client_secret: secret }
                && id@ == client_id@ && secret@ == client_secret@,
    {
        AuthRequest {
            id: request_id,
            grant: AuthGrant::ClientCredentials {
                client_id: client_id.to_owned(),
                client_secret: client_secret.to_owned(),
            },
        }
    }

    /// The `public/auth` request that renews a token with a refresh token.
    pub fn build_refresh_request(refresh_token: &str, request_id: u64) -> (r: AuthRequest)
        ensures
            r.id == request_id,
            r.grant matches AuthGrant::RefreshToken { refresh_token: t } && t@ == refresh_token@,
    {
        AuthRequest {
            id: request_id,
            grant: AuthGrant::RefreshToken { refresh_token: refresh_token.to_owned() },
        }
    }

    /// The request that renews the session: with the refresh token when one
    /// is held, else with the client's credentials.
    pub fn build_renewal_request(&self, client_id: &str, client_secret: &str, request_id: u64) -> (r:
        AuthRequest)
        ensures
            r.id == request_id,
            match self.refresh_token {
                Some(t) => r.grant matches AuthGrant::RefreshToken { refresh_token: rt }
                    && rt@ == t@,
                None => r.grant matches AuthGrant::ClientCredentials {
                    client_id: id,
                    client_secret: secret,
                } && id@ == client_id@ && secret@ == client_secret@,
            },
    {
        match self.get_refresh_token() {
            Some(token) => Self::build_refresh_request(token, request_id),
            None => Self::build_auth_request(client_id, client_secret, request_id),
        }
    }
}

/// Renewal is due from sixty seconds before the expiry on, and always when
/// no expiry is known; an authenticated session holds an access token that
/// is not yet due.
pub proof fn renewal_due_from_sixty_seconds_before_expiry(s: AuthState, e: i64, now: int)
    ensures
        refresh_due(None, now),
        refresh_due(Some(e), now) <==> now >= e - 60,
        s.authenticated_at(now) <==> (s.access_token is Some && s.expires_at is Some && now
            < s.expires_at->0 - 60),
{
}

/// Once due, a renewal stays due: time only brings the expiry closer.
pub proof fn refresh_due_stays_due(expires_at: Option<i64>, t: int, later: int)
    requires
        refresh_due(expires_at, t),
        t <= later,
    ensures
        refresh_due(expires_at, later),
{
}

/// A token granted for more than the refresh margin leaves the session
/// authenticated at the time it was received, and not due for renewal until
/// `REFRESH_MARGIN_SECS` before its expiry.
pub proof fn granted_token_authenticates(
    before: AuthState,
    result: AuthResponse,
    now: int,
    r: Result<(), AuthError>,
    after: AuthState,
)
    requires
        auth_processed(before, result, now, r, after),
        r is Ok,
        result.expires_in->0 > REFRESH_MARGIN_SECS,
    ensures
        after.authenticated_at(now),
        forall|t: int| #[trigger] refresh_due(after.expires_at, t) <==> t >= now + result.expires_in->0 - REFRESH_MARGIN_SECS,
{
}

/// What processing a result at time `now` does, for every result and time:
/// a result missing a field is refused for the first one missing (access
/// token, refresh token, lifetime, in that order); a complete result whose
/// expiry `now + expires_in` fits in an `i64` is accepted, storing both
/// tokens and that expiry; one whose expiry does not fit is refused as out of
/// range; a refusal leaves the state as it was, and processing at a known
/// time never reports the clock as unavailable.
pub proof fn processing_at_a_time(
    before: AuthState,
    result: AuthResponse,
    now: int,
    r: Result<(), AuthError>,
    after: AuthState,
)
    requires
        auth_processed(before, result, now, r, after),
    ensures
        result.access_token is None ==> r == Err::<(), AuthError>(AuthError::MissingAccessToken)
            && after == before,
        result.access_token is Some && result.refresh_token is None ==> r == Err::<(), AuthError>(
            AuthError::MissingRefreshToken,
        ) && after == before,
        result.access_token is Some && result.refresh_token is Some && result.expires_in is None
            ==> r == Err::<(), AuthError>(AuthError::MissingExpiresIn) && after == before,
        result.access_token is Some && result.refresh_token is Some && result.expires_in is Some
            && i64::MIN <= now + result.expires_in->0 <= i64::MAX ==> {
            &&& r is Ok
            &&& after.access_token == result.access_token
            &&& after.refresh_token == result.refresh_token
            &&& after.expires_at == Some((now + result.expires_in->0) as i64)
            &&& after.expires_at->0 == now + result.expires_in->0
        },
        result.access_token is Some && result.refresh_token is Some && result.expires_in is Some
            && !(i64::MIN <= now + result.expires_in->0 <= i64::MAX) ==> r == Err::<(), AuthError>(
            AuthError::ExpiryOutOfRange,
        ) && after == before,
        r != Err::<(), AuthError>(AuthError::ClockUnavailable),
{
}

/// A refused authentication result leaves the session as it was.
pub proof fn refused_response_keeps_state(
    before: AuthState,
    result: AuthResponse,
    now: int,
    r: Result<(), AuthError>,
    after: AuthState,
)
    requires
        auth_processed(before, result, now, r, after),
        r is Err,
    ensures
        after == before,
{
}

} // verus!
