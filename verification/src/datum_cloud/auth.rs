//! Sessions: tokens and when they expire, the user, and how a session is opened, kept and closed.
use crate::json::{
    as_object, first_of, first_text, get_in, lemma_first_text_more, lemma_first_text_none,
    lemma_reached, member_of, object_in, opt_json, or_else, reached, text_at, text_in, text_of,
    Json, JsonView,
};
use crate::text::{cat, cat3, copy_opt, opt_view, same};
use crate::times::{is_time, FIRST_TIME, LAST_TIME, NANOS};
use vstd::prelude::*;

verus! {

/// How long a login may take, in seconds.
pub const LOGIN_TIMEOUT_SECS: u64 = 60;

/// A token that is valid for less than half an hour is refreshed, or the user signs in again.
pub const REFRESH_AUTH_WHEN: i128 = 1_800_000_000_000;

/// A session whose token is valid for less than five minutes needs a refresh.
pub const NEEDS_REFRESH_WHEN: i128 = 300_000_000_000;

/// Whether there is a session, and whether its token is still good.
#[derive(Debug, Copy, Clone, Eq, PartialEq, Structural)]
pub enum LoginState {
    Missing,
    NeedsRefresh,
    Valid,
}

/// A session: its tokens and its user.
#[derive(Debug)]
pub struct AuthState {
    pub tokens: AuthTokens,
    pub profile: UserProfile,
}

/// The tokens of a session. `issued_at` is a point in time, `expires_in` a number of nanoseconds.
#[derive(Debug)]
pub struct AuthTokens {
    pub access_token: String,
    pub refresh_token: Option<String>,
    pub issued_at: i128,
    pub expires_in: i128,
}

impl AuthTokens {
    /// The tokens are issued and expire at times that a date can have.
    pub open spec fn wf(self) -> bool {
        &&& is_time(self.issued_at as int)
        &&& self.expires_in >= 0
        &&& is_time(self.issued_at + self.expires_in)
    }

    /// When the token expires.
    pub open spec fn expiry(self) -> int {
        self.issued_at + self.expires_in
    }

    /// The token expires before the given time from now has passed.
    pub open spec fn expires_within(self, now: int, duration: int) -> bool {
        self.expiry() < now + duration
    }

    /// Whether the session needs a refresh.
    pub open spec fn state(self, now: int) -> LoginState {
        if self.expires_within(now, NEEDS_REFRESH_WHEN as int) {
            LoginState::NeedsRefresh
        } else {
            LoginState::Valid
        }
    }

    pub fn is_expired(&self, now: i128) -> (r: bool)
        requires
            self.wf(),
        ensures
            r == self.expires_within(now as int, 0),
    {
        self.issued_at + self.expires_in < now
    }

    pub fn expires_at(&self) -> (r: i128)
        requires
            self.wf(),
        ensures
            r == self.expiry(),
    {
        self.issued_at + self.expires_in
    }

    pub fn expires_in_less_than(&self, now: i128, duration: i128) -> (r: bool)
        requires
            self.wf(),
            is_time(now as int),
            duration >= 0,
            is_time(now + duration),
        ensures
            r == self.expires_within(now as int, duration as int),
    {
        self.issued_at + self.expires_in < now + duration
    }

    pub fn login_state(&self, now: i128) -> (r: LoginState)
        requires
            self.wf(),
            is_time(now as int),
            is_time(now + NEEDS_REFRESH_WHEN),
        ensures
            r == self.state(now as int),
    {
        if self.expires_in_less_than(now, NEEDS_REFRESH_WHEN) {
            LoginState::NeedsRefresh
        } else {
            LoginState::Valid
        }
    }
}

/// A token that has expired is not valid, and one that is not valid is within the time in which it
/// is refreshed. So no request is sent with an expired token without an attempt to refresh it.
pub proof fn law_expired_token_is_refreshed(tokens: AuthTokens, now: int)
    ensures
        tokens.expires_within(now, 0) ==> tokens.state(now) == LoginState::NeedsRefresh,
        tokens.state(now) == LoginState::NeedsRefresh ==> tokens.expires_within(
            now,
            REFRESH_AUTH_WHEN as int,
        ),
{
}

// Users.

/// Who is signed in.
#[derive(Debug, Eq, PartialEq, Clone)]
pub struct UserProfile {
    pub user_id: String,
    pub email: String,
    pub first_name: Option<String>,
    pub last_name: Option<String>,
    pub avatar_url: Option<String>,
    pub registration_approval: Option<String>,
}

/// The content of a profile.
pub struct ProfileView {
    pub user_id: Seq<char>,
    pub email: Seq<char>,
    pub first_name: Option<Seq<char>>,
    pub last_name: Option<Seq<char>>,
    pub avatar_url: Option<Seq<char>>,
    pub registration_approval: Option<Seq<char>>,
}

impl View for UserProfile {
    type V = ProfileView;

    open spec fn view(&self) -> ProfileView {
        ProfileView {
            user_id: self.user_id@,
            email: self.email@,
            first_name: opt_view(self.first_name),
            last_name: opt_view(self.last_name),
            avatar_url: opt_view(self.avatar_url),
            registration_approval: opt_view(self.registration_approval),
        }
    }
}

impl ProfileView {
    /// The name to show: first and last name as far as they are there, else the address.
    pub open spec fn shown_name(self) -> Seq<char> {
        match (self.first_name, self.last_name) {
            (Some(x), Some(y)) => x + " "@ + y,
            (Some(x), None) => x,
            (None, Some(y)) => y,
            (None, None) => self.email,
        }
    }
}

impl UserProfile {
    pub fn display_name(&self) -> (r: String)
        ensures
            r@ == self@.shown_name(),
    {
        match (&self.first_name, &self.last_name) {
            (Some(x), Some(y)) => cat3(x.as_str(), " ", y.as_str()),
            (Some(x), None) => x.clone(),
            (None, Some(y)) => y.clone(),
            (None, None) => self.email.clone(),
        }
    }

    /// A copy of the profile.
    pub fn copy(&self) -> (r: UserProfile)
        ensures
            r == *self,
    {
        UserProfile {
            user_id: self.user_id.clone(),
            email: self.email.clone(),
            first_name: copy_opt(&self.first_name),
            last_name: copy_opt(&self.last_name),
            avatar_url: copy_opt(&self.avatar_url),
            registration_approval: copy_opt(&self.registration_approval),
        }
    }
}

/// The first of three members of an object that is there.
pub open spec fn one_of(
    object: Option<JsonView>,
    a: Seq<char>,
    b: Seq<char>,
    c: Seq<char>,
) -> Option<JsonView> {
    or_else(or_else(member_of(object, a), member_of(object, b)), member_of(object, c))
}

/// A name of the user: the member of `spec`, else of `status`, under the first of the keys that is
/// there.
pub open spec fn name_member(
    spec: Option<JsonView>,
    status: Option<JsonView>,
    a: Seq<char>,
    b: Seq<char>,
    c: Seq<char>,
) -> Option<Seq<char>> {
    text_of(or_else(one_of(spec, a, b, c), one_of(status, a, b, c)))
}

/// The user that a reply describes: the name in its metadata, and what `spec` and `status` say. A
/// reply without a name or without an address describes none.
pub open spec fn user_in(json: JsonView) -> Option<ProfileView> {
    let metadata = as_object(json.member("metadata"@));
    let spec = as_object(json.member("spec"@));
    let status = as_object(json.member("status"@));
    let user_id = text_of(member_of(metadata, "name"@));
    let email = text_of(or_else(member_of(spec, "email"@), member_of(status, "email"@)));
    if user_id is None || email is None {
        None
    } else {
        Some(
            ProfileView {
                user_id: user_id->0,
                email: email->0,
                first_name: name_member(
                    spec,
                    status,
                    "givenName"@,
                    "firstName"@,
                    "first_name"@,
                ),
                last_name: name_member(
                    spec,
                    status,
                    "familyName"@,
                    "lastName"@,
                    "last_name"@,
                ),
                avatar_url: text_of(
                    or_else(
                        or_else(member_of(status, "avatarUrl"@), member_of(status, "avatar_url"@)),
                        or_else(member_of(spec, "avatarUrl"@), member_of(spec, "avatar_url"@)),
                    ),
                ),
                registration_approval: text_of(
                    or_else(
                        member_of(status, "registrationApproval"@),
                        member_of(status, "registration_approval"@),
                    ),
                ),
            },
        )
    }
}

fn first_member<'a>(object: Option<&'a Json>, a: &str, b: &str, c: &str) -> (r: Option<&'a Json>)
    ensures
        opt_json(r) == one_of(opt_json(object), a@, b@, c@),
{
    first_of(first_of(get_in(object, a), get_in(object, b)), get_in(object, c))
}

fn name_in(spec: Option<&Json>, status: Option<&Json>, a: &str, b: &str, c: &str) -> (r: Option<
    String,
>)
    ensures
        opt_view(r) == name_member(opt_json(spec), opt_json(status), a@, b@, c@),
{
    text_in(first_of(first_member(spec, a, b, c), first_member(status, a, b, c)))
}

pub open spec fn profile_opt(p: Option<UserProfile>) -> Option<ProfileView> {
    match p {
        Some(p) => Some(p@),
        None => None,
    }
}

/// The user that a reply of the API describes.
pub fn parse_user(json: &Json) -> (r: Option<UserProfile>)
    ensures
        profile_opt(r) == user_in(json@),
{
    let metadata = object_in(json.get("metadata"));
    let spec = object_in(json.get("spec"));
    let status = object_in(json.get("status"));
    let user_id = text_in(get_in(metadata, "name"));
    let email = text_in(first_of(get_in(spec, "email"), get_in(status, "email")));
    let avatar_url = text_in(
        first_of(
            first_of(get_in(status, "avatarUrl"), get_in(status, "avatar_url")),
            first_of(get_in(spec, "avatarUrl"), get_in(spec, "avatar_url")),
        ),
    );
    let registration_approval = text_in(
        first_of(get_in(status, "registrationApproval"), get_in(status, "registration_approval")),
    );
    match (user_id, email) {
        (Some(user_id), Some(email)) => Some(
            UserProfile {
                user_id,
                email,
                first_name: name_in(spec, status, "givenName", "firstName", "first_name"),
                last_name: name_in(spec, status, "familyName", "lastName", "last_name"),
                avatar_url,
                registration_approval,
            },
        ),
        _ => None,
    }
}

/// Where the API describes a user.
pub fn user_url(api_url: &str, user_id: &str) -> (r: String)
    ensures
        r@ == api_url@ + "/apis/iam.miloapis.com/v1alpha1/users/"@ + user_id@,
{
    cat3(api_url, "/apis/iam.miloapis.com/v1alpha1/users/", user_id)
}

/// The header with which a request carries a token.
pub fn bearer(token: &str) -> (r: String)
    ensures
        r@ == "Bearer "@ + token@,
{
    cat("Bearer ", token)
}

/// Why there is no profile.
#[derive(Debug, Clone, Copy, PartialEq, Eq, Structural)]
pub enum ProfileError {
    /// The API rejected the token.
    Unauthorized,
    /// The API answered with this status.
    Status(u16),
    /// The answer is no JSON document.
    NotJson,
    /// The answer describes no user.
    NoUser,
}

/// The profile in a reply of the API, given its status and, where it is one, its JSON document.
pub fn fetch_user_profile(status: u16, body: &Option<Json>) -> (r: Result<UserProfile, ProfileError>)
    ensures
        match r {
            Ok(p) => 200 <= status <= 299 && body is Some && user_in(body->0@) == Some(p@),
            Err(ProfileError::Unauthorized) => status == 401 || status == 403,
            Err(ProfileError::Status(s)) => s == status && status != 401 && status != 403 && !(200
                <= status <= 299),
            Err(ProfileError::NotJson) => 200 <= status <= 299 && body is None,
            Err(ProfileError::NoUser) => 200 <= status <= 299 && body is Some && user_in(
                body->0@,
            ) is None,
        },
{
    if status == 401 || status == 403 {
        return Err(ProfileError::Unauthorized);
    }
    if !(200 <= status && status <= 299) {
        return Err(ProfileError::Status(status));
    }
    match body {
        None => Err(ProfileError::NotJson),
        Some(json) => match parse_user(json) {
            Some(p) => Ok(p),
            None => Err(ProfileError::NoUser),
        },
    }
}

// Token responses.

/// Why the nonce of an identity token is not accepted.
#[derive(Debug, Clone, Copy, PartialEq, Eq, Structural)]
pub enum NonceError {
    Mismatch,
    Missing,
}

/// The nonce of the identity token of a login has to be the one that was sent.
pub fn check_nonce(received: &Option<String>, expected: &str) -> (r: Result<(), NonceError>)
    ensures
        r == (match *received {
            Some(n) => if n@ == expected@ {
                Ok(())
            } else {
                Err(NonceError::Mismatch)
            },
            None => Err(NonceError::Missing),
        }),
{
    match received {
        Some(n) => if same(n.as_str(), expected) {
            Ok(())
        } else {
            Err(NonceError::Mismatch)
        },
        None => Err(NonceError::Missing),
    }
}

/// Refresh requests have no nonces: any is accepted.
pub fn refresh_nonce_verifier(received: &Option<String>) -> (r: Result<(), NonceError>)
    ensures
        r is Ok,
{
    Ok(())
}

/// Why a token response gives no tokens.
#[derive(Debug, Clone, Copy, PartialEq, Eq, Structural)]
pub enum TokenResponseError {
    /// The hash in the identity token is not that of the access token.
    InvalidAccessToken,
    /// The response does not say when the token expires.
    MissingExpiry,
    /// The token is issued or expires at a time that no date can have.
    OutOfRange,
}

/// The tokens of a response whose identity token has been verified. Where the identity token holds
/// a hash of the access token, it has to be the right one.
pub fn parse_token_response(
    access_token: String,
    refresh_token: Option<String>,
    issued_at: i128,
    expires_in: Option<i128>,
    expected_hash: &Option<String>,
    actual_hash: &str,
) -> (r: Result<AuthTokens, TokenResponseError>)
    requires
        expires_in matches Some(e) ==> e >= 0,
    ensures
        match r {
            Ok(t) => {
                &&& expected_hash matches Some(h) ==> h@ == actual_hash@
                &&& expires_in == Some(t.expires_in)
                &&& t.access_token == access_token
                &&& t.refresh_token == refresh_token
                &&& t.issued_at == issued_at
                &&& t.wf()
            },
            Err(TokenResponseError::InvalidAccessToken) => expected_hash is Some
                && expected_hash->0@ != actual_hash@,
            Err(TokenResponseError::MissingExpiry) => (expected_hash matches Some(h) ==> h@
                == actual_hash@) && expires_in is None,
            Err(TokenResponseError::OutOfRange) => (expected_hash matches Some(h) ==> h@
                == actual_hash@) && expires_in is Some && !(is_time(issued_at as int) && is_time(
                issued_at + expires_in->0,
            )),
        },
{
    if let Some(h) = expected_hash {
        if !same(h.as_str(), actual_hash) {
            return Err(TokenResponseError::InvalidAccessToken);
        }
    }
    let expires_in: i128 = match expires_in {
        Some(e) => e,
        None => {
            return Err(TokenResponseError::MissingExpiry);
        },
    };
    if issued_at < FIRST_TIME || issued_at > LAST_TIME || expires_in > LAST_TIME - issued_at {
        return Err(TokenResponseError::OutOfRange);
    }
    Ok(AuthTokens { access_token, refresh_token, issued_at, expires_in })
}

// The state of the session.

/// There is no session.
#[derive(Debug, Clone, Copy, PartialEq, Eq, Structural)]
pub struct NotLoggedIn;

impl NotLoggedIn {
    pub fn message(&self) -> (r: String)
        ensures
            r@ == "Not logged in"@,
    {
        "Not logged in".to_owned()
    }
}

/// The server rejected the access token even after a forced refresh. The session has been cleared
/// by then.
#[derive(Debug, Clone, Copy, PartialEq, Eq, Structural)]
pub struct Unauthorized;

impl Unauthorized {
    pub fn message(&self) -> (r: String)
        ensures
            r@ == "Authentication failed; signed out"@,
    {
        "Authentication failed; signed out".to_owned()
    }
}

/// A session, if there is one.
#[derive(Debug)]
pub struct MaybeAuth(pub Option<AuthState>);

impl Default for MaybeAuth {
    fn default() -> (r: Self)
        ensures
            r.0 is None,
    {
        MaybeAuth(None)
    }
}

impl MaybeAuth {
    /// The tokens of the session, if there is one, are those of dates.
    pub open spec fn wf(self) -> bool {
        self.0 matches Some(s) ==> s.tokens.wf()
    }

    /// Whether there is a session, and whether its token is still good.
    pub open spec fn state(self, now: int) -> LoginState {
        match self.0 {
            None => LoginState::Missing,
            Some(s) => s.tokens.state(now),
        }
    }

    /// The token of the session expires within the given time.
    pub open spec fn due(self, now: int, duration: int) -> bool {
        self.0 matches Some(s) && s.tokens.expires_within(now, duration)
    }

    pub fn get(&self) -> (r: Result<&AuthState, NotLoggedIn>)
        ensures
            match r {
                Ok(s) => self.0 == Some(*s),
                Err(_) => self.0 is None,
            },
    {
        match &self.0 {
            Some(s) => Ok(s),
            None => Err(NotLoggedIn),
        }
    }

    pub fn is_none(&self) -> (r: bool)
        ensures
            r == (self.0 is None),
    {
        self.0.is_none()
    }
}

/// Whether there is a session, and whether its token is still good.
pub fn login_state_for(auth: &MaybeAuth, now: i128) -> (r: LoginState)
    requires
        auth.wf(),
        is_time(now as int),
        auth.0 is Some ==> is_time(now + NEEDS_REFRESH_WHEN),
    ensures
        r == auth.state(now as int),
{
    match &auth.0 {
        None => LoginState::Missing,
        Some(s) => s.tokens.login_state(now),
    }
}

/// The session that is held, the login state last announced, and how often the session changed.
#[derive(Debug)]
pub struct AuthClient {
    session: MaybeAuth,
    announced: LoginState,
    updates: u64,
}

/// What a client holds.
pub struct AuthClientView {
    pub session: MaybeAuth,
    pub announced: LoginState,
    pub updates: nat,
}

impl View for AuthClient {
    type V = AuthClientView;

    closed spec fn view(&self) -> AuthClientView {
        AuthClientView {
            session: self.session,
            announced: self.announced,
            updates: self.updates as nat,
        }
    }
}

impl AuthClient {
    /// A client without a session.
    pub fn new() -> (r: Self)
        ensures
            r@ == (AuthClientView {
                session: MaybeAuth(None),
                announced: LoginState::Missing,
                updates: 0,
            }),
    {
        AuthClient { session: MaybeAuth(None), announced: LoginState::Missing, updates: 0 }
    }

    /// A client with the session that was stored.
    pub fn with_repo(stored: Option<AuthState>, now: i128) -> (r: Self)
        requires
            MaybeAuth(stored).wf(),
            is_time(now as int),
            stored is Some ==> is_time(now + NEEDS_REFRESH_WHEN),
        ensures
            r@ == (AuthClientView {
                session: MaybeAuth(stored),
                announced: MaybeAuth(stored).state(now as int),
                updates: 0,
            }),
    {
        let session = MaybeAuth(stored);
        let announced = login_state_for(&session, now);
        AuthClient { session, announced, updates: 0 }
    }

    pub fn load(&self) -> (r: &MaybeAuth)
        ensures
            *r == self@.session,
    {
        &self.session
    }

    pub fn login_state(&self, now: i128) -> (r: LoginState)
        requires
            self@.session.wf(),
            is_time(now as int),
            self@.session.0 is Some ==> is_time(now + NEEDS_REFRESH_WHEN),
        ensures
            r == self@.session.state(now as int),
    {
        login_state_for(&self.session, now)
    }

    /// The login state last announced to those who watch it.
    pub fn login_state_watch(&self) -> (r: LoginState)
        ensures
            r == self@.announced,
    {
        self.announced
    }

    /// How often the session changed.
    pub fn auth_update_watch(&self) -> (r: u64)
        ensures
            r == self@.updates,
    {
        self.updates
    }

    /// Takes over a session, or none: its login state and the change are announced.
    pub fn set(&mut self, auth: Option<AuthState>, now: i128)
        requires
            MaybeAuth(auth).wf(),
            is_time(now as int),
            auth is Some ==> is_time(now + NEEDS_REFRESH_WHEN),
            old(self)@.updates < u64::MAX,
        ensures
            final(self)@ == (AuthClientView {
                session: MaybeAuth(auth),
                announced: MaybeAuth(auth).state(now as int),
                updates: old(self)@.updates + 1,
            }),
    {
        let session = MaybeAuth(auth);
        self.announced = login_state_for(&session, now);
        self.session = session;
        self.updates = self.updates + 1;
    }

    /// Closes the session.
    pub fn logout(&mut self, now: i128)
        requires
            is_time(now as int),
            old(self)@.updates < u64::MAX,
        ensures
            final(self)@ == (AuthClientView {
                session: MaybeAuth(None),
                announced: LoginState::Missing,
                updates: old(self)@.updates + 1,
            }),
    {
        self.set(None, now);
    }

    /// Whether the session is to be refreshed before it is used.
    pub fn refresh_if_needed(&self, now: i128) -> (r: bool)
        requires
            self@.session.wf(),
            is_time(now as int),
            self@.session.0 is Some ==> is_time(now + REFRESH_AUTH_WHEN),
        ensures
            r == self@.session.due(now as int, REFRESH_AUTH_WHEN as int),
    {
        match &self.session.0 {
            None => false,
            Some(s) => s.tokens.expires_in_less_than(now, REFRESH_AUTH_WHEN),
        }
    }

    /// Whether the session that callers get has to be refreshed first.
    pub fn load_refreshed(&self, now: i128) -> (r: bool)
        requires
            self@.session.wf(),
            is_time(now as int),
            self@.session.0 is Some ==> is_time(now + REFRESH_AUTH_WHEN),
        ensures
            r == self@.session.due(now as int, REFRESH_AUTH_WHEN as int),
    {
        self.refresh_if_needed(now)
    }

    /// How many seconds to wait until the session is looked after again: a minute without a
    /// session, else until it is to be refreshed, but at least a second.
    pub fn next_refresh_delay(&self, now: i128) -> (r: u64)
        requires
            self@.session.wf(),
            is_time(now as int),
            self@.session.0 matches Some(s) ==> is_time(s.tokens.expiry() - REFRESH_AUTH_WHEN),
        ensures
            r == refresh_delay(self@.session, now as int),
    {
        match &self.session.0 {
            None => 60,
            Some(s) => {
                let refresh_at: i128 = s.tokens.expires_at() - REFRESH_AUTH_WHEN;
                if refresh_at <= now {
                    return 1;
                }
                let seconds: i128 = (refresh_at - now) / NANOS;
                if seconds < 1 {
                    1
                } else {
                    seconds as u64
                }
            },
        }
    }

    /// The session with another profile and the same tokens.
    pub fn with_profile(&self, profile: UserProfile) -> (r: Result<AuthState, NotLoggedIn>)
        ensures
            match r {
                Ok(s) => self@.session.0 is Some && s == (AuthState {
                    tokens: self@.session.0->0.tokens,
                    profile,
                }),
                Err(_) => self@.session.0 is None,
            },
    {
        match &self.session.0 {
            None => Err(NotLoggedIn),
            Some(s) => Ok(
                AuthState {
                    tokens: AuthTokens {
                        access_token: s.tokens.access_token.clone(),
                        refresh_token: copy_opt(&s.tokens.refresh_token),
                        issued_at: s.tokens.issued_at,
                        expires_in: s.tokens.expires_in,
                    },
                    profile,
                },
            ),
        }
    }
}

/// How many seconds to wait until the session is looked after again.
pub open spec fn refresh_delay(session: MaybeAuth, now: int) -> int {
    match session.0 {
        None => 60,
        Some(s) => {
            let left = s.tokens.expiry() - REFRESH_AUTH_WHEN - now;
            if left < 2 * NANOS {
                1
            } else {
                left / (NANOS as int)
            }
        },
    }
}

/// The wait is over before the token expires, unless the token is already within the time in which
/// it is refreshed.
pub proof fn law_refresh_in_time(session: MaybeAuth, now: int)
    requires
        session.0 is Some,
        !session.due(now, REFRESH_AUTH_WHEN as int),
    ensures
        now + refresh_delay(session, now) * NANOS < session.0->0.tokens.expiry(),
{
}

// Opening and refreshing a session.

/// Where the opening or refreshing of a session stands.
#[derive(Debug, Clone, Copy, PartialEq, Eq, Structural)]
pub enum SessionPhase {
    /// A client with the provider's current keys is being made, for a login.
    ClientForLogin,
    /// The user signs in.
    LoggingIn,
    /// A client with the provider's current keys is being made, for a refresh.
    ClientForRefresh,
    /// The tokens are being refreshed.
    Refreshing,
    /// The new session is being stored.
    Storing,
    /// The session is being cleared.
    Clearing,
    Finished,
}

/// Why a session was not opened or refreshed.
#[derive(Debug)]
pub enum SessionError {
    NotLoggedIn,
    /// No client with the provider's current keys could be made.
    Client(String),
    /// The login failed.
    Login(String),
    /// The refresh failed; the session is cleared.
    Refresh(String),
    /// The session could not be stored.
    Store(String),
}

/// What happened to the opening or refreshing of a session.
#[derive(Debug)]
pub enum SessionEvent {
    ClientMade(Result<(), String>),
    LoggedIn(Result<AuthState, String>),
    Refreshed(Result<AuthState, String>),
    Stored(Result<(), String>),
}

/// What is to be done next.
#[derive(Debug)]
pub enum SessionAction {
    /// Make a client with the provider's current keys.
    MakeClient,
    /// Let the user sign in.
    Login,
    /// Refresh the tokens.
    Refresh,
    /// Store this session and hold it.
    Store(AuthState),
    /// Clear the session.
    Clear,
    /// Hand this to the caller.
    Return(Result<(), SessionError>),
}

/// The opening or refreshing of a session. With `login`, a refresh that fails is followed by a
/// login; without, it clears the session.
#[derive(Debug)]
pub struct SessionRun {
    pub login: bool,
    pub phase: SessionPhase,
    /// Why the refresh failed, while the session is being cleared.
    pub failure: Option<String>,
}

impl SessionRun {
    /// The events that can come in this phase.
    pub open spec fn expects(self, event: SessionEvent) -> bool {
        match self.phase {
            SessionPhase::ClientForLogin | SessionPhase::ClientForRefresh => event is ClientMade,
            SessionPhase::LoggingIn => event is LoggedIn,
            SessionPhase::Refreshing => event is Refreshed,
            SessionPhase::Storing => event is Stored,
            SessionPhase::Clearing => event is Stored && self.failure is Some,
            SessionPhase::Finished => false,
        }
    }

    pub open spec fn in_phase(self, phase: SessionPhase) -> SessionRun {
        SessionRun { login: self.login, phase, failure: None }
    }

    /// It is over with a result.
    pub open spec fn over(self, result: Result<(), SessionError>) -> (SessionRun, SessionAction) {
        (self.in_phase(SessionPhase::Finished), SessionAction::Return(result))
    }

    /// What follows on an event.
    pub open spec fn next(self, event: SessionEvent) -> (SessionRun, SessionAction) {
        match (self.phase, event) {
            (SessionPhase::ClientForLogin, SessionEvent::ClientMade(Ok(_))) => (
                self.in_phase(SessionPhase::LoggingIn),
                SessionAction::Login,
            ),
            (SessionPhase::ClientForRefresh, SessionEvent::ClientMade(Ok(_))) => (
                self.in_phase(SessionPhase::Refreshing),
                SessionAction::Refresh,
            ),
            (_, SessionEvent::ClientMade(Err(e))) => self.over(Err(SessionError::Client(e))),
            (SessionPhase::LoggingIn, SessionEvent::LoggedIn(Ok(s))) => (
                self.in_phase(SessionPhase::Storing),
                SessionAction::Store(s),
            ),
            (SessionPhase::LoggingIn, SessionEvent::LoggedIn(Err(e))) => self.over(
                Err(SessionError::Login(e)),
            ),
            (SessionPhase::Refreshing, SessionEvent::Refreshed(Ok(s))) => (
                self.in_phase(SessionPhase::Storing),
                SessionAction::Store(s),
            ),
            (SessionPhase::Refreshing, SessionEvent::Refreshed(Err(e))) => if self.login {
                (self.in_phase(SessionPhase::ClientForLogin), SessionAction::MakeClient)
            } else {
                (
                    SessionRun {
                        login: self.login,
                        phase: SessionPhase::Clearing,
                        failure: Some(e),
                    },
                    SessionAction::Clear,
                )
            },
            (SessionPhase::Clearing, SessionEvent::Stored(Ok(_))) => self.over(
                Err(SessionError::Refresh(self.failure->0)),
            ),
            (_, SessionEvent::Stored(Err(e))) => self.over(Err(SessionError::Store(e))),
            _ => self.over(Ok(())),
        }
    }

    /// Starts a login: without a session the user signs in; a session that is about to expire is
    /// refreshed; any other is kept.
    pub fn login(auth: &MaybeAuth, now: i128) -> (r: (SessionRun, SessionAction))
        requires
            auth.wf(),
            is_time(now as int),
            auth.0 is Some ==> is_time(now + REFRESH_AUTH_WHEN),
        ensures
            r.0.login,
            r.0.failure is None,
            r.0.phase == (if auth.0 is None {
                SessionPhase::ClientForLogin
            } else if auth.due(now as int, REFRESH_AUTH_WHEN as int) {
                SessionPhase::ClientForRefresh
            } else {
                SessionPhase::Finished
            }),
            r.1 == (if auth.0 is None || auth.due(now as int, REFRESH_AUTH_WHEN as int) {
                SessionAction::MakeClient
            } else {
                SessionAction::Return(Ok(()))
            }),
    {
        match &auth.0 {
            None => (
                SessionRun { login: true, phase: SessionPhase::ClientForLogin, failure: None },
                SessionAction::MakeClient,
            ),
            Some(s) => {
                if s.tokens.expires_in_less_than(now, REFRESH_AUTH_WHEN) {
                    (
                        SessionRun {
                            login: true,
                            phase: SessionPhase::ClientForRefresh,
                            failure: None,
                        },
                        SessionAction::MakeClient,
                    )
                } else {
                    (
                        SessionRun { login: true, phase: SessionPhase::Finished, failure: None },
                        SessionAction::Return(Ok(())),
                    )
                }
            },
        }
    }

    /// Starts a refresh, whatever the expiry of the token.
    pub fn refresh(auth: &MaybeAuth) -> (r: (SessionRun, SessionAction))
        ensures
            !r.0.login,
            r.0.failure is None,
            r.0.phase == (if auth.0 is None {
                SessionPhase::Finished
            } else {
                SessionPhase::ClientForRefresh
            }),
            r.1 == (if auth.0 is None {
                SessionAction::Return(Err(SessionError::NotLoggedIn))
            } else {
                SessionAction::MakeClient
            }),
    {
        match &auth.0 {
            None => (
                SessionRun { login: false, phase: SessionPhase::Finished, failure: None },
                SessionAction::Return(Err(SessionError::NotLoggedIn)),
            ),
            Some(_) => (
                SessionRun { login: false, phase: SessionPhase::ClientForRefresh, failure: None },
                SessionAction::MakeClient,
            ),
        }
    }

    fn moved(self, phase: SessionPhase) -> (r: SessionRun)
        ensures
            r == self.in_phase(phase),
    {
        SessionRun { login: self.login, phase, failure: None }
    }

    fn finish(self, result: Result<(), SessionError>) -> (r: (SessionRun, SessionAction))
        ensures
            r == self.over(result),
    {
        (self.moved(SessionPhase::Finished), SessionAction::Return(result))
    }

    /// What follows on an event.
    pub fn step(self, event: SessionEvent) -> (r: (SessionRun, SessionAction))
        requires
            self.expects(event),
        ensures
            r == self.next(event),
    {
        let SessionRun { login, phase, failure } = self;
        let rest = SessionRun { login, phase: SessionPhase::Finished, failure: None };
        match (phase, event) {
            (SessionPhase::ClientForLogin, SessionEvent::ClientMade(Ok(_))) => (
                rest.moved(SessionPhase::LoggingIn),
                SessionAction::Login,
            ),
            (SessionPhase::ClientForRefresh, SessionEvent::ClientMade(Ok(_))) => (
                rest.moved(SessionPhase::Refreshing),
                SessionAction::Refresh,
            ),
            (_, SessionEvent::ClientMade(Err(e))) => rest.finish(Err(SessionError::Client(e))),
            (SessionPhase::LoggingIn, SessionEvent::LoggedIn(Ok(s))) => (
                rest.moved(SessionPhase::Storing),
                SessionAction::Store(s),
            ),
            (SessionPhase::LoggingIn, SessionEvent::LoggedIn(Err(e))) => rest.finish(
                Err(SessionError::Login(e)),
            ),
            (SessionPhase::Refreshing, SessionEvent::Refreshed(Ok(s))) => (
                rest.moved(SessionPhase::Storing),
                SessionAction::Store(s),
            ),
            (SessionPhase::Refreshing, SessionEvent::Refreshed(Err(e))) => {
                if login {
                    (rest.moved(SessionPhase::ClientForLogin), SessionAction::MakeClient)
                } else {
                    (
                        SessionRun { login, phase: SessionPhase::Clearing, failure: Some(e) },
                        SessionAction::Clear,
                    )
                }
            },
            (SessionPhase::Clearing, SessionEvent::Stored(Ok(_))) => match failure {
                Some(e) => rest.finish(Err(SessionError::Refresh(e))),
                None => vstd::pervasive::unreached(),
            },
            (_, SessionEvent::Stored(Err(e))) => rest.finish(Err(SessionError::Store(e))),
            _ => rest.finish(Ok(())),
        }
    }
}

/// What is to be done after a row of events.
pub open spec fn session_after(start: SessionRun, events: Seq<SessionEvent>) -> SessionRun
    decreases events.len(),
{
    if events.len() == 0 {
        start
    } else {
        session_after(start, events.drop_last()).next(events.last()).0
    }
}

/// Each event is one that can come where the run then stands.
pub open spec fn session_possible(start: SessionRun, events: Seq<SessionEvent>) -> bool
    decreases events.len(),
{
    events.len() == 0 || {
        &&& session_possible(start, events.drop_last())
        &&& session_after(start, events.drop_last()).expects(events.last())
    }
}

/// A refresh that is not part of a login clears the session exactly if the provider refused it,
/// and never lets the user sign in; a login never clears the session.
pub proof fn law_session_step(run: SessionRun, event: SessionEvent)
    requires
        run.expects(event),
    ensures
        run.next(event).1 is Clear <==> !run.login && run.phase == SessionPhase::Refreshing && (
        event matches SessionEvent::Refreshed(Err(_))),
        run.next(event).1 is Store ==> (event matches SessionEvent::Refreshed(Ok(s))
            && run.next(event).1 == SessionAction::Store(s)) || (
        event matches SessionEvent::LoggedIn(Ok(s)) && run.next(event).1 == SessionAction::Store(
            s,
        )),
        run.next(event).1 == SessionAction::Return(Ok(())) ==> run.phase == SessionPhase::Storing
            && (event matches SessionEvent::Stored(Ok(_))),
{
}

/// How many events can have come before a phase at the most.
pub open spec fn session_rank(phase: SessionPhase) -> int {
    match phase {
        SessionPhase::ClientForRefresh => 0,
        SessionPhase::Refreshing => 1,
        SessionPhase::ClientForLogin => 2,
        SessionPhase::LoggingIn => 3,
        SessionPhase::Storing => 4,
        SessionPhase::Clearing => 4,
        SessionPhase::Finished => 5,
    }
}

/// A login or refresh ends after at most five events.
pub proof fn law_session_ends(start: SessionRun, events: Seq<SessionEvent>)
    requires
        session_possible(start, events),
    ensures
        events.len() <= session_rank(session_after(start, events).phase) <= 5,
    decreases events.len(),
{
    if events.len() > 0 {
        law_session_ends(start, events.drop_last());
    }
}

// Following the session.

/// What a task hears that follows the session.
#[derive(Debug, Clone, Copy, PartialEq, Eq, Structural)]
pub enum SessionNews {
    /// The task was started.
    Started,
    /// The login state or the tokens changed.
    Changed,
    /// There is no session to follow any more.
    Over,
}

/// What a task does that follows the session.
#[derive(Debug, Clone, Copy, PartialEq, Eq, Structural)]
pub enum FollowAction {
    /// Bring what depends on the session up to date, then wait.
    Sync,
    Wait,
    Stop,
}

/// What follows on news of the session: as long as someone is signed in, every change, and the
/// start, brings what depends on it up to date.
pub fn follow_session(news: SessionNews, state: LoginState) -> (r: FollowAction)
    ensures
        r == (if news == SessionNews::Over {
            FollowAction::Stop
        } else if state == LoginState::Missing {
            FollowAction::Wait
        } else {
            FollowAction::Sync
        }),
{
    if news == SessionNews::Over {
        FollowAction::Stop
    } else if state == LoginState::Missing {
        FollowAction::Wait
    } else {
        FollowAction::Sync
    }
}

// The redirect at the end of a login.

/// The port at which the redirect of a login is awaited.
pub const REDIRECT_SERVER_PORT: u16 = 7076;

/// What a redirect carries: the code, and the state that was sent along.
#[derive(Debug, Clone)]
pub struct OauthRedirectData {
    pub code: String,
    pub state: String,
}

/// Where the provider sends the user after a login.
pub fn redirect_url() -> (r: String)
    ensures
        r@ == "http://localhost:7076/oauth/redirect"@,
{
    "http://localhost:7076/oauth/redirect".to_owned()
}

/// The code of a redirect, if it carries the state that was sent. Any other redirect is passed
/// over, and the wait goes on.
pub fn accept_redirect(data: OauthRedirectData, csrf_token: &str) -> (r: Option<String>)
    ensures
        r == (if data.state@ == csrf_token@ {
            Some(data.code)
        } else {
            None
        }),
{
    if same(data.state.as_str(), csrf_token) {
        Some(data.code)
    } else {
        None
    }
}

/// What can happen while the redirect of a login is awaited.
#[derive(Debug)]
pub enum RedirectEvent {
    Redirected(OauthRedirectData),
    /// The server at which it is awaited ended.
    ServerClosed,
    /// The server could not be run.
    ServerFailed(String),
    /// The user gave the login up.
    Cancelled,
    /// The time to wait has passed.
    TimedOut,
}

/// Why no redirect came.
#[derive(Debug)]
pub enum RedirectError {
    ServerClosed,
    ServerFailed(String),
    Cancelled,
    TimedOut,
}

/// What follows while the redirect of a login is awaited.
#[derive(Debug)]
pub enum RedirectStep {
    /// Wait on.
    Again,
    /// The code with which the login goes on.
    Code(String),
    Failed(RedirectError),
}

/// What follows on an event: a redirect with the state that was sent ends the wait with its code,
/// one with another state is passed over, and anything else ends the wait without a code.
pub open spec fn redirect_step(event: RedirectEvent, csrf_token: Seq<char>) -> RedirectStep {
    match event {
        RedirectEvent::Redirected(data) => if data.state@ == csrf_token {
            RedirectStep::Code(data.code)
        } else {
            RedirectStep::Again
        },
        RedirectEvent::ServerClosed => RedirectStep::Failed(RedirectError::ServerClosed),
        RedirectEvent::ServerFailed(e) => RedirectStep::Failed(RedirectError::ServerFailed(e)),
        RedirectEvent::Cancelled => RedirectStep::Failed(RedirectError::Cancelled),
        RedirectEvent::TimedOut => RedirectStep::Failed(RedirectError::TimedOut),
    }
}

/// What the wait has come to after events, the last one at the end. What follows on its end does
/// not count.
pub open spec fn redirect_after(events: Seq<RedirectEvent>, csrf_token: Seq<char>) -> RedirectStep
    decreases events.len(),
{
    if events.len() == 0 {
        RedirectStep::Again
    } else {
        let before = redirect_after(events.drop_last(), csrf_token);
        if before is Again {
            redirect_step(events.last(), csrf_token)
        } else {
            before
        }
    }
}

/// Decides what follows while the redirect of a login is awaited.
pub fn recv(event: RedirectEvent, csrf_token: &str) -> (r: RedirectStep)
    ensures
        r == redirect_step(event, csrf_token@),
{
    match event {
        RedirectEvent::Redirected(data) => match accept_redirect(data, csrf_token) {
            Some(code) => RedirectStep::Code(code),
            None => RedirectStep::Again,
        },
        RedirectEvent::ServerClosed => RedirectStep::Failed(RedirectError::ServerClosed),
        RedirectEvent::ServerFailed(e) => RedirectStep::Failed(RedirectError::ServerFailed(e)),
        RedirectEvent::Cancelled => RedirectStep::Failed(RedirectError::Cancelled),
        RedirectEvent::TimedOut => RedirectStep::Failed(RedirectError::TimedOut),
    }
}

impl RedirectError {
    pub open spec fn text(self) -> Seq<char> {
        match self {
            RedirectError::ServerClosed => "web server closed"@,
            RedirectError::ServerFailed(e) => "web server failed: "@ + e@,
            RedirectError::Cancelled => "Login cancelled"@,
            RedirectError::TimedOut => "deadline has elapsed"@,
        }
    }

    /// The text for users.
    pub fn message(&self) -> (r: String)
        ensures
            r@ == self.text(),
    {
        match self {
            RedirectError::ServerClosed => "web server closed".to_owned(),
            RedirectError::ServerFailed(e) => cat("web server failed: ", e.as_str()),
            RedirectError::Cancelled => "Login cancelled".to_owned(),
            RedirectError::TimedOut => "deadline has elapsed".to_owned(),
        }
    }
}

/// The code with which a login goes on is that of a redirect with the state that was sent, and
/// every redirect before it had another state.
pub proof fn law_code_needs_state(events: Seq<RedirectEvent>, csrf_token: Seq<char>) -> (i: int)
    requires
        redirect_after(events, csrf_token) is Code,
    ensures
        0 <= i < events.len(),
        events[i] matches RedirectEvent::Redirected(data) && data.state@ == csrf_token
            && redirect_after(events, csrf_token) == RedirectStep::Code(data.code),
        forall|k: int|
            0 <= k < i ==> ((#[trigger] events[k]) matches RedirectEvent::Redirected(d) && d.state@
                != csrf_token),
    decreases events.len(),
{
    let before = redirect_after(events.drop_last(), csrf_token);
    if before is Code {
        let i = law_code_needs_state(events.drop_last(), csrf_token);
        assert forall|k: int| 0 <= k < i implies ((#[trigger] events[k]) matches RedirectEvent::Redirected(d)
            && d.state@ != csrf_token) by {
            assert(events[k] == events.drop_last()[k]);
        }
        i
    } else {
        assert(before is Again);
        lemma_all_passed_over(events.drop_last(), csrf_token);
        assert forall|k: int| 0 <= k < events.len() - 1 implies ((#[trigger] events[k]) matches RedirectEvent::Redirected(
            d,
        ) && d.state@ != csrf_token) by {
            assert(events[k] == events.drop_last()[k]);
        }
        events.len() - 1
    }
}

/// While the wait goes on, every event was a redirect with another state.
proof fn lemma_all_passed_over(events: Seq<RedirectEvent>, csrf_token: Seq<char>)
    requires
        redirect_after(events, csrf_token) is Again,
    ensures
        forall|k: int|
            0 <= k < events.len() ==> ((#[trigger] events[k]) matches RedirectEvent::Redirected(d)
                && d.state@ != csrf_token),
    decreases events.len(),
{
    if events.len() > 0 {
        lemma_all_passed_over(events.drop_last(), csrf_token);
        assert forall|k: int| 0 <= k < events.len() implies ((#[trigger] events[k]) matches RedirectEvent::Redirected(
            d,
        ) && d.state@ != csrf_token) by {
            if k < events.len() - 1 {
                assert(events[k] == events.drop_last()[k]);
            }
        }
    }
}

/// The page shown after a login, from its template: the images and the font are written into it.
pub open spec fn filled_page(
    template: Seq<char>,
    hero: Seq<char>,
    font: Seq<char>,
    light: Seq<char>,
    dark: Seq<char>,
) -> Seq<char> {
    let a = crate::text::replaced(template, "{{HERO_B64}}"@, hero);
    let b = crate::text::replaced(a, "{{FONT_B64}}"@, font);
    let c = crate::text::replaced(b, "{{FAVICON_LIGHT_B64}}"@, light);
    crate::text::replaced(c, "{{FAVICON_DARK_B64}}"@, dark)
}

/// The page from its template and the texts to write into it.
pub fn fill_page(template: &str, hero: &str, font: &str, light: &str, dark: &str) -> (r: String)
    ensures
        r@ == filled_page(template@, hero@, font@, light@, dark@),
{
    proof {
        reveal_strlit("{{HERO_B64}}");
        reveal_strlit("{{FONT_B64}}");
        reveal_strlit("{{FAVICON_LIGHT_B64}}");
        reveal_strlit("{{FAVICON_DARK_B64}}");
    }
    let a = crate::text::replace(template, "{{HERO_B64}}", hero);
    let b = crate::text::replace(a.as_str(), "{{FONT_B64}}", font);
    let c = crate::text::replace(b.as_str(), "{{FAVICON_LIGHT_B64}}", light);
    crate::text::replace(c.as_str(), "{{FAVICON_DARK_B64}}", dark)
}

/// The bytes are few enough to be written in base64.
pub open spec fn encodable(bytes: Seq<u8>) -> bool {
    bytes.len() <= usize::MAX / 512
}

/// The page shown after a login, from its template, two icons, an image and a font.
pub fn oauth_redirect_page(template: &str, hero: &[u8], font: &[u8], light: &[u8], dark: &[u8]) -> (r:
    String)
    requires
        encodable(hero@),
        encodable(font@),
        encodable(light@),
        encodable(dark@),
    ensures
        r@ == filled_page(
            template@,
            crate::encoding::base64_text(hero@),
            crate::encoding::base64_text(font@),
            crate::encoding::base64_text(light@),
            crate::encoding::base64_text(dark@),
        ),
{
    let hero = crate::encoding::encode_base64(hero);
    let font = crate::encoding::encode_base64(font);
    let light = crate::encoding::encode_base64(light);
    let dark = crate::encoding::encode_base64(dark);
    fill_page(template, hero.as_str(), font.as_str(), light.as_str(), dark.as_str())
}

// What sessions promise.

/// A session needs a refresh exactly in the last five minutes of its token and after them; it is to
/// be refreshed before use in the last half hour; and a token has expired exactly if its time is
/// over.
pub proof fn law_session_times(tokens: AuthTokens, profile: UserProfile, now: int)
    ensures
        ({
            let left = tokens.issued_at + tokens.expires_in - now;
            let session = MaybeAuth(Some(AuthState { tokens, profile }));
            &&& tokens.expires_within(now, 0) <==> left < 0
            &&& session.state(now) == LoginState::NeedsRefresh <==> left < 5 * 60 * 1_000_000_000
            &&& session.state(now) == LoginState::Valid <==> left >= 5 * 60 * 1_000_000_000
            &&& session.due(now, REFRESH_AUTH_WHEN as int) <==> left < 30 * 60 * 1_000_000_000
        }),
        MaybeAuth(None).state(now) == LoginState::Missing,
        !MaybeAuth(None).due(now, REFRESH_AUTH_WHEN as int),
{
}

/// The next look at a session comes when its token has half an hour left, to the second, but not
/// within a second; without a session it comes after a minute.
pub proof fn law_refresh_delay(tokens: AuthTokens, profile: UserProfile, now: int)
    ensures
        ({
            let left = tokens.issued_at + tokens.expires_in - 30 * 60 * 1_000_000_000 - now;
            let wait = refresh_delay(MaybeAuth(Some(AuthState { tokens, profile })), now);
            &&& left < 1_000_000_000 ==> wait == 1
            &&& left >= 1_000_000_000 ==> wait * 1_000_000_000 <= left < (wait + 1) * 1_000_000_000
        }),
        refresh_delay(MaybeAuth(None), now) == 60,
{
}

/// Both names are shown with a blank between them; one is shown alone; without names the address
/// is shown.
pub proof fn law_shown_name(p: ProfileView)
    ensures
        p.first_name is Some && p.last_name is Some ==> {
            let (a, b) = (p.first_name->0, p.last_name->0);
            let s = p.shown_name();
            &&& s.len() == a.len() + 1 + b.len()
            &&& s.take(a.len() as int) == a
            &&& s[a.len() as int] == ' '
            &&& s.skip(a.len() as int + 1) == b
        },
        p.first_name is Some && p.last_name is None ==> p.shown_name() == p.first_name->0,
        p.first_name is None && p.last_name is Some ==> p.shown_name() == p.last_name->0,
        p.first_name is None && p.last_name is None ==> p.shown_name() == p.email,
{
    reveal_strlit(" ");
    if p.first_name is Some && p.last_name is Some {
        let (a, b) = (p.first_name->0, p.last_name->0);
        assert((a + " "@ + b).take(a.len() as int) =~= a);
        assert((a + " "@ + b).skip(a.len() as int + 1) =~= b);
    }
}

/// A reply describes a user exactly if its metadata has a name and its `spec`, or else its
/// `status`, an address; the user is that name with that address.
pub proof fn law_user_in(json: JsonView)
    ensures
        user_in(json) matches Some(p) ==> {
            &&& text_at(json, seq!["metadata"@, "name"@]) == Some(p.user_id)
            &&& first_text(json, seq![seq!["spec"@, "email"@], seq!["status"@, "email"@]], Some(p.email))
        },
        text_at(json, seq!["metadata"@, "name"@]) is Some && (text_at(
            json,
            seq!["spec"@, "email"@],
        ) is Some || (reached(json, seq!["spec"@, "email"@]) is None && text_at(
            json,
            seq!["status"@, "email"@],
        ) is Some)) ==> user_in(json) is Some,
{
    lemma_reached(json, "metadata"@, "name"@);
    lemma_reached(json, "spec"@, "email"@);
    lemma_reached(json, "status"@, "email"@);
    if let Some(p) = user_in(json) {
        let status = seq!["status"@, "email"@];
        let spec = seq!["spec"@, "email"@];
        lemma_first_text_none(json);
        lemma_first_text_more(json, status, Seq::empty(), None);
        assert(seq![status] + Seq::<Seq<Seq<char>>>::empty() =~= seq![status]);
        lemma_first_text_more(json, spec, seq![status], text_at(json, status));
        assert(seq![spec] + seq![status] =~= seq![spec, status]);
        assert(text_at(json, status) == (if reached(json, status) is Some {
            text_at(json, status)
        } else {
            None
        }));
    }
}

/// The names of a user are those of `spec`, or else of `status`, in any of the spellings; the
/// picture is that of `status`, or else of `spec`.
pub proof fn law_user_names(json: JsonView)
    requires
        user_in(json) is Some,
    ensures
        first_text(
            json,
            seq![
                seq!["spec"@, "givenName"@],
                seq!["spec"@, "firstName"@],
                seq!["spec"@, "first_name"@],
                seq!["status"@, "givenName"@],
                seq!["status"@, "firstName"@],
                seq!["status"@, "first_name"@],
            ],
            user_in(json)->0.first_name,
        ),
        first_text(
            json,
            seq![
                seq!["spec"@, "familyName"@],
                seq!["spec"@, "lastName"@],
                seq!["spec"@, "last_name"@],
                seq!["status"@, "familyName"@],
                seq!["status"@, "lastName"@],
                seq!["status"@, "last_name"@],
            ],
            user_in(json)->0.last_name,
        ),
        first_text(
            json,
            seq![
                seq!["status"@, "avatarUrl"@],
                seq!["status"@, "avatar_url"@],
                seq!["spec"@, "avatarUrl"@],
                seq!["spec"@, "avatar_url"@],
            ],
            user_in(json)->0.avatar_url,
        ),
        first_text(
            json,
            seq![
                seq!["status"@, "registrationApproval"@],
                seq!["status"@, "registration_approval"@],
            ],
            user_in(json)->0.registration_approval,
        ),
{
    let none = Seq::<Seq<Seq<char>>>::empty();
    lemma_first_text_none(json);
    let two = lemma_two_texts(
        json,
        seq!["status"@, "registrationApproval"@],
        seq!["status"@, "registration_approval"@],
        none,
        None,
    );
    assert(two.0 + none =~= two.0);
    let low = lemma_two_texts(
        json,
        seq!["spec"@, "avatarUrl"@],
        seq!["spec"@, "avatar_url"@],
        none,
        None,
    );
    assert(low.0 + none =~= low.0);
    let high = lemma_two_texts(
        json,
        seq!["status"@, "avatarUrl"@],
        seq!["status"@, "avatar_url"@],
        low.0,
        low.1,
    );
    assert(high.0 + low.0 =~= seq![
        seq!["status"@, "avatarUrl"@],
        seq!["status"@, "avatar_url"@],
        seq!["spec"@, "avatarUrl"@],
        seq!["spec"@, "avatar_url"@],
    ]);
    lemma_six_texts(json, "givenName"@, "firstName"@, "first_name"@);
    lemma_six_texts(json, "familyName"@, "lastName"@, "last_name"@);
    lemma_reached(json, "status"@, "registrationApproval"@);
    lemma_reached(json, "status"@, "registration_approval"@);
    lemma_reached(json, "status"@, "avatarUrl"@);
    lemma_reached(json, "status"@, "avatar_url"@);
    lemma_reached(json, "spec"@, "avatarUrl"@);
    lemma_reached(json, "spec"@, "avatar_url"@);
}

proof fn lemma_two_texts(
    json: JsonView,
    a: Seq<Seq<char>>,
    b: Seq<Seq<char>>,
    rest: Seq<Seq<Seq<char>>>,
    out: Option<Seq<char>>,
) -> (r: (Seq<Seq<Seq<char>>>, Option<Seq<char>>))
    requires
        first_text(json, rest, out),
    ensures
        r.0 == seq![a, b],
        first_text(json, r.0 + rest, r.1),
        r.1 == (if reached(json, a) is Some {
            text_at(json, a)
        } else if reached(json, b) is Some {
            text_at(json, b)
        } else {
            out
        }),
{
    lemma_first_text_more(json, b, rest, out);
    let last = if reached(json, b) is Some {
        text_at(json, b)
    } else {
        out
    };
    lemma_first_text_more(json, a, seq![b] + rest, last);
    assert(seq![a] + (seq![b] + rest) =~= seq![a, b] + rest);
    (
        seq![a, b],
        if reached(json, a) is Some {
            text_at(json, a)
        } else {
            last
        },
    )
}

proof fn lemma_six_texts(json: JsonView, a: Seq<char>, b: Seq<char>, c: Seq<char>)
    ensures
        first_text(
            json,
            seq![
                seq!["spec"@, a],
                seq!["spec"@, b],
                seq!["spec"@, c],
                seq!["status"@, a],
                seq!["status"@, b],
                seq!["status"@, c],
            ],
            name_member(
                as_object(json.member("spec"@)),
                as_object(json.member("status"@)),
                a,
                b,
                c,
            ),
        ),
{
    let none = Seq::<Seq<Seq<char>>>::empty();
    lemma_first_text_none(json);
    let last = lemma_two_texts(json, seq!["status"@, b], seq!["status"@, c], none, None);
    assert(last.0 + none =~= last.0);
    let middle = lemma_two_texts(json, seq!["spec"@, c], seq!["status"@, a], last.0, last.1);
    let first = lemma_two_texts(
        json,
        seq!["spec"@, a],
        seq!["spec"@, b],
        middle.0 + last.0,
        middle.1,
    );
    assert(first.0 + (middle.0 + last.0) =~= seq![
        seq!["spec"@, a],
        seq!["spec"@, b],
        seq!["spec"@, c],
        seq!["status"@, a],
        seq!["status"@, b],
        seq!["status"@, c],
    ]);
    lemma_reached(json, "spec"@, a);
    lemma_reached(json, "spec"@, b);
    lemma_reached(json, "spec"@, c);
    lemma_reached(json, "status"@, a);
    lemma_reached(json, "status"@, b);
    lemma_reached(json, "status"@, c);
}

/// What the user or the provider gave is stored, and is the result once it is stored. What failed
/// is told to the caller as it failed. A refresh that fails within a login lets the user sign in;
/// any other clears the session first and is told then.
pub proof fn law_session_follows(run: SessionRun, event: SessionEvent)
    requires
        run.expects(event),
    ensures
        event matches SessionEvent::LoggedIn(Ok(s)) ==> run.next(event).1 == SessionAction::Store(s)
            && run.next(event).0.phase == SessionPhase::Storing,
        event matches SessionEvent::Refreshed(Ok(s)) ==> run.next(event).1 == SessionAction::Store(s)
            && run.next(event).0.phase == SessionPhase::Storing,
        event matches SessionEvent::LoggedIn(Err(e)) ==> run.next(event).1 == SessionAction::Return(
            Err(SessionError::Login(e)),
        ),
        event matches SessionEvent::ClientMade(Err(e)) ==> run.next(event).1
            == SessionAction::Return(Err(SessionError::Client(e))),
        event matches SessionEvent::Stored(Err(e)) ==> run.next(event).1 == SessionAction::Return(
            Err(SessionError::Store(e)),
        ),
        run.phase == SessionPhase::Storing && event is Stored && event->Stored_0 is Ok ==> run.next(
            event,
        ).1 == SessionAction::Return(Ok(())),
        run.phase == SessionPhase::ClientForLogin && event->ClientMade_0 is Ok ==> run.next(event).1
            == SessionAction::Login && run.next(event).0.phase == SessionPhase::LoggingIn,
        run.phase == SessionPhase::ClientForRefresh && event->ClientMade_0 is Ok ==> run.next(event).1
            == SessionAction::Refresh && run.next(event).0.phase == SessionPhase::Refreshing,
        run.next(event).0.login == run.login,
{
}

/// A refresh that fails within a login is followed by a login; outside of one the session is
/// cleared, and then the reason of the failure is told.
pub proof fn law_failed_refresh(run: SessionRun, reason: String)
    requires
        run.phase == SessionPhase::Refreshing,
    ensures
        ({
            let failed = run.next(SessionEvent::Refreshed(Err(reason)));
            &&& run.login ==> failed.1 == SessionAction::MakeClient && failed.0.next(
                SessionEvent::ClientMade(Ok(())),
            ).1 == SessionAction::Login
            &&& !run.login ==> failed.1 == SessionAction::Clear && failed.0.next(
                SessionEvent::Stored(Ok(())),
            ).1 == SessionAction::Return(Err(SessionError::Refresh(reason)))
        }),
{
}

/// A redirect with the state that was sent gives its code, and anything but a redirect ends the wait
/// without one, as soon as it comes: what came before was passed over.
pub proof fn law_wait_ends(events: Seq<RedirectEvent>, csrf_token: Seq<char>, i: int)
    requires
        0 <= i < events.len(),
        forall|k: int|
            0 <= k < i ==> ((#[trigger] events[k]) matches RedirectEvent::Redirected(d) && d.state@
                != csrf_token),
        events[i] matches RedirectEvent::Redirected(d) ==> d.state@ == csrf_token,
    ensures
        redirect_after(events, csrf_token) == (match events[i] {
            RedirectEvent::Redirected(data) => RedirectStep::Code(data.code),
            RedirectEvent::ServerClosed => RedirectStep::Failed(RedirectError::ServerClosed),
            RedirectEvent::ServerFailed(e) => RedirectStep::Failed(RedirectError::ServerFailed(e)),
            RedirectEvent::Cancelled => RedirectStep::Failed(RedirectError::Cancelled),
            RedirectEvent::TimedOut => RedirectStep::Failed(RedirectError::TimedOut),
        }),
    decreases events.len(),
{
    let front = events.drop_last();
    if i < events.len() - 1 {
        assert(front[i] == events[i]);
        assert forall|k: int| 0 <= k < i implies ((#[trigger] front[k]) matches RedirectEvent::Redirected(
            d,
        ) && d.state@ != csrf_token) by {
            assert(front[k] == events[k]);
        }
        law_wait_ends(front, csrf_token, i);
    } else {
        assert forall|k: int| 0 <= k < front.len() implies ((#[trigger] front[k]) matches RedirectEvent::Redirected(
            d,
        ) && d.state@ != csrf_token) by {
            assert(front[k] == events[k]);
        }
        lemma_waits_on(front, csrf_token);
    }
}

proof fn lemma_waits_on(events: Seq<RedirectEvent>, csrf_token: Seq<char>)
    requires
        forall|k: int|
            0 <= k < events.len() ==> ((#[trigger] events[k]) matches RedirectEvent::Redirected(d)
                && d.state@ != csrf_token),
    ensures
        redirect_after(events, csrf_token) is Again,
    decreases events.len(),
{
    if events.len() > 0 {
        let front = events.drop_last();
        assert forall|k: int| 0 <= k < front.len() implies ((#[trigger] front[k]) matches RedirectEvent::Redirected(
            d,
        ) && d.state@ != csrf_token) by {
            assert(front[k] == events[k]);
        }
        lemma_waits_on(front, csrf_token);
        assert(events[events.len() - 1] == events.last());
    }
}

/// The page from a template that has each mark once, in this order: each text stands where its mark
/// stood, and the rest of the template is kept. No text may hold the sign that the marks begin with.
pub proof fn law_page(
    parts: Seq<Seq<char>>,
    hero: Seq<char>,
    font: Seq<char>,
    light: Seq<char>,
    dark: Seq<char>,
)
    requires
        parts.len() == 5,
        forall|i: int| 0 <= i < 5 ==> !(#[trigger] parts[i]).contains('{'),
        !hero.contains('{'),
        !font.contains('{'),
        !light.contains('{'),
        !dark.contains('{'),
    ensures
        filled_page(
            parts[0] + "{{HERO_B64}}"@ + parts[1] + "{{FONT_B64}}"@ + parts[2]
                + "{{FAVICON_LIGHT_B64}}"@ + parts[3] + "{{FAVICON_DARK_B64}}"@ + parts[4],
            hero,
            font,
            light,
            dark,
        ) == parts[0] + hero + parts[1] + font + parts[2] + light + parts[3] + dark + parts[4],
{
    let h = "{{HERO_B64}}"@;
    let f = "{{FONT_B64}}"@;
    let l = "{{FAVICON_LIGHT_B64}}"@;
    let d = "{{FAVICON_DARK_B64}}"@;
    reveal_strlit("{{HERO_B64}}");
    reveal_strlit("{{FONT_B64}}");
    reveal_strlit("{{FAVICON_LIGHT_B64}}");
    reveal_strlit("{{FAVICON_DARK_B64}}");
    let (p0, p1, p2, p3, p4) = (parts[0], parts[1], parts[2], parts[3], parts[4]);
    let t3 = p3 + d + p4;
    let t2 = p2 + l + t3;
    let t1 = p1 + f + t2;
    let template = p0 + h + t1;
    assert(p0 + h + p1 + f + p2 + l + p3 + d + p4 =~= template);
    lemma_lacks_plain(p4, h);
    lemma_lacks(p3, d, p4, h, 2);
    lemma_lacks(p2, l, t3, h, 2);
    lemma_lacks(p1, f, t2, h, 2);
    lemma_lacks_plain(p4, f);
    lemma_lacks(p3, d, p4, f, 3);
    lemma_lacks(p2, l, t3, f, 3);
    lemma_lacks_plain(p4, l);
    lemma_lacks(p3, d, p4, l, 10);
    lemma_lacks_plain(p4, d);
    lemma_no_brace(p0, hero);
    lemma_no_brace(p0 + hero, p1);
    lemma_no_brace(p0 + hero + p1, font);
    lemma_no_brace(p0 + hero + p1 + font, p2);
    lemma_no_brace(p0 + hero + p1 + font + p2, light);
    lemma_no_brace(p0 + hero + p1 + font + p2 + light, p3);
    lemma_mark(p0, h, t1, hero);
    let a = p0 + hero + t1;
    let front1 = p0 + hero + p1;
    assert(a =~= front1 + f + t2);
    lemma_mark(front1, f, t2, font);
    let b = front1 + font + t2;
    let front2 = front1 + font + p2;
    assert(b =~= front2 + l + t3);
    lemma_mark(front2, l, t3, light);
    let c = front2 + light + t3;
    let front3 = front2 + light + p3;
    assert(c =~= front3 + d + p4);
    lemma_mark(front3, d, p4, dark);
    assert(front3 + dark + p4 =~= p0 + hero + p1 + font + p2 + light + p3 + dark + p4);
}

/// The mark stands nowhere in the text.
spec fn lacks(s: Seq<char>, mark: Seq<char>) -> bool {
    forall|j: int|
        0 <= j && j + mark.len() <= s.len() ==> #[trigger] s.subrange(j, j + mark.len()) != mark
}

/// Two braces and then none.
spec fn is_mark(m: Seq<char>) -> bool {
    &&& m.len() > 2
    &&& m[0] == '{' && m[1] == '{'
    &&& forall|k: int| 2 <= k < m.len() ==> #[trigger] m[k] != '{'
}

proof fn lemma_lacks(p: Seq<char>, other: Seq<char>, rest: Seq<char>, mark: Seq<char>, k: int)
    requires
        !p.contains('{'),
        is_mark(other),
        is_mark(mark),
        0 <= k < other.len(),
        k < mark.len(),
        other[k] != mark[k],
        lacks(rest, mark),
    ensures
        lacks(p + other + rest, mark),
{
    let s = p + other + rest;
    let n = p.len() as int;
    assert forall|j: int| 0 <= j && j + mark.len() <= s.len() implies #[trigger] s.subrange(
        j,
        j + mark.len(),
    ) != mark by {
        let at = s.subrange(j, j + mark.len());
        if at == mark {
            assert(at[0] == s[j] && at[1] == s[j + 1] && at[k] == s[j + k]);
            if j < n {
                assert(p[j] == '{');
            } else if j == n {
                assert(s[j + k] == other[k]);
            } else if j < n + other.len() {
                if j == n + 1 {
                    assert(s[j + 1] == other[2]);
                } else {
                    assert(s[j] == other[j - n]);
                }
            } else {
                let i = j - n - other.len();
                assert(rest.subrange(i, i + mark.len()) =~= at);
            }
        }
    }
}

proof fn lemma_lacks_plain(p: Seq<char>, mark: Seq<char>)
    requires
        !p.contains('{'),
        is_mark(mark),
    ensures
        lacks(p, mark),
{
    assert forall|j: int| 0 <= j && j + mark.len() <= p.len() implies #[trigger] p.subrange(
        j,
        j + mark.len(),
    ) != mark by {
        assert(p.subrange(j, j + mark.len())[0] == p[j]);
    }
}

proof fn lemma_mark(front: Seq<char>, mark: Seq<char>, rest: Seq<char>, text: Seq<char>)
    requires
        !front.contains('{'),
        is_mark(mark),
        lacks(rest, mark),
    ensures
        crate::text::replaced(front + mark + rest, mark, text) == front + text + rest,
{
    let s = front + mark + rest;
    let n = front.len() as int;
    assert forall|j: int| 0 <= j && j + mark.len() <= s.len() implies (#[trigger] s.subrange(
        j,
        j + mark.len(),
    ) == mark) == (j == n) by {
        let at = s.subrange(j, j + mark.len());
        if j == n {
            assert(at =~= mark);
        } else if at == mark {
            assert(at[0] == s[j] && at[1] == s[j + 1]);
            if j < n {
                assert(front[j] == '{');
            } else if j < n + mark.len() {
                if j == n + 1 {
                    assert(s[j + 1] == mark[2]);
                } else {
                    assert(s[j] == mark[j - n]);
                }
            } else {
                let i = j - n - mark.len();
                assert(rest.subrange(i, i + mark.len()) =~= at);
            }
        }
    }
    crate::text::law_replaced(s, mark, text, n);
    assert(s.take(n) =~= front);
    assert(s.skip(n + mark.len()) =~= rest);
}

proof fn lemma_no_brace(a: Seq<char>, b: Seq<char>)
    requires
        !a.contains('{'),
        !b.contains('{'),
    ensures
        !(a + b).contains('{'),
{
    if (a + b).contains('{') {
        let k = choose|k: int| 0 <= k < (a + b).len() && (a + b)[k] == '{';
        if k < a.len() {
            assert(a[k] == '{');
        } else {
            assert(b[k - a.len()] == '{');
        }
    }
}

} // verus!
