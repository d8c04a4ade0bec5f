//! The login page: what it shows, and what a login does.
use super::app::Route;
use crate::datum_cloud::auth::{AuthState, LoginState, MaybeAuth};
use crate::text::{cat3, contains, has_text, same};
use vstd::prelude::*;

verus! {

/// The registration of the user is not approved yet.
pub open spec fn is_pending(s: AuthState) -> bool {
    s.profile.registration_approval matches Some(a) && a@ == "Pending"@
}

fn approval_pending(s: &AuthState) -> (r: bool)
    ensures
        r == is_pending(*s),
{
    match &s.profile.registration_approval {
        Some(a) => same(a.as_str(), "Pending"),
        None => false,
    }
}

/// Where a user who is signed in goes: nowhere while the registration is pending, else to the
/// tunnels of the selected project, or to the selection of one.
pub open spec fn destination(auth: MaybeAuth, has_context: bool) -> Option<Route> {
    if auth.0 is Some && is_pending(auth.0->0) {
        None
    } else if has_context {
        Some(Route::ProxiesList)
    } else {
        Some(Route::SelectProject)
    }
}

pub fn destination_after_login(auth: &MaybeAuth, has_context: bool) -> (r: Option<Route>)
    ensures
        r == destination(*auth, has_context),
{
    if let Some(s) = &auth.0 {
        if approval_pending(s) {
            return None;
        }
    }
    if has_context {
        Some(Route::ProxiesList)
    } else {
        Some(Route::SelectProject)
    }
}

/// Where the page leads when it is shown: only a user whose session is valid goes on.
pub fn destination_on_show(state: LoginState, auth: &MaybeAuth, has_context: bool) -> (r: Option<Route>)
    ensures
        r == (if state == LoginState::Valid {
            destination(*auth, has_context)
        } else {
            None
        }),
{
    match state {
        LoginState::Valid => destination_after_login(auth, has_context),
        _ => None,
    }
}

/// What the page shows.
#[derive(Debug)]
pub struct LoginView {
    pub registration_pending: bool,
    pub title: String,
    /// The text of the button; there is none while the registration is pending.
    pub button: Option<String>,
    pub error: Option<String>,
}

/// The title of the page: a greeting while the registration is pending.
pub open spec fn login_title(state: LoginState, auth: MaybeAuth) -> Seq<char> {
    if state == LoginState::Valid && auth.0 is Some && is_pending(auth.0->0) {
        "Hey "@ + (match auth.0->0.profile.first_name {
            Some(n) => n@,
            None => "there"@,
        }) + "!"@
    } else {
        ""@
    }
}

/// What the page shows. That the user cancelled the login is not shown as a failure.
pub fn login_view(
    state: LoginState,
    auth: &MaybeAuth,
    pending: bool,
    error: &Option<String>,
) -> (r: LoginView)
    ensures
        r.registration_pending == (state == LoginState::Valid && auth.0 is Some && is_pending(
            auth.0->0,
        )),
        r.title@ == login_title(state, *auth),
        r.button is None <==> r.registration_pending,
        r.button matches Some(b) ==> b@ == (if pending {
            "Waiting for log in confirmation"@
        } else {
            "Log in to Datum"@
        }),
        r.error == (match *error {
            Some(e) if !has_text(e@, "Login cancelled"@) => *error,
            _ => None,
        }),
{
    let valid = match state {
        LoginState::Valid => true,
        _ => false,
    };
    let mut registration_pending = false;
    let mut title = "".to_owned();
    if let Some(s) = &auth.0 {
        if valid && approval_pending(s) {
            registration_pending = true;
            let name = match &s.profile.first_name {
                Some(n) => n.clone(),
                None => "there".to_owned(),
            };
            title = cat3("Hey ", name.as_str(), "!");
        }
    }
    let button = if registration_pending {
        None
    } else if pending {
        Some("Waiting for log in confirmation".to_owned())
    } else {
        Some("Log in to Datum".to_owned())
    };
    let error = match error {
        Some(e) => if contains(e.as_str(), "Login cancelled") {
            None
        } else {
            Some(e.clone())
        },
        None => None,
    };
    LoginView { registration_pending, title, button, error }
}

/// Where a login from the page stands.
#[derive(Debug, Clone, Copy, PartialEq, Eq, Structural)]
pub enum LoginPhase {
    Refreshing,
    LoggingIn,
    RefreshingProfile,
    RefreshingOrgs,
    Finished,
}

/// What is to be done next for a login.
#[derive(Debug)]
pub enum LoginAction {
    /// Refresh the session.
    Refresh,
    /// Let the user sign in.
    Login,
    /// Read the user's profile anew.
    RefreshProfile,
    /// Announce the session, read the organizations anew and check the selected context.
    RefreshOrgs,
    /// Over: go to the page that `destination_after_login` names, or show why it failed.
    Return(Result<(), String>),
}

impl LoginPhase {
    /// What follows on the outcome of the last action. A refresh that failed is followed by a
    /// login; any other failure ends it.
    pub open spec fn next(self, outcome: Result<(), String>) -> (LoginPhase, LoginAction) {
        match (self, outcome) {
            (LoginPhase::Refreshing, Ok(_)) => (
                LoginPhase::RefreshingProfile,
                LoginAction::RefreshProfile,
            ),
            (LoginPhase::Refreshing, Err(_)) => (LoginPhase::LoggingIn, LoginAction::Login),
            (LoginPhase::LoggingIn, Ok(_)) => (
                LoginPhase::RefreshingProfile,
                LoginAction::RefreshProfile,
            ),
            (LoginPhase::RefreshingProfile, Ok(_)) => (
                LoginPhase::RefreshingOrgs,
                LoginAction::RefreshOrgs,
            ),
            (_, o) => (LoginPhase::Finished, LoginAction::Return(o)),
        }
    }

    /// Starts a login: without a session the user signs in, one that needs a refresh is refreshed,
    /// a valid one is kept.
    pub fn start(state: LoginState) -> (r: (LoginPhase, LoginAction))
        ensures
            match state {
                LoginState::Missing => r.0 == LoginPhase::LoggingIn && r.1 is Login,
                LoginState::NeedsRefresh => r.0 == LoginPhase::Refreshing && r.1 is Refresh,
                LoginState::Valid => r.0 == LoginPhase::RefreshingProfile && r.1 is RefreshProfile,
            },
    {
        match state {
            LoginState::Missing => (LoginPhase::LoggingIn, LoginAction::Login),
            LoginState::NeedsRefresh => (LoginPhase::Refreshing, LoginAction::Refresh),
            LoginState::Valid => (LoginPhase::RefreshingProfile, LoginAction::RefreshProfile),
        }
    }

    /// What follows on the outcome of the last action.
    pub fn step(self, outcome: Result<(), String>) -> (r: (LoginPhase, LoginAction))
        ensures
            r == self.next(outcome),
    {
        match (self, outcome) {
            (LoginPhase::Refreshing, Ok(_)) => (
                LoginPhase::RefreshingProfile,
                LoginAction::RefreshProfile,
            ),
            (LoginPhase::Refreshing, Err(_)) => (LoginPhase::LoggingIn, LoginAction::Login),
            (LoginPhase::LoggingIn, Ok(_)) => (
                LoginPhase::RefreshingProfile,
                LoginAction::RefreshProfile,
            ),
            (LoginPhase::RefreshingProfile, Ok(_)) => (
                LoginPhase::RefreshingOrgs,
                LoginAction::RefreshOrgs,
            ),
            (_, o) => (LoginPhase::Finished, LoginAction::Return(o)),
        }
    }
}

/// A login succeeds only at its last step, after the organizations have been read: so the user goes
/// on with a fresh profile and a checked selection.
pub proof fn law_login_succeeds_last(phase: LoginPhase, outcome: Result<(), String>)
    requires
        phase != LoginPhase::Finished,
    ensures
        (phase.next(outcome).1 matches LoginAction::Return(Ok(_))) <==> phase
            == LoginPhase::RefreshingOrgs && outcome is Ok,
        phase.next(outcome).1 matches LoginAction::Return(o) ==> o == outcome,
{
}

/// A user whose registration is pending goes nowhere; any other goes to the tunnels of the selected
/// project, or to the selection of one.
pub proof fn law_destination(s: AuthState, has_context: bool)
    ensures
        s.profile.registration_approval is Some && s.profile.registration_approval->0@ == "Pending"@
            ==> destination(MaybeAuth(Some(s)), has_context) is None,
        s.profile.registration_approval is None || s.profile.registration_approval->0@ != "Pending"@
            ==> destination(MaybeAuth(Some(s)), has_context) == Some(
            if has_context {
                Route::ProxiesList
            } else {
                Route::SelectProject
            },
        ),
{
}

/// A login that goes well reads the profile and then the organizations; a refresh that fails lets
/// the user sign in.
pub proof fn law_login_steps(reason: String)
    ensures
        LoginPhase::Refreshing.next(Ok(())) == (
            LoginPhase::RefreshingProfile,
            LoginAction::RefreshProfile,
        ),
        LoginPhase::LoggingIn.next(Ok(())) == (
            LoginPhase::RefreshingProfile,
            LoginAction::RefreshProfile,
        ),
        LoginPhase::RefreshingProfile.next(Ok(())) == (
            LoginPhase::RefreshingOrgs,
            LoginAction::RefreshOrgs,
        ),
        LoginPhase::RefreshingOrgs.next(Ok(())).1 == LoginAction::Return(Ok(())),
        LoginPhase::Refreshing.next(Err(reason)) == (LoginPhase::LoggingIn, LoginAction::Login),
        LoginPhase::LoggingIn.next(Err(reason)).1 == LoginAction::Return(Err(reason)),
        LoginPhase::RefreshingProfile.next(Err(reason)).1 == LoginAction::Return(Err(reason)),
        LoginPhase::RefreshingOrgs.next(Err(reason)).1 == LoginAction::Return(Err(reason)),
{
}

/// A user whose registration is pending is greeted, by the first name where it is known.
pub proof fn law_greeting(s: AuthState)
    requires
        s.profile.registration_approval is Some,
        s.profile.registration_approval->0@ == "Pending"@,
    ensures
        login_title(LoginState::Valid, MaybeAuth(Some(s))) == "Hey "@ + (
        if s.profile.first_name is Some {
            s.profile.first_name->0@
        } else {
            "there"@
        }) + "!"@,
{
}

} // verus!
