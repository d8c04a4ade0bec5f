//! Requests with a token that the server may reject.
//!
//! A request is sent with the session's token. If the server rejects the token, the token is
//! refreshed and the request is sent once more; if that is rejected too, the session is cleared. A
//! request that must not be sent twice is sent once, and a rejection clears the session at once.
use vstd::prelude::*;

verus! {

/// What a run of a request came to.
#[derive(Debug)]
pub enum Attempt<T, E> {
    Done(T),
    /// The server rejected the token.
    Rejected,
    Failed(E),
}

/// Why a request did not give its result.
#[derive(Debug)]
pub enum AuthError<E> {
    /// There is no usable session, or refreshing it before the request failed.
    Session(String),
    /// The server keeps rejecting the token, or the token could not be refreshed.
    Unauthorized,
    /// The request failed.
    Failed(E),
    /// The request failed after the token had been refreshed.
    FailedAfterRefresh(E),
}

/// Where a request stands.
#[derive(Debug, Clone, Copy, PartialEq, Eq, Structural)]
pub enum AuthPhase {
    /// The token is being refreshed if it is about to expire.
    Preflight,
    /// The request runs.
    First,
    /// The token is being refreshed because it was rejected.
    Refreshing,
    /// The request runs again.
    Second,
    /// The session is being cleared.
    LoggingOut,
    /// The result is known.
    Finished,
}

/// What happened to a request.
#[derive(Debug)]
pub enum AuthEvent<T, E> {
    /// A current token is there.
    TokenReady,
    /// There is none, for the given reason.
    TokenFailed(String),
    /// The request was run.
    Ran(Attempt<T, E>),
    /// The attempt to clear the session is over, well or not.
    LoggedOut,
}

/// What is to be done next for a request.
#[derive(Debug)]
pub enum AuthAction<T, E> {
    /// Refresh the token if it is about to expire.
    RefreshIfDue,
    /// Refresh the token whatever its expiry.
    ForceRefresh,
    /// Run the request.
    Run,
    /// Clear the session.
    Logout,
    /// Hand this to the caller.
    Return(Result<T, AuthError<E>>),
}

/// A request with the handling of rejected tokens around it. With `retry` it may run twice.
#[derive(Debug, Clone, Copy)]
pub struct AuthRun {
    pub retry: bool,
    pub phase: AuthPhase,
}

impl AuthRun {
    /// The events that can come in this phase.
    pub open spec fn expects<T, E>(self, event: AuthEvent<T, E>) -> bool {
        match self.phase {
            AuthPhase::Preflight | AuthPhase::Refreshing => event is TokenReady
                || event is TokenFailed,
            AuthPhase::First | AuthPhase::Second => event is Ran,
            AuthPhase::LoggingOut => event is LoggedOut,
            AuthPhase::Finished => false,
        }
    }

    pub open spec fn in_phase(self, phase: AuthPhase) -> AuthRun {
        AuthRun { retry: self.retry, phase }
    }

    /// The request is over with a result.
    pub open spec fn over<T, E>(self, result: Result<T, AuthError<E>>) -> (
        AuthRun,
        AuthAction<T, E>,
    ) {
        (self.in_phase(AuthPhase::Finished), AuthAction::Return(result))
    }

    /// What follows on an event.
    pub open spec fn next<T, E>(self, event: AuthEvent<T, E>) -> (AuthRun, AuthAction<T, E>) {
        match (self.phase, event) {
            (AuthPhase::Preflight, AuthEvent::TokenReady) => (
                self.in_phase(AuthPhase::First),
                AuthAction::Run,
            ),
            (AuthPhase::Preflight, AuthEvent::TokenFailed(e)) => self.over(
                Err(AuthError::Session(e)),
            ),
            (AuthPhase::First, AuthEvent::Ran(Attempt::Done(v))) => self.over(Ok(v)),
            (AuthPhase::First, AuthEvent::Ran(Attempt::Failed(e))) => self.over(
                Err(AuthError::Failed(e)),
            ),
            (AuthPhase::First, AuthEvent::Ran(Attempt::Rejected)) => if self.retry {
                (self.in_phase(AuthPhase::Refreshing), AuthAction::ForceRefresh)
            } else {
                (self.in_phase(AuthPhase::LoggingOut), AuthAction::Logout)
            },
            (AuthPhase::Refreshing, AuthEvent::TokenReady) => (
                self.in_phase(AuthPhase::Second),
                AuthAction::Run,
            ),
            (AuthPhase::Second, AuthEvent::Ran(Attempt::Done(v))) => self.over(Ok(v)),
            (AuthPhase::Second, AuthEvent::Ran(Attempt::Failed(e))) => self.over(
                Err(AuthError::FailedAfterRefresh(e)),
            ),
            (AuthPhase::Second, AuthEvent::Ran(Attempt::Rejected)) => (
                self.in_phase(AuthPhase::LoggingOut),
                AuthAction::Logout,
            ),
            _ => self.over(Err(AuthError::Unauthorized)),
        }
    }

    /// Starts a request that may run twice.
    pub fn with_auth_retry<T, E>() -> (r: (AuthRun, AuthAction<T, E>))
        ensures
            r.0 == (AuthRun { retry: true, phase: AuthPhase::Preflight }),
            r.1 == AuthAction::<T, E>::RefreshIfDue,
    {
        (AuthRun { retry: true, phase: AuthPhase::Preflight }, AuthAction::RefreshIfDue)
    }

    /// Starts a request that runs once.
    pub fn with_auth<T, E>() -> (r: (AuthRun, AuthAction<T, E>))
        ensures
            r.0 == (AuthRun { retry: false, phase: AuthPhase::Preflight }),
            r.1 == AuthAction::<T, E>::RefreshIfDue,
    {
        (AuthRun { retry: false, phase: AuthPhase::Preflight }, AuthAction::RefreshIfDue)
    }

    /// Starts a request that may run twice, with the token as it is.
    pub fn with_current_token<T, E>() -> (r: (AuthRun, AuthAction<T, E>))
        ensures
            r.0 == (AuthRun { retry: true, phase: AuthPhase::First }),
            r.1 == AuthAction::<T, E>::Run,
    {
        (AuthRun { retry: true, phase: AuthPhase::First }, AuthAction::Run)
    }

    fn moved(self, phase: AuthPhase) -> (r: AuthRun)
        ensures
            r == self.in_phase(phase),
    {
        AuthRun { retry: self.retry, phase }
    }

    fn finish<T, E>(self, result: Result<T, AuthError<E>>) -> (r: (AuthRun, AuthAction<T, E>))
        ensures
            r == self.over(result),
    {
        (self.moved(AuthPhase::Finished), AuthAction::Return(result))
    }

    /// What follows on an event.
    pub fn step<T, E>(self, event: AuthEvent<T, E>) -> (r: (AuthRun, AuthAction<T, E>))
        requires
            self.expects(event),
        ensures
            r == self.next(event),
    {
        match (self.phase, event) {
            (AuthPhase::Preflight, AuthEvent::TokenReady) => (
                self.moved(AuthPhase::First),
                AuthAction::Run,
            ),
            (AuthPhase::Preflight, AuthEvent::TokenFailed(e)) => self.finish(
                Err(AuthError::Session(e)),
            ),
            (AuthPhase::First, AuthEvent::Ran(Attempt::Done(v))) => self.finish(Ok(v)),
            (AuthPhase::First, AuthEvent::Ran(Attempt::Failed(e))) => self.finish(
                Err(AuthError::Failed(e)),
            ),
            (AuthPhase::First, AuthEvent::Ran(Attempt::Rejected)) => {
                if self.retry {
                    (self.moved(AuthPhase::Refreshing), AuthAction::ForceRefresh)
                } else {
                    (self.moved(AuthPhase::LoggingOut), AuthAction::Logout)
                }
            },
            (AuthPhase::Refreshing, AuthEvent::TokenReady) => (
                self.moved(AuthPhase::Second),
                AuthAction::Run,
            ),
            (AuthPhase::Second, AuthEvent::Ran(Attempt::Done(v))) => self.finish(Ok(v)),
            (AuthPhase::Second, AuthEvent::Ran(Attempt::Failed(e))) => self.finish(
                Err(AuthError::FailedAfterRefresh(e)),
            ),
            (AuthPhase::Second, AuthEvent::Ran(Attempt::Rejected)) => (
                self.moved(AuthPhase::LoggingOut),
                AuthAction::Logout,
            ),
            _ => self.finish(Err(AuthError::Unauthorized)),
        }
    }
}

/// A request starts with the refresh of a token that is about to expire, or with its first run.
pub open spec fn starts(run: AuthRun) -> bool {
    run.phase == AuthPhase::Preflight || run.phase == AuthPhase::First
}

/// Where a request stands, and what is to be done, after a row of events.
pub open spec fn after<T, E>(start: AuthRun, events: Seq<AuthEvent<T, E>>) -> (
    AuthRun,
    AuthAction<T, E>,
)
    decreases events.len(),
{
    if events.len() == 0 {
        (
            start,
            if start.phase == AuthPhase::First {
                AuthAction::Run
            } else {
                AuthAction::RefreshIfDue
            },
        )
    } else {
        after(start, events.drop_last()).0.next(events.last())
    }
}

/// Each event is one that can come where the request then stands.
pub open spec fn possible<T, E>(start: AuthRun, events: Seq<AuthEvent<T, E>>) -> bool
    decreases events.len(),
{
    events.len() == 0 || {
        &&& possible(start, events.drop_last())
        &&& after(start, events.drop_last()).0.expects(events.last())
    }
}

/// How often the request has been run, or is about to run, after a row of events.
pub open spec fn runs<T, E>(start: AuthRun, events: Seq<AuthEvent<T, E>>) -> nat
    decreases events.len(),
{
    let now: nat = if after(start, events).1 is Run {
        1
    } else {
        0
    };
    if events.len() == 0 {
        now
    } else {
        runs(start, events.drop_last()) + now
    }
}

/// How often the session is cleared over a row of events.
pub open spec fn logouts<T, E>(start: AuthRun, events: Seq<AuthEvent<T, E>>) -> nat
    decreases events.len(),
{
    let now: nat = if after(start, events).1 is Logout {
        1
    } else {
        0
    };
    if events.len() == 0 {
        now
    } else {
        logouts(start, events.drop_last()) + now
    }
}

/// What the runs of the request came to over a row of events.
pub open spec fn attempts<T, E>(events: Seq<AuthEvent<T, E>>) -> Seq<Attempt<T, E>>
    decreases events.len(),
{
    if events.len() == 0 {
        Seq::empty()
    } else {
        match events.last() {
            AuthEvent::Ran(r) => attempts(events.drop_last()).push(r),
            _ => attempts(events.drop_last()),
        }
    }
}

/// How often a request may run.
pub open spec fn limit(run: AuthRun) -> int {
    if run.retry {
        2
    } else {
        1
    }
}

/// What the events say of a request that is over.
pub open spec fn result_fits<T, E>(
    result: Result<T, AuthError<E>>,
    r: Seq<Attempt<T, E>>,
) -> bool {
    match result {
        Ok(v) => r.len() > 0 && r.last() == Attempt::<T, E>::Done(v),
        Err(AuthError::Failed(e)) => r.len() == 1 && r.last() == Attempt::<T, E>::Failed(e),
        Err(AuthError::FailedAfterRefresh(e)) => r.len() == 2 && r.last() == Attempt::<
            T,
            E,
        >::Failed(e),
        Err(AuthError::Unauthorized) => r.len() > 0 && r.last() is Rejected,
        Err(AuthError::Session(_)) => r.len() == 0,
    }
}

proof fn lemma_auth_counts<T, E>(start: AuthRun, events: Seq<AuthEvent<T, E>>)
    requires
        starts(start),
        possible(start, events),
    ensures
        after(start, events).0.retry == start.retry,
        ({
            let (run, action) = after(start, events);
            let n = runs(start, events);
            let l = logouts(start, events);
            let r = attempts(events);
            match run.phase {
                AuthPhase::Preflight => n == 0 && l == 0 && r.len() == 0 && action is RefreshIfDue,
                AuthPhase::First => n == 1 && l == 0 && r.len() == 0 && action is Run,
                AuthPhase::Refreshing => start.retry && n == 1 && l == 0 && r.len() == 1
                    && r[0] is Rejected && action is ForceRefresh,
                AuthPhase::Second => start.retry && n == 2 && l == 0 && r.len() == 1
                    && r[0] is Rejected && action is Run,
                AuthPhase::LoggingOut => l == 1 && n == r.len() && r.len() == limit(start)
                    && r.last() is Rejected && r[0] is Rejected && action is Logout,
                AuthPhase::Finished => n <= limit(start) && n == r.len() && (l == 0 || (l == 1
                    && r.len() == limit(start) && r.last() is Rejected)) && (r.len() == 2
                    ==> r[0] is Rejected) && (action matches AuthAction::Return(result)
                    && result_fits(result, r)),
            }
        }),
    decreases events.len(),
{
    if events.len() > 0 {
        lemma_auth_counts(start, events.drop_last());
    }
}

/// A request runs at most once without retry and at most twice with it, and a second time only
/// after its token was rejected the first time.
pub proof fn law_runs_bounded<T, E>(start: AuthRun, events: Seq<AuthEvent<T, E>>)
    requires
        starts(start),
        possible(start, events),
    ensures
        runs(start, events) <= limit(start),
        runs(start, events) == 2 ==> attempts(events).len() > 0 && attempts(events)[0] is Rejected,
{
    lemma_auth_counts(start, events);
}

/// The session is cleared at most once, and only after the last run that the request may have had
/// its token rejected.
pub proof fn law_logout_only_after_rejection<T, E>(start: AuthRun, events: Seq<AuthEvent<T, E>>)
    requires
        starts(start),
        possible(start, events),
    ensures
        logouts(start, events) <= 1,
        logouts(start, events) == 1 ==> attempts(events).len() == limit(start)
            && attempts(events).last() is Rejected,
{
    lemma_auth_counts(start, events);
}

/// A run whose token was not rejected decides: what it came to is handed to the caller, and the
/// session is not cleared.
pub proof fn law_result_handed_on<T, E>(start: AuthRun, events: Seq<AuthEvent<T, E>>)
    requires
        starts(start),
        possible(start, events),
        attempts(events).len() > 0,
        !(attempts(events).last() is Rejected),
    ensures
        logouts(start, events) == 0,
        after(start, events).1 matches AuthAction::Return(result) && match attempts(events).last() {
            Attempt::Done(v) => result == Ok::<T, AuthError<E>>(v),
            Attempt::Failed(e) => result == Err::<T, AuthError<E>>(AuthError::Failed(e)) || result
                == Err::<T, AuthError<E>>(AuthError::FailedAfterRefresh(e)),
            Attempt::Rejected => false,
        },
{
    lemma_auth_counts(start, events);
}

/// A request whose last permitted run had its token rejected clears the session and is answered
/// with `Unauthorized`.
pub proof fn law_persistent_rejection<T, E>(start: AuthRun, events: Seq<AuthEvent<T, E>>)
    requires
        starts(start),
        possible(start, events),
        attempts(events).len() == limit(start),
        attempts(events).last() is Rejected,
    ensures
        logouts(start, events) == 1,
        after(start, events).1 is Logout || after(start, events).1 == AuthAction::<T, E>::Return(
            Err(AuthError::Unauthorized),
        ),
    decreases events.len(),
{
    lemma_auth_counts(start, events);
    if events.len() > 0 {
        lemma_auth_counts(start, events.drop_last());
        if attempts(events.drop_last()).len() == limit(start) {
            law_persistent_rejection(start, events.drop_last());
        }
    }
}

/// Every request ends: no row of events is longer than five.
pub proof fn law_auth_run_ends<T, E>(start: AuthRun, events: Seq<AuthEvent<T, E>>)
    requires
        starts(start),
        possible(start, events),
    ensures
        events.len() <= rank(after(start, events).0.phase) <= 5,
    decreases events.len(),
{
    if events.len() > 0 {
        law_auth_run_ends(start, events.drop_last());
    }
}

/// How many events can have come before a phase at the most.
pub open spec fn rank(phase: AuthPhase) -> int {
    match phase {
        AuthPhase::Preflight => 0,
        AuthPhase::First => 1,
        AuthPhase::Refreshing => 2,
        AuthPhase::Second => 3,
        AuthPhase::LoggingOut => 4,
        AuthPhase::Finished => 5,
    }
}

/// What follows on what a run came to. What it gave is the result. A failure is told, and whether
/// the token had been refreshed before. A rejected token is refreshed once and the request run
/// again, where it may run twice; else the session is cleared.
pub proof fn law_run_decides<T, E>(run: AuthRun, value: T, error: E)
    requires
        run.phase == AuthPhase::First || run.phase == AuthPhase::Second,
    ensures
        run.next::<T, E>(AuthEvent::Ran(Attempt::Done(value))).1 == AuthAction::<T, E>::Return(
            Ok(value),
        ),
        run.next::<T, E>(AuthEvent::Ran(Attempt::Failed(error))).1 == AuthAction::<T, E>::Return(
            Err(
                if run.phase == AuthPhase::First {
                    AuthError::Failed(error)
                } else {
                    AuthError::FailedAfterRefresh(error)
                },
            ),
        ),
        ({
            let rejected = run.next::<T, E>(AuthEvent::Ran(Attempt::Rejected));
            if run.retry && run.phase == AuthPhase::First {
                &&& rejected.1 == AuthAction::<T, E>::ForceRefresh
                &&& rejected.0.next::<T, E>(AuthEvent::TokenReady).1 == AuthAction::<T, E>::Run
                &&& rejected.0.next::<T, E>(AuthEvent::TokenReady).0.phase == AuthPhase::Second
            } else {
                &&& rejected.1 == AuthAction::<T, E>::Logout
                &&& rejected.0.next::<T, E>(AuthEvent::LoggedOut).1 == AuthAction::<T, E>::Return(
                    Err(AuthError::Unauthorized),
                )
            }
        }),
{
}

/// A request runs once there is a token for it; without one it is not run: before the first run the
/// reason is told, and after a rejection the request counts as unauthorized.
pub proof fn law_token_first<T, E>(run: AuthRun, reason: String)
    ensures
        run.phase == AuthPhase::Preflight ==> {
            &&& run.next::<T, E>(AuthEvent::TokenReady).1 == AuthAction::<T, E>::Run
            &&& run.next::<T, E>(AuthEvent::TokenReady).0.phase == AuthPhase::First
            &&& run.next::<T, E>(AuthEvent::TokenFailed(reason)).1 == AuthAction::<T, E>::Return(
                Err(AuthError::Session(reason)),
            )
        },
        run.phase == AuthPhase::Refreshing ==> run.next::<T, E>(AuthEvent::TokenFailed(reason)).1
            == AuthAction::<T, E>::Return(Err(AuthError::Unauthorized)),
        run.next::<T, E>(AuthEvent::TokenReady).0.retry == run.retry,
{
}

} // verus!
