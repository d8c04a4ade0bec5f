use datum_connect::auth_retry::{Attempt, AuthAction, AuthError, AuthEvent, AuthPhase, AuthRun};
use datum_connect::datum_cloud::auth::{NotLoggedIn, Unauthorized};
use datum_connect::datum_cloud::client::{attempt_of_response, is_auth_failure};
use datum_connect::project_control_plane::{
    attempt_of, error_looks_like_quota, is_kube_auth_failure, is_kube_quota_exceeded,
    message_looks_like_quota, ErrorResponse, KubeError, ProjectControlPlaneClient,
};

fn api_err(code: u16) -> KubeError {
    KubeError::Api(ErrorResponse {
        status: "Failure".to_string(),
        message: "denied".to_string(),
        reason: "Unauthorized".to_string(),
        code,
    })
}

fn api_err_msg(code: u16, message: &str) -> KubeError {
    KubeError::Api(ErrorResponse {
        status: "Failure".to_string(),
        message: message.to_string(),
        reason: "Forbidden".to_string(),
        code,
    })
}

#[test]
fn classifies_401_as_auth_failure() {
    assert!(is_kube_auth_failure(&api_err(401)));
}

#[test]
fn does_not_treat_403_as_auth_failure() {
    assert!(!is_kube_auth_failure(&api_err(403)));
    assert!(!is_kube_auth_failure(&api_err_msg(
        403,
        "You've reached your quota for this resource type (Insufficient quota resources.)"
    )));
}

#[test]
fn ignores_other_api_status_codes() {
    for code in [200u16, 403, 404, 409, 410, 500, 503] {
        assert!(
            !is_kube_auth_failure(&api_err(code)),
            "code {code} should not be an auth failure"
        );
    }
}

#[test]
fn ignores_non_api_errors() {
    let err = KubeError::TlsRequired;
    assert!(!is_kube_auth_failure(&err));
}

#[test]
fn detects_quota_exceeded_403() {
    let err = api_err_msg(
        403,
        "httpproxies.networking.datumapis.com \"tunnel-jw8vf\" is forbidden: You've reached your quota for this resource type (Insufficient quota resources. Contact your account administrator to review quota limits and usage.).",
    );
    assert!(is_kube_quota_exceeded(&err));
    assert!(!is_kube_auth_failure(&err));
}

#[test]
fn ignores_non_quota_403() {
    let err = api_err_msg(403, "httpproxies.networking.datumapis.com is forbidden");
    assert!(!is_kube_quota_exceeded(&err));
}

#[test]
fn error_looks_like_quota_from_display() {
    let err = std::io::Error::new(
        std::io::ErrorKind::Other,
        "Insufficient quota resources available",
    );
    assert!(error_looks_like_quota(&vec![err.to_string()]));
}

#[test]
fn quota_is_found_anywhere_in_the_chain() {
    let chain = vec!["Failed to create tunnel".to_string(), "QUOTA reached".to_string()];
    assert!(error_looks_like_quota(&chain));
    assert!(!error_looks_like_quota(&vec!["quot".to_string(), "a".to_string()]));
    assert!(message_looks_like_quota("You've reached your Quota"));
    assert!(!message_looks_like_quota("QUØTA"));
    assert!(!is_kube_quota_exceeded(&api_err_msg(404, "quota")));
    assert!(!is_kube_quota_exceeded(&KubeError::Other("quota".to_string())));
}

#[test]
fn classifies_401_and_403_as_auth_failures() {
    assert!(is_auth_failure(401));
    assert!(is_auth_failure(403));
}

#[test]
fn does_not_classify_other_statuses_as_auth_failures() {
    assert!(!is_auth_failure(200));
    assert!(!is_auth_failure(404));
    assert!(!is_auth_failure(500));
    assert!(!is_auth_failure(400));
    // 407 is about a proxy, not about the user's token.
    assert!(!is_auth_failure(407));
}

#[test]
fn unauthorized_error_displays_user_friendly_message() {
    let msg = Unauthorized.message();
    assert!(!msg.is_empty(), "Unauthorized should have a message");
    assert_eq!(msg, "Authentication failed; signed out");
    assert_eq!(NotLoggedIn.message(), "Not logged in");
}

/// Runs a request against a server that answers with the given statuses, with a stash of tokens
/// that is refreshed where that is asked for.
fn run(statuses: &[u16], bearers: &mut Vec<String>, log: &mut Vec<&'static str>) -> Result<u16, bool> {
    let mut refreshed = 0;
    let mut sent = 0;
    let (mut run, mut action) = AuthRun::with_auth_retry::<u16, String>();
    loop {
        let event = match action {
            AuthAction::RefreshIfDue => AuthEvent::TokenReady,
            AuthAction::ForceRefresh => {
                refreshed += 1;
                log.push("refreshed");
                AuthEvent::TokenReady
            }
            AuthAction::Run => {
                let token = if refreshed == 0 { "t0".to_string() } else { format!("fresh-{refreshed}") };
                bearers.push(format!("Bearer {token}"));
                let status = statuses[sent];
                sent += 1;
                let rejected = is_auth_failure(status);
                log.push(match (sent, rejected) {
                    (1, true) => "first-401",
                    (1, false) => "first-ok",
                    (_, true) => "retry-401-logout",
                    (_, false) => "retry-ok",
                });
                AuthEvent::Ran(attempt_of_response(Ok((status, status))))
            }
            AuthAction::Logout => AuthEvent::LoggedOut,
            AuthAction::Return(Ok(v)) => return Ok(v),
            AuthAction::Return(Err(e)) => return Err(matches!(e, AuthError::Unauthorized)),
        };
        let next = run.step(event);
        run = next.0;
        action = next.1;
    }
}

#[test]
fn retry_succeeds_after_401_then_200() {
    let mut bearers = Vec::new();
    let mut log = Vec::new();
    let res = run(&[401, 200], &mut bearers, &mut log);
    assert_eq!(res, Ok(200));
    assert_eq!(bearers.len(), 2);
    assert_eq!(bearers[0], "Bearer t0", "first request uses initial token");
    assert_eq!(
        bearers[1], "Bearer fresh-1",
        "retry uses the refreshed token from the stash"
    );
    assert_eq!(log, ["first-401", "refreshed", "retry-ok"]);
}

#[test]
fn retry_still_401_triggers_logout_path() {
    let mut bearers = Vec::new();
    let mut log = Vec::new();
    let res = run(&[401, 401], &mut bearers, &mut log);
    assert_eq!(res, Err(true));
    assert_eq!(bearers.len(), 2);
    assert_eq!(log, ["first-401", "refreshed", "retry-401-logout"]);
}

#[test]
fn first_answer_is_handed_on() {
    let mut bearers = Vec::new();
    let mut log = Vec::new();
    assert_eq!(run(&[404], &mut bearers, &mut log), Ok(404));
    assert_eq!(log, ["first-ok"]);
}

#[test]
fn failed_refresh_is_unauthorized_without_logout() {
    let (run, _) = AuthRun::with_auth_retry::<(), KubeError>();
    let (run, action) = run.step::<(), KubeError>(AuthEvent::TokenReady);
    assert!(matches!(action, AuthAction::Run));
    let (run, action) = run.step(AuthEvent::Ran(attempt_of::<()>(Err(api_err(401)))));
    assert!(matches!(action, AuthAction::ForceRefresh));
    let (run, action) = run.step::<(), KubeError>(AuthEvent::TokenFailed("gone".to_string()));
    assert!(matches!(action, AuthAction::Return(Err(AuthError::Unauthorized))));
    assert_eq!(run.phase, AuthPhase::Finished);
}

#[test]
fn operation_that_runs_once_logs_out_at_once() {
    let (run, action) = AuthRun::with_auth::<(), KubeError>();
    assert!(matches!(action, AuthAction::RefreshIfDue));
    let (run, _) = run.step::<(), KubeError>(AuthEvent::TokenReady);
    let (run, action) = run.step(AuthEvent::Ran(attempt_of::<()>(Err(api_err(401)))));
    assert!(matches!(action, AuthAction::Logout));
    let (_, action) = run.step::<(), KubeError>(AuthEvent::LoggedOut);
    assert!(matches!(action, AuthAction::Return(Err(AuthError::Unauthorized))));
}

#[test]
fn quota_rejection_keeps_the_session() {
    for retry in [false, true] {
        let (run, _) = if retry {
            AuthRun::with_auth_retry::<(), KubeError>()
        } else {
            AuthRun::with_auth::<(), KubeError>()
        };
        let (run, _) = run.step::<(), KubeError>(AuthEvent::TokenReady);
        let result = attempt_of::<()>(Err(api_err_msg(403, "quota")));
        let (_, action) = run.step(AuthEvent::Ran(result));
        match action {
            AuthAction::Return(Err(AuthError::Failed(e))) => assert!(is_kube_quota_exceeded(&e)),
            _ => panic!("the error is handed on"),
        }
    }
}

#[test]
fn failure_after_refresh_is_told_apart() {
    let (run, action) = AuthRun::with_current_token::<(), String>();
    assert!(matches!(action, AuthAction::Run));
    let (run, _) = run.step::<(), String>(AuthEvent::Ran(Attempt::Rejected));
    let (run, action) = run.step::<(), String>(AuthEvent::TokenReady);
    assert!(matches!(action, AuthAction::Run));
    let (_, action) = run.step::<(), String>(AuthEvent::Ran(Attempt::Failed("reset".to_string())));
    assert!(matches!(action, AuthAction::Return(Err(AuthError::FailedAfterRefresh(e))) if e == "reset"));
    let (run, _) = AuthRun::with_auth::<(), String>();
    let (_, action) = run.step::<(), String>(AuthEvent::TokenFailed("offline".to_string()));
    assert!(matches!(action, AuthAction::Return(Err(AuthError::Session(e))) if e == "offline"));
}

#[test]
fn client_takes_over_other_tokens() {
    let mut client = ProjectControlPlaneClient::new(
        "p".to_string(),
        "https://s".to_string(),
        "t0".to_string(),
    );
    assert_eq!(client.project_id(), "p");
    assert_eq!(client.server_url(), "https://s");
    assert!(!client.rebuild_if_changed("t0"));
    assert!(client.rebuild_if_changed("t1"));
    assert_eq!(client.refresh_client_from_update(&None), None);
    assert_eq!(client.refresh_client_from_update(&Some("t0".to_string())), None);
    let token = client.refresh_client_from_update(&Some("t1".to_string())).unwrap();
    client.store_token(token);
    assert_eq!(client.access_token(), "t1");
    assert!(!client.rebuild_if_changed("t1"));
}
