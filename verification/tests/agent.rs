use datum_connect::agent::{
    agent_args, agent_failed_text, agent_status, check_tunnel_request, create_tunnel,
    delete_tunnel, get_tunnel, hostname_wait, is_pid_alive, list_tunnels, login_state_name,
    map_tunnel_err, may_start, metrics, new_token, repo_path_from_cli_args, require_token,
    running_agent_info, unauthorized, wait_for_hostname, wait_until_ready, wants_headless_agent,
    AgentClient, AgentInfo, CreateTunnelRequest, HostnameWait, ReadyWait, StopAction, StopAgent,
    StopError, StopEvent, TunnelView,
};
use datum_connect::datum_cloud::auth::{
    AuthState, AuthTokens, LoginState, MaybeAuth, UserProfile,
};
use datum_connect::repo::Repo;
use datum_connect::state::Authority;
use datum_connect::tunnel_activity::UpstreamMetrics;
use datum_connect::tunnels::{TunnelDeleteOutcome, TunnelSummary};

fn s(text: &str) -> String {
    text.to_string()
}

fn sample(hostnames: Vec<String>) -> TunnelSummary {
    TunnelSummary {
        id: "t1".into(),
        label: "app".into(),
        endpoint: "http://127.0.0.1:4123".into(),
        hostnames,
        enabled: true,
        accepted: true,
        programmed: true,
    }
}

fn info() -> AgentInfo {
    AgentInfo { pid: 42, port: 1234, token: "abc".into(), endpoint_id: "ep".into() }
}

#[test]
fn tunnel_view_prefers_named_hostname() {
    let summary = TunnelSummary {
        id: "t1".into(),
        label: "app".into(),
        endpoint: "http://127.0.0.1:4123".into(),
        hostnames: vec![
            "v4.example.iroh.datum.net".into(),
            "vast-gold-mine.iroh.datum.net".into(),
        ],
        enabled: true,
        accepted: true,
        programmed: true,
    };
    let view = TunnelView::from(&summary);
    assert_eq!(
        view.url.as_deref(),
        Some("https://vast-gold-mine.iroh.datum.net")
    );
}

#[test]
fn tunnel_view_empty_hostnames() {
    let summary = TunnelSummary {
        id: "t1".into(),
        label: "app".into(),
        endpoint: "http://127.0.0.1:4123".into(),
        hostnames: vec![],
        enabled: true,
        accepted: false,
        programmed: false,
    };
    assert!(TunnelView::from(&summary).url.is_none());
}

#[test]
fn description_reads_back() {
    let summary = sample(vec![s("a"), s("b")]);
    assert_eq!(TunnelView::from(&summary).into_summary(), summary);
    let all = list_tunnels(&vec![summary.clone(), sample(vec![])]);
    assert_eq!(all.len(), 2);
    assert_eq!(all[0].url.as_deref(), Some("https://a"));
    assert_eq!(all[1].url, None);
}

#[test]
fn bogus_pid_is_not_alive() {
    assert!(!is_pid_alive(u32::MAX - 1, false, false));
}

#[test]
fn process_is_alive_if_it_can_be_signalled_or_may_not() {
    assert!(is_pid_alive(7, true, false));
    assert!(is_pid_alive(7, false, true));
    assert!(!is_pid_alive(0, true, true));
}

#[test]
fn requests_need_the_token() {
    assert!(require_token(Some("Bearer abc"), None, "abc"));
    assert!(require_token(Some("Basic x"), Some("abc"), "abc"));
    assert!(!require_token(Some("bearer abc"), None, "abc"));
    assert!(!require_token(None, Some("ab"), "abc"));
    assert!(!require_token(None, None, ""));
    let e = unauthorized();
    assert_eq!((e.status, e.message.as_str()), (401, "unauthorized"));
}

#[test]
fn tokens_are_random_letters_and_digits() {
    let token = new_token();
    assert_eq!(token.len(), 32);
    assert!(token.chars().all(|c| c.is_ascii_alphanumeric()));
    assert_ne!(token, new_token());
}

#[test]
fn label_and_endpoint_are_required() {
    assert_eq!(check_tunnel_request(" a ", " h:1 ").unwrap(), (s("a"), s("h:1")));
    let e = check_tunnel_request(" ", "").unwrap_err();
    assert_eq!((e.status, e.message.as_str()), (400, "label is required"));
    let e = check_tunnel_request("a", "\t").unwrap_err();
    assert_eq!((e.status, e.message.as_str()), (400, "endpoint is required"));
}

#[test]
fn hostname_is_awaited_only_where_asked_for() {
    let mut req = CreateTunnelRequest {
        label: s("a"),
        endpoint: s("h:1"),
        wait_hostname: true,
        timeout_secs: None,
    };
    assert_eq!(hostname_wait(&req, &sample(vec![])), Some(30));
    assert_eq!(hostname_wait(&req, &sample(vec![s("x")])), None);
    req.timeout_secs = Some(5);
    assert_eq!(hostname_wait(&req, &sample(vec![])), Some(5));
    req.wait_hostname = false;
    assert_eq!(hostname_wait(&req, &sample(vec![])), None);
    assert!(create_tunnel(&sample(vec![]), false).is_ok());
    assert!(create_tunnel(&sample(vec![s("x")]), true).is_ok());
    let e = create_tunnel(&sample(vec![]), true).unwrap_err();
    assert_eq!(e.status, 504);
    assert_eq!(e.tunnel.unwrap().id, "t1");
    assert!(matches!(wait_for_hostname(None, "t1", 0, 9), HostnameWait::Gone(_)));
    assert!(matches!(
        wait_for_hostname(Some(sample(vec![])), "t1", 8, 9),
        HostnameWait::Again
    ));
    assert!(matches!(
        wait_for_hostname(Some(sample(vec![])), "t1", 9, 9),
        HostnameWait::Over(t) if t.hostnames.is_empty()
    ));
    assert!(matches!(
        wait_for_hostname(Some(sample(vec![s("x")])), "t1", 0, 9),
        HostnameWait::Over(_)
    ));
}

#[test]
fn missing_tunnels_are_not_found() {
    let e = get_tunnel(&None, "t9").unwrap_err();
    assert_eq!((e.status, e.message.as_str()), (404, "Tunnel `t9` not found"));
    assert_eq!(get_tunnel(&Some(sample(vec![])), "t1").unwrap().id, "t1");
}

#[test]
fn heartbeat_ends_with_the_connector() {
    let outcome = TunnelDeleteOutcome { project_id: s("p"), connector_deleted: true };
    let (answer, ended) = delete_tunnel(s("t"), outcome);
    assert_eq!((answer.id.as_str(), answer.project_id.as_str()), ("t", "p"));
    assert!(answer.connector_deleted);
    assert_eq!(ended.as_deref(), Some("p"));
    let outcome = TunnelDeleteOutcome { project_id: s("p"), connector_deleted: false };
    assert_eq!(delete_tunnel(s("t"), outcome).1, None);
}

#[test]
fn errors_are_mapped_to_answers() {
    assert_eq!(map_tunnel_err(true, "x").status, 401);
    let e = map_tunnel_err(false, "oh: No project selected");
    assert_eq!(e.status, 400);
    assert!(e.message.contains("context set --project"));
    let e = map_tunnel_err(false, "boom");
    assert_eq!((e.status, e.message.as_str()), (500, "boom"));
}

#[test]
fn status_tells_of_the_session() {
    let now: i128 = 1_000_000_000_000_000_000;
    let auth = MaybeAuth(Some(AuthState {
        tokens: AuthTokens {
            access_token: s("a"),
            refresh_token: None,
            issued_at: now,
            expires_in: 301_000_000_000,
        },
        profile: UserProfile {
            user_id: s("u"),
            email: s("e@x"),
            first_name: None,
            last_name: None,
            avatar_url: None,
            registration_approval: None,
        },
    }));
    let st = agent_status(&info(), &auth, None, now);
    assert_eq!((st.pid, st.port, st.endpoint_id.as_str()), (42, 1234, "ep"));
    assert!(st.logged_in);
    assert_eq!(st.login_state, "valid");
    assert_eq!(st.email.as_deref(), Some("e@x"));
    assert_eq!(agent_status(&info(), &auth, None, now + 2_000_000_000).login_state, "needs_refresh");
    let st = agent_status(&info(), &MaybeAuth(None), None, now);
    assert!(!st.logged_in);
    assert_eq!(st.login_state, "missing");
    assert_eq!(login_state_name(LoginState::NeedsRefresh), "needs_refresh");
}

#[test]
fn leftover_files_do_not_count_as_running() {
    assert!(running_agent_info(Some(info()), true).0.is_some());
    let (running, remove) = running_agent_info(Some(info()), false);
    assert!(running.is_none() && remove);
    let (running, remove) = running_agent_info(None, true);
    assert!(running.is_none() && !remove);
    assert!(may_start(&Some(info()), false).is_ok());
    assert!(may_start(&None, false).is_ok());
    assert_eq!(
        may_start(&Some(info()), true).unwrap_err(),
        "Agent is already running (pid 42). Stop it with `datum-connect agent stop`."
    );
}

#[test]
fn agent_is_asked_before_it_is_forced() {
    assert!(matches!(StopAgent::start(&None, 1), Err(StopError::NotRunning)));
    let stop = StopAgent::start(&Some(info()), 1).unwrap();
    let (stop, action) = stop.step(StopEvent::Alive(true));
    assert!(matches!(action, StopAction::Ask));
    let (stop, action) = stop.step(StopEvent::Asked);
    assert!(matches!(action, StopAction::Look));
    let (stop, action) = stop.step(StopEvent::Looked { alive: true, timed_out: false });
    assert!(matches!(action, StopAction::Look));
    let (_, action) = stop.step(StopEvent::Looked { alive: false, timed_out: false });
    assert!(matches!(action, StopAction::Return { result: Ok(()), remove: true }));
    let (stop, action) = stop.step(StopEvent::Looked { alive: true, timed_out: true });
    assert!(matches!(action, StopAction::Force));
    let (_, action) = stop.step(StopEvent::Forced(Err(s("denied"))));
    assert!(matches!(
        action,
        StopAction::Return { result: Err(StopError::Signal(_)), remove: false }
    ));
    let (stop, action) = stop.step(StopEvent::Forced(Ok(())));
    assert!(matches!(action, StopAction::RemoveAndLook));
    let (_, action) = stop.step(StopEvent::Alive(true));
    match action {
        StopAction::Return { result: Err(e), .. } => {
            assert_eq!(e.message(), "Failed to stop agent (pid 42)")
        }
        _ => panic!("it is still alive"),
    }
    let (_, action) = stop.step(StopEvent::Alive(false));
    assert!(matches!(action, StopAction::Return { result: Ok(()), .. }));
}

#[test]
fn agent_does_not_stop_itself() {
    let stop = StopAgent::start(&Some(info()), 42).unwrap();
    let (_, action) = stop.step(StopEvent::Alive(true));
    match action {
        StopAction::Return { result: Err(e), remove: false } => {
            assert_eq!(e.message(), "Refusing to stop the current process via agent stop")
        }
        _ => panic!("refused"),
    }
    let (_, action) = stop.step(StopEvent::Alive(false));
    assert!(matches!(
        action,
        StopAction::Return { result: Err(StopError::NotRunning), remove: true }
    ));
    assert_eq!(StopError::NotRunning.message(), "Agent is not running.");
    assert_eq!(StopError::Signal(s("x")).message(), "x");
}

#[test]
fn client_speaks_to_the_loopback_port() {
    let client = AgentClient::connect(Some(info())).unwrap();
    assert_eq!(client.base, "http://127.0.0.1:1234");
    assert_eq!(client.request_url("/tunnels"), "http://127.0.0.1:1234/tunnels");
    assert_eq!(client.authorization(), "Bearer abc");
    assert_eq!(AgentClient::tunnel_path("t1"), "/tunnels/t1");
    assert_eq!(AgentClient::enabled_path("t1"), "/tunnels/t1/enabled");
    assert_eq!(
        AgentClient::connect(None).map(|c| c.base),
        Err(s("Agent is not running. Run `datum-connect agent start`."))
    );
}

#[test]
fn answers_are_decoded() {
    assert_eq!(AgentClient::decode_success(204, None, ""), Ok(()));
    assert_eq!(AgentClient::decode_success(500, Some(s("boom")), "x"), Err(s("boom")));
    assert_eq!(AgentClient::decode_success(500, None, " text\n"), Err(s("text")));
    let view = TunnelView::from(&sample(vec![]));
    assert!(AgentClient::get_tunnel_optional(404, None, None, "").unwrap().is_none());
    let got = AgentClient::get_tunnel_optional(200, Some(view), None, "").unwrap();
    assert_eq!(got.unwrap().id, "t1");
    assert!(AgentClient::get_tunnel_optional(200, None, None, "").is_err());
    assert!(AgentClient::get_tunnel_optional(500, None, Some(s("e")), "").is_err());
}

#[test]
fn arguments_name_the_directory() {
    let args = |a: &[&str]| -> Vec<String> { a.iter().map(|x| x.to_string()).collect() };
    assert!(wants_headless_agent(&args(&["datum", "--headless-agent"])));
    assert!(!wants_headless_agent(&args(&["datum", "--headless"])));
    let path = |a: &[&str]| repo_path_from_cli_args(&args(a), s("/default"));
    assert_eq!(path(&["datum", "--repo", "/x", "--headless-agent"]), "/x");
    assert_eq!(path(&["datum", "--repo=/y"]), "/y");
    assert_eq!(path(&["datum", "--repo"]), "/default");
    assert_eq!(path(&["--repo=/program"]), "/default");
    assert_eq!(path(&[]), "/default");
    assert_eq!(
        agent_args(&Repo::new(s("/r"))),
        ["--repo", "/r", "--headless-agent"]
    );
}

#[test]
fn agent_is_awaited_until_the_deadline() {
    assert!(matches!(wait_until_ready(Some(Ok(())), None, 9, 1), ReadyWait::Ready));
    assert!(matches!(wait_until_ready(None, None, 0, 1), ReadyWait::Again(None)));
    assert!(matches!(
        wait_until_ready(Some(Err(s("refused"))), None, 0, 1),
        ReadyWait::Again(Some(e)) if e == "refused"
    ));
    assert!(matches!(
        wait_until_ready(None, Some(s("refused")), 1, 1),
        ReadyWait::TimedOut(m) if m == "Timed out waiting for the agent to start: refused"
    ));
    assert!(matches!(
        wait_until_ready(None, None, 1, 1),
        ReadyWait::TimedOut(m) if m == "Timed out waiting for the agent to start"
    ));
    assert_eq!(agent_failed_text("E", "/l"), "E. Check /l for agent logs.");
}

#[test]
fn metrics_go_by_origin() {
    let origins = UpstreamMetrics {
        origins: vec![(Authority { host: s("localhost"), port: 4123 }, 5, 6)],
    };
    let m = metrics(&vec![sample(vec![])], &origins);
    assert_eq!((m[0].id.as_str(), m[0].bytes_from_origin, m[0].bytes_to_origin), ("t1", 5, 6));
}
