use datum_connect::agent::{AgentInfo, TunnelView};
use datum_connect::cli::{
    agent_status_line, background_agent_args, collect_status, context_list, context_set_line,
    context_show, dns_lookup_name, dns_upsert_example, endpoint_lookup_name, login_line,
    proxy_line, proxy_list_line, require_logged_in, resolve_selected_context, served_lines,
    status_lines, tunnel_created_lines, tunnel_deleted_line, tunnel_lines, tunnel_list_lines,
    AgentStatusOutput, ContextError,
};
use datum_connect::datum_apis::user_invitation::RoleReference;
use datum_connect::datum_cloud::auth::{
    AuthState, AuthTokens, LoginState, MaybeAuth, UserProfile,
};
use datum_connect::datum_cloud::organizations::{
    Organization, OrganizationWithProjects, Project,
};
use datum_connect::datum_cloud::roles::RoleSummary;
use datum_connect::diagnostics::{iroh_services_api_key, DiagnosticsSettings};
use datum_connect::http_user_agent::datum_http_user_agent;
use datum_connect::nix_hash::{
    after_probe, extract_hash, find_output_hashes, has_quoted_keys, probe_content, target,
    unique_hashes, ProbeOutcome, FAKE_HASH,
};
use datum_connect::repo::Repo;
use datum_connect::state::{Advertisment, ProxyState, SelectedContext, TcpProxyData};
use datum_connect::times::Timestamp;
use datum_connect::tunnels::TunnelSummary;
use datum_connect::ui::add_tunnel_dialog::{
    dialog, form_for, strip_http_scheme, submit, validate_tunnel_address, SaveNotice, Submit,
    TunnelForm,
};
use datum_connect::ui::app::{
    bump, on_tray_event, refresh_profile_on_start, title_bar_class, tray_menu, tray_navigation,
    update_turn, Route, TrayAction,
};
use datum_connect::ui::auth_window::{AuthWindow, WindowAction};
use datum_connect::ui::invite_user_dialog as invite;
use datum_connect::ui::login::{
    destination_after_login, destination_on_show, login_view, LoginAction, LoginPhase,
};
use datum_connect::ui::settings::{
    account, channel_changes, starts_check, update_line, updates, version_text, with_channel,
};
use datum_connect::ui::state::{summaries_of, tunnel_byte_counters, AppState};
use datum_connect::update::{UpdateChannel, UpdateInfo, UpdateSettings};
use datum_connect::util::{humanize_bytes, tunnel_edge_portal_url};

fn s(text: &str) -> String {
    text.to_string()
}

fn float_text(bytes: u64) -> String {
    let units = ["B", "KB", "MB", "GB", "TB"];
    if bytes == 0 {
        return s("0 B");
    }
    let mut size = bytes as f64;
    let mut unit = 0;
    while size >= 1024.0 && unit < units.len() - 1 {
        size /= 1024.0;
        unit += 1;
    }
    format!("{:.1} {}", size, units[unit])
}

#[test]
fn sizes_are_shown_with_one_decimal() {
    assert_eq!(humanize_bytes(0), "0 B");
    assert_eq!(humanize_bytes(1), "1.0 B");
    assert_eq!(humanize_bytes(1023), "1023.0 B");
    assert_eq!(humanize_bytes(1024), "1.0 KB");
    assert_eq!(humanize_bytes(1536), "1.5 KB");
    assert_eq!(humanize_bytes(1_048_575), "1024.0 KB");
    assert_eq!(humanize_bytes(u64::MAX), "16777216.0 TB");
}

#[test]
fn sizes_agree_with_floating_point() {
    let mut n: u64 = 1;
    let mut seen = 0;
    while n < u64::MAX / 7 {
        for d in [0u64, 1, 51, 256, 1280] {
            let m = n.saturating_add(d);
            assert_eq!(humanize_bytes(m), float_text(m), "{m}");
            assert_eq!(humanize_bytes(u64::MAX - m), float_text(u64::MAX - m));
            seen += 1;
        }
        n = n * 3 / 2 + 1;
    }
    assert!(seen > 400);
    for m in [1024 + 51, 1024 + 256, 1024 + 768, (1 << 53) + 1, (1 << 54) + 2, (1 << 54) + 6] {
        assert_eq!(humanize_bytes(m), float_text(m), "{m}");
    }
    for tenth in 0..2000u64 {
        let m = 1024 * 1024 + tenth * 131;
        assert_eq!(humanize_bytes(m), float_text(m), "{m}");
    }
}

#[test]
fn portal_address_has_one_slash() {
    assert_eq!(
        tunnel_edge_portal_url("https://cloud.datum.net//", "p", "t"),
        "https://cloud.datum.net/project/p/edge/t/overview"
    );
}

#[test]
fn user_agent_names_version_and_system() {
    assert_eq!(
        datum_http_user_agent("linux", "x86_64"),
        "Datum Desktop/0.1.0 (linux; x86_64)"
    );
}

#[test]
fn files_stand_in_the_directory() {
    let file = |dir: &str, name: &str| Repo::new(s(dir)).file(name);
    for (dir, name) in [("/r", "f"), ("/r/", "f"), ("r//", "f"), ("", "f"), ("/", "f"), ("r", "/f")]
    {
        let joined = std::path::Path::new(dir).join(name);
        assert_eq!(file(dir, name), joined.to_str().unwrap());
    }
    assert_eq!(file("/r", "f"), "/r/f");
    assert_eq!(file("/r/", "f"), "/r/f");
    assert_eq!(file("", "f"), "f");
    assert_eq!(file("r", "/f"), "/f");
    assert_eq!(file("r", ""), "r/");
}

#[test]
fn diagnostics_are_on_unless_switched_off() {
    assert_eq!(
        Repo::diagnostics_settings(None),
        DiagnosticsSettings { enabled: true, prompted: false }
    );
    let off = DiagnosticsSettings { enabled: false, prompted: true };
    assert_eq!(Repo::diagnostics_settings(Some(off)), off);
    let repo = Repo::new(s("/r"));
    assert_eq!(repo.diagnostics_settings_file(), "/r/diagnostics_settings.yml");
    let here = Repo::new(s(""));
    assert_eq!(here.diagnostics_settings_file(), "diagnostics_settings.yml");
    assert_eq!(iroh_services_api_key(&None, &Some(s("b"))).as_deref(), Some("b"));
    assert_eq!(iroh_services_api_key(&Some(s("e")), &Some(s("b"))).as_deref(), Some("e"));
    assert_eq!(iroh_services_api_key(&None, &None), None);
}

const FLAKE: &str = "outputHashes = {\n  \"a-1.0\" = \"sha256-AAA=\";\n  \"b-2.0\" = \"sha256-BBB=\";\r\n};\nother = {\n  \"a-1.0\" = \"sha256-AAA=\"; };\n";

#[test]
fn hashes_of_a_flake_are_found() {
    assert!(has_quoted_keys(FLAKE));
    let entries = find_output_hashes(FLAKE);
    assert_eq!(
        entries,
        vec![
            (s("a-1.0"), s("sha256-AAA=")),
            (s("b-2.0"), s("sha256-BBB=")),
            (s("a-1.0"), s("sha256-AAA=")),
        ]
    );
    assert_eq!(unique_hashes(&entries).len(), 2);
    assert!(find_output_hashes("x = \"sha256-AAA=\";\n\"y\" = \"sha256-open\n").is_empty());
    assert!(!has_quoted_keys("  \" = \"sha256-AAA=\";"));
}

#[test]
fn right_hash_takes_the_place_of_the_old() {
    let probe = probe_content(FLAKE, "sha256-AAA=");
    assert_eq!(probe.matches(FAKE_HASH).count(), 2);
    let err = "error: hash mismatch\n   specified: sha256-X\n   got:    sha256-CCC=\n";
    assert_eq!(extract_hash(err).as_deref(), Some("sha256-CCC="));
    assert_eq!(extract_hash("got: md5-1"), None);
    let (content, outcome) = after_probe(FLAKE, "sha256-AAA=", err);
    assert!(matches!(outcome, ProbeOutcome::Changed(h) if h == "sha256-CCC="));
    assert_eq!(content, FLAKE.replace("sha256-AAA=", "sha256-CCC="));
    let (content, outcome) = after_probe(FLAKE, "sha256-CCC=", err);
    assert!(matches!(outcome, ProbeOutcome::UpToDate));
    assert_eq!(content, FLAKE);
    let (content, outcome) = after_probe(FLAKE, "sha256-AAA=", "all good");
    assert!(matches!(outcome, ProbeOutcome::NoMismatch));
    assert_eq!(content, FLAKE);
    let args = |a: &[&str]| -> Vec<String> { a.iter().map(|x| x.to_string()).collect() };
    assert_eq!(target(&args(&["prog", "-v", ".#cli"])), ".#cli");
    assert_eq!(target(&args(&["prog"])), ".#default");
}

fn ctx(org_type: &str) -> SelectedContext {
    SelectedContext {
        org_id: s("o"),
        org_name: s("Org"),
        project_id: s("p"),
        project_name: s("Project"),
        org_type: s(org_type),
    }
}

fn signed_in(approval: Option<&str>) -> MaybeAuth {
    MaybeAuth(Some(AuthState {
        tokens: AuthTokens {
            access_token: s("a"),
            refresh_token: None,
            issued_at: 0,
            expires_in: 3_600_000_000_000,
        },
        profile: UserProfile {
            user_id: s("u"),
            email: s("e@x"),
            first_name: Some(s("Ann")),
            last_name: None,
            avatar_url: None,
            registration_approval: approval.map(|a| a.to_string()),
        },
    }))
}

fn agent_info() -> AgentInfo {
    AgentInfo { pid: 42, port: 1234, token: s("abc"), endpoint_id: s("ep") }
}

#[test]
fn status_is_printed_in_three_lines() {
    let agent = AgentStatusOutput::from_info(Some(agent_info()));
    let status = collect_status(&signed_in(None), Some(ctx("team")), agent, 0);
    assert_eq!(status.user_id.as_deref(), Some("u"));
    assert_eq!(
        status_lines(&status),
        ["Logged in as e@x (valid)", "Project: Org / Project", "Agent: running (pid 42, endpoint ep)"]
    );
    let none = collect_status(&MaybeAuth(None), None, AgentStatusOutput::from_info(None), 0);
    assert_eq!(
        status_lines(&none),
        [
            "Not logged in. Run `datum-connect login`.",
            "No project selected. Run `datum-connect context set --project <id>`.",
            "Agent: not running. Run `datum-connect agent start`.",
        ]
    );
    assert_eq!(login_line("e@x"), "Logged in as e@x");
    assert!(require_logged_in(&signed_in(None)).is_ok());
    assert_eq!(
        require_logged_in(&MaybeAuth(None)),
        Err(s("Not logged in. Run `datum-connect login`."))
    );
    assert_eq!(
        agent_status_line(&Some(agent_info())),
        "Agent running (pid 42, endpoint ep, control http://127.0.0.1:1234)"
    );
    assert_eq!(agent_status_line(&None), "Agent is not running.");
    assert_eq!(background_agent_args("/r"), ["--repo", "/r", "agent", "start"]);
}

fn org(id: &str, name: &str, projects: &[(&str, &str)]) -> OrganizationWithProjects {
    OrganizationWithProjects {
        org: Organization { resource_id: s(id), display_name: s(name), org_type: s("team") },
        projects: projects
            .iter()
            .map(|p| Project { resource_id: s(p.0), display_name: s(p.1) })
            .collect(),
    }
}

#[test]
fn contexts_are_listed_with_a_mark() {
    let list = vec![org("o", "Org", &[("p", "Project"), ("q", "Other")]), org("e", "Empty", &[])];
    assert_eq!(
        context_list(&list, &Some(ctx("team"))),
        ["Org (o)", " * Project (p)", "   Other (q)", "Empty (e)", "  (no projects)"]
    );
    assert_eq!(context_list(&vec![], &None), ["No organizations found."]);
    assert_eq!(
        context_show(&Some(ctx("team"))),
        ["Org / Project", "  org:     o", "  project: p"]
    );
    assert_eq!(context_show(&None).len(), 1);
    assert_eq!(context_set_line(&ctx("team")), "Selected Org / Project");
}

#[test]
fn context_is_selected_by_id_or_name() {
    let list = vec![
        org("o1", "One", &[("p1", "Same"), ("p2", "Mine")]),
        org("o2", "Two", &[("p3", "Same")]),
    ];
    let pick = |p: &str, o: Option<&str>| {
        resolve_selected_context(&list, p, o).map(|c| (c.org_id, c.project_id))
    };
    assert_eq!(pick("p2", None), Ok((s("o1"), s("p2"))));
    assert_eq!(pick("Mine", None), Ok((s("o1"), s("p2"))));
    assert_eq!(pick("Same", None), Err(ContextError::Ambiguous));
    assert_eq!(pick("Same", Some("Two")), Ok((s("o2"), s("p3"))));
    assert_eq!(pick("Same", Some("o1")), Ok((s("o1"), s("p1"))));
    assert_eq!(pick("Mine", Some("o2")), Err(ContextError::NotFound));
    assert_eq!(pick("none", None), Err(ContextError::NotFound));
}

fn view(url: Option<&str>) -> TunnelView {
    TunnelView {
        id: s("t"),
        label: s("L"),
        endpoint: s("http://h:1"),
        url: url.map(|u| u.to_string()),
        hostnames: vec![],
        enabled: true,
        accepted: true,
        programmed: true,
    }
}

#[test]
fn tunnels_are_printed() {
    assert_eq!(tunnel_created_lines(&view(Some("https://x"))), ["L -> http://h:1", "https://x"]);
    assert_eq!(tunnel_created_lines(&view(None))[1], "(hostname pending; tunnel id t)");
    assert_eq!(tunnel_list_lines(&vec![]), ["No tunnels."]);
    assert_eq!(
        tunnel_list_lines(&vec![view(None), view(Some("https://x"))]),
        ["t  L  (hostname pending) -> http://h:1", "t  L  https://x -> http://h:1"]
    );
    assert_eq!(tunnel_lines(&view(None)), ["L (t)", "  endpoint: http://h:1", "  url: (hostname pending)"]);
    assert_eq!(tunnel_lines(&view(Some("https://x")))[2], "  url: https://x");
    assert_eq!(tunnel_deleted_line("t"), "Deleted tunnel t");
}

fn proxy(id: &str, enabled: bool) -> ProxyState {
    ProxyState {
        info: Advertisment {
            resource_id: s(id),
            label: None,
            data: TcpProxyData { host: s("h"), port: 80 },
        },
        enabled,
    }
}

#[test]
fn proxies_are_printed() {
    assert_eq!(proxy_line(&proxy("a", false)), "a -> h:80");
    assert_eq!(proxy_list_line(&proxy("a", false)), "a -> h:80 (enabled: false)");
    assert_eq!(served_lines(&vec![proxy("a", false), proxy("b", true)]), ["b -> h:80"]);
    assert_eq!(dns_lookup_name("abc"), "_iroh.abc.datumconnect.test");
    assert_eq!(
        endpoint_lookup_name(&[0u8; 32]),
        format!("_iroh.{}.datumconnect.test", "y".repeat(52))
    );
    assert!(dns_upsert_example("ep", &vec![s("1:1"), s("2:2")])
        .ends_with("--endpoint-id ep --addr 1:1 --addr 2:2"));
}

fn tunnel(id: &str, label: &str) -> TunnelSummary {
    TunnelSummary {
        id: s(id),
        label: s(label),
        endpoint: s("HTTPS://127.0.0.1:5173"),
        hostnames: vec![],
        enabled: true,
        accepted: true,
        programmed: true,
    }
}

#[test]
fn tunnels_are_put_in_and_taken_out() {
    let mut state = AppState::new();
    state.set_tunnel_cache(vec![tunnel("a", "A"), tunnel("b", "B")]);
    state.upsert_tunnel(tunnel("a", "New"));
    state.upsert_tunnel(tunnel("c", "C"));
    let labels: Vec<&str> = state.tunnel_cache().iter().map(|t| t.label.as_str()).collect();
    assert_eq!(labels, ["New", "B", "C"]);
    state.remove_tunnel("b");
    assert_eq!(state.tunnel_cache(), &vec![tunnel("a", "New"), tunnel("c", "C")]);
    state.remove_tunnel("gone");
    assert_eq!(state.tunnel_cache().len(), 2);
}

#[test]
fn deleted_tunnels_stay_hidden_until_they_are_gone() {
    let mut state = AppState::new();
    state.add_pending_deletion(s("a"));
    state.add_pending_deletion(s("a"));
    state.add_pending_deletion(s("b"));
    let listed = vec![tunnel("a", "A"), tunnel("c", "C")];
    assert_eq!(state.visible(&listed), vec![tunnel("c", "C")]);
    state.reconcile_pending_deletions(&vec![s("a"), s("c")]);
    assert!(state.is_pending_deletion("a"));
    assert!(!state.is_pending_deletion("b"));
    state.reconcile_pending_deletions(&vec![]);
    assert_eq!(state.visible(&listed).len(), 2);
}

#[test]
fn quota_is_unknown_after_a_switch() {
    let mut state = AppState::new();
    assert_eq!(state.tunnel_create_quota(), None);
    state.set_tunnel_create_quota(Some(true));
    assert_eq!(state.tunnel_create_quota(), Some(true));
    state.set_selected_context();
    assert_eq!(state.tunnel_create_quota(), None);
    assert_eq!(summaries_of(vec![view(Some("u"))])[0].label, "L");
    let metric = datum_connect::agent::TunnelMetric {
        id: s("t"),
        bytes_from_origin: 1,
        bytes_to_origin: 2,
    };
    assert_eq!(tunnel_byte_counters(&vec![metric]), vec![(s("t"), 1, 2)]);
}

#[test]
fn addresses_lose_the_http_scheme() {
    assert_eq!(strip_http_scheme("  HTTPS:// host:1 "), "host:1");
    assert_eq!(strip_http_scheme("http://host:1"), "host:1");
    assert_eq!(strip_http_scheme("tcp://host:1"), "tcp://host:1");
    assert_eq!(strip_http_scheme(" é:1 "), "é:1");
}

#[test]
fn addresses_are_validated() {
    assert_eq!(validate_tunnel_address("  "), None);
    assert_eq!(validate_tunnel_address("127.0.0.1:5173"), None);
    assert!(validate_tunnel_address("HTTP://x:1").unwrap().starts_with("Do not include http://"));
    assert_eq!(
        validate_tunnel_address("host").as_deref(),
        Some("Invalid address: missing port. Use host:port (e.g. 127.0.0.1:5173).")
    );
    assert_eq!(
        validate_tunnel_address("host:x").as_deref(),
        Some("Invalid address: invalid port. Use host:port (e.g. 127.0.0.1:5173).")
    );
}

#[test]
fn tunnel_dialog_makes_or_changes() {
    let form = form_for(true, &Some(tunnel("a", "A")));
    assert_eq!((form.label.as_str(), form.address.as_str()), ("A", "127.0.0.1:5173"));
    assert_eq!(form_for(false, &Some(tunnel("a", "A"))).label, "");
    let v = dialog(true, true, &form, Some(true), &Some(s("quota")));
    assert_eq!((v.title.as_str(), v.submit_text.as_str()), ("Edit tunnel", "Saving…"));
    assert!(!v.create_blocked && v.submit_disabled);
    assert!(matches!(v.notice, SaveNotice::Failed { title, .. } if title == "Couldn't update tunnel"));
    let v = dialog(false, false, &form, Some(true), &Some(s("Quota!")));
    assert_eq!((v.title.as_str(), v.submit_text.as_str()), ("Add a tunnel", "Create tunnel"));
    assert!(v.create_blocked && v.submit_disabled);
    assert!(matches!(v.notice, SaveNotice::QuotaReached));
    let v = dialog(false, false, &form, None, &Some(s("boom")));
    assert!(!v.submit_disabled);
    assert!(matches!(v.notice, SaveNotice::Failed { text, .. } if text == "boom"));
    assert!(matches!(dialog(false, false, &form, None, &None).notice, SaveNotice::Quiet));
    assert!(matches!(
        submit(&Some(tunnel("a", "A")), false, &form, Some(true)),
        Submit::Update { id, .. } if id == "a"
    ));
    let form = TunnelForm { label: s(" L "), address: s(" h:1 ") };
    assert!(matches!(
        submit(&None, false, &form, None),
        Submit::Create { label, address } if label == "L" && address == "h:1"
    ));
    assert!(matches!(submit(&None, true, &form, None), Submit::Nothing));
    assert!(matches!(submit(&None, false, &form, Some(true)), Submit::Nothing));
}

fn role(name: &str, description: Option<&str>) -> RoleSummary {
    RoleSummary {
        name: s(name),
        namespace: Some(s("ns")),
        display_name: None,
        description: description.map(|d| d.to_string()),
        sort_order: 1,
    }
}

#[test]
fn roles_have_texts() {
    let mut r = role("Viewer", None);
    assert_eq!(invite::role_display_label(&r), "Viewer");
    assert!(invite::role_display_description(&r).unwrap().starts_with("View access"));
    r.display_name = Some(s("Reader"));
    r.description = Some(s("D"));
    assert_eq!(invite::role_display_label(&r), "Reader");
    assert_eq!(invite::role_display_description(&r).as_deref(), Some("D"));
    assert_eq!(invite::role_display_description(&role("x", None)), None);
    assert!(matches!(invite::role_options(&None), invite::RoleOptions::Loading));
    assert!(matches!(invite::role_options(&Some(Ok(vec![]))), invite::RoleOptions::Empty));
    assert!(matches!(invite::role_options(&Some(Err(s("e")))), invite::RoleOptions::Empty));
    match invite::role_options(&Some(Ok(vec![role("Owner", None)]))) {
        invite::RoleOptions::Roles(o) => assert_eq!(o[0].value, "Owner"),
        _ => panic!("one role"),
    }
}

#[test]
fn invitations_need_address_role_and_team() {
    assert_eq!(invite::validate_email(" "), None);
    assert_eq!(invite::validate_email("a@b.c"), None);
    assert!(invite::validate_email("a@b").is_some());
    assert!(!ctx("Personal").can_send_invite());
    assert!(ctx("Standard").can_send_invite());
    let form = invite::InviteForm { email: s(" a@b.c "), role: Some(s("Owner")) };
    let roles = vec![role("Viewer", None), role("Owner", None)];
    let team = Some(ctx("team"));
    let (email, role) = invite::submit(&form, &team, &roles).unwrap();
    assert_eq!(email, " a@b.c ");
    assert_eq!(role, Some(RoleReference { name: s("Owner"), namespace: Some(s("ns")) }));
    assert_eq!(invite::submit(&form, &Some(ctx("personal")), &roles), None);
    assert_eq!(invite::submit(&invite::empty_form(), &team, &roles), None);
    let (org, address, roles) = invite::invitation(&team, &email, role).unwrap();
    assert_eq!((org.as_str(), address.as_str()), ("o", "a@b.c"));
    assert_eq!(roles.unwrap().len(), 1);
    assert_eq!(invite::invitation(&None, "a", None), Err(invite::InviteError::NoOrganization));
    let e = invite::invitation(&Some(ctx("PERSONAL")), "a", None).unwrap_err();
    assert_eq!(e.message(), "Invitations are not available for personal organizations");
    assert_eq!(invite::InviteError::NoOrganization.message(), "No org selected");
    assert_eq!(invite::roles_to_fetch(true, &team).as_deref(), Some("o"));
    assert_eq!(invite::roles_to_fetch(false, &team), None);
}

#[test]
fn invite_dialog_shows_its_state() {
    let form = invite::empty_form();
    let team = Some(ctx("team"));
    assert!(matches!(
        invite::dialog(true, false, &form, &team, "https://w/"),
        invite::InviteView::Sent { team_url: Some(u) } if u == "https://w/org/o/team"
    ));
    assert!(matches!(
        invite::dialog(false, false, &form, &None, "https://w/"),
        invite::InviteView::Unavailable
    ));
    assert!(matches!(
        invite::dialog(false, true, &form, &team, "https://w/"),
        invite::InviteView::Form { submit_disabled: true, submit_text, .. } if submit_text == "Sending…"
    ));
}

#[test]
fn login_leads_to_project_or_tunnels() {
    let auth = signed_in(None);
    assert_eq!(destination_after_login(&auth, true), Some(Route::ProxiesList));
    assert_eq!(destination_after_login(&auth, false), Some(Route::SelectProject));
    assert_eq!(destination_after_login(&signed_in(Some("Pending")), true), None);
    assert_eq!(destination_on_show(LoginState::NeedsRefresh, &auth, true), None);
    assert_eq!(destination_on_show(LoginState::Valid, &auth, true), Some(Route::ProxiesList));
    let v = login_view(LoginState::Valid, &signed_in(Some("Pending")), false, &None);
    assert!(v.registration_pending);
    assert_eq!(v.title, "Hey Ann!");
    assert_eq!(v.button, None);
    let v = login_view(LoginState::Missing, &MaybeAuth(None), true, &Some(s("Login cancelled")));
    assert_eq!(v.button.as_deref(), Some("Waiting for log in confirmation"));
    assert_eq!((v.title.as_str(), v.error), ("", None));
    let v = login_view(LoginState::Missing, &MaybeAuth(None), false, &Some(s("boom")));
    assert_eq!(v.button.as_deref(), Some("Log in to Datum"));
    assert_eq!(v.error.as_deref(), Some("boom"));
}

#[test]
fn login_runs_through_its_steps() {
    let (phase, action) = LoginPhase::start(LoginState::NeedsRefresh);
    assert!(matches!(action, LoginAction::Refresh));
    let (phase, action) = phase.step(Err(s("revoked")));
    assert!(matches!(action, LoginAction::Login));
    let (phase, action) = phase.step(Ok(()));
    assert!(matches!(action, LoginAction::RefreshProfile));
    let (phase, action) = phase.step(Ok(()));
    assert!(matches!(action, LoginAction::RefreshOrgs));
    let (_, action) = phase.step(Ok(()));
    assert!(matches!(action, LoginAction::Return(Ok(()))));
    let (phase, action) = LoginPhase::start(LoginState::Missing);
    assert!(matches!(action, LoginAction::Login));
    let (_, action) = phase.step(Err(s("cancelled")));
    assert!(matches!(action, LoginAction::Return(Err(_))));
    assert!(matches!(LoginPhase::start(LoginState::Valid).1, LoginAction::RefreshProfile));
}

#[test]
fn settings_show_account_and_updates() {
    let a = account(&signed_in(None));
    assert_eq!((a.first_name.as_str(), a.last_name.as_str(), a.email.as_str()), ("Ann", "", "e@x"));
    assert_eq!(account(&MaybeAuth(None)).email, "");
    assert_eq!(version_text(), "Current version: v0.1.0");
    assert!(channel_changes(UpdateChannel::Stable, UpdateChannel::Beta));
    assert!(!channel_changes(UpdateChannel::Beta, UpdateChannel::Beta));
    let settings = with_channel(UpdateSettings::default(), UpdateChannel::Beta);
    assert_eq!(settings.update_channel, UpdateChannel::Beta);
    let info = UpdateInfo {
        version: s("0.2.0"),
        release_name: s("Datum 0.2"),
        published_at: Timestamp { seconds: 0, nanos: 0 },
        download_url: s(""),
        download_size: 0,
    };
    assert_eq!(update_line(&info), "Datum 0.2 (v0.2.0)");
    let u = updates(true, true, &Some(info), true);
    assert_eq!(u.ready_text.as_deref(), Some("Datum 0.2 (v0.2.0)"));
    assert_eq!(u.check_text, "Checking…");
    assert!(u.check_disabled && u.downloading && u.ready);
    assert_eq!(updates(false, false, &None, false).check_text, "Check for Updates");
    assert!(starts_check(false) && !starts_check(true));
}

#[test]
fn tray_needs_a_session_for_new_tunnels() {
    assert_eq!(on_tray_event("about", None), TrayAction::OpenWebsite);
    assert_eq!(on_tray_event("show", None), TrayAction::ShowWindow);
    assert_eq!(on_tray_event("hide", None), TrayAction::HideWindow);
    assert_eq!(on_tray_event("new_tunnel", None), TrayAction::Nothing);
    assert_eq!(on_tray_event("new_tunnel", Some(LoginState::Missing)), TrayAction::Nothing);
    assert_eq!(on_tray_event("new_tunnel", Some(LoginState::NeedsRefresh)), TrayAction::NewTunnel);
    assert_eq!(on_tray_event("version", Some(LoginState::Valid)), TrayAction::Nothing);
    let menu = tray_menu();
    assert_eq!(menu.len(), 7);
    assert_eq!(menu[6].as_ref().unwrap().text, "Version 0.1.0");
    assert!(!menu[6].as_ref().unwrap().enabled);
    assert_eq!(
        tray_navigation(true, Some(s("t"))),
        (Some(Route::ProxiesList), Some(Route::TunnelBandwidth { id: s("t") }))
    );
    assert_eq!(tray_navigation(false, None), (None, None));
    assert_eq!(Route::TunnelBandwidth { id: s("t") }.path(), "/proxy/edit/t/bandwidth");
    assert_eq!(Route::Login.path(), "/");
}

#[test]
fn updates_are_looked_for_on_request_and_twice_a_day() {
    let turn = update_turn(false, 12 * 3600 - 1);
    assert!(!turn.manual && !turn.periodic);
    let turn = update_turn(true, 12 * 3600);
    assert!(turn.manual && turn.periodic);
    assert_eq!(bump(1), 2);
    assert_eq!(bump(u32::MAX), 0);
    assert!(refresh_profile_on_start(LoginState::NeedsRefresh));
    assert!(!refresh_profile_on_start(LoginState::Missing));
    assert!(title_bar_class(true).contains("midnight-fjord"));
    assert!(title_bar_class(false).ends_with("bg-background"));
}

#[test]
fn auth_window_opens_once_and_cancels_on_close() {
    let mut w = AuthWindow::new();
    assert!(matches!(w.process_auth_window(true), WindowAction::Nothing));
    w.open_auth_window(s("https://auth"));
    assert!(matches!(w.process_auth_window(false), WindowAction::Open(u) if u == "https://auth"));
    w.opened(true);
    assert!(matches!(w.process_auth_window(false), WindowAction::Nothing));
    assert!(matches!(w.process_auth_window(true), WindowAction::Close { cancel: true }));
    assert!(matches!(w.process_auth_window(true), WindowAction::Nothing));
    w.open_auth_window(s("https://auth"));
    w.process_auth_window(false);
    w.opened(true);
    w.request_close();
    assert!(matches!(w.process_auth_window(false), WindowAction::Close { cancel: false }));
    assert!(!w.open);
}
