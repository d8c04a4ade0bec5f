use data_encoding::BASE64URL_NOPAD;
use datum_connect::auth_retry::Attempt;
use datum_connect::datum_apis::allowance_bucket::AllowanceBucketStatus;
use datum_connect::datum_apis::user_invitation::RoleReference;
use datum_connect::datum_cloud::auth::{
    accept_redirect, bearer, check_nonce, fetch_user_profile, fill_page, oauth_redirect_page,
    follow_session, parse_token_response, parse_user, recv, redirect_url, refresh_nonce_verifier,
    user_url, AuthClient, AuthState, AuthTokens, FollowAction, LoginState, MaybeAuth, NonceError,
    OauthRedirectData, ProfileError, RedirectError, RedirectEvent, RedirectStep, SessionAction,
    SessionError, SessionEvent, SessionNews, SessionRun, TokenResponseError, UserProfile,
};
use datum_connect::datum_cloud::client::{
    attempt_of_response, fetch_direct, invitations_url, post_json, project_control_plane_url,
    roles_url, url, Api, FetchError, Scope,
};
use datum_connect::datum_cloud::datumctl::{
    decode_jwt_sub, resolve_from_config, token_args, token_from_output, Cache, CachedOrg,
    CachedProject, Context, DatumctlConfig, Endpoint, JwtError, ResolveError, Session, TokenError,
};
use datum_connect::datum_cloud::env::ApiEnv;
use datum_connect::datum_cloud::invitations::{
    create_user_invitation_org, invitation_body, invitation_expiry, invitation_name,
    invitation_name_with, invitation_namespace,
};
use datum_connect::datum_cloud::organizations::{
    parse_orgs, parse_projects, sort_list, validate_context, Organization,
    OrganizationWithProjects, Project, SessionState,
};
use datum_connect::datum_cloud::roles::{parse_role_list, role_status_is_success, RoleListError};
use datum_connect::json::Json;
use datum_connect::state::SelectedContext;

fn s(text: &str) -> String {
    text.to_string()
}

fn text(t: &str) -> Json {
    Json::Str(s(t))
}

fn obj(pairs: Vec<(&str, Json)>) -> Json {
    Json::Object(pairs.into_iter().map(|(k, v)| (s(k), v)).collect())
}

fn items(list: Vec<Json>) -> Json {
    obj(vec![("items", Json::Array(list))])
}

fn make_jwt(payload_json: &str) -> String {
    let header = BASE64URL_NOPAD.encode(br#"{"alg":"none","typ":"JWT"}"#);
    let payload = BASE64URL_NOPAD.encode(payload_json.as_bytes());
    let sig = BASE64URL_NOPAD.encode(b"sig");
    format!("{header}.{payload}.{sig}")
}

#[test]
fn decode_jwt_sub_reads_subject_claim() {
    let token = make_jwt(r#"{"sub":"user-abc123","email":"a@b.com"}"#);
    assert_eq!(decode_jwt_sub(&token).unwrap(), "user-abc123");
}

#[test]
fn decode_jwt_sub_rejects_non_jwt() {
    assert!(decode_jwt_sub("not-a-jwt").is_err());
    assert!(decode_jwt_sub("a.b").is_err());
}

#[test]
fn decode_jwt_sub_rejects_missing_sub() {
    let token = make_jwt(r#"{"email":"a@b.com"}"#);
    assert!(decode_jwt_sub(&token).is_err());
}

#[test]
fn decode_jwt_sub_says_what_is_wrong() {
    assert_eq!(decode_jwt_sub("a.b"), Err(JwtError::Segments(2)));
    assert_eq!(decode_jwt_sub("a.b=.c"), Err(JwtError::Base64));
    assert_eq!(decode_jwt_sub(&make_jwt("no json")), Err(JwtError::Json));
    assert_eq!(decode_jwt_sub(&make_jwt(r#"{"sub":7}"#)), Err(JwtError::NoSubject));
    assert_eq!(decode_jwt_sub(&make_jwt("[]")), Err(JwtError::NoSubject));
    assert_eq!(
        JwtError::Segments(2).message(),
        "access token is not a JWT (expected 3 dot-separated segments, got 2)"
    );
    assert_eq!(JwtError::NoSubject.message(), "JWT payload is missing `sub` claim");
    assert!(JwtError::Base64.message().contains("base64url"));
    assert!(JwtError::Json.message().contains("JSON"));
}

fn config() -> DatumctlConfig {
    DatumctlConfig {
        active_session: Some(s("main")),
        current_context: Some(s("ctx")),
        sessions: vec![Session {
            name: s("main"),
            endpoint: Endpoint { server: s("https://api.datum.net//"), auth_hostname: None },
            user_email: Some(s("a@b.com")),
            user_name: Some(s("Ann")),
            user_key: None,
        }],
        contexts: vec![
            Context { name: s("x"), organization_id: None, project_id: None, session: None },
            Context {
                name: s("ctx"),
                organization_id: Some(s("org")),
                project_id: Some(s("proj")),
                session: None,
            },
        ],
        cache: Cache {
            organizations: vec![CachedOrg {
                id: s("org"),
                display_name: Some(s("Org")),
                org_type: Some(s("team")),
            }],
            projects: vec![CachedProject { id: s("proj"), display_name: None, org_id: None }],
        },
    }
}

#[test]
fn config_resolves_to_session_and_project() {
    let r = resolve_from_config(&config(), None).unwrap();
    assert_eq!(r.session_name, "main");
    assert_eq!(r.api_url, "https://api.datum.net");
    assert_eq!(r.profile.user_id, "");
    assert_eq!(r.profile.email, "a@b.com");
    assert_eq!(r.profile.display_name(), "Ann");
    assert_eq!(r.selected_context.org_name, "Org");
    assert_eq!(r.selected_context.org_type, "team");
    assert_eq!(r.selected_context.project_id, "proj");
    assert_eq!(r.selected_context.project_name, "proj");
    let pinned = resolve_from_config(&config(), Some(s("other"))).unwrap();
    assert_eq!(pinned.selected_context.project_id, "other");
    assert_eq!(pinned.selected_context.org_id, "org");
    let mut unknown = config();
    unknown.cache = Cache::default();
    let r = resolve_from_config(&unknown, None).unwrap();
    assert_eq!(r.selected_context.org_name, "org");
    assert_eq!(r.selected_context.org_type, "personal");
}

#[test]
fn pinned_project_brings_its_organization() {
    let mut c = config();
    c.cache.projects.push(CachedProject {
        id: s("p2"),
        display_name: Some(s("Two")),
        org_id: Some(s("o2")),
    });
    let r = resolve_from_config(&c, Some(s("p2"))).unwrap().selected_context;
    assert_eq!((r.project_id.as_str(), r.project_name.as_str()), ("p2", "Two"));
    assert_eq!((r.org_id.as_str(), r.org_name.as_str()), ("o2", "o2"));
    assert_eq!(r.org_type, "personal");
    c.cache.organizations.push(CachedOrg {
        id: s("o2"),
        display_name: Some(s("Second")),
        org_type: Some(s("team")),
    });
    c.contexts[1].organization_id = None;
    let r = resolve_from_config(&c, Some(s("p2"))).unwrap().selected_context;
    assert_eq!((r.org_name.as_str(), r.org_type.as_str()), ("Second", "team"));
    assert!(resolve_from_config(&c, Some(s("p3"))).is_err());
    c.contexts[1].organization_id = Some(s("org"));
    c.contexts[1].project_id = Some(s("p2"));
    let r = resolve_from_config(&c, None).unwrap().selected_context;
    assert_eq!((r.org_id.as_str(), r.project_id.as_str()), ("org", "p2"));
}

#[test]
fn config_that_does_not_resolve() {
    let error = |c: DatumctlConfig| resolve_from_config(&c, None).unwrap_err();
    let mut c = config();
    c.current_context = Some(s(""));
    assert!(matches!(error(c), ResolveError::NoCurrentContext));
    let mut c = config();
    c.current_context = Some(s("gone"));
    let e = error(c);
    assert!(matches!(&e, ResolveError::UnknownContext(n) if n == "gone"));
    assert!(e.message().starts_with("datumctl current-context 'gone' not present"));
    let mut c = config();
    c.contexts[1].session = Some(s(""));
    assert!(matches!(error(c), ResolveError::NoSession));
    let mut c = config();
    c.active_session = Some(s("gone"));
    let e = error(c);
    assert!(matches!(&e, ResolveError::UnknownSession(n) if n == "gone"));
    assert!(e.message().starts_with("datumctl session 'gone' is referenced"));
    let mut c = config();
    c.contexts[1].organization_id = None;
    assert!(matches!(error(c), ResolveError::NoOrganization));
    let mut c = config();
    c.contexts[1].project_id = Some(s(""));
    assert!(resolve_from_config(&c, Some(s("p"))).is_ok());
    let e = error(c);
    assert!(matches!(e, ResolveError::NoProject));
    assert!(e.message().ends_with("or pass `--project`."));
    assert!(ResolveError::NoCurrentContext.message().starts_with("No current context"));
    assert!(ResolveError::NoSession.message().contains("not bound to a session"));
    assert!(ResolveError::NoOrganization.message().contains("no organization"));
}

#[test]
fn tokens_come_from_datumctl() {
    assert_eq!(token_args(&None), ["auth", "get-token"]);
    assert_eq!(token_args(&Some(s("m"))), ["auth", "get-token", "--session", "m"]);
    assert_eq!(token_from_output(true, "0", &Some(s(" tok\n")), "").unwrap(), "tok");
    let e = token_from_output(false, "exit status: 1", &None, " ").unwrap_err();
    assert_eq!(
        e.message(),
        "datumctl auth get-token exited with status exit status: 1. Try `datumctl auth login`."
    );
    let e = token_from_output(false, "1", &Some(s("tok")), "expired\n").unwrap_err();
    assert_eq!(e.message(), "datumctl auth get-token failed: expired");
    assert!(matches!(token_from_output(true, "0", &None, ""), Err(TokenError::NotUtf8)));
    assert!(matches!(token_from_output(true, "0", &Some(s("\n")), ""), Err(TokenError::Empty)));
    assert_eq!(TokenError::Empty.message(), "datumctl returned an empty access token");
    assert_eq!(TokenError::NotUtf8.message(), "datumctl returned non-UTF8 token output");
}

#[test]
fn environments_by_name_and_address() {
    assert!(matches!(ApiEnv::from_env(&Some(s("staging"))), ApiEnv::Staging));
    assert!(matches!(ApiEnv::from_env(&Some(s("Staging"))), ApiEnv::Production));
    assert!(matches!(ApiEnv::from_env(&None), ApiEnv::Production));
    assert!(matches!(ApiEnv::from_api_url("https://api.datum.net/"), ApiEnv::Production));
    let staging = ApiEnv::from_api_url("https://api.staging.env.datum.net");
    assert_eq!(staging.oauth_storage_key(), "staging");
    assert_eq!(staging.web_url(), "https://cloud.staging.env.datum.net");
    assert_eq!(staging.auth_provider().client_id, "360628090294044442");
    let custom = ApiEnv::from_api_url("http://localhost:8080//");
    assert_eq!(custom.api_url(), "http://localhost:8080");
    assert_eq!(custom.web_url(), "http://localhost:8080");
    assert_eq!(custom.oauth_storage_key(), "custom");
    assert_eq!(custom.auth_provider().issuer_url, "http://localhost:8080");
    assert_eq!(ApiEnv::Production.oauth_storage_key(), "production");
    assert_eq!(ApiEnv::Production.auth_provider().issuer_url, "https://auth.datum.net");
}

const SECOND: i128 = 1_000_000_000;
const NOW: i128 = 1_700_000_000 * SECOND;

fn auth(issued_at: i128, seconds: i128) -> AuthState {
    AuthState {
        tokens: AuthTokens {
            access_token: s("a"),
            refresh_token: Some(s("r")),
            issued_at,
            expires_in: seconds * SECOND,
        },
        profile: profile(),
    }
}

fn profile() -> UserProfile {
    UserProfile {
        user_id: s("u"),
        email: s("e@x"),
        first_name: Some(s("Ann")),
        last_name: Some(s("Bee")),
        avatar_url: None,
        registration_approval: None,
    }
}

#[test]
fn tokens_expire() {
    let t = auth(NOW, 3600).tokens;
    assert_eq!(t.expires_at(), NOW + 3600 * SECOND);
    assert!(!t.is_expired(NOW + 3600 * SECOND));
    assert!(t.is_expired(NOW + 3600 * SECOND + 1));
    assert!(!t.expires_in_less_than(NOW, 3600 * SECOND));
    assert!(t.expires_in_less_than(NOW, 3600 * SECOND + 1));
    assert_eq!(t.login_state(NOW + 3300 * SECOND), LoginState::Valid);
    assert_eq!(t.login_state(NOW + 3300 * SECOND + 1), LoginState::NeedsRefresh);
}

#[test]
fn names_are_shown_as_far_as_they_are_there() {
    let mut p = profile();
    assert_eq!(p.display_name(), "Ann Bee");
    p.first_name = None;
    assert_eq!(p.display_name(), "Bee");
    p.last_name = None;
    assert_eq!(p.display_name(), "e@x");
    p.first_name = Some(s("Ann"));
    assert_eq!(p.copy().display_name(), "Ann");
}

#[test]
fn user_is_read_from_spec_and_status() {
    let json = obj(vec![
        ("metadata", obj(vec![("name", text("u1"))])),
        (
            "spec",
            obj(vec![
                ("email", text("a@b")),
                ("firstName", text("Second choice")),
                ("givenName", text("Ann")),
                ("avatarUrl", text("spec.png")),
            ]),
        ),
        (
            "status",
            obj(vec![
                ("last_name", text("Bee")),
                ("avatar_url", text("status.png")),
                ("registrationApproval", text("Pending")),
            ]),
        ),
    ]);
    let p = parse_user(&json).unwrap();
    assert_eq!(p.user_id, "u1");
    assert_eq!(p.email, "a@b");
    assert_eq!(p.first_name.as_deref(), Some("Ann"));
    assert_eq!(p.last_name.as_deref(), Some("Bee"));
    assert_eq!(p.avatar_url.as_deref(), Some("status.png"));
    assert_eq!(p.registration_approval.as_deref(), Some("Pending"));
    // The first key that is there decides, also where it holds no text.
    let odd = obj(vec![
        ("metadata", obj(vec![("name", text("u1"))])),
        ("spec", obj(vec![("email", Json::Null)])),
        ("status", obj(vec![("email", text("a@b"))])),
    ]);
    assert!(parse_user(&odd).is_none());
    assert!(parse_user(&Json::Null).is_none());
    let reply = fetch_user_profile(200, &Some(json));
    assert_eq!(reply.map(|p| p.user_id), Ok(s("u1")));
    let error = |status: u16, body: Option<Json>| fetch_user_profile(status, &body).map(|p| p.email);
    assert_eq!(error(401, None), Err(ProfileError::Unauthorized));
    assert_eq!(error(403, None), Err(ProfileError::Unauthorized));
    assert_eq!(error(500, None), Err(ProfileError::Status(500)));
    assert_eq!(error(200, None), Err(ProfileError::NotJson));
    assert_eq!(error(200, Some(Json::Bool(true))), Err(ProfileError::NoUser));
    assert_eq!(
        user_url("https://api", "u1"),
        "https://api/apis/iam.miloapis.com/v1alpha1/users/u1"
    );
    assert_eq!(bearer("t"), "Bearer t");
}

#[test]
fn token_responses_are_checked() {
    let parse = |expires: Option<i128>, expected: Option<&str>| {
        let expected = expected.map(|h| h.to_string());
        parse_token_response(s("a"), None, NOW, expires, &expected, "hash").map(|t| t.expires_in)
    };
    assert_eq!(parse(Some(5), Some("hash")), Ok(5));
    assert_eq!(parse(Some(5), None), Ok(5));
    assert_eq!(parse(Some(5), Some("other")), Err(TokenResponseError::InvalidAccessToken));
    assert_eq!(parse(None, None), Err(TokenResponseError::MissingExpiry));
    assert_eq!(parse(Some(i128::MAX), None), Err(TokenResponseError::OutOfRange));
    assert_eq!(check_nonce(&Some(s("n")), "n"), Ok(()));
    assert_eq!(check_nonce(&Some(s("m")), "n"), Err(NonceError::Mismatch));
    assert_eq!(check_nonce(&None, "n"), Err(NonceError::Missing));
    assert_eq!(refresh_nonce_verifier(&None), Ok(()));
}

#[test]
fn client_announces_each_session() {
    let mut client = AuthClient::new();
    assert!(client.load().is_none());
    assert!(client.load().get().is_err());
    assert_eq!(client.login_state(NOW), LoginState::Missing);
    assert_eq!(client.next_refresh_delay(NOW), 60);
    assert!(!client.refresh_if_needed(NOW));
    client.set(Some(auth(NOW, 3600)), NOW);
    assert_eq!(client.auth_update_watch(), 1);
    assert_eq!(client.login_state_watch(), LoginState::Valid);
    assert_eq!(client.next_refresh_delay(NOW), 1800);
    assert_eq!(client.next_refresh_delay(NOW + 1799 * SECOND), 1);
    assert_eq!(client.next_refresh_delay(NOW + 9999 * SECOND), 1);
    assert!(!client.load_refreshed(NOW + 1800 * SECOND));
    assert!(client.load_refreshed(NOW + 1800 * SECOND + 1));
    let other = UserProfile { first_name: None, ..profile() };
    let updated = client.with_profile(other).unwrap();
    assert_eq!(updated.tokens.refresh_token.as_deref(), Some("r"));
    assert_eq!(updated.profile.first_name, None);
    client.logout(NOW);
    assert_eq!(client.auth_update_watch(), 2);
    assert_eq!(client.login_state_watch(), LoginState::Missing);
    let client = AuthClient::with_repo(Some(auth(NOW, 10)), NOW);
    assert_eq!(client.login_state_watch(), LoginState::NeedsRefresh);
    assert!(AuthClient::new().with_profile(profile()).is_err());
}

#[test]
fn login_signs_in_refreshes_or_keeps() {
    let (run, action) = SessionRun::login(&MaybeAuth(None), NOW);
    assert!(matches!(action, SessionAction::MakeClient));
    let (run, action) = run.step(SessionEvent::ClientMade(Ok(())));
    assert!(matches!(action, SessionAction::Login));
    let (run, action) = run.step(SessionEvent::LoggedIn(Ok(auth(NOW, 1))));
    assert!(matches!(action, SessionAction::Store(_)));
    let (_, action) = run.step(SessionEvent::Stored(Ok(())));
    assert!(matches!(action, SessionAction::Return(Ok(()))));
    let (_, action) = SessionRun::login(&MaybeAuth(Some(auth(NOW, 3600))), NOW);
    assert!(matches!(action, SessionAction::Return(Ok(()))));
    // A refresh that fails is followed by a login.
    let (run, _) = SessionRun::login(&MaybeAuth(Some(auth(NOW, 60))), NOW);
    let (run, action) = run.step(SessionEvent::ClientMade(Ok(())));
    assert!(matches!(action, SessionAction::Refresh));
    let (run, action) = run.step(SessionEvent::Refreshed(Err(s("revoked"))));
    assert!(matches!(action, SessionAction::MakeClient));
    let (run, action) = run.step(SessionEvent::ClientMade(Ok(())));
    assert!(matches!(action, SessionAction::Login));
    let (_, action) = run.step(SessionEvent::LoggedIn(Err(s("cancelled"))));
    assert!(matches!(action, SessionAction::Return(Err(SessionError::Login(_)))));
}

#[test]
fn refresh_that_fails_clears_the_session() {
    let (_, action) = SessionRun::refresh(&MaybeAuth(None));
    assert!(matches!(action, SessionAction::Return(Err(SessionError::NotLoggedIn))));
    let start = || SessionRun::refresh(&MaybeAuth(Some(auth(NOW, 3600)))).0;
    let (_, action) = start().step(SessionEvent::ClientMade(Err(s("offline"))));
    assert!(matches!(action, SessionAction::Return(Err(SessionError::Client(_)))));
    let (run, _) = start().step(SessionEvent::ClientMade(Ok(())));
    let (run, action) = run.step(SessionEvent::Refreshed(Err(s("revoked"))));
    assert!(matches!(action, SessionAction::Clear));
    let (_, action) = run.step(SessionEvent::Stored(Ok(())));
    assert!(matches!(action, SessionAction::Return(Err(SessionError::Refresh(e))) if e == "revoked"));
    let (run, _) = start().step(SessionEvent::ClientMade(Ok(())));
    let (run, action) = run.step(SessionEvent::Refreshed(Ok(auth(NOW, 7200))));
    assert!(matches!(action, SessionAction::Store(a) if a.tokens.expires_in == 7200 * SECOND));
    let (_, action) = run.step(SessionEvent::Stored(Err(s("disk"))));
    assert!(matches!(action, SessionAction::Return(Err(SessionError::Store(_)))));
}

#[test]
fn redirect_with_another_state_is_passed_over() {
    let data = |state: &str| OauthRedirectData { code: s("c"), state: s(state) };
    assert_eq!(accept_redirect(data("x"), "x").as_deref(), Some("c"));
    assert_eq!(accept_redirect(data("y"), "x"), None);
    assert_eq!(redirect_url(), "http://localhost:7076/oauth/redirect");
    assert_eq!(
        oauth_redirect_page(
            "{{HERO_B64}} {{FONT_B64}} {{FAVICON_LIGHT_B64}} {{FAVICON_DARK_B64}} {{HERO_B64}}",
            b"Hello world",
            b"a",
            b"ab",
            b"",
        ),
        "SGVsbG8gd29ybGQ= YQ== YWI=  SGVsbG8gd29ybGQ="
    );
    assert_eq!(fill_page("{{HERO_B64}}", "h", "f", "l", "d"), "h");
}

fn membership(id: &str, name: &str, kind: Option<&str>) -> Json {
    let mut org = vec![("displayName", text(name))];
    if let Some(k) = kind {
        org.push(("type", text(k)));
    }
    obj(vec![
        ("status", obj(vec![("organization", obj(org))])),
        ("spec", obj(vec![("organizationRef", obj(vec![("name", text(id))]))])),
    ])
}

#[test]
fn organizations_are_listed_once() {
    let json = items(vec![
        membership("b", "Bee", Some("Personal")),
        obj(vec![("status", Json::Null)]),
        membership("a", "Ay", None),
        membership("b", "Again", None),
    ]);
    let orgs = parse_orgs(&json).unwrap();
    assert_eq!(orgs.len(), 2);
    assert_eq!((orgs[0].resource_id.as_str(), orgs[0].display_name.as_str()), ("b", "Bee"));
    assert_eq!(orgs[0].org_type, "Personal");
    assert_eq!(orgs[1].org_type, "");
    assert!(parse_orgs(&obj(vec![("items", Json::Null)])).is_none());
    assert!(parse_orgs(&Json::Array(vec![])).is_none());
}

fn project_item(id: &str, name: &str) -> Json {
    let annotations = obj(vec![("kubernetes.io/description", text(name))]);
    obj(vec![("metadata", obj(vec![("name", text(id)), ("annotations", annotations)]))])
}

#[test]
fn projects_need_id_and_description() {
    let json = items(vec![
        project_item("p", "Project"),
        obj(vec![("metadata", obj(vec![("name", text("q"))]))]),
    ]);
    let projects = parse_projects(&json).unwrap();
    assert_eq!(projects, vec![Project { resource_id: s("p"), display_name: s("Project") }]);
    assert!(parse_projects(&Json::Null).is_none());
}

fn org(id: &str, projects: &[&str]) -> OrganizationWithProjects {
    OrganizationWithProjects {
        org: Organization { resource_id: s(id), display_name: s("O"), org_type: s("") },
        projects: projects
            .iter()
            .map(|p| Project { resource_id: p.to_string(), display_name: s("P") })
            .collect(),
    }
}

#[test]
fn organizations_and_projects_are_sorted() {
    let sorted = sort_list(vec![org("b", &["z", "x", "y"]), org("a", &[]), org("ab", &["q"])]);
    assert_eq!(sorted, vec![org("a", &[]), org("ab", &["q"]), org("b", &["x", "y", "z"])]);
    // Organizations with the same identifier keep their order.
    let sorted = sort_list(vec![org("a", &["1"]), org("a", &["0"])]);
    assert_eq!(sorted[0].projects[0].resource_id, "1");
}

fn context(org: &str, project: &str) -> SelectedContext {
    SelectedContext {
        org_id: s(org),
        org_name: s("O"),
        project_id: s(project),
        project_name: s("P"),
        org_type: s(""),
    }
}

#[test]
fn selection_is_dropped_when_its_project_is_gone() {
    let list = vec![org("a", &["p"]), org("b", &["q"])];
    assert_eq!(validate_context(&list, Some(context("a", "p"))), Some(context("a", "p")));
    assert_eq!(validate_context(&list, Some(context("a", "q"))), None);
    assert_eq!(validate_context(&list, None), None);
}

#[test]
fn session_state_announces_changes() {
    let mut state = SessionState::new(Some(context("a", "p")));
    assert!(!state.context_changes(&Some(context("a", "p"))));
    assert!(state.context_changes(&None));
    state.set_selected_context(None);
    assert_eq!(state.selected_context, None);
    assert!(state.set_orgs_projects(vec![org("a", &["p"])]));
    assert!(!state.set_orgs_projects(vec![org("a", &["p"])]));
    assert!(state.set_orgs_projects(vec![org("a", &["p", "q"])]));
    assert!(state.orgs_projects_fresh(Some(1_999_999_999)));
    assert!(!state.orgs_projects_fresh(Some(2_000_000_000)));
    assert!(!state.orgs_projects_fresh(None));
    assert!(!SessionState::new(None).orgs_projects_fresh(Some(0)));
}

fn role(name: &str, order: Option<&str>) -> Json {
    let mut meta = vec![("name", text(name))];
    if let Some(o) = order {
        meta.push(("annotations", obj(vec![("taxonomy.miloapis.com/sort-order", text(o))])));
    }
    obj(vec![("metadata", obj(meta))])
}

#[test]
fn roles_are_shown_in_their_order() {
    let not_ready = obj(vec![
        ("status", obj(vec![(
            "conditions",
            Json::Array(vec![obj(vec![("type", text("Ready")), ("status", text("False"))])]),
        )])),
    ]);
    let json = items(vec![
        role("late", None),
        role("second", Some("2")),
        not_ready,
        role("first", Some("1")),
        role("later", Some("x")),
    ]);
    let roles = parse_role_list(&json).unwrap();
    let names: Vec<&str> = roles.iter().map(|r| r.name.as_str()).collect();
    assert_eq!(names, ["first", "second", "late", "later"]);
    assert_eq!(roles[2].sort_order, 999);
    let error = |json: Json| parse_role_list(&json).map(|r| r.len());
    assert_eq!(error(Json::Null), Err(RoleListError::MissingItems));
    assert_eq!(error(items(vec![Json::Null])), Err(RoleListError::MissingMetadata));
    assert_eq!(
        error(items(vec![role("a", None), obj(vec![("metadata", Json::Null)])])),
        Err(RoleListError::MissingName)
    );
    assert_eq!(RoleListError::MissingItems.message(), "Missing or invalid items");
    assert_eq!(RoleListError::MissingMetadata.message(), "Missing metadata");
    assert_eq!(RoleListError::MissingName.message(), "Missing metadata.name");
}

#[test]
fn role_texts_have_fallbacks() {
    let with = |meta: Vec<(&str, Json)>, rest: Vec<(&str, Json)>| {
        let mut m = vec![("name", text("r")), ("namespace", text("ns"))];
        m.push(("annotations", obj(meta)));
        let mut all = vec![("metadata", obj(m))];
        all.extend(rest);
        parse_role_list(&items(vec![obj(all)])).unwrap().remove(0)
    };
    let r = with(
        vec![("kubernetes.io/display-name", text("A")), ("kubernetes.io/description", text("D"))],
        vec![("displayName", text("B"))],
    );
    assert_eq!(r.display_name.as_deref(), Some("A"));
    assert_eq!(r.description.as_deref(), Some("D"));
    assert_eq!(r.namespace.as_deref(), Some("ns"));
    let spec = obj(vec![("displayName", text("C")), ("description", text("E"))]);
    let r = with(vec![("kubernetes.io/description", text("D"))], vec![("spec", spec)]);
    assert_eq!(r.display_name.as_deref(), Some("C"));
    assert_eq!(r.description.as_deref(), Some("E"));
    let r = with(vec![], vec![]);
    assert_eq!((r.display_name.as_deref(), r.description), (Some("r"), None));
}

#[test]
fn roles_are_offered_unless_they_say_that_they_are_not_ready() {
    let with = |conditions: Vec<Json>| {
        role_status_is_success(&obj(vec![(
            "status",
            obj(vec![("conditions", Json::Array(conditions))]),
        )]))
    };
    let ready = |status: Json| obj(vec![("type", text("Ready")), ("status", status)]);
    assert!(role_status_is_success(&obj(vec![])));
    assert!(role_status_is_success(&obj(vec![("status", obj(vec![]))])));
    assert!(with(vec![]));
    assert!(with(vec![ready(text("True"))]));
    assert!(!with(vec![ready(text("False"))]));
    assert!(!with(vec![ready(text("Unknown"))]));
    assert!(with(vec![ready(Json::Null)]));
    assert!(with(vec![obj(vec![("type", text("Other")), ("status", text("False"))])]));
}

fn member<'a>(json: &'a Json, path: &[&str]) -> &'a Json {
    path.iter().fold(json, |j, key| j.get(key).unwrap())
}

#[test]
fn invitations_have_random_names_and_a_day() {
    let name = invitation_name("org");
    assert_eq!(name.len(), 12);
    assert!(name.starts_with("org-"));
    assert!(name[4..].chars().all(|c| c.is_ascii_lowercase() || c.is_ascii_digit()));
    assert_eq!(invitation_name_with("org", "AbC9"), "org-abc9");
    assert_eq!(invitation_namespace("org"), "organization-org");
    assert_eq!(invitation_expiry(0, 0), "1970-01-02T00:00:00+00:00");
    assert_eq!(invitation_expiry(-86_400, 500_000_000), "1970-01-01T00:00:00.500+00:00");
    let json = create_user_invitation_org("org", " a@b ", None, None, &None, 0, 0);
    assert_eq!(member(&json, &["spec", "email"]).as_str(), Some("a@b"));
    assert_eq!(
        member(&json, &["spec", "expirationDate"]).as_str(),
        Some("1970-01-02T00:00:00+00:00")
    );
    assert!(member(&json, &["metadata", "name"]).as_str().unwrap().starts_with("org-"));
}

#[test]
fn invitation_carries_names_and_roles() {
    let roles = Some(vec![
        RoleReference { name: s("viewer"), namespace: None },
        RoleReference { name: s("owner"), namespace: Some(s("x")) },
    ]);
    let json = invitation_body("org", "n", "date", "a@b", Some(" Ann "), Some(" "), &roles);
    assert_eq!(member(&json, &["apiVersion"]).as_str(), Some("iam.miloapis.com/v1alpha1"));
    assert_eq!(member(&json, &["kind"]).as_str(), Some("UserInvitation"));
    assert_eq!(member(&json, &["metadata", "name"]).as_str(), Some("n"));
    assert_eq!(member(&json, &["spec", "organizationRef", "name"]).as_str(), Some("org"));
    assert_eq!(member(&json, &["spec", "givenName"]).as_str(), Some("Ann"));
    assert!(matches!(member(&json, &["spec", "familyName"]), Json::Null));
    assert_eq!(member(&json, &["spec", "state"]).as_str(), Some("Pending"));
    let roles = member(&json, &["spec", "roles"]).as_array().unwrap();
    assert_eq!(member(&roles[0], &["namespace"]).as_str(), Some("milo-system"));
    assert_eq!(member(&roles[1], &["namespace"]).as_str(), Some("x"));
}

#[test]
fn requests_go_to_their_scope() {
    let env = ApiEnv::Production;
    assert_eq!(
        url(&env, &Scope::User(s("u")), &Api::OrganizationMemberships),
        "https://api.datum.net/apis/iam.miloapis.com/v1alpha1/users/u/control-plane/apis/resourcemanager.miloapis.com/v1alpha1/organizationmemberships"
    );
    assert_eq!(
        url(&env, &Scope::Org(s("o")), &Api::Projects),
        "https://api.datum.net/apis/resourcemanager.miloapis.com/v1alpha1/organizations/o/control-plane/apis/resourcemanager.miloapis.com/v1alpha1/projects"
    );
    assert!(roles_url(&env, "o", None).ends_with("/namespaces/datum-cloud/roles"));
    assert!(roles_url(&env, "o", Some("n")).ends_with("/namespaces/n/roles"));
    assert!(invitations_url(&env, "o").ends_with("/namespaces/organization-o/userinvitations"));
    assert_eq!(
        project_control_plane_url(&env, "p"),
        "https://api.datum.net/apis/resourcemanager.miloapis.com/v1alpha1/projects/p/control-plane"
    );
    assert!(matches!(Scope::user(&profile()), Scope::User(id) if id == "u"));
}

#[test]
fn answers_are_judged_by_status() {
    assert!(fetch_direct(200, Some(Json::Null)).is_ok());
    assert!(matches!(fetch_direct(200, None), Err(FetchError::NotJson)));
    assert!(matches!(fetch_direct(404, Some(Json::Null)), Err(FetchError::Status(404))));
    assert_eq!(post_json(201), Ok(()));
    assert_eq!(post_json(300), Err(FetchError::Status(300)));
    assert!(matches!(attempt_of_response(Ok((403, ()))), Attempt::Rejected));
    assert!(matches!(attempt_of_response(Ok((500, ()))), Attempt::Done(())));
    assert!(matches!(attempt_of_response::<()>(Err(s("x"))), Attempt::Failed(_)));
}

#[test]
fn buckets_start_empty() {
    let b = AllowanceBucketStatus::default();
    assert_eq!((b.limit, b.allocated, b.available), (0, 0, 0));
}

#[test]
fn only_the_redirect_with_the_state_ends_the_wait() {
    let data = |state: &str| OauthRedirectData { code: s("c"), state: s(state) };
    assert!(matches!(recv(RedirectEvent::Redirected(data("y")), "x"), RedirectStep::Again));
    assert!(matches!(
        recv(RedirectEvent::Redirected(data("x")), "x"),
        RedirectStep::Code(code) if code == "c"
    ));
    let failed = |event: RedirectEvent| match recv(event, "x") {
        RedirectStep::Failed(e) => e.message(),
        _ => panic!("the wait ends"),
    };
    assert_eq!(failed(RedirectEvent::Cancelled), "Login cancelled");
    assert_eq!(failed(RedirectEvent::TimedOut), "deadline has elapsed");
    assert_eq!(failed(RedirectEvent::ServerClosed), "web server closed");
    assert_eq!(failed(RedirectEvent::ServerFailed(s("e"))), "web server failed: e");
    assert_eq!(RedirectError::Cancelled.message(), "Login cancelled");
}

#[test]
fn a_session_is_followed_while_someone_is_signed_in() {
    assert_eq!(follow_session(SessionNews::Started, LoginState::Valid), FollowAction::Sync);
    assert_eq!(follow_session(SessionNews::Changed, LoginState::NeedsRefresh), FollowAction::Sync);
    assert_eq!(follow_session(SessionNews::Changed, LoginState::Missing), FollowAction::Wait);
    assert_eq!(follow_session(SessionNews::Over, LoginState::Valid), FollowAction::Stop);
}

#[test]
fn organizations_are_listed_alike_in_whatever_order_they_were_read() {
    let org = |id: &str, projects: Vec<&str>| OrganizationWithProjects {
        org: Organization { resource_id: s(id), display_name: s(id), org_type: s("") },
        projects: projects
            .into_iter()
            .map(|p| Project { resource_id: s(p), display_name: s(p) })
            .collect(),
    };
    let all = || vec![org("b", vec!["2", "1"]), org("a", vec![]), org("c", vec!["3"])];
    let mut turned = all();
    turned.reverse();
    let listed = sort_list(all());
    assert_eq!(listed, sort_list(turned));
    assert_eq!(listed, vec![org("a", vec![]), org("b", vec!["1", "2"]), org("c", vec!["3"])]);
}
