//! Session and selected project from a `datumctl` install beside this one.
//!
//! The configuration file of `datumctl` says which session and context are active; access tokens
//! come from running `datumctl auth get-token`.
use crate::datum_cloud::auth::UserProfile;
use crate::encoding::{base64url_bytes, decode_base64url, is_decodable};
use crate::json::{document_text, lookup_view, text_in_document};
use crate::state::SelectedContext;
use crate::text::{
    cat3, copy_opt, decimal, decimal_of, find_text, opt_view, place_of, split, split_at_char,
    strip_back, trim, trim_end_matches, trimmed, views,
};
use vstd::prelude::*;

verus! {

pub const DATUMCTL_BIN: &'static str = "datumctl";

pub const CONFIG_DIR: &'static str = ".datumctl";

pub const CONFIG_FILE: &'static str = "config";

/// The part of the configuration that is read.
#[derive(Debug, Clone)]
pub struct DatumctlConfig {
    pub active_session: Option<String>,
    pub current_context: Option<String>,
    pub sessions: Vec<Session>,
    pub contexts: Vec<Context>,
    pub cache: Cache,
}

#[derive(Debug, Clone)]
pub struct Session {
    pub name: String,
    pub endpoint: Endpoint,
    pub user_email: Option<String>,
    pub user_name: Option<String>,
    pub user_key: Option<String>,
}

#[derive(Debug, Clone)]
pub struct Endpoint {
    pub server: String,
    pub auth_hostname: Option<String>,
}

#[derive(Debug, Clone)]
pub struct Context {
    pub name: String,
    pub organization_id: Option<String>,
    pub project_id: Option<String>,
    pub session: Option<String>,
}

#[derive(Debug, Clone)]
pub struct Cache {
    pub organizations: Vec<CachedOrg>,
    pub projects: Vec<CachedProject>,
}

impl Default for Cache {
    fn default() -> (r: Self)
        ensures
            r.organizations@.len() == 0,
            r.projects@.len() == 0,
    {
        Cache { organizations: Vec::new(), projects: Vec::new() }
    }
}

#[derive(Debug, Clone)]
pub struct CachedOrg {
    pub id: String,
    pub display_name: Option<String>,
    pub org_type: Option<String>,
}

#[derive(Debug, Clone)]
pub struct CachedProject {
    pub id: String,
    pub display_name: Option<String>,
    pub org_id: Option<String>,
}

/// What is needed to talk to the API: the session, its user, and the selected context.
#[derive(Debug, Clone)]
pub struct ResolvedSession {
    pub session_name: String,
    pub api_url: String,
    pub profile: UserProfile,
    pub selected_context: SelectedContext,
}

/// Why the configuration gives no session.
#[derive(Debug, Clone)]
pub enum ResolveError {
    NoCurrentContext,
    /// The current context, by this name, is not in the list.
    UnknownContext(String),
    NoSession,
    /// The session, by this name, is not in the list.
    UnknownSession(String),
    NoOrganization,
    NoProject,
}

/// The content of a resolved session.
pub struct ResolvedView {
    pub session_name: Seq<char>,
    pub api_url: Seq<char>,
    pub user_id: Seq<char>,
    pub email: Seq<char>,
    pub first_name: Option<Seq<char>>,
    pub org_id: Seq<char>,
    pub org_name: Seq<char>,
    pub org_type: Seq<char>,
    pub project_id: Seq<char>,
    pub project_name: Seq<char>,
}

/// The content of a reason.
pub enum ResolveProblem {
    NoCurrentContext,
    UnknownContext(Seq<char>),
    NoSession,
    UnknownSession(Seq<char>),
    NoOrganization,
    NoProject,
}

impl View for ResolveError {
    type V = ResolveProblem;

    open spec fn view(&self) -> ResolveProblem {
        match *self {
            ResolveError::NoCurrentContext => ResolveProblem::NoCurrentContext,
            ResolveError::UnknownContext(n) => ResolveProblem::UnknownContext(n@),
            ResolveError::NoSession => ResolveProblem::NoSession,
            ResolveError::UnknownSession(n) => ResolveProblem::UnknownSession(n@),
            ResolveError::NoOrganization => ResolveProblem::NoOrganization,
            ResolveError::NoProject => ResolveProblem::NoProject,
        }
    }
}

impl View for ResolvedSession {
    type V = ResolvedView;

    open spec fn view(&self) -> ResolvedView {
        ResolvedView {
            session_name: self.session_name@,
            api_url: self.api_url@,
            user_id: self.profile.user_id@,
            email: self.profile.email@,
            first_name: opt_view(self.profile.first_name),
            org_id: self.selected_context.org_id@,
            org_name: self.selected_context.org_name@,
            org_type: self.selected_context.org_type@,
            project_id: self.selected_context.project_id@,
            project_name: self.selected_context.project_name@,
        }
    }
}

pub open spec fn resolve_view(r: Result<ResolvedSession, ResolveError>) -> Result<
    ResolvedView,
    ResolveProblem,
> {
    match r {
        Ok(s) => Ok(s@),
        Err(e) => Err(e@),
    }
}

/// A text that is there and not empty.
pub open spec fn filled(o: Option<String>) -> Option<Seq<char>> {
    match o {
        Some(s) if s@.len() > 0 => Some(s@),
        _ => None,
    }
}

/// A text, or another where it is missing.
pub open spec fn or_text(o: Option<String>, default: Seq<char>) -> Seq<char> {
    match o {
        Some(s) => s@,
        None => default,
    }
}

pub open spec fn context_names(v: Seq<Context>) -> Seq<Seq<char>> {
    Seq::new(v.len(), |i: int| v[i].name@)
}

pub open spec fn session_names(v: Seq<Session>) -> Seq<Seq<char>> {
    Seq::new(v.len(), |i: int| v[i].name@)
}

pub open spec fn org_ids(v: Seq<CachedOrg>) -> Seq<Seq<char>> {
    Seq::new(v.len(), |i: int| v[i].id@)
}

pub open spec fn project_ids(v: Seq<CachedProject>) -> Seq<Seq<char>> {
    Seq::new(v.len(), |i: int| v[i].id@)
}

/// The display name of an organization: that of the cache, else its identifier.
pub open spec fn org_name(cache: Cache, id: Seq<char>) -> Seq<char> {
    let i = place_of(org_ids(cache.organizations@), id);
    if i < cache.organizations@.len() {
        or_text(cache.organizations@[i].display_name, id)
    } else {
        id
    }
}

/// The type of an organization: that of the cache, else personal.
pub open spec fn org_type(cache: Cache, id: Seq<char>) -> Seq<char> {
    let i = place_of(org_ids(cache.organizations@), id);
    if i < cache.organizations@.len() {
        or_text(cache.organizations@[i].org_type, "personal"@)
    } else {
        "personal"@
    }
}

/// The display name of a project: that of the cache, else its identifier.
pub open spec fn project_name(cache: Cache, id: Seq<char>) -> Seq<char> {
    let i = place_of(project_ids(cache.projects@), id);
    if i < cache.projects@.len() {
        or_text(cache.projects@[i].display_name, id)
    } else {
        id
    }
}

/// The name of the context's session: the one that it is bound to, else the active one.
pub open spec fn session_of(config: DatumctlConfig, context: Context) -> Option<Seq<char>> {
    if context.session is Some {
        filled(context.session)
    } else {
        filled(config.active_session)
    }
}

/// The organization of a project, if the cache knows it.
pub open spec fn cached_org(cache: Cache, project: Seq<char>) -> Option<Seq<char>> {
    let i = place_of(project_ids(cache.projects@), project);
    if i < cache.projects@.len() {
        filled(cache.projects@[i].org_id)
    } else {
        None
    }
}

/// The organization: that of a pinned project, if the cache knows it, else that of the context.
pub open spec fn org_of(
    cache: Cache,
    context: Context,
    project_override: Option<String>,
) -> Option<Seq<char>> {
    match project_override {
        Some(p) if cached_org(cache, p@) is Some => cached_org(cache, p@),
        _ => filled(context.organization_id),
    }
}

/// The session, user and project of a context.
pub open spec fn resolved_in(
    config: DatumctlConfig,
    context: Context,
    project_override: Option<String>,
) -> Result<ResolvedView, ResolveProblem> {
    match session_of(config, context) {
        None => Err(ResolveProblem::NoSession),
        Some(name) => {
            let i = place_of(session_names(config.sessions@), name);
            if i >= config.sessions@.len() {
                Err(ResolveProblem::UnknownSession(name))
            } else if org_of(config.cache, context, project_override) is None {
                Err(ResolveProblem::NoOrganization)
            } else if project_override is None && filled(context.project_id) is None {
                Err(ResolveProblem::NoProject)
            } else {
                let session = config.sessions@[i];
                let org = org_of(config.cache, context, project_override)->0;
                let project = match project_override {
                    Some(p) => p@,
                    None => filled(context.project_id)->0,
                };
                Ok(
                    ResolvedView {
                        session_name: name,
                        api_url: strip_back(session.endpoint.server@, '/'),
                        user_id: or_text(session.user_key, Seq::empty()),
                        email: or_text(session.user_email, Seq::empty()),
                        first_name: opt_view(session.user_name),
                        org_id: org,
                        org_name: org_name(config.cache, org),
                        org_type: org_type(config.cache, org),
                        project_id: project,
                        project_name: project_name(config.cache, project),
                    },
                )
            }
        },
    }
}

/// What a configuration resolves to, with a project that the caller may pin.
pub open spec fn resolved(config: DatumctlConfig, project_override: Option<String>) -> Result<
    ResolvedView,
    ResolveProblem,
> {
    match filled(config.current_context) {
        None => Err(ResolveProblem::NoCurrentContext),
        Some(name) => {
            let i = place_of(context_names(config.contexts@), name);
            if i >= config.contexts@.len() {
                Err(ResolveProblem::UnknownContext(name))
            } else {
                resolved_in(config, config.contexts@[i], project_override)
            }
        },
    }
}

fn filled_text(o: &Option<String>) -> (r: Option<String>)
    ensures
        opt_view(r) == filled(*o),
        r matches Some(s) ==> o == Some(s),
{
    match o {
        Some(s) => if s.as_str().is_empty() {
            None
        } else {
            Some(s.clone())
        },
        None => None,
    }
}

fn text_or(o: &Option<String>, default: &str) -> (r: String)
    ensures
        r@ == or_text(*o, default@),
{
    match o {
        Some(s) => s.clone(),
        None => default.to_owned(),
    }
}

fn find_context(v: &Vec<Context>, name: &str) -> (r: Option<usize>)
    ensures
        r is Some <==> place_of(context_names(v@), name@) < v@.len(),
        r matches Some(i) ==> i == place_of(context_names(v@), name@) && i < v@.len(),
{
    let mut names: Vec<String> = Vec::new();
    let mut i: usize = 0;
    while i < v.len()
        invariant
            i <= v@.len(),
            names@.len() == i,
            forall|k: int| 0 <= k < i ==> (#[trigger] names@[k])@ == v@[k].name@,
        decreases v@.len() - i,
    {
        names.push(v[i].name.clone());
        i += 1;
    }
    assert(views(names@) =~= context_names(v@));
    find_text(&names, name)
}

fn find_session(v: &Vec<Session>, name: &str) -> (r: Option<usize>)
    ensures
        r is Some <==> place_of(session_names(v@), name@) < v@.len(),
        r matches Some(i) ==> i == place_of(session_names(v@), name@) && i < v@.len(),
{
    let mut names: Vec<String> = Vec::new();
    let mut i: usize = 0;
    while i < v.len()
        invariant
            i <= v@.len(),
            names@.len() == i,
            forall|k: int| 0 <= k < i ==> (#[trigger] names@[k])@ == v@[k].name@,
        decreases v@.len() - i,
    {
        names.push(v[i].name.clone());
        i += 1;
    }
    assert(views(names@) =~= session_names(v@));
    find_text(&names, name)
}

fn find_org(v: &Vec<CachedOrg>, id: &str) -> (r: Option<usize>)
    ensures
        r is Some <==> place_of(org_ids(v@), id@) < v@.len(),
        r matches Some(i) ==> i == place_of(org_ids(v@), id@) && i < v@.len(),
{
    let mut ids: Vec<String> = Vec::new();
    let mut i: usize = 0;
    while i < v.len()
        invariant
            i <= v@.len(),
            ids@.len() == i,
            forall|k: int| 0 <= k < i ==> (#[trigger] ids@[k])@ == v@[k].id@,
        decreases v@.len() - i,
    {
        ids.push(v[i].id.clone());
        i += 1;
    }
    assert(views(ids@) =~= org_ids(v@));
    find_text(&ids, id)
}

fn find_project(v: &Vec<CachedProject>, id: &str) -> (r: Option<usize>)
    ensures
        r is Some <==> place_of(project_ids(v@), id@) < v@.len(),
        r matches Some(i) ==> i == place_of(project_ids(v@), id@) && i < v@.len(),
{
    let mut ids: Vec<String> = Vec::new();
    let mut i: usize = 0;
    while i < v.len()
        invariant
            i <= v@.len(),
            ids@.len() == i,
            forall|k: int| 0 <= k < i ==> (#[trigger] ids@[k])@ == v@[k].id@,
        decreases v@.len() - i,
    {
        ids.push(v[i].id.clone());
        i += 1;
    }
    assert(views(ids@) =~= project_ids(v@));
    find_text(&ids, id)
}

fn selected_context(cache: &Cache, org_id: String, project_id: String) -> (r: SelectedContext)
    ensures
        r.org_id == org_id,
        r.org_name@ == org_name(*cache, org_id@),
        r.org_type@ == org_type(*cache, org_id@),
        r.project_id == project_id,
        r.project_name@ == project_name(*cache, project_id@),
{
    let (org_name, org_type) = match find_org(&cache.organizations, org_id.as_str()) {
        Some(i) => (
            text_or(&cache.organizations[i].display_name, org_id.as_str()),
            text_or(&cache.organizations[i].org_type, "personal"),
        ),
        None => (org_id.clone(), "personal".to_owned()),
    };
    let project_name = match find_project(&cache.projects, project_id.as_str()) {
        Some(i) => text_or(&cache.projects[i].display_name, project_id.as_str()),
        None => project_id.clone(),
    };
    SelectedContext { org_id, org_name, project_id, project_name, org_type }
}

fn pinned_org(cache: &Cache, project: &str) -> (r: Option<String>)
    ensures
        opt_view(r) == cached_org(*cache, project@),
{
    match find_project(&cache.projects, project) {
        Some(i) => filled_text(&cache.projects[i].org_id),
        None => None,
    }
}

/// The session and the selected context of a configuration. The organization of a pinned project is
/// looked up in the cache. A project that is not there is taken as it is, in the organization of
/// the context.
pub fn resolve_from_config(config: &DatumctlConfig, project_override: Option<String>) -> (r: Result<
    ResolvedSession,
    ResolveError,
>)
    ensures
        resolve_view(r) == resolved(*config, project_override),
        r matches Ok(s) ==> s.profile.last_name is None && s.profile.avatar_url is None
            && s.profile.registration_approval is None,
{
    let current_name = match filled_text(&config.current_context) {
        Some(n) => n,
        None => {
            return Err(ResolveError::NoCurrentContext);
        },
    };
    let at: usize = match find_context(&config.contexts, current_name.as_str()) {
        Some(i) => i,
        None => {
            return Err(ResolveError::UnknownContext(current_name));
        },
    };
    let context = &config.contexts[at];
    let session_name = if context.session.is_some() {
        filled_text(&context.session)
    } else {
        filled_text(&config.active_session)
    };
    let session_name = match session_name {
        Some(n) => n,
        None => {
            return Err(ResolveError::NoSession);
        },
    };
    let place: usize = match find_session(&config.sessions, session_name.as_str()) {
        Some(i) => i,
        None => {
            return Err(ResolveError::UnknownSession(session_name));
        },
    };
    proof {
        lemma_place_of(session_names(config.sessions@), session_name@);
    }
    let session = &config.sessions[place];
    let pinned = match &project_override {
        Some(id) => pinned_org(&config.cache, id.as_str()),
        None => None,
    };
    let org_id = match pinned {
        Some(id) => id,
        None => match filled_text(&context.organization_id) {
            Some(id) => id,
            None => {
                return Err(ResolveError::NoOrganization);
            },
        },
    };
    let project_id = match project_override {
        Some(id) => id,
        None => match filled_text(&context.project_id) {
            Some(id) => id,
            None => {
                return Err(ResolveError::NoProject);
            },
        },
    };
    let profile = UserProfile {
        user_id: text_or(&session.user_key, ""),
        email: text_or(&session.user_email, ""),
        first_name: copy_opt(&session.user_name),
        last_name: None,
        avatar_url: None,
        registration_approval: None,
    };
    proof {
        reveal_strlit("");
        assert(""@ =~= Seq::<char>::empty());
    }
    Ok(
        ResolvedSession {
            session_name: session.name.clone(),
            api_url: trim_end_matches(session.endpoint.server.as_str(), '/'),
            profile,
            selected_context: selected_context(&config.cache, org_id, project_id),
        },
    )
}

proof fn lemma_place_of(texts: Seq<Seq<char>>, s: Seq<char>)
    ensures
        0 <= place_of(texts, s) <= texts.len(),
        place_of(texts, s) < texts.len() ==> texts[place_of(texts, s)] == s,
    decreases texts.len(),
{
    if texts.len() > 0 && texts[0] != s {
        lemma_place_of(texts.drop_first(), s);
    }
}

impl ResolveError {
    /// The text for users.
    pub fn message(&self) -> (r: String)
        ensures
            r@ == problem_text(self@),
    {
        match self {
            ResolveError::NoCurrentContext => {
                "No current context set in datumctl. Run `datumctl project switch` to pick one.".to_owned()
            },
            ResolveError::UnknownContext(name) => cat3(
                "datumctl current-context '",
                name.as_str(),
                "' not present in contexts list. Re-run `datumctl project switch`.",
            ),
            ResolveError::NoSession => {
                "datumctl current context is not bound to a session. Run `datumctl auth login`.".to_owned()
            },
            ResolveError::UnknownSession(name) => cat3(
                "datumctl session '",
                name.as_str(),
                "' is referenced but missing. Re-run `datumctl auth login`.",
            ),
            ResolveError::NoOrganization => {
                "Selected context has no organization. Use `datumctl project switch` to pick a project.".to_owned()
            },
            ResolveError::NoProject => {
                "Selected context has no project. Use `datumctl project switch` to pick one, or pass `--project`.".to_owned()
            },
        }
    }
}

/// The text of a reason for users.
pub open spec fn problem_text(p: ResolveProblem) -> Seq<char> {
    match p {
        ResolveProblem::NoCurrentContext => {
            "No current context set in datumctl. Run `datumctl project switch` to pick one."@
        },
        ResolveProblem::UnknownContext(name) => "datumctl current-context '"@ + name
            + "' not present in contexts list. Re-run `datumctl project switch`."@,
        ResolveProblem::NoSession => {
            "datumctl current context is not bound to a session. Run `datumctl auth login`."@
        },
        ResolveProblem::UnknownSession(name) => "datumctl session '"@ + name
            + "' is referenced but missing. Re-run `datumctl auth login`."@,
        ResolveProblem::NoOrganization => {
            "Selected context has no organization. Use `datumctl project switch` to pick a project."@
        },
        ResolveProblem::NoProject => {
            "Selected context has no project. Use `datumctl project switch` to pick one, or pass `--project`."@
        },
    }
}

/// A pinned project is the project of the session, whatever the context says, and the organization
/// is the one under which the cache has it.
pub proof fn law_pinned_project(config: DatumctlConfig, project: String)
    ensures
        resolved(config, Some(project)) matches Ok(s) ==> s.project_id == project@ && (cached_org(
            config.cache,
            project@,
        ) matches Some(org) ==> s.org_id == org),
        resolved(config, Some(project)) != Err::<ResolvedView, ResolveProblem>(
            ResolveProblem::NoProject,
        ),
        resolved(config, None) is Ok ==> resolved(config, Some(project)) is Ok,
{
}

// Access tokens.

/// The arguments with which `datumctl` prints an access token.
pub open spec fn token_command(session: Option<Seq<char>>) -> Seq<Seq<char>> {
    match session {
        Some(name) => seq!["auth"@, "get-token"@, "--session"@, name],
        None => seq!["auth"@, "get-token"@],
    }
}

/// The arguments with which `datumctl` prints an access token, of the given session or the active
/// one.
pub fn token_args(session_name: &Option<String>) -> (r: Vec<String>)
    ensures
        views(r@) == token_command(opt_view(*session_name)),
{
    let mut args: Vec<String> = Vec::new();
    args.push("auth".to_owned());
    args.push("get-token".to_owned());
    if let Some(name) = session_name {
        args.push("--session".to_owned());
        args.push(name.clone());
    }
    assert(views(args@) =~= token_command(opt_view(*session_name)));
    args
}

/// Why `datumctl` gave no token.
#[derive(Debug, Clone)]
pub enum TokenError {
    /// It failed without saying why; the status with which it ended.
    ExitStatus(String),
    /// It failed, with this message.
    Failed(String),
    /// What it printed is no text.
    NotUtf8,
    /// It printed nothing.
    Empty,
}

/// The token in what `datumctl` printed. `stdout` is none if it is no text.
pub fn token_from_output(
    success: bool,
    status: &str,
    stdout: &Option<String>,
    stderr: &str,
) -> (r: Result<String, TokenError>)
    ensures
        match r {
            Ok(t) => success && stdout is Some && t@ == trimmed(stdout->0@) && t@.len() > 0,
            Err(TokenError::ExitStatus(s)) => !success && trimmed(stderr@).len() == 0 && s@
                == status@,
            Err(TokenError::Failed(m)) => !success && trimmed(stderr@).len() > 0 && m@ == trimmed(
                stderr@,
            ),
            Err(TokenError::NotUtf8) => success && stdout is None,
            Err(TokenError::Empty) => success && stdout is Some && trimmed(stdout->0@).len() == 0,
        },
{
    if !success {
        let message = trim(stderr);
        if message.as_str().is_empty() {
            return Err(TokenError::ExitStatus(status.to_owned()));
        }
        return Err(TokenError::Failed(message));
    }
    match stdout {
        None => Err(TokenError::NotUtf8),
        Some(s) => {
            let token = trim(s.as_str());
            if token.as_str().is_empty() {
                Err(TokenError::Empty)
            } else {
                Ok(token)
            }
        },
    }
}

impl TokenError {
    /// The text for users.
    pub fn message(&self) -> (r: String)
        ensures
            r@ == match *self {
                TokenError::ExitStatus(s) => "datumctl auth get-token exited with status "@ + s@
                    + ". Try `datumctl auth login`."@,
                TokenError::Failed(m) => "datumctl auth get-token failed: "@ + m@,
                TokenError::NotUtf8 => "datumctl returned non-UTF8 token output"@,
                TokenError::Empty => "datumctl returned an empty access token"@,
            },
    {
        match self {
            TokenError::ExitStatus(s) => cat3(
                "datumctl auth get-token exited with status ",
                s.as_str(),
                ". Try `datumctl auth login`.",
            ),
            TokenError::Failed(m) => crate::text::cat("datumctl auth get-token failed: ", m.as_str()),
            TokenError::NotUtf8 => "datumctl returned non-UTF8 token output".to_owned(),
            TokenError::Empty => "datumctl returned an empty access token".to_owned(),
        }
    }
}

/// Why a token has no subject.
#[derive(Debug, Clone, Copy, PartialEq, Eq, Structural)]
pub enum JwtError {
    /// The number of dot-separated segments is not three.
    Segments(usize),
    /// The payload is no URL-safe base64.
    Base64,
    /// The payload is no JSON document.
    Json,
    /// The payload has no subject, or one that is no text.
    NoSubject,
}

/// The subject in a decoded payload, given what was found under the key of the subject.
pub open spec fn subject_claim(found: Option<Option<Seq<char>>>) -> Result<Seq<char>, JwtError> {
    match found {
        None => Err(JwtError::Json),
        Some(None) => Err(JwtError::NoSubject),
        Some(Some(sub)) => Ok(sub),
    }
}

/// The subject of a token. A payload that is too long to be decoded has none.
pub open spec fn subject(token: Seq<char>) -> Result<Seq<char>, JwtError> {
    let parts = split(token, '.');
    if parts.len() != 3 {
        Err(JwtError::Segments(parts.len() as usize))
    } else {
        match base64url_bytes(parts[1]) {
            Some(bytes) if is_decodable(parts[1]) => subject_claim(document_text(bytes, "sub"@)),
            _ => Err(JwtError::Base64),
        }
    }
}

pub open spec fn subject_view(r: Result<String, JwtError>) -> Result<Seq<char>, JwtError> {
    match r {
        Ok(s) => Ok(s@),
        Err(e) => Err(e),
    }
}

/// The subject in a decoded payload, given what was found under the key of the subject.
pub fn subject_from_claim(found: Option<Option<String>>) -> (r: Result<String, JwtError>)
    ensures
        subject_view(r) == subject_claim(lookup_view(found)),
{
    match found {
        None => Err(JwtError::Json),
        Some(None) => Err(JwtError::NoSubject),
        Some(Some(sub)) => Ok(sub),
    }
}

/// The payload of a token: the middle one of its three segments.
pub fn jwt_payload(token: &str) -> (r: Result<String, JwtError>)
    ensures
        ({
            let parts = split(token@, '.');
            match r {
                Ok(p) => parts.len() == 3 && p@ == parts[1],
                Err(e) => parts.len() != 3 && e == JwtError::Segments(parts.len() as usize),
            }
        }),
{
    let parts = split_at_char(token, '.');
    assert(views(parts@).len() == parts@.len());
    if parts.len() != 3 {
        return Err(JwtError::Segments(parts.len()));
    }
    assert(views(parts@)[1] == parts@[1]@);
    Ok(parts[1].clone())
}

/// The subject of an access token, without a check of its signature: `datumctl` has made that
/// check, and only the subject is needed, for the paths of the API.
pub fn decode_jwt_sub(token: &str) -> (r: Result<String, JwtError>)
    ensures
        subject_view(r) == subject(token@),
{
    let payload = match jwt_payload(token) {
        Ok(p) => p,
        Err(e) => {
            return Err(e);
        },
    };
    if payload.as_str().as_bytes().len() > usize::MAX / 8 {
        return Err(JwtError::Base64);
    }
    match decode_base64url(payload.as_str()) {
        None => Err(JwtError::Base64),
        Some(bytes) => subject_from_claim(text_in_document(bytes.as_slice(), "sub")),
    }
}

impl JwtError {
    /// The text for users.
    pub fn message(&self) -> (r: String)
        ensures
            r@ == match *self {
                JwtError::Segments(n) =>
                    "access token is not a JWT (expected 3 dot-separated segments, got "@ + decimal(
                    n as nat,
                ) + ")"@,
                JwtError::Base64 => "Failed to base64url-decode JWT payload"@,
                JwtError::Json => "Failed to parse JWT payload as JSON"@,
                JwtError::NoSubject => "JWT payload is missing `sub` claim"@,
            },
    {
        match *self {
            JwtError::Segments(n) => {
                let count = decimal_of(n as u64);
                cat3(
                    "access token is not a JWT (expected 3 dot-separated segments, got ",
                    count.as_str(),
                    ")",
                )
            },
            JwtError::Base64 => "Failed to base64url-decode JWT payload".to_owned(),
            JwtError::Json => "Failed to parse JWT payload as JSON".to_owned(),
            JwtError::NoSubject => "JWT payload is missing `sub` claim".to_owned(),
        }
    }
}

/// A name is found where it first stands in a row of names.
pub open spec fn first_at(names: Seq<Seq<char>>, name: Seq<char>, i: int) -> bool {
    &&& 0 <= i < names.len()
    &&& names[i] == name
    &&& forall|k: int| 0 <= k < i ==> #[trigger] names[k] != name
}

/// A configuration with a current context that stands in its list, bound to a session that stands
/// in its list, or with that session as the active one, resolves to that session: where its API is,
/// its user, and the organization and project of the context, each under the name that the cache
/// has for it.
pub proof fn law_resolves(config: DatumctlConfig, context: int, session: int)
    requires
        config.current_context is Some,
        first_at(context_names(config.contexts@), config.current_context->0@, context),
        config.current_context->0@.len() > 0,
        ({
            let c = config.contexts@[context];
            let name = if c.session is Some {
                c.session
            } else {
                config.active_session
            };
            &&& name is Some
            &&& name->0@.len() > 0
            &&& first_at(session_names(config.sessions@), name->0@, session)
            &&& c.organization_id is Some && c.organization_id->0@.len() > 0
            &&& c.project_id is Some && c.project_id->0@.len() > 0
        }),
    ensures
        ({
            let c = config.contexts@[context];
            let s = config.sessions@[session];
            resolved(config, None) matches Ok(r) && r.session_name == s.name@ && r.api_url
                == strip_back(s.endpoint.server@, '/') && r.org_id == c.organization_id->0@
                && r.project_id == c.project_id->0@ && (s.user_key is Some ==> r.user_id
                == s.user_key->0@) && (s.user_key is None ==> r.user_id.len() == 0) && (
            s.user_email is Some ==> r.email == s.user_email->0@) && (s.user_email is None
                ==> r.email.len() == 0) && r.first_name == opt_view(s.user_name)
        }),
{
    crate::text::law_place_of(
        context_names(config.contexts@),
        config.current_context->0@,
        context,
    );
    let c = config.contexts@[context];
    let name = if c.session is Some {
        c.session
    } else {
        config.active_session
    };
    crate::text::law_place_of(session_names(config.sessions@), name->0@, session);
}

/// What the cache has of an organization or project is shown: its name and type. What it has not is
/// shown under its identifier, and as personal.
pub proof fn law_cached_names(cache: Cache, id: Seq<char>, i: int)
    ensures
        first_at(org_ids(cache.organizations@), id, i) ==> {
            let o = cache.organizations@[i];
            &&& org_name(cache, id) == (if o.display_name is Some {
                o.display_name->0@
            } else {
                id
            })
            &&& org_type(cache, id) == (if o.org_type is Some {
                o.org_type->0@
            } else {
                "personal"@
            })
        },
        !org_ids(cache.organizations@).contains(id) ==> org_name(cache, id) == id && org_type(
            cache,
            id,
        ) == "personal"@,
        first_at(project_ids(cache.projects@), id, i) ==> {
            let p = cache.projects@[i];
            &&& project_name(cache, id) == (if p.display_name is Some {
                p.display_name->0@
            } else {
                id
            })
            &&& p.org_id is Some && p.org_id->0@.len() > 0 ==> cached_org(cache, id) == Some(
                p.org_id->0@,
            )
        },
        !project_ids(cache.projects@).contains(id) ==> project_name(cache, id) == id && cached_org(
            cache,
            id,
        ) is None,
{
    let orgs = org_ids(cache.organizations@);
    let projects = project_ids(cache.projects@);
    if first_at(orgs, id, i) {
        crate::text::law_place_of(orgs, id, i);
    }
    if !orgs.contains(id) {
        crate::text::law_place_of(orgs, id, orgs.len() as int);
    }
    if first_at(projects, id, i) {
        crate::text::law_place_of(projects, id, i);
    }
    if !projects.contains(id) {
        crate::text::law_place_of(projects, id, projects.len() as int);
    }
}

/// What is missing is told: the current context, its entry, its session, the session's entry, the
/// organization or the project, whichever comes first in this order.
pub proof fn law_unresolved(config: DatumctlConfig, context: int)
    ensures
        config.current_context is None || config.current_context->0@.len() == 0 ==> resolved(
            config,
            None,
        ) == Err::<ResolvedView, ResolveProblem>(ResolveProblem::NoCurrentContext),
        config.current_context is Some && config.current_context->0@.len() > 0 && !context_names(
            config.contexts@,
        ).contains(config.current_context->0@) ==> resolved(config, None) == Err::<
            ResolvedView,
            ResolveProblem,
        >(ResolveProblem::UnknownContext(config.current_context->0@)),
        config.current_context is Some && config.current_context->0@.len() > 0 && first_at(
            context_names(config.contexts@),
            config.current_context->0@,
            context,
        ) ==> {
            let c = config.contexts@[context];
            let name = if c.session is Some {
                c.session
            } else {
                config.active_session
            };
            &&& name is None || name->0@.len() == 0 ==> resolved(config, None) == Err::<
                ResolvedView,
                ResolveProblem,
            >(ResolveProblem::NoSession)
            &&& name is Some && name->0@.len() > 0 && !session_names(config.sessions@).contains(
                name->0@,
            ) ==> resolved(config, None) == Err::<ResolvedView, ResolveProblem>(
                ResolveProblem::UnknownSession(name->0@),
            )
            &&& name is Some && name->0@.len() > 0 && session_names(config.sessions@).contains(
                name->0@,
            ) ==> {
                &&& c.organization_id is None || c.organization_id->0@.len() == 0 ==> resolved(
                    config,
                    None,
                ) == Err::<ResolvedView, ResolveProblem>(ResolveProblem::NoOrganization)
                &&& c.organization_id is Some && c.organization_id->0@.len() > 0 && (c.project_id
                    is None || c.project_id->0@.len() == 0) ==> resolved(config, None) == Err::<
                    ResolvedView,
                    ResolveProblem,
                >(ResolveProblem::NoProject)
            }
        },
{
    if config.current_context is Some && config.current_context->0@.len() > 0 {
        let names = context_names(config.contexts@);
        let name = config.current_context->0@;
        if !names.contains(name) {
            crate::text::law_place_of(names, name, names.len() as int);
        }
        if first_at(names, name, context) {
            crate::text::law_place_of(names, name, context);
            let c = config.contexts@[context];
            let session = if c.session is Some {
                c.session
            } else {
                config.active_session
            };
            if session is Some {
                let all = session_names(config.sessions@);
                if !all.contains(session->0@) {
                    crate::text::law_place_of(all, session->0@, all.len() as int);
                } else {
                    let k = choose|k: int| 0 <= k < all.len() && all[k] == session->0@;
                    lemma_found(all, session->0@, k);
                }
            }
        }
    }
}

proof fn lemma_found(texts: Seq<Seq<char>>, s: Seq<char>, k: int)
    requires
        0 <= k < texts.len(),
        texts[k] == s,
    ensures
        0 <= place_of(texts, s) < texts.len(),
    decreases texts.len(),
{
    if texts[0] != s {
        assert(texts.drop_first()[k - 1] == s);
        lemma_found(texts.drop_first(), s, k - 1);
    }
}

/// A pinned project that the cache does not know is taken in the organization of the context.
pub proof fn law_pinned_unknown(config: DatumctlConfig, project: String, context: int)
    requires
        !project_ids(config.cache.projects@).contains(project@),
        resolved(config, Some(project)) is Ok,
        config.current_context is Some,
        first_at(context_names(config.contexts@), config.current_context->0@, context),
    ensures
        config.contexts@[context].organization_id is Some,
        resolved(config, Some(project))->Ok_0.org_id
            == config.contexts@[context].organization_id->0@,
        resolved(config, Some(project))->Ok_0.project_name == project@,
{
    crate::text::law_place_of(
        context_names(config.contexts@),
        config.current_context->0@,
        context,
    );
    law_cached_names(config.cache, project@, 0);
}

/// The token of a session is asked for by its name, that of the active session without one.
pub proof fn law_token_command(name: Seq<char>)
    ensures
        token_command(Some(name)).take(2) == token_command(None),
        token_command(None) == seq!["auth"@, "get-token"@],
        token_command(Some(name)).skip(2) == seq!["--session"@, name],
{
    assert(token_command(Some(name)).take(2) =~= token_command(None));
    assert(token_command(Some(name)).skip(2) =~= seq!["--session"@, name]);
}

/// The subject of a token is the one in its middle segment; a text that has not three segments is
/// no token, and the number of its segments is told.
pub proof fn law_subject(head: Seq<char>, payload: Seq<char>, tail: Seq<char>, bytes: Seq<u8>)
    requires
        !head.contains('.'),
        !payload.contains('.'),
        !tail.contains('.'),
    ensures
        ({
            let token = head + seq!['.'] + (payload + seq!['.'] + tail);
            &&& base64url_bytes(payload) == Some(bytes) && is_decodable(payload) ==> (
            match document_text(bytes, "sub"@) {
                Some(Some(sub)) => subject(token) == Ok::<Seq<char>, JwtError>(sub),
                Some(None) => subject(token) == Err::<Seq<char>, JwtError>(JwtError::NoSubject),
                None => subject(token) == Err::<Seq<char>, JwtError>(JwtError::Json),
            })
            &&& base64url_bytes(payload) is None ==> subject(token) == Err::<Seq<char>, JwtError>(
                JwtError::Base64,
            )
        }),
        subject(head) == Err::<Seq<char>, JwtError>(JwtError::Segments(1)),
        subject(head + seq!['.'] + tail) == Err::<Seq<char>, JwtError>(JwtError::Segments(2)),
        subject(head + seq!['.'] + (payload + seq!['.'] + (tail + seq!['.'] + head))) == Err::<
            Seq<char>,
            JwtError,
        >(JwtError::Segments(4)),
{
    crate::text::lemma_split_none(head, '.');
    crate::text::lemma_split_none(tail, '.');
    crate::text::law_split(head, '.', payload + seq!['.'] + tail);
    crate::text::law_split(payload, '.', tail);
    crate::text::law_split(head, '.', tail);
    crate::text::law_split(tail, '.', head);
    crate::text::law_split(payload, '.', tail + seq!['.'] + head);
    crate::text::law_split(head, '.', payload + seq!['.'] + (tail + seq!['.'] + head));
}

/// Each reason says what is missing and what to run.
pub proof fn law_problem_texts(name: Seq<char>)
    ensures
        problem_text(ResolveProblem::NoCurrentContext)
            == "No current context set in datumctl. Run `datumctl project switch` to pick one."@,
        problem_text(ResolveProblem::UnknownContext(name)) == "datumctl current-context '"@ + name
            + "' not present in contexts list. Re-run `datumctl project switch`."@,
        problem_text(ResolveProblem::NoSession)
            == "datumctl current context is not bound to a session. Run `datumctl auth login`."@,
        problem_text(ResolveProblem::UnknownSession(name)) == "datumctl session '"@ + name
            + "' is referenced but missing. Re-run `datumctl auth login`."@,
        problem_text(ResolveProblem::NoOrganization)
            == "Selected context has no organization. Use `datumctl project switch` to pick a project."@,
        problem_text(ResolveProblem::NoProject)
            == "Selected context has no project. Use `datumctl project switch` to pick one, or pass `--project`."@,
{
}

} // verus!
