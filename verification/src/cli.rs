//! The command line: what its commands print, and which project they select.
use crate::agent::{agent_base, login_state_name, state_name, AgentInfo, AgentStatus, TunnelView};
use crate::datum_cloud::auth::{login_state_for, MaybeAuth, NEEDS_REFRESH_WHEN};
use crate::datum_cloud::organizations::{
    list_views, OrgProjectsView, OrganizationWithProjects, Project, ProjectView,
};
use crate::rows::{lemma_picks_all, lemma_picks_next, lemma_picks_none, picked_at, picks};
use crate::state::{ProxyState, SelectedContext};
use crate::text::{cat, cat3, cat4, cat5, decimal, decimal_of, join, join_with, same, views};
use crate::times::is_time;
use vstd::prelude::*;

verus! {

/// The text of an endpoint's identifier in z-base-32.
pub uninterp spec fn z32_text(bytes: Seq<u8>) -> Seq<char>;

/// Calls `z32::encode`. The claim is that the text is a function of the bytes alone, here named
/// `z32_text`.
#[verifier::external_body]
fn encode_z32(bytes: &[u8; 32]) -> (r: String)
    ensures
        r@ == z32_text(bytes@),
{
    z32::encode(bytes)
}

pub const NO_PROJECT: &'static str =
    "No project selected. Run `datum-connect context set --project <id>`.";

pub const NOT_LOGGED_IN: &'static str = "Not logged in. Run `datum-connect login`.";

/// The agent as the status shows it.
#[derive(Debug, Clone)]
pub struct AgentStatusOutput {
    pub running: bool,
    pub pid: Option<u32>,
    pub port: Option<u16>,
    pub endpoint_id: Option<String>,
}

impl AgentStatusOutput {
    /// An agent that answered.
    pub fn from_running(status: AgentStatus) -> (r: AgentStatusOutput)
        ensures
            r == (AgentStatusOutput {
                running: true,
                pid: Some(status.pid),
                port: Some(status.port),
                endpoint_id: Some(status.endpoint_id),
            }),
    {
        AgentStatusOutput {
            running: true,
            pid: Some(status.pid),
            port: Some(status.port),
            endpoint_id: Some(status.endpoint_id),
        }
    }

    /// The agent that runs by its file, if there is one.
    pub fn from_info(info: Option<AgentInfo>) -> (r: AgentStatusOutput)
        ensures
            r == (match info {
                Some(i) => AgentStatusOutput {
                    running: true,
                    pid: Some(i.pid),
                    port: Some(i.port),
                    endpoint_id: Some(i.endpoint_id),
                },
                None => AgentStatusOutput {
                    running: false,
                    pid: None,
                    port: None,
                    endpoint_id: None,
                },
            }),
    {
        match info {
            Some(i) => AgentStatusOutput {
                running: true,
                pid: Some(i.pid),
                port: Some(i.port),
                endpoint_id: Some(i.endpoint_id),
            },
            None => AgentStatusOutput { running: false, pid: None, port: None, endpoint_id: None },
        }
    }
}

/// What the status shows: the user, the selected project and the agent.
#[derive(Debug, Clone)]
pub struct StatusOutput {
    pub logged_in: bool,
    pub login_state: String,
    pub email: Option<String>,
    pub user_id: Option<String>,
    pub context: Option<SelectedContext>,
    pub agent: AgentStatusOutput,
}

/// What the status shows.
pub fn collect_status(
    auth: &MaybeAuth,
    context: Option<SelectedContext>,
    agent: AgentStatusOutput,
    now: i128,
) -> (r: StatusOutput)
    requires
        auth.wf(),
        is_time(now as int),
        auth.0 is Some ==> is_time(now + NEEDS_REFRESH_WHEN),
    ensures
        r.logged_in == (auth.0 is Some),
        r.login_state@ == state_name(auth.state(now as int)),
        r.email == (match auth.0 {
            Some(s) => Some(s.profile.email),
            None => None,
        }),
        r.user_id == (match auth.0 {
            Some(s) => Some(s.profile.user_id),
            None => None,
        }),
        r.context == context,
        r.agent == agent,
{
    let (email, user_id) = match &auth.0 {
        Some(s) => (Some(s.profile.email.clone()), Some(s.profile.user_id.clone())),
        None => (None, None),
    };
    StatusOutput {
        logged_in: !auth.is_none(),
        login_state: login_state_name(login_state_for(auth, now)).to_owned(),
        email,
        user_id,
        context,
        agent,
    }
}

/// The line on the user.
pub open spec fn user_line(s: StatusOutput) -> Seq<char> {
    match s.email {
        Some(email) => "Logged in as "@ + email@ + " ("@ + s.login_state@ + ")"@,
        None => NOT_LOGGED_IN@,
    }
}

/// The line on the selected project.
pub open spec fn project_line(s: StatusOutput) -> Seq<char> {
    match s.context {
        Some(c) => "Project: "@ + c.org_name@ + " / "@ + c.project_name@,
        None => NO_PROJECT@,
    }
}

/// The line on the agent.
pub open spec fn agent_line(s: AgentStatusOutput) -> Seq<char> {
    if s.running {
        "Agent: running (pid "@ + decimal(
            (match s.pid {
                Some(p) => p,
                None => 0,
            }) as nat,
        ) + ", endpoint "@ + (match s.endpoint_id {
            Some(e) => e@,
            None => "-"@,
        }) + ")"@
    } else {
        "Agent: not running. Run `datum-connect agent start`."@
    }
}

/// The lines of the status.
pub fn status_lines(s: &StatusOutput) -> (r: Vec<String>)
    ensures
        views(r@) == seq![user_line(*s), project_line(*s), agent_line(s.agent)],
{
    let user = match &s.email {
        Some(email) => cat5("Logged in as ", email.as_str(), " (", s.login_state.as_str(), ")"),
        None => NOT_LOGGED_IN.to_owned(),
    };
    let project = match &s.context {
        Some(c) => cat4("Project: ", c.org_name.as_str(), " / ", c.project_name.as_str()),
        None => NO_PROJECT.to_owned(),
    };
    let agent = if s.agent.running {
        let pid: u32 = match s.agent.pid {
            Some(p) => p,
            None => 0,
        };
        let pid = decimal_of(pid as u64);
        let endpoint = match &s.agent.endpoint_id {
            Some(e) => e.clone(),
            None => "-".to_owned(),
        };
        cat5("Agent: running (pid ", pid.as_str(), ", endpoint ", endpoint.as_str(), ")")
    } else {
        "Agent: not running. Run `datum-connect agent start`.".to_owned()
    };
    let mut out: Vec<String> = Vec::new();
    out.push(user);
    out.push(project);
    out.push(agent);
    assert(views(out@) =~= seq![user_line(*s), project_line(*s), agent_line(s.agent)]);
    out
}

/// The line after a login.
pub fn login_line(email: &str) -> (r: String)
    ensures
        r@ == "Logged in as "@ + email@,
{
    cat("Logged in as ", email)
}

/// Whether a command may go on: it needs a session.
pub fn require_logged_in(auth: &MaybeAuth) -> (r: Result<(), String>)
    ensures
        match r {
            Ok(_) => auth.0 is Some,
            Err(m) => auth.0 is None && m@ == NOT_LOGGED_IN@,
        },
{
    if auth.is_none() {
        Err(NOT_LOGGED_IN.to_owned())
    } else {
        Ok(())
    }
}

// Contexts.

/// The lines that show the selected context.
pub open spec fn context_text(selected: Option<SelectedContext>) -> Seq<Seq<char>> {
    match selected {
        Some(c) => seq![
            c.org_name@ + " / "@ + c.project_name@,
            "  org:     "@ + c.org_id@,
            "  project: "@ + c.project_id@,
        ],
        None => seq![NO_PROJECT@],
    }
}

pub fn context_show(selected: &Option<SelectedContext>) -> (r: Vec<String>)
    ensures
        views(r@) == context_text(*selected),
{
    let mut out: Vec<String> = Vec::new();
    match selected {
        Some(c) => {
            out.push(cat3(c.org_name.as_str(), " / ", c.project_name.as_str()));
            out.push(cat("  org:     ", c.org_id.as_str()));
            out.push(cat("  project: ", c.project_id.as_str()));
        },
        None => {
            out.push(NO_PROJECT.to_owned());
        },
    }
    assert(views(out@) =~= context_text(*selected));
    out
}

/// The line of a project; the selected one is marked.
pub open spec fn listed_project(p: ProjectView, selected: Option<Seq<char>>) -> Seq<char> {
    " "@ + (if selected == Some(p.resource_id) {
        "*"@
    } else {
        " "@
    }) + " "@ + p.display_name + " ("@ + p.resource_id + ")"@
}

/// The lines of an organization and its projects.
pub open spec fn listed_org(o: OrgProjectsView, selected: Option<Seq<char>>) -> Seq<Seq<char>> {
    let head = o.org.display_name + " ("@ + o.org.resource_id + ")"@;
    if o.projects.len() == 0 {
        seq![head, "  (no projects)"@]
    } else {
        seq![head] + Seq::new(
            o.projects.len(),
            |i: int| listed_project(o.projects[i], selected),
        )
    }
}

/// The lines of the organizations from the first on.
pub open spec fn listed_orgs(list: Seq<OrgProjectsView>, selected: Option<Seq<char>>) -> Seq<
    Seq<char>,
>
    decreases list.len(),
{
    if list.len() == 0 {
        Seq::empty()
    } else {
        listed_orgs(list.drop_last(), selected) + listed_org(list.last(), selected)
    }
}

/// The identifier of the selected project.
pub open spec fn selected_id(selected: Option<SelectedContext>) -> Option<Seq<char>> {
    match selected {
        Some(c) => Some(c.project_id@),
        None => None,
    }
}

fn project_row(p: &Project, selected: &Option<SelectedContext>) -> (r: String)
    ensures
        r@ == listed_project(p@, selected_id(*selected)),
{
    let is_selected = match selected {
        Some(c) => same(c.project_id.as_str(), p.resource_id.as_str()),
        None => false,
    };
    let marker = if is_selected {
        "*"
    } else {
        " "
    };
    let front = cat3(" ", marker, " ");
    cat5(front.as_str(), p.display_name.as_str(), " (", p.resource_id.as_str(), ")")
}

fn push_org(out: &mut Vec<String>, o: &OrganizationWithProjects, selected: &Option<SelectedContext>)
    ensures
        views(final(out)@) == views(old(out)@) + listed_org(o@, selected_id(*selected)),
{
    let ghost start = views(out@);
    let ghost sel = selected_id(*selected);
    let ghost head = o@.org.display_name + " ("@ + o@.org.resource_id + ")"@;
    out.push(cat4(o.org.display_name.as_str(), " (", o.org.resource_id.as_str(), ")"));
    assert(views(out@) =~= start.push(head));
    if o.projects.len() == 0 {
        out.push("  (no projects)".to_owned());
        assert(views(out@) =~= start + seq![head, "  (no projects)"@]);
        return ;
    }
    let ghost rows = Seq::new(
        o@.projects.len(),
        |i: int| listed_project(o@.projects[i], sel),
    );
    let mut i: usize = 0;
    assert(rows.take(0) =~= Seq::<Seq<char>>::empty());
    while i < o.projects.len()
        invariant
            i <= o.projects@.len(),
            sel == selected_id(*selected),
            rows == Seq::new(o@.projects.len(), |i: int| listed_project(o@.projects[i], sel)),
            views(out@) =~= start.push(head) + rows.take(i as int),
        decreases o.projects@.len() - i,
    {
        let ghost before = views(out@);
        let row = project_row(&o.projects[i], selected);
        assert(row@ == rows[i as int]);
        out.push(row);
        assert(views(out@) =~= before.push(row@));
        i += 1;
    }
    assert(rows.take(rows.len() as int) =~= rows);
    assert(views(out@) =~= start + (seq![head] + rows));
}

/// The lines that list the organizations and their projects.
pub fn context_list(
    orgs: &Vec<OrganizationWithProjects>,
    selected: &Option<SelectedContext>,
) -> (r: Vec<String>)
    ensures
        views(r@) == (if orgs@.len() == 0 {
            seq!["No organizations found."@]
        } else {
            listed_orgs(list_views(orgs@), selected_id(*selected))
        }),
{
    let mut out: Vec<String> = Vec::new();
    if orgs.len() == 0 {
        out.push("No organizations found.".to_owned());
        assert(views(out@) =~= seq!["No organizations found."@]);
        return out;
    }
    let ghost all = list_views(orgs@);
    let ghost sel = selected_id(*selected);
    let mut i: usize = 0;
    assert(all.take(0) =~= Seq::<OrgProjectsView>::empty());
    assert(views(out@) =~= Seq::<Seq<char>>::empty());
    while i < orgs.len()
        invariant
            i <= orgs@.len(),
            all == list_views(orgs@),
            sel == selected_id(*selected),
            views(out@) == listed_orgs(all.take(i as int), sel),
        decreases orgs@.len() - i,
    {
        let ghost upto = all.take(i + 1);
        assert(upto.drop_last() =~= all.take(i as int));
        assert(upto.last() == orgs@[i as int]@);
        push_org(&mut out, &orgs[i], selected);
        i += 1;
    }
    assert(all.take(all.len() as int) =~= all);
    out
}

/// Why no context can be selected.
#[derive(Debug, Clone, Copy, PartialEq, Eq, Structural)]
pub enum ContextError {
    /// No project has the identifier or name.
    NotFound,
    /// Several projects have the name.
    Ambiguous,
}

/// The organization is the one asked for, by its identifier or name; without one any is.
pub open spec fn org_fits(o: OrgProjectsView, org: Option<Seq<char>>) -> bool {
    match org {
        Some(s) => o.org.resource_id == s || o.org.display_name == s,
        None => true,
    }
}

/// The project is the one asked for, by its identifier or name.
pub open spec fn project_fits(p: ProjectView, project: Seq<char>) -> bool {
    p.resource_id == project || p.display_name == project
}

/// The projects of an organization that fit, up to a place.
pub open spec fn fitting_projects(
    o: OrgProjectsView,
    project: Seq<char>,
    n: nat,
) -> Seq<(OrgProjectsView, ProjectView)>
    decreases n,
{
    if n == 0 || n > o.projects.len() {
        Seq::empty()
    } else {
        let before = fitting_projects(o, project, (n - 1) as nat);
        if project_fits(o.projects[n - 1], project) {
            before.push((o, o.projects[n - 1]))
        } else {
            before
        }
    }
}

/// The projects that fit, with their organizations.
pub open spec fn fitting(
    list: Seq<OrgProjectsView>,
    project: Seq<char>,
    org: Option<Seq<char>>,
) -> Seq<(OrgProjectsView, ProjectView)>
    decreases list.len(),
{
    if list.len() == 0 {
        Seq::empty()
    } else {
        let before = fitting(list.drop_last(), project, org);
        if org_fits(list.last(), org) {
            before + fitting_projects(list.last(), project, list.last().projects.len())
        } else {
            before
        }
    }
}

/// The places of the projects that fit.
fn collect_fitting(
    orgs: &Vec<OrganizationWithProjects>,
    project: &str,
    org: Option<&str>,
) -> (r: Vec<(usize, usize)>)
    ensures
        ({
            let found = fitting(list_views(orgs@), project@, text_view(org));
            &&& r@.len() == found.len()
            &&& forall|i: int|
                0 <= i < r@.len() ==> {
                    &&& (#[trigger] r@[i]).0 < orgs@.len()
                    &&& r@[i].1 < orgs@[r@[i].0 as int].projects@.len()
                    &&& found[i] == (
                        orgs@[r@[i].0 as int]@,
                        orgs@[r@[i].0 as int].projects@[r@[i].1 as int]@,
                    )
                }
        }),
{
    let ghost all = list_views(orgs@);
    let ghost want = text_view(org);
    let mut out: Vec<(usize, usize)> = Vec::new();
    let mut i: usize = 0;
    assert(all.take(0) =~= Seq::<OrgProjectsView>::empty());
    while i < orgs.len()
        invariant
            i <= orgs@.len(),
            all == list_views(orgs@),
            want == text_view(org),
            out@.len() == fitting(all.take(i as int), project@, want).len(),
            forall|j: int|
                0 <= j < out@.len() ==> {
                    &&& (#[trigger] out@[j]).0 < orgs@.len()
                    &&& out@[j].1 < orgs@[out@[j].0 as int].projects@.len()
                    &&& fitting(all.take(i as int), project@, want)[j] == (
                        orgs@[out@[j].0 as int]@,
                        orgs@[out@[j].0 as int].projects@[out@[j].1 as int]@,
                    )
                },
        decreases orgs@.len() - i,
    {
        let ghost upto = all.take(i + 1);
        assert(upto.drop_last() =~= all.take(i as int));
        assert(upto.last() == orgs@[i as int]@);
        let ghost before = fitting(all.take(i as int), project@, want);
        let o = &orgs[i];
        let fits = match org {
            Some(s) => same(o.org.resource_id.as_str(), s) || same(o.org.display_name.as_str(), s),
            None => true,
        };
        if fits {
            let mut k: usize = 0;
            assert(before + fitting_projects(o@, project@, 0) =~= before);
            while k < o.projects.len()
                invariant
                    i < orgs@.len(),
                    *o == orgs@[i as int],
                    k <= o.projects@.len(),
                    out@.len() == (before + fitting_projects(o@, project@, k as nat)).len(),
                    forall|j: int|
                        0 <= j < out@.len() ==> {
                            &&& (#[trigger] out@[j]).0 < orgs@.len()
                            &&& out@[j].1 < orgs@[out@[j].0 as int].projects@.len()
                            &&& (before + fitting_projects(o@, project@, k as nat))[j] == (
                                orgs@[out@[j].0 as int]@,
                                orgs@[out@[j].0 as int].projects@[out@[j].1 as int]@,
                            )
                        },
                decreases o.projects@.len() - k,
            {
                let p = &o.projects[k];
                let ghost had = before + fitting_projects(o@, project@, k as nat);
                let ghost has = before + fitting_projects(o@, project@, (k + 1) as nat);
                assert(o@.projects[k as int] == p@);
                if same(p.resource_id.as_str(), project) || same(p.display_name.as_str(), project) {
                    out.push((i, k));
                    assert(has =~= had.push((o@, p@)));
                } else {
                    assert(has =~= had);
                }
                k += 1;
            }
        }
        i += 1;
    }
    assert(all.take(all.len() as int) =~= all);
    out
}

/// The text of a reference that may be missing.
pub open spec fn text_view(o: Option<&str>) -> Option<Seq<char>> {
    match o {
        Some(s) => Some(s@),
        None => None,
    }
}

/// The context of the only project that fits, by identifier or name, within the organization if
/// one is given.
pub fn resolve_selected_context(
    orgs: &Vec<OrganizationWithProjects>,
    project: &str,
    org: Option<&str>,
) -> (r: Result<SelectedContext, ContextError>)
    ensures
        ({
            let found = fitting(list_views(orgs@), project@, text_view(org));
            match r {
                Ok(c) => {
                    &&& found.len() == 1
                    &&& c.org_id@ == found[0].0.org.resource_id
                    &&& c.org_name@ == found[0].0.org.display_name
                    &&& c.org_type@ == found[0].0.org.org_type
                    &&& c.project_id@ == found[0].1.resource_id
                    &&& c.project_name@ == found[0].1.display_name
                },
                Err(ContextError::NotFound) => found.len() == 0,
                Err(ContextError::Ambiguous) => found.len() > 1,
            }
        }),
{
    let places = collect_fitting(orgs, project, org);
    if places.len() == 0 {
        return Err(ContextError::NotFound);
    }
    if places.len() > 1 {
        return Err(ContextError::Ambiguous);
    }
    let (i, k) = places[0];
    let o = &orgs[i].org;
    let p = &orgs[i].projects[k];
    Ok(
        SelectedContext {
            org_id: o.resource_id.clone(),
            org_name: o.display_name.clone(),
            project_id: p.resource_id.clone(),
            project_name: p.display_name.clone(),
            org_type: o.org_type.clone(),
        },
    )
}

proof fn lemma_fitting_projects(o: OrgProjectsView, project: Seq<char>, n: nat, k: int)
    requires
        n <= o.projects.len(),
        0 <= k < fitting_projects(o, project, n).len(),
    ensures
        ({
            let f = fitting_projects(o, project, n)[k];
            f.0 == o && o.projects.contains(f.1) && project_fits(f.1, project)
        }),
    decreases n,
{
    let all = fitting_projects(o, project, n);
    let before = fitting_projects(o, project, (n - 1) as nat);
    if k < before.len() {
        assert(all[k] == before[k]);
        lemma_fitting_projects(o, project, (n - 1) as nat, k);
    } else {
        assert(o.projects[n - 1] == all[k].1);
    }
}

/// A project that is selected is one of the list, so that the selection is valid until the list
/// changes.
pub proof fn law_fitting_is_listed(
    list: Seq<OrgProjectsView>,
    project: Seq<char>,
    org: Option<Seq<char>>,
    k: int,
)
    requires
        0 <= k < fitting(list, project, org).len(),
    ensures
        ({
            let f = fitting(list, project, org)[k];
            &&& project_fits(f.1, project)
            &&& org_fits(f.0, org)
            &&& crate::datum_cloud::organizations::is_listed(
                list,
                f.0.org.resource_id,
                f.1.resource_id,
            )
        }),
    decreases list.len(),
{
    let all = fitting(list, project, org);
    let before = fitting(list.drop_last(), project, org);
    let o = list.last();
    let f = all[k];
    if k < before.len() {
        assert(f == before[k]);
        law_fitting_is_listed(list.drop_last(), project, org, k);
        let (i, j) = choose|i: int, j: int|
            0 <= i < list.drop_last().len() && 0 <= j < list.drop_last()[i].projects.len()
                && list.drop_last()[i].org.resource_id == f.0.org.resource_id && (
            #[trigger] list.drop_last()[i].projects[j]).resource_id == f.1.resource_id;
        assert(list[i] == list.drop_last()[i]);
        assert(list[i].projects[j].resource_id == f.1.resource_id);
    } else {
        lemma_fitting_projects(o, project, o.projects.len(), k - before.len());
        let j = choose|j: int| 0 <= j < o.projects.len() && o.projects[j] == f.1;
        assert(list[list.len() - 1].projects[j].resource_id == f.1.resource_id);
    }
}

/// The line after a context was selected.
pub fn context_set_line(c: &SelectedContext) -> (r: String)
    ensures
        r@ == "Selected "@ + c.org_name@ + " / "@ + c.project_name@,
{
    cat4("Selected ", c.org_name.as_str(), " / ", c.project_name.as_str())
}

// The agent.

/// The line on whether the agent runs.
pub fn agent_status_line(info: &Option<AgentInfo>) -> (r: String)
    ensures
        r@ == match *info {
            Some(i) => "Agent running (pid "@ + decimal(i.pid as nat) + ", endpoint "@
                + i.endpoint_id@ + ", control "@ + agent_base(i.port) + ")"@,
            None => "Agent is not running."@,
        },
{
    match info {
        Some(i) => {
            let pid = decimal_of(i.pid as u64);
            let port = decimal_of(i.port as u64);
            let base = cat("http://127.0.0.1:", port.as_str());
            let front = cat5(
                "Agent running (pid ",
                pid.as_str(),
                ", endpoint ",
                i.endpoint_id.as_str(),
                ", control ",
            );
            cat3(front.as_str(), base.as_str(), ")")
        },
        None => "Agent is not running.".to_owned(),
    }
}

// Tunnels.

/// The lines after a tunnel was made.
pub open spec fn created_text(t: TunnelView) -> Seq<Seq<char>> {
    seq![
        t.label@ + " -> "@ + t.endpoint@,
        match t.url {
            Some(url) => url@,
            None => "(hostname pending; tunnel id "@ + t.id@ + ")"@,
        },
    ]
}

pub fn tunnel_created_lines(t: &TunnelView) -> (r: Vec<String>)
    ensures
        views(r@) == created_text(*t),
{
    let mut out: Vec<String> = Vec::new();
    out.push(cat3(t.label.as_str(), " -> ", t.endpoint.as_str()));
    match &t.url {
        Some(url) => out.push(url.clone()),
        None => out.push(cat3("(hostname pending; tunnel id ", t.id.as_str(), ")")),
    }
    assert(views(out@) =~= created_text(*t));
    out
}

/// The line of a tunnel in a list.
pub open spec fn tunnel_row(t: TunnelView) -> Seq<char> {
    t.id@ + "  "@ + t.label@ + "  "@ + (match t.url {
        Some(url) => url@,
        None => "(hostname pending)"@,
    }) + " -> "@ + t.endpoint@
}

/// The lines that list tunnels.
pub fn tunnel_list_lines(tunnels: &Vec<TunnelView>) -> (r: Vec<String>)
    ensures
        views(r@) == (if tunnels@.len() == 0 {
            seq!["No tunnels."@]
        } else {
            Seq::new(tunnels@.len(), |i: int| tunnel_row(tunnels@[i]))
        }),
{
    let mut out: Vec<String> = Vec::new();
    if tunnels.len() == 0 {
        out.push("No tunnels.".to_owned());
        assert(views(out@) =~= seq!["No tunnels."@]);
        return out;
    }
    let mut i: usize = 0;
    while i < tunnels.len()
        invariant
            i <= tunnels@.len(),
            out@.len() == i,
            forall|k: int| 0 <= k < i ==> (#[trigger] out@[k])@ == tunnel_row(tunnels@[k]),
        decreases tunnels@.len() - i,
    {
        let t = &tunnels[i];
        let url = match &t.url {
            Some(url) => url.clone(),
            None => "(hostname pending)".to_owned(),
        };
        let front = cat4(t.id.as_str(), "  ", t.label.as_str(), "  ");
        out.push(cat4(front.as_str(), url.as_str(), " -> ", t.endpoint.as_str()));
        i += 1;
    }
    assert(views(out@) =~= Seq::new(tunnels@.len(), |i: int| tunnel_row(tunnels@[i])));
    out
}

/// The lines that show a tunnel.
pub open spec fn tunnel_text(t: TunnelView) -> Seq<Seq<char>> {
    seq![
        t.label@ + " ("@ + t.id@ + ")"@,
        "  endpoint: "@ + t.endpoint@,
        match t.url {
            Some(url) => "  url: "@ + url@,
            None => "  url: (hostname pending)"@,
        },
    ]
}

pub fn tunnel_lines(t: &TunnelView) -> (r: Vec<String>)
    ensures
        views(r@) == tunnel_text(*t),
{
    let mut out: Vec<String> = Vec::new();
    out.push(cat4(t.label.as_str(), " (", t.id.as_str(), ")"));
    out.push(cat("  endpoint: ", t.endpoint.as_str()));
    match &t.url {
        Some(url) => out.push(cat("  url: ", url.as_str())),
        None => out.push("  url: (hostname pending)".to_owned()),
    }
    assert(views(out@) =~= tunnel_text(*t));
    out
}

/// The line after a tunnel was deleted.
pub fn tunnel_deleted_line(id: &str) -> (r: String)
    ensures
        r@ == "Deleted tunnel "@ + id@,
{
    cat("Deleted tunnel ", id)
}

/// The arguments with which the agent is started in the background.
pub fn background_agent_args(repo_path: &str) -> (r: Vec<String>)
    ensures
        views(r@) == seq!["--repo"@, repo_path@, "agent"@, "start"@],
{
    let mut args: Vec<String> = Vec::new();
    args.push("--repo".to_owned());
    args.push(repo_path.to_owned());
    args.push("agent".to_owned());
    args.push("start".to_owned());
    assert(views(args@) =~= seq!["--repo"@, repo_path@, "agent"@, "start"@]);
    args
}

// Proxies on the device.

/// A proxy and the service that it leads to.
pub open spec fn proxy_text(p: ProxyState) -> Seq<char> {
    p.info.resource_id@ + " -> "@ + p.info.data.host@ + ":"@ + decimal(p.info.data.port as nat)
}

pub fn proxy_line(p: &ProxyState) -> (r: String)
    ensures
        r@ == proxy_text(*p),
{
    let port = decimal_of(p.info.data.port as u64);
    cat5(
        p.info.resource_id.as_str(),
        " -> ",
        p.info.data.host.as_str(),
        ":",
        port.as_str(),
    )
}

/// The line of a proxy in the list of all.
pub fn proxy_list_line(p: &ProxyState) -> (r: String)
    ensures
        r@ == proxy_text(*p) + " (enabled: "@ + (if p.enabled {
            "true"@
        } else {
            "false"@
        }) + ")"@,
{
    let front = proxy_line(p);
    let enabled = if p.enabled {
        "true"
    } else {
        "false"
    };
    cat4(front.as_str(), " (enabled: ", enabled, ")")
}

/// The lines of the proxies that are switched on, in their order.
pub open spec fn served(proxies: Seq<ProxyState>) -> Seq<Seq<char>>
    decreases proxies.len(),
{
    if proxies.len() == 0 {
        Seq::empty()
    } else {
        let before = served(proxies.drop_last());
        if proxies.last().enabled {
            before.push(proxy_text(proxies.last()))
        } else {
            before
        }
    }
}

/// The lines of the proxies that are switched on.
pub fn served_lines(proxies: &Vec<ProxyState>) -> (r: Vec<String>)
    ensures
        views(r@) == served(proxies@),
{
    let mut out: Vec<String> = Vec::new();
    let mut i: usize = 0;
    assert(proxies@.take(0) =~= Seq::<ProxyState>::empty());
    assert(views(out@) =~= Seq::<Seq<char>>::empty());
    while i < proxies.len()
        invariant
            i <= proxies@.len(),
            views(out@) == served(proxies@.take(i as int)),
        decreases proxies@.len() - i,
    {
        let ghost upto = proxies@.take(i + 1);
        assert(upto.drop_last() =~= proxies@.take(i as int));
        let ghost before = views(out@);
        if proxies[i].enabled {
            let line = proxy_line(&proxies[i]);
            out.push(line);
            assert(views(out@) =~= before.push(line@));
        }
        i += 1;
    }
    assert(proxies@.take(proxies@.len() as int) =~= proxies@);
    out
}

/// The name under which the endpoint is looked up in the development DNS.
pub open spec fn lookup_name(z32_id: Seq<char>) -> Seq<char> {
    "_iroh."@ + z32_id + ".datumconnect.test"@
}

/// The name under which the endpoint is looked up in the development DNS, given its z-base-32 text.
pub fn dns_lookup_name(z32_id: &str) -> (r: String)
    ensures
        r@ == lookup_name(z32_id@),
{
    cat3("_iroh.", z32_id, ".datumconnect.test")
}

/// The name under which an endpoint is looked up in the development DNS.
pub fn endpoint_lookup_name(endpoint_id: &[u8; 32]) -> (r: String)
    ensures
        r@ == lookup_name(z32_text(endpoint_id@)),
{
    let z32_id = encode_z32(endpoint_id);
    dns_lookup_name(z32_id.as_str())
}

/// The command that enters an endpoint with its addresses into the development DNS.
pub fn dns_upsert_example(endpoint_id: &str, addrs: &Vec<String>) -> (r: String)
    ensures
        r@
            == "datum-connect dns-dev upsert --origin datumconnect.test --data ./dns-dev.yml --endpoint-id "@
            + endpoint_id@ + " --addr "@ + join(views(addrs@), " --addr "@),
{
    let joined = join_with(addrs, " --addr ");
    cat4(
        "datum-connect dns-dev upsert --origin datumconnect.test --data ./dns-dev.yml --endpoint-id ",
        endpoint_id,
        " --addr ",
        joined.as_str(),
    )
}

/// The projects that fit are looked for in each organization in turn: an organization that fits
/// gives those of its projects that have the identifier or the name, in their order, and any other
/// gives none. An organization fits if it has the identifier or the name that is asked for, or if
/// none is asked for.
pub proof fn law_fitting_more(
    list: Seq<OrgProjectsView>,
    o: OrgProjectsView,
    project: Seq<char>,
    org: Option<Seq<char>>,
) -> (found: Seq<(OrgProjectsView, ProjectView)>)
    ensures
        fitting(Seq::empty(), project, org).len() == 0,
        fitting(list.push(o), project, org) == fitting(list, project, org) + found,
        picks(
            o.projects,
            |p: ProjectView|
                if (org is None || o.org.resource_id == org->0 || o.org.display_name == org->0) && (
                p.resource_id == project || p.display_name == project) {
                    Some((o, p))
                } else {
                    None
                },
            found,
        ),
{
    let f = |p: ProjectView|
        if (org is None || o.org.resource_id == org->0 || o.org.display_name == org->0) && (
        p.resource_id == project || p.display_name == project) {
            Some((o, p))
        } else {
            None
        };
    assert(list.push(o).drop_last() =~= list);
    if org_fits(o, org) {
        let found = fitting_projects(o, project, o.projects.len());
        lemma_fitting_picks(o, project, org, o.projects.len());
        assert(o.projects.take(o.projects.len() as int) =~= o.projects);
        found
    } else {
        let found = Seq::<(OrgProjectsView, ProjectView)>::empty();
        assert(picked_at(o.projects, f, found, Seq::<int>::empty()));
        assert(fitting(list, project, org) + found =~= fitting(list, project, org));
        found
    }
}

proof fn lemma_fitting_picks(
    o: OrgProjectsView,
    project: Seq<char>,
    org: Option<Seq<char>>,
    n: nat,
)
    requires
        n <= o.projects.len(),
        org_fits(o, org),
    ensures
        picks(
            o.projects.take(n as int),
            |p: ProjectView|
                if (org is None || o.org.resource_id == org->0 || o.org.display_name == org->0) && (
                p.resource_id == project || p.display_name == project) {
                    Some((o, p))
                } else {
                    None
                },
            fitting_projects(o, project, n),
        ),
    decreases n,
{
    let f = |p: ProjectView|
        if (org is None || o.org.resource_id == org->0 || o.org.display_name == org->0) && (
        p.resource_id == project || p.display_name == project) {
            Some((o, p))
        } else {
            None
        };
    let row = o.projects.take(n as int);
    if n == 0 {
        lemma_picks_none(row, f, fitting_projects(o, project, n));
    } else {
        lemma_fitting_picks(o, project, org, (n - 1) as nat);
        assert(row.drop_last() =~= o.projects.take(n - 1));
        lemma_picks_next(
            row,
            f,
            fitting_projects(o, project, (n - 1) as nat),
            fitting_projects(o, project, n),
        );
    }
}

/// Every project that fits is found: where a project of the list has the identifier or name, in an
/// organization that fits, it is among those found.
pub proof fn law_fitting_is_found(
    list: Seq<OrgProjectsView>,
    project: Seq<char>,
    org: Option<Seq<char>>,
    i: int,
    j: int,
)
    requires
        0 <= i < list.len(),
        0 <= j < list[i].projects.len(),
        list[i].projects[j].resource_id == project || list[i].projects[j].display_name == project,
        org is None || list[i].org.resource_id == org->0 || list[i].org.display_name == org->0,
    ensures
        fitting(list, project, org).contains((list[i], list[i].projects[j])),
    decreases list.len(),
{
    let front = list.drop_last();
    let found = law_fitting_more(front, list.last(), project, org);
    assert(front.push(list.last()) =~= list);
    let before = fitting(front, project, org);
    let all = fitting(list, project, org);
    let want = (list[i], list[i].projects[j]);
    if i < front.len() {
        assert(front[i] == list[i]);
        law_fitting_is_found(front, project, org, i, j);
        let k = choose|k: int| 0 <= k < before.len() && before[k] == want;
        assert(all[k] == want);
    } else {
        let o = list.last();
        let f = |p: ProjectView|
            if (org is None || o.org.resource_id == org->0 || o.org.display_name == org->0) && (
            p.resource_id == project || p.display_name == project) {
                Some((o, p))
            } else {
                None
            };
        lemma_picks_all(o.projects, f, found);
        assert(f(o.projects[j]) == Some(want));
        assert(found.contains(want));
        let k = choose|k: int| 0 <= k < found.len() && found[k] == want;
        assert(all[before.len() + k] == want);
    }
}

/// The list shows each organization with its name and identifier, and under it each of its
/// projects; an organization without projects says so.
pub proof fn law_listed_org(o: OrgProjectsView, selected: Option<Seq<char>>, k: int)
    requires
        0 <= k < o.projects.len(),
    ensures
        ({
            let rows = listed_org(o, selected);
            let p = o.projects[k];
            &&& rows.len() == 1 + o.projects.len()
            &&& rows[0] == o.org.display_name + " ("@ + o.org.resource_id + ")"@
            &&& selected == Some(p.resource_id) ==> rows[k + 1] == " * "@ + p.display_name + " ("@
                + p.resource_id + ")"@
            &&& selected != Some(p.resource_id) ==> rows[k + 1] == "   "@ + p.display_name + " ("@
                + p.resource_id + ")"@
        }),
{
    reveal_strlit(" ");
    reveal_strlit("*");
    reveal_strlit(" * ");
    reveal_strlit("   ");
    assert(" "@ + "*"@ + " "@ =~= " * "@);
    assert(" "@ + " "@ + " "@ =~= "   "@);
    let p = o.projects[k];
    let mark = if selected == Some(p.resource_id) {
        " * "@
    } else {
        "   "@
    };
    assert(listed_project(p, selected) =~= mark + p.display_name + " ("@ + p.resource_id + ")"@);
}

/// The list of organizations is that of each of them in turn.
pub proof fn law_listed_orgs(
    list: Seq<OrgProjectsView>,
    o: OrgProjectsView,
    selected: Option<Seq<char>>,
)
    ensures
        listed_orgs(Seq::empty(), selected).len() == 0,
        listed_orgs(list.push(o), selected) == listed_orgs(list, selected) + listed_org(
            o,
            selected,
        ),
        o.projects.len() == 0 ==> listed_org(o, selected) == seq![
            o.org.display_name + " ("@ + o.org.resource_id + ")"@,
            "  (no projects)"@,
        ],
{
    assert(list.push(o).drop_last() =~= list);
}

/// A line stands for each proxy that is switched on, in the order of the proxies, with the service
/// that it leads to.
pub proof fn law_served(proxies: Seq<ProxyState>)
    ensures
        picks(
            proxies,
            |p: ProxyState|
                if p.enabled {
                    Some(
                        p.info.resource_id@ + " -> "@ + p.info.data.host@ + ":"@ + decimal(
                            p.info.data.port as nat,
                        ),
                    )
                } else {
                    None
                },
            served(proxies),
        ),
    decreases proxies.len(),
{
    let f = |p: ProxyState|
        if p.enabled {
            Some(
                p.info.resource_id@ + " -> "@ + p.info.data.host@ + ":"@ + decimal(
                    p.info.data.port as nat,
                ),
            )
        } else {
            None
        };
    if proxies.len() == 0 {
        lemma_picks_none(proxies, f, served(proxies));
    } else {
        law_served(proxies.drop_last());
        lemma_picks_next(proxies, f, served(proxies.drop_last()), served(proxies));
    }
}

/// What is shown of a tunnel leads from its URL, or the note that it has none yet, to its endpoint.
pub proof fn law_tunnel_lines(t: TunnelView)
    ensures
        t.url is Some ==> tunnel_row(t) == t.id@ + "  "@ + t.label@ + "  "@ + t.url->0@ + " -> "@
            + t.endpoint@ && created_text(t)[1] == t.url->0@ && tunnel_text(t)[2] == "  url: "@
            + t.url->0@,
        t.url is None ==> tunnel_row(t) == t.id@ + "  "@ + t.label@ + "  "@ + "(hostname pending)"@
            + " -> "@ + t.endpoint@ && created_text(t)[1] == "(hostname pending; tunnel id "@ + t.id@
            + ")"@ && tunnel_text(t)[2] == "  url: (hostname pending)"@,
        created_text(t).len() == 2 && created_text(t)[0] == t.label@ + " -> "@ + t.endpoint@,
        tunnel_text(t).len() == 3 && tunnel_text(t)[0] == t.label@ + " ("@ + t.id@ + ")"@,
        tunnel_text(t)[1] == "  endpoint: "@ + t.endpoint@,
{
}

/// The status shows who is signed in, which project is selected and whether the agent runs.
pub proof fn law_status_lines(s: StatusOutput)
    ensures
        s.email is Some ==> user_line(s) == "Logged in as "@ + s.email->0@ + " ("@ + s.login_state@
            + ")"@,
        s.email is None ==> user_line(s) == "Not logged in. Run `datum-connect login`."@,
        s.context is Some ==> project_line(s) == "Project: "@ + s.context->0.org_name@ + " / "@
            + s.context->0.project_name@,
        s.context is None ==> project_line(s)
            == "No project selected. Run `datum-connect context set --project <id>`."@,
        s.agent.running && s.agent.pid is Some && s.agent.endpoint_id is Some ==> agent_line(s.agent)
            == "Agent: running (pid "@ + decimal(s.agent.pid->0 as nat) + ", endpoint "@
            + s.agent.endpoint_id->0@ + ")"@,
        !s.agent.running ==> agent_line(s.agent)
            == "Agent: not running. Run `datum-connect agent start`."@,
{
}

/// An endpoint is looked up under its identifier, below the domain for development.
pub proof fn law_lookup_name(z32_id: Seq<char>)
    ensures
        lookup_name(z32_id) == "_iroh."@ + z32_id + ".datumconnect.test"@,
{
}

/// The selected context is shown with the names and the identifiers of organization and project.
pub proof fn law_context_lines(c: SelectedContext)
    ensures
        context_text(Some(c)).len() == 3,
        context_text(Some(c))[0] == c.org_name@ + " / "@ + c.project_name@,
        context_text(Some(c))[1] == "  org:     "@ + c.org_id@,
        context_text(Some(c))[2] == "  project: "@ + c.project_id@,
        context_text(None) == seq![
            "No project selected. Run `datum-connect context set --project <id>`."@,
        ],
        selected_id(Some(c)) == Some(c.project_id@),
        selected_id(None) is None,
{
}

} // verus!
