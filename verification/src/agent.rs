//! The headless agent: one listener, and a control API on the loopback interface.
//!
//! Tunnels are made and deleted in the process that listens, so other programs ask the agent.
use crate::datum_cloud::auth::{login_state_for, LoginState, MaybeAuth, NEEDS_REFRESH_WHEN};
use crate::random::{is_alphanumeric, random_alphanumeric};
use crate::repo::Repo;
use crate::state::SelectedContext;
use crate::text::{
    any_same, cat, cat3, contains, copy_all, decimal, decimal_of, has_prefix, has_text, opt_view,
    same, strip_prefix, trim, trimmed, views,
};
use crate::times::is_time;
use crate::tunnel_activity::{metrics_bytes_for_tunnel, tunnel_bytes, UpstreamMetrics};
use crate::tunnels::{preferred, SummaryView, TunnelDeleteOutcome, TunnelSummary};
use vstd::prelude::*;

verus! {

/// The argument with which a program runs as the detached agent.
pub const HEADLESS_AGENT_FLAG: &'static str = "--headless-agent";

/// How long a hostname is awaited where the request does not say it, in seconds.
pub const DEFAULT_HOSTNAME_TIMEOUT_SECS: u64 = 30;

/// How the agent is found and asked.
#[derive(Debug, Clone)]
pub struct AgentInfo {
    pub pid: u32,
    pub port: u16,
    pub token: String,
    pub endpoint_id: String,
}

#[derive(Debug, Clone)]
pub struct AgentStatus {
    pub pid: u32,
    pub port: u16,
    pub endpoint_id: String,
    pub logged_in: bool,
    pub login_state: String,
    pub email: Option<String>,
    pub context: Option<SelectedContext>,
}

#[derive(Debug, Clone)]
pub struct CreateTunnelRequest {
    pub label: String,
    pub endpoint: String,
    pub wait_hostname: bool,
    pub timeout_secs: Option<u64>,
}

/// A tunnel as the agent describes it.
#[derive(Debug, Clone)]
pub struct TunnelView {
    pub id: String,
    pub label: String,
    pub endpoint: String,
    pub url: Option<String>,
    pub hostnames: Vec<String>,
    pub enabled: bool,
    pub accepted: bool,
    pub programmed: bool,
}

#[derive(Debug, Clone)]
pub struct UpdateTunnelRequest {
    pub label: String,
    pub endpoint: String,
}

#[derive(Debug, Clone, Copy)]
pub struct SetEnabledRequest {
    pub enabled: bool,
}

#[derive(Debug, Clone)]
pub struct TunnelMetric {
    pub id: String,
    pub bytes_from_origin: u64,
    pub bytes_to_origin: u64,
}

#[derive(Debug, Clone)]
pub struct DeleteTunnelResponse {
    pub id: String,
    pub project_id: String,
    pub connector_deleted: bool,
}

/// An answer that refuses a request.
#[derive(Debug, Clone)]
pub struct ApiError {
    pub status: u16,
    pub message: String,
    /// The tunnel that was made all the same.
    pub tunnel: Option<TunnelView>,
}

// Descriptions of tunnels.

/// The URL of a tunnel with the given hostnames.
pub open spec fn url_for(hostnames: Seq<Seq<char>>) -> Option<Seq<char>> {
    match preferred(hostnames) {
        Some(name) => Some("https://"@ + name),
        None => None,
    }
}

impl TunnelView {
    /// What the description says of the tunnel itself.
    pub open spec fn summary(self) -> SummaryView {
        SummaryView {
            id: self.id@,
            label: self.label@,
            endpoint: self.endpoint@,
            hostnames: views(self.hostnames@),
            enabled: self.enabled,
            accepted: self.accepted,
            programmed: self.programmed,
        }
    }

    /// The description is that of the tunnel.
    pub open spec fn describes(self, s: SummaryView) -> bool {
        self.summary() == s && opt_view(self.url) == url_for(s.hostnames)
    }

    /// The description of a tunnel.
    pub fn from(summary: &TunnelSummary) -> (r: TunnelView)
        ensures
            r.describes(summary@),
    {
        TunnelView {
            id: summary.id.clone(),
            label: summary.label.clone(),
            endpoint: summary.endpoint.clone(),
            url: summary.public_url(),
            hostnames: copy_all(&summary.hostnames),
            enabled: summary.enabled,
            accepted: summary.accepted,
            programmed: summary.programmed,
        }
    }

    /// The tunnel that is described.
    pub fn into_summary(self) -> (r: TunnelSummary)
        ensures
            r@ == self.summary(),
    {
        TunnelSummary {
            id: self.id,
            label: self.label,
            endpoint: self.endpoint,
            hostnames: self.hostnames,
            enabled: self.enabled,
            accepted: self.accepted,
            programmed: self.programmed,
        }
    }
}

/// The descriptions of the tunnels, in their order.
pub fn list_tunnels(tunnels: &Vec<TunnelSummary>) -> (r: Vec<TunnelView>)
    ensures
        r@.len() == tunnels@.len(),
        forall|i: int|
            0 <= i < r@.len() ==> (#[trigger] r@[i]).describes(tunnels@[i]@),
{
    let mut out: Vec<TunnelView> = Vec::new();
    let mut i: usize = 0;
    while i < tunnels.len()
        invariant
            i <= tunnels@.len(),
            out@.len() == i,
            forall|k: int| 0 <= k < i ==> (#[trigger] out@[k]).describes(tunnels@[k]@),
        decreases tunnels@.len() - i,
    {
        out.push(TunnelView::from(&tunnels[i]));
        i += 1;
    }
    out
}

/// The bytes of each tunnel, in the order of the tunnels.
pub fn metrics(tunnels: &Vec<TunnelSummary>, origins: &UpstreamMetrics) -> (r: Vec<TunnelMetric>)
    ensures
        r@.len() == tunnels@.len(),
        forall|i: int|
            0 <= i < r@.len() ==> {
                &&& (#[trigger] r@[i]).id == tunnels@[i].id
                &&& (r@[i].bytes_from_origin, r@[i].bytes_to_origin) == tunnel_bytes(
                    origins.origins@,
                    tunnels@[i]@,
                )
            },
{
    let mut out: Vec<TunnelMetric> = Vec::new();
    let mut i: usize = 0;
    while i < tunnels.len()
        invariant
            i <= tunnels@.len(),
            out@.len() == i,
            forall|k: int|
                0 <= k < i ==> {
                    &&& (#[trigger] out@[k]).id == tunnels@[k].id
                    &&& (out@[k].bytes_from_origin, out@[k].bytes_to_origin) == tunnel_bytes(
                        origins.origins@,
                        tunnels@[k]@,
                    )
                },
        decreases tunnels@.len() - i,
    {
        let (bytes_from_origin, bytes_to_origin) = metrics_bytes_for_tunnel(origins, &tunnels[i]);
        out.push(
            TunnelMetric { id: tunnels[i].id.clone(), bytes_from_origin, bytes_to_origin },
        );
        i += 1;
    }
    out
}

// Requests.

impl ApiError {
    /// The error refuses with the status and the message, and carries no tunnel.
    pub open spec fn says(self, status: u16, message: Seq<char>) -> bool {
        self.status == status && self.message@ == message && self.tunnel is None
    }

    pub fn new(status: u16, message: String) -> (r: ApiError)
        ensures
            r.says(status, message@),
    {
        ApiError { status, message, tunnel: None }
    }
}

/// Whether a request carries the agent's token, as a bearer token or in the header of its own.
pub fn require_token(
    authorization: Option<&str>,
    agent_token: Option<&str>,
    token: &str,
) -> (r: bool)
    ensures
        r == ((authorization is Some && authorization->0@ == "Bearer "@ + token@) || (
        agent_token is Some && agent_token->0@ == token@)),
{
    let expected = cat("Bearer ", token);
    let bearer = match authorization {
        Some(v) => same(v, expected.as_str()),
        None => false,
    };
    let own = match agent_token {
        Some(v) => same(v, token),
        None => false,
    };
    bearer || own
}

/// The refusal of a request without the token.
pub fn unauthorized() -> (r: ApiError)
    ensures
        r.says(401, "unauthorized"@),
{
    ApiError::new(401, "unauthorized".to_owned())
}

/// Label and endpoint of a request, trimmed; both have to be there.
pub fn check_tunnel_request(label: &str, endpoint: &str) -> (r: Result<(String, String), ApiError>)
    ensures
        match r {
            Ok((l, e)) => l@ == trimmed(label@) && l@.len() > 0 && e@ == trimmed(endpoint@) && e@.len()
                > 0,
            Err(e) => if trimmed(label@).len() == 0 {
                e.says(400, "label is required"@)
            } else {
                trimmed(endpoint@).len() == 0 && e.says(400, "endpoint is required"@)
            },
        },
{
    let l = trim(label);
    if l.as_str().is_empty() {
        return Err(ApiError::new(400, "label is required".to_owned()));
    }
    let e = trim(endpoint);
    if e.as_str().is_empty() {
        return Err(ApiError::new(400, "endpoint is required".to_owned()));
    }
    Ok((l, e))
}

/// How many seconds a hostname is awaited for a tunnel that was just made; none where it is not
/// asked for or already there.
pub fn hostname_wait(req: &CreateTunnelRequest, summary: &TunnelSummary) -> (r: Option<u64>)
    ensures
        r == (if req.wait_hostname && summary@.hostnames.len() == 0 {
            Some(
                match req.timeout_secs {
                    Some(t) => t,
                    None => DEFAULT_HOSTNAME_TIMEOUT_SECS,
                },
            )
        } else {
            None
        }),
{
    if req.wait_hostname && summary.hostnames.len() == 0 {
        match req.timeout_secs {
            Some(t) => Some(t),
            None => Some(DEFAULT_HOSTNAME_TIMEOUT_SECS),
        }
    } else {
        None
    }
}

/// The answer on the making of a tunnel. Where a hostname was awaited in vain it is a refusal that
/// carries the tunnel, which was made all the same.
pub fn create_tunnel(summary: &TunnelSummary, waited: bool) -> (r: Result<TunnelView, ApiError>)
    ensures
        match r {
            Ok(v) => v.describes(summary@) && !(waited && summary@.hostnames.len() == 0),
            Err(e) => {
                &&& waited && summary@.hostnames.len() == 0
                &&& e.status == 504
                &&& e.message@
                    == "Timed out waiting for a public hostname. The tunnel was created; delete it with `datum-connect tunnel delete` or poll `datum-connect tunnel get`."@
                &&& e.tunnel matches Some(v) && v.describes(summary@)
            },
        },
{
    if waited && summary.hostnames.len() == 0 {
        return Err(
            ApiError {
                status: 504,
                message:
                    "Timed out waiting for a public hostname. The tunnel was created; delete it with `datum-connect tunnel delete` or poll `datum-connect tunnel get`.".to_owned(),
                tunnel: Some(TunnelView::from(summary)),
            },
        );
    }
    Ok(TunnelView::from(summary))
}

/// The text for a tunnel that is not there.
pub open spec fn not_found_text(id: Seq<char>) -> Seq<char> {
    "Tunnel `"@ + id + "` not found"@
}

/// The answer on the question for a tunnel.
pub fn get_tunnel(found: &Option<TunnelSummary>, id: &str) -> (r: Result<TunnelView, ApiError>)
    ensures
        match r {
            Ok(v) => found is Some && v.describes(found->0@),
            Err(e) => found is None && e.says(404, not_found_text(id@)),
        },
{
    match found {
        Some(t) => Ok(TunnelView::from(t)),
        None => Err(ApiError::new(404, cat3("Tunnel `", id, "` not found"))),
    }
}

/// The answer on the deletion of a tunnel, and the project whose heartbeat ends: that of a connector
/// that was deleted too.
pub fn delete_tunnel(id: String, outcome: TunnelDeleteOutcome) -> (r: (
    DeleteTunnelResponse,
    Option<String>,
))
    ensures
        r.0.id == id,
        r.0.project_id == outcome.project_id,
        r.0.connector_deleted == outcome.connector_deleted,
        r.1 == (if outcome.connector_deleted {
            Some(outcome.project_id)
        } else {
            None
        }),
{
    let ended = if outcome.connector_deleted {
        Some(outcome.project_id.clone())
    } else {
        None
    };
    (
        DeleteTunnelResponse {
            id,
            project_id: outcome.project_id,
            connector_deleted: outcome.connector_deleted,
        },
        ended,
    )
}

/// The refusal that an error of the tunnel service becomes.
pub fn map_tunnel_err(not_logged_in: bool, message: &str) -> (r: ApiError)
    ensures
        if not_logged_in {
            r.says(401, "Not logged in. Run `datum-connect login`."@)
        } else if has_text(message@, "No project selected"@) {
            r.says(
                400,
                "No project selected. Run `datum-connect context set --project <id>`."@,
            )
        } else {
            r.says(500, message@)
        },
{
    if not_logged_in {
        return ApiError::new(401, "Not logged in. Run `datum-connect login`.".to_owned());
    }
    if contains(message, "No project selected") {
        return ApiError::new(
            400,
            "No project selected. Run `datum-connect context set --project <id>`.".to_owned(),
        );
    }
    ApiError::new(500, message.to_owned())
}

// The agent itself.

/// The name of a login state in the agent's answers.
pub open spec fn state_name(state: LoginState) -> Seq<char> {
    match state {
        LoginState::Missing => "missing"@,
        LoginState::NeedsRefresh => "needs_refresh"@,
        LoginState::Valid => "valid"@,
    }
}

pub fn login_state_name(state: LoginState) -> (r: &'static str)
    ensures
        r@ == state_name(state),
{
    match state {
        LoginState::Missing => "missing",
        LoginState::NeedsRefresh => "needs_refresh",
        LoginState::Valid => "valid",
    }
}

/// What the agent says of itself.
pub fn agent_status(
    info: &AgentInfo,
    auth: &MaybeAuth,
    context: Option<SelectedContext>,
    now: i128,
) -> (r: AgentStatus)
    requires
        auth.wf(),
        is_time(now as int),
        auth.0 is Some ==> is_time(now + NEEDS_REFRESH_WHEN),
    ensures
        r.pid == info.pid,
        r.port == info.port,
        r.endpoint_id == info.endpoint_id,
        r.logged_in == (auth.0 is Some),
        r.login_state@ == state_name(auth.state(now as int)),
        r.email == (match auth.0 {
            Some(s) => Some(s.profile.email),
            None => None,
        }),
        r.context == context,
{
    let email = match &auth.0 {
        Some(s) => Some(s.profile.email.clone()),
        None => None,
    };
    AgentStatus {
        pid: info.pid,
        port: info.port,
        endpoint_id: info.endpoint_id.clone(),
        logged_in: !auth.is_none(),
        login_state: login_state_name(login_state_for(auth, now)).to_owned(),
        email,
        context,
    }
}

/// A token for the control API.
pub fn new_token() -> (r: String)
    ensures
        r@.len() == 32,
        forall|i: int| 0 <= i < r@.len() ==> is_alphanumeric(#[trigger] r@[i]),
{
    random_alphanumeric(32)
}

/// Whether a process is alive, given whether a signal to it could be sent, and whether it could not
/// be sent for want of permission.
pub fn is_pid_alive(pid: u32, signalled: bool, not_permitted: bool) -> (r: bool)
    ensures
        r == (pid != 0 && (signalled || not_permitted)),
{
    pid != 0 && (signalled || not_permitted)
}

/// The agent that runs, given what its file says and whether its process is alive; and whether the
/// file is left over and to be removed.
pub fn running_agent_info(info: Option<AgentInfo>, alive: bool) -> (r: (Option<AgentInfo>, bool))
    ensures
        r.0 == (if alive {
            info
        } else {
            None
        }),
        r.1 == (info is Some && !alive),
{
    match info {
        Some(i) => if alive {
            (Some(i), false)
        } else {
            (None, true)
        },
        None => (None, false),
    }
}

/// The text for an agent that already runs.
pub open spec fn already_running_text(pid: u32) -> Seq<char> {
    "Agent is already running (pid "@ + decimal(pid as nat)
        + "). Stop it with `datum-connect agent stop`."@
}

/// Whether an agent may start and write its file, given the file that is there and whether the
/// process in it is alive: not beside one that runs.
pub fn may_start(existing: &Option<AgentInfo>, alive: bool) -> (r: Result<(), String>)
    ensures
        match r {
            Ok(_) => existing is None || !alive,
            Err(m) => existing is Some && alive && m@ == already_running_text(existing->0.pid),
        },
{
    match existing {
        Some(info) => if alive {
            let pid = decimal_of(info.pid as u64);
            Err(
                cat3(
                    "Agent is already running (pid ",
                    pid.as_str(),
                    "). Stop it with `datum-connect agent stop`.",
                ),
            )
        } else {
            Ok(())
        },
        None => Ok(()),
    }
}

// Waiting for a hostname.

/// What follows on a look at a tunnel whose hostname is awaited.
#[derive(Debug)]
pub enum HostnameWait {
    /// The tunnel is no longer there.
    Gone(String),
    /// The wait is over, with or without a hostname.
    Over(TunnelSummary),
    /// Look again after a second.
    Again,
}

/// What follows on a look at a tunnel whose hostname is awaited until a deadline.
pub fn wait_for_hostname(
    found: Option<TunnelSummary>,
    tunnel_id: &str,
    now: u128,
    deadline: u128,
) -> (r: HostnameWait)
    ensures
        match r {
            HostnameWait::Gone(m) => found is None && m@ == "Tunnel `"@ + tunnel_id@
                + "` disappeared while waiting for a hostname"@,
            HostnameWait::Over(s) => found == Some(s) && (s@.hostnames.len() > 0 || now
                >= deadline),
            HostnameWait::Again => found is Some && found->0@.hostnames.len() == 0 && now
                < deadline,
        },
{
    match found {
        None => HostnameWait::Gone(
            cat3("Tunnel `", tunnel_id, "` disappeared while waiting for a hostname"),
        ),
        Some(s) => {
            if s.hostnames.len() > 0 || now >= deadline {
                HostnameWait::Over(s)
            } else {
                HostnameWait::Again
            }
        },
    }
}

// Stopping the agent.

/// Where the stopping of the agent stands.
#[derive(Debug, Clone, Copy, PartialEq, Eq, Structural)]
pub enum StopPhase {
    /// Whether the process in the file is alive is being asked.
    Checking,
    /// The process is asked to end.
    Asking,
    /// Its end is awaited.
    Waiting,
    /// The process is made to end.
    Forcing,
    /// A last look whether it has ended.
    Confirming,
    Finished,
}

/// What happened while the agent is stopped.
#[derive(Debug)]
pub enum StopEvent {
    /// Whether the process is alive.
    Alive(bool),
    /// The request to end was sent, well or not.
    Asked,
    /// Whether the process is alive, and whether the time to wait has passed.
    Looked { alive: bool, timed_out: bool },
    /// The process was made to end, or why that failed.
    Forced(Result<(), String>),
}

/// Why the agent was not stopped.
#[derive(Debug)]
pub enum StopError {
    NotRunning,
    /// The process to stop is this one.
    OwnProcess,
    /// It could not be made to end.
    Signal(String),
    /// It is still alive after having been made to end.
    StillAlive(u32),
}

/// What is to be done next to stop the agent.
#[derive(Debug)]
pub enum StopAction {
    /// Ask the process to end.
    Ask,
    /// Wait a moment, then look whether it is alive and whether the time to wait has passed.
    Look,
    /// Make the process end.
    Force,
    /// Wait a moment, remove the file, and look whether the process is alive.
    RemoveAndLook,
    /// Over; `remove` says whether the file is to be removed.
    Return { result: Result<(), StopError>, remove: bool },
}

/// The stopping of the agent whose process is `pid`, by the process `own_pid`.
#[derive(Debug, Clone, Copy)]
pub struct StopAgent {
    pub pid: u32,
    pub own_pid: u32,
    pub phase: StopPhase,
}

impl StopAgent {
    pub open spec fn expects(self, event: StopEvent) -> bool {
        match self.phase {
            StopPhase::Checking | StopPhase::Confirming => event is Alive,
            StopPhase::Asking => event is Asked,
            StopPhase::Waiting => event is Looked,
            StopPhase::Forcing => event is Forced,
            StopPhase::Finished => false,
        }
    }

    pub open spec fn in_phase(self, phase: StopPhase) -> StopAgent {
        StopAgent { pid: self.pid, own_pid: self.own_pid, phase }
    }

    pub open spec fn over(self, result: Result<(), StopError>, remove: bool) -> (
        StopAgent,
        StopAction,
    ) {
        (self.in_phase(StopPhase::Finished), StopAction::Return { result, remove })
    }

    /// What follows on an event.
    pub open spec fn next(self, event: StopEvent) -> (StopAgent, StopAction) {
        match (self.phase, event) {
            (StopPhase::Checking, StopEvent::Alive(alive)) => if !alive {
                self.over(Err(StopError::NotRunning), true)
            } else if self.pid == self.own_pid {
                self.over(Err(StopError::OwnProcess), false)
            } else {
                (self.in_phase(StopPhase::Asking), StopAction::Ask)
            },
            (StopPhase::Asking, _) => (self.in_phase(StopPhase::Waiting), StopAction::Look),
            (StopPhase::Waiting, StopEvent::Looked { alive, timed_out }) => if timed_out {
                (self.in_phase(StopPhase::Forcing), StopAction::Force)
            } else if !alive {
                self.over(Ok(()), true)
            } else {
                (self, StopAction::Look)
            },
            (StopPhase::Forcing, StopEvent::Forced(Err(e))) => self.over(
                Err(StopError::Signal(e)),
                false,
            ),
            (StopPhase::Forcing, _) => (
                self.in_phase(StopPhase::Confirming),
                StopAction::RemoveAndLook,
            ),
            (StopPhase::Confirming, StopEvent::Alive(alive)) => if alive {
                self.over(Err(StopError::StillAlive(self.pid)), false)
            } else {
                self.over(Ok(()), false)
            },
            _ => self.over(Ok(()), false),
        }
    }

    /// Starts the stopping of the agent in the file; without a file none runs.
    pub fn start(info: &Option<AgentInfo>, own_pid: u32) -> (r: Result<StopAgent, StopError>)
        ensures
            match r {
                Ok(s) => info is Some && s == (StopAgent {
                    pid: info->0.pid,
                    own_pid,
                    phase: StopPhase::Checking,
                }),
                Err(e) => info is None && e is NotRunning,
            },
    {
        match info {
            Some(i) => Ok(StopAgent { pid: i.pid, own_pid, phase: StopPhase::Checking }),
            None => Err(StopError::NotRunning),
        }
    }

    fn moved(self, phase: StopPhase) -> (r: StopAgent)
        ensures
            r == self.in_phase(phase),
    {
        StopAgent { pid: self.pid, own_pid: self.own_pid, phase }
    }

    fn finish(self, result: Result<(), StopError>, remove: bool) -> (r: (StopAgent, StopAction))
        ensures
            r == self.over(result, remove),
    {
        (self.moved(StopPhase::Finished), StopAction::Return { result, remove })
    }

    /// What follows on an event.
    pub fn step(self, event: StopEvent) -> (r: (StopAgent, StopAction))
        requires
            self.expects(event),
        ensures
            r == self.next(event),
    {
        match (self.phase, event) {
            (StopPhase::Checking, StopEvent::Alive(alive)) => {
                if !alive {
                    self.finish(Err(StopError::NotRunning), true)
                } else if self.pid == self.own_pid {
                    self.finish(Err(StopError::OwnProcess), false)
                } else {
                    (self.moved(StopPhase::Asking), StopAction::Ask)
                }
            },
            (StopPhase::Asking, _) => (self.moved(StopPhase::Waiting), StopAction::Look),
            (StopPhase::Waiting, StopEvent::Looked { alive, timed_out }) => {
                if timed_out {
                    (self.moved(StopPhase::Forcing), StopAction::Force)
                } else if !alive {
                    self.finish(Ok(()), true)
                } else {
                    (self, StopAction::Look)
                }
            },
            (StopPhase::Forcing, StopEvent::Forced(Err(e))) => self.finish(
                Err(StopError::Signal(e)),
                false,
            ),
            (StopPhase::Forcing, _) => (
                self.moved(StopPhase::Confirming),
                StopAction::RemoveAndLook,
            ),
            (StopPhase::Confirming, StopEvent::Alive(alive)) => {
                if alive {
                    self.finish(Err(StopError::StillAlive(self.pid)), false)
                } else {
                    self.finish(Ok(()), false)
                }
            },
            _ => self.finish(Ok(()), false),
        }
    }
}

impl StopError {
    /// The text for users.
    pub fn message(&self) -> (r: String)
        ensures
            r@ == match *self {
                StopError::NotRunning => "Agent is not running."@,
                StopError::OwnProcess => "Refusing to stop the current process via agent stop"@,
                StopError::Signal(e) => e@,
                StopError::StillAlive(pid) => "Failed to stop agent (pid "@ + decimal(pid as nat)
                    + ")"@,
            },
    {
        match self {
            StopError::NotRunning => "Agent is not running.".to_owned(),
            StopError::OwnProcess => {
                "Refusing to stop the current process via agent stop".to_owned()
            },
            StopError::Signal(e) => e.clone(),
            StopError::StillAlive(pid) => {
                let pid = decimal_of(*pid as u64);
                cat3("Failed to stop agent (pid ", pid.as_str(), ")")
            },
        }
    }
}

/// No process is asked or made to end that is not alive, or that is this one. And the stopping
/// succeeds only if the last look found the process ended.
pub proof fn law_stop_step(s: StopAgent, event: StopEvent)
    requires
        s.expects(event),
        s.phase != StopPhase::Checking ==> s.pid != s.own_pid,
    ensures
        s.next(event).1 is Ask || s.next(event).1 is Force ==> s.pid != s.own_pid,
        s.next(event).1 is Ask ==> event == StopEvent::Alive(true),
        s.next(event).0.phase != StopPhase::Finished ==> s.next(event).0.pid != s.own_pid,
        s.next(event).1 matches StopAction::Return { result: Ok(_), .. } ==> event
            == StopEvent::Alive(false) || (event matches StopEvent::Looked {
            alive: false,
            timed_out: false,
        }),
{
}

// Asking the agent.

/// Where the agent's control API is, and the token for it.
#[derive(Debug, Clone)]
pub struct AgentClient {
    pub base: String,
    pub token: String,
    pub info: AgentInfo,
}

/// The base of the agent's control API at a port.
pub open spec fn agent_base(port: u16) -> Seq<char> {
    "http://127.0.0.1:"@ + decimal(port as nat)
}

impl AgentClient {
    pub fn from_info(info: AgentInfo) -> (r: AgentClient)
        ensures
            r.base@ == agent_base(info.port),
            r.token == info.token,
            r.info == info,
    {
        let port = decimal_of(info.port as u64);
        AgentClient {
            base: cat("http://127.0.0.1:", port.as_str()),
            token: info.token.clone(),
            info,
        }
    }

    /// The agent that runs, or the text for users that none does.
    pub fn connect(running: Option<AgentInfo>) -> (r: Result<AgentClient, String>)
        ensures
            match r {
                Ok(c) => running == Some(c.info) && c.base@ == agent_base(c.info.port) && c.token
                    == c.info.token,
                Err(m) => running is None && m@
                    == "Agent is not running. Run `datum-connect agent start`."@,
            },
    {
        match running {
            Some(info) => Ok(AgentClient::from_info(info)),
            None => Err("Agent is not running. Run `datum-connect agent start`.".to_owned()),
        }
    }

    /// Where a request goes.
    pub fn request_url(&self, path: &str) -> (r: String)
        ensures
            r@ == self.base@ + path@,
    {
        cat(self.base.as_str(), path)
    }

    /// The header with which a request carries the token.
    pub fn authorization(&self) -> (r: String)
        ensures
            r@ == "Bearer "@ + self.token@,
    {
        cat("Bearer ", self.token.as_str())
    }

    /// The path of a tunnel.
    pub fn tunnel_path(id: &str) -> (r: String)
        ensures
            r@ == "/tunnels/"@ + id@,
    {
        cat("/tunnels/", id)
    }

    /// The path of the switch of a tunnel.
    pub fn enabled_path(id: &str) -> (r: String)
        ensures
            r@ == "/tunnels/"@ + id@ + "/enabled"@,
    {
        cat3("/tunnels/", id, "/enabled")
    }

    /// Whether the answer of the agent is one of success; else the message of the refusal: the one
    /// that it states, or its whole text.
    pub fn decode_success(status: u16, error: Option<String>, body: &str) -> (r: Result<(), String>)
        ensures
            match r {
                Ok(_) => 200 <= status <= 299,
                Err(m) => !(200 <= status <= 299) && m@ == (match error {
                    Some(e) => e@,
                    None => trimmed(body@),
                }),
            },
    {
        if 200 <= status && status <= 299 {
            return Ok(());
        }
        match error {
            Some(e) => Err(e),
            None => Err(trim(body)),
        }
    }

    /// The tunnel in an answer, none if the agent says that it is not there.
    pub fn get_tunnel_optional(
        status: u16,
        tunnel: Option<TunnelView>,
        error: Option<String>,
        body: &str,
    ) -> (r: Result<Option<TunnelView>, String>)
        ensures
            match r {
                Ok(None) => status == 404,
                Ok(Some(t)) => 200 <= status <= 299 && tunnel == Some(t),
                Err(m) => if 200 <= status <= 299 {
                    tunnel is None && m@ == "decoding agent response"@
                } else {
                    status != 404 && m@ == (match error {
                        Some(e) => e@,
                        None => trimmed(body@),
                    })
                },
            },
    {
        if status == 404 {
            return Ok(None);
        }
        match AgentClient::decode_success(status, error, body) {
            Ok(_) => match tunnel {
                Some(t) => Ok(Some(t)),
                None => Err("decoding agent response".to_owned()),
            },
            Err(m) => Err(m),
        }
    }
}

/// The path of the agent's status.
pub const STATUS_PATH: &'static str = "/status";

pub const TUNNELS_PATH: &'static str = "/tunnels";

pub const METRICS_PATH: &'static str = "/metrics";

// Starting the agent.

/// Whether the arguments say that the program runs as the detached agent.
pub fn wants_headless_agent(args: &Vec<String>) -> (r: bool)
    ensures
        r == views(args@).contains(HEADLESS_AGENT_FLAG@),
{
    any_same(args, HEADLESS_AGENT_FLAG)
}

/// The directory that the arguments from a place on name: the one after `--repo`, or the one in
/// `--repo=`.
pub open spec fn repo_in(args: Seq<Seq<char>>, i: int) -> Option<Seq<char>>
    decreases args.len() - i,
{
    if i < 0 || i >= args.len() {
        None
    } else if args[i] == "--repo"@ {
        if i + 1 < args.len() {
            Some(args[i + 1])
        } else {
            None
        }
    } else if has_prefix(args[i], "--repo="@) {
        Some(args[i].skip("--repo="@.len() as int))
    } else {
        repo_in(args, i + 1)
    }
}

/// The directory that the arguments after the program's name name, else the default one.
pub fn repo_path_from_cli_args(args: &Vec<String>, default: String) -> (r: String)
    ensures
        r@ == match repo_in(views(args@), 1) {
            Some(p) => p,
            None => default@,
        },
{
    let ghost all = views(args@);
    let mut i: usize = 1;
    while i < args.len()
        invariant
            1 <= i,
            all == views(args@),
            repo_in(all, 1) == repo_in(all, i as int),
        decreases args@.len() - i,
    {
        assert(all[i as int] == args@[i as int]@);
        let arg = args[i].as_str();
        if same(arg, "--repo") {
            if i < args.len() - 1 {
                assert(all[i + 1] == args@[i + 1]@);
                return args[i + 1].clone();
            }
            return default;
        }
        if let Some(path) = strip_prefix(arg, "--repo=") {
            return path;
        }
        i += 1;
    }
    default
}

/// The arguments with which the detached agent is started.
pub fn agent_args(repo: &Repo) -> (r: Vec<String>)
    ensures
        views(r@) == seq!["--repo"@, repo@, HEADLESS_AGENT_FLAG@],
{
    let mut args: Vec<String> = Vec::new();
    args.push("--repo".to_owned());
    args.push(repo.path().to_owned());
    args.push(HEADLESS_AGENT_FLAG.to_owned());
    assert(views(args@) =~= seq!["--repo"@, repo@, HEADLESS_AGENT_FLAG@]);
    args
}

/// What follows on an attempt to reach an agent that was just started.
#[derive(Debug)]
pub enum ReadyWait {
    Ready,
    /// Try again after a moment, with the last failure.
    Again(Option<String>),
    /// The time has passed, with the text for users.
    TimedOut(String),
}

/// The text for an agent that did not start in time.
pub open spec fn not_ready_text(last: Option<Seq<char>>) -> Seq<char> {
    match last {
        Some(e) => "Timed out waiting for the agent to start: "@ + e,
        None => "Timed out waiting for the agent to start"@,
    }
}

/// What follows while an agent is awaited until a deadline. `attempt` is what the last attempt to
/// reach it came to, none before the first; `last` is the last failure before it.
pub fn wait_until_ready(
    attempt: Option<Result<(), String>>,
    last: Option<String>,
    now: u128,
    deadline: u128,
) -> (r: ReadyWait)
    ensures
        ({
            let failure = match attempt {
                Some(Err(e)) => Some(e),
                _ => last,
            };
            if attempt matches Some(Ok(_)) {
                r is Ready
            } else if now < deadline {
                r == ReadyWait::Again(failure)
            } else {
                r matches ReadyWait::TimedOut(m) && m@ == not_ready_text(opt_view(failure))
            }
        }),
{
    let failure = match attempt {
        Some(Ok(_)) => {
            return ReadyWait::Ready;
        },
        Some(Err(e)) => Some(e),
        None => last,
    };
    if now < deadline {
        return ReadyWait::Again(failure);
    }
    match failure {
        Some(e) => ReadyWait::TimedOut(
            cat("Timed out waiting for the agent to start: ", e.as_str()),
        ),
        None => ReadyWait::TimedOut("Timed out waiting for the agent to start".to_owned()),
    }
}

/// The text for an agent that did not start, with where its log is.
pub fn agent_failed_text(error: &str, log_path: &str) -> (r: String)
    ensures
        r@ == error@ + ". Check "@ + log_path@ + " for agent logs."@,
{
    crate::text::cat4(error, ". Check ", log_path, " for agent logs.")
}

/// Describing a tunnel and reading the description back gives the same tunnel.
pub proof fn law_description_reads_back(v: TunnelView, s: SummaryView)
    requires
        v.describes(s),
    ensures
        v.summary() == s,
        s.hostnames.len() == 0 ==> v.url is None,
        s.hostnames.len() > 0 ==> v.url is Some,
{
}

/// A description says of the tunnel what is listed of it, and gives it a URL exactly if it has a
/// name: that of one of its names, over HTTPS.
pub proof fn law_description(v: TunnelView, s: SummaryView)
    requires
        v.describes(s),
    ensures
        v.id@ == s.id,
        v.label@ == s.label,
        v.endpoint@ == s.endpoint,
        views(v.hostnames@) == s.hostnames,
        v.enabled == s.enabled,
        v.accepted == s.accepted,
        v.programmed == s.programmed,
        v.url is Some <==> s.hostnames.len() > 0,
        v.url matches Some(url) ==> exists|i: int|
            0 <= i < s.hostnames.len() && url@ == "https://"@ + #[trigger] s.hostnames[i],
        s.hostnames.len() == 1 ==> v.url is Some && v.url->0@ == "https://"@ + s.hostnames[0],
{
    crate::tunnels::reading::law_preferred(s.hostnames);
    if let Some(url) = v.url {
        let n = preferred(s.hostnames)->0;
        let i = choose|i: int| 0 <= i < s.hostnames.len() && #[trigger] s.hostnames[i] == n;
        assert(url@ == "https://"@ + s.hostnames[i]);
    }
}

/// The login states have three different names.
pub proof fn law_state_names()
    ensures
        state_name(LoginState::Missing) == "missing"@,
        state_name(LoginState::NeedsRefresh) == "needs_refresh"@,
        state_name(LoginState::Valid) == "valid"@,
{
}

/// The directory is the one that the first mention of `--repo` gives, after it or behind an equals
/// sign; without a mention there is none, and a mention at the end gives none.
pub proof fn law_repo_in(args: Seq<Seq<char>>, i: int, path: Seq<char>)
    requires
        1 <= i <= args.len(),
        forall|k: int|
            1 <= k < i ==> #[trigger] args[k] != "--repo"@ && !has_prefix(args[k], "--repo="@),
    ensures
        i == args.len() ==> repo_in(args, 1) is None,
        i < args.len() && args[i] == "--repo"@ ==> repo_in(args, 1) == (if i + 1 < args.len() {
            Some(args[i + 1])
        } else {
            None
        }),
        i < args.len() && args[i] == "--repo="@ + path ==> repo_in(args, 1) == Some(path),
{
    lemma_repo_in(args, 1, i, path);
}

proof fn lemma_repo_in(args: Seq<Seq<char>>, from: int, i: int, path: Seq<char>)
    requires
        1 <= from <= i <= args.len(),
        forall|k: int|
            1 <= k < i ==> #[trigger] args[k] != "--repo"@ && !has_prefix(args[k], "--repo="@),
    ensures
        i == args.len() ==> repo_in(args, from) is None,
        i < args.len() && args[i] == "--repo"@ ==> repo_in(args, from) == (if i + 1 < args.len() {
            Some(args[i + 1])
        } else {
            None
        }),
        i < args.len() && args[i] == "--repo="@ + path ==> repo_in(args, from) == Some(path),
    decreases i - from,
{
    if from < i {
        assert(args[from] != "--repo"@ && !has_prefix(args[from], "--repo="@));
        lemma_repo_in(args, from + 1, i, path);
    } else if i < args.len() && args[i] == "--repo="@ + path {
        reveal_strlit("--repo");
        reveal_strlit("--repo=");
        let s = "--repo="@ + path;
        assert(s.len() != "--repo"@.len());
        assert(s.take("--repo="@.len() as int) =~= "--repo="@);
        assert(s.skip("--repo="@.len() as int) =~= path);
    }
}

/// What is done to stop an agent. One that is not alive only leaves its file, which is removed; this
/// process is left alone; any other is asked to end.
pub proof fn law_stop_begins(s: StopAgent, alive: bool)
    requires
        s.phase == StopPhase::Checking,
    ensures
        ({
            let (t, action) = s.next(StopEvent::Alive(alive));
            &&& !alive ==> action == StopAction::Return {
                result: Err(StopError::NotRunning),
                remove: true,
            }
            &&& alive && s.pid == s.own_pid ==> action == StopAction::Return {
                result: Err(StopError::OwnProcess),
                remove: false,
            }
            &&& alive && s.pid != s.own_pid ==> action == StopAction::Ask && t.next(
                StopEvent::Asked,
            ).1 == StopAction::Look && t.next(StopEvent::Asked).0.phase == StopPhase::Waiting
        }),
{
}

/// While the process is alive and there is time, it is looked for again. One that ends in time is
/// stopped, and its file is removed. One that does not is made to end; its file is removed then, and
/// a last look decides whether it was stopped.
pub proof fn law_stop_waits(s: StopAgent, alive: bool, last: bool, reason: String)
    requires
        s.phase == StopPhase::Waiting,
    ensures
        s.next(StopEvent::Looked { alive: true, timed_out: false }) == (s, StopAction::Look),
        s.next(StopEvent::Looked { alive: false, timed_out: false }).1 == (StopAction::Return {
            result: Ok(()),
            remove: true,
        }),
        ({
            let (t, action) = s.next(StopEvent::Looked { alive, timed_out: true });
            &&& action == StopAction::Force
            &&& t.next(StopEvent::Forced(Err(reason))).1 == (StopAction::Return {
                result: Err(StopError::Signal(reason)),
                remove: false,
            })
            &&& t.next(StopEvent::Forced(Ok(()))).1 == StopAction::RemoveAndLook
            &&& t.next(StopEvent::Forced(Ok(()))).0.next(StopEvent::Alive(last)).1 == (
            StopAction::Return {
                result: if last {
                    Err(StopError::StillAlive(s.pid))
                } else {
                    Ok(())
                },
                remove: false,
            })
        }),
{
}

/// The agent is asked on the loopback interface, at its port.
pub proof fn law_agent_base(port: u16)
    ensures
        agent_base(port) == "http://127.0.0.1:"@ + decimal(port as nat),
{
}

/// A refusal has the status and the message that it is to have, and carries no tunnel.
pub proof fn law_refusal(e: ApiError, status: u16, message: Seq<char>)
    requires
        e.says(status, message),
    ensures
        e.status == status,
        e.message@ == message,
        e.tunnel is None,
{
}

/// The texts for users name what they are about: the tunnel that is not there, the process that
/// already runs, and why the agent did not start.
pub proof fn law_agent_texts(id: Seq<char>, pid: u32, reason: Seq<char>)
    ensures
        not_found_text(id) == "Tunnel `"@ + id + "` not found"@,
        already_running_text(pid) == "Agent is already running (pid "@ + decimal(pid as nat)
            + "). Stop it with `datum-connect agent stop`."@,
        not_ready_text(Some(reason)) == "Timed out waiting for the agent to start: "@ + reason,
        not_ready_text(None) == "Timed out waiting for the agent to start"@,
{
}

} // verus!
