//! The tunnel service: what each operation needs, what it leaves on the device, and what it
//! returns.

use super::operations::{CreateTunnel, DeleteTunnel, ListTunnels, SetEnabled, UpdateTunnel};
use super::{
    endpoint_of, label_of, list_summaries, listed, local_state, normalize_endpoint, normalized,
    parse_target, proxy_endpoint, proxy_label, proxy_state_from_summary, stripped, summary,
    summary_of, summary_views, target_of, ParsedTarget, SummaryView, TargetError,
    TunnelDeleteOutcome, TunnelSummary,
};
use crate::datum_apis::connector::Connector;
use crate::datum_apis::connector_advertisement::ConnectorAdvertisement;
use crate::datum_apis::http_proxy::HTTPProxy;
use crate::project_control_plane::KubeError;
use crate::state::{host_port, ProxyState, SelectedContext, StateView, TcpProxyData};
use crate::text::{same, trimmed, views};
use crate::urls::url_parts;
use vstd::prelude::*;

verus! {

/// The operations on tunnels, with what the environment switches on.
#[derive(Debug, Clone, Copy, PartialEq, Eq)]
pub struct TunnelService {
    pub publish_tickets: bool,
    pub create_traffic_protection_policies: bool,
}

/// Why an operation on the selected project cannot start.
#[derive(Debug, Clone, Copy, PartialEq, Eq, Structural)]
pub enum TunnelError {
    NoProjectSelected,
    Target(TargetError),
}

/// A change of what the device keeps.
#[derive(Debug)]
pub enum LocalChange {
    /// Store the state of the tunnel and publish its ticket.
    Publish(ProxyState),
    /// Store the state of the tunnel.
    Store(ProxyState),
    /// Forget the tunnel and take its ticket back.
    Unpublish(String),
    /// Forget the tunnel.
    Forget(String),
}

/// The values that switch something on.
pub open spec fn switches_on(value: Seq<char>) -> bool {
    value == "1"@ || value == "true"@ || value == "TRUE"@ || value == "yes"@ || value == "YES"@
}

fn is_on(value: &Option<String>) -> (r: bool)
    ensures
        r == (value is Some && switches_on(value->0@)),
{
    match value {
        Some(v) => {
            let v = v.as_str();
            same(v, "1") || same(v, "true") || same(v, "TRUE") || same(v, "yes") || same(v, "YES")
        },
        None => false,
    }
}

/// Whether tickets are published, given the value of `DATUM_CONNECT_PUBLISH_TICKETS`.
pub fn publish_tickets_enabled(value: &Option<String>) -> (r: bool)
    ensures
        r == (value is Some && switches_on(value->0@)),
{
    is_on(value)
}

/// Whether traffic protection policies are made, given the value of
/// `DATUM_CONNECT_CREATE_TRAFFIC_PROTECTION_POLICIES` and the one set at build time, which counts
/// where the first is not set.
pub fn create_traffic_protection_policies_enabled(
    value: &Option<String>,
    build_value: &Option<String>,
) -> (r: bool)
    ensures
        r == (if value is Some {
            switches_on(value->0@)
        } else {
            build_value is Some && switches_on(build_value->0@)
        }),
{
    if value.is_some() {
        is_on(value)
    } else {
        is_on(build_value)
    }
}

/// A tunnel to be made, once its connector is there.
#[derive(Debug)]
pub struct CreatePlan {
    pub label: String,
    pub endpoint: String,
    pub target: ParsedTarget,
}

/// A tunnel to be changed, once its connector is there.
#[derive(Debug)]
pub struct UpdatePlan {
    pub tunnel_id: String,
    pub label: String,
    pub endpoint: String,
    pub target: ParsedTarget,
}

/// A tunnel to be switched on or off.
#[derive(Debug)]
pub struct EnablePlan {
    pub label: String,
    pub endpoint: String,
    pub enabled: bool,
}

/// The target of an endpoint as it was entered.
pub open spec fn entered_target(endpoint: Seq<char>) -> Result<(Seq<char>, u16), TargetError> {
    let t = trimmed(normalized(endpoint));
    target_of(url_parts(t), t)
}

fn entered(endpoint: &str) -> (r: Result<(String, ParsedTarget), TargetError>)
    ensures
        match r {
            Ok((e, t)) => e@ == normalized(endpoint@) && entered_target(endpoint@) == Ok::<
                (Seq<char>, u16),
                TargetError,
            >((t.address@, t.port)),
            Err(err) => entered_target(endpoint@) == Err::<(Seq<char>, u16), TargetError>(err),
        },
{
    let e = normalize_endpoint(endpoint);
    match parse_target(e.as_str()) {
        Ok(t) => Ok((e, t)),
        Err(err) => Err(err),
    }
}

impl CreatePlan {
    /// The plan is that for the label and the endpoint as they were entered.
    pub open spec fn is_for(self, label: Seq<char>, endpoint: Seq<char>) -> bool {
        &&& self.label@ == label
        &&& self.endpoint@ == normalized(endpoint)
        &&& entered_target(endpoint) == Ok::<(Seq<char>, u16), TargetError>(
            (self.target.address@, self.target.port),
        )
    }

    /// The operation makes the planned tunnel behind the connector.
    pub open spec fn starts(
        self,
        service: TunnelService,
        connector: Connector,
        op: CreateTunnel,
    ) -> bool {
        &&& op.label == self.label
        &&& op.endpoint == self.endpoint
        &&& op.connector_name@ == connector.metadata.any_name()
        &&& op.target == self.target
        &&& op.policies == service.create_traffic_protection_policies
        &&& op.phase is Proxy
    }

    /// The operation that makes the tunnel behind the connector.
    pub fn operation(&self, service: TunnelService, connector: &Connector) -> (r: CreateTunnel)
        ensures
            r.label == self.label,
            r.endpoint == self.endpoint,
            r.connector_name@ == connector.metadata.any_name(),
            r.target == self.target,
            r.policies == service.create_traffic_protection_policies,
            r.phase is Proxy,
            self.starts(service, *connector, r),
    {
        CreateTunnel::start(
            self.label.clone(),
            self.endpoint.clone(),
            connector.metadata.name_any(),
            ParsedTarget { address: self.target.address.clone(), port: self.target.port },
            service.create_traffic_protection_policies,
        )
    }
}

impl UpdatePlan {
    /// The plan is that for the tunnel, with the label and the endpoint as they were entered.
    pub open spec fn is_for(
        self,
        tunnel_id: Seq<char>,
        label: Seq<char>,
        endpoint: Seq<char>,
    ) -> bool {
        &&& self.tunnel_id@ == tunnel_id
        &&& self.label@ == label
        &&& self.endpoint@ == normalized(endpoint)
        &&& entered_target(endpoint) == Ok::<(Seq<char>, u16), TargetError>(
            (self.target.address@, self.target.port),
        )
    }

    /// The operation makes the planned change, with the connector behind the tunnel.
    pub open spec fn starts(self, connector: Connector, op: UpdateTunnel) -> bool {
        &&& op.tunnel_id == self.tunnel_id
        &&& op.label == self.label
        &&& op.endpoint == self.endpoint
        &&& op.connector_name@ == connector.metadata.any_name()
        &&& op.target == self.target
        &&& op.phase is Getting
    }

    /// The operation that changes the tunnel, with the given connector behind it.
    pub fn operation(&self, connector: &Connector) -> (r: UpdateTunnel)
        ensures
            r.tunnel_id == self.tunnel_id,
            r.label == self.label,
            r.endpoint == self.endpoint,
            r.connector_name@ == connector.metadata.any_name(),
            r.target == self.target,
            r.phase is Getting,
            self.starts(*connector, r),
    {
        UpdateTunnel::start(
            self.tunnel_id.clone(),
            self.label.clone(),
            self.endpoint.clone(),
            connector.metadata.name_any(),
            ParsedTarget { address: self.target.address.clone(), port: self.target.port },
        )
    }
}

/// The operation switches the tunnel of the proxy on or off: on to the target of the endpoint that
/// the proxy leads to.
pub open spec fn enabling_starts(
    tunnel_id: Seq<char>,
    connector: Connector,
    proxy: HTTPProxy,
    enabled: bool,
    op: SetEnabled,
) -> bool {
    let t = trimmed(endpoint_of(proxy));
    &&& op.tunnel_id@ == tunnel_id
    &&& op.connector_name@ == connector.metadata.any_name()
    &&& op.phase is Finding
    &&& op.target is Some == enabled
    &&& op.target matches Some(target) ==> target_of(url_parts(t), t) == Ok::<
        (Seq<char>, u16),
        TargetError,
    >((target.address@, target.port))
}

/// The states that the device keeps of the tunnels whose endpoint names a service, in their order.
pub open spec fn local_states(tunnels: Seq<SummaryView>) -> Seq<StateView>
    decreases tunnels.len(),
{
    if tunnels.len() == 0 {
        Seq::empty()
    } else {
        let t = tunnels.last();
        match local_state(t.id, t.endpoint, t.label, t.enabled) {
            Some(s) => local_states(tunnels.drop_last()).push(s),
            None => local_states(tunnels.drop_last()),
        }
    }
}

pub open spec fn state_views(s: Seq<ProxyState>) -> Seq<StateView> {
    Seq::new(s.len(), |i: int| s[i]@)
}

/// One of the tunnels has the identifier.
pub open spec fn has_id(tunnels: Seq<SummaryView>, id: Seq<char>) -> bool {
    exists|i: int| 0 <= i < tunnels.len() && (#[trigger] tunnels[i]).id == id
}

/// The identifiers of the local entries that have the service of a current tunnel but belong to no
/// current tunnel, in their order.
pub open spec fn stale(
    local: Seq<StateView>,
    tunnels: Seq<SummaryView>,
    service: (Seq<char>, u16),
) -> Seq<Seq<char>>
    decreases local.len(),
{
    if local.len() == 0 {
        Seq::empty()
    } else {
        let before = stale(local.drop_last(), tunnels, service);
        let p = local.last();
        if !has_id(tunnels, p.id) && p.service == service {
            before.push(p.id)
        } else {
            before
        }
    }
}

fn has_tunnel(tunnels: &Vec<TunnelSummary>, id: &str) -> (r: bool)
    ensures
        r == has_id(summary_views(tunnels@), id@),
{
    let ghost all = summary_views(tunnels@);
    let mut i: usize = 0;
    while i < tunnels.len()
        invariant
            i <= tunnels@.len(),
            all == summary_views(tunnels@),
            forall|k: int| 0 <= k < i ==> (#[trigger] all[k]).id != id@,
        decreases tunnels@.len() - i,
    {
        if same(tunnels[i].id.as_str(), id) {
            assert(all[i as int].id == id@);
            return true;
        }
        i += 1;
    }
    false
}

/// Whether two services are the same.
fn same_service(a: &TcpProxyData, b: &TcpProxyData) -> (r: bool)
    ensures
        r == (a@ == b@),
{
    same(a.host.as_str(), b.host.as_str()) && a.port == b.port
}

impl TunnelService {
    /// The service, given what the environment and the build set.
    pub fn new(
        publish_tickets: &Option<String>,
        policies: &Option<String>,
        build_policies: &Option<String>,
    ) -> (r: TunnelService)
        ensures
            r.publish_tickets == (publish_tickets is Some && switches_on(publish_tickets->0@)),
            r.create_traffic_protection_policies == (if policies is Some {
                switches_on(policies->0@)
            } else {
                build_policies is Some && switches_on(build_policies->0@)
            }),
    {
        TunnelService {
            publish_tickets: publish_tickets_enabled(publish_tickets),
            create_traffic_protection_policies: create_traffic_protection_policies_enabled(
                policies,
                build_policies,
            ),
        }
    }

    /// The project whose tunnels are listed: that selected. Without one there are no tunnels.
    pub fn list_active(&self, selected: &Option<SelectedContext>) -> (r: Option<String>)
        ensures
            r == (match *selected {
                Some(c) => Some(c.project_id),
                None => None,
            }),
    {
        match selected {
            Some(c) => Some(c.project_id.clone()),
            None => None,
        }
    }

    /// The first of the listed tunnels that has the identifier.
    pub fn get_active(&self, tunnels: &Vec<TunnelSummary>, tunnel_id: &str) -> (r: Option<
        TunnelSummary,
    >)
        ensures
            r is Some <==> has_id(summary_views(tunnels@), tunnel_id@),
            r matches Some(t) ==> exists|i: int|
                0 <= i < tunnels@.len() && (#[trigger] tunnels@[i])@ == t@ && t@.id == tunnel_id@
                    && forall|k: int| 0 <= k < i ==> (#[trigger] tunnels@[k])@.id != tunnel_id@,
    {
        let ghost all = summary_views(tunnels@);
        let mut i: usize = 0;
        while i < tunnels.len()
            invariant
                i <= tunnels@.len(),
                all == summary_views(tunnels@),
                forall|k: int| 0 <= k < i ==> (#[trigger] tunnels@[k])@.id != tunnel_id@,
                forall|k: int| 0 <= k < i ==> (#[trigger] all[k]).id != tunnel_id@,
            decreases tunnels@.len() - i,
        {
            if same(tunnels[i].id.as_str(), tunnel_id) {
                assert(all[i as int].id == tunnel_id@);
                let t = tunnels[i].copy();
                assert(tunnels@[i as int]@ == t@);
                return Some(t);
            }
            i += 1;
        }
        None
    }

    /// Project and plan for a tunnel in the selected project.
    pub fn create_active(
        &self,
        selected: &Option<SelectedContext>,
        label: &str,
        endpoint: &str,
    ) -> (r: Result<(String, CreatePlan), TunnelError>)
        ensures
            match r {
                Ok((project, plan)) => selected is Some && project == selected->0.project_id
                    && plan.is_for(label@, endpoint@),
                Err(TunnelError::NoProjectSelected) => selected is None,
                Err(TunnelError::Target(e)) => selected is Some && entered_target(endpoint@)
                    == Err::<(Seq<char>, u16), TargetError>(e),
            },
    {
        match selected {
            None => Err(TunnelError::NoProjectSelected),
            Some(c) => match self.create_project(label, endpoint) {
                Ok(plan) => Ok((c.project_id.clone(), plan)),
                Err(e) => Err(TunnelError::Target(e)),
            },
        }
    }

    /// Project and plan for the change of a tunnel in the selected project.
    pub fn update_active(
        &self,
        selected: &Option<SelectedContext>,
        tunnel_id: &str,
        label: &str,
        endpoint: &str,
    ) -> (r: Result<(String, UpdatePlan), TunnelError>)
        ensures
            match r {
                Ok((project, plan)) => selected is Some && project == selected->0.project_id
                    && plan.is_for(tunnel_id@, label@, endpoint@),
                Err(TunnelError::NoProjectSelected) => selected is None,
                Err(TunnelError::Target(e)) => selected is Some && entered_target(endpoint@)
                    == Err::<(Seq<char>, u16), TargetError>(e),
            },
    {
        match selected {
            None => Err(TunnelError::NoProjectSelected),
            Some(c) => match self.update_project(tunnel_id, label, endpoint) {
                Ok(plan) => Ok((c.project_id.clone(), plan)),
                Err(e) => Err(TunnelError::Target(e)),
            },
        }
    }

    /// The project in which a tunnel is switched on or off: that selected.
    pub fn set_enabled_active(&self, selected: &Option<SelectedContext>) -> (r: Result<
        String,
        TunnelError,
    >)
        ensures
            r == (match *selected {
                Some(c) => Ok(c.project_id),
                None => Err(TunnelError::NoProjectSelected),
            }),
    {
        match selected {
            Some(c) => Ok(c.project_id.clone()),
            None => Err(TunnelError::NoProjectSelected),
        }
    }

    /// The project in which a tunnel is deleted: that selected.
    pub fn delete_active(&self, selected: &Option<SelectedContext>) -> (r: Result<
        String,
        TunnelError,
    >)
        ensures
            r == (match *selected {
                Some(c) => Ok(c.project_id),
                None => Err(TunnelError::NoProjectSelected),
            }),
    {
        match selected {
            Some(c) => Ok(c.project_id.clone()),
            None => Err(TunnelError::NoProjectSelected),
        }
    }

    /// The reading of the tunnels of a project, given the connector that was found. Without a
    /// connector there are no tunnels.
    pub fn list_project(&self, connector: &Option<Connector>) -> (r: Option<ListTunnels>)
        ensures
            r is Some <==> connector is Some,
            r matches Some(op) ==> op.phase is Proxies && op.connector_name@
                == connector->0.metadata.any_name(),
    {
        match connector {
            Some(c) => Some(ListTunnels::start(c.metadata.name_any())),
            None => None,
        }
    }

    /// The tunnels of a project, with the states to store on the device. Where tickets are
    /// published the device keeps its own states.
    pub fn listed_project(
        &self,
        connector: &Connector,
        proxies: &Vec<HTTPProxy>,
        ads: &Vec<ConnectorAdvertisement>,
    ) -> (r: (Vec<TunnelSummary>, Vec<ProxyState>))
        ensures
            summary_views(r.0@) == listed(proxies@, ads@, connector.metadata.any_name()),
            state_views(r.1@) == (if self.publish_tickets {
                Seq::empty()
            } else {
                local_states(summary_views(r.0@))
            }),
    {
        let name = connector.metadata.name_any();
        let tunnels = list_summaries(proxies, ads, name.as_str());
        let mut states: Vec<ProxyState> = Vec::new();
        assert(state_views(states@) =~= Seq::<StateView>::empty());
        if self.publish_tickets {
            return (tunnels, states);
        }
        let ghost all = summary_views(tunnels@);
        let mut i: usize = 0;
        assert(all.take(0) =~= Seq::<SummaryView>::empty());
        while i < tunnels.len()
            invariant
                i <= tunnels@.len(),
                all == summary_views(tunnels@),
                state_views(states@) == local_states(all.take(i as int)),
            decreases tunnels@.len() - i,
        {
            let t = &tunnels[i];
            let ghost upto = all.take(i + 1);
            assert(upto.drop_last() =~= all.take(i as int));
            assert(upto.last() == t@);
            let ghost before = state_views(states@);
            if let Some(s) = proxy_state_from_summary(
                t.id.as_str(),
                t.endpoint.as_str(),
                t.label.as_str(),
                t.enabled,
            ) {
                states.push(s);
                assert(state_views(states@) =~= before.push(s@));
            }
            i += 1;
        }
        assert(all.take(all.len() as int) =~= all);
        (tunnels, states)
    }

    /// The local entries to forget for one of the listed tunnels: those that have its host and port
    /// but belong to no listed tunnel. They are left when a tunnel was deleted and made again for
    /// the same endpoint, and an enabled one would let traffic through to a tunnel that is
    /// disabled. Entries with another host or port may belong to other projects and stay.
    pub fn stale_ids(
        &self,
        tunnels: &Vec<TunnelSummary>,
        tunnel: &TunnelSummary,
        local: &Vec<ProxyState>,
    ) -> (r: Vec<String>)
        ensures
            views(r@) == match host_port(stripped(url_parts(tunnel.endpoint@), tunnel.endpoint@)) {
                Some(service) if !self.publish_tickets => stale(
                    state_views(local@),
                    summary_views(tunnels@),
                    service,
                ),
                _ => Seq::empty(),
            },
    {
        let mut out: Vec<String> = Vec::new();
        assert(views(out@) =~= Seq::<Seq<char>>::empty());
        if self.publish_tickets {
            return out;
        }
        let address = super::strip_scheme(tunnel.endpoint.as_str());
        let data = match TcpProxyData::from_host_port_str(address.as_str()) {
            Some(d) => d,
            None => {
                return out;
            },
        };
        let ghost all = state_views(local@);
        let ghost current = summary_views(tunnels@);
        let mut i: usize = 0;
        assert(all.take(0) =~= Seq::<StateView>::empty());
        while i < local.len()
            invariant
                i <= local@.len(),
                all == state_views(local@),
                current == summary_views(tunnels@),
                views(out@) == stale(all.take(i as int), current, data@),
            decreases local@.len() - i,
        {
            let p = &local[i];
            let ghost upto = all.take(i + 1);
            assert(upto.drop_last() =~= all.take(i as int));
            assert(upto.last() == p@);
            let ghost before = views(out@);
            if !has_tunnel(tunnels, p.info.resource_id.as_str()) && same_service(
                &p.info.data,
                &data,
            ) {
                let id = p.id();
                out.push(id);
                assert(views(out@) =~= before.push(id@));
            }
            i += 1;
        }
        assert(all.take(all.len() as int) =~= all);
        out
    }

    /// The plan for a tunnel, or why its endpoint has no target.
    pub fn create_project(&self, label: &str, endpoint: &str) -> (r: Result<
        CreatePlan,
        TargetError,
    >)
        ensures
            match r {
                Ok(plan) => plan.is_for(label@, endpoint@),
                Err(e) => entered_target(endpoint@) == Err::<(Seq<char>, u16), TargetError>(e),
            },
    {
        match entered(endpoint) {
            Ok((endpoint, target)) => Ok(CreatePlan { label: label.to_owned(), endpoint, target }),
            Err(e) => Err(e),
        }
    }

    /// What a tunnel that was made leaves on the device, and its summary. None if its endpoint
    /// names no service for the device.
    pub fn created_project(&self, plan: CreatePlan, proxy: &HTTPProxy) -> (r: Option<
        (LocalChange, TunnelSummary),
    >)
        ensures
            ({
                let name = proxy.metadata.any_name();
                let state = local_state(name, plan.endpoint@, plan.label@, true);
                match r {
                    Some((change, s)) => {
                        &&& s@ == summary(*proxy, name, plan.label@, plan.endpoint@, true)
                        &&& match change {
                            LocalChange::Publish(p) => self.publish_tickets && state == Some(p@),
                            LocalChange::Store(p) => !self.publish_tickets && state == Some(p@),
                            _ => false,
                        }
                    },
                    None => state is None,
                }
            }),
    {
        let name = proxy.metadata.name_any();
        let state = match proxy_state_from_summary(
            name.as_str(),
            plan.endpoint.as_str(),
            plan.label.as_str(),
            true,
        ) {
            Some(s) => s,
            None => {
                return None;
            },
        };
        let change = if self.publish_tickets {
            LocalChange::Publish(state)
        } else {
            LocalChange::Store(state)
        };
        Some((change, summary_of(proxy, name, plan.label, plan.endpoint, true)))
    }

    /// The plan for the change of a tunnel, or why its endpoint has no target.
    pub fn update_project(&self, tunnel_id: &str, label: &str, endpoint: &str) -> (r: Result<
        UpdatePlan,
        TargetError,
    >)
        ensures
            match r {
                Ok(plan) => plan.is_for(tunnel_id@, label@, endpoint@),
                Err(e) => entered_target(endpoint@) == Err::<(Seq<char>, u16), TargetError>(e),
            },
    {
        match entered(endpoint) {
            Ok((endpoint, target)) => Ok(
                UpdatePlan {
                    tunnel_id: tunnel_id.to_owned(),
                    label: label.to_owned(),
                    endpoint,
                    target,
                },
            ),
            Err(e) => Err(e),
        }
    }

    /// The state to store for a tunnel, unless tickets are published.
    fn store(&self, s: &TunnelSummary) -> (r: Option<LocalChange>)
        ensures
            self.stores(s@, r),
    {
        if self.publish_tickets {
            return None;
        }
        match proxy_state_from_summary(
            s.id.as_str(),
            s.endpoint.as_str(),
            s.label.as_str(),
            s.enabled,
        ) {
            Some(p) => Some(LocalChange::Store(p)),
            None => None,
        }
    }

    /// The change stores the state of the tunnel; there is none if tickets are published or the
    /// endpoint names no service.
    pub open spec fn stores(&self, s: SummaryView, change: Option<LocalChange>) -> bool {
        let state = if self.publish_tickets {
            None
        } else {
            local_state(s.id, s.endpoint, s.label, s.enabled)
        };
        match change {
            Some(LocalChange::Store(p)) => state == Some(p@),
            Some(_) => false,
            None => state is None,
        }
    }

    /// What a changed tunnel leaves on the device, and its summary. `existing` is the proxy before
    /// the change.
    pub fn updated_project(&self, plan: UpdatePlan, existing: &HTTPProxy, enabled: bool) -> (r: (
        Option<LocalChange>,
        TunnelSummary,
    ))
        ensures
            r.1@ == summary(*existing, plan.tunnel_id@, plan.label@, plan.endpoint@, enabled),
            self.stores(r.1@, r.0),
    {
        let s = summary_of(existing, plan.tunnel_id, plan.label, plan.endpoint, enabled);
        (self.store(&s), s)
    }

    /// The plan for switching a tunnel on or off, with its first operation. A tunnel whose endpoint
    /// has no target cannot be switched on.
    pub fn set_enabled_project(
        &self,
        tunnel_id: &str,
        connector: &Connector,
        proxy: &HTTPProxy,
        enabled: bool,
    ) -> (r: (EnablePlan, Result<SetEnabled, KubeError>))
        ensures
            r.0.label@ == label_of(*proxy, tunnel_id@),
            r.0.endpoint@ == endpoint_of(*proxy),
            r.0.enabled == enabled,
            r.1 matches Ok(s) ==> enabling_starts(tunnel_id@, *connector, *proxy, enabled, s),
            ({
                let t = trimmed(endpoint_of(*proxy));
                let target = target_of(url_parts(t), t);
                match r.1 {
                    Ok(s) => {
                        &&& s.tunnel_id@ == tunnel_id@
                        &&& s.connector_name@ == connector.metadata.any_name()
                        &&& s.phase is Finding
                        &&& s.wf()
                        &&& match s.target {
                            Some(t) => enabled && target == Ok::<(Seq<char>, u16), TargetError>(
                                (t.address@, t.port),
                            ),
                            None => !enabled,
                        }
                    },
                    Err(e) => enabled && target is Err && (e matches KubeError::Service(m) && m@
                        == target->Err_0.text()),
                }
            }),
    {
        let endpoint = proxy_endpoint(proxy);
        let label = proxy_label(proxy, tunnel_id);
        let operation = SetEnabled::start(
            tunnel_id.to_owned(),
            connector.metadata.name_any(),
            endpoint.as_str(),
            enabled,
        );
        (EnablePlan { label, endpoint, enabled }, operation)
    }

    /// What a tunnel that was switched on or off leaves on the device, and its summary.
    pub fn switched_project(&self, plan: EnablePlan, tunnel_id: &str, proxy: &HTTPProxy) -> (r: (
        Option<LocalChange>,
        TunnelSummary,
    ))
        ensures
            r.1@ == summary(*proxy, tunnel_id@, plan.label@, plan.endpoint@, plan.enabled),
            self.stores(r.1@, r.0),
    {
        let s = summary_of(proxy, tunnel_id.to_owned(), plan.label, plan.endpoint, plan.enabled);
        (self.store(&s), s)
    }

    /// The deletion of a tunnel, given the connector that was found. Without a connector there is
    /// nothing to delete.
    pub fn delete_project(
        &self,
        project_id: &str,
        tunnel_id: &str,
        connector: &Option<Connector>,
    ) -> (r: Result<DeleteTunnel, TunnelDeleteOutcome>)
        ensures
            match r {
                Ok(op) => connector is Some && op.tunnel_id@ == tunnel_id@ && op.connector_name@
                    == connector->0.metadata.any_name() && op.phase is FindingProxy,
                Err(outcome) => connector is None && outcome.project_id@ == project_id@
                    && !outcome.connector_deleted,
            },
    {
        match connector {
            Some(c) => Ok(DeleteTunnel::start(tunnel_id.to_owned(), c.metadata.name_any())),
            None => Err(
                TunnelDeleteOutcome { project_id: project_id.to_owned(), connector_deleted: false },
            ),
        }
    }

    /// What a deleted tunnel leaves to do on the device, and the outcome.
    pub fn deleted_project(
        &self,
        project_id: &str,
        tunnel_id: &str,
        connector_deleted: bool,
    ) -> (r: (LocalChange, TunnelDeleteOutcome))
        ensures
            match r.0 {
                LocalChange::Unpublish(id) => self.publish_tickets && id@ == tunnel_id@,
                LocalChange::Forget(id) => !self.publish_tickets && id@ == tunnel_id@,
                _ => false,
            },
            r.1.project_id@ == project_id@,
            r.1.connector_deleted == connector_deleted,
    {
        let change = if self.publish_tickets {
            LocalChange::Unpublish(tunnel_id.to_owned())
        } else {
            LocalChange::Forget(tunnel_id.to_owned())
        };
        (change, TunnelDeleteOutcome { project_id: project_id.to_owned(), connector_deleted })
    }
}

/// No entry of a listed tunnel is stale; and once the stale entries are gone, every local entry
/// with the service belongs to a listed tunnel.
pub proof fn law_stale_entries(
    local: Seq<StateView>,
    tunnels: Seq<SummaryView>,
    service: (Seq<char>, u16),
)
    ensures
        forall|k: int|
            0 <= k < stale(local, tunnels, service).len() ==> !has_id(
                tunnels,
                #[trigger] stale(local, tunnels, service)[k],
            ),
        forall|i: int|
            0 <= i < local.len() && (#[trigger] local[i]).service == service && !stale(
                local,
                tunnels,
                service,
            ).contains(local[i].id) ==> has_id(tunnels, local[i].id),
    decreases local.len(),
{
    if local.len() > 0 {
        law_stale_entries(local.drop_last(), tunnels, service);
        let before = stale(local.drop_last(), tunnels, service);
        let all = stale(local, tunnels, service);
        let p = local.last();
        assert forall|k: int| 0 <= k < all.len() implies !has_id(tunnels, #[trigger] all[k]) by {
            if k < before.len() {
                assert(all[k] == before[k]);
            }
        }
        assert forall|i: int|
            0 <= i < local.len() && (#[trigger] local[i]).service == service && !all.contains(
                local[i].id,
            ) implies has_id(tunnels, local[i].id) by {
            if i < local.len() - 1 {
                assert(local.drop_last()[i] == local[i]);
                if before.contains(local[i].id) {
                    let k = choose|k: int| 0 <= k < before.len() && before[k] == local[i].id;
                    assert(all[k] == local[i].id);
                }
            } else if !has_id(tunnels, p.id) {
                assert(all[before.len() as int] == p.id);
            }
        }
    }
}

/// Something is switched on by these values and no others.
pub proof fn law_switches_on(value: Seq<char>)
    ensures
        switches_on(value) <==> seq!["1"@, "true"@, "TRUE"@, "yes"@, "YES"@].contains(value),
{
    let all = seq!["1"@, "true"@, "TRUE"@, "yes"@, "YES"@];
    assert(all[0] == "1"@ && all[1] == "true"@ && all[2] == "TRUE"@ && all[3] == "yes"@ && all[4]
        == "YES"@);
}

/// A plan keeps what was entered: the label as it is, and the endpoint with its scheme and the
/// target that it leads to.
pub proof fn law_plans(
    create: CreatePlan,
    update: UpdatePlan,
    tunnel_id: Seq<char>,
    label: Seq<char>,
    endpoint: Seq<char>,
    host: Seq<char>,
    port: u16,
)
    requires
        url_parts(normalized(endpoint)) == Some((Some(host), Some(port))),
    ensures
        create.is_for(label, endpoint) ==> create.label@ == label && create.endpoint@ == normalized(
            endpoint,
        ) && create.target.address@ == host && create.target.port == port,
        update.is_for(tunnel_id, label, endpoint) ==> update.tunnel_id@ == tunnel_id
            && update.label@ == label && update.endpoint@ == normalized(endpoint)
            && update.target.address@ == host && update.target.port == port,
{
    super::reading::law_entered_target(endpoint, host, port);
}

/// The operation of a plan does what was planned, with the connector behind the tunnel and, for a
/// new one, with a policy where policies are switched on.
pub proof fn law_planned_operations(
    create: CreatePlan,
    update: UpdatePlan,
    service: TunnelService,
    connector: Connector,
    making: CreateTunnel,
    changing: UpdateTunnel,
)
    ensures
        create.starts(service, connector, making) ==> making.label@ == create.label@
            && making.endpoint@ == create.endpoint@ && making.connector_name@
            == connector.metadata.any_name() && making.target.address@ == create.target.address@
            && making.target.port == create.target.port && making.policies
            == service.create_traffic_protection_policies && making.phase is Proxy,
        update.starts(connector, changing) ==> changing.tunnel_id@ == update.tunnel_id@
            && changing.label@ == update.label@ && changing.endpoint@ == update.endpoint@
            && changing.connector_name@ == connector.metadata.any_name() && changing.target.address@
            == update.target.address@ && changing.target.port == update.target.port
            && changing.phase is Getting,
{
}

/// What the device stores of a changed tunnel is the tunnel as it is now: its service, its label and
/// whether it is switched on. Nothing is stored where tickets are published.
pub proof fn law_stored(
    service: TunnelService,
    s: SummaryView,
    change: Option<LocalChange>,
    host: Seq<char>,
    port: u16,
)
    requires
        service.stores(s, change),
        url_parts(s.endpoint) == Some((Some(host), Some(port))),
    ensures
        service.publish_tickets ==> change is None,
        !service.publish_tickets ==> (change matches Some(LocalChange::Store(p))
            && p.info.resource_id@ == s.id && p.info.data.host@ == host && p.info.data.port == port
            && p.enabled == s.enabled && (p.info.label matches Some(l) && l@ == s.label)),
{
    super::reading::law_local_state(s.id, s.endpoint, s.label, s.enabled, host, port);
}

} // verus!
