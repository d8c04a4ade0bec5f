//! The operations on tunnels, as sequences of requests to the control plane.
//!
//! An operation is a value that says which request to send and takes the reply. It is over when it
//! has a result or a request failed.
use super::requests::{Outcome, Reply, Request};
use super::{
    advertisement_spec, asked_hostnames, is_advertisement_spec, is_tunnel_rules, parse_target,
    proxy_uses_connector, target_of, tunnel_rules, uses_connector, ParsedTarget,
    ADVERTISEMENT_CONNECTOR_FIELD, DISPLAY_NAME_ANNOTATION,
};
use crate::datum_apis::connector_advertisement::ConnectorAdvertisement;
use crate::datum_apis::http_proxy::{HTTPProxy, HTTPProxySpec};
use crate::datum_apis::meta::ObjectMeta;
use crate::datum_apis::traffic_protection_policy::{
    LocalPolicyTargetReferenceWithSectionName, ParanoiaLevels, TrafficProtectionPolicy,
    TrafficProtectionPolicyMode, TrafficProtectionPolicyRuleSet, TrafficProtectionPolicyRuleSetType,
    TrafficProtectionPolicySpec, OWASPCRS,
};
use crate::project_control_plane::KubeError;
use crate::text::{cat3, copy_all, opt_view, trimmed, views};
use crate::urls::url_parts;
use vstd::pervasive::unreached;
use vstd::prelude::*;

verus! {

/// The selector of the advertisements of a connector.
pub open spec fn advertisements_of(connector_name: Seq<char>) -> Seq<char> {
    ADVERTISEMENT_CONNECTOR_FIELD@ + "="@ + connector_name
}

fn advertisement_selector(connector_name: &str) -> (r: String)
    ensures
        r@ == advertisements_of(connector_name@),
{
    cat3(ADVERTISEMENT_CONNECTOR_FIELD, "=", connector_name)
}

// Listing.

#[derive(Debug)]
pub enum ListPhase {
    Proxies,
    Advertisements(Vec<HTTPProxy>),
}

/// The reading of a project's proxies and of the connector's advertisements.
#[derive(Debug)]
pub struct ListTunnels {
    pub connector_name: String,
    pub phase: ListPhase,
}

impl ListTunnels {
    /// The phase's request.
    pub open spec fn asks(self, request: Request) -> bool {
        match self.phase {
            ListPhase::Proxies => request is ListProxies,
            ListPhase::Advertisements(_) => request matches Request::ListAdvertisements { selector }
                && selector@ == advertisements_of(self.connector_name@),
        }
    }

    /// The replies that can come in this phase.
    pub open spec fn expects(self, reply: Reply) -> bool {
        reply is Failed || match self.phase {
            ListPhase::Proxies => reply is Proxies,
            ListPhase::Advertisements(_) => reply is Advertisements,
        }
    }

    /// What follows on a reply.
    pub open spec fn next(self, reply: Reply) -> Outcome<
        ListTunnels,
        (Vec<HTTPProxy>, Vec<ConnectorAdvertisement>),
    > {
        match (self.phase, reply) {
            (_, Reply::Failed(e)) => Outcome::Failed(e),
            (ListPhase::Proxies, Reply::Proxies(items)) => Outcome::Next(
                ListTunnels { phase: ListPhase::Advertisements(items), ..self },
            ),
            (ListPhase::Advertisements(proxies), Reply::Advertisements(ads)) => Outcome::Done(
                (proxies, ads),
            ),
            _ => arbitrary(),
        }
    }

    pub fn start(connector_name: String) -> (r: ListTunnels)
        ensures
            r == (ListTunnels { connector_name, phase: ListPhase::Proxies }),
    {
        ListTunnels { connector_name, phase: ListPhase::Proxies }
    }

    /// The request to send now.
    pub fn request(&self) -> (r: Request)
        ensures
            self.asks(r),
    {
        match &self.phase {
            ListPhase::Proxies => Request::ListProxies,
            ListPhase::Advertisements(_) => Request::ListAdvertisements {
                selector: advertisement_selector(self.connector_name.as_str()),
            },
        }
    }

    /// What follows on a reply.
    pub fn step(self, reply: Reply) -> (r: Outcome<
        ListTunnels,
        (Vec<HTTPProxy>, Vec<ConnectorAdvertisement>),
    >)
        requires
            self.expects(reply),
        ensures
            r == self.next(reply),
    {
        let ListTunnels { connector_name, phase } = self;
        match (phase, reply) {
            (_, Reply::Failed(e)) => Outcome::Failed(e),
            (ListPhase::Proxies, Reply::Proxies(items)) => Outcome::Next(
                ListTunnels { connector_name, phase: ListPhase::Advertisements(items) },
            ),
            (ListPhase::Advertisements(proxies), Reply::Advertisements(ads)) => Outcome::Done(
                (proxies, ads),
            ),
            _ => unreached(),
        }
    }
}

// Creating.

#[derive(Debug)]
pub enum CreateTunnelPhase {
    Proxy,
    Advertisement(HTTPProxy),
    Policy(HTTPProxy),
}

/// The making of a tunnel: its proxy, then the advertisement and the policy under the proxy's
/// name. The policy is left out where policies are switched off.
#[derive(Debug)]
pub struct CreateTunnel {
    pub label: String,
    pub endpoint: String,
    pub connector_name: String,
    pub target: ParsedTarget,
    pub policies: bool,
    pub phase: CreateTunnelPhase,
}

/// A proxy to be made: with a generated name, the label as its display name, and the rules of a
/// tunnel.
pub open spec fn is_new_proxy(
    proxy: HTTPProxy,
    label: Seq<char>,
    endpoint: Seq<char>,
    connector_name: Seq<char>,
) -> bool {
    &&& proxy.metadata.name is None
    &&& opt_view(proxy.metadata.generate_name) == Some("tunnel-"@)
    &&& proxy.metadata.annotations matches Some(a) && a@.len() == 1 && a@[0].0@
        == DISPLAY_NAME_ANNOTATION@ && a@[0].1@ == label
    &&& proxy.spec.hostnames is None
    &&& is_tunnel_rules(proxy.spec.rules@, endpoint, connector_name)
    &&& proxy.status is None
}

/// Metadata that holds nothing but a name.
pub open spec fn only_named(meta: ObjectMeta, name: Seq<char>) -> bool {
    opt_view(meta.name) == Some(name) && meta.generate_name is None && meta.annotations is None
}

/// An advertisement to be made under the given name.
pub open spec fn is_new_advertisement(
    ad: ConnectorAdvertisement,
    name: Seq<char>,
    connector_name: Seq<char>,
    target: ParsedTarget,
) -> bool {
    &&& only_named(ad.metadata, name)
    &&& is_advertisement_spec(ad.spec, connector_name, target.address@, target.port)
}

/// A policy to be made under the given name: the core rule set is enforced on the gateway of that
/// name, at the lowest paranoia.
pub open spec fn is_new_policy(policy: TrafficProtectionPolicy, name: Seq<char>) -> bool {
    &&& only_named(policy.metadata, name)
    &&& policy.spec.target_refs@.len() == 1
    &&& policy.spec.target_refs@[0].group@ == "gateway.networking.k8s.io"@
    &&& policy.spec.target_refs@[0].kind@ == "Gateway"@
    &&& policy.spec.target_refs@[0].name@ == name
    &&& policy.spec.target_refs@[0].section_name is None
    &&& policy.spec.mode == Some(TrafficProtectionPolicyMode::Enforce)
    &&& policy.spec.rule_sets matches Some(sets) && sets@.len() == 1 && sets@[0]
        == (TrafficProtectionPolicyRuleSet {
        rule_set_type: TrafficProtectionPolicyRuleSetType::OWASPCoreRuleSet,
        owasp_core_rule_set: Some(
            OWASPCRS {
                paranoia_levels: Some(ParanoiaLevels { blocking: Some(1), detection: Some(1) }),
            },
        ),
    })
}

fn named(name: String) -> (r: ObjectMeta)
    ensures
        only_named(r, name@),
{
    ObjectMeta { name: Some(name), generate_name: None, annotations: None }
}

pub fn new_proxy(label: &str, endpoint: &str, connector_name: &str) -> (r: HTTPProxy)
    ensures
        is_new_proxy(r, label@, endpoint@, connector_name@),
{
    let mut annotations: Vec<(String, String)> = Vec::new();
    annotations.push((DISPLAY_NAME_ANNOTATION.to_owned(), label.to_owned()));
    HTTPProxy {
        metadata: ObjectMeta {
            name: None,
            generate_name: Some("tunnel-".to_owned()),
            annotations: Some(annotations),
        },
        spec: HTTPProxySpec { hostnames: None, rules: tunnel_rules(endpoint, connector_name) },
        status: None,
    }
}

pub fn new_advertisement(name: String, connector_name: &str, target: &ParsedTarget) -> (r:
    ConnectorAdvertisement)
    ensures
        is_new_advertisement(r, name@, connector_name@, *target),
{
    ConnectorAdvertisement {
        metadata: named(name),
        spec: advertisement_spec(connector_name, target),
    }
}

pub fn new_policy(name: String) -> (r: TrafficProtectionPolicy)
    ensures
        is_new_policy(r, name@),
{
    let mut target_refs: Vec<LocalPolicyTargetReferenceWithSectionName> = Vec::new();
    target_refs.push(
        LocalPolicyTargetReferenceWithSectionName {
            group: "gateway.networking.k8s.io".to_owned(),
            kind: "Gateway".to_owned(),
            name: name.clone(),
            section_name: None,
        },
    );
    let mut rule_sets: Vec<TrafficProtectionPolicyRuleSet> = Vec::new();
    rule_sets.push(
        TrafficProtectionPolicyRuleSet {
            rule_set_type: TrafficProtectionPolicyRuleSetType::OWASPCoreRuleSet,
            owasp_core_rule_set: Some(
                OWASPCRS {
                    paranoia_levels: Some(ParanoiaLevels { blocking: Some(1), detection: Some(1) }),
                },
            ),
        },
    );
    TrafficProtectionPolicy {
        metadata: named(name),
        spec: TrafficProtectionPolicySpec {
            target_refs,
            mode: Some(TrafficProtectionPolicyMode::Enforce),
            rule_sets: Some(rule_sets),
        },
    }
}

impl CreateTunnel {
    /// The phase's request.
    pub open spec fn asks(self, request: Request) -> bool {
        match self.phase {
            CreateTunnelPhase::Proxy => request matches Request::CreateProxy { proxy }
                && is_new_proxy(proxy, self.label@, self.endpoint@, self.connector_name@),
            CreateTunnelPhase::Advertisement(p) => request matches Request::CreateAdvertisement {
                advertisement,
            } && is_new_advertisement(
                advertisement,
                p.metadata.any_name(),
                self.connector_name@,
                self.target,
            ),
            CreateTunnelPhase::Policy(p) => request matches Request::CreatePolicy { policy }
                && is_new_policy(policy, p.metadata.any_name()),
        }
    }

    /// The replies that can come in this phase.
    pub open spec fn expects(self, reply: Reply) -> bool {
        reply is Failed || match self.phase {
            CreateTunnelPhase::Proxy => reply is Proxy,
            _ => reply is Done,
        }
    }

    /// What follows on a reply.
    pub open spec fn next(self, reply: Reply) -> Outcome<CreateTunnel, HTTPProxy> {
        match (self.phase, reply) {
            (_, Reply::Failed(e)) => Outcome::Failed(e),
            (CreateTunnelPhase::Proxy, Reply::Proxy(p)) => Outcome::Next(
                CreateTunnel { phase: CreateTunnelPhase::Advertisement(p), ..self },
            ),
            (CreateTunnelPhase::Advertisement(p), _) => if self.policies {
                Outcome::Next(CreateTunnel { phase: CreateTunnelPhase::Policy(p), ..self })
            } else {
                Outcome::Done(p)
            },
            (CreateTunnelPhase::Policy(p), _) => Outcome::Done(p),
            _ => arbitrary(),
        }
    }

    pub fn start(
        label: String,
        endpoint: String,
        connector_name: String,
        target: ParsedTarget,
        policies: bool,
    ) -> (r: CreateTunnel)
        ensures
            r == (CreateTunnel {
                label,
                endpoint,
                connector_name,
                target,
                policies,
                phase: CreateTunnelPhase::Proxy,
            }),
    {
        CreateTunnel {
            label,
            endpoint,
            connector_name,
            target,
            policies,
            phase: CreateTunnelPhase::Proxy,
        }
    }

    /// The request to send now.
    pub fn request(&self) -> (r: Request)
        ensures
            self.asks(r),
    {
        match &self.phase {
            CreateTunnelPhase::Proxy => Request::CreateProxy {
                proxy: new_proxy(
                    self.label.as_str(),
                    self.endpoint.as_str(),
                    self.connector_name.as_str(),
                ),
            },
            CreateTunnelPhase::Advertisement(p) => Request::CreateAdvertisement {
                advertisement: new_advertisement(
                    p.metadata.name_any(),
                    self.connector_name.as_str(),
                    &self.target,
                ),
            },
            CreateTunnelPhase::Policy(p) => Request::CreatePolicy {
                policy: new_policy(p.metadata.name_any()),
            },
        }
    }

    /// What follows on a reply.
    pub fn step(self, reply: Reply) -> (r: Outcome<CreateTunnel, HTTPProxy>)
        requires
            self.expects(reply),
        ensures
            r == self.next(reply),
    {
        let CreateTunnel { label, endpoint, connector_name, target, policies, phase } = self;
        match (phase, reply) {
            (_, Reply::Failed(e)) => Outcome::Failed(e),
            (CreateTunnelPhase::Proxy, Reply::Proxy(p)) => Outcome::Next(
                CreateTunnel {
                    label,
                    endpoint,
                    connector_name,
                    target,
                    policies,
                    phase: CreateTunnelPhase::Advertisement(p),
                },
            ),
            (CreateTunnelPhase::Advertisement(p), _) => {
                if policies {
                    Outcome::Next(
                        CreateTunnel {
                            label,
                            endpoint,
                            connector_name,
                            target,
                            policies,
                            phase: CreateTunnelPhase::Policy(p),
                        },
                    )
                } else {
                    Outcome::Done(p)
                }
            },
            (CreateTunnelPhase::Policy(p), _) => Outcome::Done(p),
            _ => unreached(),
        }
    }
}

// Updating.

#[derive(Debug)]
pub enum UpdatePhase {
    Getting,
    PatchingProxy(HTTPProxy),
    FindingAdvertisement(HTTPProxy),
    PatchingAdvertisement(HTTPProxy),
    Checking(HTTPProxy),
}

/// The change of a tunnel's label and endpoint. Its hostnames stay; its advertisement is changed
/// where there is one. The result is the proxy as it was, and whether the tunnel is advertised.
#[derive(Debug)]
pub struct UpdateTunnel {
    pub tunnel_id: String,
    pub label: String,
    pub endpoint: String,
    pub connector_name: String,
    pub target: ParsedTarget,
    pub phase: UpdatePhase,
}

impl UpdateTunnel {
    /// The phase's request.
    pub open spec fn asks(self, request: Request) -> bool {
        match self.phase {
            UpdatePhase::Getting => request == (Request::GetProxy { name: self.tunnel_id }),
            UpdatePhase::PatchingProxy(p) => request matches Request::PatchProxy {
                name,
                label,
                hostnames,
                rules,
            } && name == self.tunnel_id && label == self.label && views(hostnames@)
                == asked_hostnames(p) && is_tunnel_rules(
                rules@,
                self.endpoint@,
                self.connector_name@,
            ),
            UpdatePhase::FindingAdvertisement(_) | UpdatePhase::Checking(_) => request
                == (Request::FindAdvertisement { name: self.tunnel_id }),
            UpdatePhase::PatchingAdvertisement(_) => request matches Request::PatchAdvertisement {
                name,
                spec,
            } && name == self.tunnel_id && is_advertisement_spec(
                spec,
                self.connector_name@,
                self.target.address@,
                self.target.port,
            ),
        }
    }

    /// The replies that can come in this phase.
    pub open spec fn expects(self, reply: Reply) -> bool {
        reply is Failed || match self.phase {
            UpdatePhase::Getting => reply is Proxy,
            UpdatePhase::FindingAdvertisement(_) | UpdatePhase::Checking(_) => reply is Found,
            _ => reply is Done,
        }
    }

    pub open spec fn in_phase(self, phase: UpdatePhase) -> UpdateTunnel {
        UpdateTunnel { phase, ..self }
    }

    /// What follows on a reply.
    pub open spec fn next(self, reply: Reply) -> Outcome<UpdateTunnel, (HTTPProxy, bool)> {
        match (self.phase, reply) {
            (_, Reply::Failed(e)) => Outcome::Failed(e),
            (UpdatePhase::Getting, Reply::Proxy(p)) => Outcome::Next(
                self.in_phase(UpdatePhase::PatchingProxy(p)),
            ),
            (UpdatePhase::PatchingProxy(p), _) => Outcome::Next(
                self.in_phase(UpdatePhase::FindingAdvertisement(p)),
            ),
            (UpdatePhase::FindingAdvertisement(p), Reply::Found(there)) => if there {
                Outcome::Next(self.in_phase(UpdatePhase::PatchingAdvertisement(p)))
            } else {
                Outcome::Next(self.in_phase(UpdatePhase::Checking(p)))
            },
            (UpdatePhase::PatchingAdvertisement(p), _) => Outcome::Next(
                self.in_phase(UpdatePhase::Checking(p)),
            ),
            (UpdatePhase::Checking(p), Reply::Found(there)) => Outcome::Done((p, there)),
            _ => arbitrary(),
        }
    }

    pub fn start(
        tunnel_id: String,
        label: String,
        endpoint: String,
        connector_name: String,
        target: ParsedTarget,
    ) -> (r: UpdateTunnel)
        ensures
            r == (UpdateTunnel {
                tunnel_id,
                label,
                endpoint,
                connector_name,
                target,
                phase: UpdatePhase::Getting,
            }),
    {
        UpdateTunnel {
            tunnel_id,
            label,
            endpoint,
            connector_name,
            target,
            phase: UpdatePhase::Getting,
        }
    }

    /// The request to send now.
    pub fn request(&self) -> (r: Request)
        ensures
            self.asks(r),
    {
        match &self.phase {
            UpdatePhase::Getting => Request::GetProxy { name: self.tunnel_id.clone() },
            UpdatePhase::PatchingProxy(p) => {
                let hostnames = match &p.spec.hostnames {
                    Some(h) => copy_all(h),
                    None => {
                        let none: Vec<String> = Vec::new();
                        assert(views(none@) =~= Seq::<Seq<char>>::empty());
                        none
                    },
                };
                Request::PatchProxy {
                    name: self.tunnel_id.clone(),
                    label: self.label.clone(),
                    hostnames,
                    rules: tunnel_rules(self.endpoint.as_str(), self.connector_name.as_str()),
                }
            },
            UpdatePhase::FindingAdvertisement(_) | UpdatePhase::Checking(_) =>
                Request::FindAdvertisement { name: self.tunnel_id.clone() },
            UpdatePhase::PatchingAdvertisement(_) => Request::PatchAdvertisement {
                name: self.tunnel_id.clone(),
                spec: advertisement_spec(self.connector_name.as_str(), &self.target),
            },
        }
    }

    fn moved(self, phase: UpdatePhase) -> (r: Outcome<UpdateTunnel, (HTTPProxy, bool)>)
        ensures
            r == Outcome::<UpdateTunnel, (HTTPProxy, bool)>::Next(self.in_phase(phase)),
    {
        Outcome::Next(UpdateTunnel { phase, ..self })
    }

    /// What follows on a reply.
    pub fn step(self, reply: Reply) -> (r: Outcome<UpdateTunnel, (HTTPProxy, bool)>)
        requires
            self.expects(reply),
        ensures
            r == self.next(reply),
    {
        let UpdateTunnel { tunnel_id, label, endpoint, connector_name, target, phase } = self;
        let rest = UpdateTunnel {
            tunnel_id,
            label,
            endpoint,
            connector_name,
            target,
            phase: UpdatePhase::Getting,
        };
        match (phase, reply) {
            (_, Reply::Failed(e)) => Outcome::Failed(e),
            (UpdatePhase::Getting, Reply::Proxy(p)) => rest.moved(UpdatePhase::PatchingProxy(p)),
            (UpdatePhase::PatchingProxy(p), _) => rest.moved(UpdatePhase::FindingAdvertisement(p)),
            (UpdatePhase::FindingAdvertisement(p), Reply::Found(there)) => if there {
                rest.moved(UpdatePhase::PatchingAdvertisement(p))
            } else {
                rest.moved(UpdatePhase::Checking(p))
            },
            (UpdatePhase::PatchingAdvertisement(p), _) => rest.moved(UpdatePhase::Checking(p)),
            (UpdatePhase::Checking(p), Reply::Found(there)) => Outcome::Done((p, there)),
            _ => unreached(),
        }
    }
}

// Switching on and off.

#[derive(Debug, Clone, Copy, PartialEq, Eq, Structural)]
pub enum SetEnabledPhase {
    Finding,
    Patching,
    Creating,
    Deleting,
}

/// The switching on or off of a tunnel: on means that it has an advertisement that leads to its
/// target, off that it has none. `target` is there exactly when it is switched on.
#[derive(Debug)]
pub struct SetEnabled {
    pub tunnel_id: String,
    pub connector_name: String,
    pub target: Option<ParsedTarget>,
    pub phase: SetEnabledPhase,
}

impl SetEnabled {
    /// Only a tunnel that is switched on gets an advertisement, only one that is switched off
    /// loses it.
    pub open spec fn wf(self) -> bool {
        match self.phase {
            SetEnabledPhase::Finding => true,
            SetEnabledPhase::Patching | SetEnabledPhase::Creating => self.target is Some,
            SetEnabledPhase::Deleting => self.target is None,
        }
    }

    /// The phase's request.
    pub open spec fn asks(self, request: Request) -> bool {
        match self.phase {
            SetEnabledPhase::Finding => request == (Request::FindAdvertisement {
                name: self.tunnel_id,
            }),
            SetEnabledPhase::Patching => request matches Request::PatchAdvertisement { name, spec }
                && name == self.tunnel_id && self.target is Some && is_advertisement_spec(
                spec,
                self.connector_name@,
                self.target->0.address@,
                self.target->0.port,
            ),
            SetEnabledPhase::Creating => request matches Request::CreateAdvertisement {
                advertisement,
            } && self.target is Some && is_new_advertisement(
                advertisement,
                self.tunnel_id@,
                self.connector_name@,
                self.target->0,
            ),
            SetEnabledPhase::Deleting => request == (Request::DeleteAdvertisement {
                name: self.tunnel_id,
            }),
        }
    }

    /// The replies that can come in this phase.
    pub open spec fn expects(self, reply: Reply) -> bool {
        reply is Failed || match self.phase {
            SetEnabledPhase::Finding => reply is Found,
            _ => reply is Done,
        }
    }

    /// What follows on a reply.
    pub open spec fn next(self, reply: Reply) -> Outcome<SetEnabled, ()> {
        match (self.phase, reply) {
            (_, Reply::Failed(e)) => Outcome::Failed(e),
            (SetEnabledPhase::Finding, Reply::Found(there)) => if self.target is Some {
                if there {
                    Outcome::Next(SetEnabled { phase: SetEnabledPhase::Patching, ..self })
                } else {
                    Outcome::Next(SetEnabled { phase: SetEnabledPhase::Creating, ..self })
                }
            } else if there {
                Outcome::Next(SetEnabled { phase: SetEnabledPhase::Deleting, ..self })
            } else {
                Outcome::Done(())
            },
            _ => Outcome::Done(()),
        }
    }

    /// Starts the switching. A tunnel whose endpoint has no target cannot be switched on.
    pub fn start(tunnel_id: String, connector_name: String, endpoint: &str, enabled: bool) -> (r:
        Result<SetEnabled, KubeError>)
        ensures
            ({
                let target = target_of(url_parts(trimmed(endpoint@)), trimmed(endpoint@));
                match r {
                    Ok(s) => {
                        &&& s.tunnel_id == tunnel_id
                        &&& s.connector_name == connector_name
                        &&& s.phase == SetEnabledPhase::Finding
                        &&& s.wf()
                        &&& match s.target {
                            Some(t) => enabled && target == Ok::<
                                (Seq<char>, u16),
                                super::TargetError,
                            >((t.address@, t.port)),
                            None => !enabled,
                        }
                    },
                    Err(e) => enabled && target is Err && (e matches KubeError::Service(m) && m@
                        == target->Err_0.text()),
                }
            }),
    {
        let target = if enabled {
            match parse_target(endpoint) {
                Ok(t) => Some(t),
                Err(e) => {
                    return Err(KubeError::Service(e.message()));
                },
            }
        } else {
            None
        };
        Ok(SetEnabled { tunnel_id, connector_name, target, phase: SetEnabledPhase::Finding })
    }

    /// The request to send now.
    pub fn request(&self) -> (r: Request)
        requires
            self.wf(),
        ensures
            self.asks(r),
    {
        match (self.phase, &self.target) {
            (SetEnabledPhase::Finding, _) => Request::FindAdvertisement {
                name: self.tunnel_id.clone(),
            },
            (SetEnabledPhase::Patching, Some(t)) => Request::PatchAdvertisement {
                name: self.tunnel_id.clone(),
                spec: advertisement_spec(self.connector_name.as_str(), t),
            },
            (SetEnabledPhase::Creating, Some(t)) => Request::CreateAdvertisement {
                advertisement: new_advertisement(
                    self.tunnel_id.clone(),
                    self.connector_name.as_str(),
                    t,
                ),
            },
            _ => Request::DeleteAdvertisement { name: self.tunnel_id.clone() },
        }
    }

    /// What follows on a reply.
    pub fn step(self, reply: Reply) -> (r: Outcome<SetEnabled, ()>)
        requires
            self.expects(reply),
        ensures
            r == self.next(reply),
            r matches Outcome::Next(s) ==> s.wf(),
    {
        match (self.phase, reply) {
            (_, Reply::Failed(e)) => Outcome::Failed(e),
            (SetEnabledPhase::Finding, Reply::Found(there)) => {
                if self.target.is_some() {
                    if there {
                        Outcome::Next(SetEnabled { phase: SetEnabledPhase::Patching, ..self })
                    } else {
                        Outcome::Next(SetEnabled { phase: SetEnabledPhase::Creating, ..self })
                    }
                } else if there {
                    Outcome::Next(SetEnabled { phase: SetEnabledPhase::Deleting, ..self })
                } else {
                    Outcome::Done(())
                }
            },
            _ => Outcome::Done(()),
        }
    }
}

// Deleting.

#[derive(Debug)]
pub enum DeletePhase {
    FindingProxy,
    DeletingProxy,
    FindingAdvertisement,
    DeletingAdvertisement,
    FindingPolicy,
    DeletingPolicy,
    ListingProxies,
    ListingAdvertisements,
    /// The advertisements left for the connector go one by one; the one at the place is being
    /// deleted.
    ClearingAdvertisements(Vec<ConnectorAdvertisement>, usize),
    FindingConnector,
    DeletingConnector,
}

/// The deletion of a tunnel: its proxy, its advertisement and its policy, each where it is there.
/// If no proxy is left that leads to the connector, the connector goes too, with the
/// advertisements that are left for it. The result says whether the connector was deleted.
#[derive(Debug)]
pub struct DeleteTunnel {
    pub tunnel_id: String,
    pub connector_name: String,
    pub phase: DeletePhase,
}

/// The first place at or after `from` whose advertisement has a name, or the number of
/// advertisements.
pub open spec fn next_named(ads: Seq<ConnectorAdvertisement>, from: int) -> int
    decreases ads.len() - from,
{
    if from < 0 || from >= ads.len() {
        ads.len() as int
    } else if ads[from].metadata.name is Some {
        from
    } else {
        next_named(ads, from + 1)
    }
}

/// Some proxy leads to the connector.
pub open spec fn connector_in_use(proxies: Seq<HTTPProxy>, connector_name: Seq<char>) -> bool {
    exists|i: int| 0 <= i < proxies.len() && uses_connector(#[trigger] proxies[i], connector_name)
}

/// Whether some proxy leads to the connector.
pub fn is_connector_in_use(proxies: &Vec<HTTPProxy>, connector_name: &str) -> (r: bool)
    ensures
        r == connector_in_use(proxies@, connector_name@),
{
    let mut i: usize = 0;
    while i < proxies.len()
        invariant
            i <= proxies@.len(),
            forall|k: int|
                0 <= k < i ==> !uses_connector(#[trigger] proxies@[k], connector_name@),
        decreases proxies@.len() - i,
    {
        if proxy_uses_connector(&proxies[i], connector_name) {
            return true;
        }
        i += 1;
    }
    false
}

fn next_named_place(ads: &Vec<ConnectorAdvertisement>, from: usize) -> (r: usize)
    requires
        from <= ads@.len(),
    ensures
        r == next_named(ads@, from as int),
        from <= r <= ads@.len(),
        r < ads@.len() ==> ads@[r as int].metadata.name is Some,
{
    let mut i: usize = from;
    while i < ads.len()
        invariant
            from <= i <= ads@.len(),
            next_named(ads@, from as int) == next_named(ads@, i as int),
        decreases ads@.len() - i,
    {
        if ads[i].metadata.name.is_some() {
            return i;
        }
        i += 1;
    }
    i
}

impl DeleteTunnel {
    /// The place in the list of advertisements is one of an advertisement with a name.
    pub open spec fn wf(self) -> bool {
        self.phase matches DeletePhase::ClearingAdvertisements(ads, at) ==> at < ads@.len()
            && ads@[at as int].metadata.name is Some
    }

    /// The phase's request.
    pub open spec fn asks(self, request: Request) -> bool {
        match self.phase {
            DeletePhase::FindingProxy => request == (Request::FindProxy { name: self.tunnel_id }),
            DeletePhase::DeletingProxy => request == (Request::DeleteProxy {
                name: self.tunnel_id,
            }),
            DeletePhase::FindingAdvertisement => request == (Request::FindAdvertisement {
                name: self.tunnel_id,
            }),
            DeletePhase::DeletingAdvertisement => request == (Request::DeleteAdvertisement {
                name: self.tunnel_id,
            }),
            DeletePhase::FindingPolicy => request == (Request::FindPolicy { name: self.tunnel_id }),
            DeletePhase::DeletingPolicy => request == (Request::DeletePolicy {
                name: self.tunnel_id,
            }),
            DeletePhase::ListingProxies => request is ListProxies,
            DeletePhase::ListingAdvertisements => request matches Request::ListAdvertisements {
                selector,
            } && selector@ == advertisements_of(self.connector_name@),
            DeletePhase::ClearingAdvertisements(ads, at) =>
                request matches Request::DeleteAdvertisement { name } && ads@[at as int].metadata.name
                == Some(name),
            DeletePhase::FindingConnector => request == (Request::FindConnector {
                name: self.connector_name,
            }),
            DeletePhase::DeletingConnector => request == (Request::DeleteConnector {
                name: self.connector_name,
            }),
        }
    }

    /// The replies that can come in this phase.
    pub open spec fn expects(self, reply: Reply) -> bool {
        reply is Failed || match self.phase {
            DeletePhase::FindingProxy | DeletePhase::FindingAdvertisement
            | DeletePhase::FindingPolicy | DeletePhase::FindingConnector => reply is Found,
            DeletePhase::ListingProxies => reply is Proxies,
            DeletePhase::ListingAdvertisements => reply is Advertisements,
            _ => reply is Done,
        }
    }

    pub open spec fn in_phase(self, phase: DeletePhase) -> Outcome<DeleteTunnel, bool> {
        Outcome::Next(DeleteTunnel { phase, ..self })
    }

    /// The advertisements from a place on are cleared; then the connector's turn comes.
    pub open spec fn clear_from(self, ads: Vec<ConnectorAdvertisement>, from: int) -> Outcome<
        DeleteTunnel,
        bool,
    > {
        let at = next_named(ads@, from);
        if at < ads@.len() {
            self.in_phase(DeletePhase::ClearingAdvertisements(ads, at as usize))
        } else {
            self.in_phase(DeletePhase::FindingConnector)
        }
    }

    /// What follows on a reply. That a left-over advertisement could not be deleted does not end
    /// the deletion; any other failure does.
    pub open spec fn next(self, reply: Reply) -> Outcome<DeleteTunnel, bool> {
        match (self.phase, reply) {
            (DeletePhase::ClearingAdvertisements(ads, at), _) => self.clear_from(ads, at + 1),
            (_, Reply::Failed(e)) => Outcome::Failed(e),
            (DeletePhase::FindingProxy, Reply::Found(true)) => self.in_phase(
                DeletePhase::DeletingProxy,
            ),
            (DeletePhase::FindingProxy, _) => self.in_phase(DeletePhase::FindingAdvertisement),
            (DeletePhase::DeletingProxy, _) => self.in_phase(DeletePhase::FindingAdvertisement),
            (DeletePhase::FindingAdvertisement, Reply::Found(true)) => self.in_phase(
                DeletePhase::DeletingAdvertisement,
            ),
            (DeletePhase::FindingAdvertisement, _) => self.in_phase(DeletePhase::FindingPolicy),
            (DeletePhase::DeletingAdvertisement, _) => self.in_phase(DeletePhase::FindingPolicy),
            (DeletePhase::FindingPolicy, Reply::Found(true)) => self.in_phase(
                DeletePhase::DeletingPolicy,
            ),
            (DeletePhase::FindingPolicy, _) => self.in_phase(DeletePhase::ListingProxies),
            (DeletePhase::DeletingPolicy, _) => self.in_phase(DeletePhase::ListingProxies),
            (DeletePhase::ListingProxies, Reply::Proxies(items)) => if connector_in_use(
                items@,
                self.connector_name@,
            ) {
                Outcome::Done(false)
            } else {
                self.in_phase(DeletePhase::ListingAdvertisements)
            },
            (DeletePhase::ListingAdvertisements, Reply::Advertisements(ads)) => self.clear_from(
                ads,
                0,
            ),
            (DeletePhase::FindingConnector, Reply::Found(true)) => self.in_phase(
                DeletePhase::DeletingConnector,
            ),
            (DeletePhase::FindingConnector, _) => Outcome::Done(false),
            (DeletePhase::DeletingConnector, _) => Outcome::Done(true),
            _ => arbitrary(),
        }
    }

    pub fn start(tunnel_id: String, connector_name: String) -> (r: DeleteTunnel)
        ensures
            r == (DeleteTunnel { tunnel_id, connector_name, phase: DeletePhase::FindingProxy }),
    {
        DeleteTunnel { tunnel_id, connector_name, phase: DeletePhase::FindingProxy }
    }

    /// The request to send now.
    pub fn request(&self) -> (r: Request)
        requires
            self.wf(),
        ensures
            self.asks(r),
    {
        match &self.phase {
            DeletePhase::FindingProxy => Request::FindProxy { name: self.tunnel_id.clone() },
            DeletePhase::DeletingProxy => Request::DeleteProxy { name: self.tunnel_id.clone() },
            DeletePhase::FindingAdvertisement => Request::FindAdvertisement {
                name: self.tunnel_id.clone(),
            },
            DeletePhase::DeletingAdvertisement => Request::DeleteAdvertisement {
                name: self.tunnel_id.clone(),
            },
            DeletePhase::FindingPolicy => Request::FindPolicy { name: self.tunnel_id.clone() },
            DeletePhase::DeletingPolicy => Request::DeletePolicy { name: self.tunnel_id.clone() },
            DeletePhase::ListingProxies => Request::ListProxies,
            DeletePhase::ListingAdvertisements => Request::ListAdvertisements {
                selector: advertisement_selector(self.connector_name.as_str()),
            },
            DeletePhase::ClearingAdvertisements(ads, at) => match &ads[*at].metadata.name {
                Some(name) => Request::DeleteAdvertisement { name: name.clone() },
                None => unreached(),
            },
            DeletePhase::FindingConnector => Request::FindConnector {
                name: self.connector_name.clone(),
            },
            DeletePhase::DeletingConnector => Request::DeleteConnector {
                name: self.connector_name.clone(),
            },
        }
    }

    fn moved(self, phase: DeletePhase) -> (r: Outcome<DeleteTunnel, bool>)
        ensures
            r == self.in_phase(phase),
    {
        Outcome::Next(DeleteTunnel { phase, ..self })
    }

    fn clear(self, ads: Vec<ConnectorAdvertisement>, from: usize) -> (r: Outcome<
        DeleteTunnel,
        bool,
    >)
        requires
            from <= ads@.len(),
        ensures
            r == self.clear_from(ads, from as int),
            r matches Outcome::Next(s) ==> s.wf(),
    {
        let at: usize = next_named_place(&ads, from);
        if at < ads.len() {
            self.moved(DeletePhase::ClearingAdvertisements(ads, at))
        } else {
            self.moved(DeletePhase::FindingConnector)
        }
    }

    /// What follows on a reply.
    pub fn step(self, reply: Reply) -> (r: Outcome<DeleteTunnel, bool>)
        requires
            self.wf(),
            self.expects(reply),
        ensures
            r == self.next(reply),
            r matches Outcome::Next(s) ==> s.wf(),
    {
        let DeleteTunnel { tunnel_id, connector_name, phase } = self;
        let rest = DeleteTunnel { tunnel_id, connector_name, phase: DeletePhase::FindingProxy };
        match (phase, reply) {
            (DeletePhase::ClearingAdvertisements(ads, at), _) => {
                assert(at < ads.len());
                rest.clear(ads, at + 1)
            },
            (_, Reply::Failed(e)) => Outcome::Failed(e),
            (DeletePhase::FindingProxy, Reply::Found(true)) => rest.moved(
                DeletePhase::DeletingProxy,
            ),
            (DeletePhase::FindingProxy, _) => rest.moved(DeletePhase::FindingAdvertisement),
            (DeletePhase::DeletingProxy, _) => rest.moved(DeletePhase::FindingAdvertisement),
            (DeletePhase::FindingAdvertisement, Reply::Found(true)) => rest.moved(
                DeletePhase::DeletingAdvertisement,
            ),
            (DeletePhase::FindingAdvertisement, _) => rest.moved(DeletePhase::FindingPolicy),
            (DeletePhase::DeletingAdvertisement, _) => rest.moved(DeletePhase::FindingPolicy),
            (DeletePhase::FindingPolicy, Reply::Found(true)) => rest.moved(
                DeletePhase::DeletingPolicy,
            ),
            (DeletePhase::FindingPolicy, _) => rest.moved(DeletePhase::ListingProxies),
            (DeletePhase::DeletingPolicy, _) => rest.moved(DeletePhase::ListingProxies),
            (DeletePhase::ListingProxies, Reply::Proxies(items)) => {
                if is_connector_in_use(&items, rest.connector_name.as_str()) {
                    Outcome::Done(false)
                } else {
                    rest.moved(DeletePhase::ListingAdvertisements)
                }
            },
            (DeletePhase::ListingAdvertisements, Reply::Advertisements(ads)) => rest.clear(ads, 0),
            (DeletePhase::FindingConnector, Reply::Found(true)) => rest.moved(
                DeletePhase::DeletingConnector,
            ),
            (DeletePhase::FindingConnector, _) => Outcome::Done(false),
            (DeletePhase::DeletingConnector, _) => Outcome::Done(true),
            _ => unreached(),
        }
    }
}

} // verus!
