//! What the operations on tunnels come to in a control plane that carries out what it is asked and
//! that nobody else changes meanwhile.
use super::laws::{created_after, deleted_after, updated_after};
use super::operations::{
    advertisements_of, connector_in_use, is_new_advertisement, next_named, CreateTunnel,
    CreateTunnelPhase, DeletePhase, DeleteTunnel, SetEnabled, SetEnabledPhase, UpdatePhase,
    UpdateTunnel,
};
use super::requests::{Outcome, Reply, Request};
use super::routing::{offers_only, protects_only, serves};
use super::service::{
    enabling_starts, entered_target, CreatePlan, TunnelService, UpdatePlan,
};
use super::{
    advertised, is_advertisement_spec, is_tunnel_rules, listed, normalized, summary,
    uses_connector, DISPLAY_NAME_ANNOTATION,
};
use crate::datum_apis::connector::Connector;
use crate::datum_apis::connector_advertisement::ConnectorAdvertisement;
use crate::datum_apis::http_proxy::HTTPProxy;
use crate::datum_apis::meta::lookup;
use crate::text::{opt_view, views};
use vstd::prelude::*;

verus! {

/// The resources of a project, under their names.
pub struct Plane {
    pub proxies: Map<Seq<char>, HTTPProxy>,
    pub ads: Map<Seq<char>, ConnectorAdvertisement>,
    pub policies: Set<Seq<char>>,
    pub connectors: Set<Seq<char>>,
}

impl Plane {
    /// Each resource carries the name under which it is found.
    pub open spec fn wf(self) -> bool {
        &&& forall|n: Seq<char>| #[trigger]
            self.proxies.contains_key(n) ==> opt_view(self.proxies[n].metadata.name) == Some(n)
        &&& forall|n: Seq<char>| #[trigger]
            self.ads.contains_key(n) ==> opt_view(self.ads[n].metadata.name) == Some(n)
    }

    /// The connector is the one that the advertisement is for.
    pub open spec fn is_for(self, n: Seq<char>, connector_name: Seq<char>) -> bool {
        self.ads.contains_key(n) && self.ads[n].spec.connector_ref.name@ == connector_name
    }

    /// Some proxy leads to the connector.
    pub open spec fn uses(self, connector_name: Seq<char>) -> bool {
        exists|n: Seq<char>| #[trigger]
            self.proxies.contains_key(n) && uses_connector(self.proxies[n], connector_name)
    }

    /// The row holds the proxies and nothing else.
    pub open spec fn lists_proxies(self, v: Seq<HTTPProxy>) -> bool {
        &&& forall|i: int|
            0 <= i < v.len() ==> exists|n: Seq<char>|
                self.proxies.contains_key(n) && self.proxies[n] == #[trigger] v[i]
        &&& forall|n: Seq<char>| #[trigger]
            self.proxies.contains_key(n) ==> v.contains(self.proxies[n])
    }

    /// The row holds the advertisements of the connector and nothing else.
    pub open spec fn lists_ads(
        self,
        v: Seq<ConnectorAdvertisement>,
        connector_name: Seq<char>,
    ) -> bool {
        &&& forall|i: int|
            0 <= i < v.len() ==> exists|n: Seq<char>|
                self.is_for(n, connector_name) && self.ads[n] == #[trigger] v[i]
        &&& forall|n: Seq<char>| #[trigger]
            self.is_for(n, connector_name) ==> v.contains(self.ads[n])
    }
}

/// A proxy is stored with a name that is not taken, and with the annotations and rules that it was
/// sent with.
pub open spec fn is_stored(plane: Plane, sent: HTTPProxy, stored: HTTPProxy) -> bool {
    &&& stored.metadata.name is Some
    &&& !plane.proxies.contains_key(stored.metadata.name->0@)
    &&& stored.metadata.annotations == sent.metadata.annotations
    &&& stored.spec.rules@ == sent.spec.rules@
}

/// A proxy after the display name, the hostnames and the rules have been merged into it.
pub open spec fn is_patched(old: HTTPProxy, request: Request, new: HTTPProxy) -> bool {
    request matches Request::PatchProxy { name, label, hostnames, rules } && {
        &&& new.metadata.name == old.metadata.name
        &&& new.metadata.annotated(DISPLAY_NAME_ANNOTATION@) == Some(label@)
        &&& new.spec.hostnames matches Some(h) && views(h@) == views(hostnames@)
        &&& new.spec.rules@ == rules@
        &&& new.status == old.status
    }
}

/// The control plane carries out the request: the reply and the resources after it.
pub open spec fn carried_out(p: Plane, request: Request, reply: Reply, q: Plane) -> bool {
    match request {
        Request::ListProxies => q == p && (reply matches Reply::Proxies(v) && p.lists_proxies(v@)),
        Request::GetProxy { name } => q == p && p.proxies.contains_key(name@) && reply
            == Reply::Proxy(p.proxies[name@]),
        Request::FindProxy { name } => q == p && reply == Reply::Found(
            p.proxies.contains_key(name@),
        ),
        Request::CreateProxy { proxy } => reply matches Reply::Proxy(stored) && is_stored(
            p,
            proxy,
            stored,
        ) && q == (Plane {
            proxies: p.proxies.insert(stored.metadata.name->0@, stored),
            ..p
        }),
        Request::PatchProxy { name, .. } => {
            &&& reply is Done
            &&& p.proxies.contains_key(name@)
            &&& exists|new: HTTPProxy| #[trigger]
                is_patched(p.proxies[name@], request, new) && q == (Plane {
                    proxies: p.proxies.insert(name@, new),
                    ..p
                })
        },
        Request::DeleteProxy { name } => reply is Done && q == (Plane {
            proxies: p.proxies.remove(name@),
            ..p
        }),
        Request::ListAdvertisements { selector } => q == p && (
        reply matches Reply::Advertisements(v) && forall|c: Seq<char>|
            selector@ == #[trigger] advertisements_of(c) ==> p.lists_ads(v@, c)),
        Request::FindAdvertisement { name } => q == p && reply == Reply::Found(
            p.ads.contains_key(name@),
        ),
        Request::CreateAdvertisement { advertisement } => reply is Done && (
        advertisement.metadata.name matches Some(n) && q == (Plane {
            ads: p.ads.insert(n@, advertisement),
            ..p
        })),
        Request::PatchAdvertisement { name, spec } => {
            &&& reply is Done
            &&& p.ads.contains_key(name@)
            &&& q == (Plane {
                ads: p.ads.insert(
                    name@,
                    ConnectorAdvertisement { metadata: p.ads[name@].metadata, spec },
                ),
                ..p
            })
        },
        Request::DeleteAdvertisement { name } => reply is Done && q == (Plane {
            ads: p.ads.remove(name@),
            ..p
        }),
        Request::FindPolicy { name } => q == p && reply == Reply::Found(p.policies.contains(name@)),
        Request::CreatePolicy { policy } => reply is Done && (policy.metadata.name matches Some(n)
            && q == (Plane { policies: p.policies.insert(n@), ..p })),
        Request::DeletePolicy { name } => reply is Done && q == (Plane {
            policies: p.policies.remove(name@),
            ..p
        }),
        Request::FindConnector { name } => q == p && reply == Reply::Found(
            p.connectors.contains(name@),
        ),
        Request::DeleteConnector { name } => reply is Done && q == (Plane {
            connectors: p.connectors.remove(name@),
            ..p
        }),
        _ => false,
    }
}

// Creating.

/// The making of a tunnel, each request carried out in turn.
pub open spec fn create_run(start: CreateTunnel, replies: Seq<Reply>, planes: Seq<Plane>) -> bool
    decreases replies.len(),
{
    &&& planes.len() == replies.len() + 1
    &&& replies.len() == 0 || {
        &&& create_run(start, replies.drop_last(), planes.drop_last())
        &&& created_after(start, replies.drop_last()) matches Outcome::Next(s) && exists|q: Request|
            #[trigger]
            s.asks(q) && carried_out(planes[planes.len() - 2], q, replies.last(), planes.last())
    }
}

/// The tunnel has its proxy in the plane, and the other proxies are those from before.
pub open spec fn has_new_proxy(start: CreateTunnel, before: Plane, p: Plane, proxy: HTTPProxy) -> bool {
    &&& proxy.metadata.name is Some
    &&& !before.proxies.contains_key(proxy.metadata.name->0@)
    &&& proxy.metadata.annotated(DISPLAY_NAME_ANNOTATION@) == Some(start.label@)
    &&& is_tunnel_rules(proxy.spec.rules@, start.endpoint@, start.connector_name@)
    &&& p.proxies == before.proxies.insert(proxy.metadata.name->0@, proxy)
}

/// The tunnel's advertisement is in the plane, and the others are those from before.
pub open spec fn has_new_ad(start: CreateTunnel, before: Plane, p: Plane, name: Seq<char>) -> bool {
    exists|ad: ConnectorAdvertisement| #[trigger]
        is_new_advertisement(ad, name, start.connector_name@, start.target) && p.ads
            == before.ads.insert(name, ad)
}

/// A tunnel that was made is there: its proxy, under a name that was not taken, its advertisement
/// and, where policies are switched on, its policy. Nothing else has changed.
pub proof fn law_create_run(start: CreateTunnel, replies: Seq<Reply>, planes: Seq<Plane>)
    requires
        start.phase is Proxy,
        create_run(start, replies, planes),
    ensures
        created_after(start, replies) matches Outcome::Next(s) ==> {
            &&& s == (CreateTunnel { phase: s.phase, ..start })
            &&& match s.phase {
                CreateTunnelPhase::Proxy => planes.last() == planes[0],
                CreateTunnelPhase::Advertisement(proxy) => {
                    &&& has_new_proxy(start, planes[0], planes.last(), proxy)
                    &&& planes.last() == (Plane {
                        proxies: planes.last().proxies,
                        ..planes[0]
                    })
                },
                CreateTunnelPhase::Policy(proxy) => {
                    &&& start.policies
                    &&& has_new_proxy(start, planes[0], planes.last(), proxy)
                    &&& has_new_ad(start, planes[0], planes.last(), proxy.metadata.name->0@)
                    &&& planes.last() == (Plane {
                        proxies: planes.last().proxies,
                        ads: planes.last().ads,
                        ..planes[0]
                    })
                },
            }
        },
        created_after(start, replies) matches Outcome::Done(proxy) ==> {
            &&& has_new_proxy(start, planes[0], planes.last(), proxy)
            &&& has_new_ad(start, planes[0], planes.last(), proxy.metadata.name->0@)
            &&& planes.last().policies == (if start.policies {
                planes[0].policies.insert(proxy.metadata.name->0@)
            } else {
                planes[0].policies
            })
            &&& planes.last().connectors == planes[0].connectors
        },
        !(created_after(start, replies) is Failed),
    decreases replies.len(),
{
    if replies.len() > 0 {
        let before = replies.drop_last();
        let older = planes.drop_last();
        law_create_run(start, before, older);
        assert(older[0] == planes[0]);
        let p = planes[planes.len() - 2];
        assert(older.last() == p);
        let s = created_after(start, before)->Next_0;
        let q = choose|q: Request| #[trigger]
            s.asks(q) && carried_out(p, q, replies.last(), planes.last());
        match s.phase {
            CreateTunnelPhase::Proxy => {
                let sent = q->proxy;
                let stored = replies.last()->Proxy_0;
                reveal_with_fuel(lookup, 2);
                assert(sent.metadata.annotated(DISPLAY_NAME_ANNOTATION@) == Some(start.label@));
                assert(is_tunnel_rules(
                    stored.spec.rules@,
                    start.endpoint@,
                    start.connector_name@,
                ));
            },
            CreateTunnelPhase::Advertisement(proxy) => {
                let ad = q->advertisement;
                assert(is_new_advertisement(
                    ad,
                    proxy.metadata.name->0@,
                    start.connector_name@,
                    start.target,
                ));
            },
            CreateTunnelPhase::Policy(proxy) => {
                let n = proxy.metadata.name->0@;
                let ad = choose|ad: ConnectorAdvertisement| #[trigger]
                    is_new_advertisement(ad, n, start.connector_name@, start.target) && p.ads
                        == planes[0].ads.insert(n, ad);
                assert(planes.last().ads == planes[0].ads.insert(n, ad));
                assert(has_new_ad(start, planes[0], planes.last(), n));
            },
        }
    }
}

/// What was written is read back: after a tunnel was made for an endpoint, listing the tunnels of
/// its connector shows it with its label and its endpoint, and as enabled.
pub proof fn law_created_is_listed(
    start: CreateTunnel,
    replies: Seq<Reply>,
    planes: Seq<Plane>,
    endpoint: Seq<char>,
    proxies: Seq<HTTPProxy>,
    ads: Seq<ConnectorAdvertisement>,
)
    requires
        start.phase is Proxy,
        start.endpoint@ == normalized(endpoint),
        create_run(start, replies, planes),
        created_after(start, replies) is Done,
        planes.last().lists_proxies(proxies),
        planes.last().lists_ads(ads, start.connector_name@),
    ensures
        ({
            let proxy = created_after(start, replies)->Done_0;
            listed(proxies, ads, start.connector_name@).contains(
                summary(
                    proxy,
                    proxy.metadata.name->0@,
                    start.label@,
                    normalized(endpoint),
                    true,
                ),
            )
        }),
{
    law_create_run(start, replies, planes);
    let proxy = created_after(start, replies)->Done_0;
    let n = proxy.metadata.name->0@;
    let p = planes.last();
    assert(p.proxies.contains_key(n) && p.proxies[n] == proxy);
    let i = choose|i: int| 0 <= i < proxies.len() && proxies[i] == proxy;
    let ad = choose|ad: ConnectorAdvertisement| #[trigger]
        is_new_advertisement(ad, n, start.connector_name@, start.target) && p.ads
            == planes[0].ads.insert(n, ad);
    assert(p.ads[n] == ad);
    assert(p.is_for(n, start.connector_name@));
    let k = choose|k: int| 0 <= k < ads.len() && ads[k] == ad;
    assert(opt_view(ads[k].metadata.name) == Some(n));
    assert(advertised(ads, n));
    super::laws::law_written_tunnel_is_listed(
        proxies,
        ads,
        i,
        start.label@,
        endpoint,
        start.connector_name@,
    );
}

/// A tunnel that was made for an endpoint works: whoever asks for any path over HTTPS is handed to
/// the endpoint that was entered, whoever asks over plain HTTP is sent to HTTPS, and the connector
/// offers the endpoint's host and port and nothing else.
pub proof fn law_created_works(
    service: TunnelService,
    plan: CreatePlan,
    label: Seq<char>,
    endpoint: Seq<char>,
    connector: Connector,
    start: CreateTunnel,
    replies: Seq<Reply>,
    planes: Seq<Plane>,
)
    requires
        plan.is_for(label, endpoint),
        plan.starts(service, connector, start),
        create_run(start, replies, planes),
        created_after(start, replies) is Done,
    ensures
        ({
            let proxy = created_after(start, replies)->Done_0;
            let n = proxy.metadata.name->0@;
            let p = planes.last();
            let c = connector.metadata.any_name();
            &&& proxy.metadata.name is Some
            &&& p.proxies.contains_key(n) && p.proxies[n] == proxy
            &&& proxy.metadata.annotated(DISPLAY_NAME_ANNOTATION@) == Some(label)
            &&& serves(proxy.spec.rules@, normalized(endpoint), c)
            &&& p.ads.contains_key(n)
            &&& entered_target(endpoint) matches Ok(t) && offers_only(
                p.ads[n].spec,
                c,
                t.0,
                t.1 as int,
            )
            &&& p.policies.contains(n) || !service.create_traffic_protection_policies
        }),
{
    law_create_run(start, replies, planes);
    let proxy = created_after(start, replies)->Done_0;
    let n = proxy.metadata.name->0@;
    let p = planes.last();
    super::routing::law_rules_serve(proxy.spec.rules@, start.endpoint@, start.connector_name@);
    let ad = choose|ad: ConnectorAdvertisement| #[trigger]
        is_new_advertisement(ad, n, start.connector_name@, start.target) && p.ads
            == planes[0].ads.insert(n, ad);
    super::routing::law_new_advertisement_offers(ad, n, start.connector_name@, start.target);
}

/// The policy that is asked for a tunnel blocks attacks on the gateway of that tunnel, under its
/// name.
pub proof fn law_created_policy(s: CreateTunnel, request: Request)
    requires
        s.phase is Policy,
        s.asks(request),
    ensures
        request matches Request::CreatePolicy { policy } && policy.metadata.name is Some
            && policy.metadata.name->0@ == s.phase->Policy_0.metadata.any_name() && protects_only(
            policy,
            s.phase->Policy_0.metadata.any_name(),
        ),
{
    super::routing::law_new_policy_protects(
        request->policy,
        s.phase->Policy_0.metadata.any_name(),
    );
}

// Updating.

/// The change of a tunnel, each request carried out in turn.
pub open spec fn update_run(start: UpdateTunnel, replies: Seq<Reply>, planes: Seq<Plane>) -> bool
    decreases replies.len(),
{
    &&& planes.len() == replies.len() + 1
    &&& replies.len() == 0 || {
        &&& update_run(start, replies.drop_last(), planes.drop_last())
        &&& updated_after(start, replies.drop_last()) matches Outcome::Next(s) && exists|q: Request|
            #[trigger]
            s.asks(q) && carried_out(planes[planes.len() - 2], q, replies.last(), planes.last())
    }
}

/// The proxy carries the label and the rules of the change, and asks for the hostnames from before.
pub open spec fn is_updated(start: UpdateTunnel, old: HTTPProxy, new: HTTPProxy) -> bool {
    &&& new.metadata.name == old.metadata.name
    &&& new.metadata.annotated(DISPLAY_NAME_ANNOTATION@) == Some(start.label@)
    &&& is_tunnel_rules(new.spec.rules@, start.endpoint@, start.connector_name@)
    &&& super::asked_hostnames(new) == super::asked_hostnames(old)
    &&& new.status == old.status
}

/// The tunnel's proxy is changed in the plane, and the other proxies are those from before.
pub open spec fn has_updated(start: UpdateTunnel, before: Plane, p: Plane, old: HTTPProxy) -> bool {
    let id = start.tunnel_id@;
    &&& before.proxies.contains_key(id)
    &&& old == before.proxies[id]
    &&& exists|new: HTTPProxy| #[trigger]
        is_updated(start, old, new) && p.proxies == before.proxies.insert(id, new)
}

/// The advertisements are those from before, but for the tunnel's own, which is there exactly if it
/// was there.
pub open spec fn ads_kept(start: UpdateTunnel, before: Plane, p: Plane) -> bool {
    &&& p.ads.dom() == before.ads.dom()
    &&& forall|n: Seq<char>| #[trigger]
        before.ads.contains_key(n) && n != start.tunnel_id@ ==> p.ads[n] == before.ads[n]
    &&& before.ads.contains_key(start.tunnel_id@) ==> is_advertisement_spec(
        p.ads[start.tunnel_id@].spec,
        start.connector_name@,
        start.target.address@,
        start.target.port,
    ) && p.ads[start.tunnel_id@].metadata == before.ads[start.tunnel_id@].metadata
}

/// A tunnel that was changed carries its new label and leads to its new endpoint; its hostnames, the
/// other tunnels, and whether it is enabled are as before.
pub proof fn law_update_run(start: UpdateTunnel, replies: Seq<Reply>, planes: Seq<Plane>)
    requires
        start.phase is Getting,
        update_run(start, replies, planes),
    ensures
        planes.last().policies == planes[0].policies,
        planes.last().connectors == planes[0].connectors,
        updated_after(start, replies) matches Outcome::Next(s) ==> {
            &&& s == (UpdateTunnel { phase: s.phase, ..start })
            &&& match s.phase {
                UpdatePhase::Getting => planes.last() == planes[0],
                UpdatePhase::PatchingProxy(old) => planes.last() == planes[0]
                    && planes[0].proxies.contains_key(start.tunnel_id@) && old
                    == planes[0].proxies[start.tunnel_id@],
                UpdatePhase::FindingAdvertisement(old) => has_updated(
                    start,
                    planes[0],
                    planes.last(),
                    old,
                ) && planes.last().ads == planes[0].ads,
                UpdatePhase::PatchingAdvertisement(old) => has_updated(
                    start,
                    planes[0],
                    planes.last(),
                    old,
                ) && planes.last().ads == planes[0].ads && planes[0].ads.contains_key(
                    start.tunnel_id@,
                ),
                UpdatePhase::Checking(old) => has_updated(start, planes[0], planes.last(), old)
                    && ads_kept(start, planes[0], planes.last()),
            }
        },
        updated_after(start, replies) matches Outcome::Done((old, enabled)) ==> {
            &&& has_updated(start, planes[0], planes.last(), old)
            &&& ads_kept(start, planes[0], planes.last())
            &&& enabled == planes[0].ads.contains_key(start.tunnel_id@)
        },
        !(updated_after(start, replies) is Failed),
    decreases replies.len(),
{
    if replies.len() > 0 {
        let before = replies.drop_last();
        let older = planes.drop_last();
        law_update_run(start, before, older);
        assert(older[0] == planes[0]);
        let p = planes[planes.len() - 2];
        assert(older.last() == p);
        let s = updated_after(start, before)->Next_0;
        let id = start.tunnel_id@;
        let q = choose|q: Request| #[trigger]
            s.asks(q) && carried_out(p, q, replies.last(), planes.last());
        match s.phase {
            UpdatePhase::PatchingProxy(old) => {
                let new = choose|new: HTTPProxy| #[trigger]
                    is_patched(p.proxies[id], q, new) && planes.last() == (Plane {
                        proxies: p.proxies.insert(id, new),
                        ..p
                    });
                assert(is_updated(start, old, new));
            },
            UpdatePhase::PatchingAdvertisement(old) => {
                assert(planes.last().ads.dom() =~= planes[0].ads.dom());
            },
            _ => {},
        }
    }
}

/// What was changed is read back: listing the tunnels of the connector shows the tunnel with its new
/// label and endpoint, and as enabled exactly if it was enabled for this connector.
pub proof fn law_updated_is_listed(
    start: UpdateTunnel,
    replies: Seq<Reply>,
    planes: Seq<Plane>,
    endpoint: Seq<char>,
    proxies: Seq<HTTPProxy>,
    ads: Seq<ConnectorAdvertisement>,
)
    requires
        start.phase is Getting,
        start.endpoint@ == normalized(endpoint),
        planes.len() > 0 && planes[0].wf(),
        update_run(start, replies, planes),
        updated_after(start, replies) is Done,
        planes.last().lists_proxies(proxies),
    ensures
        exists|new: HTTPProxy| #[trigger]
            is_updated(start, planes[0].proxies[start.tunnel_id@], new) && listed(
                proxies,
                ads,
                start.connector_name@,
            ).contains(
                summary(
                    new,
                    start.tunnel_id@,
                    start.label@,
                    normalized(endpoint),
                    advertised(ads, start.tunnel_id@),
                ),
            ),
{
    law_update_run(start, replies, planes);
    let id = start.tunnel_id@;
    let old = planes[0].proxies[id];
    let p = planes.last();
    let new = choose|new: HTTPProxy| #[trigger]
        is_updated(start, old, new) && p.proxies == planes[0].proxies.insert(id, new);
    assert(p.proxies.contains_key(id) && p.proxies[id] == new);
    assert(opt_view(new.metadata.name) == Some(id));
    let i = choose|i: int| 0 <= i < proxies.len() && proxies[i] == new;
    super::laws::law_written_tunnel_is_listed(
        proxies,
        ads,
        i,
        start.label@,
        endpoint,
        start.connector_name@,
    );
}

/// A tunnel that was changed works: its proxy serves the endpoint that was entered under the new
/// label and asks for the same hostnames as before, and where it is enabled the connector offers
/// the endpoint's host and port and nothing else.
pub proof fn law_updated_works(
    plan: UpdatePlan,
    tunnel_id: Seq<char>,
    label: Seq<char>,
    endpoint: Seq<char>,
    connector: Connector,
    start: UpdateTunnel,
    replies: Seq<Reply>,
    planes: Seq<Plane>,
)
    requires
        plan.is_for(tunnel_id, label, endpoint),
        plan.starts(connector, start),
        update_run(start, replies, planes),
        updated_after(start, replies) is Done,
    ensures
        ({
            let p = planes.last();
            let c = connector.metadata.any_name();
            &&& planes[0].proxies.contains_key(tunnel_id) && p.proxies.contains_key(tunnel_id)
            &&& p.proxies[tunnel_id].metadata.annotated(DISPLAY_NAME_ANNOTATION@) == Some(label)
            &&& serves(p.proxies[tunnel_id].spec.rules@, normalized(endpoint), c)
            &&& super::asked_hostnames(p.proxies[tunnel_id]) == super::asked_hostnames(
                planes[0].proxies[tunnel_id],
            )
            &&& p.ads.contains_key(tunnel_id) == planes[0].ads.contains_key(tunnel_id)
            &&& p.ads.contains_key(tunnel_id) ==> (entered_target(endpoint) matches Ok(t)
                && offers_only(p.ads[tunnel_id].spec, c, t.0, t.1 as int))
            &&& updated_after(start, replies)->Done_0.1 == p.ads.contains_key(tunnel_id)
        }),
{
    law_update_run(start, replies, planes);
    let p = planes.last();
    let old = planes[0].proxies[tunnel_id];
    let new = choose|new: HTTPProxy| #[trigger]
        is_updated(start, old, new) && p.proxies == planes[0].proxies.insert(tunnel_id, new);
    super::routing::law_rules_serve(new.spec.rules@, start.endpoint@, start.connector_name@);
    assert(p.ads.contains_key(tunnel_id) == p.ads.dom().contains(tunnel_id));
    assert(planes[0].ads.contains_key(tunnel_id) == planes[0].ads.dom().contains(tunnel_id));
    if p.ads.contains_key(tunnel_id) {
        super::routing::law_advertisement_offers(
            p.ads[tunnel_id].spec,
            start.connector_name@,
            start.target.address@,
            start.target.port,
        );
    }
}

// Switching on and off.

/// A tunnel that was switched on is advertised for the connector, one that was switched off is not;
/// nothing else has changed.
pub proof fn law_switched(
    s: SetEnabled,
    first: Request,
    found: Reply,
    second: Request,
    done: Reply,
    p: Plane,
    q: Plane,
)
    requires
        s.phase == SetEnabledPhase::Finding,
        s.asks(first),
        carried_out(p, first, found, p),
        match s.next(found) {
            Outcome::Next(t) => t.asks(second) && carried_out(p, second, done, q) && t.next(done)
                is Done,
            Outcome::Done(_) => q == p,
            Outcome::Failed(_) => false,
        },
    ensures
        q.ads.contains_key(s.tunnel_id@) == (s.target is Some),
        s.target is Some ==> q.is_for(s.tunnel_id@, s.connector_name@),
        s.target matches Some(t) ==> offers_only(
            q.ads[s.tunnel_id@].spec,
            s.connector_name@,
            t.address@,
            t.port as int,
        ),
        forall|n: Seq<char>| #![trigger q.ads.contains_key(n)] #![trigger p.ads.contains_key(n)]
            n != s.tunnel_id@ ==> q.ads.contains_key(n) == p.ads.contains_key(n) && (
            p.ads.contains_key(n) ==> q.ads[n] == p.ads[n]),
        q == (Plane { ads: q.ads, ..p }),
{
    if let Some(t) = s.target {
        super::routing::law_advertisement_offers(
            q.ads[s.tunnel_id@].spec,
            s.connector_name@,
            t.address@,
            t.port,
        );
    }
}

/// A tunnel that is switched on is advertised with the host and port of the endpoint that its proxy
/// leads to; one that is switched off is not advertised.
pub proof fn law_switched_to_endpoint(
    tunnel_id: Seq<char>,
    connector: Connector,
    proxy: HTTPProxy,
    enabled: bool,
    s: SetEnabled,
    first: Request,
    found: Reply,
    second: Request,
    done: Reply,
    p: Plane,
    q: Plane,
)
    requires
        enabling_starts(tunnel_id, connector, proxy, enabled, s),
        s.asks(first),
        carried_out(p, first, found, p),
        match s.next(found) {
            Outcome::Next(t) => t.asks(second) && carried_out(p, second, done, q) && t.next(done)
                is Done,
            Outcome::Done(_) => q == p,
            Outcome::Failed(_) => false,
        },
    ensures
        q.ads.contains_key(tunnel_id) == enabled,
        enabled ==> (entered_target(super::endpoint_of(proxy)) matches Ok(t) && offers_only(
            q.ads[tunnel_id].spec,
            connector.metadata.any_name(),
            t.0,
            t.1 as int,
        )),
{
    super::law_normalize_idempotent(
        match super::first_endpoint(proxy.spec.rules@) {
            Some(e) => e,
            None => Seq::empty(),
        },
    );
    law_switched(s, first, found, second, done, p, q);
}

/// Switching a tunnel off and on again gives the advertisement that it was made with: it offers the
/// host and port of the endpoint that was entered, behind the same connector.
pub proof fn law_switched_on_again(
    service: TunnelService,
    plan: CreatePlan,
    label: Seq<char>,
    endpoint: Seq<char>,
    connector: Connector,
    start: CreateTunnel,
    replies: Seq<Reply>,
    planes: Seq<Plane>,
    s: SetEnabled,
    first: Request,
    found: Reply,
    second: Request,
    done: Reply,
    p: Plane,
    q: Plane,
)
    requires
        plan.is_for(label, endpoint),
        plan.starts(service, connector, start),
        create_run(start, replies, planes),
        created_after(start, replies) is Done,
        enabling_starts(
            created_after(start, replies)->Done_0.metadata.name->0@,
            connector,
            created_after(start, replies)->Done_0,
            true,
            s,
        ),
        s.asks(first),
        carried_out(p, first, found, p),
        match s.next(found) {
            Outcome::Next(t) => t.asks(second) && carried_out(p, second, done, q) && t.next(done)
                is Done,
            Outcome::Done(_) => q == p,
            Outcome::Failed(_) => false,
        },
    ensures
        ({
            let n = created_after(start, replies)->Done_0.metadata.name->0@;
            &&& planes.last().ads.contains_key(n) && q.ads.contains_key(n)
            &&& entered_target(endpoint) matches Ok(t) && {
                &&& offers_only(
                    planes.last().ads[n].spec,
                    connector.metadata.any_name(),
                    t.0,
                    t.1 as int,
                )
                &&& offers_only(q.ads[n].spec, connector.metadata.any_name(), t.0, t.1 as int)
            }
        }),
{
    let proxy = created_after(start, replies)->Done_0;
    let n = proxy.metadata.name->0@;
    law_created_works(service, plan, label, endpoint, connector, start, replies, planes);
    law_create_run(start, replies, planes);
    super::laws::law_rules_read_back(proxy, start.endpoint@, start.connector_name@);
    super::law_normalize_idempotent(endpoint);
    law_switched_to_endpoint(
        n,
        connector,
        proxy,
        true,
        s,
        first,
        found,
        second,
        done,
        p,
        q,
    );
}

// Deleting.

/// The deletion of a tunnel, each request carried out in turn.
pub open spec fn delete_run(start: DeleteTunnel, replies: Seq<Reply>, planes: Seq<Plane>) -> bool
    decreases replies.len(),
{
    &&& planes.len() == replies.len() + 1
    &&& replies.len() == 0 || {
        &&& delete_run(start, replies.drop_last(), planes.drop_last())
        &&& deleted_after(start, replies.drop_last()) matches Outcome::Next(s) && exists|q: Request|
            #[trigger]
            s.asks(q) && carried_out(planes[planes.len() - 2], q, replies.last(), planes.last())
    }
}

/// The plane without the proxy, the advertisement and the policy of a tunnel.
pub open spec fn without_tunnel(p: Plane, id: Seq<char>) -> Plane {
    Plane {
        proxies: p.proxies.remove(id),
        ads: p.ads.remove(id),
        policies: p.policies.remove(id),
        connectors: p.connectors,
    }
}

/// Some of the connector's advertisements are gone, and nothing else is.
pub open spec fn ads_thinned(base: Plane, p: Plane, connector_name: Seq<char>) -> bool {
    &&& p == (Plane { ads: p.ads, ..base })
    &&& forall|n: Seq<char>| #[trigger]
        p.ads.contains_key(n) ==> base.ads.contains_key(n) && p.ads[n] == base.ads[n]
    &&& forall|n: Seq<char>| #[trigger]
        base.ads.contains_key(n) && !base.is_for(n, connector_name) ==> p.ads.contains_key(n)
}

/// None of the connector's advertisements is left.
pub open spec fn no_ads_for(p: Plane, connector_name: Seq<char>) -> bool {
    forall|n: Seq<char>| !(#[trigger] p.is_for(n, connector_name))
}

/// How far the deletion has come in the plane.
pub open spec fn delete_state(start: DeleteTunnel, p0: Plane, p: Plane, phase: DeletePhase) -> bool {
    let id = start.tunnel_id@;
    let c = start.connector_name@;
    let base = without_tunnel(p0, id);
    match phase {
        DeletePhase::FindingProxy | DeletePhase::DeletingProxy => p == p0,
        DeletePhase::FindingAdvertisement | DeletePhase::DeletingAdvertisement => p == (Plane {
            proxies: p0.proxies.remove(id),
            ..p0
        }),
        DeletePhase::FindingPolicy | DeletePhase::DeletingPolicy => p == (Plane {
            proxies: p0.proxies.remove(id),
            ads: p0.ads.remove(id),
            ..p0
        }),
        DeletePhase::ListingProxies => p == base,
        DeletePhase::ListingAdvertisements => p == base && !base.uses(c),
        DeletePhase::ClearingAdvertisements(ads, at) => {
            &&& !base.uses(c)
            &&& base.lists_ads(ads@, c)
            &&& ads_thinned(base, p, c)
            &&& at < ads@.len() && ads@[at as int].metadata.name is Some
            &&& forall|i: int|
                0 <= i < at && (#[trigger] ads@[i]).metadata.name is Some ==> !p.ads.contains_key(
                    ads@[i].metadata.name->0@,
                )
        },
        DeletePhase::FindingConnector => !base.uses(c) && ads_thinned(base, p, c) && no_ads_for(
            p,
            c,
        ),
        DeletePhase::DeletingConnector => !base.uses(c) && ads_thinned(base, p, c) && no_ads_for(
            p,
            c,
        ) && p.connectors.contains(c),
    }
}

proof fn lemma_next_named_skips(ads: Seq<ConnectorAdvertisement>, from: int)
    requires
        0 <= from <= ads.len(),
    ensures
        from <= next_named(ads, from) <= ads.len(),
        next_named(ads, from) < ads.len() ==> ads[next_named(ads, from)].metadata.name is Some,
        forall|i: int| from <= i < next_named(ads, from) ==> (#[trigger] ads[i]).metadata.name is None,
    decreases ads.len() - from,
{
    if from < ads.len() && ads[from].metadata.name is None {
        lemma_next_named_skips(ads, from + 1);
    }
}

proof fn lemma_cleared(
    base: Plane,
    p: Plane,
    ads: Vec<ConnectorAdvertisement>,
    c: Seq<char>,
    from: int,
)
    requires
        base.wf(),
        base.lists_ads(ads@, c),
        ads_thinned(base, p, c),
        0 <= from <= ads@.len(),
        next_named(ads@, from) >= ads@.len(),
        forall|i: int|
            0 <= i < from && (#[trigger] ads@[i]).metadata.name is Some ==> !p.ads.contains_key(
                ads@[i].metadata.name->0@,
            ),
    ensures
        no_ads_for(p, c),
{
    lemma_next_named_skips(ads@, from);
    assert forall|n: Seq<char>| !(#[trigger] p.is_for(n, c)) by {
        if p.is_for(n, c) {
            assert(p.ads.contains_key(n));
            assert(base.is_for(n, c));
            let i = choose|i: int| 0 <= i < ads@.len() && ads@[i] == base.ads[n];
            assert(opt_view(ads@[i].metadata.name) == Some(n));
            assert(ads@[i].metadata.name is Some);
        }
    }
}

proof fn lemma_clear_from(
    start: DeleteTunnel,
    s: DeleteTunnel,
    p0: Plane,
    p: Plane,
    ads: Vec<ConnectorAdvertisement>,
    from: int,
)
    requires
        p0.wf(),
        s == (DeleteTunnel { phase: s.phase, ..start }),
        0 <= from <= ads@.len(),
        ({
            let base = without_tunnel(p0, start.tunnel_id@);
            let c = start.connector_name@;
            &&& !base.uses(c)
            &&& base.lists_ads(ads@, c)
            &&& ads_thinned(base, p, c)
        }),
        forall|i: int|
            0 <= i < from && (#[trigger] ads@[i]).metadata.name is Some ==> !p.ads.contains_key(
                ads@[i].metadata.name->0@,
            ),
    ensures
        s.clear_from(ads, from) matches Outcome::Next(t) && t == (DeleteTunnel {
            phase: t.phase,
            ..start
        }) && delete_state(start, p0, p, t.phase),
{
    let base = without_tunnel(p0, start.tunnel_id@);
    let c = start.connector_name@;
    lemma_next_named_skips(ads@, from);
    assert(ads.len() == ads@.len());
    let at = next_named(ads@, from);
    if at >= ads@.len() {
        lemma_cleared(base, p, ads, c, from);
    }
}

/// A tunnel that was deleted is gone: its proxy, its advertisement and its policy. While another
/// proxy leads to the connector nothing else has changed. Otherwise the connector and its
/// advertisements are gone too, and the result says whether the connector was there.
pub proof fn law_delete_run(start: DeleteTunnel, replies: Seq<Reply>, planes: Seq<Plane>)
    requires
        start.phase is FindingProxy,
        delete_run(start, replies, planes),
        planes[0].wf(),
    ensures
        deleted_after(start, replies) matches Outcome::Next(s) ==> {
            &&& s == (DeleteTunnel { phase: s.phase, ..start })
            &&& delete_state(start, planes[0], planes.last(), s.phase)
        },
        deleted_after(start, replies) matches Outcome::Done(connector_deleted) ==> {
            let base = without_tunnel(planes[0], start.tunnel_id@);
            let c = start.connector_name@;
            if base.uses(c) {
                !connector_deleted && planes.last() == base
            } else {
                &&& ads_thinned(
                    Plane { connectors: base.connectors.remove(c), ..base },
                    planes.last(),
                    c,
                )
                &&& no_ads_for(planes.last(), c)
                &&& connector_deleted == base.connectors.contains(c)
            }
        },
        !(deleted_after(start, replies) is Failed),
    decreases replies.len(),
{
    if replies.len() > 0 {
        let before = replies.drop_last();
        let older = planes.drop_last();
        assert(older[0] == planes[0]);
        law_delete_run(start, before, older);
        let p0 = planes[0];
        let p = planes[planes.len() - 2];
        let r = planes.last();
        assert(older.last() == p);
        let s = deleted_after(start, before)->Next_0;
        let id = start.tunnel_id@;
        let c = start.connector_name@;
        let base = without_tunnel(p0, id);
        let q = choose|q: Request| #[trigger]
            s.asks(q) && carried_out(p, q, replies.last(), r);
        match s.phase {
            DeletePhase::FindingProxy => {
                if !p0.proxies.contains_key(id) {
                    assert(p0.proxies.remove(id) =~= p0.proxies);
                }
            },
            DeletePhase::DeletingProxy => {},
            DeletePhase::FindingAdvertisement => {
                if !p0.ads.contains_key(id) {
                    assert(p0.ads.remove(id) =~= p0.ads);
                }
            },
            DeletePhase::DeletingAdvertisement => {},
            DeletePhase::FindingPolicy => {
                if !p0.policies.contains(id) {
                    assert(p0.policies.remove(id) =~= p0.policies);
                }
            },
            DeletePhase::DeletingPolicy => {},
            DeletePhase::ListingProxies => {
                let v = replies.last()->Proxies_0;
                if connector_in_use(v@, c) {
                    let i = choose|i: int|
                        0 <= i < v@.len() && uses_connector(#[trigger] v@[i], c);
                    let n = choose|n: Seq<char>|
                        p.proxies.contains_key(n) && p.proxies[n] == v@[i];
                    assert(base.proxies.contains_key(n) && uses_connector(base.proxies[n], c));
                } else if base.uses(c) {
                    let n = choose|n: Seq<char>| #[trigger]
                        base.proxies.contains_key(n) && uses_connector(base.proxies[n], c);
                    assert(p.proxies.contains_key(n));
                    let i = choose|i: int| 0 <= i < v@.len() && v@[i] == p.proxies[n];
                    assert(uses_connector(v@[i], c));
                }
            },
            DeletePhase::ListingAdvertisements => {
                let v = replies.last()->Advertisements_0;
                assert(base.lists_ads(v@, c));
                assert(ads_thinned(base, base, c));
                lemma_clear_from(start, s, p0, r, v, 0);
            },
            DeletePhase::ClearingAdvertisements(v, at) => {
                let name = v@[at as int].metadata.name->0@;
                assert(base.is_for(name, c)) by {
                    let n = choose|n: Seq<char>| base.is_for(n, c) && base.ads[n] == v@[at as int];
                    assert(base.ads.contains_key(n));
                    assert(opt_view(base.ads[n].metadata.name) == Some(n)) by {
                        assert(p0.ads.contains_key(n));
                    }
                }
                assert(ads_thinned(base, r, c));
                assert forall|i: int|
                    0 <= i < at + 1 && (
                    #[trigger] v@[i]).metadata.name is Some implies !r.ads.contains_key(
                    v@[i].metadata.name->0@,
                ) by {}
                lemma_clear_from(start, s, p0, r, v, at + 1);
            },
            DeletePhase::FindingConnector => {
                if !p.connectors.contains(c) {
                    assert(base.connectors.remove(c) =~= base.connectors);
                }
            },
            DeletePhase::DeletingConnector => {
                let after = Plane { connectors: base.connectors.remove(c), ..base };
                assert(ads_thinned(after, r, c)) by {
                    assert forall|n: Seq<char>| #[trigger]
                        after.ads.contains_key(n) && !after.is_for(n, c) implies r.ads.contains_key(
                        n,
                    ) by {
                        assert(!base.is_for(n, c));
                        assert(base.ads.contains_key(n));
                    }
                }
                assert forall|n: Seq<char>| !(#[trigger] r.is_for(n, c)) by {
                    assert(!p.is_for(n, c));
                }
            },
        }
    }
}

/// What was deleted is not read back: after the deletion no listing shows the tunnel.
pub proof fn law_deleted_is_not_listed(
    start: DeleteTunnel,
    replies: Seq<Reply>,
    planes: Seq<Plane>,
    proxies: Seq<HTTPProxy>,
    ads: Seq<ConnectorAdvertisement>,
    connector_name: Seq<char>,
    k: int,
)
    requires
        start.phase is FindingProxy,
        delete_run(start, replies, planes),
        planes[0].wf(),
        deleted_after(start, replies) is Done,
        planes.last().lists_proxies(proxies),
        0 <= k < listed(proxies, ads, connector_name).len(),
    ensures
        listed(proxies, ads, connector_name)[k].id != start.tunnel_id@,
{
    law_delete_run(start, replies, planes);
    super::laws::law_only_connector_tunnels_listed(proxies, ads, connector_name, k);
    let id = listed(proxies, ads, connector_name)[k].id;
    let i = choose|i: int|
        0 <= i < proxies.len() && uses_connector(#[trigger] proxies[i], connector_name)
            && proxies[i].metadata.name is Some && proxies[i].metadata.name->0@ == id;
    let p = planes.last();
    let n = choose|n: Seq<char>| p.proxies.contains_key(n) && p.proxies[n] == proxies[i];
    assert(planes[0].proxies.contains_key(n));
    assert(opt_view(planes[0].proxies[n].metadata.name) == Some(n));
}

} // verus!
