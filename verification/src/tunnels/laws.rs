//! What holds of the operations on tunnels as a whole.
use super::operations::{
    connector_in_use, is_new_proxy, CreateTunnel, CreateTunnelPhase, DeletePhase, DeleteTunnel,
    ListTunnels, SetEnabled, SetEnabledPhase, UpdatePhase, UpdateTunnel,
};
use super::connectors::{CreateConnector, FindConnector};
use super::requests::{fits, Outcome, Reply, Request};
use super::{
    advertised, endpoint_of, first_endpoint, is_tunnel_rules, label_of, law_normalize_idempotent,
    leads_to, listed, normalized, summary, uses_connector, DISPLAY_NAME_ANNOTATION,
};
use crate::datum_apis::connector_advertisement::ConnectorAdvertisement;
use crate::datum_apis::http_proxy::HTTPProxy;
use vstd::prelude::*;

verus! {

// Requests and replies.

/// A reply that can come on the request of an operation is one that the operation takes.
pub proof fn law_fitting_replies_are_taken(
    find: FindConnector,
    make: CreateConnector,
    list: ListTunnels,
    create: CreateTunnel,
    update: UpdateTunnel,
    switch: SetEnabled,
    delete: DeleteTunnel,
    request: Request,
    reply: Reply,
)
    requires
        fits(request, reply),
    ensures
        find.asks(request) ==> find.expects(reply),
        make.asks(request) ==> make.expects(reply),
        list.asks(request) ==> list.expects(reply),
        create.asks(request) ==> create.expects(reply),
        update.asks(request) ==> update.expects(reply),
        switch.asks(request) ==> switch.expects(reply),
        delete.asks(request) ==> delete.expects(reply),
{
}

// Writing and reading.

/// Rules written for an endpoint and a connector lead to that endpoint and that connector.
pub proof fn law_rules_read_back(
    proxy: HTTPProxy,
    endpoint: Seq<char>,
    connector_name: Seq<char>,
)
    requires
        is_tunnel_rules(proxy.spec.rules@, endpoint, connector_name),
    ensures
        first_endpoint(proxy.spec.rules@) == Some(endpoint),
        uses_connector(proxy, connector_name),
{
    let rules = proxy.spec.rules@;
    assert(super::backends_of(rules[0]).len() == 0);
    assert(rules.drop_first()[0] == rules[1]);
    assert(super::backends_of(rules[1]).len() == 1);
    reveal_with_fuel(first_endpoint, 3);
    assert(leads_to(super::backends_of(proxy.spec.rules@[1])[0], connector_name));
}

/// The proxy in the row is listed if it has a name and leads to the connector.
proof fn lemma_listed(
    proxies: Seq<HTTPProxy>,
    ads: Seq<ConnectorAdvertisement>,
    connector_name: Seq<char>,
    i: int,
)
    requires
        0 <= i < proxies.len(),
        proxies[i].metadata.name is Some,
        uses_connector(proxies[i], connector_name),
    ensures
        ({
            let p = proxies[i];
            let n = p.metadata.name->0@;
            listed(proxies, ads, connector_name).contains(
                summary(p, n, label_of(p, n), endpoint_of(p), advertised(ads, n)),
            )
        }),
    decreases proxies.len(),
{
    let p = proxies[i];
    let n = p.metadata.name->0@;
    let s = summary(p, n, label_of(p, n), endpoint_of(p), advertised(ads, n));
    let all = listed(proxies, ads, connector_name);
    let before = listed(proxies.drop_last(), ads, connector_name);
    if i == proxies.len() - 1 {
        assert(all[before.len() as int] == s);
    } else {
        lemma_listed(proxies.drop_last(), ads, connector_name, i);
        let k = choose|k: int| 0 <= k < before.len() && before[k] == s;
        assert(all[k] == s);
    }
}

/// What was written for a tunnel is read back: a proxy that carries a label and the rules for a
/// normalized endpoint is listed for its connector under its name, with that label and that
/// endpoint, and as enabled exactly if it is advertised.
pub proof fn law_written_tunnel_is_listed(
    proxies: Seq<HTTPProxy>,
    ads: Seq<ConnectorAdvertisement>,
    i: int,
    label: Seq<char>,
    endpoint: Seq<char>,
    connector_name: Seq<char>,
)
    requires
        0 <= i < proxies.len(),
        proxies[i].metadata.name is Some,
        proxies[i].metadata.annotated(DISPLAY_NAME_ANNOTATION@) == Some(label),
        is_tunnel_rules(proxies[i].spec.rules@, normalized(endpoint), connector_name),
    ensures
        ({
            let p = proxies[i];
            let n = p.metadata.name->0@;
            listed(proxies, ads, connector_name).contains(
                summary(p, n, label, normalized(endpoint), advertised(ads, n)),
            )
        }),
{
    law_rules_read_back(proxies[i], normalized(endpoint), connector_name);
    law_normalize_idempotent(endpoint);
    lemma_listed(proxies, ads, connector_name, i);
}

/// A proxy made for a tunnel carries the tunnel's label and rules.
pub proof fn law_new_proxy_carries_tunnel(
    proxy: HTTPProxy,
    label: Seq<char>,
    endpoint: Seq<char>,
    connector_name: Seq<char>,
)
    requires
        is_new_proxy(proxy, label, endpoint, connector_name),
    ensures
        proxy.metadata.annotated(DISPLAY_NAME_ANNOTATION@) == Some(label),
        is_tunnel_rules(proxy.spec.rules@, endpoint, connector_name),
        uses_connector(proxy, connector_name),
{
    law_rules_read_back(proxy, endpoint, connector_name);
    reveal_with_fuel(crate::datum_apis::meta::lookup, 2);
}

/// Only tunnels of the connector are listed: each stands for a proxy that has its name and leads
/// to the connector, and is enabled exactly if it is advertised.
pub proof fn law_only_connector_tunnels_listed(
    proxies: Seq<HTTPProxy>,
    ads: Seq<ConnectorAdvertisement>,
    connector_name: Seq<char>,
    k: int,
)
    requires
        0 <= k < listed(proxies, ads, connector_name).len(),
    ensures
        ({
            let s = listed(proxies, ads, connector_name)[k];
            &&& s.enabled == advertised(ads, s.id)
            &&& exists|i: int|
                0 <= i < proxies.len() && uses_connector(#[trigger] proxies[i], connector_name)
                    && proxies[i].metadata.name is Some && proxies[i].metadata.name->0@ == s.id
        }),
    decreases proxies.len(),
{
    let all = listed(proxies, ads, connector_name);
    let before = listed(proxies.drop_last(), ads, connector_name);
    if k < before.len() {
        assert(all[k] == before[k]);
        law_only_connector_tunnels_listed(proxies.drop_last(), ads, connector_name, k);
        let i = choose|i: int|
            0 <= i < proxies.drop_last().len() && uses_connector(
                #[trigger] proxies.drop_last()[i],
                connector_name,
            ) && proxies.drop_last()[i].metadata.name is Some
                && proxies.drop_last()[i].metadata.name->0@ == before[k].id;
        assert(proxies[i] == proxies.drop_last()[i]);
    } else {
        assert(uses_connector(proxies[proxies.len() - 1], connector_name));
    }
}

// Creating.

/// What the making of a tunnel comes to after a row of replies.
pub open spec fn created_after(start: CreateTunnel, replies: Seq<Reply>) -> Outcome<
    CreateTunnel,
    HTTPProxy,
>
    decreases replies.len(),
{
    if replies.len() == 0 {
        Outcome::Next(start)
    } else {
        match created_after(start, replies.drop_last()) {
            Outcome::Next(s) => s.next(replies.last()),
            over => over,
        }
    }
}

/// The making goes on until the last reply, and each reply fits.
pub open spec fn create_possible(start: CreateTunnel, replies: Seq<Reply>) -> bool
    decreases replies.len(),
{
    replies.len() == 0 || {
        &&& create_possible(start, replies.drop_last())
        &&& created_after(start, replies.drop_last()) matches Outcome::Next(s) && s.expects(
            replies.last(),
        )
    }
}

/// The making of a tunnel asks for the proxy first; all that follows carries the name of the proxy
/// that was made. It succeeds exactly after the proxy, the advertisement and, where policies are
/// switched on, the policy have been made, and its result is the proxy that was made. The first
/// failure ends it.
pub proof fn law_create(start: CreateTunnel, replies: Seq<Reply>)
    requires
        start.phase is Proxy,
        create_possible(start, replies),
    ensures
        replies.len() <= (if start.policies {
            3int
        } else {
            2int
        }),
        created_after(start, replies) matches Outcome::Next(s) ==> {
            &&& s == (CreateTunnel { phase: s.phase, ..start })
            &&& match s.phase {
                CreateTunnelPhase::Proxy => replies.len() == 0,
                CreateTunnelPhase::Advertisement(p) => replies.len() == 1 && replies[0]
                    == Reply::Proxy(p),
                CreateTunnelPhase::Policy(p) => replies.len() == 2 && start.policies && replies[0]
                    == Reply::Proxy(p) && !(replies[1] is Failed),
            }
        },
        created_after(start, replies) matches Outcome::Done(p) ==> {
            &&& replies.len() == (if start.policies {
                3int
            } else {
                2int
            })
            &&& replies[0] == Reply::Proxy(p)
            &&& forall|i: int| 0 <= i < replies.len() ==> !((#[trigger] replies[i]) is Failed)
        },
        created_after(start, replies) matches Outcome::Failed(e) ==> replies.len() > 0
            && replies.last() == Reply::Failed(e),
    decreases replies.len(),
{
    if replies.len() > 0 {
        let before = replies.drop_last();
        law_create(start, before);
        assert(forall|i: int| 0 <= i < before.len() ==> before[i] == #[trigger] replies[i]);
    }
}

// Switching on and off.

/// Switching on never deletes an advertisement and always writes one; switching off never writes
/// one, and deletes exactly if there is one. Either way there is at most one request after the
/// question whether the advertisement is there.
pub proof fn law_set_enabled(s: SetEnabled, there: bool)
    requires
        s.phase == SetEnabledPhase::Finding,
    ensures
        s.target is Some ==> (s.next(Reply::Found(there)) matches Outcome::Next(t) && t.target
            == s.target && t.tunnel_id == s.tunnel_id && t.phase == (if there {
            SetEnabledPhase::Patching
        } else {
            SetEnabledPhase::Creating
        }) && t.next(Reply::Done) == Outcome::<SetEnabled, ()>::Done(())),
        s.target is None && there ==> (s.next(Reply::Found(there)) matches Outcome::Next(t)
            && t.tunnel_id == s.tunnel_id && t.phase == SetEnabledPhase::Deleting && t.next(
            Reply::Done,
        ) == Outcome::<SetEnabled, ()>::Done(())),
        s.target is None && !there ==> s.next(Reply::Found(there)) == Outcome::<
            SetEnabled,
            (),
        >::Done(()),
{
}

// Updating.

/// What the change of a tunnel comes to after a row of replies.
pub open spec fn updated_after(start: UpdateTunnel, replies: Seq<Reply>) -> Outcome<
    UpdateTunnel,
    (HTTPProxy, bool),
>
    decreases replies.len(),
{
    if replies.len() == 0 {
        Outcome::Next(start)
    } else {
        match updated_after(start, replies.drop_last()) {
            Outcome::Next(s) => s.next(replies.last()),
            over => over,
        }
    }
}

/// The change goes on until the last reply, and each reply fits.
pub open spec fn update_possible(start: UpdateTunnel, replies: Seq<Reply>) -> bool
    decreases replies.len(),
{
    replies.len() == 0 || {
        &&& update_possible(start, replies.drop_last())
        &&& updated_after(start, replies.drop_last()) matches Outcome::Next(s) && s.expects(
            replies.last(),
        )
    }
}

/// The change of a tunnel writes only after it has read the tunnel; it writes the advertisement
/// exactly if there is one; its result is the proxy that was read and the last answer on whether
/// the advertisement is there. It creates and deletes nothing.
pub proof fn law_update(start: UpdateTunnel, replies: Seq<Reply>)
    requires
        start.phase is Getting,
        update_possible(start, replies),
    ensures
        replies.len() <= 5,
        updated_after(start, replies) matches Outcome::Next(s) ==> {
            &&& s == (UpdateTunnel { phase: s.phase, ..start })
            &&& match s.phase {
                UpdatePhase::Getting => replies.len() == 0,
                UpdatePhase::PatchingProxy(p) => replies.len() == 1 && replies[0] == Reply::Proxy(p),
                UpdatePhase::FindingAdvertisement(p) => replies.len() == 2 && replies[0]
                    == Reply::Proxy(p),
                UpdatePhase::PatchingAdvertisement(p) => replies.len() == 3 && replies[0]
                    == Reply::Proxy(p) && replies[2] == Reply::Found(true),
                UpdatePhase::Checking(p) => replies[0] == Reply::Proxy(p) && (replies.len() == 3
                    && replies[2] == Reply::Found(false) || replies.len() == 4 && replies[2]
                    == Reply::Found(true)),
            }
        },
        updated_after(start, replies) matches Outcome::Done((p, enabled)) ==> replies.len() >= 4
            && replies[0] == Reply::Proxy(p) && replies.last() == Reply::Found(enabled),
    decreases replies.len(),
{
    if replies.len() > 0 {
        let before = replies.drop_last();
        law_update(start, before);
        assert(forall|i: int| 0 <= i < before.len() ==> before[i] == #[trigger] replies[i]);
    }
}

// Deleting.

/// What a deletion comes to after a row of replies.
pub open spec fn deleted_after(start: DeleteTunnel, replies: Seq<Reply>) -> Outcome<
    DeleteTunnel,
    bool,
>
    decreases replies.len(),
{
    if replies.len() == 0 {
        Outcome::Next(start)
    } else {
        match deleted_after(start, replies.drop_last()) {
            Outcome::Next(s) => s.next(replies.last()),
            over => over,
        }
    }
}

/// The deletion goes on until the last reply, and each reply fits.
pub open spec fn delete_possible(start: DeleteTunnel, replies: Seq<Reply>) -> bool
    decreases replies.len(),
{
    replies.len() == 0 || {
        &&& delete_possible(start, replies.drop_last())
        &&& deleted_after(start, replies.drop_last()) matches Outcome::Next(s) && s.expects(
            replies.last(),
        )
    }
}

/// The control plane has said, at reply `k`, that the tunnel's proxy is not there or is deleted.
pub open spec fn proxy_gone_at(start: DeleteTunnel, replies: Seq<Reply>, k: int) -> bool {
    deleted_after(start, replies.take(k)) matches Outcome::Next(s) && (s.phase is FindingProxy
        && replies[k] == Reply::Found(false) || s.phase is DeletingProxy && replies[k] is Done)
}

pub open spec fn advertisement_gone_at(start: DeleteTunnel, replies: Seq<Reply>, k: int) -> bool {
    deleted_after(start, replies.take(k)) matches Outcome::Next(s) && (
    s.phase is FindingAdvertisement && replies[k] == Reply::Found(false)
        || s.phase is DeletingAdvertisement && replies[k] is Done)
}

pub open spec fn policy_gone_at(start: DeleteTunnel, replies: Seq<Reply>, k: int) -> bool {
    deleted_after(start, replies.take(k)) matches Outcome::Next(s) && (s.phase is FindingPolicy
        && replies[k] == Reply::Found(false) || s.phase is DeletingPolicy && replies[k] is Done)
}

/// The control plane has said that the tunnel's proxy is not there or is deleted.
pub open spec fn proxy_gone(start: DeleteTunnel, replies: Seq<Reply>) -> bool {
    exists|k: int| 0 <= k < replies.len() && #[trigger] proxy_gone_at(start, replies, k)
}

/// The control plane has said that the tunnel's advertisement is not there or is deleted.
pub open spec fn advertisement_gone(start: DeleteTunnel, replies: Seq<Reply>) -> bool {
    exists|k: int| 0 <= k < replies.len() && #[trigger] advertisement_gone_at(start, replies, k)
}

/// The control plane has said that the tunnel's policy is not there or is deleted.
pub open spec fn policy_gone(start: DeleteTunnel, replies: Seq<Reply>) -> bool {
    exists|k: int| 0 <= k < replies.len() && #[trigger] policy_gone_at(start, replies, k)
}

/// The control plane has listed proxies of which none leads to the connector.
pub open spec fn seen_unused(replies: Seq<Reply>, connector_name: Seq<char>) -> bool {
    exists|k: int|
        0 <= k < replies.len() && (#[trigger] replies[k] matches Reply::Proxies(items)
            && !connector_in_use(items@, connector_name))
}

/// How far a deletion has come.
pub open spec fn delete_stage(phase: DeletePhase) -> int {
    match phase {
        DeletePhase::FindingProxy => 0,
        DeletePhase::DeletingProxy => 1,
        DeletePhase::FindingAdvertisement => 2,
        DeletePhase::DeletingAdvertisement => 3,
        DeletePhase::FindingPolicy => 4,
        DeletePhase::DeletingPolicy => 5,
        DeletePhase::ListingProxies => 6,
        DeletePhase::ListingAdvertisements => 7,
        DeletePhase::ClearingAdvertisements(_, _) => 8,
        DeletePhase::FindingConnector => 9,
        DeletePhase::DeletingConnector => 10,
    }
}

proof fn lemma_gone_kept(start: DeleteTunnel, replies: Seq<Reply>)
    requires
        replies.len() > 0,
    ensures
        proxy_gone(start, replies.drop_last()) ==> proxy_gone(start, replies),
        advertisement_gone(start, replies.drop_last()) ==> advertisement_gone(start, replies),
        policy_gone(start, replies.drop_last()) ==> policy_gone(start, replies),
{
    let before = replies.drop_last();
    assert forall|k: int| 0 <= k < before.len() implies before.take(k) == replies.take(k)
        && before[k] == replies[k] by {
        assert(before.take(k) =~= replies.take(k));
    }
    if proxy_gone(start, before) {
        let k = choose|k: int|
            0 <= k < before.len() && #[trigger] proxy_gone_at(start, before, k);
        assert(proxy_gone_at(start, replies, k));
    }
    if advertisement_gone(start, before) {
        let k = choose|k: int|
            0 <= k < before.len() && #[trigger] advertisement_gone_at(start, before, k);
        assert(advertisement_gone_at(start, replies, k));
    }
    if policy_gone(start, before) {
        let k = choose|k: int|
            0 <= k < before.len() && #[trigger] policy_gone_at(start, before, k);
        assert(policy_gone_at(start, replies, k));
    }
}

/// A deletion never speaks of another tunnel or connector. It comes to its end only after the
/// control plane has said that the tunnel's proxy, advertisement and policy are not there or are
/// deleted. And it clears advertisements of the connector, asks for the connector or deletes it
/// only after the control plane has listed proxies of which none leads to the connector.
pub proof fn law_delete(start: DeleteTunnel, replies: Seq<Reply>)
    requires
        start.phase is FindingProxy,
        delete_possible(start, replies),
    ensures
        deleted_after(start, replies) matches Outcome::Next(s) ==> {
            &&& s.tunnel_id == start.tunnel_id
            &&& s.connector_name == start.connector_name
            &&& delete_stage(s.phase) >= 2 ==> proxy_gone(start, replies)
            &&& delete_stage(s.phase) >= 4 ==> advertisement_gone(start, replies)
            &&& delete_stage(s.phase) >= 6 ==> policy_gone(start, replies)
            &&& delete_stage(s.phase) >= 7 ==> seen_unused(replies, start.connector_name@)
        },
        deleted_after(start, replies) matches Outcome::Done(connector_deleted) ==> {
            &&& proxy_gone(start, replies)
            &&& advertisement_gone(start, replies)
            &&& policy_gone(start, replies)
            &&& connector_deleted ==> seen_unused(replies, start.connector_name@)
        },
    decreases replies.len(),
{
    if replies.len() > 0 {
        let before = replies.drop_last();
        law_delete(start, before);
        lemma_gone_kept(start, replies);
        let n = before.len() as int;
        assert(replies.take(n) =~= before);
        assert(proxy_gone_at(start, replies, n) ==> proxy_gone(start, replies));
        assert(advertisement_gone_at(start, replies, n) ==> advertisement_gone(start, replies));
        assert(policy_gone_at(start, replies, n) ==> policy_gone(start, replies));
        let c = start.connector_name@;
        if seen_unused(before, c) {
            let k = choose|k: int|
                0 <= k < before.len() && (#[trigger] before[k] matches Reply::Proxies(items)
                    && !connector_in_use(items@, c));
            assert(replies[k] == before[k]);
        }
        assert(replies[n] == replies.last());
    }
}

/// The connector counts as deleted exactly if its deletion was asked for and carried out.
pub proof fn law_connector_deleted(s: DeleteTunnel, reply: Reply)
    requires
        s.expects(reply),
    ensures
        s.next(reply) == Outcome::<DeleteTunnel, bool>::Done(true) <==> s.phase is DeletingConnector
            && reply is Done,
{
}

/// Every reply takes a deletion further: to a later stage, or to a later advertisement of the same
/// list. So it ends.
pub proof fn law_delete_progress(s: DeleteTunnel, reply: Reply)
    requires
        s.wf(),
        s.expects(reply),
    ensures
        s.next(reply) matches Outcome::Next(t) ==> delete_stage(t.phase) > delete_stage(s.phase)
            || (s.phase matches DeletePhase::ClearingAdvertisements(ads, at)
            && t.phase matches DeletePhase::ClearingAdvertisements(more, place) && more == ads
            && at < place < ads@.len()),
{
    if let DeletePhase::ClearingAdvertisements(ads, at) = s.phase {
        assert(ads.len() == ads@.len());
        lemma_next_named(ads@, at + 1);
    }
    if let (DeletePhase::ListingAdvertisements, Reply::Advertisements(ads)) = (s.phase, reply) {
        lemma_next_named(ads@, 0);
    }
}

proof fn lemma_next_named(ads: Seq<ConnectorAdvertisement>, from: int)
    requires
        0 <= from <= ads.len(),
    ensures
        from <= super::operations::next_named(ads, from) <= ads.len(),
    decreases ads.len() - from,
{
    if from < ads.len() && ads[from].metadata.name is None {
        lemma_next_named(ads, from + 1);
    }
}

} // verus!
