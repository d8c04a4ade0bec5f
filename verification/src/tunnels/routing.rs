//! What the resources of a tunnel do: which requests its proxy takes and where they go, and which
//! services its advertisement offers.
use super::operations::{is_new_advertisement, is_new_policy, is_new_proxy};
use super::{is_advertisement_spec, is_tunnel_rules, ParsedTarget};
use crate::datum_apis::connector_advertisement::{
    ConnectorAdvertisement, ConnectorAdvertisementSpec, Protocol,
};
use crate::datum_apis::http_proxy::{HTTPProxy, HTTPProxyRule, HTTPRouteMatch};
use crate::datum_apis::traffic_protection_policy::{
    TrafficProtectionPolicy, TrafficProtectionPolicyMode, TrafficProtectionPolicyRuleSetType,
};
use crate::text::decimal;
use vstd::prelude::*;

verus! {

/// A request as it arrives: its path, and its headers with their values.
pub struct Arriving {
    pub path: Seq<char>,
    pub headers: Set<(Seq<char>, Seq<char>)>,
}

impl Arriving {
    /// The path is one that a request can have.
    pub open spec fn wf(self) -> bool {
        self.path.len() > 0 && self.path[0] == '/'
    }

    /// The request came in over plain HTTP.
    pub open spec fn is_plain(self) -> bool {
        self.headers.contains(("x-forwarded-proto"@, "http"@))
    }
}

/// The match takes the request: its path prefix begins the path, and the request has its headers.
pub open spec fn match_takes(m: HTTPRouteMatch, r: Arriving) -> bool {
    &&& m.path_prefix matches Some(p) ==> p@.len() <= r.path.len() && forall|i: int|
        0 <= i < p@.len() ==> #[trigger] p@[i] == r.path[i]
    &&& m.headers matches Some(h) ==> forall|i: int|
        0 <= i < h@.len() ==> r.headers.contains(((#[trigger] h@[i]).0@, h@[i].1@))
}

/// The rule takes the request: one of its matches does.
pub open spec fn rule_takes(rule: HTTPProxyRule, r: Arriving) -> bool {
    exists|j: int| 0 <= j < rule.matches@.len() && match_takes(#[trigger] rule.matches@[j], r)
}

/// The first rule that takes the request is the one at the place.
pub open spec fn taken_at(rules: Seq<HTTPProxyRule>, r: Arriving, k: int) -> bool {
    &&& 0 <= k < rules.len()
    &&& rule_takes(rules[k], r)
    &&& forall|j: int| 0 <= j < k ==> !rule_takes(#[trigger] rules[j], r)
}

/// The rule answers with a redirect to HTTPS, for good, and hands nothing on.
pub open spec fn sends_to_https(rule: HTTPProxyRule) -> bool {
    &&& rule.backends is None
    &&& rule.filters matches Some(f) && f@.len() == 1 && f@[0].scheme@ == "https"@
        && f@[0].status_code == 301
}

/// The rule hands the request to the endpoint behind the connector, and to nothing else.
pub open spec fn hands_to(
    rule: HTTPProxyRule,
    endpoint: Seq<char>,
    connector_name: Seq<char>,
) -> bool {
    &&& rule.filters is None
    &&& rule.backends matches Some(b) && b@.len() == 1 && b@[0].endpoint@ == endpoint
        && b@[0].connector is Some && b@[0].connector->0.name@ == connector_name
}

/// The rules serve the endpoint behind the connector: every request that came in over plain HTTP
/// is sent to HTTPS, and every other one is handed to the endpoint, whatever its path.
pub open spec fn serves(
    rules: Seq<HTTPProxyRule>,
    endpoint: Seq<char>,
    connector_name: Seq<char>,
) -> bool {
    forall|r: Arriving|
        #[trigger] r.wf() ==> exists|k: int| #[trigger]
            taken_at(rules, r, k) && (if r.is_plain() {
                sends_to_https(rules[k])
            } else {
                hands_to(rules[k], endpoint, connector_name)
            })
}

/// The rules of a tunnel serve its endpoint.
pub proof fn law_rules_serve(
    rules: Seq<HTTPProxyRule>,
    endpoint: Seq<char>,
    connector_name: Seq<char>,
)
    requires
        is_tunnel_rules(rules, endpoint, connector_name),
    ensures
        serves(rules, endpoint, connector_name),
{
    assert forall|r: Arriving| #[trigger] r.wf() implies exists|k: int| #[trigger]
        taken_at(rules, r, k) && (if r.is_plain() {
            sends_to_https(rules[k])
        } else {
            hands_to(rules[k], endpoint, connector_name)
        }) by {
        reveal_strlit("/");
        assert("/"@.len() == 1 && "/"@[0] == '/');
        let first = rules[0].matches@[0];
        let second = rules[1].matches@[0];
        if r.is_plain() {
            assert(match_takes(first, r));
            assert(rule_takes(rules[0], r));
            assert(taken_at(rules, r, 0));
        } else {
            assert(!match_takes(first, r)) by {
                let h = first.headers->0;
                assert(h@[0].0@ == "x-forwarded-proto"@ && h@[0].1@ == "http"@);
            }
            assert(!rule_takes(rules[0], r));
            assert(match_takes(second, r));
            assert(rule_takes(rules[1], r));
            assert(taken_at(rules, r, 1));
        }
    }
}

/// A proxy that is made for a tunnel serves the tunnel's endpoint, and is shown under its label.
pub proof fn law_new_proxy_serves(
    proxy: HTTPProxy,
    label: Seq<char>,
    endpoint: Seq<char>,
    connector_name: Seq<char>,
)
    requires
        is_new_proxy(proxy, label, endpoint, connector_name),
    ensures
        serves(proxy.spec.rules@, endpoint, connector_name),
        super::label_of(proxy, Seq::empty()) == label,
        super::first_endpoint(proxy.spec.rules@) == Some(endpoint),
{
    law_rules_serve(proxy.spec.rules@, endpoint, connector_name);
    super::laws::law_new_proxy_carries_tunnel(proxy, label, endpoint, connector_name);
    super::laws::law_rules_read_back(proxy, endpoint, connector_name);
}

// Advertisements.

/// The advertisement offers the TCP port at the address.
pub open spec fn offers(spec: ConnectorAdvertisementSpec, address: Seq<char>, port: int) -> bool {
    spec.layer4 matches Some(l) && exists|i: int, j: int, k: int|
        0 <= i < l@.len() && 0 <= j < l@[i].services@.len() && 0 <= k
            < l@[i].services@[j].ports@.len() && l@[i].services@[j].address.0@ == address && (
        #[trigger] l@[i].services@[j].ports@[k]).port == port
            && l@[i].services@[j].ports@[k].protocol == Protocol::Tcp
}

/// The advertisement is for the connector and offers this port at this address and nothing else.
pub open spec fn offers_only(
    spec: ConnectorAdvertisementSpec,
    connector_name: Seq<char>,
    address: Seq<char>,
    port: int,
) -> bool {
    &&& spec.connector_ref.name@ == connector_name
    &&& forall|a: Seq<char>, p: int| #[trigger]
        offers(spec, a, p) <==> a == address && p == port
}

/// An advertisement of a target offers the target and nothing else.
pub proof fn law_advertisement_offers(
    spec: ConnectorAdvertisementSpec,
    connector_name: Seq<char>,
    address: Seq<char>,
    port: u16,
)
    requires
        is_advertisement_spec(spec, connector_name, address, port),
    ensures
        offers_only(spec, connector_name, address, port as int),
{
    let l = spec.layer4->0;
    assert forall|a: Seq<char>, p: int| #[trigger]
        offers(spec, a, p) <==> a == address && p == port as int by {
        if a == address && p == port as int {
            assert(l@[0].services@[0].ports@[0].port == p);
        }
        if offers(spec, a, p) {
            let (i, j, k) = choose|i: int, j: int, k: int|
                0 <= i < l@.len() && 0 <= j < l@[i].services@.len() && 0 <= k
                    < l@[i].services@[j].ports@.len() && l@[i].services@[j].address.0@ == a && (
                #[trigger] l@[i].services@[j].ports@[k]).port == p
                    && l@[i].services@[j].ports@[k].protocol == Protocol::Tcp;
            assert(i == 0 && j == 0 && k == 0);
        }
    }
}

/// An advertisement that is made for a tunnel is found under the tunnel's name and offers its
/// target and nothing else.
pub proof fn law_new_advertisement_offers(
    ad: ConnectorAdvertisement,
    name: Seq<char>,
    connector_name: Seq<char>,
    target: ParsedTarget,
)
    requires
        is_new_advertisement(ad, name, connector_name, target),
    ensures
        ad.metadata.name is Some && ad.metadata.name->0@ == name,
        offers_only(ad.spec, connector_name, target.address@, target.port as int),
{
    law_advertisement_offers(ad.spec, connector_name, target.address@, target.port);
}

// Policies.

/// The policy blocks what the core rule set finds, in requests to the gateway of the given name
/// and to no other.
pub open spec fn protects_only(policy: TrafficProtectionPolicy, gateway: Seq<char>) -> bool {
    &&& policy.spec.mode == Some(TrafficProtectionPolicyMode::Enforce)
    &&& policy.spec.target_refs@.len() > 0
    &&& forall|i: int|
        0 <= i < policy.spec.target_refs@.len() ==> {
            let t = #[trigger] policy.spec.target_refs@[i];
            t.kind@ == "Gateway"@ && t.group@ == "gateway.networking.k8s.io"@ && t.name@ == gateway
                && t.section_name is None
        }
    &&& policy.spec.rule_sets matches Some(sets) && sets@.len() > 0 && forall|i: int|
        0 <= i < sets@.len() ==> {
            let s = #[trigger] sets@[i];
            s.rule_set_type == TrafficProtectionPolicyRuleSetType::OWASPCoreRuleSet
                && s.owasp_core_rule_set is Some && s.owasp_core_rule_set->0.paranoia_levels is Some
                && s.owasp_core_rule_set->0.paranoia_levels->0.blocking == Some(1i32)
                && s.owasp_core_rule_set->0.paranoia_levels->0.detection == Some(1i32)
        }
}

/// A policy that is made for a tunnel protects the gateway of that tunnel and no other.
pub proof fn law_new_policy_protects(policy: TrafficProtectionPolicy, name: Seq<char>)
    requires
        is_new_policy(policy, name),
    ensures
        policy.metadata.name is Some && policy.metadata.name->0@ == name,
        protects_only(policy, name),
{
}

/// What an advertisement calls its parts: one layer by default, and the port by its number.
pub proof fn law_advertisement_names(
    spec: ConnectorAdvertisementSpec,
    connector_name: Seq<char>,
    address: Seq<char>,
    port: u16,
)
    requires
        is_advertisement_spec(spec, connector_name, address, port),
    ensures
        spec.layer4 is Some,
        spec.layer4->0@.len() == 1,
        spec.layer4->0@[0].name@ == "default"@,
        spec.layer4->0@[0].services@[0].ports@[0].name@ == "tcp-"@ + decimal(port as nat),
{
}

} // verus!
