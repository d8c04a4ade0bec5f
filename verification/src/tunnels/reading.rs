//! What is read from the resources of tunnels, and what a device keeps of them.
use super::connectors::{
    device_name, found_after, is_new_connector, lacks_annotation, none_selected, same_details,
    the_only, CreateConnector, CreatePhase, FindConnector, FindPhase,
};
use super::operations::{
    advertisements_of, is_new_proxy, CreateTunnel, DeleteTunnel, ListTunnels, SetEnabled, UpdatePhase,
    UpdateTunnel,
};
use super::requests::{Outcome, Reply, Request};
use super::service::{entered_target, local_states, stale};
use super::{
    advertised, endpoint_of, first_endpoint, is_public_name, label_of, listed,
    local_state, normalized, preferred, stripped, summary, target_of, uses_connector, SummaryView,
    TargetError,
};
use crate::datum_apis::connector::{Connector, ConnectorConnectionDetails};
use crate::datum_apis::connector_advertisement::ConnectorAdvertisement;
use crate::datum_apis::http_proxy::HTTPProxy;
use crate::datum_apis::meta::{holds_true, lookup, Condition};
use crate::project_control_plane::KubeError;
use crate::rows::{lemma_picks_next, lemma_picks_none, picks};
use crate::state::{host_port, StateView};
use crate::text::{
    decimal, has_suffix, has_text, index_of, last_index_of, opt_view, trimmed, views,
};
use crate::urls::url_parts;
use vstd::prelude::*;

verus! {

// Metadata.

/// A key that no pair has leads to nothing; else the first pair with the key decides.
pub proof fn law_lookup(pairs: Seq<(String, String)>, key: Seq<char>)
    ensures
        (forall|k: int| 0 <= k < pairs.len() ==> (#[trigger] pairs[k]).0@ != key) ==> lookup(
            pairs,
            key,
        ) is None,
        forall|i: int|
            0 <= i < pairs.len() && (#[trigger] pairs[i]).0@ == key && (forall|k: int|
                0 <= k < i ==> (#[trigger] pairs[k]).0@ != key) ==> lookup(pairs, key) == Some(
                pairs[i].1@,
            ),
    decreases pairs.len(),
{
    if pairs.len() > 0 {
        let rest = pairs.drop_first();
        law_lookup(rest, key);
        assert forall|i: int|
            0 <= i < pairs.len() && (#[trigger] pairs[i]).0@ == key && (forall|k: int|
                0 <= k < i ==> (#[trigger] pairs[k]).0@ != key) implies lookup(pairs, key) == Some(
            pairs[i].1@,
        ) by {
            if i > 0 {
                assert(pairs[0].0@ != key);
                assert(rest[i - 1] == pairs[i]);
                assert forall|k: int| 0 <= k < i - 1 implies (#[trigger] rest[k]).0@ != key by {
                    assert(rest[k] == pairs[k + 1]);
                }
            }
        }
        if forall|k: int| 0 <= k < pairs.len() ==> (#[trigger] pairs[k]).0@ != key {
            assert(pairs[0].0@ != key);
            assert forall|k: int| 0 <= k < rest.len() implies (#[trigger] rest[k]).0@ != key by {
                assert(rest[k] == pairs[k + 1]);
            }
        }
    }
}

/// A condition holds exactly if the first one of its kind has the status `True`.
pub proof fn law_condition(conditions: Seq<Condition>, kind: Seq<char>)
    ensures
        (forall|k: int| 0 <= k < conditions.len() ==> (#[trigger] conditions[k]).type_@ != kind)
            ==> !holds_true(conditions, kind),
        forall|i: int|
            0 <= i < conditions.len() && (#[trigger] conditions[i]).type_@ == kind && (forall|k: int|
                0 <= k < i ==> (#[trigger] conditions[k]).type_@ != kind) ==> holds_true(
                conditions,
                kind,
            ) == (conditions[i].status@ == "True"@),
    decreases conditions.len(),
{
    if conditions.len() > 0 {
        let rest = conditions.drop_first();
        law_condition(rest, kind);
        assert forall|i: int|
            0 <= i < conditions.len() && (#[trigger] conditions[i]).type_@ == kind && (forall|k: int|
                0 <= k < i ==> (#[trigger] conditions[k]).type_@ != kind) implies holds_true(
            conditions,
            kind,
        ) == (conditions[i].status@ == "True"@) by {
            if i > 0 {
                assert(conditions[0].type_@ != kind);
                assert(rest[i - 1] == conditions[i]);
                assert forall|k: int| 0 <= k < i - 1 implies (#[trigger] rest[k]).type_@ != kind by {
                    assert(rest[k] == conditions[k + 1]);
                }
            }
        }
        if forall|k: int| 0 <= k < conditions.len() ==> (#[trigger] conditions[k]).type_@ != kind {
            assert(conditions[0].type_@ != kind);
            assert forall|k: int| 0 <= k < rest.len() implies (#[trigger] rest[k]).type_@ != kind by {
                assert(rest[k] == conditions[k + 1]);
            }
        }
    }
}

// Endpoints.

/// What is entered with a scheme is taken as it is but for the whitespace around it; what is entered
/// without one is taken as HTTP.
pub proof fn law_normalized(endpoint: Seq<char>)
    ensures
        ({
            let t = trimmed(endpoint);
            let has_scheme = exists|j: int|
                0 <= j && j + 3 <= t.len() && #[trigger] t.subrange(j, j + 3) == seq![':', '/', '/'];
            &&& t.len() == 0 ==> normalized(endpoint).len() == 0
            &&& has_scheme ==> normalized(endpoint) == t
            &&& t.len() > 0 && !has_scheme ==> normalized(endpoint) == seq![
                'h',
                't',
                't',
                'p',
                ':',
                '/',
                '/',
            ] + t
        }),
{
    let t = trimmed(endpoint);
    reveal_strlit("://");
    reveal_strlit("http://");
    assert("://"@ =~= seq![':', '/', '/']);
    assert("http://"@ =~= seq!['h', 't', 't', 'p', ':', '/', '/']);
    crate::text::lemma_has_text(t, "://"@);
}

/// A target written as `host:port` or `[address]:port`, where it is no URL, is read as that host or
/// address and that port; that of a URL is its host and port.
pub proof fn law_target_reads_back(host: Seq<char>, port: u16, t: Seq<char>)
    ensures
        target_of(Some((Some(host), Some(port))), t) == Ok::<(Seq<char>, u16), TargetError>(
            (host, port),
        ),
        host.len() == 0 || host[0] != '[' ==> target_of(
            None,
            host + seq![':'] + decimal(port as nat),
        ) == Ok::<(Seq<char>, u16), TargetError>((host, port)),
        !host.contains(']') ==> target_of(
            None,
            seq!['['] + host + seq![']', ':'] + decimal(port as nat),
        ) == Ok::<(Seq<char>, u16), TargetError>((host, port)),
{
    let d = decimal(port as nat);
    crate::text::lemma_decimal_parses(port as nat, u16::MAX as nat);
    crate::text::lemma_decimal_digits(port as nat);
    if host.len() == 0 || host[0] != '[' {
        let s = host + seq![':'] + d;
        crate::text::lemma_last_index_of_range(s, ':');
        let i = last_index_of(s, ':');
        assert(s[host.len() as int] == ':');
        if i > host.len() {
            assert(s[i] == d[i - host.len() - 1]);
            assert(crate::text::is_digit(d[i - host.len() - 1]));
        }
        assert(i == host.len());
        assert(s.skip(i + 1) =~= d);
        assert(s.take(i) =~= host);
        if host.len() > 0 {
            assert(s[0] == host[0]);
        } else {
            assert(s[0] == ':');
        }
    }
    if !host.contains(']') {
        let s = seq!['['] + host + seq![']', ':'] + d;
        crate::text::lemma_index_of_range(s, ']');
        let end = index_of(s, ']');
        let n = host.len() as int + 1;
        assert(s[n] == ']');
        assert(end == n) by {
            if end < n {
                if end == 0 {
                    assert(s[0] == '[');
                } else {
                    assert(s[end] == host[end - 1]);
                }
            } else if end > n {
                assert(s[n] != ']');
            }
        }
        assert(s[n + 1] == ':');
        assert(s.subrange(1, end) =~= host);
        assert(s.skip(end + 2) =~= d);
    }
}

/// A URL without a host or a port has no target, and neither has what lacks a port or has something
/// else in its place.
pub proof fn law_no_target(host: Seq<char>, port: Option<u16>, t: Seq<char>)
    ensures
        target_of(Some((None, port)), t) == Err::<(Seq<char>, u16), TargetError>(
            TargetError::MissingHost,
        ),
        target_of(Some((Some(host), None)), t) == Err::<(Seq<char>, u16), TargetError>(
            TargetError::MissingPort,
        ),
        !t.contains(':') && (t.len() == 0 || t[0] != '[') ==> target_of(None, t) == Err::<
            (Seq<char>, u16),
            TargetError,
        >(TargetError::MissingPort),
        t.len() > 0 && t[0] == '[' && !t.contains(']') ==> target_of(None, t) == Err::<
            (Seq<char>, u16),
            TargetError,
        >(TargetError::InvalidIpv6),
{
    crate::text::lemma_last_index_of_range(t, ':');
    crate::text::lemma_index_of_range(t, ']');
}

/// What is entered for a tunnel leads where the text leads once it has its scheme: with a URL for
/// that text, to the host and port of the URL.
pub proof fn law_entered_target(endpoint: Seq<char>, host: Seq<char>, port: u16)
    requires
        url_parts(normalized(endpoint)) == Some((Some(host), Some(port))),
    ensures
        entered_target(endpoint) == Ok::<(Seq<char>, u16), TargetError>((host, port)),
        host_port(stripped(url_parts(normalized(endpoint)), normalized(endpoint))) == Some(
            (host, port),
        ),
{
    super::law_normalize_idempotent(endpoint);
    lemma_normalized_trimmed(endpoint);
    super::law_stripped_reads_back(host, port, normalized(endpoint));
}

proof fn lemma_normalized_trimmed(endpoint: Seq<char>)
    ensures
        trimmed(normalized(endpoint)) == normalized(endpoint),
{
    let t = trimmed(endpoint);
    crate::text::lemma_trimmed_twice(endpoint);
    if t.len() > 0 && !has_text(t, "://"@) {
        let n = "http://"@ + t;
        reveal_strlit("http://");
        assert(!crate::text::is_white(n[0]));
        assert(n.last() == t.last());
        crate::text::law_trimmed(n, 0, n.len() as int);
        assert(n.subrange(0, n.len() as int) =~= n);
    }
}

// Names.

/// A public name is one label right below the domain of the gateway.
pub proof fn law_public_name(label: Seq<char>, name: Seq<char>)
    ensures
        is_public_name(label + ".iroh.datum.net"@) <==> label.len() > 0 && !label.contains('.'),
        is_public_name(name) ==> exists|l: Seq<char>|
            l.len() > 0 && !l.contains('.') && name == #[trigger] (l + ".iroh.datum.net"@),
{
    reveal_strlit(".");
    reveal_strlit("iroh.datum.net");
    reveal_strlit(".iroh.datum.net");
    let suffix = "."@ + super::DATUM_CONNECT_GATEWAY_DOMAIN_NAME@;
    assert(suffix =~= ".iroh.datum.net"@);
    let s = label + suffix;
    assert(s.skip(s.len() - suffix.len()) =~= suffix);
    assert(s.take(s.len() - suffix.len()) =~= label);
    if is_public_name(name) {
        let l = name.take(name.len() - suffix.len());
        assert(name =~= l + suffix);
        assert(name == l + ".iroh.datum.net"@);
    }
}

/// The name that is shown is one of the tunnel's own: the first public one, or the first one if
/// none is public. A tunnel with names always has one to show.
pub proof fn law_preferred(names: Seq<Seq<char>>)
    ensures
        preferred(names) is Some <==> names.len() > 0,
        preferred(names) matches Some(n) ==> exists|i: int|
            0 <= i < names.len() && #[trigger] names[i] == n && (if is_public_name(n) {
                forall|k: int| 0 <= k < i ==> !is_public_name(#[trigger] names[k])
            } else {
                i == 0 && forall|k: int|
                    0 <= k < names.len() ==> !is_public_name(#[trigger] names[k])
            }),
{
    if exists|i: int| 0 <= i < names.len() && is_public_name(names[i]) {
        let i = choose|i: int| 0 <= i < names.len() && is_public_name(names[i]);
        lemma_first_public(names, i);
    } else if names.len() > 0 {
        assert(names[0] == preferred(names)->0);
    }
}

proof fn lemma_first_public(names: Seq<Seq<char>>, i: int)
    requires
        0 <= i < names.len(),
        is_public_name(names[i]),
    ensures
        exists|j: int|
            0 <= j < names.len() && is_public_name(names[j]) && forall|k: int|
                0 <= k < j ==> !is_public_name(names[k]),
    decreases i,
{
    if exists|k: int| 0 <= k < i && is_public_name(names[k]) {
        let k = choose|k: int| 0 <= k < i && is_public_name(names[k]);
        lemma_first_public(names, k);
    }
}

// Proxies.

/// A proxy leads to a connector exactly if some backend of some rule names it.
pub proof fn law_uses_connector(proxy: HTTPProxy, connector_name: Seq<char>)
    ensures
        forall|i: int, j: int|
            0 <= i < proxy.spec.rules@.len() && proxy.spec.rules@[i].backends is Some && 0 <= j
                < proxy.spec.rules@[i].backends->0@.len() && (
            #[trigger] proxy.spec.rules@[i].backends->0@[j]).connector is Some
                && proxy.spec.rules@[i].backends->0@[j].connector->0.name@ == connector_name
                ==> uses_connector(proxy, connector_name),
        uses_connector(proxy, connector_name) ==> exists|i: int, j: int|
            0 <= i < proxy.spec.rules@.len() && proxy.spec.rules@[i].backends is Some && 0 <= j
                < proxy.spec.rules@[i].backends->0@.len() && (
            #[trigger] proxy.spec.rules@[i].backends->0@[j]).connector is Some
                && proxy.spec.rules@[i].backends->0@[j].connector->0.name@ == connector_name,
{
    let rules = proxy.spec.rules@;
    assert forall|i: int, j: int|
        0 <= i < rules.len() && rules[i].backends is Some && 0 <= j < rules[i].backends->0@.len()
            && (#[trigger] rules[i].backends->0@[j]).connector is Some
            && rules[i].backends->0@[j].connector->0.name@ == connector_name implies uses_connector(
        proxy,
        connector_name,
    ) by {
        assert(super::leads_to(super::backends_of(rules[i])[j], connector_name));
    }
    if uses_connector(proxy, connector_name) {
        let (i, j) = choose|i: int, j: int|
            0 <= i < rules.len() && 0 <= j < super::backends_of(rules[i]).len()
                && #[trigger] super::leads_to(super::backends_of(rules[i])[j], connector_name);
        assert(rules[i].backends->0@[j].connector->0.name@ == connector_name);
    }
}

/// The endpoint of a proxy is that of the first backend that is found going through its rules.
pub proof fn law_first_endpoint(proxy: HTTPProxy, i: int)
    requires
        0 <= i < proxy.spec.rules@.len(),
        proxy.spec.rules@[i].backends is Some,
        proxy.spec.rules@[i].backends->0@.len() > 0,
        forall|k: int|
            0 <= k < i ==> (#[trigger] proxy.spec.rules@[k]).backends is None
                || proxy.spec.rules@[k].backends->0@.len() == 0,
    ensures
        endpoint_of(proxy) == normalized(proxy.spec.rules@[i].backends->0@[0].endpoint@),
{
    lemma_first_endpoint(proxy.spec.rules@, i);
}

proof fn lemma_first_endpoint(
    rules: Seq<crate::datum_apis::http_proxy::HTTPProxyRule>,
    i: int,
)
    requires
        0 <= i < rules.len(),
        rules[i].backends is Some,
        rules[i].backends->0@.len() > 0,
        forall|k: int|
            0 <= k < i ==> (#[trigger] rules[k]).backends is None || rules[k].backends->0@.len()
                == 0,
    ensures
        first_endpoint(rules) == Some(rules[i].backends->0@[0].endpoint@),
    decreases i,
{
    if i > 0 {
        let rest = rules.drop_first();
        assert(rules[0].backends is None || rules[0].backends->0@.len() == 0);
        assert forall|k: int| 0 <= k < i - 1 implies (#[trigger] rest[k]).backends is None
            || rest[k].backends->0@.len() == 0 by {
            assert(rest[k] == rules[k + 1]);
        }
        lemma_first_endpoint(rest, i - 1);
    }
}

/// What is shown of a tunnel comes from its proxy: the names that the control plane gave it, or
/// those that it asks for while there are none; its label, or its name without one; and its two
/// conditions.
pub proof fn law_summary(
    proxy: HTTPProxy,
    id: Seq<char>,
    label: Seq<char>,
    endpoint: Seq<char>,
    enabled: bool,
)
    ensures
        ({
            let s = summary(proxy, id, label, endpoint, enabled);
            &&& s.id == id && s.label == label && s.endpoint == endpoint && s.enabled == enabled
            &&& (proxy.status matches Some(st) && st.hostnames is Some) ==> s.hostnames == views(
                proxy.status->0.hostnames->0@,
            )
            &&& !(proxy.status matches Some(st) && st.hostnames is Some) ==> (
            proxy.spec.hostnames matches Some(h) ==> s.hostnames == views(h@)) && (
            proxy.spec.hostnames is None ==> s.hostnames.len() == 0)
            &&& proxy.status is None ==> !s.accepted && !s.programmed
            &&& (proxy.status matches Some(st) && st.conditions is Some) ==> s.accepted
                == holds_true(proxy.status->0.conditions->0@, "Accepted"@) && s.programmed
                == holds_true(proxy.status->0.conditions->0@, "Programmed"@)
        }),
        proxy.metadata.annotations matches Some(a) ==> label_of(proxy, id) == (match lookup(
            a@,
            "app.kubernetes.io/name"@,
        ) {
            Some(l) => l,
            None => id,
        }),
        proxy.metadata.annotations is None ==> label_of(proxy, id) == id,
{
}

/// The tunnels of a connector are those of the proxies that have a name and lead to it, in the order
/// of the proxies: none is left out, none is added. Each is enabled exactly if an advertisement has
/// its name.
pub proof fn law_listed_from_proxies(
    proxies: Seq<HTTPProxy>,
    ads: Seq<ConnectorAdvertisement>,
    connector_name: Seq<char>,
)
    ensures
        picks(
            proxies,
            |p: HTTPProxy|
                if p.metadata.name is Some && uses_connector(p, connector_name) {
                    let n = p.metadata.name->0@;
                    Some(
                        summary(
                            p,
                            n,
                            label_of(p, n),
                            endpoint_of(p),
                            exists|i: int|
                                0 <= i < ads.len() && (#[trigger] ads[i]).metadata.name is Some
                                    && ads[i].metadata.name->0@ == n,
                        ),
                    )
                } else {
                    None
                },
            listed(proxies, ads, connector_name),
        ),
    decreases proxies.len(),
{
    let f = |p: HTTPProxy|
        if p.metadata.name is Some && uses_connector(p, connector_name) {
            let n = p.metadata.name->0@;
            Some(
                summary(
                    p,
                    n,
                    label_of(p, n),
                    endpoint_of(p),
                    exists|i: int|
                        0 <= i < ads.len() && (#[trigger] ads[i]).metadata.name is Some
                            && ads[i].metadata.name->0@ == n,
                ),
            )
        } else {
            None
        };
    let all = listed(proxies, ads, connector_name);
    if proxies.len() == 0 {
        lemma_picks_none(proxies, f, all);
    } else {
        let rest = proxies.drop_last();
        law_listed_from_proxies(rest, ads, connector_name);
        let p = proxies.last();
        if p.metadata.name is Some {
            let n = p.metadata.name->0@;
            assert(advertised(ads, n) == (exists|i: int|
                0 <= i < ads.len() && (#[trigger] ads[i]).metadata.name is Some
                    && ads[i].metadata.name->0@ == n)) by {
                if advertised(ads, n) {
                    let i = choose|i: int|
                        0 <= i < ads.len() && opt_view((#[trigger] ads[i]).metadata.name) == Some(
                            n,
                        );
                    assert(ads[i].metadata.name is Some && ads[i].metadata.name->0@ == n);
                }
                if exists|i: int|
                    0 <= i < ads.len() && (#[trigger] ads[i]).metadata.name is Some
                        && ads[i].metadata.name->0@ == n {
                    let i = choose|i: int|
                        0 <= i < ads.len() && (#[trigger] ads[i]).metadata.name is Some
                            && ads[i].metadata.name->0@ == n;
                    assert(opt_view(ads[i].metadata.name) == Some(n));
                }
            }
        }
        lemma_picks_next(proxies, f, listed(rest, ads, connector_name), all);
    }
}

// The device.

/// What the device keeps of a tunnel lets the same traffic through to the same service: the host
/// and port of its endpoint, switched on exactly if the tunnel is enabled.
pub proof fn law_local_state(
    id: Seq<char>,
    endpoint: Seq<char>,
    label: Seq<char>,
    enabled: bool,
    host: Seq<char>,
    port: u16,
)
    ensures
        url_parts(endpoint) == Some((Some(host), Some(port))) ==> local_state(
            id,
            endpoint,
            label,
            enabled,
        ) == Some(StateView { id, label: Some(label), service: (host, port), enabled }),
        url_parts(endpoint) is None && endpoint == host + seq![':'] + decimal(port as nat)
            ==> local_state(id, endpoint, label, enabled) == Some(
            StateView { id, label: Some(label), service: (host, port), enabled },
        ),
        url_parts(endpoint) is None && !endpoint.contains(':') ==> local_state(
            id,
            endpoint,
            label,
            enabled,
        ) is None,
{
    crate::state::law_address_reads_back(host, port);
    super::law_stripped_reads_back(host, port, endpoint);
    reveal_strlit(":");
    assert(":"@ =~= seq![':']);
    crate::text::lemma_last_index_of_range(endpoint, ':');
}

/// The device keeps a state of each listed tunnel whose endpoint names a service, in the order of
/// the list, and of no other.
pub proof fn law_local_states(tunnels: Seq<SummaryView>)
    ensures
        picks(
            tunnels,
            |t: SummaryView| local_state(t.id, t.endpoint, t.label, t.enabled),
            local_states(tunnels),
        ),
    decreases tunnels.len(),
{
    let f = |t: SummaryView| local_state(t.id, t.endpoint, t.label, t.enabled);
    let all = local_states(tunnels);
    if tunnels.len() == 0 {
        lemma_picks_none(tunnels, f, all);
    } else {
        law_local_states(tunnels.drop_last());
        lemma_picks_next(tunnels, f, local_states(tunnels.drop_last()), all);
    }
}

/// The stale entries are those with the service that belong to no listed tunnel, all of them and
/// nothing else; entries of other services stay.
pub proof fn law_stale_from_entries(
    local: Seq<StateView>,
    tunnels: Seq<SummaryView>,
    service: (Seq<char>, u16),
)
    ensures
        picks(
            local,
            |p: StateView|
                if p.service == service && forall|i: int|
                    0 <= i < tunnels.len() ==> (#[trigger] tunnels[i]).id != p.id {
                    Some(p.id)
                } else {
                    None
                },
            stale(local, tunnels, service),
        ),
    decreases local.len(),
{
    let f = |p: StateView|
        if p.service == service && forall|i: int|
            0 <= i < tunnels.len() ==> (#[trigger] tunnels[i]).id != p.id {
            Some(p.id)
        } else {
            None
        };
    let all = stale(local, tunnels, service);
    if local.len() == 0 {
        lemma_picks_none(local, f, all);
    } else {
        law_stale_from_entries(local.drop_last(), tunnels, service);
        lemma_picks_next(local, f, stale(local.drop_last(), tunnels, service), all);
    }
}

// Connectors.

/// The name of the device is the host name without the suffix of the local network.
pub proof fn law_device_name(name: Seq<char>)
    ensures
        device_name(name + ".local"@) == name,
        !has_suffix(name, ".local"@) ==> device_name(name) == name,
{
    let s = name + ".local"@;
    assert(s.skip(s.len() - ".local"@.len()) =~= ".local"@);
    assert(s.take(s.len() - ".local"@.len()) =~= name);
}

/// Details that hold the same say the same of the device: how it is reached, its key, its relay and
/// its addresses.
pub proof fn law_same_details(a: ConnectorConnectionDetails, b: ConnectorConnectionDetails)
    requires
        same_details(a, b),
    ensures
        a.connection_type == b.connection_type,
        a.public_key is Some == b.public_key is Some,
        a.public_key matches Some(x) ==> x.id@ == b.public_key->0.id@ && x.home_relay@
            == b.public_key->0.home_relay@ && x.discovery_mode == b.public_key->0.discovery_mode
            && x.addresses@ == b.public_key->0.addresses@,
{
}

/// The searches of the control plane ask for what belongs to this device: connectors by its key,
/// advertisements by their connector.
pub proof fn law_selectors(find: FindConnector, request: Request, connector_name: Seq<char>)
    requires
        find.phase is Selecting,
        find.asks(request),
    ensures
        request matches Request::ListConnectors { filter: Some(s) } && s@
            == "status.connectionDetails.publicKey.id="@ + find.endpoint_id@,
        advertisements_of(connector_name) == "spec.connectorRef.name="@ + connector_name,
{
    reveal_strlit("=");
    reveal_strlit("status.connectionDetails.publicKey.id");
    reveal_strlit("status.connectionDetails.publicKey.id=");
    reveal_strlit("spec.connectorRef.name");
    reveal_strlit("spec.connectorRef.name=");
    assert("status.connectionDetails.publicKey.id"@ + "="@
        =~= "status.connectionDetails.publicKey.id="@);
    assert("spec.connectorRef.name"@ + "="@ =~= "spec.connectorRef.name="@);
}

/// The connector that a search finds: the first one that has this device's key, or the only one of
/// the project where none has it; as it was listed, or as the control plane last returned it after
/// this device wrote to it.
pub proof fn law_found_connector(start: FindConnector, replies: Seq<Reply>)
    requires
        start.phase is Selecting,
        super::connectors::find_possible(start, replies),
    ensures
        found_after(start, replies) matches Outcome::Done(Some(c)) ==> {
            ||| replies.last() == Reply::Connector(c)
            ||| replies[0] matches Reply::Connectors(v) && v@.len() > 0 && v@[0] == c
            ||| none_selected(replies) && the_only(replies, c)
            ||| replies.len() > 1 && replies.last() is Failed && replies[replies.len() - 2]
                == Reply::Connector(c)
        },
        found_after(start, replies) matches Outcome::Next(s) ==> (
        s.phase matches FindPhase::Annotating(c) ==> {
            ||| replies.last() == Reply::Connector(c)
            ||| replies.len() == 1 && (replies[0] matches Reply::Connectors(v) && v@.len() > 0
                && v@[0] == c)
            ||| none_selected(replies) && the_only(replies, c)
        }),
        replies.len() == 1 && replies[0] is Connectors && replies[0]->Connectors_0@.len() > 0 ==> {
            let first = replies[0]->Connectors_0@[0];
            found_after(start, replies) == (if lacks_annotation(start.annotations@, first) {
                Outcome::<FindConnector, Option<Connector>>::Next(
                    FindConnector { phase: FindPhase::Annotating(first), ..start },
                )
            } else {
                Outcome::<FindConnector, Option<Connector>>::Done(Some(first))
            })
        },
    decreases replies.len(),
{
    if replies.len() > 0 {
        let before = replies.drop_last();
        law_found_connector(start, before);
        super::connectors::law_find_connector(start, before);
        super::connectors::law_find_connector(start, replies);
        assert forall|i: int| 0 <= i < before.len() implies before[i] == #[trigger] replies[i] by {}
        if before.len() == 0 {
            assert(found_after(start, before) == Outcome::<
                FindConnector,
                Option<Connector>,
            >::Next(start));
        }
    }
}

/// A connector needs no annotation exactly if it carries each expected one.
pub proof fn law_lacks_annotation(expected: Seq<(String, String)>, connector: Connector)
    ensures
        !lacks_annotation(expected, connector) <==> forall|i: int|
            0 <= i < expected.len() ==> (connector.metadata.annotations matches Some(a) && lookup(
                a@,
                (#[trigger] expected[i]).0@,
            ) == Some(expected[i].1@)),
{
    if !lacks_annotation(expected, connector) {
        assert forall|i: int| 0 <= i < expected.len() implies (
        connector.metadata.annotations matches Some(a) && lookup(
            a@,
            (#[trigger] expected[i]).0@,
        ) == Some(expected[i].1@)) by {
            assert(connector.metadata.annotated(expected[i].0@) == Some(expected[i].1@));
        }
    } else {
        let i = choose|i: int|
            0 <= i < expected.len() && connector.metadata.annotated((#[trigger] expected[i]).0@)
                != Some(expected[i].1@);
        assert(!(connector.metadata.annotations matches Some(a) && lookup(a@, expected[i].0@)
            == Some(expected[i].1@)));
    }
}

/// A connector that is made for this device is one for tunnels, carries what is said of the device,
/// and gets the device's details once it is there.
pub proof fn law_new_connector(s: CreateConnector, request: Request)
    requires
        s.asks(request),
    ensures
        s.phase is Creating ==> (request matches Request::CreateConnector { connector }
            && connector.spec.connector_class_name@ == "iroh-quic-tunnel"@
            && connector.metadata.annotations is Some && connector.metadata.annotations->0@
            == s.annotations@),
        s.phase matches CreatePhase::PatchingStatus(c) ==> (
        request matches Request::PatchConnectorStatus { name, details } && name@
            == c.metadata.any_name() && s.details is Some && details.connection_type
            == s.details->0.connection_type && (s.details->0.public_key matches Some(k) ==> (
        details.public_key matches Some(sent) && sent.id@ == k.id@ && sent.home_relay@
            == k.home_relay@ && sent.addresses@ == k.addresses@))),
{
}

/// The connector of a device is made, and gets the device's details where there are any; that these
/// could not be written leaves it as it was made. What could not be made is told.
pub proof fn law_connector_made(s: CreateConnector, c: Connector, reply: Reply, e: KubeError)
    requires
        s.phase is Creating,
    ensures
        s.details is None ==> s.next(Reply::Connector(c)) == Outcome::<
            CreateConnector,
            Connector,
        >::Done(c),
        s.details is Some ==> (s.next(Reply::Connector(c)) matches Outcome::Next(t) && t.phase
            == CreatePhase::PatchingStatus(c) && t.details == s.details && t.next(reply) == Outcome::<
            CreateConnector,
            Connector,
        >::Done(c)),
        s.next(Reply::Failed(e)) == Outcome::<CreateConnector, Connector>::Failed(e),
{
}

/// The search writes this device's details to the only connector of a project exactly if it does not
/// have this device's key and there are details to write; it is read again then.
pub proof fn law_only_connector(s: FindConnector, c: Connector, items: Vec<Connector>)
    requires
        s.phase is Fallback,
        items@ == seq![c],
    ensures
        ({
            let key = match c.status {
                Some(status) => match status.connection_details {
                    Some(details) => match details.public_key {
                        Some(k) => Some(k.id@),
                        None => None,
                    },
                    None => None,
                },
                None => None,
            };
            let writes = key != Some(s.endpoint_id@) && s.details is Some;
            &&& writes ==> (s.next(Reply::Connectors(items)) matches Outcome::Next(t) && t.phase
                == FindPhase::PatchingStatus(c) && (t.next(Reply::Done) matches Outcome::Next(u)
                && u.phase == FindPhase::Refetching(c)))
            &&& !writes ==> s.next(Reply::Connectors(items)) == (if lacks_annotation(
                s.annotations@,
                c,
            ) {
                Outcome::<FindConnector, Option<Connector>>::Next(
                    FindConnector { phase: FindPhase::Annotating(c), ..s },
                )
            } else {
                Outcome::<FindConnector, Option<Connector>>::Done(Some(c))
            })
        }),
{
}

/// The change of a tunnel leaves its hostnames as they were asked for.
pub proof fn law_hostnames_stay(s: UpdateTunnel, request: Request, proxy: HTTPProxy)
    requires
        s.phase == UpdatePhase::PatchingProxy(proxy),
        s.asks(request),
    ensures
        request matches Request::PatchProxy { name, label, hostnames, .. } && name@ == s.tunnel_id@
            && label@ == s.label@ && (proxy.spec.hostnames is Some ==> views(hostnames@) == views(
            proxy.spec.hostnames->0@,
        )) && (proxy.spec.hostnames is None ==> hostnames@.len() == 0),
{
    if proxy.spec.hostnames is None {
        assert(views(request->hostnames@).len() == 0);
    }
}

/// What the control plane refuses ends the operation, and is told: making, changing, listing and
/// switching a tunnel at every step, deleting one at every step but the clearing of advertisements
/// that are left over.
pub proof fn law_refusals(
    e: KubeError,
    listing: ListTunnels,
    making: CreateTunnel,
    changing: UpdateTunnel,
    switching: SetEnabled,
    deleting: DeleteTunnel,
)
    ensures
        listing.next(Reply::Failed(e)) == Outcome::<
            ListTunnels,
            (Vec<HTTPProxy>, Vec<ConnectorAdvertisement>),
        >::Failed(e),
        making.next(Reply::Failed(e)) == Outcome::<CreateTunnel, HTTPProxy>::Failed(e),
        changing.next(Reply::Failed(e)) == Outcome::<UpdateTunnel, (HTTPProxy, bool)>::Failed(e),
        switching.next(Reply::Failed(e)) == Outcome::<SetEnabled, ()>::Failed(e),
        !(deleting.phase is ClearingAdvertisements) ==> deleting.next(Reply::Failed(e)) == Outcome::<
            DeleteTunnel,
            bool,
        >::Failed(e),
{
}

/// A list of tunnels is read from the project's proxies and the connector's advertisements, as they
/// were last listed.
pub proof fn law_listing(
    start: ListTunnels,
    proxies: Vec<HTTPProxy>,
    ads: Vec<ConnectorAdvertisement>,
)
    requires
        start.phase is Proxies,
    ensures
        start.next(Reply::Proxies(proxies)) matches Outcome::Next(s) && s.connector_name
            == start.connector_name && s.next(Reply::Advertisements(ads)) == Outcome::<
            ListTunnels,
            (Vec<HTTPProxy>, Vec<ConnectorAdvertisement>),
        >::Done((proxies, ads)),
{
}

/// What is made gets its name from the control plane: proxies and connectors by what they are.
pub proof fn law_generated_names(
    proxy: HTTPProxy,
    label: Seq<char>,
    endpoint: Seq<char>,
    connector_name: Seq<char>,
    connector: Connector,
    annotations: Seq<(String, String)>,
)
    ensures
        is_new_proxy(proxy, label, endpoint, connector_name) ==> proxy.metadata.name is None && (
        proxy.metadata.generate_name matches Some(n) && n@ == "tunnel-"@) && proxy.spec.hostnames
            is None,
        is_new_connector(connector, annotations) ==> connector.metadata.name is None && (
        connector.metadata.generate_name matches Some(n) && n@ == "datum-connect-"@),
{
}

/// What is wrong with a target is told in these words.
pub proof fn law_target_texts()
    ensures
        TargetError::MissingHost.text() == "missing host"@,
        TargetError::MissingPort.text() == "missing port"@,
        TargetError::InvalidIpv6.text() == "invalid IPv6 address"@,
        TargetError::InvalidPort.text() == "invalid port"@,
{
}

} // verus!
