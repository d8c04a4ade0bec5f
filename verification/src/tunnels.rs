//! Tunnels: how they are described, how they look in the control plane, and how they are listed.
use crate::datum_apis::connector::LocalConnectorReference;
use crate::datum_apis::connector_advertisement::{
    ConnectorAdvertisement, ConnectorAdvertisementLayer4, ConnectorAdvertisementLayer4Service,
    ConnectorAdvertisementSpec, Layer4ServiceAddress, Layer4ServicePort, Protocol,
};
use crate::datum_apis::http_proxy::{
    ConnectorReference, HTTPProxy, HTTPProxyRule, HTTPProxyRuleBackend, HTTPRouteMatch,
    RequestRedirect, HTTP_PROXY_CONDITION_ACCEPTED, HTTP_PROXY_CONDITION_PROGRAMMED,
};
use crate::datum_apis::meta::condition_is_true;
use crate::state::{host_port, Advertisment, Authority, ProxyState, StateView, TcpProxyData};
use crate::text::{
    cat, cat3, contains, contains_char, copy_all, decimal, decimal_of, has_suffix, has_text,
    index_of, last_index_of, opt_view, parse_u16, parsed, rsplit_once, same, split_once,
    starts_with, strip_prefix, strip_suffix, trim, trimmed, views,
};
use crate::urls::{host_and_port, parts_view, url_parts};
use vstd::prelude::*;

pub mod connectors;
pub mod laws;
pub mod operations;
pub mod plane;
pub mod reading;
pub mod requests;
pub mod routing;
pub mod service;

verus! {

/// The domain that public tunnel names are subdomains of.
pub const DATUM_CONNECT_GATEWAY_DOMAIN_NAME: &'static str = "iroh.datum.net";

pub const DEFAULT_PCP_NAMESPACE: &'static str = "default";

pub const DEFAULT_CONNECTOR_CLASS_NAME: &'static str = "iroh-quic-tunnel";

pub const CONNECTOR_SELECTOR_FIELD: &'static str = "status.connectionDetails.publicKey.id";

pub const ADVERTISEMENT_CONNECTOR_FIELD: &'static str = "spec.connectorRef.name";

pub const DISPLAY_NAME_ANNOTATION: &'static str = "app.kubernetes.io/name";

/// A tunnel as users see it.
#[derive(Debug, Clone, PartialEq)]
pub struct TunnelSummary {
    pub id: String,
    pub label: String,
    pub endpoint: String,
    pub hostnames: Vec<String>,
    pub enabled: bool,
    pub accepted: bool,
    pub programmed: bool,
}

/// The content of a tunnel summary.
pub struct SummaryView {
    pub id: Seq<char>,
    pub label: Seq<char>,
    pub endpoint: Seq<char>,
    pub hostnames: Seq<Seq<char>>,
    pub enabled: bool,
    pub accepted: bool,
    pub programmed: bool,
}

impl View for TunnelSummary {
    type V = SummaryView;

    open spec fn view(&self) -> SummaryView {
        SummaryView {
            id: self.id@,
            label: self.label@,
            endpoint: self.endpoint@,
            hostnames: views(self.hostnames@),
            enabled: self.enabled,
            accepted: self.accepted,
            programmed: self.programmed,
        }
    }
}

/// What deleting a tunnel came to.
#[derive(Debug, Clone)]
pub struct TunnelDeleteOutcome {
    pub project_id: String,
    pub connector_deleted: bool,
}

/// Address and port that a tunnel leads to.
#[derive(Debug, Clone)]
pub struct ParsedTarget {
    pub address: String,
    pub port: u16,
}

/// Why an endpoint gives no target.
#[derive(Debug, Clone, Copy, PartialEq, Eq, Structural)]
pub enum TargetError {
    MissingHost,
    MissingPort,
    InvalidIpv6,
    InvalidPort,
}

impl TargetError {
    /// The text for users.
    pub open spec fn text(self) -> Seq<char> {
        match self {
            TargetError::MissingHost => "missing host"@,
            TargetError::MissingPort => "missing port"@,
            TargetError::InvalidIpv6 => "invalid IPv6 address"@,
            TargetError::InvalidPort => "invalid port"@,
        }
    }

    pub fn message(self) -> (r: String)
        ensures
            r@ == self.text(),
    {
        match self {
            TargetError::MissingHost => "missing host".to_owned(),
            TargetError::MissingPort => "missing port".to_owned(),
            TargetError::InvalidIpv6 => "invalid IPv6 address".to_owned(),
            TargetError::InvalidPort => "invalid port".to_owned(),
        }
    }
}

// Endpoints and targets.

/// An endpoint with its scheme: `http` where none is written. The empty endpoint stays empty.
pub open spec fn normalized(endpoint: Seq<char>) -> Seq<char> {
    let t = trimmed(endpoint);
    if t.len() == 0 || has_text(t, "://"@) {
        t
    } else {
        "http://"@ + t
    }
}

pub fn normalize_endpoint(endpoint: &str) -> (r: String)
    ensures
        r@ == normalized(endpoint@),
{
    let t = trim(endpoint);
    if t.as_str().is_empty() {
        return t;
    }
    if contains(t.as_str(), "://") {
        return t;
    }
    cat("http://", t.as_str())
}

/// An endpoint without its scheme, path and query: `host:port`, if it is a URL that has both.
pub open spec fn stripped(
    parts: Option<(Option<Seq<char>>, Option<u16>)>,
    endpoint: Seq<char>,
) -> Seq<char> {
    match parts {
        Some((Some(host), Some(port))) => host + ":"@ + decimal(port as nat),
        _ => endpoint,
    }
}

/// The endpoint without its scheme, given what it is as a URL.
pub fn strip_scheme_parts(
    parts: Option<(Option<String>, Option<u16>)>,
    endpoint: &str,
) -> (r: String)
    ensures
        r@ == stripped(parts_view(parts), endpoint@),
{
    match parts {
        Some((Some(host), Some(port))) => {
            let port = decimal_of(port as u64);
            cat3(host.as_str(), ":", port.as_str())
        },
        _ => endpoint.to_owned(),
    }
}

pub fn strip_scheme(endpoint: &str) -> (r: String)
    ensures
        r@ == stripped(url_parts(endpoint@), endpoint@),
{
    strip_scheme_parts(host_and_port(endpoint), endpoint)
}

/// The target with the given host, if the text is a port.
pub open spec fn with_port(host: Seq<char>, port: Seq<char>) -> Result<
    (Seq<char>, u16),
    TargetError,
> {
    match parsed(port, u16::MAX as nat) {
        Some(n) => Ok((host, n as u16)),
        None => Err(TargetError::InvalidPort),
    }
}

/// The target that a trimmed endpoint stands for, given what it is as a URL. A URL must have a
/// host and a port. What is no URL is read as `[address]:port` or `host:port`, the last colon
/// separating the two.
pub open spec fn target_of(
    parts: Option<(Option<Seq<char>>, Option<u16>)>,
    t: Seq<char>,
) -> Result<(Seq<char>, u16), TargetError> {
    match parts {
        Some((None, _)) => Err(TargetError::MissingHost),
        Some((Some(_), None)) => Err(TargetError::MissingPort),
        Some((Some(host), Some(port))) => Ok((host, port)),
        None => if t.len() > 0 && t[0] == '[' {
            let end = index_of(t, ']');
            if end >= t.len() {
                Err(TargetError::InvalidIpv6)
            } else if end + 1 >= t.len() || t[end + 1] != ':' {
                Err(TargetError::MissingPort)
            } else {
                with_port(t.subrange(1, end), t.skip(end + 2))
            }
        } else {
            let i = last_index_of(t, ':');
            if i < 0 {
                Err(TargetError::MissingPort)
            } else {
                with_port(t.take(i), t.skip(i + 1))
            }
        },
    }
}

/// Address and port of a target, or why there is none.
pub open spec fn target_view(r: Result<ParsedTarget, TargetError>) -> Result<
    (Seq<char>, u16),
    TargetError,
> {
    match r {
        Ok(t) => Ok((t.address@, t.port)),
        Err(e) => Err(e),
    }
}

fn target_with_port(host: String, port: &str) -> (r: Result<ParsedTarget, TargetError>)
    ensures
        target_view(r) == with_port(host@, port@),
{
    match parse_u16(port) {
        Some(port) => Ok(ParsedTarget { address: host, port }),
        None => Err(TargetError::InvalidPort),
    }
}

/// The target of a trimmed endpoint, given what it is as a URL.
pub fn parse_target_parts(
    parts: Option<(Option<String>, Option<u16>)>,
    target: &str,
) -> (r: Result<ParsedTarget, TargetError>)
    ensures
        target_view(r) == target_of(parts_view(parts), target@),
{
    match parts {
        Some((None, _)) => Err(TargetError::MissingHost),
        Some((Some(_), None)) => Err(TargetError::MissingPort),
        Some((Some(host), Some(port))) => Ok(ParsedTarget { address: host, port }),
        None => {
            if starts_with(target, "[") {
                proof {
                    reveal_strlit("[");
                    assert(target@.take(1)[0] == '[');
                }
                match split_once(target, ']') {
                    None => Err(TargetError::InvalidIpv6),
                    Some((front, rest)) => {
                        let ghost end = index_of(target@, ']');
                        proof {
                            reveal_strlit("[");
                            reveal_strlit(":");
                            crate::text::lemma_index_of_range(target@, ']');
                            assert(front@.take(1) =~= "["@);
                            assert(front@.skip(1) =~= target@.subrange(1, end));
                            assert(rest@ == target@.skip(end + 1));
                            if rest@.len() > 0 {
                                assert(rest@[0] == target@[end + 1]);
                                assert(rest@.take(1)[0] == rest@[0]);
                                assert(rest@.skip(1) =~= target@.skip(end + 2));
                                if rest@[0] == ':' {
                                    assert(rest@.take(1) =~= ":"@);
                                }
                            }
                        }
                        match (strip_prefix(front.as_str(), "["), strip_prefix(rest.as_str(), ":")) {
                            (Some(host), Some(port)) => target_with_port(host, port.as_str()),
                            _ => Err(TargetError::MissingPort),
                        }
                    },
                }
            } else {
                proof {
                    reveal_strlit("[");
                    if target@.len() > 0 && target@[0] == '[' {
                        assert(target@.take(1) =~= "["@);
                    }
                }
                match rsplit_once(target, ':') {
                    None => Err(TargetError::MissingPort),
                    Some((host, port)) => target_with_port(host, port.as_str()),
                }
            }
        },
    }
}

/// Address and port that an endpoint leads to.
pub fn parse_target(target: &str) -> (r: Result<ParsedTarget, TargetError>)
    ensures
        target_view(r) == target_of(url_parts(trimmed(target@)), trimmed(target@)),
{
    let t = trim(target);
    parse_target_parts(host_and_port(t.as_str()), t.as_str())
}

/// Normalizing an endpoint twice is the same as once.
pub proof fn law_normalize_idempotent(endpoint: Seq<char>)
    ensures
        normalized(normalized(endpoint)) == normalized(endpoint),
{
    let t = trimmed(endpoint);
    crate::text::lemma_trimmed_twice(endpoint);
    if t.len() > 0 && !has_text(t, "://"@) {
        let n = "http://"@ + t;
        reveal_strlit("http://");
        reveal_strlit("://");
        assert(!crate::text::is_white(n[0]));
        assert(n.last() == t.last());
        assert(trimmed(n) == n);
        crate::text::lemma_has_text(n, "://"@);
        assert(n.subrange(4, 4int + "://"@.len()) =~= "://"@);
    }
}

/// A normalized endpoint is empty or has a scheme.
pub proof fn law_normalized_has_scheme(endpoint: Seq<char>)
    ensures
        normalized(endpoint).len() == 0 || has_text(normalized(endpoint), "://"@),
{
    let t = trimmed(endpoint);
    if t.len() > 0 && !has_text(t, "://"@) {
        let n = "http://"@ + t;
        reveal_strlit("http://");
        reveal_strlit("://");
        crate::text::lemma_has_text(n, "://"@);
        assert(n.subrange(4, 4int + "://"@.len()) =~= "://"@);
    }
}

/// An endpoint without a scheme is the endpoint `host:port` of the service that the tunnel leads
/// to: what `strip_scheme` gives reads back as the host and port of the URL.
pub proof fn law_stripped_reads_back(host: Seq<char>, port: u16, endpoint: Seq<char>)
    ensures
        host_port(stripped(Some((Some(host), Some(port))), endpoint)) == Some((host, port)),
{
    crate::state::law_address_reads_back(host, port);
}

// Summaries.

/// A public name: one label right below the gateway domain.
pub open spec fn is_public_name(hostname: Seq<char>) -> bool {
    let suffix = "."@ + DATUM_CONNECT_GATEWAY_DOMAIN_NAME@;
    &&& has_suffix(hostname, suffix)
    &&& hostname.len() > suffix.len()
    &&& !hostname.take(hostname.len() - suffix.len()).contains('.')
}

/// The first public name among the hostnames, else the first hostname.
pub open spec fn preferred(hostnames: Seq<Seq<char>>) -> Option<Seq<char>> {
    if exists|i: int| 0 <= i < hostnames.len() && is_public_name(hostnames[i]) {
        let i = choose|i: int|
            0 <= i < hostnames.len() && is_public_name(hostnames[i]) && forall|k: int|
                0 <= k < i ==> !is_public_name(hostnames[k]);
        Some(hostnames[i])
    } else if hostnames.len() > 0 {
        Some(hostnames[0])
    } else {
        None
    }
}

fn public_name(hostname: &str) -> (r: bool)
    ensures
        r == is_public_name(hostname@),
{
    let suffix = cat(".", DATUM_CONNECT_GATEWAY_DOMAIN_NAME);
    match strip_suffix(hostname, suffix.as_str()) {
        Some(name) => !name.as_str().is_empty() && !contains_char(name.as_str(), '.'),
        None => false,
    }
}

impl TunnelSummary {
    /// The URL under which the tunnel can be reached from outside: that of its public name if it
    /// has one, else that of its first hostname.
    pub fn public_url(&self) -> (r: Option<String>)
        ensures
            r is Some <==> self.hostnames@.len() > 0,
            r matches Some(url) ==> preferred(self@.hostnames) is Some && url@ == "https://"@
                + preferred(self@.hostnames)->0,
    {
        let ghost names = self@.hostnames;
        let mut i: usize = 0;
        while i < self.hostnames.len()
            invariant
                i <= self.hostnames@.len(),
                names == self@.hostnames,
                forall|k: int| 0 <= k < i ==> !is_public_name(#[trigger] names[k]),
            decreases self.hostnames@.len() - i,
        {
            if public_name(self.hostnames[i].as_str()) {
                proof {
                    assert(is_public_name(names[i as int]));
                    let j = choose|j: int|
                        0 <= j < names.len() && is_public_name(names[j]) && forall|k: int|
                            0 <= k < j ==> !is_public_name(names[k]);
                    assert(j == i);
                }
                return Some(cat("https://", self.hostnames[i].as_str()));
            }
            i += 1;
        }
        if self.hostnames.len() > 0 {
            Some(cat("https://", self.hostnames[0].as_str()))
        } else {
            None
        }
    }

    /// Host and port of the origin server.
    pub fn origin_authority(&self) -> (r: Option<Authority>)
        ensures
            r is Some <==> host_port(stripped(url_parts(self.endpoint@), self.endpoint@)) is Some,
            r matches Some(a) ==> host_port(stripped(url_parts(self.endpoint@), self.endpoint@))
                == Some(a@),
    {
        let address = strip_scheme(self.endpoint.as_str());
        match TcpProxyData::from_host_port_str(address.as_str()) {
            Some(data) => Some(Authority { host: data.host, port: data.port }),
            None => None,
        }
    }

    /// A copy of the summary.
    pub fn copy(&self) -> (r: TunnelSummary)
        ensures
            r@ == self@,
    {
        TunnelSummary {
            id: self.id.clone(),
            label: self.label.clone(),
            endpoint: self.endpoint.clone(),
            hostnames: copy_all(&self.hostnames),
            enabled: self.enabled,
            accepted: self.accepted,
            programmed: self.programmed,
        }
    }
}

/// The state that the device keeps of a tunnel: none if the endpoint names no service.
pub open spec fn local_state(
    id: Seq<char>,
    endpoint: Seq<char>,
    label: Seq<char>,
    enabled: bool,
) -> Option<StateView> {
    match host_port(stripped(url_parts(endpoint), endpoint)) {
        Some(service) => Some(StateView { id, label: Some(label), service, enabled }),
        None => None,
    }
}

/// The state that the device keeps of a tunnel.
pub fn proxy_state_from_summary(
    tunnel_id: &str,
    endpoint: &str,
    label: &str,
    enabled: bool,
) -> (r: Option<ProxyState>)
    ensures
        r is Some <==> local_state(tunnel_id@, endpoint@, label@, enabled) is Some,
        r matches Some(s) ==> local_state(tunnel_id@, endpoint@, label@, enabled) == Some(s@),
{
    let address = strip_scheme(endpoint);
    match TcpProxyData::from_host_port_str(address.as_str()) {
        Some(data) => Some(
            ProxyState {
                info: Advertisment {
                    resource_id: tunnel_id.to_owned(),
                    label: Some(label.to_owned()),
                    data,
                },
                enabled,
            },
        ),
        None => None,
    }
}

// Proxies.

/// The backends of a rule.
pub open spec fn backends_of(rule: HTTPProxyRule) -> Seq<HTTPProxyRuleBackend> {
    match rule.backends {
        Some(b) => b@,
        None => Seq::empty(),
    }
}

/// The backend leads to the connector.
pub open spec fn leads_to(backend: HTTPProxyRuleBackend, connector_name: Seq<char>) -> bool {
    backend.connector matches Some(c) && c.name@ == connector_name
}

/// A backend of some rule of the proxy leads to the connector.
pub open spec fn uses_connector(proxy: HTTPProxy, connector_name: Seq<char>) -> bool {
    exists|i: int, j: int|
        0 <= i < proxy.spec.rules@.len() && 0 <= j < backends_of(proxy.spec.rules@[i]).len()
            && #[trigger] leads_to(backends_of(proxy.spec.rules@[i])[j], connector_name)
}

/// Whether a backend of some rule of the proxy leads to the connector.
pub fn proxy_uses_connector(proxy: &HTTPProxy, connector_name: &str) -> (r: bool)
    ensures
        r == uses_connector(*proxy, connector_name@),
{
    let rules = &proxy.spec.rules;
    let mut i: usize = 0;
    while i < rules.len()
        invariant
            i <= rules@.len(),
            rules@ == proxy.spec.rules@,
            forall|a: int, j: int|
                0 <= a < i && 0 <= j < backends_of(rules@[a]).len() ==> !(#[trigger] leads_to(
                    backends_of(rules@[a])[j],
                    connector_name@,
                )),
        decreases rules@.len() - i,
    {
        if let Some(backends) = &rules[i].backends {
            let mut j: usize = 0;
            while j < backends.len()
                invariant
                    i < rules@.len(),
                    rules@ == proxy.spec.rules@,
                    j <= backends@.len(),
                    backends@ == backends_of(rules@[i as int]),
                    forall|b: int|
                        0 <= b < j ==> !(#[trigger] leads_to(backends@[b], connector_name@)),
                decreases backends@.len() - j,
            {
                if let Some(c) = &backends[j].connector {
                    if same(c.name.as_str(), connector_name) {
                        assert(leads_to(
                            backends_of(proxy.spec.rules@[i as int])[j as int],
                            connector_name@,
                        ));
                        return true;
                    }
                }
                j += 1;
            }
        }
        i += 1;
    }
    false
}

/// The endpoint of the first backend of the first rule that has one.
pub open spec fn first_endpoint(rules: Seq<HTTPProxyRule>) -> Option<Seq<char>>
    decreases rules.len(),
{
    if rules.len() == 0 {
        None
    } else if backends_of(rules[0]).len() > 0 {
        Some(backends_of(rules[0])[0].endpoint@)
    } else {
        first_endpoint(rules.drop_first())
    }
}

/// The endpoint that the proxy leads to.
pub fn proxy_backend_endpoint(proxy: &HTTPProxy) -> (r: Option<String>)
    ensures
        opt_view(r) == first_endpoint(proxy.spec.rules@),
{
    let rules = &proxy.spec.rules;
    let mut i: usize = 0;
    assert(rules@.skip(0) =~= rules@);
    while i < rules.len()
        invariant
            i <= rules@.len(),
            rules@ == proxy.spec.rules@,
            first_endpoint(rules@) == first_endpoint(rules@.skip(i as int)),
        decreases rules@.len() - i,
    {
        let ghost rest = rules@.skip(i as int);
        assert(rest.drop_first() =~= rules@.skip(i + 1));
        assert(rest[0] == rules@[i as int]);
        if let Some(backends) = &rules[i].backends {
            if backends.len() > 0 {
                return Some(backends[0].endpoint.clone());
            }
        }
        i += 1;
    }
    None
}

/// The hostnames of a proxy: those of its status, else those asked for, else none.
pub open spec fn hostnames_of(proxy: HTTPProxy) -> Seq<Seq<char>> {
    match proxy.status {
        Some(s) => match s.hostnames {
            Some(h) => views(h@),
            None => asked_hostnames(proxy),
        },
        None => asked_hostnames(proxy),
    }
}

/// The hostnames that the proxy asks for.
pub open spec fn asked_hostnames(proxy: HTTPProxy) -> Seq<Seq<char>> {
    match proxy.spec.hostnames {
        Some(h) => views(h@),
        None => Seq::empty(),
    }
}

fn hostnames_asked_for(proxy: &HTTPProxy) -> (r: Vec<String>)
    ensures
        views(r@) == asked_hostnames(*proxy),
{
    match &proxy.spec.hostnames {
        Some(h) => copy_all(h),
        None => {
            let none: Vec<String> = Vec::new();
            assert(views(none@) =~= Seq::<Seq<char>>::empty());
            none
        },
    }
}

pub fn proxy_hostnames(proxy: &HTTPProxy) -> (r: Vec<String>)
    ensures
        views(r@) == hostnames_of(*proxy),
{
    match &proxy.status {
        Some(s) => match &s.hostnames {
            Some(h) => copy_all(h),
            None => hostnames_asked_for(proxy),
        },
        None => hostnames_asked_for(proxy),
    }
}

/// The endpoint that a proxy leads to, with its scheme; empty if it has none.
pub open spec fn endpoint_of(proxy: HTTPProxy) -> Seq<char> {
    normalized(
        match first_endpoint(proxy.spec.rules@) {
            Some(e) => e,
            None => Seq::empty(),
        },
    )
}

pub(crate) fn proxy_endpoint(proxy: &HTTPProxy) -> (r: String)
    ensures
        r@ == endpoint_of(*proxy),
{
    let e = match proxy_backend_endpoint(proxy) {
        Some(e) => e,
        None => String::new(),
    };
    normalize_endpoint(e.as_str())
}

/// The label of a proxy: its display name, else the given name.
pub open spec fn label_of(proxy: HTTPProxy, name: Seq<char>) -> Seq<char> {
    match proxy.metadata.annotated(DISPLAY_NAME_ANNOTATION@) {
        Some(label) => label,
        None => name,
    }
}

pub(crate) fn proxy_label(proxy: &HTTPProxy, name: &str) -> (r: String)
    ensures
        r@ == label_of(*proxy, name@),
{
    match proxy.metadata.annotation(DISPLAY_NAME_ANNOTATION) {
        Some(label) => label,
        None => name.to_owned(),
    }
}

/// The summary of a tunnel whose public side is `proxy`.
pub open spec fn summary(
    proxy: HTTPProxy,
    id: Seq<char>,
    label: Seq<char>,
    endpoint: Seq<char>,
    enabled: bool,
) -> SummaryView {
    SummaryView {
        id,
        label,
        endpoint,
        hostnames: hostnames_of(proxy),
        enabled,
        accepted: proxy.condition(HTTP_PROXY_CONDITION_ACCEPTED@),
        programmed: proxy.condition(HTTP_PROXY_CONDITION_PROGRAMMED@),
    }
}

pub(crate) fn has_condition(proxy: &HTTPProxy, kind: &str) -> (r: bool)
    ensures
        r == proxy.condition(kind@),
{
    match &proxy.status {
        Some(s) => condition_is_true(&s.conditions, kind),
        None => false,
    }
}

/// The summary of a tunnel whose public side is `proxy`.
pub fn summary_of(
    proxy: &HTTPProxy,
    id: String,
    label: String,
    endpoint: String,
    enabled: bool,
) -> (r: TunnelSummary)
    ensures
        r@ == summary(*proxy, id@, label@, endpoint@, enabled),
{
    TunnelSummary {
        id,
        label,
        endpoint,
        hostnames: proxy_hostnames(proxy),
        enabled,
        accepted: has_condition(proxy, HTTP_PROXY_CONDITION_ACCEPTED),
        programmed: has_condition(proxy, HTTP_PROXY_CONDITION_PROGRAMMED),
    }
}

/// One of the advertisements has the name.
pub open spec fn advertised(ads: Seq<ConnectorAdvertisement>, name: Seq<char>) -> bool {
    exists|i: int|
        0 <= i < ads.len() && opt_view((#[trigger] ads[i]).metadata.name) == Some(name)
}

/// Whether one of the advertisements has the name.
pub fn is_advertised(ads: &Vec<ConnectorAdvertisement>, name: &str) -> (r: bool)
    ensures
        r == advertised(ads@, name@),
{
    let mut i: usize = 0;
    while i < ads.len()
        invariant
            i <= ads@.len(),
            forall|k: int|
                0 <= k < i ==> opt_view((#[trigger] ads@[k]).metadata.name) != Some(name@),
        decreases ads@.len() - i,
    {
        if let Some(n) = &ads[i].metadata.name {
            if same(n.as_str(), name) {
                assert(opt_view(ads@[i as int].metadata.name) == Some(name@));
                return true;
            }
        }
        i += 1;
    }
    false
}

/// The tunnels that the proxies stand for: those proxies that have a name and lead to the
/// connector, in their order. A tunnel is enabled if it is advertised.
pub open spec fn listed(
    proxies: Seq<HTTPProxy>,
    ads: Seq<ConnectorAdvertisement>,
    connector_name: Seq<char>,
) -> Seq<SummaryView>
    decreases proxies.len(),
{
    if proxies.len() == 0 {
        Seq::empty()
    } else {
        let before = listed(proxies.drop_last(), ads, connector_name);
        let p = proxies.last();
        match p.metadata.name {
            Some(name) => if uses_connector(p, connector_name) {
                before.push(
                    summary(
                        p,
                        name@,
                        label_of(p, name@),
                        endpoint_of(p),
                        advertised(ads, name@),
                    ),
                )
            } else {
                before
            },
            None => before,
        }
    }
}

/// The contents of a row of summaries.
pub open spec fn summary_views(s: Seq<TunnelSummary>) -> Seq<SummaryView> {
    Seq::new(s.len(), |i: int| s[i]@)
}

/// The tunnels that lead to the connector.
pub fn list_summaries(
    proxies: &Vec<HTTPProxy>,
    ads: &Vec<ConnectorAdvertisement>,
    connector_name: &str,
) -> (r: Vec<TunnelSummary>)
    ensures
        summary_views(r@) == listed(proxies@, ads@, connector_name@),
{
    let mut out: Vec<TunnelSummary> = Vec::new();
    let mut i: usize = 0;
    assert(proxies@.take(0) =~= Seq::<HTTPProxy>::empty());
    assert(summary_views(out@) =~= Seq::<SummaryView>::empty());
    while i < proxies.len()
        invariant
            i <= proxies@.len(),
            summary_views(out@) == listed(proxies@.take(i as int), ads@, connector_name@),
        decreases proxies@.len() - i,
    {
        let proxy = &proxies[i];
        let ghost upto = proxies@.take(i + 1);
        assert(upto.drop_last() =~= proxies@.take(i as int));
        assert(upto.last() == *proxy);
        let ghost before = summary_views(out@);
        if let Some(name) = &proxy.metadata.name {
            if proxy_uses_connector(proxy, connector_name) {
                let s = summary_of(
                    proxy,
                    name.clone(),
                    proxy_label(proxy, name.as_str()),
                    proxy_endpoint(proxy),
                    is_advertised(ads, name.as_str()),
                );
                out.push(s);
                assert(summary_views(out@) =~= before.push(s@));
            }
        }
        i += 1;
    }
    assert(proxies@.take(proxies@.len() as int) =~= proxies@);
    out
}

// Rules.

/// A match on the path prefix `/`, with the given headers.
pub open spec fn matches_root(m: HTTPRouteMatch) -> bool {
    opt_view(m.path_prefix) == Some("/"@)
}

/// The rule that answers plain HTTP requests with a permanent redirect to HTTPS.
pub open spec fn is_redirect_rule(rule: HTTPProxyRule) -> bool {
    &&& rule.name is None
    &&& rule.backends is None
    &&& rule.matches@.len() == 1
    &&& matches_root(rule.matches@[0])
    &&& rule.matches@[0].headers matches Some(h) && h@.len() == 1 && h@[0].0@
        == "x-forwarded-proto"@ && h@[0].1@ == "http"@
    &&& rule.filters matches Some(f) && f@.len() == 1 && f@[0].scheme@ == "https"@
        && f@[0].status_code == 301
}

/// The rule that hands every request to the endpoint behind the connector.
pub open spec fn is_proxy_rule(
    rule: HTTPProxyRule,
    endpoint: Seq<char>,
    connector_name: Seq<char>,
) -> bool {
    &&& rule.name is None
    &&& rule.filters is None
    &&& rule.matches@.len() == 1
    &&& matches_root(rule.matches@[0])
    &&& rule.matches@[0].headers is None
    &&& rule.backends matches Some(b) && b@.len() == 1 && b@[0].endpoint@ == endpoint && leads_to(
        b@[0],
        connector_name,
    )
}

/// The rules of a tunnel: the redirect first, so that plain HTTP never reaches the backend.
pub open spec fn is_tunnel_rules(
    rules: Seq<HTTPProxyRule>,
    endpoint: Seq<char>,
    connector_name: Seq<char>,
) -> bool {
    &&& rules.len() == 2
    &&& is_redirect_rule(rules[0])
    &&& is_proxy_rule(rules[1], endpoint, connector_name)
}

pub fn https_redirect_rule() -> (r: HTTPProxyRule)
    ensures
        is_redirect_rule(r),
{
    let mut headers: Vec<(String, String)> = Vec::new();
    headers.push(("x-forwarded-proto".to_owned(), "http".to_owned()));
    let mut matches: Vec<HTTPRouteMatch> = Vec::new();
    matches.push(HTTPRouteMatch { path_prefix: Some("/".to_owned()), headers: Some(headers) });
    let mut filters: Vec<RequestRedirect> = Vec::new();
    filters.push(RequestRedirect { scheme: "https".to_owned(), status_code: 301 });
    HTTPProxyRule { name: None, matches, filters: Some(filters), backends: None }
}

pub fn default_match() -> (r: HTTPRouteMatch)
    ensures
        matches_root(r),
        r.headers is None,
{
    HTTPRouteMatch { path_prefix: Some("/".to_owned()), headers: None }
}

pub fn proxy_rule(endpoint: &str, connector_name: &str) -> (r: HTTPProxyRule)
    ensures
        is_proxy_rule(r, endpoint@, connector_name@),
{
    let mut matches: Vec<HTTPRouteMatch> = Vec::new();
    matches.push(default_match());
    let mut backends: Vec<HTTPProxyRuleBackend> = Vec::new();
    backends.push(
        HTTPProxyRuleBackend {
            endpoint: endpoint.to_owned(),
            connector: Some(ConnectorReference { name: connector_name.to_owned() }),
        },
    );
    HTTPProxyRule { name: None, matches, filters: None, backends: Some(backends) }
}

pub fn tunnel_rules(endpoint: &str, connector_name: &str) -> (r: Vec<HTTPProxyRule>)
    ensures
        is_tunnel_rules(r@, endpoint@, connector_name@),
{
    let mut rules: Vec<HTTPProxyRule> = Vec::new();
    rules.push(https_redirect_rule());
    rules.push(proxy_rule(endpoint, connector_name));
    rules
}

/// The advertisement of one TCP port behind a connector.
pub open spec fn is_advertisement_spec(
    spec: ConnectorAdvertisementSpec,
    connector_name: Seq<char>,
    address: Seq<char>,
    port: u16,
) -> bool {
    &&& spec.connector_ref.name@ == connector_name
    &&& spec.layer4 matches Some(l) && l@.len() == 1 && l@[0].name@ == "default"@
        && l@[0].services@.len() == 1 && l@[0].services@[0].address.0@ == address
        && l@[0].services@[0].ports@.len() == 1 && l@[0].services@[0].ports@[0].name@ == "tcp-"@
        + decimal(port as nat) && l@[0].services@[0].ports@[0].port == port
        && l@[0].services@[0].ports@[0].protocol == Protocol::Tcp
}

pub fn advertisement_spec(connector_name: &str, target: &ParsedTarget) -> (r:
    ConnectorAdvertisementSpec)
    ensures
        is_advertisement_spec(r, connector_name@, target.address@, target.port),
{
    let port_text = decimal_of(target.port as u64);
    let mut ports: Vec<Layer4ServicePort> = Vec::new();
    ports.push(
        Layer4ServicePort {
            name: cat("tcp-", port_text.as_str()),
            port: target.port as i32,
            protocol: Protocol::Tcp,
        },
    );
    let mut services: Vec<ConnectorAdvertisementLayer4Service> = Vec::new();
    services.push(
        ConnectorAdvertisementLayer4Service {
            address: Layer4ServiceAddress(target.address.clone()),
            ports,
        },
    );
    let mut layer4: Vec<ConnectorAdvertisementLayer4> = Vec::new();
    layer4.push(ConnectorAdvertisementLayer4 { name: "default".to_owned(), services });
    ConnectorAdvertisementSpec {
        connector_ref: LocalConnectorReference { name: connector_name.to_owned() },
        layer4: Some(layer4),
    }
}

} // verus!
