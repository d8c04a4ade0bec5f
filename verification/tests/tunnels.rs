use datum_connect::datum_apis::connector::{
    Connector, ConnectorConnectionDetails, ConnectorConnectionDetailsPublicKey,
    ConnectorConnectionType, ConnectorSpec, ConnectorStatus,
};
use datum_connect::datum_apis::connector_advertisement::ConnectorAdvertisement;
use datum_connect::datum_apis::http_proxy::{HTTPProxy, HTTPProxySpec, HTTPProxyStatus};
use datum_connect::datum_apis::meta::{condition_is_true, Condition, ObjectMeta};
use datum_connect::project_control_plane::KubeError;
use datum_connect::state::{
    Advertisment, Authority, ProxyState, SelectedContext, TcpProxyData,
};
use datum_connect::tunnels::connectors::{
    build_connection_details, device_annotations, ensure_connector, friendly_device_name,
    CreateConnector, FindConnector,
};
use datum_connect::tunnels::operations::{
    new_advertisement, new_policy, new_proxy, CreateTunnel, DeleteTunnel, ListTunnels, SetEnabled,
    UpdateTunnel,
};
use datum_connect::tunnels::requests::{Outcome, Reply, Request};
use datum_connect::tunnels::service::{
    create_traffic_protection_policies_enabled, publish_tickets_enabled, LocalChange, TunnelError,
    TunnelService,
};
use datum_connect::tunnels::{
    list_summaries, normalize_endpoint, parse_target, parse_target_parts, proxy_backend_endpoint,
    proxy_hostnames, proxy_uses_connector, strip_scheme, strip_scheme_parts, ParsedTarget,
    TargetError, TunnelSummary,
};

fn s(text: &str) -> String {
    text.to_string()
}

fn summary(id: &str, endpoint: &str, hostnames: &[&str]) -> TunnelSummary {
    TunnelSummary {
        id: s(id),
        label: s("app"),
        endpoint: s(endpoint),
        hostnames: hostnames.iter().map(|h| h.to_string()).collect(),
        enabled: true,
        accepted: true,
        programmed: true,
    }
}

fn meta(name: &str) -> ObjectMeta {
    ObjectMeta { name: Some(s(name)), generate_name: None, annotations: None }
}

fn connector(name: &str, key: Option<&str>) -> Connector {
    Connector {
        metadata: meta(name),
        spec: ConnectorSpec { connector_class_name: s("iroh-quic-tunnel") },
        status: key.map(|id| ConnectorStatus {
            connection_details: Some(ConnectorConnectionDetails {
                connection_type: ConnectorConnectionType::PublicKey,
                public_key: Some(ConnectorConnectionDetailsPublicKey {
                    id: s(id),
                    discovery_mode: None,
                    home_relay: s("https://relay"),
                    addresses: vec![],
                }),
            }),
        }),
    }
}

fn stored_proxy(name: &str, label: &str, endpoint: &str, connector: &str) -> HTTPProxy {
    let mut proxy = new_proxy(label, endpoint, connector);
    proxy.metadata.name = Some(s(name));
    proxy
}

fn details() -> ConnectorConnectionDetails {
    build_connection_details("key", &vec![s("https://relay")], &vec![(s("10.0.0.1"), 7000)]).unwrap()
}

fn name_of<T, U>(outcome: Outcome<T, U>) -> T {
    match outcome {
        Outcome::Next(next) => next,
        _ => panic!("it goes on"),
    }
}

#[test]
fn origin_authority_parses_endpoint() {
    let t = summary("t1", "http://127.0.0.1:8080", &[]);
    assert!(t.origin_authority().is_some());
    let auth = t.origin_authority().unwrap();
    assert_eq!(auth, Authority { host: s("127.0.0.1"), port: 8080 });
    assert!(summary("t1", "http://127.0.0.1", &[]).origin_authority().is_none());
    assert_eq!(
        summary("t1", "localhost:3000", &[]).origin_authority(),
        Some(Authority { host: s("localhost"), port: 3000 })
    );
}

#[test]
fn endpoints_get_a_scheme_once() {
    assert_eq!(normalize_endpoint(" 127.0.0.1:4123 "), "http://127.0.0.1:4123");
    assert_eq!(normalize_endpoint("https://x:1"), "https://x:1");
    assert_eq!(normalize_endpoint("  "), "");
    for e in ["a:1", "http://a:1", "", "tcp://b"] {
        let once = normalize_endpoint(e);
        assert_eq!(normalize_endpoint(&once), once);
        assert!(once.is_empty() || once.contains("://"));
    }
}

#[test]
fn scheme_is_stripped_from_urls() {
    assert_eq!(strip_scheme("http://LOCALHOST:5173/path?x=1"), "localhost:5173");
    assert_eq!(strip_scheme("http://localhost:80/"), "http://localhost:80/");
    assert_eq!(strip_scheme("no url"), "no url");
    assert_eq!(strip_scheme_parts(Some((Some(s("h")), Some(9))), "x"), "h:9");
    assert_eq!(strip_scheme_parts(Some((None, Some(9))), "x"), "x");
    assert_eq!(strip_scheme_parts(None, "x"), "x");
}

fn target(t: &str) -> Result<(String, u16), TargetError> {
    parse_target(t).map(|t| (t.address, t.port))
}

#[test]
fn targets_are_read_from_urls_and_addresses() {
    assert_eq!(target(" http://127.0.0.1:4123/x "), Ok((s("127.0.0.1"), 4123)));
    assert_eq!(target("http://[::1]:9"), Ok((s("[::1]"), 9)));
    assert_eq!(target("http://host"), Err(TargetError::MissingPort));
    assert_eq!(target("data:text"), Err(TargetError::MissingHost));
    assert_eq!(target("127.0.0.1:80"), Ok((s("127.0.0.1"), 80)));
    assert_eq!(target("[::1]:80"), Ok((s("::1"), 80)));
    assert_eq!(target("[::1"), Err(TargetError::InvalidIpv6));
    assert_eq!(target("[::1]80"), Err(TargetError::MissingPort));
    assert_eq!(target("[::1]:x"), Err(TargetError::InvalidPort));
    assert_eq!(target("127.0.0.1"), Err(TargetError::MissingPort));
    assert_eq!(target("127.0.0.1:70000"), Err(TargetError::InvalidPort));
    assert_eq!(target("127.0.0.1:+80"), Ok((s("127.0.0.1"), 80)));
    assert_eq!(target(""), Err(TargetError::MissingPort));
    let parts = parse_target_parts(Some((Some(s("h")), None)), "x");
    assert_eq!(parts.map(|t| t.port), Err(TargetError::MissingPort));
    assert_eq!(TargetError::InvalidIpv6.message(), "invalid IPv6 address");
    assert_eq!(TargetError::MissingHost.message(), "missing host");
    assert_eq!(TargetError::MissingPort.message(), "missing port");
    assert_eq!(TargetError::InvalidPort.message(), "invalid port");
}

#[test]
fn services_read_back() {
    let d = TcpProxyData::from_host_port_str("::1:80").unwrap();
    assert_eq!(d, TcpProxyData { host: s("::1"), port: 80 });
    assert_eq!(d.address(), "::1:80");
    assert!(TcpProxyData::from_host_port_str("host").is_none());
    assert!(TcpProxyData::from_host_port_str("host:").is_none());
    assert!(TcpProxyData::from_host_port_str("host:65536").is_none());
}

#[test]
fn public_name_is_one_label_below_the_gateway() {
    let t = summary("t", "", &["a.b.iroh.datum.net", ".iroh.datum.net", "x-y.iroh.datum.net"]);
    assert_eq!(t.public_url().as_deref(), Some("https://x-y.iroh.datum.net"));
    let t = summary("t", "", &["other.example", "z.example"]);
    assert_eq!(t.public_url().as_deref(), Some("https://other.example"));
    assert_eq!(summary("t", "", &[]).public_url(), None);
}

#[test]
fn first_condition_of_a_kind_counts() {
    let c = |t: &str, v: &str| Condition { type_: s(t), status: s(v) };
    let list = Some(vec![c("Programmed", "False"), c("Accepted", "True"), c("Programmed", "True")]);
    assert!(condition_is_true(&list, "Accepted"));
    assert!(!condition_is_true(&list, "Programmed"));
    assert!(!condition_is_true(&list, "Ready"));
    assert!(!condition_is_true(&None, "Accepted"));
}

#[test]
fn created_tunnel_is_listed_as_created() {
    let p = stored_proxy("tunnel-1", "My app", "http://127.0.0.1:4123", "c");
    assert!(proxy_uses_connector(&p, "c"));
    assert!(!proxy_uses_connector(&p, "d"));
    assert_eq!(proxy_backend_endpoint(&p).as_deref(), Some("http://127.0.0.1:4123"));
    let target = ParsedTarget { address: s("127.0.0.1"), port: 4123 };
    let ad = new_advertisement(s("tunnel-1"), "c", &target);
    let listed = list_summaries(&vec![p.clone()], &vec![ad], "c");
    assert_eq!(listed.len(), 1);
    assert_eq!(listed[0].id, "tunnel-1");
    assert_eq!(listed[0].label, "My app");
    assert_eq!(listed[0].endpoint, "http://127.0.0.1:4123");
    assert!(listed[0].enabled);
    assert!(!listed[0].accepted);
    let disabled = list_summaries(&vec![p.clone()], &vec![], "c");
    assert!(!disabled[0].enabled);
    assert!(list_summaries(&vec![p], &vec![], "d").is_empty());
}

#[test]
fn listing_passes_over_nameless_proxies_and_reads_status() {
    let mut nameless = new_proxy("l", "http://h:1", "c");
    nameless.metadata.generate_name = Some(s("tunnel-"));
    let mut p = stored_proxy("t", "l", "h:1", "c");
    p.metadata.annotations = None;
    p.spec.hostnames = Some(vec![s("asked")]);
    assert_eq!(proxy_hostnames(&p), ["asked"]);
    p.status = Some(HTTPProxyStatus {
        hostnames: Some(vec![s("given")]),
        conditions: Some(vec![Condition { type_: s("Accepted"), status: s("True") }]),
    });
    assert_eq!(proxy_hostnames(&p), ["given"]);
    let listed = list_summaries(&vec![nameless, p], &vec![], "c");
    assert_eq!(listed.len(), 1);
    assert_eq!(listed[0].label, "t");
    assert_eq!(listed[0].endpoint, "http://h:1");
    assert_eq!(listed[0].hostnames, ["given"]);
    assert!(listed[0].accepted && !listed[0].programmed);
}

#[test]
fn new_resources_have_their_fixed_parts() {
    let p = new_proxy("label", "http://h:1", "c");
    assert_eq!(p.metadata.generate_name.as_deref(), Some("tunnel-"));
    assert_eq!(p.metadata.annotation("app.kubernetes.io/name").as_deref(), Some("label"));
    let redirect = &p.spec.rules[0];
    assert!(redirect.backends.is_none());
    let headers = redirect.matches[0].headers.as_ref().unwrap();
    assert_eq!(headers[0], (s("x-forwarded-proto"), s("http")));
    let filter = &redirect.filters.as_ref().unwrap()[0];
    assert_eq!((filter.scheme.as_str(), filter.status_code), ("https", 301));
    let ad = new_advertisement(s("n"), "c", &ParsedTarget { address: s("h"), port: 1 });
    let layer = &ad.spec.layer4.as_ref().unwrap()[0];
    assert_eq!(layer.name, "default");
    assert_eq!(layer.services[0].address.0, "h");
    assert_eq!(layer.services[0].ports[0].name, "tcp-1");
    assert_eq!(layer.services[0].ports[0].port, 1);
    let policy = new_policy(s("n"));
    assert_eq!(policy.spec.target_refs[0].kind, "Gateway");
    assert_eq!(policy.spec.target_refs[0].name, "n");
    assert_eq!(policy.spec.rule_sets.as_ref().unwrap().len(), 1);
}

#[test]
fn connector_with_the_key_is_found_at_once() {
    let annotations = device_annotations(s("laptop"), "linux");
    let mut c = connector("c", Some("key"));
    c.metadata.annotations = Some(annotations.clone());
    let find = FindConnector::start(s("key"), Some(details()), annotations);
    match find.request() {
        Request::ListConnectors { filter: Some(f) } => {
            assert_eq!(f, "status.connectionDetails.publicKey.id=key")
        }
        _ => panic!("lists by the key"),
    }
    match find.step(Reply::Connectors(vec![c, connector("d", Some("key"))])) {
        Outcome::Done(Some(c)) => assert_eq!(c.metadata.name_any(), "c"),
        _ => panic!("found"),
    }
}

#[test]
fn only_connector_is_claimed_for_this_device() {
    let find = FindConnector::start(s("key"), Some(details()), device_annotations(s("l"), "os"));
    let find = name_of(find.step(Reply::Connectors(vec![])));
    assert!(matches!(find.request(), Request::ListConnectors { filter: None }));
    let find = name_of(find.step(Reply::Connectors(vec![connector("c", Some("other"))])));
    match find.request() {
        Request::PatchConnectorStatus { name, details } => {
            assert_eq!(name, "c");
            let key = details.public_key.unwrap();
            assert_eq!(key.id, "key");
            assert_eq!(key.home_relay, "https://relay");
            assert_eq!((key.addresses[0].address.as_str(), key.addresses[0].port), ("10.0.0.1", 7000));
        }
        _ => panic!("patches the status"),
    }
    let find = name_of(find.step(Reply::Done));
    assert!(matches!(find.request(), Request::GetConnector { name } if name == "c"));
    let find = name_of(find.step(Reply::Connector(connector("c", Some("key")))));
    match find.request() {
        Request::PatchConnectorAnnotations { name, annotations } => {
            assert_eq!(name, "c");
            assert_eq!(annotations[0], (s("datum.net/device-name"), s("l")));
            assert_eq!(annotations[1], (s("datum.net/device-os"), s("os")));
        }
        _ => panic!("patches the annotations"),
    }
    let failed = KubeError::Other(s("conflict"));
    assert!(matches!(find.step(Reply::Failed(failed)), Outcome::Done(Some(_))));
}

#[test]
fn several_unknown_connectors_are_none() {
    let find = FindConnector::start(s("key"), None, vec![]);
    let find = name_of(find.step(Reply::Connectors(vec![])));
    let many = vec![connector("c", None), connector("d", None)];
    assert!(matches!(find.step(Reply::Connectors(many)), Outcome::Done(None)));
    let find = FindConnector::start(s("key"), None, vec![]);
    let find = name_of(find.step(Reply::Connectors(vec![])));
    // Without connection details the only connector is used as it is.
    assert!(matches!(
        find.step(Reply::Connectors(vec![connector("c", None)])),
        Outcome::Done(Some(_))
    ));
    let find = FindConnector::start(s("key"), None, vec![]);
    assert!(matches!(
        find.step(Reply::Failed(KubeError::TlsRequired)),
        Outcome::Failed(KubeError::TlsRequired)
    ));
}

#[test]
fn connector_is_made_where_none_is_found() {
    let create = match ensure_connector(None, Some(details()), device_annotations(s("l"), "os")) {
        Err(create) => create,
        Ok(_) => panic!("none was found"),
    };
    match create.request() {
        Request::CreateConnector { connector } => {
            assert_eq!(connector.metadata.generate_name.as_deref(), Some("datum-connect-"));
            assert_eq!(connector.spec.connector_class_name, "iroh-quic-tunnel");
        }
        _ => panic!("creates"),
    }
    let create = name_of(create.step(Reply::Connector(connector("datum-connect-1", None))));
    assert!(matches!(create.request(), Request::PatchConnectorStatus { .. }));
    match create.step(Reply::Failed(KubeError::TlsRequired)) {
        Outcome::Done(c) => assert_eq!(c.metadata.name_any(), "datum-connect-1"),
        _ => panic!("made all the same"),
    }
    let create = CreateConnector::start(None, vec![]);
    assert!(matches!(create.step(Reply::Connector(connector("x", None))), Outcome::Done(_)));
    assert!(ensure_connector(Some(connector("c", None)), None, vec![]).is_ok());
}

#[test]
fn device_names_lose_the_local_suffix() {
    assert_eq!(friendly_device_name(&None, "laptop.local"), "laptop");
    assert_eq!(friendly_device_name(&None, "laptop"), "laptop");
    assert_eq!(friendly_device_name(&Some(s(" My Mac \n")), "x.local"), "My Mac");
    assert_eq!(friendly_device_name(&Some(s("\n")), "x.local"), "x");
    assert!(build_connection_details("k", &vec![], &vec![]).is_none());
}

fn service() -> TunnelService {
    TunnelService { publish_tickets: false, create_traffic_protection_policies: true }
}

#[test]
fn tunnel_is_made_step_by_step() {
    let plan = service().create_project("App", " 127.0.0.1:4123 ").unwrap();
    assert_eq!(plan.endpoint, "http://127.0.0.1:4123");
    let op = plan.operation(service(), &connector("c", None));
    let proxy = match op.request() {
        Request::CreateProxy { proxy } => proxy,
        _ => panic!("makes the proxy first"),
    };
    assert!(proxy_uses_connector(&proxy, "c"));
    let mut stored = proxy;
    stored.metadata.name = Some(s("tunnel-9"));
    let op = name_of(op.step(Reply::Proxy(stored)));
    match op.request() {
        Request::CreateAdvertisement { advertisement } => {
            assert_eq!(advertisement.metadata.name.as_deref(), Some("tunnel-9"))
        }
        _ => panic!("makes the advertisement"),
    }
    let op = name_of(op.step(Reply::Done));
    match op.request() {
        Request::CreatePolicy { policy } => {
            assert_eq!(policy.metadata.name.as_deref(), Some("tunnel-9"))
        }
        _ => panic!("makes the policy"),
    }
    let proxy = match op.step(Reply::Done) {
        Outcome::Done(proxy) => proxy,
        _ => panic!("done"),
    };
    let (change, summary) = service().created_project(plan, &proxy).unwrap();
    assert_eq!(summary.id, "tunnel-9");
    assert_eq!(summary.label, "App");
    assert!(summary.enabled);
    match change {
        LocalChange::Store(state) => {
            assert_eq!(state.id(), "tunnel-9");
            assert_eq!(state.info.data, TcpProxyData { host: s("127.0.0.1"), port: 4123 });
            assert!(state.enabled);
        }
        _ => panic!("stores the state"),
    }
}

#[test]
fn making_a_tunnel_ends_at_the_first_failure() {
    let op = CreateTunnel::start(
        s("l"),
        s("http://h:1"),
        s("c"),
        ParsedTarget { address: s("h"), port: 1 },
        false,
    );
    let op = name_of(op.step(Reply::Proxy(stored_proxy("t", "l", "http://h:1", "c"))));
    assert!(matches!(
        op.step(Reply::Failed(KubeError::TlsRequired)),
        Outcome::Failed(KubeError::TlsRequired)
    ));
    let op = CreateTunnel::start(
        s("l"),
        s("http://h:1"),
        s("c"),
        ParsedTarget { address: s("h"), port: 1 },
        false,
    );
    let op = name_of(op.step(Reply::Proxy(stored_proxy("t", "l", "http://h:1", "c"))));
    // Policies are switched off.
    assert!(matches!(op.step(Reply::Done), Outcome::Done(_)));
    assert_eq!(
        service().create_project("l", "nowhere").map(|p| p.endpoint),
        Err(TargetError::MissingPort)
    );
}

#[test]
fn tunnel_is_changed_and_keeps_its_hostnames() {
    let plan = service().update_project("t", "New", "h:2").unwrap();
    let op: UpdateTunnel = plan.operation(&connector("c", None));
    assert!(matches!(op.request(), Request::GetProxy { name } if name == "t"));
    let mut old = stored_proxy("t", "Old", "http://h:1", "c");
    old.spec.hostnames = Some(vec![s("x.example")]);
    let op = name_of(op.step(Reply::Proxy(old)));
    match op.request() {
        Request::PatchProxy { name, label, hostnames, rules } => {
            assert_eq!((name.as_str(), label.as_str()), ("t", "New"));
            assert_eq!(hostnames, ["x.example"]);
            assert_eq!(rules[1].backends.as_ref().unwrap()[0].endpoint, "http://h:2");
        }
        _ => panic!("patches the proxy"),
    }
    let op = name_of(op.step(Reply::Done));
    assert!(matches!(op.request(), Request::FindAdvertisement { name } if name == "t"));
    let op = name_of(op.step(Reply::Found(true)));
    match op.request() {
        Request::PatchAdvertisement { name, spec } => {
            assert_eq!(name, "t");
            assert_eq!(spec.connector_ref.name, "c");
            assert_eq!(spec.layer4.unwrap()[0].services[0].ports[0].port, 2);
        }
        _ => panic!("patches the advertisement"),
    }
    let op = name_of(op.step(Reply::Done));
    let (existing, enabled) = match op.step(Reply::Found(true)) {
        Outcome::Done(done) => done,
        _ => panic!("done"),
    };
    let (change, summary) = service().updated_project(plan, &existing, enabled);
    assert_eq!((summary.id.as_str(), summary.label.as_str()), ("t", "New"));
    assert_eq!(summary.endpoint, "http://h:2");
    assert_eq!(summary.hostnames, ["x.example"]);
    assert!(matches!(change, Some(LocalChange::Store(_))));
}

#[test]
fn switching_writes_or_deletes_the_advertisement() {
    let c = connector("c", None);
    let p = stored_proxy("t", "L", "http://h:1", "c");
    let (plan, op) = service().set_enabled_project("t", &c, &p, true);
    let op = op.unwrap();
    assert!(matches!(op.request(), Request::FindAdvertisement { .. }));
    let op = name_of(op.step(Reply::Found(false)));
    assert!(matches!(op.request(), Request::CreateAdvertisement { .. }));
    assert!(matches!(op.step(Reply::Done), Outcome::Done(())));
    let (_, summary) = service().switched_project(plan, "t", &p);
    assert!(summary.enabled);
    assert_eq!(summary.label, "L");
    let (_, op) = service().set_enabled_project("t", &c, &p, true);
    let op = name_of(op.unwrap().step(Reply::Found(true)));
    assert!(matches!(op.request(), Request::PatchAdvertisement { .. }));
    let (_, op) = service().set_enabled_project("t", &c, &p, false);
    let op = name_of(op.unwrap().step(Reply::Found(true)));
    assert!(matches!(op.request(), Request::DeleteAdvertisement { name } if name == "t"));
    let (_, op) = service().set_enabled_project("t", &c, &p, false);
    assert!(matches!(op.unwrap().step(Reply::Found(false)), Outcome::Done(())));
    let broken = stored_proxy("t", "L", "http://h", "c");
    let (_, op) = service().set_enabled_project("t", &c, &broken, true);
    assert!(matches!(op, Err(KubeError::Service(m)) if m == "missing port"));
    assert!(SetEnabled::start(s("t"), s("c"), "nowhere", false).is_ok());
}

fn delete_until_listing(found: bool) -> DeleteTunnel {
    let mut op = service().delete_project("p", "t", &Some(connector("c", None))).unwrap();
    for _ in 0..3 {
        op = name_of(op.step(Reply::Found(found)));
        if found {
            op = name_of(op.step(Reply::Done));
        }
    }
    assert!(matches!(op.request(), Request::ListProxies));
    op
}

#[test]
fn connector_stays_while_it_is_used() {
    let op = delete_until_listing(true);
    let others = vec![stored_proxy("u", "l", "http://h:1", "c")];
    assert!(matches!(op.step(Reply::Proxies(others)), Outcome::Done(false)));
}

#[test]
fn unused_connector_goes_with_its_advertisements() {
    let op = delete_until_listing(false);
    let others = vec![stored_proxy("u", "l", "http://h:1", "another")];
    let op = name_of(op.step(Reply::Proxies(others)));
    match op.request() {
        Request::ListAdvertisements { selector } => {
            assert_eq!(selector, "spec.connectorRef.name=c")
        }
        _ => panic!("lists the advertisements"),
    }
    let target = ParsedTarget { address: s("h"), port: 1 };
    let ad = |name: Option<&str>| -> ConnectorAdvertisement {
        let mut ad = new_advertisement(s("x"), "c", &target);
        ad.metadata.name = name.map(|n| n.to_string());
        ad
    };
    let op = name_of(op.step(Reply::Advertisements(vec![ad(None), ad(Some("a")), ad(Some("b"))])));
    assert!(matches!(op.request(), Request::DeleteAdvertisement { name } if name == "a"));
    let op = name_of(op.step(Reply::Failed(KubeError::TlsRequired)));
    assert!(matches!(op.request(), Request::DeleteAdvertisement { name } if name == "b"));
    let op = name_of(op.step(Reply::Done));
    assert!(matches!(op.request(), Request::FindConnector { name } if name == "c"));
    let op = name_of(op.step(Reply::Found(true)));
    assert!(matches!(op.request(), Request::DeleteConnector { name } if name == "c"));
    assert!(matches!(op.step(Reply::Done), Outcome::Done(true)));
    let op = name_of(delete_until_listing(false).step(Reply::Proxies(vec![])));
    let op = name_of(op.step(Reply::Advertisements(vec![])));
    assert!(matches!(op.step(Reply::Found(false)), Outcome::Done(false)));
}

#[test]
fn deletion_without_connector_is_nothing() {
    let outcome = service().delete_project("p", "t", &None).unwrap_err();
    assert_eq!(outcome.project_id, "p");
    assert!(!outcome.connector_deleted);
    let (change, outcome) = service().deleted_project("p", "t", true);
    assert!(matches!(change, LocalChange::Forget(id) if id == "t"));
    assert!(outcome.connector_deleted);
    let publishing = TunnelService { publish_tickets: true, ..service() };
    let (change, _) = publishing.deleted_project("p", "t", false);
    assert!(matches!(change, LocalChange::Unpublish(id) if id == "t"));
}

#[test]
fn listing_asks_and_syncs_the_device() {
    assert!(service().list_project(&None).is_none());
    let c = connector("c", None);
    let op: ListTunnels = service().list_project(&Some(c.clone())).unwrap();
    assert!(matches!(op.request(), Request::ListProxies));
    let proxies = vec![
        stored_proxy("t", "l", "http://h:1", "c"),
        stored_proxy("u", "l", "nowhere", "c"),
    ];
    let op = name_of(op.step(Reply::Proxies(proxies)));
    assert!(matches!(op.request(), Request::ListAdvertisements { .. }));
    let (proxies, ads) = match op.step(Reply::Advertisements(vec![])) {
        Outcome::Done(done) => done,
        _ => panic!("done"),
    };
    let (tunnels, states) = service().listed_project(&c, &proxies, &ads);
    assert_eq!(tunnels.len(), 2);
    assert_eq!(states.len(), 1);
    assert_eq!(states[0].id(), "t");
    let publishing = TunnelService { publish_tickets: true, ..service() };
    assert!(publishing.listed_project(&c, &proxies, &ads).1.is_empty());
    let local = |id: &str, port: u16| ProxyState {
        info: Advertisment {
            resource_id: s(id),
            label: None,
            data: TcpProxyData { host: s("h"), port },
        },
        enabled: true,
    };
    let here = vec![local("t", 1), local("old", 1), local("other", 2)];
    assert_eq!(service().stale_ids(&tunnels, &tunnels[0], &here), ["old"]);
    assert!(publishing.stale_ids(&tunnels, &tunnels[0], &here).is_empty());
    assert!(service().stale_ids(&tunnels, &tunnels[1], &here).is_empty());
}

#[test]
fn operations_need_a_selected_project() {
    let ctx = SelectedContext {
        org_id: s("o"),
        org_name: s("Org"),
        project_id: s("p"),
        project_name: s("Project"),
        org_type: s("team"),
    };
    let service = service();
    assert_eq!(service.list_active(&None), None);
    assert_eq!(service.list_active(&Some(ctx.clone())).as_deref(), Some("p"));
    assert_eq!(service.delete_active(&None), Err(TunnelError::NoProjectSelected));
    assert_eq!(service.set_enabled_active(&Some(ctx.clone())), Ok(s("p")));
    assert_eq!(
        service.create_active(&None, "l", "h:1").map(|x| x.0),
        Err(TunnelError::NoProjectSelected)
    );
    assert_eq!(
        service.create_active(&Some(ctx.clone()), "l", "h").map(|x| x.0),
        Err(TunnelError::Target(TargetError::MissingPort))
    );
    assert_eq!(service.update_active(&Some(ctx), "t", "l", "h:1").map(|x| x.0), Ok(s("p")));
    let tunnels = vec![summary("a", "", &[]), summary("b", "", &["x"])];
    assert_eq!(service.get_active(&tunnels, "b"), Some(tunnels[1].clone()));
    assert_eq!(service.get_active(&tunnels, "c"), None);
}

#[test]
fn switches_of_the_environment() {
    for on in ["1", "true", "TRUE", "yes", "YES"] {
        assert!(publish_tickets_enabled(&Some(s(on))));
    }
    for off in ["0", "True", "on", ""] {
        assert!(!publish_tickets_enabled(&Some(s(off))));
    }
    assert!(!publish_tickets_enabled(&None));
    assert!(create_traffic_protection_policies_enabled(&None, &Some(s("1"))));
    assert!(!create_traffic_protection_policies_enabled(&Some(s("0")), &Some(s("1"))));
    let service = TunnelService::new(&Some(s("1")), &None, &None);
    assert!(service.publish_tickets && !service.create_traffic_protection_policies);
}

#[test]
fn names_fall_back_to_the_generated_prefix() {
    let spec = HTTPProxySpec { hostnames: None, rules: vec![] };
    let mut p = HTTPProxy { metadata: meta("n"), spec, status: None };
    assert_eq!(p.metadata.name_any(), "n");
    p.metadata.name = None;
    assert_eq!(p.metadata.name_any(), "");
    p.metadata.generate_name = Some(s("g-"));
    assert_eq!(p.metadata.name_any(), "g-");
    assert!(!proxy_uses_connector(&p, "c"));
    assert_eq!(proxy_backend_endpoint(&p), None);
    assert!(proxy_hostnames(&p).is_empty());
}
