//! What is asked of a project's control plane, and what it answers.
use crate::datum_apis::connector::{Connector, ConnectorConnectionDetails};
use crate::datum_apis::connector_advertisement::{
    ConnectorAdvertisement, ConnectorAdvertisementSpec,
};
use crate::datum_apis::http_proxy::{HTTPProxy, HTTPProxyRule};
use crate::datum_apis::traffic_protection_policy::TrafficProtectionPolicy;
use crate::project_control_plane::KubeError;
use vstd::prelude::*;

verus! {

/// A request to the control plane. `Find..` asks whether a resource is there; `Get..` asks for one
/// that has to be.
#[derive(Debug)]
pub enum Request {
    /// The connectors that a field selector picks, or all.
    ListConnectors { filter: Option<String> },
    GetConnector { name: String },
    FindConnector { name: String },
    CreateConnector { connector: Connector },
    /// Merge the connection details into the connector's status.
    PatchConnectorStatus { name: String, details: ConnectorConnectionDetails },
    /// Merge the annotations into the connector's own.
    PatchConnectorAnnotations { name: String, annotations: Vec<(String, String)> },
    DeleteConnector { name: String },
    ListProxies,
    GetProxy { name: String },
    FindProxy { name: String },
    CreateProxy { proxy: HTTPProxy },
    /// Merge the display name, the hostnames and the rules into the proxy.
    PatchProxy { name: String, label: String, hostnames: Vec<String>, rules: Vec<HTTPProxyRule> },
    DeleteProxy { name: String },
    /// The advertisements that a field selector picks.
    ListAdvertisements { selector: String },
    FindAdvertisement { name: String },
    CreateAdvertisement { advertisement: ConnectorAdvertisement },
    PatchAdvertisement { name: String, spec: ConnectorAdvertisementSpec },
    DeleteAdvertisement { name: String },
    CreatePolicy { policy: TrafficProtectionPolicy },
    FindPolicy { name: String },
    DeletePolicy { name: String },
}

/// An answer of the control plane.
#[derive(Debug)]
pub enum Reply {
    Connectors(Vec<Connector>),
    Connector(Connector),
    Proxies(Vec<HTTPProxy>),
    Proxy(HTTPProxy),
    Advertisements(Vec<ConnectorAdvertisement>),
    /// Whether the resource is there.
    Found(bool),
    /// The request was carried out.
    Done,
    Failed(KubeError),
}

/// The reply is one that can come on the request.
pub open spec fn fits(request: Request, reply: Reply) -> bool {
    reply is Failed || match request {
        Request::ListConnectors { .. } => reply is Connectors,
        Request::GetConnector { .. } | Request::CreateConnector { .. }
        | Request::PatchConnectorAnnotations { .. } => reply is Connector,
        Request::ListProxies => reply is Proxies,
        Request::GetProxy { .. } | Request::CreateProxy { .. } => reply is Proxy,
        Request::ListAdvertisements { .. } => reply is Advertisements,
        Request::FindConnector { .. } | Request::FindProxy { .. }
        | Request::FindAdvertisement { .. } | Request::FindPolicy { .. } => reply is Found,
        _ => reply is Done,
    }
}

/// What an operation comes to on a reply: it goes on in the next state, or it is over.
#[derive(Debug)]
pub enum Outcome<S, T> {
    Next(S),
    Done(T),
    Failed(KubeError),
}

} // verus!
