//! Advertisements: which address and port a connector offers for a tunnel.
use super::connector::LocalConnectorReference;
use super::meta::ObjectMeta;
use vstd::prelude::*;

verus! {

#[derive(Debug, Clone, Copy, PartialEq, Eq, Structural)]
pub enum Protocol {
    Tcp,
}

#[derive(Debug, Clone)]
pub struct Layer4ServicePort {
    pub name: String,
    pub port: i32,
    pub protocol: Protocol,
}

#[derive(Debug, Clone)]
pub struct Layer4ServiceAddress(pub String);

#[derive(Debug, Clone)]
pub struct ConnectorAdvertisementLayer4Service {
    pub address: Layer4ServiceAddress,
    pub ports: Vec<Layer4ServicePort>,
}

#[derive(Debug, Clone)]
pub struct ConnectorAdvertisementLayer4 {
    pub name: String,
    pub services: Vec<ConnectorAdvertisementLayer4Service>,
}

#[derive(Debug, Clone)]
pub struct ConnectorAdvertisementSpec {
    pub connector_ref: LocalConnectorReference,
    pub layer4: Option<Vec<ConnectorAdvertisementLayer4>>,
}

#[derive(Debug, Clone)]
pub struct ConnectorAdvertisement {
    pub metadata: ObjectMeta,
    pub spec: ConnectorAdvertisementSpec,
}

} // verus!
