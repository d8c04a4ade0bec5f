//! Connectors: one for each device that serves tunnels of a project.
use super::meta::ObjectMeta;
use crate::text::same;
use vstd::prelude::*;

verus! {

/// An address under which the device can be reached directly.
#[derive(Debug, Clone)]
pub struct PublicKeyConnectorAddress {
    pub address: String,
    pub port: i32,
}

/// How peers find the device behind a public key.
#[derive(Debug, Clone, Copy, PartialEq, Eq, Structural)]
pub enum PublicKeyDiscoveryMode {
    Dns,
}

/// The public key of the device, with the ways to reach it.
#[derive(Debug, Clone)]
pub struct ConnectorConnectionDetailsPublicKey {
    pub id: String,
    pub discovery_mode: Option<PublicKeyDiscoveryMode>,
    pub home_relay: String,
    pub addresses: Vec<PublicKeyConnectorAddress>,
}

#[derive(Debug, Clone, Copy, PartialEq, Eq, Structural)]
pub enum ConnectorConnectionType {
    PublicKey,
}

#[derive(Debug, Clone)]
pub struct ConnectorConnectionDetails {
    pub connection_type: ConnectorConnectionType,
    pub public_key: Option<ConnectorConnectionDetailsPublicKey>,
}

#[derive(Debug, Clone)]
pub struct ConnectorStatus {
    pub connection_details: Option<ConnectorConnectionDetails>,
}

#[derive(Debug, Clone)]
pub struct ConnectorSpec {
    pub connector_class_name: String,
}

#[derive(Debug, Clone)]
pub struct Connector {
    pub metadata: ObjectMeta,
    pub spec: ConnectorSpec,
    pub status: Option<ConnectorStatus>,
}

/// A reference to a connector of the same project.
#[derive(Debug, Clone)]
pub struct LocalConnectorReference {
    pub name: String,
}

impl Connector {
    /// The public key that the connector's status names.
    pub open spec fn key_id(self) -> Option<Seq<char>> {
        match self.status {
            Some(s) => match s.connection_details {
                Some(d) => match d.public_key {
                    Some(k) => Some(k.id@),
                    None => None,
                },
                None => None,
            },
            None => None,
        }
    }

    /// Whether the connector's status names the public key `id`.
    pub fn has_key(&self, id: &str) -> (r: bool)
        ensures
            r == (self.key_id() == Some(id@)),
    {
        match &self.status {
            Some(s) => match &s.connection_details {
                Some(d) => match &d.public_key {
                    Some(k) => same(k.id.as_str(), id),
                    None => false,
                },
                None => false,
            },
            None => false,
        }
    }
}

} // verus!
