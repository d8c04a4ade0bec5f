//! What a device keeps of the tunnels that it serves.
use crate::text::{decimal, decimal_of, last_index_of, opt_view, parse_u16, parsed, rsplit_once};
use vstd::prelude::*;

verus! {

/// Host and port of an origin server.
#[derive(Debug, Clone, PartialEq, Eq)]
pub struct Authority {
    pub host: String,
    pub port: u16,
}

/// The TCP service that a tunnel leads to.
#[derive(Debug, Clone, PartialEq, Eq)]
pub struct TcpProxyData {
    pub host: String,
    pub port: u16,
}

/// A tunnel as the device offers it.
#[derive(Debug, Clone)]
pub struct Advertisment {
    pub resource_id: String,
    pub label: Option<String>,
    pub data: TcpProxyData,
}

/// A tunnel on the device, and whether it is switched on.
#[derive(Debug, Clone)]
pub struct ProxyState {
    pub info: Advertisment,
    pub enabled: bool,
}

/// The project and organization that the user works in.
#[derive(Debug, Clone, PartialEq, Eq)]
pub struct SelectedContext {
    pub org_id: String,
    pub org_name: String,
    pub project_id: String,
    pub project_name: String,
    pub org_type: String,
}

/// Host and port of a text of the form `host:port`: the last colon separates them.
pub open spec fn host_port(s: Seq<char>) -> Option<(Seq<char>, u16)> {
    let i = last_index_of(s, ':');
    if i < 0 {
        None
    } else {
        match parsed(s.skip(i + 1), u16::MAX as nat) {
            Some(n) => Some((s.take(i), n as u16)),
            None => None,
        }
    }
}

impl View for TcpProxyData {
    type V = (Seq<char>, u16);

    open spec fn view(&self) -> (Seq<char>, u16) {
        (self.host@, self.port)
    }
}

impl View for Authority {
    type V = (Seq<char>, u16);

    open spec fn view(&self) -> (Seq<char>, u16) {
        (self.host@, self.port)
    }
}

/// What the device keeps of a tunnel.
pub struct StateView {
    pub id: Seq<char>,
    pub label: Option<Seq<char>>,
    pub service: (Seq<char>, u16),
    pub enabled: bool,
}

impl View for ProxyState {
    type V = StateView;

    open spec fn view(&self) -> StateView {
        StateView {
            id: self.info.resource_id@,
            label: opt_view(self.info.label),
            service: self.info.data@,
            enabled: self.enabled,
        }
    }
}

impl TcpProxyData {
    /// Reads `host:port`.
    pub fn from_host_port_str(s: &str) -> (r: Option<TcpProxyData>)
        ensures
            r is Some <==> host_port(s@) is Some,
            r matches Some(d) ==> host_port(s@) == Some(d@),
    {
        match rsplit_once(s, ':') {
            None => None,
            Some((host, port)) => match parse_u16(port.as_str()) {
                Some(port) => Some(TcpProxyData { host, port }),
                None => None,
            },
        }
    }

    /// The service as `host:port`.
    pub fn address(&self) -> (r: String)
        ensures
            r@ == self.host@ + ":"@ + decimal(self.port as nat),
    {
        let port = decimal_of(self.port as u64);
        crate::text::cat3(self.host.as_str(), ":", port.as_str())
    }
}

impl ProxyState {
    /// The identifier of the tunnel.
    pub fn id(&self) -> (r: String)
        ensures
            r == self.info.resource_id,
    {
        self.info.resource_id.clone()
    }
}

/// A service written as `host:port` reads back as the same service.
pub proof fn law_address_reads_back(host: Seq<char>, port: u16)
    ensures
        host_port(host + ":"@ + decimal(port as nat)) == Some((host, port)),
{
    let d = decimal(port as nat);
    let s = host + ":"@ + d;
    reveal_strlit(":");
    crate::text::lemma_decimal_parses(port as nat, u16::MAX as nat);
    crate::text::lemma_last_index_of_range(s, ':');
    let i = last_index_of(s, ':');
    assert(s[host.len() as int] == ':');
    if i > host.len() {
        assert(s[i] == d[i - host.len() - 1]);
        crate::text::lemma_decimal_digits(port as nat);
        assert(crate::text::is_digit(d[i - host.len() - 1]));
    }
    assert(i == host.len());
    assert(s.skip(i + 1) =~= d);
    assert(s.take(i) =~= host);
}

} // verus!
