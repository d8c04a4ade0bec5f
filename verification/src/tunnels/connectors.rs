//! Finding and making the connector of this device.
use super::requests::{Outcome, Reply, Request};
use super::{CONNECTOR_SELECTOR_FIELD, DEFAULT_CONNECTOR_CLASS_NAME};
use crate::datum_apis::connector::{
    Connector, ConnectorConnectionDetails, ConnectorConnectionDetailsPublicKey,
    ConnectorConnectionType, ConnectorSpec, PublicKeyConnectorAddress, PublicKeyDiscoveryMode,
};
use crate::datum_apis::meta::ObjectMeta;
use crate::text::{cat3, has_suffix, opt_view, same, strip_suffix, trim, trimmed};
use vstd::pervasive::unreached;
use vstd::prelude::*;

verus! {

pub const DEVICE_NAME_ANNOTATION: &'static str = "datum.net/device-name";

pub const DEVICE_OS_ANNOTATION: &'static str = "datum.net/device-os";

/// The texts of a row of pairs.
pub open spec fn pair_views(pairs: Seq<(String, String)>) -> Seq<(Seq<char>, Seq<char>)> {
    Seq::new(pairs.len(), |i: int| (pairs[i].0@, pairs[i].1@))
}

/// The friendly name of the device for a host name: without the suffix `.local`.
pub open spec fn device_name(hostname: Seq<char>) -> Seq<char> {
    if has_suffix(hostname, ".local"@) {
        hostname.take(hostname.len() - ".local"@.len())
    } else {
        hostname
    }
}

/// The friendly name of the device: the computer name where the system prints one, else made from
/// the host name.
pub fn friendly_device_name(computer_name: &Option<String>, hostname: &str) -> (r: String)
    ensures
        r@ == match *computer_name {
            Some(n) if trimmed(n@).len() > 0 => trimmed(n@),
            _ => device_name(hostname@),
        },
{
    if let Some(n) = computer_name {
        let name = trim(n.as_str());
        if !name.as_str().is_empty() {
            return name;
        }
    }
    match strip_suffix(hostname, ".local") {
        Some(n) => n,
        None => hostname.to_owned(),
    }
}

/// What a connector says of its device: its name and its operating system.
pub fn device_annotations(name: String, os: &str) -> (r: Vec<(String, String)>)
    ensures
        pair_views(r@) == seq![(DEVICE_NAME_ANNOTATION@, name@), (DEVICE_OS_ANNOTATION@, os@)],
{
    let mut out: Vec<(String, String)> = Vec::new();
    let ghost n = name@;
    out.push((DEVICE_NAME_ANNOTATION.to_owned(), name));
    out.push((DEVICE_OS_ANNOTATION.to_owned(), os.to_owned()));
    assert(pair_views(out@) =~= seq![(DEVICE_NAME_ANNOTATION@, n), (DEVICE_OS_ANNOTATION@, os@)]);
    out
}

/// A copy of the pairs.
fn copy_pairs(pairs: &Vec<(String, String)>) -> (r: Vec<(String, String)>)
    ensures
        r@ == pairs@,
{
    let mut out: Vec<(String, String)> = Vec::new();
    let mut i: usize = 0;
    while i < pairs.len()
        invariant
            i <= pairs@.len(),
            out@ == pairs@.take(i as int),
        decreases pairs@.len() - i,
    {
        out.push((pairs[i].0.clone(), pairs[i].1.clone()));
        i += 1;
    }
    assert(pairs@.take(pairs@.len() as int) =~= pairs@);
    out
}

/// The details hold the same as the others.
pub open spec fn same_details(
    a: ConnectorConnectionDetails,
    b: ConnectorConnectionDetails,
) -> bool {
    &&& a.connection_type == b.connection_type
    &&& match (a.public_key, b.public_key) {
        (Some(x), Some(y)) => {
            &&& x.id@ == y.id@
            &&& x.discovery_mode == y.discovery_mode
            &&& x.home_relay@ == y.home_relay@
            &&& x.addresses@ == y.addresses@
        },
        (None, None) => true,
        _ => false,
    }
}

fn copy_addresses(v: &Vec<PublicKeyConnectorAddress>) -> (r: Vec<PublicKeyConnectorAddress>)
    ensures
        r@ == v@,
{
    let mut out: Vec<PublicKeyConnectorAddress> = Vec::new();
    let mut i: usize = 0;
    while i < v.len()
        invariant
            i <= v@.len(),
            out@ == v@.take(i as int),
        decreases v@.len() - i,
    {
        out.push(PublicKeyConnectorAddress { address: v[i].address.clone(), port: v[i].port });
        i += 1;
    }
    assert(v@.take(v@.len() as int) =~= v@);
    out
}

fn copy_details(d: &ConnectorConnectionDetails) -> (r: ConnectorConnectionDetails)
    ensures
        same_details(r, *d),
{
    ConnectorConnectionDetails {
        connection_type: d.connection_type,
        public_key: match &d.public_key {
            Some(k) => Some(
                ConnectorConnectionDetailsPublicKey {
                    id: k.id.clone(),
                    discovery_mode: k.discovery_mode,
                    home_relay: k.home_relay.clone(),
                    addresses: copy_addresses(&k.addresses),
                },
            ),
            None => None,
        },
    }
}

/// How this device can be reached: by its public key, over its home relay and at its addresses.
/// Without a home relay there is nothing to say.
pub fn build_connection_details(
    endpoint_id: &str,
    relay_urls: &Vec<String>,
    ip_addrs: &Vec<(String, u16)>,
) -> (r: Option<ConnectorConnectionDetails>)
    ensures
        r is Some <==> relay_urls@.len() > 0,
        r matches Some(d) ==> {
            &&& d.connection_type == ConnectorConnectionType::PublicKey
            &&& d.public_key matches Some(k) && {
                &&& k.id@ == endpoint_id@
                &&& k.discovery_mode == Some(PublicKeyDiscoveryMode::Dns)
                &&& k.home_relay@ == relay_urls@[0]@
                &&& k.addresses@.len() == ip_addrs@.len()
                &&& forall|i: int|
                    0 <= i < ip_addrs@.len() ==> {
                        &&& (#[trigger] k.addresses@[i]).address@ == ip_addrs@[i].0@
                        &&& k.addresses@[i].port == ip_addrs@[i].1
                    }
            }
        },
{
    if relay_urls.len() == 0 {
        return None;
    }
    let mut addresses: Vec<PublicKeyConnectorAddress> = Vec::new();
    let mut i: usize = 0;
    while i < ip_addrs.len()
        invariant
            i <= ip_addrs@.len(),
            addresses@.len() == i,
            forall|k: int|
                0 <= k < i ==> {
                    &&& (#[trigger] addresses@[k]).address@ == ip_addrs@[k].0@
                    &&& addresses@[k].port == ip_addrs@[k].1
                },
        decreases ip_addrs@.len() - i,
    {
        addresses.push(
            PublicKeyConnectorAddress {
                address: ip_addrs[i].0.clone(),
                port: ip_addrs[i].1 as i32,
            },
        );
        i += 1;
    }
    Some(
        ConnectorConnectionDetails {
            connection_type: ConnectorConnectionType::PublicKey,
            public_key: Some(
                ConnectorConnectionDetailsPublicKey {
                    id: endpoint_id.to_owned(),
                    discovery_mode: Some(PublicKeyDiscoveryMode::Dns),
                    home_relay: relay_urls[0].clone(),
                    addresses,
                },
            ),
        },
    )
}

/// Where the search for the connector stands.
#[derive(Debug)]
pub enum FindPhase {
    /// Connectors with this device's key are being listed.
    Selecting,
    /// All connectors are being listed.
    Fallback,
    /// The only connector gets this device's connection details.
    PatchingStatus(Connector),
    /// The only connector is being read again.
    Refetching(Connector),
    /// The connector gets this device's annotations.
    Annotating(Connector),
}

/// The search for this device's connector.
///
/// The connector is the first one whose status names this device's key. If there is none, the only
/// connector of the project is taken, and gets this device's connection details where its status
/// does not name the key. A connector that is found gets this device's annotations where they
/// differ. That the details or annotations could not be written does not end the search.
#[derive(Debug)]
pub struct FindConnector {
    pub endpoint_id: String,
    pub selector: String,
    pub details: Option<ConnectorConnectionDetails>,
    pub annotations: Vec<(String, String)>,
    pub phase: FindPhase,
}

/// One of the expected annotations is missing at the connector or is another one there.
pub open spec fn lacks_annotation(expected: Seq<(String, String)>, connector: Connector) -> bool {
    exists|i: int|
        0 <= i < expected.len() && connector.metadata.annotated((#[trigger] expected[i]).0@)
            != Some(expected[i].1@)
}

/// Whether one of the expected annotations is missing at the connector or is another one there.
pub fn needs_annotation(expected: &Vec<(String, String)>, connector: &Connector) -> (r: bool)
    ensures
        r == lacks_annotation(expected@, *connector),
{
    let mut i: usize = 0;
    while i < expected.len()
        invariant
            i <= expected@.len(),
            forall|k: int|
                0 <= k < i ==> connector.metadata.annotated((#[trigger] expected@[k]).0@) == Some(
                    expected@[k].1@,
                ),
        decreases expected@.len() - i,
    {
        let differs = match connector.metadata.annotation(expected[i].0.as_str()) {
            Some(v) => !same(v.as_str(), expected[i].1.as_str()),
            None => true,
        };
        if differs {
            assert(connector.metadata.annotated(expected@[i as int].0@) != Some(
                expected@[i as int].1@,
            ));
            return true;
        }
        i += 1;
    }
    false
}

impl FindConnector {
    /// The selector picks the connectors whose status names this device's key.
    pub open spec fn wf(self) -> bool {
        self.selector@ == CONNECTOR_SELECTOR_FIELD@ + "="@ + self.endpoint_id@
    }

    /// The phase's request.
    pub open spec fn asks(self, request: Request) -> bool {
        match self.phase {
            FindPhase::Selecting => request matches Request::ListConnectors {
                filter: Some(s),
            } && s@ == CONNECTOR_SELECTOR_FIELD@ + "="@ + self.endpoint_id@,
            FindPhase::Fallback => request matches Request::ListConnectors { filter: None },
            FindPhase::PatchingStatus(c) => request matches Request::PatchConnectorStatus {
                name,
                details,
            } && name@ == c.metadata.any_name() && self.details is Some && same_details(
                details,
                self.details->0,
            ),
            FindPhase::Refetching(c) => request matches Request::GetConnector { name } && name@
                == c.metadata.any_name(),
            FindPhase::Annotating(c) => request matches Request::PatchConnectorAnnotations {
                name,
                annotations,
            } && name@ == c.metadata.any_name() && annotations@ == self.annotations@,
        }
    }

    /// The replies that can come in this phase.
    pub open spec fn expects(self, reply: Reply) -> bool {
        reply is Failed || match self.phase {
            FindPhase::Selecting | FindPhase::Fallback => reply is Connectors,
            FindPhase::PatchingStatus(_) => reply is Done && self.details is Some,
            FindPhase::Refetching(_) | FindPhase::Annotating(_) => reply is Connector,
        }
    }

    pub open spec fn in_phase(self, phase: FindPhase) -> FindConnector {
        FindConnector { phase, ..self }
    }

    /// A connector was found: its annotations are looked after.
    pub open spec fn found(self, connector: Connector) -> Outcome<
        FindConnector,
        Option<Connector>,
    > {
        if lacks_annotation(self.annotations@, connector) {
            Outcome::Next(self.in_phase(FindPhase::Annotating(connector)))
        } else {
            Outcome::Done(Some(connector))
        }
    }

    /// What follows on a reply.
    pub open spec fn next(self, reply: Reply) -> Outcome<FindConnector, Option<Connector>> {
        match (self.phase, reply) {
            (FindPhase::Selecting, Reply::Connectors(items)) => if items@.len() == 0 {
                Outcome::Next(self.in_phase(FindPhase::Fallback))
            } else {
                self.found(items@[0])
            },
            (FindPhase::Fallback, Reply::Connectors(items)) => if items@.len() != 1 {
                Outcome::Done(None)
            } else if items@[0].key_id() != Some(self.endpoint_id@) && self.details is Some {
                Outcome::Next(self.in_phase(FindPhase::PatchingStatus(items@[0])))
            } else {
                self.found(items@[0])
            },
            (FindPhase::PatchingStatus(c), Reply::Failed(_)) => self.found(c),
            (FindPhase::PatchingStatus(c), _) => Outcome::Next(
                self.in_phase(FindPhase::Refetching(c)),
            ),
            (FindPhase::Refetching(_), Reply::Connector(c)) => self.found(c),
            (FindPhase::Annotating(_), Reply::Connector(c)) => Outcome::Done(Some(c)),
            (FindPhase::Annotating(c), _) => Outcome::Done(Some(c)),
            (_, Reply::Failed(e)) => Outcome::Failed(e),
            _ => arbitrary(),
        }
    }

    /// Starts the search.
    pub fn start(
        endpoint_id: String,
        details: Option<ConnectorConnectionDetails>,
        annotations: Vec<(String, String)>,
    ) -> (r: FindConnector)
        ensures
            r.wf(),
            r.endpoint_id == endpoint_id,
            r.details == details,
            r.annotations == annotations,
            r.phase == FindPhase::Selecting,
    {
        let selector = cat3(CONNECTOR_SELECTOR_FIELD, "=", endpoint_id.as_str());
        FindConnector { endpoint_id, selector, details, annotations, phase: FindPhase::Selecting }
    }

    /// The request to send now.
    pub fn request(&self) -> (r: Request)
        requires
            self.wf(),
            self.phase is PatchingStatus ==> self.details is Some,
        ensures
            self.asks(r),
    {
        match &self.phase {
            FindPhase::Selecting => Request::ListConnectors {
                filter: Some(self.selector.clone()),
            },
            FindPhase::Fallback => Request::ListConnectors { filter: None },
            FindPhase::PatchingStatus(c) => match &self.details {
                Some(d) => Request::PatchConnectorStatus {
                    name: c.metadata.name_any(),
                    details: copy_details(d),
                },
                None => unreached(),
            },
            FindPhase::Refetching(c) => Request::GetConnector { name: c.metadata.name_any() },
            FindPhase::Annotating(c) => Request::PatchConnectorAnnotations {
                name: c.metadata.name_any(),
                annotations: copy_pairs(&self.annotations),
            },
        }
    }

    fn annotate(self, connector: Connector) -> (r: Outcome<FindConnector, Option<Connector>>)
        ensures
            r == self.found(connector),
    {
        if needs_annotation(&self.annotations, &connector) {
            Outcome::Next(FindConnector { phase: FindPhase::Annotating(connector), ..self })
        } else {
            Outcome::Done(Some(connector))
        }
    }

    /// What follows on a reply.
    pub fn step(self, reply: Reply) -> (r: Outcome<FindConnector, Option<Connector>>)
        requires
            self.wf(),
            self.expects(reply),
        ensures
            r == self.next(reply),
            r matches Outcome::Next(s) ==> s.wf() && (s.phase is PatchingStatus ==> s.details
                is Some),
    {
        let FindConnector { endpoint_id, selector, details, annotations, phase } = self;
        match (phase, reply) {
            (FindPhase::Selecting, Reply::Connectors(mut items)) => {
                if items.len() == 0 {
                    return Outcome::Next(
                        FindConnector {
                            endpoint_id,
                            selector,
                            details,
                            annotations,
                            phase: FindPhase::Fallback,
                        },
                    );
                }
                let first = items.swap_remove(0);
                let s = FindConnector {
                    endpoint_id,
                    selector,
                    details,
                    annotations,
                    phase: FindPhase::Selecting,
                };
                s.annotate(first)
            },
            (FindPhase::Fallback, Reply::Connectors(mut items)) => {
                if items.len() != 1 {
                    return Outcome::Done(None);
                }
                let only = items.swap_remove(0);
                let patch = !only.has_key(endpoint_id.as_str()) && details.is_some();
                if patch {
                    Outcome::Next(
                        FindConnector {
                            endpoint_id,
                            selector,
                            details,
                            annotations,
                            phase: FindPhase::PatchingStatus(only),
                        },
                    )
                } else {
                    let s = FindConnector {
                        endpoint_id,
                        selector,
                        details,
                        annotations,
                        phase: FindPhase::Fallback,
                    };
                    s.annotate(only)
                }
            },
            (FindPhase::PatchingStatus(c), Reply::Failed(_)) => {
                let s = FindConnector {
                    endpoint_id,
                    selector,
                    details,
                    annotations,
                    phase: FindPhase::Fallback,
                };
                s.annotate(c)
            },
            (FindPhase::PatchingStatus(c), _) => Outcome::Next(
                FindConnector {
                    endpoint_id,
                    selector,
                    details,
                    annotations,
                    phase: FindPhase::Refetching(c),
                },
            ),
            (FindPhase::Refetching(_), Reply::Connector(c)) => {
                let s = FindConnector {
                    endpoint_id,
                    selector,
                    details,
                    annotations,
                    phase: FindPhase::Fallback,
                };
                s.annotate(c)
            },
            (FindPhase::Annotating(_), Reply::Connector(c)) => Outcome::Done(Some(c)),
            (FindPhase::Annotating(c), _) => Outcome::Done(Some(c)),
            (_, Reply::Failed(e)) => Outcome::Failed(e),
            _ => unreached(),
        }
    }
}

/// What a search comes to after a row of replies.
pub open spec fn found_after(start: FindConnector, replies: Seq<Reply>) -> Outcome<
    FindConnector,
    Option<Connector>,
>
    decreases replies.len(),
{
    if replies.len() == 0 {
        Outcome::Next(start)
    } else {
        match found_after(start, replies.drop_last()) {
            Outcome::Next(s) => s.next(replies.last()),
            over => over,
        }
    }
}

/// The search goes on until the last reply, and each reply fits.
pub open spec fn find_possible(start: FindConnector, replies: Seq<Reply>) -> bool
    decreases replies.len(),
{
    replies.len() == 0 || {
        &&& find_possible(start, replies.drop_last())
        &&& found_after(start, replies.drop_last()) matches Outcome::Next(s) && s.expects(
            replies.last(),
        )
    }
}

/// The search ends after at most five replies. A connector gets other connection details only if
/// no connector had this device's key and it is the only one of the project. And none is found only
/// if no connector had the key and the project does not have exactly one.
pub proof fn law_find_connector(start: FindConnector, replies: Seq<Reply>)
    requires
        start.phase is Selecting,
        find_possible(start, replies),
    ensures
        replies.len() <= 5,
        found_after(start, replies) matches Outcome::Next(s) ==> replies.len() < 5 && {
            &&& s.endpoint_id == start.endpoint_id
            &&& s.details == start.details
            &&& s.annotations == start.annotations
        },
        found_after(start, replies) matches Outcome::Next(s) ==> match s.phase {
            FindPhase::Selecting => replies.len() == 0,
            FindPhase::Fallback => replies.len() == 1 && none_selected(replies),
            FindPhase::PatchingStatus(c) => replies.len() == 2 && none_selected(replies)
                && the_only(replies, c) && c.key_id() != Some(start.endpoint_id@),
            FindPhase::Refetching(c) => replies.len() == 3 && none_selected(replies) && the_only(
                replies,
                c,
            ) && c.key_id() != Some(start.endpoint_id@),
            FindPhase::Annotating(c) => replies.len() >= 1 && lacks_annotation(
                start.annotations@,
                c,
            ),
        },
        found_after(start, replies) matches Outcome::Done(None) ==> replies.len() == 2
            && none_selected(replies) && (replies[1] matches Reply::Connectors(v) && v@.len() != 1),
    decreases replies.len(),
{
    if replies.len() > 0 {
        let before = replies.drop_last();
        law_find_connector(start, before);
        assert(before.len() > 0 ==> before[0] == replies[0]);
        assert(before.len() > 1 ==> before[1] == replies[1]);
    }
}

/// No connector had this device's key.
pub open spec fn none_selected(replies: Seq<Reply>) -> bool {
    replies.len() > 0 && (replies[0] matches Reply::Connectors(v) && v@.len() == 0)
}

/// The project's only connector is `c`.
pub open spec fn the_only(replies: Seq<Reply>, c: Connector) -> bool {
    replies.len() > 1 && (replies[1] matches Reply::Connectors(v) && v@.len() == 1 && v@[0] == c)
}

/// Where the making of the connector stands.
#[derive(Debug)]
pub enum CreatePhase {
    Creating,
    PatchingStatus(Connector),
}

/// The making of this device's connector, for a project in which none was found.
///
/// That the connection details could not be written does not make the connector less usable: the
/// next search writes them.
#[derive(Debug)]
pub struct CreateConnector {
    pub details: Option<ConnectorConnectionDetails>,
    pub annotations: Vec<(String, String)>,
    pub phase: CreatePhase,
}

/// The connector to use, given what the search found: the one found, else one to be made.
pub fn ensure_connector(
    found: Option<Connector>,
    details: Option<ConnectorConnectionDetails>,
    annotations: Vec<(String, String)>,
) -> (r: Result<Connector, CreateConnector>)
    ensures
        r == (match found {
            Some(c) => Ok(c),
            None => Err(CreateConnector { details, annotations, phase: CreatePhase::Creating }),
        }),
{
    match found {
        Some(c) => Ok(c),
        None => Err(CreateConnector::start(details, annotations)),
    }
}

/// A connector to be made: with a generated name, the given annotations and the class of tunnels.
pub open spec fn is_new_connector(c: Connector, annotations: Seq<(String, String)>) -> bool {
    &&& c.metadata.name is None
    &&& opt_view(c.metadata.generate_name) == Some("datum-connect-"@)
    &&& c.metadata.annotations matches Some(a) && a@ == annotations
    &&& c.spec.connector_class_name@ == DEFAULT_CONNECTOR_CLASS_NAME@
    &&& c.status is None
}

impl CreateConnector {
    /// The phase's request.
    pub open spec fn asks(self, request: Request) -> bool {
        match self.phase {
            CreatePhase::Creating => request matches Request::CreateConnector { connector }
                && is_new_connector(connector, self.annotations@),
            CreatePhase::PatchingStatus(c) => request matches Request::PatchConnectorStatus {
                name,
                details,
            } && name@ == c.metadata.any_name() && self.details is Some && same_details(
                details,
                self.details->0,
            ),
        }
    }

    /// The replies that can come in this phase.
    pub open spec fn expects(self, reply: Reply) -> bool {
        reply is Failed || match self.phase {
            CreatePhase::Creating => reply is Connector,
            CreatePhase::PatchingStatus(_) => reply is Done,
        }
    }

    /// What follows on a reply.
    pub open spec fn next(self, reply: Reply) -> Outcome<CreateConnector, Connector> {
        match (self.phase, reply) {
            (CreatePhase::PatchingStatus(c), _) => Outcome::Done(c),
            (_, Reply::Connector(c)) => if self.details is Some {
                Outcome::Next(CreateConnector { phase: CreatePhase::PatchingStatus(c), ..self })
            } else {
                Outcome::Done(c)
            },
            (_, Reply::Failed(e)) => Outcome::Failed(e),
            _ => arbitrary(),
        }
    }

    pub fn start(
        details: Option<ConnectorConnectionDetails>,
        annotations: Vec<(String, String)>,
    ) -> (r: CreateConnector)
        ensures
            r == (CreateConnector { details, annotations, phase: CreatePhase::Creating }),
    {
        CreateConnector { details, annotations, phase: CreatePhase::Creating }
    }

    /// The request to send now.
    pub fn request(&self) -> (r: Request)
        requires
            self.phase is PatchingStatus ==> self.details is Some,
        ensures
            self.asks(r),
    {
        match &self.phase {
            CreatePhase::Creating => Request::CreateConnector {
                connector: Connector {
                    metadata: ObjectMeta {
                        name: None,
                        generate_name: Some("datum-connect-".to_owned()),
                        annotations: Some(copy_pairs(&self.annotations)),
                    },
                    spec: ConnectorSpec {
                        connector_class_name: DEFAULT_CONNECTOR_CLASS_NAME.to_owned(),
                    },
                    status: None,
                },
            },
            CreatePhase::PatchingStatus(c) => match &self.details {
                Some(d) => Request::PatchConnectorStatus {
                    name: c.metadata.name_any(),
                    details: copy_details(d),
                },
                None => unreached(),
            },
        }
    }

    /// What follows on a reply.
    pub fn step(self, reply: Reply) -> (r: Outcome<CreateConnector, Connector>)
        requires
            self.expects(reply),
        ensures
            r == self.next(reply),
            r matches Outcome::Next(s) ==> s.details is Some,
    {
        let CreateConnector { details, annotations, phase } = self;
        match phase {
            CreatePhase::PatchingStatus(c) => Outcome::Done(c),
            CreatePhase::Creating => match reply {
                Reply::Connector(c) => if details.is_some() {
                    Outcome::Next(
                        CreateConnector {
                            details,
                            annotations,
                            phase: CreatePhase::PatchingStatus(c),
                        },
                    )
                } else {
                    Outcome::Done(c)
                },
                Reply::Failed(e) => Outcome::Failed(e),
                _ => unreached(),
            },
        }
    }
}

} // verus!
