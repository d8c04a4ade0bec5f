//! HTTP proxies: the public side of a tunnel.
use super::meta::{conditions_of, holds_true, Condition, ObjectMeta};
use vstd::prelude::*;

verus! {

pub const HTTP_PROXY_CONDITION_ACCEPTED: &'static str = "Accepted";

pub const HTTP_PROXY_CONDITION_PROGRAMMED: &'static str = "Programmed";

/// Requests under a path prefix, with the given headers exactly.
#[derive(Debug, Clone)]
pub struct HTTPRouteMatch {
    pub path_prefix: Option<String>,
    pub headers: Option<Vec<(String, String)>>,
}

/// An answer that sends the client to another scheme.
#[derive(Debug, Clone)]
pub struct RequestRedirect {
    pub scheme: String,
    pub status_code: i64,
}

#[derive(Debug, Clone)]
pub struct ConnectorReference {
    pub name: String,
}

#[derive(Debug, Clone)]
pub struct HTTPProxyRuleBackend {
    pub endpoint: String,
    pub connector: Option<ConnectorReference>,
}

#[derive(Debug, Clone)]
pub struct HTTPProxyRule {
    pub name: Option<String>,
    pub matches: Vec<HTTPRouteMatch>,
    pub filters: Option<Vec<RequestRedirect>>,
    pub backends: Option<Vec<HTTPProxyRuleBackend>>,
}

#[derive(Debug, Clone)]
pub struct HTTPProxySpec {
    pub hostnames: Option<Vec<String>>,
    pub rules: Vec<HTTPProxyRule>,
}

#[derive(Debug, Clone)]
pub struct HTTPProxyStatus {
    pub hostnames: Option<Vec<String>>,
    pub conditions: Option<Vec<Condition>>,
}

#[derive(Debug, Clone)]
pub struct HTTPProxy {
    pub metadata: ObjectMeta,
    pub spec: HTTPProxySpec,
    pub status: Option<HTTPProxyStatus>,
}

impl HTTPProxy {
    /// The status says that the condition of the given kind is true.
    pub open spec fn condition(self, kind: Seq<char>) -> bool {
        match self.status {
            Some(s) => holds_true(conditions_of(s.conditions), kind),
            None => false,
        }
    }
}

} // verus!
