//! The resources that live in a project's control plane, as plain values.
pub mod allowance_bucket;
pub mod connector;
pub mod connector_advertisement;
pub mod http_proxy;
pub mod meta;
pub mod traffic_protection_policy;
pub mod user_invitation;
