//! The Datum cloud: environments, sessions, organizations, roles and invitations.
pub mod auth;
pub mod datumctl;
pub mod env;
pub mod organizations;
pub mod client;
pub mod invitations;
pub mod roles;
