//! Datum tunnels.
pub mod agent;
pub mod auth_retry;
pub mod cli;
pub mod datum_apis;
pub mod datum_cloud;
pub mod diagnostics;
pub mod encoding;
pub mod http_user_agent;
pub mod json;
pub mod nix_hash;
pub mod project_control_plane;
pub mod random;
pub mod repo;
pub mod rows;
pub mod sorting;
pub mod state;
pub mod text;
pub mod times;
pub mod tunnel_activity;
pub mod tunnels;
pub mod ui;
pub mod update;
pub mod urls;
pub mod util;
pub mod versions;
