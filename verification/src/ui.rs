//! The desktop application: what its windows hold and show, and what its buttons do.
pub mod add_tunnel_dialog;
pub mod app;
pub mod auth_window;
pub mod invite_user_dialog;
pub mod login;
pub mod settings;
pub mod state;
