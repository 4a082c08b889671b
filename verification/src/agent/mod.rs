//! The agent: it streams the screen of the machine it runs on and injects a viewer's input there.

pub mod api;
pub mod control_ws;
pub mod laws;
pub mod lifecycle;
pub mod services;
pub mod session;
pub mod state;
