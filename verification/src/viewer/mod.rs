//! The viewer: the window that shows a remote machine and passes its user's input on.

pub mod api;
pub mod connection;
pub mod control_laws;
pub mod decoder;
pub mod display;
pub mod launch;
pub mod launch_laws;
pub mod laws;
pub mod message_laws;
pub mod paint_laws;
pub mod render;
pub mod session;
pub mod vpx_dec;
