//! The decision logic of a small remote desktop: an agent that streams its screen and injects
//! input, and a viewer that shows the screen and captures input.

pub mod agent;
pub mod backend;
pub mod grid;
pub mod jpeg_frame;
pub mod jpeg_laws;
pub mod num;
pub mod outside;
pub mod protocol;
pub mod settings;
pub mod text;
pub mod text_laws;
pub mod viewer;
pub mod wire;
