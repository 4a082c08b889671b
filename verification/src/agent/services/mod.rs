//! Screen capture, picture conversion and input injection.

pub mod capture_dxgi;
pub mod capture_gdi;
pub mod capture_laws;
pub mod capture_loop;
pub mod input;
pub mod input_laws;
pub mod video;
pub mod vpx_enc;
pub mod yuv;
