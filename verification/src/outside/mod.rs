//! What the library takes from outside crates. Each item names the outside function that it
//! stands for and what it claims of it; nothing here is proved.

pub mod buffer;
pub mod jpeg;
pub mod json;
pub mod unique;
