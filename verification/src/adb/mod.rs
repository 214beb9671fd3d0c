//! Android Debug Bridge: the data the backends exchange and the logic that
//! reads what a device answers.
pub mod commands;
pub mod framebuffer;
pub mod parse;
pub mod types;
