//! Bookkeeping for image matching: search regions, template sidecars and
//! the loaded templates.
pub mod region;
pub mod sidecar;
pub mod template;
