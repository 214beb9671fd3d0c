//! Game automation: timed events, the automation state machine, and the
//! bookkeeping of templates and search regions for image matching.
pub mod config;
pub mod events;
pub mod fsm;
pub mod match_image;
pub mod types;
