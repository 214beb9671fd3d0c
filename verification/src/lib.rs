//! Android device automation over ADB: device-output parsers, framebuffer
//! conversion, touch-activity tracking, timed events and the automation
//! state machine, template and search-region bookkeeping.
pub mod adb;
pub mod args;
pub mod clock;
pub mod encode;
pub mod game_automation;
pub mod text;
