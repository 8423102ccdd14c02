//! Ambient-light-adaptive backlight control.
//!
//! The library holds what the daemon decides, apart from what it does: the
//! arithmetic that turns illuminance into brightness (`device`), the
//! transition engine that moves the backlight towards its target
//! (`backlight`), the control protocol and the socket server's reactions
//! (`server`, `client`, `text`), the decisions of the main loop (`control`),
//! and the configuration, the paths and the failures around them (`config`,
//! `paths`, `error`). Reading sensors, writing the backlight, sleeping and
//! serving the socket are left to the program that uses it.

pub mod backlight;
pub mod client;
pub mod config;
pub mod control;
pub mod device;
pub mod error;
pub mod paths;
pub mod server;
pub mod text;
