//! Verified core of a TV-style launcher for Windows mini PCs: the decisions,
//! parsers and orderings behind the fullscreen app grid, remote-key handling,
//! focus management and crash self-healing.

pub mod input;
pub mod config;
pub mod text;
pub mod power;
pub mod i18n;
pub mod keyhook;
pub mod keyhook_probe;
pub mod state;
pub mod focus;
pub mod system_state;
pub mod settings;
pub mod autostart;
pub mod process;
pub mod scanner;
pub mod icon;
pub mod log;
pub mod paths;
pub mod system;
