//! The core of a flasher for ArtInChip boards: the upgrade protocol, its two transports, the
//! settings, and the decisions behind the command line and the window.
pub mod app_config;
pub mod codec;
pub mod device;
pub mod gui;
pub mod listing;
pub mod number;
pub mod path_laws;
pub mod paths;
pub mod platform;
pub mod protocol;
pub mod seeing;
pub mod standalone;
pub mod standalone_laws;
pub mod text;
pub mod transport;
pub mod uart;
pub mod usb;
