//! The decisions behind the windows: what a click leads to, what is shown and what is kept.
pub mod devices;
pub mod labels;
pub mod laws;
pub mod log;
pub mod official;
pub mod parts;
pub mod serial;
pub mod settings;
