//! The upgrade protocol, whatever carries it: single commands and the burning of an image.
pub mod answers;
pub mod burn;
pub mod command;
pub mod course;
pub mod delivery;
pub mod laws;
pub mod plan;
pub mod talk;
pub mod wording;
