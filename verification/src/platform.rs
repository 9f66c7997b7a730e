//! The systems that the flasher runs on.
use vstd::prelude::*;

verus! {

/// The system that the flasher runs on.
#[derive(Clone, Copy, Debug, Eq, PartialEq, Structural)]
pub enum Platform {
    Linux,
    MacOs,
    Windows,
    Other,
}

} // verus!
