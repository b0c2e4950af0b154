//! The operating systems that differ in what FFmpeg offers.
use vstd::prelude::*;

verus! {

/// The kind of operating system that FFmpeg runs on.
#[derive(Clone, Copy, Debug, PartialEq, Eq, Structural)]
pub enum Platform {
    MacOs,
    Windows,
    /// Linux and other systems like it.
    Other,
}

} // verus!
