//! The media library: what is played how, and what a scan finds.
use vstd::prelude::*;

pub mod config;
pub mod playback;
pub mod probe;
pub mod scan;
pub mod walk;

verus! {

} // verus!
