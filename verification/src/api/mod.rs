//! What the HTTP endpoints decide: what is answered, and what is refused how.
use vstd::prelude::*;

pub mod error;
pub mod library;
pub mod media;
pub mod rooms;

verus! {

} // verus!
