use vstd::prelude::*;

pub mod api;
pub mod clock;
pub mod config;
pub mod env_config;
pub mod ffmpeg;
pub mod frontend_assets;
pub mod ids;
pub mod library;
pub mod muxing;
pub mod order;
pub mod origin;
pub mod paths;
pub mod persistence;
pub mod probes;
pub mod protocol;
pub mod rooms;
pub mod scan_gate;
pub mod search;
pub mod stream_copies;
pub mod streaming;
pub mod text;
pub mod thumbnails;
pub mod timestamp;

verus! {

} // verus!
