//! The records that pass between the service and its database.
use crate::protocol::{
    AudioStream, LibraryRoot, MediaSummary, PlaybackMode, StreamCopyStatus, SubtitleMode,
    SubtitleSourceKind, SubtitleStream, SubtitleTrack,
};
use vstd::prelude::*;

verus! {

/// The library as one read of the database found it.
#[derive(Debug)]
pub struct LibrarySnapshot {
    pub roots: Vec<LibraryRoot>,
    pub items: Vec<MediaSummary>,
}

/// The revision of the library and whether background work is pending.
#[derive(Debug, Clone, Copy, PartialEq, Eq, Structural)]
pub struct LibraryStatusSnapshot {
    pub revision: u64,
    pub has_pending_background_work: bool,
}

/// What the thumbnail worker needs to schedule a job.
#[derive(Debug, PartialEq, Eq)]
pub struct PendingThumbnail {
    pub media_id: u128,
    pub root_path: String,
    pub relative_path: String,
    pub video_codec: Option<String>,
    pub duration_millis: Option<i64>,
}

/// A stored media row, as far as a scan compares and reuses it.
#[derive(Debug, PartialEq, Eq)]
pub struct CachedMediaRecord {
    pub id: u128,
    pub size_bytes: u64,
    pub modified_at: String,
    pub duration_millis: Option<i64>,
    pub container_name: Option<String>,
    pub video_codec: Option<String>,
    pub audio_codec: Option<String>,
    pub width: Option<u32>,
    pub height: Option<u32>,
    pub probed_at: Option<String>,
    pub probe_error: Option<String>,
    pub playback_mode: PlaybackMode,
    pub video_profile: Option<String>,
    pub video_level: Option<u32>,
    pub video_pix_fmt: Option<String>,
    pub video_bit_depth: Option<u8>,
    pub audio_streams: Vec<AudioStream>,
    pub subtitle_streams: Vec<SubtitleStream>,
}

/// What one probe found out about a file.
#[derive(Debug, PartialEq, Eq)]
pub struct ProbeOutcome {
    pub probed_at: String,
    pub probe_error: Option<String>,
    pub duration_millis: Option<i64>,
    pub container_name: Option<String>,
    pub video_codec: Option<String>,
    pub audio_codec: Option<String>,
    pub width: Option<u32>,
    pub height: Option<u32>,
    pub playback_mode: PlaybackMode,
    pub video_profile: Option<String>,
    pub video_level: Option<u32>,
    pub video_pix_fmt: Option<String>,
    pub video_bit_depth: Option<u8>,
    pub audio_streams: Vec<AudioStream>,
    pub subtitle_streams: Vec<SubtitleStream>,
}

/// What a directory walk writes for one file, with the probe data of an
/// unchanged file carried over.
#[derive(Debug, PartialEq, Eq)]
pub struct WalkRecord {
    pub id: u128,
    pub root_path: String,
    pub relative_path: String,
    pub file_name: String,
    pub extension: Option<String>,
    pub size_bytes: u64,
    pub modified_at: String,
    pub indexed_at: String,
    pub content_type: Option<String>,
    pub subtitle_tracks: Vec<SubtitleTrack>,
    pub cached_probe: Option<CachedProbeFields>,
    pub cached_thumbnail: Option<(Option<String>, Option<String>)>,
}

/// The probe data of a stored row.
#[derive(Debug, PartialEq, Eq)]
pub struct CachedProbeFields {
    pub probed_at: Option<String>,
    pub probe_error: Option<String>,
    pub duration_millis: Option<i64>,
    pub container_name: Option<String>,
    pub video_codec: Option<String>,
    pub audio_codec: Option<String>,
    pub width: Option<u32>,
    pub height: Option<u32>,
    pub playback_mode: PlaybackMode,
    pub video_profile: Option<String>,
    pub video_level: Option<u32>,
    pub video_pix_fmt: Option<String>,
    pub video_bit_depth: Option<u8>,
    pub audio_streams: Vec<AudioStream>,
    pub subtitle_streams: Vec<SubtitleStream>,
}

/// What the probe worker needs to schedule a job.
#[derive(Debug, PartialEq, Eq)]
pub struct PendingProbe {
    pub media_id: u128,
    pub root_path: String,
    pub relative_path: String,
    pub extension: Option<String>,
}

/// A stored stream copy.
#[derive(Debug, PartialEq, Eq)]
pub struct StreamCopyRecord {
    pub media_id: u128,
    pub source_size_bytes: u64,
    pub source_modified_at: String,
    pub status: StreamCopyStatus,
    pub audio_stream_index: Option<u32>,
    pub subtitle_mode: SubtitleMode,
    pub subtitle_kind: Option<SubtitleSourceKind>,
    pub subtitle_index: Option<u32>,
    pub output_path: Option<String>,
    pub output_content_type: Option<String>,
    pub subtitle_path: Option<String>,
    pub error: Option<String>,
    pub created_at: String,
    pub updated_at: String,
}

/// A request for a stream copy, as it is stored.
#[derive(Debug, PartialEq, Eq)]
pub struct StreamCopyRequestRecord {
    pub media_id: u128,
    pub source_size_bytes: u64,
    pub source_modified_at: String,
    pub audio_stream_index: Option<u32>,
    pub subtitle_mode: SubtitleMode,
    pub subtitle_kind: Option<SubtitleSourceKind>,
    pub subtitle_index: Option<u32>,
    pub updated_at: String,
}

/// A stream copy that is still to be made.
#[derive(Debug, Clone, Copy, PartialEq, Eq, Structural)]
pub struct PendingStreamCopy {
    pub media_id: u128,
}

} // verus!
