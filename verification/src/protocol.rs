//! The values that the service exchanges with browsers and stores.
use crate::text::{copy_opt, lower, same_text, to_lower};
use vstd::prelude::*;

verus! {

/// A participant within this distance of the room clock is in sync:
/// 0.35 seconds, in nanoseconds.
pub const DRIFT_TOLERANCE_NANOS: i128 = 350_000_000;

/// A participant beyond this distance is told to seek: 1.5 seconds, in
/// nanoseconds.
pub const HARD_DRIFT_THRESHOLD_NANOS: i128 = 1_500_000_000;

/// The answer of the health endpoint.
#[derive(Debug, Clone, Copy)]
pub struct HealthResponse {
    pub status: &'static str,
    pub service: &'static str,
    pub version: &'static str,
}

/// A room as clients see it.
#[derive(Debug)]
pub struct Room {
    pub id: u128,
    pub name: String,
    pub media_id: Option<u128>,
    pub media_title: Option<String>,
    pub playback_state: PlaybackState,
    pub created_at: String,
}

/// The playback state of a room at one moment. Positions are in nanoseconds,
/// the rate in millionths.
#[derive(Debug)]
pub struct PlaybackState {
    pub status: PlaybackStatus,
    pub position_nanos: i128,
    pub anchor_position_nanos: i128,
    pub clock_updated_at: String,
    pub emitted_at: String,
    pub playback_rate_micros: u32,
    pub drift_tolerance_nanos: i128,
}

#[derive(Debug, Clone, Copy, PartialEq, Eq, Structural)]
pub enum PlaybackStatus {
    Playing,
    Paused,
}

#[derive(Debug, Clone, Copy, PartialEq, Eq, Structural)]
pub enum PlaybackAction {
    Play,
    Pause,
    Seek,
}

#[derive(Debug, Clone, Copy, PartialEq, Eq, Structural)]
pub enum DriftCorrectionAction {
    InSync,
    Nudge,
    Seek,
}

/// A connected client with its last reported drift.
#[derive(Debug, PartialEq, Eq)]
pub struct Participant {
    pub id: u128,
    pub name: String,
    pub drift_nanos: Option<i128>,
}

impl Clone for Participant {
    fn clone(&self) -> (r: Participant)
        ensures
            r == *self,
    {
        Participant { id: self.id, name: self.name.clone(), drift_nanos: self.drift_nanos }
    }
}

#[derive(Debug)]
pub struct CreateRoomRequest {
    pub name: String,
    pub media_id: Option<u128>,
    pub media_title: Option<String>,
}

#[derive(Debug)]
pub struct RoomSocketQuery {
    pub client_name: Option<String>,
}

impl Default for RoomSocketQuery {
    fn default() -> (r: RoomSocketQuery)
        ensures
            r.client_name is None,
    {
        RoomSocketQuery { client_name: None }
    }
}

/// A position that a client sent: a number of nanoseconds, or something that
/// is no finite number.
#[derive(Debug, Clone, Copy, PartialEq, Eq, Structural)]
pub enum ReportedPosition {
    Finite(i128),
    NotFinite,
}

/// A command of a client. `client_sent_at_bits` is the bit pattern of the
/// number that the client sent, which goes back to it unchanged.
#[allow(inconsistent_fields)]
#[derive(Debug, Clone, Copy, PartialEq, Eq, Structural)]
pub enum ClientSocketMessage {
    Play { position: Option<ReportedPosition>, client_one_way_ms: Option<u32> },
    Pause { position: Option<ReportedPosition>, client_one_way_ms: Option<u32> },
    Seek { position: ReportedPosition, client_one_way_ms: Option<u32> },
    SelectMedia { media_id: u128 },
    ReportPosition { position: ReportedPosition },
    Ping { client_sent_at_bits: u64 },
}

/// What the service tells clients.
#[derive(Debug)]
pub enum ServerEvent {
    Snapshot { room: Room, connection_count: usize, participants: Vec<Participant> },
    PlaybackUpdated { room: Room, actor: String, action: PlaybackAction },
    MediaChanged { room: Room, actor: String },
    PresenceChanged { room_id: u128, connection_count: usize, actor: String, joined: bool },
    ParticipantsUpdated { room_id: u128, participants: Vec<Participant> },
    DriftCorrection {
        room_id: u128,
        actor: String,
        reported_position_nanos: i128,
        expected_position_nanos: i128,
        delta_nanos: i128,
        tolerance_nanos: i128,
        suggested_action: DriftCorrectionAction,
        measured_at: String,
    },
    Error { message: String },
    Pong { client_sent_at_bits: u64 },
}

#[derive(Debug)]
pub struct RoomsResponse {
    pub rooms: Vec<Room>,
}

/// A configured library directory and the outcome of its last scan.
#[derive(Debug, PartialEq, Eq)]
pub struct LibraryRoot {
    pub path: String,
    pub last_scanned_at: Option<String>,
    pub last_scan_error: Option<String>,
}

/// A subtitle file beside a media file.
#[derive(Debug, PartialEq, Eq)]
pub struct SubtitleTrack {
    pub file_name: String,
    pub relative_path: String,
    pub extension: String,
    pub label: String,
    pub language: Option<String>,
}

impl Clone for SubtitleTrack {
    fn clone(&self) -> (r: SubtitleTrack)
        ensures
            r == *self,
    {
        SubtitleTrack {
            file_name: self.file_name.clone(),
            relative_path: self.relative_path.clone(),
            extension: self.extension.clone(),
            label: self.label.clone(),
            language: copy_opt(&self.language),
        }
    }
}

/// Whether a media item can be played now, and if not, why.
#[derive(Debug, Clone, Copy, PartialEq, Eq, Structural)]
pub enum PreparationState {
    Direct,
    NeedsPreparation,
    Preparing,
    Prepared,
    Failed,
    Unsupported,
}

/// How a media item reaches the browser.
#[derive(Debug, Clone, Copy, PartialEq, Eq, Structural)]
pub enum PlaybackMode {
    Direct,
    NeedsPreparation,
    Unsupported,
}

impl PlaybackMode {
    /// The stored name of the value.
    pub open spec fn name(self) -> Seq<char> {
        match self {
            PlaybackMode::Direct => "direct"@,
            PlaybackMode::NeedsPreparation => "needsPreparation"@,
            PlaybackMode::Unsupported => "unsupported"@,
        }
    }

    /// The value with the stored name `value`, where there is one.
    pub open spec fn named(value: Seq<char>) -> Option<PlaybackMode> {
        if value == "direct"@ {
            Some(PlaybackMode::Direct)
        } else if value == "needsPreparation"@ {
            Some(PlaybackMode::NeedsPreparation)
        } else if value == "unsupported"@ {
            Some(PlaybackMode::Unsupported)
        } else {
            None
        }
    }

    pub fn as_str(self) -> (r: &'static str)
        ensures
            r@ == self.name(),
    {
        match self {
            PlaybackMode::Direct => "direct",
            PlaybackMode::NeedsPreparation => "needsPreparation",
            PlaybackMode::Unsupported => "unsupported",
        }
    }

    pub fn from_str_opt(value: &str) -> (r: Option<PlaybackMode>)
        ensures
            r == PlaybackMode::named(value@),
    {
        if same_text(value, "direct") {
            Some(PlaybackMode::Direct)
        } else if same_text(value, "needsPreparation") {
            Some(PlaybackMode::NeedsPreparation)
        } else if same_text(value, "unsupported") {
            Some(PlaybackMode::Unsupported)
        } else {
            None
        }
    }

    /// The stored name of a value is read back as that value, and no other
    /// text is read at all.
    pub proof fn law_name_reads_back(self, value: Seq<char>)
        ensures
            PlaybackMode::named(self.name()) == Some(self),
            PlaybackMode::named(value) matches Some(v) ==> v.name() == value,
    {
        reveal_strlit("direct");
        reveal_strlit("needsPreparation");
        reveal_strlit("unsupported");
        assert("direct"@.len() != "needsPreparation"@.len());
        assert("direct"@.len() != "unsupported"@.len());
        assert("needsPreparation"@.len() != "unsupported"@.len());
    }
}

/// The state of a stream copy.
#[derive(Debug, Clone, Copy, PartialEq, Eq, Structural)]
pub enum StreamCopyStatus {
    Queued,
    Running,
    Ready,
    Failed,
}

impl StreamCopyStatus {
    /// The stored name of the value.
    pub open spec fn name(self) -> Seq<char> {
        match self {
            StreamCopyStatus::Queued => "queued"@,
            StreamCopyStatus::Running => "running"@,
            StreamCopyStatus::Ready => "ready"@,
            StreamCopyStatus::Failed => "failed"@,
        }
    }

    /// The value with the stored name `value`, where there is one.
    pub open spec fn named(value: Seq<char>) -> Option<StreamCopyStatus> {
        if value == "queued"@ {
            Some(StreamCopyStatus::Queued)
        } else if value == "running"@ {
            Some(StreamCopyStatus::Running)
        } else if value == "ready"@ {
            Some(StreamCopyStatus::Ready)
        } else if value == "failed"@ {
            Some(StreamCopyStatus::Failed)
        } else {
            None
        }
    }

    pub fn as_str(self) -> (r: &'static str)
        ensures
            r@ == self.name(),
    {
        match self {
            StreamCopyStatus::Queued => "queued",
            StreamCopyStatus::Running => "running",
            StreamCopyStatus::Ready => "ready",
            StreamCopyStatus::Failed => "failed",
        }
    }

    pub fn from_str_opt(value: &str) -> (r: Option<StreamCopyStatus>)
        ensures
            r == StreamCopyStatus::named(value@),
    {
        if same_text(value, "queued") {
            Some(StreamCopyStatus::Queued)
        } else if same_text(value, "running") {
            Some(StreamCopyStatus::Running)
        } else if same_text(value, "ready") {
            Some(StreamCopyStatus::Ready)
        } else if same_text(value, "failed") {
            Some(StreamCopyStatus::Failed)
        } else {
            None
        }
    }

    /// The stored name of a value is read back as that value, and no other
    /// text is read at all.
    pub proof fn law_name_reads_back(self, value: Seq<char>)
        ensures
            StreamCopyStatus::named(self.name()) == Some(self),
            StreamCopyStatus::named(value) matches Some(v) ==> v.name() == value,
    {
        reveal_strlit("queued");
        reveal_strlit("running");
        reveal_strlit("ready");
        reveal_strlit("failed");
        assert("queued"@.len() != "running"@.len());
        assert("queued"@.len() != "ready"@.len());
        assert("queued"@[0] != "failed"@[0]);
        assert("running"@.len() != "ready"@.len());
        assert("running"@.len() != "failed"@.len());
        assert("ready"@.len() != "failed"@.len());
    }
}

/// What becomes of subtitles in a stream copy.
#[derive(Debug, Clone, Copy, PartialEq, Eq, Structural)]
pub enum SubtitleMode {
    Off,
    Sidecar,
    Burned,
}

impl SubtitleMode {
    /// The stored name of the value.
    pub open spec fn name(self) -> Seq<char> {
        match self {
            SubtitleMode::Off => "off"@,
            SubtitleMode::Sidecar => "sidecar"@,
            SubtitleMode::Burned => "burned"@,
        }
    }

    /// The value with the stored name `value`, where there is one.
    pub open spec fn named(value: Seq<char>) -> Option<SubtitleMode> {
        if value == "off"@ {
            Some(SubtitleMode::Off)
        } else if value == "sidecar"@ {
            Some(SubtitleMode::Sidecar)
        } else if value == "burned"@ {
            Some(SubtitleMode::Burned)
        } else {
            None
        }
    }

    pub fn as_str(self) -> (r: &'static str)
        ensures
            r@ == self.name(),
    {
        match self {
            SubtitleMode::Off => "off",
            SubtitleMode::Sidecar => "sidecar",
            SubtitleMode::Burned => "burned",
        }
    }

    pub fn from_str_opt(value: &str) -> (r: Option<SubtitleMode>)
        ensures
            r == SubtitleMode::named(value@),
    {
        if same_text(value, "off") {
            Some(SubtitleMode::Off)
        } else if same_text(value, "sidecar") {
            Some(SubtitleMode::Sidecar)
        } else if same_text(value, "burned") {
            Some(SubtitleMode::Burned)
        } else {
            None
        }
    }

    /// The stored name of a value is read back as that value, and no other
    /// text is read at all.
    pub proof fn law_name_reads_back(self, value: Seq<char>)
        ensures
            SubtitleMode::named(self.name()) == Some(self),
            SubtitleMode::named(value) matches Some(v) ==> v.name() == value,
    {
        reveal_strlit("off");
        reveal_strlit("sidecar");
        reveal_strlit("burned");
        assert("off"@.len() != "sidecar"@.len());
        assert("off"@.len() != "burned"@.len());
        assert("sidecar"@.len() != "burned"@.len());
    }
}

/// Where a selected subtitle comes from.
#[derive(Debug, Clone, Copy, PartialEq, Eq, Structural)]
pub enum SubtitleSourceKind {
    Sidecar,
    Embedded,
}

impl SubtitleSourceKind {
    /// The stored name of the value.
    pub open spec fn name(self) -> Seq<char> {
        match self {
            SubtitleSourceKind::Sidecar => "sidecar"@,
            SubtitleSourceKind::Embedded => "embedded"@,
        }
    }

    /// The value with the stored name `value`, where there is one.
    pub open spec fn named(value: Seq<char>) -> Option<SubtitleSourceKind> {
        if value == "sidecar"@ {
            Some(SubtitleSourceKind::Sidecar)
        } else if value == "embedded"@ {
            Some(SubtitleSourceKind::Embedded)
        } else {
            None
        }
    }

    pub fn as_str(self) -> (r: &'static str)
        ensures
            r@ == self.name(),
    {
        match self {
            SubtitleSourceKind::Sidecar => "sidecar",
            SubtitleSourceKind::Embedded => "embedded",
        }
    }

    pub fn from_str_opt(value: &str) -> (r: Option<SubtitleSourceKind>)
        ensures
            r == SubtitleSourceKind::named(value@),
    {
        if same_text(value, "sidecar") {
            Some(SubtitleSourceKind::Sidecar)
        } else if same_text(value, "embedded") {
            Some(SubtitleSourceKind::Embedded)
        } else {
            None
        }
    }

    /// The stored name of a value is read back as that value, and no other
    /// text is read at all.
    pub proof fn law_name_reads_back(self, value: Seq<char>)
        ensures
            SubtitleSourceKind::named(self.name()) == Some(self),
            SubtitleSourceKind::named(value) matches Some(v) ==> v.name() == value,
    {
        reveal_strlit("sidecar");
        reveal_strlit("embedded");
        assert("sidecar"@.len() != "embedded"@.len());
    }
}

/// Whether a lower-case codec name is that of a text subtitle format.
pub open spec fn text_subtitle_codec(codec: Seq<char>) -> bool {
    ||| codec == "ass"@
    ||| codec == "ssa"@
    ||| codec == "subrip"@
    ||| codec == "srt"@
    ||| codec == "webvtt"@
    ||| codec == "mov_text"@
    ||| codec == "text"@
}

/// Whether an optional codec name is, in any case of letters, that of a text
/// subtitle format. No name is none of them.
pub open spec fn is_text_codec(codec: Option<Seq<char>>) -> bool {
    codec matches Some(name) && text_subtitle_codec(lower(name))
}

/// Whether subtitles of this codec are text that can be converted.
pub fn is_text_subtitle_codec(codec: Option<&str>) -> (r: bool)
    ensures
        codec is None ==> !r,
        codec matches Some(name) ==> r == is_text_codec(Some(name@)),
{
    match codec {
        None => false,
        Some(name) => {
            let lowered: String = to_lower(name);
            let value: &str = lowered.as_str();
            same_text(value, "ass") || same_text(value, "ssa") || same_text(value, "subrip")
                || same_text(value, "srt") || same_text(value, "webvtt")
                || same_text(value, "mov_text") || same_text(value, "text")
        },
    }
}

/// The subtitle source chosen for a stream copy.
#[derive(Debug, Clone, Copy, PartialEq, Eq, Structural)]
pub struct StreamCopySubtitleSelection {
    pub kind: SubtitleSourceKind,
    pub index: u32,
}

/// A stream copy as clients see it. `progress_ratio_billionths` is the finished
/// part in billionths, `progress_speed_bits` the bit pattern of the speed that
/// the encoder reported.
#[derive(Debug, PartialEq, Eq)]
pub struct StreamCopySummary {
    pub status: StreamCopyStatus,
    pub audio_stream_index: Option<u32>,
    pub subtitle_mode: SubtitleMode,
    pub subtitle: Option<StreamCopySubtitleSelection>,
    pub subtitle_url: Option<String>,
    pub error: Option<String>,
    pub progress_ratio_billionths: Option<u32>,
    pub progress_speed_bits: Option<u32>,
    pub updated_at: String,
}

/// A request for a stream copy.
#[derive(Debug, Clone, Copy, PartialEq, Eq, Structural)]
pub struct CreateStreamCopyRequest {
    pub audio_stream_index: Option<u32>,
    pub subtitle_mode: SubtitleMode,
    pub subtitle: Option<StreamCopySubtitleSelection>,
}

/// An audio stream of a media file.
#[derive(Debug, PartialEq, Eq)]
pub struct AudioStream {
    pub index: u32,
    pub codec: Option<String>,
    pub channels: Option<u32>,
    pub channel_layout: Option<String>,
    pub language: Option<String>,
    pub title: Option<String>,
    pub default: bool,
}

impl Clone for AudioStream {
    fn clone(&self) -> (r: AudioStream)
        ensures
            r == *self,
    {
        AudioStream {
            index: self.index,
            codec: copy_opt(&self.codec),
            channels: self.channels,
            channel_layout: copy_opt(&self.channel_layout),
            language: copy_opt(&self.language),
            title: copy_opt(&self.title),
            default: self.default,
        }
    }
}

/// A subtitle stream inside a media file.
#[derive(Debug, PartialEq, Eq)]
pub struct SubtitleStream {
    pub index: u32,
    pub codec: Option<String>,
    pub language: Option<String>,
    pub title: Option<String>,
    pub default: bool,
    pub forced: bool,
}

impl Clone for SubtitleStream {
    fn clone(&self) -> (r: SubtitleStream)
        ensures
            r == *self,
    {
        SubtitleStream {
            index: self.index,
            codec: copy_opt(&self.codec),
            language: copy_opt(&self.language),
            title: copy_opt(&self.title),
            default: self.default,
            forced: self.forced,
        }
    }
}

/// A copy of a list of audio streams.
pub fn copy_audio_streams(streams: &Vec<AudioStream>) -> (r: Vec<AudioStream>)
    ensures
        r@ == streams@,
{
    let mut r: Vec<AudioStream> = Vec::new();
    let mut i: usize = 0;
    while i < streams.len()
        invariant
            i <= streams.len(),
            r@ =~= streams@.take(i as int),
        decreases streams.len() - i,
    {
        r.push(streams[i].clone());
        i = i + 1;
    }
    r
}

/// A copy of a list of subtitle streams.
pub fn copy_subtitle_streams(streams: &Vec<SubtitleStream>) -> (r: Vec<SubtitleStream>)
    ensures
        r@ == streams@,
{
    let mut r: Vec<SubtitleStream> = Vec::new();
    let mut i: usize = 0;
    while i < streams.len()
        invariant
            i <= streams.len(),
            r@ =~= streams@.take(i as int),
        decreases streams.len() - i,
    {
        r.push(streams[i].clone());
        i = i + 1;
    }
    r
}

/// A media file of the library. The duration is in milliseconds.
#[derive(Debug, PartialEq, Eq)]
pub struct MediaItem {
    pub id: u128,
    pub root_path: String,
    pub relative_path: String,
    pub file_name: String,
    pub extension: Option<String>,
    pub size_bytes: u64,
    pub modified_at: String,
    pub indexed_at: String,
    pub content_type: Option<String>,
    pub duration_millis: Option<i64>,
    pub container_name: Option<String>,
    pub video_codec: Option<String>,
    pub audio_codec: Option<String>,
    pub width: Option<u32>,
    pub height: Option<u32>,
    pub probed_at: Option<String>,
    pub probe_error: Option<String>,
    pub subtitle_tracks: Vec<SubtitleTrack>,
    pub thumbnail_generated_at: Option<String>,
    pub thumbnail_error: Option<String>,
    pub playback_mode: PlaybackMode,
    pub preparation_state: PreparationState,
    pub video_profile: Option<String>,
    pub video_level: Option<u32>,
    pub video_pix_fmt: Option<String>,
    pub video_bit_depth: Option<u8>,
    pub audio_streams: Vec<AudioStream>,
    pub subtitle_streams: Vec<SubtitleStream>,
    pub stream_copy: Option<StreamCopySummary>,
}

/// A media file as the library listing shows it.
#[derive(Debug, PartialEq, Eq)]
pub struct MediaSummary {
    pub id: u128,
    pub root_path: String,
    pub relative_path: String,
    pub file_name: String,
    pub extension: Option<String>,
    pub size_bytes: u64,
    pub indexed_at: String,
    pub duration_millis: Option<i64>,
    pub probe_error: Option<String>,
    pub subtitle_track_count: usize,
    pub audio_stream_count: usize,
    pub subtitle_stream_count: usize,
    pub thumbnail_generated_at: Option<String>,
    pub thumbnail_error: Option<String>,
    pub preparation_state: PreparationState,
}

#[derive(Debug, PartialEq, Eq)]
pub struct LibraryResponse {
    pub revision: u64,
    pub has_pending_background_work: bool,
    pub roots: Vec<LibraryRoot>,
    pub items: Vec<MediaSummary>,
}

#[derive(Debug, PartialEq, Eq)]
pub struct LibraryScanResponse {
    pub revision: u64,
    pub has_pending_background_work: bool,
    pub roots: Vec<LibraryRoot>,
    pub items: Vec<MediaSummary>,
    pub scanned_root_count: usize,
    pub indexed_item_count: usize,
    pub scanned_at: String,
}

#[derive(Debug, Clone, Copy, PartialEq, Eq, Structural)]
pub struct LibraryStatusResponse {
    pub revision: u64,
    pub has_pending_background_work: bool,
}

/// Subtitles are text exactly in the formats that hold text, in any case of letters;
/// formats that hold pictures are not among them.
pub proof fn law_picture_subtitles_are_no_text(codec: Seq<char>)
    ensures
        is_text_codec(Some(codec)) <==> ({
            let name = lower(codec);
            name == "ass"@ || name == "ssa"@ || name == "subrip"@ || name == "srt"@ || name
                == "webvtt"@ || name == "mov_text"@ || name == "text"@
        }),
        lower(codec) == "hdmv_pgs_subtitle"@ || lower(codec) == "dvd_subtitle"@ ==> !is_text_codec(
            Some(codec),
        ),
        !is_text_codec(None),
{
    reveal_strlit("ass");
    reveal_strlit("ssa");
    reveal_strlit("subrip");
    reveal_strlit("srt");
    reveal_strlit("webvtt");
    reveal_strlit("mov_text");
    reveal_strlit("text");
    reveal_strlit("hdmv_pgs_subtitle");
    reveal_strlit("dvd_subtitle");
    assert("ass"@.len() == 3 && "ssa"@.len() == 3 && "subrip"@.len() == 6 && "srt"@.len() == 3);
    assert("webvtt"@.len() == 6 && "mov_text"@.len() == 8 && "text"@.len() == 4);
    assert("hdmv_pgs_subtitle"@.len() == 17 && "dvd_subtitle"@.len() == 12);
}

} // verus!
