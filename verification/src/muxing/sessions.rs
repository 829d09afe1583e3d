//! The decisions of HLS sessions: which encoder runs, what a request waits for
//! and which sessions end.
use crate::ids::{hyphenated, id_text, law_identifiers_are_written_apart};
use crate::muxing::args::{
    build_ffmpeg_args, copies_video, encoder_args, renditions_of, HwAccel, SpawnOffset,
};
use crate::muxing::playlists::{
    build_master_playlist, build_variant_playlist, effective_audio_streams, master_playlist,
    variant_playlist, EffectiveAudioStream, VIDEO_VARIANT_FILENAME,
};
use crate::muxing::segments::{
    boundaries_for, from_zero, parse_video_segment_filename, segment_index, target_for, SegmentPlan,
    HLS_TARGET_SEGMENT_SECONDS, MAX_GRID_NANOS,
};
use crate::muxing::{BrowserHint, HlsMode};
use crate::paths::{join_path, joined_path};
use crate::protocol::MediaItem;
use crate::streaming::{resolve_media_path, resolved_path};
use crate::text::{
    as_opt_str, ascii_letter, chars_of, concat2, concat3, decimal, ends_with, is_ascii_letter,
    is_digit, lines, lines_of, lower, opt_str, opt_text, parse_number, parsed_number, same_text,
    starts_with, texts, to_lower,
};
use vstd::prelude::*;

verus! {

pub const DEFAULT_HLS_SUBDIR: &'static str = "syncplay-hls";

pub const DEFAULT_MAX_CONCURRENT: usize = 2;

pub const DEFAULT_IDLE_SECS: u64 = 60;

/// How long a request waits for an encoder at least, in seconds.
pub const READINESS_DEADLINE_SECS: u64 = 15;

/// How far ahead of the encoder a request waits for it, in seconds of video.
pub const CATCHUP_WINDOW_SECS: u64 = 60;

/// Why an HLS asset is not served. `Io` holds the text of the I/O error.
#[derive(Debug, PartialEq, Eq)]
pub enum HlsError {
    UnsupportedMode,
    SpawnFailed(String),
    Io(String),
    NotReady,
    NotFound,
    InvalidFilename,
}

impl HlsError {
    /// The text of the error.
    pub open spec fn text(self) -> Seq<char> {
        match self {
            HlsError::UnsupportedMode => "media is not eligible for HLS streaming"@,
            HlsError::SpawnFailed(message) => "ffmpeg failed: "@ + message@,
            HlsError::Io(error) => error@,
            HlsError::NotReady => "HLS session did not become ready in time"@,
            HlsError::NotFound => "HLS asset not found"@,
            HlsError::InvalidFilename => "invalid HLS filename"@,
        }
    }

    /// The text of the error.
    pub fn message(&self) -> (r: String)
        ensures
            r@ == self.text(),
    {
        match self {
            HlsError::UnsupportedMode => "media is not eligible for HLS streaming".to_owned(),
            HlsError::SpawnFailed(message) => concat2("ffmpeg failed: ", message.as_str()),
            HlsError::Io(error) => error.clone(),
            HlsError::NotReady => "HLS session did not become ready in time".to_owned(),
            HlsError::NotFound => "HLS asset not found".to_owned(),
            HlsError::InvalidFilename => "invalid HLS filename".to_owned(),
        }
    }
}

/// The settings of HLS streaming.
#[derive(Debug)]
pub struct HlsConfig {
    pub cache_dir: String,
    pub max_concurrent: usize,
    pub idle_secs: u64,
    pub ffmpeg_command: Option<String>,
    pub hw_accel: HwAccel,
    pub vaapi_device: Option<String>,
}

/// The settings as they were read from the environment.
#[derive(Debug)]
pub struct HlsSettings {
    pub cache_dir: Option<String>,
    pub max_concurrent: Option<String>,
    pub idle_secs: Option<String>,
    pub hw_accel: Option<String>,
    pub vaapi_device: Option<String>,
}

/// The positive number that a setting names, up to `max`.
pub open spec fn positive(setting: Option<Seq<char>>, max: nat) -> Option<nat> {
    match setting {
        Some(raw) => match parsed_number(raw, max) {
            Some(n) => if n > 0 {
                Some(n)
            } else {
                None
            },
            None => None,
        },
        None => None,
    }
}

fn positive_number(setting: &Option<String>, max: u64) -> (r: Option<u64>)
    ensures
        r is Some == positive(opt_text(*setting), max as nat) is Some,
        r matches Some(n) ==> positive(opt_text(*setting), max as nat) == Some(n as nat) && n
            <= max,
{
    match setting {
        Some(raw) => match parse_number(raw.as_str(), max) {
            Some(n) => {
                if n > 0 {
                    Some(n)
                } else {
                    None
                }
            },
            None => None,
        },
        None => None,
    }
}

/// A path made absolute: from the current directory, where that is known.
pub open spec fn absolute(path: Seq<char>, current_dir: Option<Seq<char>>) -> Seq<char> {
    if path.len() > 0 && path[0] == '/' {
        path
    } else {
        match current_dir {
            Some(dir) => joined_path(dir, path),
            None => path,
        }
    }
}

/// A path made absolute, since the encoder runs in another directory.
pub fn absolutize_path(path: &str, current_dir: Option<&str>) -> (r: String)
    ensures
        r@ == absolute(path@, opt_str(current_dir)),
{
    if path.unicode_len() > 0 && path.get_char(0) == '/' {
        return path.to_owned();
    }
    match current_dir {
        Some(dir) => join_path(dir, path),
        None => path.to_owned(),
    }
}

impl HlsConfig {
    /// The default settings, with sessions below the system's directory for
    /// temporary files.
    pub fn with_defaults(temp_dir: &str) -> (r: HlsConfig)
        ensures
            r.cache_dir@ == joined_path(temp_dir@, DEFAULT_HLS_SUBDIR@),
            r.max_concurrent == DEFAULT_MAX_CONCURRENT,
            r.idle_secs == DEFAULT_IDLE_SECS,
            opt_text(r.ffmpeg_command) == Some("ffmpeg"@),
            r.hw_accel is Software,
            r.vaapi_device is None,
    {
        HlsConfig {
            cache_dir: join_path(temp_dir, DEFAULT_HLS_SUBDIR),
            max_concurrent: DEFAULT_MAX_CONCURRENT,
            idle_secs: DEFAULT_IDLE_SECS,
            ffmpeg_command: Some("ffmpeg".to_owned()),
            hw_accel: HwAccel::Software,
            vaapi_device: None,
        }
    }

    /// The settings that the environment names; what is missing, empty or not
    /// understood is left at its default.
    pub fn from_env(
        ffmpeg_command: Option<String>,
        settings: HlsSettings,
        temp_dir: &str,
        current_dir: Option<&str>,
    ) -> (r: HlsConfig)
        ensures
            r.ffmpeg_command == ffmpeg_command,
            r.cache_dir@ == (match settings.cache_dir {
                Some(path) if path@.len() > 0 => absolute(path@, opt_str(current_dir)),
                _ => joined_path(temp_dir@, DEFAULT_HLS_SUBDIR@),
            }),
            r.max_concurrent == (match positive(
                opt_text(settings.max_concurrent),
                usize::MAX as nat,
            ) {
                Some(n) => n,
                None => DEFAULT_MAX_CONCURRENT as nat,
            }),
            r.idle_secs == (match positive(opt_text(settings.idle_secs), u64::MAX as nat) {
                Some(n) => n,
                None => DEFAULT_IDLE_SECS as nat,
            }),
            r.hw_accel == (match settings.hw_accel {
                Some(raw) => match HwAccel::named(raw@) {
                    Some(accel) => accel,
                    None => HwAccel::Software,
                },
                None => HwAccel::Software,
            }),
            r.vaapi_device == (match settings.vaapi_device {
                Some(path) if path@.len() > 0 => Some(path),
                _ => None,
            }),
    {
        let cache_dir: String = match &settings.cache_dir {
            Some(path) => {
                if path.as_str().is_empty() {
                    join_path(temp_dir, DEFAULT_HLS_SUBDIR)
                } else {
                    absolutize_path(path.as_str(), current_dir)
                }
            },
            None => join_path(temp_dir, DEFAULT_HLS_SUBDIR),
        };
        let max_concurrent: usize = match positive_number(
            &settings.max_concurrent,
            usize::MAX as u64,
        ) {
            Some(n) => n as usize,
            None => DEFAULT_MAX_CONCURRENT,
        };
        let idle_secs: u64 = match positive_number(&settings.idle_secs, u64::MAX) {
            Some(n) => n,
            None => DEFAULT_IDLE_SECS,
        };
        let hw_accel: HwAccel = match &settings.hw_accel {
            Some(raw) => match HwAccel::from_env_value(raw.as_str()) {
                Some(accel) => accel,
                None => HwAccel::Software,
            },
            None => HwAccel::Software,
        };
        let vaapi_device: Option<String> = match settings.vaapi_device {
            Some(path) => {
                if path.as_str().is_empty() {
                    None
                } else {
                    Some(path)
                }
            },
            None => None,
        };
        HlsConfig { cache_dir, max_concurrent, idle_secs, ffmpeg_command, hw_accel, vaapi_device }
    }
}

/// Whether a session copies for Safari what others get encoded.
#[derive(Debug, Clone, Copy, PartialEq, Eq, Structural)]
pub enum SessionFlavor {
    Default,
    SafariPassthrough,
}

impl SessionFlavor {
    /// The flavor of a request.
    pub open spec fn of(mode: HlsMode, browser: BrowserHint) -> SessionFlavor {
        if mode is HlsFullTranscode && browser is Safari {
            SessionFlavor::SafariPassthrough
        } else {
            SessionFlavor::Default
        }
    }

    pub fn for_request(mode: HlsMode, browser: BrowserHint) -> (r: SessionFlavor)
        ensures
            r == SessionFlavor::of(mode, browser),
    {
        match (mode, browser) {
            (HlsMode::HlsFullTranscode, BrowserHint::Safari) => SessionFlavor::SafariPassthrough,
            _ => SessionFlavor::Default,
        }
    }

    /// The flavor in a directory name.
    pub open spec fn name(self) -> Seq<char> {
        match self {
            SessionFlavor::Default => "default"@,
            SessionFlavor::SafariPassthrough => "safari-copy"@,
        }
    }

    pub fn as_dir_token(self) -> (r: &'static str)
        ensures
            r@ == self.name(),
    {
        match self {
            SessionFlavor::Default => "default",
            SessionFlavor::SafariPassthrough => "safari-copy",
        }
    }
}

/// Requests with the same key share a session.
#[derive(Debug, Clone, Copy, PartialEq, Eq, Structural)]
pub struct SessionKey {
    pub media_id: u128,
    pub flavor: SessionFlavor,
}

impl SessionKey {
    pub fn for_request(media_id: u128, mode: HlsMode, browser: BrowserHint) -> (r: SessionKey)
        ensures
            r == (SessionKey { media_id, flavor: SessionFlavor::of(mode, browser) }),
    {
        SessionKey { media_id, flavor: SessionFlavor::for_request(mode, browser) }
    }

    /// The name of the session's directory.
    pub open spec fn directory(self) -> Seq<char> {
        hyphenated(self.media_id) + "-"@ + self.flavor.name()
    }

    pub fn dir_name(self) -> (r: String)
        ensures
            r@ == self.directory(),
    {
        concat3(id_text(self.media_id).as_str(), "-", self.flavor.as_dir_token())
    }
}

/// Requests that share a session get the same video: either all of it is copied
/// or all of it is encoded.
pub proof fn law_shared_session_has_one_video(
    mode: HlsMode,
    a: BrowserHint,
    b: BrowserHint,
)
    requires
        SessionFlavor::of(mode, a) == SessionFlavor::of(mode, b),
    ensures
        copies_video(mode, a) == copies_video(mode, b),
{
}

/// Whether a character may stand in the name of an asset.
pub open spec fn is_name_char(c: char) -> bool {
    ascii_letter(c) || ('0' <= c <= '9') || c == '_' || c == '.' || c == '-'
}

/// Whether a name is that of an asset: short, without separators, and with a
/// known extension.
pub open spec fn is_asset_name(name: Seq<char>) -> bool {
    &&& 0 < name.len() <= 128
    &&& forall|i: int| 0 <= i < name.len() ==> is_name_char(#[trigger] name[i])
    &&& ".m3u8"@.is_suffix_of(lower(name)) || ".m4s"@.is_suffix_of(lower(name))
        || ".mp4"@.is_suffix_of(lower(name))
}

fn has_name_chars(chars: &Vec<char>) -> (r: bool)
    ensures
        r == (forall|i: int| 0 <= i < chars@.len() ==> is_name_char(#[trigger] chars@[i])),
{
    let mut i: usize = 0;
    while i < chars.len()
        invariant
            i <= chars@.len(),
            forall|k: int| 0 <= k < i ==> is_name_char(#[trigger] chars@[k]),
        decreases chars@.len() - i,
    {
        let c: char = chars[i];
        if !(is_ascii_letter(c) || ('0' <= c && c <= '9') || c == '_' || c == '.' || c == '-') {
            assert(!is_name_char(chars@[i as int]));
            return false;
        }
        i = i + 1;
    }
    true
}

/// Checks the name of an asset.
pub fn validate_filename(filename: &str) -> (r: Result<(), HlsError>)
    ensures
        r is Ok == is_asset_name(filename@),
        r matches Err(error) ==> error is InvalidFilename,
{
    let chars: Vec<char> = chars_of(filename);
    if chars.len() == 0 || chars.len() > 128 {
        return Err(HlsError::InvalidFilename);
    }
    if !has_name_chars(&chars) {
        return Err(HlsError::InvalidFilename);
    }
    let lowered: String = to_lower(filename);
    let lowered: &str = lowered.as_str();
    if ends_with(lowered, ".m3u8") || ends_with(lowered, ".m4s") || ends_with(lowered, ".mp4") {
        Ok(())
    } else {
        Err(HlsError::InvalidFilename)
    }
}

/// The name of an asset holds no separator, so that it names a file of the
/// session's own directory.
pub proof fn law_asset_name_stays_in_directory(name: Seq<char>)
    requires
        is_asset_name(name),
    ensures
        !name.contains('/'),
        !name.contains('\\'),
{
    if name.contains('/') {
        let i = choose|i: int| 0 <= i < name.len() && name[i] == '/';
        assert(is_name_char(name[i]));
    }
    if name.contains('\\') {
        let i = choose|i: int| 0 <= i < name.len() && name[i] == '\\';
        assert(is_name_char(name[i]));
    }
}

/// The content type of an asset.
pub open spec fn asset_type(name: Seq<char>) -> Seq<char> {
    if ".m3u8"@.is_suffix_of(lower(name)) {
        "application/vnd.apple.mpegurl"@
    } else if "init.mp4"@.is_suffix_of(lower(name)) || ".mp4"@.is_suffix_of(lower(name)) {
        "video/mp4"@
    } else {
        "video/iso.segment"@
    }
}

/// The content type of an asset.
pub fn content_type_for_filename(filename: &str) -> (r: &'static str)
    ensures
        r@ == asset_type(filename@),
{
    let lowered: String = to_lower(filename);
    let lowered: &str = lowered.as_str();
    if ends_with(lowered, ".m3u8") {
        "application/vnd.apple.mpegurl"
    } else if ends_with(lowered, "init.mp4") || ends_with(lowered, ".mp4") {
        "video/mp4"
    } else {
        "video/iso.segment"
    }
}

/// The encoder that runs: the segment that it started with, and the last one
/// that it is known to have written.
#[derive(Debug, Clone, Copy, PartialEq, Eq, Structural)]
pub struct EncoderState {
    pub start_segment: u32,
    pub start_offset_nanos: u128,
    pub highest_produced: u32,
}

/// How many segments a request is ahead of the encoder.
pub open spec fn segments_ahead(segment: u32, frontier: u32) -> int {
    if segment > frontier {
        segment - frontier
    } else {
        0
    }
}

/// Whether a new encoder gets to a segment sooner than the one that runs: none
/// runs, it started after the segment, or it is too far behind.
pub open spec fn needs_respawn(encoder: Option<EncoderState>, segment: u32) -> bool {
    match encoder {
        None => true,
        Some(state) => segment < state.start_segment || segments_ahead(
            segment,
            state.highest_produced,
        ) * HLS_TARGET_SEGMENT_SECONDS > CATCHUP_WINDOW_SECS,
    }
}

/// Whether a new encoder gets to a segment sooner than the one that runs.
pub fn should_respawn_for_segment(encoder: Option<EncoderState>, segment_index: u32) -> (r: bool)
    ensures
        r == needs_respawn(encoder, segment_index),
{
    match encoder {
        None => true,
        Some(state) => {
            if segment_index < state.start_segment {
                return true;
            }
            let ahead: u64 = segment_index.saturating_sub(state.highest_produced) as u64;
            let step: u64 = HLS_TARGET_SEGMENT_SECONDS as u64;
            assert(step == 2);
            ahead * step > CATCHUP_WINDOW_SECS
        },
    }
}

/// How long a request waits for a segment, in seconds: twice the video that the
/// encoder is behind, and not less than for a new encoder.
pub open spec fn deadline(encoder: Option<EncoderState>, segment: u32) -> int {
    let frontier = match encoder {
        Some(state) => state.highest_produced,
        None => 0,
    };
    let scaled = segments_ahead(segment, frontier) * HLS_TARGET_SEGMENT_SECONDS * 2;
    if scaled > READINESS_DEADLINE_SECS {
        scaled
    } else {
        READINESS_DEADLINE_SECS as int
    }
}

/// How long a request waits for a segment, in seconds.
pub fn segment_deadline_secs(encoder: Option<EncoderState>, segment_index: u32) -> (r: u64)
    ensures
        r == deadline(encoder, segment_index),
{
    let frontier: u32 = match encoder {
        Some(state) => state.highest_produced,
        None => 0,
    };
    let ahead: u64 = segment_index.saturating_sub(frontier) as u64;
    let step: u64 = HLS_TARGET_SEGMENT_SECONDS as u64;
    assert(step == 2);
    let scaled: u64 = ahead * step * 2;
    if scaled > READINESS_DEADLINE_SECS {
        scaled
    } else {
        READINESS_DEADLINE_SECS
    }
}

/// An encoder that has just been started for a segment is not replaced for it.
pub proof fn law_respawn_settles(segment: u32, offset: u128)
    ensures
        !needs_respawn(
            Some(
                EncoderState {
                    start_segment: segment,
                    start_offset_nanos: offset,
                    highest_produced: segment,
                },
            ),
            segment,
        ),
{
}

/// Whether a request for an HLS asset is taken up.
pub fn check_request(mode: HlsMode, filename: &str) -> (r: Result<(), HlsError>)
    ensures
        mode is NotHls ==> r matches Err(HlsError::UnsupportedMode),
        !(mode is NotHls) ==> r is Ok == is_asset_name(filename@),
        !(mode is NotHls) && r is Err ==> r matches Err(HlsError::InvalidFilename),
{
    if !mode.is_hls() {
        return Err(HlsError::UnsupportedMode);
    }
    validate_filename(filename)
}

/// The body of an answer: a file by its path, or a text.
#[derive(Debug, PartialEq, Eq)]
pub enum HlsServeBody {
    File(String),
    Inline(String),
}

/// How a request for an asset of a session is answered.
#[derive(Debug, PartialEq, Eq)]
pub enum ServeAction {
    /// Wait until the encoder is ready, then answer with the body.
    WhenReady { body: HlsServeBody },
    /// Answer with the body at once.
    Now { body: HlsServeBody },
    /// Start a new encoder at the segment, then wait until it is ready and the
    /// file of the segment is there.
    RespawnThenWait { segment: u32, path: String },
    /// Wait until the encoder is ready and the file of the segment is there.
    WaitForSegment { segment: u32, path: String },
    /// Wait until the encoder is ready and the file is there.
    WaitForFile { path: String },
}

/// Whether `r` answers a request for an asset of a session.
pub open spec fn is_serve_action(
    r: Result<ServeAction, HlsError>,
    filename: Seq<char>,
    dir: Seq<char>,
    plan: SegmentPlan,
    encoder: Option<EncoderState>,
    exists: bool,
) -> bool {
    let file = joined_path(dir, filename);
    if filename == VIDEO_VARIANT_FILENAME@ {
        r matches Ok(ServeAction::WhenReady { body: HlsServeBody::Inline(text) }) && text@
            == variant_playlist(plan)
    } else {
        match segment_index(filename) {
            Some(segment) => if segment >= plan.boundaries@.len() {
                r matches Err(HlsError::NotFound)
            } else if exists {
                r matches Ok(ServeAction::Now { body: HlsServeBody::File(path) }) && path@ == file
            } else if needs_respawn(encoder, segment as u32) {
                r matches Ok(ServeAction::RespawnThenWait { segment: at, path }) && at == segment
                    && path@ == file
            } else {
                r matches Ok(ServeAction::WaitForSegment { segment: at, path }) && at == segment
                    && path@ == file
            },
            None => r matches Ok(ServeAction::WaitForFile { path }) && path@ == file,
        }
    }
}

/// Decides how a request for an asset of a session is answered. `exists` says
/// whether its file is there.
pub fn serve(
    filename: &str,
    dir: &str,
    plan: &SegmentPlan,
    encoder: Option<EncoderState>,
    exists: bool,
) -> (r: Result<ServeAction, HlsError>)
    requires
        plan.wf(),
    ensures
        is_serve_action(r, filename@, dir@, *plan, encoder, exists),
{
    if same_text(filename, VIDEO_VARIANT_FILENAME) {
        return Ok(
            ServeAction::WhenReady { body: HlsServeBody::Inline(build_variant_playlist(plan)) },
        );
    }
    let path: String = join_path(dir, filename);
    match parse_video_segment_filename(filename) {
        Some(segment) => {
            if segment >= plan.segment_count() {
                Err(HlsError::NotFound)
            } else if exists {
                Ok(ServeAction::Now { body: HlsServeBody::File(path) })
            } else if should_respawn_for_segment(encoder, segment) {
                Ok(ServeAction::RespawnThenWait { segment, path })
            } else {
                Ok(ServeAction::WaitForSegment { segment, path })
            }
        },
        None => Ok(ServeAction::WaitForFile { path }),
    }
}

/// A segment that the video does not have is never waited for.
pub proof fn law_impossible_segments_are_refused(
    r: Result<ServeAction, HlsError>,
    index: nat,
    dir: Seq<char>,
    plan: SegmentPlan,
    encoder: Option<EncoderState>,
    exists: bool,
)
    requires
        index <= u32::MAX,
        index >= plan.boundaries@.len(),
        is_serve_action(
            r,
            crate::muxing::segments::segment_name(index),
            dir,
            plan,
            encoder,
            exists,
        ),
    ensures
        r matches Err(HlsError::NotFound),
{
    crate::muxing::segments::law_segment_name_reads_back(index);
    reveal_strlit("stream_0.m3u8");
    reveal_strlit("seg_0_");
    let name = crate::muxing::segments::segment_name(index);
    assert(name[1] == 'e');
    assert("stream_0.m3u8"@[1] == 't');
}

/// What a new session is made of.
#[derive(Debug)]
pub struct SessionPlan {
    pub key: SessionKey,
    pub dir: String,
    pub plan: SegmentPlan,
    pub input_path: String,
}

/// The duration of an item that is carved into segments: none where it is not
/// known.
pub open spec fn session_duration(item: MediaItem) -> i128 {
    match item.duration_millis {
        Some(duration) => (duration * 1_000_000) as i128,
        None => 0,
    }
}

/// Decides what a new session is made of.
pub fn get_or_start(
    item: &MediaItem,
    mode: HlsMode,
    browser: BrowserHint,
    cache_dir: &str,
    keyframes: &Vec<i128>,
) -> (r: SessionPlan)
    requires
        mode is HlsFullTranscode ==> session_duration(*item) <= MAX_GRID_NANOS,
        mode is HlsRemux || mode is HlsAudioTranscode ==> keyframes@.len() <= u32::MAX,
    ensures
        r.key == (SessionKey { media_id: item.id, flavor: SessionFlavor::of(mode, browser) }),
        r.dir@ == joined_path(cache_dir@, r.key.directory()),
        r.plan.wf(),
        r.plan.total_duration == from_zero(session_duration(*item)),
        r.plan.boundaries@ == boundaries_for(
            mode,
            from_zero(session_duration(*item)),
            keyframes@,
        ),
        r.plan.target_duration_secs == target_for(mode, r.plan.boundaries@, r.plan.total_duration),
        r.input_path@ == resolved_path(item.root_path@, item.relative_path@),
{
    let key: SessionKey = SessionKey::for_request(item.id, mode, browser);
    let duration: i128 = match item.duration_millis {
        Some(duration) => duration as i128 * 1_000_000,
        None => 0,
    };
    SessionPlan {
        key,
        dir: join_path(cache_dir, key.dir_name().as_str()),
        plan: SegmentPlan::for_session(mode, duration, keyframes),
        input_path: resolve_media_path(item),
    }
}

/// What is done to start an encoder.
#[derive(Debug, PartialEq, Eq)]
pub enum SpawnAction {
    /// One runs already.
    AlreadyRunning,
    /// Write the master playlist, where there is one, and run the command.
    Spawn {
        master: Option<String>,
        args: Vec<String>,
        encoder: EncoderState,
        /// Whether waiting requests wait for the new encoder.
        resets_ready: bool,
    },
}

/// Where an encoder starts for a segment of a layout.
pub open spec fn offset_for(plan: SegmentPlan, segment: u32) -> SpawnOffset {
    if segment == 0 {
        SpawnOffset { segment: 0, start_nanos: 0 }
    } else {
        SpawnOffset { segment, start_nanos: plan.start(segment as int) }
    }
}

/// Whether `r` is what is done to start an encoder at a segment.
pub open spec fn is_spawn_action(
    r: Result<SpawnAction, HlsError>,
    item: MediaItem,
    mode: HlsMode,
    browser: BrowserHint,
    session: SessionPlan,
    config: HlsConfig,
    started: bool,
    start_segment: u32,
) -> bool {
    if started && start_segment == 0 {
        r matches Ok(SpawnAction::AlreadyRunning)
    } else if config.ffmpeg_command is None {
        r matches Err(HlsError::SpawnFailed(message)) && message@
            == "ffmpeg binary is not configured"@
    } else {
        r matches Ok(SpawnAction::Spawn { master, args, encoder, resets_ready }) && opt_text(master)
            == (if started {
            None
        } else {
            Some(master_playlist(item, mode, browser, renditions_of(item)))
        }) && texts(args@) == encoder_args(
            item,
            mode,
            browser,
            session.input_path@,
            session.dir@,
            config.hw_accel,
            opt_text(config.vaapi_device),
            offset_for(session.plan, start_segment),
        ) && encoder == (EncoderState {
            start_segment,
            start_offset_nanos: session.plan.start(start_segment as int),
            highest_produced: start_segment,
        }) && resets_ready == (start_segment != 0)
    }
}

/// Decides what is done to start an encoder at a segment. `started` says
/// whether the session has one.
pub fn spawn_if_needed(
    item: &MediaItem,
    mode: HlsMode,
    browser: BrowserHint,
    session: &SessionPlan,
    config: &HlsConfig,
    started: bool,
    start_segment: u32,
) -> (r: Result<SpawnAction, HlsError>)
    ensures
        is_spawn_action(r, *item, mode, browser, *session, *config, started, start_segment),
{
    if started && start_segment == 0 {
        return Ok(SpawnAction::AlreadyRunning);
    }
    if config.ffmpeg_command.is_none() {
        return Err(HlsError::SpawnFailed("ffmpeg binary is not configured".to_owned()));
    }
    let master: Option<String> = if started {
        None
    } else {
        let audio_streams: Vec<EffectiveAudioStream> = effective_audio_streams(
            &item.audio_streams,
        );
        assert(audio_streams@ =~= renditions_of(*item));
        Some(build_master_playlist(item, mode, browser, &audio_streams))
    };
    let start_offset_nanos: u128 = session.plan.start_time_of(start_segment);
    let offset: SpawnOffset = if start_segment == 0 {
        SpawnOffset::zero()
    } else {
        SpawnOffset { segment: start_segment, start_nanos: start_offset_nanos }
    };
    let args: Vec<String> = build_ffmpeg_args(
        item,
        mode,
        browser,
        session.input_path.as_str(),
        session.dir.as_str(),
        config.hw_accel,
        as_opt_str(&config.vaapi_device),
        offset,
    );
    Ok(
        SpawnAction::Spawn {
            master,
            args,
            encoder: EncoderState {
                start_segment,
                start_offset_nanos,
                highest_produced: start_segment,
            },
            resets_ready: start_segment != 0,
        },
    )
}

/// The message where the master playlist could not be written.
pub fn master_write_failure(error: &str) -> (r: HlsError)
    ensures
        r matches HlsError::SpawnFailed(message) && message@ == "could not write master playlist: "@
            + error@,
{
    HlsError::SpawnFailed(concat2("could not write master playlist: ", error))
}

/// The message where the encoder could not be started.
pub fn start_failure(error: &str) -> (r: HlsError)
    ensures
        r matches HlsError::SpawnFailed(message) && message@ == "could not start ffmpeg: "@ + error@,
{
    HlsError::SpawnFailed(concat2("could not start ffmpeg: ", error))
}

/// What is noted of an encoder that ended without having become ready: the
/// first failure stays.
pub fn noted_failure(noted: Option<String>) -> (r: String)
    ensures
        r@ == (match noted {
            Some(message) => message@,
            None => "ffmpeg exited before producing a manifest"@,
        }),
{
    match noted {
        Some(message) => message,
        None => "ffmpeg exited before producing a manifest".to_owned(),
    }
}

/// What is done while a request waits for an encoder.
#[derive(Debug, PartialEq, Eq)]
pub enum WaitStep {
    Ready,
    Wait,
    Fail { error: HlsError },
}

/// What is done while a request waits for an encoder: once the deadline has
/// passed it fails with what the encoder failed with, if that is known.
pub fn wait_for_ready(is_ready: bool, deadline_passed: bool, spawn_error: &Option<String>) -> (r:
    WaitStep)
    ensures
        is_ready ==> r is Ready,
        !is_ready && !deadline_passed ==> r is Wait,
        !is_ready && deadline_passed ==> (match *spawn_error {
            Some(message) => r == (WaitStep::Fail { error: HlsError::SpawnFailed(message) }),
            None => r == (WaitStep::Fail { error: HlsError::NotReady }),
        }),
{
    if is_ready {
        return WaitStep::Ready;
    }
    if !deadline_passed {
        return WaitStep::Wait;
    }
    match spawn_error {
        Some(message) => WaitStep::Fail { error: HlsError::SpawnFailed(message.clone()) },
        None => WaitStep::Fail { error: HlsError::NotReady },
    }
}

/// What is done while a request waits for a file.
pub fn wait_for_file(exists: bool, deadline_passed: bool) -> (r: WaitStep)
    ensures
        exists ==> r is Ready,
        !exists && !deadline_passed ==> r is Wait,
        !exists && deadline_passed ==> r == (WaitStep::Fail { error: HlsError::NotFound }),
{
    if exists {
        WaitStep::Ready
    } else if deadline_passed {
        WaitStep::Fail { error: HlsError::NotFound }
    } else {
        WaitStep::Wait
    }
}

/// Whether a session ends: nothing of it is being sent, and it was not asked
/// for anything longer than the idle time.
pub open spec fn is_idle(in_flight: u32, idle_millis: u64, idle_secs: u64) -> bool {
    in_flight == 0 && idle_millis > idle_secs * 1000
}

/// How a session is used: by how many answers, and how long ago it was last
/// asked for something.
#[derive(Debug, Clone, Copy, PartialEq, Eq, Structural)]
pub struct SessionUse {
    pub key: SessionKey,
    pub in_flight: u32,
    pub idle_millis: u64,
}

/// The sessions that end among the first `n`, in order.
pub open spec fn idle_keys(list: Seq<SessionUse>, n: int, idle_secs: u64) -> Seq<SessionKey>
    decreases n,
{
    if n <= 0 {
        seq![]
    } else if is_idle(list[n - 1].in_flight, list[n - 1].idle_millis, idle_secs) {
        idle_keys(list, n - 1, idle_secs).push(list[n - 1].key)
    } else {
        idle_keys(list, n - 1, idle_secs)
    }
}

/// The sessions that end.
pub fn evict_idle(sessions: &Vec<SessionUse>, idle_secs: u64) -> (r: Vec<SessionKey>)
    ensures
        r@ == idle_keys(sessions@, sessions@.len() as int, idle_secs),
{
    let mut keys: Vec<SessionKey> = Vec::new();
    let mut i: usize = 0;
    assert(keys@ =~= seq![]);
    while i < sessions.len()
        invariant
            i <= sessions@.len(),
            keys@ == idle_keys(sessions@, i as int, idle_secs),
        decreases sessions@.len() - i,
    {
        let session: SessionUse = sessions[i];
        if session.in_flight == 0 && session.idle_millis as u128 > idle_secs as u128 * 1000 {
            keys.push(session.key);
        }
        i = i + 1;
    }
    keys
}

/// A session ends only if it is idle: one that is being sent from stays.
pub proof fn law_busy_sessions_stay(list: Seq<SessionUse>, n: int, idle_secs: u64, key: SessionKey)
    requires
        0 <= n <= list.len(),
        idle_keys(list, n, idle_secs).contains(key),
    ensures
        exists|i: int|
            0 <= i < n && (#[trigger] list[i]).key == key && list[i].in_flight == 0
                && list[i].idle_millis > idle_secs * 1000,
    decreases n,
{
    if n > 0 {
        let before = idle_keys(list, n - 1, idle_secs);
        let last = list[n - 1];
        if before.contains(key) {
            law_busy_sessions_stay(list, n - 1, idle_secs, key);
            let i = choose|i: int|
                0 <= i < n - 1 && (#[trigger] list[i]).key == key && list[i].in_flight == 0
                    && list[i].idle_millis > idle_secs * 1000;
            assert(list[i].key == key);
        } else {
            assert(is_idle(last.in_flight, last.idle_millis, idle_secs));
            let j = choose|j: int|
                0 <= j < before.push(last.key).len() && before.push(last.key)[j] == key;
            if j < before.len() {
                assert(before[j] == key);
            }
            assert(list[n - 1].key == key);
        }
    }
}

/// What the watcher of an encoder knows.
#[derive(Debug, Clone, Copy, PartialEq, Eq, Structural)]
pub struct WatchState {
    pub ready: bool,
    pub warned_slow: bool,
    pub frontier: u32,
}

/// What the watcher of an encoder sees in one look.
#[derive(Debug, Clone, Copy, PartialEq, Eq, Structural)]
pub struct WatchTick {
    /// The last segment in the encoder's playlist.
    pub scraped: Option<u32>,
    pub elapsed_secs: u64,
    pub exited: bool,
}

/// What the watcher of an encoder does after one look.
#[derive(Debug, Clone, Copy, PartialEq, Eq, Structural)]
pub struct WatchStep {
    pub state: WatchState,
    /// The encoder is ready: its init segment is kept, in case an earlier look
    /// could not.
    pub keeps_init: bool,
    /// The encoder has just become ready: tell the requests that wait.
    pub becomes_ready: bool,
    /// The encoder is slow to become ready.
    pub warns_slow: bool,
    /// The encoder ended without having become ready: note the failure and
    /// tell the requests that wait.
    pub failed: bool,
    /// There is nothing more to watch.
    pub stop: bool,
}

/// What the watcher of an encoder does after one look.
pub open spec fn watched(state: WatchState, tick: WatchTick) -> WatchStep {
    let ready = state.ready || tick.scraped is Some;
    let warns = !ready && !state.warned_slow && tick.elapsed_secs >= READINESS_DEADLINE_SECS;
    WatchStep {
        state: WatchState {
            ready,
            warned_slow: state.warned_slow || warns,
            frontier: match tick.scraped {
                Some(segment) => if segment > state.frontier {
                    segment
                } else {
                    state.frontier
                },
                None => state.frontier,
            },
        },
        keeps_init: ready,
        becomes_ready: ready && !state.ready,
        warns_slow: warns,
        failed: tick.exited && !ready,
        stop: tick.exited,
    }
}

/// What the watcher of an encoder does after one look.
pub fn watch_readiness(state: WatchState, tick: WatchTick) -> (r: WatchStep)
    ensures
        r == watched(state, tick),
{
    let ready: bool = state.ready || tick.scraped.is_some();
    let warns_slow: bool = !ready && !state.warned_slow && tick.elapsed_secs
        >= READINESS_DEADLINE_SECS;
    let frontier: u32 = match tick.scraped {
        Some(segment) => if segment > state.frontier {
            segment
        } else {
            state.frontier
        },
        None => state.frontier,
    };
    WatchStep {
        state: WatchState { ready, warned_slow: state.warned_slow || warns_slow, frontier },
        keeps_init: ready,
        becomes_ready: ready && !state.ready,
        warns_slow,
        failed: tick.exited && !ready,
        stop: tick.exited,
    }
}

/// The frontier of an encoder never goes back, and an encoder that is ready
/// stays so: it becomes ready at most once.
pub proof fn law_watching_is_monotone(state: WatchState, first: WatchTick, second: WatchTick)
    ensures
        watched(state, first).state.frontier >= state.frontier,
        state.ready ==> watched(state, first).state.ready,
        !(watched(state, first).becomes_ready && watched(
            watched(state, first).state,
            second,
        ).becomes_ready),
        !(watched(state, first).warns_slow && watched(
            watched(state, first).state,
            second,
        ).warns_slow),
{
}

/// Whether a playlist has an entry at all.
pub open spec fn has_entry(list: Seq<Seq<char>>) -> bool {
    exists|i: int| 0 <= i < list.len() && "#EXTINF:"@.is_prefix_of(#[trigger] list[i])
}

/// Whether a line of a playlist names the given video segment.
pub open spec fn names_segment(list: Seq<Seq<char>>, segment: nat) -> bool {
    exists|i: int| 0 <= i < list.len() && segment_index(#[trigger] list[i]) == Some(segment)
}

/// Whether the given segment is the highest that a playlist names.
pub open spec fn is_frontier(list: Seq<Seq<char>>, segment: nat) -> bool {
    &&& names_segment(list, segment)
    &&& forall|i: int|
        0 <= i < list.len() && segment_index(#[trigger] list[i]) is Some ==> segment_index(
            list[i],
        )->0 <= segment
}

/// The highest segment that an encoder's playlist names; nothing for a playlist
/// without entries.
pub fn scrape_variant_playlist_frontier(playlist: &str) -> (r: Option<u32>)
    ensures
        r matches Some(segment) ==> has_entry(lines(playlist@)) && is_frontier(
            lines(playlist@),
            segment as nat,
        ),
        r is None ==> !has_entry(lines(playlist@)) || forall|i: int|
            0 <= i < lines(playlist@).len() ==> segment_index(#[trigger] lines(playlist@)[i]) is None,
{
    let list: Vec<&str> = lines_of(playlist);
    let ghost all = list@.map_values(|line: &str| line@);
    let mut found_entry: bool = false;
    let mut highest: Option<u32> = None;
    let mut i: usize = 0;
    while i < list.len()
        invariant
            i <= list@.len(),
            all == list@.map_values(|line: &str| line@),
            all == lines(playlist@),
            found_entry == (exists|k: int|
                0 <= k < i && "#EXTINF:"@.is_prefix_of(#[trigger] all[k])),
            highest matches Some(segment) ==> (exists|k: int|
                0 <= k < i && segment_index(#[trigger] all[k]) == Some(segment as nat)),
            forall|k: int|
                0 <= k < i && segment_index(#[trigger] all[k]) is Some ==> highest is Some
                    && segment_index(all[k])->0 <= highest->0,
        decreases list@.len() - i,
    {
        let line: &str = list[i];
        assert(all[i as int] == line@);
        if starts_with(line, "#EXTINF:") {
            found_entry = true;
        }
        match parse_video_segment_filename(line) {
            Some(segment) => {
                highest = match highest {
                    Some(before) if before >= segment => Some(before),
                    _ => Some(segment),
                };
            },
            None => {},
        }
        i = i + 1;
    }
    if found_entry {
        highest
    } else {
        None
    }
}

/// Whether a file is a playlist that the encoder wrote, which a new encoder
/// would add to.
pub fn is_scratch_playlist(name: &str) -> (r: bool)
    ensures
        r == ("stream_"@.is_prefix_of(name@) && ".m3u8"@.is_suffix_of(name@)),
{
    starts_with(name, "stream_") && ends_with(name, ".m3u8")
}

/// Whether the encoder's init segment is kept under its lasting name: once, and
/// never again, so that clients do not see it change.
pub fn freeze_init_segment(frozen_exists: bool, raw_exists: bool) -> (r: bool)
    ensures
        r == (!frozen_exists && raw_exists),
{
    !frozen_exists && raw_exists
}

/// Whether a byte ends a line of the encoder's error output, which rewinds its
/// progress line with a carriage return.
pub open spec fn ends_line(byte: u8) -> bool {
    byte == 10 || byte == 13
}

/// The lines that are complete after `n` bytes, without empty ones, and what is
/// left of the current line.
pub open spec fn stderr_after(line: Seq<u8>, chunk: Seq<u8>, n: int) -> (Seq<Seq<u8>>, Seq<u8>)
    decreases n,
{
    if n <= 0 {
        (seq![], line)
    } else {
        let (done, rest) = stderr_after(line, chunk, n - 1);
        let byte = chunk[n - 1];
        if !ends_line(byte) {
            (done, rest.push(byte))
        } else if rest.len() > 0 {
            (done.push(rest), seq![])
        } else {
            (done, rest)
        }
    }
}

/// The lines as plain values.
pub open spec fn byte_lines(list: Seq<Vec<u8>>) -> Seq<Seq<u8>> {
    list.map_values(|line: Vec<u8>| line@)
}

/// Takes a piece of the encoder's error output: the lines that it completes,
/// and what is left over in `line`.
pub fn split_stderr(line: &mut Vec<u8>, chunk: &[u8]) -> (r: Vec<Vec<u8>>)
    ensures
        (byte_lines(r@), final(line)@) == stderr_after(old(line)@, chunk@, chunk@.len() as int),
{
    let mut done: Vec<Vec<u8>> = Vec::new();
    let mut current: Vec<u8> = Vec::new();
    current.append(line);
    let ghost start = old(line)@;
    assert(current@ =~= start);
    assert(byte_lines(done@) =~= seq![]);
    let mut i: usize = 0;
    while i < chunk.len()
        invariant
            i <= chunk@.len(),
            (byte_lines(done@), current@) == stderr_after(start, chunk@, i as int),
        decreases chunk@.len() - i,
    {
        let byte: u8 = chunk[i];
        if byte == 10 || byte == 13 {
            if current.len() > 0 {
                let ghost lines_before = byte_lines(done@);
                let ghost finished = current@;
                done.push(current);
                assert(byte_lines(done@) =~= lines_before.push(finished));
                current = Vec::new();
                assert(current@ =~= seq![]);
            }
        } else {
            current.push(byte);
        }
        i = i + 1;
    }
    line.append(&mut current);
    done
}

/// A new encoder is started for a segment where none runs, where the one that runs
/// started behind it, and where that one is more than thirty segments, a minute of
/// video, short of it.
pub proof fn law_far_segments_get_a_new_encoder(state: EncoderState, segment: u32)
    ensures
        needs_respawn(None, segment),
        needs_respawn(Some(state), segment) <==> segment < state.start_segment || segment
            > state.highest_produced + 30,
{
}

/// A request waits fifteen seconds at least, and four for each segment that it is
/// ahead of the encoder where that is more.
pub proof fn law_requests_wait_for_the_encoder(encoder: Option<EncoderState>, segment: u32)
    ensures
        deadline(encoder, segment) >= 15,
        ({
            let frontier: int = match encoder {
                Some(state) => state.highest_produced as int,
                None => 0,
            };
            &&& segment - frontier <= 3 ==> deadline(encoder, segment) == 15
            &&& segment - frontier >= 4 ==> deadline(encoder, segment) == 4 * (segment - frontier)
        }),
{
}

/// A segment of the video is sent at once where its file is there, and is waited for
/// otherwise, with a new encoder where the one that runs does not get there soon. The
/// file is that of the segment's name in the session's directory.
pub proof fn law_segments_are_sent_or_waited_for(
    r: Result<ServeAction, HlsError>,
    index: nat,
    dir: Seq<char>,
    plan: SegmentPlan,
    encoder: Option<EncoderState>,
    exists: bool,
)
    requires
        index < plan.boundaries@.len(),
        index <= u32::MAX,
        is_serve_action(
            r,
            crate::muxing::segments::segment_name(index),
            dir,
            plan,
            encoder,
            exists,
        ),
    ensures
        ({
            let file = joined_path(dir, crate::muxing::segments::segment_name(index));
            let late = encoder is None || index < encoder->0.start_segment || index
                > encoder->0.highest_produced + 30;
            &&& exists ==> r is Ok && (r->Ok_0 matches ServeAction::Now {
                body: HlsServeBody::File(path),
            } && path@ == file)
            &&& !exists && late ==> r is Ok && (r->Ok_0 matches ServeAction::RespawnThenWait {
                segment,
                path,
            } && segment == index && path@ == file)
            &&& !exists && !late ==> r is Ok && (r->Ok_0 matches ServeAction::WaitForSegment {
                segment,
                path,
            } && segment == index && path@ == file)
        }),
{
    crate::muxing::segments::law_segment_name_reads_back(index);
    crate::muxing::segments::law_segment_name_holds_its_index(index);
    reveal_strlit("seg_0_");
    reveal_strlit("stream_0.m3u8");
    let name = crate::muxing::segments::segment_name(index);
    assert(name.take(6)[1] == 'e');
    assert(name[1] == 'e');
    assert("stream_0.m3u8"@[1] == 't');
}

/// The playlist of the video is made from the layout once the encoder is ready,
/// whatever the encoder itself wrote; any other file that is no segment is sent as it
/// is once it is there.
pub proof fn law_playlists_are_made_or_waited_for(
    r: Result<ServeAction, HlsError>,
    filename: Seq<char>,
    dir: Seq<char>,
    plan: SegmentPlan,
    encoder: Option<EncoderState>,
    exists: bool,
)
    requires
        is_serve_action(r, filename, dir, plan, encoder, exists),
    ensures
        filename == "stream_0.m3u8"@ ==> r is Ok && (r->Ok_0 matches ServeAction::WhenReady {
            body: HlsServeBody::Inline(text),
        } && text@ == variant_playlist(plan)),
        filename != "stream_0.m3u8"@ && !"seg_0_"@.is_prefix_of(filename) ==> r is Ok && (
        r->Ok_0 matches ServeAction::WaitForFile { path } && path@ == joined_path(dir, filename)),
{
}

/// The segments of a session can be asked for by their names, and so can its playlists
/// and its init segment. A name with a separator, one that is too long and one of
/// another kind of file cannot.
pub proof fn law_files_that_can_be_asked_for(index: nat, name: Seq<char>)
    ensures
        index <= u32::MAX ==> is_asset_name(crate::muxing::segments::segment_name(index)),
        is_asset_name("stream_0.m3u8"@) && is_asset_name("master.m3u8"@) && is_asset_name(
            "init_0.lock.mp4"@,
        ),
        name.len() == 0 || name.len() > 128 || name.contains('/') || name.contains('\\')
            || name.contains(' ') || name.contains('%') ==> !is_asset_name(name),
        is_asset_name(name) ==> ".m3u8"@.is_suffix_of(lower(name)) || ".m4s"@.is_suffix_of(
            lower(name),
        ) || ".mp4"@.is_suffix_of(lower(name)),
{
    reveal_strlit("stream_0.m3u8");
    reveal_strlit("master.m3u8");
    reveal_strlit("init_0.lock.mp4");
    reveal_strlit(".m3u8");
    reveal_strlit(".m4s");
    reveal_strlit(".mp4");
    let a = lower("stream_0.m3u8"@);
    assert(".m3u8"@ =~= a.subrange(a.len() - 5, a.len() as int));
    let b = lower("master.m3u8"@);
    assert(".m3u8"@ =~= b.subrange(b.len() - 5, b.len() as int));
    let c = lower("init_0.lock.mp4"@);
    assert(".mp4"@ =~= c.subrange(c.len() - 4, c.len() as int));
    if index <= u32::MAX {
        crate::muxing::segments::law_segment_name_holds_its_index(index);
        lemma_short_numeral(index);
        let segment = crate::muxing::segments::segment_name(index);
        let n = segment.len() as int;
        reveal_strlit("seg_0_");
        assert forall|i: int| 0 <= i < n implies is_name_char(#[trigger] segment[i]) by {
            if i < 6 {
                assert(segment[i] == segment.take(6)[i]);
            } else if i >= n - 4 {
                assert(segment[i] == segment.skip(n - 4)[i - (n - 4)]);
            } else {
                assert(is_digit(segment.subrange(6, n - 4)[i - 6]));
            }
        }
        let d = lower(segment);
        assert forall|i: int| n - 4 <= i < n implies d[i] == ".m4s"@[i - (n - 4)] by {
            assert(segment[i] == segment.skip(n - 4)[i - (n - 4)]);
        }
        assert(".m4s"@ =~= d.subrange(n - 4, n));
    }
    if is_asset_name(name) && (name.contains('/') || name.contains('\\') || name.contains(' ')
        || name.contains('%')) {
        let c = if name.contains('/') {
            '/'
        } else if name.contains('\\') {
            '\\'
        } else if name.contains(' ') {
            ' '
        } else {
            '%'
        };
        assert(is_name_char(name[name.index_of(c)]));
    }
}

proof fn lemma_short_numeral(n: nat)
    requires
        n <= u32::MAX,
    ensures
        crate::muxing::segments::segment_name(n).len() <= 128,
{
    reveal_with_fuel(decimal, 11);
    reveal_strlit("seg_0_");
    reveal_strlit(".m4s");
}

/// A playlist, a segment and an MP4 file are sent as what they are.
pub proof fn law_assets_have_their_type(name: Seq<char>)
    requires
        is_asset_name(name),
    ensures
        ".m3u8"@.is_suffix_of(lower(name)) ==> asset_type(name) == "application/vnd.apple.mpegurl"@,
        ".mp4"@.is_suffix_of(lower(name)) ==> asset_type(name) == "video/mp4"@,
        ".m4s"@.is_suffix_of(lower(name)) ==> asset_type(name) == "video/iso.segment"@,
{
    reveal_strlit(".m3u8");
    reveal_strlit(".m4s");
    reveal_strlit(".mp4");
    reveal_strlit("init.mp4");
    let n = name.len() as int;
    let text = lower(name);
    if ".m4s"@.is_suffix_of(text) {
        assert(text.subrange(n - 4, n)[3] == 's');
    }
    if ".mp4"@.is_suffix_of(text) {
        assert(text.subrange(n - 4, n)[3] == '4');
    }
    if ".m3u8"@.is_suffix_of(text) {
        assert(text.subrange(n - 5, n)[4] == '8');
    }
    if "init.mp4"@.is_suffix_of(text) {
        assert(text.subrange(n - 8, n)[7] == '4');
    }
}

/// Sessions with different keys have different directories.
pub proof fn law_sessions_have_their_own_directories(a: SessionKey, b: SessionKey)
    requires
        a.directory() == b.directory(),
    ensures
        a == b,
{
    reveal_strlit("-");
    reveal_strlit("default");
    reveal_strlit("safari-copy");
    let x = a.directory();
    assert(hyphenated(a.media_id) =~= x.take(36));
    assert(hyphenated(b.media_id) =~= x.take(36));
    law_identifiers_are_written_apart(a.media_id, b.media_id);
    assert(a.flavor.name() =~= x.skip(37));
    assert(b.flavor.name() =~= x.skip(37));
    assert("default"@.len() != "safari-copy"@.len());
}

/// A session of its own is kept for a Safari that is sent the video of a full
/// transcode as it is; every other request of a media item shares one.
pub proof fn law_only_safari_has_its_own_session(mode: HlsMode, browser: BrowserHint)
    ensures
        SessionFlavor::of(mode, browser) == SessionFlavor::SafariPassthrough <==> mode is
            HlsFullTranscode && browser is Safari,
{
}

/// What an encoder is started with: the arguments for the segment that was asked for,
/// at the time where the layout puts it, and the master playlist for the first encoder
/// of a session. It counts as having got to that segment.
pub proof fn law_encoder_starts_at_the_segment(
    r: Result<SpawnAction, HlsError>,
    item: MediaItem,
    mode: HlsMode,
    browser: BrowserHint,
    session: SessionPlan,
    config: HlsConfig,
    started: bool,
    segment: u32,
)
    requires
        session.plan.wf(),
        segment < session.plan.boundaries@.len(),
        is_spawn_action(r, item, mode, browser, session, config, started, segment),
    ensures
        started && segment == 0 ==> r is Ok && r->Ok_0 is AlreadyRunning,
        !(started && segment == 0) && config.ffmpeg_command is None ==> r is Err
            && r->Err_0 is SpawnFailed,
        !(started && segment == 0) && config.ffmpeg_command is Some ==> r is Ok && (r->Ok_0 matches
            SpawnAction::Spawn { master, args, encoder, resets_ready } && master is Some == !started
            && (master matches Some(text) ==> text@ == master_playlist(
            item,
            mode,
            browser,
            renditions_of(item),
        )) && encoder.start_segment == segment && encoder.highest_produced == segment
            && encoder.start_offset_nanos == session.plan.boundaries@[segment as int] && resets_ready
            == (segment > 0) && texts(args@) == encoder_args(
            item,
            mode,
            browser,
            session.input_path@,
            session.dir@,
            config.hw_accel,
            opt_text(config.vaapi_device),
            SpawnOffset { segment, start_nanos: session.plan.boundaries@[segment as int] },
        )),
{
}

/// Every session that nothing is sent from, and that was last asked for something
/// longer ago than the idle time, ends.
pub proof fn law_idle_sessions_end(list: Seq<SessionUse>, n: int, idle_secs: u64, i: int)
    requires
        0 <= i < n <= list.len(),
        list[i].in_flight == 0,
        list[i].idle_millis > idle_secs * 1000,
    ensures
        idle_keys(list, n, idle_secs).contains(list[i].key),
    decreases n,
{
    let before = idle_keys(list, n - 1, idle_secs);
    if i < n - 1 {
        law_idle_sessions_end(list, n - 1, idle_secs, i);
        let k = before.index_of(list[i].key);
        assert(before.push(list[n - 1].key)[k] == list[i].key);
    } else {
        assert(before.push(list[i].key)[before.len() as int] == list[i].key);
    }
}

/// An encoder is ready once its playlist names a segment, and its frontier is the
/// highest segment seen. One that ends before that has failed. The watch ends with the
/// encoder, and warns once where fifteen seconds go by before it is ready.
pub proof fn law_watching_follows_the_encoder(state: WatchState, tick: WatchTick)
    ensures
        watched(state, tick).state.ready <==> state.ready || tick.scraped is Some,
        tick.scraped matches Some(segment) ==> watched(state, tick).state.frontier >= segment,
        watched(state, tick).state.frontier == state.frontier || tick.scraped == Some(
            watched(state, tick).state.frontier,
        ),
        watched(state, tick).becomes_ready <==> !state.ready && tick.scraped is Some,
        watched(state, tick).keeps_init <==> state.ready || tick.scraped is Some,
        watched(state, tick).failed <==> tick.exited && !state.ready && tick.scraped is None,
        watched(state, tick).stop <==> tick.exited,
        watched(state, tick).warns_slow <==> !state.ready && tick.scraped is None
            && !state.warned_slow && tick.elapsed_secs >= 15,
{
}

/// The bytes of a chunk that do not end a line.
pub open spec fn kept_bytes(chunk: Seq<u8>, n: int) -> Seq<u8>
    decreases n,
{
    if n <= 0 {
        seq![]
    } else if chunk[n - 1] == 10 || chunk[n - 1] == 13 {
        kept_bytes(chunk, n - 1)
    } else {
        kept_bytes(chunk, n - 1).push(chunk[n - 1])
    }
}

/// No byte of the encoder's error output is lost but the line ends, whether they are
/// line feeds or carriage returns: the lines and what is left over are, one behind the
/// other, what was left over before and the new bytes. No line is empty.
pub proof fn law_error_output_is_kept(line: Seq<u8>, chunk: Seq<u8>, n: int)
    requires
        0 <= n <= chunk.len(),
    ensures
        ({
            let (done, rest) = stderr_after(line, chunk, n);
            &&& done.flatten() + rest == line + kept_bytes(chunk, n)
            &&& forall|i: int| 0 <= i < done.len() ==> (#[trigger] done[i]).len() > 0
            &&& n > 0 && (chunk[n - 1] == 10 || chunk[n - 1] == 13) ==> rest.len() == 0
        }),
    decreases n,
{
    if n == 0 {
        let none = Seq::<Seq<u8>>::empty();
        assert(none.flatten() =~= Seq::<u8>::empty());
        assert(none.flatten() + line =~= line + kept_bytes(chunk, 0));
    } else {
        law_error_output_is_kept(line, chunk, n - 1);
        let (done, rest) = stderr_after(line, chunk, n - 1);
        let byte = chunk[n - 1];
        if !ends_line(byte) {
            assert(done.flatten() + rest.push(byte) =~= (done.flatten() + rest).push(byte));
            assert((line + kept_bytes(chunk, n - 1)).push(byte) =~= line + kept_bytes(
                chunk,
                n - 1,
            ).push(byte));
        } else if rest.len() > 0 {
            done.lemma_flatten_push(rest);
            assert(done.push(rest).flatten() + Seq::<u8>::empty() =~= done.flatten() + rest);
        }
    }
}

/// A request waits until what it waits for is there, and fails once its time is over, with
/// the failure of the encoder where one is known.
pub proof fn law_waiting_ends(
    is_there: bool,
    deadline_passed: bool,
    spawn_error: &Option<String>,
    ready: WaitStep,
    file: WaitStep,
)
    requires
        call_ensures(wait_for_ready, (is_there, deadline_passed, spawn_error), ready),
        call_ensures(wait_for_file, (is_there, deadline_passed), file),
    ensures
        ready is Ready <==> is_there,
        file is Ready <==> is_there,
        ready is Wait <==> !is_there && !deadline_passed,
        file is Wait <==> !is_there && !deadline_passed,
        !is_there && deadline_passed && *spawn_error is Some ==> ready == (WaitStep::Fail {
            error: HlsError::SpawnFailed(spawn_error->0),
        }),
        !is_there && deadline_passed && *spawn_error is None ==> ready == (WaitStep::Fail {
            error: HlsError::NotReady,
        }),
        !is_there && deadline_passed ==> file == (WaitStep::Fail { error: HlsError::NotFound }),
{
}

/// Only media that is streamed over HLS is served, and only by the names of its files.
pub proof fn law_requests_are_checked(mode: HlsMode, filename: &str, r: Result<(), HlsError>)
    requires
        call_ensures(check_request, (mode, filename), r),
    ensures
        r is Ok <==> !(mode is NotHls) && is_asset_name(filename@),
        mode is NotHls ==> r == Err::<(), HlsError>(HlsError::UnsupportedMode),
        !(mode is NotHls) && !is_asset_name(filename@) ==> r == Err::<(), HlsError>(
            HlsError::InvalidFilename,
        ),
{
}

/// The init segment is kept the first time that it is there, and never again.
pub proof fn law_init_segment_is_kept_once(frozen: bool, raw: bool, r: bool)
    requires
        call_ensures(freeze_init_segment, (frozen, raw), r),
    ensures
        frozen ==> !r,
        !frozen ==> r == raw,
{
}

/// The frontier of an encoder's playlist is the highest segment that it names: it names
/// that one, and none above it. A playlist without entries has none.
pub proof fn law_frontier_is_the_highest_segment(
    playlist: &str,
    r: Option<u32>,
    i: int,
    index: u32,
)
    requires
        call_ensures(scrape_variant_playlist_frontier, (playlist,), r),
        0 <= i < lines(playlist@).len(),
        lines(playlist@)[i] == crate::muxing::segments::segment_name(index as nat),
    ensures
        r matches Some(frontier) ==> index <= frontier && exists|k: int|
            0 <= k < lines(playlist@).len() && segment_index(#[trigger] lines(playlist@)[k]) == Some(
                frontier as nat,
            ),
        r is None ==> forall|k: int|
            0 <= k < lines(playlist@).len() ==> !"#EXTINF:"@.is_prefix_of(
                #[trigger] lines(playlist@)[k],
            ),
{
    crate::muxing::segments::law_segment_name_reads_back(index as nat);
}

/// A session is made of the item: its duration in nanoseconds, its file below its root, and
/// a directory of its own below the cache.
pub proof fn law_sessions_are_made_of_their_item(
    item: &MediaItem,
    mode: HlsMode,
    browser: BrowserHint,
    cache_dir: &str,
    keyframes: &Vec<i128>,
    r: SessionPlan,
)
    requires
        call_ensures(get_or_start, (item, mode, browser, cache_dir, keyframes), r),
    ensures
        r.key.media_id == item.id,
        item.duration_millis is Some && item.duration_millis->0 >= 0 ==> r.plan.total_duration
            == item.duration_millis->0 * 1_000_000,
        item.duration_millis is None || item.duration_millis->0 < 0 ==> r.plan.total_duration == 0,
        r.input_path@ == resolved_path(item.root_path@, item.relative_path@),
        r.dir@ == joined_path(cache_dir@, r.key.directory()),
        mode is HlsFullTranscode && browser is Safari <==> r.key.flavor
            == SessionFlavor::SafariPassthrough,
        r.plan.boundaries@.len() >= 1 && r.plan.boundaries@[0] == 0,
{
}

/// A setting of sessions is the one that the environment names, and the default where it
/// names none that can be: two sessions at a time, a minute without use, no hardware.
pub proof fn law_session_settings_have_defaults(
    ffmpeg: Option<String>,
    settings: HlsSettings,
    temp_dir: &str,
    current_dir: Option<&str>,
    r: HlsConfig,
    n: usize,
)
    requires
        call_ensures(HlsConfig::from_env, (ffmpeg, settings, temp_dir, current_dir), r),
    ensures
        r.ffmpeg_command == ffmpeg,
        settings.max_concurrent is None ==> r.max_concurrent == 2,
        settings.idle_secs is None ==> r.idle_secs == 60,
        settings.hw_accel is None ==> r.hw_accel is Software,
        settings.vaapi_device is None ==> r.vaapi_device is None,
        n > 0 && opt_text(settings.max_concurrent) == Some(decimal(n as nat)) ==> r.max_concurrent
            == n,
        n > 0 && opt_text(settings.idle_secs) == Some(decimal(n as nat)) ==> r.idle_secs == n,
        settings.cache_dir is None ==> r.cache_dir@ == joined_path(temp_dir@, "syncplay-hls"@),
        settings.cache_dir is Some && settings.cache_dir->0@.len() > 0 && settings.cache_dir->0@[0]
            == '/' ==> r.cache_dir@ == settings.cache_dir->0@,
{
    crate::text::law_decimal_reads_back(n as nat, usize::MAX as nat);
    crate::text::law_decimal_reads_back(n as nat, u64::MAX as nat);
}

} // verus!
