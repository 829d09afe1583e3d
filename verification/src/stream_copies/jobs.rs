//! The making of one stream copy, step by step. The caller performs each
//! action and hands back what came of it.
use crate::ffmpeg::FfmpegHardwareAcceleration;
use crate::persistence::records::{PendingStreamCopy, StreamCopyRecord};
use crate::persistence::stream_copies::{stream_copy_summary_for, summarizes};
use crate::protocol::{AudioStream, MediaItem, StreamCopyStatus, StreamCopySummary, SubtitleMode};
use crate::search::{first_index, lemma_first_index, lemma_first_is_unique};
use crate::stream_copies::paths::{
    build_files, default_stream_copy_cache_dir, files_to_remove, StreamCopyPaths,
    DEFAULT_STREAM_COPY_CACHE_DIR,
};
use crate::stream_copies::progress::{
    progress_ratio_from_snapshot, ratio_billionths, StreamCopyProgressSnapshot,
};
use crate::stream_copies::subtitles::{
    build_burn_subtitle_filter, burn_filter, convert_sidecar_bytes, converted_sidecar,
    plan_sidecar_subtitle, sidecar_choice, SidecarChoice, SidecarPlan,
};
use crate::stream_copies::{stream_copy_args, stream_copy_arguments, FfmpegStreamCopyRequest};
use crate::streaming::{lossy_text, resolve_media_path, resolved_path, text_from_bytes};
use crate::text::{concat2, concat3, has_text, occurs_at, opt_text, texts, trim, trimmed};
use vstd::prelude::*;

verus! {

pub const DEFAULT_WORKERS: usize = 1;

/// How stream copies are made. Without an ffmpeg command or a cache directory
/// none is.
#[derive(Debug)]
pub struct StreamCopyConfig {
    pub cache_dir: Option<String>,
    pub ffmpeg_command: Option<String>,
    pub hw_accel: FfmpegHardwareAcceleration,
    pub max_concurrent: usize,
}

impl Default for StreamCopyConfig {
    fn default() -> (r: StreamCopyConfig)
        ensures
            opt_text(r.cache_dir) == Some(DEFAULT_STREAM_COPY_CACHE_DIR@),
            opt_text(r.ffmpeg_command) == Some("ffmpeg"@),
            r.hw_accel is Software,
            r.max_concurrent == DEFAULT_WORKERS,
    {
        StreamCopyConfig {
            cache_dir: Some(default_stream_copy_cache_dir()),
            ffmpeg_command: Some("ffmpeg".to_owned()),
            hw_accel: FfmpegHardwareAcceleration::Software,
            max_concurrent: DEFAULT_WORKERS,
        }
    }
}

impl StreamCopyConfig {
    /// How many stream copies are made at a time: at least one.
    pub fn permits(&self) -> (r: usize)
        ensures
            r == (if self.max_concurrent > 1 {
                self.max_concurrent
            } else {
                1
            }),
    {
        if self.max_concurrent > 1 {
            self.max_concurrent
        } else {
            1
        }
    }
}

/// A stream copy to be made.
#[derive(Debug, Clone, Copy, PartialEq, Eq, Structural)]
pub struct StreamCopyJob {
    pub media_id: u128,
}

impl StreamCopyJob {
    pub fn from_pending(pending: PendingStreamCopy) -> (r: StreamCopyJob)
        ensures
            r.media_id == pending.media_id,
    {
        StreamCopyJob { media_id: pending.media_id }
    }
}

/// Whether `r` is what clients see of a stored stream copy, with progress
/// where it is being made and progress is known.
pub open spec fn is_live_summary(
    r: StreamCopySummary,
    media_id: u128,
    duration: Option<i64>,
    record: StreamCopyRecord,
    progress: Option<StreamCopyProgressSnapshot>,
) -> bool {
    &&& summarizes(r, media_id, record)
    &&& match progress {
        Some(snapshot) if record.status == StreamCopyStatus::Running => {
            &&& r.progress_ratio_billionths == ratio_billionths(duration, snapshot.out_time_micros)
            &&& r.progress_speed_bits == snapshot.speed_bits
        },
        _ => r.progress_ratio_billionths is None && r.progress_speed_bits is None,
    }
}

/// What clients see of a stored stream copy.
pub fn summary_for(
    media_id: u128,
    duration_millis: Option<i64>,
    record: &StreamCopyRecord,
    progress: Option<StreamCopyProgressSnapshot>,
) -> (r: StreamCopySummary)
    ensures
        is_live_summary(r, media_id, duration_millis, *record, progress),
{
    let mut summary: StreamCopySummary = stream_copy_summary_for(media_id, record);
    if let Some(snapshot) = progress {
        if record.status == StreamCopyStatus::Running {
            summary.progress_ratio_billionths =
            progress_ratio_from_snapshot(duration_millis, snapshot.out_time_micros);
            summary.progress_speed_bits = snapshot.speed_bits;
        }
    }
    summary
}

/// The condition of having the given stream index.
pub open spec fn has_index(index: u32) -> spec_fn(AudioStream) -> bool {
    |stream: AudioStream| stream.index == index
}

/// The condition of being the file's default track.
pub open spec fn is_default_track() -> spec_fn(AudioStream) -> bool {
    |stream: AudioStream| stream.default
}

/// The place of the audio track that comes first in the stream copy: the
/// selected one, or else the file's default track, or else the first.
pub open spec fn default_audio(streams: Seq<AudioStream>, selected: Option<u32>) -> Result<
    Option<usize>,
    Seq<char>,
> {
    if streams.len() == 0 {
        Ok(None)
    } else {
        match selected {
            Some(index) => {
                let place = first_index(streams, has_index(index));
                if place < streams.len() {
                    Ok(Some(place as usize))
                } else {
                    Err("Selected audio stream does not exist."@)
                }
            },
            None => {
                let place = first_index(streams, is_default_track());
                Ok(
                    Some(
                        if place < streams.len() {
                            place as usize
                        } else {
                            0
                        },
                    ),
                )
            },
        }
    }
}

/// A result with the error taken by its text.
pub open spec fn place_result(r: Result<Option<usize>, String>) -> Result<
    Option<usize>,
    Seq<char>,
> {
    match r {
        Ok(place) => Ok(place),
        Err(message) => Err(message@),
    }
}

/// The place of the audio track that comes first in the stream copy. All
/// tracks are kept; the place only decides which one is surfaced as default.
pub fn default_audio_stream_ordinal(media_item: &MediaItem, copy: &StreamCopyRecord) -> (r: Result<
    Option<usize>,
    String,
>)
    ensures
        place_result(r) == default_audio(media_item.audio_streams@, copy.audio_stream_index),
        r matches Ok(Some(place)) ==> place < media_item.audio_streams@.len(),
{
    let streams: &Vec<AudioStream> = &media_item.audio_streams;
    if streams.len() == 0 {
        return Ok(None);
    }
    match copy.audio_stream_index {
        Some(index) => {
            let mut i: usize = 0;
            while i < streams.len() && streams[i].index != index
                invariant
                    i <= streams.len(),
                    forall|j: int| 0 <= j < i ==> !has_index(index)(#[trigger] streams@[j]),
                decreases streams.len() - i,
            {
                i = i + 1;
            }
            proof {
                lemma_first_is_unique(streams@, has_index(index), i as int);
            }
            if i < streams.len() {
                Ok(Some(i))
            } else {
                Err("Selected audio stream does not exist.".to_owned())
            }
        },
        None => {
            let mut i: usize = 0;
            while i < streams.len() && !streams[i].default
                invariant
                    i <= streams.len(),
                    forall|j: int| 0 <= j < i ==> !is_default_track()(#[trigger] streams@[j]),
                decreases streams.len() - i,
            {
                i = i + 1;
            }
            proof {
                lemma_first_is_unique(streams@, is_default_track(), i as int);
            }
            if i < streams.len() {
                Ok(Some(i))
            } else {
                Ok(Some(0))
            }
        },
    }
}

/// The message for a failed ffmpeg run, with what it wrote to its error output.
pub open spec fn failure_message(prefix: Seq<char>, stderr: Seq<char>) -> Seq<char> {
    if trimmed(stderr).len() == 0 {
        prefix
    } else {
        prefix + ": "@ + trimmed(stderr)
    }
}

/// The message for a failed ffmpeg run, from the text of its error output.
pub fn ffmpeg_error_text(prefix: &str, stderr: &str) -> (r: String)
    ensures
        r@ == failure_message(prefix@, stderr@),
{
    let message: &str = trim(stderr);
    if message.is_empty() {
        prefix.to_owned()
    } else {
        concat3(prefix, ": ", message)
    }
}

/// The message for a failed ffmpeg run, from the bytes of its error output.
pub fn ffmpeg_error(prefix: &str, stderr: &[u8]) -> (r: String)
    ensures
        r@ == failure_message(prefix@, lossy_text(stderr@)),
{
    let text: String = text_from_bytes(stderr);
    ffmpeg_error_text(prefix, text.as_str())
}

/// What a lookup in the database found.
#[derive(Debug, Clone, Copy, PartialEq, Eq, Structural)]
pub enum Lookup {
    Found,
    Missing,
    Failed,
}

/// What happened to a stream-copy job.
#[derive(Debug)]
pub enum JobEvent {
    /// It was taken from the queue.
    Taken { has_ffmpeg: bool, has_cache_dir: bool },
    /// It was marked as running, or that failed.
    MarkedRunning { ok: bool },
    /// The media item was looked up.
    MediaLoaded { outcome: Lookup },
    /// The request was looked up.
    RequestLoaded { outcome: Lookup },
    /// The copy was made.
    Built,
    /// The copy could not be made.
    BuildFailed { message: String },
}

/// What is to be done next with a stream-copy job.
#[derive(Debug, PartialEq, Eq)]
pub enum JobAction {
    MarkRunning,
    LoadMedia,
    LoadRequest,
    Build,
    MarkReady,
    MarkFailed { message: String },
    Stop,
}

/// Whether an action is to record the given failure.
pub open spec fn fails_with(action: JobAction, text: Seq<char>) -> bool {
    action matches JobAction::MarkFailed { message } && message@ == text
}

/// Whether `action` is what follows `event`.
pub open spec fn is_next_action(event: JobEvent, action: JobAction) -> bool {
    match event {
        JobEvent::Taken { has_ffmpeg, has_cache_dir } => if !has_ffmpeg {
            fails_with(action, "ffmpeg is not configured."@)
        } else if !has_cache_dir {
            fails_with(action, "Stream copy cache directory is not configured."@)
        } else {
            action is MarkRunning
        },
        JobEvent::MarkedRunning { ok } => if ok {
            action is LoadMedia
        } else {
            action is Stop
        },
        JobEvent::MediaLoaded { outcome } => match outcome {
            Lookup::Found => action is LoadRequest,
            Lookup::Missing => fails_with(action, "Media item no longer exists."@),
            Lookup::Failed => fails_with(action, "Failed to load media item."@),
        },
        JobEvent::RequestLoaded { outcome } => match outcome {
            Lookup::Found => action is Build,
            Lookup::Missing => action is Stop,
            Lookup::Failed => fails_with(action, "Failed to load stream copy request."@),
        },
        JobEvent::Built => action is MarkReady,
        JobEvent::BuildFailed { message } => fails_with(action, message@),
    }
}

/// What is to be done after `event`.
pub fn process_job(event: JobEvent) -> (r: JobAction)
    ensures
        is_next_action(event, r),
{
    match event {
        JobEvent::Taken { has_ffmpeg, has_cache_dir } => {
            if !has_ffmpeg {
                JobAction::MarkFailed { message: "ffmpeg is not configured.".to_owned() }
            } else if !has_cache_dir {
                JobAction::MarkFailed {
                    message: "Stream copy cache directory is not configured.".to_owned(),
                }
            } else {
                JobAction::MarkRunning
            }
        },
        JobEvent::MarkedRunning { ok } => {
            if ok {
                JobAction::LoadMedia
            } else {
                JobAction::Stop
            }
        },
        JobEvent::MediaLoaded { outcome } => match outcome {
            Lookup::Found => JobAction::LoadRequest,
            Lookup::Missing => JobAction::MarkFailed {
                message: "Media item no longer exists.".to_owned(),
            },
            Lookup::Failed => JobAction::MarkFailed {
                message: "Failed to load media item.".to_owned(),
            },
        },
        JobEvent::RequestLoaded { outcome } => match outcome {
            Lookup::Found => JobAction::Build,
            Lookup::Missing => JobAction::Stop,
            Lookup::Failed => JobAction::MarkFailed {
                message: "Failed to load stream copy request.".to_owned(),
            },
        },
        JobEvent::Built => JobAction::MarkReady,
        JobEvent::BuildFailed { message } => JobAction::MarkFailed { message },
    }
}

/// How an ffmpeg run ended.
#[derive(Debug)]
pub enum FfmpegExit {
    NotStarted { error: String },
    NoProgressOutput,
    NoErrorOutput,
    WaitFailed { error: String },
    Exited { success: bool, stderr: Vec<u8> },
}

/// What came of the last action of a build.
#[derive(Debug)]
pub enum BuildEvent {
    DirectoryReady,
    DirectoryFailed { error: String },
    CopyFinished { exit: FfmpegExit },
    OutputFinalized,
    OutputNotFinalized { error: String },
    SubtitleRead { bytes: Vec<u8>, extension: String },
    SubtitleNotRead { error: String },
    SubtitleWritten,
    SubtitleNotWritten { error: String },
    ExtractFinished { exit: FfmpegExit },
    SubtitleFinalized,
    SubtitleNotFinalized { error: String },
}

/// What is to be done next in a build.
#[derive(Debug, PartialEq, Eq)]
pub enum BuildAction {
    /// Run ffmpeg, which writes the unfinished output.
    RunCopy { args: Vec<String> },
    /// Put the unfinished output in the place of the finished one.
    FinalizeOutput,
    /// Read the subtitle file at `source`.
    ReadSubtitle { source: String, extension: String },
    /// Write the unfinished subtitle.
    WriteSubtitle { text: String },
    /// Run ffmpeg, which writes the unfinished subtitle.
    RunExtract { args: Vec<String> },
    /// Put the unfinished subtitle in the place of the finished one.
    FinalizeSubtitle,
    /// The copy is done and has no subtitle: remove a finished one.
    FinishWithoutSubtitle,
    /// The copy is done and has a subtitle.
    FinishWithSubtitle,
    /// The copy failed before there were any files.
    Fail { message: String },
    /// The copy failed: remove the files.
    CleanUpAndFail { message: String, files: Vec<String> },
}

/// Whether an action cleans up and reports the given failure.
pub open spec fn cleans_up(action: BuildAction, paths: StreamCopyPaths, text: Seq<char>) -> bool {
    action matches BuildAction::CleanUpAndFail { message, files } && message@ == text && texts(
        files@,
    ) == build_files(paths)
}

fn clean_up(paths: &StreamCopyPaths, message: String) -> (r: BuildAction)
    ensures
        cleans_up(r, *paths, message@),
{
    BuildAction::CleanUpAndFail { message, files: files_to_remove(paths) }
}

/// The failure that the end of the copying ffmpeg run means, if it is one.
pub open spec fn copy_failure(exit: FfmpegExit) -> Option<Seq<char>> {
    match exit {
        FfmpegExit::NotStarted { error } => Some("failed to start ffmpeg stream copy: "@ + error@),
        FfmpegExit::NoProgressOutput => Some("failed to capture ffmpeg progress output."@),
        FfmpegExit::NoErrorOutput => Some("failed to capture ffmpeg error output."@),
        FfmpegExit::WaitFailed { error } => Some(
            "failed to wait for ffmpeg stream copy: "@ + error@,
        ),
        FfmpegExit::Exited { success, stderr } => if success {
            None
        } else {
            Some(failure_message("stream copy failed"@, lossy_text(stderr@)))
        },
    }
}

/// The failure that the end of the extracting ffmpeg run means, if it is one.
pub open spec fn extract_failure(exit: FfmpegExit) -> Option<Seq<char>> {
    match exit {
        FfmpegExit::NotStarted { error } => Some(
            "failed to start ffmpeg subtitle extract: "@ + error@,
        ),
        FfmpegExit::Exited { success, stderr } => if success {
            None
        } else {
            Some(failure_message("subtitle extraction failed"@, lossy_text(stderr@)))
        },
        _ => Some("subtitle extraction failed"@),
    }
}

/// The failure that the end of the copying ffmpeg run means, if it is one.
pub fn copy_run_failure(exit: &FfmpegExit) -> (r: Option<String>)
    ensures
        opt_text(r) == copy_failure(*exit),
{
    match exit {
        FfmpegExit::NotStarted { error } => Some(
            concat2("failed to start ffmpeg stream copy: ", error.as_str()),
        ),
        FfmpegExit::NoProgressOutput => Some(
            "failed to capture ffmpeg progress output.".to_owned(),
        ),
        FfmpegExit::NoErrorOutput => Some("failed to capture ffmpeg error output.".to_owned()),
        FfmpegExit::WaitFailed { error } => Some(
            concat2("failed to wait for ffmpeg stream copy: ", error.as_str()),
        ),
        FfmpegExit::Exited { success, stderr } => {
            if *success {
                None
            } else {
                Some(ffmpeg_error("stream copy failed", stderr.as_slice()))
            }
        },
    }
}

/// The failure that the end of the extracting ffmpeg run means, if it is one.
pub fn extract_run_failure(exit: &FfmpegExit) -> (r: Option<String>)
    ensures
        opt_text(r) == extract_failure(*exit),
{
    match exit {
        FfmpegExit::NotStarted { error } => Some(
            concat2("failed to start ffmpeg subtitle extract: ", error.as_str()),
        ),
        FfmpegExit::Exited { success, stderr } => {
            if *success {
                None
            } else {
                Some(ffmpeg_error("subtitle extraction failed", stderr.as_slice()))
            }
        },
        _ => Some("subtitle extraction failed".to_owned()),
    }
}

/// Whether `action` starts the ffmpeg run for a media item and a request, or
/// reports why there is nothing to run.
pub open spec fn starts_copy(
    action: BuildAction,
    item: MediaItem,
    copy: StreamCopyRecord,
    paths: StreamCopyPaths,
    hw_accel: FfmpegHardwareAcceleration,
) -> bool {
    let media_path = resolved_path(item.root_path@, item.relative_path@);
    match default_audio(item.audio_streams@, copy.audio_stream_index) {
        Err(message) => cleans_up(action, paths, message),
        Ok(place) => if copy.subtitle_mode == SubtitleMode::Burned {
            match burn_filter(item, copy, media_path) {
                Err(message) => cleans_up(action, paths, message),
                Ok(filter) => action matches BuildAction::RunCopy { args } && texts(args@)
                    == stream_copy_args(
                    item,
                    media_path,
                    paths.temp_output@,
                    place,
                    Some(filter),
                    hw_accel,
                ),
            }
        } else {
            action matches BuildAction::RunCopy { args } && texts(args@) == stream_copy_args(
                item,
                media_path,
                paths.temp_output@,
                place,
                None,
                hw_accel,
            )
        },
    }
}

/// Whether `action` is what follows `event` in the build of a stream copy.
pub open spec fn is_next_build_action(
    event: BuildEvent,
    action: BuildAction,
    item: MediaItem,
    copy: StreamCopyRecord,
    paths: StreamCopyPaths,
    hw_accel: FfmpegHardwareAcceleration,
) -> bool {
    match event {
        BuildEvent::DirectoryFailed { error } => action matches BuildAction::Fail { message }
            && message@ == "failed to create stream copy directory: "@ + error@,
        BuildEvent::DirectoryReady => starts_copy(action, item, copy, paths, hw_accel),
        BuildEvent::CopyFinished { exit } => match copy_failure(exit) {
            Some(message) => cleans_up(action, paths, message),
            None => action is FinalizeOutput,
        },
        BuildEvent::OutputNotFinalized { error } => cleans_up(
            action,
            paths,
            "failed to finalize stream copy: "@ + error@,
        ),
        BuildEvent::OutputFinalized => if copy.subtitle_mode == SubtitleMode::Sidecar {
            follows_choice(
                action,
                paths,
                sidecar_choice(
                    item,
                    copy,
                    resolved_path(item.root_path@, item.relative_path@),
                    paths.temp_subtitle@,
                ),
            )
        } else {
            action is FinishWithoutSubtitle
        },
        BuildEvent::SubtitleNotRead { error } => cleans_up(
            action,
            paths,
            "failed to read subtitle track: "@ + error@,
        ),
        BuildEvent::SubtitleRead { bytes, extension } => match converted_sidecar(
            lossy_text(bytes@),
            extension@,
        ) {
            Ok(text) => action matches BuildAction::WriteSubtitle { text: written } && written@
                == text,
            Err(message) => cleans_up(action, paths, message),
        },
        BuildEvent::SubtitleNotWritten { error } => cleans_up(
            action,
            paths,
            "failed to write prepared subtitle: "@ + error@,
        ),
        BuildEvent::SubtitleWritten => action is FinalizeSubtitle,
        BuildEvent::ExtractFinished { exit } => match extract_failure(exit) {
            Some(message) => cleans_up(action, paths, message),
            None => action is FinalizeSubtitle,
        },
        BuildEvent::SubtitleNotFinalized { error } => cleans_up(
            action,
            paths,
            "failed to finalize prepared subtitle: "@ + error@,
        ),
        BuildEvent::SubtitleFinalized => action is FinishWithSubtitle,
    }
}

/// Whether `action` carries out a subtitle plan, or reports why there is none.
pub open spec fn follows_choice(
    action: BuildAction,
    paths: StreamCopyPaths,
    choice: Result<SidecarChoice, Seq<char>>,
) -> bool {
    match choice {
        Ok(SidecarChoice::Convert(path, format)) => action matches BuildAction::ReadSubtitle {
            source,
            extension,
        } && source@ == path && extension@ == format,
        Ok(SidecarChoice::Extract(expected)) => action matches BuildAction::RunExtract { args }
            && texts(args@) == expected,
        Err(message) => cleans_up(action, paths, message),
    }
}

fn start_copy(
    media_item: &MediaItem,
    copy: &StreamCopyRecord,
    paths: &StreamCopyPaths,
    hw_accel: &FfmpegHardwareAcceleration,
) -> (r: BuildAction)
    ensures
        starts_copy(r, *media_item, *copy, *paths, *hw_accel),
{
    let media_path: String = resolve_media_path(media_item);
    let place: Option<usize> = match default_audio_stream_ordinal(media_item, copy) {
        Ok(place) => place,
        Err(message) => {
            return clean_up(paths, message);
        },
    };
    if copy.subtitle_mode == SubtitleMode::Burned {
        match build_burn_subtitle_filter(media_item, copy, media_path.as_str()) {
            Ok(filter) => {
                let request: FfmpegStreamCopyRequest = FfmpegStreamCopyRequest {
                    media_item,
                    media_path: media_path.as_str(),
                    output_path: paths.temp_output.as_str(),
                    default_audio_ordinal: place,
                    burned_filter: Some(filter.as_str()),
                    hw_accel,
                };
                let args: Vec<String> = stream_copy_arguments(&request);
                BuildAction::RunCopy { args }
            },
            Err(message) => clean_up(paths, message),
        }
    } else {
        let request: FfmpegStreamCopyRequest = FfmpegStreamCopyRequest {
            media_item,
            media_path: media_path.as_str(),
            output_path: paths.temp_output.as_str(),
            default_audio_ordinal: place,
            burned_filter: None,
            hw_accel,
        };
        let args: Vec<String> = stream_copy_arguments(&request);
        BuildAction::RunCopy { args }
    }
}

/// What is to be done after `event` in the build of a stream copy.
pub fn build_stream_copy(
    media_item: &MediaItem,
    copy: &StreamCopyRecord,
    paths: &StreamCopyPaths,
    hw_accel: &FfmpegHardwareAcceleration,
    event: BuildEvent,
) -> (r: BuildAction)
    ensures
        is_next_build_action(event, r, *media_item, *copy, *paths, *hw_accel),
{
    match event {
        BuildEvent::DirectoryFailed { error } => BuildAction::Fail {
            message: concat2("failed to create stream copy directory: ", error.as_str()),
        },
        BuildEvent::DirectoryReady => start_copy(media_item, copy, paths, hw_accel),
        BuildEvent::CopyFinished { exit } => match copy_run_failure(&exit) {
            Some(message) => clean_up(paths, message),
            None => BuildAction::FinalizeOutput,
        },
        BuildEvent::OutputNotFinalized { error } => clean_up(
            paths,
            concat2("failed to finalize stream copy: ", error.as_str()),
        ),
        BuildEvent::OutputFinalized => {
            if copy.subtitle_mode == SubtitleMode::Sidecar {
                let media_path: String = resolve_media_path(media_item);
                let plan = plan_sidecar_subtitle(
                    media_item,
                    copy,
                    media_path.as_str(),
                    paths.temp_subtitle.as_str(),
                );
                match plan {
                    Ok(SidecarPlan::Convert { source, extension }) => BuildAction::ReadSubtitle {
                        source,
                        extension,
                    },
                    Ok(SidecarPlan::Extract { args }) => BuildAction::RunExtract { args },
                    Err(message) => clean_up(paths, message),
                }
            } else {
                BuildAction::FinishWithoutSubtitle
            }
        },
        BuildEvent::SubtitleNotRead { error } => clean_up(
            paths,
            concat2("failed to read subtitle track: ", error.as_str()),
        ),
        BuildEvent::SubtitleRead { bytes, extension } => {
            match convert_sidecar_bytes(bytes.as_slice(), extension.as_str()) {
                Ok(text) => BuildAction::WriteSubtitle { text },
                Err(message) => clean_up(paths, message),
            }
        },
        BuildEvent::SubtitleNotWritten { error } => clean_up(
            paths,
            concat2("failed to write prepared subtitle: ", error.as_str()),
        ),
        BuildEvent::SubtitleWritten => BuildAction::FinalizeSubtitle,
        BuildEvent::ExtractFinished { exit } => match extract_run_failure(&exit) {
            Some(message) => clean_up(paths, message),
            None => BuildAction::FinalizeSubtitle,
        },
        BuildEvent::SubtitleNotFinalized { error } => clean_up(
            paths,
            concat2("failed to finalize prepared subtitle: ", error.as_str()),
        ),
        BuildEvent::SubtitleFinalized => BuildAction::FinishWithSubtitle,
    }
}

/// The file that an action writes, if it writes one: an ffmpeg run writes the file
/// that its arguments end with.
pub open spec fn written_by(action: BuildAction, paths: StreamCopyPaths) -> Option<Seq<char>> {
    match action {
        BuildAction::RunCopy { args } => Some(texts(args@).last()),
        BuildAction::FinalizeOutput => Some(paths.final_output@),
        BuildAction::WriteSubtitle { .. } => Some(paths.temp_subtitle@),
        BuildAction::RunExtract { args } => Some(texts(args@).last()),
        BuildAction::FinalizeSubtitle => Some(paths.final_subtitle@),
        _ => None,
    }
}

/// A build that fails once it may have written files removes every file that any
/// of its steps writes; only one that had no directory to write to leaves it at
/// that.
pub proof fn law_failed_builds_leave_nothing(
    event: BuildEvent,
    action: BuildAction,
    failure: BuildEvent,
    failed: BuildAction,
    item: MediaItem,
    copy: StreamCopyRecord,
    paths: StreamCopyPaths,
    hw_accel: FfmpegHardwareAcceleration,
)
    requires
        is_next_build_action(event, action, item, copy, paths, hw_accel),
        is_next_build_action(failure, failed, item, copy, paths, hw_accel),
    ensures
        failed is Fail <==> failure is DirectoryFailed,
        failed matches BuildAction::CleanUpAndFail { message, files } ==> (written_by(
            action,
            paths,
        ) matches Some(file) ==> texts(files@).contains(file)),
{
    let files = build_files(paths);
    assert(files[0] == paths.temp_output@);
    assert(files[1] == paths.temp_subtitle@);
    assert(files[2] == paths.final_output@);
    assert(files[3] == paths.final_subtitle@);
}

/// How far a build is when an event comes.
pub open spec fn build_stage(event: BuildEvent) -> nat {
    match event {
        BuildEvent::DirectoryReady | BuildEvent::DirectoryFailed { .. } => 0,
        BuildEvent::CopyFinished { .. } => 1,
        BuildEvent::OutputFinalized | BuildEvent::OutputNotFinalized { .. } => 2,
        BuildEvent::SubtitleRead { .. } | BuildEvent::SubtitleNotRead { .. } => 3,
        BuildEvent::SubtitleWritten | BuildEvent::SubtitleNotWritten { .. } => 4,
        BuildEvent::ExtractFinished { .. } => 4,
        BuildEvent::SubtitleFinalized | BuildEvent::SubtitleNotFinalized { .. } => 5,
    }
}

/// Whether an event can come of an action.
pub open spec fn can_come_of(action: BuildAction, event: BuildEvent) -> bool {
    match action {
        BuildAction::RunCopy { .. } => event is CopyFinished,
        BuildAction::FinalizeOutput => event is OutputFinalized || event is OutputNotFinalized,
        BuildAction::ReadSubtitle { .. } => event is SubtitleRead || event is SubtitleNotRead,
        BuildAction::WriteSubtitle { .. } => event is SubtitleWritten
            || event is SubtitleNotWritten,
        BuildAction::RunExtract { .. } => event is ExtractFinished,
        BuildAction::FinalizeSubtitle => event is SubtitleFinalized
            || event is SubtitleNotFinalized,
        _ => false,
    }
}

/// A build never goes back to an earlier step, and so comes to an end.
pub proof fn law_builds_go_forward(
    event: BuildEvent,
    action: BuildAction,
    next: BuildEvent,
    item: MediaItem,
    copy: StreamCopyRecord,
    paths: StreamCopyPaths,
    hw_accel: FfmpegHardwareAcceleration,
)
    requires
        is_next_build_action(event, action, item, copy, paths, hw_accel),
        can_come_of(action, next),
    ensures
        build_stage(event) < build_stage(next) <= 5,
{
}

/// The track that comes first is the one that was selected; without a selection it is
/// the first that the file flags as default, and the first of all where none is
/// flagged. A selection that the file does not have is refused, unless it has no audio
/// at all.
pub proof fn law_selected_track_comes_first(streams: Seq<AudioStream>, selected: Option<u32>)
    ensures
        streams.len() == 0 <==> default_audio(streams, selected) == Ok::<Option<usize>, Seq<char>>(
            None,
        ),
        default_audio(streams, selected) is Err <==> streams.len() > 0 && selected is Some && (
        forall|i: int| 0 <= i < streams.len() ==> (#[trigger] streams[i]).index != selected->0),
        streams.len() <= usize::MAX ==> (default_audio(streams, selected) matches Ok(Some(place))
            ==> {
            &&& place < streams.len()
            &&& selected is Some ==> streams[place as int].index == selected->0
            &&& selected is None && (exists|i: int|
                0 <= i < streams.len() && (#[trigger] streams[i]).default)
                ==> streams[place as int].default && forall|i: int|
                0 <= i < place ==> !(#[trigger] streams[i]).default
            &&& selected is None && (forall|i: int|
                0 <= i < streams.len() ==> !(#[trigger] streams[i]).default) ==> place == 0
        }),
{
    lemma_first_index(streams, is_default_track());
    if selected is Some {
        lemma_first_index(streams, has_index(selected->0));
        let place = first_index(streams, has_index(selected->0));
        if place < streams.len() {
            assert(has_index(selected->0)(streams[place]));
        } else {
            assert forall|i: int| 0 <= i < streams.len() implies (#[trigger] streams[i]).index
                != selected->0 by {
                assert(!has_index(selected->0)(streams[i]));
            }
        }
    } else {
        let place = first_index(streams, is_default_track());
        if place < streams.len() {
            assert(is_default_track()(streams[place]));
            assert forall|i: int| 0 <= i < place implies !(#[trigger] streams[i]).default by {
                assert(!is_default_track()(streams[i]));
            }
        } else {
            assert forall|i: int| 0 <= i < streams.len() implies !(#[trigger] streams[i]).default by {
                assert(!is_default_track()(streams[i]));
            }
        }
    }
}

/// A job is marked as ready exactly when its copy was built, and is built exactly when
/// its request was found; it is marked as failed with the message of a failed build.
/// Without ffmpeg, or without a directory to write to, it is not begun.
pub proof fn law_jobs_end_as_their_builds_do(event: JobEvent, action: JobAction)
    requires
        is_next_action(event, action),
    ensures
        action is MarkReady <==> event is Built,
        action is Build <==> (event matches JobEvent::RequestLoaded { outcome } && outcome
            is Found),
        action is MarkRunning <==> (event matches JobEvent::Taken { has_ffmpeg, has_cache_dir }
            && has_ffmpeg && has_cache_dir),
        action is LoadMedia <==> (event matches JobEvent::MarkedRunning { ok } && ok),
        action is LoadRequest <==> (event matches JobEvent::MediaLoaded { outcome } && outcome
            is Found),
        event matches JobEvent::BuildFailed { message } ==> (action matches JobAction::MarkFailed {
            message: text,
        } && text@ == message@),
        event matches JobEvent::Taken { has_ffmpeg, has_cache_dir } ==> (!has_ffmpeg
            || !has_cache_dir ==> action is MarkFailed),
{
}

/// A run of ffmpeg counts as done exactly where it ended with success; the message of
/// one that did not says what ffmpeg wrote.
pub proof fn law_runs_fail_unless_they_succeed(exit: FfmpegExit)
    ensures
        copy_failure(exit) is None <==> (exit matches FfmpegExit::Exited { success, stderr }
            && success),
        extract_failure(exit) is None <==> (exit matches FfmpegExit::Exited { success, stderr }
            && success),
        exit matches FfmpegExit::Exited { success, stderr } ==> (!success ==> {
            &&& has_text(copy_failure(exit)->0, trimmed(lossy_text(stderr@)))
            &&& has_text(extract_failure(exit)->0, trimmed(lossy_text(stderr@)))
            &&& "stream copy failed"@.is_prefix_of(copy_failure(exit)->0)
            &&& "subtitle extraction failed"@.is_prefix_of(extract_failure(exit)->0)
        }),
{
    if let FfmpegExit::Exited { success, stderr } = exit {
        if !success {
            lemma_failure_message("stream copy failed"@, lossy_text(stderr@));
            lemma_failure_message("subtitle extraction failed"@, lossy_text(stderr@));
        }
    }
}

proof fn lemma_failure_message(prefix: Seq<char>, stderr: Seq<char>)
    ensures
        has_text(failure_message(prefix, stderr), trimmed(stderr)),
        prefix.is_prefix_of(failure_message(prefix, stderr)),
{
    let text = trimmed(stderr);
    let message = failure_message(prefix, stderr);
    assert(prefix =~= message.subrange(0, prefix.len() as int));
    if text.len() == 0 {
        assert(message.subrange(0, 0) =~= text);
        assert(occurs_at(message, text, 0));
    } else {
        let start = prefix.len() + ": "@.len();
        assert(message.subrange(start as int, (start + text.len()) as int) =~= text);
        assert(occurs_at(message, text, start as int));
    }
}

/// A build writes the unfinished file first, and puts it in the place of the finished
/// one only after ffmpeg ended with success. It has a subtitle beside it exactly where
/// one was asked for and put in its place.
pub proof fn law_builds_finish_what_succeeded(
    event: BuildEvent,
    action: BuildAction,
    item: MediaItem,
    copy: StreamCopyRecord,
    paths: StreamCopyPaths,
    hw_accel: FfmpegHardwareAcceleration,
)
    requires
        is_next_build_action(event, action, item, copy, paths, hw_accel),
    ensures
        action matches BuildAction::RunCopy { args } ==> event is DirectoryReady && texts(
            args@,
        ).last() == paths.temp_output@,
        action is FinalizeOutput <==> (event matches BuildEvent::CopyFinished { exit } && (
        exit matches FfmpegExit::Exited { success, stderr } && success)),
        action is FinishWithSubtitle <==> event is SubtitleFinalized,
        action is FinishWithoutSubtitle <==> event is OutputFinalized && copy.subtitle_mode
            != SubtitleMode::Sidecar,
        action is FinalizeSubtitle ==> event is SubtitleWritten || (event matches
            BuildEvent::ExtractFinished { exit } && (exit matches FfmpegExit::Exited {
            success,
            stderr,
        } && success)),
        action matches BuildAction::RunExtract { args } ==> texts(args@).last()
            == paths.temp_subtitle@,
        event is DirectoryFailed ==> action is Fail,
        event is OutputNotFinalized || event is SubtitleNotRead || event is SubtitleNotWritten
            || event is SubtitleNotFinalized ==> action is CleanUpAndFail,
{
}

/// Progress is shown only of a copy that is being made, and then as it was reported.
pub proof fn law_progress_is_shown_while_running(
    r: StreamCopySummary,
    media_id: u128,
    duration: Option<i64>,
    record: StreamCopyRecord,
    progress: Option<StreamCopyProgressSnapshot>,
)
    requires
        is_live_summary(r, media_id, duration, record, progress),
    ensures
        record.status != StreamCopyStatus::Running || progress is None
            ==> r.progress_ratio_billionths is None && r.progress_speed_bits is None,
        record.status == StreamCopyStatus::Running && progress is Some ==> r.progress_speed_bits
            == progress->0.speed_bits && r.progress_ratio_billionths == ratio_billionths(
            duration,
            progress->0.out_time_micros,
        ),
        r.status == record.status,
{
}

} // verus!
