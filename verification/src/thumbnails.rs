//! Thumbnails: where they come from, and the ffmpeg runs that make them.
use crate::env_config::{chosen_setting, chosen_workers, setting_or, workers_of};
use crate::ffmpeg::{apply_input_acceleration, FfmpegHardwareAcceleration};
use crate::ids::{hex_char, hyphenated, id_text, law_identifiers_are_written_apart};
use crate::paths::{
    file_name, file_name_of, file_stem, is_plain_name, join_path, joined_path,
    law_name_and_parent_undo_joining, parent, parent_of, path_trimmed, stem_of,
};
use crate::persistence::records::PendingThumbnail;
use crate::streaming::{lossy_text, text_from_bytes};
use crate::text::{
    all_digits, concat2, concat3, contains_text, decimal, has_text, lemma_decimal, numeral_value,
    opt_str, opt_text, push_text, push_two, texts, trim, trimmed, wide_decimal_text,
};
use crate::timestamp::Timestamp;
use vstd::prelude::*;

verus! {

pub const DEFAULT_THUMBNAIL_CACHE_DIR: &'static str = "stax-thumbnails";

pub const DEFAULT_WORKERS: usize = 2;

/// How thumbnails are made. Without a cache directory none is.
#[derive(Debug)]
pub struct ThumbnailConfig {
    pub cache_dir: Option<String>,
    pub ffmpeg_command: Option<String>,
    pub hw_accel: FfmpegHardwareAcceleration,
    pub max_concurrent: usize,
}

/// The directory that thumbnails are kept in by default.
pub fn default_thumbnail_cache_dir() -> (r: String)
    ensures
        r@ == DEFAULT_THUMBNAIL_CACHE_DIR@,
{
    DEFAULT_THUMBNAIL_CACHE_DIR.to_owned()
}

/// The ffmpeg command by default.
pub fn default_ffmpeg_command() -> (r: Option<String>)
    ensures
        opt_text(r) == Some("ffmpeg"@),
{
    Some("ffmpeg".to_owned())
}

/// The thumbnail directory that a setting names.
pub fn thumbnail_cache_dir_from_env(setting: Option<&str>) -> (r: Option<String>)
    ensures
        opt_text(r) == setting_or(opt_str(setting), DEFAULT_THUMBNAIL_CACHE_DIR@),
{
    chosen_setting(setting, DEFAULT_THUMBNAIL_CACHE_DIR)
}

/// The ffmpeg command that a setting names.
pub fn ffmpeg_command_from_env(setting: Option<&str>) -> (r: Option<String>)
    ensures
        opt_text(r) == setting_or(opt_str(setting), "ffmpeg"@),
{
    chosen_setting(setting, "ffmpeg")
}

impl Default for ThumbnailConfig {
    fn default() -> (r: ThumbnailConfig)
        ensures
            opt_text(r.cache_dir) == Some(DEFAULT_THUMBNAIL_CACHE_DIR@),
            opt_text(r.ffmpeg_command) == Some("ffmpeg"@),
            r.hw_accel is Software,
            r.max_concurrent == DEFAULT_WORKERS,
    {
        ThumbnailConfig {
            cache_dir: Some(default_thumbnail_cache_dir()),
            ffmpeg_command: default_ffmpeg_command(),
            hw_accel: FfmpegHardwareAcceleration::Software,
            max_concurrent: DEFAULT_WORKERS,
        }
    }
}

impl ThumbnailConfig {
    /// Takes the number of workers from a setting, where that is a positive
    /// number.
    pub fn with_env_overrides(self, workers_setting: Option<&str>) -> (r: ThumbnailConfig)
        ensures
            r == (ThumbnailConfig {
                max_concurrent: workers_of(opt_str(workers_setting), self.max_concurrent),
                ..self
            }),
    {
        let mut config: ThumbnailConfig = self;
        config.max_concurrent = chosen_workers(workers_setting, config.max_concurrent);
        config
    }

    /// How many thumbnails are made at a time: at least one.
    pub fn permits(&self) -> (r: usize)
        ensures
            r == (if self.max_concurrent > 1 {
                self.max_concurrent
            } else {
                1
            }),
    {
        if self.max_concurrent > 1 {
            self.max_concurrent
        } else {
            1
        }
    }
}

/// A thumbnail to be made.
#[derive(Debug, PartialEq, Eq)]
pub struct ThumbnailJob {
    pub media_id: u128,
    pub media_path: String,
    pub video_codec: Option<String>,
    pub duration_millis: Option<i64>,
}

impl ThumbnailJob {
    pub fn from_pending(pending: PendingThumbnail) -> (r: ThumbnailJob)
        ensures
            r.media_id == pending.media_id,
            r.media_path@ == joined_path(pending.root_path@, pending.relative_path@),
            r.video_codec == pending.video_codec,
            r.duration_millis == pending.duration_millis,
    {
        ThumbnailJob {
            media_id: pending.media_id,
            media_path: join_path(pending.root_path.as_str(), pending.relative_path.as_str()),
            video_codec: pending.video_codec,
            duration_millis: pending.duration_millis,
        }
    }
}

/// The file of a media item's thumbnail.
pub open spec fn thumbnail_path(cache_dir: Seq<char>, media_id: u128) -> Seq<char> {
    joined_path(cache_dir, hyphenated(media_id) + ".jpg"@)
}

/// The file of a media item's thumbnail.
pub fn thumbnail_path_for(cache_dir: &str, media_id: u128) -> (r: String)
    ensures
        r@ == thumbnail_path(cache_dir@, media_id),
{
    let name: String = concat2(id_text(media_id).as_str(), ".jpg");
    join_path(cache_dir, name.as_str())
}

/// What is known of a thumbnail file.
#[derive(Debug, Clone, Copy, PartialEq, Eq, Structural)]
pub struct ThumbnailFile {
    pub is_file: bool,
    pub len: u64,
    pub modified: Option<Timestamp>,
}

/// Whether a cached thumbnail stands for the media file: it is a file, holds
/// something, and is at least as new.
pub open spec fn is_fresh(file: Option<ThumbnailFile>, media_modified: Option<Timestamp>) -> bool {
    match (file, media_modified) {
        (Some(found), Some(media)) => found.is_file && found.len > 0 && (found.modified matches Some(
            thumbnail,
        ) && thumbnail.unix() >= media.unix()),
        _ => false,
    }
}

/// Whether a cached thumbnail stands for the media file.
pub fn thumbnail_is_up_to_date(
    thumbnail: Option<ThumbnailFile>,
    media_modified_at: Option<Timestamp>,
) -> (r: bool)
    ensures
        r == is_fresh(thumbnail, media_modified_at),
{
    match (thumbnail, media_modified_at) {
        (Some(file), Some(media)) => {
            if !file.is_file || file.len == 0 {
                return false;
            }
            match file.modified {
                Some(time) => time.is_not_before(&media),
                None => false,
            }
        },
        _ => false,
    }
}

/// A number of milliseconds in seconds with three decimals.
pub open spec fn seconds_text(millis: nat) -> Seq<char> {
    decimal(millis / 1000) + "."@ + three_digits(millis % 1000)
}

/// A number below a thousand with three digits.
pub open spec fn three_digits(n: nat) -> Seq<char> {
    seq![
        crate::text::digit_char(n / 100),
        crate::text::digit_char(n / 10 % 10),
        crate::text::digit_char(n % 10),
    ]
}

/// A number of milliseconds in seconds with three decimals.
pub fn format_millis(millis: u128) -> (r: String)
    ensures
        r@ == seconds_text(millis as nat),
{
    let rest: u128 = millis % 1000;
    let mut r: String = wide_decimal_text(millis / 1000);
    r.append(".");
    let ghost head = r@;
    r.push((48u8 + (rest / 100) as u8) as char);
    r.push((48u8 + (rest / 10 % 10) as u8) as char);
    r.push((48u8 + (rest % 10) as u8) as char);
    assert(r@ =~= head + three_digits(rest as nat));
    r
}

/// How far into a file the frame is taken: a fifth of its duration, to the
/// millisecond, so that episodes do not all show their opening.
pub open spec fn seek_millis(duration_millis: Option<i64>) -> int {
    match duration_millis {
        Some(duration) => if duration > 0 {
            (duration + 2) / 5
        } else {
            0
        },
        None => 0,
    }
}

/// How far into a file the frame is taken, in milliseconds.
pub fn thumbnail_seek_millis(duration_millis: Option<i64>) -> (r: u64)
    ensures
        r == seek_millis(duration_millis),
        duration_millis matches Some(duration) ==> duration > 0 ==> -2 <= 5 * r - duration <= 2,
{
    match duration_millis {
        Some(duration) => {
            if duration > 0 {
                (duration as u64 + 2) / 5
            } else {
                0
            }
        },
        None => 0,
    }
}

/// What a thumbnail was made from.
#[derive(Debug, Clone, Copy, PartialEq, Eq, Structural)]
pub enum ThumbnailSource {
    Cached,
    Sidecar,
    AttachedPic,
    Frame,
}

impl ThumbnailSource {
    /// The name of the source.
    pub open spec fn name(self) -> Seq<char> {
        match self {
            ThumbnailSource::Cached => "cached"@,
            ThumbnailSource::Sidecar => "sidecar"@,
            ThumbnailSource::AttachedPic => "attached_pic"@,
            ThumbnailSource::Frame => "frame"@,
        }
    }

    pub fn as_str(self) -> (r: &'static str)
        ensures
            r@ == self.name(),
    {
        match self {
            ThumbnailSource::Cached => "cached",
            ThumbnailSource::Sidecar => "sidecar",
            ThumbnailSource::AttachedPic => "attached_pic",
            ThumbnailSource::Frame => "frame",
        }
    }
}

/// What came of making a thumbnail.
#[derive(Debug, PartialEq, Eq)]
pub enum ThumbnailOutcome {
    Generated { source: ThumbnailSource },
    Skipped,
    Failed { message: String },
}

/// The columns that an outcome leaves: when the thumbnail was generated, and
/// the error.
pub open spec fn thumbnail_columns(outcome: ThumbnailOutcome, now: Seq<char>) -> (
    Option<Seq<char>>,
    Option<Seq<char>>,
) {
    match outcome {
        ThumbnailOutcome::Generated { source } => (Some(now), None),
        ThumbnailOutcome::Skipped => (
            None,
            Some("no thumbnail source available (no sidecar art, no video stream)"@),
        ),
        ThumbnailOutcome::Failed { message } => (None, Some(message@)),
    }
}

/// The columns that an outcome leaves. Either of them is set, so that the job
/// is not pending any more.
pub fn process_job(outcome: &ThumbnailOutcome, now: &str) -> (r: (Option<String>, Option<String>))
    ensures
        (opt_text(r.0), opt_text(r.1)) == thumbnail_columns(*outcome, now@),
        r.0 is Some <==> r.1 is None,
{
    match outcome {
        ThumbnailOutcome::Generated { source } => (Some(now.to_owned()), None),
        ThumbnailOutcome::Skipped => (
            None,
            Some(
                "no thumbnail source available (no sidecar art, no video stream)".to_owned(),
            ),
        ),
        ThumbnailOutcome::Failed { message } => (None, Some(message.clone())),
    }
}

/// The image extensions of art beside a media file, best first.
pub open spec fn art_extensions() -> Seq<Seq<char>> {
    seq!["jpg"@, "jpeg"@, "png"@, "webp"@]
}

/// The names of art for a whole directory, best first.
pub open spec fn art_names() -> Seq<Seq<char>> {
    seq!["poster"@, "cover"@, "folder"@]
}

/// The names of art for a file with the given stem, best first.
pub open spec fn file_art(stem: Seq<char>) -> Seq<Seq<char>> {
    let ext = art_extensions();
    seq![
        stem + "-poster"@ + "."@ + ext[0],
        stem + ""@ + "."@ + ext[0],
        stem + "-poster"@ + "."@ + ext[1],
        stem + ""@ + "."@ + ext[1],
        stem + "-poster"@ + "."@ + ext[2],
        stem + ""@ + "."@ + ext[2],
        stem + "-poster"@ + "."@ + ext[3],
        stem + ""@ + "."@ + ext[3],
    ]
}

/// The names of art for a directory, best first: every extension of a name
/// before the next name.
pub open spec fn folder_art() -> Seq<Seq<char>> {
    Seq::new(12, |i: int| art_names()[i / 4] + "."@ + art_extensions()[i % 4])
}

/// Names as files of a directory.
pub open spec fn in_directory(directory: Seq<char>, names: Seq<Seq<char>>) -> Seq<Seq<char>> {
    names.map_values(|name: Seq<char>| joined_path(directory, name))
}

/// The files that may hold art for a media file, best first: art for the file,
/// then art for its directory. Directories above are not looked at, so that a
/// series does not show one poster for every episode.
pub open spec fn art_candidates(media_path: Seq<char>) -> Seq<Seq<char>> {
    match (parent_of(media_path), file_name_of(media_path)) {
        (Some(directory), Some(name)) => in_directory(
            directory,
            file_art(stem_of(name)) + folder_art(),
        ),
        _ => seq![],
    }
}

fn push_candidate(
    list: &mut Vec<String>,
    directory: &str,
    base: &str,
    suffix: &str,
    extension: &str,
)
    ensures
        texts(final(list)@) == texts(old(list)@).push(
            joined_path(directory@, base@ + suffix@ + "."@ + extension@),
        ),
{
    let name: String = concat3(base, suffix, ".").concat(extension);
    let path: String = join_path(directory, name.as_str());
    push_text(list, path.as_str());
}

fn push_folder_candidate(list: &mut Vec<String>, directory: &str, base: &str, extension: &str)
    ensures
        texts(final(list)@) == texts(old(list)@).push(
            joined_path(directory@, base@ + "."@ + extension@),
        ),
{
    let name: String = concat3(base, ".", extension);
    let path: String = join_path(directory, name.as_str());
    push_text(list, path.as_str());
}

/// The files that may hold art for a media file, best first. The art is the
/// first of them that is a file.
pub fn find_sidecar_art(media_path: &str) -> (r: Vec<String>)
    ensures
        texts(r@) == art_candidates(media_path@),
{
    let mut list: Vec<String> = Vec::new();
    assert(texts(list@) =~= seq![]);
    let directory: &str = match parent(media_path) {
        Some(directory) => directory,
        None => {
            return list;
        },
    };
    let name: &str = match file_name(media_path) {
        Some(name) => name,
        None => {
            return list;
        },
    };
    let stem: &str = file_stem(name);
    push_candidate(&mut list, directory, stem, "-poster", "jpg");
    push_candidate(&mut list, directory, stem, "", "jpg");
    push_candidate(&mut list, directory, stem, "-poster", "jpeg");
    push_candidate(&mut list, directory, stem, "", "jpeg");
    push_candidate(&mut list, directory, stem, "-poster", "png");
    push_candidate(&mut list, directory, stem, "", "png");
    push_candidate(&mut list, directory, stem, "-poster", "webp");
    push_candidate(&mut list, directory, stem, "", "webp");
    assert(texts(list@) =~= in_directory(directory@, file_art(stem@)));
    push_folder_candidate(&mut list, directory, "poster", "jpg");
    push_folder_candidate(&mut list, directory, "poster", "jpeg");
    push_folder_candidate(&mut list, directory, "poster", "png");
    push_folder_candidate(&mut list, directory, "poster", "webp");
    push_folder_candidate(&mut list, directory, "cover", "jpg");
    push_folder_candidate(&mut list, directory, "cover", "jpeg");
    push_folder_candidate(&mut list, directory, "cover", "png");
    push_folder_candidate(&mut list, directory, "cover", "webp");
    push_folder_candidate(&mut list, directory, "folder", "jpg");
    push_folder_candidate(&mut list, directory, "folder", "jpeg");
    push_folder_candidate(&mut list, directory, "folder", "png");
    push_folder_candidate(&mut list, directory, "folder", "webp");
    assert(texts(list@) =~= in_directory(directory@, file_art(stem@) + folder_art()));
    list
}

/// The arguments that every thumbnail run begins with.
pub open spec fn quiet_args() -> Seq<Seq<char>> {
    seq!["-y"@, "-loglevel"@, "error"@]
}

/// The arguments that write one frame.
pub open spec fn one_frame_args(filter: Seq<char>, output: Seq<char>) -> Seq<Seq<char>> {
    seq!["-vf"@, filter, "-frames:v"@, "1"@, "-q:v"@, "4"@, output]
}

/// The arguments of the run that scales an image.
pub open spec fn image_args(source: Seq<char>, output: Seq<char>) -> Seq<Seq<char>> {
    quiet_args() + seq!["-i"@, source] + one_frame_args("scale=480:-2"@, output)
}

/// The arguments of the run that takes embedded cover art.
pub open spec fn attached_pic_args(media_path: Seq<char>, output: Seq<char>) -> Seq<Seq<char>> {
    quiet_args() + seq!["-i"@, media_path] + seq!["-map"@, "0:v:disp:attached_pic"@]
        + one_frame_args("scale=480:-2"@, output)
}

/// The arguments of the run that picks a representative frame.
pub open spec fn frame_args(
    media_path: Seq<char>,
    output: Seq<char>,
    duration_millis: Option<i64>,
    hw_accel: FfmpegHardwareAcceleration,
) -> Seq<Seq<char>> {
    quiet_args() + hw_accel.input_args() + seq![
        "-ss"@,
        seconds_text(seek_millis(duration_millis) as nat),
    ] + seq!["-i"@, media_path] + one_frame_args("thumbnail=100,scale=480:-2"@, output)
}

fn push_quiet(args: &mut Vec<String>)
    ensures
        texts(final(args)@) == texts(old(args)@) + quiet_args(),
{
    push_two(args, "-y", "-loglevel");
    push_text(args, "error");
    assert(texts(args@) =~= texts(old(args)@) + quiet_args());
}

fn push_one_frame(args: &mut Vec<String>, filter: &str, output: &str)
    ensures
        texts(final(args)@) == texts(old(args)@) + one_frame_args(filter@, output@),
{
    push_two(args, "-vf", filter);
    push_two(args, "-frames:v", "1");
    push_two(args, "-q:v", "4");
    push_text(args, output);
    assert(texts(args@) =~= texts(old(args)@) + one_frame_args(filter@, output@));
}

/// The arguments of the run that scales an image.
pub fn render_from_image(source: &str, output: &str) -> (r: Vec<String>)
    ensures
        texts(r@) == image_args(source@, output@),
{
    let mut args: Vec<String> = Vec::new();
    push_quiet(&mut args);
    push_two(&mut args, "-i", source);
    push_one_frame(&mut args, "scale=480:-2", output);
    assert(texts(args@) =~= image_args(source@, output@));
    args
}

/// The arguments of the run that takes embedded cover art.
pub fn render_from_attached_pic(media_path: &str, output: &str) -> (r: Vec<String>)
    ensures
        texts(r@) == attached_pic_args(media_path@, output@),
{
    let mut args: Vec<String> = Vec::new();
    push_quiet(&mut args);
    push_two(&mut args, "-i", media_path);
    push_two(&mut args, "-map", "0:v:disp:attached_pic");
    push_one_frame(&mut args, "scale=480:-2", output);
    assert(texts(args@) =~= attached_pic_args(media_path@, output@));
    args
}

/// The arguments of the run that picks a representative frame.
pub fn render_from_frame(
    media_path: &str,
    output: &str,
    duration_millis: Option<i64>,
    hw_accel: &FfmpegHardwareAcceleration,
) -> (r: Vec<String>)
    ensures
        texts(r@) == frame_args(media_path@, output@, duration_millis, *hw_accel),
{
    let seek: String = format_millis(thumbnail_seek_millis(duration_millis) as u128);
    let mut args: Vec<String> = Vec::new();
    push_quiet(&mut args);
    apply_input_acceleration(&mut args, hw_accel);
    push_two(&mut args, "-ss", seek.as_str());
    push_two(&mut args, "-i", media_path);
    push_one_frame(&mut args, "thumbnail=100,scale=480:-2", output);
    assert(texts(args@) =~= frame_args(media_path@, output@, duration_millis, *hw_accel));
    args
}

/// How a thumbnail run ended; `status` is its exit status as text.
#[derive(Debug)]
pub enum RenderExit {
    NotStarted { error: String },
    Succeeded { has_output: bool },
    Failed { status: String, stderr: Vec<u8> },
}

/// The message for a thumbnail run that failed.
pub open spec fn render_failure(status: Seq<char>, stderr: Seq<char>) -> Seq<char> {
    if trimmed(stderr).len() == 0 {
        "ffmpeg exited with status "@ + status
    } else {
        "ffmpeg failed: "@ + trimmed(stderr)
    }
}

/// The message for a thumbnail run that failed, from the text of its error
/// output.
pub fn render_failure_text(status: &str, stderr: &str) -> (r: String)
    ensures
        r@ == render_failure(status@, stderr@),
{
    let message: &str = trim(stderr);
    if message.is_empty() {
        concat2("ffmpeg exited with status ", status)
    } else {
        concat2("ffmpeg failed: ", message)
    }
}

/// The failure that the end of a thumbnail run means, if it is one.
pub open spec fn render_error(exit: RenderExit) -> Option<Seq<char>> {
    match exit {
        RenderExit::NotStarted { error } => Some("ffmpeg could not start: "@ + error@),
        RenderExit::Succeeded { has_output } => if has_output {
            None
        } else {
            Some("ffmpeg reported success but no thumbnail file was produced"@)
        },
        RenderExit::Failed { status, stderr } => Some(
            render_failure(status@, lossy_text(stderr@)),
        ),
    }
}

/// The failure that the end of a thumbnail run means, if it is one.
pub fn classify_ffmpeg_result(exit: &RenderExit) -> (r: Option<String>)
    ensures
        opt_text(r) == render_error(*exit),
{
    match exit {
        RenderExit::NotStarted { error } => Some(
            concat2("ffmpeg could not start: ", error.as_str()),
        ),
        RenderExit::Succeeded { has_output } => {
            if *has_output {
                None
            } else {
                Some("ffmpeg reported success but no thumbnail file was produced".to_owned())
            }
        },
        RenderExit::Failed { status, stderr } => {
            let text: String = text_from_bytes(stderr.as_slice());
            Some(render_failure_text(status.as_str(), text.as_str()))
        },
    }
}

/// Whether an error says that a file has no embedded cover art.
pub fn is_missing_attached_pic_error(error: &str) -> (r: bool)
    ensures
        r == has_text(error@, "matches no streams"@),
{
    contains_text(error, "matches no streams")
}

/// What happened in the making of a thumbnail.
#[derive(Debug)]
pub enum RenderEvent {
    /// The job was taken.
    Taken,
    /// The cached thumbnail was looked at.
    FreshnessChecked { fresh: bool },
    /// The cache directory exists.
    DirectoryReady,
    DirectoryFailed { error: String },
    /// The files that may hold art were looked for.
    ArtSearched { art: Option<String> },
    ArtRendered { exit: RenderExit },
    CoverRendered { exit: RenderExit },
    FrameRendered { exit: RenderExit },
}

/// What is to be done next in the making of a thumbnail.
#[derive(Debug, PartialEq, Eq)]
pub enum RenderAction {
    CheckFreshness { output: String },
    CreateDirectory { path: String },
    SearchArt { candidates: Vec<String> },
    RenderArt { args: Vec<String> },
    RenderCover { args: Vec<String> },
    RenderFrame { args: Vec<String> },
    Finish { outcome: ThumbnailOutcome },
}

/// Whether an action ends the job with a thumbnail from the given source.
pub open spec fn finishes_with(action: RenderAction, from: ThumbnailSource) -> bool {
    action == (RenderAction::Finish { outcome: ThumbnailOutcome::Generated { source: from } })
}

/// Whether an action ends the job without a thumbnail.
pub open spec fn gives_up(action: RenderAction) -> bool {
    action == (RenderAction::Finish { outcome: ThumbnailOutcome::Skipped })
}

/// Whether an action ends the job with the given failure.
pub open spec fn fails_with(action: RenderAction, text: Seq<char>) -> bool {
    action matches RenderAction::Finish { outcome: ThumbnailOutcome::Failed { message } }
        && message@ == text
}

/// Whether an action tries embedded cover art, or gives up without ffmpeg.
pub open spec fn tries_cover(
    action: RenderAction,
    job: ThumbnailJob,
    output: Seq<char>,
    has_ffmpeg: bool,
) -> bool {
    if has_ffmpeg {
        action matches RenderAction::RenderCover { args } && texts(args@) == attached_pic_args(
            job.media_path@,
            output,
        )
    } else {
        gives_up(action)
    }
}

/// Whether `action` is what follows `event`. Art beside the file comes before
/// embedded cover art, and that before a frame of the video.
pub open spec fn is_next_render_action(
    event: RenderEvent,
    action: RenderAction,
    job: ThumbnailJob,
    config: ThumbnailConfig,
) -> bool {
    match config.cache_dir {
        None => gives_up(action),
        Some(cache_dir) => {
            let output = thumbnail_path(cache_dir@, job.media_id);
            let has_ffmpeg = config.ffmpeg_command is Some;
            match event {
                RenderEvent::Taken => action matches RenderAction::CheckFreshness { output: path }
                    && path@ == output,
                RenderEvent::FreshnessChecked { fresh } => if fresh {
                    finishes_with(action, ThumbnailSource::Cached)
                } else {
                    action matches RenderAction::CreateDirectory { path } && path@ == cache_dir@
                },
                RenderEvent::DirectoryFailed { error } => fails_with(
                    action,
                    "could not create thumbnail directory '"@ + cache_dir@ + "': "@ + error@,
                ),
                RenderEvent::DirectoryReady => action matches RenderAction::SearchArt { candidates }
                    && texts(candidates@) == art_candidates(job.media_path@),
                RenderEvent::ArtSearched { art } => match art {
                    Some(path) if has_ffmpeg => action matches RenderAction::RenderArt { args }
                        && texts(args@) == image_args(path@, output),
                    _ => tries_cover(action, job, output, has_ffmpeg),
                },
                RenderEvent::ArtRendered { exit } => if render_error(exit) is None {
                    finishes_with(action, ThumbnailSource::Sidecar)
                } else {
                    tries_cover(action, job, output, has_ffmpeg)
                },
                RenderEvent::CoverRendered { exit } => if render_error(exit) is None {
                    finishes_with(action, ThumbnailSource::AttachedPic)
                } else if job.video_codec is None {
                    gives_up(action)
                } else {
                    action matches RenderAction::RenderFrame { args } && texts(args@) == frame_args(
                        job.media_path@,
                        output,
                        job.duration_millis,
                        config.hw_accel,
                    )
                },
                RenderEvent::FrameRendered { exit } => match render_error(exit) {
                    None => finishes_with(action, ThumbnailSource::Frame),
                    Some(message) => fails_with(action, message),
                },
            }
        },
    }
}

fn try_cover(job: &ThumbnailJob, output: &str, has_ffmpeg: bool) -> (r: RenderAction)
    ensures
        tries_cover(r, *job, output@, has_ffmpeg),
{
    if has_ffmpeg {
        RenderAction::RenderCover {
            args: render_from_attached_pic(job.media_path.as_str(), output),
        }
    } else {
        RenderAction::Finish { outcome: ThumbnailOutcome::Skipped }
    }
}

/// What is to be done after `event` in the making of a thumbnail.
pub fn generate(job: &ThumbnailJob, config: &ThumbnailConfig, event: RenderEvent) -> (r: RenderAction)
    ensures
        is_next_render_action(event, r, *job, *config),
{
    let cache_dir: &String = match &config.cache_dir {
        Some(cache_dir) => cache_dir,
        None => {
            return RenderAction::Finish { outcome: ThumbnailOutcome::Skipped };
        },
    };
    let output: String = thumbnail_path_for(cache_dir.as_str(), job.media_id);
    let has_ffmpeg: bool = config.ffmpeg_command.is_some();
    match event {
        RenderEvent::Taken => RenderAction::CheckFreshness { output },
        RenderEvent::FreshnessChecked { fresh } => {
            if fresh {
                RenderAction::Finish {
                    outcome: ThumbnailOutcome::Generated { source: ThumbnailSource::Cached },
                }
            } else {
                RenderAction::CreateDirectory { path: cache_dir.clone() }
            }
        },
        RenderEvent::DirectoryFailed { error } => RenderAction::Finish {
            outcome: ThumbnailOutcome::Failed {
                message: concat3(
                    "could not create thumbnail directory '",
                    cache_dir.as_str(),
                    "': ",
                ).concat(error.as_str()),
            },
        },
        RenderEvent::DirectoryReady => RenderAction::SearchArt {
            candidates: find_sidecar_art(job.media_path.as_str()),
        },
        RenderEvent::ArtSearched { art } => match art {
            Some(path) => {
                if has_ffmpeg {
                    RenderAction::RenderArt {
                        args: render_from_image(path.as_str(), output.as_str()),
                    }
                } else {
                    try_cover(job, output.as_str(), has_ffmpeg)
                }
            },
            None => try_cover(job, output.as_str(), has_ffmpeg),
        },
        RenderEvent::ArtRendered { exit } => match classify_ffmpeg_result(&exit) {
            None => RenderAction::Finish {
                outcome: ThumbnailOutcome::Generated { source: ThumbnailSource::Sidecar },
            },
            Some(_) => try_cover(job, output.as_str(), has_ffmpeg),
        },
        RenderEvent::CoverRendered { exit } => match classify_ffmpeg_result(&exit) {
            None => RenderAction::Finish {
                outcome: ThumbnailOutcome::Generated { source: ThumbnailSource::AttachedPic },
            },
            Some(_) => {
                if job.video_codec.is_none() {
                    RenderAction::Finish { outcome: ThumbnailOutcome::Skipped }
                } else {
                    RenderAction::RenderFrame {
                        args: render_from_frame(
                            job.media_path.as_str(),
                            output.as_str(),
                            job.duration_millis,
                            &config.hw_accel,
                        ),
                    }
                }
            },
        },
        RenderEvent::FrameRendered { exit } => match classify_ffmpeg_result(&exit) {
            None => RenderAction::Finish {
                outcome: ThumbnailOutcome::Generated { source: ThumbnailSource::Frame },
            },
            Some(message) => RenderAction::Finish {
                outcome: ThumbnailOutcome::Failed { message },
            },
        },
    }
}

/// Without a video stream no frame is ever extracted.
pub proof fn law_audio_files_get_no_frame(
    event: RenderEvent,
    action: RenderAction,
    job: ThumbnailJob,
    config: ThumbnailConfig,
)
    requires
        job.video_codec is None,
        is_next_render_action(event, action, job, config),
    ensures
        !(action is RenderFrame),
{
}

/// How far a job is when an event comes.
pub open spec fn render_stage(event: RenderEvent) -> nat {
    match event {
        RenderEvent::Taken => 0,
        RenderEvent::FreshnessChecked { .. } => 1,
        RenderEvent::DirectoryReady | RenderEvent::DirectoryFailed { .. } => 2,
        RenderEvent::ArtSearched { .. } => 3,
        RenderEvent::ArtRendered { .. } => 4,
        RenderEvent::CoverRendered { .. } => 5,
        RenderEvent::FrameRendered { .. } => 6,
    }
}

/// Whether an event can come of an action.
pub open spec fn can_come_of(action: RenderAction, event: RenderEvent) -> bool {
    match action {
        RenderAction::CheckFreshness { .. } => event is FreshnessChecked,
        RenderAction::CreateDirectory { .. } => event is DirectoryReady
            || event is DirectoryFailed,
        RenderAction::SearchArt { .. } => event is ArtSearched,
        RenderAction::RenderArt { .. } => event is ArtRendered,
        RenderAction::RenderCover { .. } => event is CoverRendered,
        RenderAction::RenderFrame { .. } => event is FrameRendered,
        RenderAction::Finish { .. } => false,
    }
}

/// The sources of a thumbnail are tried in order, art first and a frame last,
/// each at most once.
pub proof fn law_sources_are_tried_in_order(
    event: RenderEvent,
    action: RenderAction,
    next: RenderEvent,
    job: ThumbnailJob,
    config: ThumbnailConfig,
)
    requires
        is_next_render_action(event, action, job, config),
        can_come_of(action, next),
    ensures
        render_stage(event) < render_stage(next) <= 6,
{
}

/// A cached thumbnail stands for its file only where it is a file with something in it
/// that is not older than the media file; and then it does.
pub proof fn law_older_or_empty_thumbnails_are_stale(file: ThumbnailFile, media: Timestamp)
    ensures
        is_fresh(Some(file), Some(media)) <==> file.is_file && file.len > 0 && file.modified is Some
            && file.modified->0.unix() >= media.unix(),
        !is_fresh(None, Some(media)),
        !is_fresh(Some(file), None),
{
}

/// Media items have different thumbnail files, each with the identifier of its item as
/// its name.
pub proof fn law_thumbnails_have_their_own_files(cache_dir: Seq<char>, a: u128, b: u128)
    requires
        thumbnail_path(cache_dir, a) == thumbnail_path(cache_dir, b),
    ensures
        a == b,
        (hyphenated(a) + ".jpg"@).is_suffix_of(thumbnail_path(cache_dir, a)),
{
    reveal_strlit(".jpg");
    reveal_strlit("/");
    let x = thumbnail_path(cache_dir, a);
    let n = x.len() as int;
    lemma_identifier_starts_no_path(a);
    lemma_identifier_starts_no_path(b);
    let name = hyphenated(a) + ".jpg"@;
    assert(name =~= x.subrange(n - 40, n));
    assert(hyphenated(a) =~= x.subrange(n - 40, n - 4));
    assert(hyphenated(b) =~= x.subrange(n - 40, n - 4));
    law_identifiers_are_written_apart(a, b);
}

proof fn lemma_identifier_starts_no_path(id: u128)
    ensures
        hyphenated(id).len() == 36,
        hyphenated(id)[0] != '/',
{
    let digit = (id as int / vstd::arithmetic::power::pow(16, 31)) % 16;
    assert(hyphenated(id)[0] == hex_char(digit));
    assert(0 <= digit < 16);
}

/// The frame is taken at a fifth of the duration, to the nearest millisecond, and at the
/// start where the duration is not known.
pub proof fn law_frames_are_taken_at_a_fifth(duration_millis: Option<i64>)
    ensures
        duration_millis is None || duration_millis->0 <= 0 ==> seek_millis(duration_millis) == 0,
        duration_millis is Some && duration_millis->0 > 0 ==> -2 <= 5 * seek_millis(duration_millis)
            - duration_millis->0 <= 2,
{
}

/// A time in milliseconds is written in seconds with three decimals, and nothing of it is
/// lost.
pub proof fn law_written_seconds_hold_the_milliseconds(millis: nat)
    ensures
        exists|whole: Seq<char>, part: Seq<char>|
            seconds_text(millis) == #[trigger] (whole + "."@ + part) && whole.len() > 0
                && all_digits(whole) && part.len() == 3 && all_digits(part) && numeral_value(whole)
                * 1000 + numeral_value(part) == millis,
{
    let whole = decimal(millis / 1000);
    let part = three_digits(millis % 1000);
    lemma_decimal(millis / 1000);
    reveal_with_fuel(numeral_value, 4);
    assert(part.drop_last() =~= seq![part[0], part[1]]);
    assert(part.drop_last().drop_last() =~= seq![part[0]]);
    assert(part.drop_last().drop_last().drop_last() =~= Seq::<char>::empty());
    assert(seconds_text(millis) == whole + "."@ + part);
}

/// A job that is done is not pending any more: it leaves either the time of its thumbnail
/// or an error, and never both.
pub proof fn law_outcomes_leave_one_column(outcome: ThumbnailOutcome, now: Seq<char>)
    ensures
        thumbnail_columns(outcome, now).0 is Some <==> outcome is Generated,
        thumbnail_columns(outcome, now).1 is Some <==> !(outcome is Generated),
        outcome is Generated ==> thumbnail_columns(outcome, now).0 == Some(now),
        outcome matches ThumbnailOutcome::Failed { message } ==> thumbnail_columns(outcome, now).1
            == Some(message@),
{
}

/// The art of a file lies in its directory. Art that is named after the file comes before
/// art for the whole directory, and a poster before any other image of the same format.
pub proof fn law_art_lies_beside_the_file(dir: Seq<char>, name: Seq<char>, i: int)
    requires
        is_plain_name(name),
        dir.len() > 0,
        path_trimmed(dir) == dir,
        0 <= i < art_candidates(joined_path(dir, name)).len(),
    ensures
        ({
            let list = art_candidates(joined_path(dir, name));
            &&& list.len() == 20
            &&& list[0] == joined_path(dir, stem_of(name) + "-poster.jpg"@)
            &&& list[1] == joined_path(dir, stem_of(name) + ".jpg"@)
            &&& list[2] == joined_path(dir, stem_of(name) + "-poster.jpeg"@)
            &&& list[3] == joined_path(dir, stem_of(name) + ".jpeg"@)
            &&& list[4] == joined_path(dir, stem_of(name) + "-poster.png"@)
            &&& list[5] == joined_path(dir, stem_of(name) + ".png"@)
            &&& list[6] == joined_path(dir, stem_of(name) + "-poster.webp"@)
            &&& list[7] == joined_path(dir, stem_of(name) + ".webp"@)
            &&& list[8] == joined_path(dir, "poster.jpg"@)
            &&& list[12] == joined_path(dir, "cover.jpg"@)
            &&& list[16] == joined_path(dir, "folder.jpg"@)
            &&& exists|file: Seq<char>|
                list[i] == #[trigger] joined_path(dir, file) && (i < 8 ==> stem_of(name).is_prefix_of(
                    file,
                ))
        }),
{
    law_name_and_parent_undo_joining(dir, name);
    let list = art_candidates(joined_path(dir, name));
    let names = file_art(stem_of(name)) + folder_art();
    assert(list[i] == joined_path(dir, names[i]));
    reveal_strlit("-poster");
    reveal_strlit("-poster.jpg");
    reveal_strlit("");
    reveal_strlit(".");
    reveal_strlit("jpg");
    reveal_strlit(".jpg");
    reveal_strlit("jpeg");
    reveal_strlit("png");
    reveal_strlit("webp");
    reveal_strlit(".jpeg");
    reveal_strlit(".png");
    reveal_strlit(".webp");
    reveal_strlit("-poster.jpeg");
    reveal_strlit("-poster.png");
    reveal_strlit("-poster.webp");
    reveal_strlit("poster");
    reveal_strlit("cover");
    reveal_strlit("folder");
    reveal_strlit("poster.jpg");
    reveal_strlit("cover.jpg");
    reveal_strlit("folder.jpg");
    let stem = stem_of(name);
    assert(names[0] =~= stem + "-poster.jpg"@);
    assert(names[1] =~= stem + ".jpg"@);
    assert(names[2] =~= stem + "-poster.jpeg"@);
    assert(names[3] =~= stem + ".jpeg"@);
    assert(names[4] =~= stem + "-poster.png"@);
    assert(names[5] =~= stem + ".png"@);
    assert(names[6] =~= stem + "-poster.webp"@);
    assert(names[7] =~= stem + ".webp"@);
    assert(names[8] == folder_art()[0]);
    assert(names[12] == folder_art()[4]);
    assert(names[16] == folder_art()[8]);
    assert(names[8] =~= "poster.jpg"@);
    assert(names[12] =~= "cover.jpg"@);
    assert(names[16] =~= "folder.jpg"@);
    if i < 8 {
        assert(names[i] == file_art(stem)[i]);
        assert(stem =~= names[i].subrange(0, stem.len() as int));
    }
}

/// Every run makes one image: it reads the source, scales it to the width of thumbnails
/// and writes a single frame to the output.
pub proof fn law_runs_write_one_frame(
    source: Seq<char>,
    output: Seq<char>,
    duration_millis: Option<i64>,
    hw_accel: FfmpegHardwareAcceleration,
)
    ensures
        is_one_frame_run(image_args(source, output), source, output),
        is_one_frame_run(attached_pic_args(source, output), source, output),
        is_one_frame_run(
            frame_args(source, output, duration_millis, hw_accel),
            source,
            output,
        ),
        exists|q: int|
            0 <= q < attached_pic_args(source, output).len() - 1 && #[trigger] attached_pic_args(
                source,
                output,
            )[q] == "-map"@ && attached_pic_args(source, output)[q + 1]
                == "0:v:disp:attached_pic"@,
        ({
            let args = frame_args(source, output, duration_millis, hw_accel);
            let n = args.len() as int;
            &&& args[n - 11] == "-ss"@
            &&& args[n - 10] == seconds_text(seek_millis(duration_millis) as nat)
            &&& args[n - 9] == "-i"@
        }),
{
    reveal_strlit("scale=480:-2");
    reveal_strlit("thumbnail=100,scale=480:-2");
    let scale = "scale=480:-2"@;
    let pick = "thumbnail=100,scale=480:-2"@;
    assert(scale =~= pick.subrange(pick.len() - scale.len(), pick.len() as int));
    assert(scale =~= scale.subrange(0, scale.len() as int));
    let a = image_args(source, output);
    assert(a[3] == "-i"@ && a[4] == source);
    let b = attached_pic_args(source, output);
    assert(b[3] == "-i"@ && b[4] == source);
    assert(b[5] == "-map"@);
    let c = frame_args(source, output, duration_millis, hw_accel);
    let n = c.len() as int;
    assert(c[n - 9] == "-i"@ && c[n - 8] == source);
}

/// Whether a run of ffmpeg reads `source`, scales it to the width of thumbnails and
/// writes a single frame to `output`.
pub open spec fn is_one_frame_run(
    args: Seq<Seq<char>>,
    source: Seq<char>,
    output: Seq<char>,
) -> bool {
    let n = args.len() as int;
    &&& n >= 9
    &&& args[n - 1] == output
    &&& args[n - 7] == "-vf"@ && "scale=480:-2"@.is_suffix_of(args[n - 6])
    &&& args[n - 5] == "-frames:v"@ && args[n - 4] == "1"@
    &&& exists|q: int| 0 <= q < n - 1 && #[trigger] args[q] == "-i"@ && args[q + 1] == source
}

/// A run made a thumbnail exactly where it succeeded and wrote a file.
pub proof fn law_runs_succeed_with_an_output(exit: RenderExit)
    ensures
        render_error(exit) is None <==> (exit matches RenderExit::Succeeded { has_output }
            && has_output),
{
}

/// A thumbnail is reported from the source that made it, only once that source did: the
/// cache where it was fresh, art, a cover or a frame where their run made a file. With a
/// fresh one nothing is made, and every run writes to the item's own thumbnail file.
pub proof fn law_thumbnails_come_from_what_was_made(
    event: RenderEvent,
    action: RenderAction,
    job: ThumbnailJob,
    config: ThumbnailConfig,
    source: ThumbnailSource,
)
    requires
        is_next_render_action(event, action, job, config),
        config.cache_dir is Some,
    ensures
        action == (RenderAction::Finish { outcome: ThumbnailOutcome::Generated { source } }) <==> (
        match source {
            ThumbnailSource::Cached => event matches RenderEvent::FreshnessChecked { fresh }
                && fresh,
            ThumbnailSource::Sidecar => event matches RenderEvent::ArtRendered { exit }
                && render_error(exit) is None,
            ThumbnailSource::AttachedPic => event matches RenderEvent::CoverRendered { exit }
                && render_error(exit) is None,
            ThumbnailSource::Frame => event matches RenderEvent::FrameRendered { exit }
                && render_error(exit) is None,
        }),
        action matches RenderAction::RenderArt { args } ==> texts(args@).last() == thumbnail_path(
            config.cache_dir->0@,
            job.media_id,
        ),
        action matches RenderAction::RenderCover { args } ==> texts(args@).last() == thumbnail_path(
            config.cache_dir->0@,
            job.media_id,
        ),
        action matches RenderAction::RenderFrame { args } ==> texts(args@).last() == thumbnail_path(
            config.cache_dir->0@,
            job.media_id,
        ),
        event matches RenderEvent::FrameRendered { exit } ==> (render_error(exit) is Some ==> (
        action matches RenderAction::Finish { outcome } && outcome is Failed)),
        event matches RenderEvent::CoverRendered { exit } ==> (render_error(exit) is Some
            && job.video_codec is Some ==> action is RenderFrame),
        event matches RenderEvent::ArtSearched { art } ==> (config.ffmpeg_command is Some ==> (
        art is Some ==> action is RenderArt) && (art is None ==> action is RenderCover)),
{
}

/// Without a directory for thumbnails, and without ffmpeg, nothing is run.
pub proof fn law_nothing_is_run_without_ffmpeg(
    event: RenderEvent,
    action: RenderAction,
    job: ThumbnailJob,
    config: ThumbnailConfig,
)
    requires
        is_next_render_action(event, action, job, config),
        config.cache_dir is None || config.ffmpeg_command is None,
    ensures
        !(action is RenderArt) && !(action is RenderCover),
        config.cache_dir is None ==> action == (RenderAction::Finish {
            outcome: ThumbnailOutcome::Skipped,
        }),
{
}

} // verus!
