//! What ffprobe reports of a file, and what becomes of it.
use crate::clock::{law_rounding_is_nearest, rounded};
use crate::library::playback::{
    classify_playback_mode, playback_mode, VideoFacts, VideoPlaybackInfo,
};
use crate::persistence::records::ProbeOutcome;
use crate::protocol::{AudioStream, PlaybackMode, SubtitleStream};
use crate::search::{first_index, lemma_first_index, lemma_first_is_unique};
use crate::streaming::{lossy_text, text_from_bytes};
use crate::text::{
    as_opt_str, concat2, copy_opt, decimal, is_digit, lemma_decimal, lower, opt_str, opt_text,
    parse_number, parsed_number, push_text, push_two, same_text, texts, to_lower, trim, trimmed,
};
use vstd::prelude::*;

verus! {

/// A JSON value that may stand for a small number: a number, with its value
/// where that is a whole number from zero on; a text; or anything else.
#[derive(Debug, PartialEq, Eq)]
pub enum JsonScalar {
    Number(Option<u64>),
    Text(String),
    Other,
}

/// A stream in the report of ffprobe. `tags` holds the tags in the order in
/// which they are looked through.
#[derive(Debug, PartialEq, Eq)]
pub struct FfprobeStream {
    pub index: Option<u32>,
    pub codec_type: Option<String>,
    pub codec_name: Option<String>,
    pub profile: Option<String>,
    pub level: Option<i32>,
    pub pix_fmt: Option<String>,
    pub bits_per_raw_sample: Option<JsonScalar>,
    pub width: Option<u32>,
    pub height: Option<u32>,
    pub channels: Option<u32>,
    pub channel_layout: Option<String>,
    pub tags: Vec<(String, String)>,
    pub disposition_default: Option<u8>,
    pub disposition_forced: Option<u8>,
}

/// The container in the report of ffprobe. The duration is in nanoseconds,
/// where the report has a number there.
#[derive(Debug, PartialEq, Eq)]
pub struct FfprobeFormat {
    pub format_name: Option<String>,
    pub duration_nanos: Option<i128>,
}

/// A report of ffprobe.
#[derive(Debug, PartialEq, Eq)]
pub struct FfprobeOutput {
    pub streams: Vec<FfprobeStream>,
    pub format: Option<FfprobeFormat>,
}

/// A duration, in nanoseconds, to the millisecond, as far as its type holds.
pub open spec fn duration_in_millis(nanos: int) -> int {
    let millis = rounded(nanos, 1_000_000) / 1_000_000;
    if millis > i64::MAX {
        i64::MAX as int
    } else if millis < i64::MIN {
        i64::MIN as int
    } else {
        millis
    }
}

/// Nanoseconds that are more milliseconds than a duration holds.
const BEYOND_NANOS: i128 = 10_000_000_000_000_000_000_000_000;

fn duration_to_millis(nanos: i128) -> (r: i64)
    ensures
        r == duration_in_millis(nanos as int),
{
    if nanos >= BEYOND_NANOS {
        return i64::MAX;
    }
    if nanos <= -BEYOND_NANOS {
        return i64::MIN;
    }
    let magnitude: i128 = if nanos < 0 { -nanos } else { nanos };
    let whole: i128 = (magnitude + 500_000) / 1_000_000;
    let millis: i128 = if nanos < 0 { -whole } else { whole };
    proof {
        let m = whole as int;
        assert(rounded(nanos as int, 1_000_000) == (if nanos >= 0 {
            m * 1_000_000
        } else {
            -(m * 1_000_000)
        }));
        assert(m * 1_000_000 / 1_000_000 == m);
        assert(-(m * 1_000_000) == (-m) * 1_000_000);
        assert((-m) * 1_000_000 / 1_000_000 == -m);
    }
    if millis > i64::MAX as i128 {
        i64::MAX
    } else if millis < i64::MIN as i128 {
        i64::MIN
    } else {
        millis as i64
    }
}

/// Whether a tag has the given key, in any case of letters, and a value that
/// is not blank.
pub open spec fn tag_fits(tag: (String, String), key: Seq<char>) -> bool {
    lower(tag.0@) == lower(key) && trimmed(tag.1@).len() > 0
}

/// The condition of being a tag with the given key.
pub open spec fn fits(key: Seq<char>) -> spec_fn((String, String)) -> bool {
    |tag: (String, String)| tag_fits(tag, key)
}

/// The value of the first tag with the given key.
pub open spec fn tag_value(tags: Seq<(String, String)>, key: Seq<char>) -> Option<String> {
    let place = first_index(tags, fits(key));
    if place < tags.len() {
        Some(tags[place].1)
    } else {
        None
    }
}

/// The value of the first tag with the given key.
pub fn lookup_tag(tags: &Vec<(String, String)>, key: &str) -> (r: Option<String>)
    ensures
        r == tag_value(tags@, key@),
{
    let wanted: String = to_lower(key);
    let mut i: usize = 0;
    while i < tags.len()
        invariant
            i <= tags@.len(),
            wanted@ == lower(key@),
            forall|k: int| 0 <= k < i ==> !fits(key@)(#[trigger] tags@[k]),
        decreases tags@.len() - i,
    {
        let tag: &(String, String) = &tags[i];
        let name: String = to_lower(tag.0.as_str());
        if same_text(name.as_str(), wanted.as_str()) && !trim(tag.1.as_str()).is_empty() {
            proof {
                assert(fits(key@)(tags@[i as int]));
                lemma_first_is_unique(tags@, fits(key@), i as int);
            }
            return Some(tag.1.clone());
        }
        i = i + 1;
    }
    proof {
        lemma_first_is_unique(tags@, fits(key@), i as int);
    }
    None
}

/// The small number that a JSON value stands for.
pub open spec fn u8_like(value: JsonScalar) -> Option<u8> {
    match value {
        JsonScalar::Number(Some(n)) => if n <= 255 {
            Some(n as u8)
        } else {
            None
        },
        JsonScalar::Text(text) => match parsed_number(text@, 255) {
            Some(n) => Some(n as u8),
            None => None,
        },
        _ => None,
    }
}

/// The small number that a JSON value stands for.
pub fn parse_json_u8_like(value: &JsonScalar) -> (r: Option<u8>)
    ensures
        r == u8_like(*value),
{
    match value {
        JsonScalar::Number(Some(n)) => {
            if *n <= 255 {
                Some(*n as u8)
            } else {
                None
            }
        },
        JsonScalar::Text(text) => match parse_number(text.as_str(), 255) {
            Some(n) => Some(n as u8),
            None => None,
        },
        _ => None,
    }
}

/// Whether a stream is of the given type.
pub open spec fn has_type(stream: FfprobeStream, name: Seq<char>) -> bool {
    stream.codec_type matches Some(value) && value@ == name
}

/// The condition of being of the given type.
pub open spec fn of_type(name: Seq<char>) -> spec_fn(FfprobeStream) -> bool {
    |stream: FfprobeStream| has_type(stream, name)
}

fn is_of_type(stream: &FfprobeStream, name: &str) -> (r: bool)
    ensures
        r == has_type(*stream, name@),
{
    match &stream.codec_type {
        Some(value) => same_text(value.as_str(), name),
        None => false,
    }
}

/// The places of the streams of the given type among the first `n`.
pub open spec fn type_places(streams: Seq<FfprobeStream>, name: Seq<char>, n: int) -> Seq<int>
    decreases n,
{
    if n <= 0 {
        seq![]
    } else if has_type(streams[n - 1], name) {
        type_places(streams, name, n - 1).push(n - 1)
    } else {
        type_places(streams, name, n - 1)
    }
}

/// The index of a stream: its own, or its place among the streams of its type.
pub open spec fn stream_index(stream: FfprobeStream, place: int) -> u32 {
    match stream.index {
        Some(index) => index,
        None => (place % 0x1_0000_0000) as u32,
    }
}

/// Whether a disposition is set.
pub open spec fn is_set(flag: Option<u8>) -> bool {
    flag matches Some(value) && value != 0
}

fn flag_is_set(flag: Option<u8>) -> (r: bool)
    ensures
        r == is_set(flag),
{
    match flag {
        Some(value) => value != 0,
        None => false,
    }
}

/// The audio stream for the `place`-th audio stream of a report.
pub open spec fn audio_stream_of(stream: FfprobeStream, place: int, default: bool) -> AudioStream {
    AudioStream {
        index: stream_index(stream, place),
        codec: stream.codec_name,
        channels: stream.channels,
        channel_layout: stream.channel_layout,
        language: tag_value(stream.tags@, "language"@),
        title: tag_value(stream.tags@, "title"@),
        default,
    }
}

/// The subtitle stream for the `place`-th subtitle stream of a report.
pub open spec fn subtitle_stream_of(stream: FfprobeStream, place: int) -> SubtitleStream {
    SubtitleStream {
        index: stream_index(stream, place),
        codec: stream.codec_name,
        language: tag_value(stream.tags@, "language"@),
        title: tag_value(stream.tags@, "title"@),
        default: is_set(stream.disposition_default),
        forced: is_set(stream.disposition_forced),
    }
}

/// The audio streams of a report, with their own default flags.
pub open spec fn flagged_audio(streams: Seq<FfprobeStream>) -> Seq<AudioStream> {
    let places = type_places(streams, "audio"@, streams.len() as int);
    Seq::new(
        places.len(),
        |k: int|
            audio_stream_of(
                streams[places[k]],
                k,
                is_set(streams[places[k]].disposition_default),
            ),
    )
}

/// Whether one of the audio streams is flagged as the default.
pub open spec fn has_default(streams: Seq<AudioStream>) -> bool {
    exists|k: int| 0 <= k < streams.len() && (#[trigger] streams[k]).default
}

/// The audio streams of a report. The first is the default where none is
/// flagged.
pub open spec fn audio_streams_of(streams: Seq<FfprobeStream>) -> Seq<AudioStream> {
    let flagged = flagged_audio(streams);
    if flagged.len() == 0 || has_default(flagged) {
        flagged
    } else {
        flagged.update(0, AudioStream { default: true, ..flagged[0] })
    }
}

/// The subtitle streams of a report.
pub open spec fn subtitle_streams_of(streams: Seq<FfprobeStream>) -> Seq<SubtitleStream> {
    let places = type_places(streams, "subtitle"@, streams.len() as int);
    Seq::new(places.len(), |k: int| subtitle_stream_of(streams[places[k]], k))
}

/// Where a report has audio, exactly the flagged streams are default streams,
/// or else the first alone: one is always surfaced.
pub proof fn law_audio_has_a_default(streams: Seq<FfprobeStream>)
    requires
        audio_streams_of(streams).len() > 0,
    ensures
        has_default(audio_streams_of(streams)),
        audio_streams_of(streams).len() == flagged_audio(streams).len(),
        forall|i: int|
            0 <= i < audio_streams_of(streams).len() ==> ((
            #[trigger] audio_streams_of(streams)[i]).default <==> if has_default(
                flagged_audio(streams),
            ) {
                flagged_audio(streams)[i].default
            } else {
                i == 0
            }),
{
    let flagged = flagged_audio(streams);
    if !has_default(flagged) {
        assert(audio_streams_of(streams)[0].default);
    }
}

fn collect_audio(streams: &Vec<FfprobeStream>) -> (r: Vec<AudioStream>)
    ensures
        r@ == audio_streams_of(streams@),
{
    let mut list: Vec<AudioStream> = Vec::new();
    let mut any_default: bool = false;
    let mut i: usize = 0;
    while i < streams.len()
        invariant
            i <= streams@.len(),
            list@.len() == type_places(streams@, "audio"@, i as int).len(),
            list@.len() <= i,
            forall|k: int|
                0 <= k < list@.len() ==> {
                    let place = type_places(streams@, "audio"@, i as int)[k];
                    #[trigger] list@[k] == audio_stream_of(
                        streams@[place],
                        k,
                        is_set(streams@[place].disposition_default),
                    )
                },
            any_default == has_default(list@),
        decreases streams@.len() - i,
    {
        let stream: &FfprobeStream = &streams[i];
        if is_of_type(stream, "audio") {
            let place: usize = list.len();
            let default: bool = flag_is_set(stream.disposition_default);
            let ghost before = list@;
            let ghost places = type_places(streams@, "audio"@, i as int);
            let item: AudioStream = AudioStream {
                index: match stream.index {
                    Some(index) => index,
                    None => (place as u64 % 0x1_0000_0000) as u32,
                },
                codec: copy_opt(&stream.codec_name),
                channels: stream.channels,
                channel_layout: copy_opt(&stream.channel_layout),
                language: lookup_tag(&stream.tags, "language"),
                title: lookup_tag(&stream.tags, "title"),
                default,
            };
            list.push(item);
            proof {
                assert(type_places(streams@, "audio"@, i + 1) == places.push(i as int));
                assert(has_default(list@) == (has_default(before) || default)) by {
                    if has_default(before) {
                        let k = choose|k: int| 0 <= k < before.len() && (#[trigger] before[k]).default;
                        assert(list@[k].default);
                    }
                    if default {
                        assert(list@[before.len() as int].default);
                    }
                    if has_default(list@) {
                        let k = choose|k: int| 0 <= k < list@.len() && (#[trigger] list@[k]).default;
                        if k < before.len() {
                            assert(before[k].default);
                        }
                    }
                }
            }
            any_default = any_default || default;
        }
        i = i + 1;
    }
    assert(list@ =~= flagged_audio(streams@));
    if !any_default && list.len() > 0 {
        let first: AudioStream = list[0].clone();
        list[0] = AudioStream {
            index: first.index,
            codec: first.codec,
            channels: first.channels,
            channel_layout: first.channel_layout,
            language: first.language,
            title: first.title,
            default: true,
        };
        assert(list@ =~= audio_streams_of(streams@));
    }
    list
}

fn collect_subtitles(streams: &Vec<FfprobeStream>) -> (r: Vec<SubtitleStream>)
    ensures
        r@ == subtitle_streams_of(streams@),
{
    let mut list: Vec<SubtitleStream> = Vec::new();
    let mut i: usize = 0;
    while i < streams.len()
        invariant
            i <= streams@.len(),
            list@.len() == type_places(streams@, "subtitle"@, i as int).len(),
            list@.len() <= i,
            forall|k: int|
                0 <= k < list@.len() ==> #[trigger] list@[k] == subtitle_stream_of(
                    streams@[type_places(streams@, "subtitle"@, i as int)[k]],
                    k,
                ),
        decreases streams@.len() - i,
    {
        let stream: &FfprobeStream = &streams[i];
        if is_of_type(stream, "subtitle") {
            let place: usize = list.len();
            let ghost places = type_places(streams@, "subtitle"@, i as int);
            list.push(
                SubtitleStream {
                    index: match stream.index {
                        Some(index) => index,
                        None => (place as u64 % 0x1_0000_0000) as u32,
                    },
                    codec: copy_opt(&stream.codec_name),
                    language: lookup_tag(&stream.tags, "language"),
                    title: lookup_tag(&stream.tags, "title"),
                    default: flag_is_set(stream.disposition_default),
                    forced: flag_is_set(stream.disposition_forced),
                },
            );
            assert(type_places(streams@, "subtitle"@, i + 1) == places.push(i as int));
        }
        i = i + 1;
    }
    assert(list@ =~= subtitle_streams_of(streams@));
    list
}

/// The first video stream of a report.
pub open spec fn video_stream_of(streams: Seq<FfprobeStream>) -> Option<FfprobeStream> {
    let place = first_index(streams, of_type("video"@));
    if place < streams.len() {
        Some(streams[place])
    } else {
        None
    }
}

fn find_video(streams: &Vec<FfprobeStream>) -> (r: Option<&FfprobeStream>)
    ensures
        r is Some == video_stream_of(streams@) is Some,
        r matches Some(stream) ==> video_stream_of(streams@) == Some(*stream),
{
    let mut i: usize = 0;
    while i < streams.len()
        invariant
            i <= streams@.len(),
            forall|k: int| 0 <= k < i ==> !of_type("video"@)(#[trigger] streams@[k]),
        decreases streams@.len() - i,
    {
        if is_of_type(&streams[i], "video") {
            proof {
                lemma_first_is_unique(streams@, of_type("video"@), i as int);
            }
            return Some(&streams[i]);
        }
        i = i + 1;
    }
    proof {
        lemma_first_is_unique(streams@, of_type("video"@), i as int);
    }
    None
}

/// The level of a video stream, where it is positive.
pub open spec fn positive_level(level: Option<i32>) -> Option<u32> {
    match level {
        Some(value) => if value > 0 {
            Some(value as u32)
        } else {
            None
        },
        None => None,
    }
}

/// The bit depth that a stream reports.
pub open spec fn bit_depth_of(stream: FfprobeStream) -> Option<u8> {
    match stream.bits_per_raw_sample {
        Some(value) => u8_like(value),
        None => None,
    }
}

/// Whether the video fields of an outcome are those of the given stream.
pub open spec fn shows_video(outcome: ProbeOutcome, video: Option<FfprobeStream>) -> bool {
    match video {
        Some(stream) => {
            &&& outcome.video_codec == stream.codec_name
            &&& outcome.width == stream.width
            &&& outcome.height == stream.height
            &&& outcome.video_profile == stream.profile
            &&& outcome.video_level == positive_level(stream.level)
            &&& outcome.video_pix_fmt == stream.pix_fmt
            &&& outcome.video_bit_depth == bit_depth_of(stream)
        },
        None => {
            &&& outcome.video_codec is None
            &&& outcome.width is None
            &&& outcome.height is None
            &&& outcome.video_profile is None
            &&& outcome.video_level is None
            &&& outcome.video_pix_fmt is None
            &&& outcome.video_bit_depth is None
        },
    }
}

/// The container name of a report.
pub open spec fn container_of(report: FfprobeOutput) -> Option<String> {
    match report.format {
        Some(format) => format.format_name,
        None => None,
    }
}

/// The duration of a report, in milliseconds.
pub open spec fn duration_of(report: FfprobeOutput) -> Option<i64> {
    match report.format {
        Some(format) => match format.duration_nanos {
            Some(nanos) => Some(duration_in_millis(nanos as int) as i64),
            None => None,
        },
        None => None,
    }
}

/// What an outcome says of the video stream, as plain values.
pub open spec fn video_facts(outcome: ProbeOutcome) -> VideoFacts {
    VideoFacts {
        codec: opt_text(outcome.video_codec),
        profile: opt_text(outcome.video_profile),
        pix_fmt: opt_text(outcome.video_pix_fmt),
        level: outcome.video_level,
        bit_depth: outcome.video_bit_depth,
    }
}

/// Whether `outcome` is what a report says of a file.
pub open spec fn is_outcome(
    outcome: ProbeOutcome,
    report: FfprobeOutput,
    extension: Option<Seq<char>>,
    probed_at: String,
) -> bool {
    let audio = audio_streams_of(report.streams@);
    &&& outcome.probed_at == probed_at
    &&& outcome.probe_error is None
    &&& outcome.duration_millis == duration_of(report)
    &&& outcome.container_name == container_of(report)
    &&& shows_video(outcome, video_stream_of(report.streams@))
    &&& outcome.audio_codec == (if audio.len() > 0 {
        audio[0].codec
    } else {
        None
    })
    &&& outcome.audio_streams@ == audio
    &&& outcome.subtitle_streams@ == subtitle_streams_of(report.streams@)
    &&& outcome.playback_mode == playback_mode(
        opt_text(outcome.container_name),
        extension,
        video_facts(outcome),
        audio,
    )
}

/// What a report says of a file, and how the file reaches the browser.
pub fn parse_probe_output(
    report: FfprobeOutput,
    file_extension: Option<&str>,
    probed_at: String,
) -> (r: ProbeOutcome)
    ensures
        is_outcome(r, report, opt_str(file_extension), probed_at),
{
    let audio_streams: Vec<AudioStream> = collect_audio(&report.streams);
    let subtitle_streams: Vec<SubtitleStream> = collect_subtitles(&report.streams);
    let video: Option<&FfprobeStream> = find_video(&report.streams);
    let (container_name, duration_millis): (Option<String>, Option<i64>) = match &report.format {
        Some(format) => (
            copy_opt(&format.format_name),
            match format.duration_nanos {
                Some(nanos) => Some(duration_to_millis(nanos)),
                None => None,
            },
        ),
        None => (None, None),
    };
    let mut outcome: ProbeOutcome = ProbeOutcome {
        probed_at,
        probe_error: None,
        duration_millis,
        container_name,
        video_codec: None,
        audio_codec: if audio_streams.len() > 0 {
            copy_opt(&audio_streams[0].codec)
        } else {
            None
        },
        width: None,
        height: None,
        playback_mode: PlaybackMode::Unsupported,
        video_profile: None,
        video_level: None,
        video_pix_fmt: None,
        video_bit_depth: None,
        audio_streams,
        subtitle_streams,
    };
    if let Some(stream) = video {
        outcome.video_codec = copy_opt(&stream.codec_name);
        outcome.width = stream.width;
        outcome.height = stream.height;
        outcome.video_profile = copy_opt(&stream.profile);
        outcome.video_level =
        match stream.level {
            Some(value) => if value > 0 {
                Some(value as u32)
            } else {
                None
            },
            None => None,
        };
        outcome.video_pix_fmt = copy_opt(&stream.pix_fmt);
        outcome.video_bit_depth =
        match &stream.bits_per_raw_sample {
            Some(value) => parse_json_u8_like(value),
            None => None,
        };
    }
    let info: VideoPlaybackInfo<'_> = VideoPlaybackInfo {
        codec: as_opt_str(&outcome.video_codec),
        profile: as_opt_str(&outcome.video_profile),
        pix_fmt: as_opt_str(&outcome.video_pix_fmt),
        level: outcome.video_level,
        bit_depth: outcome.video_bit_depth,
    };
    let mode: PlaybackMode = classify_playback_mode(
        as_opt_str(&outcome.container_name),
        file_extension,
        info,
        outcome.audio_streams.as_slice(),
    );
    outcome.playback_mode = mode;
    outcome
}

/// Whether `outcome` is that of a probe that failed with the given message.
pub open spec fn is_failed_outcome(
    outcome: ProbeOutcome,
    probed_at: String,
    message: Seq<char>,
) -> bool {
    &&& outcome.probed_at == probed_at
    &&& opt_text(outcome.probe_error) == Some(message)
    &&& outcome.duration_millis is None
    &&& outcome.container_name is None
    &&& outcome.video_codec is None
    &&& outcome.audio_codec is None
    &&& outcome.width is None
    &&& outcome.height is None
    &&& outcome.playback_mode == PlaybackMode::Direct
    &&& outcome.video_profile is None
    &&& outcome.video_level is None
    &&& outcome.video_pix_fmt is None
    &&& outcome.video_bit_depth is None
    &&& outcome.audio_streams@.len() == 0
    &&& outcome.subtitle_streams@.len() == 0
}

/// The outcome of a probe that failed.
pub fn probe_outcome_with_error(probed_at: String, error: &str) -> (r: ProbeOutcome)
    ensures
        is_failed_outcome(r, probed_at, error@),
{
    ProbeOutcome {
        probed_at,
        probe_error: Some(error.to_owned()),
        duration_millis: None,
        container_name: None,
        video_codec: None,
        audio_codec: None,
        width: None,
        height: None,
        playback_mode: PlaybackMode::Direct,
        video_profile: None,
        video_level: None,
        video_pix_fmt: None,
        video_bit_depth: None,
        audio_streams: Vec::new(),
        subtitle_streams: Vec::new(),
    }
}

/// What came of an ffprobe run.
#[derive(Debug)]
pub enum ProbeRun {
    /// There is no ffprobe.
    NotConfigured,
    NotStarted { error: String },
    /// It failed; `status` is its exit status as text.
    Failed { status: String, stderr: Vec<u8> },
    /// It reported something that is no report.
    Unreadable { error: String },
    Reported { report: FfprobeOutput },
}

/// The message for an ffprobe run that failed.
pub open spec fn probe_failure(status: Seq<char>, stderr: Seq<char>) -> Seq<char> {
    if trimmed(stderr).len() == 0 {
        "ffprobe exited with status "@ + status
    } else {
        "ffprobe failed: "@ + trimmed(stderr)
    }
}

/// The message for an ffprobe run that failed, from the text of its error
/// output.
pub fn probe_failure_text(status: &str, stderr: &str) -> (r: String)
    ensures
        r@ == probe_failure(status@, stderr@),
{
    let message: &str = trim(stderr);
    if message.is_empty() {
        concat2("ffprobe exited with status ", status)
    } else {
        concat2("ffprobe failed: ", message)
    }
}

/// The outcome of an ffprobe run.
pub fn probe_media_metadata(
    run: ProbeRun,
    file_extension: Option<&str>,
    probed_at: String,
) -> (r: ProbeOutcome)
    ensures
        match run {
            ProbeRun::NotConfigured => is_failed_outcome(r, probed_at, "no ffprobe configured"@),
            ProbeRun::NotStarted { error } => is_failed_outcome(
                r,
                probed_at,
                "ffprobe could not start: "@ + error@,
            ),
            ProbeRun::Failed { status, stderr } => is_failed_outcome(
                r,
                probed_at,
                probe_failure(status@, lossy_text(stderr@)),
            ),
            ProbeRun::Unreadable { error } => is_failed_outcome(
                r,
                probed_at,
                "ffprobe returned invalid JSON: "@ + error@,
            ),
            ProbeRun::Reported { report } => is_outcome(
                r,
                report,
                opt_str(file_extension),
                probed_at,
            ),
        },
{
    match run {
        ProbeRun::NotConfigured => probe_outcome_with_error(probed_at, "no ffprobe configured"),
        ProbeRun::NotStarted { error } => {
            let message: String = concat2("ffprobe could not start: ", error.as_str());
            probe_outcome_with_error(probed_at, message.as_str())
        },
        ProbeRun::Failed { status, stderr } => {
            let text: String = text_from_bytes(stderr.as_slice());
            let message: String = probe_failure_text(status.as_str(), text.as_str());
            probe_outcome_with_error(probed_at, message.as_str())
        },
        ProbeRun::Unreadable { error } => {
            let message: String = concat2("ffprobe returned invalid JSON: ", error.as_str());
            probe_outcome_with_error(probed_at, message.as_str())
        },
        ProbeRun::Reported { report } => parse_probe_output(report, file_extension, probed_at),
    }
}

/// The arguments of the ffprobe run on a file.
pub open spec fn probe_args(path: Seq<char>) -> Seq<Seq<char>> {
    seq![
        "-v"@,
        "error"@,
        "-show_entries"@,
        "format=format_name,duration:stream=index,codec_type,codec_name,profile,level,pix_fmt,bits_per_raw_sample,width,height,channels,channel_layout:stream_tags=language,title:stream_disposition=default,forced"@,
        "-of"@,
        "json"@,
        path,
    ]
}

/// The arguments of the ffprobe run on a file.
pub fn probe_arguments(path: &str) -> (r: Vec<String>)
    ensures
        texts(r@) == probe_args(path@),
{
    let mut args: Vec<String> = Vec::new();
    push_two(&mut args, "-v", "error");
    push_two(
        &mut args,
        "-show_entries",
        "format=format_name,duration:stream=index,codec_type,codec_name,profile,level,pix_fmt,bits_per_raw_sample,width,height,channels,channel_layout:stream_tags=language,title:stream_disposition=default,forced",
    );
    push_two(&mut args, "-of", "json");
    push_text(&mut args, path);
    assert(texts(args@) =~= probe_args(path@));
    args
}

proof fn lemma_type_places(streams: Seq<FfprobeStream>, name: Seq<char>, n: int)
    requires
        0 <= n <= streams.len(),
    ensures
        forall|k: int|
            0 <= k < type_places(streams, name, n).len() ==> 0 <= #[trigger] type_places(
                streams,
                name,
                n,
            )[k] < n && has_type(streams[type_places(streams, name, n)[k]], name),
        forall|a: int, b: int|
            0 <= a < b < type_places(streams, name, n).len() ==> type_places(streams, name, n)[a]
                < type_places(streams, name, n)[b],
        forall|i: int|
            0 <= i < n && has_type(#[trigger] streams[i], name) ==> type_places(
                streams,
                name,
                n,
            ).contains(i),
    decreases n,
{
    if n > 0 {
        lemma_type_places(streams, name, n - 1);
        let before = type_places(streams, name, n - 1);
        let after = type_places(streams, name, n);
        if has_type(streams[n - 1], name) {
            assert(after[before.len() as int] == n - 1);
            assert forall|i: int| 0 <= i < n && has_type(#[trigger] streams[i], name) implies
                after.contains(i) by {
                if i < n - 1 {
                    let k = before.index_of(i);
                    assert(after[k] == i);
                }
            }
        }
    }
}

/// Whether `places` are the places of the streams of a type in a report, in order.
pub open spec fn are_places_of(
    places: Seq<int>,
    streams: Seq<FfprobeStream>,
    name: Seq<char>,
) -> bool {
    &&& forall|a: int, b: int| 0 <= a < b < places.len() ==> places[a] < places[b]
    &&& forall|i: int|
        places.contains(i) <==> 0 <= i < streams.len() && (#[trigger] streams[i]).codec_type is Some
            && streams[i].codec_type->0@ == name
}

proof fn lemma_places(streams: Seq<FfprobeStream>, name: Seq<char>)
    ensures
        are_places_of(type_places(streams, name, streams.len() as int), streams, name),
{
    lemma_type_places(streams, name, streams.len() as int);
    let places = type_places(streams, name, streams.len() as int);
    assert forall|i: int|
        places.contains(i) <==> 0 <= i < streams.len() && (#[trigger] streams[i]).codec_type is Some
            && streams[i].codec_type->0@ == name by {
        if places.contains(i) {
            let k = places.index_of(i);
            assert(places[k] == i);
        }
        if 0 <= i < streams.len() && has_type(streams[i], name) {
            assert(places.contains(i));
        }
    }
}

/// Every audio stream of a report is listed once, in the order of the report, with its
/// codec, its channels, its language and its title. It has its own index, or else its
/// place in the list.
pub proof fn law_every_audio_stream_is_listed(streams: Seq<FfprobeStream>)
    requires
        streams.len() <= u32::MAX,
    ensures
        exists|places: Seq<int>|
            #[trigger] are_places_of(places, streams, "audio"@) && places.len()
                == audio_streams_of(streams).len() && forall|k: int|
                #![trigger audio_streams_of(streams)[k]]
                0 <= k < places.len() ==> {
                    let source = streams[places[k]];
                    let listed = audio_streams_of(streams)[k];
                    &&& listed.codec == source.codec_name
                    &&& listed.channels == source.channels
                    &&& listed.channel_layout == source.channel_layout
                    &&& listed.language == tag_value(source.tags@, "language"@)
                    &&& listed.title == tag_value(source.tags@, "title"@)
                    &&& source.index is Some ==> listed.index == source.index->0
                    &&& source.index is None ==> listed.index == k
                    &&& source.disposition_default is Some && source.disposition_default->0 != 0
                        ==> listed.default
                    &&& listed.default && k > 0 ==> source.disposition_default is Some
                        && source.disposition_default->0 != 0
                },
{
    let places = type_places(streams, "audio"@, streams.len() as int);
    lemma_places(streams, "audio"@);
    lemma_places_are_few(streams, "audio"@, streams.len() as int);
    let flagged = flagged_audio(streams);
    assert(places.len() == audio_streams_of(streams).len());
    assert forall|k: int|
        #![trigger audio_streams_of(streams)[k]]
        0 <= k < places.len() implies {
        let source = streams[places[k]];
        let listed = audio_streams_of(streams)[k];
        &&& listed.codec == source.codec_name
        &&& listed.channels == source.channels
        &&& listed.channel_layout == source.channel_layout
        &&& listed.language == tag_value(source.tags@, "language"@)
        &&& listed.title == tag_value(source.tags@, "title"@)
        &&& source.index is Some ==> listed.index == source.index->0
        &&& source.index is None ==> listed.index == k
        &&& source.disposition_default is Some && source.disposition_default->0 != 0
            ==> listed.default
        &&& listed.default && k > 0 ==> source.disposition_default is Some
            && source.disposition_default->0 != 0
    } by {
        assert(flagged[k] == audio_stream_of(
            streams[places[k]],
            k,
            is_set(streams[places[k]].disposition_default),
        ));
    }
}

proof fn lemma_places_are_few(streams: Seq<FfprobeStream>, name: Seq<char>, n: int)
    requires
        n >= 0,
    ensures
        type_places(streams, name, n).len() <= n,
    decreases n,
{
    if n > 0 {
        lemma_places_are_few(streams, name, n - 1);
    }
}

/// Every subtitle stream of a report is listed once, in the order of the report, with
/// its codec, its tags and its two flags.
pub proof fn law_every_subtitle_stream_is_listed(streams: Seq<FfprobeStream>)
    requires
        streams.len() <= u32::MAX,
    ensures
        exists|places: Seq<int>|
            #[trigger] are_places_of(places, streams, "subtitle"@) && places.len()
                == subtitle_streams_of(streams).len() && forall|k: int|
                #![trigger subtitle_streams_of(streams)[k]]
                0 <= k < places.len() ==> {
                    let source = streams[places[k]];
                    let listed = subtitle_streams_of(streams)[k];
                    &&& listed.codec == source.codec_name
                    &&& listed.language == tag_value(source.tags@, "language"@)
                    &&& listed.title == tag_value(source.tags@, "title"@)
                    &&& source.index is Some ==> listed.index == source.index->0
                    &&& source.index is None ==> listed.index == k
                    &&& listed.default <==> source.disposition_default is Some
                        && source.disposition_default->0 != 0
                    &&& listed.forced <==> source.disposition_forced is Some
                        && source.disposition_forced->0 != 0
                },
{
    let places = type_places(streams, "subtitle"@, streams.len() as int);
    lemma_places(streams, "subtitle"@);
    lemma_places_are_few(streams, "subtitle"@, streams.len() as int);
    assert(are_places_of(places, streams, "subtitle"@));
}

/// The value of a tag is that of the first tag with the key, in any case of letters,
/// that is not blank; there is none where no tag is such.
pub proof fn law_tags_are_found_in_any_case(tags: Seq<(String, String)>, key: Seq<char>)
    ensures
        tag_value(tags, key) is None <==> forall|i: int|
            #![trigger tags[i]]
            0 <= i < tags.len() && lower(tags[i].0@) == lower(key) ==> trimmed(tags[i].1@).len() == 0,
        tag_value(tags, key) is Some ==> exists|i: int|
            #![trigger tags[i]]
            0 <= i < tags.len() && tag_value(tags, key) == Some(tags[i].1) && lower(tags[i].0@)
                == lower(key) && trimmed(tags[i].1@).len() > 0 && forall|k: int|
                #![trigger tags[k]]
                0 <= k < i ==> !(lower(tags[k].0@) == lower(key) && trimmed(tags[k].1@).len() > 0),
{
    lemma_first_index(tags, fits(key));
    let place = first_index(tags, fits(key));
    if place < tags.len() {
        assert(fits(key)(tags[place]));
        assert forall|k: int| #![trigger tags[k]] 0 <= k < place implies !(lower(tags[k].0@) == lower(
            key,
        ) && trimmed(tags[k].1@).len() > 0) by {
            assert(!fits(key)(tags[k]));
        }
        assert(lower(tags[place].0@) == lower(key));
    } else {
        assert forall|i: int|
            #![trigger tags[i]]
            0 <= i < tags.len() && lower(tags[i].0@) == lower(key) implies trimmed(tags[i].1@).len()
            == 0 by {
            assert(!fits(key)(tags[i]));
        }
    }
}

/// The duration is the reported one to the nearest millisecond.
pub proof fn law_duration_is_nearest(nanos: int)
    requires
        -9_000_000_000_000_000_000_000_000 <= nanos <= 9_000_000_000_000_000_000_000_000,
    ensures
        -500_000 <= duration_in_millis(nanos) * 1_000_000 - nanos <= 500_000,
{
    law_rounding_is_nearest(nanos, 1_000_000);
}

/// A small number is read from a number or from its numeral; anything larger is none.
pub proof fn law_small_numbers_are_read(n: u64, text: String)
    requires
        text@ == decimal(n as nat),
    ensures
        u8_like(JsonScalar::Number(Some(n))) == u8_like(JsonScalar::Text(text)),
        n <= 255 ==> u8_like(JsonScalar::Number(Some(n))) == Some(n as u8),
        n > 255 ==> u8_like(JsonScalar::Number(Some(n))) is None,
        u8_like(JsonScalar::Number(None)) is None,
        u8_like(JsonScalar::Other) is None,
{
    lemma_decimal(n as nat);
    assert(is_digit(decimal(n as nat)[0]));
}

/// What a report says of a file is what its first video stream, its audio streams and
/// its container say; it is no failure, and a report without streams is unsupported.
pub proof fn law_outcome_shows_the_report(
    outcome: ProbeOutcome,
    report: FfprobeOutput,
    extension: Option<Seq<char>>,
    probed_at: String,
    i: int,
)
    requires
        is_outcome(outcome, report, extension, probed_at),
        0 <= i < report.streams@.len(),
        report.streams@[i].codec_type is Some && report.streams@[i].codec_type->0@ == "video"@,
        forall|k: int|
            0 <= k < i ==> !((#[trigger] report.streams@[k]).codec_type is Some
                && report.streams@[k].codec_type->0@ == "video"@),
    ensures
        outcome.probed_at == probed_at && outcome.probe_error is None,
        outcome.video_codec == report.streams@[i].codec_name,
        outcome.width == report.streams@[i].width,
        outcome.height == report.streams@[i].height,
        outcome.video_profile == report.streams@[i].profile,
        outcome.video_pix_fmt == report.streams@[i].pix_fmt,
        outcome.video_level is Some <==> report.streams@[i].level is Some
            && report.streams@[i].level->0 > 0,
        outcome.video_level is Some ==> outcome.video_level->0 == report.streams@[i].level->0,
        outcome.audio_codec == (if outcome.audio_streams@.len() > 0 {
            outcome.audio_streams@[0].codec
        } else {
            None
        }),
        report.format is Some ==> outcome.container_name == report.format->0.format_name,
        report.format is None ==> outcome.container_name is None && outcome.duration_millis is None,
{
    let p = of_type("video"@);
    assert(p(report.streams@[i]));
    assert forall|k: int| 0 <= k < i implies !p(#[trigger] report.streams@[k]) by {}
    lemma_first_is_unique(report.streams@, p, i);
}

/// A file without a video stream has nothing of one.
pub proof fn law_audio_files_have_no_video(
    outcome: ProbeOutcome,
    report: FfprobeOutput,
    extension: Option<Seq<char>>,
    probed_at: String,
)
    requires
        is_outcome(outcome, report, extension, probed_at),
        forall|k: int|
            0 <= k < report.streams@.len() ==> !((#[trigger] report.streams@[k]).codec_type is Some
                && report.streams@[k].codec_type->0@ == "video"@),
    ensures
        outcome.video_codec is None && outcome.width is None && outcome.height is None
            && outcome.video_level is None && outcome.video_bit_depth is None
            && outcome.video_profile is None && outcome.video_pix_fmt is None,
        report.streams@.len() == 0 ==> outcome.playback_mode == PlaybackMode::Unsupported,
{
    let p = of_type("video"@);
    assert forall|k: int| 0 <= k < report.streams@.len() implies !p(#[trigger] report.streams@[k]) by {
    }
    lemma_first_is_unique(report.streams@, p, report.streams@.len() as int);
    if report.streams@.len() == 0 {
        assert(type_places(report.streams@, "audio"@, 0).len() == 0);
        assert(audio_streams_of(report.streams@).len() == 0);
    }
}

/// The message of a failed run says what ffprobe wrote, or else its exit status.
pub proof fn law_probe_failures_say_why(status: Seq<char>, stderr: Seq<char>)
    ensures
        trimmed(stderr).len() > 0 ==> trimmed(stderr).is_suffix_of(probe_failure(status, stderr)),
        trimmed(stderr).len() == 0 ==> status.is_suffix_of(probe_failure(status, stderr)),
{
    let message = probe_failure(status, stderr);
    let n = message.len() as int;
    let text = trimmed(stderr);
    if text.len() > 0 {
        assert(text =~= message.subrange(n - text.len(), n));
    } else {
        assert(status =~= message.subrange(n - status.len(), n));
    }
}

/// A probe that failed says why, and nothing else of the file; the file is taken to play
/// as it is until a probe says otherwise.
pub proof fn law_failed_probes_say_only_why(
    outcome: ProbeOutcome,
    probed_at: String,
    message: Seq<char>,
)
    requires
        is_failed_outcome(outcome, probed_at, message),
    ensures
        outcome.probe_error is Some && outcome.probe_error->0@ == message,
        outcome.probed_at == probed_at,
        outcome.playback_mode == PlaybackMode::Direct,
        outcome.duration_millis is None && outcome.container_name is None,
        outcome.video_codec is None && outcome.audio_codec is None && outcome.width is None
            && outcome.height is None,
        outcome.video_profile is None && outcome.video_level is None && outcome.video_pix_fmt is None
            && outcome.video_bit_depth is None,
        outcome.audio_streams@.len() == 0 && outcome.subtitle_streams@.len() == 0,
{
}

} // verus!
