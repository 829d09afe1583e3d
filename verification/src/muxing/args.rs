//! The arguments of the encoder of an HLS session.
use crate::ffmpeg::DEFAULT_VAAPI_DEVICE;
use crate::muxing::playlists::{
    are_renditions, build_var_stream_map, effective_audio_streams, encodes_video, stream_map,
    lemma_stream_map_starts_with_video, EffectiveAudioStream,
};
use crate::muxing::segments::{format_seconds, nearest_milli, seconds_of};
use crate::muxing::{BrowserHint, HlsMode};
use crate::paths::{join_path, joined_path};
use crate::protocol::MediaItem;
use crate::text::{
    all_digits, concat2, decimal, decimal_text, is_digit, lemma_decimal, lower, numeral_value, opt_str, push_text, push_two, same_text, texts, to_lower,
    trim, trimmed,
};
use vstd::prelude::*;

verus! {

/// The hardware that encodes video.
#[derive(Debug, Clone, Copy, PartialEq, Eq, Structural)]
pub enum HwAccel {
    Software,
    Nvenc,
    Vaapi,
    Qsv,
    VideoToolbox,
}

impl Default for HwAccel {
    fn default() -> (r: HwAccel)
        ensures
            r is Software,
    {
        HwAccel::Software
    }
}

impl HwAccel {
    /// The hardware that a setting names, in any case of letters.
    pub open spec fn named(raw: Seq<char>) -> Option<HwAccel> {
        let name = lower(trimmed(raw));
        if name == ""@ || name == "none"@ || name == "off"@ || name == "0"@ || name == "false"@ {
            Some(HwAccel::Software)
        } else if name == "nvenc"@ || name == "cuda"@ || name == "nvidia"@ {
            Some(HwAccel::Nvenc)
        } else if name == "vaapi"@ {
            Some(HwAccel::Vaapi)
        } else if name == "qsv"@ || name == "quicksync"@ {
            Some(HwAccel::Qsv)
        } else if name == "videotoolbox"@ || name == "vt"@ {
            Some(HwAccel::VideoToolbox)
        } else {
            None
        }
    }

    /// The hardware that a setting names; nothing for a name that is not known.
    pub fn from_env_value(raw: &str) -> (r: Option<HwAccel>)
        ensures
            r == HwAccel::named(raw@),
    {
        let name: String = to_lower(trim(raw));
        let name: &str = name.as_str();
        if same_text(name, "") || same_text(name, "none") || same_text(name, "off") || same_text(
            name,
            "0",
        ) || same_text(name, "false") {
            Some(HwAccel::Software)
        } else if same_text(name, "nvenc") || same_text(name, "cuda") || same_text(name, "nvidia") {
            Some(HwAccel::Nvenc)
        } else if same_text(name, "vaapi") {
            Some(HwAccel::Vaapi)
        } else if same_text(name, "qsv") || same_text(name, "quicksync") {
            Some(HwAccel::Qsv)
        } else if same_text(name, "videotoolbox") || same_text(name, "vt") {
            Some(HwAccel::VideoToolbox)
        } else {
            None
        }
    }
}

/// Where an encoder starts: with which segment, and at which time of the source.
#[derive(Debug, Clone, Copy, PartialEq, Eq, Structural)]
pub struct SpawnOffset {
    pub segment: u32,
    pub start_nanos: u128,
}

impl SpawnOffset {
    /// The start of the source.
    pub fn zero() -> (r: SpawnOffset)
        ensures
            r == (SpawnOffset { segment: 0, start_nanos: 0 }),
    {
        SpawnOffset { segment: 0, start_nanos: 0 }
    }
}

/// Whether the video of a session is copied.
pub open spec fn copies_video(mode: HlsMode, browser: BrowserHint) -> bool {
    !encodes_video(mode, browser)
}

/// The arguments that decode in hardware.
pub open spec fn hw_decode_args(hw_accel: HwAccel, device: Option<Seq<char>>) -> Seq<Seq<char>> {
    match hw_accel {
        HwAccel::Software => seq![],
        HwAccel::Nvenc => seq!["-hwaccel"@, "cuda"@, "-hwaccel_output_format"@, "cuda"@],
        HwAccel::Vaapi => seq![
            "-vaapi_device"@,
            (match device {
                Some(path) => path,
                None => DEFAULT_VAAPI_DEVICE@,
            }),
            "-hwaccel"@,
            "vaapi"@,
            "-hwaccel_output_format"@,
            "vaapi"@,
        ],
        HwAccel::Qsv => seq!["-hwaccel"@, "qsv"@, "-hwaccel_output_format"@, "qsv"@],
        HwAccel::VideoToolbox => seq!["-hwaccel"@, "videotoolbox"@],
    }
}

/// Appends the arguments that decode in hardware.
pub fn push_hw_decode_args(args: &mut Vec<String>, hw_accel: HwAccel, vaapi_device: Option<&str>)
    ensures
        texts(final(args)@) == texts(old(args)@) + hw_decode_args(hw_accel, opt_str(vaapi_device)),
{
    match hw_accel {
        HwAccel::Software => {},
        HwAccel::Nvenc => {
            push_two(args, "-hwaccel", "cuda");
            push_two(args, "-hwaccel_output_format", "cuda");
        },
        HwAccel::Vaapi => {
            let device: &str = match vaapi_device {
                Some(path) => path,
                None => DEFAULT_VAAPI_DEVICE,
            };
            push_two(args, "-vaapi_device", device);
            push_two(args, "-hwaccel", "vaapi");
            push_two(args, "-hwaccel_output_format", "vaapi");
        },
        HwAccel::Qsv => {
            push_two(args, "-hwaccel", "qsv");
            push_two(args, "-hwaccel_output_format", "qsv");
        },
        HwAccel::VideoToolbox => {
            push_two(args, "-hwaccel", "videotoolbox");
        },
    }
    assert(texts(args@) =~= texts(old(args)@) + hw_decode_args(hw_accel, opt_str(vaapi_device)));
}

/// The arguments that put a keyframe at every point of the segment grid.
pub open spec fn keyframe_args() -> Seq<Seq<char>> {
    seq!["-force_key_frames"@, "expr:gte(t,n_forced*2)"@]
}

/// The arguments that encode video.
pub open spec fn hw_encode_args(hw_accel: HwAccel) -> Seq<Seq<char>> {
    (match hw_accel {
        HwAccel::Software => seq![
            "-c:v"@,
            "libx264"@,
            "-preset"@,
            "veryfast"@,
            "-tune"@,
            "zerolatency"@,
            "-pix_fmt"@,
            "yuv420p"@,
        ],
        HwAccel::Nvenc => seq![
            "-c:v"@,
            "h264_nvenc"@,
            "-preset"@,
            "p4"@,
            "-tune"@,
            "ll"@,
            "-rc"@,
            "vbr"@,
            "-b:v"@,
            "4M"@,
            "-maxrate"@,
            "6M"@,
            "-bufsize"@,
            "8M"@,
        ],
        HwAccel::Vaapi => seq![
            "-vf"@,
            "format=nv12|vaapi,hwupload,scale_vaapi=format=nv12"@,
            "-c:v"@,
            "h264_vaapi"@,
            "-qp"@,
            "23"@,
        ],
        HwAccel::Qsv => seq![
            "-c:v"@,
            "h264_qsv"@,
            "-preset"@,
            "veryfast"@,
            "-global_quality"@,
            "23"@,
            "-look_ahead"@,
            "0"@,
        ],
        HwAccel::VideoToolbox => seq!["-c:v"@, "h264_videotoolbox"@, "-b:v"@, "4M"@],
    }) + keyframe_args()
}

/// Appends the arguments that encode video.
pub fn push_hw_encode_args(args: &mut Vec<String>, hw_accel: HwAccel)
    ensures
        texts(final(args)@) == texts(old(args)@) + hw_encode_args(hw_accel),
{
    match hw_accel {
        HwAccel::Software => {
            push_two(args, "-c:v", "libx264");
            push_two(args, "-preset", "veryfast");
            push_two(args, "-tune", "zerolatency");
            push_two(args, "-pix_fmt", "yuv420p");
        },
        HwAccel::Nvenc => {
            push_two(args, "-c:v", "h264_nvenc");
            push_two(args, "-preset", "p4");
            push_two(args, "-tune", "ll");
            push_two(args, "-rc", "vbr");
            push_two(args, "-b:v", "4M");
            push_two(args, "-maxrate", "6M");
            push_two(args, "-bufsize", "8M");
        },
        HwAccel::Vaapi => {
            push_two(args, "-vf", "format=nv12|vaapi,hwupload,scale_vaapi=format=nv12");
            push_two(args, "-c:v", "h264_vaapi");
            push_two(args, "-qp", "23");
        },
        HwAccel::Qsv => {
            push_two(args, "-c:v", "h264_qsv");
            push_two(args, "-preset", "veryfast");
            push_two(args, "-global_quality", "23");
            push_two(args, "-look_ahead", "0");
        },
        HwAccel::VideoToolbox => {
            push_two(args, "-c:v", "h264_videotoolbox");
            push_two(args, "-b:v", "4M");
        },
    }
    push_two(args, "-force_key_frames", "expr:gte(t,n_forced*2)");
    assert(texts(args@) =~= texts(old(args)@) + hw_encode_args(hw_accel));
}

/// The arguments that every encoder begins with.
pub open spec fn probe_limits() -> Seq<Seq<char>> {
    seq![
        "-y"@,
        "-loglevel"@,
        "warning"@,
        "-stats"@,
        "-nostdin"@,
        "-analyzeduration"@,
        "1000000"@,
        "-probesize"@,
        "5000000"@,
    ]
}

/// The arguments that seek in the source: none for the start.
pub open spec fn seek_args(offset: SpawnOffset) -> Seq<Seq<char>> {
    if offset.start_nanos > 0 {
        seq!["-ss"@, seconds_of(offset.start_nanos as nat), "-copyts"@]
    } else {
        seq![]
    }
}

/// The arguments that place the output at the same time of the source: none for
/// the start.
pub open spec fn placement_args(offset: SpawnOffset) -> Seq<Seq<char>> {
    if offset.start_nanos > 0 {
        seq!["-output_ts_offset"@, seconds_of(offset.start_nanos as nat)]
    } else {
        seq![]
    }
}

/// The arguments that take the first `n` audio streams.
pub open spec fn audio_map_args(n: int) -> Seq<Seq<char>>
    decreases n,
{
    if n <= 0 {
        seq![]
    } else {
        audio_map_args(n - 1) + seq!["-map"@, "0:a:"@ + decimal((n - 1) as nat)]
    }
}

/// The arguments for the audio codec.
pub open spec fn audio_codec_args(mode: HlsMode) -> Seq<Seq<char>> {
    if mode is HlsRemux {
        seq!["-c:a"@, "copy"@]
    } else {
        seq!["-c:a"@, "aac"@, "-b:a"@, "192k"@, "-ac"@, "2"@]
    }
}

/// The arguments of the HLS muxer up to the numbering.
pub open spec fn muxer_args() -> Seq<Seq<char>> {
    seq![
        "-flush_packets"@,
        "1"@,
        "-muxdelay"@,
        "0"@,
        "-muxpreload"@,
        "0"@,
        "-avoid_negative_ts"@,
        "make_zero"@,
        "-f"@,
        "hls"@,
        "-hls_time"@,
        "2"@,
        "-hls_list_size"@,
        "0"@,
        "-hls_playlist_type"@,
        "vod"@,
        "-hls_segment_type"@,
        "fmp4"@,
        "-hls_flags"@,
        "independent_segments+temp_file"@,
    ]
}

/// The arguments that number the segments: none from the first on.
pub open spec fn numbering_args(offset: SpawnOffset) -> Seq<Seq<char>> {
    if offset.segment != 0 {
        seq!["-start_number"@, decimal(offset.segment as nat)]
    } else {
        seq![]
    }
}

/// The arguments before the input.
pub open spec fn input_options(
    mode: HlsMode,
    browser: BrowserHint,
    hw_accel: HwAccel,
    device: Option<Seq<char>>,
    offset: SpawnOffset,
) -> Seq<Seq<char>> {
    probe_limits() + (if copies_video(mode, browser) {
        Seq::<Seq<char>>::empty()
    } else {
        hw_decode_args(hw_accel, device)
    }) + seek_args(offset)
}

/// The arguments after the input.
pub open spec fn output_options(
    renditions: Seq<EffectiveAudioStream>,
    mode: HlsMode,
    browser: BrowserHint,
    session_dir: Seq<char>,
    hw_accel: HwAccel,
    offset: SpawnOffset,
) -> Seq<Seq<char>> {
    seq!["-map"@, "0:v:0?"@] + audio_map_args(renditions.len() as int) + seq!["-sn"@] + (
    if copies_video(mode, browser) {
        seq!["-c:v"@, "copy"@]
    } else {
        hw_encode_args(hw_accel)
    }) + audio_codec_args(mode) + placement_args(offset) + muxer_args() + numbering_args(offset)
        + seq![
        "-hls_segment_filename"@,
        joined_path(session_dir, "seg_%v_%05d.m4s"@),
        "-var_stream_map"@,
        stream_map(renditions),
        joined_path(session_dir, "stream_%v.m3u8"@),
    ]
}

/// The audio renditions of a media item.
pub open spec fn renditions_of(item: MediaItem) -> Seq<EffectiveAudioStream> {
    Seq::new(
        item.audio_streams@.len(),
        |i: int|
            EffectiveAudioStream {
                local_index: i as usize,
                language: item.audio_streams@[i].language,
                title: item.audio_streams@[i].title,
                default: item.audio_streams@[i].default,
            },
    )
}

/// All arguments of the encoder of a session.
pub open spec fn encoder_args(
    item: MediaItem,
    mode: HlsMode,
    browser: BrowserHint,
    input_path: Seq<char>,
    session_dir: Seq<char>,
    hw_accel: HwAccel,
    device: Option<Seq<char>>,
    offset: SpawnOffset,
) -> Seq<Seq<char>> {
    input_options(mode, browser, hw_accel, device, offset) + seq!["-i"@, input_path]
        + output_options(renditions_of(item), mode, browser, session_dir, hw_accel, offset)
}

fn push_audio_maps(args: &mut Vec<String>, count: usize)
    ensures
        texts(final(args)@) == texts(old(args)@) + audio_map_args(count as int),
{
    let ghost before = texts(args@);
    let mut i: usize = 0;
    assert(texts(args@) =~= before + audio_map_args(0));
    while i < count
        invariant
            i <= count,
            texts(args@) == before + audio_map_args(i as int),
        decreases count - i,
    {
        let source: String = concat2("0:a:", decimal_text(i as u64).as_str());
        push_two(args, "-map", source.as_str());
        assert(texts(args@) =~= before + audio_map_args(i + 1));
        i = i + 1;
    }
}

fn push_muxer(args: &mut Vec<String>)
    ensures
        texts(final(args)@) == texts(old(args)@) + muxer_args(),
{
    push_two(args, "-flush_packets", "1");
    push_two(args, "-muxdelay", "0");
    push_two(args, "-muxpreload", "0");
    push_two(args, "-avoid_negative_ts", "make_zero");
    push_two(args, "-f", "hls");
    push_two(args, "-hls_time", "2");
    push_two(args, "-hls_list_size", "0");
    push_two(args, "-hls_playlist_type", "vod");
    push_two(args, "-hls_segment_type", "fmp4");
    push_two(args, "-hls_flags", "independent_segments+temp_file");
    assert(texts(args@) =~= texts(old(args)@) + muxer_args());
}

fn push_input_options(
    args: &mut Vec<String>,
    video_copy: bool,
    hw_accel: HwAccel,
    vaapi_device: Option<&str>,
    offset: SpawnOffset,
)
    ensures
        texts(final(args)@) == texts(old(args)@) + probe_limits() + (if video_copy {
            Seq::<Seq<char>>::empty()
        } else {
            hw_decode_args(hw_accel, opt_str(vaapi_device))
        }) + seek_args(offset),
{
    push_two(args, "-y", "-loglevel");
    push_two(args, "warning", "-stats");
    push_text(args, "-nostdin");
    push_two(args, "-analyzeduration", "1000000");
    push_two(args, "-probesize", "5000000");
    assert(texts(args@) =~= texts(old(args)@) + probe_limits());
    let ghost limited = texts(args@);
    if !video_copy {
        push_hw_decode_args(args, hw_accel, vaapi_device);
    }
    let ghost decoding = texts(args@);
    assert(decoding =~= limited + (if video_copy {
        Seq::<Seq<char>>::empty()
    } else {
        hw_decode_args(hw_accel, opt_str(vaapi_device))
    }));
    if offset.start_nanos > 0 {
        let seek: String = format_seconds(offset.start_nanos);
        push_two(args, "-ss", seek.as_str());
        push_text(args, "-copyts");
    }
    assert(texts(args@) =~= decoding + seek_args(offset));
}

fn push_codecs(args: &mut Vec<String>, mode: HlsMode, video_copy: bool, hw_accel: HwAccel)
    ensures
        texts(final(args)@) == texts(old(args)@) + ((if video_copy {
            seq!["-c:v"@, "copy"@]
        } else {
            hw_encode_args(hw_accel)
        }) + audio_codec_args(mode)),
{
    if video_copy {
        push_two(args, "-c:v", "copy");
    } else {
        push_hw_encode_args(args, hw_accel);
    }
    let ghost video: Seq<Seq<char>> = if video_copy {
        seq!["-c:v"@, "copy"@]
    } else {
        hw_encode_args(hw_accel)
    };
    assert(texts(args@) =~= texts(old(args)@) + video);
    match mode {
        HlsMode::HlsRemux => push_two(args, "-c:a", "copy"),
        _ => {
            push_two(args, "-c:a", "aac");
            push_two(args, "-b:a", "192k");
            push_two(args, "-ac", "2");
        },
    }
    assert(texts(args@) =~= texts(old(args)@) + (video + audio_codec_args(mode)));
}

fn push_placement(args: &mut Vec<String>, offset: SpawnOffset)
    ensures
        texts(final(args)@) == texts(old(args)@) + placement_args(offset),
{
    if offset.start_nanos > 0 {
        let seek: String = format_seconds(offset.start_nanos);
        push_two(args, "-output_ts_offset", seek.as_str());
    }
    assert(texts(args@) =~= texts(old(args)@) + placement_args(offset));
}

fn push_numbering(args: &mut Vec<String>, offset: SpawnOffset)
    ensures
        texts(final(args)@) == texts(old(args)@) + numbering_args(offset),
{
    if offset.segment != 0 {
        let number: String = decimal_text(offset.segment as u64);
        push_two(args, "-start_number", number.as_str());
    }
    assert(texts(args@) =~= texts(old(args)@) + numbering_args(offset));
}

fn push_targets(
    args: &mut Vec<String>,
    audio_streams: &Vec<EffectiveAudioStream>,
    session_dir: &str,
)
    requires
        are_renditions(audio_streams@),
    ensures
        texts(final(args)@) == texts(old(args)@) + seq![
            "-hls_segment_filename"@,
            joined_path(session_dir@, "seg_%v_%05d.m4s"@),
            "-var_stream_map"@,
            stream_map(audio_streams@),
            joined_path(session_dir@, "stream_%v.m3u8"@),
        ],
{
    let segments: String = join_path(session_dir, "seg_%v_%05d.m4s");
    push_two(args, "-hls_segment_filename", segments.as_str());
    let map: String = build_var_stream_map(audio_streams);
    push_two(args, "-var_stream_map", map.as_str());
    let playlists: String = join_path(session_dir, "stream_%v.m3u8");
    push_text(args, playlists.as_str());
    assert(texts(args@) =~= texts(old(args)@) + seq![
        "-hls_segment_filename"@,
        joined_path(session_dir@, "seg_%v_%05d.m4s"@),
        "-var_stream_map"@,
        stream_map(audio_streams@),
        joined_path(session_dir@, "stream_%v.m3u8"@),
    ]);
}

/// The arguments of the encoder of a session.
pub fn build_ffmpeg_args(
    item: &MediaItem,
    mode: HlsMode,
    browser: BrowserHint,
    input_path: &str,
    session_dir: &str,
    hw_accel: HwAccel,
    vaapi_device: Option<&str>,
    offset: SpawnOffset,
) -> (r: Vec<String>)
    ensures
        texts(r@) == encoder_args(
            *item,
            mode,
            browser,
            input_path@,
            session_dir@,
            hw_accel,
            opt_str(vaapi_device),
            offset,
        ),
{
    let video_copy: bool = match (mode, browser) {
        (HlsMode::HlsFullTranscode, BrowserHint::Generic) => false,
        _ => true,
    };
    let mut args: Vec<String> = Vec::new();
    assert(texts(args@) =~= seq![]);
    push_input_options(&mut args, video_copy, hw_accel, vaapi_device, offset);
    let ghost options = input_options(mode, browser, hw_accel, opt_str(vaapi_device), offset);
    assert(seq![] + probe_limits() =~= probe_limits());
    assert(texts(args@) == options);
    push_two(&mut args, "-i", input_path);
    let ghost input = seq!["-i"@, input_path@];
    let audio_streams: Vec<EffectiveAudioStream> = effective_audio_streams(&item.audio_streams);
    assert(audio_streams@ =~= renditions_of(*item));
    push_two(&mut args, "-map", "0:v:0?");
    let ghost video_map = seq!["-map"@, "0:v:0?"@];
    push_audio_maps(&mut args, audio_streams.len());
    let ghost audio_maps = audio_map_args(audio_streams@.len() as int);
    push_text(&mut args, "-sn");
    push_codecs(&mut args, mode, video_copy, hw_accel);
    let ghost video: Seq<Seq<char>> = if copies_video(mode, browser) {
        seq!["-c:v"@, "copy"@]
    } else {
        hw_encode_args(hw_accel)
    };
    push_placement(&mut args, offset);
    push_muxer(&mut args);
    push_numbering(&mut args, offset);
    push_targets(&mut args, &audio_streams, session_dir);
    let ghost targets = seq![
        "-hls_segment_filename"@,
        joined_path(session_dir@, "seg_%v_%05d.m4s"@),
        "-var_stream_map"@,
        stream_map(audio_streams@),
        joined_path(session_dir@, "stream_%v.m3u8"@),
    ];
    proof {
        lemma_regroup(
            options,
            input,
            video_map,
            audio_maps,
            seq!["-sn"@],
            video,
            audio_codec_args(mode),
            placement_args(offset),
            muxer_args(),
            numbering_args(offset),
            targets,
        );
        let pushed = options + input + video_map + audio_maps + seq!["-sn"@] + (video
            + audio_codec_args(mode)) + placement_args(offset) + muxer_args() + numbering_args(offset)
            + targets;
        assert(texts(args@) =~= pushed);
    }
    args
}

/// Lists in a row give the same list however they are grouped.
proof fn lemma_regroup(
    a: Seq<Seq<char>>,
    b: Seq<Seq<char>>,
    c: Seq<Seq<char>>,
    d: Seq<Seq<char>>,
    e: Seq<Seq<char>>,
    f: Seq<Seq<char>>,
    g: Seq<Seq<char>>,
    h: Seq<Seq<char>>,
    i: Seq<Seq<char>>,
    j: Seq<Seq<char>>,
    k: Seq<Seq<char>>,
)
    ensures
        a + b + c + d + e + (f + g) + h + i + j + k == a + b + (c + d + e + f + g + h + i + j + k),
{
    assert(a + b + c + d + e + (f + g) + h + i + j + k =~= a + b + (c + d + e + f + g + h + i + j
        + k));
}

/// A session that copies video never touches the hardware: its arguments are
/// the same whatever hardware is configured.
pub proof fn law_copied_video_ignores_hardware(
    item: MediaItem,
    mode: HlsMode,
    browser: BrowserHint,
    input_path: Seq<char>,
    session_dir: Seq<char>,
    hw_accel: HwAccel,
    device: Option<Seq<char>>,
    offset: SpawnOffset,
)
    requires
        copies_video(mode, browser),
    ensures
        encoder_args(item, mode, browser, input_path, session_dir, hw_accel, device, offset)
            == encoder_args(
            item,
            mode,
            browser,
            input_path,
            session_dir,
            HwAccel::Software,
            None,
            offset,
        ),
{
}

/// An encoder that starts at the beginning neither seeks nor renumbers. One that
/// starts later seeks right before the input, keeping the times of the source,
/// places its output at that same time, and numbers its segments from the one
/// that was asked for.
pub proof fn law_seek_goes_before_the_input(
    item: MediaItem,
    mode: HlsMode,
    browser: BrowserHint,
    input_path: Seq<char>,
    session_dir: Seq<char>,
    hw_accel: HwAccel,
    device: Option<Seq<char>>,
    offset: SpawnOffset,
)
    ensures
        offset.start_nanos == 0 ==> seek_args(offset) == Seq::<Seq<char>>::empty(),
        offset.start_nanos == 0 ==> placement_args(offset) == Seq::<Seq<char>>::empty(),
        offset.segment == 0 ==> numbering_args(offset) == Seq::<Seq<char>>::empty(),
        offset.segment != 0 ==> numbering_args(offset) == seq![
            "-start_number"@,
            decimal(offset.segment as nat),
        ],
        ({
            let options = input_options(mode, browser, hw_accel, device, offset);
            let args = encoder_args(
                item,
                mode,
                browser,
                input_path,
                session_dir,
                hw_accel,
                device,
                offset,
            );
            let n = options.len() as int;
            &&& args[n] == "-i"@
            &&& args[n + 1] == input_path
            &&& offset.start_nanos > 0 ==> args.subrange(n - 3, n) == seq![
                "-ss"@,
                seconds_of(offset.start_nanos as nat),
                "-copyts"@,
            ]
            &&& offset.start_nanos > 0 ==> exists|k: int|
                n + 2 <= k < args.len() - 1 && #[trigger] args[k] == "-output_ts_offset"@ && args[k
                    + 1] == seconds_of(offset.start_nanos as nat)
        }),
{
    let options = input_options(mode, browser, hw_accel, device, offset);
    let args = encoder_args(
        item,
        mode,
        browser,
        input_path,
        session_dir,
        hw_accel,
        device,
        offset,
    );
    let n = options.len() as int;
    let tail = output_options(renditions_of(item), mode, browser, session_dir, hw_accel, offset);
    assert(args =~= options + seq!["-i"@, input_path] + tail);
    if offset.start_nanos > 0 {
        assert(args.subrange(n - 3, n) =~= seek_args(offset));
        let video = if copies_video(mode, browser) {
            seq!["-c:v"@, "copy"@]
        } else {
            hw_encode_args(hw_accel)
        };
        let before = seq!["-map"@, "0:v:0?"@] + audio_map_args(renditions_of(item).len() as int)
            + seq!["-sn"@] + video + audio_codec_args(mode);
        let k = n + 2 + before.len();
        assert(tail.subrange(before.len() as int, before.len() as int + 2) =~= placement_args(offset));
        assert(tail[before.len() as int] == placement_args(offset)[0]);
        assert(tail[before.len() as int + 1] == placement_args(offset)[1]);
        assert(args[k] == "-output_ts_offset"@);
    }
}

/// Whether an argument is one of the options that choose streams, codecs, the
/// format, the place in time, the numbering and the output.
pub open spec fn is_choice(text: Seq<char>) -> bool {
    ||| text == "-map"@
    ||| text == "-c:v"@
    ||| text == "-c:a"@
    ||| text == "-sn"@
    ||| text == "-f"@
    ||| text == "-output_ts_offset"@
    ||| text == "-start_number"@
    ||| text == "-hls_segment_filename"@
    ||| text == "-var_stream_map"@
}

/// Whether the given option is the only choice among the arguments.
spec fn sets_only(args: Seq<Seq<char>>, option: Seq<char>) -> bool {
    forall|k: int| 0 <= k < args.len() && is_choice(#[trigger] args[k]) ==> args[k] == option
}

/// Whether an option stands once among the arguments from `from` on, with the
/// given value behind it.
pub open spec fn sets_once(
    args: Seq<Seq<char>>,
    from: int,
    option: Seq<char>,
    value: Seq<char>,
) -> bool {
    exists|j: int|
        from <= j < args.len() - 1 && #[trigger] args[j] == option && args[j + 1] == value && (
        forall|k: int| from <= k < args.len() && k != j ==> #[trigger] args[k] != option)
}

/// Whether an option does not stand among the arguments from `from` on.
pub open spec fn sets_never(args: Seq<Seq<char>>, from: int, option: Seq<char>) -> bool {
    forall|k: int| from <= k < args.len() ==> #[trigger] args[k] != option
}

/// The length of a text, its second and its last character.
spec fn shape(text: Seq<char>) -> (nat, char, char) {
    (text.len(), if text.len() > 1 { text[1] } else { ' ' }, text.last())
}

proof fn lemma_option_shapes()
    ensures
        shape("-map"@) == (4nat, 'm', 'p') && "-map"@[0] == '-',
        shape("-c:v"@) == (4nat, 'c', 'v') && "-c:v"@[0] == '-',
        shape("-c:a"@) == (4nat, 'c', 'a') && "-c:a"@[0] == '-',
        shape("-sn"@) == (3nat, 's', 'n') && "-sn"@[0] == '-',
        shape("-f"@) == (2nat, 'f', 'f') && "-f"@[0] == '-',
        shape("-output_ts_offset"@) == (17nat, 'o', 't') && "-output_ts_offset"@[0] == '-',
        shape("-start_number"@) == (13nat, 's', 'r') && "-start_number"@[0] == '-',
        shape("-hls_segment_filename"@) == (21nat, 'h', 'e') && "-hls_segment_filename"@[0] == '-',
        shape("-var_stream_map"@) == (15nat, 'v', 'p') && "-var_stream_map"@[0] == '-',
{
    reveal_strlit("-map");
    reveal_strlit("-c:v");
    reveal_strlit("-c:a");
    reveal_strlit("-sn");
    reveal_strlit("-f");
    reveal_strlit("-output_ts_offset");
    reveal_strlit("-start_number");
    reveal_strlit("-hls_segment_filename");
    reveal_strlit("-var_stream_map");
}

proof fn lemma_muxer_choice()
    ensures
        sets_only(muxer_args(), "-f"@),
{
    lemma_option_shapes();
    reveal_strlit("-flush_packets");
    assert(shape("-flush_packets"@) == (14nat, 'f', 's'));
    reveal_strlit("1");
    assert(shape("1"@) == (1nat, ' ', '1'));
    reveal_strlit("-muxdelay");
    assert(shape("-muxdelay"@) == (9nat, 'm', 'y'));
    reveal_strlit("0");
    assert(shape("0"@) == (1nat, ' ', '0'));
    reveal_strlit("-muxpreload");
    assert(shape("-muxpreload"@) == (11nat, 'm', 'd'));
    reveal_strlit("-avoid_negative_ts");
    assert(shape("-avoid_negative_ts"@) == (18nat, 'a', 's'));
    reveal_strlit("make_zero");
    assert(shape("make_zero"@) == (9nat, 'a', 'o'));
    reveal_strlit("hls");
    assert(shape("hls"@) == (3nat, 'l', 's'));
    reveal_strlit("-hls_time");
    assert(shape("-hls_time"@) == (9nat, 'h', 'e'));
    reveal_strlit("2");
    assert(shape("2"@) == (1nat, ' ', '2'));
    reveal_strlit("-hls_list_size");
    assert(shape("-hls_list_size"@) == (14nat, 'h', 'e'));
    reveal_strlit("-hls_playlist_type");
    assert(shape("-hls_playlist_type"@) == (18nat, 'h', 'e'));
    reveal_strlit("vod");
    assert(shape("vod"@) == (3nat, 'o', 'd'));
    reveal_strlit("-hls_segment_type");
    assert(shape("-hls_segment_type"@) == (17nat, 'h', 'e'));
    reveal_strlit("fmp4");
    assert(shape("fmp4"@) == (4nat, 'm', '4'));
    reveal_strlit("-hls_flags");
    assert(shape("-hls_flags"@) == (10nat, 'h', 's'));
    reveal_strlit("independent_segments+temp_file");
    assert(shape("independent_segments+temp_file"@) == (30nat, 'n', 'e'));
}

proof fn lemma_copy_choice()
    ensures
        sets_only(seq!["-c:v"@, "copy"@], "-c:v"@),
{
    lemma_option_shapes();
    reveal_strlit("copy");
    assert(shape("copy"@) == (4nat, 'o', 'y'));
}

proof fn lemma_software_choice()
    ensures
        sets_only(hw_encode_args(HwAccel::Software), "-c:v"@),
{
    lemma_option_shapes();
    reveal_strlit("libx264");
    assert(shape("libx264"@) == (7nat, 'i', '4'));
    reveal_strlit("-preset");
    assert(shape("-preset"@) == (7nat, 'p', 't'));
    reveal_strlit("veryfast");
    assert(shape("veryfast"@) == (8nat, 'e', 't'));
    reveal_strlit("-tune");
    assert(shape("-tune"@) == (5nat, 't', 'e'));
    reveal_strlit("zerolatency");
    assert(shape("zerolatency"@) == (11nat, 'e', 'y'));
    reveal_strlit("-pix_fmt");
    assert(shape("-pix_fmt"@) == (8nat, 'p', 't'));
    reveal_strlit("yuv420p");
    assert(shape("yuv420p"@) == (7nat, 'u', 'p'));
    reveal_strlit("-force_key_frames");
    assert(shape("-force_key_frames"@) == (17nat, 'f', 's'));
    reveal_strlit("expr:gte(t,n_forced*2)");
    assert(shape("expr:gte(t,n_forced*2)"@) == (22nat, 'x', ')'));
}

proof fn lemma_nvenc_choice()
    ensures
        sets_only(hw_encode_args(HwAccel::Nvenc), "-c:v"@),
{
    lemma_option_shapes();
    reveal_strlit("h264_nvenc");
    assert(shape("h264_nvenc"@) == (10nat, '2', 'c'));
    reveal_strlit("-preset");
    assert(shape("-preset"@) == (7nat, 'p', 't'));
    reveal_strlit("p4");
    assert(shape("p4"@) == (2nat, '4', '4'));
    reveal_strlit("-tune");
    assert(shape("-tune"@) == (5nat, 't', 'e'));
    reveal_strlit("ll");
    assert(shape("ll"@) == (2nat, 'l', 'l'));
    reveal_strlit("-rc");
    assert(shape("-rc"@) == (3nat, 'r', 'c'));
    reveal_strlit("vbr");
    assert(shape("vbr"@) == (3nat, 'b', 'r'));
    reveal_strlit("-b:v");
    assert(shape("-b:v"@) == (4nat, 'b', 'v'));
    reveal_strlit("4M");
    assert(shape("4M"@) == (2nat, 'M', 'M'));
    reveal_strlit("-maxrate");
    assert(shape("-maxrate"@) == (8nat, 'm', 'e'));
    reveal_strlit("6M");
    assert(shape("6M"@) == (2nat, 'M', 'M'));
    reveal_strlit("-bufsize");
    assert(shape("-bufsize"@) == (8nat, 'b', 'e'));
    reveal_strlit("8M");
    assert(shape("8M"@) == (2nat, 'M', 'M'));
    reveal_strlit("-force_key_frames");
    assert(shape("-force_key_frames"@) == (17nat, 'f', 's'));
    reveal_strlit("expr:gte(t,n_forced*2)");
    assert(shape("expr:gte(t,n_forced*2)"@) == (22nat, 'x', ')'));
}

proof fn lemma_vaapi_choice()
    ensures
        sets_only(hw_encode_args(HwAccel::Vaapi), "-c:v"@),
{
    lemma_option_shapes();
    reveal_strlit("-vf");
    assert(shape("-vf"@) == (3nat, 'v', 'f'));
    reveal_strlit("format=nv12|vaapi,hwupload,scale_vaapi=format=nv12");
    assert(shape("format=nv12|vaapi,hwupload,scale_vaapi=format=nv12"@) == (50nat, 'o', '2'));
    reveal_strlit("h264_vaapi");
    assert(shape("h264_vaapi"@) == (10nat, '2', 'i'));
    reveal_strlit("-qp");
    assert(shape("-qp"@) == (3nat, 'q', 'p'));
    reveal_strlit("23");
    assert(shape("23"@) == (2nat, '3', '3'));
    reveal_strlit("-force_key_frames");
    assert(shape("-force_key_frames"@) == (17nat, 'f', 's'));
    reveal_strlit("expr:gte(t,n_forced*2)");
    assert(shape("expr:gte(t,n_forced*2)"@) == (22nat, 'x', ')'));
}

proof fn lemma_qsv_choice()
    ensures
        sets_only(hw_encode_args(HwAccel::Qsv), "-c:v"@),
{
    lemma_option_shapes();
    reveal_strlit("h264_qsv");
    assert(shape("h264_qsv"@) == (8nat, '2', 'v'));
    reveal_strlit("-preset");
    assert(shape("-preset"@) == (7nat, 'p', 't'));
    reveal_strlit("veryfast");
    assert(shape("veryfast"@) == (8nat, 'e', 't'));
    reveal_strlit("-global_quality");
    assert(shape("-global_quality"@) == (15nat, 'g', 'y'));
    reveal_strlit("23");
    assert(shape("23"@) == (2nat, '3', '3'));
    reveal_strlit("-look_ahead");
    assert(shape("-look_ahead"@) == (11nat, 'l', 'd'));
    reveal_strlit("0");
    assert(shape("0"@) == (1nat, ' ', '0'));
    reveal_strlit("-force_key_frames");
    assert(shape("-force_key_frames"@) == (17nat, 'f', 's'));
    reveal_strlit("expr:gte(t,n_forced*2)");
    assert(shape("expr:gte(t,n_forced*2)"@) == (22nat, 'x', ')'));
}

proof fn lemma_videotoolbox_choice()
    ensures
        sets_only(hw_encode_args(HwAccel::VideoToolbox), "-c:v"@),
{
    lemma_option_shapes();
    reveal_strlit("h264_videotoolbox");
    assert(shape("h264_videotoolbox"@) == (17nat, '2', 'x'));
    reveal_strlit("-b:v");
    assert(shape("-b:v"@) == (4nat, 'b', 'v'));
    reveal_strlit("4M");
    assert(shape("4M"@) == (2nat, 'M', 'M'));
    reveal_strlit("-force_key_frames");
    assert(shape("-force_key_frames"@) == (17nat, 'f', 's'));
    reveal_strlit("expr:gte(t,n_forced*2)");
    assert(shape("expr:gte(t,n_forced*2)"@) == (22nat, 'x', ')'));
}

proof fn lemma_audio_codec_choice(mode: HlsMode)
    ensures
        sets_only(audio_codec_args(mode), "-c:a"@),
{
    lemma_option_shapes();
    reveal_strlit("copy");
    assert(shape("copy"@) == (4nat, 'o', 'y'));
    reveal_strlit("aac");
    assert(shape("aac"@) == (3nat, 'a', 'c'));
    reveal_strlit("-b:a");
    assert(shape("-b:a"@) == (4nat, 'b', 'a'));
    reveal_strlit("192k");
    assert(shape("192k"@) == (4nat, '9', 'k'));
    reveal_strlit("-ac");
    assert(shape("-ac"@) == (3nat, 'a', 'c'));
    reveal_strlit("2");
    assert(shape("2"@) == (1nat, ' ', '2'));
}

proof fn lemma_placement_choice(offset: SpawnOffset)
    ensures
        sets_only(placement_args(offset), "-output_ts_offset"@),
{
    lemma_option_shapes();
    let text = seconds_of(offset.start_nanos as nat);
    let whole = nearest_milli(offset.start_nanos as nat) / 1000;
    lemma_decimal(whole);
    assert(text[0] == decimal(whole)[0]);
    assert(is_digit(text[0]));
}

proof fn lemma_numbering_choice(offset: SpawnOffset)
    ensures
        sets_only(numbering_args(offset), "-start_number"@),
{
    lemma_option_shapes();
    let text = decimal(offset.segment as nat);
    lemma_decimal(offset.segment as nat);
    assert(is_digit(text[0]));
}

proof fn lemma_segment_target_choice(session_dir: Seq<char>)
    ensures
        sets_only(segment_target_args(session_dir), "-hls_segment_filename"@),
{
    lemma_option_shapes();
    let segments = joined_path(session_dir, "seg_%v_%05d.m4s"@);
    reveal_strlit("seg_%v_%05d.m4s");
    reveal_strlit("/");
    assert(shape(segments).2 == 's');
}

proof fn lemma_playlist_target_choice(list: Seq<EffectiveAudioStream>, session_dir: Seq<char>)
    ensures
        sets_only(playlist_target_args(list, session_dir), "-var_stream_map"@),
{
    lemma_option_shapes();
    let playlists = joined_path(session_dir, "stream_%v.m3u8"@);
    reveal_strlit("stream_%v.m3u8");
    reveal_strlit("/");
    assert(shape(playlists).2 == '8');
    lemma_stream_map_starts_with_video(list);
    let map = stream_map(list);
    assert(map[0] == 'v');
}

proof fn lemma_video_map_choice()
    ensures
        sets_only(seq!["-map"@, "0:v:0?"@], "-map"@),
{
    lemma_option_shapes();
    reveal_strlit("0:v:0?");
    assert(shape("0:v:0?"@) == (6nat, ':', '?'));
}

/// The arguments that say where the segments go.
spec fn segment_target_args(session_dir: Seq<char>) -> Seq<Seq<char>> {
    seq!["-hls_segment_filename"@, joined_path(session_dir, "seg_%v_%05d.m4s"@)]
}

/// The arguments that say where the playlists go.
spec fn playlist_target_args(list: Seq<EffectiveAudioStream>, session_dir: Seq<char>) -> Seq<
    Seq<char>,
> {
    seq!["-var_stream_map"@, stream_map(list), joined_path(session_dir, "stream_%v.m3u8"@)]
}

proof fn lemma_audio_maps(n: int, k: int)
    requires
        n >= 0,
    ensures
        audio_map_args(n).len() == 2 * n,
        0 <= k < n ==> audio_map_args(n)[2 * k] == "-map"@ && audio_map_args(n)[2 * k + 1]
            == "0:a:"@ + decimal(k as nat),
    decreases n,
{
    if n > 0 {
        lemma_audio_maps(n - 1, k);
    }
}

proof fn lemma_audio_maps_choice(n: int)
    requires
        n >= 0,
    ensures
        sets_only(audio_map_args(n), "-map"@),
{
    lemma_option_shapes();
    reveal_strlit("0:a:");
    assert forall|k: int| 0 <= k < audio_map_args(n).len() && is_choice(
        #[trigger] audio_map_args(n)[k],
    ) implies audio_map_args(n)[k] == "-map"@ by {
        lemma_audio_maps(n, k / 2);
        if k % 2 == 1 {
            assert(audio_map_args(n)[k][0] == '0');
        }
    }
}

/// The arguments after the input, part by part.
spec fn output_parts(
    list: Seq<EffectiveAudioStream>,
    mode: HlsMode,
    browser: BrowserHint,
    session_dir: Seq<char>,
    hw_accel: HwAccel,
    offset: SpawnOffset,
) -> Seq<Seq<Seq<char>>> {
    seq![
        seq!["-map"@, "0:v:0?"@],
        audio_map_args(list.len() as int),
        seq!["-sn"@],
        if copies_video(mode, browser) {
            seq!["-c:v"@, "copy"@]
        } else {
            hw_encode_args(hw_accel)
        },
        audio_codec_args(mode),
        placement_args(offset),
        muxer_args(),
        numbering_args(offset),
        segment_target_args(session_dir),
        playlist_target_args(list, session_dir),
    ]
}

/// The choice that each part of the arguments after the input makes.
spec fn choice_of(part: int) -> Seq<char> {
    if part <= 1 {
        "-map"@
    } else if part == 2 {
        "-sn"@
    } else if part == 3 {
        "-c:v"@
    } else if part == 4 {
        "-c:a"@
    } else if part == 5 {
        "-output_ts_offset"@
    } else if part == 6 {
        "-f"@
    } else if part == 7 {
        "-start_number"@
    } else if part == 8 {
        "-hls_segment_filename"@
    } else {
        "-var_stream_map"@
    }
}

/// The lists from `a` up to `b`, one behind the other.
spec fn flat(parts: Seq<Seq<Seq<char>>>, a: int, b: int) -> Seq<Seq<char>>
    decreases b - a,
{
    if a >= b {
        seq![]
    } else {
        flat(parts, a, b - 1) + parts[b - 1]
    }
}

proof fn lemma_flat_split(parts: Seq<Seq<Seq<char>>>, a: int, m: int, b: int)
    requires
        a <= m <= b,
    ensures
        flat(parts, a, b) == flat(parts, a, m) + flat(parts, m, b),
    decreases b - m,
{
    if m < b {
        lemma_flat_split(parts, a, m, b - 1);
    }
    assert(flat(parts, a, b) =~= flat(parts, a, m) + flat(parts, m, b));
}

proof fn lemma_flat_lacks(parts: Seq<Seq<Seq<char>>>, a: int, b: int, option: Seq<char>)
    requires
        0 <= a <= b <= parts.len(),
        is_choice(option),
        forall|p: int| a <= p < b ==> sets_only(#[trigger] parts[p], choice_of(p)),
        forall|p: int| a <= p < b ==> #[trigger] choice_of(p) != option,
    ensures
        sets_never(flat(parts, a, b), 0, option),
    decreases b - a,
{
    if a < b {
        lemma_flat_lacks(parts, a, b - 1, option);
        let before = flat(parts, a, b - 1);
        let last = parts[b - 1];
        assert(choice_of(b - 1) != option);
        assert forall|k: int| 0 <= k < flat(parts, a, b).len() implies #[trigger] flat(
            parts,
            a,
            b,
        )[k] != option by {
            if k < before.len() {
                assert(flat(parts, a, b)[k] == before[k]);
            } else {
                assert(flat(parts, a, b)[k] == last[k - before.len()]);
            }
        }
    }
}

proof fn lemma_parts(
    list: Seq<EffectiveAudioStream>,
    mode: HlsMode,
    browser: BrowserHint,
    session_dir: Seq<char>,
    hw_accel: HwAccel,
    offset: SpawnOffset,
)
    ensures
        output_options(list, mode, browser, session_dir, hw_accel, offset) == flat(
            output_parts(list, mode, browser, session_dir, hw_accel, offset),
            0,
            10,
        ),
        forall|p: int|
            0 <= p < 10 ==> sets_only(
                #[trigger] output_parts(list, mode, browser, session_dir, hw_accel, offset)[p],
                choice_of(p),
            ),
        forall|p: int| 0 <= p < 10 ==> is_choice(#[trigger] choice_of(p)),
        forall|p: int, r: int|
            0 <= p < r < 10 && r > 1 ==> #[trigger] choice_of(p) != #[trigger] choice_of(r),
{
    let parts = output_parts(list, mode, browser, session_dir, hw_accel, offset);
    reveal_with_fuel(flat, 11);
    assert(output_options(list, mode, browser, session_dir, hw_accel, offset) =~= flat(
        parts,
        0,
        10,
    ));
    lemma_option_shapes();
    lemma_video_map_choice();
    lemma_audio_maps_choice(list.len() as int);
    lemma_copy_choice();
    match hw_accel {
        HwAccel::Software => lemma_software_choice(),
        HwAccel::Nvenc => lemma_nvenc_choice(),
        HwAccel::Vaapi => lemma_vaapi_choice(),
        HwAccel::Qsv => lemma_qsv_choice(),
        HwAccel::VideoToolbox => lemma_videotoolbox_choice(),
    }
    lemma_audio_codec_choice(mode);
    lemma_placement_choice(offset);
    lemma_muxer_choice();
    lemma_numbering_choice(offset);
    lemma_segment_target_choice(session_dir);
    lemma_playlist_target_choice(list, session_dir);
}

/// A choice is set once, as its part of the arguments sets it.
proof fn lemma_choice(
    args: Seq<Seq<char>>,
    head: Seq<Seq<char>>,
    parts: Seq<Seq<Seq<char>>>,
    p: int,
    place: int,
)
    requires
        1 < p < 10,
        parts.len() == 10,
        args == head + flat(parts, 0, 10),
        forall|r: int| 0 <= r < 10 ==> sets_only(#[trigger] parts[r], choice_of(r)),
        forall|r: int| 0 <= r < 10 ==> is_choice(#[trigger] choice_of(r)),
        forall|r: int, s: int|
            0 <= r < s < 10 && s > 1 ==> #[trigger] choice_of(r) != #[trigger] choice_of(s),
        parts[p].len() > 0 ==> 0 <= place < parts[p].len() - 1 && parts[p][place] == choice_of(p)
            && forall|k: int|
            0 <= k < parts[p].len() && k != place ==> #[trigger] parts[p][k] != choice_of(p),
    ensures
        parts[p].len() > 0 ==> sets_once(
            args,
            head.len() as int,
            choice_of(p),
            parts[p][place + 1],
        ),
        parts[p].len() == 0 ==> sets_never(args, head.len() as int, choice_of(p)),
{
    let option = choice_of(p);
    let before = flat(parts, 0, p);
    let part = parts[p];
    let after = flat(parts, p + 1, 10);
    lemma_flat_split(parts, 0, p, 10);
    lemma_flat_split(parts, p, p + 1, 10);
    reveal_with_fuel(flat, 2);
    assert(flat(parts, p, p + 1) =~= part);
    assert(args =~= head + (before + part + after));
    lemma_flat_lacks(parts, 0, p, option);
    lemma_flat_lacks(parts, p + 1, 10, option);
    let j = head.len() + before.len() + place;
    if part.len() > 0 {
        assert(args[j] == part[place]);
        assert(args[j + 1] == part[place + 1]);
    }
    assert forall|k: int|
        head.len() <= k < args.len() && (part.len() == 0 || k != j) implies #[trigger] args[k]
        != option by {
        let m = k - head.len();
        if m < before.len() {
            assert(args[k] == before[m]);
        } else if m < before.len() + part.len() {
            assert(args[k] == part[m - before.len()]);
        } else {
            assert(args[k] == after[m - before.len() - part.len()]);
        }
    }
}

/// The parts that map streams come first, then the one that leaves out subtitles.
proof fn lemma_maps_come_first(parts: Seq<Seq<Seq<char>>>)
    requires
        parts.len() == 10,
        parts[2].len() == 1,
    ensures
        flat(parts, 0, 10) == parts[0] + parts[1] + flat(parts, 2, 10),
        flat(parts, 2, 10).len() > 0,
        flat(parts, 2, 10)[0] == parts[2][0],
{
    lemma_flat_split(parts, 0, 2, 10);
    lemma_flat_split(parts, 2, 3, 10);
    reveal_with_fuel(flat, 3);
    assert(flat(parts, 0, 2) =~= parts[0] + parts[1]);
    assert(flat(parts, 2, 3) =~= parts[2]);
}

proof fn lemma_behind(head: Seq<Seq<char>>, rest: Seq<Seq<char>>, option: Seq<char>)
    requires
        sets_never(rest, 0, option),
    ensures
        sets_never(head + rest, head.len() as int, option),
{
    assert forall|j: int| head.len() <= j < (head + rest).len() implies #[trigger] (head + rest)[j]
        != option by {
        assert((head + rest)[j] == rest[j - head.len()]);
    }
}

/// Every audio stream of the source is sent exactly once, in order: after the
/// input and the video, the audio stream `k` is mapped at place `k`, by its
/// number among the audio streams, and nothing is mapped after the last.
pub proof fn law_every_audio_stream_is_mapped_in_order(
    item: MediaItem,
    mode: HlsMode,
    browser: BrowserHint,
    input_path: Seq<char>,
    session_dir: Seq<char>,
    hw_accel: HwAccel,
    device: Option<Seq<char>>,
    offset: SpawnOffset,
    k: int,
)
    requires
        0 <= k < item.audio_streams@.len(),
    ensures
        ({
            let args = encoder_args(
                item,
                mode,
                browser,
                input_path,
                session_dir,
                hw_accel,
                device,
                offset,
            );
            let start = input_options(mode, browser, hw_accel, device, offset).len() as int;
            let n = item.audio_streams@.len() as int;
            let source = args[start + 5 + 2 * k];
            &&& args[start] == "-i"@ && args[start + 1] == input_path
            &&& args[start + 2] == "-map"@ && args[start + 3] == "0:v:0?"@
            &&& args[start + 4 + 2 * k] == "-map"@
            &&& source.take(4) == "0:a:"@ && all_digits(source.skip(4)) && numeral_value(
                source.skip(4),
            ) == k
            &&& args[start + 4 + 2 * n] == "-sn"@
            &&& sets_never(args, start + 4 + 2 * n, "-map"@)
        }),
{
    let args = encoder_args(
        item,
        mode,
        browser,
        input_path,
        session_dir,
        hw_accel,
        device,
        offset,
    );
    let options = input_options(mode, browser, hw_accel, device, offset);
    let start = options.len() as int;
    let list = renditions_of(item);
    let n = list.len() as int;
    let parts = output_parts(list, mode, browser, session_dir, hw_accel, offset);
    lemma_parts(list, mode, browser, session_dir, hw_accel, offset);
    lemma_audio_maps(n, k);
    lemma_maps_come_first(parts);
    let maps = seq!["-map"@, "0:v:0?"@] + audio_map_args(n);
    let rest = flat(parts, 2, 10);
    let head = options + seq!["-i"@, input_path] + maps;
    assert(flat(parts, 0, 10) == maps + rest);
    assert(args =~= head + rest);
    assert(choice_of(0) == "-map"@);
    lemma_flat_lacks(parts, 2, 10, "-map"@);
    lemma_behind(head, rest, "-map"@);
    assert(head.len() == start + 4 + 2 * n);
    assert(args[start + 4 + 2 * n] == rest[0]);
    assert(args[start + 4 + 2 * k] == maps[2 + 2 * k]);
    assert(args[start + 5 + 2 * k] == maps[3 + 2 * k]);
    reveal_strlit("0:a:");
    lemma_decimal(k as nat);
    let source = args[start + 5 + 2 * k];
    assert(source.take(4) =~= "0:a:"@);
    assert(source.skip(4) =~= decimal(k as nat));
}

/// Whether a name is that of an H.264 encoder.
pub open spec fn is_h264_encoder(name: Seq<char>) -> bool {
    ||| name == "libx264"@
    ||| name == "h264_nvenc"@
    ||| name == "h264_vaapi"@
    ||| name == "h264_qsv"@
    ||| name == "h264_videotoolbox"@
}

/// The output has one video codec and one audio codec. Video is encoded as H.264 in
/// a full transcode for a browser that does not take the source's video; it is
/// copied otherwise. Audio is copied when the file is only repackaged and becomes
/// AAC otherwise.
pub proof fn law_codecs_follow_the_mode(
    item: MediaItem,
    mode: HlsMode,
    browser: BrowserHint,
    input_path: Seq<char>,
    session_dir: Seq<char>,
    hw_accel: HwAccel,
    device: Option<Seq<char>>,
    offset: SpawnOffset,
)
    ensures
        ({
            let args = encoder_args(
                item,
                mode,
                browser,
                input_path,
                session_dir,
                hw_accel,
                device,
                offset,
            );
            let from = input_options(mode, browser, hw_accel, device, offset).len() as int + 2;
            &&& mode is HlsFullTranscode && browser is Generic ==> exists|encoder: Seq<char>|
                is_h264_encoder(encoder) && #[trigger] sets_once(args, from, "-c:v"@, encoder)
            &&& !(mode is HlsFullTranscode && browser is Generic) ==> sets_once(
                args,
                from,
                "-c:v"@,
                "copy"@,
            )
            &&& mode is HlsRemux ==> sets_once(args, from, "-c:a"@, "copy"@)
            &&& !(mode is HlsRemux) ==> sets_once(args, from, "-c:a"@, "aac"@)
        }),
{
    let args = encoder_args(
        item,
        mode,
        browser,
        input_path,
        session_dir,
        hw_accel,
        device,
        offset,
    );
    let list = renditions_of(item);
    let parts = output_parts(list, mode, browser, session_dir, hw_accel, offset);
    let head = input_options(mode, browser, hw_accel, device, offset) + seq!["-i"@, input_path];
    lemma_parts(list, mode, browser, session_dir, hw_accel, offset);
    lemma_option_shapes();
    let encodes = mode is HlsFullTranscode && browser is Generic;
    let place: int = if encodes && hw_accel is Vaapi {
        2
    } else {
        0
    };
    lemma_codec_is_named_once(mode, browser, hw_accel);
    lemma_choice(args, head, parts, 3, place);
    lemma_choice(args, head, parts, 4, 0);
    if encodes {
        let encoder = parts[3][place + 1];
        assert(is_h264_encoder(encoder));
        assert(sets_once(args, head.len() as int, "-c:v"@, encoder));
    }
}

/// Video that is encoded gets a keyframe at every point of the segment grid.
pub proof fn law_encoded_video_has_keyframes_on_the_grid(
    item: MediaItem,
    browser: BrowserHint,
    input_path: Seq<char>,
    session_dir: Seq<char>,
    hw_accel: HwAccel,
    device: Option<Seq<char>>,
    offset: SpawnOffset,
)
    requires
        browser is Generic,
    ensures
        ({
            let mode = HlsMode::HlsFullTranscode;
            let args = encoder_args(
                item,
                mode,
                browser,
                input_path,
                session_dir,
                hw_accel,
                device,
                offset,
            );
            let from = input_options(mode, browser, hw_accel, device, offset).len() as int + 2;
            exists|j: int|
                from <= j < args.len() - 1 && #[trigger] args[j] == "-force_key_frames"@ && args[j
                    + 1] == "expr:gte(t,n_forced*2)"@
        }),
{
    let mode = HlsMode::HlsFullTranscode;
    let args = encoder_args(
        item,
        mode,
        browser,
        input_path,
        session_dir,
        hw_accel,
        device,
        offset,
    );
    let list = renditions_of(item);
    let video = hw_encode_args(hw_accel);
    let n = video.len() as int;
    let head = input_options(mode, browser, hw_accel, device, offset) + seq!["-i"@, input_path];
    let before = seq!["-map"@, "0:v:0?"@] + audio_map_args(list.len() as int) + seq!["-sn"@];
    let tail = output_options(list, mode, browser, session_dir, hw_accel, offset);
    let place = before.len() + n - 2;
    assert(n >= 2);
    assert(video.subrange(n - 2, n) =~= keyframe_args());
    assert(video[n - 2] == keyframe_args()[0]);
    assert(video[n - 1] == keyframe_args()[1]);
    assert(tail[place] == video[n - 2]);
    assert(tail[place + 1] == video[n - 1]);
    assert(args =~= head + tail);
    assert(args[head.len() + place] == "-force_key_frames"@);
    assert(args[head.len() + place + 1] == "expr:gte(t,n_forced*2)"@);
}

/// The video and the audio part name their codec once.
proof fn lemma_codec_is_named_once(mode: HlsMode, browser: BrowserHint, hw_accel: HwAccel)
    ensures
        ({
            let audio = audio_codec_args(mode);
            &&& audio[0] == "-c:a"@
            &&& audio.len() >= 2
            &&& forall|k: int| 0 < k < audio.len() ==> #[trigger] audio[k] != "-c:a"@
        }),
        ({
            let video = hw_encode_args(hw_accel);
            let place: int = if hw_accel is Vaapi {
                2
            } else {
                0
            };
            &&& video.len() >= 6
            &&& video[place] == "-c:v"@
            &&& is_h264_encoder(video[place + 1])
            &&& hw_accel is Software ==> video[place + 1] == "libx264"@
            &&& hw_accel is Nvenc ==> video[place + 1] == "h264_nvenc"@
            &&& hw_accel is Vaapi ==> video[place + 1] == "h264_vaapi"@
            &&& hw_accel is Qsv ==> video[place + 1] == "h264_qsv"@
            &&& hw_accel is VideoToolbox ==> video[place + 1] == "h264_videotoolbox"@
            &&& forall|k: int|
                0 <= k < video.len() && k != place ==> #[trigger] video[k] != "-c:v"@
        }),
        "copy"@ != "-c:v"@,
{
    lemma_option_shapes();
    reveal_strlit("libx264");
    assert(shape("libx264"@) == (7nat, 'i', '4'));
    reveal_strlit("-preset");
    assert(shape("-preset"@) == (7nat, 'p', 't'));
    reveal_strlit("veryfast");
    assert(shape("veryfast"@) == (8nat, 'e', 't'));
    reveal_strlit("-tune");
    assert(shape("-tune"@) == (5nat, 't', 'e'));
    reveal_strlit("zerolatency");
    assert(shape("zerolatency"@) == (11nat, 'e', 'y'));
    reveal_strlit("-pix_fmt");
    assert(shape("-pix_fmt"@) == (8nat, 'p', 't'));
    reveal_strlit("yuv420p");
    assert(shape("yuv420p"@) == (7nat, 'u', 'p'));
    reveal_strlit("h264_nvenc");
    assert(shape("h264_nvenc"@) == (10nat, '2', 'c'));
    reveal_strlit("p4");
    assert(shape("p4"@) == (2nat, '4', '4'));
    reveal_strlit("ll");
    assert(shape("ll"@) == (2nat, 'l', 'l'));
    reveal_strlit("-rc");
    assert(shape("-rc"@) == (3nat, 'r', 'c'));
    reveal_strlit("vbr");
    assert(shape("vbr"@) == (3nat, 'b', 'r'));
    reveal_strlit("-b:v");
    assert(shape("-b:v"@) == (4nat, 'b', 'v'));
    reveal_strlit("4M");
    assert(shape("4M"@) == (2nat, 'M', 'M'));
    reveal_strlit("-maxrate");
    assert(shape("-maxrate"@) == (8nat, 'm', 'e'));
    reveal_strlit("6M");
    assert(shape("6M"@) == (2nat, 'M', 'M'));
    reveal_strlit("-bufsize");
    assert(shape("-bufsize"@) == (8nat, 'b', 'e'));
    reveal_strlit("8M");
    assert(shape("8M"@) == (2nat, 'M', 'M'));
    reveal_strlit("-vf");
    assert(shape("-vf"@) == (3nat, 'v', 'f'));
    reveal_strlit("format=nv12|vaapi,hwupload,scale_vaapi=format=nv12");
    assert(shape("format=nv12|vaapi,hwupload,scale_vaapi=format=nv12"@) == (50nat, 'o', '2'));
    reveal_strlit("h264_vaapi");
    assert(shape("h264_vaapi"@) == (10nat, '2', 'i'));
    reveal_strlit("-qp");
    assert(shape("-qp"@) == (3nat, 'q', 'p'));
    reveal_strlit("23");
    assert(shape("23"@) == (2nat, '3', '3'));
    reveal_strlit("h264_qsv");
    assert(shape("h264_qsv"@) == (8nat, '2', 'v'));
    reveal_strlit("-global_quality");
    assert(shape("-global_quality"@) == (15nat, 'g', 'y'));
    reveal_strlit("-look_ahead");
    assert(shape("-look_ahead"@) == (11nat, 'l', 'd'));
    reveal_strlit("0");
    assert(shape("0"@) == (1nat, ' ', '0'));
    reveal_strlit("h264_videotoolbox");
    assert(shape("h264_videotoolbox"@) == (17nat, '2', 'x'));
    reveal_strlit("-force_key_frames");
    assert(shape("-force_key_frames"@) == (17nat, 'f', 's'));
    reveal_strlit("expr:gte(t,n_forced*2)");
    assert(shape("expr:gte(t,n_forced*2)"@) == (22nat, 'x', ')'));
    reveal_strlit("copy");
    assert(shape("copy"@) == (4nat, 'o', 'y'));
    reveal_strlit("aac");
    assert(shape("aac"@) == (3nat, 'a', 'c'));
    reveal_strlit("-b:a");
    assert(shape("-b:a"@) == (4nat, 'b', 'a'));
    reveal_strlit("192k");
    assert(shape("192k"@) == (4nat, '9', 'k'));
    reveal_strlit("-ac");
    assert(shape("-ac"@) == (3nat, 'a', 'c'));
    reveal_strlit("2");
    assert(shape("2"@) == (1nat, ' ', '2'));
}

/// The output is an HLS stream whose segments and playlists lie in the session's
/// directory. It is placed at the time of the source where it starts, and its
/// segments are numbered from the one that was asked for; neither is said for the
/// start of the source.
pub proof fn law_output_goes_to_the_session(
    item: MediaItem,
    mode: HlsMode,
    browser: BrowserHint,
    input_path: Seq<char>,
    session_dir: Seq<char>,
    hw_accel: HwAccel,
    device: Option<Seq<char>>,
    offset: SpawnOffset,
)
    ensures
        ({
            let args = encoder_args(
                item,
                mode,
                browser,
                input_path,
                session_dir,
                hw_accel,
                device,
                offset,
            );
            let from = input_options(mode, browser, hw_accel, device, offset).len() as int + 2;
            &&& sets_once(args, from, "-f"@, "hls"@)
            &&& sets_once(
                args,
                from,
                "-hls_segment_filename"@,
                joined_path(session_dir, "seg_%v_%05d.m4s"@),
            )
            &&& sets_once(args, from, "-var_stream_map"@, stream_map(renditions_of(item)))
            &&& args.last() == joined_path(session_dir, "stream_%v.m3u8"@)
            &&& offset.start_nanos == 0 ==> sets_never(args, from, "-output_ts_offset"@)
            &&& offset.start_nanos > 0 ==> sets_once(
                args,
                from,
                "-output_ts_offset"@,
                seconds_of(offset.start_nanos as nat),
            )
            &&& offset.segment == 0 ==> sets_never(args, from, "-start_number"@)
            &&& offset.segment > 0 ==> exists|number: Seq<char>|
                all_digits(number) && numeral_value(number) == offset.segment
                    && #[trigger] sets_once(args, from, "-start_number"@, number)
        }),
{
    let args = encoder_args(
        item,
        mode,
        browser,
        input_path,
        session_dir,
        hw_accel,
        device,
        offset,
    );
    let list = renditions_of(item);
    let parts = output_parts(list, mode, browser, session_dir, hw_accel, offset);
    let head = input_options(mode, browser, hw_accel, device, offset) + seq!["-i"@, input_path];
    lemma_parts(list, mode, browser, session_dir, hw_accel, offset);
    lemma_option_shapes();
    lemma_muxer_names_format_once();
    lemma_choice(args, head, parts, 6, 8);
    let time = seconds_of(offset.start_nanos as nat);
    let whole = nearest_milli(offset.start_nanos as nat) / 1000;
    lemma_decimal(whole);
    assert(time[0] == decimal(whole)[0]);
    assert(is_digit(time[0]));
    lemma_choice(args, head, parts, 5, 0);
    let number = decimal(offset.segment as nat);
    lemma_decimal(offset.segment as nat);
    assert(is_digit(number[0]));
    lemma_choice(args, head, parts, 7, 0);
    let segments = joined_path(session_dir, "seg_%v_%05d.m4s"@);
    reveal_strlit("seg_%v_%05d.m4s");
    reveal_strlit("/");
    assert(shape(segments).2 == 's');
    lemma_choice(args, head, parts, 8, 0);
    let playlists = joined_path(session_dir, "stream_%v.m3u8"@);
    reveal_strlit("stream_%v.m3u8");
    assert(shape(playlists).2 == '8');
    lemma_stream_map_starts_with_video(list);
    assert(stream_map(list)[0] == 'v');
    lemma_choice(args, head, parts, 9, 0);
    if offset.segment > 0 {
        assert(sets_once(args, head.len() as int, "-start_number"@, number));
    }
    lemma_flat_split(parts, 0, 9, 10);
    reveal_with_fuel(flat, 2);
    assert(flat(parts, 9, 10) =~= parts[9]);
    assert(args.last() == parts[9].last());
}

proof fn lemma_muxer_names_format_once()
    ensures
        muxer_args().len() > 9,
        muxer_args()[8] == "-f"@,
        muxer_args()[9] == "hls"@,
        forall|k: int| 0 <= k < muxer_args().len() && k != 8 ==> #[trigger] muxer_args()[k] != "-f"@,
{
    lemma_option_shapes();
    reveal_strlit("-flush_packets");
    assert(shape("-flush_packets"@) == (14nat, 'f', 's'));
    reveal_strlit("1");
    assert(shape("1"@) == (1nat, ' ', '1'));
    reveal_strlit("-muxdelay");
    assert(shape("-muxdelay"@) == (9nat, 'm', 'y'));
    reveal_strlit("0");
    assert(shape("0"@) == (1nat, ' ', '0'));
    reveal_strlit("-muxpreload");
    assert(shape("-muxpreload"@) == (11nat, 'm', 'd'));
    reveal_strlit("-avoid_negative_ts");
    assert(shape("-avoid_negative_ts"@) == (18nat, 'a', 's'));
    reveal_strlit("make_zero");
    assert(shape("make_zero"@) == (9nat, 'a', 'o'));
    reveal_strlit("hls");
    assert(shape("hls"@) == (3nat, 'l', 's'));
    reveal_strlit("-hls_time");
    assert(shape("-hls_time"@) == (9nat, 'h', 'e'));
    reveal_strlit("2");
    assert(shape("2"@) == (1nat, ' ', '2'));
    reveal_strlit("-hls_list_size");
    assert(shape("-hls_list_size"@) == (14nat, 'h', 'e'));
    reveal_strlit("-hls_playlist_type");
    assert(shape("-hls_playlist_type"@) == (18nat, 'h', 'e'));
    reveal_strlit("vod");
    assert(shape("vod"@) == (3nat, 'o', 'd'));
    reveal_strlit("-hls_segment_type");
    assert(shape("-hls_segment_type"@) == (17nat, 'h', 'e'));
    reveal_strlit("fmp4");
    assert(shape("fmp4"@) == (4nat, 'm', '4'));
    reveal_strlit("-hls_flags");
    assert(shape("-hls_flags"@) == (10nat, 'h', 's'));
    reveal_strlit("independent_segments+temp_file");
    assert(shape("independent_segments+temp_file"@) == (30nat, 'n', 'e'));
}

/// Video is encoded by the encoder of the chosen hardware, and decoded by it: the
/// option before the input names it. On the CPU no hardware is named.
pub proof fn law_hardware_is_the_chosen_one(
    item: MediaItem,
    input_path: Seq<char>,
    session_dir: Seq<char>,
    hw_accel: HwAccel,
    device: Option<Seq<char>>,
    offset: SpawnOffset,
)
    ensures
        ({
            let mode = HlsMode::HlsFullTranscode;
            let browser = BrowserHint::Generic;
            let options = input_options(mode, browser, hw_accel, device, offset);
            let args = encoder_args(
                item,
                mode,
                browser,
                input_path,
                session_dir,
                hw_accel,
                device,
                offset,
            );
            let from = options.len() as int + 2;
            &&& hw_accel is Software ==> sets_once(args, from, "-c:v"@, "libx264"@)
            &&& hw_accel is Nvenc ==> sets_once(args, from, "-c:v"@, "h264_nvenc"@) && options[9]
                == "-hwaccel"@ && options[10] == "cuda"@
            &&& hw_accel is Vaapi ==> sets_once(args, from, "-c:v"@, "h264_vaapi"@) && options[9]
                == "-vaapi_device"@ && options[11] == "-hwaccel"@ && options[12] == "vaapi"@
            &&& hw_accel is Vaapi ==> options[10] == (match device {
                Some(path) => path,
                None => "/dev/dri/renderD128"@,
            })
            &&& hw_accel is Qsv ==> sets_once(args, from, "-c:v"@, "h264_qsv"@) && options[9]
                == "-hwaccel"@ && options[10] == "qsv"@
            &&& hw_accel is VideoToolbox ==> sets_once(args, from, "-c:v"@, "h264_videotoolbox"@)
                && options[9] == "-hwaccel"@ && options[10] == "videotoolbox"@
            &&& hw_accel is Software ==> options.len() == 9 + seek_args(offset).len()
        }),
{
    let mode = HlsMode::HlsFullTranscode;
    let browser = BrowserHint::Generic;
    let args = encoder_args(
        item,
        mode,
        browser,
        input_path,
        session_dir,
        hw_accel,
        device,
        offset,
    );
    let options = input_options(mode, browser, hw_accel, device, offset);
    let list = renditions_of(item);
    let parts = output_parts(list, mode, browser, session_dir, hw_accel, offset);
    let head = options + seq!["-i"@, input_path];
    lemma_parts(list, mode, browser, session_dir, hw_accel, offset);
    let place: int = if hw_accel is Vaapi {
        2
    } else {
        0
    };
    lemma_codec_is_named_once(mode, browser, hw_accel);
    lemma_choice(args, head, parts, 3, place);
    let decode = hw_decode_args(hw_accel, device);
    assert(probe_limits().len() == 9);
    assert forall|k: int| 0 <= k < decode.len() implies options[9 + k] == #[trigger] decode[k] by {}
    if hw_accel is Vaapi {
        assert(options[9] == decode[0] && options[10] == decode[1]);
        assert(options[11] == decode[2] && options[12] == decode[3]);
    } else if !(hw_accel is Software) {
        assert(options[9] == decode[0] && options[10] == decode[1]);
    }
}

/// A setting names the hardware in any case of letters and with white space round it;
/// a name that is not known is none.
pub proof fn law_hardware_is_named_by_the_setting(raw: Seq<char>)
    ensures
        ({
            let name = lower(trimmed(raw));
            &&& HwAccel::named(raw) == Some(HwAccel::Nvenc) <==> name == "nvenc"@ || name == "cuda"@
                || name == "nvidia"@
            &&& HwAccel::named(raw) == Some(HwAccel::Vaapi) <==> name == "vaapi"@
            &&& HwAccel::named(raw) == Some(HwAccel::Qsv) <==> name == "qsv"@ || name
                == "quicksync"@
            &&& HwAccel::named(raw) == Some(HwAccel::VideoToolbox) <==> name == "videotoolbox"@
                || name == "vt"@
            &&& HwAccel::named(raw) == Some(HwAccel::Software) <==> name == ""@ || name == "none"@
                || name == "off"@ || name == "0"@ || name == "false"@
        }),
{
    reveal_strlit("");
    reveal_strlit("none");
    reveal_strlit("off");
    reveal_strlit("0");
    reveal_strlit("false");
    reveal_strlit("nvenc");
    reveal_strlit("cuda");
    reveal_strlit("nvidia");
    reveal_strlit("vaapi");
    reveal_strlit("qsv");
    reveal_strlit("quicksync");
    reveal_strlit("videotoolbox");
    reveal_strlit("vt");
    assert(shape("none"@) == (4nat, 'o', 'e') && shape("off"@) == (3nat, 'f', 'f'));
    assert(shape("0"@) == (1nat, ' ', '0') && shape("false"@) == (5nat, 'a', 'e'));
    assert(shape("nvenc"@) == (5nat, 'v', 'c') && shape("cuda"@) == (4nat, 'u', 'a'));
    assert(shape("nvidia"@) == (6nat, 'v', 'a') && shape("vaapi"@) == (5nat, 'a', 'i'));
    assert(shape("qsv"@) == (3nat, 's', 'v') && shape("quicksync"@) == (9nat, 'u', 'c'));
    assert(shape("videotoolbox"@) == (12nat, 'i', 'x') && shape("vt"@) == (2nat, 't', 't'));
    assert(""@.len() == 0);
}

/// The encoder is run on the whole source: behind the input and the video, its arguments
/// map every audio stream of the item once, in order, and nothing else.
pub proof fn law_encoders_send_every_audio_stream(
    item: &MediaItem,
    mode: HlsMode,
    browser: BrowserHint,
    input_path: &str,
    session_dir: &str,
    hw_accel: HwAccel,
    vaapi_device: Option<&str>,
    offset: SpawnOffset,
    r: Vec<String>,
    k: int,
)
    requires
        call_ensures(
            build_ffmpeg_args,
            (item, mode, browser, input_path, session_dir, hw_accel, vaapi_device, offset),
            r,
        ),
        0 <= k < item.audio_streams@.len(),
    ensures
        exists|start: int|
            #![trigger texts(r@)[start]]
            ({
                let args = texts(r@);
                let n = item.audio_streams@.len() as int;
                let source = args[start + 5 + 2 * k];
                &&& 0 <= start
                &&& start + 4 + 2 * n < args.len()
                &&& args[start] == "-i"@ && args[start + 1] == input_path@
                &&& args[start + 4 + 2 * k] == "-map"@
                &&& source.take(4) == "0:a:"@ && all_digits(source.skip(4)) && numeral_value(
                    source.skip(4),
                ) == k
                &&& args[start + 4 + 2 * n] == "-sn"@
                &&& sets_never(args, start + 4 + 2 * n, "-map"@)
            }),
{
    law_every_audio_stream_is_mapped_in_order(
        *item,
        mode,
        browser,
        input_path@,
        session_dir@,
        hw_accel,
        opt_str(vaapi_device),
        offset,
        k,
    );
    let start = input_options(mode, browser, hw_accel, opt_str(vaapi_device), offset).len() as int;
    lemma_audio_maps(item.audio_streams@.len() as int, k);
    assert(texts(r@)[start] == "-i"@);
}

} // verus!
