//! Stream copies: browser-playable versions of media files, made by ffmpeg.
use crate::ffmpeg::{
    apply_input_acceleration, law_given_filters_are_applied, FfmpegHardwareAcceleration,
};
use crate::library::playback::{
    is_browser_safe_audio_codec_for_mp4, is_browser_safe_video_codec, mp4_audio, safe_video,
};
use crate::protocol::{AudioStream, MediaItem};
use crate::text::{
    all_digits, as_opt_str, concat2, decimal, decimal_text, has_text, lemma_decimal, lower,
    numeral_value, opt_str, opt_text, push_text, push_two, texts,
};
use vstd::prelude::*;

pub mod jobs;
pub mod paths;
pub mod progress;
pub mod subtitles;

verus! {

/// What ffmpeg is to make a stream copy of, and how.
pub struct FfmpegStreamCopyRequest<'a> {
    pub media_item: &'a MediaItem,
    pub media_path: &'a str,
    pub output_path: &'a str,
    pub default_audio_ordinal: Option<usize>,
    pub burned_filter: Option<&'a str>,
    pub hw_accel: &'a FfmpegHardwareAcceleration,
}

/// The index of the track at each place of the output: the default track
/// first, then the others in source order.
pub open spec fn audio_order(count: nat, default: Option<usize>) -> Seq<int> {
    match default {
        None => Seq::new(count, |k: int| k),
        Some(first) => Seq::new(
            count,
            |k: int|
                if k == 0 {
                    first as int
                } else if k <= first {
                    k - 1
                } else {
                    k
                },
        ),
    }
}

/// Every track is in the output exactly once, the default track first and the
/// others in source order.
pub proof fn law_audio_order_keeps_every_track(count: nat, default: Option<usize>)
    requires
        default matches Some(first) ==> first < count,
    ensures
        audio_order(count, default).len() == count,
        audio_order(count, default).no_duplicates(),
        forall|track: int| 0 <= track < count <==> audio_order(count, default).contains(track),
        default matches Some(first) ==> audio_order(count, default)[0] == first,
        forall|a: int, b: int|
            0 < a < b < count ==> audio_order(count, default)[a] < audio_order(count, default)[b],
{
    let order = audio_order(count, default);
    assert forall|track: int| 0 <= track < count implies order.contains(track) by {
        match default {
            None => {
                assert(order[track] == track);
            },
            Some(first) => {
                if track == first {
                    assert(order[0] == track);
                } else if track < first {
                    assert(order[track + 1] == track);
                } else {
                    assert(order[track] == track);
                }
            },
        }
    }
}

/// The tracks in output order.
pub fn output_order(count: usize, default: Option<usize>) -> (r: Vec<usize>)
    requires
        default matches Some(first) ==> first < count,
    ensures
        r@.map_values(|track: usize| track as int) == audio_order(count as nat, default),
{
    let mut order: Vec<usize> = Vec::with_capacity(count);
    let (has_default, first): (bool, usize) = match default {
        Some(first) => {
            order.push(first);
            (true, first)
        },
        None => (false, 0),
    };
    let mut track: usize = 0;
    while track < count
        invariant
            track <= count,
            has_default == (default is Some),
            default matches Some(d) ==> d == first && first < count,
            order@.len() == (if has_default && track <= first { track + 1 } else { track as int }),
            forall|k: int|
                0 <= k < order@.len() ==> #[trigger] order@[k] == audio_order(
                    count as nat,
                    default,
                )[k],
        decreases count - track,
    {
        if !(has_default && track == first) {
            order.push(track);
        }
        track = track + 1;
    }
    assert(order@.map_values(|track: usize| track as int) =~= audio_order(count as nat, default));
    order
}

/// The arguments for the audio track at place `place` of the output.
pub open spec fn audio_track_args(stream: AudioStream, place: int) -> Seq<Seq<char>> {
    let number = decimal(place as nat);
    let source = seq!["-map"@, "0:"@ + decimal(stream.index as nat)];
    if stream.codec matches Some(codec) && mp4_audio(codec@) {
        source + seq!["-c:a:"@ + number, "copy"@]
    } else {
        source + seq!["-c:a:"@ + number, "aac"@] + seq!["-b:a:"@ + number, "192k"@]
    }
}

/// The arguments for the first `n` places of the output.
pub open spec fn audio_tracks_args(
    streams: Seq<AudioStream>,
    order: Seq<int>,
    n: int,
) -> Seq<Seq<char>>
    decreases n,
{
    if n <= 0 {
        seq![]
    } else {
        audio_tracks_args(streams, order, n - 1) + audio_track_args(streams[order[n - 1]], n - 1)
    }
}

/// The arguments for all audio.
pub open spec fn audio_args(streams: Seq<AudioStream>, default: Option<usize>) -> Seq<Seq<char>> {
    if streams.len() == 0 {
        seq!["-an"@]
    } else {
        audio_tracks_args(streams, audio_order(streams.len(), default), streams.len() as int)
    }
}

/// Whether browsers decode the video of a media item.
pub open spec fn has_safe_video(item: MediaItem) -> bool {
    item.video_codec matches Some(codec) && safe_video(
        codec@,
        opt_text(item.video_profile),
        opt_text(item.video_pix_fmt),
        item.video_level,
        item.video_bit_depth,
    )
}

/// Whether the video has to be encoded anew: subtitles are burned in, or
/// browsers do not decode it.
pub open spec fn transcodes_video(item: MediaItem, burned: bool) -> bool {
    item.video_codec is Some && !(has_safe_video(item) && !burned)
}

/// The arguments for the video codec.
pub open spec fn video_args(
    item: MediaItem,
    burned: Option<Seq<char>>,
    hw_accel: FfmpegHardwareAcceleration,
) -> Seq<Seq<char>> {
    if item.video_codec is None {
        seq![]
    } else if !transcodes_video(item, burned is Some) {
        seq!["-c:v"@, "copy"@]
    } else {
        let encoder = seq!["-c:v"@, hw_accel.encoder()];
        let preset: Seq<Seq<char>> = if hw_accel.in_software() {
            seq!["-preset"@, "veryfast"@] + seq!["-pix_fmt"@, "yuv420p"@]
        } else {
            seq![]
        };
        let filter: Seq<Seq<char>> = match hw_accel.filter(burned) {
            Some(text) => seq!["-vf"@, text],
            None => seq![],
        };
        encoder + preset + filter
    }
}

/// The arguments that decode the input in hardware: only where the video is
/// encoded anew and nothing is burned in, which needs frames in main memory.
pub open spec fn decode_args(
    item: MediaItem,
    burned: bool,
    hw_accel: FfmpegHardwareAcceleration,
) -> Seq<Seq<char>> {
    if transcodes_video(item, burned) && !burned {
        hw_accel.input_args()
    } else {
        seq![]
    }
}

/// All arguments of the ffmpeg run that makes a stream copy of `item`, read at
/// `media_path`, into `output_path`.
pub open spec fn stream_copy_args(
    item: MediaItem,
    media_path: Seq<char>,
    output_path: Seq<char>,
    default_audio: Option<usize>,
    burned: Option<Seq<char>>,
    hw_accel: FfmpegHardwareAcceleration,
) -> Seq<Seq<char>> {
    seq!["-y"@, "-loglevel"@, "error"@, "-nostats"@, "-progress"@, "pipe:1"@, "-nostdin"@]
        + decode_args(item, burned is Some, hw_accel) + seq!["-i"@, media_path] + (
    if item.video_codec is Some {
        seq!["-map"@, "0:v:0?"@]
    } else {
        seq!["-vn"@]
    }) + audio_args(item.audio_streams@, default_audio) + video_args(item, burned, hw_accel) + seq![
        "-f"@,
        "mp4"@,
        "-movflags"@,
        "+faststart"@,
        output_path,
    ]
}

impl<'a> FfmpegStreamCopyRequest<'a> {
    /// The arguments of the ffmpeg run that fulfils the request.
    pub open spec fn args(self) -> Seq<Seq<char>> {
        stream_copy_args(
            *self.media_item,
            self.media_path@,
            self.output_path@,
            self.default_audio_ordinal,
            opt_str(self.burned_filter),
            *self.hw_accel,
        )
    }
}

/// Whether the input may be decoded in hardware.
pub fn should_use_input_hwaccel(transcodes_video: bool, burned_filter: Option<&str>) -> (r: bool)
    ensures
        r == (transcodes_video && burned_filter is None),
{
    transcodes_video && burned_filter.is_none()
}

fn push_audio_track(args: &mut Vec<String>, stream: &AudioStream, place: usize)
    ensures
        texts(final(args)@) == texts(old(args)@) + audio_track_args(*stream, place as int),
{
    let number: String = decimal_text(place as u64);
    let source: String = concat2("0:", decimal_text(stream.index as u64).as_str());
    push_two(args, "-map", source.as_str());
    let can_copy: bool = match &stream.codec {
        Some(codec) => is_browser_safe_audio_codec_for_mp4(codec.as_str()),
        None => false,
    };
    let codec_option: String = concat2("-c:a:", number.as_str());
    if can_copy {
        push_two(args, codec_option.as_str(), "copy");
    } else {
        push_two(args, codec_option.as_str(), "aac");
        let rate_option: String = concat2("-b:a:", number.as_str());
        push_two(args, rate_option.as_str(), "192k");
    }
    assert(texts(args@) =~= texts(old(args)@) + audio_track_args(*stream, place as int));
}

fn push_audio(args: &mut Vec<String>, streams: &Vec<AudioStream>, default: Option<usize>)
    requires
        default matches Some(first) ==> first < streams@.len(),
    ensures
        texts(final(args)@) == texts(old(args)@) + audio_args(streams@, default),
{
    if streams.len() == 0 {
        push_text(args, "-an");
        assert(texts(args@) =~= texts(old(args)@) + audio_args(streams@, default));
        return;
    }
    let order: Vec<usize> = output_order(streams.len(), default);
    let ghost places = audio_order(streams@.len(), default);
    proof {
        law_audio_order_keeps_every_track(streams@.len(), default);
        assert(order@.map_values(|track: usize| track as int).len() == order@.len());
    }
    let ghost before = texts(args@);
    let mut place: usize = 0;
    assert(texts(args@) =~= before + audio_tracks_args(streams@, places, 0));
    while place < order.len()
        invariant
            place <= order.len(),
            order@.len() == streams@.len(),
            places == audio_order(streams@.len(), default),
            order@.map_values(|track: usize| track as int) == places,
            forall|track: int| 0 <= track < streams@.len() <==> places.contains(track),
            texts(args@) == before + audio_tracks_args(streams@, places, place as int),
        decreases order.len() - place,
    {
        let track: usize = order[place];
        assert(places[place as int] == order@.map_values(|track: usize| track as int)[place as int]);
        assert(places.contains(track as int));
        push_audio_track(args, &streams[track], place);
        assert(texts(args@) =~= before + audio_tracks_args(streams@, places, place + 1));
        place = place + 1;
    }
}

/// The arguments of the ffmpeg run that makes a stream copy.
pub fn stream_copy_arguments(request: &FfmpegStreamCopyRequest<'_>) -> (r: Vec<String>)
    requires
        request.default_audio_ordinal matches Some(first) ==> first
            < request.media_item.audio_streams@.len(),
    ensures
        texts(r@) == request.args(),
{
    let item: &MediaItem = request.media_item;
    let has_video: bool = item.video_codec.is_some();
    let safe: bool = match &item.video_codec {
        Some(codec) => is_browser_safe_video_codec(
            codec.as_str(),
            as_opt_str(&item.video_profile),
            as_opt_str(&item.video_pix_fmt),
            item.video_level,
            item.video_bit_depth,
        ),
        None => false,
    };
    let transcodes: bool = has_video && !(safe && request.burned_filter.is_none());
    let mut args: Vec<String> = Vec::new();
    push_two(&mut args, "-y", "-loglevel");
    push_two(&mut args, "error", "-nostats");
    push_two(&mut args, "-progress", "pipe:1");
    push_text(&mut args, "-nostdin");
    let ghost head = seq!["-y"@, "-loglevel"@, "error"@, "-nostats"@, "-progress"@, "pipe:1"@, "-nostdin"@];
    assert(texts(args@) =~= head);
    if should_use_input_hwaccel(transcodes, request.burned_filter) {
        apply_input_acceleration(&mut args, request.hw_accel);
    }
    let ghost burned = opt_str(request.burned_filter);
    let ghost decode = decode_args(*item, burned is Some, *request.hw_accel);
    assert(texts(args@) =~= head + decode);
    push_two(&mut args, "-i", request.media_path);
    if has_video {
        push_two(&mut args, "-map", "0:v:0?");
    } else {
        push_text(&mut args, "-vn");
    }
    let ghost input = head + decode + seq!["-i"@, request.media_path@] + (if has_video {
        seq!["-map"@, "0:v:0?"@]
    } else {
        seq!["-vn"@]
    });
    assert(texts(args@) =~= input);
    push_audio(&mut args, &item.audio_streams, request.default_audio_ordinal);
    let ghost with_audio = input + audio_args(item.audio_streams@, request.default_audio_ordinal);
    if has_video {
        if !transcodes {
            push_two(&mut args, "-c:v", "copy");
        } else {
            push_two(&mut args, "-c:v", request.hw_accel.h264_encoder());
            if request.hw_accel.uses_software_h264_encoder() {
                push_two(&mut args, "-preset", "veryfast");
                push_two(&mut args, "-pix_fmt", "yuv420p");
            }
            if let Some(filter) = request.hw_accel.h264_filter(request.burned_filter) {
                push_two(&mut args, "-vf", filter.as_str());
            }
        }
    }
    assert(texts(args@) =~= with_audio + video_args(*item, burned, *request.hw_accel));
    push_two(&mut args, "-f", "mp4");
    push_two(&mut args, "-movflags", "+faststart");
    push_text(&mut args, request.output_path);
    assert(texts(args@) =~= request.args());
    args
}

/// A stream copy without burned-in subtitles and with video that browsers
/// decode copies the video stream and uses no hardware decoder.
pub proof fn law_safe_video_is_copied(request: FfmpegStreamCopyRequest)
    requires
        has_safe_video(*request.media_item),
        request.burned_filter is None,
    ensures
        video_args(*request.media_item, None, *request.hw_accel) == seq!["-c:v"@, "copy"@],
        decode_args(*request.media_item, false, *request.hw_accel) == Seq::<Seq<char>>::empty(),
{
}

/// Burned-in subtitles never come with a hardware decoder.
pub proof fn law_burned_subtitles_decode_in_software(request: FfmpegStreamCopyRequest)
    requires
        request.burned_filter is Some,
    ensures
        decode_args(*request.media_item, true, *request.hw_accel) == Seq::<Seq<char>>::empty(),
{
}

/// Whether the video codec is nowhere set to `copy`.
spec fn copies_no_video(args: Seq<Seq<char>>) -> bool {
    forall|q: int|
        0 <= q < args.len() - 1 && #[trigger] args[q] == "-c:v"@ ==> args[q + 1] != "copy"@
}

proof fn lemma_copies_no_video(a: Seq<Seq<char>>, b: Seq<Seq<char>>)
    requires
        copies_no_video(a),
        copies_no_video(b),
        b.len() > 0 ==> b[0] != "copy"@,
    ensures
        copies_no_video(a + b),
{
    let all = a + b;
    assert forall|q: int| 0 <= q < all.len() - 1 && #[trigger] all[q] == "-c:v"@ implies all[q + 1]
        != "copy"@ by {
        if q < a.len() - 1 {
            assert(a[q] == "-c:v"@);
        } else if q >= a.len() {
            assert(b[q - a.len()] == "-c:v"@);
        }
    }
}

proof fn lemma_copy_words()
    ensures
        "-y"@ != "copy"@ && "-i"@ != "copy"@ && "-map"@ != "copy"@ && "-vn"@ != "copy"@ && "-an"@
            != "copy"@ && "-c:v"@ != "copy"@ && "-f"@ != "copy"@ && "-hwaccel"@ != "copy"@
            && "-vaapi_device"@ != "copy"@ && "-preset"@ != "copy"@ && "-vf"@ != "copy"@,
        "libx264"@ != "copy"@ && "h264_nvenc"@ != "copy"@ && "h264_vaapi"@ != "copy"@ && "h264_qsv"@
            != "copy"@ && "h264_videotoolbox"@ != "copy"@,
        "-map"@ != "-c:v"@ && "-an"@ != "-c:v"@ && "copy"@ != "-c:v"@ && "aac"@ != "-c:v"@ && "192k"@
            != "-c:v"@ && "0:v:0?"@ != "-c:v"@ && "-i"@ != "-c:v"@,
{
    reveal_strlit("copy");
    reveal_strlit("-y");
    reveal_strlit("-i");
    reveal_strlit("-map");
    reveal_strlit("-vn");
    reveal_strlit("-an");
    reveal_strlit("-c:v");
    reveal_strlit("-f");
    reveal_strlit("-hwaccel");
    reveal_strlit("-vaapi_device");
    reveal_strlit("-preset");
    reveal_strlit("-vf");
    reveal_strlit("libx264");
    reveal_strlit("h264_nvenc");
    reveal_strlit("h264_vaapi");
    reveal_strlit("h264_qsv");
    reveal_strlit("h264_videotoolbox");
    reveal_strlit("aac");
    reveal_strlit("192k");
    reveal_strlit("0:v:0?");
    assert("copy"@[0] == 'c');
    assert("-y"@[0] == '-' && "-i"@[0] == '-' && "-map"@[0] == '-' && "-vn"@[0] == '-');
    assert("-an"@[0] == '-' && "-c:v"@[0] == '-' && "-f"@[0] == '-' && "-hwaccel"@[0] == '-');
    assert("-vaapi_device"@[0] == '-' && "-preset"@[0] == '-' && "-vf"@[0] == '-');
    assert("libx264"@[0] == 'l' && "h264_nvenc"@[0] == 'h' && "h264_vaapi"@[0] == 'h');
    assert("h264_qsv"@[0] == 'h' && "h264_videotoolbox"@[0] == 'h');
    assert("-map"@[1] == 'm' && "-an"@[1] == 'a' && "-c:v"@[1] == 'c' && "-i"@[1] == 'i');
    assert("aac"@[0] == 'a' && "192k"@[0] == '1' && "0:v:0?"@[0] == '0');
}

proof fn lemma_audio_copies_no_video(streams: Seq<AudioStream>, order: Seq<int>, n: int)
    ensures
        copies_no_video(audio_tracks_args(streams, order, n)),
        n > 0 ==> audio_tracks_args(streams, order, n).len() > 0 && audio_tracks_args(
            streams,
            order,
            n,
        )[0] == "-map"@,
    decreases n,
{
    lemma_copy_words();
    if n > 0 {
        lemma_audio_copies_no_video(streams, order, n - 1);
        let track = audio_track_args(streams[order[n - 1]], n - 1);
        lemma_track_copies_no_video(streams[order[n - 1]], n - 1);
        lemma_copies_no_video(audio_tracks_args(streams, order, n - 1), track);
        if n == 1 {
            assert(audio_tracks_args(streams, order, 0) + track =~= track);
        }
    }
}

proof fn lemma_track_copies_no_video(stream: AudioStream, place: int)
    ensures
        copies_no_video(audio_track_args(stream, place)),
        audio_track_args(stream, place).len() >= 4,
        audio_track_args(stream, place)[0] == "-map"@,
{
    lemma_copy_words();
    let track = audio_track_args(stream, place);
    reveal_strlit("-c:a:");
    reveal_strlit("-b:a:");
    reveal_strlit("0:");
    reveal_strlit("-c:v");
    let number = decimal(place as nat);
    lemma_decimal(place as nat);
    lemma_decimal(stream.index as nat);
    assert(("-c:a:"@ + number)[3] == 'a');
    assert("-c:v"@[3] == 'v');
    assert(("-b:a:"@ + number)[1] == 'b');
    assert("-c:v"@[1] == 'c');
    assert(("0:"@ + decimal(stream.index as nat))[0] == '0');
    assert("-c:v"@[0] == '-');
    assert forall|q: int| 0 <= q < track.len() - 1 implies #[trigger] track[q] != "-c:v"@ by {}
}

/// Whether a name is that of an H.264 encoder.
pub open spec fn encodes_h264(name: Seq<char>) -> bool {
    ||| name == "libx264"@
    ||| name == "h264_nvenc"@
    ||| name == "h264_vaapi"@
    ||| name == "h264_qsv"@
    ||| name == "h264_videotoolbox"@
}

/// Whether it is known that browsers do not decode the video of an item: its codec is
/// none of theirs, or an H.264 or VP9 or AV1 stream has pixels, a level or a depth
/// that they do not take.
pub open spec fn has_unsafe_video(item: MediaItem) -> bool {
    item.video_codec matches Some(name) && {
        let codec = lower(name@);
        let h264 = codec == "h264"@ || codec == "avc"@ || codec == "avc1"@;
        let newer = codec == "vp9"@ || codec == "av1"@;
        ||| !h264 && !newer && codec != "vp8"@
        ||| h264 && item.video_level is Some && item.video_level->0 > 51
        ||| h264 && item.video_bit_depth is Some && item.video_bit_depth->0 > 8
        ||| h264 && (item.video_pix_fmt matches Some(format) && lower(format@) != "yuv420p"@
            && lower(format@) != "yuvj420p"@)
        ||| h264 && (item.video_profile matches Some(profile) && !has_text(
            lower(profile@),
            "baseline"@,
        ) && !has_text(lower(profile@), "main"@) && !has_text(lower(profile@), "high"@))
        ||| newer && (item.video_pix_fmt matches Some(format) && lower(format@) != "yuv420p"@
            && lower(format@) != "yuvj420p"@ && lower(format@) != "yuv420p10le"@)
    }
}

proof fn lemma_h264_names_differ()
    ensures
        "vp8"@ != "vp9"@ && "vp8"@ != "av1"@,
        "vp8"@ != "h264"@ && "vp8"@ != "avc"@ && "vp8"@ != "avc1"@,
        "vp9"@ != "h264"@ && "vp9"@ != "avc"@ && "vp9"@ != "avc1"@,
        "av1"@ != "h264"@ && "av1"@ != "avc"@ && "av1"@ != "avc1"@,
{
    reveal_strlit("h264");
    reveal_strlit("avc");
    reveal_strlit("avc1");
    reveal_strlit("vp8");
    reveal_strlit("vp9");
    reveal_strlit("av1");
    assert("vp9"@[2] == '9' && "vp8"@[2] == '8');
    assert("av1"@[2] == '1' && "avc"@[2] == 'c');
    assert("vp9"@.len() == 3 && "h264"@.len() == 4 && "avc1"@.len() == 4);
    assert("av1"@.len() == 3 && "vp8"@.len() == 3);
}

/// The video of a stream copy is always one that browsers decode. Video that they do
/// not decode, and video that subtitles are burned into, is encoded as H.264 and
/// nowhere copied.
pub proof fn law_unsafe_video_is_encoded(
    item: MediaItem,
    media_path: Seq<char>,
    output_path: Seq<char>,
    default_audio: Option<usize>,
    burned: Option<Seq<char>>,
    hw_accel: FfmpegHardwareAcceleration,
)
    requires
        item.video_codec is Some,
        has_unsafe_video(item) || burned is Some,
    ensures
        ({
            let args = stream_copy_args(
                item,
                media_path,
                output_path,
                default_audio,
                burned,
                hw_accel,
            );
            &&& exists|q: int|
                0 <= q < args.len() - 1 && #[trigger] args[q] == "-c:v"@ && encodes_h264(
                    args[q + 1],
                )
            &&& forall|q: int|
                0 <= q < args.len() - 1 && #[trigger] args[q] == "-c:v"@ ==> args[q + 1] != "copy"@
        }),
{
    lemma_h264_names_differ();
    assert(transcodes_video(item, burned is Some));
    lemma_copy_words();
    let args = stream_copy_args(item, media_path, output_path, default_audio, burned, hw_accel);
    let head = seq![
        "-y"@,
        "-loglevel"@,
        "error"@,
        "-nostats"@,
        "-progress"@,
        "pipe:1"@,
        "-nostdin"@,
    ];
    let decode = decode_args(item, burned is Some, hw_accel);
    let input = seq!["-i"@, media_path];
    let map = seq!["-map"@, "0:v:0?"@];
    let audio = audio_args(item.audio_streams@, default_audio);
    let video = video_args(item, burned, hw_accel);
    let tail = seq!["-f"@, "mp4"@, "-movflags"@, "+faststart"@, output_path];
    lemma_head_copies_no_video();
    lemma_decode_copies_no_video(item, burned is Some, hw_accel);
    lemma_copies_no_video(head, decode);
    lemma_copies_no_video(head + decode, input);
    lemma_copies_no_video(head + decode + input, map);
    lemma_audio_copies_no_video(
        item.audio_streams@,
        audio_order(item.audio_streams@.len(), default_audio),
        item.audio_streams@.len() as int,
    );
    assert(copies_no_video(audio) && audio.len() > 0 && audio[0] != "copy"@);
    lemma_copies_no_video(head + decode + input + map, audio);
    lemma_encoded_video(item, burned, hw_accel);
    lemma_copies_no_video(head + decode + input + map + audio, video);
    lemma_tail_copies_no_video(output_path);
    lemma_copies_no_video(head + decode + input + map + audio + video, tail);
    let before = head + decode + input + map + audio;
    assert(args =~= before + video + tail);
    let q = before.len() as int;
    assert(args[q] == video[0]);
    assert(args[q + 1] == video[1]);
}

proof fn lemma_encoded_video(
    item: MediaItem,
    burned: Option<Seq<char>>,
    hw_accel: FfmpegHardwareAcceleration,
)
    requires
        transcodes_video(item, burned is Some),
    ensures
        ({
            let video = video_args(item, burned, hw_accel);
            &&& video.len() >= 2
            &&& video[0] == "-c:v"@
            &&& encodes_h264(video[1])
            &&& copies_no_video(video)
        }),
{
    lemma_copy_words();
    reveal_strlit("-preset");
    reveal_strlit("veryfast");
    reveal_strlit("-pix_fmt");
    reveal_strlit("yuv420p");
    reveal_strlit("-vf");
    reveal_strlit("copy");
    reveal_strlit("-c:v");
    assert("-preset"@.len() == 7 && "veryfast"@.len() == 8 && "-pix_fmt"@.len() == 8);
    assert("yuv420p"@.len() == 7 && "-vf"@.len() == 3 && "copy"@.len() == 4 && "-c:v"@.len() == 4);
    reveal_strlit("libx264");
    reveal_strlit("h264_nvenc");
    reveal_strlit("h264_vaapi");
    reveal_strlit("h264_qsv");
    reveal_strlit("h264_videotoolbox");
    assert("libx264"@.len() == 7 && "h264_nvenc"@.len() == 10 && "h264_vaapi"@.len() == 10);
    assert("h264_qsv"@.len() == 8 && "h264_videotoolbox"@.len() == 17);
    let video = video_args(item, burned, hw_accel);
    assert forall|q: int| 0 <= q < video.len() - 1 && #[trigger] video[q] == "-c:v"@ implies video[q
        + 1] != "copy"@ by {
        assert(q == 0);
    }
}

proof fn lemma_head_copies_no_video()
    ensures
        copies_no_video(
            seq!["-y"@, "-loglevel"@, "error"@, "-nostats"@, "-progress"@, "pipe:1"@, "-nostdin"@],
        ),
{
    reveal_strlit("copy");
    reveal_strlit("-loglevel");
    reveal_strlit("error");
    reveal_strlit("-nostats");
    reveal_strlit("-progress");
    reveal_strlit("pipe:1");
    reveal_strlit("-nostdin");
    assert("copy"@.len() == 4 && "-loglevel"@.len() == 9 && "error"@.len() == 5);
    assert("-nostats"@.len() == 8 && "-progress"@.len() == 9 && "pipe:1"@.len() == 6);
    assert("-nostdin"@.len() == 8);
}

proof fn lemma_tail_copies_no_video(output_path: Seq<char>)
    ensures
        copies_no_video(seq!["-f"@, "mp4"@, "-movflags"@, "+faststart"@, output_path]),
{
    reveal_strlit("copy");
    reveal_strlit("-c:v");
    reveal_strlit("-f");
    reveal_strlit("mp4");
    reveal_strlit("-movflags");
    reveal_strlit("+faststart");
    assert("-f"@.len() == 2 && "mp4"@.len() == 3 && "-movflags"@.len() == 9);
    assert("+faststart"@.len() == 10 && "-c:v"@.len() == 4 && "copy"@.len() == 4);
}

proof fn lemma_decode_copies_no_video(
    item: MediaItem,
    burned: bool,
    hw_accel: FfmpegHardwareAcceleration,
)
    ensures
        copies_no_video(decode_args(item, burned, hw_accel)),
        decode_args(item, burned, hw_accel).len() > 0 ==> decode_args(item, burned, hw_accel)[0]
            != "copy"@,
{
    lemma_copy_words();
    reveal_strlit("copy");
    reveal_strlit("-c:v");
    reveal_strlit("-hwaccel");
    reveal_strlit("-vaapi_device");
    assert("copy"@.len() == 4 && "-c:v"@.len() == 4);
    assert("-hwaccel"@.len() == 8 && "-vaapi_device"@.len() == 13);
}

/// A stream copy is an MP4 file at the output path, made from the media file, with
/// the video where there is one. Video that browsers decode is taken over unchanged
/// where nothing is burned in.
pub proof fn law_copies_are_mp4_files(
    item: MediaItem,
    media_path: Seq<char>,
    output_path: Seq<char>,
    default_audio: Option<usize>,
    burned: Option<Seq<char>>,
    hw_accel: FfmpegHardwareAcceleration,
)
    ensures
        ({
            let args = stream_copy_args(
                item,
                media_path,
                output_path,
                default_audio,
                burned,
                hw_accel,
            );
            let n = args.len() as int;
            let start = 7 + decode_args(item, burned is Some, hw_accel).len() as int;
            let codec = match item.video_codec {
                Some(name) => lower(name@),
                None => Seq::<char>::empty(),
            };
            &&& n >= 12
            &&& args[n - 5] == "-f"@ && args[n - 4] == "mp4"@
            &&& args[n - 3] == "-movflags"@ && args[n - 2] == "+faststart"@
            &&& args[n - 1] == output_path
            &&& args[0] == "-y"@
            &&& args[start] == "-i"@ && args[start + 1] == media_path
            &&& item.video_codec is Some ==> args[start + 2] == "-map"@ && args[start + 3]
                == "0:v:0?"@
            &&& item.video_codec is None ==> args[start + 2] == "-vn"@
            &&& burned is None && (codec == "vp8"@ || (codec == "h264"@ && item.video_profile is None
                && item.video_pix_fmt is None && item.video_level is None
                && item.video_bit_depth is None)) ==> args[n - 7] == "-c:v"@ && args[n - 6]
                == "copy"@
        }),
{
    lemma_h264_names_differ();
    reveal_strlit("vp8");
    reveal_strlit("h264");
    assert("vp8"@.len() == 3 && "h264"@.len() == 4);
    let args = stream_copy_args(item, media_path, output_path, default_audio, burned, hw_accel);
    let head = seq![
        "-y"@,
        "-loglevel"@,
        "error"@,
        "-nostats"@,
        "-progress"@,
        "pipe:1"@,
        "-nostdin"@,
    ];
    let decode = decode_args(item, burned is Some, hw_accel);
    let map: Seq<Seq<char>> = if item.video_codec is Some {
        seq!["-map"@, "0:v:0?"@]
    } else {
        seq!["-vn"@]
    };
    let audio = audio_args(item.audio_streams@, default_audio);
    let video = video_args(item, burned, hw_accel);
    let tail = seq!["-f"@, "mp4"@, "-movflags"@, "+faststart"@, output_path];
    let before = head + decode + seq!["-i"@, media_path] + map + audio;
    assert(args =~= before + video + tail);
    let n = args.len() as int;
    lemma_audio_copies_no_video(
        item.audio_streams@,
        audio_order(item.audio_streams@.len(), default_audio),
        item.audio_streams@.len() as int,
    );
    assert(args[n - 5] == tail[0] && args[n - 4] == tail[1] && args[n - 3] == tail[2]);
    assert(args[n - 2] == tail[3] && args[n - 1] == tail[4]);
    if video.len() == 2 {
        assert(args[n - 7] == video[0] && args[n - 6] == video[1]);
    }
}

proof fn lemma_audio_place(streams: Seq<AudioStream>, order: Seq<int>, n: int, place: int) -> (q:
    int)
    requires
        0 <= place < n,
    ensures
        0 <= q,
        q + audio_track_args(streams[order[place]], place).len() <= audio_tracks_args(
            streams,
            order,
            n,
        ).len(),
        audio_tracks_args(streams, order, n).subrange(
            q,
            q + audio_track_args(streams[order[place]], place).len(),
        ) == audio_track_args(streams[order[place]], place),
    decreases n,
{
    let before = audio_tracks_args(streams, order, n - 1);
    let track = audio_track_args(streams[order[n - 1]], n - 1);
    if place == n - 1 {
        assert((before + track).subrange(
            before.len() as int,
            before.len() as int + track.len(),
        ) =~= track);
        before.len() as int
    } else {
        let q = lemma_audio_place(streams, order, n - 1, place);
        let wanted = audio_track_args(streams[order[place]], place);
        assert((before + track).subrange(q, q + wanted.len()) =~= before.subrange(
            q,
            q + wanted.len(),
        ));
        q
    }
}

proof fn lemma_track_names_its_source(stream: AudioStream, place: int)
    requires
        place >= 0,
    ensures
        ({
            let track = audio_track_args(stream, place);
            let kept = stream.codec matches Some(name) && (lower(name@) == "aac"@ || lower(name@)
                == "mp3"@ || lower(name@) == "opus"@ || lower(name@) == "flac"@);
            &&& track.len() >= 4
            &&& track[0] == "-map"@
            &&& track[1].take(2) == "0:"@ && all_digits(track[1].skip(2)) && numeral_value(
                track[1].skip(2),
            ) == stream.index
            &&& track[2].take(5) == "-c:a:"@ && all_digits(track[2].skip(5)) && numeral_value(
                track[2].skip(5),
            ) == place
            &&& kept ==> track[3] == "copy"@
            &&& !kept ==> track[3] == "aac"@
        }),
{
    let track = audio_track_args(stream, place);
    lemma_decimal(stream.index as nat);
    lemma_decimal(place as nat);
    reveal_strlit("0:");
    reveal_strlit("-c:a:");
    assert(track[1].take(2) =~= "0:"@);
    assert(track[1].skip(2) =~= decimal(stream.index as nat));
    assert(track[2].take(5) =~= "-c:a:"@);
    assert(track[2].skip(5) =~= decimal(place as nat));
}

/// Every audio track of the source is in the copy once: at the place `place` of the
/// output stands the track that comes there, the default track first and the others
/// in source order. It is named by the number of its stream, and taken over where MP4
/// files carry its codec and browsers decode it; it becomes AAC otherwise.
pub proof fn law_audio_tracks_are_taken_in_order(
    item: MediaItem,
    media_path: Seq<char>,
    output_path: Seq<char>,
    default_audio: Option<usize>,
    burned: Option<Seq<char>>,
    hw_accel: FfmpegHardwareAcceleration,
    place: int,
)
    requires
        0 <= place < item.audio_streams@.len(),
        default_audio matches Some(first) ==> first < item.audio_streams@.len(),
    ensures
        ({
            let args = stream_copy_args(
                item,
                media_path,
                output_path,
                default_audio,
                burned,
                hw_accel,
            );
            let track = match default_audio {
                None => place,
                Some(first) => if place == 0 {
                    first as int
                } else if place <= first {
                    place - 1
                } else {
                    place
                },
            };
            let stream = item.audio_streams@[track];
            let kept = stream.codec matches Some(name) && (lower(name@) == "aac"@ || lower(name@)
                == "mp3"@ || lower(name@) == "opus"@ || lower(name@) == "flac"@);
            exists|q: int|
                0 <= q < args.len() - 4 && #[trigger] args[q] == "-map"@ && args[q + 1].take(2)
                    == "0:"@ && all_digits(args[q + 1].skip(2)) && numeral_value(args[q + 1].skip(2))
                    == stream.index && args[q + 2].take(5) == "-c:a:"@ && all_digits(
                    args[q + 2].skip(5),
                ) && numeral_value(args[q + 2].skip(5)) == place && (kept ==> args[q + 3]
                    == "copy"@) && (!kept ==> args[q + 3] == "aac"@)
        }),
{
    let args = stream_copy_args(item, media_path, output_path, default_audio, burned, hw_accel);
    let streams = item.audio_streams@;
    let order = audio_order(streams.len(), default_audio);
    let n = streams.len() as int;
    let stream = streams[order[place]];
    let wanted = audio_track_args(stream, place);
    let p = lemma_audio_place(streams, order, n, place);
    let head = seq![
        "-y"@,
        "-loglevel"@,
        "error"@,
        "-nostats"@,
        "-progress"@,
        "pipe:1"@,
        "-nostdin"@,
    ];
    let map: Seq<Seq<char>> = if item.video_codec is Some {
        seq!["-map"@, "0:v:0?"@]
    } else {
        seq!["-vn"@]
    };
    let before = head + decode_args(item, burned is Some, hw_accel) + seq!["-i"@, media_path] + map;
    let audio = audio_args(streams, default_audio);
    let after = video_args(item, burned, hw_accel) + seq![
        "-f"@,
        "mp4"@,
        "-movflags"@,
        "+faststart"@,
        output_path,
    ];
    assert(args =~= before + audio + after);
    lemma_track_copies_no_video(stream, place);
    let q = before.len() + p;
    assert forall|k: int| 0 <= k < wanted.len() implies args[q + k] == #[trigger] wanted[k] by {
        assert(audio.subrange(p, p + wanted.len())[k] == wanted[k]);
    }
    lemma_track_names_its_source(stream, place);
    assert(args[q] == wanted[0]);
    assert(args[q + 1] == wanted[1]);
    assert(args[q + 2] == wanted[2]);
    assert(args[q + 3] == wanted[3]);
}

/// Subtitles that are to be burned in are: a video filter holds the given one.
pub proof fn law_burned_filter_is_applied(
    item: MediaItem,
    media_path: Seq<char>,
    output_path: Seq<char>,
    default_audio: Option<usize>,
    burned: Seq<char>,
    hw_accel: FfmpegHardwareAcceleration,
)
    requires
        item.video_codec is Some,
    ensures
        ({
            let args = stream_copy_args(
                item,
                media_path,
                output_path,
                default_audio,
                Some(burned),
                hw_accel,
            );
            let n = args.len() as int;
            args[n - 7] == "-vf"@ && has_text(args[n - 6], burned)
        }),
{
    let args = stream_copy_args(
        item,
        media_path,
        output_path,
        default_audio,
        Some(burned),
        hw_accel,
    );
    law_given_filters_are_applied(hw_accel, burned);
    let video = video_args(item, Some(burned), hw_accel);
    let tail = seq!["-f"@, "mp4"@, "-movflags"@, "+faststart"@, output_path];
    let text = hw_accel.filter(Some(burned))->0;
    let m = video.len() as int;
    assert(video[m - 2] == "-vf"@ && video[m - 1] == text);
    let n = args.len() as int;
    assert(args.subrange(n - 5, n) =~= tail);
    assert(args[n - 7] == video[m - 2]);
    assert(args[n - 6] == video[m - 1]);
}

/// The run that makes a copy encodes video that browsers do not decode as H.264, and copies
/// it nowhere; it writes an MP4 file to the output path.
pub proof fn law_copies_hold_video_for_browsers(
    request: &FfmpegStreamCopyRequest,
    r: Vec<String>,
)
    requires
        call_ensures(stream_copy_arguments, (request,), r),
        has_unsafe_video(*request.media_item) || (request.media_item.video_codec is Some
            && request.burned_filter is Some),
    ensures
        ({
            let args = texts(r@);
            &&& exists|q: int|
                0 <= q < args.len() - 1 && #[trigger] args[q] == "-c:v"@ && encodes_h264(
                    args[q + 1],
                )
            &&& forall|q: int|
                0 <= q < args.len() - 1 && #[trigger] args[q] == "-c:v"@ ==> args[q + 1] != "copy"@
            &&& args.last() == request.output_path@
        }),
{
    law_unsafe_video_is_encoded(
        *request.media_item,
        request.media_path@,
        request.output_path@,
        request.default_audio_ordinal,
        opt_str(request.burned_filter),
        *request.hw_accel,
    );
}

} // verus!
