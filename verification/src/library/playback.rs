//! How a media file reaches the browser: as it is, after preparation, or not
//! at all.
use crate::protocol::{AudioStream, PlaybackMode};
use crate::text::{
    contains_text, has_text, law_replacing_keeps_the_rest, lower, occurs_at, opt_str, pieces,
    replace_char, replaced, same_text, slices, split_all, to_lower, trim, trimmed,
};
use vstd::prelude::*;

verus! {

/// What is known of the video stream of a file.
#[derive(Clone, Copy, Debug)]
pub struct VideoPlaybackInfo<'a> {
    pub codec: Option<&'a str>,
    pub profile: Option<&'a str>,
    pub pix_fmt: Option<&'a str>,
    pub level: Option<u32>,
    pub bit_depth: Option<u8>,
}

impl<'a> Default for VideoPlaybackInfo<'a> {
    fn default() -> (r: VideoPlaybackInfo<'a>)
        ensures
            r == (VideoPlaybackInfo {
                codec: None,
                profile: None,
                pix_fmt: None,
                level: None,
                bit_depth: None,
            }),
    {
        VideoPlaybackInfo { codec: None, profile: None, pix_fmt: None, level: None, bit_depth: None }
    }
}

/// What is known of the video stream of a file, as plain values.
pub ghost struct VideoFacts {
    pub codec: Option<Seq<char>>,
    pub profile: Option<Seq<char>>,
    pub pix_fmt: Option<Seq<char>>,
    pub level: Option<u32>,
    pub bit_depth: Option<u8>,
}

impl<'a> View for VideoPlaybackInfo<'a> {
    type V = VideoFacts;

    open spec fn view(&self) -> VideoFacts {
        VideoFacts {
            codec: opt_str(self.codec),
            profile: opt_str(self.profile),
            pix_fmt: opt_str(self.pix_fmt),
            level: self.level,
            bit_depth: self.bit_depth,
        }
    }
}

/// Container tags, besides Matroska, that the client can demux.
pub open spec fn demuxable_tag(tag: Seq<char>) -> bool {
    ||| tag == "mov"@
    ||| tag == "mp4"@
    ||| tag == "m4a"@
    ||| tag == "m4v"@
    ||| tag == "3gp"@
    ||| tag == "3g2"@
    ||| tag == "mj2"@
    ||| tag == "webm"@
    ||| tag == "mp3"@
    ||| tag == "ogg"@
    ||| tag == "flac"@
    ||| tag == "wav"@
}

/// One tag of a comma-separated container name, trimmed and in lower case.
pub open spec fn container_tag(container: Seq<char>, i: int) -> Seq<char> {
    lower(trimmed(pieces(container, ',')[i]))
}

/// Whether `tag` is one of the tags of a container name.
pub open spec fn has_tag(container: Seq<char>, tag: Seq<char>) -> bool {
    exists|i: int|
        0 <= i < pieces(container, ',').len() && #[trigger] container_tag(container, i) == tag
}

/// Whether the client can demux the container. A Matroska tag names both
/// `.mkv` and `.webm` files, so the file extension decides there.
pub open spec fn demuxable(container: Seq<char>, extension: Option<Seq<char>>) -> bool {
    if has_tag(container, "matroska"@) {
        extension matches Some(value) && (lower(value) == "mkv"@ || lower(value) == "webm"@)
    } else {
        exists|i: int|
            0 <= i < pieces(container, ',').len() && demuxable_tag(
                #[trigger] container_tag(container, i),
            )
    }
}

fn is_demuxable_tag(tag: &str) -> (r: bool)
    ensures
        r == demuxable_tag(tag@),
{
    same_text(tag, "mov") || same_text(tag, "mp4") || same_text(tag, "m4a") || same_text(tag, "m4v")
        || same_text(tag, "3gp") || same_text(tag, "3g2") || same_text(tag, "mj2")
        || same_text(tag, "webm") || same_text(tag, "mp3") || same_text(tag, "ogg")
        || same_text(tag, "flac") || same_text(tag, "wav")
}

/// Whether the client can demux the container.
pub fn is_client_demuxable_container(container: &str, file_extension: Option<&str>) -> (r: bool)
    ensures
        r == demuxable(container@, opt_str(file_extension)),
{
    let tokens: Vec<&str> = split_all(container, ',');
    let mut known: bool = false;
    let mut i: usize = 0;
    while i < tokens.len()
        invariant
            i <= tokens.len(),
            slices(tokens@) == pieces(container@, ','),
            forall|k: int| 0 <= k < i ==> #[trigger] container_tag(container@, k) != "matroska"@,
            known == (exists|k: int|
                0 <= k < i && demuxable_tag(#[trigger] container_tag(container@, k))),
        decreases tokens.len() - i,
    {
        let tag: String = to_lower(trim(tokens[i]));
        assert(pieces(container@, ',')[i as int] == tokens@[i as int]@);
        assert(tag@ == container_tag(container@, i as int));
        if same_text(tag.as_str(), "matroska") {
            assert(has_tag(container@, "matroska"@));
            return match file_extension {
                Some(extension) => {
                    let extension: String = to_lower(extension);
                    same_text(extension.as_str(), "mkv") || same_text(extension.as_str(), "webm")
                },
                None => false,
            };
        }
        if is_demuxable_tag(tag.as_str()) {
            known = true;
        }
        i = i + 1;
    }
    assert(tokens@.len() == pieces(container@, ',').len()) by {
        assert(slices(tokens@).len() == tokens@.len());
    }
    known
}

/// Whether an H.264 profile, in lower case, is one that browsers decode.
pub open spec fn safe_h264_profile(profile: Seq<char>) -> bool {
    has_text(profile, "baseline"@) || has_text(profile, "main"@) || has_text(profile, "high"@)
}

/// Whether browsers decode this video. What is not known of it does not count
/// against it.
pub open spec fn safe_video(
    codec: Seq<char>,
    profile: Option<Seq<char>>,
    pix_fmt: Option<Seq<char>>,
    level: Option<u32>,
    bit_depth: Option<u8>,
) -> bool {
    let name = lower(codec);
    if name == "h264"@ || name == "avc"@ || name == "avc1"@ {
        &&& profile matches Some(value) ==> safe_h264_profile(lower(value))
        &&& pix_fmt matches Some(value) ==> lower(value) == "yuv420p"@ || lower(value)
            == "yuvj420p"@
        &&& level matches Some(value) ==> value <= 51
        &&& bit_depth matches Some(value) ==> value <= 8
    } else if name == "vp9"@ || name == "av1"@ {
        pix_fmt matches Some(value) ==> lower(value) == "yuv420p"@ || lower(value) == "yuvj420p"@
            || lower(value) == "yuv420p10le"@
    } else {
        name == "vp8"@
    }
}

/// Whether browsers decode this video.
pub fn is_browser_safe_video_codec(
    codec: &str,
    profile: Option<&str>,
    pix_fmt: Option<&str>,
    level: Option<u32>,
    bit_depth: Option<u8>,
) -> (r: bool)
    ensures
        r == safe_video(codec@, opt_str(profile), opt_str(pix_fmt), level, bit_depth),
{
    let codec: String = to_lower(codec);
    let codec: &str = codec.as_str();
    if same_text(codec, "h264") || same_text(codec, "avc") || same_text(codec, "avc1") {
        let profile_ok = match profile {
            Some(value) => {
                let value: String = to_lower(value);
                let value: &str = value.as_str();
                contains_text(value, "baseline") || contains_text(value, "main") || contains_text(
                    value,
                    "high",
                )
            },
            None => true,
        };
        let pix_fmt_ok = match pix_fmt {
            Some(value) => {
                let value: String = to_lower(value);
                same_text(value.as_str(), "yuv420p") || same_text(value.as_str(), "yuvj420p")
            },
            None => true,
        };
        let level_ok = match level {
            Some(value) => value <= 51,
            None => true,
        };
        let bit_depth_ok = match bit_depth {
            Some(value) => value <= 8,
            None => true,
        };
        profile_ok && pix_fmt_ok && level_ok && bit_depth_ok
    } else if same_text(codec, "vp9") || same_text(codec, "av1") {
        match pix_fmt {
            Some(value) => {
                let value: String = to_lower(value);
                same_text(value.as_str(), "yuv420p") || same_text(value.as_str(), "yuvj420p")
                    || same_text(value.as_str(), "yuv420p10le")
            },
            None => true,
        }
    } else {
        same_text(codec, "vp8")
    }
}

/// Audio codecs that the client decodes, with hyphens for underscores.
pub open spec fn decodable_audio_name(name: Seq<char>) -> bool {
    ||| name == "aac"@
    ||| name == "opus"@
    ||| name == "flac"@
    ||| name == "vorbis"@
    ||| name == "mp3"@
    ||| name == "pcm-s8"@
    ||| name == "pcm-u8"@
    ||| name == "pcm-s16"@
    ||| name == "pcm-s16le"@
    ||| name == "pcm-s16be"@
    ||| name == "pcm-s24"@
    ||| name == "pcm-s24le"@
    ||| name == "pcm-s24be"@
    ||| name == "pcm-s32"@
    ||| name == "pcm-s32le"@
    ||| name == "pcm-s32be"@
    ||| name == "pcm-f32"@
    ||| name == "pcm-f32le"@
    ||| name == "pcm-f32be"@
    ||| name == "pcm-f64"@
    ||| name == "pcm-f64le"@
    ||| name == "pcm-f64be"@
    ||| name == "pcm-mulaw"@
    ||| name == "pcm-alaw"@
    ||| name == "ulaw"@
    ||| name == "alaw"@
}

/// Whether the client decodes this audio codec.
pub open spec fn decodable_audio(codec: Seq<char>) -> bool {
    decodable_audio_name(replaced(lower(codec), '_', "-"@))
}

/// Whether the client decodes this audio codec.
pub fn is_client_decodable_audio_codec(codec: &str) -> (r: bool)
    ensures
        r == decodable_audio(codec@),
{
    let codec: String = to_lower(codec);
    let name: String = replace_char(codec.as_str(), '_', "-");
    let name: &str = name.as_str();
    same_text(name, "aac") || same_text(name, "opus") || same_text(name, "flac") || same_text(
        name,
        "vorbis",
    ) || same_text(name, "mp3") || same_text(name, "pcm-s8") || same_text(name, "pcm-u8")
        || same_text(name, "pcm-s16") || same_text(name, "pcm-s16le") || same_text(
        name,
        "pcm-s16be",
    ) || same_text(name, "pcm-s24") || same_text(name, "pcm-s24le") || same_text(name, "pcm-s24be")
        || same_text(name, "pcm-s32") || same_text(name, "pcm-s32le") || same_text(
        name,
        "pcm-s32be",
    ) || same_text(name, "pcm-f32") || same_text(name, "pcm-f32le") || same_text(name, "pcm-f32be")
        || same_text(name, "pcm-f64") || same_text(name, "pcm-f64le") || same_text(
        name,
        "pcm-f64be",
    ) || same_text(name, "pcm-mulaw") || same_text(name, "pcm-alaw") || same_text(name, "ulaw")
        || same_text(name, "alaw")
}

/// Whether the server can turn this audio codec into one that the client
/// decodes.
pub open spec fn transcodable_audio(codec: Seq<char>) -> bool {
    let name = lower(codec);
    ||| name == "ac3"@
    ||| name == "eac3"@
    ||| name == "dts"@
    ||| name == "truehd"@
    ||| name == "pcm_s16le"@
    ||| name == "pcm_s24le"@
    ||| name == "pcm_s32le"@
    ||| name == "pcm_f32le"@
}

/// Whether the server can turn this audio codec into one that the client
/// decodes.
pub fn is_transcodable_audio_codec(codec: &str) -> (r: bool)
    ensures
        r == transcodable_audio(codec@),
{
    let name: String = to_lower(codec);
    let name: &str = name.as_str();
    same_text(name, "ac3") || same_text(name, "eac3") || same_text(name, "dts") || same_text(
        name,
        "truehd",
    ) || same_text(name, "pcm_s16le") || same_text(name, "pcm_s24le") || same_text(
        name,
        "pcm_s32le",
    ) || same_text(name, "pcm_f32le")
}

/// Audio codecs that browsers decode and that MP4 files carry, so that a
/// stream copy can take them over unchanged.
pub open spec fn mp4_audio(codec: Seq<char>) -> bool {
    let name = lower(codec);
    name == "aac"@ || name == "mp3"@ || name == "opus"@ || name == "flac"@
}

/// Whether a stream copy can take this audio codec over unchanged.
pub fn is_browser_safe_audio_codec_for_mp4(codec: &str) -> (r: bool)
    ensures
        r == mp4_audio(codec@),
{
    let name: String = to_lower(codec);
    let name: &str = name.as_str();
    same_text(name, "aac") || same_text(name, "mp3") || same_text(name, "opus") || same_text(
        name,
        "flac",
    )
}

/// Whether an audio stream has a codec that the client decodes.
pub open spec fn stream_decodable(stream: AudioStream) -> bool {
    stream.codec matches Some(codec) && decodable_audio(codec@)
}

/// Whether an audio stream has a codec that the client decodes or the server
/// can turn into one.
pub open spec fn stream_transcodable(stream: AudioStream) -> bool {
    stream.codec matches Some(codec) && (decodable_audio(codec@) || transcodable_audio(codec@))
}

/// Whether the client demuxes and decodes the file as it is.
pub open spec fn plays_directly(
    container: Option<Seq<char>>,
    extension: Option<Seq<char>>,
    video: VideoFacts,
    audio: Seq<AudioStream>,
) -> bool {
    &&& container matches Some(name) && demuxable(name, extension)
    &&& video.codec matches Some(codec) ==> safe_video(
        codec,
        video.profile,
        video.pix_fmt,
        video.level,
        video.bit_depth,
    )
    &&& forall|i: int| 0 <= i < audio.len() ==> stream_decodable(#[trigger] audio[i])
}

/// How a file with these streams reaches the browser. Nothing to play is
/// unsupported; what the client plays as it is goes out as it is; an audio
/// stream that cannot be transcoded is unsupported; the rest is prepared.
pub open spec fn playback_mode(
    container: Option<Seq<char>>,
    extension: Option<Seq<char>>,
    video: VideoFacts,
    audio: Seq<AudioStream>,
) -> PlaybackMode {
    if video.codec is None && audio.len() == 0 {
        PlaybackMode::Unsupported
    } else if plays_directly(container, extension, video, audio) {
        PlaybackMode::Direct
    } else if forall|i: int| 0 <= i < audio.len() ==> stream_transcodable(#[trigger] audio[i]) {
        PlaybackMode::NeedsPreparation
    } else {
        PlaybackMode::Unsupported
    }
}

/// How a file with these streams reaches the browser.
pub fn classify_playback_mode(
    container: Option<&str>,
    file_extension: Option<&str>,
    video: VideoPlaybackInfo<'_>,
    audio_streams: &[AudioStream],
) -> (r: PlaybackMode)
    ensures
        r == playback_mode(opt_str(container), opt_str(file_extension), video@, audio_streams@),
{
    if video.codec.is_none() && audio_streams.len() == 0 {
        return PlaybackMode::Unsupported;
    }
    let container_ok = match container {
        Some(value) => is_client_demuxable_container(value, file_extension),
        None => false,
    };
    let video_ok = match video.codec {
        Some(codec) => is_browser_safe_video_codec(
            codec,
            video.profile,
            video.pix_fmt,
            video.level,
            video.bit_depth,
        ),
        None => true,
    };
    let mut audio_ok: bool = true;
    let mut audio_transcodable: bool = true;
    let mut i: usize = 0;
    while i < audio_streams.len()
        invariant
            i <= audio_streams.len(),
            audio_ok == (forall|k: int| 0 <= k < i ==> stream_decodable(#[trigger] audio_streams@[k])),
            audio_transcodable == (forall|k: int|
                0 <= k < i ==> stream_transcodable(#[trigger] audio_streams@[k])),
        decreases audio_streams.len() - i,
    {
        let (decodable, transcodable): (bool, bool) = match &audio_streams[i].codec {
            Some(codec) => {
                let decodable: bool = is_client_decodable_audio_codec(codec.as_str());
                (decodable, decodable || is_transcodable_audio_codec(codec.as_str()))
            },
            None => (false, false),
        };
        assert(decodable == stream_decodable(audio_streams@[i as int]));
        assert(transcodable == stream_transcodable(audio_streams@[i as int]));
        audio_ok = audio_ok && decodable;
        audio_transcodable = audio_transcodable && transcodable;
        i = i + 1;
    }
    if video_ok && audio_ok && container_ok {
        PlaybackMode::Direct
    } else if audio_transcodable {
        PlaybackMode::NeedsPreparation
    } else {
        PlaybackMode::Unsupported
    }
}

/// A file without streams is unsupported, and so is every file with an audio
/// stream that the client does not decode and the server cannot transcode.
pub proof fn law_unsupported_files(
    container: Option<Seq<char>>,
    extension: Option<Seq<char>>,
    video: VideoFacts,
    audio: Seq<AudioStream>,
)
    ensures
        video.codec is None && audio.len() == 0 ==> playback_mode(
            container,
            extension,
            video,
            audio,
        ) == PlaybackMode::Unsupported,
        (exists|i: int| 0 <= i < audio.len() && !stream_transcodable(#[trigger] audio[i]))
            ==> playback_mode(container, extension, video, audio) == PlaybackMode::Unsupported,
{
    if exists|i: int| 0 <= i < audio.len() && !stream_transcodable(#[trigger] audio[i]) {
        let i = choose|i: int| 0 <= i < audio.len() && !stream_transcodable(#[trigger] audio[i]);
        assert(!stream_decodable(audio[i]));
    }
}

/// A file is played directly only if the client can demux its container: the name of
/// the container is known, and it has a Matroska tag on an `.mkv` or `.webm` file, or
/// no Matroska tag and a tag of another container that the client reads.
pub proof fn law_direct_files_can_be_demuxed(
    container: Option<Seq<char>>,
    extension: Option<Seq<char>>,
    video: VideoFacts,
    audio: Seq<AudioStream>,
)
    requires
        playback_mode(container, extension, video, audio) == PlaybackMode::Direct,
    ensures
        container is Some,
        ({
            let tags = pieces(container->0, ',');
            let tag = |i: int| lower(trimmed(tags[i]));
            if exists|i: int| 0 <= i < tags.len() && #[trigger] tag(i) == "matroska"@ {
                extension is Some && (lower(extension->0) == "mkv"@ || lower(extension->0)
                    == "webm"@)
            } else {
                exists|i: int|
                    0 <= i < tags.len() && {
                        let t = #[trigger] tag(i);
                        t == "mov"@
                        || t == "mp4"@
                        || t == "m4a"@
                        || t == "m4v"@
                        || t == "3gp"@
                        || t == "3g2"@
                        || t == "mj2"@
                        || t == "webm"@
                        || t == "mp3"@
                        || t == "ogg"@
                        || t == "flac"@
                        || t == "wav"@
                    }
            }
        }),
{
    let tags = pieces(container->0, ',');
    let tag = |i: int| lower(trimmed(tags[i]));
    if exists|i: int| 0 <= i < tags.len() && #[trigger] tag(i) == "matroska"@ {
        let i = choose|i: int| 0 <= i < tags.len() && #[trigger] tag(i) == "matroska"@;
        assert(container_tag(container->0, i) == "matroska"@);
    } else {
        assert(!has_tag(container->0, "matroska"@)) by {
            if has_tag(container->0, "matroska"@) {
                let i = choose|i: int|
                    0 <= i < tags.len() && #[trigger] container_tag(container->0, i)
                        == "matroska"@;
                assert(tag(i) == "matroska"@);
            }
        }
        let i = choose|i: int|
            0 <= i < tags.len() && demuxable_tag(#[trigger] container_tag(container->0, i));
        assert(tag(i) == container_tag(container->0, i));
    }
}

/// A file with streams whose container the client cannot demux is prepared or
/// unsupported, whatever its streams are.
pub proof fn law_other_containers_are_prepared(
    container: Option<Seq<char>>,
    extension: Option<Seq<char>>,
    video: VideoFacts,
    audio: Seq<AudioStream>,
)
    requires
        container is None || !demuxable(container->0, extension),
    ensures
        playback_mode(container, extension, video, audio) != PlaybackMode::Direct,
{
}

/// A file is played directly only if browsers decode its video: a codec of H.264,
/// VP8, VP9 or AV1, with what is known of an H.264 stream being a baseline, main or
/// high profile, 4:2:0 pixels, level 5.1 at most and 8 bits at most, and with what is
/// known of the pixels of a VP9 or AV1 stream being 4:2:0 of 8 or 10 bits.
pub proof fn law_direct_video_is_decoded_by_browsers(
    container: Option<Seq<char>>,
    extension: Option<Seq<char>>,
    video: VideoFacts,
    audio: Seq<AudioStream>,
)
    requires
        playback_mode(container, extension, video, audio) == PlaybackMode::Direct,
        video.codec is Some,
    ensures
        ({
            let codec = lower(video.codec->0);
            let h264 = codec == "h264"@ || codec == "avc"@ || codec == "avc1"@;
            &&& h264 || codec == "vp8"@ || codec == "vp9"@ || codec == "av1"@
            &&& h264 && video.profile is Some ==> has_text(lower(video.profile->0), "baseline"@)
                || has_text(lower(video.profile->0), "main"@) || has_text(
                lower(video.profile->0),
                "high"@,
            )
            &&& h264 && video.pix_fmt is Some ==> lower(video.pix_fmt->0) == "yuv420p"@ || lower(
                video.pix_fmt->0,
            ) == "yuvj420p"@
            &&& h264 && video.level is Some ==> video.level->0 <= 51
            &&& h264 && video.bit_depth is Some ==> video.bit_depth->0 <= 8
            &&& (codec == "vp9"@ || codec == "av1"@) && video.pix_fmt is Some ==> lower(
                video.pix_fmt->0,
            ) == "yuv420p"@ || lower(video.pix_fmt->0) == "yuvj420p"@ || lower(video.pix_fmt->0)
                == "yuv420p10le"@
        }),
{
    lemma_codec_names_differ();
}

proof fn lemma_codec_names_differ()
    ensures
        "vp9"@ != "h264"@ && "vp9"@ != "avc"@ && "vp9"@ != "avc1"@,
        "av1"@ != "h264"@ && "av1"@ != "avc"@ && "av1"@ != "avc1"@,
        "vp8"@ != "h264"@ && "vp8"@ != "avc"@ && "vp8"@ != "avc1"@,
        "vp8"@ != "vp9"@ && "vp8"@ != "av1"@,
{
    reveal_strlit("h264");
    reveal_strlit("avc");
    reveal_strlit("avc1");
    reveal_strlit("vp8");
    reveal_strlit("vp9");
    reveal_strlit("av1");
    assert("vp9"@[2] == '9' && "vp8"@[2] == '8');
    assert("av1"@[2] == '1' && "avc"@[2] == 'c');
    assert("vp9"@.len() == 3 && "h264"@.len() == 4 && "avc1"@.len() == 4);
    assert("av1"@.len() == 3 && "vp8"@.len() == 3);
}

/// The names of the audio codecs that the client decodes.
pub open spec fn plays_audio(codec: Seq<char>) -> bool {
    let name = replaced(lower(codec), '_', "-"@);
    name == "aac"@
        || name == "opus"@
        || name == "flac"@
        || name == "vorbis"@
        || name == "mp3"@
        || name == "pcm-s8"@
        || name == "pcm-u8"@
        || name == "pcm-s16"@
        || name == "pcm-s16le"@
        || name == "pcm-s16be"@
        || name == "pcm-s24"@
        || name == "pcm-s24le"@
        || name == "pcm-s24be"@
        || name == "pcm-s32"@
        || name == "pcm-s32le"@
        || name == "pcm-s32be"@
        || name == "pcm-f32"@
        || name == "pcm-f32le"@
        || name == "pcm-f32be"@
        || name == "pcm-f64"@
        || name == "pcm-f64le"@
        || name == "pcm-f64be"@
        || name == "pcm-mulaw"@
        || name == "pcm-alaw"@
        || name == "ulaw"@
        || name == "alaw"@
}

/// A file is played directly only if the codec of every audio stream is known and the
/// client decodes it; none that the server would have to transcode is among them.
pub proof fn law_direct_audio_is_decoded_by_the_client(
    container: Option<Seq<char>>,
    extension: Option<Seq<char>>,
    video: VideoFacts,
    audio: Seq<AudioStream>,
    i: int,
)
    requires
        playback_mode(container, extension, video, audio) == PlaybackMode::Direct,
        0 <= i < audio.len(),
    ensures
        audio[i].codec is Some,
        plays_audio(audio[i].codec->0@),
{
    assert(stream_decodable(audio[i]));
}

/// A file with streams is played directly where the client demuxes its container and
/// its streams are ones that the client decodes. A file that is not goes through
/// preparation exactly where every audio stream has a known codec that the client
/// decodes or the server transcodes.
pub proof fn law_playable_files_are_played(
    container: Seq<char>,
    extension: Option<Seq<char>>,
    video: VideoFacts,
    audio: Seq<AudioStream>,
)
    requires
        video.codec is Some || audio.len() > 0,
    ensures
        demuxable(container, extension) && (video.codec is Some ==> (lower(video.codec->0)
            == "vp8"@ || (lower(video.codec->0) == "h264"@ && (video.profile is None || lower(
            video.profile->0,
        ) == "main"@ || lower(video.profile->0) == "high"@) && (video.pix_fmt is None || lower(
            video.pix_fmt->0,
        ) == "yuv420p"@) && (video.level is None || video.level->0 <= 51) && (video.bit_depth is None
            || video.bit_depth->0 <= 8)) || ((lower(video.codec->0) == "vp9"@ || lower(
            video.codec->0,
        ) == "av1"@) && (video.pix_fmt is None || lower(video.pix_fmt->0) == "yuv420p"@ || lower(
            video.pix_fmt->0,
        ) == "yuv420p10le"@)))) && (forall|i: int|
            0 <= i < audio.len() ==> (#[trigger] audio[i]).codec is Some && plays_audio(
                audio[i].codec->0@,
            )) ==> playback_mode(Some(container), extension, video, audio) == PlaybackMode::Direct,
        playback_mode(Some(container), extension, video, audio) == PlaybackMode::Direct || (
        playback_mode(Some(container), extension, video, audio) == PlaybackMode::NeedsPreparation
            <==> forall|i: int|
            0 <= i < audio.len() ==> (#[trigger] audio[i]).codec is Some && (plays_audio(
                audio[i].codec->0@,
            ) || {
                let name = lower(audio[i].codec->0@);
                name == "ac3"@ || name == "eac3"@ || name == "dts"@ || name == "truehd"@ || name
                    == "pcm_s16le"@ || name == "pcm_s24le"@ || name == "pcm_s32le"@ || name
                    == "pcm_f32le"@
            })),
{
    lemma_codec_names_differ();
    if video.profile is Some {
        let profile = lower(video.profile->0);
        assert(profile.subrange(0, profile.len() as int) =~= profile);
        assert(occurs_at(profile, profile, 0));
    }
    assert forall|i: int| 0 <= i < audio.len() implies stream_decodable(#[trigger] audio[i]) == (
    audio[i].codec is Some && plays_audio(audio[i].codec->0@)) by {}
    let all = forall|i: int|
        0 <= i < audio.len() ==> (#[trigger] audio[i]).codec is Some && (plays_audio(
            audio[i].codec->0@,
        ) || transcodable_audio(audio[i].codec->0@));
    if all {
        assert forall|i: int| 0 <= i < audio.len() implies stream_transcodable(
            #[trigger] audio[i],
        ) by {}
    } else {
        let i = choose|i: int|
            0 <= i < audio.len() && !((#[trigger] audio[i]).codec is Some && (plays_audio(
                audio[i].codec->0@,
            ) || transcodable_audio(audio[i].codec->0@)));
        assert(!stream_transcodable(audio[i]));
    }
}

/// The client demuxes a container by one of its tags, whatever their case, their
/// order and the white space round them; a Matroska tag counts only on an `.mkv` or
/// `.webm` file and then decides alone.
pub proof fn law_one_tag_is_enough(container: Seq<char>, extension: Option<Seq<char>>, i: int)
    requires
        0 <= i < pieces(container, ',').len(),
    ensures
        ({
            let tag = lower(trimmed(pieces(container, ',')[i]));
            &&& tag == "matroska"@ ==> (demuxable(container, extension) <==> extension is Some && (
            lower(extension->0) == "mkv"@ || lower(extension->0) == "webm"@))
            &&& (tag == "mp4"@ || tag == "mov"@ || tag == "webm"@ || tag == "mp3"@ || tag == "ogg"@
                || tag == "flac"@ || tag == "wav"@ || tag == "m4a"@ || tag == "m4v"@ || tag
                == "3gp"@ || tag == "3g2"@ || tag == "mj2"@) && (forall|k: int|
                0 <= k < pieces(container, ',').len() ==> lower(
                    trimmed(#[trigger] pieces(container, ',')[k]),
                ) != "matroska"@) ==> demuxable(container, extension)
        }),
{
    let tag = container_tag(container, i);
    assert(tag == lower(trimmed(pieces(container, ',')[i])));
    if tag == "matroska"@ {
        assert(has_tag(container, "matroska"@));
    }
    if demuxable_tag(tag) && (forall|k: int|
        0 <= k < pieces(container, ',').len() ==> lower(trimmed(#[trigger] pieces(container, ',')[k]))
            != "matroska"@) {
        assert(!has_tag(container, "matroska"@));
    }
}

/// A stream copy takes over exactly the audio that MP4 files carry and browsers
/// decode: AAC, MP3, Opus and FLAC.
pub proof fn law_audio_that_copies_take_over(codec: Seq<char>)
    ensures
        mp4_audio(codec) <==> (lower(codec) == "aac"@ || lower(codec) == "mp3"@ || lower(codec)
            == "opus"@ || lower(codec) == "flac"@),
        mp4_audio(codec) ==> plays_audio(codec),
{
    let name = lower(codec);
    reveal_strlit("-");
    reveal_strlit("aac");
    reveal_strlit("mp3");
    reveal_strlit("opus");
    reveal_strlit("flac");
    assert("-"@ =~= seq!['-']);
    law_replacing_keeps_the_rest(name, '_', '-');
    if mp4_audio(codec) {
        assert(replaced(name, '_', "-"@) =~= name);
    }
}

/// A file goes to the browser as it is only where the client can demux its container: an
/// unknown container, and a Matroska one under another extension, never do; nor does one
/// without a tag that the client reads.
pub proof fn law_other_containers_never_play_directly(
    container: Option<&str>,
    file_extension: Option<&str>,
    video: VideoPlaybackInfo<'_>,
    audio_streams: &[AudioStream],
    r: PlaybackMode,
)
    requires
        call_ensures(
            classify_playback_mode,
            (container, file_extension, video, audio_streams),
            r,
        ),
        r == PlaybackMode::Direct,
    ensures
        container is Some,
        exists|i: int|
            0 <= i < pieces(container->0@, ',').len() && {
                let t = lower(trimmed(#[trigger] pieces(container->0@, ',')[i]));
                ||| t == "matroska"@ && file_extension is Some && (lower(file_extension->0@)
                    == "mkv"@ || lower(file_extension->0@) == "webm"@)
                ||| t == "mov"@
                ||| t == "mp4"@
                ||| t == "m4a"@
                ||| t == "m4v"@
                ||| t == "3gp"@
                ||| t == "3g2"@
                ||| t == "mj2"@
                ||| t == "webm"@
                ||| t == "mp3"@
                ||| t == "ogg"@
                ||| t == "flac"@
                ||| t == "wav"@
            },
        forall|i: int|
            0 <= i < pieces(container->0@, ',').len() && lower(
                trimmed(#[trigger] pieces(container->0@, ',')[i]),
            ) == "matroska"@ ==> file_extension is Some && (lower(file_extension->0@) == "mkv"@
                || lower(file_extension->0@) == "webm"@),
{
    let name = container->0@;
    let tags = pieces(name, ',');
    if has_tag(name, "matroska"@) {
        let i = choose|i: int|
            0 <= i < tags.len() && #[trigger] container_tag(name, i) == "matroska"@;
        assert(lower(trimmed(tags[i])) == "matroska"@);
    } else {
        let i = choose|i: int|
            0 <= i < tags.len() && demuxable_tag(#[trigger] container_tag(name, i));
        assert(lower(trimmed(tags[i])) == container_tag(name, i));
        assert forall|k: int| 0 <= k < tags.len() implies lower(trimmed(#[trigger] tags[k]))
            != "matroska"@ by {
            assert(container_tag(name, k) == lower(trimmed(tags[k])));
        }
    }
}

} // verus!
