//! The playlists of an HLS session.
use crate::muxing::segments::{
    format_seconds, law_segment_name_holds_its_index, nearest_milli, seconds_of, segment_name,
    video_segment_filename, SegmentPlan,
};
use crate::muxing::{BrowserHint, HlsMode};
use crate::protocol::{AudioStream, MediaItem};
use crate::text::{
    all_digits, concat2, concat3, copy_opt, decimal, decimal_text, has_text, is_digit, join, joined,
    lemma_decimal, lemma_decimal_injective, lemma_joined_front, lemma_pieces_append,
    lemma_pieces_line, lemma_pieces_of_nothing, lemma_pieces_push, lower, numeral_value, occurs_at,
    opt_text, pieces, push_text, same_text, texts, to_lower,
};
use vstd::prelude::*;

verus! {

/// The init segment that the playlist names. It is a copy of what the encoder
/// wrote first, which an encoder that starts later does not overwrite.
pub const INIT_SEGMENT_FROZEN: &'static str = "init_0.lock.mp4";

/// The init segment that the encoder writes.
pub const INIT_SEGMENT_RAW: &'static str = "init_0.mp4";

/// The playlist of the video variant.
pub const VIDEO_VARIANT_FILENAME: &'static str = "stream_0.m3u8";

/// The master playlist.
pub const MASTER_FILENAME: &'static str = "master.m3u8";

/// The lines of the first `n` segments.
pub open spec fn segment_lines(plan: SegmentPlan, n: int) -> Seq<char>
    decreases n,
{
    if n <= 0 {
        seq![]
    } else {
        segment_lines(plan, n - 1) + "#EXTINF:"@ + seconds_of(plan.length(n - 1) as nat) + ",\n"@
            + segment_name((n - 1) as nat) + "\n"@
    }
}

/// The head of a variant playlist.
pub open spec fn variant_head(plan: SegmentPlan) -> Seq<char> {
    "#EXTM3U\n#EXT-X-VERSION:7\n#EXT-X-TARGETDURATION:"@ + decimal(plan.target_duration_secs as nat)
        + "\n#EXT-X-MEDIA-SEQUENCE:0\n#EXT-X-PLAYLIST-TYPE:VOD\n#EXT-X-INDEPENDENT-SEGMENTS\n#EXT-X-MAP:URI=\""@
        + INIT_SEGMENT_FROZEN@ + "\"\n"@
}

/// The playlist of a layout: complete from the start, whatever the encoder has
/// written so far.
pub open spec fn variant_playlist(plan: SegmentPlan) -> Seq<char> {
    variant_head(plan) + segment_lines(plan, plan.boundaries@.len() as int) + "#EXT-X-ENDLIST\n"@
}

/// The playlist of a layout.
pub fn build_variant_playlist(plan: &SegmentPlan) -> (r: String)
    requires
        plan.wf(),
    ensures
        r@ == variant_playlist(*plan),
{
    let mut out: String = concat3(
        "#EXTM3U\n#EXT-X-VERSION:7\n#EXT-X-TARGETDURATION:",
        decimal_text(plan.target_duration_secs as u64).as_str(),
        "\n#EXT-X-MEDIA-SEQUENCE:0\n#EXT-X-PLAYLIST-TYPE:VOD\n#EXT-X-INDEPENDENT-SEGMENTS\n#EXT-X-MAP:URI=\"",
    );
    out.append(INIT_SEGMENT_FROZEN);
    out.append("\"\n");
    let count: u32 = plan.segment_count();
    let mut i: u32 = 0;
    assert(out@ =~= variant_head(*plan) + segment_lines(*plan, 0));
    while i < count
        invariant
            plan.wf(),
            count == plan.boundaries@.len(),
            i <= count,
            out@ == variant_head(*plan) + segment_lines(*plan, i as int),
        decreases count - i,
    {
        let ghost before = out@;
        out.append("#EXTINF:");
        out.append(format_seconds(plan.duration_of(i)).as_str());
        out.append(",\n");
        out.append(video_segment_filename(i).as_str());
        out.append("\n");
        assert(out@ =~= variant_head(*plan) + segment_lines(*plan, i + 1));
        i = i + 1;
    }
    out.append("#EXT-X-ENDLIST\n");
    out
}

/// An audio stream as a rendition of its own.
#[derive(Debug, PartialEq, Eq)]
pub struct EffectiveAudioStream {
    pub local_index: usize,
    pub language: Option<String>,
    pub title: Option<String>,
    pub default: bool,
}

/// The renditions of a list of audio streams, one for each.
pub fn effective_audio_streams(streams: &Vec<AudioStream>) -> (r: Vec<EffectiveAudioStream>)
    ensures
        r@.len() == streams@.len(),
        forall|i: int|
            0 <= i < r@.len() ==> #[trigger] r@[i] == (EffectiveAudioStream {
                local_index: i as usize,
                language: streams@[i].language,
                title: streams@[i].title,
                default: streams@[i].default,
            }),
        are_renditions(r@),
{
    let mut list: Vec<EffectiveAudioStream> = Vec::new();
    let mut i: usize = 0;
    while i < streams.len()
        invariant
            i <= streams@.len(),
            list@.len() == i,
            forall|k: int|
                0 <= k < i ==> #[trigger] list@[k] == (EffectiveAudioStream {
                    local_index: k as usize,
                    language: streams@[k].language,
                    title: streams@[k].title,
                    default: streams@[k].default,
                }),
        decreases streams@.len() - i,
    {
        list.push(
            EffectiveAudioStream {
                local_index: i,
                language: copy_opt(&streams[i].language),
                title: copy_opt(&streams[i].title),
                default: streams[i].default,
            },
        );
        i = i + 1;
    }
    list
}

/// Whether each rendition is numbered by its place.
pub open spec fn are_renditions(list: Seq<EffectiveAudioStream>) -> bool {
    forall|i: int| 0 <= i < list.len() ==> (#[trigger] list[i]).local_index == i
}

/// Whether a character may stand in a rendition name.
pub open spec fn is_token_char(c: char) -> bool {
    ||| '0' <= c <= '9'
    ||| 'a' <= c <= 'z'
    ||| 'A' <= c <= 'Z'
    ||| c == '-'
    ||| c == '_'
}

/// A character of a rendition name: itself, or an underscore.
pub open spec fn token_char(c: char) -> char {
    if is_token_char(c) {
        c
    } else {
        '_'
    }
}

/// A text with underscores for everything that may not stand in a rendition
/// name.
pub open spec fn token(value: Seq<char>) -> Seq<char> {
    value.map_values(|c: char| token_char(c))
}

/// A text with underscores for everything that may not stand in a rendition
/// name.
pub fn sanitize_token(value: &str) -> (r: String)
    ensures
        r@ == token(value@),
{
    let mut r: String = String::new();
    for c in iter: value.chars()
        invariant
            iter.seq() == value@,
            r@ == token(value@.take(iter.index() as int)),
    {
        let kept: bool = ('0' <= c && c <= '9') || ('a' <= c && c <= 'z') || ('A' <= c && c <= 'Z')
            || c == '-' || c == '_';
        r.push(
            if kept {
                c
            } else {
                '_'
            },
        );
        assert(token(value@.take(iter.index() as int + 1)) =~= token(
            value@.take(iter.index() as int),
        ).push(token_char(c)));
    }
    assert(value@.take(value@.len() as int) =~= value@);
    r
}

/// The name that people see of a rendition: its title, or else its language, or
/// else its number.
pub open spec fn display_name(stream: EffectiveAudioStream) -> Seq<char> {
    match (stream.title, stream.language) {
        (Some(title), _) => title@,
        (None, Some(language)) => language@,
        (None, None) => "Track "@ + decimal((stream.local_index + 1) as nat),
    }
}

/// The name that people see of a rendition.
pub fn audio_display_name_raw(stream: &EffectiveAudioStream) -> (r: String)
    requires
        stream.local_index < usize::MAX,
    ensures
        r@ == display_name(*stream),
{
    match &stream.title {
        Some(title) => title.clone(),
        None => match &stream.language {
            Some(language) => language.clone(),
            None => {
                let number: u64 = stream.local_index as u64 + 1;
                concat2("Track ", decimal_text(number).as_str())
            },
        },
    }
}

/// The name of a rendition for the encoder: unique by its number.
pub open spec fn rendition_name(stream: EffectiveAudioStream) -> Seq<char> {
    let raw = token(display_name(stream));
    "a"@ + decimal(stream.local_index as nat) + "_"@ + (if raw.len() == 0 {
        "track"@
    } else {
        raw
    })
}

/// The name of a rendition for the encoder.
pub fn audio_rendition_name_token(stream: &EffectiveAudioStream) -> (r: String)
    requires
        stream.local_index < usize::MAX,
    ensures
        r@ == rendition_name(*stream),
{
    let raw: String = sanitize_token(audio_display_name_raw(stream).as_str());
    let start: String = concat3("a", decimal_text(stream.local_index as u64).as_str(), "_");
    if raw.as_str().is_empty() {
        start.concat("track")
    } else {
        start.concat(raw.as_str())
    }
}

/// The playlist that the encoder writes for a rendition.
pub open spec fn rendition_playlist(stream: EffectiveAudioStream) -> Seq<char> {
    "stream_"@ + rendition_name(stream) + ".m3u8"@
}

/// The playlist that the encoder writes for a rendition.
pub fn audio_variant_filename(stream: &EffectiveAudioStream) -> (r: String)
    requires
        stream.local_index < usize::MAX,
    ensures
        r@ == rendition_playlist(*stream),
{
    concat3("stream_", audio_rendition_name_token(stream).as_str(), ".m3u8")
}

/// No two renditions have the same name or the same playlist, however alike
/// their titles are.
pub proof fn law_rendition_names_are_unique(a: EffectiveAudioStream, b: EffectiveAudioStream)
    requires
        rendition_name(a) == rendition_name(b) || rendition_playlist(a) == rendition_playlist(b),
    ensures
        a.local_index == b.local_index,
{
    if rendition_playlist(a) == rendition_playlist(b) {
        let start = "stream_"@.len() as int;
        let end = rendition_playlist(a).len() - ".m3u8"@.len();
        assert(rendition_playlist(a).subrange(start, end) =~= rendition_name(a));
        assert(rendition_playlist(b).subrange(start, end) =~= rendition_name(b));
    }
    let x = decimal(a.local_index as nat);
    let y = decimal(b.local_index as nat);
    let m = x.len() as int;
    let n = y.len() as int;
    lemma_decimal(a.local_index as nat);
    lemma_decimal(b.local_index as nat);
    reveal_strlit("a");
    reveal_strlit("_");
    let name = rendition_name(a);
    assert(name[1 + m] == '_');
    assert(name[1 + n] == '_');
    if m < n {
        assert(name[1 + m] == y[m]);
        assert(is_digit(y[m]));
    } else if n < m {
        assert(name[1 + n] == x[n]);
        assert(is_digit(x[n]));
    }
    assert(x =~= name.subrange(1, 1 + m));
    assert(y =~= name.subrange(1, 1 + n));
    lemma_decimal_injective(a.local_index as nat, b.local_index as nat);
}

/// Whether the rendition at `i` is the default: the first that is flagged, or
/// the first of all where none is.
pub open spec fn is_default_rendition(list: Seq<EffectiveAudioStream>, i: int) -> bool {
    if exists|k: int| 0 <= k < list.len() && (#[trigger] list[k]).default {
        list[i].default && forall|k: int| 0 <= k < i ==> !(#[trigger] list[k]).default
    } else {
        i == 0
    }
}

/// The entry of a rendition in the encoder's stream map, without its default
/// mark.
pub open spec fn stream_entry(stream: EffectiveAudioStream) -> Seq<char> {
    "a:"@ + decimal(stream.local_index as nat) + ",agroup:aud"@ + (match stream.language {
        Some(language) => ",language:"@ + token(language@),
        None => Seq::<char>::empty(),
    }) + ",name:"@ + rendition_name(stream)
}

/// The entry of the rendition at `i`.
pub open spec fn marked_entry(list: Seq<EffectiveAudioStream>, i: int) -> Seq<char> {
    stream_entry(list[i]) + (if is_default_rendition(list, i) {
        ",default:yes"@
    } else {
        Seq::<char>::empty()
    })
}

/// The encoder's stream map: the video, and each rendition in the audio group.
pub open spec fn stream_map(list: Seq<EffectiveAudioStream>) -> Seq<char> {
    if list.len() == 0 {
        "v:0"@
    } else {
        joined(
            seq!["v:0,agroup:aud"@] + Seq::new(list.len(), |i: int| marked_entry(list, i)),
            " "@,
        )
    }
}

fn rendition_entry(stream: &EffectiveAudioStream) -> (r: String)
    requires
        stream.local_index < usize::MAX,
    ensures
        r@ == stream_entry(*stream),
{
    let mut entry: String = concat3(
        "a:",
        decimal_text(stream.local_index as u64).as_str(),
        ",agroup:aud",
    );
    match &stream.language {
        Some(language) => {
            let tag: String = concat2(",language:", sanitize_token(language.as_str()).as_str());
            entry.append(tag.as_str());
        },
        None => {
            assert(entry@ =~= entry@ + Seq::<char>::empty());
        },
    }
    entry.append(",name:");
    entry.append(audio_rendition_name_token(stream).as_str());
    entry
}

fn first_default(audio: &Vec<EffectiveAudioStream>) -> (r: usize)
    requires
        audio@.len() > 0,
    ensures
        r < audio@.len(),
        forall|i: int| 0 <= i < audio@.len() ==> (is_default_rendition(audio@, i) <==> i == r),
{
    let mut i: usize = 0;
    while i < audio.len()
        invariant
            i <= audio@.len(),
            forall|k: int| 0 <= k < i ==> !(#[trigger] audio@[k]).default,
        decreases audio@.len() - i,
    {
        if audio[i].default {
            assert(audio@[i as int].default);
            return i;
        }
        i = i + 1;
    }
    0
}

/// The encoder's stream map.
pub fn build_var_stream_map(audio: &Vec<EffectiveAudioStream>) -> (r: String)
    requires
        are_renditions(audio@),
    ensures
        r@ == stream_map(audio@),
{
    if audio.len() == 0 {
        return "v:0".to_owned();
    }
    let default: usize = first_default(audio);
    let mut parts: Vec<String> = Vec::new();
    push_text(&mut parts, "v:0,agroup:aud");
    let ghost entries = Seq::new(audio@.len(), |i: int| marked_entry(audio@, i));
    let mut i: usize = 0;
    assert(texts(parts@) =~= seq!["v:0,agroup:aud"@] + entries.take(0));
    while i < audio.len()
        invariant
            i <= audio@.len(),
            are_renditions(audio@),
            entries == Seq::new(audio@.len(), |i: int| marked_entry(audio@, i)),
            forall|k: int|
                0 <= k < audio@.len() ==> (is_default_rendition(audio@, k) <==> k == default),
            texts(parts@) == seq!["v:0,agroup:aud"@] + entries.take(i as int),
        decreases audio@.len() - i,
    {
        let mut entry: String = rendition_entry(&audio[i]);
        if i == default {
            entry.append(",default:yes");
        }
        assert(entry@ =~= marked_entry(audio@, i as int));
        push_text(&mut parts, entry.as_str());
        assert(texts(parts@) =~= seq!["v:0,agroup:aud"@] + entries.take(i + 1));
        i = i + 1;
    }
    assert(entries.take(audio@.len() as int) =~= entries);
    join(&parts, " ")
}

/// Exactly one rendition is the default, however many are flagged.
pub proof fn law_one_default_rendition(list: Seq<EffectiveAudioStream>)
    requires
        list.len() > 0,
    ensures
        exists|i: int|
            0 <= i < list.len() && #[trigger] is_default_rendition(list, i) && forall|k: int|
                0 <= k < list.len() && #[trigger] is_default_rendition(list, k) ==> k == i,
{
    let i = if exists|k: int| 0 <= k < list.len() && (#[trigger] list[k]).default {
        let k = choose|k: int| 0 <= k < list.len() && (#[trigger] list[k]).default;
        lemma_first_flagged(list, k)
    } else {
        0
    };
    assert(is_default_rendition(list, i));
    assert forall|k: int|
        0 <= k < list.len() && #[trigger] is_default_rendition(list, k) implies k == i by {
        if k < i {
            assert(!list[k].default);
        } else if i < k {
            assert(!list[i].default || !is_default_rendition(list, k));
        }
    }
}

/// The first flagged rendition up to `k`.
proof fn lemma_first_flagged(list: Seq<EffectiveAudioStream>, k: int) -> (first: int)
    requires
        0 <= k < list.len(),
        list[k].default,
    ensures
        0 <= first <= k,
        list[first].default,
        forall|j: int| 0 <= j < first ==> !(#[trigger] list[j]).default,
    decreases k,
{
    if exists|j: int| 0 <= j < k && (#[trigger] list[j]).default {
        let j = choose|j: int| 0 <= j < k && (#[trigger] list[j]).default;
        lemma_first_flagged(list, j)
    } else {
        k
    }
}

/// Whether `c` is a control character.
pub open spec fn is_control(c: char) -> bool {
    c <= '\u{1f}' || ('\u{7f}' <= c <= '\u{9f}')
}

/// A character of a quoted attribute: quotes and control characters would break
/// the line.
pub open spec fn attr_char(c: char) -> char {
    if c == '"' || is_control(c) {
        '_'
    } else {
        c
    }
}

/// A text for a quoted attribute.
pub open spec fn attr(value: Seq<char>) -> Seq<char> {
    value.map_values(|c: char| attr_char(c))
}

/// A text for a quoted attribute.
pub fn escape_playlist_attr(value: &str) -> (r: String)
    ensures
        r@ == attr(value@),
{
    let mut r: String = String::new();
    for c in iter: value.chars()
        invariant
            iter.seq() == value@,
            r@ == attr(value@.take(iter.index() as int)),
    {
        let bad: bool = c == '"' || c <= '\u{1f}' || ('\u{7f}' <= c && c <= '\u{9f}');
        r.push(
            if bad {
                '_'
            } else {
                c
            },
        );
        assert(attr(value@.take(iter.index() as int + 1)) =~= attr(
            value@.take(iter.index() as int),
        ).push(attr_char(c)));
    }
    assert(value@.take(value@.len() as int) =~= value@);
    r
}

/// A quoted attribute never ends early or breaks its line.
pub proof fn law_attribute_stays_quoted(value: Seq<char>, i: int)
    requires
        0 <= i < attr(value).len(),
    ensures
        attr(value)[i] != '"',
        attr(value)[i] != '\n',
        attr(value)[i] != '\r',
{
}

/// The least and the greatest bandwidth that are declared, and the one that is
/// declared where nothing is known.
pub const MIN_BANDWIDTH_BPS: u32 = 500_000;

pub const MAX_BANDWIDTH_BPS: u32 = 80_000_000;

pub const DEFAULT_BANDWIDTH_BPS: u32 = 5_000_000;

/// The bandwidth that a file takes, in bits per second: its size over its
/// duration, within the bounds.
pub open spec fn bandwidth(size_bytes: u64, duration_millis: Option<i64>) -> int {
    match duration_millis {
        Some(duration) => if duration > 0 {
            let bits = size_bytes * 8000 / duration as int;
            if bits < MIN_BANDWIDTH_BPS {
                MIN_BANDWIDTH_BPS as int
            } else if bits > MAX_BANDWIDTH_BPS {
                MAX_BANDWIDTH_BPS as int
            } else {
                bits
            }
        } else {
            DEFAULT_BANDWIDTH_BPS as int
        },
        None => DEFAULT_BANDWIDTH_BPS as int,
    }
}

/// The bandwidth that a file takes, in bits per second.
pub fn estimate_bandwidth_bps(item: &MediaItem) -> (r: u32)
    ensures
        r == bandwidth(item.size_bytes, item.duration_millis),
        MIN_BANDWIDTH_BPS <= r <= MAX_BANDWIDTH_BPS,
{
    match item.duration_millis {
        Some(duration) => {
            if duration > 0 {
                let bits: u128 = item.size_bytes as u128 * 8000 / duration as u128;
                if bits < MIN_BANDWIDTH_BPS as u128 {
                    MIN_BANDWIDTH_BPS
                } else if bits > MAX_BANDWIDTH_BPS as u128 {
                    MAX_BANDWIDTH_BPS
                } else {
                    bits as u32
                }
            } else {
                DEFAULT_BANDWIDTH_BPS
            }
        },
        None => DEFAULT_BANDWIDTH_BPS,
    }
}

/// The codec string of the video: that of the encoder's output, or of the
/// source where it is copied.
pub open spec fn codec_string(codec: Option<Seq<char>>, transcoding: bool) -> Seq<char> {
    if transcoding {
        "avc1.640028"@
    } else {
        match codec {
            Some(name) => {
                let c = lower(name);
                if c == "hevc"@ || c == "h265"@ || c == "hev1"@ || c == "hvc1"@ {
                    "hvc1.1.6.L120.90"@
                } else if c == "vp9"@ {
                    "vp09.02.10.10"@
                } else if c == "av1"@ {
                    "av01.0.08M.08"@
                } else {
                    "avc1.640028"@
                }
            },
            None => "avc1.640028"@,
        }
    }
}

/// The codec string of the video.
pub fn hls_video_codec_string(item: &MediaItem, transcoding_video: bool) -> (r: &'static str)
    ensures
        r@ == codec_string(opt_text(item.video_codec), transcoding_video),
{
    if transcoding_video {
        return "avc1.640028";
    }
    match &item.video_codec {
        Some(name) => {
            let c: String = to_lower(name.as_str());
            let c: &str = c.as_str();
            if same_text(c, "hevc") || same_text(c, "h265") || same_text(c, "hev1") || same_text(
                c,
                "hvc1",
            ) {
                "hvc1.1.6.L120.90"
            } else if same_text(c, "vp9") {
                "vp09.02.10.10"
            } else if same_text(c, "av1") {
                "av01.0.08M.08"
            } else {
                "avc1.640028"
            }
        },
        None => "avc1.640028",
    }
}

/// The row of a rendition in the master playlist.
pub open spec fn media_row(stream: EffectiveAudioStream) -> Seq<char> {
    "#EXT-X-MEDIA:TYPE=AUDIO,GROUP-ID=\"aud\",NAME=\""@ + attr(display_name(stream)) + "\""@ + (
    match stream.language {
        Some(language) => ",LANGUAGE=\""@ + attr(language@) + "\""@,
        None => Seq::<char>::empty(),
    }) + ",DEFAULT="@ + (if stream.default {
        "YES"@
    } else {
        "NO"@
    }) + ",AUTOSELECT=YES,URI=\""@ + rendition_playlist(stream) + "\"\n"@
}

/// The rows of the first `n` renditions.
pub open spec fn media_rows(list: Seq<EffectiveAudioStream>, n: int) -> Seq<char>
    decreases n,
{
    if n <= 0 {
        seq![]
    } else {
        media_rows(list, n - 1) + media_row(list[n - 1])
    }
}

/// The resolution of the video, where it is known.
pub open spec fn resolution_attr(width: Option<u32>, height: Option<u32>) -> Seq<char> {
    match (width, height) {
        (Some(w), Some(h)) => if w > 0 && h > 0 {
            ",RESOLUTION="@ + decimal(w as nat) + "x"@ + decimal(h as nat)
        } else {
            Seq::empty()
        },
        _ => Seq::empty(),
    }
}

/// Whether the video of a session is encoded.
pub open spec fn encodes_video(mode: HlsMode, browser: BrowserHint) -> bool {
    mode is HlsFullTranscode && !(browser is Safari)
}

/// The row of the video variant in the master playlist, and its playlist.
pub open spec fn variant_row(item: MediaItem, transcoding: bool, has_audio: bool) -> Seq<char> {
    "#EXT-X-STREAM-INF:BANDWIDTH="@ + decimal(
        bandwidth(item.size_bytes, item.duration_millis) as nat,
    ) + ",CODECS=\""@ + codec_string(opt_text(item.video_codec), transcoding) + (if has_audio {
        ",mp4a.40.2"@
    } else {
        Seq::<char>::empty()
    }) + "\""@ + resolution_attr(item.width, item.height) + (if has_audio {
        ",AUDIO=\"aud\""@
    } else {
        Seq::<char>::empty()
    }) + "\n"@ + VIDEO_VARIANT_FILENAME@ + "\n"@
}

/// The master playlist of a session: a row for each rendition, and always one
/// for the video.
pub open spec fn master_playlist(
    item: MediaItem,
    mode: HlsMode,
    browser: BrowserHint,
    list: Seq<EffectiveAudioStream>,
) -> Seq<char> {
    "#EXTM3U\n#EXT-X-VERSION:7\n#EXT-X-INDEPENDENT-SEGMENTS\n"@ + media_rows(
        list,
        list.len() as int,
    ) + variant_row(item, encodes_video(mode, browser), list.len() > 0)
}

fn push_media_row(out: &mut String, stream: &EffectiveAudioStream)
    requires
        stream.local_index < usize::MAX,
    ensures
        final(out)@ == old(out)@ + media_row(*stream),
{
    let ghost before = out@;
    out.append("#EXT-X-MEDIA:TYPE=AUDIO,GROUP-ID=\"aud\",NAME=\"");
    out.append(escape_playlist_attr(audio_display_name_raw(stream).as_str()).as_str());
    out.append("\"");
    match &stream.language {
        Some(language) => {
            out.append(",LANGUAGE=\"");
            out.append(escape_playlist_attr(language.as_str()).as_str());
            out.append("\"");
        },
        None => {},
    }
    out.append(",DEFAULT=");
    out.append(
        if stream.default {
            "YES"
        } else {
            "NO"
        },
    );
    out.append(",AUTOSELECT=YES,URI=\"");
    out.append(audio_variant_filename(stream).as_str());
    out.append("\"\n");
    assert(out@ =~= before + media_row(*stream));
}

fn resolution_text(width: Option<u32>, height: Option<u32>) -> (r: String)
    ensures
        r@ == resolution_attr(width, height),
{
    match (width, height) {
        (Some(w), Some(h)) => {
            if w > 0 && h > 0 {
                let mut out: String = ",RESOLUTION=".to_owned();
                out.append(decimal_text(w as u64).as_str());
                out.append("x");
                out.append(decimal_text(h as u64).as_str());
                return out;
            }
        },
        _ => {},
    }
    String::new()
}

fn variant_row_text(item: &MediaItem, transcoding: bool, has_audio: bool) -> (r: String)
    ensures
        r@ == variant_row(*item, transcoding, has_audio),
{
    let audio_codec: &str = if has_audio {
        ",mp4a.40.2"
    } else {
        ""
    };
    let audio_group: &str = if has_audio {
        ",AUDIO=\"aud\""
    } else {
        ""
    };
    proof {
        reveal_strlit("");
        assert(""@ =~= Seq::<char>::empty());
    }
    let mut out: String = "#EXT-X-STREAM-INF:BANDWIDTH=".to_owned();
    out.append(decimal_text(estimate_bandwidth_bps(item) as u64).as_str());
    out.append(",CODECS=\"");
    out.append(hls_video_codec_string(item, transcoding));
    out.append(audio_codec);
    out.append("\"");
    out.append(resolution_text(item.width, item.height).as_str());
    out.append(audio_group);
    out.append("\n");
    out.append(VIDEO_VARIANT_FILENAME);
    out.append("\n");
    out
}

/// The master playlist of a session.
pub fn build_master_playlist(
    item: &MediaItem,
    mode: HlsMode,
    browser: BrowserHint,
    audio_streams: &Vec<EffectiveAudioStream>,
) -> (r: String)
    requires
        are_renditions(audio_streams@),
    ensures
        r@ == master_playlist(*item, mode, browser, audio_streams@),
{
    let transcoding: bool = match (mode, browser) {
        (HlsMode::HlsFullTranscode, BrowserHint::Generic) => true,
        _ => false,
    };
    let mut out: String = "#EXTM3U\n#EXT-X-VERSION:7\n#EXT-X-INDEPENDENT-SEGMENTS\n".to_owned();
    let ghost head = out@;
    let mut i: usize = 0;
    assert(out@ =~= head + media_rows(audio_streams@, 0));
    while i < audio_streams.len()
        invariant
            i <= audio_streams@.len(),
            are_renditions(audio_streams@),
            out@ == head + media_rows(audio_streams@, i as int),
        decreases audio_streams@.len() - i,
    {
        push_media_row(&mut out, &audio_streams[i]);
        assert(out@ =~= head + media_rows(audio_streams@, i + 1));
        i = i + 1;
    }
    out.append(variant_row_text(item, transcoding, audio_streams.len() > 0).as_str());
    out
}

/// What stands in a part of a text stands in the text.
proof fn lemma_part(before: Seq<char>, part: Seq<char>, after: Seq<char>)
    ensures
        has_text(before + part + after, part),
{
    let whole = before + part + after;
    assert(whole.subrange(before.len() as int, (before.len() + part.len()) as int) =~= part);
    assert(occurs_at(whole, part, before.len() as int));
}

/// What stands in a text stands in a longer one.
proof fn lemma_part_of_part(before: Seq<char>, part: Seq<char>, after: Seq<char>, pattern: Seq<char>)
    requires
        has_text(part, pattern),
    ensures
        has_text(before + part + after, pattern),
{
    let i = choose|i: int| occurs_at(part, pattern, i);
    let whole = before + part + after;
    assert(whole.subrange(before.len() + i, before.len() + i + pattern.len()) =~= part.subrange(
        i,
        i + pattern.len(),
    ));
    assert(occurs_at(whole, pattern, before.len() + i));
}

proof fn lemma_segment_is_listed(plan: SegmentPlan, n: int, i: int)
    requires
        0 <= i < n,
    ensures
        has_text(segment_lines(plan, n), segment_name(i as nat)),
    decreases n,
{
    let before = segment_lines(plan, n - 1);
    let row = "#EXTINF:"@ + seconds_of(plan.length(n - 1) as nat) + ",\n"@ + segment_name(
        (n - 1) as nat,
    ) + "\n"@;
    if i < n - 1 {
        lemma_segment_is_listed(plan, n - 1, i);
        lemma_part_of_part(Seq::empty(), before, row, segment_name(i as nat));
        assert(segment_lines(plan, n) =~= Seq::<char>::empty() + before + row);
    } else {
        let head = before + "#EXTINF:"@ + seconds_of(plan.length(n - 1) as nat) + ",\n"@;
        lemma_part(head, segment_name(i as nat), "\n"@);
    }
}

/// The playlist of the video is complete from the start: it names every segment
/// of the layout and says that no more will come.
pub proof fn law_variant_playlist_is_complete(plan: SegmentPlan, i: int)
    requires
        0 <= i < plan.boundaries@.len(),
    ensures
        has_text(variant_playlist(plan), segment_name(i as nat)),
        "#EXT-X-ENDLIST\n"@.is_suffix_of(variant_playlist(plan)),
{
    let n = plan.boundaries@.len() as int;
    lemma_segment_is_listed(plan, n, i);
    lemma_part_of_part(
        variant_head(plan),
        segment_lines(plan, n),
        "#EXT-X-ENDLIST\n"@,
        segment_name(i as nat),
    );
    let whole = variant_playlist(plan);
    let end = "#EXT-X-ENDLIST\n"@;
    assert(whole.subrange(whole.len() - end.len(), whole.len() as int) =~= end);
}

/// The master playlist always has a row for the video, whatever is known of it.
pub proof fn law_master_lists_the_video(
    item: MediaItem,
    mode: HlsMode,
    browser: BrowserHint,
    list: Seq<EffectiveAudioStream>,
)
    ensures
        has_text(master_playlist(item, mode, browser, list), "#EXT-X-STREAM-INF:BANDWIDTH="@),
        (VIDEO_VARIANT_FILENAME@ + "\n"@).is_suffix_of(
            master_playlist(item, mode, browser, list),
        ),
{
    let row = variant_row(item, encodes_video(mode, browser), list.len() > 0);
    let whole = master_playlist(item, mode, browser, list);
    let start = "#EXT-X-STREAM-INF:BANDWIDTH="@;
    let at = whole.len() - row.len();
    assert(row.subrange(0, start.len() as int) =~= start);
    assert(whole.subrange(at, at + start.len()) =~= row.subrange(0, start.len() as int));
    assert(occurs_at(whole, start, at));
    let end = VIDEO_VARIANT_FILENAME@ + "\n"@;
    assert(row.subrange(row.len() - end.len(), row.len() as int) =~= end);
    assert(whole.subrange(whole.len() - end.len(), whole.len() as int) =~= end);
}

proof fn lemma_rendition_is_listed(list: Seq<EffectiveAudioStream>, n: int, i: int)
    requires
        0 <= i < n <= list.len(),
    ensures
        has_text(media_rows(list, n), rendition_playlist(list[i])),
    decreases n,
{
    let before = media_rows(list, n - 1);
    let row = media_row(list[n - 1]);
    if i < n - 1 {
        lemma_rendition_is_listed(list, n - 1, i);
        lemma_part_of_part(Seq::empty(), before, row, rendition_playlist(list[i]));
        assert(media_rows(list, n) =~= Seq::<char>::empty() + before + row);
    } else {
        let name = rendition_playlist(list[i]);
        let head = row.subrange(0, row.len() - name.len() - "\"\n"@.len());
        assert(row =~= head + name + "\"\n"@);
        lemma_part(before + head, name, "\"\n"@);
        assert(media_rows(list, n) =~= before + head + name + "\"\n"@);
    }
}

/// The master playlist names, for each rendition, the playlist that the encoder
/// writes for it: both go by the name in the stream map.
pub proof fn law_master_names_what_the_encoder_writes(
    item: MediaItem,
    mode: HlsMode,
    browser: BrowserHint,
    list: Seq<EffectiveAudioStream>,
    i: int,
)
    requires
        0 <= i < list.len(),
    ensures
        has_text(
            master_playlist(item, mode, browser, list),
            "stream_"@ + rendition_name(list[i]) + ".m3u8"@,
        ),
        (",name:"@ + rendition_name(list[i])).is_suffix_of(stream_entry(list[i])),
{
    let n = list.len() as int;
    lemma_rendition_is_listed(list, n, i);
    lemma_part_of_part(
        "#EXTM3U\n#EXT-X-VERSION:7\n#EXT-X-INDEPENDENT-SEGMENTS\n"@,
        media_rows(list, n),
        variant_row(item, encodes_video(mode, browser), list.len() > 0),
        rendition_playlist(list[i]),
    );
    let entry = stream_entry(list[i]);
    let end = ",name:"@ + rendition_name(list[i]);
    assert(entry.subrange(entry.len() - end.len(), entry.len() as int) =~= end);
}

/// The stream map begins with the video.
pub proof fn lemma_stream_map_starts_with_video(list: Seq<EffectiveAudioStream>)
    ensures
        stream_map(list).len() > 0,
        stream_map(list)[0] == 'v',
{
    reveal_strlit("v:0");
    reveal_strlit("v:0,agroup:aud");
    if list.len() > 0 {
        let entries = Seq::new(list.len(), |i: int| marked_entry(list, i));
        lemma_joined_front("v:0,agroup:aud"@, entries, " "@);
    }
}

proof fn lemma_head_lines(plan: SegmentPlan)
    ensures
        pieces(variant_head(plan), '\n') == seq![
            "#EXTM3U"@,
            "#EXT-X-VERSION:7"@,
            "#EXT-X-TARGETDURATION:"@ + decimal(plan.target_duration_secs as nat),
            "#EXT-X-MEDIA-SEQUENCE:0"@,
            "#EXT-X-PLAYLIST-TYPE:VOD"@,
            "#EXT-X-INDEPENDENT-SEGMENTS"@,
            "#EXT-X-MAP:URI=\"init_0.lock.mp4\""@,
            Seq::<char>::empty(),
        ],
{
    reveal_strlit("#EXTM3U\n#EXT-X-VERSION:7\n#EXT-X-TARGETDURATION:");
    reveal_strlit(
        "\n#EXT-X-MEDIA-SEQUENCE:0\n#EXT-X-PLAYLIST-TYPE:VOD\n#EXT-X-INDEPENDENT-SEGMENTS\n#EXT-X-MAP:URI=\"",
    );
    reveal_strlit("#EXTM3U");
    reveal_strlit("#EXT-X-VERSION:7");
    reveal_strlit("#EXT-X-TARGETDURATION:");
    reveal_strlit("#EXT-X-MEDIA-SEQUENCE:0");
    reveal_strlit("#EXT-X-PLAYLIST-TYPE:VOD");
    reveal_strlit("#EXT-X-INDEPENDENT-SEGMENTS");
    reveal_strlit("#EXT-X-MAP:URI=\"init_0.lock.mp4\"");
    reveal_strlit("init_0.lock.mp4");
    reveal_strlit("\"\n");
    lemma_decimal(plan.target_duration_secs as nat);
    let feed = seq!['\n'];
    let number = decimal(plan.target_duration_secs as nat);
    let duration = "#EXT-X-TARGETDURATION:"@ + number;
    assert(!duration.contains('\n')) by {
        if duration.contains('\n') {
            let k = duration.index_of('\n');
            if k >= "#EXT-X-TARGETDURATION:"@.len() {
                assert(is_digit(number[k - "#EXT-X-TARGETDURATION:"@.len()]));
            }
        }
    }
    let a = Seq::<char>::empty() + "#EXTM3U"@ + feed;
    let b = a + "#EXT-X-VERSION:7"@ + feed;
    let c = b + duration + feed;
    let d = c + "#EXT-X-MEDIA-SEQUENCE:0"@ + feed;
    let e = d + "#EXT-X-PLAYLIST-TYPE:VOD"@ + feed;
    let f = e + "#EXT-X-INDEPENDENT-SEGMENTS"@ + feed;
    let g = f + "#EXT-X-MAP:URI=\"init_0.lock.mp4\""@ + feed;
    lemma_pieces_of_nothing('\n');
    lemma_pieces_line(Seq::<char>::empty(), "#EXTM3U"@, '\n');
    lemma_pieces_line(a, "#EXT-X-VERSION:7"@, '\n');
    lemma_pieces_line(b, duration, '\n');
    lemma_pieces_line(c, "#EXT-X-MEDIA-SEQUENCE:0"@, '\n');
    lemma_pieces_line(d, "#EXT-X-PLAYLIST-TYPE:VOD"@, '\n');
    lemma_pieces_line(e, "#EXT-X-INDEPENDENT-SEGMENTS"@, '\n');
    lemma_pieces_line(f, "#EXT-X-MAP:URI=\"init_0.lock.mp4\""@, '\n');
    assert(variant_head(plan) =~= g);
    assert(pieces(g, '\n') =~= seq![
        "#EXTM3U"@,
        "#EXT-X-VERSION:7"@,
        duration,
        "#EXT-X-MEDIA-SEQUENCE:0"@,
        "#EXT-X-PLAYLIST-TYPE:VOD"@,
        "#EXT-X-INDEPENDENT-SEGMENTS"@,
        "#EXT-X-MAP:URI=\"init_0.lock.mp4\""@,
        Seq::<char>::empty(),
    ]);
}

/// The duration row of a segment.
spec fn duration_row(plan: SegmentPlan, i: int) -> Seq<char> {
    "#EXTINF:"@ + seconds_of(plan.length(i) as nat) + ","@
}

proof fn lemma_rows_are_lines(plan: SegmentPlan, i: int)
    requires
        i >= 0,
    ensures
        !duration_row(plan, i).contains('\n'),
        !segment_name(i as nat).contains('\n'),
{
    reveal_strlit("#EXTINF:");
    reveal_strlit(",");
    reveal_strlit(".");
    let time = seconds_of(plan.length(i) as nat);
    let millis = nearest_milli(plan.length(i) as nat);
    let whole = decimal(millis / 1000);
    lemma_decimal(millis / 1000);
    let row = duration_row(plan, i);
    assert(!time.contains('\n')) by {
        if time.contains('\n') {
            let k = time.index_of('\n');
            if k < whole.len() {
                assert(is_digit(whole[k]));
            }
        }
    }
    if row.contains('\n') {
        let k = row.index_of('\n');
        if 8 <= k < 8 + time.len() {
            assert(time[k - 8] == '\n');
        }
    }
    law_segment_name_holds_its_index(i as nat);
    let name = segment_name(i as nat);
    let n = name.len() as int;
    reveal_strlit("seg_0_");
    reveal_strlit(".m4s");
    if name.contains('\n') {
        let k = name.index_of('\n');
        if k < 6 {
            assert(name.take(6)[k] == '\n');
        } else if k >= n - 4 {
            assert(name.skip(n - 4)[k - (n - 4)] == '\n');
        } else {
            assert(is_digit(name.subrange(6, n - 4)[k - 6]));
        }
    }
}

proof fn lemma_segment_rows(plan: SegmentPlan, n: int)
    requires
        n >= 0,
    ensures
        ({
            let list = pieces(variant_head(plan) + segment_lines(plan, n), '\n');
            &&& list.len() == 8 + 2 * n
            &&& list.last().len() == 0
            &&& list.take(7) == pieces(variant_head(plan), '\n').take(7)
            &&& forall|i: int|
                0 <= i < n ==> #[trigger] list[7 + 2 * i] == duration_row(plan, i) && list[8 + 2
                    * i] == segment_name(i as nat)
        }),
    decreases n,
{
    let head = variant_head(plan);
    lemma_head_lines(plan);
    if n == 0 {
        assert(head + segment_lines(plan, 0) =~= head);
    } else {
        lemma_segment_rows(plan, n - 1);
        lemma_rows_are_lines(plan, n - 1);
        let feed = seq!['\n'];
        let before = head + segment_lines(plan, n - 1);
        let row = duration_row(plan, n - 1);
        let name = segment_name((n - 1) as nat);
        let one = before + row + feed;
        lemma_pieces_line(before, row, '\n');
        lemma_pieces_line(one, name, '\n');
        reveal_strlit(",\n");
        reveal_strlit(",");
        reveal_strlit("\n");
        assert(head + segment_lines(plan, n) =~= one + name + feed);
        let list = pieces(head + segment_lines(plan, n), '\n');
        let old_list = pieces(before, '\n');
        assert(list =~= old_list.drop_last().push(row).push(name).push(Seq::<char>::empty()));
        assert(list.take(7) =~= old_list.take(7));
        assert forall|i: int| 0 <= i < n implies #[trigger] list[7 + 2 * i] == duration_row(plan, i)
            && list[8 + 2 * i] == segment_name(i as nat) by {
            if i < n - 1 {
                assert(list[7 + 2 * i] == old_list[7 + 2 * i]);
                assert(list[8 + 2 * i] == old_list[8 + 2 * i]);
            }
        }
    }
}

/// The playlist of the video lists the segments of the layout and nothing else, one
/// after the other: for each, a row with its duration in seconds, and below it the
/// name of its file, which holds its number. It declares the duration that the layout
/// declares, says that it is complete and ends there.
pub proof fn law_variant_playlist_lists_the_segments(plan: SegmentPlan, i: int)
    requires
        plan.wf(),
        0 <= i < plan.boundaries@.len(),
    ensures
        ({
            let list = pieces(variant_playlist(plan), '\n');
            let n = plan.boundaries@.len() as int;
            let next = if i + 1 < n {
                plan.boundaries@[i + 1]
            } else {
                plan.total_duration
            };
            let name = list[8 + 2 * i];
            &&& list.len() == 9 + 2 * n
            &&& list[0] == "#EXTM3U"@
            &&& list[2].take(22) == "#EXT-X-TARGETDURATION:"@ && all_digits(list[2].skip(22))
                && numeral_value(list[2].skip(22)) == plan.target_duration_secs
            &&& list[3] == "#EXT-X-MEDIA-SEQUENCE:0"@
            &&& list[4] == "#EXT-X-PLAYLIST-TYPE:VOD"@
            &&& list[6] == "#EXT-X-MAP:URI=\"init_0.lock.mp4\""@
            &&& list[7 + 2 * i] == "#EXTINF:"@ + seconds_of((next - plan.boundaries@[i]) as nat)
                + ","@
            &&& name.take(6) == "seg_0_"@ && all_digits(name.subrange(6, name.len() - 4))
                && numeral_value(name.subrange(6, name.len() - 4)) == i && name.skip(name.len() - 4)
                == ".m4s"@
            &&& list[7 + 2 * n] == "#EXT-X-ENDLIST"@
            &&& list[8 + 2 * n].len() == 0
        }),
{
    let n = plan.boundaries@.len() as int;
    let before = variant_head(plan) + segment_lines(plan, n);
    lemma_segment_rows(plan, n);
    lemma_head_lines(plan);
    reveal_strlit("#EXT-X-ENDLIST");
    reveal_strlit("#EXT-X-ENDLIST\n");
    assert(!"#EXT-X-ENDLIST"@.contains('\n'));
    lemma_pieces_line(before, "#EXT-X-ENDLIST"@, '\n');
    assert(variant_playlist(plan) =~= before + "#EXT-X-ENDLIST"@ + seq!['\n']);
    let list = pieces(variant_playlist(plan), '\n');
    let old_list = pieces(before, '\n');
    assert(list[7 + 2 * i] == old_list[7 + 2 * i]);
    assert(list[8 + 2 * i] == old_list[8 + 2 * i]);
    let head = pieces(variant_head(plan), '\n');
    assert forall|k: int| 0 <= k < 7 implies list[k] == #[trigger] head[k] by {
        assert(list[k] == old_list[k]);
        assert(old_list.take(7)[k] == head.take(7)[k]);
    }
    assert(list[0] == head[0]);
    assert(list[2] == head[2]);
    assert(list[3] == head[3]);
    assert(list[4] == head[4]);
    assert(list[6] == head[6]);
    reveal_strlit("#EXT-X-TARGETDURATION:");
    let number = decimal(plan.target_duration_secs as nat);
    lemma_decimal(plan.target_duration_secs as nat);
    assert(list[2].take(22) =~= "#EXT-X-TARGETDURATION:"@);
    assert(list[2].skip(22) =~= number);
    law_segment_name_holds_its_index(i as nat);
}

/// The name that people see of a rendition is its title; without one its language;
/// and without either its number, counted from one.
pub proof fn law_renditions_are_named_by_their_tags(stream: EffectiveAudioStream)
    ensures
        stream.title matches Some(title) ==> display_name(stream) == title@,
        stream.title is None ==> (stream.language matches Some(language) ==> display_name(stream)
            == language@),
        stream.title is None && stream.language is None ==> display_name(stream).take(6)
            == "Track "@ && all_digits(display_name(stream).skip(6)) && numeral_value(
            display_name(stream).skip(6),
        ) == stream.local_index + 1,
{
    if stream.title is None && stream.language is None {
        let number = decimal((stream.local_index + 1) as nat);
        lemma_decimal((stream.local_index + 1) as nat);
        reveal_strlit("Track ");
        assert(display_name(stream).take(6) =~= "Track "@);
        assert(display_name(stream).skip(6) =~= number);
    }
}

/// A rendition is named for the encoder by its number and by characters that stand
/// in a name: letters, digits, hyphens and underscores.
pub proof fn law_rendition_name_is_safe(stream: EffectiveAudioStream, i: int)
    requires
        0 <= i < rendition_name(stream).len(),
    ensures
        ({
            let c = rendition_name(stream)[i];
            ('0' <= c <= '9') || ('a' <= c <= 'z') || ('A' <= c <= 'Z') || c == '-' || c == '_'
        }),
        rendition_name(stream)[0] == 'a',
        decimal(stream.local_index as nat).is_prefix_of(rendition_name(stream).skip(1)),
{
    let name = rendition_name(stream);
    let number = decimal(stream.local_index as nat);
    lemma_decimal(stream.local_index as nat);
    reveal_strlit("a");
    reveal_strlit("_");
    reveal_strlit("track");
    let m = 1 + number.len() as int;
    assert(name.skip(1).take(number.len() as int) =~= number);
    assert(number.is_prefix_of(name.skip(1)));
    if 1 <= i < m {
        assert(name[i] == number[i - 1]);
        assert(is_digit(number[i - 1]));
    } else if i > m {
        let raw = token(display_name(stream));
        if raw.len() > 0 {
            assert(name[i] == raw[i - m - 1]);
        } else {
            assert(name[i] == "track"@[i - m - 1]);
        }
    }
}

proof fn lemma_joined_pieces(parts: Seq<Seq<char>>, c: char)
    requires
        parts.len() > 0,
        forall|i: int| 0 <= i < parts.len() ==> !(#[trigger] parts[i]).contains(c),
    ensures
        pieces(joined(parts, seq![c]), c) == parts,
    decreases parts.len(),
{
    let none = Seq::<char>::empty();
    let last = parts.last();
    assert(!last.contains(c));
    lemma_pieces_of_nothing(c);
    if parts.len() == 1 {
        lemma_pieces_append(none, last, c);
        assert(none + last =~= last);
        assert(pieces(joined(parts, seq![c]), c) =~= parts);
    } else {
        let before = joined(parts.drop_last(), seq![c]);
        assert forall|i: int| 0 <= i < parts.drop_last().len() implies !(
        #[trigger] parts.drop_last()[i]).contains(c) by {
            assert(parts.drop_last()[i] == parts[i]);
        }
        lemma_joined_pieces(parts.drop_last(), c);
        lemma_pieces_push(before, c);
        lemma_pieces_append(before.push(c), last, c);
        assert(joined(parts, seq![c]) =~= before.push(c) + last);
        assert(none + last =~= last);
        assert(pieces(joined(parts, seq![c]), c) =~= parts);
    }
}

proof fn lemma_entry_has_no_space(list: Seq<EffectiveAudioStream>, i: int)
    ensures
        !marked_entry(list, i).contains(' '),
{
    let stream = list[i];
    let entry = marked_entry(list, i);
    let number = decimal(stream.local_index as nat);
    lemma_decimal(stream.local_index as nat);
    reveal_strlit("a:");
    reveal_strlit(",agroup:aud");
    reveal_strlit(",language:");
    reveal_strlit(",name:");
    reveal_strlit(",default:yes");
    let a = "a:"@ + number + ",agroup:aud"@;
    let tag = match stream.language {
        Some(language) => ",language:"@ + token(language@),
        None => Seq::<char>::empty(),
    };
    let name = rendition_name(stream);
    let mark = if is_default_rendition(list, i) {
        ",default:yes"@
    } else {
        Seq::<char>::empty()
    };
    assert(entry =~= a + tag + ",name:"@ + name + mark);
    if entry.contains(' ') {
        let k = entry.index_of(' ');
        let m = a.len() + tag.len() + ",name:"@.len();
        if k < a.len() {
            assert(a[k] == ' ');
            if 2 <= k < 2 + number.len() {
                assert(is_digit(number[k - 2]));
            }
        } else if k < a.len() + tag.len() {
            assert(tag[k - a.len()] == ' ');
            if k - a.len() >= 10 {
                let language = stream.language->0;
                assert(token(language@)[k - a.len() - 10] == ' ');
            }
        } else if m <= k < m + name.len() {
            law_rendition_name_is_safe(stream, k - m);
        } else if k >= m + name.len() {
            assert(mark[k - m - name.len()] == ' ');
        }
    }
}

/// The encoder's stream map has, behind the video, an entry for each rendition in
/// order: the audio stream of its number, in the one audio group, with its language
/// and its name. The default one, and no other, ends in the default mark.
pub proof fn law_stream_map_has_an_entry_for_each(list: Seq<EffectiveAudioStream>, i: int)
    requires
        0 <= i < list.len(),
    ensures
        ({
            let entries = pieces(stream_map(list), ' ');
            let entry = entries[i + 1];
            let number = decimal(list[i].local_index as nat);
            let first_flagged = list[i].default && forall|k: int|
                0 <= k < i ==> !(#[trigger] list[k]).default;
            let none_flagged = forall|k: int| 0 <= k < list.len() ==> !(#[trigger] list[k]).default;
            &&& entries.len() == list.len() + 1
            &&& entries[0] == "v:0,agroup:aud"@
            &&& ("a:"@ + number + ",agroup:aud"@).is_prefix_of(entry)
            &&& list[i].language matches Some(language) ==> has_text(
                entry,
                ",language:"@ + token(language@),
            )
            &&& has_text(entry, ",name:"@ + rendition_name(list[i]))
            &&& first_flagged || (none_flagged && i == 0) ==> ",default:yes"@.is_suffix_of(entry)
            &&& !(first_flagged || (none_flagged && i == 0)) ==> rendition_name(list[i]).is_suffix_of(
                entry,
            )
        }),
{
    let marked = Seq::new(list.len(), |i: int| marked_entry(list, i));
    let parts = seq!["v:0,agroup:aud"@] + marked;
    reveal_strlit("v:0,agroup:aud");
    reveal_strlit(" ");
    assert(" "@ =~= seq![' ']);
    assert forall|k: int| 0 <= k < parts.len() implies !(#[trigger] parts[k]).contains(' ') by {
        if k > 0 {
            lemma_entry_has_no_space(list, k - 1);
            assert(parts[k] == marked_entry(list, k - 1));
        }
    }
    lemma_joined_pieces(parts, ' ');
    let entry = marked_entry(list, i);
    assert(pieces(stream_map(list), ' ')[i + 1] == entry);
    let stream = list[i];
    let number = decimal(stream.local_index as nat);
    let start = "a:"@ + number + ",agroup:aud"@;
    let tag = match stream.language {
        Some(language) => ",language:"@ + token(language@),
        None => Seq::<char>::empty(),
    };
    let name = rendition_name(stream);
    let mark = if is_default_rendition(list, i) {
        ",default:yes"@
    } else {
        Seq::<char>::empty()
    };
    assert(entry =~= start + tag + (",name:"@ + name) + mark);
    assert(start =~= entry.subrange(0, start.len() as int));
    lemma_part(start, tag, ",name:"@ + name + mark);
    assert(entry =~= start + tag + (",name:"@ + name + mark));
    lemma_part(start + tag, ",name:"@ + name, mark);
    let m = entry.len() as int;
    if is_default_rendition(list, i) {
        assert(mark =~= entry.subrange(m - mark.len(), m));
    } else {
        assert(name =~= entry.subrange(m - name.len(), m));
    }
}

proof fn lemma_plain_parts(a: Seq<char>, b: Seq<char>, c: char)
    requires
        !a.contains(c),
        !b.contains(c),
    ensures
        !(a + b).contains(c),
{
    if (a + b).contains(c) {
        let k = (a + b).index_of(c);
        if k < a.len() {
            assert(a[k] == c);
        } else {
            assert(b[k - a.len()] == c);
        }
    }
}

/// The row of a rendition without its line feed.
spec fn media_line(stream: EffectiveAudioStream) -> Seq<char> {
    "#EXT-X-MEDIA:TYPE=AUDIO,GROUP-ID=\"aud\",NAME=\""@ + attr(display_name(stream)) + "\""@ + (
    match stream.language {
        Some(language) => ",LANGUAGE=\""@ + attr(language@) + "\""@,
        None => Seq::<char>::empty(),
    }) + ",DEFAULT="@ + (if stream.default {
        "YES"@
    } else {
        "NO"@
    }) + ",AUTOSELECT=YES,URI=\""@ + rendition_playlist(stream) + "\""@
}

proof fn lemma_attr_is_a_line(value: Seq<char>)
    ensures
        !attr(value).contains('\n'),
{
    if attr(value).contains('\n') {
        let k = attr(value).index_of('\n');
        law_attribute_stays_quoted(value, k);
    }
}

proof fn lemma_media_line(stream: EffectiveAudioStream)
    ensures
        !media_line(stream).contains('\n'),
        media_row(stream) == media_line(stream) + seq!['\n'],
{
    reveal_strlit("#EXT-X-MEDIA:TYPE=AUDIO,GROUP-ID=\"aud\",NAME=\"");
    reveal_strlit("\"");
    reveal_strlit(",LANGUAGE=\"");
    reveal_strlit(",DEFAULT=");
    reveal_strlit("YES");
    reveal_strlit("NO");
    reveal_strlit(",AUTOSELECT=YES,URI=\"");
    reveal_strlit("\"\n");
    reveal_strlit("stream_");
    reveal_strlit(".m3u8");
    let c = '\n';
    let start = "#EXT-X-MEDIA:TYPE=AUDIO,GROUP-ID=\"aud\",NAME=\""@;
    let shown = attr(display_name(stream));
    let quote = "\""@;
    let tag = match stream.language {
        Some(language) => ",LANGUAGE=\""@ + attr(language@) + "\""@,
        None => Seq::<char>::empty(),
    };
    let flag = if stream.default {
        "YES"@
    } else {
        "NO"@
    };
    let name = rendition_name(stream);
    lemma_attr_is_a_line(display_name(stream));
    if stream.language is Some {
        lemma_attr_is_a_line(stream.language->0@);
        lemma_plain_parts(",LANGUAGE=\""@, attr(stream.language->0@), c);
        lemma_plain_parts(",LANGUAGE=\""@ + attr(stream.language->0@), quote, c);
    }
    assert(!name.contains(c)) by {
        if name.contains(c) {
            law_rendition_name_is_safe(stream, name.index_of(c));
        }
    }
    lemma_plain_parts("stream_"@, name, c);
    lemma_plain_parts("stream_"@ + name, ".m3u8"@, c);
    lemma_plain_parts(start, shown, c);
    lemma_plain_parts(start + shown, quote, c);
    lemma_plain_parts(start + shown + quote, tag, c);
    lemma_plain_parts(start + shown + quote + tag, ",DEFAULT="@, c);
    lemma_plain_parts(start + shown + quote + tag + ",DEFAULT="@, flag, c);
    let most = start + shown + quote + tag + ",DEFAULT="@ + flag;
    lemma_plain_parts(most, ",AUTOSELECT=YES,URI=\""@, c);
    lemma_plain_parts(most + ",AUTOSELECT=YES,URI=\""@, rendition_playlist(stream), c);
    lemma_plain_parts(
        most + ",AUTOSELECT=YES,URI=\""@ + rendition_playlist(stream),
        quote,
        c,
    );
    assert(media_row(stream) =~= media_line(stream) + seq!['\n']);
}

proof fn lemma_media_lines(head: Seq<char>, list: Seq<EffectiveAudioStream>, n: int)
    requires
        0 <= n <= list.len(),
        pieces(head, '\n').last().len() == 0,
        pieces(head, '\n').len() >= 1,
    ensures
        ({
            let lines = pieces(head + media_rows(list, n), '\n');
            let h = pieces(head, '\n').len() as int - 1;
            &&& lines.len() == h + n + 1
            &&& lines.last().len() == 0
            &&& forall|i: int| 0 <= i < n ==> #[trigger] lines[h + i] == media_line(list[i])
        }),
    decreases n,
{
    if n == 0 {
        assert(head + media_rows(list, 0) =~= head);
    } else {
        lemma_media_lines(head, list, n - 1);
        lemma_media_line(list[n - 1]);
        let before = head + media_rows(list, n - 1);
        lemma_pieces_line(before, media_line(list[n - 1]), '\n');
        assert(head + media_rows(list, n) =~= before + media_line(list[n - 1]) + seq!['\n']);
        let h = pieces(head, '\n').len() as int - 1;
        let lines = pieces(head + media_rows(list, n), '\n');
        let fewer = pieces(before, '\n');
        assert forall|i: int| 0 <= i < n implies #[trigger] lines[h + i] == media_line(list[i]) by {
            if i < n - 1 {
                assert(lines[h + i] == fewer[h + i]);
            }
        }
    }
}

proof fn lemma_master_head()
    ensures
        pieces("#EXTM3U\n#EXT-X-VERSION:7\n#EXT-X-INDEPENDENT-SEGMENTS\n"@, '\n') == seq![
            "#EXTM3U"@,
            "#EXT-X-VERSION:7"@,
            "#EXT-X-INDEPENDENT-SEGMENTS"@,
            Seq::<char>::empty(),
        ],
{
    reveal_strlit("#EXTM3U\n#EXT-X-VERSION:7\n#EXT-X-INDEPENDENT-SEGMENTS\n");
    reveal_strlit("#EXTM3U");
    reveal_strlit("#EXT-X-VERSION:7");
    reveal_strlit("#EXT-X-INDEPENDENT-SEGMENTS");
    let feed = seq!['\n'];
    let a = Seq::<char>::empty() + "#EXTM3U"@ + feed;
    let b = a + "#EXT-X-VERSION:7"@ + feed;
    let c = b + "#EXT-X-INDEPENDENT-SEGMENTS"@ + feed;
    lemma_pieces_of_nothing('\n');
    lemma_pieces_line(Seq::<char>::empty(), "#EXTM3U"@, '\n');
    lemma_pieces_line(a, "#EXT-X-VERSION:7"@, '\n');
    lemma_pieces_line(b, "#EXT-X-INDEPENDENT-SEGMENTS"@, '\n');
    assert("#EXTM3U\n#EXT-X-VERSION:7\n#EXT-X-INDEPENDENT-SEGMENTS\n"@ =~= c);
    assert(pieces(c, '\n') =~= seq![
        "#EXTM3U"@,
        "#EXT-X-VERSION:7"@,
        "#EXT-X-INDEPENDENT-SEGMENTS"@,
        Seq::<char>::empty(),
    ]);
}

/// The row of the video without its playlist.
spec fn video_line(item: MediaItem, transcoding: bool, has_audio: bool) -> Seq<char> {
    "#EXT-X-STREAM-INF:BANDWIDTH="@ + decimal(
        bandwidth(item.size_bytes, item.duration_millis) as nat,
    ) + ",CODECS=\""@ + codec_string(opt_text(item.video_codec), transcoding) + (if has_audio {
        ",mp4a.40.2"@
    } else {
        Seq::<char>::empty()
    }) + "\""@ + resolution_attr(item.width, item.height) + (if has_audio {
        ",AUDIO=\"aud\""@
    } else {
        Seq::<char>::empty()
    })
}

proof fn lemma_digits_are_a_line(n: nat)
    ensures
        !decimal(n).contains('\n'),
{
    lemma_decimal(n);
    if decimal(n).contains('\n') {
        assert(is_digit(decimal(n)[decimal(n).index_of('\n')]));
    }
}

proof fn lemma_video_line(item: MediaItem, transcoding: bool, has_audio: bool)
    ensures
        !video_line(item, transcoding, has_audio).contains('\n'),
        variant_row(item, transcoding, has_audio) == video_line(item, transcoding, has_audio)
            + seq!['\n'] + "stream_0.m3u8"@ + seq!['\n'],
{
    reveal_strlit("#EXT-X-STREAM-INF:BANDWIDTH=");
    reveal_strlit(",CODECS=\"");
    reveal_strlit(",mp4a.40.2");
    reveal_strlit("\"");
    reveal_strlit(",AUDIO=\"aud\"");
    reveal_strlit("\n");
    reveal_strlit("avc1.640028");
    reveal_strlit("hvc1.1.6.L120.90");
    reveal_strlit("vp09.02.10.10");
    reveal_strlit("av01.0.08M.08");
    reveal_strlit(",RESOLUTION=");
    reveal_strlit("x");
    let c = '\n';
    let start = "#EXT-X-STREAM-INF:BANDWIDTH="@;
    let rate = bandwidth(item.size_bytes, item.duration_millis) as nat;
    lemma_digits_are_a_line(rate);
    let codec = codec_string(opt_text(item.video_codec), transcoding);
    assert(!codec.contains(c));
    let sound = if has_audio {
        ",mp4a.40.2"@
    } else {
        Seq::<char>::empty()
    };
    let group = if has_audio {
        ",AUDIO=\"aud\""@
    } else {
        Seq::<char>::empty()
    };
    let size = resolution_attr(item.width, item.height);
    if item.width is Some && item.height is Some {
        let w = decimal(item.width->0 as nat);
        let h = decimal(item.height->0 as nat);
        lemma_digits_are_a_line(item.width->0 as nat);
        lemma_digits_are_a_line(item.height->0 as nat);
        lemma_plain_parts(",RESOLUTION="@, w, c);
        lemma_plain_parts(",RESOLUTION="@ + w, "x"@, c);
        lemma_plain_parts(",RESOLUTION="@ + w + "x"@, h, c);
    }
    lemma_plain_parts(start, decimal(rate), c);
    lemma_plain_parts(start + decimal(rate), ",CODECS=\""@, c);
    let most = start + decimal(rate) + ",CODECS=\""@;
    lemma_plain_parts(most, codec, c);
    lemma_plain_parts(most + codec, sound, c);
    lemma_plain_parts(most + codec + sound, "\""@, c);
    lemma_plain_parts(most + codec + sound + "\""@, size, c);
    lemma_plain_parts(most + codec + sound + "\""@ + size, group, c);
    assert(variant_row(item, transcoding, has_audio) =~= video_line(item, transcoding, has_audio)
        + seq!['\n'] + "stream_0.m3u8"@ + seq!['\n']);
}

/// The master playlist has a row for each rendition in order, then one for the video
/// and below it the playlist of the video, and nothing else. The row of a rendition
/// says its name and its language, whether it is flagged as the default, and the
/// playlist that the encoder writes for it.
pub proof fn law_master_has_a_row_for_each(
    item: MediaItem,
    mode: HlsMode,
    browser: BrowserHint,
    list: Seq<EffectiveAudioStream>,
    i: int,
)
    requires
        0 <= i < list.len(),
    ensures
        ({
            let lines = pieces(master_playlist(item, mode, browser, list), '\n');
            let row = lines[3 + i];
            &&& lines.len() == list.len() + 6
            &&& ("#EXT-X-MEDIA:TYPE=AUDIO,GROUP-ID=\"aud\",NAME=\""@ + attr(display_name(list[i]))
                + "\""@).is_prefix_of(row)
            &&& list[i].language matches Some(language) ==> has_text(
                row,
                ",LANGUAGE=\""@ + attr(language@) + "\""@,
            )
            &&& (",DEFAULT="@ + (if list[i].default {
                "YES"@
            } else {
                "NO"@
            }) + ",AUTOSELECT=YES,URI=\"stream_"@ + rendition_name(list[i])
                + ".m3u8\""@).is_suffix_of(row)
        }),
{
    lemma_master_lines(item, mode, browser, list);
    let lines = pieces(master_playlist(item, mode, browser, list), '\n');
    let row = media_line(list[i]);
    assert(lines[3 + i] == row);
    let start = "#EXT-X-MEDIA:TYPE=AUDIO,GROUP-ID=\"aud\",NAME=\""@ + attr(display_name(list[i]))
        + "\""@;
    let tag = match list[i].language {
        Some(language) => ",LANGUAGE=\""@ + attr(language@) + "\""@,
        None => Seq::<char>::empty(),
    };
    let flag = if list[i].default {
        "YES"@
    } else {
        "NO"@
    };
    let end = ",DEFAULT="@ + flag + ",AUTOSELECT=YES,URI=\"stream_"@ + rendition_name(list[i])
        + ".m3u8\""@;
    reveal_strlit(",AUTOSELECT=YES,URI=\"");
    reveal_strlit(",AUTOSELECT=YES,URI=\"stream_");
    reveal_strlit("stream_");
    reveal_strlit(".m3u8");
    reveal_strlit(".m3u8\"");
    reveal_strlit("\"");
    assert(row =~= start + tag + end);
    assert(start =~= row.subrange(0, start.len() as int));
    lemma_part(start, tag, end);
    assert(end =~= row.subrange(row.len() - end.len(), row.len() as int));
}

proof fn lemma_master_lines(
    item: MediaItem,
    mode: HlsMode,
    browser: BrowserHint,
    list: Seq<EffectiveAudioStream>,
)
    ensures
        ({
            let lines = pieces(master_playlist(item, mode, browser, list), '\n');
            let n = list.len() as int;
            &&& lines.len() == n + 6
            &&& forall|i: int| 0 <= i < n ==> #[trigger] lines[3 + i] == media_line(list[i])
            &&& lines[3 + n] == video_line(item, encodes_video(mode, browser), n > 0)
            &&& lines[4 + n] == "stream_0.m3u8"@
            &&& lines[5 + n].len() == 0
        }),
{
    let head = "#EXTM3U\n#EXT-X-VERSION:7\n#EXT-X-INDEPENDENT-SEGMENTS\n"@;
    let n = list.len() as int;
    lemma_master_head();
    lemma_media_lines(head, list, n);
    let before = head + media_rows(list, n);
    let transcoding = encodes_video(mode, browser);
    let line = video_line(item, transcoding, n > 0);
    lemma_video_line(item, transcoding, n > 0);
    reveal_strlit("stream_0.m3u8");
    let feed = seq!['\n'];
    lemma_pieces_line(before, line, '\n');
    lemma_pieces_line(before + line + feed, "stream_0.m3u8"@, '\n');
    assert(master_playlist(item, mode, browser, list) =~= before + line + feed + "stream_0.m3u8"@
        + feed);
    let lines = pieces(master_playlist(item, mode, browser, list), '\n');
    let fewer = pieces(before, '\n');
    assert(lines =~= fewer.drop_last().push(line).push("stream_0.m3u8"@).push(
        Seq::<char>::empty(),
    ));
    assert forall|i: int| 0 <= i < n implies #[trigger] lines[3 + i] == media_line(list[i]) by {
        assert(lines[3 + i] == fewer[3 + i]);
    }
}

/// The row of the video says what reaches the client: H.264 where the video is
/// encoded, and else a codec of the family of the source; AAC and the audio group
/// exactly where there are renditions; the size of the picture where it is known. The
/// line below it is the playlist of the video.
pub proof fn law_master_describes_the_video(
    item: MediaItem,
    mode: HlsMode,
    browser: BrowserHint,
    list: Seq<EffectiveAudioStream>,
)
    ensures
        ({
            let lines = pieces(master_playlist(item, mode, browser, list), '\n');
            let n = list.len() as int;
            let row = lines[3 + n];
            let source = match item.video_codec {
                Some(name) => lower(name@),
                None => Seq::<char>::empty(),
            };
            let encoded = mode is HlsFullTranscode && !(browser is Safari);
            let codec = if !encoded && (source == "hevc"@ || source == "h265"@ || source == "hev1"@
                || source == "hvc1"@) {
                "hvc1.1.6.L120.90"@
            } else if !encoded && source == "vp9"@ {
                "vp09.02.10.10"@
            } else if !encoded && source == "av1"@ {
                "av01.0.08M.08"@
            } else {
                "avc1.640028"@
            };
            &&& "#EXT-X-STREAM-INF:BANDWIDTH="@.is_prefix_of(row)
            &&& n > 0 ==> has_text(row, ",CODECS=\""@ + codec + ",mp4a.40.2\""@)
                && ",AUDIO=\"aud\""@.is_suffix_of(row)
            &&& n == 0 ==> has_text(row, ",CODECS=\""@ + codec + "\""@)
            &&& item.width is Some && item.height is Some && item.width->0 > 0 && item.height->0 > 0
                ==> has_text(
                row,
                ",RESOLUTION="@ + decimal(item.width->0 as nat) + "x"@ + decimal(
                    item.height->0 as nat,
                ),
            )
            &&& lines[4 + n] == "stream_0.m3u8"@
            &&& lines.len() == n + 6
        }),
{
    lemma_master_lines(item, mode, browser, list);
    reveal_strlit("hevc");
    reveal_strlit("h265");
    reveal_strlit("hev1");
    reveal_strlit("hvc1");
    reveal_strlit("vp9");
    reveal_strlit("av1");
    assert("hevc"@.len() == 4 && "h265"@.len() == 4 && "hev1"@.len() == 4 && "hvc1"@.len() == 4);
    assert("vp9"@.len() == 3 && "av1"@.len() == 3 && "vp9"@[0] == 'v' && "av1"@[0] == 'a');
    let n = list.len() as int;
    let row = video_line(item, encodes_video(mode, browser), n > 0);
    let start = "#EXT-X-STREAM-INF:BANDWIDTH="@ + decimal(
        bandwidth(item.size_bytes, item.duration_millis) as nat,
    );
    let codec = codec_string(opt_text(item.video_codec), encodes_video(mode, browser));
    let size = resolution_attr(item.width, item.height);
    reveal_strlit(",mp4a.40.2");
    reveal_strlit("\"");
    reveal_strlit(",mp4a.40.2\"");
    if n > 0 {
        let codecs = ",CODECS=\""@ + codec + ",mp4a.40.2\""@;
        let group = ",AUDIO=\"aud\""@;
        assert(row =~= start + codecs + (size + group));
        lemma_part(start, codecs, size + group);
        assert(row =~= start + codecs + size + group);
        lemma_part(start + codecs, size, group);
        assert(group =~= row.subrange(row.len() - group.len(), row.len() as int));
    } else {
        let codecs = ",CODECS=\""@ + codec + "\""@;
        assert(row =~= start + codecs + size);
        lemma_part(start, codecs, size);
        assert(row =~= start + codecs + size + Seq::<char>::empty());
        lemma_part(start + codecs, size, Seq::<char>::empty());
    }
    let word = "#EXT-X-STREAM-INF:BANDWIDTH="@;
    assert(word =~= row.subrange(0, word.len() as int));
}

/// The declared bandwidth is the size of the file in bits over its duration, within
/// half a megabit and eighty, and five where the duration is not known.
pub proof fn law_bandwidth_is_size_over_duration(size_bytes: u64, duration_millis: Option<i64>)
    ensures
        500_000 <= bandwidth(size_bytes, duration_millis) <= 80_000_000,
        duration_millis is None || duration_millis->0 <= 0 ==> bandwidth(
            size_bytes,
            duration_millis,
        ) == 5_000_000,
        duration_millis is Some && duration_millis->0 > 0 ==> {
            let rate = bandwidth(size_bytes, duration_millis);
            let duration = duration_millis->0 as int;
            &&& rate > 500_000 ==> rate * duration <= size_bytes * 8000
            &&& rate < 80_000_000 ==> size_bytes * 8000 < (rate + 1) * duration
        },
{
    if duration_millis is Some && duration_millis->0 > 0 {
        let duration = duration_millis->0 as int;
        let total = size_bytes * 8000;
        let bits = total / duration;
        let rate = bandwidth(size_bytes, duration_millis);
        vstd::arithmetic::div_mod::lemma_fundamental_div_mod(total, duration);
        vstd::arithmetic::div_mod::lemma_mod_bound(total, duration);
        assert(bits * duration <= total < (bits + 1) * duration) by (nonlinear_arith)
            requires
                total == duration * bits + total % duration,
                0 <= total % duration < duration,
        ;
        assert(rate <= bits ==> rate * duration <= bits * duration) by (nonlinear_arith)
            requires
                duration > 0,
        ;
        assert(rate >= bits ==> (bits + 1) * duration <= (rate + 1) * duration) by (nonlinear_arith)
            requires
                duration > 0,
        ;
    }
}

} // verus!
