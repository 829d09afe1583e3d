//! Subtitles of stream copies: burned into the video, or beside it as WebVTT.
use crate::paths::{
    components, components_of, is_plain_name, join_path, joined_path, law_components_grow_by_a_name,
};
use crate::persistence::records::StreamCopyRecord;
use crate::protocol::{
    is_text_codec, is_text_subtitle_codec, MediaItem, SubtitleSourceKind, SubtitleStream,
    SubtitleTrack,
};
use crate::streaming::{convert_srt_to_vtt, lossy_text, text_from_bytes, vtt_of_srt};
use crate::text::{
    all_digits, as_opt_str, concat2, concat3, decimal, decimal_text, lemma_decimal, lower,
    numeral_value, opt_text, push_text, push_two, same_text, texts, to_lower,
};
use vstd::prelude::*;

verus! {

/// `root` extended by the first `n` components.
pub open spec fn joined_parts(root: Seq<char>, parts: Seq<Seq<char>>, n: int) -> Seq<char>
    decreases n,
{
    if n <= 0 {
        root
    } else {
        joined_path(joined_parts(root, parts, n - 1), parts[n - 1])
    }
}

/// The location of a subtitle file beside a media item.
pub open spec fn sidecar_path(item: MediaItem, track: SubtitleTrack) -> Seq<char> {
    let parts = components_of(track.relative_path@);
    joined_parts(item.root_path@, parts, parts.len() as int)
}

/// The location of a subtitle file beside a media item.
pub fn resolve_sidecar_subtitle_path(media_item: &MediaItem, track: &SubtitleTrack) -> (r: String)
    ensures
        r@ == sidecar_path(*media_item, *track),
{
    let parts: Vec<String> = components(track.relative_path.as_str());
    let mut path: String = media_item.root_path.clone();
    let mut i: usize = 0;
    while i < parts.len()
        invariant
            i <= parts.len(),
            path@ == joined_parts(media_item.root_path@, texts(parts@), i as int),
        decreases parts.len() - i,
    {
        assert(texts(parts@)[i as int] == parts@[i as int]@);
        path = join_path(path.as_str(), parts[i].as_str());
        i = i + 1;
    }
    assert(texts(parts@).len() == parts@.len());
    path
}

/// How one character of a path is written inside a filter description.
pub open spec fn escaped_char(c: char) -> Seq<char> {
    if c == '\\' {
        seq!['\\', '\\']
    } else if c == ':' {
        seq!['\\', '\\', ':']
    } else if c == '\'' {
        seq!['\\', '\\', '\\', '\'']
    } else if c == '[' || c == ']' || c == ',' {
        seq!['\\', c]
    } else {
        seq![c]
    }
}

/// How a path is written inside a filter description.
pub open spec fn escaped_path(path: Seq<char>) -> Seq<char> {
    path.flat_map(escaping())
}

/// The escaping of single characters.
pub open spec fn escaping() -> spec_fn(char) -> Seq<char> {
    |c: char| escaped_char(c)
}

/// Writes a path for use inside a filter description.
pub fn escape_subtitles_path(path: &str) -> (r: String)
    ensures
        r@ == escaped_path(path@),
{
    let ghost f = escaping();
    let mut r: String = String::new();
    assert(path@.take(0).flat_map(f) =~= Seq::<char>::empty());
    for c in iter: path.chars()
        invariant
            iter.seq() == path@,
            f == escaping(),
            r@ == path@.take(iter.index() as int).flat_map(f),
    {
        proof {
            path@.lemma_flat_map_take_append(f, iter.index() as int);
        }
        if c == '\\' {
            r.push('\\');
        } else if c == ':' {
            r.push('\\');
            r.push('\\');
        } else if c == '\'' {
            r.push('\\');
            r.push('\\');
            r.push('\\');
        } else if c == '[' || c == ']' || c == ',' {
            r.push('\\');
        }
        r.push(c);
        assert(r@ =~= path@.take(iter.index() as int).flat_map(f) + f(c));
    }
    assert(path@.take(path@.len() as int) =~= path@);
    r
}

/// The place of the first subtitle stream with the given index, or the number
/// of streams.
pub open spec fn stream_place(streams: Seq<SubtitleStream>, index: u32) -> int
    decreases streams.len(),
{
    if streams.len() == 0 || streams[0].index == index {
        0
    } else {
        1 + stream_place(streams.skip(1), index)
    }
}

/// The place of a stream is that of the first one with its index.
pub proof fn lemma_stream_place(streams: Seq<SubtitleStream>, index: u32)
    ensures
        0 <= stream_place(streams, index) <= streams.len(),
        stream_place(streams, index) < streams.len() ==> streams[stream_place(streams, index)].index
            == index,
        forall|j: int| 0 <= j < stream_place(streams, index) ==> streams[j].index != index,
    decreases streams.len(),
{
    if streams.len() > 0 && streams[0].index != index {
        lemma_stream_place(streams.skip(1), index);
        assert forall|j: int| 0 <= j < stream_place(streams, index) implies streams[j].index
            != index by {
            if j > 0 {
                assert(streams.skip(1)[j - 1] == streams[j]);
            }
        }
    }
}

/// The place of the first subtitle stream with the given index.
pub fn find_subtitle_stream(streams: &Vec<SubtitleStream>, index: u32) -> (r: Option<usize>)
    ensures
        r is Some == (stream_place(streams@, index) < streams@.len()),
        r matches Some(place) ==> place == stream_place(streams@, index) && place < streams@.len(),
{
    proof {
        lemma_stream_place(streams@, index);
    }
    let mut i: usize = 0;
    while i < streams.len()
        invariant
            i <= streams.len(),
            forall|j: int| 0 <= j < i ==> streams@[j].index != index,
            0 <= stream_place(streams@, index) <= streams@.len(),
            stream_place(streams@, index) < streams@.len() ==> streams@[stream_place(
                streams@,
                index,
            )].index == index,
            forall|j: int| 0 <= j < stream_place(streams@, index) ==> streams@[j].index != index,
        decreases streams.len() - i,
    {
        if streams[i].index == index {
            return Some(i);
        }
        i = i + 1;
    }
    None
}

/// What a filter that burns in subtitles is, or why there is none.
pub open spec fn burn_filter(item: MediaItem, copy: StreamCopyRecord, media_path: Seq<char>) -> Result<
    Seq<char>,
    Seq<char>,
> {
    match (copy.subtitle_kind, copy.subtitle_index) {
        (Some(SubtitleSourceKind::Sidecar), Some(index)) => if index < item.subtitle_tracks@.len() {
            Ok("subtitles="@ + escaped_path(sidecar_path(item, item.subtitle_tracks@[index as int])))
        } else {
            Err("Selected sidecar subtitle track does not exist."@)
        },
        (Some(SubtitleSourceKind::Embedded), Some(index)) => {
            let place = stream_place(item.subtitle_streams@, index);
            if place >= item.subtitle_streams@.len() {
                Err("Selected embedded subtitle stream does not exist."@)
            } else if !is_text_codec(opt_text(item.subtitle_streams@[place].codec)) {
                Err("Selected embedded subtitle stream cannot be burned in."@)
            } else {
                Ok("subtitles="@ + escaped_path(media_path) + ":si="@ + decimal(place as nat))
            }
        },
        _ => Err("A subtitle source is required for burned subtitles."@),
    }
}

/// A result with both texts taken by their view.
pub open spec fn text_result(r: Result<String, String>) -> Result<Seq<char>, Seq<char>> {
    match r {
        Ok(text) => Ok(text@),
        Err(message) => Err(message@),
    }
}

/// The ffmpeg filter that burns in the subtitles that a stream copy asks for.
pub fn build_burn_subtitle_filter(
    media_item: &MediaItem,
    copy: &StreamCopyRecord,
    media_path: &str,
) -> (r: Result<String, String>)
    ensures
        text_result(r) == burn_filter(*media_item, *copy, media_path@),
{
    match (copy.subtitle_kind, copy.subtitle_index) {
        (Some(kind), Some(index)) => match kind {
            SubtitleSourceKind::Sidecar => {
                let place: usize = index as usize;
                if place < media_item.subtitle_tracks.len() {
                    let path: String = resolve_sidecar_subtitle_path(
                        media_item,
                        &media_item.subtitle_tracks[place],
                    );
                    Ok(concat2("subtitles=", escape_subtitles_path(path.as_str()).as_str()))
                } else {
                    Err("Selected sidecar subtitle track does not exist.".to_owned())
                }
            },
            SubtitleSourceKind::Embedded => {
                proof {
                    lemma_stream_place(media_item.subtitle_streams@, index);
                }
                match find_subtitle_stream(&media_item.subtitle_streams, index) {
                    Some(place) => {
                        let codec: Option<&str> = as_opt_str(
                            &media_item.subtitle_streams[place].codec,
                        );
                        if !is_text_subtitle_codec(codec) {
                            Err(
                                "Selected embedded subtitle stream cannot be burned in.".to_owned(),
                            )
                        } else {
                            Ok(
                                concat3(
                                    "subtitles=",
                                    escape_subtitles_path(media_path).as_str(),
                                    ":si=",
                                ).concat(decimal_text(place as u64).as_str()),
                            )
                        }
                    },
                    None => Err("Selected embedded subtitle stream does not exist.".to_owned()),
                }
            },
        },
        _ => Err("A subtitle source is required for burned subtitles.".to_owned()),
    }
}

/// How the WebVTT file beside a stream copy is made.
#[derive(Debug, PartialEq, Eq)]
pub enum SidecarPlan {
    /// From the subtitle file at `source`, in the format of `extension`.
    Convert { source: String, extension: String },
    /// By an ffmpeg run with these arguments.
    Extract { args: Vec<String> },
}

/// The arguments of the ffmpeg run that extracts a subtitle stream as WebVTT.
pub open spec fn extract_args(
    media_path: Seq<char>,
    index: u32,
    output: Seq<char>,
) -> Seq<Seq<char>> {
    seq![
        "-y"@,
        "-loglevel"@,
        "error"@,
        "-nostdin"@,
        "-i"@,
        media_path,
        "-map"@,
        "0:"@ + decimal(index as nat),
        "-f"@,
        "webvtt"@,
        output,
    ]
}

/// How a WebVTT file is made, as plain values.
pub ghost enum SidecarChoice {
    Convert(Seq<char>, Seq<char>),
    Extract(Seq<Seq<char>>),
}

/// How the WebVTT file beside a stream copy is made, or why it cannot be.
pub open spec fn sidecar_choice(
    item: MediaItem,
    copy: StreamCopyRecord,
    media_path: Seq<char>,
    output: Seq<char>,
) -> Result<SidecarChoice, Seq<char>> {
    match (copy.subtitle_kind, copy.subtitle_index) {
        (Some(SubtitleSourceKind::Sidecar), Some(index)) => if index < item.subtitle_tracks@.len() {
            let track = item.subtitle_tracks@[index as int];
            Ok(SidecarChoice::Convert(sidecar_path(item, track), track.extension@))
        } else {
            Err("Selected sidecar subtitle track does not exist."@)
        },
        (Some(SubtitleSourceKind::Embedded), Some(index)) => {
            let place = stream_place(item.subtitle_streams@, index);
            if place >= item.subtitle_streams@.len() {
                Err("Selected embedded subtitle stream does not exist."@)
            } else if !is_text_codec(opt_text(item.subtitle_streams@[place].codec)) {
                Err("Selected embedded subtitle stream cannot be converted to WebVTT."@)
            } else {
                Ok(SidecarChoice::Extract(extract_args(media_path, index, output)))
            }
        },
        _ => Err("A subtitle source is required for sidecar subtitles."@),
    }
}

impl SidecarPlan {
    /// The plan as plain values.
    pub open spec fn choice(self) -> SidecarChoice {
        match self {
            SidecarPlan::Convert { source, extension } => SidecarChoice::Convert(
                source@,
                extension@,
            ),
            SidecarPlan::Extract { args } => SidecarChoice::Extract(texts(args@)),
        }
    }
}

/// A planning result as plain values.
pub open spec fn choice_result(r: Result<SidecarPlan, String>) -> Result<
    SidecarChoice,
    Seq<char>,
> {
    match r {
        Ok(plan) => Ok(plan.choice()),
        Err(message) => Err(message@),
    }
}

/// The arguments of the ffmpeg run that extracts a subtitle stream as WebVTT.
pub fn subtitle_extract_arguments(media_path: &str, index: u32, output: &str) -> (r: Vec<String>)
    ensures
        texts(r@) == extract_args(media_path@, index, output@),
{
    let mut args: Vec<String> = Vec::new();
    push_two(&mut args, "-y", "-loglevel");
    push_two(&mut args, "error", "-nostdin");
    push_two(&mut args, "-i", media_path);
    let source: String = concat2("0:", decimal_text(index as u64).as_str());
    push_two(&mut args, "-map", source.as_str());
    push_two(&mut args, "-f", "webvtt");
    push_text(&mut args, output);
    assert(texts(args@) =~= extract_args(media_path@, index, output@));
    args
}

/// Decides how the WebVTT file beside a stream copy is made.
pub fn plan_sidecar_subtitle(
    media_item: &MediaItem,
    copy: &StreamCopyRecord,
    media_path: &str,
    temp_subtitle_path: &str,
) -> (r: Result<SidecarPlan, String>)
    ensures
        choice_result(r) == sidecar_choice(*media_item, *copy, media_path@, temp_subtitle_path@),
{
    match (copy.subtitle_kind, copy.subtitle_index) {
        (Some(kind), Some(index)) => match kind {
            SubtitleSourceKind::Sidecar => {
                let place: usize = index as usize;
                if place < media_item.subtitle_tracks.len() {
                    let track: &SubtitleTrack = &media_item.subtitle_tracks[place];
                    Ok(
                        SidecarPlan::Convert {
                            source: resolve_sidecar_subtitle_path(media_item, track),
                            extension: track.extension.clone(),
                        },
                    )
                } else {
                    Err("Selected sidecar subtitle track does not exist.".to_owned())
                }
            },
            SubtitleSourceKind::Embedded => {
                proof {
                    lemma_stream_place(media_item.subtitle_streams@, index);
                }
                match find_subtitle_stream(&media_item.subtitle_streams, index) {
                    Some(place) => {
                        let codec: Option<&str> = as_opt_str(
                            &media_item.subtitle_streams[place].codec,
                        );
                        if !is_text_subtitle_codec(codec) {
                            Err(
                                "Selected embedded subtitle stream cannot be converted to WebVTT.".to_owned(),
                            )
                        } else {
                            Ok(
                                SidecarPlan::Extract {
                                    args: subtitle_extract_arguments(
                                        media_path,
                                        index,
                                        temp_subtitle_path,
                                    ),
                                },
                            )
                        }
                    },
                    None => Err("Selected embedded subtitle stream does not exist.".to_owned()),
                }
            },
        },
        _ => Err("A subtitle source is required for sidecar subtitles.".to_owned()),
    }
}

/// The WebVTT form of a subtitle text, for the formats that have one.
pub open spec fn converted_sidecar(text: Seq<char>, extension: Seq<char>) -> Result<
    Seq<char>,
    Seq<char>,
> {
    if lower(extension) == "vtt"@ {
        Ok(text)
    } else if lower(extension) == "srt"@ {
        Ok(vtt_of_srt(text))
    } else {
        Err(
            "Subtitle sidecar format '"@ + extension + "' cannot be converted to WebVTT."@,
        )
    }
}

/// The WebVTT form of a subtitle text, for the formats that have one.
pub fn convert_sidecar_text(text: String, extension: &str) -> (r: Result<String, String>)
    ensures
        text_result(r) == converted_sidecar(text@, extension@),
{
    let format: String = to_lower(extension);
    if same_text(format.as_str(), "vtt") {
        Ok(text)
    } else if same_text(format.as_str(), "srt") {
        Ok(convert_srt_to_vtt(text.as_str()))
    } else {
        Err(
            concat3(
                "Subtitle sidecar format '",
                extension,
                "' cannot be converted to WebVTT.",
            ),
        )
    }
}

/// The WebVTT form of the bytes of a subtitle file.
pub fn convert_sidecar_bytes(bytes: &[u8], extension: &str) -> (r: Result<String, String>)
    ensures
        text_result(r) == converted_sidecar(lossy_text(bytes@), extension@),
{
    convert_sidecar_text(text_from_bytes(bytes), extension)
}

/// No two paths are written the same inside a filter description.
pub proof fn law_escaping_is_injective(a: Seq<char>, b: Seq<char>)
    requires
        escaped_path(a) == escaped_path(b),
    ensures
        a == b,
    decreases a.len(),
{
    lemma_escaped_path_steps(a);
    lemma_escaped_path_steps(b);
    if a.len() == 0 || b.len() == 0 {
        assert(a =~= b);
    } else {
        let x = a.last();
        let y = b.last();
        assert(escaped_path(a).last() == x);
        assert(escaped_path(b).last() == y);
        assert(x == y);
        let rest_a = escaped_path(a.drop_last());
        let rest_b = escaped_path(b.drop_last());
        assert(rest_a =~= escaped_path(a).take(escaped_path(a).len() - escaped_char(x).len()));
        assert(rest_b =~= escaped_path(b).take(escaped_path(b).len() - escaped_char(x).len()));
        law_escaping_is_injective(a.drop_last(), b.drop_last());
        assert(a =~= a.drop_last().push(x));
        assert(b =~= b.drop_last().push(y));
    }
}

proof fn lemma_escaped_path_steps(s: Seq<char>)
    ensures
        s.len() == 0 ==> escaped_path(s) == Seq::<char>::empty(),
        s.len() > 0 ==> escaped_path(s) == escaped_path(s.drop_last()) + escaped_char(s.last()),
        s.len() > 0 ==> escaped_path(s).len() > 0,
{
    if s.len() == 0 {
        assert(escaped_path(s) =~= Seq::<char>::empty());
    } else {
        assert(s =~= s.drop_last().push(s.last()));
        s.drop_last().lemma_flat_map_push(escaping(), s.last());
    }
}

/// A subtitle file that is burned in is the chosen track of the item, below the item's
/// root; a subtitle stream is the chosen one of the media file, named by its place
/// among the subtitle streams. A choice that the item does not have is refused, and so
/// is a stream that is not text.
pub proof fn law_burned_subtitles_are_the_chosen_ones(
    item: MediaItem,
    copy: StreamCopyRecord,
    media_path: Seq<char>,
    index: u32,
)
    requires
        copy.subtitle_index == Some(index),
    ensures
        copy.subtitle_kind == Some(SubtitleSourceKind::Sidecar) ==> {
            &&& burn_filter(item, copy, media_path) is Ok <==> index < item.subtitle_tracks@.len()
            &&& burn_filter(item, copy, media_path) matches Ok(filter) ==> filter == "subtitles="@
                + escaped_path(sidecar_path(item, item.subtitle_tracks@[index as int]))
        },
        copy.subtitle_kind == Some(SubtitleSourceKind::Embedded) ==> {
            &&& (forall|i: int|
                0 <= i < item.subtitle_streams@.len() ==> (#[trigger] item.subtitle_streams@[i]).index
                    != index) ==> burn_filter(item, copy, media_path) is Err
            &&& forall|i: int|
                #![trigger item.subtitle_streams@[i]]
                0 <= i < item.subtitle_streams@.len() && item.subtitle_streams@[i].index == index && (
                forall|k: int|
                    0 <= k < i ==> (#[trigger] item.subtitle_streams@[k]).index != index) ==> (
                burn_filter(item, copy, media_path) is Ok <==> is_text_codec(
                    opt_text(item.subtitle_streams@[i].codec),
                )) && (burn_filter(item, copy, media_path) matches Ok(filter) ==> filter
                    == "subtitles="@ + escaped_path(media_path) + ":si="@ + decimal(i as nat))
        },
        copy.subtitle_kind is None ==> burn_filter(item, copy, media_path) is Err,
{
    let streams = item.subtitle_streams@;
    lemma_stream_place(streams, index);
    let place = stream_place(streams, index);
    assert forall|i: int|
        #![trigger streams[i]]
        0 <= i < streams.len() && streams[i].index == index && (forall|k: int|
            0 <= k < i ==> (#[trigger] streams[k]).index != index) implies i == place by {
        if place < i {
            assert(streams[place].index != index);
        }
    }
}

/// A subtitle beside a copy is made from the chosen track's file, in its format, or
/// from the chosen stream of the media file, which is text. Other choices are refused.
pub proof fn law_subtitles_beside_are_the_chosen_ones(
    item: MediaItem,
    copy: StreamCopyRecord,
    media_path: Seq<char>,
    output: Seq<char>,
    index: u32,
)
    requires
        copy.subtitle_index == Some(index),
    ensures
        copy.subtitle_kind == Some(SubtitleSourceKind::Sidecar) ==> {
            &&& sidecar_choice(item, copy, media_path, output) is Ok <==> index
                < item.subtitle_tracks@.len()
            &&& sidecar_choice(item, copy, media_path, output) matches Ok(choice) ==> choice
                == SidecarChoice::Convert(
                sidecar_path(item, item.subtitle_tracks@[index as int]),
                item.subtitle_tracks@[index as int].extension@,
            )
        },
        copy.subtitle_kind == Some(SubtitleSourceKind::Embedded) ==> {
            &&& sidecar_choice(item, copy, media_path, output) is Ok ==> exists|i: int|
                0 <= i < item.subtitle_streams@.len() && (#[trigger] item.subtitle_streams@[i]).index
                    == index && is_text_codec(opt_text(item.subtitle_streams@[i].codec))
            &&& sidecar_choice(item, copy, media_path, output) matches Ok(choice) ==> (choice matches
                SidecarChoice::Extract(args) && args.last() == output && (exists|q: int|
                0 <= q < args.len() - 1 && #[trigger] args[q] == "-i"@ && args[q + 1] == media_path)
                && (exists|q: int|
                0 <= q < args.len() - 1 && #[trigger] args[q] == "-map"@ && args[q + 1].take(2)
                    == "0:"@ && all_digits(args[q + 1].skip(2)) && numeral_value(args[q + 1].skip(2))
                    == index) && (exists|q: int|
                0 <= q < args.len() - 1 && #[trigger] args[q] == "-f"@ && args[q + 1] == "webvtt"@))
        },
        copy.subtitle_kind is None ==> sidecar_choice(item, copy, media_path, output) is Err,
{
    lemma_stream_place(item.subtitle_streams@, index);
    let args = extract_args(media_path, index, output);
    lemma_decimal(index as nat);
    reveal_strlit("0:");
    assert(args[4] == "-i"@ && args[5] == media_path);
    assert(args[6] == "-map"@);
    assert(args[7].take(2) =~= "0:"@);
    assert(args[7].skip(2) =~= decimal(index as nat));
    assert(args[8] == "-f"@ && args[9] == "webvtt"@);
}

/// A path is written inside a filter character by character: the characters that mean
/// something there are escaped, the others stand for themselves.
pub proof fn law_escaping_goes_by_character(path: Seq<char>, c: char)
    ensures
        escaped_path(Seq::<char>::empty()) == Seq::<char>::empty(),
        escaped_path(path.push(c)) == escaped_path(path) + (if c == '\\' {
            seq!['\\', '\\']
        } else if c == ':' {
            seq!['\\', '\\', ':']
        } else if c == '\'' {
            seq!['\\', '\\', '\\', '\'']
        } else if c == '[' {
            seq!['\\', '[']
        } else if c == ']' {
            seq!['\\', ']']
        } else if c == ',' {
            seq!['\\', ',']
        } else {
            seq![c]
        }),
{
    lemma_escaped_path_steps(Seq::<char>::empty());
    lemma_escaped_path_steps(path.push(c));
    assert(path.push(c).drop_last() =~= path);
}

/// A subtitle file in WebVTT is taken as it is, one in SubRip is converted line by line,
/// and any other is refused.
pub proof fn law_sidecars_become_webvtt(text: Seq<char>, extension: Seq<char>)
    ensures
        converted_sidecar(text, extension) is Ok <==> lower(extension) == "vtt"@ || lower(extension)
            == "srt"@,
        lower(extension) == "vtt"@ ==> converted_sidecar(text, extension) == Ok::<
            Seq<char>,
            Seq<char>,
        >(text),
        lower(extension) == "srt"@ ==> converted_sidecar(text, extension) == Ok::<
            Seq<char>,
            Seq<char>,
        >(vtt_of_srt(text)),
{
    reveal_strlit("vtt");
    reveal_strlit("srt");
    assert("vtt"@[0] == 'v' && "srt"@[0] == 's');
}

proof fn lemma_joined_parts_prefix(root: Seq<char>, a: Seq<Seq<char>>, b: Seq<Seq<char>>, n: int)
    requires
        0 <= n <= a.len(),
        n <= b.len(),
        forall|i: int| 0 <= i < n ==> a[i] == b[i],
    ensures
        joined_parts(root, a, n) == joined_parts(root, b, n),
    decreases n,
{
    if n > 0 {
        lemma_joined_parts_prefix(root, a, b, n - 1);
    }
}

/// A subtitle file lies below the root of its item, at its directories and its name.
pub proof fn law_sidecars_lie_below_the_root(
    item: MediaItem,
    track: SubtitleTrack,
    beside: SubtitleTrack,
    name: Seq<char>,
)
    requires
        is_plain_name(name),
    ensures
        track.relative_path@ == name ==> sidecar_path(item, track) == joined_path(
            item.root_path@,
            name,
        ),
        beside.relative_path@.len() > 0 && track.relative_path@ == beside.relative_path@ + seq!['/']
            + name ==> sidecar_path(item, track) == joined_path(sidecar_path(item, beside), name),
{
    law_components_grow_by_a_name(beside.relative_path@, name);
    reveal_with_fuel(joined_parts, 2);
    assert(joined_parts(item.root_path@, seq![name], 0) == item.root_path@);
    let parts = components_of(beside.relative_path@);
    lemma_joined_parts_prefix(item.root_path@, parts.push(name), parts, parts.len() as int);
}

} // verus!
