//! What a scan finds in a directory, and what it writes for each media file.
use crate::order::{
    in_order, insert_in_order, lemma_text_leq_total, lemma_text_leq_transitive, not_after, orders,
    text_leq,
};
use crate::paths::{
    components, components_of, extension, extension_of, file_stem, is_plain_name, join_path,
    joined_path, law_components_grow_by_a_name, stem_of,
};
use crate::protocol::SubtitleTrack;
use crate::text::{
    ascii_letter, chars_of, is_ascii_letter, join, joined, law_replacing_keeps_the_rest,
    lemma_pieces_append, lemma_pieces_of_nothing, lemma_pieces_push, lower, opt_str, opt_text,
    pieces, push_text, replace_char, replaced, same_text, slices, split_all, strip_prefix, texts,
    to_lower, to_upper, upper, upper_char, upper_char_of,
};
use crate::timestamp::{format_timestamp, Timestamp};
use vstd::prelude::*;

verus! {

/// What a walk of one library root came to.
#[derive(Debug, Clone, Copy, PartialEq, Eq, Structural)]
pub struct WalkOutcome {
    pub total: usize,
    pub cached: usize,
    pub pending: usize,
    pub elapsed_ms: u64,
}

impl Default for WalkOutcome {
    fn default() -> (r: WalkOutcome)
        ensures
            r == (WalkOutcome { total: 0, cached: 0, pending: 0, elapsed_ms: 0 }),
    {
        WalkOutcome { total: 0, cached: 0, pending: 0, elapsed_ms: 0 }
    }
}

/// What a directory entry is.
#[derive(Debug, Clone, Copy, PartialEq, Eq, Structural)]
pub enum EntryKind {
    /// Its type could not be read.
    Unreadable,
    Symlink,
    Directory,
    File,
    Other,
}

/// The size and the modification time of a file.
#[derive(Debug, Clone, Copy, PartialEq, Eq, Structural)]
pub struct FileMetadata {
    pub size_bytes: u64,
    pub modified: Option<Timestamp>,
}

/// An entry of a directory; `metadata` is that of a file, where it could be
/// read.
#[derive(Debug, PartialEq, Eq)]
pub struct DirEntry {
    pub name: String,
    pub kind: EntryKind,
    pub metadata: Option<FileMetadata>,
}

/// A media file of a directory with the subtitle files that belong to it.
#[derive(Debug, PartialEq, Eq)]
pub struct DirMediaCandidate {
    pub relative_path: String,
    pub file_name: String,
    pub extension: Option<String>,
    pub size_bytes: u64,
    pub modified_at: String,
    pub modified: Option<Timestamp>,
    pub subtitle_tracks: Vec<SubtitleTrack>,
}

/// What a scan takes from a directory.
#[derive(Debug, PartialEq, Eq)]
pub struct DirContents {
    pub subdirs: Vec<String>,
    pub media: Vec<DirMediaCandidate>,
}

/// Extensions of media files, in lower case.
pub open spec fn supported_media(extension: Seq<char>) -> bool {
    ||| extension == "mp4"@
    ||| extension == "mkv"@
    ||| extension == "webm"@
    ||| extension == "mov"@
    ||| extension == "m4v"@
    ||| extension == "avi"@
    ||| extension == "mp3"@
    ||| extension == "flac"@
    ||| extension == "wav"@
    ||| extension == "m4a"@
    ||| extension == "aac"@
    ||| extension == "ogg"@
}

/// Extensions of subtitle files, in lower case.
pub open spec fn supported_subtitle(extension: Seq<char>) -> bool {
    extension == "vtt"@ || extension == "srt"@
}

fn is_supported_media(extension: &str) -> (r: bool)
    ensures
        r == supported_media(extension@),
{
    same_text(extension, "mp4") || same_text(extension, "mkv") || same_text(extension, "webm")
        || same_text(extension, "mov") || same_text(extension, "m4v") || same_text(extension, "avi")
        || same_text(extension, "mp3") || same_text(extension, "flac") || same_text(
        extension,
        "wav",
    ) || same_text(extension, "m4a") || same_text(extension, "aac") || same_text(extension, "ogg")
}

/// The content type of a media file by its lower-case extension.
pub open spec fn content_type_of(extension: Seq<char>) -> Option<Seq<char>> {
    if extension == "mp4"@ || extension == "m4v"@ {
        Some("video/mp4"@)
    } else if extension == "mkv"@ {
        Some("video/x-matroska"@)
    } else if extension == "webm"@ {
        Some("video/webm"@)
    } else if extension == "mov"@ {
        Some("video/quicktime"@)
    } else if extension == "avi"@ {
        Some("video/x-msvideo"@)
    } else if extension == "mp3"@ {
        Some("audio/mpeg"@)
    } else if extension == "flac"@ {
        Some("audio/flac"@)
    } else if extension == "wav"@ {
        Some("audio/wav"@)
    } else if extension == "m4a"@ || extension == "aac"@ {
        Some("audio/aac"@)
    } else if extension == "ogg"@ {
        Some("audio/ogg"@)
    } else {
        None
    }
}

/// The content type of a media file by its lower-case extension.
pub fn content_type_for_extension(extension: &str) -> (r: Option<&'static str>)
    ensures
        opt_str(r) == content_type_of(extension@),
{
    if same_text(extension, "mp4") || same_text(extension, "m4v") {
        Some("video/mp4")
    } else if same_text(extension, "mkv") {
        Some("video/x-matroska")
    } else if same_text(extension, "webm") {
        Some("video/webm")
    } else if same_text(extension, "mov") {
        Some("video/quicktime")
    } else if same_text(extension, "avi") {
        Some("video/x-msvideo")
    } else if same_text(extension, "mp3") {
        Some("audio/mpeg")
    } else if same_text(extension, "flac") {
        Some("audio/flac")
    } else if same_text(extension, "wav") {
        Some("audio/wav")
    } else if same_text(extension, "m4a") || same_text(extension, "aac") {
        Some("audio/aac")
    } else if same_text(extension, "ogg") {
        Some("audio/ogg")
    } else {
        None
    }
}

/// Every media file has a content type.
pub proof fn law_media_has_content_type(extension: Seq<char>)
    ensures
        supported_media(extension) <==> content_type_of(extension) is Some,
{
}

/// The lower-case extension of a file name, where there is one.
pub open spec fn normalized_extension_of(name: Seq<char>) -> Option<Seq<char>> {
    match extension_of(name) {
        Some(value) => if lower(value).len() == 0 {
            None
        } else {
            Some(lower(value))
        },
        None => None,
    }
}

/// The lower-case extension of a file name, where there is one.
pub fn normalized_extension(name: &str) -> (r: Option<String>)
    ensures
        opt_text(r) == normalized_extension_of(name@),
{
    match extension(name) {
        Some(value) => {
            let lowered: String = to_lower(value);
            if lowered.as_str().is_empty() {
                None
            } else {
                Some(lowered)
            }
        },
        None => None,
    }
}

/// The path of a file below `root`, with its components joined by slashes;
/// nothing for a path outside of it.
pub open spec fn relative_to(root: Seq<char>, path: Seq<char>) -> Option<Seq<char>> {
    let top = components_of(root);
    let all = components_of(path);
    if top.is_prefix_of(all) && all.len() > top.len() {
        Some(joined(all.skip(top.len() as int), "/"@))
    } else {
        None
    }
}

/// The path of a file below `root_path`.
pub fn normalize_relative_path(root_path: &str, path: &str) -> (r: Option<String>)
    ensures
        opt_text(r) == relative_to(root_path@, path@),
{
    let top: Vec<String> = components(root_path);
    let all: Vec<String> = components(path);
    let ghost top_parts = components_of(root_path@);
    let ghost all_parts = components_of(path@);
    assert(texts(top@).len() == top@.len());
    assert(texts(all@).len() == all@.len());
    if all.len() <= top.len() {
        return None;
    }
    let mut i: usize = 0;
    while i < top.len()
        invariant
            i <= top.len(),
            top.len() < all.len(),
            texts(top@) == top_parts,
            texts(all@) == all_parts,
            top_parts == components_of(root_path@),
            all_parts == components_of(path@),
            forall|k: int| 0 <= k < i ==> top_parts[k] == all_parts[k],
        decreases top.len() - i,
    {
        assert(top_parts[i as int] == top@[i as int]@);
        assert(all_parts[i as int] == all@[i as int]@);
        if !same_text(top[i].as_str(), all[i].as_str()) {
            proof {
                if top_parts.is_prefix_of(all_parts) {
                    let start = all_parts.subrange(0, top_parts.len() as int);
                    assert(start =~= top_parts);
                    assert(start[i as int] == all_parts[i as int]);
                }
            }
            return None;
        }
        i = i + 1;
    }
    assert(top_parts.is_prefix_of(all_parts)) by {
        assert(top_parts =~= all_parts.subrange(0, top_parts.len() as int));
    }
    let mut rest: Vec<String> = Vec::new();
    let mut k: usize = top.len();
    while k < all.len()
        invariant
            top.len() <= k <= all.len(),
            texts(all@) == all_parts,
            texts(rest@) =~= all_parts.subrange(top@.len() as int, k as int),
        decreases all.len() - k,
    {
        assert(all_parts[k as int] == all@[k as int]@);
        push_text(&mut rest, all[k].as_str());
        k = k + 1;
    }
    assert(texts(rest@) =~= all_parts.skip(top_parts.len() as int));
    Some(join(&rest, "/"))
}

/// Whether a token is a language code: two letters, or two letters, a hyphen
/// and two letters.
pub open spec fn is_language_code(token: Seq<char>) -> bool {
    ||| token.len() == 2 && ascii_letter(token[0]) && ascii_letter(token[1])
    ||| token.len() == 5 && ascii_letter(token[0]) && ascii_letter(token[1]) && token[2] == '-'
        && ascii_letter(token[3]) && ascii_letter(token[4])
}

/// The token, where it is a language code.
pub fn infer_language_code<'a>(token: &'a str) -> (r: Option<&'a str>)
    ensures
        r is Some == is_language_code(token@),
        r matches Some(code) ==> code@ == token@,
{
    let chars: Vec<char> = chars_of(token);
    let is_code: bool = (chars.len() == 2 && is_ascii_letter(chars[0]) && is_ascii_letter(
        chars[1],
    )) || (chars.len() == 5 && is_ascii_letter(chars[0]) && is_ascii_letter(chars[1]) && chars[2]
        == '-' && is_ascii_letter(chars[3]) && is_ascii_letter(chars[4]));
    if is_code {
        Some(token)
    } else {
        None
    }
}

/// `s` with underscores and hyphens replaced by spaces.
pub open spec fn spaced(s: Seq<char>) -> Seq<char> {
    replaced(replaced(s, '_', " "@), '-', " "@)
}

/// How a token of a subtitle file name is shown.
pub open spec fn humanized(token: Seq<char>) -> Seq<char> {
    if lower(token) == "forced"@ {
        "Forced"@
    } else if lower(token) == "sdh"@ {
        "SDH"@
    } else if is_language_code(token) {
        upper(token)
    } else if token.len() == 0 {
        "Subtitle"@
    } else {
        seq![upper_char(token[0])] + lower(spaced(token.skip(1)))
    }
}

/// How a token of a subtitle file name is shown.
pub fn humanize_subtitle_token(token: &str) -> (r: String)
    ensures
        r@ == humanized(token@),
{
    let lowered: String = to_lower(token);
    if same_text(lowered.as_str(), "forced") {
        return "Forced".to_owned();
    }
    if same_text(lowered.as_str(), "sdh") {
        return "SDH".to_owned();
    }
    if infer_language_code(token).is_some() {
        return to_upper(token);
    }
    let len: usize = token.unicode_len();
    if len == 0 {
        return "Subtitle".to_owned();
    }
    let rest: &str = token.substring_char(1, len);
    assert(rest@ =~= token@.skip(1));
    let spaces: String = replace_char(rest, '_', " ");
    let spaces: String = replace_char(spaces.as_str(), '-', " ");
    let remainder: String = to_lower(spaces.as_str());
    let mut r: String = String::new();
    r.push(upper_char_of(token.get_char(0)));
    assert(r@ =~= seq![upper_char(token@[0])]);
    r.append(remainder.as_str());
    r
}

/// The non-empty pieces among the first `n`.
pub open spec fn tokens_upto(list: Seq<Seq<char>>, n: int) -> Seq<Seq<char>>
    decreases n,
{
    if n <= 0 {
        seq![]
    } else if list[n - 1].len() > 0 {
        tokens_upto(list, n - 1).push(list[n - 1])
    } else {
        tokens_upto(list, n - 1)
    }
}

/// The non-empty parts of a suffix between dots.
pub open spec fn tokens_of(suffix: Seq<char>) -> Seq<Seq<char>> {
    tokens_upto(pieces(suffix, '.'), pieces(suffix, '.').len() as int)
}

/// The first language code among the tokens.
pub open spec fn first_language(tokens: Seq<Seq<char>>) -> Option<Seq<char>>
    decreases tokens.len(),
{
    if tokens.len() == 0 {
        None
    } else if is_language_code(tokens[0]) {
        Some(tokens[0])
    } else {
        first_language(tokens.skip(1))
    }
}

/// The tokens as they are shown.
pub open spec fn humanized_all(tokens: Seq<Seq<char>>) -> Seq<Seq<char>> {
    tokens.map_values(|token: Seq<char>| humanized(token))
}

/// The label and the language that the suffix of a subtitle file name gives.
pub open spec fn presentation(suffix: Seq<char>) -> (Seq<char>, Option<Seq<char>>) {
    let tokens = tokens_of(suffix);
    if tokens.len() == 0 {
        ("Default"@, None)
    } else {
        (joined(humanized_all(tokens), " "@), first_language(tokens))
    }
}

/// The label and the language that the suffix of a subtitle file name gives.
pub fn subtitle_presentation(suffix: &str) -> (r: (String, Option<String>))
    ensures
        (r.0@, opt_text(r.1)) == presentation(suffix@),
{
    let list: Vec<&str> = split_all(suffix, '.');
    let ghost all = pieces(suffix@, '.');
    let mut labels: Vec<String> = Vec::new();
    let mut language: Option<String> = None;
    let mut i: usize = 0;
    assert(tokens_upto(all, 0) =~= Seq::<Seq<char>>::empty());
    assert(texts(labels@) =~= humanized_all(tokens_upto(all, 0)));
    while i < list.len()
        invariant
            i <= list.len(),
            slices(list@) == all,
            texts(labels@) == humanized_all(tokens_upto(all, i as int)),
            opt_text(language) == first_language(tokens_upto(all, i as int)),
        decreases list.len() - i,
    {
        let token: &str = list[i];
        assert(all[i as int] == token@);
        if !token.is_empty() {
            proof {
                lemma_first_language_push(tokens_upto(all, i as int), token@);
            }
            if language.is_none() {
                match infer_language_code(token) {
                    Some(code) => {
                        language = Some(code.to_owned());
                    },
                    None => {},
                }
            }
            let ghost shown = texts(labels@);
            labels.push(humanize_subtitle_token(token));
            assert(texts(labels@) =~= shown.push(humanized(token@)));
            assert(tokens_upto(all, i + 1) == tokens_upto(all, i as int).push(token@));
            assert(texts(labels@) =~= humanized_all(tokens_upto(all, i + 1)));
        }
        i = i + 1;
    }
    assert(slices(list@).len() == list@.len());
    assert(texts(labels@).len() == labels@.len());
    assert(humanized_all(tokens_of(suffix@)).len() == tokens_of(suffix@).len());
    if labels.len() == 0 {
        return ("Default".to_owned(), None);
    }
    (join(&labels, " "), language)
}

proof fn lemma_first_language_push(tokens: Seq<Seq<char>>, token: Seq<char>)
    ensures
        first_language(tokens.push(token)) == (match first_language(tokens) {
            Some(code) => Some(code),
            None => if is_language_code(token) {
                Some(token)
            } else {
                None
            },
        }),
    decreases tokens.len(),
{
    reveal_with_fuel(first_language, 2);
    if tokens.len() == 0 {
        assert(tokens.push(token).skip(1) =~= Seq::<Seq<char>>::empty());
    } else {
        assert(tokens.push(token).skip(1) =~= tokens.skip(1).push(token));
        lemma_first_language_push(tokens.skip(1), token);
    }
}

/// What a subtitle file name adds to the stem of a media file, where it belongs
/// to that file: nothing, or what follows a dot.
pub open spec fn sidecar_suffix(media_stem: Seq<char>, sub_stem: Seq<char>) -> Option<Seq<char>> {
    if sub_stem == media_stem {
        Some(Seq::empty())
    } else if sub_stem.len() > media_stem.len() && media_stem.is_prefix_of(sub_stem)
        && sub_stem[media_stem.len() as int] == '.' {
        Some(sub_stem.skip(media_stem.len() as int + 1))
    } else {
        None
    }
}

fn sidecar_suffix_of(media_stem: &str, sub_stem: &str) -> (r: Option<String>)
    ensures
        opt_text(r) == sidecar_suffix(media_stem@, sub_stem@),
{
    if same_text(sub_stem, media_stem) {
        let empty: String = String::new();
        return Some(empty);
    }
    match strip_prefix(sub_stem, media_stem) {
        None => None,
        Some(rest) => {
            let len: usize = rest.unicode_len();
            proof {
                if rest@.len() == 0 {
                    assert(sub_stem@ =~= media_stem@);
                }
                assert(sub_stem@[media_stem@.len() as int] == rest@[0]);
            }
            if len > 0 && rest.get_char(0) == '.' {
                let suffix: &str = rest.substring_char(1, len);
                assert(suffix@ =~= sub_stem@.skip(media_stem@.len() as int + 1));
                Some(suffix.to_owned())
            } else {
                None
            }
        },
    }
}

/// Whether `track` is the subtitle file `name` of directory `dir`, as a track
/// of the media file with the given stem.
pub open spec fn is_track(
    track: SubtitleTrack,
    root: Seq<char>,
    dir: Seq<char>,
    media_stem: Seq<char>,
    name: Seq<char>,
) -> bool {
    let suffix = sidecar_suffix(media_stem, stem_of(name));
    &&& suffix is Some
    &&& track.file_name@ == name
    &&& relative_to(root, joined_path(dir, name)) == Some(track.relative_path@)
    &&& normalized_extension_of(name) == Some(track.extension@)
    &&& (track.label@, opt_text(track.language)) == presentation(suffix->0)
}

/// Whether a subtitle file is a track of the media file with the given stem.
pub open spec fn belongs(
    root: Seq<char>,
    dir: Seq<char>,
    media_stem: Seq<char>,
    entry: DirEntry,
) -> bool {
    &&& is_subtitle_file(entry)
    &&& sidecar_suffix(media_stem, stem_of(entry.name@)) is Some
    &&& relative_to(root, joined_path(dir, entry.name@)) is Some
}

/// Whether an entry is a subtitle file.
pub open spec fn is_subtitle_file(entry: DirEntry) -> bool {
    entry.kind == EntryKind::File && (normalized_extension_of(entry.name@) matches Some(ext)
        && supported_subtitle(ext) && !supported_media(ext))
}

/// Whether an entry is a media file that can be read.
pub open spec fn is_media_file(entry: DirEntry) -> bool {
    entry.kind == EntryKind::File && entry.metadata is Some && (normalized_extension_of(
        entry.name@,
    ) matches Some(ext) && supported_media(ext))
}

/// Builds the track for a subtitle file, where it belongs to the media file
/// with the given stem.
pub fn build_sidecar_track(
    root_path: &str,
    dir: &str,
    media_stem: &str,
    name: &str,
    sub_extension: &str,
) -> (r: Option<SubtitleTrack>)
    requires
        normalized_extension_of(name@) == Some(sub_extension@),
    ensures
        r is Some == (sidecar_suffix(media_stem@, stem_of(name@)) is Some && relative_to(
            root_path@,
            joined_path(dir@, name@),
        ) is Some),
        r matches Some(track) ==> is_track(track, root_path@, dir@, media_stem@, name@),
{
    let suffix: String = match sidecar_suffix_of(media_stem, file_stem(name)) {
        Some(suffix) => suffix,
        None => {
            return None;
        },
    };
    let path: String = join_path(dir, name);
    match normalize_relative_path(root_path, path.as_str()) {
        Some(relative_path) => {
            let (label, language): (String, Option<String>) = subtitle_presentation(
                suffix.as_str(),
            );
            Some(
                SubtitleTrack {
                    file_name: name.to_owned(),
                    relative_path,
                    extension: sub_extension.to_owned(),
                    label,
                    language,
                },
            )
        },
        None => None,
    }
}

/// The order of tracks: by relative path.
pub open spec fn track_leq() -> spec_fn(SubtitleTrack, SubtitleTrack) -> bool {
    |a: SubtitleTrack, b: SubtitleTrack| text_leq(a.relative_path@, b.relative_path@)
}

fn track_not_after(a: &SubtitleTrack, b: &SubtitleTrack) -> (r: bool)
    ensures
        r == track_leq()(*a, *b),
{
    not_after(a.relative_path.as_str(), b.relative_path.as_str())
}

/// The order of directory entries: by name.
pub open spec fn name_leq() -> spec_fn(DirEntry, DirEntry) -> bool {
    |a: DirEntry, b: DirEntry| text_leq(a.name@, b.name@)
}

fn name_not_after(a: &DirEntry, b: &DirEntry) -> (r: bool)
    ensures
        r == name_leq()(*a, *b),
{
    not_after(a.name.as_str(), b.name.as_str())
}

proof fn lemma_orders()
    ensures
        orders(track_leq()),
        orders(name_leq()),
{
    let tracks = track_leq();
    assert forall|a: SubtitleTrack, b: SubtitleTrack| #[trigger] tracks(a, b) || tracks(b, a) by {
        lemma_text_leq_total(a.relative_path@, b.relative_path@);
    }
    assert forall|a: SubtitleTrack, b: SubtitleTrack, c: SubtitleTrack| #[trigger]
        tracks(a, b) && #[trigger] tracks(b, c) implies tracks(a, c) by {
        lemma_text_leq_transitive(a.relative_path@, b.relative_path@, c.relative_path@);
    }
    let names = name_leq();
    assert forall|a: DirEntry, b: DirEntry| #[trigger] names(a, b) || names(b, a) by {
        lemma_text_leq_total(a.name@, b.name@);
    }
    assert forall|a: DirEntry, b: DirEntry, c: DirEntry| #[trigger]
        names(a, b) && #[trigger] names(b, c) implies names(a, c) by {
        lemma_text_leq_transitive(a.name@, b.name@, c.name@);
    }
}

/// Whether `tracks` are the tracks of a media file among the first `n` entries,
/// by relative path: the `k`-th is the entry at `order[k]`, and every entry that
/// belongs to the media file is there once.
pub open spec fn lists_tracks(
    tracks: Seq<SubtitleTrack>,
    order: Seq<int>,
    root: Seq<char>,
    dir: Seq<char>,
    media_stem: Seq<char>,
    entries: Seq<DirEntry>,
    n: int,
) -> bool {
    &&& in_order(tracks, track_leq())
    &&& order.len() == tracks.len()
    &&& order.no_duplicates()
    &&& forall|k: int|
        0 <= k < order.len() ==> 0 <= #[trigger] order[k] < n && belongs(
            root,
            dir,
            media_stem,
            entries[order[k]],
        ) && is_track(tracks[k], root, dir, media_stem, entries[order[k]].name@)
    &&& forall|j: int|
        0 <= j < n && belongs(root, dir, media_stem, #[trigger] entries[j]) ==> order.contains(j)
}

/// The tracks of the media file with the given stem, by relative path.
pub fn subtitle_tracks_for(
    root_path: &str,
    dir: &str,
    media_stem: &str,
    entries: &Vec<DirEntry>,
) -> (r: Vec<SubtitleTrack>)
    ensures
        exists|order: Seq<int>| #[trigger]
            lists_tracks(
                r@,
                order,
                root_path@,
                dir@,
                media_stem@,
                entries@,
                entries@.len() as int,
            ),
{
    proof {
        lemma_orders();
    }
    let mut tracks: Vec<SubtitleTrack> = Vec::new();
    let ghost mut order: Seq<int> = seq![];
    let mut i: usize = 0;
    while i < entries.len()
        invariant
            i <= entries@.len(),
            orders(track_leq()),
            lists_tracks(tracks@, order, root_path@, dir@, media_stem@, entries@, i as int),
        decreases entries@.len() - i,
    {
        let entry: &DirEntry = &entries[i];
        let ghost before = tracks@;
        let ghost order_before = order;
        let built: Option<SubtitleTrack> = if entry.kind == EntryKind::File {
            match normalized_extension(entry.name.as_str()) {
                Some(ext) => {
                    if !is_supported_media(ext.as_str()) && (same_text(ext.as_str(), "vtt")
                        || same_text(ext.as_str(), "srt")) {
                        build_sidecar_track(
                            root_path,
                            dir,
                            media_stem,
                            entry.name.as_str(),
                            ext.as_str(),
                        )
                    } else {
                        None
                    }
                },
                None => None,
            }
        } else {
            None
        };
        assert(built is Some == belongs(root_path@, dir@, media_stem@, entries@[i as int]));
        if let Some(track) = built {
            insert_in_order(&mut tracks, track, track_not_after, Ghost(track_leq()));
            proof {
                let k = choose|k: int|
                    0 <= k <= before.len() && tracks@ == before.insert(k, track);
                order = order_before.insert(k, i as int);
                order_before.insert_ensures(k, i as int);
                before.insert_ensures(k, track);
                assert forall|m: int| 0 <= m < order.len() implies 0 <= #[trigger] order[m] < i + 1
                    && belongs(root_path@, dir@, media_stem@, entries@[order[m]]) && is_track(
                    tracks@[m],
                    root_path@,
                    dir@,
                    media_stem@,
                    entries@[order[m]].name@,
                ) by {
                    if m < k {
                        assert(order[m] == order_before[m]);
                        assert(tracks@[m] == before[m]);
                    } else if m > k {
                        assert(order[m] == order_before[m - 1]);
                        assert(tracks@[m] == before[m - 1]);
                    }
                }
                assert(order.no_duplicates()) by {
                    assert forall|a: int, b: int|
                        0 <= a < order.len() && 0 <= b < order.len() && a != b implies order[a]
                        != order[b] by {
                        let x = if a < k {
                            a
                        } else {
                            a - 1
                        };
                        let y = if b < k {
                            b
                        } else {
                            b - 1
                        };
                        if a != k {
                            assert(order[a] == order_before[x]);
                        }
                        if b != k {
                            assert(order[b] == order_before[y]);
                        }
                    }
                }
                assert forall|j: int|
                    0 <= j < i + 1 && belongs(
                        root_path@,
                        dir@,
                        media_stem@,
                        #[trigger] entries@[j],
                    ) implies order.contains(j) by {
                    if j == i {
                        assert(order[k] == i);
                    } else {
                        assert(order_before.contains(j));
                        let m = choose|m: int| 0 <= m < order_before.len() && order_before[m] == j;
                        if m < k {
                            assert(order[m] == j);
                        } else {
                            assert(order[m + 1] == j);
                        }
                    }
                }
            }
        }
        i = i + 1;
    }
    tracks
}

/// Whether `sorted` holds the entries of a directory by name.
pub open spec fn is_arrangement(sorted: Seq<DirEntry>, entries: Seq<DirEntry>) -> bool {
    in_order(sorted, name_leq()) && sorted.to_multiset() == entries.to_multiset()
}

/// The paths of the directories among the first `n` entries.
pub open spec fn dir_paths(entries: Seq<DirEntry>, dir: Seq<char>, n: int) -> Seq<Seq<char>>
    decreases n,
{
    if n <= 0 {
        seq![]
    } else if entries[n - 1].kind == EntryKind::Directory {
        dir_paths(entries, dir, n - 1).push(joined_path(dir, entries[n - 1].name@))
    } else {
        dir_paths(entries, dir, n - 1)
    }
}

/// Whether an entry is a media file below the root.
pub open spec fn is_candidate_entry(root: Seq<char>, dir: Seq<char>, entry: DirEntry) -> bool {
    is_media_file(entry) && relative_to(root, joined_path(dir, entry.name@)) is Some
}

/// The places of the media files among the first `n` entries.
pub open spec fn media_places(
    entries: Seq<DirEntry>,
    root: Seq<char>,
    dir: Seq<char>,
    n: int,
) -> Seq<int>
    decreases n,
{
    if n <= 0 {
        seq![]
    } else if is_candidate_entry(root, dir, entries[n - 1]) {
        media_places(entries, root, dir, n - 1).push(n - 1)
    } else {
        media_places(entries, root, dir, n - 1)
    }
}

/// When a file was last modified, as text: the time of the scan where that is
/// not known.
pub open spec fn modified_text(metadata: FileMetadata, indexed_at: Seq<char>) -> Seq<char> {
    match metadata.modified {
        Some(time) => time.rfc3339(),
        None => indexed_at,
    }
}

/// Whether `candidate` is the media file of an entry, with its tracks.
pub open spec fn is_candidate(
    candidate: DirMediaCandidate,
    root: Seq<char>,
    dir: Seq<char>,
    indexed_at: Seq<char>,
    entry: DirEntry,
    entries: Seq<DirEntry>,
) -> bool {
    &&& relative_to(root, joined_path(dir, entry.name@)) == Some(candidate.relative_path@)
    &&& candidate.file_name@ == entry.name@
    &&& opt_text(candidate.extension) == normalized_extension_of(entry.name@)
    &&& candidate.size_bytes == entry.metadata->0.size_bytes
    &&& candidate.modified == entry.metadata->0.modified
    &&& candidate.modified_at@ == modified_text(entry.metadata->0, indexed_at)
    &&& exists|order: Seq<int>| #[trigger]
        lists_tracks(
            candidate.subtitle_tracks@,
            order,
            root,
            dir,
            stem_of(entry.name@),
            entries,
            entries.len() as int,
        )
}

/// Whether `contents` are what a scan takes from the entries, which are in the
/// order of their names.
pub open spec fn is_contents(
    contents: DirContents,
    root: Seq<char>,
    dir: Seq<char>,
    indexed_at: Seq<char>,
    entries: Seq<DirEntry>,
) -> bool {
    let places = media_places(entries, root, dir, entries.len() as int);
    &&& texts(contents.subdirs@) == dir_paths(entries, dir, entries.len() as int)
    &&& contents.media@.len() == places.len()
    &&& forall|k: int|
        0 <= k < places.len() ==> is_candidate(
            #[trigger] contents.media@[k],
            root,
            dir,
            indexed_at,
            entries[places[k]],
            entries,
        )
}

fn arrange(entries: Vec<DirEntry>) -> (r: Vec<DirEntry>)
    ensures
        is_arrangement(r@, entries@),
{
    proof {
        lemma_orders();
    }
    let ghost all = entries@;
    let mut rest: Vec<DirEntry> = entries;
    let mut list: Vec<DirEntry> = Vec::new();
    assert(all.to_multiset() =~= list@.to_multiset().add(rest@.to_multiset())) by {
        assert(list@ =~= Seq::<DirEntry>::empty());
        list@.to_multiset_ensures();
    }
    while rest.len() > 0
        invariant
            orders(name_leq()),
            in_order(list@, name_leq()),
            all.to_multiset() == list@.to_multiset().add(rest@.to_multiset()),
        decreases rest@.len(),
    {
        let ghost before = rest@;
        let ghost listed = list@.to_multiset();
        match rest.pop() {
            Some(entry) => {
                proof {
                    assert(before =~= rest@.push(entry));
                    vstd::seq_lib::to_multiset_build(rest@, entry);
                }
                insert_in_order(&mut list, entry, name_not_after, Ghost(name_leq()));
                assert(listed.insert(entry).add(rest@.to_multiset()) =~= listed.add(
                    rest@.to_multiset().insert(entry),
                ));
            },
            None => {},
        }
    }
    proof {
        assert(rest@ =~= Seq::<DirEntry>::empty());
        rest@.to_multiset_ensures();
        assert(list@.to_multiset().add(rest@.to_multiset()) =~= list@.to_multiset());
    }
    list
}

/// Whether the modification times of all files have an RFC 3339 form.
pub open spec fn has_formattable_times(entries: Seq<DirEntry>) -> bool {
    forall|e: DirEntry|
        #[trigger] entries.contains(e) ==> (e.metadata matches Some(metadata) ==> (
        metadata.modified matches Some(time) ==> time.formattable()))
}

/// Sorts the entries of the directory `dir` into subdirectories and media files
/// with their subtitle files. Symbolic links and everything else are left out.
pub fn classify_directory(
    root_path: &str,
    dir: &str,
    indexed_at: &str,
    entries: Vec<DirEntry>,
) -> (r: DirContents)
    requires
        has_formattable_times(entries@),
    ensures
        exists|sorted: Seq<DirEntry>| #[trigger]
            is_arrangement(sorted, entries@) && is_contents(
                r,
                root_path@,
                dir@,
                indexed_at@,
                sorted,
            ),
{
    let ghost given = entries@;
    let entries: Vec<DirEntry> = arrange(entries);
    let ghost root = root_path@;
    let mut subdirs: Vec<String> = Vec::new();
    let mut media: Vec<DirMediaCandidate> = Vec::new();
    let mut i: usize = 0;
    assert(texts(subdirs@) =~= dir_paths(entries@, dir@, 0));
    while i < entries.len()
        invariant
            i <= entries@.len(),
            root == root_path@,
            is_arrangement(entries@, given),
            has_formattable_times(given),
            texts(subdirs@) == dir_paths(entries@, dir@, i as int),
            media@.len() == media_places(entries@, root, dir@, i as int).len(),
            forall|k: int|
                0 <= k < media@.len() ==> is_candidate(
                    #[trigger] media@[k],
                    root,
                    dir@,
                    indexed_at@,
                    entries@[media_places(entries@, root, dir@, i as int)[k]],
                    entries@,
                ),
        decreases entries@.len() - i,
    {
        let entry: &DirEntry = &entries[i];
        let ghost places = media_places(entries@, root, dir@, i as int);
        proof {
            entries@.to_multiset_ensures();
            given.to_multiset_ensures();
            assert(entries@.contains(entries@[i as int]));
            assert(entries@.to_multiset().count(entries@[i as int]) > 0);
            assert(given.contains(entries@[i as int]));
        }
        if entry.kind == EntryKind::Directory {
            let path: String = join_path(dir, entry.name.as_str());
            push_text(&mut subdirs, path.as_str());
        } else if entry.kind == EntryKind::File {
            let found: Option<DirMediaCandidate> = media_candidate(
                root_path,
                dir,
                indexed_at,
                entry,
                &entries,
            );
            if let Some(candidate) = found {
                media.push(candidate);
                assert(media_places(entries@, root, dir@, i + 1) == places.push(i as int));
            }
        }
        i = i + 1;
    }
    assert(is_contents(DirContents { subdirs, media }, root_path@, dir@, indexed_at@, entries@));
    DirContents { subdirs, media }
}

fn media_candidate(
    root_path: &str,
    dir: &str,
    indexed_at: &str,
    entry: &DirEntry,
    entries: &Vec<DirEntry>,
) -> (r: Option<DirMediaCandidate>)
    requires
        entry.kind == EntryKind::File,
        entry.metadata matches Some(metadata) ==> (metadata.modified matches Some(time)
            ==> time.formattable()),
    ensures
        r is Some == is_candidate_entry(root_path@, dir@, *entry),
        r matches Some(candidate) ==> is_candidate(
            candidate,
            root_path@,
            dir@,
            indexed_at@,
            *entry,
            entries@,
        ),
{
    let ext: String = match normalized_extension(entry.name.as_str()) {
        Some(ext) => ext,
        None => {
            return None;
        },
    };
    if !is_supported_media(ext.as_str()) {
        return None;
    }
    let metadata: FileMetadata = match entry.metadata {
        Some(metadata) => metadata,
        None => {
            return None;
        },
    };
    let path: String = join_path(dir, entry.name.as_str());
    match normalize_relative_path(root_path, path.as_str()) {
        Some(relative_path) => {
            let modified_at: String = match metadata.modified {
                Some(time) => format_timestamp(time),
                None => indexed_at.to_owned(),
            };
            let stem: &str = file_stem(entry.name.as_str());
            let subtitle_tracks: Vec<SubtitleTrack> = subtitle_tracks_for(
                root_path,
                dir,
                stem,
                entries,
            );
            let candidate: DirMediaCandidate = DirMediaCandidate {
                relative_path,
                file_name: entry.name.clone(),
                extension: Some(ext),
                size_bytes: metadata.size_bytes,
                modified_at,
                modified: metadata.modified,
                subtitle_tracks,
            };
            proof {
                let order = choose|order: Seq<int>| #[trigger]
                    lists_tracks(
                        candidate.subtitle_tracks@,
                        order,
                        root_path@,
                        dir@,
                        stem@,
                        entries@,
                        entries@.len() as int,
                    );
                assert(lists_tracks(
                    candidate.subtitle_tracks@,
                    order,
                    root_path@,
                    dir@,
                    stem_of(entry.name@),
                    entries@,
                    entries@.len() as int,
                ));
            }
            Some(candidate)
        },
        None => None,
    }
}

/// Whether the name of a file has the extension of a media file, in any case of letters.
pub open spec fn has_media_name(name: Seq<char>) -> bool {
    extension_of(name) matches Some(extension) && {
        let e = lower(extension);
        e == "mp4"@
            || e == "mkv"@
            || e == "webm"@
            || e == "mov"@
            || e == "m4v"@
            || e == "avi"@
            || e == "mp3"@
            || e == "flac"@
            || e == "wav"@
            || e == "m4a"@
            || e == "aac"@
            || e == "ogg"@
    }
}

/// Whether the name of a file has the extension of a subtitle file, in any case of
/// letters.
pub open spec fn has_subtitle_name(name: Seq<char>) -> bool {
    extension_of(name) matches Some(extension) && (lower(extension) == "vtt"@ || lower(extension)
        == "srt"@)
}

proof fn lemma_extensions(name: Seq<char>)
    ensures
        has_media_name(name) <==> (normalized_extension_of(name) matches Some(ext)
            && supported_media(ext)),
        has_subtitle_name(name) <==> (normalized_extension_of(name) matches Some(ext)
            && supported_subtitle(ext) && !supported_media(ext)),
{
    reveal_strlit("mp4");
    reveal_strlit("mkv");
    reveal_strlit("webm");
    reveal_strlit("mov");
    reveal_strlit("m4v");
    reveal_strlit("avi");
    reveal_strlit("mp3");
    reveal_strlit("flac");
    reveal_strlit("wav");
    reveal_strlit("m4a");
    reveal_strlit("aac");
    reveal_strlit("ogg");
    reveal_strlit("vtt");
    reveal_strlit("srt");
    assert("vtt"@[0] == 'v' && "srt"@[0] == 's' && "vtt"@.len() == 3 && "srt"@.len() == 3);
    assert("mp4"@[0] == 'm' && "mkv"@[0] == 'm' && "webm"@[0] == 'w' && "mov"@[0] == 'm');
    assert("m4v"@[0] == 'm' && "avi"@[0] == 'a' && "mp3"@[0] == 'm' && "flac"@[0] == 'f');
    assert("wav"@[0] == 'w' && "m4a"@[0] == 'm' && "aac"@[0] == 'a' && "ogg"@[0] == 'o');
    assert("webm"@.len() == 4 && "flac"@.len() == 4 && "mp4"@.len() == 3 && "mkv"@.len() == 3);
    assert("mov"@.len() == 3 && "m4v"@.len() == 3 && "avi"@.len() == 3 && "mp3"@.len() == 3);
    assert("wav"@.len() == 3 && "m4a"@.len() == 3 && "aac"@.len() == 3 && "ogg"@.len() == 3);
}

proof fn lemma_media_places(
    entries: Seq<DirEntry>,
    root: Seq<char>,
    dir: Seq<char>,
    n: int,
)
    requires
        0 <= n <= entries.len(),
    ensures
        forall|k: int|
            0 <= k < media_places(entries, root, dir, n).len() ==> 0 <= #[trigger] media_places(
                entries,
                root,
                dir,
                n,
            )[k] < n && is_candidate_entry(root, dir, entries[media_places(entries, root, dir, n)[k]]),
        forall|a: int, b: int|
            0 <= a < b < media_places(entries, root, dir, n).len() ==> media_places(
                entries,
                root,
                dir,
                n,
            )[a] < media_places(entries, root, dir, n)[b],
        forall|i: int|
            0 <= i < n && is_candidate_entry(root, dir, #[trigger] entries[i]) ==> media_places(
                entries,
                root,
                dir,
                n,
            ).contains(i),
    decreases n,
{
    if n > 0 {
        lemma_media_places(entries, root, dir, n - 1);
        let before = media_places(entries, root, dir, n - 1);
        let after = media_places(entries, root, dir, n);
        if is_candidate_entry(root, dir, entries[n - 1]) {
            assert(after[before.len() as int] == n - 1);
            assert forall|i: int|
                0 <= i < n && is_candidate_entry(root, dir, #[trigger] entries[i]) implies
                after.contains(i) by {
                if i < n - 1 {
                    let k = before.index_of(i);
                    assert(after[k] == i);
                }
            }
        }
    }
}

/// Whether a media file of a directory is the entry, as it was found.
pub open spec fn is_found_as(
    candidate: DirMediaCandidate,
    entry: DirEntry,
    indexed_at: Seq<char>,
) -> bool {
    &&& candidate.file_name@ == entry.name@
    &&& entry.metadata matches Some(metadata) && candidate.size_bytes == metadata.size_bytes
        && candidate.modified == metadata.modified && candidate.modified_at@ == (
    match metadata.modified {
        Some(time) => time.rfc3339(),
        None => indexed_at,
    })
}

/// A scan finds every media file of a directory: each file below the root whose extension
/// is that of one and whose metadata can be read, with its size and its time. It finds
/// nothing else, and no file twice.
pub proof fn law_every_media_file_is_found(
    contents: DirContents,
    root: Seq<char>,
    dir: Seq<char>,
    indexed_at: Seq<char>,
    entries: Seq<DirEntry>,
    i: int,
    k: int,
)
    requires
        is_contents(contents, root, dir, indexed_at, entries),
        0 <= i < entries.len(),
    ensures
        entries[i].kind == EntryKind::File && entries[i].metadata is Some && has_media_name(
            entries[i].name@,
        ) && relative_to(root, joined_path(dir, entries[i].name@)) is Some ==> exists|m: int|
            0 <= m < contents.media@.len() && is_found_as(
                #[trigger] contents.media@[m],
                entries[i],
                indexed_at,
            ) && relative_to(root, joined_path(dir, entries[i].name@)) == Some(
                contents.media@[m].relative_path@,
            ),
        0 <= k < contents.media@.len() ==> exists|e: int|
            0 <= e < entries.len() && (#[trigger] entries[e]).kind == EntryKind::File
                && has_media_name(entries[e].name@) && is_found_as(
                contents.media@[k],
                entries[e],
                indexed_at,
            ),
        contents.media@.len() <= entries.len(),
{
    let n = entries.len() as int;
    let places = media_places(entries, root, dir, n);
    lemma_media_places(entries, root, dir, n);
    lemma_extensions(entries[i].name@);
    if entries[i].kind == EntryKind::File && entries[i].metadata is Some && has_media_name(
        entries[i].name@,
    ) && relative_to(root, joined_path(dir, entries[i].name@)) is Some {
        assert(is_candidate_entry(root, dir, entries[i]));
        let m = places.index_of(i);
        assert(places[m] == i);
        assert(is_candidate(contents.media@[m], root, dir, indexed_at, entries[i], entries));
        assert(is_found_as(contents.media@[m], entries[i], indexed_at));
    }
    if 0 <= k < contents.media@.len() {
        let e = places[k];
        assert(is_candidate(contents.media@[k], root, dir, indexed_at, entries[e], entries));
        lemma_extensions(entries[e].name@);
        assert(is_found_as(contents.media@[k], entries[e], indexed_at));
    }
    lemma_media_places_are_few(entries, root, dir, n);
}

proof fn lemma_media_places_are_few(
    entries: Seq<DirEntry>,
    root: Seq<char>,
    dir: Seq<char>,
    n: int,
)
    requires
        n >= 0,
    ensures
        media_places(entries, root, dir, n).len() <= n,
    decreases n,
{
    if n > 0 {
        lemma_media_places_are_few(entries, root, dir, n - 1);
    }
}

/// The first `n` entries that are directories are walked, and nothing else: not a
/// symbolic link, whatever it points to.
pub proof fn law_only_directories_are_walked(
    entries: Seq<DirEntry>,
    dir: Seq<char>,
    n: int,
    path: Seq<char>,
)
    requires
        0 <= n <= entries.len(),
    ensures
        dir_paths(entries, dir, n).contains(path) <==> exists|i: int|
            0 <= i < n && (#[trigger] entries[i]).kind == EntryKind::Directory && path == joined_path(
                dir,
                entries[i].name@,
            ),
    decreases n,
{
    if n > 0 {
        law_only_directories_are_walked(entries, dir, n - 1, path);
        let before = dir_paths(entries, dir, n - 1);
        let after = dir_paths(entries, dir, n);
        if entries[n - 1].kind == EntryKind::Directory {
            let new = joined_path(dir, entries[n - 1].name@);
            assert(after[before.len() as int] == new);
            if before.contains(path) {
                assert(after[before.index_of(path)] == path);
            }
            if after.contains(path) && path != new {
                assert(before[after.index_of(path)] == path);
            }
        }
    }
}

/// A subtitle file belongs to a media file where its stem is that of the media file, or
/// that stem, a dot and a suffix. The suffix is what follows the dot.
pub proof fn law_subtitles_belong_by_their_stem(
    media_stem: Seq<char>,
    sub_stem: Seq<char>,
    suffix: Seq<char>,
)
    ensures
        sidecar_suffix(media_stem, media_stem) == Some(Seq::<char>::empty()),
        sidecar_suffix(media_stem, media_stem + seq!['.'] + suffix) == Some(suffix),
        sidecar_suffix(media_stem, sub_stem) matches Some(found) ==> sub_stem == media_stem
            || sub_stem == media_stem + seq!['.'] + found,
{
    let longer = media_stem + seq!['.'] + suffix;
    let n = media_stem.len() as int;
    assert(media_stem =~= longer.subrange(0, n));
    assert(longer[n] == '.');
    assert(longer.len() != media_stem.len());
    assert(longer.skip(n + 1) =~= suffix);
    if sidecar_suffix(media_stem, sub_stem) is Some && sub_stem != media_stem {
        assert(sub_stem =~= media_stem + seq!['.'] + sub_stem.skip(n + 1));
    }
}

/// The subtitle files of a directory that belong to a media file are all its tracks, each
/// once and in the order of their paths; each has the name of its file and the label and
/// the language of its suffix.
pub proof fn law_tracks_are_the_subtitles_of_the_file(
    tracks: Seq<SubtitleTrack>,
    order: Seq<int>,
    root: Seq<char>,
    dir: Seq<char>,
    media_stem: Seq<char>,
    entries: Seq<DirEntry>,
    i: int,
    k: int,
)
    requires
        lists_tracks(tracks, order, root, dir, media_stem, entries, entries.len() as int),
        0 <= i < entries.len(),
    ensures
        entries[i].kind == EntryKind::File && has_subtitle_name(entries[i].name@) && (stem_of(
            entries[i].name@,
        ) == media_stem || (media_stem + seq!['.']).is_prefix_of(stem_of(entries[i].name@)))
            && relative_to(root, joined_path(dir, entries[i].name@)) is Some ==> exists|m: int|
            0 <= m < tracks.len() && (#[trigger] tracks[m]).file_name@ == entries[i].name@
                && relative_to(root, joined_path(dir, entries[i].name@)) == Some(
                tracks[m].relative_path@,
            ),
        0 <= k < tracks.len() ==> exists|e: int|
            0 <= e < entries.len() && tracks[k].file_name@ == (#[trigger] entries[e]).name@
                && has_subtitle_name(entries[e].name@) && (stem_of(entries[e].name@) == media_stem
                || (media_stem + seq!['.']).is_prefix_of(stem_of(entries[e].name@))),
        forall|a: int, b: int|
            0 <= a < b < tracks.len() ==> text_leq(
                (#[trigger] tracks[a]).relative_path@,
                (#[trigger] tracks[b]).relative_path@,
            ),
{
    let stem = stem_of(entries[i].name@);
    lemma_extensions(entries[i].name@);
    let n = media_stem.len() as int;
    if (media_stem + seq!['.']).is_prefix_of(stem) {
        assert(stem.subrange(0, n + 1)[n] == '.');
        assert(media_stem =~= stem.subrange(0, n)) by {
            assert(stem.subrange(0, n) =~= stem.subrange(0, n + 1).take(n));
            assert((media_stem + seq!['.']).take(n) =~= media_stem);
        }
    }
    if entries[i].kind == EntryKind::File && has_subtitle_name(entries[i].name@) && (stem
        == media_stem || (media_stem + seq!['.']).is_prefix_of(stem)) && relative_to(
        root,
        joined_path(dir, entries[i].name@),
    ) is Some {
        assert(belongs(root, dir, media_stem, entries[i]));
        let m = order.index_of(i);
        assert(order[m] == i);
        assert(is_track(tracks[m], root, dir, media_stem, entries[i].name@));
    }
    if 0 <= k < tracks.len() {
        let e = order[k];
        lemma_extensions(entries[e].name@);
        let other = stem_of(entries[e].name@);
        law_subtitles_belong_by_their_stem(media_stem, other, Seq::<char>::empty());
        if other != media_stem {
            assert(media_stem + seq!['.'] =~= other.subrange(0, n + 1));
        }
        assert(tracks[k].file_name@ == entries[e].name@);
    }
    assert forall|a: int, b: int| 0 <= a < b < tracks.len() implies text_leq(
        (#[trigger] tracks[a]).relative_path@,
        (#[trigger] tracks[b]).relative_path@,
    ) by {
        assert(track_leq()(tracks[a], tracks[b]));
    }
}

/// The path of a file below a root is its path from there: a name in the root itself is
/// that name, and a name in a directory below the root is the directory's path and the
/// name.
pub proof fn law_relative_paths_lead_from_the_root(
    root: Seq<char>,
    path: Seq<char>,
    name: Seq<char>,
)
    requires
        is_plain_name(name),
        root.len() > 0,
        path.len() > 0,
    ensures
        relative_to(root, root + seq!['/'] + name) == Some(name),
        relative_to(root, path) matches Some(relative) ==> relative_to(
            root,
            path + seq!['/'] + name,
        ) == Some(relative + seq!['/'] + name),
        relative_to(root, root) is None,
{
    law_components_grow_by_a_name(root, name);
    law_components_grow_by_a_name(path, name);
    let top = components_of(root);
    let all = components_of(path);
    assert(top.push(name).skip(top.len() as int) =~= seq![name]);
    assert(top =~= top.push(name).subrange(0, top.len() as int));
    assert(joined(seq![name], "/"@) == name);
    if relative_to(root, path) is Some {
        let rest = all.skip(top.len() as int);
        assert(all.push(name).skip(top.len() as int) =~= rest.push(name));
        assert(top =~= all.push(name).subrange(0, top.len() as int)) by {
            assert(all.push(name).subrange(0, top.len() as int) =~= all.subrange(
                0,
                top.len() as int,
            ));
        }
        assert(rest.push(name).drop_last() =~= rest);
        reveal_strlit("/");
        assert("/"@ =~= seq!['/']);
    }
}

/// A file below one root is not below another that its path does not begin with.
pub proof fn law_files_outside_have_no_path(root: Seq<char>, path: Seq<char>)
    requires
        relative_to(root, path) is Some,
    ensures
        components_of(root).is_prefix_of(components_of(path)),
        components_of(root).len() < components_of(path).len(),
{
}

/// A suffix of one part is shown as that part, and is the language where it is a code of
/// one: two letters, or two and two with a hyphen. No suffix is shown as the default.
pub proof fn law_one_token_is_label_and_language(token: Seq<char>)
    requires
        token.len() > 0,
        !token.contains('.'),
    ensures
        presentation(Seq::<char>::empty()) == ("Default"@, None::<Seq<char>>),
        presentation(token).0 == humanized(token),
        presentation(token).1 == (if (token.len() == 2 && ascii_letter(token[0]) && ascii_letter(
            token[1],
        )) || (token.len() == 5 && ascii_letter(token[0]) && ascii_letter(token[1]) && token[2] == '-'
            && ascii_letter(token[3]) && ascii_letter(token[4])) {
            Some(token)
        } else {
            None
        }),
{
    let none = Seq::<char>::empty();
    lemma_pieces_of_nothing('.');
    reveal_with_fuel(tokens_upto, 2);
    assert(tokens_upto(seq![none], 1) =~= Seq::<Seq<char>>::empty());
    assert(tokens_of(none) =~= Seq::<Seq<char>>::empty());
    lemma_pieces_append(none, token, '.');
    assert(none + token =~= token);
    assert(pieces(token, '.') =~= seq![token]);
    assert(tokens_upto(seq![token], 1) =~= seq![token]);
    let tokens = tokens_of(token);
    assert(tokens =~= seq![token]);
    assert(humanized_all(tokens) =~= seq![humanized(token)]);
    assert(joined(humanized_all(tokens), " "@) == humanized(token));
    reveal_with_fuel(first_language, 2);
}

proof fn lemma_tokens_prefix(a: Seq<Seq<char>>, b: Seq<Seq<char>>, n: int)
    requires
        0 <= n <= a.len(),
        n <= b.len(),
        forall|i: int| 0 <= i < n ==> a[i] == b[i],
    ensures
        tokens_upto(a, n) == tokens_upto(b, n),
    decreases n,
{
    if n > 0 {
        lemma_tokens_prefix(a, b, n - 1);
    }
}

/// A further part of a suffix is shown behind the others. The language is that of the
/// first part that is a code of one.
pub proof fn law_further_tokens_follow(suffix: Seq<char>, token: Seq<char>)
    requires
        token.len() > 0,
        !token.contains('.'),
    ensures
        tokens_of(suffix).len() > 0 ==> presentation(suffix + seq!['.'] + token).0 == presentation(
            suffix,
        ).0 + " "@ + humanized(token),
        tokens_of(suffix).len() > 0 ==> presentation(suffix + seq!['.'] + token).1 == (
        if presentation(suffix).1 is Some {
            presentation(suffix).1
        } else if is_language_code(token) {
            Some(token)
        } else {
            None
        }),
{
    let whole = suffix + seq!['.'] + token;
    let stem = suffix.push('.');
    let none = Seq::<char>::empty();
    assert(whole =~= stem + token);
    lemma_pieces_push(suffix, '.');
    lemma_pieces_append(stem, token, '.');
    assert(none + token =~= token);
    let list = pieces(suffix, '.');
    let longer = pieces(whole, '.');
    assert(longer =~= list.push(token));
    lemma_tokens_prefix(longer, list, list.len() as int);
    let tokens = tokens_of(suffix);
    assert(tokens_of(whole) =~= tokens.push(token));
    lemma_first_language_push(tokens, token);
    let shown = humanized_all(tokens);
    assert(humanized_all(tokens.push(token)) =~= shown.push(humanized(token)));
    assert(shown.push(humanized(token)).drop_last() =~= shown);
}

/// A language code is shown in capitals, the words for forced subtitles and for those of
/// the deaf and hard of hearing as they are written, and any other part with a capital
/// first, small letters behind and spaces for hyphens and underscores.
pub proof fn law_tokens_are_shown_readably(token: Seq<char>, i: int)
    ensures
        lower(token) == "forced"@ ==> humanized(token) == "Forced"@,
        lower(token) == "sdh"@ ==> humanized(token) == "SDH"@,
        lower(token) != "forced"@ && lower(token) != "sdh"@ ==> {
            &&& is_language_code(token) ==> humanized(token) == upper(token)
            &&& !is_language_code(token) && token.len() > 0 && 1 <= i < token.len() ==> {
                &&& humanized(token).len() == token.len()
                &&& humanized(token)[0] == upper_char(token[0])
                &&& humanized(token)[i] == (if token[i] == '_' || token[i] == '-' {
                    ' '
                } else {
                    lower(token)[i]
                })
            }
        },
{
    reveal_strlit("forced");
    reveal_strlit("sdh");
    reveal_strlit(" ");
    assert(" "@ =~= seq![' ']);
    assert("forced"@.len() != "sdh"@.len());
    if token.len() > 0 {
        let rest = token.skip(1);
        law_replacing_keeps_the_rest(rest, '_', ' ');
        law_replacing_keeps_the_rest(replaced(rest, '_', " "@), '-', ' ');
        if 1 <= i < token.len() {
            assert(spaced(rest)[i - 1] == (if rest[i - 1] == '_' || rest[i - 1] == '-' {
                ' '
            } else {
                rest[i - 1]
            }));
        }
    }
}

/// Video files are sent as video and audio files as audio.
pub proof fn law_types_tell_video_from_audio(extension: Seq<char>)
    ensures
        extension == "mp4"@ || extension == "m4v"@ || extension == "mkv"@ || extension == "webm"@
            || extension == "mov"@ || extension == "avi"@ ==> (content_type_of(extension) matches
            Some(kind) && "video/"@.is_prefix_of(kind)),
        extension == "mp3"@ || extension == "flac"@ || extension == "wav"@ || extension == "m4a"@
            || extension == "aac"@ || extension == "ogg"@ ==> (content_type_of(extension) matches
            Some(kind) && "audio/"@.is_prefix_of(kind)),
        extension == "mp4"@ ==> content_type_of(extension) == Some("video/mp4"@),
        extension == "mkv"@ ==> content_type_of(extension) == Some("video/x-matroska"@),
        extension == "webm"@ ==> content_type_of(extension) == Some("video/webm"@),
        extension == "mov"@ ==> content_type_of(extension) == Some("video/quicktime"@),
        extension == "mp3"@ ==> content_type_of(extension) == Some("audio/mpeg"@),
        extension == "flac"@ ==> content_type_of(extension) == Some("audio/flac"@),
        extension == "wav"@ ==> content_type_of(extension) == Some("audio/wav"@),
        extension == "ogg"@ ==> content_type_of(extension) == Some("audio/ogg"@),
{
    reveal_strlit("mp4");
    reveal_strlit("mkv");
    reveal_strlit("webm");
    reveal_strlit("mov");
    reveal_strlit("m4v");
    reveal_strlit("avi");
    reveal_strlit("mp3");
    reveal_strlit("flac");
    reveal_strlit("wav");
    reveal_strlit("m4a");
    reveal_strlit("aac");
    reveal_strlit("ogg");
    reveal_strlit("video/");
    reveal_strlit("audio/");
    reveal_strlit("video/mp4");
    reveal_strlit("video/x-matroska");
    reveal_strlit("video/webm");
    reveal_strlit("video/quicktime");
    reveal_strlit("video/x-msvideo");
    reveal_strlit("audio/mpeg");
    reveal_strlit("audio/flac");
    reveal_strlit("audio/wav");
    reveal_strlit("audio/aac");
    reveal_strlit("audio/ogg");
    assert("mp4"@[1] == 'p' && "mp4"@[2] == '4' && "m4v"@[1] == '4' && "m4v"@[2] == 'v');
    assert("mkv"@[1] == 'k' && "mov"@[1] == 'o' && "avi"@[0] == 'a' && "avi"@[1] == 'v');
    assert("mp3"@[1] == 'p' && "mp3"@[2] == '3' && "wav"@[0] == 'w' && "m4a"@[1] == '4');
    assert("m4a"@[2] == 'a' && "aac"@[0] == 'a' && "aac"@[1] == 'a' && "ogg"@[0] == 'o');
    assert("mp4"@[0] == 'm' && "m4v"@[0] == 'm' && "mkv"@[0] == 'm' && "mov"@[0] == 'm');
    assert("mp3"@[0] == 'm' && "m4a"@[0] == 'm');
    assert("webm"@.len() == 4 && "flac"@.len() == 4 && "webm"@[0] == 'w' && "flac"@[0] == 'f');
    assert("mp4"@.len() == 3 && "m4v"@.len() == 3 && "mkv"@.len() == 3 && "mov"@.len() == 3);
    assert("avi"@.len() == 3 && "mp3"@.len() == 3 && "wav"@.len() == 3 && "m4a"@.len() == 3);
    assert("aac"@.len() == 3 && "ogg"@.len() == 3);
    assert("video/"@ =~= "video/mp4"@.subrange(0, 6));
    assert("video/"@ =~= "video/x-matroska"@.subrange(0, 6));
    assert("video/"@ =~= "video/webm"@.subrange(0, 6));
    assert("video/"@ =~= "video/quicktime"@.subrange(0, 6));
    assert("video/"@ =~= "video/x-msvideo"@.subrange(0, 6));
    assert("audio/"@ =~= "audio/mpeg"@.subrange(0, 6));
    assert("audio/"@ =~= "audio/flac"@.subrange(0, 6));
    assert("audio/"@ =~= "audio/wav"@.subrange(0, 6));
    assert("audio/"@ =~= "audio/aac"@.subrange(0, 6));
    assert("audio/"@ =~= "audio/ogg"@.subrange(0, 6));
}

/// A track has the name of its file, the path of that file below the root and its
/// extension in small letters. What its name adds to that of the media file gives its label
/// and its language; a name that adds nothing is the default.
pub proof fn law_tracks_are_labelled_by_their_suffix(
    track: SubtitleTrack,
    root: Seq<char>,
    dir: Seq<char>,
    media_stem: Seq<char>,
    name: Seq<char>,
    suffix: Seq<char>,
)
    requires
        is_track(track, root, dir, media_stem, name),
    ensures
        track.file_name@ == name,
        relative_to(root, joined_path(dir, name)) == Some(track.relative_path@),
        extension_of(name) is Some && track.extension@ == lower(extension_of(name)->0),
        stem_of(name) == media_stem ==> track.label@ == "Default"@ && track.language is None,
        stem_of(name) == media_stem + seq!['.'] + suffix ==> track.label@ == presentation(suffix).0
            && opt_text(track.language) == presentation(suffix).1,
{
    law_subtitles_belong_by_their_stem(media_stem, stem_of(name), suffix);
    let none = Seq::<char>::empty();
    lemma_pieces_of_nothing('.');
    reveal_with_fuel(tokens_upto, 2);
    assert(tokens_upto(seq![none], 1) =~= Seq::<Seq<char>>::empty());
    assert(tokens_of(none) =~= Seq::<Seq<char>>::empty());
}

} // verus!
