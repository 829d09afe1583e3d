//! Where stream copies are kept.
use crate::ids::{hex_char, hyphenated, id_text, law_identifiers_are_written_apart};
use crate::paths::{
    extension_of, file_name, file_name_of, is_plain_name, join_path, joined_path,
    law_name_and_parent_undo_joining, parent, parent_of, path_trimmed,
};
use crate::protocol::MediaItem;
use crate::text::{concat2, concat3, lemma_rfind, push_two, rfind, rsplit_once, split_last, texts};
use vstd::prelude::*;

verus! {

pub const DEFAULT_STREAM_COPY_CACHE_DIR: &'static str = "stax-stream-copies";

/// The directory that stream copies are kept in by default.
pub fn default_stream_copy_cache_dir() -> (r: String)
    ensures
        r@ == DEFAULT_STREAM_COPY_CACHE_DIR@,
{
    DEFAULT_STREAM_COPY_CACHE_DIR.to_owned()
}

/// The directory of one media item's stream copy.
pub open spec fn output_dir(cache_dir: Seq<char>, media_id: u128) -> Seq<char> {
    joined_path(cache_dir, hyphenated(media_id))
}

/// The directory of one media item's stream copy.
pub fn stream_copy_output_dir(cache_dir: &str, media_id: u128) -> (r: String)
    ensures
        r@ == output_dir(cache_dir@, media_id),
{
    join_path(cache_dir, id_text(media_id).as_str())
}

/// The name of the unfinished file beside `name`. The extension stays last, by
/// which ffmpeg chooses its muxer.
pub open spec fn temp_name(name: Seq<char>) -> Seq<char> {
    match split_last(name, '.') {
        Some((stem, extension)) => if stem.len() > 0 && extension.len() > 0 {
            stem + ".tmp."@ + extension
        } else {
            name + ".tmp"@
        },
        None => name + ".tmp"@,
    }
}

/// The path of the unfinished file beside `path`.
pub open spec fn temp_path(path: Seq<char>) -> Seq<char> {
    let directory = match parent_of(path) {
        Some(directory) => directory,
        None => Seq::empty(),
    };
    let name = match file_name_of(path) {
        Some(name) => name,
        None => "output"@,
    };
    joined_path(directory, temp_name(name))
}

/// The path of the unfinished file beside `final_path`.
pub fn temp_path_for_final(final_path: &str) -> (r: String)
    ensures
        r@ == temp_path(final_path@),
{
    let directory: &str = match parent(final_path) {
        Some(directory) => directory,
        None => {
            proof {
                reveal_strlit("");
                assert(""@ =~= Seq::<char>::empty());
            }
            ""
        },
    };
    let name: &str = match file_name(final_path) {
        Some(name) => name,
        None => "output",
    };
    let unfinished: String = match rsplit_once(name, '.') {
        Some((stem, extension)) => {
            if !stem.is_empty() && !extension.is_empty() {
                concat3(stem, ".tmp.", extension)
            } else {
                concat2(name, ".tmp")
            }
        },
        None => concat2(name, ".tmp"),
    };
    join_path(directory, unfinished.as_str())
}

/// An unfinished file never has the name of the finished one.
pub proof fn law_temp_name_differs(name: Seq<char>)
    ensures
        temp_name(name) != name,
        temp_name(name).len() == name.len() + 4,
{
    reveal_strlit(".tmp");
    reveal_strlit(".tmp.");
    crate::text::lemma_rfind(name, '.');
}

/// The files of one stream copy.
#[derive(Debug, PartialEq, Eq)]
pub struct StreamCopyPaths {
    pub output_dir: String,
    pub final_output: String,
    pub temp_output: String,
    pub final_subtitle: String,
    pub temp_subtitle: String,
    pub content_type: &'static str,
}

/// The file name and the content type of a stream copy: a video file, or an
/// audio file where there is no video.
pub open spec fn output_kind(has_video: bool) -> (Seq<char>, Seq<char>) {
    if has_video {
        ("stream.mp4"@, "video/mp4"@)
    } else {
        ("stream.m4a"@, "audio/mp4"@)
    }
}

/// Decides where the stream copy of a media item goes.
pub fn plan_stream_copy_paths(media_item: &MediaItem, cache_dir: &str) -> (r: StreamCopyPaths)
    ensures
        r.output_dir@ == output_dir(cache_dir@, media_item.id),
        r.final_output@ == joined_path(
            r.output_dir@,
            output_kind(media_item.video_codec is Some).0,
        ),
        r.temp_output@ == temp_path(r.final_output@),
        r.final_subtitle@ == joined_path(r.output_dir@, "subtitle.vtt"@),
        r.temp_subtitle@ == temp_path(r.final_subtitle@),
        r.content_type@ == output_kind(media_item.video_codec is Some).1,
{
    let output_dir: String = stream_copy_output_dir(cache_dir, media_item.id);
    let (output_name, content_type): (&'static str, &'static str) =
        if media_item.video_codec.is_some() {
        ("stream.mp4", "video/mp4")
    } else {
        ("stream.m4a", "audio/mp4")
    };
    let final_output: String = join_path(output_dir.as_str(), output_name);
    let temp_output: String = temp_path_for_final(final_output.as_str());
    let final_subtitle: String = join_path(output_dir.as_str(), "subtitle.vtt");
    let temp_subtitle: String = temp_path_for_final(final_subtitle.as_str());
    StreamCopyPaths {
        output_dir,
        final_output,
        temp_output,
        final_subtitle,
        temp_subtitle,
        content_type,
    }
}

/// The files of one stream copy, finished and unfinished.
pub open spec fn build_files(paths: StreamCopyPaths) -> Seq<Seq<char>> {
    seq![
        paths.temp_output@,
        paths.temp_subtitle@,
        paths.final_output@,
        paths.final_subtitle@,
    ]
}

/// The files that a failed stream copy leaves behind, finished and unfinished.
pub fn files_to_remove(paths: &StreamCopyPaths) -> (r: Vec<String>)
    ensures
        texts(r@) == build_files(*paths),
{
    let mut files: Vec<String> = Vec::new();
    push_two(&mut files, paths.temp_output.as_str(), paths.temp_subtitle.as_str());
    push_two(&mut files, paths.final_output.as_str(), paths.final_subtitle.as_str());
    assert(texts(files@) =~= build_files(*paths));
    files
}

/// The unfinished file lies beside the finished one and has its extension, by which
/// ffmpeg chooses the format.
pub proof fn law_temp_file_is_beside_the_finished_one(dir: Seq<char>, name: Seq<char>)
    requires
        is_plain_name(name),
        dir.len() > 0,
        path_trimmed(dir) == dir,
    ensures
        temp_path(joined_path(dir, name)) == joined_path(dir, temp_name(name)),
        temp_path(joined_path(dir, name)) != joined_path(dir, name),
        extension_of(name) is Some && extension_of(name)->0.len() > 0 ==> extension_of(
            temp_name(name),
        ) == extension_of(name),
{
    law_name_and_parent_undo_joining(dir, name);
    law_temp_name_differs(name);
    lemma_rfind(name, '.');
    assert(name.contains(name[0]));
    reveal_strlit(".tmp.");
    reveal_strlit(".tmp");
    reveal_strlit("/");
    let temp = temp_name(name);
    let i = rfind(name, '.');
    let a = joined_path(dir, name);
    let b = joined_path(dir, temp);
    assert(temp[0] == name[0]);
    assert(a.len() != b.len());
    if i > 0 && i + 1 < name.len() {
        let extension = name.skip(i + 1);
        assert(temp =~= name.take(i) + ".tmp."@ + extension);
        lemma_rfind(temp, '.');
        assert(temp[i + 4] == '.');
        assert forall|k: int| i + 4 < k < temp.len() implies temp[k] != '.' by {
            assert(temp[k] == name[k - 4]);
        }
        assert(rfind(temp, '.') == i + 4);
        assert(temp.skip(i + 5) =~= extension);
    }
}

/// Media items have their stream copies in different directories.
pub proof fn law_copies_have_their_own_directories(cache_dir: Seq<char>, a: u128, b: u128)
    requires
        output_dir(cache_dir, a) == output_dir(cache_dir, b),
    ensures
        a == b,
{
    let x = output_dir(cache_dir, a);
    let n = x.len() as int;
    lemma_identifier_is_no_path(a);
    lemma_identifier_is_no_path(b);
    assert(hyphenated(a) =~= x.subrange(n - 36, n));
    assert(hyphenated(b) =~= x.subrange(n - 36, n));
    law_identifiers_are_written_apart(a, b);
}

proof fn lemma_identifier_is_no_path(id: u128)
    ensures
        hyphenated(id).len() == 36,
        hyphenated(id)[0] != '/',
{
    let digit = (id as int / vstd::arithmetic::power::pow(16, 31)) % 16;
    assert(hyphenated(id)[0] == hex_char(digit));
    assert(0 <= digit < 16);
}

/// A copy with video is an MP4 video and one without is an MP4 audio file.
pub proof fn law_copies_are_named_by_their_kind(has_video: bool)
    ensures
        has_video ==> output_kind(has_video) == ("stream.mp4"@, "video/mp4"@),
        !has_video ==> output_kind(has_video) == ("stream.m4a"@, "audio/mp4"@),
{
}

/// The files of a copy lie in the directory of its item, the unfinished ones beside the
/// finished ones; a failed copy removes all four.
pub proof fn law_copies_lie_in_their_directory(
    item: &MediaItem,
    cache_dir: &str,
    r: StreamCopyPaths,
    files: Vec<String>,
)
    requires
        call_ensures(plan_stream_copy_paths, (item, cache_dir), r),
        call_ensures(files_to_remove, (&r,), files),
    ensures
        r.output_dir@ == joined_path(cache_dir@, hyphenated(item.id)),
        item.video_codec is Some ==> r.final_output@ == joined_path(r.output_dir@, "stream.mp4"@)
            && r.content_type@ == "video/mp4"@,
        item.video_codec is None ==> r.final_output@ == joined_path(r.output_dir@, "stream.m4a"@)
            && r.content_type@ == "audio/mp4"@,
        r.final_subtitle@ == joined_path(r.output_dir@, "subtitle.vtt"@),
        texts(files@).contains(r.temp_output@) && texts(files@).contains(r.final_output@) && texts(
            files@,
        ).contains(r.temp_subtitle@) && texts(files@).contains(r.final_subtitle@),
        files@.len() == 4,
{
    let list = texts(files@);
    assert(list[0] == r.temp_output@ && list[1] == r.temp_subtitle@);
    assert(list[2] == r.final_output@ && list[3] == r.final_subtitle@);
    assert(list.len() == files@.len());
}

} // verus!
