//! What a scan writes: the row of each media file, the rows that go, and the
//! roots that come and go.
use crate::ids::{hyphenated, id_text, is_random_id, random_id};
use crate::library::walk::{
    content_type_for_extension, content_type_of, DirMediaCandidate, WalkOutcome,
};
use crate::persistence::records::{
    CachedMediaRecord, CachedProbeFields, LibrarySnapshot, LibraryStatusSnapshot, WalkRecord,
};
use crate::protocol::{
    copy_audio_streams, copy_subtitle_streams, AudioStream, LibraryResponse, LibraryScanResponse,
    LibraryStatusResponse, PlaybackMode, SubtitleStream,
};
use crate::text::{
    all_digits, concat2, concat3, copy_opt, decimal, decimal_text, join, joined, lemma_decimal,
    numeral_value, opt_text, push_text, same_text, texts,
};
use vstd::prelude::*;

verus! {

/// Whether a stored row can stand for a file without a new probe: size and
/// modification time are the same, and the last probe succeeded.
pub open spec fn is_unchanged(record: CachedMediaRecord, candidate: DirMediaCandidate) -> bool {
    &&& record.size_bytes == candidate.size_bytes
    &&& record.modified_at@ == candidate.modified_at@
    &&& record.probe_error is None
    &&& record.probed_at is Some
}

/// Whether `fields` is the probe data of `record`.
pub open spec fn is_carried_over(fields: CachedProbeFields, record: CachedMediaRecord) -> bool {
    &&& fields.probed_at == record.probed_at
    &&& fields.probe_error == record.probe_error
    &&& fields.duration_millis == record.duration_millis
    &&& fields.container_name == record.container_name
    &&& fields.video_codec == record.video_codec
    &&& fields.audio_codec == record.audio_codec
    &&& fields.width == record.width
    &&& fields.height == record.height
    &&& fields.playback_mode == record.playback_mode
    &&& fields.video_profile == record.video_profile
    &&& fields.video_level == record.video_level
    &&& fields.video_pix_fmt == record.video_pix_fmt
    &&& fields.video_bit_depth == record.video_bit_depth
    &&& fields.audio_streams@ == record.audio_streams@
    &&& fields.subtitle_streams@ == record.subtitle_streams@
}

fn carry_over(record: &CachedMediaRecord) -> (r: CachedProbeFields)
    ensures
        is_carried_over(r, *record),
{
    CachedProbeFields {
        probed_at: copy_opt(&record.probed_at),
        probe_error: copy_opt(&record.probe_error),
        duration_millis: record.duration_millis,
        container_name: copy_opt(&record.container_name),
        video_codec: copy_opt(&record.video_codec),
        audio_codec: copy_opt(&record.audio_codec),
        width: record.width,
        height: record.height,
        playback_mode: record.playback_mode,
        video_profile: copy_opt(&record.video_profile),
        video_level: record.video_level,
        video_pix_fmt: copy_opt(&record.video_pix_fmt),
        video_bit_depth: record.video_bit_depth,
        audio_streams: copy_audio_streams(&record.audio_streams),
        subtitle_streams: copy_subtitle_streams(&record.subtitle_streams),
    }
}

/// What is known of the thumbnail of an unchanged file: generated now where
/// the cached one is fresh, and otherwise nothing yet.
pub open spec fn carried_thumbnail(
    unchanged: bool,
    thumbnail_is_fresh: bool,
    now: Seq<char>,
) -> Option<(Option<Seq<char>>, Option<Seq<char>>)> {
    if !unchanged {
        None
    } else if thumbnail_is_fresh {
        Some((Some(now), None))
    } else {
        Some((None, None))
    }
}

/// A thumbnail outcome as plain values.
pub open spec fn thumbnail_texts(value: Option<(Option<String>, Option<String>)>) -> Option<
    (Option<Seq<char>>, Option<Seq<char>>),
> {
    match value {
        Some((generated, error)) => Some((opt_text(generated), opt_text(error))),
        None => None,
    }
}

/// Whether `record` is the row of a file with identifier `id`. `prior` is the
/// stored row of the same path, if there is one.
pub open spec fn is_walk_record(
    record: WalkRecord,
    id: u128,
    prior: Option<CachedMediaRecord>,
    candidate: DirMediaCandidate,
    root_path: Seq<char>,
    indexed_at: Seq<char>,
    thumbnail_is_fresh: bool,
    now: Seq<char>,
) -> bool {
    let unchanged = prior is Some && is_unchanged(prior->0, candidate);
    &&& record.id == id
    &&& record.root_path@ == root_path
    &&& record.relative_path == candidate.relative_path
    &&& record.file_name == candidate.file_name
    &&& record.extension == candidate.extension
    &&& record.size_bytes == candidate.size_bytes
    &&& record.modified_at == candidate.modified_at
    &&& record.indexed_at@ == indexed_at
    &&& opt_text(record.content_type) == (match candidate.extension {
        Some(ext) => content_type_of(ext@),
        None => None,
    })
    &&& record.subtitle_tracks == candidate.subtitle_tracks
    &&& record.cached_probe is Some == unchanged
    &&& record.cached_probe matches Some(fields) ==> is_carried_over(fields, prior->0)
    &&& thumbnail_texts(record.cached_thumbnail) == carried_thumbnail(
        unchanged,
        thumbnail_is_fresh,
        now,
    )
}

/// Builds the row of a file that gets `new_id` where no row of its path is
/// stored. The flag says whether the probe data was carried over.
pub fn build_walk_record_with_id(
    new_id: u128,
    prior: Option<&CachedMediaRecord>,
    candidate: DirMediaCandidate,
    root_path: &str,
    indexed_at: &str,
    thumbnail_is_fresh: bool,
    now: &str,
) -> (r: (WalkRecord, bool))
    ensures
        is_walk_record(
            r.0,
            (match prior {
                Some(record) => record.id,
                None => new_id,
            }),
            (match prior {
                Some(record) => Some(*record),
                None => None,
            }),
            candidate,
            root_path@,
            indexed_at@,
            thumbnail_is_fresh,
            now@,
        ),
        r.1 == r.0.cached_probe is Some,
{
    let (id, cached): (u128, Option<CachedProbeFields>) = match prior {
        Some(record) => {
            let unchanged: bool = record.size_bytes == candidate.size_bytes && same_text(
                record.modified_at.as_str(),
                candidate.modified_at.as_str(),
            ) && record.probe_error.is_none() && record.probed_at.is_some();
            (
                record.id,
                if unchanged {
                    Some(carry_over(record))
                } else {
                    None
                },
            )
        },
        None => (new_id, None),
    };
    let is_cache_hit: bool = cached.is_some();
    let cached_thumbnail: Option<(Option<String>, Option<String>)> = if is_cache_hit {
        if thumbnail_is_fresh {
            Some((Some(now.to_owned()), None))
        } else {
            Some((None, None))
        }
    } else {
        None
    };
    let content_type: Option<String> = match &candidate.extension {
        Some(ext) => match content_type_for_extension(ext.as_str()) {
            Some(value) => Some(value.to_owned()),
            None => None,
        },
        None => None,
    };
    (
        WalkRecord {
            id,
            root_path: root_path.to_owned(),
            relative_path: candidate.relative_path,
            file_name: candidate.file_name,
            extension: candidate.extension,
            size_bytes: candidate.size_bytes,
            modified_at: candidate.modified_at,
            indexed_at: indexed_at.to_owned(),
            content_type,
            subtitle_tracks: candidate.subtitle_tracks,
            cached_probe: cached,
            cached_thumbnail,
        },
        is_cache_hit,
    )
}

/// Builds the row of a file: with the identifier of the stored row of its path,
/// or a random one.
pub fn build_walk_record(
    prior: Option<&CachedMediaRecord>,
    candidate: DirMediaCandidate,
    root_path: &str,
    indexed_at: &str,
    thumbnail_is_fresh: bool,
    now: &str,
) -> (r: (WalkRecord, bool))
    ensures
        prior matches Some(record) ==> is_walk_record(
            r.0,
            record.id,
            Some(*record),
            candidate,
            root_path@,
            indexed_at@,
            thumbnail_is_fresh,
            now@,
        ),
        prior is None ==> is_random_id(r.0.id) && is_walk_record(
            r.0,
            r.0.id,
            None,
            candidate,
            root_path@,
            indexed_at@,
            thumbnail_is_fresh,
            now@,
        ),
        r.1 == r.0.cached_probe is Some,
{
    let new_id: u128 = match prior {
        Some(_) => 0,
        None => random_id(),
    };
    build_walk_record_with_id(
        new_id,
        prior,
        candidate,
        root_path,
        indexed_at,
        thumbnail_is_fresh,
        now,
    )
}

/// A file keeps its identifier as long as its path does, changed or not.
pub proof fn law_identifier_is_stable(
    record: WalkRecord,
    prior: CachedMediaRecord,
    candidate: DirMediaCandidate,
    root_path: Seq<char>,
    indexed_at: Seq<char>,
    thumbnail_is_fresh: bool,
    now: Seq<char>,
)
    requires
        is_walk_record(
            record,
            prior.id,
            Some(prior),
            candidate,
            root_path,
            indexed_at,
            thumbnail_is_fresh,
            now,
        ),
    ensures
        record.id == prior.id,
        record.cached_probe is Some <==> is_unchanged(prior, candidate),
{
}

/// The values of the probe and thumbnail columns that a walk writes.
#[derive(Debug, PartialEq, Eq)]
pub struct WalkColumns {
    pub duration_millis: Option<i64>,
    pub container_name: Option<String>,
    pub video_codec: Option<String>,
    pub audio_codec: Option<String>,
    pub width: Option<u32>,
    pub height: Option<u32>,
    pub probed_at: Option<String>,
    pub probe_error: Option<String>,
    pub playback_mode: &'static str,
    pub video_profile: Option<String>,
    pub video_level: Option<u32>,
    pub video_pix_fmt: Option<String>,
    pub video_bit_depth: Option<u8>,
    pub audio_streams: Vec<AudioStream>,
    pub subtitle_streams: Vec<SubtitleStream>,
    pub thumbnail_generated_at: Option<String>,
    pub thumbnail_error: Option<String>,
}

/// Whether the probe columns hold the given probe data.
pub open spec fn holds_probe(columns: WalkColumns, fields: CachedProbeFields) -> bool {
    &&& columns.duration_millis == fields.duration_millis
    &&& columns.container_name == fields.container_name
    &&& columns.video_codec == fields.video_codec
    &&& columns.audio_codec == fields.audio_codec
    &&& columns.width == fields.width
    &&& columns.height == fields.height
    &&& columns.probed_at == fields.probed_at
    &&& columns.probe_error == fields.probe_error
    &&& columns.playback_mode@ == fields.playback_mode.name()
    &&& columns.video_profile == fields.video_profile
    &&& columns.video_level == fields.video_level
    &&& columns.video_pix_fmt == fields.video_pix_fmt
    &&& columns.video_bit_depth == fields.video_bit_depth
    &&& columns.audio_streams@ == fields.audio_streams@
    &&& columns.subtitle_streams@ == fields.subtitle_streams@
}

/// Whether the probe columns are those of a file that is still to be probed.
pub open spec fn holds_no_probe(columns: WalkColumns) -> bool {
    &&& columns.duration_millis is None
    &&& columns.container_name is None
    &&& columns.video_codec is None
    &&& columns.audio_codec is None
    &&& columns.width is None
    &&& columns.height is None
    &&& columns.probed_at is None
    &&& columns.probe_error is None
    &&& columns.playback_mode@ == PlaybackMode::Direct.name()
    &&& columns.video_profile is None
    &&& columns.video_level is None
    &&& columns.video_pix_fmt is None
    &&& columns.video_bit_depth is None
    &&& columns.audio_streams@.len() == 0
    &&& columns.subtitle_streams@.len() == 0
}

/// Whether `columns` are the probe and thumbnail columns of a walk record.
pub open spec fn are_columns_of(columns: WalkColumns, record: WalkRecord) -> bool {
    &&& record.cached_probe matches Some(fields) ==> holds_probe(columns, fields)
    &&& record.cached_probe is None ==> holds_no_probe(columns)
    &&& (columns.thumbnail_generated_at, columns.thumbnail_error) == (
    match record.cached_thumbnail {
        Some(outcome) => if record.cached_probe is Some {
            outcome
        } else {
            (None, None)
        },
        None => (None, None),
    })
}

/// The probe and thumbnail columns that a walk writes for a file. Probe data
/// that was carried over is kept as it is; without it the file is pending
/// again, and so is its thumbnail.
pub fn upsert_walk_record(record: &WalkRecord) -> (r: WalkColumns)
    ensures
        are_columns_of(r, *record),
{
    let (thumbnail_generated_at, thumbnail_error): (Option<String>, Option<String>) =
        match &record.cached_thumbnail {
        Some((generated_at, error)) => {
            if record.cached_probe.is_some() {
                (copy_opt(generated_at), copy_opt(error))
            } else {
                (None, None)
            }
        },
        None => (None, None),
    };
    match &record.cached_probe {
        Some(fields) => WalkColumns {
            duration_millis: fields.duration_millis,
            container_name: copy_opt(&fields.container_name),
            video_codec: copy_opt(&fields.video_codec),
            audio_codec: copy_opt(&fields.audio_codec),
            width: fields.width,
            height: fields.height,
            probed_at: copy_opt(&fields.probed_at),
            probe_error: copy_opt(&fields.probe_error),
            playback_mode: fields.playback_mode.as_str(),
            video_profile: copy_opt(&fields.video_profile),
            video_level: fields.video_level,
            video_pix_fmt: copy_opt(&fields.video_pix_fmt),
            video_bit_depth: fields.video_bit_depth,
            audio_streams: copy_audio_streams(&fields.audio_streams),
            subtitle_streams: copy_subtitle_streams(&fields.subtitle_streams),
            thumbnail_generated_at,
            thumbnail_error,
        },
        None => WalkColumns {
            duration_millis: None,
            container_name: None,
            video_codec: None,
            audio_codec: None,
            width: None,
            height: None,
            probed_at: None,
            probe_error: None,
            playback_mode: PlaybackMode::Direct.as_str(),
            video_profile: None,
            video_level: None,
            video_pix_fmt: None,
            video_bit_depth: None,
            audio_streams: Vec::new(),
            subtitle_streams: Vec::new(),
            thumbnail_generated_at,
            thumbnail_error,
        },
    }
}

/// Whether a file is to be probed: it was neither probed nor did a probe fail.
pub open spec fn needs_probe(probed_at: Option<String>, probe_error: Option<String>) -> bool {
    probed_at is None && probe_error is None
}

/// Whether a file is to get a thumbnail: it was probed without failure, and no
/// thumbnail was made or failed.
pub open spec fn needs_thumbnail(
    generated_at: Option<String>,
    thumbnail_error: Option<String>,
    probed_at: Option<String>,
    probe_error: Option<String>,
) -> bool {
    generated_at is None && thumbnail_error is None && probed_at is Some && probe_error is None
}

/// A changed or new file is probed again before it gets a thumbnail; an
/// unchanged one is not probed, and gets a thumbnail only where the cached one
/// is stale.
pub proof fn law_only_changed_files_are_probed(
    record: WalkRecord,
    id: u128,
    prior: Option<CachedMediaRecord>,
    candidate: DirMediaCandidate,
    root_path: Seq<char>,
    indexed_at: Seq<char>,
    fresh: bool,
    now: Seq<char>,
    columns: WalkColumns,
)
    requires
        is_walk_record(record, id, prior, candidate, root_path, indexed_at, fresh, now),
        are_columns_of(columns, record),
    ensures
        needs_probe(columns.probed_at, columns.probe_error) <==> !(prior is Some && is_unchanged(
            prior->0,
            candidate,
        )),
        needs_thumbnail(
            columns.thumbnail_generated_at,
            columns.thumbnail_error,
            columns.probed_at,
            columns.probe_error,
        ) <==> prior is Some && is_unchanged(prior->0, candidate) && !fresh,
{
}

/// What a walk has come to so far.
#[derive(Debug)]
pub struct WalkStats {
    pub kept_ids: Vec<u128>,
    pub cached: usize,
    pub pending: usize,
}

impl WalkStats {
    /// Whether every kept file counts either as cached or as pending.
    pub open spec fn wf(self) -> bool {
        self.cached + self.pending == self.kept_ids@.len()
    }

    pub fn new() -> (r: WalkStats)
        ensures
            r.wf(),
            r.kept_ids@.len() == 0,
            r.cached == 0,
            r.pending == 0,
    {
        WalkStats { kept_ids: Vec::new(), cached: 0, pending: 0 }
    }

    /// Counts one file whose row was written.
    pub fn note(&mut self, id: u128, is_cached: bool)
        requires
            old(self).wf(),
            old(self).kept_ids@.len() < usize::MAX,
        ensures
            final(self).wf(),
            final(self).kept_ids@ == old(self).kept_ids@.push(id),
            final(self).cached == old(self).cached + (if is_cached {
                1int
            } else {
                0
            }),
    {
        self.kept_ids.push(id);
        if is_cached {
            self.cached = self.cached + 1;
        } else {
            self.pending = self.pending + 1;
        }
    }

    /// Adds what the walk of a subdirectory came to.
    pub fn merge(&mut self, other: WalkStats)
        requires
            old(self).wf(),
            other.wf(),
            old(self).kept_ids@.len() + other.kept_ids@.len() <= usize::MAX,
        ensures
            final(self).wf(),
            final(self).kept_ids@ == old(self).kept_ids@ + other.kept_ids@,
            final(self).cached == old(self).cached + other.cached,
            final(self).pending == old(self).pending + other.pending,
    {
        let mut other_ids: Vec<u128> = other.kept_ids;
        self.kept_ids.append(&mut other_ids);
        self.cached = self.cached + other.cached;
        self.pending = self.pending + other.pending;
    }

    /// What the walk of a library root came to.
    pub fn outcome(&self, elapsed_ms: u64) -> (r: WalkOutcome)
        requires
            self.wf(),
        ensures
            r.total == self.kept_ids@.len(),
            r.cached == self.cached,
            r.pending == self.pending,
            r.elapsed_ms == elapsed_ms,
            r.total == r.cached + r.pending,
    {
        WalkOutcome {
            total: self.kept_ids.len(),
            cached: self.cached,
            pending: self.pending,
            elapsed_ms,
        }
    }
}

/// Why a library root cannot be walked, if it cannot. `error` is what reading
/// it failed with.
pub fn check_root(root_path: &str, error: Option<&str>, is_dir: bool) -> (r: Result<(), String>)
    ensures
        match error {
            Some(text) => r matches Err(message) && message@ == "could not read library root '"@
                + root_path@ + "': "@ + text@,
            None => if is_dir {
                r is Ok
            } else {
                r matches Err(message) && message@ == "library root '"@ + root_path@
                    + "' is not a directory"@
            },
        },
{
    match error {
        Some(text) => Err(concat3("could not read library root '", root_path, "': ").concat(text)),
        None => {
            if is_dir {
                Ok(())
            } else {
                Err(concat3("library root '", root_path, "' is not a directory"))
            }
        },
    }
}

/// The texts of identifiers.
pub open spec fn id_texts(ids: Seq<u128>) -> Seq<Seq<char>> {
    ids.map_values(|id: u128| hyphenated(id))
}

/// The stored identifiers among the first `n` that are not kept.
pub open spec fn missing_upto(existing: Seq<Seq<char>>, kept: Seq<Seq<char>>, n: int) -> Seq<
    Seq<char>,
>
    decreases n,
{
    if n <= 0 {
        seq![]
    } else if kept.contains(existing[n - 1]) {
        missing_upto(existing, kept, n - 1)
    } else {
        missing_upto(existing, kept, n - 1).push(existing[n - 1])
    }
}

fn contains_text_in(list: &Vec<String>, text: &str) -> (r: bool)
    ensures
        r == texts(list@).contains(text@),
{
    let mut i: usize = 0;
    while i < list.len()
        invariant
            i <= list@.len(),
            forall|k: int| 0 <= k < i ==> texts(list@)[k] != text@,
        decreases list@.len() - i,
    {
        assert(texts(list@)[i as int] == list@[i as int]@);
        if same_text(list[i].as_str(), text) {
            return true;
        }
        i = i + 1;
    }
    assert(texts(list@).len() == list@.len());
    false
}

/// The stored identifiers of a root whose files a walk did not find, in the
/// order in which they are stored.
pub fn prune_missing_paths(existing_ids: &Vec<String>, kept_ids: &Vec<u128>) -> (r: Vec<String>)
    ensures
        texts(r@) == missing_upto(
            texts(existing_ids@),
            id_texts(kept_ids@),
            existing_ids@.len() as int,
        ),
{
    let mut kept: Vec<String> = Vec::new();
    let mut i: usize = 0;
    while i < kept_ids.len()
        invariant
            i <= kept_ids@.len(),
            texts(kept@) =~= id_texts(kept_ids@).take(i as int),
        decreases kept_ids@.len() - i,
    {
        let text: String = id_text(kept_ids[i]);
        push_text(&mut kept, text.as_str());
        i = i + 1;
    }
    assert(texts(kept@) =~= id_texts(kept_ids@));
    let mut missing: Vec<String> = Vec::new();
    let mut k: usize = 0;
    assert(texts(missing@) =~= missing_upto(texts(existing_ids@), id_texts(kept_ids@), 0));
    while k < existing_ids.len()
        invariant
            k <= existing_ids@.len(),
            texts(kept@) == id_texts(kept_ids@),
            texts(missing@) == missing_upto(
                texts(existing_ids@),
                id_texts(kept_ids@),
                k as int,
            ),
        decreases existing_ids@.len() - k,
    {
        let id: &str = existing_ids[k].as_str();
        assert(texts(existing_ids@)[k as int] == id@);
        if !contains_text_in(&kept, id) {
            push_text(&mut missing, id);
        }
        k = k + 1;
    }
    missing
}

/// A walk keeps exactly the stored rows of the files that it found.
pub proof fn law_pruning_keeps_what_was_found(
    existing: Seq<Seq<char>>,
    kept: Seq<Seq<char>>,
    id: Seq<char>,
)
    ensures
        missing_upto(existing, kept, existing.len() as int).contains(id) <==> existing.contains(id)
            && !kept.contains(id),
{
    lemma_missing(existing, kept, existing.len() as int, id);
    if existing.contains(id) {
        let i = choose|i: int| 0 <= i < existing.len() && existing[i] == id;
        assert(existing.take(existing.len() as int)[i] == id);
    }
    assert(existing.take(existing.len() as int) =~= existing);
}

proof fn lemma_missing(existing: Seq<Seq<char>>, kept: Seq<Seq<char>>, n: int, id: Seq<char>)
    requires
        0 <= n <= existing.len(),
    ensures
        missing_upto(existing, kept, n).contains(id) <==> existing.take(n).contains(id)
            && !kept.contains(id),
    decreases n,
{
    if n > 0 {
        lemma_missing(existing, kept, n - 1, id);
        let before = missing_upto(existing, kept, n - 1);
        let last = existing[n - 1];
        assert(existing.take(n) =~= existing.take(n - 1).push(last));
        assert(existing.take(n).contains(id) <==> existing.take(n - 1).contains(id) || id == last)
            by {
            if existing.take(n - 1).contains(id) {
                let start = existing.take(n - 1);
                let i = choose|i: int| 0 <= i < start.len() && start[i] == id;
                assert(existing.take(n)[i] == id);
            }
            if id == last {
                assert(existing.take(n)[n - 1] == id);
            }
        }
        assert(before.push(last).contains(id) <==> before.contains(id) || id == last) by {
            if before.contains(id) {
                let i = choose|i: int| 0 <= i < before.len() && before[i] == id;
                assert(before.push(last)[i] == id);
            }
            if id == last {
                assert(before.push(last)[before.len() as int] == id);
            }
        }
    }
}

/// How many rows one statement removes at most.
pub const PRUNE_CHUNK: usize = 500;

/// The numbered placeholders of a statement with `count` parameters.
pub open spec fn placeholder_list(count: nat) -> Seq<Seq<char>> {
    Seq::new(count, |i: int| "?"@ + decimal((i + 1) as nat))
}

/// The statement that removes `count` rows by identifier.
pub fn prune_statement(count: usize) -> (r: String)
    requires
        count < usize::MAX,
    ensures
        r@ == "DELETE FROM media_items WHERE id IN ("@ + joined(
            placeholder_list(count as nat),
            ", "@,
        ) + ")"@,
{
    let mut placeholders: Vec<String> = Vec::new();
    let mut i: usize = 0;
    while i < count
        invariant
            i <= count,
            count < usize::MAX,
            texts(placeholders@) =~= placeholder_list(count as nat).take(i as int),
        decreases count - i,
    {
        let placeholder: String = concat2("?", decimal_text((i + 1) as u64).as_str());
        push_text(&mut placeholders, placeholder.as_str());
        i = i + 1;
    }
    assert(texts(placeholders@) =~= placeholder_list(count as nat));
    let list: String = join(&placeholders, ", ");
    concat3("DELETE FROM media_items WHERE id IN (", list.as_str(), ")")
}

/// The roots that a change of configuration adds and removes.
#[derive(Debug, PartialEq, Eq)]
pub struct RootSync {
    pub added: Vec<String>,
    pub removed: Vec<String>,
}

/// The texts of a list that are not in another.
pub open spec fn not_in(list: Seq<Seq<char>>, other: Seq<Seq<char>>) -> Seq<Seq<char>> {
    missing_upto(list, other, list.len() as int)
}

fn texts_not_in(list: &Vec<String>, other: &Vec<String>) -> (r: Vec<String>)
    ensures
        texts(r@) == not_in(texts(list@), texts(other@)),
{
    let mut r: Vec<String> = Vec::new();
    let mut k: usize = 0;
    assert(texts(r@) =~= missing_upto(texts(list@), texts(other@), 0));
    while k < list.len()
        invariant
            k <= list@.len(),
            texts(r@) == missing_upto(texts(list@), texts(other@), k as int),
        decreases list@.len() - k,
    {
        let text: &str = list[k].as_str();
        assert(texts(list@)[k as int] == text@);
        if !contains_text_in(other, text) {
            push_text(&mut r, text);
        }
        k = k + 1;
    }
    assert(texts(list@).len() == list@.len());
    r
}

/// What the stored roots lack of the configured ones, and what they have
/// beyond them. The library changes where there is either.
pub fn sync_library_roots(existing_paths: &Vec<String>, configured_paths: &Vec<String>) -> (r:
    RootSync)
    ensures
        texts(r.added@) == not_in(texts(configured_paths@), texts(existing_paths@)),
        texts(r.removed@) == not_in(texts(existing_paths@), texts(configured_paths@)),
{
    RootSync {
        added: texts_not_in(configured_paths, existing_paths),
        removed: texts_not_in(existing_paths, configured_paths),
    }
}

/// After the additions and removals, the stored roots are the configured ones.
pub proof fn law_sync_reaches_configuration(
    existing: Seq<Seq<char>>,
    configured: Seq<Seq<char>>,
    path: Seq<char>,
)
    ensures
        ((existing.contains(path) && !not_in(existing, configured).contains(path)) || not_in(
            configured,
            existing,
        ).contains(path)) <==> configured.contains(path),
{
    law_pruning_keeps_what_was_found(existing, configured, path);
    law_pruning_keeps_what_was_found(configured, existing, path);
}

impl LibrarySnapshot {
    /// The library listing.
    pub fn into_response(self, status: LibraryStatusSnapshot) -> (r: LibraryResponse)
        ensures
            r.revision == status.revision,
            r.has_pending_background_work == status.has_pending_background_work,
            r.roots == self.roots,
            r.items == self.items,
    {
        LibraryResponse {
            revision: status.revision,
            has_pending_background_work: status.has_pending_background_work,
            roots: self.roots,
            items: self.items,
        }
    }

    /// The answer to a finished scan.
    pub fn into_scan_response(self, status: LibraryStatusSnapshot, scanned_at: String) -> (r:
        LibraryScanResponse)
        ensures
            r.revision == status.revision,
            r.has_pending_background_work == status.has_pending_background_work,
            r.roots == self.roots,
            r.items == self.items,
            r.scanned_root_count == self.roots@.len(),
            r.indexed_item_count == self.items@.len(),
            r.scanned_at == scanned_at,
    {
        let scanned_root_count: usize = self.roots.len();
        let indexed_item_count: usize = self.items.len();
        LibraryScanResponse {
            revision: status.revision,
            has_pending_background_work: status.has_pending_background_work,
            roots: self.roots,
            items: self.items,
            scanned_root_count,
            indexed_item_count,
            scanned_at,
        }
    }
}

impl LibraryStatusSnapshot {
    /// The library status.
    pub fn into_response(self) -> (r: LibraryStatusResponse)
        ensures
            r.revision == self.revision,
            r.has_pending_background_work == self.has_pending_background_work,
    {
        LibraryStatusResponse {
            revision: self.revision,
            has_pending_background_work: self.has_pending_background_work,
        }
    }
}

/// A file is taken for unchanged exactly where its size and its modification time are
/// those of its stored row, and that row holds the data of a probe that succeeded. What
/// is stored of it afterwards is what was stored before.
pub proof fn law_unchanged_files_keep_their_data(
    record: WalkRecord,
    id: u128,
    prior: CachedMediaRecord,
    candidate: DirMediaCandidate,
    root_path: Seq<char>,
    indexed_at: Seq<char>,
    fresh: bool,
    now: Seq<char>,
    columns: WalkColumns,
)
    requires
        is_walk_record(record, id, Some(prior), candidate, root_path, indexed_at, fresh, now),
        are_columns_of(columns, record),
    ensures
        record.cached_probe is Some <==> candidate.size_bytes == prior.size_bytes
            && candidate.modified_at@ == prior.modified_at@ && prior.probe_error is None
            && prior.probed_at is Some,
        record.cached_probe is Some ==> {
            &&& columns.duration_millis == prior.duration_millis
            &&& columns.container_name == prior.container_name
            &&& columns.video_codec == prior.video_codec
            &&& columns.audio_codec == prior.audio_codec
            &&& columns.width == prior.width
            &&& columns.height == prior.height
            &&& columns.probed_at == prior.probed_at
            &&& columns.probe_error == prior.probe_error
            &&& columns.video_profile == prior.video_profile
            &&& columns.video_level == prior.video_level
            &&& columns.video_pix_fmt == prior.video_pix_fmt
            &&& columns.video_bit_depth == prior.video_bit_depth
            &&& columns.playback_mode@ == prior.playback_mode.name()
            &&& columns.audio_streams@ == prior.audio_streams@
            &&& columns.subtitle_streams@ == prior.subtitle_streams@
            &&& columns.thumbnail_generated_at is Some <==> fresh
            &&& columns.thumbnail_error is None
        },
        record.cached_probe is None ==> {
            &&& columns.probed_at is None && columns.probe_error is None
            &&& columns.duration_millis is None && columns.video_codec is None
            &&& columns.audio_streams@.len() == 0 && columns.subtitle_streams@.len() == 0
            &&& columns.thumbnail_generated_at is None && columns.thumbnail_error is None
        },
{
}

/// The row of a file holds its path, its name, its size and its time as they were found,
/// and the type that its extension stands for.
pub proof fn law_rows_describe_their_files(
    record: WalkRecord,
    id: u128,
    prior: Option<CachedMediaRecord>,
    candidate: DirMediaCandidate,
    root_path: Seq<char>,
    indexed_at: Seq<char>,
    fresh: bool,
    now: Seq<char>,
)
    requires
        is_walk_record(record, id, prior, candidate, root_path, indexed_at, fresh, now),
    ensures
        record.id == id,
        record.root_path@ == root_path && record.relative_path == candidate.relative_path
            && record.file_name == candidate.file_name && record.extension == candidate.extension,
        record.size_bytes == candidate.size_bytes && record.modified_at == candidate.modified_at
            && record.indexed_at@ == indexed_at,
        record.subtitle_tracks == candidate.subtitle_tracks,
        candidate.extension is Some ==> opt_text(record.content_type) == content_type_of(
            candidate.extension->0@,
        ),
        prior is None ==> record.cached_probe is None && record.cached_thumbnail is None,
{
}

/// A file is probed while nothing came of a probe, and gets a thumbnail once it was
/// probed with success and while nothing came of a thumbnail.
pub proof fn law_pending_work_is_what_has_no_outcome(
    probed_at: Option<String>,
    probe_error: Option<String>,
    generated_at: Option<String>,
    thumbnail_error: Option<String>,
)
    ensures
        needs_probe(probed_at, probe_error) <==> probed_at is None && probe_error is None,
        needs_thumbnail(generated_at, thumbnail_error, probed_at, probe_error) ==> !needs_probe(
            probed_at,
            probe_error,
        ) && probe_error is None && generated_at is None && thumbnail_error is None,
        probed_at is Some && probe_error is None && generated_at is None && thumbnail_error is None
            ==> needs_thumbnail(generated_at, thumbnail_error, probed_at, probe_error),
{
}

/// The rows that go are listed in the order in which they are stored, each once where
/// each is stored once.
pub proof fn law_pruned_rows_are_listed_once(
    existing: Seq<Seq<char>>,
    kept: Seq<Seq<char>>,
    n: int,
)
    requires
        0 <= n <= existing.len(),
        existing.no_duplicates(),
    ensures
        missing_upto(existing, kept, n).no_duplicates(),
        missing_upto(existing, kept, n).len() <= n,
    decreases n,
{
    if n > 0 {
        law_pruned_rows_are_listed_once(existing, kept, n - 1);
        let before = missing_upto(existing, kept, n - 1);
        lemma_missing(existing, kept, n - 1, existing[n - 1]);
        if before.contains(existing[n - 1]) {
            let k = existing.take(n - 1).index_of(existing[n - 1]);
            assert(existing[k] == existing[n - 1]);
        }
    }
}

/// The parameters of a statement are numbered from one on, each once.
pub proof fn law_placeholders_are_numbered_from_one(count: nat, i: int)
    requires
        0 <= i < count,
    ensures
        placeholder_list(count).len() == count,
        placeholder_list(count)[i][0] == '?',
        all_digits(placeholder_list(count)[i].skip(1)),
        numeral_value(placeholder_list(count)[i].skip(1)) == i + 1,
{
    reveal_strlit("?");
    lemma_decimal((i + 1) as nat);
    assert(placeholder_list(count)[i].skip(1) =~= decimal((i + 1) as nat));
}

} // verus!
