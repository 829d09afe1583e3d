//! Stored stream copies: their life cycle, and what clients see of them.
use crate::ids::{hyphenated, id_text};
use crate::persistence::records::{StreamCopyRecord, StreamCopyRequestRecord};
use crate::protocol::{StreamCopyStatus, StreamCopySubtitleSelection, StreamCopySummary};
use crate::text::{concat3, copy_opt, has_text, occurs_at, opt_text};
use vstd::prelude::*;

verus! {

/// The subtitle source of a record: only where both its kind and its index are
/// stored.
pub open spec fn selection_of(record: StreamCopyRecord) -> Option<StreamCopySubtitleSelection> {
    match (record.subtitle_kind, record.subtitle_index) {
        (Some(kind), Some(index)) => Some(StreamCopySubtitleSelection { kind, index }),
        _ => None,
    }
}

/// Where clients get the prepared subtitle of a finished stream copy.
pub open spec fn subtitle_url_of(media_id: u128, record: StreamCopyRecord) -> Option<Seq<char>> {
    if record.status == StreamCopyStatus::Ready && record.subtitle_path is Some {
        Some("/api/media/"@ + hyphenated(media_id) + "/stream-copy/subtitle"@)
    } else {
        None
    }
}

/// Whether `summary` shows `record`, apart from progress.
pub open spec fn summarizes(
    summary: StreamCopySummary,
    media_id: u128,
    record: StreamCopyRecord,
) -> bool {
    &&& summary.status == record.status
    &&& summary.audio_stream_index == record.audio_stream_index
    &&& summary.subtitle_mode == record.subtitle_mode
    &&& summary.subtitle == selection_of(record)
    &&& opt_text(summary.subtitle_url) == subtitle_url_of(media_id, record)
    &&& summary.error == record.error
    &&& summary.updated_at == record.updated_at
}

/// What clients see of a stored stream copy.
pub fn stream_copy_summary_for(media_id: u128, record: &StreamCopyRecord) -> (r: StreamCopySummary)
    ensures
        summarizes(r, media_id, *record),
        r.progress_ratio_billionths is None,
        r.progress_speed_bits is None,
{
    let subtitle = match (record.subtitle_kind, record.subtitle_index) {
        (Some(kind), Some(index)) => Some(StreamCopySubtitleSelection { kind, index }),
        _ => None,
    };
    let subtitle_url: Option<String> = if record.status == StreamCopyStatus::Ready
        && record.subtitle_path.is_some() {
        Some(concat3("/api/media/", id_text(media_id).as_str(), "/stream-copy/subtitle"))
    } else {
        None
    };
    StreamCopySummary {
        status: record.status,
        audio_stream_index: record.audio_stream_index,
        subtitle_mode: record.subtitle_mode,
        subtitle,
        subtitle_url,
        error: copy_opt(&record.error),
        progress_ratio_billionths: None,
        progress_speed_bits: None,
        updated_at: record.updated_at.clone(),
    }
}

/// The row that a request leaves in the database: queued, with nothing left of
/// an earlier copy. The time of the first request is kept.
pub open spec fn is_queued_row(
    row: StreamCopyRecord,
    existing: Option<StreamCopyRecord>,
    request: StreamCopyRequestRecord,
) -> bool {
    &&& row.media_id == request.media_id
    &&& row.source_size_bytes == request.source_size_bytes
    &&& row.source_modified_at@ == request.source_modified_at@
    &&& row.status == StreamCopyStatus::Queued
    &&& row.audio_stream_index == request.audio_stream_index
    &&& row.subtitle_mode == request.subtitle_mode
    &&& row.subtitle_kind == request.subtitle_kind
    &&& row.subtitle_index == request.subtitle_index
    &&& row.output_path is None
    &&& row.output_content_type is None
    &&& row.subtitle_path is None
    &&& row.error is None
    &&& row.created_at@ == (match existing {
        Some(old) => old.created_at@,
        None => request.updated_at@,
    })
    &&& row.updated_at@ == request.updated_at@
}

/// The row that a request leaves in the database.
pub fn queued_row(
    existing: Option<&StreamCopyRecord>,
    request: &StreamCopyRequestRecord,
) -> (r: StreamCopyRecord)
    ensures
        existing matches Some(old) ==> is_queued_row(r, Some(*old), *request),
        existing is None ==> is_queued_row(r, None, *request),
{
    StreamCopyRecord {
        media_id: request.media_id,
        source_size_bytes: request.source_size_bytes,
        source_modified_at: request.source_modified_at.clone(),
        status: StreamCopyStatus::Queued,
        audio_stream_index: request.audio_stream_index,
        subtitle_mode: request.subtitle_mode,
        subtitle_kind: request.subtitle_kind,
        subtitle_index: request.subtitle_index,
        output_path: None,
        output_content_type: None,
        subtitle_path: None,
        error: None,
        created_at: match existing {
            Some(old) => old.created_at.clone(),
            None => request.updated_at.clone(),
        },
        updated_at: request.updated_at.clone(),
    }
}

/// Whether two rows are of the same request for the same file.
pub open spec fn same_job(a: StreamCopyRecord, b: StreamCopyRecord) -> bool {
    &&& a.media_id == b.media_id
    &&& a.source_size_bytes == b.source_size_bytes
    &&& a.source_modified_at == b.source_modified_at
    &&& a.audio_stream_index == b.audio_stream_index
    &&& a.subtitle_mode == b.subtitle_mode
    &&& a.subtitle_kind == b.subtitle_kind
    &&& a.subtitle_index == b.subtitle_index
    &&& a.created_at == b.created_at
}

/// Whether `row` is a row that was marked as being made.
pub open spec fn is_running_row(
    row: StreamCopyRecord,
    before: StreamCopyRecord,
    now: Seq<char>,
) -> bool {
    &&& same_job(row, before)
    &&& row.status == StreamCopyStatus::Running
    &&& row.error is None
    &&& row.updated_at@ == now
}

/// Whether `row` is a row that was marked as finished, with its files.
pub open spec fn is_ready_row(
    row: StreamCopyRecord,
    before: StreamCopyRecord,
    output: Seq<char>,
    content_type: Seq<char>,
    subtitle: Option<Seq<char>>,
    now: Seq<char>,
) -> bool {
    &&& same_job(row, before)
    &&& row.status == StreamCopyStatus::Ready
    &&& opt_text(row.output_path) == Some(output)
    &&& opt_text(row.output_content_type) == Some(content_type)
    &&& opt_text(row.subtitle_path) == subtitle
    &&& row.error is None
    &&& row.updated_at@ == now
}

/// Whether `row` is a row that was marked as failed.
pub open spec fn is_failed_row(
    row: StreamCopyRecord,
    before: StreamCopyRecord,
    error: Seq<char>,
    now: Seq<char>,
) -> bool {
    &&& same_job(row, before)
    &&& row.status == StreamCopyStatus::Failed
    &&& row.output_path is None
    &&& row.output_content_type is None
    &&& row.subtitle_path is None
    &&& opt_text(row.error) == Some(error)
    &&& row.updated_at@ == now
}

/// Marks a stored stream copy as being made.
pub fn mark_running(record: &mut StreamCopyRecord, updated_at: &str)
    ensures
        final(record).status == StreamCopyStatus::Running,
        final(record).error is None,
        final(record).updated_at@ == updated_at@,
        *final(record) == (StreamCopyRecord {
            status: final(record).status,
            error: final(record).error,
            updated_at: final(record).updated_at,
            ..*old(record)
        }),
        is_running_row(*final(record), *old(record), updated_at@),
{
    record.status = StreamCopyStatus::Running;
    record.error = None;
    record.updated_at = updated_at.to_owned();
}

/// Marks a stored stream copy as finished.
pub fn mark_ready(
    record: &mut StreamCopyRecord,
    output_path: &str,
    output_content_type: &str,
    subtitle_path: Option<&str>,
    updated_at: &str,
)
    ensures
        final(record).status == StreamCopyStatus::Ready,
        opt_text(final(record).output_path) == Some(output_path@),
        opt_text(final(record).output_content_type) == Some(output_content_type@),
        opt_text(final(record).subtitle_path) == crate::text::opt_str(subtitle_path),
        final(record).error is None,
        final(record).updated_at@ == updated_at@,
        *final(record) == (StreamCopyRecord {
            status: final(record).status,
            output_path: final(record).output_path,
            output_content_type: final(record).output_content_type,
            subtitle_path: final(record).subtitle_path,
            error: final(record).error,
            updated_at: final(record).updated_at,
            ..*old(record)
        }),
        is_ready_row(
            *final(record),
            *old(record),
            output_path@,
            output_content_type@,
            crate::text::opt_str(subtitle_path),
            updated_at@,
        ),
{
    record.status = StreamCopyStatus::Ready;
    record.output_path = Some(output_path.to_owned());
    record.output_content_type = Some(output_content_type.to_owned());
    record.subtitle_path =
    match subtitle_path {
        Some(path) => Some(path.to_owned()),
        None => None,
    };
    record.error = None;
    record.updated_at = updated_at.to_owned();
}

/// Marks a stored stream copy as failed; no file of it is offered any more.
pub fn mark_failed(record: &mut StreamCopyRecord, error: &str, updated_at: &str)
    ensures
        final(record).status == StreamCopyStatus::Failed,
        final(record).output_path is None,
        final(record).output_content_type is None,
        final(record).subtitle_path is None,
        opt_text(final(record).error) == Some(error@),
        final(record).updated_at@ == updated_at@,
        *final(record) == (StreamCopyRecord {
            status: final(record).status,
            output_path: final(record).output_path,
            output_content_type: final(record).output_content_type,
            subtitle_path: final(record).subtitle_path,
            error: final(record).error,
            updated_at: final(record).updated_at,
            ..*old(record)
        }),
        is_failed_row(*final(record), *old(record), error@, updated_at@),
{
    record.status = StreamCopyStatus::Failed;
    record.output_path = None;
    record.output_content_type = None;
    record.subtitle_path = None;
    record.error = Some(error.to_owned());
    record.updated_at = updated_at.to_owned();
}

/// A subtitle is offered only of a finished copy that has one.
pub proof fn law_subtitle_url_only_when_ready(media_id: u128, record: StreamCopyRecord)
    ensures
        subtitle_url_of(media_id, record) is Some <==> record.status == StreamCopyStatus::Ready
            && record.subtitle_path is Some,
{
}

/// What clients see of a copy is what is stored of it: its state, the choice that was
/// made, its error and its time. The choice of a subtitle is shown where both its parts
/// are stored.
pub proof fn law_summaries_show_the_row(
    summary: StreamCopySummary,
    media_id: u128,
    record: StreamCopyRecord,
)
    requires
        summarizes(summary, media_id, record),
    ensures
        summary.status == record.status && summary.error == record.error && summary.updated_at
            == record.updated_at,
        summary.audio_stream_index == record.audio_stream_index && summary.subtitle_mode
            == record.subtitle_mode,
        summary.subtitle is Some <==> record.subtitle_kind is Some && record.subtitle_index is Some,
        summary.subtitle matches Some(chosen) ==> Some(chosen.kind) == record.subtitle_kind && Some(
            chosen.index,
        ) == record.subtitle_index,
        summary.subtitle_url matches Some(url) ==> has_text(url@, hyphenated(media_id))
            && record.status == StreamCopyStatus::Ready,
{
    if summary.subtitle_url is Some {
        let url = summary.subtitle_url->0@;
        let start = "/api/media/"@.len() as int;
        let id = hyphenated(media_id);
        assert(url.subrange(start, start + id.len()) =~= id);
        assert(occurs_at(url, id, start));
    }
}

/// A request that is stored anew is queued, asks for what was asked for, and offers
/// nothing of an earlier copy; the time of the first request stays.
pub proof fn law_queued_rows_start_afresh(
    row: StreamCopyRecord,
    existing: Option<StreamCopyRecord>,
    request: StreamCopyRequestRecord,
)
    requires
        is_queued_row(row, existing, request),
    ensures
        row.status == StreamCopyStatus::Queued,
        row.media_id == request.media_id && row.source_size_bytes == request.source_size_bytes
            && row.source_modified_at@ == request.source_modified_at@,
        row.audio_stream_index == request.audio_stream_index && row.subtitle_mode
            == request.subtitle_mode && row.subtitle_kind == request.subtitle_kind
            && row.subtitle_index == request.subtitle_index,
        row.output_path is None && row.subtitle_path is None && row.error is None,
        existing is None ==> row.created_at@ == request.updated_at@,
        existing is Some ==> row.created_at@ == existing->0.created_at@,
        row.updated_at@ == request.updated_at@,
{
}

} // verus!
