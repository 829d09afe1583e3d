//! The media endpoints.
use crate::persistence::stream_copies::{is_failed_row, is_queued_row, is_ready_row, is_running_row};
use crate::api::error::{refusal, ApiError};
use crate::origin::{header_text, header_to_text, is_header_value};
use crate::persistence::records::{StreamCopyRecord, StreamCopyRequestRecord};
use crate::protocol::{
    is_text_codec, is_text_subtitle_codec, AudioStream, CreateStreamCopyRequest, MediaItem,
    PlaybackMode, PreparationState, StreamCopyStatus, StreamCopySubtitleSelection, SubtitleMode,
    SubtitleSourceKind,
};
use crate::stream_copies::subtitles::{find_subtitle_stream, lemma_stream_place, stream_place};
use crate::streaming::{resolve_media_path, resolve_relative_path, resolved_path, StreamMediaError};
use crate::text::{as_opt_str, lower, opt_text, same_text, to_lower};
use vstd::prelude::*;

verus! {

pub const OCTET_STREAM: &'static str = "application/octet-stream";

/// The answer where a media item cannot be loaded.
pub fn load_media_item_refusal(missing: bool, client_error: &'static str) -> (r: ApiError)
    ensures
        r@ == (if missing {
            (404u16, "Media not found."@)
        } else {
            (500u16, client_error@)
        }),
{
    if missing {
        ApiError::not_found("Media not found.")
    } else {
        ApiError::internal(client_error)
    }
}

/// Reads the range header of a request: visible ASCII, or a refusal.
pub fn range_header_text(value: Option<&[u8]>) -> (r: Result<Option<String>, ApiError>)
    requires
        value matches Some(bytes) ==> is_header_value(bytes@),
    ensures
        value is None ==> r matches Ok(None),
        value matches Some(bytes) ==> match header_text(bytes@) {
            Some(text) => r matches Ok(Some(read)) && read@ == text,
            None => refusal(r) == Some((400u16, "Range header must be valid ASCII."@)),
        },
{
    match value {
        None => Ok(None),
        Some(bytes) => match header_to_text(bytes) {
            Some(text) => Ok(Some(text)),
            None => Err(ApiError::bad_request("Range header must be valid ASCII.")),
        },
    }
}

/// Whether a stored stream copy is of the file as it is now.
pub open spec fn is_current(record: StreamCopyRecord, item: MediaItem) -> bool {
    record.source_size_bytes == item.size_bytes && record.source_modified_at@ == item.modified_at@
}

/// Whether a stored stream copy is of the file as it is now.
pub fn stream_copy_matches_media_source(record: &StreamCopyRecord, media_item: &MediaItem) -> (r:
    bool)
    ensures
        r == is_current(*record, *media_item),
{
    record.source_size_bytes == media_item.size_bytes && same_text(
        record.source_modified_at.as_str(),
        media_item.modified_at.as_str(),
    )
}

/// The stored stream copy of a media item, where it is of the file as it is
/// now.
pub open spec fn current_copy(record: Option<StreamCopyRecord>, item: MediaItem) -> Option<
    StreamCopyRecord,
> {
    match record {
        Some(found) => if is_current(found, item) {
            record
        } else {
            None
        },
        None => None,
    }
}

/// The stored stream copy of a media item, where it is of the file as it is
/// now.
pub fn current_stream_copy(record: Option<StreamCopyRecord>, media_item: &MediaItem) -> (r: Option<
    StreamCopyRecord,
>)
    ensures
        r == current_copy(record, *media_item),
{
    match record {
        Some(found) => {
            if stream_copy_matches_media_source(&found, media_item) {
                Some(found)
            } else {
                None
            }
        },
        None => None,
    }
}

/// Why a media item cannot be played yet.
pub open spec fn unavailable_message(state: PreparationState) -> Seq<char> {
    match state {
        PreparationState::Preparing => "A stream copy is still being prepared for this media."@,
        PreparationState::Failed =>
            "The last stream copy attempt failed. Create a new stream copy to play this media."@,
        _ => "This media needs a stream copy before it can be played in the browser."@,
    }
}

/// Why a media item cannot be played yet.
pub fn playback_unavailable_message(media_item: &MediaItem) -> (r: &'static str)
    ensures
        r@ == unavailable_message(media_item.preparation_state),
{
    match media_item.preparation_state {
        PreparationState::Preparing => "A stream copy is still being prepared for this media.",
        PreparationState::Failed =>
            "The last stream copy attempt failed. Create a new stream copy to play this media.",
        _ => "This media needs a stream copy before it can be played in the browser.",
    }
}

/// A file to be streamed.
#[derive(Debug, PartialEq, Eq)]
pub struct StreamSource {
    pub path: String,
    pub content_type: String,
}

/// The content type of a file, or that of plain bytes where none is known.
pub open spec fn content_type_or_bytes(content_type: Option<String>) -> Seq<char> {
    match content_type {
        Some(value) => value@,
        None => OCTET_STREAM@,
    }
}

fn content_type_or_default(content_type: &Option<String>) -> (r: String)
    ensures
        r@ == content_type_or_bytes(*content_type),
{
    match content_type {
        Some(value) => value.clone(),
        None => OCTET_STREAM.to_owned(),
    }
}

/// The path and content type that are streamed of a media item, or the
/// refusal. `copy` is the current stream copy, if there is one.
pub open spec fn stream_source(item: MediaItem, copy: Option<StreamCopyRecord>) -> Result<
    (Seq<char>, Seq<char>),
    (u16, Seq<char>),
> {
    match item.playback_mode {
        PlaybackMode::Direct => Ok(
            (
                resolved_path(item.root_path@, item.relative_path@),
                content_type_or_bytes(item.content_type),
            ),
        ),
        PlaybackMode::NeedsPreparation => match copy {
            Some(record) if record.status == StreamCopyStatus::Ready => match record.output_path {
                Some(path) => Ok((path@, content_type_or_bytes(record.output_content_type))),
                None => Err((500u16, "Prepared stream copy is missing an output file."@)),
            },
            _ => Err((409u16, unavailable_message(item.preparation_state))),
        },
        PlaybackMode::Unsupported => Err(
            (415u16, "This media is not supported for browser playback."@),
        ),
    }
}

/// A source as plain values.
pub open spec fn source_result(r: Result<StreamSource, ApiError>) -> Result<
    (Seq<char>, Seq<char>),
    (u16, Seq<char>),
> {
    match r {
        Ok(source) => Ok((source.path@, source.content_type@)),
        Err(error) => Err(error@),
    }
}

/// Decides what is streamed of a media item. `record` is its stored stream
/// copy, of which only a current one counts.
pub fn stream_media(media_item: &MediaItem, record: Option<StreamCopyRecord>) -> (r: Result<
    StreamSource,
    ApiError,
>)
    ensures
        source_result(r) == stream_source(*media_item, current_copy(record, *media_item)),
{
    match media_item.playback_mode {
        PlaybackMode::Direct => Ok(
            StreamSource {
                path: resolve_media_path(media_item),
                content_type: content_type_or_default(&media_item.content_type),
            },
        ),
        PlaybackMode::NeedsPreparation => match current_stream_copy(record, media_item) {
            Some(copy) => {
                if copy.status != StreamCopyStatus::Ready {
                    return Err(
                        ApiError::with_status(409, playback_unavailable_message(media_item)),
                    );
                }
                match &copy.output_path {
                    Some(path) => Ok(
                        StreamSource {
                            path: path.clone(),
                            content_type: content_type_or_default(&copy.output_content_type),
                        },
                    ),
                    None => Err(
                        ApiError::internal("Prepared stream copy is missing an output file."),
                    ),
                }
            },
            None => Err(ApiError::with_status(409, playback_unavailable_message(media_item))),
        },
        PlaybackMode::Unsupported => Err(
            ApiError::with_status(415, "This media is not supported for browser playback."),
        ),
    }
}

/// The answer to a stream that failed.
#[derive(Debug, Clone, Copy)]
pub enum StreamFailure {
    Refused(ApiError),
    /// The range cannot be granted of a file of this length.
    RangeNotSatisfiable { file_len: u64 },
}

/// Whether `r` answers a media stream that failed with `error`.
pub open spec fn answers_failure(r: StreamFailure, error: StreamMediaError) -> bool {
    match error {
        StreamMediaError::NotFound => r matches StreamFailure::Refused(e) && e@ == (
            404u16,
            "Media file not found."@,
        ),
        StreamMediaError::MalformedRange(message) => r matches StreamFailure::Refused(e) && e@ == (
            400u16,
            message@,
        ),
        StreamMediaError::UnsatisfiableRange { file_len: len } => r matches
            StreamFailure::RangeNotSatisfiable { file_len } && file_len == len,
        StreamMediaError::Io(_) => r matches StreamFailure::Refused(e) && e@ == (
            500u16,
            "Failed to stream media."@,
        ),
    }
}

/// The answer to a media stream that failed.
pub fn stream_media_failure(error: &StreamMediaError) -> (r: StreamFailure)
    ensures
        answers_failure(r, *error),
{
    match error {
        StreamMediaError::NotFound => StreamFailure::Refused(
            ApiError::not_found("Media file not found."),
        ),
        StreamMediaError::MalformedRange(message) => StreamFailure::Refused(
            ApiError::bad_request(message),
        ),
        StreamMediaError::UnsatisfiableRange { file_len } => StreamFailure::RangeNotSatisfiable {
            file_len: *file_len,
        },
        StreamMediaError::Io(_) => StreamFailure::Refused(
            ApiError::internal("Failed to stream media."),
        ),
    }
}

/// The answer where a whole file could not be sent: not found where it is
/// missing, and a failure otherwise.
pub fn file_failure(
    error: &StreamMediaError,
    missing: &'static str,
    failed: &'static str,
) -> (r: ApiError)
    ensures
        r@ == (if *error is NotFound {
            (404u16, missing@)
        } else {
            (500u16, failed@)
        }),
{
    match error {
        StreamMediaError::NotFound => ApiError::not_found(missing),
        _ => ApiError::internal(failed),
    }
}

/// Decides which thumbnail file is sent, given where the item's would be.
pub fn stream_thumbnail(media_item: &MediaItem, thumbnail_path: Option<String>) -> (r: Result<
    String,
    ApiError,
>)
    ensures
        media_item.thumbnail_generated_at is Some && thumbnail_path is Some ==> r is Ok && r->Ok_0
            == thumbnail_path->0,
        media_item.thumbnail_generated_at is None || thumbnail_path is None ==> refusal(r) == Some(
            (404u16, "Thumbnail not available."@),
        ),
{
    if media_item.thumbnail_generated_at.is_none() {
        return Err(ApiError::not_found("Thumbnail not available."));
    }
    match thumbnail_path {
        Some(path) => Ok(path),
        None => Err(ApiError::not_found("Thumbnail not available.")),
    }
}

/// The stream copy that clients are told of, or the refusal.
pub fn get_stream_copy(media_item: &MediaItem, record: Option<StreamCopyRecord>) -> (r: Result<
    StreamCopyRecord,
    ApiError,
>)
    ensures
        match current_copy(record, *media_item) {
            Some(found) => r is Ok && r->Ok_0 == found,
            None => refusal(r) == Some((404u16, "No current stream copy exists for this media."@)),
        },
{
    match current_stream_copy(record, media_item) {
        Some(found) => Ok(found),
        None => Err(ApiError::not_found("No current stream copy exists for this media.")),
    }
}

/// Whether one of the audio streams has the given index.
pub open spec fn has_audio_stream(streams: Seq<AudioStream>, index: u32) -> bool {
    exists|i: int| 0 <= i < streams.len() && (#[trigger] streams[i]).index == index
}

fn has_audio_stream_index(streams: &Vec<AudioStream>, index: u32) -> (r: bool)
    ensures
        r == has_audio_stream(streams@, index),
{
    let mut i: usize = 0;
    while i < streams.len()
        invariant
            i <= streams.len(),
            forall|k: int| 0 <= k < i ==> (#[trigger] streams@[k]).index != index,
        decreases streams.len() - i,
    {
        if streams[i].index == index {
            return true;
        }
        i = i + 1;
    }
    false
}

/// Whether a sidecar subtitle of this extension can be used in the given way.
pub open spec fn usable_sidecar(extension: Seq<char>, mode: SubtitleMode) -> bool {
    let format = lower(extension);
    if mode == SubtitleMode::Sidecar {
        format == "vtt"@ || format == "srt"@
    } else {
        format == "vtt"@ || format == "srt"@ || format == "ass"@ || format == "ssa"@
    }
}

/// Why a subtitle source is refused, if it is. `mode` is not off.
pub open spec fn selection_refusal(
    item: MediaItem,
    mode: SubtitleMode,
    selection: StreamCopySubtitleSelection,
) -> Option<Seq<char>> {
    match selection.kind {
        SubtitleSourceKind::Sidecar => if selection.index >= item.subtitle_tracks@.len() {
            Some("Selected sidecar subtitle track does not exist."@)
        } else if !usable_sidecar(
            item.subtitle_tracks@[selection.index as int].extension@,
            mode,
        ) {
            if mode == SubtitleMode::Sidecar {
                Some("Only VTT and SRT sidecar subtitles can be prepared as sidecar WebVTT."@)
            } else {
                Some("Only text-based sidecar subtitles can be burned into a stream copy."@)
            }
        } else {
            None
        },
        SubtitleSourceKind::Embedded => {
            let place = stream_place(item.subtitle_streams@, selection.index);
            if place >= item.subtitle_streams@.len() {
                Some("Selected embedded subtitle stream does not exist."@)
            } else if !is_text_codec(opt_text(item.subtitle_streams@[place].codec)) {
                if mode == SubtitleMode::Sidecar {
                    Some(
                        "Selected embedded subtitle stream cannot be converted to sidecar WebVTT."@,
                    )
                } else {
                    Some(
                        "Selected embedded subtitle stream cannot be burned into a stream copy."@,
                    )
                }
            } else {
                None
            }
        },
    }
}

/// Why a stream-copy request is refused, if it is.
pub open spec fn request_refusal(item: MediaItem, request: CreateStreamCopyRequest) -> Option<
    Seq<char>,
> {
    if request.audio_stream_index matches Some(index) && !has_audio_stream(
        item.audio_streams@,
        index,
    ) {
        Some("Selected audio stream does not exist for this media."@)
    } else {
        match (request.subtitle_mode, request.subtitle) {
            (SubtitleMode::Off, None) => None,
            (SubtitleMode::Off, Some(_)) => Some(
                "Do not provide a subtitle source when subtitle mode is 'off'."@,
            ),
            (_, None) => Some(
                "A subtitle source is required for the selected subtitle mode."@,
            ),
            (mode, Some(selection)) => selection_refusal(item, mode, selection),
        }
    }
}

/// A message as a refusal of a bad request.
pub open spec fn bad_request_with(message: Option<Seq<char>>) -> Option<(u16, Seq<char>)> {
    match message {
        Some(text) => Some((400u16, text)),
        None => None,
    }
}

fn validate_selection(
    media_item: &MediaItem,
    mode: SubtitleMode,
    selection: StreamCopySubtitleSelection,
) -> (r: Result<(), ApiError>)
    requires
        mode != SubtitleMode::Off,
    ensures
        refusal(r) == bad_request_with(selection_refusal(*media_item, mode, selection)),
{
    match selection.kind {
        SubtitleSourceKind::Sidecar => {
            let place: usize = selection.index as usize;
            if place >= media_item.subtitle_tracks.len() {
                return Err(
                    ApiError::bad_request("Selected sidecar subtitle track does not exist."),
                );
            }
            let format: String = to_lower(media_item.subtitle_tracks[place].extension.as_str());
            let format: &str = format.as_str();
            let plain: bool = same_text(format, "vtt") || same_text(format, "srt");
            if mode == SubtitleMode::Sidecar && !plain {
                return Err(
                    ApiError::bad_request(
                        "Only VTT and SRT sidecar subtitles can be prepared as sidecar WebVTT.",
                    ),
                );
            }
            if mode == SubtitleMode::Burned && !(plain || same_text(format, "ass") || same_text(
                format,
                "ssa",
            )) {
                return Err(
                    ApiError::bad_request(
                        "Only text-based sidecar subtitles can be burned into a stream copy.",
                    ),
                );
            }
            Ok(())
        },
        SubtitleSourceKind::Embedded => {
            proof {
                lemma_stream_place(media_item.subtitle_streams@, selection.index);
            }
            match find_subtitle_stream(&media_item.subtitle_streams, selection.index) {
                None => Err(
                    ApiError::bad_request("Selected embedded subtitle stream does not exist."),
                ),
                Some(place) => {
                    let codec: Option<&str> = as_opt_str(&media_item.subtitle_streams[place].codec);
                    if is_text_subtitle_codec(codec) {
                        Ok(())
                    } else if mode == SubtitleMode::Sidecar {
                        Err(
                            ApiError::bad_request(
                                "Selected embedded subtitle stream cannot be converted to sidecar WebVTT.",
                            ),
                        )
                    } else {
                        Err(
                            ApiError::bad_request(
                                "Selected embedded subtitle stream cannot be burned into a stream copy.",
                            ),
                        )
                    }
                },
            }
        },
    }
}

/// Checks a stream-copy request against the streams of the media item.
pub fn validate_stream_copy_request(
    media_item: &MediaItem,
    request: &CreateStreamCopyRequest,
) -> (r: Result<(), ApiError>)
    ensures
        refusal(r) == bad_request_with(request_refusal(*media_item, *request)),
{
    if let Some(index) = request.audio_stream_index {
        if !has_audio_stream_index(&media_item.audio_streams, index) {
            return Err(
                ApiError::bad_request("Selected audio stream does not exist for this media."),
            );
        }
    }
    match request.subtitle_mode {
        SubtitleMode::Off => {
            if request.subtitle.is_some() {
                return Err(
                    ApiError::bad_request(
                        "Do not provide a subtitle source when subtitle mode is 'off'.",
                    ),
                );
            }
            Ok(())
        },
        SubtitleMode::Sidecar | SubtitleMode::Burned => match request.subtitle {
            None => Err(
                ApiError::bad_request(
                    "A subtitle source is required for the selected subtitle mode.",
                ),
            ),
            Some(selection) => validate_selection(media_item, request.subtitle_mode, selection),
        },
    }
}

/// The kind of an optional subtitle source.
pub open spec fn selected_kind(selection: Option<StreamCopySubtitleSelection>) -> Option<
    SubtitleSourceKind,
> {
    match selection {
        Some(chosen) => Some(chosen.kind),
        None => None,
    }
}

/// The index of an optional subtitle source.
pub open spec fn selected_index(selection: Option<StreamCopySubtitleSelection>) -> Option<u32> {
    match selection {
        Some(chosen) => Some(chosen.index),
        None => None,
    }
}

/// Whether a stored stream copy is what the request asks for.
pub open spec fn same_request(record: StreamCopyRecord, request: CreateStreamCopyRequest) -> bool {
    &&& record.audio_stream_index == request.audio_stream_index
    &&& record.subtitle_mode == request.subtitle_mode
    &&& record.subtitle_kind == selected_kind(request.subtitle)
    &&& record.subtitle_index == selected_index(request.subtitle)
}

fn same_index(left: Option<u32>, right: Option<u32>) -> (r: bool)
    ensures
        r == (left == right),
{
    match (left, right) {
        (Some(a), Some(b)) => a == b,
        (None, None) => true,
        _ => false,
    }
}

fn same_kind(left: Option<SubtitleSourceKind>, right: Option<SubtitleSourceKind>) -> (r: bool)
    ensures
        r == (left == right),
{
    match (left, right) {
        (Some(a), Some(b)) => a == b,
        (None, None) => true,
        _ => false,
    }
}

/// Whether a stored stream copy is what the request asks for.
pub fn stream_copy_request_matches(
    record: &StreamCopyRecord,
    request: &CreateStreamCopyRequest,
) -> (r: bool)
    ensures
        r == same_request(*record, *request),
{
    let (kind, index): (Option<SubtitleSourceKind>, Option<u32>) = match request.subtitle {
        Some(chosen) => (Some(chosen.kind), Some(chosen.index)),
        None => (None, None),
    };
    same_index(record.audio_stream_index, request.audio_stream_index) && record.subtitle_mode
        == request.subtitle_mode && same_kind(record.subtitle_kind, kind) && same_index(
        record.subtitle_index,
        index,
    )
}

/// What becomes of a stream-copy request.
#[derive(Debug, PartialEq, Eq)]
pub enum StreamCopyDecision {
    /// The stored stream copy is the answer.
    Reuse { record: StreamCopyRecord },
    /// The request is stored and queued.
    Queue { request: StreamCopyRequestRecord },
}

/// Why a stream-copy request is refused, if it is: by the media item, by the
/// request itself, or by another request in progress.
pub open spec fn copy_refusal(
    item: MediaItem,
    request: CreateStreamCopyRequest,
    copy: Option<StreamCopyRecord>,
) -> Option<(u16, Seq<char>)> {
    if item.playback_mode == PlaybackMode::Direct {
        Some(
            (
                409u16,
                "This media is already browser-playable and does not need a stream copy."@,
            ),
        )
    } else if item.playback_mode == PlaybackMode::Unsupported {
        Some((415u16, "This media is not supported for browser playback."@))
    } else if request_refusal(item, request) is Some {
        bad_request_with(request_refusal(item, request))
    } else if copy matches Some(record) && !same_request(record, request) && (record.status
        == StreamCopyStatus::Queued || record.status == StreamCopyStatus::Running) {
        Some(
            (
                409u16,
                "A different stream copy request is already in progress for this media."@,
            ),
        )
    } else {
        None
    }
}

/// Whether the stored stream copy answers the request.
pub open spec fn reuses(copy: Option<StreamCopyRecord>, request: CreateStreamCopyRequest) -> bool {
    copy matches Some(record) && same_request(record, request) && record.status
        != StreamCopyStatus::Failed
}

/// Whether `stored` is the request as it is stored.
pub open spec fn is_stored_request(
    stored: StreamCopyRequestRecord,
    item: MediaItem,
    request: CreateStreamCopyRequest,
    now: Seq<char>,
) -> bool {
    &&& stored.media_id == item.id
    &&& stored.source_size_bytes == item.size_bytes
    &&& stored.source_modified_at@ == item.modified_at@
    &&& stored.audio_stream_index == request.audio_stream_index
    &&& stored.subtitle_mode == request.subtitle_mode
    &&& stored.subtitle_kind == selected_kind(request.subtitle)
    &&& stored.subtitle_index == selected_index(request.subtitle)
    &&& stored.updated_at@ == now
}

/// Decides what becomes of a stream-copy request. `record` is the stored
/// stream copy of the media item, of which only a current one counts; `now` is
/// the time of the request.
pub fn create_stream_copy(
    media_item: &MediaItem,
    request: &CreateStreamCopyRequest,
    record: Option<StreamCopyRecord>,
    now: &str,
) -> (r: Result<StreamCopyDecision, ApiError>)
    ensures
        ({
            let copy = current_copy(record, *media_item);
            &&& refusal(r) == copy_refusal(*media_item, *request, copy)
            &&& r matches Ok(StreamCopyDecision::Reuse { record: found }) ==> reuses(copy, *request)
                && found == copy->0
            &&& r matches Ok(StreamCopyDecision::Queue { request: stored }) ==> !reuses(
                copy,
                *request,
            ) && is_stored_request(stored, *media_item, *request, now@)
        }),
{
    if media_item.playback_mode == PlaybackMode::Direct {
        return Err(
            ApiError::with_status(
                409,
                "This media is already browser-playable and does not need a stream copy.",
            ),
        );
    }
    if media_item.playback_mode == PlaybackMode::Unsupported {
        return Err(
            ApiError::with_status(415, "This media is not supported for browser playback."),
        );
    }
    match validate_stream_copy_request(media_item, request) {
        Ok(()) => {},
        Err(error) => {
            return Err(error);
        },
    }
    if let Some(existing) = current_stream_copy(record, media_item) {
        let same: bool = stream_copy_request_matches(&existing, request);
        if same && existing.status != StreamCopyStatus::Failed {
            return Ok(StreamCopyDecision::Reuse { record: existing });
        }
        if !same && (existing.status == StreamCopyStatus::Queued || existing.status
            == StreamCopyStatus::Running) {
            return Err(
                ApiError::with_status(
                    409,
                    "A different stream copy request is already in progress for this media.",
                ),
            );
        }
    }
    let (subtitle_kind, subtitle_index): (Option<SubtitleSourceKind>, Option<u32>) =
        match request.subtitle {
        Some(chosen) => (Some(chosen.kind), Some(chosen.index)),
        None => (None, None),
    };
    Ok(
        StreamCopyDecision::Queue {
            request: StreamCopyRequestRecord {
                media_id: media_item.id,
                source_size_bytes: media_item.size_bytes,
                source_modified_at: media_item.modified_at.clone(),
                audio_stream_index: request.audio_stream_index,
                subtitle_mode: request.subtitle_mode,
                subtitle_kind,
                subtitle_index,
                updated_at: now.to_owned(),
            },
        },
    )
}

/// Asking again for what is queued, being made or ready starts nothing new.
pub proof fn law_same_request_is_not_queued_twice(
    item: MediaItem,
    request: CreateStreamCopyRequest,
    record: StreamCopyRecord,
)
    requires
        item.playback_mode == PlaybackMode::NeedsPreparation,
        request_refusal(item, request) is None,
        is_current(record, item),
        same_request(record, request),
        record.status != StreamCopyStatus::Failed,
    ensures
        copy_refusal(item, request, current_copy(Some(record), item)) is None,
        reuses(current_copy(Some(record), item), request),
{
}

/// A stored request matches the request that it was made of.
pub proof fn law_stored_request_matches(
    stored: StreamCopyRequestRecord,
    record: StreamCopyRecord,
    existing: Option<StreamCopyRecord>,
    item: MediaItem,
    request: CreateStreamCopyRequest,
    now: Seq<char>,
)
    requires
        is_stored_request(stored, item, request, now),
        crate::persistence::stream_copies::is_queued_row(record, existing, stored),
    ensures
        is_current(record, item),
        same_request(record, request),
        reuses(current_copy(Some(record), item), request),
{
}

/// A change of the media file makes its stored stream copy count no more.
pub proof fn law_changed_file_discards_copy(record: StreamCopyRecord, item: MediaItem)
    requires
        record.source_size_bytes != item.size_bytes || record.source_modified_at@
            != item.modified_at@,
    ensures
        current_copy(Some(record), item) is None,
        item.playback_mode == PlaybackMode::NeedsPreparation ==> stream_source(
            item,
            current_copy(Some(record), item),
        ) is Err,
{
}

/// The answer where the stored stream copy cannot be loaded.
pub fn load_stream_copy_refusal() -> (r: ApiError)
    ensures
        r@ == (500u16, "Failed to load stream copy state."@),
{
    ApiError::internal("Failed to load stream copy state.")
}

/// The answer where a stream-copy request cannot be stored.
pub fn store_stream_copy_refusal() -> (r: ApiError)
    ensures
        r@ == (500u16, "Failed to create stream copy."@),
{
    ApiError::internal("Failed to create stream copy.")
}

/// The answer where the worker queue takes no more.
pub fn queue_full_refusal() -> (r: ApiError)
    ensures
        r@ == (503u16, "Stream copy worker queue is full."@),
{
    ApiError::with_status(503, "Stream copy worker queue is full.")
}

/// The answer where a stream copy could not be loaded again after it was
/// queued.
pub fn queued_copy_missing_refusal() -> (r: ApiError)
    ensures
        r@ == (500u16, "Failed to load the queued stream copy state."@),
{
    ApiError::internal("Failed to load the queued stream copy state.")
}

/// The prepared subtitle file that is sent, or the refusal.
pub open spec fn prepared_subtitle(item: MediaItem, copy: Option<StreamCopyRecord>) -> Result<
    Seq<char>,
    (u16, Seq<char>),
> {
    match copy {
        None => Err((404u16, "Prepared subtitle not found."@)),
        Some(record) => if record.status != StreamCopyStatus::Ready {
            Err((409u16, unavailable_message(item.preparation_state)))
        } else {
            match record.subtitle_path {
                Some(path) => Ok(path@),
                None => Err((404u16, "Prepared subtitle not found."@)),
            }
        },
    }
}

/// A path or a refusal as plain values.
pub open spec fn path_result(r: Result<String, ApiError>) -> Result<Seq<char>, (u16, Seq<char>)> {
    match r {
        Ok(path) => Ok(path@),
        Err(error) => Err(error@),
    }
}

/// Decides which prepared subtitle file is sent.
pub fn stream_prepared_subtitle(
    media_item: &MediaItem,
    record: Option<StreamCopyRecord>,
) -> (r: Result<String, ApiError>)
    ensures
        path_result(r) == prepared_subtitle(*media_item, current_copy(record, *media_item)),
{
    match current_stream_copy(record, media_item) {
        None => Err(ApiError::not_found("Prepared subtitle not found.")),
        Some(copy) => {
            if copy.status != StreamCopyStatus::Ready {
                return Err(ApiError::with_status(409, playback_unavailable_message(media_item)));
            }
            match &copy.subtitle_path {
                Some(path) => Ok(path.clone()),
                None => Err(ApiError::not_found("Prepared subtitle not found.")),
            }
        },
    }
}

/// A subtitle file beside a media file.
#[derive(Debug, PartialEq, Eq)]
pub struct SubtitleSource {
    pub path: String,
    pub extension: String,
}

/// Decides which subtitle file is sent.
pub fn stream_subtitle(media_item: &MediaItem, track_index: usize) -> (r: Result<
    SubtitleSource,
    ApiError,
>)
    ensures
        track_index < media_item.subtitle_tracks@.len() ==> r is Ok && r->Ok_0.path@
            == resolved_path(
            media_item.root_path@,
            media_item.subtitle_tracks@[track_index as int].relative_path@,
        ) && r->Ok_0.extension@ == media_item.subtitle_tracks@[track_index as int].extension@,
        track_index >= media_item.subtitle_tracks@.len() ==> refusal(r) == Some(
            (404u16, "Subtitle track not found."@),
        ),
{
    if track_index >= media_item.subtitle_tracks.len() {
        return Err(ApiError::not_found("Subtitle track not found."));
    }
    let track = &media_item.subtitle_tracks[track_index];
    Ok(
        SubtitleSource {
            path: resolve_relative_path(
                media_item.root_path.as_str(),
                track.relative_path.as_str(),
            ),
            extension: track.extension.clone(),
        },
    )
}

/// Why an embedded subtitle is not sent, if it is not.
pub open spec fn embedded_refusal(item: MediaItem, index: u32, has_ffmpeg: bool) -> Option<
    (u16, Seq<char>),
> {
    let place = stream_place(item.subtitle_streams@, index);
    if place >= item.subtitle_streams@.len() {
        Some((404u16, "Subtitle stream not found."@))
    } else if !is_text_codec(opt_text(item.subtitle_streams@[place].codec)) {
        Some((400u16, "Selected embedded subtitle stream cannot be converted to WebVTT."@))
    } else if !has_ffmpeg {
        Some((500u16, "Embedded subtitle extraction requires ffmpeg to be configured."@))
    } else {
        None
    }
}

/// Decides which embedded subtitle stream is extracted. The result is its
/// place among the subtitle streams.
pub fn stream_embedded_subtitle(
    media_item: &MediaItem,
    stream_index: u32,
    has_ffmpeg: bool,
) -> (r: Result<usize, ApiError>)
    ensures
        refusal(r) == embedded_refusal(*media_item, stream_index, has_ffmpeg),
        r matches Ok(place) ==> place == stream_place(media_item.subtitle_streams@, stream_index),
{
    proof {
        lemma_stream_place(media_item.subtitle_streams@, stream_index);
    }
    match find_subtitle_stream(&media_item.subtitle_streams, stream_index) {
        None => Err(ApiError::not_found("Subtitle stream not found.")),
        Some(place) => {
            let codec: Option<&str> = as_opt_str(&media_item.subtitle_streams[place].codec);
            if !is_text_subtitle_codec(codec) {
                Err(
                    ApiError::bad_request(
                        "Selected embedded subtitle stream cannot be converted to WebVTT.",
                    ),
                )
            } else if !has_ffmpeg {
                Err(
                    ApiError::internal(
                        "Embedded subtitle extraction requires ffmpeg to be configured.",
                    ),
                )
            } else {
                Ok(place)
            }
        },
    }
}

/// What is streamed of a media item: the file itself where browsers play it; the output
/// of its stream copy, where it needs one and that is ready and of the file as it is now;
/// and otherwise nothing. One that is not supported is refused as such.
pub proof fn law_streams_are_playable(item: MediaItem, record: Option<StreamCopyRecord>)
    ensures
        ({
            let source = stream_source(item, current_copy(record, item));
            let ready = record is Some && record->0.source_size_bytes == item.size_bytes
                && record->0.source_modified_at@ == item.modified_at@ && record->0.status
                == StreamCopyStatus::Ready;
            &&& item.playback_mode == PlaybackMode::Direct ==> source is Ok && source->Ok_0.0
                == resolved_path(item.root_path@, item.relative_path@) && (
            item.content_type is Some ==> source->Ok_0.1 == item.content_type->0@)
            &&& item.playback_mode == PlaybackMode::NeedsPreparation ==> (source is Ok <==> ready
                && record->0.output_path is Some)
            &&& item.playback_mode == PlaybackMode::NeedsPreparation && source is Ok
                ==> source->Ok_0.0 == record->0.output_path->0@ && (
            record->0.output_content_type is Some ==> source->Ok_0.1
                == record->0.output_content_type->0@)
            &&& item.playback_mode == PlaybackMode::NeedsPreparation && !ready ==> source is Err
                && source->Err_0.0 == 409
            &&& item.playback_mode == PlaybackMode::Unsupported ==> source is Err
                && source->Err_0.0 == 415
        }),
{
}

/// A request for a stream copy is in order exactly where the chosen audio stream exists,
/// and where a subtitle is chosen if, and only if, the mode uses one, and it exists and
/// can be used in that way.
pub proof fn law_requests_name_what_exists(item: MediaItem, request: CreateStreamCopyRequest)
    ensures
        request_refusal(item, request) is None <==> {
            &&& request.audio_stream_index is Some ==> exists|i: int|
                0 <= i < item.audio_streams@.len() && (#[trigger] item.audio_streams@[i]).index
                    == request.audio_stream_index->0
            &&& request.subtitle_mode == SubtitleMode::Off <==> request.subtitle is None
            &&& request.subtitle is Some ==> {
                let index = request.subtitle->0.index;
                match request.subtitle->0.kind {
                    SubtitleSourceKind::Sidecar => index < item.subtitle_tracks@.len() && {
                        let format = lower(item.subtitle_tracks@[index as int].extension@);
                        format == "vtt"@ || format == "srt"@ || (request.subtitle_mode
                            != SubtitleMode::Sidecar && (format == "ass"@ || format == "ssa"@))
                    },
                    SubtitleSourceKind::Embedded => exists|i: int|
                        #![trigger item.subtitle_streams@[i]]
                        0 <= i < item.subtitle_streams@.len() && item.subtitle_streams@[i].index
                            == index && (forall|k: int|
                            0 <= k < i ==> (#[trigger] item.subtitle_streams@[k]).index != index)
                            && is_text_codec(opt_text(item.subtitle_streams@[i].codec)),
                }
            }
        },
{
    if request.subtitle is Some {
        let index = request.subtitle->0.index;
        let streams = item.subtitle_streams@;
        lemma_stream_place(streams, index);
        let place = stream_place(streams, index);
        assert forall|i: int|
            #![trigger streams[i]]
            0 <= i < streams.len() && streams[i].index == index && (forall|k: int|
                0 <= k < i ==> (#[trigger] streams[k]).index != index) implies i == place by {
            if place < i {
                assert(streams[place].index != index);
            }
        }
        if place < streams.len() {
            assert(streams[place].index == index);
        }
    }
}

/// A stored copy answers one request only: two requests that it answers ask for the same.
pub proof fn law_a_copy_answers_one_request(
    record: StreamCopyRecord,
    a: CreateStreamCopyRequest,
    b: CreateStreamCopyRequest,
)
    requires
        same_request(record, a),
        same_request(record, b),
    ensures
        a.audio_stream_index == b.audio_stream_index,
        a.subtitle_mode == b.subtitle_mode,
        a.subtitle == b.subtitle,
{
}

/// A request is taken where the item needs a copy, the request is in order, and no other
/// copy of the item as it is now is queued or being made. It is answered with a stored
/// copy that is what it asks for, unless that failed.
pub proof fn law_requests_are_taken_or_answered(
    item: MediaItem,
    request: CreateStreamCopyRequest,
    record: Option<StreamCopyRecord>,
)
    ensures
        ({
            let copy = current_copy(record, item);
            let current = record is Some && record->0.source_size_bytes == item.size_bytes
                && record->0.source_modified_at@ == item.modified_at@;
            let busy = current && !same_request(record->0, request) && (record->0.status
                == StreamCopyStatus::Queued || record->0.status == StreamCopyStatus::Running);
            &&& copy_refusal(item, request, copy) is None <==> item.playback_mode
                == PlaybackMode::NeedsPreparation && request_refusal(item, request) is None && !busy
            &&& item.playback_mode == PlaybackMode::Direct ==> (copy_refusal(
                item,
                request,
                copy,
            )->0).0 == 409
            &&& item.playback_mode == PlaybackMode::Unsupported ==> (copy_refusal(
                item,
                request,
                copy,
            )->0).0 == 415
            &&& item.playback_mode == PlaybackMode::NeedsPreparation && request_refusal(
                item,
                request,
            ) is Some ==> (copy_refusal(item, request, copy)->0).0 == 400
            &&& reuses(copy, request) <==> current && same_request(record->0, request)
                && record->0.status != StreamCopyStatus::Failed
        }),
{
}

/// A prepared subtitle is sent exactly where the copy of the file as it is now is ready
/// and has one.
pub proof fn law_prepared_subtitles_belong_to_ready_copies(
    item: MediaItem,
    record: Option<StreamCopyRecord>,
)
    ensures
        ({
            let sent = prepared_subtitle(item, current_copy(record, item));
            &&& sent is Ok <==> record is Some && record->0.source_size_bytes == item.size_bytes
                && record->0.source_modified_at@ == item.modified_at@ && record->0.status
                == StreamCopyStatus::Ready && record->0.subtitle_path is Some
            &&& sent is Ok ==> sent->Ok_0 == record->0.subtitle_path->0@
            &&& record is None ==> sent->Err_0.0 == 404
        }),
{
}

/// A subtitle stream of a media file is sent where it exists, is text and ffmpeg is
/// there; one that does not exist is not found.
pub proof fn law_text_streams_are_sent(item: MediaItem, i: int, has_ffmpeg: bool)
    requires
        0 <= i < item.subtitle_streams@.len(),
        forall|k: int|
            0 <= k < i ==> (#[trigger] item.subtitle_streams@[k]).index
                != item.subtitle_streams@[i].index,
    ensures
        embedded_refusal(item, item.subtitle_streams@[i].index, has_ffmpeg) is None <==> has_ffmpeg
            && is_text_codec(opt_text(item.subtitle_streams@[i].codec)),
        forall|index: u32|
            (forall|k: int|
                0 <= k < item.subtitle_streams@.len() ==> (#[trigger] item.subtitle_streams@[k]).index
                    != index) ==> (#[trigger] embedded_refusal(item, index, has_ffmpeg) matches Some(
                refused,
            ) && refused.0 == 404),
{
    let streams = item.subtitle_streams@;
    lemma_stream_place(streams, streams[i].index);
    let place = stream_place(streams, streams[i].index);
    if place < i {
        assert(streams[place].index != streams[i].index);
    }
    assert forall|index: u32|
        (forall|k: int| 0 <= k < streams.len() ==> (#[trigger] streams[k]).index != index) implies (
    #[trigger] embedded_refusal(item, index, has_ffmpeg) matches Some(refused) && refused.0 == 404) by {
        lemma_stream_place(streams, index);
    }
}

/// A failed stream is answered by its cause: a missing file is not found, a malformed
/// range is a bad request, a range that cannot be granted says the length of the file.
pub proof fn law_failures_are_answered_by_their_cause(r: StreamFailure, error: StreamMediaError)
    requires
        answers_failure(r, error),
    ensures
        error is NotFound ==> (r matches StreamFailure::Refused(refused) && refused@.0 == 404),
        error is MalformedRange ==> (r matches StreamFailure::Refused(refused) && refused@.0 == 400),
        error is Io ==> (r matches StreamFailure::Refused(refused) && refused@.0 == 500),
        error matches StreamMediaError::UnsatisfiableRange { file_len } ==> r
            == (StreamFailure::RangeNotSatisfiable { file_len }),
{
}

/// From the request to the file: a copy that was queued for an item, made and marked as
/// ready is what the item streams, with its type and its subtitle. While it is queued or
/// being made, and after it failed, nothing is streamed.
pub proof fn law_finished_copies_are_streamed(
    item: MediaItem,
    request: CreateStreamCopyRequest,
    stored: StreamCopyRequestRecord,
    existing: Option<StreamCopyRecord>,
    queued: StreamCopyRecord,
    running: StreamCopyRecord,
    ready: StreamCopyRecord,
    failed: StreamCopyRecord,
    output: Seq<char>,
    content_type: Seq<char>,
    subtitle: Option<Seq<char>>,
    error: Seq<char>,
    now: Seq<char>,
)
    requires
        item.playback_mode == PlaybackMode::NeedsPreparation,
        is_stored_request(stored, item, request, now),
        is_queued_row(queued, existing, stored),
        is_running_row(running, queued, now),
        is_ready_row(ready, running, output, content_type, subtitle, now),
        is_failed_row(failed, running, error, now),
    ensures
        stream_source(item, current_copy(Some(queued), item)) is Err,
        stream_source(item, current_copy(Some(running), item)) is Err,
        stream_source(item, current_copy(Some(ready), item)) == Ok::<
            (Seq<char>, Seq<char>),
            (u16, Seq<char>),
        >((output, content_type)),
        stream_source(item, current_copy(Some(failed), item)) is Err,
        subtitle is Some ==> prepared_subtitle(item, current_copy(Some(ready), item)) == Ok::<
            Seq<char>,
            (u16, Seq<char>),
        >(subtitle->0),
        subtitle is None ==> prepared_subtitle(item, current_copy(Some(ready), item)) is Err,
        reuses(current_copy(Some(queued), item), request),
        reuses(current_copy(Some(running), item), request),
        reuses(current_copy(Some(ready), item), request),
        !reuses(current_copy(Some(failed), item), request),
        opt_text(failed.error) == Some(error),
        running.error is None && ready.error is None,
{
}

/// A thumbnail is sent where one was made and there is a place for it.
pub proof fn law_made_thumbnails_are_sent(
    item: &MediaItem,
    path: Option<String>,
    r: Result<String, ApiError>,
)
    requires
        call_ensures(stream_thumbnail, (item, path), r),
    ensures
        r is Ok <==> item.thumbnail_generated_at is Some && path is Some,
        r matches Ok(sent) ==> path == Some(sent),
        r matches Err(error) ==> error@.0 == 404,
{
}

/// A subtitle file beside a media file is the one of the track at the given place.
pub proof fn law_subtitle_files_are_those_of_their_track(
    item: &MediaItem,
    index: usize,
    r: Result<SubtitleSource, ApiError>,
)
    requires
        call_ensures(stream_subtitle, (item, index), r),
    ensures
        r is Ok <==> index < item.subtitle_tracks@.len(),
        r matches Ok(source) ==> source.extension@ == item.subtitle_tracks@[index as int].extension@
            && source.path@ == resolved_path(
            item.root_path@,
            item.subtitle_tracks@[index as int].relative_path@,
        ),
        r matches Err(error) ==> error@.0 == 404,
{
}

/// A decision on a request refuses it, reuses the stored copy that answers it, or queues
/// what was asked for.
pub proof fn law_decisions_follow_the_request(
    item: &MediaItem,
    request: &CreateStreamCopyRequest,
    record: Option<StreamCopyRecord>,
    now: &str,
    r: Result<StreamCopyDecision, ApiError>,
)
    requires
        call_ensures(create_stream_copy, (item, request, record, now), r),
    ensures
        r is Ok ==> item.playback_mode == PlaybackMode::NeedsPreparation,
        r matches Ok(StreamCopyDecision::Reuse { record: found }) ==> record == Some(found)
            && found.status != StreamCopyStatus::Failed && found.source_size_bytes == item.size_bytes
            && found.source_modified_at@ == item.modified_at@ && found.audio_stream_index
            == request.audio_stream_index && found.subtitle_mode == request.subtitle_mode,
        r matches Ok(StreamCopyDecision::Queue { request: stored }) ==> stored.media_id == item.id
            && stored.source_size_bytes == item.size_bytes && stored.source_modified_at@
            == item.modified_at@ && stored.audio_stream_index == request.audio_stream_index
            && stored.subtitle_mode == request.subtitle_mode && (request.subtitle is Some
            ==> stored.subtitle_kind == Some(request.subtitle->0.kind) && stored.subtitle_index
            == Some(request.subtitle->0.index)) && (request.subtitle is None
            ==> stored.subtitle_kind is None && stored.subtitle_index is None) && stored.updated_at@
            == now@,
{
}

/// What is streamed is playable: the file of a direct item, or the output of a current copy
/// that is ready.
pub proof fn law_only_playable_files_are_streamed(
    item: &MediaItem,
    record: Option<StreamCopyRecord>,
    r: Result<StreamSource, ApiError>,
)
    requires
        call_ensures(stream_media, (item, record), r),
    ensures
        r is Ok ==> item.playback_mode != PlaybackMode::Unsupported,
        r is Ok && item.playback_mode == PlaybackMode::Direct ==> r->Ok_0.path@ == resolved_path(
            item.root_path@,
            item.relative_path@,
        ),
        r is Ok && item.playback_mode == PlaybackMode::NeedsPreparation ==> record is Some
            && record->0.status == StreamCopyStatus::Ready && record->0.source_size_bytes
            == item.size_bytes && record->0.source_modified_at@ == item.modified_at@
            && opt_text(record->0.output_path) == Some(r->Ok_0.path@),
        item.playback_mode == PlaybackMode::Direct ==> r is Ok,
{
}

} // verus!
