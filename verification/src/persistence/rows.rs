//! Database rows as plain values, and the records that they stand for.
use crate::api::media::is_current;
use crate::clock::{AuthoritativePlaybackClock, PlaybackClockCheckpoint};
use crate::ids::{hyphenated, id_text, parse_id, parsed_id};
use crate::persistence::records::{CachedMediaRecord, LibraryStatusSnapshot, StreamCopyRecord};
use crate::persistence::stream_copies::{stream_copy_summary_for, summarizes};
use crate::persistence::{stored, PersistenceError};
use crate::protocol::{
    AudioStream, LibraryRoot, MediaItem, MediaSummary, PlaybackMode, PlaybackStatus,
    PreparationState, StreamCopyStatus, StreamCopySummary, SubtitleMode, SubtitleSourceKind,
    SubtitleStream, SubtitleTrack,
};
use crate::rooms::RoomRecord;
use crate::text::{
    concat2, concat3, copy_opt, opt_text, same_text, signed_decimal, signed_decimal_text,
};
use crate::timestamp::{
    format_timestamp, parse_timestamp, rfc3339_parsed, timestamp_message, Timestamp,
};
use vstd::prelude::*;

verus! {

fn invalid(message: String) -> (r: PersistenceError)
    ensures
        r == PersistenceError::InvalidData(message),
{
    PersistenceError::InvalidData(message)
}

/// The message for a stored value that cannot be, with the reason.
pub open spec fn reason_message(what: Seq<char>, value: Seq<char>, reason: Seq<char>) -> Seq<char> {
    what + value + "': "@ + reason
}

/// The message for a stored value that cannot be.
pub open spec fn value_message(what: Seq<char>, value: Seq<char>) -> Seq<char> {
    what + value + "'"@
}

fn with_reason(what: &str, value: &str, reason: &str) -> (r: String)
    ensures
        r@ == reason_message(what@, value@, reason@),
{
    concat3(what, value, "': ").concat(reason)
}

fn with_value(what: &str, value: &str) -> (r: String)
    ensures
        r@ == value_message(what@, value@),
{
    concat3(what, value, "'")
}

/// A stored identifier, or the message where it is none.
pub open spec fn stored_id(what: Seq<char>, text: Seq<char>) -> Result<u128, Seq<char>> {
    match parsed_id(text) {
        Ok(id) => Ok(id),
        Err(reason) => Err(reason_message(what, text, reason)),
    }
}

fn read_id(what: &str, text: &str) -> (r: Result<u128, PersistenceError>)
    ensures
        stored(r) == Some(stored_id(what@, text@)),
        forall|id: u128| text@ == #[trigger] hyphenated(id) ==> r is Ok && r->Ok_0 == id,
{
    match parse_id(text) {
        Ok(id) => Ok(id),
        Err(reason) => Err(invalid(with_reason(what, text, reason.as_str()))),
    }
}

/// A stored size, or the message where it is negative.
pub open spec fn stored_size(what: Seq<char>, size: i64) -> Result<u64, Seq<char>> {
    if size < 0 {
        Err(value_message(what, signed_decimal(size as int)))
    } else {
        Ok(size as u64)
    }
}

fn read_size(what: &str, size: i64) -> (r: Result<u64, PersistenceError>)
    ensures
        stored(r) == Some(stored_size(what@, size)),
{
    if size < 0 {
        Err(invalid(with_value(what, signed_decimal_text(size).as_str())))
    } else {
        Ok(size as u64)
    }
}

/// The reason why a number is too large for its type.
pub open spec fn too_large() -> Seq<char> {
    "out of range integral type conversion attempted"@
}

/// An optional stored number of at most `max`, or the message where it is
/// negative or too large.
pub open spec fn stored_number(value: Option<i64>, column: Seq<char>, max: int) -> Result<
    Option<int>,
    Seq<char>,
> {
    let what = "invalid stored "@ + column + " '"@;
    match value {
        None => Ok(None),
        Some(n) => if n < 0 {
            Err(value_message(what, signed_decimal(n as int)))
        } else if n > max {
            Err(reason_message(what, signed_decimal(n as int), too_large()))
        } else {
            Ok(Some(n as int))
        },
    }
}

/// An optional number as a machine integer.
pub open spec fn stored_u32(value: Option<i64>, column: Seq<char>) -> Result<
    Option<u32>,
    Seq<char>,
> {
    match stored_number(value, column, u32::MAX as int) {
        Ok(Some(n)) => Ok(Some(n as u32)),
        Ok(None) => Ok(None),
        Err(message) => Err(message),
    }
}

/// An optional number as a machine integer.
pub open spec fn stored_u8(value: Option<i64>, column: Seq<char>) -> Result<Option<u8>, Seq<char>> {
    match stored_number(value, column, u8::MAX as int) {
        Ok(Some(n)) => Ok(Some(n as u8)),
        Ok(None) => Ok(None),
        Err(message) => Err(message),
    }
}

/// Reads an optional stored number.
pub fn parse_optional_u32(value: Option<i64>, column: &str) -> (r: Result<
    Option<u32>,
    PersistenceError,
>)
    ensures
        stored(r) == Some(stored_u32(value, column@)),
{
    match value {
        None => Ok(None),
        Some(n) => {
            let what: String = concat3("invalid stored ", column, " '");
            if n < 0 {
                Err(invalid(with_value(what.as_str(), signed_decimal_text(n).as_str())))
            } else if n > 0xFFFF_FFFF {
                Err(
                    invalid(
                        with_reason(
                            what.as_str(),
                            signed_decimal_text(n).as_str(),
                            "out of range integral type conversion attempted",
                        ),
                    ),
                )
            } else {
                Ok(Some(n as u32))
            }
        },
    }
}

/// Reads an optional stored number.
pub fn parse_optional_u8(value: Option<i64>, column: &str) -> (r: Result<
    Option<u8>,
    PersistenceError,
>)
    ensures
        stored(r) == Some(stored_u8(value, column@)),
{
    match value {
        None => Ok(None),
        Some(n) => {
            let what: String = concat3("invalid stored ", column, " '");
            if n < 0 {
                Err(invalid(with_value(what.as_str(), signed_decimal_text(n).as_str())))
            } else if n > 255 {
                Err(
                    invalid(
                        with_reason(
                            what.as_str(),
                            signed_decimal_text(n).as_str(),
                            "out of range integral type conversion attempted",
                        ),
                    ),
                )
            } else {
                Ok(Some(n as u8))
            }
        },
    }
}

/// The stored name of a playback status.
pub open spec fn status_name(status: PlaybackStatus) -> Seq<char> {
    match status {
        PlaybackStatus::Playing => "playing"@,
        PlaybackStatus::Paused => "paused"@,
    }
}

/// The stored name of a playback status.
pub fn playback_status_to_str(status: PlaybackStatus) -> (r: &'static str)
    ensures
        r@ == status_name(status),
{
    match status {
        PlaybackStatus::Playing => "playing",
        PlaybackStatus::Paused => "paused",
    }
}

/// A stored playback status, or the message where it is none.
pub open spec fn stored_status(value: Seq<char>) -> Result<PlaybackStatus, Seq<char>> {
    if value == "playing"@ {
        Ok(PlaybackStatus::Playing)
    } else if value == "paused"@ {
        Ok(PlaybackStatus::Paused)
    } else {
        Err(value_message("invalid stored playback status '"@, value))
    }
}

/// Reads a stored playback status.
pub fn parse_playback_status(value: &str) -> (r: Result<PlaybackStatus, PersistenceError>)
    ensures
        stored(r) == Some(stored_status(value@)),
{
    if same_text(value, "playing") {
        Ok(PlaybackStatus::Playing)
    } else if same_text(value, "paused") {
        Ok(PlaybackStatus::Paused)
    } else {
        Err(invalid(with_value("invalid stored playback status '", value)))
    }
}

/// The stored name of a status is read back as that status.
pub proof fn law_status_reads_back(status: PlaybackStatus)
    ensures
        stored_status(status_name(status)) == Ok::<PlaybackStatus, Seq<char>>(status),
{
    reveal_strlit("playing");
    reveal_strlit("paused");
    assert("playing"@.len() != "paused"@.len());
}

/// A stored room.
#[derive(Debug, PartialEq, Eq)]
pub struct RoomRow {
    pub id: String,
    pub name: String,
    pub media_id: Option<String>,
    pub media_title: Option<String>,
    pub created_at: String,
    pub status: String,
    pub anchor_position_nanos: i128,
    pub clock_updated_at: String,
    pub playback_rate_micros: u32,
}

/// The media item of a stored room, or the message where it is none.
pub open spec fn stored_media_id(value: Option<Seq<char>>) -> Result<Option<u128>, Seq<char>> {
    match value {
        None => Ok(None),
        Some(text) => match stored_id("invalid stored room media id '"@, text) {
            Ok(id) => Ok(Some(id)),
            Err(message) => Err(message),
        },
    }
}

/// Why a stored room cannot be read, if it cannot.
pub open spec fn room_row_error(row: RoomRow) -> Option<Seq<char>> {
    if stored_media_id(opt_text(row.media_id)) is Err {
        Some(stored_media_id(opt_text(row.media_id))->Err_0)
    } else if stored_id("invalid stored room id '"@, row.id@) is Err {
        Some(stored_id("invalid stored room id '"@, row.id@)->Err_0)
    } else if stored_status(row.status@) is Err {
        Some(stored_status(row.status@)->Err_0)
    } else if rfc3339_parsed(row.clock_updated_at@) is Err {
        Some(
            timestamp_message(
                row.clock_updated_at@,
                rfc3339_parsed(row.clock_updated_at@)->Err_0,
            ),
        )
    } else {
        None
    }
}

/// Whether `record` is the room of a row that can be read.
pub open spec fn is_room_of(record: RoomRecord, row: RoomRow) -> bool {
    let time = rfc3339_parsed(row.clock_updated_at@)->Ok_0;
    &&& record.id == stored_id("invalid stored room id '"@, row.id@)->Ok_0
    &&& record.name == row.name
    &&& record.media_id == stored_media_id(opt_text(row.media_id))->Ok_0
    &&& record.media_title == row.media_title
    &&& record.created_at == row.created_at
    &&& record.clock@ == (PlaybackClockCheckpoint {
        status: stored_status(row.status@)->Ok_0,
        anchor_position_nanos: row.anchor_position_nanos,
        updated_at: Timestamp { local_nanos: time.0, offset_seconds: time.1 },
        playback_rate_micros: row.playback_rate_micros,
    })
    &&& record.clock@.updated_at.formattable()
}

/// Whether a result is an error of invalid data with the given message.
pub open spec fn is_invalid<T>(r: Result<T, PersistenceError>, message: Seq<char>) -> bool {
    r matches Err(PersistenceError::InvalidData(text)) && text@ == message
}

/// Whether `row` is how a room is stored.
pub open spec fn is_row_of(row: RoomRow, record: RoomRecord) -> bool {
    &&& row.id@ == hyphenated(record.id)
    &&& row.name == record.name
    &&& opt_text(row.media_id) == (match record.media_id {
        Some(id) => Some(hyphenated(id)),
        None => None,
    })
    &&& row.media_title == record.media_title
    &&& row.created_at == record.created_at
    &&& row.status@ == status_name(record.clock@.status)
    &&& row.anchor_position_nanos == record.clock@.anchor_position_nanos
    &&& row.clock_updated_at@ == record.clock@.updated_at.rfc3339()
    &&& row.playback_rate_micros == record.clock@.playback_rate_micros
}

/// Whether two records are of the same room in the same state.
pub open spec fn same_room(a: RoomRecord, b: RoomRecord) -> bool {
    &&& a.id == b.id
    &&& a.name == b.name
    &&& a.media_id == b.media_id
    &&& a.media_title == b.media_title
    &&& a.created_at == b.created_at
    &&& a.clock@ == b.clock@
}

/// Reads a stored room. What a room was stored as is read back as that room:
/// its clock, its media item and all the rest.
pub fn map_row_to_room_record(row: RoomRow) -> (r: Result<RoomRecord, PersistenceError>)
    ensures
        match room_row_error(row) {
            Some(message) => is_invalid(r, message),
            None => r is Ok && is_room_of(r->Ok_0, row),
        },
        forall|record: RoomRecord|
            #[trigger] is_row_of(row, record) && record.clock@.updated_at.formattable() ==> r is Ok
                && same_room(r->Ok_0, record),
{
    proof {
        law_status_reads_back(PlaybackStatus::Playing);
        law_status_reads_back(PlaybackStatus::Paused);
    }
    let media_id: Option<u128> = match &row.media_id {
        Some(value) => match read_id("invalid stored room media id '", value.as_str()) {
            Ok(id) => Some(id),
            Err(error) => {
                return Err(error);
            },
        },
        None => None,
    };
    let id: u128 = match read_id("invalid stored room id '", row.id.as_str()) {
        Ok(id) => id,
        Err(error) => {
            return Err(error);
        },
    };
    let status: PlaybackStatus = match parse_playback_status(row.status.as_str()) {
        Ok(status) => status,
        Err(error) => {
            return Err(error);
        },
    };
    let updated_at: Timestamp = match parse_timestamp(row.clock_updated_at.as_str()) {
        Ok(time) => time,
        Err(message) => {
            return Err(invalid(message));
        },
    };
    Ok(
        RoomRecord {
            id,
            name: row.name,
            media_id,
            media_title: row.media_title,
            created_at: row.created_at,
            clock: AuthoritativePlaybackClock::restore(
                PlaybackClockCheckpoint {
                    status,
                    anchor_position_nanos: row.anchor_position_nanos,
                    updated_at,
                    playback_rate_micros: row.playback_rate_micros,
                },
            ),
        },
    )
}

/// The row that a room is stored as.
pub fn save_room(record: &RoomRecord) -> (r: RoomRow)
    requires
        record.clock@.updated_at.formattable(),
    ensures
        is_row_of(r, *record),
{
    let checkpoint: PlaybackClockCheckpoint = record.clock.checkpoint();
    RoomRow {
        id: id_text(record.id),
        name: record.name.clone(),
        media_id: match record.media_id {
            Some(id) => Some(id_text(id)),
            None => None,
        },
        media_title: copy_opt(&record.media_title),
        created_at: record.created_at.clone(),
        status: playback_status_to_str(checkpoint.status).to_owned(),
        anchor_position_nanos: checkpoint.anchor_position_nanos,
        clock_updated_at: format_timestamp(checkpoint.updated_at),
        playback_rate_micros: checkpoint.playback_rate_micros,
    }
}

/// A stored library root.
pub fn map_row_to_library_root(
    path: String,
    last_scanned_at: Option<String>,
    last_scan_error: Option<String>,
) -> (r: LibraryRoot)
    ensures
        r == (LibraryRoot { path, last_scanned_at, last_scan_error }),
{
    LibraryRoot { path, last_scanned_at, last_scan_error }
}

/// The library status of a stored revision and of what is pending, or the
/// error where the revision is negative.
pub fn load_library_status(
    revision: i64,
    has_pending_probes: bool,
    has_pending_thumbnails: bool,
    has_pending_stream_copies: bool,
) -> (r: Result<LibraryStatusSnapshot, PersistenceError>)
    ensures
        revision < 0 ==> is_invalid(
            r,
            value_message("invalid stored library revision '"@, signed_decimal(revision as int)),
        ),
        revision >= 0 ==> r is Ok && r->Ok_0 == (LibraryStatusSnapshot {
            revision: revision as u64,
            has_pending_background_work: has_pending_probes || has_pending_thumbnails
                || has_pending_stream_copies,
        }),
{
    if revision < 0 {
        return Err(
            invalid(
                with_value(
                    "invalid stored library revision '",
                    signed_decimal_text(revision).as_str(),
                ),
            ),
        );
    }
    Ok(
        LibraryStatusSnapshot {
            revision: revision as u64,
            has_pending_background_work: has_pending_probes || has_pending_thumbnails
                || has_pending_stream_copies,
        },
    )
}

/// A stored stream copy beside its media item; `status` is empty where there is
/// none.
#[derive(Debug, PartialEq, Eq)]
pub struct JoinedCopyRow {
    pub status: Option<String>,
    pub source_size_bytes: Option<i64>,
    pub source_modified_at: Option<String>,
    pub audio_stream_index: Option<i64>,
    pub subtitle_mode: Option<String>,
    pub subtitle_kind: Option<String>,
    pub subtitle_index: Option<i64>,
    pub output_path: Option<String>,
    pub output_content_type: Option<String>,
    pub subtitle_path: Option<String>,
    pub error: Option<String>,
    pub created_at: Option<String>,
    pub updated_at: Option<String>,
}

/// The stored kind of a subtitle source, or the message where it is none.
pub open spec fn stored_kind(value: Option<Seq<char>>) -> Result<
    Option<SubtitleSourceKind>,
    Seq<char>,
> {
    match value {
        None => Ok(None),
        Some(text) => match SubtitleSourceKind::named(text) {
            Some(kind) => Ok(Some(kind)),
            None => Err(value_message("invalid stream copy subtitle kind '"@, text)),
        },
    }
}

fn read_kind(value: &Option<String>) -> (r: Result<Option<SubtitleSourceKind>, PersistenceError>)
    ensures
        stored(r) == Some(stored_kind(opt_text(*value))),
{
    match value {
        None => Ok(None),
        Some(text) => match SubtitleSourceKind::from_str_opt(text.as_str()) {
            Some(kind) => Ok(Some(kind)),
            None => Err(
                invalid(with_value("invalid stream copy subtitle kind '", text.as_str())),
            ),
        },
    }
}

/// The stored status of a stream copy, or the message where it is none.
pub open spec fn stored_copy_status(text: Seq<char>) -> Result<StreamCopyStatus, Seq<char>> {
    match StreamCopyStatus::named(text) {
        Some(status) => Ok(status),
        None => Err(value_message("invalid stream copy status '"@, text)),
    }
}

fn read_copy_status(text: &str) -> (r: Result<StreamCopyStatus, PersistenceError>)
    ensures
        stored(r) == Some(stored_copy_status(text@)),
{
    match StreamCopyStatus::from_str_opt(text) {
        Some(status) => Ok(status),
        None => Err(invalid(with_value("invalid stream copy status '", text))),
    }
}

/// The subtitle mode of a stored stream copy beside its media item.
pub open spec fn joined_mode(value: Option<Seq<char>>) -> Option<SubtitleMode> {
    match value {
        Some(text) => SubtitleMode::named(text),
        None => None,
    }
}

/// Why a stored stream copy beside its media item cannot be read, if there is
/// one and it cannot.
pub open spec fn joined_copy_error(row: JoinedCopyRow, media_id: Seq<char>) -> Option<Seq<char>> {
    let audio = stored_u32(row.audio_stream_index, "stream_copy_audio_stream_index"@);
    let subtitle = stored_u32(row.subtitle_index, "stream_copy_subtitle_index"@);
    if row.status is None {
        None
    } else if row.source_size_bytes is None {
        Some("stream copy row missing source size"@)
    } else if row.source_size_bytes->0 < 0 {
        Some(
            value_message(
                "invalid stored stream copy source size '"@,
                signed_decimal(row.source_size_bytes->0 as int),
            ),
        )
    } else if stored_id("invalid stored media id '"@, media_id) is Err {
        Some(stored_id("invalid stored media id '"@, media_id)->Err_0)
    } else if stored_copy_status(row.status->0@) is Err {
        Some(stored_copy_status(row.status->0@)->Err_0)
    } else if joined_mode(opt_text(row.subtitle_mode)) is None {
        Some("stream copy row missing subtitle mode"@)
    } else if stored_kind(opt_text(row.subtitle_kind)) is Err {
        Some(stored_kind(opt_text(row.subtitle_kind))->Err_0)
    } else if row.source_modified_at is None {
        Some("stream copy row missing source modified_at"@)
    } else if audio is Err {
        Some(audio->Err_0)
    } else if subtitle is Err {
        Some(subtitle->Err_0)
    } else if row.created_at is None {
        Some("stream copy row missing created_at"@)
    } else if row.updated_at is None {
        Some("stream copy row missing updated_at"@)
    } else {
        None
    }
}

/// The stored stream copy beside a media item, where there is one and it can
/// be read.
pub open spec fn joined_copy(row: JoinedCopyRow, media_id: Seq<char>) -> Option<StreamCopyRecord> {
    if row.status is None {
        None
    } else {
        Some(
            StreamCopyRecord {
                media_id: stored_id("invalid stored media id '"@, media_id)->Ok_0,
                source_size_bytes: row.source_size_bytes->0 as u64,
                source_modified_at: row.source_modified_at->0,
                status: stored_copy_status(row.status->0@)->Ok_0,
                audio_stream_index: stored_u32(
                    row.audio_stream_index,
                    "stream_copy_audio_stream_index"@,
                )->Ok_0,
                subtitle_mode: joined_mode(opt_text(row.subtitle_mode))->0,
                subtitle_kind: stored_kind(opt_text(row.subtitle_kind))->Ok_0,
                subtitle_index: stored_u32(
                    row.subtitle_index,
                    "stream_copy_subtitle_index"@,
                )->Ok_0,
                output_path: row.output_path,
                output_content_type: row.output_content_type,
                subtitle_path: row.subtitle_path,
                error: row.error,
                created_at: row.created_at->0,
                updated_at: row.updated_at->0,
            },
        )
    }
}

/// Reads the stored stream copy beside a media item.
pub fn map_joined_stream_copy_record(row: JoinedCopyRow, media_id: &str) -> (r: Result<
    Option<StreamCopyRecord>,
    PersistenceError,
>)
    ensures
        match joined_copy_error(row, media_id@) {
            Some(message) => is_invalid(r, message),
            None => r is Ok && r->Ok_0 == joined_copy(row, media_id@),
        },
{
    let status_raw: String = match row.status {
        Some(text) => text,
        None => {
            return Ok(None);
        },
    };
    let size: i64 = match row.source_size_bytes {
        Some(size) => size,
        None => {
            return Err(invalid("stream copy row missing source size".to_owned()));
        },
    };
    let source_size_bytes: u64 = match read_size("invalid stored stream copy source size '", size) {
        Ok(size) => size,
        Err(error) => {
            return Err(error);
        },
    };
    let media_id: u128 = match read_id("invalid stored media id '", media_id) {
        Ok(id) => id,
        Err(error) => {
            return Err(error);
        },
    };
    let status: StreamCopyStatus = match read_copy_status(status_raw.as_str()) {
        Ok(status) => status,
        Err(error) => {
            return Err(error);
        },
    };
    let mode: Option<SubtitleMode> = match &row.subtitle_mode {
        Some(text) => SubtitleMode::from_str_opt(text.as_str()),
        None => None,
    };
    let subtitle_mode: SubtitleMode = match mode {
        Some(mode) => mode,
        None => {
            return Err(invalid("stream copy row missing subtitle mode".to_owned()));
        },
    };
    let subtitle_kind: Option<SubtitleSourceKind> = match read_kind(&row.subtitle_kind) {
        Ok(kind) => kind,
        Err(error) => {
            return Err(error);
        },
    };
    let source_modified_at: String = match row.source_modified_at {
        Some(text) => text,
        None => {
            return Err(invalid("stream copy row missing source modified_at".to_owned()));
        },
    };
    let audio_stream_index: Option<u32> = match parse_optional_u32(
        row.audio_stream_index,
        "stream_copy_audio_stream_index",
    ) {
        Ok(index) => index,
        Err(error) => {
            return Err(error);
        },
    };
    let subtitle_index: Option<u32> = match parse_optional_u32(
        row.subtitle_index,
        "stream_copy_subtitle_index",
    ) {
        Ok(index) => index,
        Err(error) => {
            return Err(error);
        },
    };
    let created_at: String = match row.created_at {
        Some(text) => text,
        None => {
            return Err(invalid("stream copy row missing created_at".to_owned()));
        },
    };
    let updated_at: String = match row.updated_at {
        Some(text) => text,
        None => {
            return Err(invalid("stream copy row missing updated_at".to_owned()));
        },
    };
    Ok(
        Some(
            StreamCopyRecord {
                media_id,
                source_size_bytes,
                source_modified_at,
                status,
                audio_stream_index,
                subtitle_mode,
                subtitle_kind,
                subtitle_index,
                output_path: row.output_path,
                output_content_type: row.output_content_type,
                subtitle_path: row.subtitle_path,
                error: row.error,
                created_at,
                updated_at,
            },
        ),
    )
}

/// A stored stream copy.
#[derive(Debug, PartialEq, Eq)]
pub struct CopyRow {
    pub media_id: String,
    pub source_size_bytes: i64,
    pub source_modified_at: String,
    pub status: String,
    pub audio_stream_index: Option<i64>,
    pub subtitle_mode: String,
    pub subtitle_kind: Option<String>,
    pub subtitle_index: Option<i64>,
    pub output_path: Option<String>,
    pub output_content_type: Option<String>,
    pub subtitle_path: Option<String>,
    pub error: Option<String>,
    pub created_at: String,
    pub updated_at: String,
}

/// Why a stored stream copy cannot be read, if it cannot.
pub open spec fn copy_row_error(row: CopyRow) -> Option<Seq<char>> {
    let id = stored_id("invalid stored stream copy media id '"@, row.media_id@);
    let audio = stored_u32(row.audio_stream_index, "audio_stream_index"@);
    let subtitle = stored_u32(row.subtitle_index, "subtitle_index"@);
    if id is Err {
        Some(id->Err_0)
    } else if row.source_size_bytes < 0 {
        Some(
            value_message(
                "invalid stored stream copy source size '"@,
                signed_decimal(row.source_size_bytes as int),
            ),
        )
    } else if stored_copy_status(row.status@) is Err {
        Some(stored_copy_status(row.status@)->Err_0)
    } else if SubtitleMode::named(row.subtitle_mode@) is None {
        Some(value_message("invalid stream copy subtitle mode '"@, row.subtitle_mode@))
    } else if stored_kind(opt_text(row.subtitle_kind)) is Err {
        Some(stored_kind(opt_text(row.subtitle_kind))->Err_0)
    } else if audio is Err {
        Some(audio->Err_0)
    } else if subtitle is Err {
        Some(subtitle->Err_0)
    } else {
        None
    }
}

/// The stream copy of a row that can be read.
pub open spec fn copy_of(row: CopyRow) -> StreamCopyRecord {
    StreamCopyRecord {
        media_id: stored_id("invalid stored stream copy media id '"@, row.media_id@)->Ok_0,
        source_size_bytes: row.source_size_bytes as u64,
        source_modified_at: row.source_modified_at,
        status: stored_copy_status(row.status@)->Ok_0,
        audio_stream_index: stored_u32(row.audio_stream_index, "audio_stream_index"@)->Ok_0,
        subtitle_mode: SubtitleMode::named(row.subtitle_mode@)->0,
        subtitle_kind: stored_kind(opt_text(row.subtitle_kind))->Ok_0,
        subtitle_index: stored_u32(row.subtitle_index, "subtitle_index"@)->Ok_0,
        output_path: row.output_path,
        output_content_type: row.output_content_type,
        subtitle_path: row.subtitle_path,
        error: row.error,
        created_at: row.created_at,
        updated_at: row.updated_at,
    }
}

/// An optional number as it is stored.
pub open spec fn stored_index(value: Option<u32>) -> Option<i64> {
    match value {
        Some(index) => Some(index as i64),
        None => None,
    }
}

/// Whether `row` is how a stream copy is stored.
pub open spec fn is_copy_row_of(row: CopyRow, record: StreamCopyRecord) -> bool {
    &&& row.media_id@ == hyphenated(record.media_id)
    &&& row.source_size_bytes == record.source_size_bytes
    &&& row.source_modified_at == record.source_modified_at
    &&& row.status@ == record.status.name()
    &&& row.audio_stream_index == stored_index(record.audio_stream_index)
    &&& row.subtitle_mode@ == record.subtitle_mode.name()
    &&& opt_text(row.subtitle_kind) == (match record.subtitle_kind {
        Some(kind) => Some(kind.name()),
        None => None,
    })
    &&& row.subtitle_index == stored_index(record.subtitle_index)
    &&& row.output_path == record.output_path
    &&& row.output_content_type == record.output_content_type
    &&& row.subtitle_path == record.subtitle_path
    &&& row.error == record.error
    &&& row.created_at == record.created_at
    &&& row.updated_at == record.updated_at
}

/// The row that a stream copy is stored as.
pub fn save_stream_copy(record: &StreamCopyRecord) -> (r: CopyRow)
    requires
        record.source_size_bytes <= i64::MAX,
    ensures
        is_copy_row_of(r, *record),
{
    CopyRow {
        media_id: id_text(record.media_id),
        source_size_bytes: record.source_size_bytes as i64,
        source_modified_at: record.source_modified_at.clone(),
        status: record.status.as_str().to_owned(),
        audio_stream_index: match record.audio_stream_index {
            Some(index) => Some(index as i64),
            None => None,
        },
        subtitle_mode: record.subtitle_mode.as_str().to_owned(),
        subtitle_kind: match record.subtitle_kind {
            Some(kind) => Some(kind.as_str().to_owned()),
            None => None,
        },
        subtitle_index: match record.subtitle_index {
            Some(index) => Some(index as i64),
            None => None,
        },
        output_path: copy_opt(&record.output_path),
        output_content_type: copy_opt(&record.output_content_type),
        subtitle_path: copy_opt(&record.subtitle_path),
        error: copy_opt(&record.error),
        created_at: record.created_at.clone(),
        updated_at: record.updated_at.clone(),
    }
}

/// Reads a stored stream copy. What a stream copy was stored as is read back as
/// that stream copy.
pub fn map_row_to_stream_copy_record(row: CopyRow) -> (r: Result<StreamCopyRecord, PersistenceError>)
    ensures
        match copy_row_error(row) {
            Some(message) => is_invalid(r, message),
            None => r is Ok && r->Ok_0 == copy_of(row),
        },
        forall|record: StreamCopyRecord| #[trigger]
            is_copy_row_of(row, record) ==> r is Ok && r->Ok_0 == record,
{
    proof {
        assert forall|record: StreamCopyRecord| #[trigger] is_copy_row_of(row, record) implies {
            &&& StreamCopyStatus::named(row.status@) == Some(record.status)
            &&& SubtitleMode::named(row.subtitle_mode@) == Some(record.subtitle_mode)
            &&& stored_kind(opt_text(row.subtitle_kind)) == Ok::<
                Option<SubtitleSourceKind>,
                Seq<char>,
            >(record.subtitle_kind)
        } by {
            record.status.law_name_reads_back(row.status@);
            record.subtitle_mode.law_name_reads_back(row.subtitle_mode@);
            if record.subtitle_kind is Some {
                record.subtitle_kind->0.law_name_reads_back(row.subtitle_mode@);
            }
        }
    }
    let media_id: u128 = match read_id(
        "invalid stored stream copy media id '",
        row.media_id.as_str(),
    ) {
        Ok(id) => id,
        Err(error) => {
            return Err(error);
        },
    };
    let source_size_bytes: u64 = match read_size(
        "invalid stored stream copy source size '",
        row.source_size_bytes,
    ) {
        Ok(size) => size,
        Err(error) => {
            return Err(error);
        },
    };
    let status: StreamCopyStatus = match read_copy_status(row.status.as_str()) {
        Ok(status) => status,
        Err(error) => {
            return Err(error);
        },
    };
    let subtitle_mode: SubtitleMode = match SubtitleMode::from_str_opt(
        row.subtitle_mode.as_str(),
    ) {
        Some(mode) => mode,
        None => {
            return Err(
                invalid(
                    with_value("invalid stream copy subtitle mode '", row.subtitle_mode.as_str()),
                ),
            );
        },
    };
    let subtitle_kind: Option<SubtitleSourceKind> = match read_kind(&row.subtitle_kind) {
        Ok(kind) => kind,
        Err(error) => {
            return Err(error);
        },
    };
    let audio_stream_index: Option<u32> = match parse_optional_u32(
        row.audio_stream_index,
        "audio_stream_index",
    ) {
        Ok(index) => index,
        Err(error) => {
            return Err(error);
        },
    };
    let subtitle_index: Option<u32> = match parse_optional_u32(
        row.subtitle_index,
        "subtitle_index",
    ) {
        Ok(index) => index,
        Err(error) => {
            return Err(error);
        },
    };
    Ok(
        StreamCopyRecord {
            media_id,
            source_size_bytes,
            source_modified_at: row.source_modified_at,
            status,
            audio_stream_index,
            subtitle_mode,
            subtitle_kind,
            subtitle_index,
            output_path: row.output_path,
            output_content_type: row.output_content_type,
            subtitle_path: row.subtitle_path,
            error: row.error,
            created_at: row.created_at,
            updated_at: row.updated_at,
        },
    )
}

/// Whether a media item can be played now, by its mode and its current stream
/// copy.
pub open spec fn preparation_of(mode: PlaybackMode, copy: Option<StreamCopyRecord>) -> PreparationState {
    match mode {
        PlaybackMode::Direct => PreparationState::Direct,
        PlaybackMode::Unsupported => PreparationState::Unsupported,
        PlaybackMode::NeedsPreparation => match copy {
            Some(record) => match record.status {
                StreamCopyStatus::Queued | StreamCopyStatus::Running => PreparationState::Preparing,
                StreamCopyStatus::Ready => PreparationState::Prepared,
                StreamCopyStatus::Failed => PreparationState::Failed,
            },
            None => PreparationState::NeedsPreparation,
        },
    }
}

/// Whether a media item can be played now.
pub fn preparation_state_for(
    playback_mode: PlaybackMode,
    current_stream_copy: &Option<StreamCopyRecord>,
) -> (r: PreparationState)
    ensures
        r == preparation_of(playback_mode, *current_stream_copy),
{
    match playback_mode {
        PlaybackMode::Direct => PreparationState::Direct,
        PlaybackMode::Unsupported => PreparationState::Unsupported,
        PlaybackMode::NeedsPreparation => match current_stream_copy {
            Some(record) => match record.status {
                StreamCopyStatus::Queued | StreamCopyStatus::Running => PreparationState::Preparing,
                StreamCopyStatus::Ready => PreparationState::Prepared,
                StreamCopyStatus::Failed => PreparationState::Failed,
            },
            None => PreparationState::NeedsPreparation,
        },
    }
}

/// What clients are told of the state of a media item agrees with what
/// streaming it is answered: an item that is prepared or direct is not refused
/// for want of preparation.
pub proof fn law_prepared_items_stream(item: MediaItem, copy: Option<StreamCopyRecord>)
    requires
        item.preparation_state == preparation_of(item.playback_mode, copy),
        copy matches Some(record) ==> record.status == StreamCopyStatus::Ready
            ==> record.output_path is Some,
    ensures
        crate::api::media::stream_source(item, copy) is Ok <==> item.preparation_state
            == PreparationState::Direct || item.preparation_state == PreparationState::Prepared,
{
}

/// A stored media item, with its stream copy and with the lists that are stored
/// as JSON: as they were read, or the text of the error.
#[derive(Debug)]
pub struct MediaRow {
    pub id: String,
    pub root_path: String,
    pub relative_path: String,
    pub file_name: String,
    pub extension: Option<String>,
    pub size_bytes: i64,
    pub modified_at: String,
    pub indexed_at: String,
    pub content_type: Option<String>,
    pub duration_millis: Option<i64>,
    pub container_name: Option<String>,
    pub video_codec: Option<String>,
    pub audio_codec: Option<String>,
    pub width: Option<i64>,
    pub height: Option<i64>,
    pub probed_at: Option<String>,
    pub probe_error: Option<String>,
    pub subtitle_tracks: Result<Vec<SubtitleTrack>, String>,
    pub thumbnail_generated_at: Option<String>,
    pub thumbnail_error: Option<String>,
    pub playback_mode: String,
    pub video_profile: Option<String>,
    pub video_level: Option<i64>,
    pub video_pix_fmt: Option<String>,
    pub video_bit_depth: Option<i64>,
    pub audio_streams: Result<Vec<AudioStream>, String>,
    pub subtitle_streams: Result<Vec<SubtitleStream>, String>,
    pub copy: JoinedCopyRow,
}

/// The stream copy of a media row that is of the file as it is now.
pub open spec fn current_joined_copy(row: MediaRow) -> Option<StreamCopyRecord> {
    match joined_copy(row.copy, row.id@) {
        Some(record) => if record.source_size_bytes == row.size_bytes as u64
            && record.source_modified_at@ == row.modified_at@ {
            Some(record)
        } else {
            None
        },
        None => None,
    }
}

/// Why the head of a media row cannot be read, if it cannot: its mode, its
/// identifier, its size or its stream copy.
pub open spec fn media_head_error(row: MediaRow) -> Option<Seq<char>> {
    if PlaybackMode::named(row.playback_mode@) is None {
        Some(value_message("invalid stored playback_mode '"@, row.playback_mode@))
    } else if stored_id("invalid stored media id '"@, row.id@) is Err {
        Some(stored_id("invalid stored media id '"@, row.id@)->Err_0)
    } else if row.size_bytes < 0 {
        Some(
            value_message(
                "invalid stored media size '"@,
                signed_decimal(row.size_bytes as int),
            ),
        )
    } else {
        joined_copy_error(row.copy, row.id@)
    }
}

/// The message for a stored list that is no JSON of its kind.
pub open spec fn json_error<T>(list: Result<Vec<T>, String>, what: Seq<char>) -> Option<Seq<char>> {
    match list {
        Ok(_) => None,
        Err(error) => Some(what + error@),
    }
}

/// The first message, in the order in which the fields are read.
pub open spec fn media_fields_error(row: MediaRow) -> Option<Seq<char>> {
    let tracks = json_error(row.subtitle_tracks, "invalid stored subtitle track JSON: "@);
    let audio = json_error(row.audio_streams, "invalid stored audio stream JSON: "@);
    let subtitles = json_error(row.subtitle_streams, "invalid stored subtitle stream JSON: "@);
    if stored_u32(row.width, "width"@) is Err {
        Some(stored_u32(row.width, "width"@)->Err_0)
    } else if stored_u32(row.height, "height"@) is Err {
        Some(stored_u32(row.height, "height"@)->Err_0)
    } else if tracks is Some {
        tracks
    } else if stored_u32(row.video_level, "video_level"@) is Err {
        Some(stored_u32(row.video_level, "video_level"@)->Err_0)
    } else if stored_u8(row.video_bit_depth, "video_bit_depth"@) is Err {
        Some(stored_u8(row.video_bit_depth, "video_bit_depth"@)->Err_0)
    } else if audio is Some {
        audio
    } else {
        subtitles
    }
}

/// Whether `item` is the media item of a row that can be read.
pub open spec fn is_item_of(item: MediaItem, row: MediaRow) -> bool {
    let id = stored_id("invalid stored media id '"@, row.id@)->Ok_0;
    let mode = PlaybackMode::named(row.playback_mode@)->0;
    let copy = current_joined_copy(row);
    &&& item.id == id
    &&& item.root_path == row.root_path
    &&& item.relative_path == row.relative_path
    &&& item.file_name == row.file_name
    &&& item.extension == row.extension
    &&& item.size_bytes == row.size_bytes
    &&& item.modified_at == row.modified_at
    &&& item.indexed_at == row.indexed_at
    &&& item.content_type == row.content_type
    &&& item.duration_millis == row.duration_millis
    &&& item.container_name == row.container_name
    &&& item.video_codec == row.video_codec
    &&& item.audio_codec == row.audio_codec
    &&& item.width == stored_u32(row.width, "width"@)->Ok_0
    &&& item.height == stored_u32(row.height, "height"@)->Ok_0
    &&& item.probed_at == row.probed_at
    &&& item.probe_error == row.probe_error
    &&& item.subtitle_tracks == row.subtitle_tracks->Ok_0
    &&& item.thumbnail_generated_at == row.thumbnail_generated_at
    &&& item.thumbnail_error == row.thumbnail_error
    &&& item.playback_mode == mode
    &&& item.preparation_state == preparation_of(mode, copy)
    &&& item.video_profile == row.video_profile
    &&& item.video_level == stored_u32(row.video_level, "video_level"@)->Ok_0
    &&& item.video_pix_fmt == row.video_pix_fmt
    &&& item.video_bit_depth == stored_u8(row.video_bit_depth, "video_bit_depth"@)->Ok_0
    &&& item.audio_streams == row.audio_streams->Ok_0
    &&& item.subtitle_streams == row.subtitle_streams->Ok_0
    &&& item.stream_copy is Some == (mode == PlaybackMode::NeedsPreparation && copy is Some)
    &&& item.stream_copy matches Some(summary) ==> summarizes(summary, id, copy->0)
        && summary.progress_ratio_billionths is None && summary.progress_speed_bits is None
}

fn read_media_head(
    playback_mode: &str,
    id: &str,
    size_bytes: i64,
    modified_at: &str,
    copy: JoinedCopyRow,
) -> (r: Result<(PlaybackMode, u128, u64, Option<StreamCopyRecord>), PersistenceError>)
    ensures
        ({
            let found = joined_copy(copy, id@);
            let current = if found matches Some(record) && record.source_size_bytes
                == size_bytes as u64 && record.source_modified_at@ == modified_at@ {
                found
            } else {
                None
            };
            if PlaybackMode::named(playback_mode@) is None {
                is_invalid(
                    r,
                    value_message("invalid stored playback_mode '"@, playback_mode@),
                )
            } else if stored_id("invalid stored media id '"@, id@) is Err {
                is_invalid(r, stored_id("invalid stored media id '"@, id@)->Err_0)
            } else if size_bytes < 0 {
                is_invalid(
                    r,
                    value_message(
                        "invalid stored media size '"@,
                        signed_decimal(size_bytes as int),
                    ),
                )
            } else if joined_copy_error(copy, id@) is Some {
                is_invalid(r, joined_copy_error(copy, id@)->0)
            } else {
                r is Ok && r->Ok_0 == (
                    PlaybackMode::named(playback_mode@)->0,
                    stored_id("invalid stored media id '"@, id@)->Ok_0,
                    size_bytes as u64,
                    current,
                )
            }
        }),
{
    let mode: PlaybackMode = match PlaybackMode::from_str_opt(playback_mode) {
        Some(mode) => mode,
        None => {
            return Err(invalid(with_value("invalid stored playback_mode '", playback_mode)));
        },
    };
    let media_id: u128 = match read_id("invalid stored media id '", id) {
        Ok(id) => id,
        Err(error) => {
            return Err(error);
        },
    };
    let size: u64 = match read_size("invalid stored media size '", size_bytes) {
        Ok(size) => size,
        Err(error) => {
            return Err(error);
        },
    };
    let found: Option<StreamCopyRecord> = match map_joined_stream_copy_record(copy, id) {
        Ok(found) => found,
        Err(error) => {
            return Err(error);
        },
    };
    let current: Option<StreamCopyRecord> = match found {
        Some(record) => {
            if record.source_size_bytes == size && same_text(
                record.source_modified_at.as_str(),
                modified_at,
            ) {
                Some(record)
            } else {
                None
            }
        },
        None => None,
    };
    Ok((mode, media_id, size, current))
}

/// Reads a stored media item.
pub fn map_row_to_media_item(row: MediaRow) -> (r: Result<MediaItem, PersistenceError>)
    ensures
        match media_head_error(row) {
            Some(message) => is_invalid(r, message),
            None => match media_fields_error(row) {
                Some(message) => is_invalid(r, message),
                None => r is Ok && is_item_of(r->Ok_0, row),
            },
        },
{
    let (playback_mode, id, size_bytes, copy) = match read_media_head(
        row.playback_mode.as_str(),
        row.id.as_str(),
        row.size_bytes,
        row.modified_at.as_str(),
        row.copy,
    ) {
        Ok(head) => head,
        Err(error) => {
            return Err(error);
        },
    };
    let preparation_state: PreparationState = preparation_state_for(playback_mode, &copy);
    let stream_copy: Option<StreamCopySummary> = match &copy {
        Some(record) => {
            if playback_mode == PlaybackMode::NeedsPreparation {
                Some(stream_copy_summary_for(id, record))
            } else {
                None
            }
        },
        None => None,
    };
    let width: Option<u32> = match parse_optional_u32(row.width, "width") {
        Ok(value) => value,
        Err(error) => {
            return Err(error);
        },
    };
    let height: Option<u32> = match parse_optional_u32(row.height, "height") {
        Ok(value) => value,
        Err(error) => {
            return Err(error);
        },
    };
    let subtitle_tracks: Vec<SubtitleTrack> = match row.subtitle_tracks {
        Ok(list) => list,
        Err(error) => {
            return Err(
                invalid(concat2("invalid stored subtitle track JSON: ", error.as_str())),
            );
        },
    };
    let video_level: Option<u32> = match parse_optional_u32(row.video_level, "video_level") {
        Ok(value) => value,
        Err(error) => {
            return Err(error);
        },
    };
    let video_bit_depth: Option<u8> = match parse_optional_u8(
        row.video_bit_depth,
        "video_bit_depth",
    ) {
        Ok(value) => value,
        Err(error) => {
            return Err(error);
        },
    };
    let audio_streams: Vec<AudioStream> = match row.audio_streams {
        Ok(list) => list,
        Err(error) => {
            return Err(invalid(concat2("invalid stored audio stream JSON: ", error.as_str())));
        },
    };
    let subtitle_streams: Vec<SubtitleStream> = match row.subtitle_streams {
        Ok(list) => list,
        Err(error) => {
            return Err(
                invalid(concat2("invalid stored subtitle stream JSON: ", error.as_str())),
            );
        },
    };
    Ok(
        MediaItem {
            id,
            root_path: row.root_path,
            relative_path: row.relative_path,
            file_name: row.file_name,
            extension: row.extension,
            size_bytes,
            modified_at: row.modified_at,
            indexed_at: row.indexed_at,
            content_type: row.content_type,
            duration_millis: row.duration_millis,
            container_name: row.container_name,
            video_codec: row.video_codec,
            audio_codec: row.audio_codec,
            width,
            height,
            probed_at: row.probed_at,
            probe_error: row.probe_error,
            subtitle_tracks,
            thumbnail_generated_at: row.thumbnail_generated_at,
            thumbnail_error: row.thumbnail_error,
            playback_mode,
            preparation_state,
            video_profile: row.video_profile,
            video_level,
            video_pix_fmt: row.video_pix_fmt,
            video_bit_depth,
            audio_streams,
            subtitle_streams,
            stream_copy,
        },
    )
}

/// The stream copy that a stored media item shows is always that of the file
/// as it is now.
pub proof fn law_media_item_shows_current_copy(item: MediaItem, row: MediaRow)
    requires
        media_head_error(row) is None,
        is_item_of(item, row),
        item.stream_copy is Some,
    ensures
        joined_copy(row.copy, row.id@) matches Some(record) && is_current(record, item),
{
}

/// Whether `summary` is the listing of a media row that can be read.
pub open spec fn is_summary_of(summary: MediaSummary, row: MediaRow) -> bool {
    let mode = PlaybackMode::named(row.playback_mode@)->0;
    &&& summary.id == stored_id("invalid stored media id '"@, row.id@)->Ok_0
    &&& summary.root_path == row.root_path
    &&& summary.relative_path == row.relative_path
    &&& summary.file_name == row.file_name
    &&& summary.extension == row.extension
    &&& summary.size_bytes == row.size_bytes
    &&& summary.indexed_at == row.indexed_at
    &&& summary.duration_millis == row.duration_millis
    &&& summary.probe_error == row.probe_error
    &&& summary.subtitle_track_count == row.subtitle_tracks->Ok_0@.len()
    &&& summary.audio_stream_count == row.audio_streams->Ok_0@.len()
    &&& summary.subtitle_stream_count == row.subtitle_streams->Ok_0@.len()
    &&& summary.thumbnail_generated_at == row.thumbnail_generated_at
    &&& summary.thumbnail_error == row.thumbnail_error
    &&& summary.preparation_state == preparation_of(mode, current_joined_copy(row))
}

/// The first message of the stored lists.
pub open spec fn media_lists_error(row: MediaRow) -> Option<Seq<char>> {
    let tracks = json_error(row.subtitle_tracks, "invalid stored subtitle track JSON: "@);
    let audio = json_error(row.audio_streams, "invalid stored audio stream JSON: "@);
    let subtitles = json_error(row.subtitle_streams, "invalid stored subtitle stream JSON: "@);
    if tracks is Some {
        tracks
    } else if audio is Some {
        audio
    } else {
        subtitles
    }
}

/// Reads a stored media item for the library listing.
pub fn map_row_to_media_summary(row: MediaRow) -> (r: Result<MediaSummary, PersistenceError>)
    ensures
        match media_head_error(row) {
            Some(message) => is_invalid(r, message),
            None => match media_lists_error(row) {
                Some(message) => is_invalid(r, message),
                None => r is Ok && is_summary_of(r->Ok_0, row),
            },
        },
{
    let (playback_mode, id, size_bytes, copy) = match read_media_head(
        row.playback_mode.as_str(),
        row.id.as_str(),
        row.size_bytes,
        row.modified_at.as_str(),
        row.copy,
    ) {
        Ok(head) => head,
        Err(error) => {
            return Err(error);
        },
    };
    let subtitle_track_count: usize = match &row.subtitle_tracks {
        Ok(list) => list.len(),
        Err(error) => {
            return Err(
                invalid(concat2("invalid stored subtitle track JSON: ", error.as_str())),
            );
        },
    };
    let audio_stream_count: usize = match &row.audio_streams {
        Ok(list) => list.len(),
        Err(error) => {
            return Err(invalid(concat2("invalid stored audio stream JSON: ", error.as_str())));
        },
    };
    let subtitle_stream_count: usize = match &row.subtitle_streams {
        Ok(list) => list.len(),
        Err(error) => {
            return Err(
                invalid(concat2("invalid stored subtitle stream JSON: ", error.as_str())),
            );
        },
    };
    Ok(
        MediaSummary {
            id,
            root_path: row.root_path,
            relative_path: row.relative_path,
            file_name: row.file_name,
            extension: row.extension,
            size_bytes,
            indexed_at: row.indexed_at,
            duration_millis: row.duration_millis,
            probe_error: row.probe_error,
            subtitle_track_count,
            audio_stream_count,
            subtitle_stream_count,
            thumbnail_generated_at: row.thumbnail_generated_at,
            thumbnail_error: row.thumbnail_error,
            preparation_state: preparation_state_for(playback_mode, &copy),
        },
    )
}

/// A stored media item as a scan compares and reuses it.
#[derive(Debug)]
pub struct CachedRow {
    pub id: String,
    pub size_bytes: i64,
    pub modified_at: String,
    pub duration_millis: Option<i64>,
    pub container_name: Option<String>,
    pub video_codec: Option<String>,
    pub audio_codec: Option<String>,
    pub width: Option<i64>,
    pub height: Option<i64>,
    pub probed_at: Option<String>,
    pub probe_error: Option<String>,
    pub playback_mode: String,
    pub video_profile: Option<String>,
    pub video_level: Option<i64>,
    pub video_pix_fmt: Option<String>,
    pub video_bit_depth: Option<i64>,
    pub audio_streams: Result<Vec<AudioStream>, String>,
    pub subtitle_streams: Result<Vec<SubtitleStream>, String>,
}

/// Why a stored row cannot be reused, if it cannot be read: the first message
/// in the order in which the fields are read.
pub open spec fn cached_row_error(row: CachedRow) -> Option<Seq<char>> {
    let audio = json_error(row.audio_streams, "invalid stored audio stream JSON: "@);
    let subtitles = json_error(row.subtitle_streams, "invalid stored subtitle stream JSON: "@);
    if stored_id("invalid stored media id '"@, row.id@) is Err {
        Some(stored_id("invalid stored media id '"@, row.id@)->Err_0)
    } else if row.size_bytes < 0 {
        Some(
            value_message(
                "invalid stored media size '"@,
                signed_decimal(row.size_bytes as int),
            ),
        )
    } else if PlaybackMode::named(row.playback_mode@) is None {
        Some(value_message("invalid stored playback_mode '"@, row.playback_mode@))
    } else if stored_u32(row.width, "width"@) is Err {
        Some(stored_u32(row.width, "width"@)->Err_0)
    } else if stored_u32(row.height, "height"@) is Err {
        Some(stored_u32(row.height, "height"@)->Err_0)
    } else if stored_u32(row.video_level, "video_level"@) is Err {
        Some(stored_u32(row.video_level, "video_level"@)->Err_0)
    } else if stored_u8(row.video_bit_depth, "video_bit_depth"@) is Err {
        Some(stored_u8(row.video_bit_depth, "video_bit_depth"@)->Err_0)
    } else if audio is Some {
        audio
    } else {
        subtitles
    }
}

/// The record of a row that can be read.
pub open spec fn cached_record_of(row: CachedRow) -> CachedMediaRecord {
    CachedMediaRecord {
        id: stored_id("invalid stored media id '"@, row.id@)->Ok_0,
        size_bytes: row.size_bytes as u64,
        modified_at: row.modified_at,
        duration_millis: row.duration_millis,
        container_name: row.container_name,
        video_codec: row.video_codec,
        audio_codec: row.audio_codec,
        width: stored_u32(row.width, "width"@)->Ok_0,
        height: stored_u32(row.height, "height"@)->Ok_0,
        probed_at: row.probed_at,
        probe_error: row.probe_error,
        playback_mode: PlaybackMode::named(row.playback_mode@)->0,
        video_profile: row.video_profile,
        video_level: stored_u32(row.video_level, "video_level"@)->Ok_0,
        video_pix_fmt: row.video_pix_fmt,
        video_bit_depth: stored_u8(row.video_bit_depth, "video_bit_depth"@)->Ok_0,
        audio_streams: row.audio_streams->Ok_0,
        subtitle_streams: row.subtitle_streams->Ok_0,
    }
}

/// Reads a stored row for a scan.
pub fn existing_media_record(row: CachedRow) -> (r: Result<CachedMediaRecord, PersistenceError>)
    ensures
        match cached_row_error(row) {
            Some(message) => is_invalid(r, message),
            None => r is Ok && r->Ok_0 == cached_record_of(row),
        },
{
    let id: u128 = match read_id("invalid stored media id '", row.id.as_str()) {
        Ok(id) => id,
        Err(error) => {
            return Err(error);
        },
    };
    let size_bytes: u64 = match read_size("invalid stored media size '", row.size_bytes) {
        Ok(size) => size,
        Err(error) => {
            return Err(error);
        },
    };
    let playback_mode: PlaybackMode = match PlaybackMode::from_str_opt(
        row.playback_mode.as_str(),
    ) {
        Some(mode) => mode,
        None => {
            return Err(
                invalid(with_value("invalid stored playback_mode '", row.playback_mode.as_str())),
            );
        },
    };
    let width: Option<u32> = match parse_optional_u32(row.width, "width") {
        Ok(value) => value,
        Err(error) => {
            return Err(error);
        },
    };
    let height: Option<u32> = match parse_optional_u32(row.height, "height") {
        Ok(value) => value,
        Err(error) => {
            return Err(error);
        },
    };
    let video_level: Option<u32> = match parse_optional_u32(row.video_level, "video_level") {
        Ok(value) => value,
        Err(error) => {
            return Err(error);
        },
    };
    let video_bit_depth: Option<u8> = match parse_optional_u8(
        row.video_bit_depth,
        "video_bit_depth",
    ) {
        Ok(value) => value,
        Err(error) => {
            return Err(error);
        },
    };
    let audio_streams: Vec<AudioStream> = match row.audio_streams {
        Ok(list) => list,
        Err(error) => {
            return Err(invalid(concat2("invalid stored audio stream JSON: ", error.as_str())));
        },
    };
    let subtitle_streams: Vec<SubtitleStream> = match row.subtitle_streams {
        Ok(list) => list,
        Err(error) => {
            return Err(
                invalid(concat2("invalid stored subtitle stream JSON: ", error.as_str())),
            );
        },
    };
    Ok(
        CachedMediaRecord {
            id,
            size_bytes,
            modified_at: row.modified_at,
            duration_millis: row.duration_millis,
            container_name: row.container_name,
            video_codec: row.video_codec,
            audio_codec: row.audio_codec,
            width,
            height,
            probed_at: row.probed_at,
            probe_error: row.probe_error,
            playback_mode,
            video_profile: row.video_profile,
            video_level,
            video_pix_fmt: row.video_pix_fmt,
            video_bit_depth,
            audio_streams,
            subtitle_streams,
        },
    )
}

/// Reads the identifier of a pending job's media item.
pub fn pending_media_id(raw_id: &str) -> (r: Result<u128, PersistenceError>)
    ensures
        stored(r) == Some(stored_id("invalid stored media id '"@, raw_id@)),
{
    read_id("invalid stored media id '", raw_id)
}

/// Whether an item can be played is told by its mode and its current copy: an item that
/// browsers play is direct; one that needs a copy is prepared once that is ready, in
/// preparation while it is queued or being made, failed where it failed, and waiting
/// without one.
pub proof fn law_state_follows_mode_and_copy(
    mode: PlaybackMode,
    copy: Option<StreamCopyRecord>,
)
    ensures
        preparation_of(mode, copy) == PreparationState::Direct <==> mode == PlaybackMode::Direct,
        preparation_of(mode, copy) == PreparationState::Unsupported <==> mode
            == PlaybackMode::Unsupported,
        preparation_of(mode, copy) == PreparationState::Prepared <==> mode
            == PlaybackMode::NeedsPreparation && copy is Some && copy->0.status
            == StreamCopyStatus::Ready,
        preparation_of(mode, copy) == PreparationState::Preparing <==> mode
            == PlaybackMode::NeedsPreparation && copy is Some && (copy->0.status
            == StreamCopyStatus::Queued || copy->0.status == StreamCopyStatus::Running),
        preparation_of(mode, copy) == PreparationState::Failed <==> mode
            == PlaybackMode::NeedsPreparation && copy is Some && copy->0.status
            == StreamCopyStatus::Failed,
        preparation_of(mode, copy) == PreparationState::NeedsPreparation <==> mode
            == PlaybackMode::NeedsPreparation && copy is None,
{
}

/// A stored number is read as it is where its type holds it; one that is negative or too
/// large is refused.
pub proof fn law_numbers_are_read_as_stored(value: Option<i64>, column: Seq<char>)
    ensures
        value is None ==> stored_u32(value, column) == Ok::<Option<u32>, Seq<char>>(None)
            && stored_u8(value, column) == Ok::<Option<u8>, Seq<char>>(None),
        value is Some ==> (stored_u32(value, column) is Ok <==> 0 <= value->0 <= 0xFFFF_FFFF),
        value is Some ==> (stored_u8(value, column) is Ok <==> 0 <= value->0 <= 255),
        value is Some && stored_u32(value, column) is Ok ==> (stored_u32(value, column)->Ok_0 matches
            Some(n) && n == value->0),
        value is Some && stored_u8(value, column) is Ok ==> (stored_u8(value, column)->Ok_0 matches
            Some(n) && n == value->0),
{
}

/// An item is read from its row field by field.
pub proof fn law_items_show_their_rows(item: MediaItem, row: MediaRow)
    requires
        media_head_error(row) is None,
        media_fields_error(row) is None,
        is_item_of(item, row),
    ensures
        item.root_path == row.root_path,
        item.relative_path == row.relative_path,
        item.file_name == row.file_name,
        item.extension == row.extension,
        item.modified_at == row.modified_at,
        item.indexed_at == row.indexed_at,
        item.content_type == row.content_type,
        item.duration_millis == row.duration_millis,
        item.container_name == row.container_name,
        item.video_codec == row.video_codec,
        item.audio_codec == row.audio_codec,
        item.probed_at == row.probed_at,
        item.probe_error == row.probe_error,
        item.thumbnail_generated_at == row.thumbnail_generated_at,
        item.thumbnail_error == row.thumbnail_error,
        item.video_profile == row.video_profile,
        item.video_pix_fmt == row.video_pix_fmt,
        item.size_bytes == row.size_bytes,
        item.playback_mode.name() == row.playback_mode@,
        item.width is Some == row.width is Some && (item.width is Some ==> item.width->0
            == row.width->0),
        item.height is Some == row.height is Some && (item.height is Some ==> item.height->0
            == row.height->0),
        item.video_level is Some == row.video_level is Some && (item.video_level is Some
            ==> item.video_level->0 == row.video_level->0),
        item.video_bit_depth is Some == row.video_bit_depth is Some && (
        item.video_bit_depth is Some ==> item.video_bit_depth->0 == row.video_bit_depth->0),
        row.audio_streams == Ok::<Vec<AudioStream>, String>(item.audio_streams),
        row.subtitle_streams == Ok::<Vec<SubtitleStream>, String>(item.subtitle_streams),
        row.subtitle_tracks == Ok::<Vec<SubtitleTrack>, String>(item.subtitle_tracks),
        item.stream_copy is Some ==> item.playback_mode == PlaybackMode::NeedsPreparation,
{
    item.playback_mode.law_name_reads_back(row.playback_mode@);
}

/// The listing of an item agrees with the item: both are read from one row.
pub proof fn law_listings_agree_with_items(item: MediaItem, summary: MediaSummary, row: MediaRow)
    requires
        media_head_error(row) is None,
        media_fields_error(row) is None,
        is_item_of(item, row),
        is_summary_of(summary, row),
    ensures
        summary.id == item.id,
        summary.root_path == item.root_path && summary.relative_path == item.relative_path
            && summary.file_name == item.file_name && summary.extension == item.extension,
        summary.size_bytes == item.size_bytes && summary.indexed_at == item.indexed_at,
        summary.duration_millis == item.duration_millis && summary.probe_error == item.probe_error,
        summary.subtitle_track_count == item.subtitle_tracks@.len(),
        summary.audio_stream_count == item.audio_streams@.len(),
        summary.subtitle_stream_count == item.subtitle_streams@.len(),
        summary.thumbnail_generated_at == item.thumbnail_generated_at && summary.thumbnail_error
            == item.thumbnail_error,
        summary.preparation_state == item.preparation_state,
{
}

/// A scan reuses of a row what the item shows of it.
pub proof fn law_scans_reuse_what_items_show(item: MediaItem, row: MediaRow, cached: CachedRow)
    requires
        media_head_error(row) is None,
        media_fields_error(row) is None,
        is_item_of(item, row),
        cached_row_error(cached) is None,
        cached.id@ == row.id@ && cached.size_bytes == row.size_bytes && cached.modified_at
            == row.modified_at && cached.duration_millis == row.duration_millis
            && cached.container_name == row.container_name && cached.video_codec == row.video_codec
            && cached.audio_codec == row.audio_codec && cached.width == row.width && cached.height
            == row.height && cached.probed_at == row.probed_at && cached.probe_error
            == row.probe_error && cached.playback_mode@ == row.playback_mode@
            && cached.video_profile == row.video_profile && cached.video_level == row.video_level
            && cached.video_pix_fmt == row.video_pix_fmt && cached.video_bit_depth
            == row.video_bit_depth && cached.audio_streams == row.audio_streams
            && cached.subtitle_streams == row.subtitle_streams,
    ensures
        ({
            let record = cached_record_of(cached);
            &&& record.id == item.id && record.size_bytes == item.size_bytes && record.modified_at
                == item.modified_at
            &&& record.duration_millis == item.duration_millis && record.container_name
                == item.container_name
            &&& record.video_codec == item.video_codec && record.audio_codec == item.audio_codec
            &&& record.width == item.width && record.height == item.height
            &&& record.probed_at == item.probed_at && record.probe_error == item.probe_error
            &&& record.playback_mode == item.playback_mode
            &&& record.video_profile == item.video_profile && record.video_level == item.video_level
            &&& record.video_pix_fmt == item.video_pix_fmt && record.video_bit_depth
                == item.video_bit_depth
            &&& record.audio_streams == item.audio_streams && record.subtitle_streams
                == item.subtitle_streams
        }),
{
}

/// A copy is read alike from its own row and from beside its item.
pub proof fn law_copies_are_read_alike(row: CopyRow, beside: JoinedCopyRow)
    requires
        copy_row_error(row) is None,
        beside.status == Some(row.status) && beside.source_size_bytes == Some(row.source_size_bytes)
            && beside.source_modified_at == Some(row.source_modified_at)
            && beside.audio_stream_index == row.audio_stream_index && beside.subtitle_mode == Some(
            row.subtitle_mode,
        ) && beside.subtitle_kind == row.subtitle_kind && beside.subtitle_index
            == row.subtitle_index && beside.output_path == row.output_path
            && beside.output_content_type == row.output_content_type && beside.subtitle_path
            == row.subtitle_path && beside.error == row.error && beside.created_at == Some(
            row.created_at,
        ) && beside.updated_at == Some(row.updated_at),
    ensures
        joined_copy_error(beside, row.media_id@) is None,
        joined_copy(beside, row.media_id@) == Some(copy_of(row)),
{
}

/// The copy beside an item counts only where it is of the file as it is now.
pub proof fn law_only_current_copies_count(row: MediaRow)
    requires
        media_head_error(row) is None,
    ensures
        current_joined_copy(row) is Some <==> row.copy.status is Some && row.copy.source_size_bytes
            == Some(row.size_bytes) && row.copy.source_modified_at->0@ == row.modified_at@,
{
}

/// Work is pending while anything of the three kinds is.
pub proof fn law_any_pending_work_counts(
    revision: i64,
    probes: bool,
    thumbnails: bool,
    copies: bool,
    r: Result<LibraryStatusSnapshot, PersistenceError>,
)
    requires
        call_ensures(load_library_status, (revision, probes, thumbnails, copies), r),
    ensures
        r is Ok <==> revision >= 0,
        r matches Ok(status) ==> status.revision == revision && (status.has_pending_background_work
            <==> probes || thumbnails || copies),
{
}

} // verus!
