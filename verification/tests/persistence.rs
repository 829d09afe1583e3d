use stax_backend::clock::{AuthoritativePlaybackClock, PlaybackClockCheckpoint};
use stax_backend::persistence::keyframes::{update_keyframes, KeyframeRow};
use stax_backend::persistence::records::{StreamCopyRecord, StreamCopyRequestRecord};
use stax_backend::persistence::rows::{
    existing_media_record, load_library_status, map_joined_stream_copy_record,
    map_row_to_library_root, map_row_to_media_item, map_row_to_media_summary,
    map_row_to_room_record, map_row_to_stream_copy_record, parse_optional_u32, parse_optional_u8,
    parse_playback_status, pending_media_id, playback_status_to_str, preparation_state_for,
    save_room, save_stream_copy, CachedRow, JoinedCopyRow, MediaRow,
};
use stax_backend::persistence::stream_copies::{
    mark_failed, mark_ready, mark_running, queued_row, stream_copy_summary_for,
};
use stax_backend::persistence::PersistenceError;
use stax_backend::protocol::{
    PlaybackMode, PlaybackStatus, PreparationState, StreamCopyStatus, SubtitleMode,
    SubtitleSourceKind,
};
use stax_backend::rooms::RoomRecord;
use stax_backend::timestamp::{format_timestamp, parse_timestamp, Timestamp};

const ID: &str = "01234567-89ab-4def-8123-456789abcdef";
const ID_VALUE: u128 = 0x0123_4567_89ab_4def_8123_456789abcdef;
const EPOCH: &str = "1970-01-01T00:00:00Z";

fn room() -> RoomRecord {
    RoomRecord {
        id: ID_VALUE,
        name: "Room".into(),
        media_id: Some(7),
        media_title: Some("Solaris".into()),
        created_at: EPOCH.into(),
        clock: AuthoritativePlaybackClock::restore(PlaybackClockCheckpoint {
            status: PlaybackStatus::Playing,
            anchor_position_nanos: 12_300_000_000,
            updated_at: Timestamp::utc(1_500_000_000),
            playback_rate_micros: 1_000_000,
        }),
    }
}

#[test]
fn timestamps_read_back() {
    let stamp = Timestamp::utc(1_700_000_000_123_456_789);
    let text = format_timestamp(stamp);
    assert_eq!(text, "2023-11-14T22:13:20.123456789Z");
    assert_eq!(parse_timestamp(&text).unwrap(), stamp);
    assert!(parse_timestamp("yesterday").is_err());
}

#[test]
fn stored_rooms_read_back() {
    let row = save_room(&room());
    assert_eq!(row.id, ID);
    assert_eq!(row.status, "playing");
    assert_eq!(row.clock_updated_at, "1970-01-01T00:00:01.5Z");
    let record = map_row_to_room_record(row).unwrap();
    assert_eq!(record.id, ID_VALUE);
    assert_eq!(record.media_id, Some(7));
    assert_eq!(record.media_title.as_deref(), Some("Solaris"));
    assert_eq!(record.clock.checkpoint(), room().clock.checkpoint());
}

#[test]
fn broken_rooms_are_refused() {
    let mut row = save_room(&room());
    row.id = "not-an-id".into();
    match map_row_to_room_record(row) {
        Err(PersistenceError::InvalidData(message)) => {
            assert!(message.starts_with("invalid stored room id 'not-an-id': "), "{message}")
        }
        _ => panic!("expected invalid data"),
    }
    let mut row = save_room(&room());
    row.status = "rewinding".into();
    match map_row_to_room_record(row) {
        Err(PersistenceError::InvalidData(message)) => {
            assert_eq!(message, "invalid stored playback status 'rewinding'")
        }
        _ => panic!("expected invalid data"),
    }
    let mut row = save_room(&room());
    row.media_id = Some("x".into());
    assert!(map_row_to_room_record(row).is_err());
    let mut row = save_room(&room());
    row.clock_updated_at = "x".into();
    assert!(map_row_to_room_record(row).is_err());
}

#[test]
fn playback_status_reads_back() {
    for status in [PlaybackStatus::Playing, PlaybackStatus::Paused] {
        assert_eq!(parse_playback_status(playback_status_to_str(status)).unwrap(), status);
    }
    assert!(parse_playback_status("").is_err());
}

#[test]
fn stored_numbers_must_fit() {
    assert_eq!(parse_optional_u32(Some(4_294_967_295), "width").unwrap(), Some(u32::MAX));
    assert_eq!(parse_optional_u32(None, "width").unwrap(), None);
    match parse_optional_u32(Some(-1), "width") {
        Err(PersistenceError::InvalidData(message)) => {
            assert_eq!(message, "invalid stored width '-1'")
        }
        other => panic!("expected invalid data, got {other:?}"),
    }
    match parse_optional_u32(Some(4_294_967_296), "width") {
        Err(PersistenceError::InvalidData(message)) => assert_eq!(
            message,
            "invalid stored width '4294967296': out of range integral type conversion attempted"
        ),
        other => panic!("expected invalid data, got {other:?}"),
    }
    assert_eq!(parse_optional_u8(Some(10), "video_bit_depth").unwrap(), Some(10));
    assert!(parse_optional_u8(Some(256), "video_bit_depth").is_err());
}

fn copy(status: StreamCopyStatus) -> StreamCopyRecord {
    StreamCopyRecord {
        media_id: ID_VALUE,
        source_size_bytes: 100,
        source_modified_at: EPOCH.into(),
        status,
        audio_stream_index: Some(1),
        subtitle_mode: SubtitleMode::Sidecar,
        subtitle_kind: Some(SubtitleSourceKind::Embedded),
        subtitle_index: Some(3),
        output_path: Some("/out/stream.mp4".into()),
        output_content_type: Some("video/mp4".into()),
        subtitle_path: Some("/out/subtitle.vtt".into()),
        error: None,
        created_at: EPOCH.into(),
        updated_at: EPOCH.into(),
    }
}

#[test]
fn stored_copies_read_back() {
    let record = copy(StreamCopyStatus::Ready);
    assert_eq!(map_row_to_stream_copy_record(save_stream_copy(&record)).unwrap(), record);
}

#[test]
fn broken_copies_are_refused() {
    let mut row = save_stream_copy(&copy(StreamCopyStatus::Ready));
    row.status = "lost".into();
    match map_row_to_stream_copy_record(row) {
        Err(PersistenceError::InvalidData(message)) => {
            assert_eq!(message, "invalid stream copy status 'lost'")
        }
        other => panic!("expected invalid data, got {other:?}"),
    }
    let mut row = save_stream_copy(&copy(StreamCopyStatus::Ready));
    row.source_size_bytes = -1;
    assert!(map_row_to_stream_copy_record(row).is_err());
    let mut row = save_stream_copy(&copy(StreamCopyStatus::Ready));
    row.subtitle_mode = "loud".into();
    assert!(map_row_to_stream_copy_record(row).is_err());
}

fn no_copy() -> JoinedCopyRow {
    JoinedCopyRow {
        status: None,
        source_size_bytes: None,
        source_modified_at: None,
        audio_stream_index: None,
        subtitle_mode: None,
        subtitle_kind: None,
        subtitle_index: None,
        output_path: None,
        output_content_type: None,
        subtitle_path: None,
        error: None,
        created_at: None,
        updated_at: None,
    }
}

fn joined_copy() -> JoinedCopyRow {
    JoinedCopyRow {
        status: Some("ready".into()),
        source_size_bytes: Some(100),
        source_modified_at: Some(EPOCH.into()),
        audio_stream_index: Some(1),
        subtitle_mode: Some("sidecar".into()),
        subtitle_kind: Some("embedded".into()),
        subtitle_index: Some(3),
        output_path: Some("/out/stream.mp4".into()),
        output_content_type: Some("video/mp4".into()),
        subtitle_path: Some("/out/subtitle.vtt".into()),
        error: None,
        created_at: Some(EPOCH.into()),
        updated_at: Some(EPOCH.into()),
    }
}

#[test]
fn joined_copies_are_optional() {
    assert_eq!(map_joined_stream_copy_record(no_copy(), ID).unwrap(), None);
    assert_eq!(
        map_joined_stream_copy_record(joined_copy(), ID).unwrap(),
        Some(copy(StreamCopyStatus::Ready))
    );
    let mut partial = joined_copy();
    partial.source_size_bytes = None;
    match map_joined_stream_copy_record(partial, ID) {
        Err(PersistenceError::InvalidData(message)) => {
            assert_eq!(message, "stream copy row missing source size")
        }
        other => panic!("expected invalid data, got {other:?}"),
    }
}

fn media(mode: &str, copy: JoinedCopyRow) -> MediaRow {
    MediaRow {
        id: ID.into(),
        root_path: "/lib".into(),
        relative_path: "movie.mkv".into(),
        file_name: "movie.mkv".into(),
        extension: Some("mkv".into()),
        size_bytes: 100,
        modified_at: EPOCH.into(),
        indexed_at: EPOCH.into(),
        content_type: None,
        duration_millis: Some(1_000),
        container_name: None,
        video_codec: None,
        audio_codec: None,
        width: Some(1920),
        height: Some(1080),
        probed_at: None,
        probe_error: None,
        subtitle_tracks: Ok(Vec::new()),
        thumbnail_generated_at: None,
        thumbnail_error: None,
        playback_mode: mode.into(),
        video_profile: None,
        video_level: None,
        video_pix_fmt: None,
        video_bit_depth: None,
        audio_streams: Ok(Vec::new()),
        subtitle_streams: Ok(Vec::new()),
        copy,
    }
}

#[test]
fn media_rows_become_items() {
    let item = map_row_to_media_item(media("needsPreparation", joined_copy())).unwrap();
    assert_eq!(item.id, ID_VALUE);
    assert_eq!(item.width, Some(1920));
    assert_eq!(item.preparation_state, PreparationState::Prepared);
    let summary = item.stream_copy.unwrap();
    assert_eq!(
        summary.subtitle_url.as_deref(),
        Some("/api/media/01234567-89ab-4def-8123-456789abcdef/stream-copy/subtitle")
    );

    let summary = map_row_to_media_summary(media("direct", no_copy())).unwrap();
    assert_eq!(summary.preparation_state, PreparationState::Direct);
    assert_eq!(summary.duration_millis, Some(1_000));
}

#[test]
fn copies_of_changed_files_do_not_count() {
    let mut row = media("needsPreparation", joined_copy());
    row.size_bytes = 101;
    let item = map_row_to_media_item(row).unwrap();
    assert_eq!(item.preparation_state, PreparationState::NeedsPreparation);
    assert!(item.stream_copy.is_none());
}

#[test]
fn broken_media_rows_are_refused() {
    assert!(map_row_to_media_item(media("sideways", no_copy())).is_err());
    let mut row = media("direct", no_copy());
    row.size_bytes = -1;
    assert!(map_row_to_media_item(row).is_err());
    let mut row = media("direct", no_copy());
    row.audio_streams = Err("eof".into());
    match map_row_to_media_item(row) {
        Err(PersistenceError::InvalidData(message)) => {
            assert_eq!(message, "invalid stored audio stream JSON: eof")
        }
        _ => panic!("expected invalid data"),
    }
}

#[test]
fn states_of_preparation_follow_the_copy() {
    let state = |status| preparation_state_for(PlaybackMode::NeedsPreparation, &Some(copy(status)));
    assert_eq!(state(StreamCopyStatus::Queued), PreparationState::Preparing);
    assert_eq!(state(StreamCopyStatus::Running), PreparationState::Preparing);
    assert_eq!(state(StreamCopyStatus::Ready), PreparationState::Prepared);
    assert_eq!(state(StreamCopyStatus::Failed), PreparationState::Failed);
    assert_eq!(
        preparation_state_for(PlaybackMode::NeedsPreparation, &None),
        PreparationState::NeedsPreparation
    );
    assert_eq!(preparation_state_for(PlaybackMode::Direct, &None), PreparationState::Direct);
}

#[test]
fn cached_rows_become_records() {
    let row = CachedRow {
        id: ID.into(),
        size_bytes: 5,
        modified_at: EPOCH.into(),
        duration_millis: None,
        container_name: None,
        video_codec: None,
        audio_codec: None,
        width: None,
        height: None,
        probed_at: None,
        probe_error: None,
        playback_mode: "unsupported".into(),
        video_profile: None,
        video_level: None,
        video_pix_fmt: None,
        video_bit_depth: None,
        audio_streams: Ok(Vec::new()),
        subtitle_streams: Ok(Vec::new()),
    };
    let record = existing_media_record(row).unwrap();
    assert_eq!((record.id, record.size_bytes), (ID_VALUE, 5));
    assert_eq!(pending_media_id(ID).unwrap(), ID_VALUE);
    assert_eq!(pending_media_id("{01234567-89AB-4DEF-8123-456789ABCDEF}").unwrap(), ID_VALUE);
    assert!(pending_media_id("zzz").is_err());
}

#[test]
fn library_state_is_loaded() {
    let status = load_library_status(3, false, true, false).unwrap();
    assert_eq!(status.revision, 3);
    assert!(status.has_pending_background_work);
    assert!(!load_library_status(3, false, false, false).unwrap().has_pending_background_work);
    assert!(load_library_status(-1, false, false, false).is_err());
    let root = map_row_to_library_root("/lib".into(), None, Some("denied".into()));
    assert_eq!(root.last_scan_error.as_deref(), Some("denied"));
}

fn request() -> StreamCopyRequestRecord {
    StreamCopyRequestRecord {
        media_id: ID_VALUE,
        source_size_bytes: 200,
        source_modified_at: EPOCH.into(),
        audio_stream_index: None,
        subtitle_mode: SubtitleMode::Off,
        subtitle_kind: None,
        subtitle_index: None,
        updated_at: "1970-01-01T00:00:09Z".into(),
    }
}

#[test]
fn copies_go_through_their_states() {
    let old = copy(StreamCopyStatus::Failed);
    let mut record = queued_row(Some(&old), &request());
    assert_eq!(record.status, StreamCopyStatus::Queued);
    assert_eq!(record.created_at, EPOCH);
    assert_eq!(record.output_path, None);
    assert_eq!(queued_row(None, &request()).created_at, "1970-01-01T00:00:09Z");

    mark_running(&mut record, "1970-01-01T00:00:10Z");
    assert_eq!(record.status, StreamCopyStatus::Running);

    mark_ready(&mut record, "/o.mp4", "video/mp4", None, "1970-01-01T00:00:11Z");
    assert_eq!(record.status, StreamCopyStatus::Ready);
    assert_eq!(record.output_path.as_deref(), Some("/o.mp4"));
    assert_eq!(stream_copy_summary_for(ID_VALUE, &record).subtitle_url, None);

    mark_failed(&mut record, "bad", "1970-01-01T00:00:12Z");
    assert_eq!(record.status, StreamCopyStatus::Failed);
    assert_eq!(record.error.as_deref(), Some("bad"));
}

#[test]
fn errors_of_the_database_have_messages() {
    assert!(PersistenceError::InvalidData("bad".into()).message().contains("bad"));
    assert!(PersistenceError::Sqlx("locked".into()).message().contains("locked"));
    assert!(PersistenceError::Migrate("stale".into()).message().contains("stale"));
}

#[test]
fn keyframes_are_stored_in_batches() {
    let offsets: Vec<i128> = (0..1_001).map(|index| index * 41_708_333).collect();
    let batches = update_keyframes(&offsets);
    assert_eq!(batches.len(), 3);
    assert_eq!(batches[0].rows.len(), 500);
    assert_eq!(batches[2].rows, vec![KeyframeRow { kf_index: 1_000, pts_nanos: 41_708_333_000 }]);
    assert_eq!(
        batches[2].statement,
        "INSERT INTO media_keyframes (media_id, kf_index, pts_seconds) VALUES (?, ?, ?)"
    );
    assert!(update_keyframes(&Vec::new()).is_empty());
}
