use stax_backend::api::library::{
    health, library_status_refusal, list_library_refusal, scan_library, ScanAction, ScanEvent,
};
use stax_backend::api::media::{
    create_stream_copy, current_stream_copy, file_failure, get_stream_copy,
    load_media_item_refusal, load_stream_copy_refusal, store_stream_copy_refusal, playback_unavailable_message, queue_full_refusal,
    queued_copy_missing_refusal, range_header_text, stream_copy_request_matches,
    stream_embedded_subtitle, stream_media, stream_media_failure, stream_prepared_subtitle,
    stream_subtitle, stream_thumbnail, validate_stream_copy_request, StreamCopyDecision,
    StreamFailure,
};
use stax_backend::persistence::records::StreamCopyRecord;
use stax_backend::persistence::stream_copies::queued_row;
use stax_backend::protocol::{
    AudioStream, CreateStreamCopyRequest, MediaItem, PlaybackMode, PreparationState,
    StreamCopyStatus, StreamCopySubtitleSelection, SubtitleMode, SubtitleSourceKind,
    SubtitleStream, SubtitleTrack,
};
use stax_backend::streaming::StreamMediaError;

const EPOCH: &str = "1970-01-01T00:00:00Z";

fn item(mode: PlaybackMode) -> MediaItem {
    MediaItem {
        id: 5,
        root_path: "/lib".into(),
        relative_path: "movie.mkv".into(),
        file_name: "movie.mkv".into(),
        extension: Some("mkv".into()),
        size_bytes: 100,
        modified_at: EPOCH.into(),
        indexed_at: EPOCH.into(),
        content_type: Some("video/x-matroska".into()),
        duration_millis: None,
        container_name: None,
        video_codec: Some("h264".into()),
        audio_codec: None,
        width: None,
        height: None,
        probed_at: Some(EPOCH.into()),
        probe_error: None,
        subtitle_tracks: vec![SubtitleTrack {
            file_name: "movie.en.srt".into(),
            relative_path: "movie.en.srt".into(),
            extension: "srt".into(),
            label: "EN".into(),
            language: None,
        }],
        thumbnail_generated_at: Some(EPOCH.into()),
        thumbnail_error: None,
        playback_mode: mode,
        preparation_state: PreparationState::NeedsPreparation,
        video_profile: None,
        video_level: None,
        video_pix_fmt: None,
        video_bit_depth: None,
        audio_streams: vec![AudioStream {
            index: 1,
            codec: Some("ac3".into()),
            channels: None,
            channel_layout: None,
            language: None,
            title: None,
            default: true,
        }],
        subtitle_streams: vec![
            SubtitleStream {
                index: 2,
                codec: Some("subrip".into()),
                language: None,
                title: None,
                default: false,
                forced: false,
            },
            SubtitleStream {
                index: 3,
                codec: Some("hdmv_pgs_subtitle".into()),
                language: None,
                title: None,
                default: false,
                forced: false,
            },
        ],
        stream_copy: None,
    }
}

fn ready() -> StreamCopyRecord {
    StreamCopyRecord {
        media_id: 5,
        source_size_bytes: 100,
        source_modified_at: EPOCH.into(),
        status: StreamCopyStatus::Ready,
        audio_stream_index: Some(1),
        subtitle_mode: SubtitleMode::Off,
        subtitle_kind: None,
        subtitle_index: None,
        output_path: Some("/out/stream.mp4".into()),
        output_content_type: Some("video/mp4".into()),
        subtitle_path: None,
        error: None,
        created_at: EPOCH.into(),
        updated_at: EPOCH.into(),
    }
}

fn wanted() -> CreateStreamCopyRequest {
    CreateStreamCopyRequest {
        audio_stream_index: Some(1),
        subtitle_mode: SubtitleMode::Off,
        subtitle: None,
    }
}

#[test]
fn health_endpoint_returns_ok() {
    let answer = health("1.2.3");
    assert_eq!(answer.status, "ok");
    assert_eq!(answer.service, "stax-backend");
    assert_eq!(answer.version, "1.2.3");
}

#[test]
fn scans_run_alone_and_enqueue_their_work() {
    assert!(matches!(scan_library(ScanEvent::Requested { running: false }), ScanAction::Scan));
    match scan_library(ScanEvent::Requested { running: true }) {
        ScanAction::Refuse { error } => assert_eq!(
            (error.status, error.message),
            (409, "A library scan is already running.")
        ),
        other => panic!("expected a refusal, got {other:?}"),
    }
    assert!(matches!(scan_library(ScanEvent::Scanned { ok: true }), ScanAction::ListProbes));
    assert!(matches!(
        scan_library(ScanEvent::ProbesListed { ok: true }),
        ScanAction::EnqueueProbes
    ));
    assert!(matches!(
        scan_library(ScanEvent::ThumbnailsListed { ok: true }),
        ScanAction::EnqueueThumbnails
    ));
    match scan_library(ScanEvent::ThumbnailsListed { ok: false }) {
        ScanAction::Refuse { error } => assert_eq!(
            (error.status, error.message),
            (500, "Failed to enqueue library scan work.")
        ),
        other => panic!("expected a refusal, got {other:?}"),
    }
    assert_eq!(list_library_refusal().message, "Failed to load library.");
    assert_eq!(library_status_refusal().message, "Failed to load library status.");
}

#[test]
fn media_that_plays_is_streamed_from_its_file() {
    let source = stream_media(&item(PlaybackMode::Direct), None).unwrap();
    assert_eq!(source.path, "/lib/movie.mkv");
    assert_eq!(source.content_type, "video/x-matroska");
}

#[test]
fn media_that_was_prepared_is_streamed_from_its_copy() {
    let source = stream_media(&item(PlaybackMode::NeedsPreparation), Some(ready())).unwrap();
    assert_eq!(source.path, "/out/stream.mp4");
    assert_eq!(source.content_type, "video/mp4");

    let mut lost = ready();
    lost.output_path = None;
    let error = stream_media(&item(PlaybackMode::NeedsPreparation), Some(lost)).unwrap_err();
    assert_eq!(
        (error.status, error.message),
        (500, "Prepared stream copy is missing an output file.")
    );
}

#[test]
fn media_that_does_not_play_is_refused() {
    let error = stream_media(&item(PlaybackMode::NeedsPreparation), None).unwrap_err();
    assert_eq!(error.status, 409);
    let error = stream_media(&item(PlaybackMode::Unsupported), None).unwrap_err();
    assert_eq!(error.status, 415);
    assert!(!playback_unavailable_message(&item(PlaybackMode::NeedsPreparation)).is_empty());
}

#[test]
fn copies_of_changed_files_are_not_current() {
    let mut changed = item(PlaybackMode::NeedsPreparation);
    assert!(current_stream_copy(Some(ready()), &changed).is_some());
    changed.size_bytes = 101;
    assert!(current_stream_copy(Some(ready()), &changed).is_none());
    let error = get_stream_copy(&changed, Some(ready())).unwrap_err();
    assert_eq!(
        (error.status, error.message),
        (404, "No current stream copy exists for this media.")
    );
}

#[test]
fn range_headers_must_be_text() {
    assert_eq!(range_header_text(None).unwrap(), None);
    assert_eq!(range_header_text(Some(b"bytes=0-")).unwrap().as_deref(), Some("bytes=0-"));
    let error = range_header_text(Some(&[0xff])).unwrap_err();
    assert_eq!((error.status, error.message), (400, "Range header must be valid ASCII."));
}

#[test]
fn failures_of_streaming_have_statuses() {
    assert!(matches!(
        stream_media_failure(&StreamMediaError::UnsatisfiableRange { file_len: 9 }),
        StreamFailure::RangeNotSatisfiable { file_len: 9 }
    ));
    match stream_media_failure(&StreamMediaError::MalformedRange("Bad range.")) {
        StreamFailure::Refused(error) => {
            assert_eq!((error.status, error.message), (400, "Bad range."))
        }
        _ => panic!("expected a refusal"),
    }
    let error = file_failure(&StreamMediaError::NotFound, "Gone.", "Broken.");
    assert_eq!((error.status, error.message), (404, "Gone."));
    let error = file_failure(&StreamMediaError::Io("x".into()), "Gone.", "Broken.");
    assert_eq!((error.status, error.message), (500, "Broken."));
    assert_eq!(load_media_item_refusal(true, "Broken.").message, "Media not found.");
    assert_eq!(load_media_item_refusal(false, "Broken.").status, 500);
}

#[test]
fn thumbnails_need_a_file() {
    let media = item(PlaybackMode::Direct);
    assert_eq!(stream_thumbnail(&media, Some("/t/5.jpg".into())).unwrap(), "/t/5.jpg");
    assert_eq!(stream_thumbnail(&media, None).unwrap_err().status, 404);
}

#[test]
fn requests_for_copies_are_checked() {
    let media = item(PlaybackMode::NeedsPreparation);
    assert!(validate_stream_copy_request(&media, &wanted()).is_ok());

    let mut audio = wanted();
    audio.audio_stream_index = Some(9);
    assert_eq!(validate_stream_copy_request(&media, &audio).unwrap_err().status, 400);

    let mut bitmap = wanted();
    bitmap.subtitle_mode = SubtitleMode::Sidecar;
    bitmap.subtitle =
        Some(StreamCopySubtitleSelection { kind: SubtitleSourceKind::Embedded, index: 3 });
    assert_eq!(validate_stream_copy_request(&media, &bitmap).unwrap_err().status, 400);

    let mut missing = wanted();
    missing.subtitle_mode = SubtitleMode::Burned;
    assert_eq!(validate_stream_copy_request(&media, &missing).unwrap_err().status, 400);
}

#[test]
fn the_same_request_is_not_queued_twice() {
    let media = item(PlaybackMode::NeedsPreparation);
    let request = match create_stream_copy(&media, &wanted(), None, EPOCH).unwrap() {
        StreamCopyDecision::Queue { request } => request,
        _ => panic!("expected a request"),
    };
    let stored = queued_row(None, &request);
    assert!(stream_copy_request_matches(&stored, &wanted()));
    assert!(matches!(
        create_stream_copy(&media, &wanted(), Some(stored), EPOCH).unwrap(),
        StreamCopyDecision::Reuse { .. }
    ));
}

#[test]
fn other_requests_are_queued() {
    let media = item(PlaybackMode::NeedsPreparation);
    let mut other = wanted();
    other.subtitle_mode = SubtitleMode::Sidecar;
    other.subtitle =
        Some(StreamCopySubtitleSelection { kind: SubtitleSourceKind::Embedded, index: 2 });
    assert!(matches!(
        create_stream_copy(&media, &other, Some(ready()), EPOCH).unwrap(),
        StreamCopyDecision::Queue { .. }
    ));
    let error = create_stream_copy(&item(PlaybackMode::Unsupported), &wanted(), None, EPOCH)
        .unwrap_err();
    assert_eq!(error.status, 415);
    assert_eq!(queue_full_refusal().status, 503);
    assert_eq!(queued_copy_missing_refusal().status, 500);
    assert_eq!(load_stream_copy_refusal().message, "Failed to load stream copy state.");
    assert_eq!(store_stream_copy_refusal().message, "Failed to create stream copy.");
}

#[test]
fn subtitles_are_found_or_refused() {
    let media = item(PlaybackMode::NeedsPreparation);
    let source = stream_subtitle(&media, 0).unwrap();
    assert_eq!((source.path.as_str(), source.extension.as_str()), ("/lib/movie.en.srt", "srt"));
    assert_eq!(stream_subtitle(&media, 1).unwrap_err().status, 404);

    assert_eq!(stream_embedded_subtitle(&media, 2, true).unwrap(), 0);
    assert_eq!(stream_embedded_subtitle(&media, 2, false).unwrap_err().status, 500);
    assert_eq!(stream_embedded_subtitle(&media, 3, true).unwrap_err().status, 400);
    assert_eq!(stream_embedded_subtitle(&media, 9, true).unwrap_err().status, 404);

    let mut with_subtitle = ready();
    with_subtitle.subtitle_path = Some("/out/subtitle.vtt".into());
    assert_eq!(
        stream_prepared_subtitle(&media, Some(with_subtitle)).unwrap(),
        "/out/subtitle.vtt"
    );
    assert_eq!(stream_prepared_subtitle(&media, Some(ready())).unwrap_err().status, 404);
    assert_eq!(stream_prepared_subtitle(&media, None).unwrap_err().status, 404);
}

#[test]
fn what_is_prepared_is_streamed() {
    for status in [
        StreamCopyStatus::Queued,
        StreamCopyStatus::Running,
        StreamCopyStatus::Ready,
        StreamCopyStatus::Failed,
    ] {
        let mut record = ready();
        record.status = status;
        let source = stream_media(&item(PlaybackMode::NeedsPreparation), Some(record));
        assert_eq!(source.is_ok(), status == StreamCopyStatus::Ready);
    }
}
