use stax_backend::library::config::{
    absolutize_root, normalize_root_path, LibraryConfig, LibraryEnvironment,
};
use stax_backend::library::playback::{classify_playback_mode, VideoPlaybackInfo};
use stax_backend::library::probe::{
    parse_json_u8_like, parse_probe_output, probe_arguments, probe_failure_text,
    probe_media_metadata, FfprobeFormat, FfprobeOutput, FfprobeStream, JsonScalar, ProbeRun,
};
use stax_backend::library::scan::{
    build_walk_record, build_walk_record_with_id, check_root, prune_missing_paths, prune_statement,
    sync_library_roots, upsert_walk_record, WalkStats,
};
use stax_backend::library::walk::{
    classify_directory, content_type_for_extension, humanize_subtitle_token, infer_language_code,
    normalize_relative_path, normalized_extension, subtitle_presentation, DirEntry,
    DirMediaCandidate, EntryKind, FileMetadata,
};
use stax_backend::persistence::records::{CachedMediaRecord, LibrarySnapshot, LibraryStatusSnapshot};
use stax_backend::protocol::{AudioStream, PlaybackMode};
use stax_backend::timestamp::Timestamp;

fn audio_stream(codec: &str) -> AudioStream {
    AudioStream {
        index: 0,
        codec: Some(codec.to_string()),
        channels: Some(2),
        channel_layout: Some("stereo".to_string()),
        language: None,
        title: None,
        default: true,
    }
}

#[test]
fn mod_classifier_marks_h264_aac_mp4_as_direct() {
    let mode = classify_playback_mode(
        Some("mov,mp4,m4a,3gp,3g2,mj2"),
        Some("mp4"),
        VideoPlaybackInfo {
            codec: Some("h264"),
            profile: Some("High"),
            pix_fmt: Some("yuv420p"),
            level: Some(40),
            bit_depth: Some(8),
        },
        &[audio_stream("aac")],
    );

    assert_eq!(mode, PlaybackMode::Direct);
}

#[test]
fn library_classifier_marks_h264_aac_mp4_as_direct() {
    let mode = classify_playback_mode(
        Some("mov,mp4,m4a,3gp,3g2,mj2"),
        Some("mp4"),
        VideoPlaybackInfo {
            codec: Some("h264"),
            profile: Some("High"),
            pix_fmt: Some("yuv420p"),
            level: Some(40),
            bit_depth: Some(8),
        },
        &[audio_stream("aac")],
    );

    assert_eq!(mode, PlaybackMode::Direct);
}

#[test]
fn mod_classifier_marks_mkv_with_client_decodable_codecs_as_direct() {
    let mode = classify_playback_mode(
        Some("matroska,webm"),
        Some("mkv"),
        VideoPlaybackInfo {
            codec: Some("h264"),
            profile: Some("High"),
            pix_fmt: Some("yuv420p"),
            level: Some(40),
            bit_depth: Some(8),
        },
        &[audio_stream("aac")],
    );

    assert_eq!(mode, PlaybackMode::Direct);
}

#[test]
fn library_classifier_marks_mkv_with_client_decodable_codecs_as_direct() {
    let mode = classify_playback_mode(
        Some("matroska,webm"),
        Some("mkv"),
        VideoPlaybackInfo {
            codec: Some("h264"),
            profile: Some("High"),
            pix_fmt: Some("yuv420p"),
            level: Some(40),
            bit_depth: Some(8),
        },
        &[audio_stream("aac")],
    );

    assert_eq!(mode, PlaybackMode::Direct);
}

#[test]
fn mod_classifier_marks_mkv_with_mp3_audio_as_direct() {
    let mode = classify_playback_mode(
        Some("matroska,webm"),
        Some("mkv"),
        VideoPlaybackInfo {
            codec: Some("h264"),
            profile: Some("High"),
            pix_fmt: Some("yuv420p"),
            level: Some(40),
            bit_depth: Some(8),
        },
        &[audio_stream("mp3")],
    );

    assert_eq!(mode, PlaybackMode::Direct);
}

#[test]
fn library_classifier_marks_mkv_with_mp3_audio_as_direct() {
    let mode = classify_playback_mode(
        Some("matroska,webm"),
        Some("mkv"),
        VideoPlaybackInfo {
            codec: Some("h264"),
            profile: Some("High"),
            pix_fmt: Some("yuv420p"),
            level: Some(40),
            bit_depth: Some(8),
        },
        &[audio_stream("mp3")],
    );

    assert_eq!(mode, PlaybackMode::Direct);
}

#[test]
fn mod_classifier_marks_mkv_with_flac_audio_as_direct() {
    let mode = classify_playback_mode(
        Some("matroska,webm"),
        Some("mkv"),
        VideoPlaybackInfo {
            codec: Some("h264"),
            profile: Some("High"),
            pix_fmt: Some("yuv420p"),
            level: Some(40),
            bit_depth: Some(8),
        },
        &[audio_stream("flac")],
    );

    assert_eq!(mode, PlaybackMode::Direct);
}

#[test]
fn library_classifier_marks_mkv_with_flac_audio_as_direct() {
    let mode = classify_playback_mode(
        Some("matroska,webm"),
        Some("mkv"),
        VideoPlaybackInfo {
            codec: Some("h264"),
            profile: Some("High"),
            pix_fmt: Some("yuv420p"),
            level: Some(40),
            bit_depth: Some(8),
        },
        &[audio_stream("flac")],
    );

    assert_eq!(mode, PlaybackMode::Direct);
}

#[test]
fn mod_classifier_marks_webm_as_direct() {
    let mode = classify_playback_mode(
        Some("matroska,webm"),
        Some("webm"),
        VideoPlaybackInfo {
            codec: Some("vp9"),
            pix_fmt: Some("yuv420p"),
            ..VideoPlaybackInfo::default()
        },
        &[audio_stream("opus")],
    );

    assert_eq!(mode, PlaybackMode::Direct);
}

#[test]
fn library_classifier_marks_webm_as_direct() {
    let mode = classify_playback_mode(
        Some("matroska,webm"),
        Some("webm"),
        VideoPlaybackInfo {
            codec: Some("vp9"),
            pix_fmt: Some("yuv420p"),
            ..VideoPlaybackInfo::default()
        },
        &[audio_stream("opus")],
    );

    assert_eq!(mode, PlaybackMode::Direct);
}

#[test]
fn mod_classifier_marks_mkv_with_ac3_as_needs_preparation() {
    let mode = classify_playback_mode(
        Some("matroska,webm"),
        Some("mkv"),
        VideoPlaybackInfo {
            codec: Some("h264"),
            profile: Some("High"),
            pix_fmt: Some("yuv420p"),
            level: Some(40),
            bit_depth: Some(8),
        },
        &[audio_stream("ac3")],
    );

    assert_eq!(mode, PlaybackMode::NeedsPreparation);
}

#[test]
fn library_classifier_marks_mkv_with_ac3_as_needs_preparation() {
    let mode = classify_playback_mode(
        Some("matroska,webm"),
        Some("mkv"),
        VideoPlaybackInfo {
            codec: Some("h264"),
            profile: Some("High"),
            pix_fmt: Some("yuv420p"),
            level: Some(40),
            bit_depth: Some(8),
        },
        &[audio_stream("ac3")],
    );

    assert_eq!(mode, PlaybackMode::NeedsPreparation);
}

#[test]
fn mod_classifier_marks_dts_as_needs_preparation() {
    let mode = classify_playback_mode(
        Some("matroska,webm"),
        Some("mkv"),
        VideoPlaybackInfo {
            codec: Some("h264"),
            profile: Some("High"),
            pix_fmt: Some("yuv420p"),
            level: Some(40),
            bit_depth: Some(8),
        },
        &[audio_stream("dts")],
    );

    assert_eq!(mode, PlaybackMode::NeedsPreparation);
}

#[test]
fn library_classifier_marks_dts_as_needs_preparation() {
    let mode = classify_playback_mode(
        Some("matroska,webm"),
        Some("mkv"),
        VideoPlaybackInfo {
            codec: Some("h264"),
            profile: Some("High"),
            pix_fmt: Some("yuv420p"),
            level: Some(40),
            bit_depth: Some(8),
        },
        &[audio_stream("dts")],
    );

    assert_eq!(mode, PlaybackMode::NeedsPreparation);
}

#[test]
fn mod_classifier_marks_hevc_as_needs_preparation() {
    let mode = classify_playback_mode(
        Some("matroska,webm"),
        Some("mkv"),
        VideoPlaybackInfo {
            codec: Some("hevc"),
            profile: Some("Main"),
            pix_fmt: Some("yuv420p"),
            level: Some(120),
            bit_depth: Some(8),
        },
        &[audio_stream("aac")],
    );

    assert_eq!(mode, PlaybackMode::NeedsPreparation);
}

#[test]
fn library_classifier_marks_hevc_as_needs_preparation() {
    let mode = classify_playback_mode(
        Some("matroska,webm"),
        Some("mkv"),
        VideoPlaybackInfo {
            codec: Some("hevc"),
            profile: Some("Main"),
            pix_fmt: Some("yuv420p"),
            level: Some(120),
            bit_depth: Some(8),
        },
        &[audio_stream("aac")],
    );

    assert_eq!(mode, PlaybackMode::NeedsPreparation);
}

#[test]
fn mod_classifier_marks_avi_mpeg4_as_needs_preparation() {
    let mode = classify_playback_mode(
        Some("avi"),
        Some("avi"),
        VideoPlaybackInfo {
            codec: Some("mpeg4"),
            profile: Some("Simple Profile"),
            pix_fmt: Some("yuv420p"),
            level: Some(5),
            bit_depth: Some(8),
        },
        &[audio_stream("mp3")],
    );

    assert_eq!(mode, PlaybackMode::NeedsPreparation);
}

#[test]
fn library_classifier_marks_avi_mpeg4_as_needs_preparation() {
    let mode = classify_playback_mode(
        Some("avi"),
        Some("avi"),
        VideoPlaybackInfo {
            codec: Some("mpeg4"),
            profile: Some("Simple Profile"),
            pix_fmt: Some("yuv420p"),
            level: Some(5),
            bit_depth: Some(8),
        },
        &[audio_stream("mp3")],
    );

    assert_eq!(mode, PlaybackMode::NeedsPreparation);
}

#[test]
fn mod_classifier_marks_10_bit_h264_as_needs_preparation() {
    let mode = classify_playback_mode(
        Some("matroska,webm"),
        Some("mkv"),
        VideoPlaybackInfo {
            codec: Some("h264"),
            profile: Some("High 10"),
            pix_fmt: Some("yuv420p10le"),
            level: Some(40),
            bit_depth: Some(10),
        },
        &[audio_stream("aac")],
    );

    assert_eq!(mode, PlaybackMode::NeedsPreparation);
}

#[test]
fn library_classifier_marks_10_bit_h264_as_needs_preparation() {
    let mode = classify_playback_mode(
        Some("matroska,webm"),
        Some("mkv"),
        VideoPlaybackInfo {
            codec: Some("h264"),
            profile: Some("High 10"),
            pix_fmt: Some("yuv420p10le"),
            level: Some(40),
            bit_depth: Some(10),
        },
        &[audio_stream("aac")],
    );

    assert_eq!(mode, PlaybackMode::NeedsPreparation);
}

#[test]
fn mod_classifier_marks_multi_audio_mixed_as_needs_preparation() {
    let english = audio_stream("aac");
    let japanese = AudioStream {
        index: 1,
        codec: Some("ac3".into()),
        channels: Some(6),
        channel_layout: Some("5.1".into()),
        language: Some("jpn".into()),
        title: Some("Japanese".into()),
        default: false,
    };

    let mode = classify_playback_mode(
        Some("matroska,webm"),
        Some("mkv"),
        VideoPlaybackInfo {
            codec: Some("h264"),
            profile: Some("High"),
            pix_fmt: Some("yuv420p"),
            level: Some(40),
            bit_depth: Some(8),
        },
        &[english, japanese],
    );

    assert_eq!(mode, PlaybackMode::NeedsPreparation);
}

#[test]
fn library_classifier_marks_multi_audio_mixed_as_needs_preparation() {
    let english = audio_stream("aac");
    let japanese = AudioStream {
        index: 1,
        codec: Some("ac3".into()),
        channels: Some(6),
        channel_layout: Some("5.1".into()),
        language: Some("jpn".into()),
        title: Some("Japanese".into()),
        default: false,
    };

    let mode = classify_playback_mode(
        Some("matroska,webm"),
        Some("mkv"),
        VideoPlaybackInfo {
            codec: Some("h264"),
            profile: Some("High"),
            pix_fmt: Some("yuv420p"),
            level: Some(40),
            bit_depth: Some(8),
        },
        &[english, japanese],
    );

    assert_eq!(mode, PlaybackMode::NeedsPreparation);
}

#[test]
fn mod_classifier_marks_no_streams_as_unsupported() {
    let mode = classify_playback_mode(
        Some("matroska,webm"),
        Some("mkv"),
        VideoPlaybackInfo::default(),
        &[],
    );

    assert_eq!(mode, PlaybackMode::Unsupported);
}

#[test]
fn library_classifier_marks_no_streams_as_unsupported() {
    let mode = classify_playback_mode(
        Some("matroska,webm"),
        Some("mkv"),
        VideoPlaybackInfo::default(),
        &[],
    );

    assert_eq!(mode, PlaybackMode::Unsupported);
}

#[test]
fn mod_classifier_marks_audio_only_mp3_as_direct() {
    let mode = classify_playback_mode(
        Some("mp3"),
        Some("mp3"),
        VideoPlaybackInfo::default(),
        &[audio_stream("mp3")],
    );

    assert_eq!(mode, PlaybackMode::Direct);
}

#[test]
fn library_classifier_marks_audio_only_mp3_as_direct() {
    let mode = classify_playback_mode(
        Some("mp3"),
        Some("mp3"),
        VideoPlaybackInfo::default(),
        &[audio_stream("mp3")],
    );

    assert_eq!(mode, PlaybackMode::Direct);
}

#[test]
fn mod_classifier_marks_audio_only_wav_pcm_as_direct() {
    let mode = classify_playback_mode(
        Some("wav"),
        Some("wav"),
        VideoPlaybackInfo::default(),
        &[audio_stream("pcm_s16le")],
    );

    assert_eq!(mode, PlaybackMode::Direct);
}

#[test]
fn library_classifier_marks_audio_only_wav_pcm_as_direct() {
    let mode = classify_playback_mode(
        Some("wav"),
        Some("wav"),
        VideoPlaybackInfo::default(),
        &[audio_stream("pcm_s16le")],
    );

    assert_eq!(mode, PlaybackMode::Direct);
}

#[test]
fn mod_subtitle_presentation_marks_default_tracks() {
    let (label, language) = subtitle_presentation("");

    assert_eq!(label, "Default");
    assert_eq!(language, None);
}

#[test]
fn library_subtitle_presentation_marks_default_tracks() {
    let (label, language) = subtitle_presentation("");

    assert_eq!(label, "Default");
    assert_eq!(language, None);
}

fn text_of(value: Option<&serde_json::Value>) -> Option<String> {
    value.and_then(|value| value.as_str()).map(|text| text.to_string())
}

fn number_of(value: Option<&serde_json::Value>) -> Option<u32> {
    value.and_then(|value| value.as_u64()).map(|number| number as u32)
}

fn flag_of(stream: &serde_json::Value, name: &str) -> Option<u8> {
    stream
        .get("disposition")
        .and_then(|disposition| disposition.get(name))
        .and_then(|value| value.as_u64())
        .map(|number| number as u8)
}

fn stream_of(stream: &serde_json::Value) -> FfprobeStream {
    let tags = match stream.get("tags").and_then(|tags| tags.as_object()) {
        Some(tags) => tags
            .iter()
            .map(|(key, value)| (key.clone(), value.as_str().unwrap().to_string()))
            .collect(),
        None => Vec::new(),
    };
    FfprobeStream {
        index: number_of(stream.get("index")),
        codec_type: text_of(stream.get("codec_type")),
        codec_name: text_of(stream.get("codec_name")),
        profile: text_of(stream.get("profile")),
        level: stream.get("level").and_then(|level| level.as_i64()).map(|level| level as i32),
        pix_fmt: text_of(stream.get("pix_fmt")),
        bits_per_raw_sample: text_of(stream.get("bits_per_raw_sample")).map(JsonScalar::Text),
        width: number_of(stream.get("width")),
        height: number_of(stream.get("height")),
        channels: number_of(stream.get("channels")),
        channel_layout: text_of(stream.get("channel_layout")),
        tags,
        disposition_default: flag_of(stream, "default"),
        disposition_forced: flag_of(stream, "forced"),
    }
}

fn run_of(bytes: &[u8]) -> ProbeRun {
    let parsed: Result<serde_json::Value, serde_json::Error> = serde_json::from_slice(bytes);
    match parsed {
        Ok(report) => ProbeRun::Reported {
            report: FfprobeOutput {
                streams: report
                    .get("streams")
                    .and_then(|streams| streams.as_array())
                    .map(|streams| streams.iter().map(stream_of).collect())
                    .unwrap_or_default(),
                format: report.get("format").map(|format| FfprobeFormat {
                    format_name: text_of(format.get("format_name")),
                    duration_nanos: text_of(format.get("duration"))
                        .and_then(|text| text.parse::<f64>().ok())
                        .map(|seconds| (seconds * 1e9).round() as i128),
                }),
            },
        },
        Err(error) => ProbeRun::Unreadable { error: error.to_string() },
    }
}

fn probed(bytes: &[u8], extension: &str) -> stax_backend::persistence::records::ProbeOutcome {
    probe_media_metadata(run_of(bytes), Some(extension), "2026-01-01T00:00:00Z".to_string())
}

#[test]
fn mod_parse_probe_output_extracts_video_and_audio_metadata() {
    let metadata = probed(
        br#"{
            "format": {
                "format_name": "matroska,webm",
                "duration": "62.5123"
            },
            "streams": [
                {"codec_type": "video", "codec_name": "h264", "width": 1920, "height": 1080},
                {"codec_type": "audio", "codec_name": "aac"}
            ]
        }"#,
        "mkv",
    );

    assert_eq!(metadata.container_name.as_deref(), Some("matroska,webm"));
    assert_eq!(metadata.duration_millis, Some(62_512));
    assert_eq!(metadata.video_codec.as_deref(), Some("h264"));
    assert_eq!(metadata.audio_codec.as_deref(), Some("aac"));
    assert_eq!(metadata.width, Some(1920));
    assert_eq!(metadata.height, Some(1080));
    assert_eq!(metadata.probe_error, None);
}

#[test]
fn mod_parse_probe_output_returns_error_for_invalid_json() {
    let outcome = probed(b"{ definitely-not-json", "mp4");

    assert!(outcome.probe_error.unwrap().starts_with("ffprobe returned invalid JSON:"));
}

#[test]
fn mod_parse_probe_output_populates_audio_and_subtitle_streams() {
    let metadata = probed(
        br#"{
            "format": {
                "format_name": "matroska,webm",
                "duration": "120.0"
            },
            "streams": [
                {
                    "index": 0,
                    "codec_type": "video",
                    "codec_name": "h264",
                    "profile": "High",
                    "level": 40,
                    "pix_fmt": "yuv420p",
                    "bits_per_raw_sample": "8",
                    "width": 1920,
                    "height": 1080
                },
                {
                    "index": 1,
                    "codec_type": "audio",
                    "codec_name": "ac3",
                    "channels": 6,
                    "channel_layout": "5.1",
                    "tags": {"language": "eng", "title": "English"},
                    "disposition": {"default": 1}
                },
                {
                    "index": 2,
                    "codec_type": "audio",
                    "codec_name": "aac",
                    "channels": 2,
                    "tags": {"language": "jpn"}
                },
                {
                    "index": 3,
                    "codec_type": "subtitle",
                    "codec_name": "subrip",
                    "tags": {"language": "eng"},
                    "disposition": {"forced": 1}
                }
            ]
        }"#,
        "mkv",
    );

    assert_eq!(metadata.video_profile.as_deref(), Some("High"));
    assert_eq!(metadata.video_level, Some(40));
    assert_eq!(metadata.video_pix_fmt.as_deref(), Some("yuv420p"));
    assert_eq!(metadata.video_bit_depth, Some(8));
    assert_eq!(metadata.audio_streams.len(), 2);
    assert_eq!(metadata.audio_streams[0].codec.as_deref(), Some("ac3"));
    assert_eq!(metadata.audio_streams[0].language.as_deref(), Some("eng"));
    assert_eq!(metadata.audio_streams[0].title.as_deref(), Some("English"));
    assert!(metadata.audio_streams[0].default);
    assert_eq!(metadata.audio_streams[1].codec.as_deref(), Some("aac"));
    assert!(!metadata.audio_streams[1].default);
    assert_eq!(metadata.subtitle_streams.len(), 1);
    assert!(metadata.subtitle_streams[0].forced);
    assert_eq!(metadata.playback_mode, PlaybackMode::NeedsPreparation);
}

#[test]
fn library_parse_probe_output_extracts_video_and_audio_metadata() {
    let metadata = probed(
        br#"{
            "format": {
                "format_name": "matroska,webm",
                "duration": "62.5123"
            },
            "streams": [
                {"codec_type": "video", "codec_name": "h264", "width": 1920, "height": 1080},
                {"codec_type": "audio", "codec_name": "aac"}
            ]
        }"#,
        "mkv",
    );

    assert_eq!(metadata.container_name.as_deref(), Some("matroska,webm"));
    assert_eq!(metadata.duration_millis, Some(62_512));
    assert_eq!(metadata.video_codec.as_deref(), Some("h264"));
    assert_eq!(metadata.audio_codec.as_deref(), Some("aac"));
    assert_eq!(metadata.width, Some(1920));
    assert_eq!(metadata.height, Some(1080));
    assert_eq!(metadata.probe_error, None);
}

#[test]
fn library_parse_probe_output_returns_error_for_invalid_json() {
    let outcome = probed(b"{ definitely-not-json", "mp4");

    assert!(outcome.probe_error.unwrap().starts_with("ffprobe returned invalid JSON:"));
}

#[test]
fn library_parse_probe_output_populates_audio_and_subtitle_streams() {
    let metadata = probed(
        br#"{
            "format": {
                "format_name": "matroska,webm",
                "duration": "120.0"
            },
            "streams": [
                {
                    "index": 0,
                    "codec_type": "video",
                    "codec_name": "h264",
                    "profile": "High",
                    "level": 40,
                    "pix_fmt": "yuv420p",
                    "bits_per_raw_sample": "8",
                    "width": 1920,
                    "height": 1080
                },
                {
                    "index": 1,
                    "codec_type": "audio",
                    "codec_name": "ac3",
                    "channels": 6,
                    "channel_layout": "5.1",
                    "tags": {"language": "eng", "title": "English"},
                    "disposition": {"default": 1}
                },
                {
                    "index": 2,
                    "codec_type": "audio",
                    "codec_name": "aac",
                    "channels": 2,
                    "tags": {"language": "jpn"}
                },
                {
                    "index": 3,
                    "codec_type": "subtitle",
                    "codec_name": "subrip",
                    "tags": {"language": "eng"},
                    "disposition": {"forced": 1}
                }
            ]
        }"#,
        "mkv",
    );

    assert_eq!(metadata.video_profile.as_deref(), Some("High"));
    assert_eq!(metadata.video_level, Some(40));
    assert_eq!(metadata.video_pix_fmt.as_deref(), Some("yuv420p"));
    assert_eq!(metadata.video_bit_depth, Some(8));
    assert_eq!(metadata.audio_streams.len(), 2);
    assert_eq!(metadata.audio_streams[0].codec.as_deref(), Some("ac3"));
    assert_eq!(metadata.audio_streams[0].language.as_deref(), Some("eng"));
    assert_eq!(metadata.audio_streams[0].title.as_deref(), Some("English"));
    assert!(metadata.audio_streams[0].default);
    assert_eq!(metadata.audio_streams[1].codec.as_deref(), Some("aac"));
    assert!(!metadata.audio_streams[1].default);
    assert_eq!(metadata.subtitle_streams.len(), 1);
    assert!(metadata.subtitle_streams[0].forced);
    assert_eq!(metadata.playback_mode, PlaybackMode::NeedsPreparation);
}

fn file(name: &str) -> DirEntry {
    DirEntry {
        name: name.to_string(),
        kind: EntryKind::File,
        metadata: Some(FileMetadata { size_bytes: 5, modified: Some(Timestamp::utc(0)) }),
    }
}

fn entry(name: &str, kind: EntryKind) -> DirEntry {
    DirEntry { name: name.to_string(), kind, metadata: None }
}

fn relative_paths(media: &[DirMediaCandidate]) -> Vec<&str> {
    media.iter().map(|item| item.relative_path.as_str()).collect()
}

#[test]
fn mod_classify_directory_filters_unsupported_files_and_nested_symlinks() {
    let root = classify_directory(
        "/tmp/library",
        "/tmp/library",
        "1970-01-01T00:00:00Z",
        vec![
            entry("nested", EntryKind::Directory),
            file("movie.mp4"),
            file("notes.txt"),
            entry("movie-link.mp4", EntryKind::Symlink),
        ],
    );
    assert_eq!(relative_paths(&root.media), vec!["movie.mp4"]);
    assert_eq!(root.subdirs, vec!["/tmp/library/nested".to_string()]);

    let nested = classify_directory(
        "/tmp/library",
        &root.subdirs[0],
        "1970-01-01T00:00:00Z",
        vec![file("song.flac")],
    );
    assert_eq!(relative_paths(&nested.media), vec!["nested/song.flac"]);
    assert!(nested.subdirs.is_empty());
}

#[test]
fn mod_classify_directory_matches_supported_extensions_case_insensitively() {
    let contents = classify_directory(
        "/tmp/library",
        "/tmp/library",
        "1970-01-01T00:00:00Z",
        vec![file("concert.FlAc"), file("FEATURE.MP4")],
    );
    let mut candidates = contents.media;
    candidates.sort_by(|a, b| a.relative_path.cmp(&b.relative_path));

    assert_eq!(relative_paths(&candidates), vec!["FEATURE.MP4", "concert.FlAc"]);
    assert_eq!(
        candidates[0].extension.as_deref().and_then(content_type_for_extension),
        Some("video/mp4"),
    );
    assert_eq!(
        candidates[1].extension.as_deref().and_then(content_type_for_extension),
        Some("audio/flac"),
    );
}

#[test]
fn mod_classify_directory_discovers_sidecar_subtitles_for_matching_media() {
    let contents = classify_directory(
        "/tmp/library",
        "/tmp/library",
        "1970-01-01T00:00:00Z",
        vec![
            entry("nested", EntryKind::Directory),
            file("movie.mp4"),
            file("movie.en.srt"),
            file("movie.forced.vtt"),
            file("movie-night.en.srt"),
        ],
    );
    let candidates = contents.media;
    let subtitle_tracks = &candidates[0].subtitle_tracks;

    assert_eq!(candidates.len(), 1);
    assert_eq!(subtitle_tracks.len(), 2);
    assert_eq!(subtitle_tracks[0].relative_path, "movie.en.srt");
    assert_eq!(subtitle_tracks[0].label, "EN");
    assert_eq!(subtitle_tracks[0].language.as_deref(), Some("en"));
    assert_eq!(subtitle_tracks[1].relative_path, "movie.forced.vtt");
    assert_eq!(subtitle_tracks[1].label, "Forced");
}

#[test]
fn library_classify_directory_filters_unsupported_files_and_nested_symlinks() {
    let root = classify_directory(
        "/tmp/library",
        "/tmp/library",
        "1970-01-01T00:00:00Z",
        vec![
            entry("nested", EntryKind::Directory),
            file("movie.mp4"),
            file("notes.txt"),
            entry("movie-link.mp4", EntryKind::Symlink),
        ],
    );
    assert_eq!(relative_paths(&root.media), vec!["movie.mp4"]);
    assert_eq!(root.subdirs, vec!["/tmp/library/nested".to_string()]);

    let nested = classify_directory(
        "/tmp/library",
        &root.subdirs[0],
        "1970-01-01T00:00:00Z",
        vec![file("song.flac")],
    );
    assert_eq!(relative_paths(&nested.media), vec!["nested/song.flac"]);
    assert!(nested.subdirs.is_empty());
}

#[test]
fn library_classify_directory_matches_supported_extensions_case_insensitively() {
    let contents = classify_directory(
        "/tmp/library",
        "/tmp/library",
        "1970-01-01T00:00:00Z",
        vec![file("concert.FlAc"), file("FEATURE.MP4")],
    );
    let mut candidates = contents.media;
    candidates.sort_by(|a, b| a.relative_path.cmp(&b.relative_path));

    assert_eq!(relative_paths(&candidates), vec!["FEATURE.MP4", "concert.FlAc"]);
    assert_eq!(
        candidates[0].extension.as_deref().and_then(content_type_for_extension),
        Some("video/mp4"),
    );
    assert_eq!(
        candidates[1].extension.as_deref().and_then(content_type_for_extension),
        Some("audio/flac"),
    );
}

#[test]
fn library_classify_directory_discovers_sidecar_subtitles_for_matching_media() {
    let contents = classify_directory(
        "/tmp/library",
        "/tmp/library",
        "1970-01-01T00:00:00Z",
        vec![
            entry("nested", EntryKind::Directory),
            file("movie.mp4"),
            file("movie.en.srt"),
            file("movie.forced.vtt"),
            file("movie-night.en.srt"),
        ],
    );
    let candidates = contents.media;
    let subtitle_tracks = &candidates[0].subtitle_tracks;

    assert_eq!(candidates.len(), 1);
    assert_eq!(subtitle_tracks.len(), 2);
    assert_eq!(subtitle_tracks[0].relative_path, "movie.en.srt");
    assert_eq!(subtitle_tracks[0].label, "EN");
    assert_eq!(subtitle_tracks[0].language.as_deref(), Some("en"));
    assert_eq!(subtitle_tracks[1].relative_path, "movie.forced.vtt");
    assert_eq!(subtitle_tracks[1].label, "Forced");
}

#[test]
fn config_library_config_normalizes_relative_paths_and_deduplicates() {
    let relative = absolutize_root("media", Some("/tmp/root")).unwrap();
    let absolute = absolutize_root("/tmp/root/media", Some("/tmp/root")).unwrap();

    assert_eq!(normalize_root_path(&relative), "/tmp/root/media");
    assert_eq!(normalize_root_path(&absolute), "/tmp/root/media");
}

#[test]
fn library_library_config_normalizes_relative_paths_and_deduplicates() {
    let relative = absolutize_root("media", Some("/tmp/root")).unwrap();
    let absolute = absolutize_root("/tmp/root/media", Some("/tmp/root")).unwrap();

    assert_eq!(normalize_root_path(&relative), "/tmp/root/media");
    assert_eq!(normalize_root_path(&absolute), "/tmp/root/media");
}

#[test]
fn probing_fails_with_a_reason() {
    let at = || "2026-01-01T00:00:00Z".to_string();
    let outcome = probe_media_metadata(ProbeRun::NotConfigured, None, at());
    assert_eq!(outcome.probe_error.as_deref(), Some("no ffprobe configured"));
    assert_eq!(outcome.playback_mode, PlaybackMode::Direct);

    let not_started = ProbeRun::NotStarted { error: "gone".into() };
    let outcome = probe_media_metadata(not_started, None, at());
    assert_eq!(outcome.probe_error.as_deref(), Some("ffprobe could not start: gone"));

    let failed = ProbeRun::Failed {
        status: "exit status: 1".into(),
        stderr: b"  bad \xff data\n".to_vec(),
    };
    let outcome = probe_media_metadata(failed, None, at());
    assert_eq!(outcome.probe_error, Some(probe_failure_text("exit status: 1", "  bad \u{fffd} data\n")));
}

#[test]
fn probe_reports_the_first_audio_as_default_where_none_is() {
    let metadata = probed(
        br#"{"streams": [
            {"codec_type": "audio", "codec_name": "aac"},
            {"codec_type": "audio", "codec_name": "mp3"}
        ]}"#,
        "mka",
    );
    assert!(metadata.audio_streams[0].default);
    assert!(!metadata.audio_streams[1].default);
}

#[test]
fn scalars_give_small_numbers() {
    assert_eq!(parse_json_u8_like(&JsonScalar::Number(Some(10))), Some(10));
    assert_eq!(parse_json_u8_like(&JsonScalar::Number(Some(256))), None);
    assert_eq!(parse_json_u8_like(&JsonScalar::Text("8".into())), Some(8));
    assert_eq!(parse_json_u8_like(&JsonScalar::Other), None);
}

#[test]
fn probe_runs_on_the_file() {
    let args = probe_arguments("/lib/movie.mkv");
    assert_eq!(args[0], "-v");
    assert_eq!(args.last().map(|arg| arg.as_str()), Some("/lib/movie.mkv"));
}

#[test]
fn empty_report_is_unsupported() {
    let report = FfprobeOutput { streams: Vec::new(), format: None };
    let outcome = parse_probe_output(report, Some("mkv"), "now".into());
    assert_eq!(outcome.playback_mode, PlaybackMode::Unsupported);
    assert_eq!(outcome.duration_millis, None);
    assert_eq!(outcome.probed_at, "now");
}

#[test]
fn names_and_tokens_of_subtitles() {
    assert_eq!(infer_language_code("en"), Some("en"));
    assert_eq!(infer_language_code("forced"), None);
    assert_eq!(humanize_subtitle_token("en"), "EN");
    assert_eq!(humanize_subtitle_token("forced"), "Forced");
    assert_eq!(normalized_extension("Movie.MKV").as_deref(), Some("mkv"));
    assert_eq!(normalized_extension("README"), None);
    assert_eq!(normalize_relative_path("/lib", "/lib/a/b.mkv").as_deref(), Some("a/b.mkv"));
    assert_eq!(normalize_relative_path("/lib", "/other/b.mkv"), None);
}

fn candidate() -> DirMediaCandidate {
    DirMediaCandidate {
        relative_path: "movie.mkv".into(),
        file_name: "movie.mkv".into(),
        extension: Some("mkv".into()),
        size_bytes: 10,
        modified_at: "1970-01-01T00:00:00Z".into(),
        modified: Some(Timestamp::utc(0)),
        subtitle_tracks: Vec::new(),
    }
}

fn stored() -> CachedMediaRecord {
    CachedMediaRecord {
        id: 42,
        size_bytes: 10,
        modified_at: "1970-01-01T00:00:00Z".into(),
        duration_millis: Some(62_512),
        container_name: None,
        video_codec: Some("h264".into()),
        audio_codec: None,
        width: None,
        height: None,
        probed_at: Some("2026-01-01T00:00:00Z".into()),
        probe_error: None,
        playback_mode: PlaybackMode::Direct,
        video_profile: None,
        video_level: None,
        video_pix_fmt: None,
        video_bit_depth: None,
        audio_streams: vec![audio_stream("aac")],
        subtitle_streams: Vec::new(),
    }
}

#[test]
fn unchanged_files_keep_their_probe_data() {
    let prior = stored();
    let (record, is_cached) =
        build_walk_record(Some(&prior), candidate(), "/lib", "later", true, "later");
    assert!(is_cached);
    assert_eq!(record.id, 42);
    let columns = upsert_walk_record(&record);
    assert_eq!(columns.duration_millis, Some(62_512));
    assert_eq!(columns.playback_mode, "direct");
    assert_eq!(columns.audio_streams, prior.audio_streams);
}

#[test]
fn changed_files_keep_their_identifier_only() {
    let prior = stored();
    let mut changed = candidate();
    changed.size_bytes = 11;
    let (record, is_cached) =
        build_walk_record(Some(&prior), changed, "/lib", "later", false, "later");
    assert!(!is_cached);
    assert_eq!(record.id, 42);
    assert!(record.cached_probe.is_none());
    assert_eq!(record.content_type.as_deref(), Some("video/x-matroska"));
}

#[test]
fn new_files_get_new_identifiers() {
    let (first, _) = build_walk_record(None, candidate(), "/lib", "now", false, "now");
    let (second, _) = build_walk_record(None, candidate(), "/lib", "now", false, "now");
    assert_ne!(first.id, second.id);
    let (third, is_cached) =
        build_walk_record_with_id(7, None, candidate(), "/lib", "now", false, "now");
    assert_eq!(third.id, 7);
    assert!(!is_cached);
    assert_eq!(upsert_walk_record(&third).playback_mode, "direct");
}

#[test]
fn walks_count_what_they_found() {
    let mut stats = WalkStats::new();
    stats.note(1, true);
    stats.note(2, false);
    let mut other = WalkStats::new();
    other.note(3, false);
    stats.merge(other);
    let outcome = stats.outcome(12);
    assert_eq!((outcome.total, outcome.cached, outcome.pending), (3, 1, 2));
    assert_eq!(outcome.elapsed_ms, 12);
}

#[test]
fn missing_rows_are_pruned() {
    let kept = "00000000-0000-0000-0000-000000000001".to_string();
    let gone = "00000000-0000-0000-0000-000000000002".to_string();
    assert_eq!(prune_missing_paths(&vec![kept, gone.clone()], &vec![1]), vec![gone]);
    assert_eq!(prune_statement(2), "DELETE FROM media_items WHERE id IN (?1, ?2)");
}

#[test]
fn roots_follow_the_configuration() {
    let sync = sync_library_roots(
        &vec!["/a".to_string(), "/b".to_string()],
        &vec!["/b".to_string(), "/c".to_string()],
    );
    assert_eq!(sync.added, vec!["/c".to_string()]);
    assert_eq!(sync.removed, vec!["/a".to_string()]);
}

#[test]
fn roots_must_be_directories() {
    assert!(check_root("/lib", None, true).is_ok());
    assert!(check_root("/lib", None, false).is_err());
    assert!(check_root("/lib", Some("denied"), true).is_err());
}

#[test]
fn configuration_is_normalized() {
    let config = LibraryConfig::from_paths(&vec![
        "/media//movies/".to_string(),
        "/media/./movies".to_string(),
    ])
    .with_probe_workers(0)
    .without_ffmpeg();
    assert_eq!(config.root_paths(), &vec!["/media/movies".to_string()]);
    assert_eq!(config.probe_workers(), 1);
    assert_eq!(config.ffmpeg_command(), None);
    assert_eq!(config.walk_workers(), 8);
}

#[test]
fn empty_paths_are_no_roots() {
    let config = LibraryConfig::from_paths(&vec![
        String::new(),
        "/media/b".to_string(),
        "/media/a".to_string(),
        String::new(),
    ]);
    assert_eq!(config.root_paths(), &vec!["/media/a".to_string(), "/media/b".to_string()]);
    let config = config.with_probe_workers(3).without_ffmpeg().without_probe();
    assert_eq!(config.root_paths(), &vec!["/media/a".to_string(), "/media/b".to_string()]);
    assert!(LibraryConfig::from_paths(&vec![String::new()]).root_paths().is_empty());
}

#[test]
fn durations_are_held_as_far_as_their_type_goes() {
    let probed_millis = |nanos: i128| {
        let format = FfprobeFormat { format_name: None, duration_nanos: Some(nanos) };
        let report = FfprobeOutput { streams: Vec::new(), format: Some(format) };
        parse_probe_output(report, None, "now".into()).duration_millis
    };
    assert_eq!(probed_millis(62_512_300_000), Some(62_512));
    assert_eq!(probed_millis(62_512_500_000), Some(62_513));
    assert_eq!(probed_millis(i64::MAX as i128 * 1_000_000), Some(i64::MAX));
    assert_eq!(probed_millis(i64::MIN as i128 * 1_000_000), Some(i64::MIN));
    assert_eq!(probed_millis((i64::MAX as i128 - 1) * 1_000_000), Some(i64::MAX - 1));
    assert_eq!(probed_millis(i128::MAX), Some(i64::MAX));
    assert_eq!(probed_millis(i128::MIN), Some(i64::MIN));
}

#[test]
fn snapshots_become_responses() {
    let status = LibraryStatusSnapshot { revision: 3, has_pending_background_work: true };
    let response =
        LibrarySnapshot { roots: Vec::new(), items: Vec::new() }.into_response(status);
    assert_eq!(response.revision, 3);
    assert!(response.has_pending_background_work);
    let scan = LibrarySnapshot { roots: Vec::new(), items: Vec::new() }
        .into_scan_response(status, "now".into());
    assert_eq!((scan.scanned_root_count, scan.indexed_item_count), (0, 0));
    assert_eq!(scan.scanned_at, "now");
    assert_eq!(status.into_response().revision, 3);
}

#[test]
fn environment_names_the_settings() {
    let environment = LibraryEnvironment {
        roots: Some(vec!["/media".to_string()]),
        ffprobe_bin: Some(String::new()),
        ffmpeg_bin: Some("/bin/ffmpeg".into()),
        thumbnail_dir: None,
        stream_copy_dir: Some("/copies".into()),
        probe_workers: Some("0".into()),
        walk_workers: Some("3".into()),
    };
    let config = LibraryConfig::from_env(&environment);
    assert_eq!(config.root_paths(), &vec!["/media".to_string()]);
    assert_eq!(config.probe_command(), None);
    assert_eq!(config.ffmpeg_command(), Some("/bin/ffmpeg"));
    assert_eq!(config.thumbnail_cache_dir(), Some("stax-thumbnails"));
    assert_eq!(config.stream_copy_cache_dir(), Some("/copies"));
    assert_eq!(config.probe_workers(), 4);
    assert_eq!(config.walk_workers(), 3);
}
