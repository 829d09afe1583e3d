use stax_backend::ffmpeg::FfmpegHardwareAcceleration;
use stax_backend::persistence::records::StreamCopyRecord;
use stax_backend::protocol::{
    AudioStream, MediaItem, PlaybackMode, PreparationState, StreamCopyStatus, SubtitleMode,
    SubtitleSourceKind, SubtitleStream, SubtitleTrack,
};
use stax_backend::stream_copies::jobs::{
    build_stream_copy, copy_run_failure, default_audio_stream_ordinal, extract_run_failure,
    ffmpeg_error, ffmpeg_error_text, process_job, summary_for, BuildAction, BuildEvent, FfmpegExit,
    JobAction, JobEvent, Lookup,
};
use stax_backend::stream_copies::paths::{
    default_stream_copy_cache_dir, files_to_remove, plan_stream_copy_paths, stream_copy_output_dir,
    temp_path_for_final,
};
use stax_backend::stream_copies::progress::{
    ffmpeg_speed_text, line_speed_text, progress_ratio_from_snapshot, read_progress_line,
    update_progress_block, FfmpegProgressBlock, StreamCopyProgress, StreamCopyProgressSnapshot,
};
use stax_backend::stream_copies::subtitles::{
    build_burn_subtitle_filter, convert_sidecar_bytes, convert_sidecar_text,
    escape_subtitles_path, find_subtitle_stream, plan_sidecar_subtitle,
    resolve_sidecar_subtitle_path, subtitle_extract_arguments, SidecarPlan,
};
use stax_backend::stream_copies::{
    output_order, should_use_input_hwaccel, stream_copy_arguments, FfmpegStreamCopyRequest,
};

#[test]
fn stream_copies_temp_path_preserves_media_extension_for_ffmpeg_muxer_detection() {
    assert_eq!(temp_path_for_final("/tmp/stream.mp4"), "/tmp/stream.tmp.mp4");
}

#[test]
fn paths_temp_path_preserves_media_extension_for_ffmpeg_muxer_detection() {
    assert_eq!(temp_path_for_final("/tmp/stream.mp4"), "/tmp/stream.tmp.mp4");
}

#[test]
fn stream_copies_temp_path_preserves_audio_extension_for_ffmpeg_muxer_detection() {
    assert_eq!(temp_path_for_final("/tmp/stream.m4a"), "/tmp/stream.tmp.m4a");
}

#[test]
fn paths_temp_path_preserves_audio_extension_for_ffmpeg_muxer_detection() {
    assert_eq!(temp_path_for_final("/tmp/stream.m4a"), "/tmp/stream.tmp.m4a");
}

#[test]
fn stream_copies_temp_path_preserves_vtt_extension() {
    assert_eq!(temp_path_for_final("/tmp/subtitle.vtt"), "/tmp/subtitle.tmp.vtt");
}

#[test]
fn paths_temp_path_preserves_vtt_extension() {
    assert_eq!(temp_path_for_final("/tmp/subtitle.vtt"), "/tmp/subtitle.tmp.vtt");
}

#[test]
fn stream_copies_temp_path_falls_back_when_no_extension_exists() {
    assert_eq!(temp_path_for_final("/tmp/output"), "/tmp/output.tmp");
}

#[test]
fn paths_temp_path_falls_back_when_no_extension_exists() {
    assert_eq!(temp_path_for_final("/tmp/output"), "/tmp/output.tmp");
}

#[test]
fn stream_copies_subtitles_filter_path_escape_preserves_apostrophes_and_options() {
    let escaped = escape_subtitles_path("/tmp/You're an Akiba Maid: v3, [test].mkv");

    assert_eq!(escaped, r"/tmp/You\\\'re an Akiba Maid\\: v3\, \[test\].mkv");
    assert_eq!(
        format!("subtitles={escaped}:si=1"),
        r"subtitles=/tmp/You\\\'re an Akiba Maid\\: v3\, \[test\].mkv:si=1"
    );
}

#[test]
fn subtitles_subtitles_filter_path_escape_preserves_apostrophes_and_options() {
    let escaped = escape_subtitles_path("/tmp/You're an Akiba Maid: v3, [test].mkv");

    assert_eq!(escaped, r"/tmp/You\\\'re an Akiba Maid\\: v3\, \[test\].mkv");
    assert_eq!(
        format!("subtitles={escaped}:si=1"),
        r"subtitles=/tmp/You\\\'re an Akiba Maid\\: v3\, \[test\].mkv:si=1"
    );
}

#[test]
fn burned_subtitles_do_not_use_input_hwaccel() {
    let burned_filter = Some("subtitles=/tmp/movie.mkv:si=1");

    assert!(!should_use_input_hwaccel(true, burned_filter));
}

#[test]
fn stream_copies_without_burn_in_can_use_input_hwaccel() {
    let burned_filter = Some("subtitles=/tmp/movie.mkv:si=1");

    assert!(!should_use_input_hwaccel(true, burned_filter));
    assert!(should_use_input_hwaccel(true, None));
}

fn audio(index: u32, codec: &str) -> AudioStream {
    AudioStream {
        index,
        codec: Some(codec.to_string()),
        channels: Some(2),
        channel_layout: None,
        language: None,
        title: None,
        default: index == 1,
    }
}

fn item() -> MediaItem {
    MediaItem {
        id: 5,
        root_path: "/lib".into(),
        relative_path: "shows/movie.mkv".into(),
        file_name: "movie.mkv".into(),
        extension: Some("mkv".into()),
        size_bytes: 100,
        modified_at: "1970-01-01T00:00:00Z".into(),
        indexed_at: "1970-01-01T00:00:00Z".into(),
        content_type: Some("video/x-matroska".into()),
        duration_millis: Some(10_000),
        container_name: Some("matroska,webm".into()),
        video_codec: Some("h264".into()),
        audio_codec: Some("aac".into()),
        width: Some(1920),
        height: Some(1080),
        probed_at: None,
        probe_error: None,
        subtitle_tracks: vec![SubtitleTrack {
            file_name: "movie.en.srt".into(),
            relative_path: "shows/movie.en.srt".into(),
            extension: "srt".into(),
            label: "EN".into(),
            language: Some("en".into()),
        }],
        thumbnail_generated_at: None,
        thumbnail_error: None,
        playback_mode: PlaybackMode::NeedsPreparation,
        preparation_state: PreparationState::NeedsPreparation,
        video_profile: Some("High".into()),
        video_level: Some(40),
        video_pix_fmt: Some("yuv420p".into()),
        video_bit_depth: Some(8),
        audio_streams: vec![audio(1, "aac"), audio(2, "ac3")],
        subtitle_streams: vec![SubtitleStream {
            index: 3,
            codec: Some("subrip".into()),
            language: None,
            title: None,
            default: false,
            forced: false,
        }],
        stream_copy: None,
    }
}

fn copy() -> StreamCopyRecord {
    StreamCopyRecord {
        media_id: 5,
        source_size_bytes: 100,
        source_modified_at: "1970-01-01T00:00:00Z".into(),
        status: StreamCopyStatus::Running,
        audio_stream_index: Some(2),
        subtitle_mode: SubtitleMode::Off,
        subtitle_kind: None,
        subtitle_index: None,
        output_path: None,
        output_content_type: None,
        subtitle_path: None,
        error: None,
        created_at: "1970-01-01T00:00:00Z".into(),
        updated_at: "1970-01-01T00:00:00Z".into(),
    }
}

fn has(args: &[String], text: &str) -> bool {
    args.iter().any(|arg| arg == text)
}

#[test]
fn chosen_audio_comes_first() {
    assert_eq!(output_order(3, Some(2)), vec![2, 0, 1]);
    assert_eq!(output_order(3, None), vec![0, 1, 2]);
    assert_eq!(default_audio_stream_ordinal(&item(), &copy()).unwrap(), Some(1));
    let mut other = copy();
    other.audio_stream_index = Some(9);
    assert!(default_audio_stream_ordinal(&item(), &other).is_err());
}

#[test]
fn safe_video_is_copied() {
    let media = item();
    let software = FfmpegHardwareAcceleration::Software;
    let args = stream_copy_arguments(&FfmpegStreamCopyRequest {
        media_item: &media,
        media_path: "/lib/shows/movie.mkv",
        output_path: "/out/stream.tmp.mp4",
        default_audio_ordinal: Some(1),
        burned_filter: None,
        hw_accel: &software,
    });
    assert!(!has(&args, "libx264"));
    assert!(has(&args, "copy"));
    assert_eq!(args.last().map(|arg| arg.as_str()), Some("/out/stream.tmp.mp4"));
}

#[test]
fn burned_subtitles_are_encoded() {
    let media = item();
    let software = FfmpegHardwareAcceleration::Software;
    let args = stream_copy_arguments(&FfmpegStreamCopyRequest {
        media_item: &media,
        media_path: "/lib/shows/movie.mkv",
        output_path: "/out/stream.tmp.mp4",
        default_audio_ordinal: None,
        burned_filter: Some("subtitles=/lib/shows/movie.mkv:si=0"),
        hw_accel: &software,
    });
    assert!(has(&args, "libx264"));
    assert!(has(&args, "subtitles=/lib/shows/movie.mkv:si=0"));
    assert!(!has(&args, "-hwaccel"));
}

#[test]
fn copies_are_kept_by_media() {
    assert_eq!(default_stream_copy_cache_dir(), "stax-stream-copies");
    let dir = stream_copy_output_dir("/cache", 5);
    assert_eq!(dir, "/cache/00000000-0000-0000-0000-000000000005");
    let paths = plan_stream_copy_paths(&item(), "/cache");
    assert_eq!(paths.output_dir, dir);
    assert_eq!(paths.temp_output, temp_path_for_final(&paths.final_output));
    assert_ne!(paths.temp_output, paths.final_output);
    assert_eq!(paths.content_type, "video/mp4");
}

#[test]
fn progress_is_read_block_by_block() {
    let empty = FfmpegProgressBlock { out_time_micros: None, speed_bits: None };
    let bits = 1.5f32.to_bits();
    let mut block = empty;
    update_progress_block(&mut block, "out_time_ms=2500000", None);
    update_progress_block(&mut block, "speed=1.5x", Some(bits));
    assert_eq!(block.out_time_micros, Some(2_500_000));
    assert_eq!(block.speed_bits, Some(bits));

    let step = read_progress_line(block, "progress=continue", None);
    assert_eq!(
        step.publish,
        Some(StreamCopyProgressSnapshot { out_time_micros: Some(2_500_000), speed_bits: Some(bits) })
    );
    assert!(!step.finished);
    assert!(read_progress_line(step.block, "progress=end", None).finished);
}

#[test]
fn speed_is_read_without_its_unit() {
    assert_eq!(line_speed_text("speed=1.5x"), Some("1.5"));
    assert_eq!(line_speed_text("frame=1"), None);
    assert_eq!(ffmpeg_speed_text("2.0x"), Some("2.0"));
}

#[test]
fn progress_is_a_share_of_the_duration() {
    assert_eq!(progress_ratio_from_snapshot(Some(10_000), Some(2_500_000)), Some(250_000_000));
    assert_eq!(progress_ratio_from_snapshot(Some(10_000), Some(99_000_000)), Some(1_000_000_000));
    assert_eq!(progress_ratio_from_snapshot(None, Some(1)), None);
    assert_eq!(progress_ratio_from_snapshot(Some(0), Some(1)), None);
}

#[test]
fn progress_is_kept_by_media() {
    let mut progress = StreamCopyProgress::new();
    let snapshot = StreamCopyProgressSnapshot { out_time_micros: Some(1), speed_bits: None };
    progress.write(5, snapshot);
    assert_eq!(progress.snapshot(5), Some(snapshot));
    assert_eq!(progress.snapshot(6), None);
    progress.clear(5);
    assert_eq!(progress.snapshot(5), None);
}

#[test]
fn running_copies_show_their_progress() {
    let snapshot = StreamCopyProgressSnapshot { out_time_micros: Some(5_000_000), speed_bits: Some(7) };
    let summary = summary_for(5, Some(10_000), &copy(), Some(snapshot));
    assert_eq!(summary.status, StreamCopyStatus::Running);
    assert_eq!(summary.progress_ratio_billionths, Some(500_000_000));
    assert_eq!(summary.progress_speed_bits, Some(7));
    assert_eq!(summary_for(5, Some(10_000), &copy(), None).progress_ratio_billionths, None);
}

#[test]
fn subtitles_are_found_and_burned() {
    let media = item();
    assert_eq!(find_subtitle_stream(&media.subtitle_streams, 3), Some(0));
    assert_eq!(find_subtitle_stream(&media.subtitle_streams, 4), None);
    assert_eq!(
        resolve_sidecar_subtitle_path(&media, &media.subtitle_tracks[0]),
        "/lib/shows/movie.en.srt"
    );
    let mut burned = copy();
    burned.subtitle_mode = SubtitleMode::Burned;
    burned.subtitle_kind = Some(SubtitleSourceKind::Embedded);
    burned.subtitle_index = Some(3);
    assert_eq!(
        build_burn_subtitle_filter(&media, &burned, "/lib/shows/movie.mkv").unwrap(),
        "subtitles=/lib/shows/movie.mkv:si=0"
    );
    burned.subtitle_index = Some(8);
    assert!(build_burn_subtitle_filter(&media, &burned, "/lib/shows/movie.mkv").is_err());
}

#[test]
fn sidecars_are_converted_or_extracted() {
    let media = item();
    let mut sidecar = copy();
    sidecar.subtitle_mode = SubtitleMode::Sidecar;
    sidecar.subtitle_kind = Some(SubtitleSourceKind::Sidecar);
    sidecar.subtitle_index = Some(0);
    match plan_sidecar_subtitle(&media, &sidecar, "/lib/shows/movie.mkv", "/out/s.tmp.vtt") {
        Ok(SidecarPlan::Convert { source, extension }) => {
            assert_eq!(source, "/lib/shows/movie.en.srt");
            assert_eq!(extension, "srt");
        }
        _ => panic!("expected a conversion"),
    }
    sidecar.subtitle_kind = Some(SubtitleSourceKind::Embedded);
    sidecar.subtitle_index = Some(3);
    match plan_sidecar_subtitle(&media, &sidecar, "/lib/shows/movie.mkv", "/out/s.tmp.vtt") {
        Ok(SidecarPlan::Extract { args }) => {
            assert_eq!(
                args,
                subtitle_extract_arguments("/lib/shows/movie.mkv", 3, "/out/s.tmp.vtt")
            );
            assert!(has(&args, "0:3"));
        }
        _ => panic!("expected an extraction"),
    }
    assert_eq!(convert_sidecar_text("WEBVTT\n".into(), "vtt").unwrap(), "WEBVTT\n");
    assert_eq!(convert_sidecar_bytes(b"WEBVTT \xff", "vtt").unwrap(), "WEBVTT \u{fffd}");
    assert!(convert_sidecar_text("x".into(), "ass").is_err());
}

#[test]
fn jobs_run_step_by_step() {
    assert!(matches!(
        process_job(JobEvent::Taken { has_ffmpeg: true, has_cache_dir: true }),
        JobAction::MarkRunning
    ));
    assert!(matches!(
        process_job(JobEvent::Taken { has_ffmpeg: false, has_cache_dir: true }),
        JobAction::MarkFailed { .. }
    ));
    assert!(matches!(
        process_job(JobEvent::Taken { has_ffmpeg: true, has_cache_dir: false }),
        JobAction::MarkFailed { .. }
    ));
    assert!(matches!(process_job(JobEvent::MarkedRunning { ok: true }), JobAction::LoadMedia));
    assert!(matches!(
        process_job(JobEvent::MediaLoaded { outcome: Lookup::Found }),
        JobAction::LoadRequest
    ));
    assert!(matches!(
        process_job(JobEvent::RequestLoaded { outcome: Lookup::Found }),
        JobAction::Build
    ));
    assert!(matches!(process_job(JobEvent::Built), JobAction::MarkReady));
    match process_job(JobEvent::BuildFailed { message: "no".into() }) {
        JobAction::MarkFailed { message } => assert_eq!(message, "no"),
        other => panic!("expected a failure, got {other:?}"),
    }
}

#[test]
fn runs_fail_with_what_ffmpeg_said() {
    let ok = FfmpegExit::Exited { success: true, stderr: Vec::new() };
    assert_eq!(copy_run_failure(&ok), None);
    assert_eq!(extract_run_failure(&ok), None);
    let failed = FfmpegExit::Exited { success: false, stderr: b"bad\n".to_vec() };
    assert!(copy_run_failure(&failed).unwrap().contains("bad"));
    let not_started = FfmpegExit::NotStarted { error: "gone".into() };
    assert!(extract_run_failure(&not_started).unwrap().contains("gone"));
    assert_eq!(ffmpeg_error("ffmpeg failed", b"bad \xff"), ffmpeg_error_text("ffmpeg failed", "bad \u{fffd}"));
}

#[test]
fn copies_are_built_step_by_step() {
    let media = item();
    let record = copy();
    let paths = plan_stream_copy_paths(&media, "/cache");
    let software = FfmpegHardwareAcceleration::Software;
    let step = |event| build_stream_copy(&media, &record, &paths, &software, event);
    match step(BuildEvent::DirectoryReady) {
        BuildAction::RunCopy { args } => {
            assert_eq!(args.last().map(|arg| arg.as_str()), Some(paths.temp_output.as_str()))
        }
        other => panic!("expected a run, got {other:?}"),
    }
    let exit = FfmpegExit::Exited { success: true, stderr: Vec::new() };
    assert!(matches!(step(BuildEvent::CopyFinished { exit }), BuildAction::FinalizeOutput));
    assert!(matches!(step(BuildEvent::OutputFinalized), BuildAction::FinishWithoutSubtitle));
    let exit = FfmpegExit::Exited { success: false, stderr: b"bad".to_vec() };
    assert!(matches!(
        step(BuildEvent::CopyFinished { exit }),
        BuildAction::CleanUpAndFail { .. } | BuildAction::Fail { .. }
    ));
    assert!(matches!(
        step(BuildEvent::DirectoryFailed { error: "full".into() }),
        BuildAction::Fail { .. }
    ));
}

#[test]
fn different_paths_are_escaped_differently() {
    let paths = ["/a:b", "/a\\:b", "/a'b", "/a\\'b", "/a,b", "/a[b", "/ab"];
    for (i, left) in paths.iter().enumerate() {
        for right in &paths[i + 1..] {
            assert_ne!(escape_subtitles_path(left), escape_subtitles_path(right));
        }
    }
}

#[test]
fn failed_builds_are_cleaned_up() {
    let media = item();
    let record = copy();
    let paths = plan_stream_copy_paths(&media, "/cache");
    let software = FfmpegHardwareAcceleration::Software;
    let step = |event| build_stream_copy(&media, &record, &paths, &software, event);
    match step(BuildEvent::OutputNotFinalized { error: "full".into() }) {
        BuildAction::CleanUpAndFail { message, files } => {
            assert_eq!(message, "failed to finalize stream copy: full");
            assert_eq!(files, files_to_remove(&paths));
            assert_eq!(
                files,
                [
                    "/cache/00000000-0000-0000-0000-000000000005/stream.tmp.mp4",
                    "/cache/00000000-0000-0000-0000-000000000005/subtitle.tmp.vtt",
                    "/cache/00000000-0000-0000-0000-000000000005/stream.mp4",
                    "/cache/00000000-0000-0000-0000-000000000005/subtitle.vtt",
                ]
            );
        }
        other => panic!("expected a clean-up, got {other:?}"),
    }
    match step(BuildEvent::SubtitleNotWritten { error: "full".into() }) {
        BuildAction::CleanUpAndFail { message, .. } => {
            assert_eq!(message, "failed to write prepared subtitle: full")
        }
        other => panic!("expected a clean-up, got {other:?}"),
    }
}
