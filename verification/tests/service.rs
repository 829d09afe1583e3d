use stax_backend::config::{
    chosen_accel, into_server_config, plan_startup, CommandLine, HwAccelFlag,
};
use stax_backend::env_config::{default_path, var, var_os, Setting};
use stax_backend::ffmpeg::FfmpegHardwareAcceleration;
use stax_backend::frontend_assets::{
    cache_control, content_type, find_asset, is_api_path, request_asset_path, serve,
    should_fallback_to_index, EmbeddedAsset,
};
use stax_backend::persistence::records::{PendingProbe, ProbeOutcome};
use stax_backend::persistence::PersistenceError;
use stax_backend::probes::{
    process_job, resets_thumbnail, ProbeConfig, ProbeJob, QueuedJobs, SendResult,
};
use stax_backend::protocol::PlaybackMode;

fn line() -> CommandLine {
    CommandLine {
        api_addr: "127.0.0.1:3001".into(),
        database_path: "stax.db".into(),
        library_roots: vec!["/media".into()],
        frontend_origin: None,
        log_filter: "info".into(),
        ffprobe_bin: None,
        no_ffprobe: false,
        ffmpeg_bin: Some("/bin/ffmpeg".into()),
        no_ffmpeg: false,
        hw_accel: HwAccelFlag::Vaapi,
        vaapi_device: None,
        thumbnail_dir: None,
        no_thumbnail_cache: true,
        stream_copy_dir: Some("/copies".into()),
        no_stream_copy_cache: false,
        probe_workers: 0,
        walk_workers: 3,
        thumbnail_workers: 0,
        stream_copy_workers: 5,
    }
}

#[test]
fn command_line_becomes_the_configuration() {
    let config = into_server_config(line());
    let library = &config.runtime.library;
    assert_eq!(config.api_addr, "127.0.0.1:3001");
    assert_eq!(library.root_paths(), &vec!["/media".to_string()]);
    assert_eq!(library.ffmpeg_command(), Some("/bin/ffmpeg"));
    assert_eq!(library.probe_command(), Some("ffprobe"));
    assert_eq!(library.thumbnail_cache_dir(), None);
    assert_eq!(library.stream_copy_cache_dir(), Some("/copies"));
    assert_eq!(library.walk_workers(), 3);
}

#[test]
fn parts_start_with_at_least_one_worker() {
    let config = into_server_config(line());
    let plan = plan_startup(&config.runtime).unwrap();
    assert_eq!(plan.frontend_origin, None);
    assert_eq!(plan.stream_copies.max_concurrent, 5);
    assert_eq!(plan.thumbnails.max_concurrent, 1);
    assert_eq!(plan.probes.max_concurrent, 1);
    assert_eq!(plan.stream_copies.cache_dir.as_deref(), Some("/copies"));
}

#[test]
fn bad_origins_stop_the_start() {
    let mut bad = line();
    bad.frontend_origin = Some("https://ui\n".into());
    let config = into_server_config(bad);
    assert!(matches!(plan_startup(&config.runtime), Err(PersistenceError::InvalidData(_))));
}

#[test]
fn flags_choose_the_acceleration() {
    match chosen_accel(HwAccelFlag::Vaapi, None) {
        FfmpegHardwareAcceleration::Vaapi { device } => assert_eq!(device, "/dev/dri/renderD128"),
        other => panic!("expected a device, got {other:?}"),
    }
    assert!(matches!(
        chosen_accel(HwAccelFlag::Qsv, None),
        FfmpegHardwareAcceleration::Qsv
    ));
}

#[test]
fn old_settings_stand_in_for_missing_ones() {
    assert!(matches!(
        var(Setting::Missing, Setting::Value("old".into())),
        Setting::Value(text) if text == "old"
    ));
    assert!(matches!(
        var(Setting::Value("new".into()), Setting::Value("old".into())),
        Setting::Value(text) if text == "new"
    ));
    assert_eq!(var_os(None, Some("old".into())).as_deref(), Some("old"));
    assert_eq!(default_path("stax.db", "syncplay.db", false, true), "syncplay.db");
    assert_eq!(default_path("stax.db", "syncplay.db", true, true), "stax.db");
    assert_eq!(default_path("stax.db", "syncplay.db", false, false), "stax.db");
}

fn assets() -> Vec<EmbeddedAsset> {
    vec![
        EmbeddedAsset { path: "index.html".into(), contents: b"<html>".to_vec() },
        EmbeddedAsset { path: "assets/app.js".into(), contents: b"1".to_vec() },
    ]
}

#[test]
fn assets_are_served_with_the_index_as_fallback() {
    let assets = assets();
    assert_eq!(serve(&assets, "/"), Some(0));
    assert_eq!(serve(&assets, "/assets/app.js"), Some(1));
    assert_eq!(serve(&assets, "/rooms/abc"), Some(0));
    assert_eq!(serve(&assets, "/assets/gone"), None);
    assert_eq!(serve(&assets, "/gone.js"), None);
    assert_eq!(serve(&assets, "/api/anything"), None);
    assert_eq!(serve(&assets, "/api"), None);
    assert_eq!(find_asset(&assets, "nothing"), None);
}

#[test]
fn assets_have_types_and_caching() {
    assert!(is_api_path("/api/rooms"));
    assert!(!is_api_path("/apis"));
    assert_eq!(request_asset_path("//a"), "a");
    assert!(!should_fallback_to_index("assets/x"));
    assert_eq!(content_type("index.html"), "text/html; charset=utf-8");
    assert_eq!(content_type("a.unknown"), "application/octet-stream");
    assert_eq!(cache_control("index.html"), "no-cache");
    assert_eq!(cache_control("assets/app.js"), "public, max-age=31536000, immutable");
    assert_eq!(cache_control("robots.txt"), "public, max-age=3600");
}

fn job() -> ProbeJob {
    ProbeJob::from_pending(PendingProbe {
        media_id: 5,
        root_path: "/lib".into(),
        relative_path: "movie.mkv".into(),
        extension: Some("mkv".into()),
    })
}

fn outcome(error: Option<&str>) -> ProbeOutcome {
    ProbeOutcome {
        probed_at: "now".into(),
        probe_error: error.map(str::to_string),
        duration_millis: Some(1_000),
        container_name: None,
        video_codec: Some("h264".into()),
        audio_codec: None,
        width: None,
        height: None,
        playback_mode: PlaybackMode::Direct,
        video_profile: None,
        video_level: None,
        video_pix_fmt: None,
        video_bit_depth: None,
        audio_streams: Vec::new(),
        subtitle_streams: Vec::new(),
    }
}

#[test]
fn successful_probes_are_followed_by_thumbnails() {
    let next = process_job(&job(), &outcome(None)).unwrap();
    assert_eq!(next.media_id, 5);
    assert_eq!(next.media_path, "/lib/movie.mkv");
    assert_eq!(next.video_codec.as_deref(), Some("h264"));
    assert_eq!(next.duration_millis, Some(1_000));
    assert!(process_job(&job(), &outcome(Some("bad"))).is_none());
    assert!(resets_thumbnail(&outcome(None)));
    assert!(!resets_thumbnail(&outcome(Some("bad"))));
}

#[test]
fn waiting_jobs_are_not_queued_again() {
    let mut jobs = QueuedJobs::new();
    assert!(jobs.mark_queued(5));
    assert!(!jobs.mark_queued(5));
    jobs.unmark_queued(5);
    assert!(jobs.mark_queued(5));
    jobs.after_send(5, SendResult::Full);
    assert!(jobs.mark_queued(5));
    jobs.after_send(5, SendResult::Sent);
    assert!(!jobs.mark_queued(5));
    let config = ProbeConfig { probe_command: None, max_concurrent: 0 };
    assert_eq!(config.permits(), 1);
}
