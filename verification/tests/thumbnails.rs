use stax_backend::ffmpeg::FfmpegHardwareAcceleration;
use stax_backend::persistence::records::PendingThumbnail;
use stax_backend::thumbnails::{
    classify_ffmpeg_result, default_ffmpeg_command, default_thumbnail_cache_dir,
    ffmpeg_command_from_env, find_sidecar_art, generate, is_missing_attached_pic_error,
    process_job, render_failure_text, render_from_attached_pic, render_from_frame,
    render_from_image, thumbnail_cache_dir_from_env, thumbnail_is_up_to_date, thumbnail_path_for,
    thumbnail_seek_millis, RenderAction, RenderEvent, RenderExit, ThumbnailConfig, ThumbnailFile,
    ThumbnailJob, ThumbnailOutcome, ThumbnailSource,
};
use stax_backend::timestamp::Timestamp;

fn found(media: &str, files: &[&str]) -> Option<String> {
    find_sidecar_art(media).into_iter().find(|candidate| files.contains(&candidate.as_str()))
}

#[test]
fn thumbnails_finds_per_file_poster_sidecar() {
    assert_eq!(
        found("/t/movie.mkv", &["/t/movie-poster.jpg"]).as_deref(),
        Some("/t/movie-poster.jpg")
    );
}

#[test]
fn mod_finds_per_file_poster_sidecar() {
    assert_eq!(
        found("/t/movie.mkv", &["/t/movie-poster.jpg"]).as_deref(),
        Some("/t/movie-poster.jpg")
    );
}

#[test]
fn thumbnails_finds_basename_sidecar_when_no_poster() {
    assert_eq!(found("/t/movie.mkv", &["/t/movie.png"]).as_deref(), Some("/t/movie.png"));
}

#[test]
fn mod_finds_basename_sidecar_when_no_poster() {
    assert_eq!(found("/t/movie.mkv", &["/t/movie.png"]).as_deref(), Some("/t/movie.png"));
}

#[test]
fn thumbnails_falls_back_to_folder_poster() {
    assert_eq!(
        found("/t/season-1/episode-01.mkv", &["/t/season-1/folder.jpg"]).as_deref(),
        Some("/t/season-1/folder.jpg")
    );
}

#[test]
fn mod_falls_back_to_folder_poster() {
    assert_eq!(
        found("/t/season-1/episode-01.mkv", &["/t/season-1/folder.jpg"]).as_deref(),
        Some("/t/season-1/folder.jpg")
    );
}

#[test]
fn thumbnails_does_not_use_ancestor_poster() {
    assert_eq!(found("/t/series/season-1/episode-01.mkv", &["/t/series/poster.jpg"]), None);
}

#[test]
fn mod_does_not_use_ancestor_poster() {
    assert_eq!(found("/t/series/season-1/episode-01.mkv", &["/t/series/poster.jpg"]), None);
}

#[test]
fn thumbnails_does_not_walk_above_immediate_directory() {
    assert_eq!(found("/t/root/movie.mkv", &["/t/poster.jpg"]), None);
}

#[test]
fn mod_does_not_walk_above_immediate_directory() {
    assert_eq!(found("/t/root/movie.mkv", &["/t/poster.jpg"]), None);
}

#[test]
fn posters_of_the_file_come_before_those_of_the_folder() {
    assert_eq!(
        found("/t/movie.mkv", &["/t/poster.jpg", "/t/movie-poster.jpg"]).as_deref(),
        Some("/t/movie-poster.jpg")
    );
}

#[test]
fn thumbnails_seek_seconds_uses_later_point_without_thirty_second_cap() {
    assert_eq!(thumbnail_seek_millis(Some(7_200_000)), 1_440_000);
    assert_eq!(thumbnail_seek_millis(Some(60_000)), 12_000);
    assert_eq!(thumbnail_seek_millis(Some(1_500_000)), 300_000);
    assert_eq!(thumbnail_seek_millis(Some(0)), 0);
    assert_eq!(thumbnail_seek_millis(None), 0);
}

#[test]
fn mod_seek_seconds_uses_later_point_without_thirty_second_cap() {
    assert_eq!(thumbnail_seek_millis(Some(7_200_000)), 1_440_000);
    assert_eq!(thumbnail_seek_millis(Some(60_000)), 12_000);
    assert_eq!(thumbnail_seek_millis(Some(1_500_000)), 300_000);
    assert_eq!(thumbnail_seek_millis(Some(0)), 0);
    assert_eq!(thumbnail_seek_millis(None), 0);
}

#[test]
fn thumbnails_recognizes_missing_attached_pic_ffmpeg_error() {
    assert!(is_missing_attached_pic_error(
        "ffmpeg failed: Stream map '' matches no streams.\n\
         To ignore this, add a trailing '?' to the map."
    ));
    assert!(!is_missing_attached_pic_error(
        "ffmpeg failed: Invalid data found when processing input"
    ));
}

#[test]
fn mod_recognizes_missing_attached_pic_ffmpeg_error() {
    assert!(is_missing_attached_pic_error(
        "ffmpeg failed: Stream map '' matches no streams.\n\
         To ignore this, add a trailing '?' to the map."
    ));
    assert!(!is_missing_attached_pic_error(
        "ffmpeg failed: Invalid data found when processing input"
    ));
}

fn config() -> ThumbnailConfig {
    ThumbnailConfig {
        cache_dir: Some("/cache".into()),
        ffmpeg_command: Some("ffmpeg".into()),
        hw_accel: FfmpegHardwareAcceleration::Software,
        max_concurrent: 2,
    }
}

fn job(video_codec: Option<&str>) -> ThumbnailJob {
    ThumbnailJob::from_pending(PendingThumbnail {
        media_id: 5,
        root_path: "/lib".into(),
        relative_path: "movie.mkv".into(),
        video_codec: video_codec.map(str::to_string),
        duration_millis: Some(60_000),
    })
}

#[test]
fn thumbnails_are_kept_by_media() {
    assert_eq!(
        thumbnail_path_for("/cache", 5),
        "/cache/00000000-0000-0000-0000-000000000005.jpg"
    );
    assert_eq!(default_thumbnail_cache_dir(), "stax-thumbnails");
    assert_eq!(default_ffmpeg_command().as_deref(), Some("ffmpeg"));
    assert_eq!(job(None).media_path, "/lib/movie.mkv");
}

#[test]
fn settings_override_the_defaults() {
    assert_eq!(thumbnail_cache_dir_from_env(Some("/t")).as_deref(), Some("/t"));
    assert_eq!(thumbnail_cache_dir_from_env(None).as_deref(), Some("stax-thumbnails"));
    assert_eq!(ffmpeg_command_from_env(Some("/bin/ffmpeg")).as_deref(), Some("/bin/ffmpeg"));
    assert_eq!(config().with_env_overrides(Some("7")).max_concurrent, 7);
    assert_eq!(config().with_env_overrides(Some("none")).max_concurrent, 2);
    assert_eq!(config().permits(), 2);
}

#[test]
fn stale_or_empty_thumbnails_are_made_again() {
    let at = |nanos: i128| Some(Timestamp::utc(nanos));
    let file = |len, modified| Some(ThumbnailFile { is_file: true, len, modified });
    assert!(thumbnail_is_up_to_date(file(9, at(10)), at(10)));
    assert!(!thumbnail_is_up_to_date(file(9, at(9)), at(10)));
    assert!(!thumbnail_is_up_to_date(file(0, at(20)), at(10)));
    assert!(!thumbnail_is_up_to_date(file(9, None), at(10)));
    assert!(!thumbnail_is_up_to_date(None, at(10)));
    let last = Some(Timestamp { local_nanos: i128::MAX, offset_seconds: -7_200 });
    let first = Some(Timestamp { local_nanos: i128::MIN, offset_seconds: 7_200 });
    assert!(thumbnail_is_up_to_date(file(9, last), first));
    assert!(!thumbnail_is_up_to_date(file(9, first), last));
    let here = Some(Timestamp { local_nanos: 7_200_000_000_010, offset_seconds: 7_200 });
    assert!(thumbnail_is_up_to_date(file(9, here), at(10)));
    assert!(!thumbnail_is_up_to_date(file(9, here), at(11)));
}

#[test]
fn outcomes_are_stored() {
    let generated = ThumbnailOutcome::Generated { source: ThumbnailSource::Frame };
    assert_eq!(process_job(&generated, "now"), (Some("now".to_string()), None));
    let failed = ThumbnailOutcome::Failed { message: "bad".into() };
    assert_eq!(process_job(&failed, "now").1.as_deref(), Some("bad"));
}

#[test]
fn frames_are_taken_at_a_fifth() {
    let args = render_from_frame(
        "/lib/movie.mkv",
        "/cache/x.jpg",
        Some(60_000),
        &FfmpegHardwareAcceleration::Software,
    );
    let place = args.iter().position(|arg| arg == "-ss").unwrap();
    assert_eq!(args[place + 1], "12.000");
    assert_eq!(args.last().map(|arg| arg.as_str()), Some("/cache/x.jpg"));
    assert!(render_from_image("/t/a.png", "/cache/x.jpg").contains(&"/t/a.png".to_string()));
    assert!(render_from_attached_pic("/lib/movie.mkv", "/cache/x.jpg")
        .contains(&"/lib/movie.mkv".to_string()));
}

#[test]
fn results_of_ffmpeg_are_told_apart() {
    assert_eq!(classify_ffmpeg_result(&RenderExit::Succeeded { has_output: true }), None);
    assert!(classify_ffmpeg_result(&RenderExit::Succeeded { has_output: false }).is_some());
    assert!(classify_ffmpeg_result(&RenderExit::NotStarted { error: "gone".into() })
        .unwrap()
        .contains("gone"));
    let failed =
        RenderExit::Failed { status: "exit status: 1".into(), stderr: b"bad \xff".to_vec() };
    assert_eq!(
        classify_ffmpeg_result(&failed),
        Some(render_failure_text("exit status: 1", "bad \u{fffd}"))
    );
}

#[test]
fn thumbnails_are_made_step_by_step() {
    let config = config();
    let job = job(Some("h264"));
    let step = |event| generate(&job, &config, event);
    match step(RenderEvent::Taken) {
        RenderAction::CheckFreshness { output } => {
            assert_eq!(output, thumbnail_path_for("/cache", 5))
        }
        other => panic!("expected a check, got {other:?}"),
    }
    assert!(matches!(
        step(RenderEvent::FreshnessChecked { fresh: true }),
        RenderAction::Finish {
            outcome: ThumbnailOutcome::Generated { source: ThumbnailSource::Cached }
        }
    ));
    assert!(matches!(
        step(RenderEvent::FreshnessChecked { fresh: false }),
        RenderAction::CreateDirectory { .. }
    ));
    assert!(matches!(step(RenderEvent::DirectoryReady), RenderAction::SearchArt { .. }));
    assert!(matches!(
        step(RenderEvent::ArtSearched { art: None }),
        RenderAction::RenderCover { .. }
    ));
    let exit = RenderExit::NotStarted { error: "gone".into() };
    assert!(matches!(step(RenderEvent::CoverRendered { exit }), RenderAction::RenderFrame { .. }));
    let exit = RenderExit::Succeeded { has_output: true };
    assert!(matches!(
        step(RenderEvent::FrameRendered { exit }),
        RenderAction::Finish {
            outcome: ThumbnailOutcome::Generated { source: ThumbnailSource::Frame }
        }
    ));
}
