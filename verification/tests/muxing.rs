use stax_backend::ffmpeg::DEFAULT_VAAPI_DEVICE;
use stax_backend::muxing::args::{build_ffmpeg_args, HwAccel, SpawnOffset};
use stax_backend::muxing::playlists::{
    audio_variant_filename, build_master_playlist, build_var_stream_map, build_variant_playlist,
    effective_audio_streams, escape_playlist_attr, estimate_bandwidth_bps, hls_video_codec_string,
    sanitize_token, INIT_SEGMENT_FROZEN, VIDEO_VARIANT_FILENAME,
};
use stax_backend::muxing::segments::{
    format_seconds, parse_video_segment_filename, video_segment_filename, SegmentPlan,
};
use stax_backend::muxing::sessions::{
    absolutize_path, check_request, content_type_for_filename, evict_idle, freeze_init_segment,
    get_or_start, is_scratch_playlist, master_write_failure, noted_failure,
    scrape_variant_playlist_frontier, segment_deadline_secs, serve, should_respawn_for_segment,
    spawn_if_needed, split_stderr, start_failure, validate_filename, wait_for_file, wait_for_ready,
    watch_readiness, EncoderState, HlsConfig, HlsError, HlsServeBody, HlsSettings, ServeAction,
    SessionFlavor, SessionKey, SessionUse, SpawnAction, WaitStep, WatchState, WatchTick,
};
use stax_backend::muxing::{BrowserHint, HlsMode};
use stax_backend::protocol::{AudioStream, MediaItem, PlaybackMode, PreparationState};

fn at(seconds: f64) -> i128 {
    (seconds * 1e9).round() as i128
}

fn span(seconds: f64) -> u128 {
    at(seconds) as u128
}

fn all_at(seconds: &[f64]) -> Vec<i128> {
    seconds.iter().map(|value| at(*value)).collect()
}

fn spans(seconds: &[f64]) -> Vec<u128> {
    seconds.iter().map(|value| span(*value)).collect()
}

fn audio(index: u32, codec: &str, language: Option<&str>, default: bool) -> AudioStream {
    AudioStream {
        index,
        codec: Some(codec.to_string()),
        channels: Some(2),
        channel_layout: Some("stereo".into()),
        language: language.map(str::to_string),
        title: None,
        default,
    }
}

fn make_item() -> MediaItem {
    MediaItem {
        id: 0,
        root_path: "/lib".into(),
        relative_path: "movie.mkv".into(),
        file_name: "movie.mkv".into(),
        extension: Some("mkv".into()),
        size_bytes: 0,
        modified_at: String::new(),
        indexed_at: String::new(),
        content_type: None,
        duration_millis: None,
        container_name: None,
        video_codec: Some("h264".into()),
        audio_codec: Some("aac".into()),
        width: None,
        height: None,
        probed_at: None,
        probe_error: None,
        subtitle_tracks: Vec::new(),
        thumbnail_generated_at: None,
        thumbnail_error: None,
        playback_mode: PlaybackMode::NeedsPreparation,
        preparation_state: PreparationState::NeedsPreparation,
        video_profile: None,
        video_level: None,
        video_pix_fmt: None,
        video_bit_depth: None,
        audio_streams: vec![audio(0, "aac", Some("eng"), true)],
        subtitle_streams: Vec::new(),
        stream_copy: None,
    }
}

fn build_args_for(mode: HlsMode, hw: HwAccel, vaapi: Option<&str>) -> Vec<String> {
    build_ffmpeg_args(
        &make_item(),
        mode,
        BrowserHint::Generic,
        "/in/movie.mkv",
        "/cache/sess",
        hw,
        vaapi,
        SpawnOffset::zero(),
    )
}

fn build_args_for_offset(mode: HlsMode, offset: SpawnOffset) -> Vec<String> {
    build_ffmpeg_args(
        &make_item(),
        mode,
        BrowserHint::Generic,
        "/in/movie.mkv",
        "/cache/sess",
        HwAccel::Software,
        None,
        offset,
    )
}

fn input_index(args: &[String]) -> usize {
    args.iter().position(|a| a == "-i").expect("missing -i")
}

fn has(args: &[String], text: &str) -> bool {
    args.iter().any(|a| a == text)
}

fn place(args: &[String], text: &str) -> usize {
    args.iter().position(|a| a == text).expect(text)
}

#[test]
fn segment_plan_fixed_grid_covers_full_duration_with_target_size() {
    let plan = SegmentPlan::fixed_grid(at(10.0));
    assert_eq!(plan.segment_count(), 5);
    assert_eq!(plan.start_time_of(0), 0);
    assert_eq!(plan.start_time_of(4), span(8.0));
    assert_eq!(plan.duration_of(4), span(2.0));
    assert_eq!(plan.target_duration_secs, 2);
}

#[test]
fn segment_plan_fixed_grid_absorbs_short_trailing_remainder() {
    let plan = SegmentPlan::fixed_grid(at(10.5));
    assert_eq!(plan.segment_count(), 5);
    assert_eq!(plan.duration_of(4), span(2.5));
}

#[test]
fn segment_plan_fixed_grid_emits_short_trailer_when_over_threshold() {
    let plan = SegmentPlan::fixed_grid(at(11.0));
    assert_eq!(plan.segment_count(), 6);
    assert_eq!(plan.duration_of(5), span(1.0));
}

#[test]
fn segment_plan_keyframe_mode_matches_coalesced_boundaries() {
    let plan =
        SegmentPlan::from_keyframes(at(30.0), &all_at(&[0.0, 2.0, 2.3, 4.0, 10.0, 20.0]));
    assert_eq!(plan.boundaries, spans(&[0.0, 2.0, 4.0, 10.0, 20.0]));
    assert_eq!(plan.segment_count(), 5);
    assert_eq!(plan.duration_of(4), span(10.0));
    assert_eq!(plan.target_duration_secs, 10);
}

#[test]
fn segment_plan_keyframe_mode_falls_back_when_first_kf_not_at_zero() {
    let plan = SegmentPlan::from_keyframes(at(30.0), &all_at(&[1.5, 5.0, 10.0]));
    assert_eq!(plan.boundaries, vec![0]);
    assert_eq!(plan.segment_count(), 1);
}

#[test]
fn segment_plan_keyframe_mode_ignores_keyframes_past_duration() {
    let plan = SegmentPlan::from_keyframes(at(10.0), &all_at(&[0.0, 5.0, 15.0]));
    assert_eq!(plan.boundaries, spans(&[0.0, 5.0]));
}

#[test]
fn segment_plan_for_session_picks_grid_for_transcode() {
    let plan = SegmentPlan::for_session(HlsMode::HlsFullTranscode, at(8.0), &vec![]);
    assert_eq!(plan.boundaries, spans(&[0.0, 2.0, 4.0, 6.0]));
}

#[test]
fn segment_plan_for_session_uses_keyframes_for_copy_mode() {
    let plan = SegmentPlan::for_session(HlsMode::HlsRemux, at(10.0), &all_at(&[0.0, 3.5, 7.0]));
    assert_eq!(plan.boundaries, spans(&[0.0, 3.5, 7.0]));
}

#[test]
fn segment_plan_segment_index_for_time_finds_covering_segment() {
    let plan = SegmentPlan::from_keyframes(at(30.0), &all_at(&[0.0, 5.0, 12.0, 20.0]));
    assert_eq!(plan.segment_index_for_time(0), 0);
    assert_eq!(plan.segment_index_for_time(at(4.9)), 0);
    assert_eq!(plan.segment_index_for_time(at(5.0)), 1);
    assert_eq!(plan.segment_index_for_time(at(15.0)), 2);
    assert_eq!(plan.segment_index_for_time(at(29.9)), 3);
}

#[test]
fn segment_index_inverts_segment_start() {
    let plan = SegmentPlan::fixed_grid(at(60.0));
    for index in 0..plan.segment_count() {
        assert_eq!(plan.segment_index_for_time(plan.start_time_of(index) as i128), index);
    }
    assert_eq!(plan.segment_index_for_time(-5), 0);
}

#[test]
fn segment_durations_add_up_to_the_video() {
    let plan = SegmentPlan::from_keyframes(at(30.5), &all_at(&[0.0, 2.0, 2.3, 4.0, 10.0, 20.0]));
    let total: u128 = (0..plan.segment_count()).map(|index| plan.duration_of(index)).sum();
    assert_eq!(total, span(30.5));
    assert_eq!(plan.target_duration_secs, 11);
}

#[test]
fn segments_of_unknown_or_short_videos_are_single() {
    assert_eq!(SegmentPlan::single(-7).total_duration, 0);
    assert_eq!(SegmentPlan::single(0).target_duration_secs, 1);
    assert_eq!(SegmentPlan::fixed_grid(at(2.0)).boundaries, spans(&[0.0]));
    assert_eq!(SegmentPlan::from_keyframes(at(1.0), &all_at(&[0.0, 0.5])).boundaries, vec![0]);
    let other = SegmentPlan::for_session(HlsMode::NotHls, at(9.0), &all_at(&[0.0, 3.0]));
    assert_eq!(other.boundaries, vec![0]);
    assert_eq!(other.start_time_of(7), span(9.0));
    assert_eq!(other.duration_of(7), 0);
}

#[test]
fn segment_filename_round_trip_supports_five_digit_indices() {
    assert_eq!(video_segment_filename(0), "seg_0_00000.m4s");
    assert_eq!(video_segment_filename(42), "seg_0_00042.m4s");
    assert_eq!(video_segment_filename(3600), "seg_0_03600.m4s");
    assert_eq!(parse_video_segment_filename("seg_0_00042.m4s"), Some(42));
    assert_eq!(parse_video_segment_filename("seg_0_12345.m4s"), Some(12345));
    assert_eq!(parse_video_segment_filename("seg_1_00042.m4s"), None);
    assert_eq!(parse_video_segment_filename("seg_eng_00042.m4s"), None);
    assert_eq!(parse_video_segment_filename("master.m3u8"), None);
    assert_eq!(parse_video_segment_filename("seg_0_.m4s"), None);
}

#[test]
fn segment_filenames_beyond_five_digits_read_back() {
    assert_eq!(video_segment_filename(1_234_567), "seg_0_1234567.m4s");
    assert_eq!(parse_video_segment_filename("seg_0_1234567.m4s"), Some(1_234_567));
    assert_eq!(parse_video_segment_filename("seg_0_4294967296.m4s"), None);
    assert_eq!(parse_video_segment_filename("seg_0_+5.m4s"), None);
}

#[test]
fn synthesized_variant_playlist_has_endlist_and_every_segment() {
    let plan = SegmentPlan::fixed_grid(at(10.0));
    let body = build_variant_playlist(&plan);
    assert!(body.contains("#EXT-X-PLAYLIST-TYPE:VOD"));
    assert!(body.contains("#EXT-X-ENDLIST"));
    assert!(body.contains(&format!("#EXT-X-MAP:URI=\"{INIT_SEGMENT_FROZEN}\"")));
    assert!(body.contains("#EXT-X-TARGETDURATION:2"));
    for i in 0..5 {
        assert!(body.contains(&video_segment_filename(i)), "missing segment {i}");
    }
    assert!(body.contains("#EXTINF:2.000,"));
}

#[test]
fn synthesized_variant_playlist_copy_mode_matches_keyframes() {
    let plan = SegmentPlan::from_keyframes(at(30.0), &all_at(&[0.0, 3.5, 7.0, 15.0]));
    let body = build_variant_playlist(&plan);
    assert!(body.contains("#EXTINF:3.500,\nseg_0_00000.m4s"));
    assert!(body.contains("#EXTINF:3.500,\nseg_0_00001.m4s"));
    assert!(body.contains("#EXTINF:8.000,\nseg_0_00002.m4s"));
    assert!(body.contains("#EXTINF:15.000,\nseg_0_00003.m4s"));
    assert!(body.trim_end().ends_with("#EXT-X-ENDLIST"));
}

#[test]
fn variant_playlist_is_written_out_in_full() {
    let plan = SegmentPlan::single(at(1.234));
    assert_eq!(
        build_variant_playlist(&plan),
        "#EXTM3U\n#EXT-X-VERSION:7\n#EXT-X-TARGETDURATION:2\n#EXT-X-MEDIA-SEQUENCE:0\n\
         #EXT-X-PLAYLIST-TYPE:VOD\n#EXT-X-INDEPENDENT-SEGMENTS\n\
         #EXT-X-MAP:URI=\"init_0.lock.mp4\"\n#EXTINF:1.234,\nseg_0_00000.m4s\n#EXT-X-ENDLIST\n"
    );
}

#[test]
fn keyframes_are_compared_below_the_millisecond() {
    let plan = SegmentPlan::from_keyframes(at(10.0), &all_at(&[0.0, 0.9996, 1.0004, 5.0]));
    assert_eq!(plan.boundaries, spans(&[0.0, 1.0004, 5.0]));
    let plan = SegmentPlan::from_keyframes(at(10.0), &all_at(&[0.1, 5.0]));
    assert_eq!(plan.boundaries, spans(&[0.0, 5.0]));
    let plan = SegmentPlan::from_keyframes(at(10.0), &all_at(&[0.1004, 5.0]));
    assert_eq!(plan.boundaries, vec![0]);
    let plan = SegmentPlan::from_keyframes(at(3.0), &all_at(&[0.0, 2.9996, 3.0]));
    assert_eq!(plan.boundaries, spans(&[0.0, 2.9996]));
    assert_eq!(plan.target_duration_secs, 3);
    let plan = SegmentPlan::from_keyframes(at(4.0004), &all_at(&[0.0]));
    assert_eq!(plan.target_duration_secs, 5);
}

#[test]
fn written_durations_round_the_exact_difference() {
    let plan = SegmentPlan::from_keyframes(at(6.0), &all_at(&[0.0, 2.0004, 4.0012]));
    let body = build_variant_playlist(&plan);
    assert!(body.contains("#EXTINF:2.000,\nseg_0_00000.m4s"));
    assert!(body.contains("#EXTINF:2.001,\nseg_0_00001.m4s"));
    assert!(body.contains("#EXTINF:1.999,\nseg_0_00002.m4s"));
    assert_eq!(format_seconds(1_000_500_000), "1.000");
    assert_eq!(format_seconds(1_000_500_001), "1.001");
    assert_eq!(format_seconds(1_001_500_000), "1.002");
    assert_eq!(format_seconds(u128::MAX), "340282366920938463463374607431.768");
}

#[test]
fn an_encoder_seeks_to_the_nearest_millisecond() {
    let mut item = make_item();
    item.duration_millis = Some(8_000);
    let mode = HlsMode::HlsRemux;
    let keyframes = all_at(&[0.0, 2.0004, 5.0006]);
    let session = get_or_start(&item, mode, BrowserHint::Generic, "/cache", &keyframes);
    assert_eq!(session.plan.boundaries, spans(&[0.0, 2.0004, 5.0006]));
    match spawn_if_needed(&item, mode, BrowserHint::Generic, &session, &config(), true, 2) {
        Ok(SpawnAction::Spawn { args, encoder, .. }) => {
            assert_eq!(encoder.start_offset_nanos, span(5.0006));
            assert_eq!(args[place(&args, "-ss") + 1], "5.001");
            assert_eq!(args[place(&args, "-output_ts_offset") + 1], "5.001");
        }
        other => panic!("expected a start, got {other:?}"),
    }
}

#[test]
fn segment_plan_for_session_copy_mode_falls_back_without_keyframes() {
    let plan = SegmentPlan::for_session(HlsMode::HlsRemux, at(10.0), &vec![]);
    assert_eq!(plan.boundaries, vec![0]);
}

#[test]
fn validate_filename_accepts_known_extensions() {
    validate_filename("master.m3u8").unwrap();
    validate_filename("stream_0.m3u8").unwrap();
    validate_filename("seg_0_001.m4s").unwrap();
    validate_filename("init.mp4").unwrap();
}

#[test]
fn validate_filename_rejects_traversal_and_unknown() {
    assert!(matches!(validate_filename("../etc/passwd"), Err(HlsError::InvalidFilename)));
    assert!(matches!(validate_filename("master.txt"), Err(HlsError::InvalidFilename)));
    assert!(matches!(validate_filename(""), Err(HlsError::InvalidFilename)));
}

#[test]
fn validate_filename_bounds_the_length() {
    let longest = format!("{}.mp4", "a".repeat(124));
    assert!(validate_filename(&longest).is_ok());
    let too_long = format!("{}.mp4", "a".repeat(125));
    assert!(matches!(validate_filename(&too_long), Err(HlsError::InvalidFilename)));
    assert!(validate_filename("INIT.MP4").is_ok());
}

#[test]
fn safari_user_agent_detection() {
    let safari = "Mozilla/5.0 (Macintosh; Intel Mac OS X 12_6) AppleWebKit/605.1.15 (KHTML, like Gecko) Version/16.6 Safari/605.1.15";
    let chrome = "Mozilla/5.0 (Macintosh; Intel Mac OS X 10_15_7) AppleWebKit/537.36 (KHTML, like Gecko) Chrome/120.0.0.0 Safari/537.36";
    let firefox = "Mozilla/5.0 (X11; Linux x86_64; rv:120.0) Gecko/20100101 Firefox/120.0";

    assert!(matches!(BrowserHint::from_user_agent(Some(safari)), BrowserHint::Safari));
    assert!(matches!(BrowserHint::from_user_agent(Some(chrome)), BrowserHint::Generic));
    assert!(matches!(BrowserHint::from_user_agent(Some(firefox)), BrowserHint::Generic));
    assert!(matches!(BrowserHint::from_user_agent(None), BrowserHint::Generic));
}

#[test]
fn var_stream_map_with_two_audio_renditions() {
    let streams = effective_audio_streams(&vec![
        audio(0, "aac", Some("eng"), true),
        audio(1, "ac3", Some("jpn"), false),
    ]);
    let map = build_var_stream_map(&streams);

    assert!(map.starts_with("v:0,agroup:aud"));
    assert!(map.contains("a:0,agroup:aud,language:eng"));
    assert!(map.contains("a:1,agroup:aud,language:jpn"));
    assert!(map.contains("default:yes"));
}

#[test]
fn var_stream_map_promotes_default_when_missing() {
    let streams = effective_audio_streams(&vec![audio(0, "aac", Some("eng"), false)]);
    let map = build_var_stream_map(&streams);

    assert!(map.contains("default:yes"));
}

#[test]
fn var_stream_map_has_one_default() {
    let streams = effective_audio_streams(&vec![
        audio(0, "aac", Some("eng"), true),
        audio(1, "aac", Some("jpn"), true),
        audio(2, "aac", None, false),
    ]);
    let map = build_var_stream_map(&streams);
    assert_eq!(map.matches("default:yes").count(), 1);
    assert_eq!(build_var_stream_map(&vec![]), "v:0");
}

#[test]
fn var_stream_map_names_are_unique_when_labels_collide() {
    let mut first = audio(0, "aac", Some("eng"), true);
    first.title = Some("English".into());
    let mut second = audio(1, "aac", Some("eng"), false);
    second.title = Some("English".into());
    let streams = effective_audio_streams(&vec![first, second]);
    let map = build_var_stream_map(&streams);

    assert!(map.contains("name:a0_English"), "map: {map}");
    assert!(map.contains("name:a1_English"), "map: {map}");
    assert_ne!(audio_variant_filename(&streams[0]), audio_variant_filename(&streams[1]));
}

#[test]
fn master_playlist_contains_video_stream_inf_for_remux_with_audio_group() {
    let mut item = make_item();
    item.size_bytes = 1_500_000_000;
    item.duration_millis = Some(1_440_000);
    item.width = Some(1920);
    item.height = Some(1080);
    item.audio_streams =
        vec![audio(0, "aac", Some("eng"), true), audio(1, "ac3", Some("jpn"), false)];
    let audio_streams = effective_audio_streams(&item.audio_streams);

    let master =
        build_master_playlist(&item, HlsMode::HlsRemux, BrowserHint::Generic, &audio_streams);

    assert!(master.starts_with("#EXTM3U\n"), "master: {master}");
    assert!(
        master.contains("#EXT-X-STREAM-INF:"),
        "master must carry a STREAM-INF for the video variant: {master}"
    );
    assert!(
        master.contains(&format!("\n{}\n", VIDEO_VARIANT_FILENAME)),
        "STREAM-INF must be followed by the video variant URI: {master}"
    );
    assert!(master.contains("RESOLUTION=1920x1080"), "master: {master}");
    assert!(
        master.contains(r#"URI="stream_a0_eng.m3u8""#),
        "english audio URI must match ffmpeg's filename: {master}"
    );
    assert!(
        master.contains(r#"URI="stream_a1_jpn.m3u8""#),
        "japanese audio URI must match ffmpeg's filename: {master}"
    );
    assert!(master.contains(r#"AUDIO="aud""#), "master: {master}");
    assert!(
        master.contains("BANDWIDTH=") && !master.contains("BANDWIDTH=0"),
        "master: {master}"
    );
}

#[test]
fn master_playlist_without_audio_has_no_media_rows_and_no_audio_attr() {
    let mut item = make_item();
    item.audio_streams = Vec::new();
    let audio_streams = effective_audio_streams(&item.audio_streams);

    let master =
        build_master_playlist(&item, HlsMode::HlsRemux, BrowserHint::Generic, &audio_streams);

    assert!(master.contains("#EXT-X-STREAM-INF:"), "master: {master}");
    assert!(!master.contains("#EXT-X-MEDIA"), "no audio, no EXT-X-MEDIA lines: {master}");
    assert!(
        !master.contains(r#"AUDIO=""#),
        "STREAM-INF must not carry an AUDIO= group when there are no audio renditions: {master}"
    );
}

#[test]
fn master_playlist_uri_matches_var_stream_map_name() {
    let streams = effective_audio_streams(&vec![audio(0, "aac", Some("eng"), true)]);
    let map = build_var_stream_map(&streams);

    let name_token = map
        .split_whitespace()
        .find_map(|part| part.split(',').find_map(|kv| kv.strip_prefix("name:")))
        .expect("var_stream_map entry should include name:");
    let expected_uri = format!("stream_{}.m3u8", name_token);

    assert_eq!(audio_variant_filename(&streams[0]), expected_uri);
}

#[test]
fn master_playlist_attributes_stay_quoted() {
    assert_eq!(escape_playlist_attr("a\"b\nc\rd"), "a_b_c_d");
    assert_eq!(sanitize_token("a b/c-d_e"), "a_b_c-d_e");
}

#[test]
fn hls_video_codec_string_respects_transcode_vs_copy() {
    let mut item = make_item();
    item.video_codec = Some("hevc".into());

    assert!(hls_video_codec_string(&item, false).starts_with("hvc1"));
    assert!(hls_video_codec_string(&item, true).starts_with("avc1"));
}

#[test]
fn estimate_bandwidth_clamps_pathological_inputs() {
    let mut item = make_item();
    item.size_bytes = 10_000_000_000;
    item.duration_millis = Some(1);
    let bw = estimate_bandwidth_bps(&item);
    assert!(bw <= 80_000_000, "bandwidth must be clamped: {bw}");

    let mut item = make_item();
    item.duration_millis = None;
    assert!(estimate_bandwidth_bps(&item) > 0);
}

#[test]
fn build_args_software_unchanged() {
    let args = build_args_for(HlsMode::HlsFullTranscode, HwAccel::Software, None);
    assert!(has(&args, "libx264"));
    assert!(has(&args, "yuv420p"));
    assert!(has(&args, "zerolatency"));
    assert!(has(&args, "-force_key_frames"));
    assert!(!has(&args, "-hwaccel"));
    assert!(!has(&args, "h264_nvenc"));
}

#[test]
fn build_args_nvenc_emits_cuda_decode_and_h264_nvenc() {
    let args = build_args_for(HlsMode::HlsFullTranscode, HwAccel::Nvenc, None);
    let i = input_index(&args);

    let hwaccel_pos = place(&args, "-hwaccel");
    assert!(hwaccel_pos < i);
    assert_eq!(args[hwaccel_pos + 1], "cuda");
    assert!(has(&args, "-hwaccel_output_format"));

    assert!(has(&args, "h264_nvenc"));
    assert!(has(&args, "ll"));
    assert!(has(&args, "vbr"));
    assert!(!has(&args, "libx264"));
}

#[test]
fn build_args_vaapi_uses_configured_device() {
    let args =
        build_args_for(HlsMode::HlsFullTranscode, HwAccel::Vaapi, Some("/dev/dri/renderD129"));

    let device_pos = place(&args, "-vaapi_device");
    assert_eq!(args[device_pos + 1], "/dev/dri/renderD129");
    assert!(has(&args, "h264_vaapi"));
    assert!(has(&args, "format=nv12|vaapi,hwupload,scale_vaapi=format=nv12"));
}

#[test]
fn build_args_vaapi_defaults_device_when_unset() {
    let args = build_args_for(HlsMode::HlsFullTranscode, HwAccel::Vaapi, None);
    let device_pos = place(&args, "-vaapi_device");
    assert_eq!(args[device_pos + 1], DEFAULT_VAAPI_DEVICE);
}

#[test]
fn build_args_qsv_disables_lookahead() {
    let args = build_args_for(HlsMode::HlsFullTranscode, HwAccel::Qsv, None);
    assert!(has(&args, "h264_qsv"));
    let look_pos = place(&args, "-look_ahead");
    assert_eq!(args[look_pos + 1], "0");
}

#[test]
fn build_args_videotoolbox_omits_pix_fmt() {
    let args = build_args_for(HlsMode::HlsFullTranscode, HwAccel::VideoToolbox, None);
    assert!(has(&args, "h264_videotoolbox"));
    assert!(!has(&args, "yuv420p"));
    assert!(!has(&args, "zerolatency"));
}

#[test]
fn build_args_remux_ignores_hw_accel() {
    let args = build_args_for(HlsMode::HlsRemux, HwAccel::Nvenc, None);
    assert!(!has(&args, "-hwaccel"));
    assert!(!has(&args, "h264_nvenc"));
    assert!(!has(&args, "libx264"));
    let cv_pos = place(&args, "-c:v");
    assert_eq!(args[cv_pos + 1], "copy");
}

#[test]
fn build_args_audio_transcode_ignores_hw_accel() {
    let args = build_args_for(HlsMode::HlsAudioTranscode, HwAccel::Vaapi, None);
    assert!(!has(&args, "-hwaccel"));
    assert!(!has(&args, "h264_vaapi"));
    let cv_pos = place(&args, "-c:v");
    assert_eq!(args[cv_pos + 1], "copy");
    assert!(has(&args, "aac"));
}

#[test]
fn build_args_zero_offset_has_no_seek_or_start_number() {
    let args = build_args_for_offset(HlsMode::HlsRemux, SpawnOffset::zero());
    assert!(!has(&args, "-ss"));
    assert!(!has(&args, "-copyts"));
    assert!(!has(&args, "-output_ts_offset"));
    assert!(!has(&args, "-start_number"));
}

#[test]
fn build_args_respawn_inserts_input_seek_and_start_number() {
    let offset = SpawnOffset { segment: 99, start_nanos: span(198.0) };
    let args = build_args_for_offset(HlsMode::HlsRemux, offset);

    let input_pos = place(&args, "-i");
    let ss_pos = place(&args, "-ss");
    assert!(ss_pos < input_pos, "-ss must land before -i for demuxer-level seek: {args:?}");
    assert_eq!(args[ss_pos + 1], "198.000");

    let copyts_pos = place(&args, "-copyts");
    assert!(copyts_pos < input_pos, "-copyts must land in input block");

    let start_pos = place(&args, "-start_number");
    assert!(start_pos > input_pos, "-start_number must land after -i");
    assert_eq!(args[start_pos + 1], "99");

    let placement_pos = place(&args, "-output_ts_offset");
    assert!(placement_pos > input_pos, "-output_ts_offset must land after -i");
    assert_eq!(args[placement_pos + 1], "198.000");
}

#[test]
fn build_args_are_written_out_in_full() {
    let mut item = make_item();
    item.audio_streams = Vec::new();
    let args = build_ffmpeg_args(
        &item,
        HlsMode::HlsRemux,
        BrowserHint::Generic,
        "/in/movie.mkv",
        "/cache/sess",
        HwAccel::Software,
        None,
        SpawnOffset::zero(),
    );
    let text = "-y -loglevel warning -stats -nostdin -analyzeduration 1000000 -probesize 5000000 \
        -i /in/movie.mkv -map 0:v:0? -sn -c:v copy -c:a copy -flush_packets 1 -muxdelay 0 \
        -muxpreload 0 -avoid_negative_ts make_zero -f hls -hls_time 2 -hls_list_size 0 \
        -hls_playlist_type vod -hls_segment_type fmp4 -hls_flags independent_segments+temp_file \
        -hls_segment_filename /cache/sess/seg_%v_%05d.m4s -var_stream_map v:0 \
        /cache/sess/stream_%v.m3u8";
    assert_eq!(args.join(" "), text);
}

#[test]
fn safari_gets_a_copy_of_what_others_get_encoded() {
    let args = build_ffmpeg_args(
        &make_item(),
        HlsMode::HlsFullTranscode,
        BrowserHint::Safari,
        "/in/movie.mkv",
        "/cache/sess",
        HwAccel::Nvenc,
        None,
        SpawnOffset::zero(),
    );
    assert!(!has(&args, "-hwaccel"));
    assert_eq!(args[place(&args, "-c:v") + 1], "copy");
    assert_eq!(args[place(&args, "-c:a") + 1], "aac");
}

#[test]
fn scrape_variant_playlist_frontier_parses_last_segment() {
    let playlist = "\
#EXTM3U\n\
#EXT-X-VERSION:7\n\
#EXT-X-TARGETDURATION:2\n\
#EXTINF:2.000,\n\
seg_0_00000.m4s\n\
#EXTINF:2.000,\n\
seg_0_00001.m4s\n\
#EXTINF:2.000,\n\
seg_0_00002.m4s\n";
    assert_eq!(scrape_variant_playlist_frontier(playlist), Some(2));
}

#[test]
fn scrape_variant_playlist_frontier_none_when_missing() {
    assert_eq!(scrape_variant_playlist_frontier(""), None);
}

#[test]
fn scrape_variant_playlist_frontier_handles_respawn_renumbering() {
    let playlist = "\
#EXTM3U\n\
#EXTINF:2.000,\n\
seg_0_00099.m4s\n\
#EXTINF:2.000,\n\
seg_0_00100.m4s\n";
    assert_eq!(scrape_variant_playlist_frontier(playlist), Some(100));
}

#[test]
fn frontier_is_the_highest_segment_of_a_playlist_with_entries() {
    let playlist = "#EXTM3U\n#EXTINF:2.000,\nseg_0_00100.m4s\n#EXTINF:2.000,\nseg_0_00099.m4s\n";
    assert_eq!(scrape_variant_playlist_frontier(playlist), Some(100));
    assert_eq!(scrape_variant_playlist_frontier("#EXTM3U\nseg_0_00005.m4s\n"), None);
    assert_eq!(scrape_variant_playlist_frontier("#EXTM3U\n#EXTINF:2.000,\nseg_1_00005.m4s\n"), None);
}

#[test]
fn only_the_grid_bounds_the_duration() {
    let plan = SegmentPlan::for_session(HlsMode::HlsRemux, i128::MAX, &all_at(&[0.0, 3.5]));
    assert_eq!(plan.boundaries, spans(&[0.0, 3.5]));
    assert_eq!(plan.total_duration, i128::MAX as u128);
    let plan = SegmentPlan::for_session(HlsMode::NotHls, i128::MAX, &vec![]);
    assert_eq!(plan.boundaries, vec![0]);
}

#[test]
fn freeze_init_segment_atomically_renames_when_present() {
    assert!(freeze_init_segment(false, true));
    assert!(!freeze_init_segment(false, false));
}

#[test]
fn freeze_init_segment_is_idempotent_across_respawns() {
    assert!(!freeze_init_segment(true, true));
}

#[test]
fn format_seconds_uses_three_decimals() {
    assert_eq!(format_seconds(span(0.0)), "0.000");
    assert_eq!(format_seconds(span(198.0)), "198.000");
    assert_eq!(format_seconds(span(42.5)), "42.500");
    assert_eq!(format_seconds(span(198.23199999999997)), "198.232");
}

#[test]
fn from_env_value_aliases() {
    assert_eq!(HwAccel::from_env_value(""), Some(HwAccel::Software));
    assert_eq!(HwAccel::from_env_value("none"), Some(HwAccel::Software));
    assert_eq!(HwAccel::from_env_value("OFF"), Some(HwAccel::Software));
    assert_eq!(HwAccel::from_env_value("nvenc"), Some(HwAccel::Nvenc));
    assert_eq!(HwAccel::from_env_value("CUDA"), Some(HwAccel::Nvenc));
    assert_eq!(HwAccel::from_env_value("nvidia"), Some(HwAccel::Nvenc));
    assert_eq!(HwAccel::from_env_value("vaapi"), Some(HwAccel::Vaapi));
    assert_eq!(HwAccel::from_env_value("qsv"), Some(HwAccel::Qsv));
    assert_eq!(HwAccel::from_env_value("quicksync"), Some(HwAccel::Qsv));
    assert_eq!(HwAccel::from_env_value("videotoolbox"), Some(HwAccel::VideoToolbox));
    assert_eq!(HwAccel::from_env_value("vt"), Some(HwAccel::VideoToolbox));
    assert_eq!(HwAccel::from_env_value("garbage"), None);
}

#[test]
fn unknown_settings_leave_the_defaults() {
    let settings = HlsSettings {
        cache_dir: Some(String::new()),
        max_concurrent: Some("0".into()),
        idle_secs: Some("soon".into()),
        hw_accel: Some("garbage".into()),
        vaapi_device: Some(String::new()),
    };
    let config = HlsConfig::from_env(Some("ffmpeg".into()), settings, "/tmp", Some("/srv"));
    assert_eq!(config.cache_dir, "/tmp/syncplay-hls");
    assert_eq!(config.max_concurrent, 2);
    assert_eq!(config.idle_secs, 60);
    assert_eq!(config.hw_accel, HwAccel::Software);
    assert_eq!(config.vaapi_device, None);
    assert_eq!(config.cache_dir, HlsConfig::with_defaults("/tmp").cache_dir);
}

#[test]
fn settings_are_taken_from_the_environment() {
    let settings = HlsSettings {
        cache_dir: Some("hls".into()),
        max_concurrent: Some("7".into()),
        idle_secs: Some("5".into()),
        hw_accel: Some("vaapi".into()),
        vaapi_device: Some("/dev/dri/renderD130".into()),
    };
    let config = HlsConfig::from_env(None, settings, "/tmp", Some("/srv"));
    assert_eq!(config.cache_dir, "/srv/hls");
    assert_eq!(config.max_concurrent, 7);
    assert_eq!(config.idle_secs, 5);
    assert_eq!(config.hw_accel, HwAccel::Vaapi);
    assert_eq!(config.vaapi_device.as_deref(), Some("/dev/dri/renderD130"));
    assert_eq!(absolutize_path("/abs", Some("/srv")), "/abs");
    assert_eq!(absolutize_path("rel", None), "rel");
}

#[test]
fn sessions_are_keyed_by_media_and_flavor() {
    let safari = SessionKey::for_request(1, HlsMode::HlsFullTranscode, BrowserHint::Safari);
    let generic = SessionKey::for_request(1, HlsMode::HlsFullTranscode, BrowserHint::Generic);
    assert_ne!(safari, generic);
    assert_eq!(safari.flavor, SessionFlavor::SafariPassthrough);
    assert_eq!(safari.dir_name(), "00000000-0000-0000-0000-000000000001-safari-copy");
    assert_eq!(
        SessionKey::for_request(1, HlsMode::HlsRemux, BrowserHint::Safari),
        SessionKey::for_request(1, HlsMode::HlsRemux, BrowserHint::Generic)
    );
}

#[test]
fn content_types_follow_the_filename() {
    assert_eq!(content_type_for_filename("master.M3U8"), "application/vnd.apple.mpegurl");
    assert_eq!(content_type_for_filename("init_0.mp4"), "video/mp4");
    assert_eq!(content_type_for_filename("seg_0_00000.m4s"), "video/iso.segment");
}

fn encoder(start: u32, highest: u32) -> EncoderState {
    EncoderState { start_segment: start, start_offset_nanos: 0, highest_produced: highest }
}

#[test]
fn far_segments_get_a_new_encoder() {
    assert!(should_respawn_for_segment(None, 0));
    assert!(should_respawn_for_segment(Some(encoder(10, 12)), 9));
    assert!(!should_respawn_for_segment(Some(encoder(10, 12)), 10));
    assert!(!should_respawn_for_segment(Some(encoder(10, 12)), 42));
    assert!(should_respawn_for_segment(Some(encoder(10, 12)), 43));
    assert!(!should_respawn_for_segment(Some(encoder(43, 43)), 43));
}

#[test]
fn deadlines_grow_with_the_distance() {
    assert_eq!(segment_deadline_secs(None, 0), 15);
    assert_eq!(segment_deadline_secs(Some(encoder(0, 10)), 13), 15);
    assert_eq!(segment_deadline_secs(Some(encoder(0, 10)), 30), 80);
}

#[test]
fn requests_are_checked_before_a_session_starts() {
    assert!(matches!(
        check_request(HlsMode::NotHls, "master.m3u8"),
        Err(HlsError::UnsupportedMode)
    ));
    assert!(matches!(
        check_request(HlsMode::HlsRemux, "../x.m3u8"),
        Err(HlsError::InvalidFilename)
    ));
    assert!(check_request(HlsMode::HlsRemux, "master.m3u8").is_ok());
}

#[test]
fn requests_are_answered_by_kind() {
    let plan = SegmentPlan::fixed_grid(at(200.0));
    match serve("stream_0.m3u8", "/s", &plan, None, true).unwrap() {
        ServeAction::WhenReady { body: HlsServeBody::Inline(text) } => {
            assert_eq!(text, build_variant_playlist(&plan))
        }
        other => panic!("expected the playlist, got {other:?}"),
    }
    assert_eq!(
        serve("seg_0_00003.m4s", "/s", &plan, None, true).unwrap(),
        ServeAction::Now { body: HlsServeBody::File("/s/seg_0_00003.m4s".into()) }
    );
    assert_eq!(
        serve("seg_0_00050.m4s", "/s", &plan, Some(encoder(0, 2)), false).unwrap(),
        ServeAction::RespawnThenWait { segment: 50, path: "/s/seg_0_00050.m4s".into() }
    );
    assert_eq!(
        serve("seg_0_00003.m4s", "/s", &plan, Some(encoder(0, 2)), false).unwrap(),
        ServeAction::WaitForSegment { segment: 3, path: "/s/seg_0_00003.m4s".into() }
    );
    assert_eq!(
        serve("master.m3u8", "/s", &plan, None, false).unwrap(),
        ServeAction::WaitForFile { path: "/s/master.m3u8".into() }
    );
}

#[test]
fn impossible_segments_are_refused() {
    let plan = SegmentPlan::fixed_grid(at(10.0));
    assert!(matches!(
        serve("seg_0_99999.m4s", "/s", &plan, None, false),
        Err(HlsError::NotFound)
    ));
}

fn config() -> HlsConfig {
    HlsConfig::with_defaults("/tmp")
}

#[test]
fn sessions_are_planned_from_the_item() {
    let mut item = make_item();
    item.duration_millis = Some(8_000);
    let session = get_or_start(
        &item,
        HlsMode::HlsFullTranscode,
        BrowserHint::Generic,
        "/cache",
        &vec![],
    );
    assert_eq!(session.dir, "/cache/00000000-0000-0000-0000-000000000000-default");
    assert_eq!(session.plan.boundaries, spans(&[0.0, 2.0, 4.0, 6.0]));
    assert_eq!(session.plan.target_duration_secs, 2);
    assert_eq!(session.input_path, "/lib/movie.mkv");
}

#[test]
fn encoders_start_at_the_asked_segment() {
    let mut item = make_item();
    item.duration_millis = Some(8_000);
    let mode = HlsMode::HlsFullTranscode;
    let session = get_or_start(&item, mode, BrowserHint::Generic, "/cache", &vec![]);

    let first =
        spawn_if_needed(&item, mode, BrowserHint::Generic, &session, &config(), false, 0).unwrap();
    match first {
        SpawnAction::Spawn { master, args, encoder, resets_ready } => {
            assert!(master.unwrap().starts_with("#EXTM3U\n"));
            assert!(!has(&args, "-ss"));
            assert_eq!(encoder.highest_produced, 0);
            assert!(!resets_ready);
        }
        other => panic!("expected a start, got {other:?}"),
    }

    assert_eq!(
        spawn_if_needed(&item, mode, BrowserHint::Generic, &session, &config(), true, 0).unwrap(),
        SpawnAction::AlreadyRunning
    );

    let later =
        spawn_if_needed(&item, mode, BrowserHint::Generic, &session, &config(), true, 3).unwrap();
    match later {
        SpawnAction::Spawn { master, args, encoder, resets_ready } => {
            assert_eq!(master, None);
            assert_eq!(args[place(&args, "-ss") + 1], "6.000");
            assert_eq!(args[place(&args, "-start_number") + 1], "3");
            assert_eq!(encoder.start_offset_nanos, span(6.0));
            assert!(resets_ready);
        }
        other => panic!("expected a start, got {other:?}"),
    }
}

#[test]
fn encoders_need_a_command() {
    let item = make_item();
    let session =
        get_or_start(&item, HlsMode::HlsRemux, BrowserHint::Generic, "/cache", &vec![]);
    let mut without = config();
    without.ffmpeg_command = None;
    let error = spawn_if_needed(
        &item,
        HlsMode::HlsRemux,
        BrowserHint::Generic,
        &session,
        &without,
        false,
        0,
    )
    .unwrap_err();
    assert_eq!(error.message(), "ffmpeg failed: ffmpeg binary is not configured");
}

#[test]
fn errors_have_messages() {
    assert_eq!(HlsError::UnsupportedMode.message(), "media is not eligible for HLS streaming");
    assert_eq!(HlsError::Io("denied".into()).message(), "denied");
    assert_eq!(HlsError::NotReady.message(), "HLS session did not become ready in time");
    assert_eq!(HlsError::NotFound.message(), "HLS asset not found");
    assert_eq!(HlsError::InvalidFilename.message(), "invalid HLS filename");
    assert_eq!(
        master_write_failure("full").message(),
        "ffmpeg failed: could not write master playlist: full"
    );
    assert_eq!(start_failure("gone").message(), "ffmpeg failed: could not start ffmpeg: gone");
    assert_eq!(noted_failure(None), "ffmpeg exited before producing a manifest");
    assert_eq!(noted_failure(Some("first".into())), "first");
}

#[test]
fn waiting_ends_with_readiness_or_the_deadline() {
    assert_eq!(wait_for_ready(true, true, &None), WaitStep::Ready);
    assert_eq!(wait_for_ready(false, false, &None), WaitStep::Wait);
    assert_eq!(
        wait_for_ready(false, true, &None),
        WaitStep::Fail { error: HlsError::NotReady }
    );
    assert_eq!(
        wait_for_ready(false, true, &Some("bad codec".into())),
        WaitStep::Fail { error: HlsError::SpawnFailed("bad codec".into()) }
    );
    assert_eq!(wait_for_file(true, true), WaitStep::Ready);
    assert_eq!(wait_for_file(false, false), WaitStep::Wait);
    assert_eq!(wait_for_file(false, true), WaitStep::Fail { error: HlsError::NotFound });
}

#[test]
fn idle_sessions_are_evicted() {
    let key = |media_id: u128| SessionKey { media_id, flavor: SessionFlavor::Default };
    let sessions = vec![
        SessionUse { key: key(1), in_flight: 0, idle_millis: 60_001 },
        SessionUse { key: key(2), in_flight: 1, idle_millis: 99_000 },
        SessionUse { key: key(3), in_flight: 0, idle_millis: 60_000 },
        SessionUse { key: key(4), in_flight: 0, idle_millis: 70_000 },
    ];
    assert_eq!(evict_idle(&sessions, 60), vec![key(1), key(4)]);
}

#[test]
fn watching_an_encoder() {
    let state = WatchState { ready: false, warned_slow: false, frontier: 4 };
    let tick = |scraped, elapsed_secs, exited| WatchTick { scraped, elapsed_secs, exited };

    let step = watch_readiness(state, tick(None, 15, false));
    assert!(step.warns_slow && !step.stop && !step.becomes_ready);
    assert!(!watch_readiness(step.state, tick(None, 16, false)).warns_slow);

    assert!(!step.keeps_init);
    let step = watch_readiness(step.state, tick(Some(6), 17, false));
    assert!(step.becomes_ready && step.keeps_init);
    assert!(watch_readiness(step.state, tick(None, 18, false)).keeps_init);
    assert_eq!(step.state.frontier, 6);

    let step = watch_readiness(step.state, tick(Some(5), 18, true));
    assert!(!step.becomes_ready && step.stop && !step.failed);
    assert_eq!(step.state.frontier, 6);

    assert!(watch_readiness(state, tick(None, 1, true)).failed);
}

#[test]
fn scratch_playlists_are_recognized() {
    assert!(is_scratch_playlist("stream_0.m3u8"));
    assert!(!is_scratch_playlist("master.m3u8"));
    assert!(!is_scratch_playlist("stream_0.m4s"));
}

#[test]
fn error_output_is_split_at_both_line_ends() {
    let mut line: Vec<u8> = b"fra".to_vec();
    let lines = split_stderr(&mut line, b"me=1\rframe=2\r\n\nwarn");
    assert_eq!(lines, vec![b"frame=1".to_vec(), b"frame=2".to_vec()]);
    assert_eq!(line, b"warn".to_vec());
}
