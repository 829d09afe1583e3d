use stax_backend::ffmpeg::{
    apply_input_acceleration, apply_input_acceleration_with_hw_frames, default_vaapi_device,
    vaapi_device_from_env, FfmpegHardwareAcceleration,
};

#[test]
fn hardware_h264_encoders_match_accel_backend() {
    assert_eq!(FfmpegHardwareAcceleration::Software.h264_encoder(), "libx264");
    assert_eq!(FfmpegHardwareAcceleration::Auto.h264_encoder(), "libx264");
    assert_eq!(FfmpegHardwareAcceleration::Nvenc.h264_encoder(), "h264_nvenc");
    assert_eq!(FfmpegHardwareAcceleration::Qsv.h264_encoder(), "h264_qsv");
    assert_eq!(FfmpegHardwareAcceleration::Videotoolbox.h264_encoder(), "h264_videotoolbox");
}

#[test]
fn vaapi_h264_filter_uploads_software_filter_output() {
    let accel = FfmpegHardwareAcceleration::Vaapi { device: "/dev/dri/renderD128".into() };

    assert_eq!(
        accel.h264_filter(Some("subtitles=/tmp/movie.mkv:si=0")),
        Some("subtitles=/tmp/movie.mkv:si=0,format=nv12,hwupload".to_string())
    );
    assert_eq!(accel.h264_filter(None), Some("format=nv12,hwupload".to_string()));
}

#[test]
fn nvenc_h264_filter_bridges_subtitles_through_system_memory() {
    let accel = FfmpegHardwareAcceleration::Nvenc;

    assert_eq!(
        accel.h264_filter(Some("subtitles=/tmp/movie.mkv:si=0")),
        Some(
            "hwdownload,format=nv12,subtitles=/tmp/movie.mkv:si=0,format=nv12,hwupload_cuda"
                .to_string()
        )
    );
    assert_eq!(accel.h264_filter(None), None);
}

#[test]
fn vaapi_encodes_with_its_own_encoder() {
    let accel = FfmpegHardwareAcceleration::Vaapi { device: "/dev/dri/renderD128".into() };
    assert_eq!(accel.h264_encoder(), "h264_vaapi");
    assert!(!accel.uses_software_h264_encoder());
    assert!(FfmpegHardwareAcceleration::Auto.uses_software_h264_encoder());
    assert!(FfmpegHardwareAcceleration::Software.uses_software_h264_encoder());
}

#[test]
fn settings_name_the_acceleration() {
    let named = |setting: Option<&str>| FfmpegHardwareAcceleration::from_env(setting, None);
    assert!(matches!(named(None), FfmpegHardwareAcceleration::Software));
    assert!(matches!(named(Some("auto")), FfmpegHardwareAcceleration::Auto));
    assert!(matches!(named(Some("NVENC")), FfmpegHardwareAcceleration::Nvenc));
    assert!(matches!(named(Some("qsv")), FfmpegHardwareAcceleration::Qsv));
    assert!(matches!(named(Some("unheard-of")), FfmpegHardwareAcceleration::Software));
}

#[test]
fn vaapi_takes_the_configured_device() {
    let accel =
        FfmpegHardwareAcceleration::from_env(Some("vaapi"), Some("/dev/dri/renderD129"));
    match accel {
        FfmpegHardwareAcceleration::Vaapi { device } => assert_eq!(device, "/dev/dri/renderD129"),
        other => panic!("expected a device, got {other:?}"),
    }
    assert_eq!(vaapi_device_from_env(None), "/dev/dri/renderD128");
    assert_eq!(default_vaapi_device(), "/dev/dri/renderD128");
}

#[test]
fn input_acceleration_goes_before_the_input() {
    let mut args: Vec<String> = vec!["-y".to_string()];
    apply_input_acceleration(&mut args, &FfmpegHardwareAcceleration::Software);
    assert_eq!(args, vec!["-y".to_string()]);

    apply_input_acceleration(&mut args, &FfmpegHardwareAcceleration::Auto);
    assert_eq!(args, vec!["-y".to_string(), "-hwaccel".to_string(), "auto".to_string()]);

    let mut frames: Vec<String> = Vec::new();
    apply_input_acceleration_with_hw_frames(&mut frames, &FfmpegHardwareAcceleration::Nvenc);
    assert_eq!(frames, ["-hwaccel", "cuda", "-hwaccel_output_format", "cuda"]);
}
