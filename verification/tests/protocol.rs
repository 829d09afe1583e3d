use stax_backend::protocol::{
    is_text_subtitle_codec, PlaybackMode, StreamCopyStatus, SubtitleMode, SubtitleSourceKind,
};

#[test]
fn text_subtitle_codec_detection_is_case_insensitive() {
    assert!(is_text_subtitle_codec(Some("SubRip")));
    assert!(is_text_subtitle_codec(Some("MOV_TEXT")));
}

#[test]
fn text_subtitle_codec_detection_rejects_bitmap_and_missing_codecs() {
    assert!(!is_text_subtitle_codec(Some("hdmv_pgs_subtitle")));
    assert!(!is_text_subtitle_codec(None));
}

#[test]
fn stored_names_read_back() {
    for mode in [PlaybackMode::Direct, PlaybackMode::NeedsPreparation, PlaybackMode::Unsupported] {
        assert_eq!(PlaybackMode::from_str_opt(mode.as_str()), Some(mode));
    }
    for status in [
        StreamCopyStatus::Queued,
        StreamCopyStatus::Running,
        StreamCopyStatus::Ready,
        StreamCopyStatus::Failed,
    ] {
        assert_eq!(StreamCopyStatus::from_str_opt(status.as_str()), Some(status));
    }
    for mode in [SubtitleMode::Off, SubtitleMode::Sidecar, SubtitleMode::Burned] {
        assert_eq!(SubtitleMode::from_str_opt(mode.as_str()), Some(mode));
    }
    for kind in [SubtitleSourceKind::Sidecar, SubtitleSourceKind::Embedded] {
        assert_eq!(SubtitleSourceKind::from_str_opt(kind.as_str()), Some(kind));
    }
    assert_eq!(PlaybackMode::from_str_opt("direct "), None);
    assert_eq!(PlaybackMode::NeedsPreparation.as_str(), "needsPreparation");
}
