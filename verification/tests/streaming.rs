use stax_backend::streaming::{
    convert_srt_to_vtt, map_file_error, parse_range_header, plan_file_response, prepare_webvtt,
    resolve_relative_path, unsatisfiable_content_range, webvtt_text, ByteRange, StreamMediaError,
};

#[test]
fn parse_range_header_supports_open_ended_ranges() {
    let range = parse_range_header("bytes=5-", 10).unwrap();

    assert_eq!(range, ByteRange { start: 5, end: 9 });
}

#[test]
fn parse_range_header_supports_suffix_ranges() {
    let range = parse_range_header("bytes=-4", 10).unwrap();

    assert_eq!(range, ByteRange { start: 6, end: 9 });
}

#[test]
fn parse_range_header_rejects_multiple_ranges() {
    let error = parse_range_header("bytes=0-1,3-4", 10).unwrap_err();

    assert!(matches!(
        error,
        StreamMediaError::MalformedRange("Only a single byte range is supported.")
    ));
}

#[test]
fn parse_range_header_rejects_unsatisfiable_range() {
    let error = parse_range_header("bytes=99-100", 10).unwrap_err();

    assert!(matches!(error, StreamMediaError::UnsatisfiableRange { file_len: 10 }));
}

#[test]
fn convert_srt_to_vtt_adds_header_and_normalizes_timecodes() {
    let converted = convert_srt_to_vtt("1\n00:00:01,250 --> 00:00:04,500\nHello\n");

    assert_eq!(converted, "WEBVTT\n\n1\n00:00:01.250 --> 00:00:04.500\nHello\n");
}

#[test]
fn commas_outside_timecodes_stay() {
    assert_eq!(
        convert_srt_to_vtt("1\n00:00:01,250 --> 00:00:04,500\nHello, you\n"),
        "WEBVTT\n\n1\n00:00:01.250 --> 00:00:04.500\nHello, you\n"
    );
}

#[test]
fn ranges_end_with_the_file() {
    assert_eq!(parse_range_header("bytes=2-99", 10).unwrap(), ByteRange { start: 2, end: 9 });
    assert_eq!(parse_range_header("bytes=-99", 10).unwrap(), ByteRange { start: 0, end: 9 });
    assert_eq!(parse_range_header("bytes=3-3", 10).unwrap(), ByteRange { start: 3, end: 3 });
}

#[test]
fn malformed_ranges_are_named() {
    for header in ["items=0-1", "bytes=", "bytes=a-", "bytes=1-b", "bytes=5"] {
        assert!(
            matches!(parse_range_header(header, 10), Err(StreamMediaError::MalformedRange(_))),
            "{header}"
        );
    }
}

#[test]
fn empty_files_grant_no_range() {
    for header in ["bytes=0-", "bytes=-1", "bytes=0-0"] {
        assert!(
            matches!(
                parse_range_header(header, 0),
                Err(StreamMediaError::UnsatisfiableRange { file_len: 0 })
            ),
            "{header}"
        );
    }
}

#[test]
fn whole_files_are_sent_without_a_range() {
    let plan = plan_file_response(true, 10, None).unwrap();
    assert_eq!((plan.status, plan.start, plan.content_len), (200, 0, 10));
    assert_eq!(plan.content_length, "10");
    assert_eq!(plan.content_range, None);
}

#[test]
fn parts_are_sent_with_their_range() {
    let plan = plan_file_response(true, 10, Some("bytes=5-")).unwrap();
    assert_eq!((plan.status, plan.start, plan.content_len), (206, 5, 5));
    assert_eq!(plan.content_length, "5");
    assert_eq!(plan.content_range.as_deref(), Some("bytes 5-9/10"));
    assert_eq!(unsatisfiable_content_range(10), "bytes */10");
}

#[test]
fn directories_are_not_sent() {
    assert!(matches!(plan_file_response(false, 10, None), Err(StreamMediaError::NotFound)));
}

#[test]
fn file_errors_tell_missing_files() {
    assert!(matches!(map_file_error(true, "gone".into()), StreamMediaError::NotFound));
    match map_file_error(false, "denied".into()) {
        StreamMediaError::Io(message) => assert_eq!(message, "denied"),
        other => panic!("expected an I/O error, got {other:?}"),
    }
}

#[test]
fn paths_are_resolved_below_the_root() {
    assert_eq!(resolve_relative_path("/lib", "a/b.mkv"), "/lib/a/b.mkv");
}

#[test]
fn subtitles_are_prepared_by_extension() {
    let srt = "1\n00:00:01,250 --> 00:00:04,500\nHello\n";
    assert_eq!(webvtt_text(srt.to_string(), "srt"), convert_srt_to_vtt(srt));
    assert_eq!(webvtt_text("WEBVTT\n\n".to_string(), "vtt"), "WEBVTT\n\n");
    assert_eq!(prepare_webvtt(b"WEBVTT\n\n\xff", "vtt"), "WEBVTT\n\n\u{fffd}");
}
