use stax_backend::clock::{round_to, AuthoritativePlaybackClock, PlaybackClockCheckpoint};
use stax_backend::protocol::{DriftCorrectionAction, PlaybackStatus, DRIFT_TOLERANCE_NANOS};
use stax_backend::timestamp::Timestamp;

const SECOND: i128 = 1_000_000_000;
const MILLI: i128 = 1_000_000;

fn epoch() -> Timestamp {
    Timestamp::utc(0)
}

fn at_millis(millis: i128) -> Timestamp {
    Timestamp::utc(millis * MILLI)
}

#[test]
fn playback_clock_advances_when_playing() {
    let start = epoch();
    let mut clock = AuthoritativePlaybackClock::new_paused(start);
    clock.play(start, Some(12 * SECOND));

    let snapshot = clock.snapshot(at_millis(240));

    assert_eq!(snapshot.status, PlaybackStatus::Playing);
    assert_eq!(snapshot.position_nanos, 12_200 * MILLI);
}

#[test]
fn drift_report_classifies_thresholds() {
    let now = epoch();
    let mut clock = AuthoritativePlaybackClock::new_paused(now);
    clock.play(now, Some(10 * SECOND));

    let in_sync = clock.report_drift(now, 10_200 * MILLI);
    assert_eq!(in_sync.suggested_action, DriftCorrectionAction::InSync);

    let nudge = clock.report_drift(now, 10_800 * MILLI);
    assert_eq!(nudge.suggested_action, DriftCorrectionAction::Nudge);

    let seek = clock.report_drift(now, 12_100 * MILLI);
    assert_eq!(seek.suggested_action, DriftCorrectionAction::Seek);
}

#[test]
fn playback_clock_does_not_move_backwards_before_anchor_time() {
    let start = at_millis(5_000);
    let mut clock = AuthoritativePlaybackClock::new_paused(start);
    clock.play(start, Some(7 * SECOND));

    let snapshot = clock.snapshot(at_millis(5_000 - 150));

    assert_eq!(snapshot.position_nanos, 7 * SECOND);
    assert_eq!(snapshot.anchor_position_nanos, 7 * SECOND);
}

#[test]
fn drift_report_treats_negative_delta_symmetrically() {
    let now = epoch();
    let mut clock = AuthoritativePlaybackClock::new_paused(now);
    clock.play(now, Some(10 * SECOND));

    let behind = clock.report_drift(now, 8_900 * MILLI);

    assert_eq!(behind.suggested_action, DriftCorrectionAction::Nudge);
    assert!(behind.delta_nanos < 0);
}

#[test]
fn drift_report_holds_what_it_compared() {
    let mut clock = AuthoritativePlaybackClock::new_paused(epoch());
    clock.play(epoch(), Some(10 * SECOND));

    let report = clock.report_drift(at_millis(500), 12_000 * MILLI);

    assert_eq!(report.expected_position_nanos, 10_500 * MILLI);
    assert_eq!(report.reported_position_nanos, 12_000 * MILLI);
    assert_eq!(report.delta_nanos, 1_500 * MILLI);
    assert_eq!(report.tolerance_nanos, DRIFT_TOLERANCE_NANOS);
    assert_eq!(report.suggested_action, DriftCorrectionAction::Nudge);
    let further = clock.report_drift(at_millis(500), 12_001 * MILLI);
    assert_eq!(further.suggested_action, DriftCorrectionAction::Seek);
}

#[test]
fn paused_clock_stands() {
    let mut clock = AuthoritativePlaybackClock::new_paused(epoch());
    clock.pause(epoch(), Some(3 * SECOND));

    let snapshot = clock.snapshot(at_millis(60_000));

    assert_eq!(snapshot.status, PlaybackStatus::Paused);
    assert_eq!(snapshot.position_nanos, 3 * SECOND);
}

#[test]
fn pause_without_position_keeps_the_elapsed_position() {
    let mut clock = AuthoritativePlaybackClock::new_paused(epoch());
    clock.play(epoch(), Some(5 * SECOND));
    clock.pause(at_millis(250), None);

    assert_eq!(clock.checkpoint().anchor_position_nanos, 5_250 * MILLI);
    assert_eq!(clock.checkpoint().status, PlaybackStatus::Paused);
}

#[test]
fn seek_moves_without_changing_the_status() {
    let mut clock = AuthoritativePlaybackClock::new_paused(epoch());
    clock.play(epoch(), None);
    clock.seek(at_millis(1_000), 90 * SECOND);

    let checkpoint = clock.checkpoint();
    assert_eq!(checkpoint.status, PlaybackStatus::Playing);
    assert_eq!(checkpoint.anchor_position_nanos, 90 * SECOND);
    assert_eq!(checkpoint.updated_at, at_millis(1_000));
}

#[test]
fn checkpoint_restores_the_clock() {
    let checkpoint = PlaybackClockCheckpoint {
        status: PlaybackStatus::Playing,
        anchor_position_nanos: 42 * SECOND,
        updated_at: at_millis(10),
        playback_rate_micros: 1_000_000,
    };
    let clock = AuthoritativePlaybackClock::restore(checkpoint);

    assert_eq!(clock.checkpoint(), checkpoint);
}

#[test]
fn rounding_goes_to_the_nearest_step_and_halves_away_from_zero() {
    assert_eq!(round_to(1_234_560_000, 3), 1_235_000_000);
    assert_eq!(round_to(1_234_499_999, 3), 1_234_000_000);
    assert_eq!(round_to(1_250_000_000, 1), 1_300_000_000);
    assert_eq!(round_to(-1_250_000_000, 1), -1_300_000_000);
    assert_eq!(round_to(round_to(1_234_560_000, 3), 3), 1_235_000_000);
}

#[test]
fn shown_position_never_goes_back() {
    let mut clock = AuthoritativePlaybackClock::new_paused(epoch());
    clock.play(epoch(), Some(2 * SECOND));
    let mut before = clock.snapshot(at_millis(-500)).position_nanos;
    assert_eq!(before, 2 * SECOND);
    for millis in 0..400 {
        let shown = clock.snapshot(at_millis(millis)).position_nanos;
        assert!(before <= shown);
        before = shown;
    }
    assert_eq!(before, 2_400 * MILLI);
}

#[test]
fn far_positions_are_held() {
    let far = 10_i128.pow(30);
    let mut clock = AuthoritativePlaybackClock::new_paused(epoch());
    clock.seek(epoch(), far);
    assert_eq!(clock.snapshot(at_millis(5)).position_nanos, far);
    let report = clock.report_drift(epoch(), -far);
    assert_eq!(report.delta_nanos, -2 * far);
    assert_eq!(report.suggested_action, DriftCorrectionAction::Seek);
    let farther = 17 * 10_i128.pow(37);
    clock.play(epoch(), Some(farther));
    assert_eq!(clock.snapshot(at_millis(5_000)).position_nanos, farther + 5 * SECOND);
}

#[test]
fn positions_end_where_the_numbers_do() {
    let tenth = 100 * MILLI;
    let mut clock = AuthoritativePlaybackClock::new_paused(epoch());
    clock.play(epoch(), Some(i128::MAX));
    assert_eq!(clock.checkpoint().anchor_position_nanos, i128::MAX);
    clock.pause(at_millis(5_000), None);
    assert_eq!(clock.checkpoint().anchor_position_nanos, i128::MAX);
    assert_eq!(clock.snapshot(epoch()).position_nanos, i128::MAX);
    let report = clock.report_drift(epoch(), i128::MIN);
    assert_eq!(report.delta_nanos, -(i128::MAX / MILLI * MILLI));
    assert_eq!(report.suggested_action, DriftCorrectionAction::Seek);
    assert_eq!(round_to(i128::MIN, 1), i128::MIN);
    assert_eq!(round_to(i128::MAX - tenth, 1), i128::MAX / tenth * tenth);
}

#[test]
fn snapshot_names_its_times() {
    let clock = AuthoritativePlaybackClock::new_paused(epoch());
    let snapshot = clock.snapshot(at_millis(1_500));

    assert_eq!(snapshot.clock_updated_at, "1970-01-01T00:00:00Z");
    assert_eq!(snapshot.emitted_at, "1970-01-01T00:00:01.5Z");
    assert_eq!(snapshot.playback_rate_micros, 1_000_000);
    assert_eq!(snapshot.drift_tolerance_nanos, 350_000_000);
}
