//! The authoritative playback clock of a room.
use crate::protocol::{
    DriftCorrectionAction, PlaybackState, PlaybackStatus, DRIFT_TOLERANCE_NANOS,
    HARD_DRIFT_THRESHOLD_NANOS,
};
use crate::timestamp::{format_timestamp, Timestamp};
use vstd::prelude::*;
use vstd::arithmetic::power::{lemma_pow0, lemma_pow1, lemma_pow_adds, lemma_pow_positive, pow};

verus! {

/// The rate of normal playback, in millionths.
pub const NORMAL_RATE_MICROS: u32 = 1_000_000;

/// Everything a clock needs to be restored.
#[derive(Debug, Clone, Copy, PartialEq, Eq, Structural)]
pub struct PlaybackClockCheckpoint {
    pub status: PlaybackStatus,
    pub anchor_position_nanos: i128,
    pub updated_at: Timestamp,
    pub playback_rate_micros: u32,
}

/// A playback position that is known at one moment and advances from there
/// while the clock plays. Its view is its checkpoint.
#[derive(Debug, Clone, Copy)]
pub struct AuthoritativePlaybackClock {
    status: PlaybackStatus,
    anchor_position_nanos: i128,
    updated_at: Timestamp,
    playback_rate_micros: u32,
}

/// How far a client's reported position is from the clock.
#[derive(Debug, Clone, Copy, PartialEq, Eq, Structural)]
pub struct DriftReport {
    pub expected_position_nanos: i128,
    pub reported_position_nanos: i128,
    pub delta_nanos: i128,
    pub tolerance_nanos: i128,
    pub suggested_action: DriftCorrectionAction,
}

/// `nanos` where an `i128` holds it, else the nearest number that one holds.
pub open spec fn held(nanos: int) -> int {
    if nanos > i128::MAX {
        i128::MAX as int
    } else if nanos < i128::MIN {
        i128::MIN as int
    } else {
        nanos
    }
}

impl PlaybackClockCheckpoint {
    /// Whether the anchor time has an RFC 3339 form.
    pub open spec fn wf(self) -> bool {
        self.updated_at.formattable()
    }

    /// Nanoseconds from the anchor time to `now`; none before the anchor time.
    pub open spec fn elapsed(self, now: Timestamp) -> int {
        if now.unix() > self.updated_at.unix() {
            now.unix() - self.updated_at.unix()
        } else {
            0
        }
    }

    /// The position at `now`: the anchor while paused; while playing, the
    /// anchor and the time since then at the playback rate.
    pub open spec fn position_at(self, now: Timestamp) -> int {
        match self.status {
            PlaybackStatus::Paused => self.anchor_position_nanos as int,
            PlaybackStatus::Playing => held(
                self.anchor_position_nanos + self.elapsed(now) * self.playback_rate_micros
                    / 1_000_000,
            ),
        }
    }
}

/// The nanoseconds between two positions with `decimals` decimal places.
pub open spec fn rounding_unit(decimals: u32) -> int {
    pow(10, (9 - decimals) as nat)
}

/// The multiple of `unit` nearest to `value`, halves going away from zero.
pub open spec fn rounded(value: int, unit: int) -> int {
    if value >= 0 {
        (value + unit / 2) / unit * unit
    } else {
        -((-value + unit / 2) / unit * unit)
    }
}

/// `nanos` to `decimals` decimal places of a second.
pub open spec fn rounded_position(nanos: int, decimals: u32) -> i128 {
    held(rounded(nanos, rounding_unit(decimals))) as i128
}

/// What a drift of `delta` nanoseconds calls for.
pub open spec fn action_for(delta: int) -> DriftCorrectionAction {
    let distance = if delta < 0 { -delta } else { delta };
    if distance <= DRIFT_TOLERANCE_NANOS {
        DriftCorrectionAction::InSync
    } else if distance <= HARD_DRIFT_THRESHOLD_NANOS {
        DriftCorrectionAction::Nudge
    } else {
        DriftCorrectionAction::Seek
    }
}

/// The drift report for `reported` at `now`: every position to the
/// millisecond, the action chosen by the exact distance.
pub open spec fn drift_report(
    clock: PlaybackClockCheckpoint,
    now: Timestamp,
    reported: int,
) -> DriftReport {
    let expected = clock.position_at(now);
    DriftReport {
        expected_position_nanos: rounded_position(expected, 3),
        reported_position_nanos: rounded_position(reported, 3),
        delta_nanos: rounded_position(held(reported - expected), 3),
        tolerance_nanos: DRIFT_TOLERANCE_NANOS,
        suggested_action: action_for(reported - expected),
    }
}

/// Whether `state` is what `clock` shows at `emitted_at`: positions to the
/// tenth of a second, both times in RFC 3339.
pub open spec fn shows(
    state: PlaybackState,
    clock: PlaybackClockCheckpoint,
    emitted_at: Timestamp,
) -> bool {
    &&& state.status == clock.status
    &&& state.position_nanos == rounded_position(clock.position_at(emitted_at), 1)
    &&& state.anchor_position_nanos == rounded_position(clock.anchor_position_nanos as int, 1)
    &&& state.clock_updated_at@ == clock.updated_at.rfc3339()
    &&& state.emitted_at@ == emitted_at.rfc3339()
    &&& state.playback_rate_micros == clock.playback_rate_micros
    &&& state.drift_tolerance_nanos == DRIFT_TOLERANCE_NANOS
}

/// Rounding gives a multiple of the unit at most half a unit away.
pub proof fn law_rounding_is_nearest(value: int, unit: int)
    requires
        unit > 0,
    ensures
        rounded(value, unit) % unit == 0,
        2 * (rounded(value, unit) - value) <= unit,
        2 * (value - rounded(value, unit)) <= unit,
{
    let magnitude = if value >= 0 { value } else { -value };
    let sum = magnitude + unit / 2;
    let quotient = sum / unit;
    vstd::arithmetic::div_mod::lemma_fundamental_div_mod(sum, unit);
    vstd::arithmetic::div_mod::lemma_mod_bound(sum, unit);
    assert(quotient * unit == unit * quotient) by (nonlinear_arith);
    vstd::arithmetic::div_mod::lemma_mod_multiples_basic(quotient, unit);
    assert((-quotient) * unit == -(quotient * unit)) by (nonlinear_arith);
    vstd::arithmetic::div_mod::lemma_mod_multiples_basic(-quotient, unit);
}

/// Rounding a second time changes nothing.
pub proof fn law_rounding_is_idempotent(value: int, unit: int)
    requires
        unit > 0,
    ensures
        rounded(rounded(value, unit), unit) == rounded(value, unit),
{
    let magnitude = if value >= 0 { value } else { -value };
    let q = (magnitude + unit / 2) / unit;
    vstd::arithmetic::div_mod::lemma_div_pos_is_pos(magnitude + unit / 2, unit);
    assert(q * unit >= 0) by (nonlinear_arith)
        requires
            q >= 0,
            unit > 0,
    ;
    assert((q * unit + unit / 2) / unit == q) by {
        vstd::arithmetic::div_mod::lemma_fundamental_div_mod_converse(
            q * unit + unit / 2,
            unit,
            q,
            unit / 2,
        );
    }
}

/// Rounding keeps the order of values.
pub proof fn law_rounding_is_monotone(smaller: int, larger: int, unit: int)
    requires
        unit > 0,
        smaller <= larger,
    ensures
        rounded(smaller, unit) <= rounded(larger, unit),
{
    let a = if smaller >= 0 { smaller } else { -smaller };
    let b = if larger >= 0 { larger } else { -larger };
    let p = (a + unit / 2) / unit;
    let q = (b + unit / 2) / unit;
    vstd::arithmetic::div_mod::lemma_div_pos_is_pos(a + unit / 2, unit);
    vstd::arithmetic::div_mod::lemma_div_pos_is_pos(b + unit / 2, unit);
    assert(p * unit >= 0 && q * unit >= 0) by (nonlinear_arith)
        requires
            p >= 0,
            q >= 0,
            unit > 0,
    ;
    if a <= b {
        vstd::arithmetic::div_mod::lemma_div_is_ordered(a + unit / 2, b + unit / 2, unit);
        assert(p * unit <= q * unit) by (nonlinear_arith)
            requires
                p <= q,
                unit > 0,
        ;
    } else {
        vstd::arithmetic::div_mod::lemma_div_is_ordered(b + unit / 2, a + unit / 2, unit);
        assert(q * unit <= p * unit) by (nonlinear_arith)
            requires
                q <= p,
                unit > 0,
        ;
    }
}

proof fn lemma_pow_le(a: nat, b: nat)
    requires
        a <= b,
    ensures
        0 < pow(10, a) <= pow(10, b),
{
    vstd::arithmetic::power::lemma_pow_increases(10, a, b);
    lemma_pow_positive(10, a);
}

/// `value`, in nanoseconds, to `decimals` decimal places of a second.
pub fn round_to(value: i128, decimals: u32) -> (r: i128)
    requires
        decimals <= 9,
    ensures
        r == rounded_position(value as int, decimals),
{
    let mut unit: u128 = 1;
    let mut places: u32 = 9;
    proof {
        lemma_pow0(10);
        assert(pow(10, 9) == 1_000_000_000) by {
            reveal_with_fuel(pow, 10);
        }
    }
    while places > decimals
        invariant
            decimals <= places <= 9,
            unit == pow(10, (9 - places) as nat),
            pow(10, 9) == 1_000_000_000,
        decreases places,
    {
        proof {
            lemma_pow_adds(10, (9 - places) as nat, 1);
            lemma_pow1(10);
            lemma_pow_le((10 - places) as nat, 9);
        }
        unit = unit * 10;
        places = places - 1;
    }
    proof {
        lemma_pow_le((9 - decimals) as nat, 9);
        law_rounding_is_nearest(value as int, unit as int);
    }
    let limit: u128 = i128::MAX as u128;
    if value >= 0 {
        let up: u128 = (value as u128 + unit / 2) / unit * unit;
        if up > limit {
            i128::MAX
        } else {
            up as i128
        }
    } else {
        let magnitude: u128 = (-(value + 1)) as u128 + 1;
        let up: u128 = (magnitude + unit / 2) / unit * unit;
        if up > limit {
            i128::MIN
        } else {
            -(up as i128)
        }
    }
}

impl View for AuthoritativePlaybackClock {
    type V = PlaybackClockCheckpoint;

    closed spec fn view(&self) -> PlaybackClockCheckpoint {
        PlaybackClockCheckpoint {
            status: self.status,
            anchor_position_nanos: self.anchor_position_nanos,
            updated_at: self.updated_at,
            playback_rate_micros: self.playback_rate_micros,
        }
    }
}

impl AuthoritativePlaybackClock {
    /// A paused clock at the start.
    pub fn new_paused(now: Timestamp) -> (r: AuthoritativePlaybackClock)
        ensures
            r@ == (PlaybackClockCheckpoint {
                status: PlaybackStatus::Paused,
                anchor_position_nanos: 0,
                updated_at: now,
                playback_rate_micros: NORMAL_RATE_MICROS,
            }),
    {
        AuthoritativePlaybackClock {
            status: PlaybackStatus::Paused,
            anchor_position_nanos: 0,
            updated_at: now,
            playback_rate_micros: NORMAL_RATE_MICROS,
        }
    }

    /// The clock that a checkpoint was taken of.
    pub fn restore(checkpoint: PlaybackClockCheckpoint) -> (r: AuthoritativePlaybackClock)
        ensures
            r@ == checkpoint,
    {
        AuthoritativePlaybackClock {
            status: checkpoint.status,
            anchor_position_nanos: checkpoint.anchor_position_nanos,
            updated_at: checkpoint.updated_at,
            playback_rate_micros: checkpoint.playback_rate_micros,
        }
    }

    /// The state that clients are shown at `emitted_at`.
    pub fn snapshot(&self, emitted_at: Timestamp) -> (r: PlaybackState)
        requires
            self@.wf(),
            emitted_at.formattable(),
        ensures
            shows(r, self@, emitted_at),
    {
        PlaybackState {
            status: self.status,
            position_nanos: round_to(self.effective_position_at(emitted_at), 1),
            anchor_position_nanos: round_to(self.anchor_position_nanos, 1),
            clock_updated_at: format_timestamp(self.updated_at),
            emitted_at: format_timestamp(emitted_at),
            playback_rate_micros: self.playback_rate_micros,
            drift_tolerance_nanos: DRIFT_TOLERANCE_NANOS,
        }
    }

    /// What is needed to restore the clock.
    pub fn checkpoint(&self) -> (r: PlaybackClockCheckpoint)
        ensures
            r == self@,
    {
        PlaybackClockCheckpoint {
            status: self.status,
            anchor_position_nanos: self.anchor_position_nanos,
            updated_at: self.updated_at,
            playback_rate_micros: self.playback_rate_micros,
        }
    }

    /// Plays from `position`, or from where the clock stands at `now`.
    pub fn play(&mut self, now: Timestamp, position: Option<i128>)
        requires
            old(self)@.wf(),
            now.formattable(),
        ensures
            final(self)@ == started(old(self)@, now, position),
    {
        self.anchor_position_nanos =
        match position {
            Some(value) => value,
            None => self.effective_position_at(now),
        };
        self.updated_at = now;
        self.status = PlaybackStatus::Playing;
    }

    /// Pauses at `position`, or where the clock stands at `now`.
    pub fn pause(&mut self, now: Timestamp, position: Option<i128>)
        requires
            old(self)@.wf(),
            now.formattable(),
        ensures
            final(self)@ == stopped(old(self)@, now, position),
    {
        self.anchor_position_nanos =
        match position {
            Some(value) => value,
            None => self.effective_position_at(now),
        };
        self.updated_at = now;
        self.status = PlaybackStatus::Paused;
    }

    /// Moves to `position`, playing or paused as before.
    pub fn seek(&mut self, now: Timestamp, position: i128)
        ensures
            final(self)@ == moved(old(self)@, now, position),
    {
        self.anchor_position_nanos = position;
        self.updated_at = now;
    }

    /// How far `reported` is from the clock at `now`.
    pub fn report_drift(&self, now: Timestamp, reported: i128) -> (r: DriftReport)
        requires
            self@.wf(),
            now.formattable(),
        ensures
            r == drift_report(self@, now, reported as int),
    {
        let expected: i128 = self.effective_position_at(now);
        let delta: i128 = match reported.checked_sub(expected) {
            Some(delta) => delta,
            None => if reported > expected {
                i128::MAX
            } else {
                i128::MIN
            },
        };
        let suggested_action = if -DRIFT_TOLERANCE_NANOS <= delta && delta
            <= DRIFT_TOLERANCE_NANOS {
            DriftCorrectionAction::InSync
        } else if -HARD_DRIFT_THRESHOLD_NANOS <= delta && delta <= HARD_DRIFT_THRESHOLD_NANOS {
            DriftCorrectionAction::Nudge
        } else {
            DriftCorrectionAction::Seek
        };
        DriftReport {
            expected_position_nanos: round_to(expected, 3),
            reported_position_nanos: round_to(reported, 3),
            delta_nanos: round_to(delta, 3),
            tolerance_nanos: DRIFT_TOLERANCE_NANOS,
            suggested_action,
        }
    }

    /// The position at `now`.
    fn effective_position_at(&self, now: Timestamp) -> (r: i128)
        requires
            self@.wf(),
            now.formattable(),
        ensures
            r == self@.position_at(now),
    {
        match self.status {
            PlaybackStatus::Paused => self.anchor_position_nanos,
            PlaybackStatus::Playing => {
                let since: i128 = now.unix_nanos() - self.updated_at.unix_nanos();
                let elapsed: i128 = if since > 0 { since } else { 0 };
                let rate: i128 = self.playback_rate_micros as i128;
                proof {
                    assert(0 <= elapsed <= 400_000_000_000_000_000_000);
                    assert(0 <= elapsed * rate <= 400_000_000_000_000_000_000 * 0x1_0000_0000)
                        by (nonlinear_arith)
                        requires
                            0 <= elapsed <= 400_000_000_000_000_000_000,
                            0 <= rate <= 0x1_0000_0000,
                    ;
                }
                let advance: i128 = elapsed * rate / 1_000_000;
                if self.anchor_position_nanos > i128::MAX - advance {
                    i128::MAX
                } else {
                    self.anchor_position_nanos + advance
                }
            },
        }
    }
}

/// The anchor of a command: the position that it names, or where the clock
/// stands at `now`.
pub open spec fn anchor_for(
    clock: PlaybackClockCheckpoint,
    now: Timestamp,
    position: Option<i128>,
) -> i128 {
    match position {
        Some(value) => value,
        None => clock.position_at(now) as i128,
    }
}

/// The clock after it was told to play.
pub open spec fn started(
    clock: PlaybackClockCheckpoint,
    now: Timestamp,
    position: Option<i128>,
) -> PlaybackClockCheckpoint {
    PlaybackClockCheckpoint {
        status: PlaybackStatus::Playing,
        anchor_position_nanos: anchor_for(clock, now, position),
        updated_at: now,
        playback_rate_micros: clock.playback_rate_micros,
    }
}

/// The clock after it was told to pause.
pub open spec fn stopped(
    clock: PlaybackClockCheckpoint,
    now: Timestamp,
    position: Option<i128>,
) -> PlaybackClockCheckpoint {
    PlaybackClockCheckpoint {
        status: PlaybackStatus::Paused,
        anchor_position_nanos: anchor_for(clock, now, position),
        updated_at: now,
        playback_rate_micros: clock.playback_rate_micros,
    }
}

/// The clock after it was told to seek.
pub open spec fn moved(
    clock: PlaybackClockCheckpoint,
    now: Timestamp,
    position: i128,
) -> PlaybackClockCheckpoint {
    PlaybackClockCheckpoint {
        status: clock.status,
        anchor_position_nanos: position,
        updated_at: now,
        playback_rate_micros: clock.playback_rate_micros,
    }
}

/// Playing, pausing and seeking keep a clock well formed.
pub proof fn law_commands_keep_wf(
    clock: PlaybackClockCheckpoint,
    now: Timestamp,
    position: Option<i128>,
)
    requires
        clock.wf(),
        now.formattable(),
    ensures
        started(clock, now, position).wf(),
        stopped(clock, now, position).wf(),
        position matches Some(value) ==> moved(clock, now, value).wf(),
{
}

/// Playing or pausing without a position keeps the position of that moment.
pub proof fn law_command_without_position_keeps_position(
    clock: PlaybackClockCheckpoint,
    now: Timestamp,
)
    requires
        clock.wf(),
    ensures
        started(clock, now, None).position_at(now) == clock.position_at(now),
        stopped(clock, now, None).position_at(now) == clock.position_at(now),
{
    assert(0int * clock.playback_rate_micros / 1_000_000 == 0);
}

/// A command that names a position puts the clock there.
pub proof fn law_command_position_is_taken(
    clock: PlaybackClockCheckpoint,
    now: Timestamp,
    position: i128,
)
    ensures
        started(clock, now, Some(position)).position_at(now) == position,
        stopped(clock, now, Some(position)).position_at(now) == position,
        moved(clock, now, position).position_at(now) == position,
{
    assert(0int * clock.playback_rate_micros / 1_000_000 == 0);
}

/// A paused clock shows the same position at every moment.
pub proof fn law_paused_clock_stands(
    clock: PlaybackClockCheckpoint,
    first: Timestamp,
    second: Timestamp,
)
    requires
        clock.status == PlaybackStatus::Paused,
    ensures
        clock.position_at(first) == clock.position_at(second),
{
}

/// At the normal rate a playing clock advances with time, nanosecond for
/// nanosecond, as far as an `i128` holds the position.
pub proof fn law_playing_clock_advances(clock: PlaybackClockCheckpoint, now: Timestamp)
    requires
        clock.status == PlaybackStatus::Playing,
        clock.playback_rate_micros == NORMAL_RATE_MICROS,
        now.unix() >= clock.updated_at.unix(),
    ensures
        clock.position_at(now) == held(
            clock.anchor_position_nanos + (now.unix() - clock.updated_at.unix()),
        ),
{
    let elapsed = clock.elapsed(now);
    assert(elapsed * clock.playback_rate_micros / 1_000_000 == elapsed) by {
        vstd::arithmetic::div_mod::lemma_div_multiples_vanish(elapsed, 1_000_000);
    }
}

/// The position of a well-formed clock never goes backwards in time and is
/// never before the anchor, not even when asked for a moment before the anchor
/// time.
pub proof fn law_position_never_goes_back(
    clock: PlaybackClockCheckpoint,
    earlier: Timestamp,
    later: Timestamp,
)
    requires
        clock.wf(),
        earlier.unix() <= later.unix(),
    ensures
        clock.anchor_position_nanos <= clock.position_at(earlier) <= clock.position_at(later),
        earlier.unix() <= clock.updated_at.unix() ==> clock.position_at(earlier)
            == clock.anchor_position_nanos,
{
    let rate = clock.playback_rate_micros as int;
    let a = clock.elapsed(earlier);
    let b = clock.elapsed(later);
    assert(0 <= a * rate <= b * rate) by (nonlinear_arith)
        requires
            0 <= a <= b,
            rate >= 0,
    ;
    vstd::arithmetic::div_mod::lemma_div_is_ordered(a * rate, b * rate, 1_000_000);
    vstd::arithmetic::div_mod::lemma_div_pos_is_pos(a * rate, 1_000_000);
}

/// The position that clients are shown never goes backwards in time, and is never
/// before the anchor that they are shown.
pub proof fn law_shown_position_never_goes_back(
    clock: PlaybackClockCheckpoint,
    earlier: Timestamp,
    later: Timestamp,
    first: PlaybackState,
    second: PlaybackState,
)
    requires
        clock.wf(),
        earlier.unix() <= later.unix(),
        shows(first, clock, earlier),
        shows(second, clock, later),
    ensures
        first.anchor_position_nanos == second.anchor_position_nanos,
        first.anchor_position_nanos <= first.position_nanos <= second.position_nanos,
{
    law_position_never_goes_back(clock, earlier, later);
    lemma_pow_positive(10, 8);
    let unit = rounding_unit(1);
    law_rounding_is_monotone(
        clock.anchor_position_nanos as int,
        clock.position_at(earlier),
        unit,
    );
    law_rounding_is_monotone(clock.position_at(earlier), clock.position_at(later), unit);
}

/// A drift calls for the same action whether the client is ahead or behind.
pub proof fn law_drift_is_symmetric(delta: int)
    ensures
        action_for(delta) == action_for(-delta),
{
}

/// A seek moves the clock and leaves it playing or paused as it was, at the same
/// rate. A paused clock that is moved shows the named position at every moment.
pub proof fn law_seek_keeps_status(
    clock: PlaybackClockCheckpoint,
    now: Timestamp,
    position: i128,
    later: Timestamp,
)
    ensures
        moved(clock, now, position).status == clock.status,
        moved(clock, now, position).playback_rate_micros == clock.playback_rate_micros,
        moved(clock, now, position).updated_at == now,
        clock.status == PlaybackStatus::Paused ==> moved(clock, now, position).position_at(later)
            == position,
        clock.status == PlaybackStatus::Playing && clock.playback_rate_micros == 1_000_000
            && later.unix() >= now.unix() && position + (later.unix() - now.unix()) <= i128::MAX
            ==> moved(clock, now, position).position_at(later) == position + (later.unix()
            - now.unix()),
{
    if clock.status == PlaybackStatus::Playing && clock.playback_rate_micros == 1_000_000
        && later.unix() >= now.unix() {
        law_playing_clock_advances(moved(clock, now, position), later);
    }
}

/// A clock that was told to play plays from then on, whatever it did before: at the
/// normal rate it shows, after any time, the position it started at and that time.
pub proof fn law_play_starts_the_clock(
    clock: PlaybackClockCheckpoint,
    now: Timestamp,
    position: Option<i128>,
    later: Timestamp,
)
    requires
        later.unix() >= now.unix(),
    ensures
        started(clock, now, position).status == PlaybackStatus::Playing,
        started(clock, now, position).playback_rate_micros == clock.playback_rate_micros,
        started(clock, now, position).updated_at == now,
        ({
            let start = match position {
                Some(value) => value as int,
                None => clock.position_at(now),
            };
            let shown = start + (later.unix() - now.unix());
            clock.playback_rate_micros == 1_000_000 && shown <= i128::MAX ==> started(
                clock,
                now,
                position,
            ).position_at(later) == shown
        }),
{
    if clock.playback_rate_micros == 1_000_000 {
        law_playing_clock_advances(started(clock, now, position), later);
    }
}

/// A clock that was told to pause stands from then on: it shows the named position,
/// or that of the moment of the command, at every moment.
pub proof fn law_pause_stops_the_clock(
    clock: PlaybackClockCheckpoint,
    now: Timestamp,
    position: Option<i128>,
    later: Timestamp,
)
    ensures
        stopped(clock, now, position).status == PlaybackStatus::Paused,
        stopped(clock, now, position).playback_rate_micros == clock.playback_rate_micros,
        stopped(clock, now, position).updated_at == now,
        stopped(clock, now, position).position_at(later) == (match position {
            Some(value) => value as int,
            None => clock.position_at(now),
        }),
{
}

/// In every second a playing clock advances by a second times its rate.
pub proof fn law_rate_is_per_second(clock: PlaybackClockCheckpoint, now: Timestamp, seconds: int)
    requires
        clock.status == PlaybackStatus::Playing,
        seconds >= 0,
        now.unix() - clock.updated_at.unix() == seconds * 1_000_000_000,
        clock.anchor_position_nanos + seconds * clock.playback_rate_micros * 1_000 <= i128::MAX,
    ensures
        clock.position_at(now) == clock.anchor_position_nanos + seconds * clock.playback_rate_micros
            * 1_000,
{
    let rate = clock.playback_rate_micros as int;
    let elapsed = clock.elapsed(now);
    assert(elapsed == seconds * 1_000_000_000);
    assert(elapsed * rate == (seconds * rate * 1_000) * 1_000_000) by (nonlinear_arith)
        requires
            elapsed == seconds * 1_000_000_000,
    ;
    vstd::arithmetic::div_mod::lemma_div_multiples_vanish(seconds * rate * 1_000, 1_000_000);
    assert(seconds * rate * 1_000 >= 0) by (nonlinear_arith)
        requires
            seconds >= 0,
            rate >= 0,
    ;
}

/// The rounding units in nanoseconds.
pub proof fn lemma_units()
    ensures
        rounding_unit(1) == 100_000_000,
        rounding_unit(3) == 1_000_000,
        rounding_unit(9) == 1,
{
    reveal_with_fuel(pow, 10);
}

/// What clients are shown is the state of the clock: the position, and the anchor,
/// are the true ones to the nearest tenth of a second.
pub proof fn law_snapshot_is_within_a_twentieth(
    state: PlaybackState,
    clock: PlaybackClockCheckpoint,
    emitted_at: Timestamp,
)
    requires
        shows(state, clock, emitted_at),
        -100_000_000_000_000_000_000 <= clock.position_at(emitted_at)
            <= 100_000_000_000_000_000_000,
        -100_000_000_000_000_000_000 <= clock.anchor_position_nanos <= 100_000_000_000_000_000_000,
    ensures
        state.status == clock.status,
        state.playback_rate_micros == clock.playback_rate_micros,
        state.drift_tolerance_nanos == 350_000_000,
        state.position_nanos % 100_000_000 == 0,
        -50_000_000 <= state.position_nanos - clock.position_at(emitted_at) <= 50_000_000,
        state.anchor_position_nanos % 100_000_000 == 0,
        -50_000_000 <= state.anchor_position_nanos - clock.anchor_position_nanos <= 50_000_000,
        state.clock_updated_at@ == clock.updated_at.rfc3339(),
        state.emitted_at@ == emitted_at.rfc3339(),
{
    lemma_units();
    law_rounding_is_nearest(clock.position_at(emitted_at), 100_000_000);
    law_rounding_is_nearest(clock.anchor_position_nanos as int, 100_000_000);
}

/// A drift report compares the reported position with where the clock stands: the
/// drift is positive for a client that is ahead, each number is the true one to the
/// nearest millisecond, and the client is in sync up to 350 ms, is nudged up to 1.5 s
/// and is told to seek beyond that.
pub proof fn law_drift_is_reported_minus_expected(
    clock: PlaybackClockCheckpoint,
    now: Timestamp,
    reported: i128,
)
    requires
        -100_000_000_000_000_000_000 <= clock.position_at(now) <= 100_000_000_000_000_000_000,
        -100_000_000_000_000_000_000 <= reported <= 100_000_000_000_000_000_000,
    ensures
        ({
            let report = drift_report(clock, now, reported as int);
            let drift = reported - clock.position_at(now);
            &&& -500_000 <= report.expected_position_nanos - clock.position_at(now) <= 500_000
            &&& -500_000 <= report.reported_position_nanos - reported <= 500_000
            &&& -500_000 <= report.delta_nanos - drift <= 500_000
            &&& report.delta_nanos % 1_000_000 == 0
            &&& report.tolerance_nanos == 350_000_000
            &&& report.suggested_action == DriftCorrectionAction::InSync <==> -350_000_000 <= drift
                <= 350_000_000
            &&& report.suggested_action == DriftCorrectionAction::Seek <==> drift < -1_500_000_000
                || drift > 1_500_000_000
        }),
{
    lemma_units();
    law_rounding_is_nearest(clock.position_at(now), 1_000_000);
    law_rounding_is_nearest(reported as int, 1_000_000);
    law_rounding_is_nearest(reported - clock.position_at(now), 1_000_000);
}

} // verus!
