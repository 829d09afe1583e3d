//! How a video is carved into segments. Times are in nanoseconds.
use crate::muxing::HlsMode;
use crate::text::{
    all_digits, chars_of, concat3, decimal, decimal_text, is_digit, lemma_decimal, numeral_value,
    parse_number, parsed_number, strip_prefix, strip_suffix,
};
use crate::thumbnails::{format_millis, seconds_text, three_digits};
use vstd::prelude::*;

verus! {

/// The duration of a segment that is aimed at, in seconds.
pub const HLS_TARGET_SEGMENT_SECONDS: u32 = 2;

/// The duration of a segment that is aimed at.
pub const TARGET_SEGMENT_NANOS: u128 = 2_000_000_000;

/// No segment but the last is shorter than this.
pub const MIN_SEGMENT_NANOS: u128 = 1_000_000_000;

/// How far the first keyframe may be from the start.
pub const FIRST_KEYFRAME_SLOP_NANOS: i128 = 100_000_000;

/// The longest video that is carved into a fixed grid.
pub const MAX_GRID_NANOS: i128 = 8_000_000_000_000_000_000;

/// The layout of the segments of a video: where each starts, and where the last
/// one ends.
#[derive(Debug, PartialEq, Eq)]
pub struct SegmentPlan {
    pub boundaries: Vec<u128>,
    pub total_duration: u128,
    pub target_duration_secs: u32,
}

/// Whole seconds that a number of nanoseconds takes, at least one.
pub open spec fn ceil_seconds(nanos: int) -> int {
    let seconds = (nanos + 999_999_999) / 1_000_000_000;
    if seconds < 1 {
        1
    } else if seconds > u32::MAX {
        u32::MAX as int
    } else {
        seconds
    }
}

fn seconds_up(nanos: u128) -> (r: u32)
    ensures
        r == ceil_seconds(nanos as int),
{
    let whole: u128 = nanos / 1_000_000_000;
    let seconds: u128 = if nanos % 1_000_000_000 > 0 {
        whole + 1
    } else {
        whole
    };
    if seconds < 1 {
        1
    } else if seconds > 0xFFFF_FFFF {
        0xFFFF_FFFF
    } else {
        seconds as u32
    }
}

/// A duration without a negative part.
pub open spec fn from_zero(nanos: i128) -> u128 {
    if nanos > 0 {
        nanos as u128
    } else {
        0
    }
}

fn not_negative(nanos: i128) -> (r: u128)
    ensures
        r == from_zero(nanos),
{
    if nanos > 0 {
        nanos as u128
    } else {
        0
    }
}

/// Whether every boundary comes after the one before it.
pub open spec fn ascending(boundaries: Seq<u128>) -> bool {
    forall|i: int, j: int| 0 <= i < j < boundaries.len() ==> boundaries[i] < boundaries[j]
}

/// The number of segments of a fixed grid: a last piece shorter than the
/// minimum is part of the segment before it.
pub open spec fn grid_count(total: int) -> int {
    total / 2_000_000_000 + (if total % 2_000_000_000 >= 1_000_000_000 {
        1int
    } else {
        0
    })
}

/// The boundaries of a fixed grid.
pub open spec fn grid(total: int) -> Seq<u128> {
    Seq::new(grid_count(total) as nat, |i: int| (2_000_000_000 * i) as u128)
}

/// The boundaries at the first `n` keyframes: those inside the video that are
/// not too close to the boundary before them.
pub open spec fn coalesced(total: u128, keyframes: Seq<i128>, n: int) -> Seq<u128>
    decreases n,
{
    if n <= 1 {
        seq![0u128]
    } else {
        let before = coalesced(total, keyframes, n - 1);
        let keyframe = keyframes[n - 1];
        if 0 < keyframe < total && keyframe - before.last() >= MIN_SEGMENT_NANOS {
            before.push(keyframe as u128)
        } else {
            before
        }
    }
}

/// Whether a video is carved at its keyframes: it is long enough and begins
/// with one.
pub open spec fn has_usable_keyframes(total: u128, keyframes: Seq<i128>) -> bool {
    total > MIN_SEGMENT_NANOS && keyframes.len() > 0 && keyframes[0] <= FIRST_KEYFRAME_SLOP_NANOS
}

/// The boundaries of a video in the given mode.
pub open spec fn boundaries_for(mode: HlsMode, total: u128, keyframes: Seq<i128>) -> Seq<u128> {
    match mode {
        HlsMode::HlsFullTranscode => if total <= TARGET_SEGMENT_NANOS {
            seq![0u128]
        } else {
            grid(total as int)
        },
        HlsMode::HlsRemux | HlsMode::HlsAudioTranscode => if has_usable_keyframes(
            total,
            keyframes,
        ) {
            coalesced(total, keyframes, keyframes.len() as int)
        } else {
            seq![0u128]
        },
        HlsMode::NotHls => seq![0u128],
    }
}

/// Where the segment at `i` ends.
pub open spec fn end_of(boundaries: Seq<u128>, total: u128, i: int) -> u128 {
    if i + 1 < boundaries.len() {
        boundaries[i + 1]
    } else {
        total
    }
}

/// The longest of the first `n` segments.
pub open spec fn longest(boundaries: Seq<u128>, total: u128, n: int) -> int
    decreases n,
{
    if n <= 0 {
        0
    } else {
        let before = longest(boundaries, total, n - 1);
        let this = end_of(boundaries, total, n - 1) - boundaries[n - 1];
        if this > before {
            this
        } else {
            before
        }
    }
}

proof fn lemma_longest(boundaries: Seq<u128>, total: u128, n: int, i: int)
    requires
        0 <= i < n <= boundaries.len(),
    ensures
        end_of(boundaries, total, i) - boundaries[i] <= longest(boundaries, total, n),
    decreases n,
{
    if i < n - 1 {
        lemma_longest(boundaries, total, n - 1, i);
    }
}

proof fn lemma_coalesced(total: u128, keyframes: Seq<i128>, n: int)
    requires
        1 <= n <= keyframes.len(),
        total > 0,
    ensures
        coalesced(total, keyframes, n).len() >= 1,
        coalesced(total, keyframes, n).len() <= n,
        coalesced(total, keyframes, n)[0] == 0,
        forall|i: int|
            0 <= i < coalesced(total, keyframes, n).len() - 1 ==> #[trigger] coalesced(
                total,
                keyframes,
                n,
            )[i] + MIN_SEGMENT_NANOS <= coalesced(total, keyframes, n)[i + 1],
        ascending(coalesced(total, keyframes, n)),
        forall|i: int|
            0 <= i < coalesced(total, keyframes, n).len() ==> #[trigger] coalesced(
                total,
                keyframes,
                n,
            )[i] < total,
        forall|i: int|
            1 <= i < coalesced(total, keyframes, n).len() ==> exists|k: int|
                1 <= k < n && #[trigger] keyframes[k] == #[trigger] coalesced(
                    total,
                    keyframes,
                    n,
                )[i],
    decreases n,
{
    if n > 1 {
        lemma_coalesced(total, keyframes, n - 1);
        let before = coalesced(total, keyframes, n - 1);
        let after = coalesced(total, keyframes, n);
        let keyframe = keyframes[n - 1];
        if 0 < keyframe < total && keyframe - before.last() >= MIN_SEGMENT_NANOS {
            assert(after == before.push(keyframe as u128));
            assert forall|i: int| 0 <= i < after.len() - 1 implies #[trigger] after[i]
                + MIN_SEGMENT_NANOS <= after[i + 1] by {
                if i < before.len() - 1 {
                    assert(before[i] + MIN_SEGMENT_NANOS <= before[i + 1]);
                }
            }
            assert forall|i: int, j: int| 0 <= i < j < after.len() implies after[i] < after[j] by {
                if j == before.len() {
                    assert(i < before.len() - 1 ==> before[i] < before[before.len() - 1]);
                }
            }
            assert forall|i: int| 1 <= i < after.len() implies exists|k: int|
                1 <= k < n && #[trigger] keyframes[k] == #[trigger] after[i] by {
                if i < before.len() {
                    let k = choose|k: int|
                        1 <= k < n - 1 && #[trigger] keyframes[k] == before[i];
                    assert(keyframes[k] == after[i]);
                } else {
                    assert(keyframes[n - 1] == after[i]);
                }
            }
        } else {
            assert(after == before);
            assert forall|i: int| 1 <= i < after.len() implies exists|k: int|
                1 <= k < n && #[trigger] keyframes[k] == #[trigger] after[i] by {
                let k = choose|k: int| 1 <= k < n - 1 && #[trigger] keyframes[k] == before[i];
                assert(keyframes[k] == after[i]);
            }
        }
    }
}

proof fn lemma_grid(total: int)
    requires
        total > 2_000_000_000,
    ensures
        grid(total).len() >= 1,
        total <= u128::MAX ==> {
            &&& ascending(grid(total))
            &&& grid(total)[0] == 0
            &&& forall|i: int| 0 <= i < grid(total).len() ==> #[trigger] grid(total)[i] < total
        },
{
}

/// The duration that no segment is said to exceed, in seconds: that of the grid
/// where there is one, else the longest segment's.
pub open spec fn target_for(mode: HlsMode, boundaries: Seq<u128>, total: u128) -> int {
    if mode is HlsFullTranscode && total > TARGET_SEGMENT_NANOS {
        HLS_TARGET_SEGMENT_SECONDS as int
    } else {
        ceil_seconds(longest(boundaries, total, boundaries.len() as int))
    }
}

impl SegmentPlan {
    /// Whether the segments start at zero, one after the other, before the
    /// end; and whether they can be numbered.
    pub open spec fn wf(self) -> bool {
        &&& 1 <= self.boundaries@.len() <= u32::MAX
        &&& self.boundaries@[0] == 0
        &&& ascending(self.boundaries@)
        &&& forall|i: int|
            1 <= i < self.boundaries@.len() ==> #[trigger] self.boundaries@[i] < self.total_duration
    }

    /// Where the segment at `i` starts; the end for a segment that is not
    /// there.
    pub open spec fn start(self, i: int) -> u128 {
        if 0 <= i < self.boundaries@.len() {
            self.boundaries@[i]
        } else {
            self.total_duration
        }
    }

    /// How long the segment at `i` is.
    pub open spec fn length(self, i: int) -> int {
        if 0 <= i < self.boundaries@.len() {
            end_of(self.boundaries@, self.total_duration, i) - self.boundaries@[i]
        } else {
            0
        }
    }

    /// One segment for all of the video.
    pub fn single(total_duration: i128) -> (r: SegmentPlan)
        ensures
            r.wf(),
            r.boundaries@ == seq![0u128],
            r.total_duration == from_zero(total_duration),
            r.target_duration_secs == ceil_seconds(from_zero(total_duration) as int),
    {
        let total: u128 = not_negative(total_duration);
        let boundaries: Vec<u128> = vec![0];
        assert(boundaries@ =~= seq![0u128]);
        SegmentPlan { boundaries, total_duration: total, target_duration_secs: seconds_up(total) }
    }

    /// Segments on a fixed grid, for video that is encoded with a keyframe at
    /// every point of it.
    pub fn fixed_grid(total_duration: i128) -> (r: SegmentPlan)
        requires
            total_duration <= MAX_GRID_NANOS,
        ensures
            r.wf(),
            r.total_duration == from_zero(total_duration),
            r.boundaries@ == boundaries_for(
                HlsMode::HlsFullTranscode,
                from_zero(total_duration),
                seq![],
            ),
            r.target_duration_secs == (if from_zero(total_duration) <= TARGET_SEGMENT_NANOS {
                ceil_seconds(from_zero(total_duration) as int)
            } else {
                HLS_TARGET_SEGMENT_SECONDS as int
            }),
    {
        let total: u128 = not_negative(total_duration);
        if total <= TARGET_SEGMENT_NANOS {
            return SegmentPlan::single(total_duration);
        }
        let mut boundaries: Vec<u128> = Vec::new();
        let mut t: u128 = 0;
        while t + TARGET_SEGMENT_NANOS <= total
            invariant
                total <= MAX_GRID_NANOS,
                t <= total,
                t == 2_000_000_000 * boundaries@.len(),
                forall|i: int|
                    0 <= i < boundaries@.len() ==> #[trigger] boundaries@[i] == 2_000_000_000 * i,
            decreases total - t,
        {
            boundaries.push(t);
            t = t + TARGET_SEGMENT_NANOS;
        }
        if total - t >= MIN_SEGMENT_NANOS {
            boundaries.push(t);
        }
        assert(boundaries@ =~= grid(total as int));
        proof {
            lemma_grid(total as int);
        }
        SegmentPlan {
            boundaries,
            total_duration: total,
            target_duration_secs: HLS_TARGET_SEGMENT_SECONDS,
        }
    }

    /// Segments at the keyframes of the source, for video that is copied: a
    /// copy has no other keyframes.
    pub fn from_keyframes(total_duration: i128, keyframes: &Vec<i128>) -> (r: SegmentPlan)
        requires
            keyframes@.len() <= u32::MAX,
        ensures
            r.wf(),
            r.total_duration == from_zero(total_duration),
            r.boundaries@ == boundaries_for(
                HlsMode::HlsRemux,
                from_zero(total_duration),
                keyframes@,
            ),
            r.target_duration_secs == ceil_seconds(
                longest(r.boundaries@, r.total_duration, r.boundaries@.len() as int),
            ),
    {
        let total: u128 = not_negative(total_duration);
        if total <= MIN_SEGMENT_NANOS || keyframes.len() == 0 {
            return SegmentPlan::single_as_longest(total_duration);
        }
        if keyframes[0] > FIRST_KEYFRAME_SLOP_NANOS {
            return SegmentPlan::single_as_longest(total_duration);
        }
        let mut boundaries: Vec<u128> = vec![0];
        assert(boundaries@ =~= seq![0u128]);
        let mut prev: u128 = 0;
        let mut i: usize = 1;
        while i < keyframes.len()
            invariant
                1 <= i <= keyframes@.len(),
                total <= i128::MAX,
                total > 0,
                boundaries@ == coalesced(total, keyframes@, i as int),
                boundaries@.len() >= 1,
                prev == boundaries@.last(),
            decreases keyframes@.len() - i,
        {
            let keyframe: i128 = keyframes[i];
            proof {
                lemma_coalesced(total, keyframes@, i as int);
            }
            if keyframe > 0 && (keyframe as u128) < total {
                let at: u128 = keyframe as u128;
                if at >= prev && at - prev >= MIN_SEGMENT_NANOS {
                    boundaries.push(at);
                    prev = at;
                }
            }
            i = i + 1;
        }
        proof {
            lemma_coalesced(total, keyframes@, keyframes@.len() as int);
        }
        let mut longest_span: u128 = 0;
        let mut k: usize = 0;
        while k < boundaries.len()
            invariant
                k <= boundaries@.len(),
                ascending(boundaries@),
                forall|m: int| 0 <= m < boundaries@.len() ==> #[trigger] boundaries@[m] < total,
                longest_span == longest(boundaries@, total, k as int),
            decreases boundaries@.len() - k,
        {
            let end: u128 = if k + 1 < boundaries.len() {
                boundaries[k + 1]
            } else {
                total
            };
            let span: u128 = end - boundaries[k];
            if span > longest_span {
                longest_span = span;
            }
            k = k + 1;
        }
        SegmentPlan {
            boundaries,
            total_duration: total,
            target_duration_secs: seconds_up(longest_span),
        }
    }

    fn single_as_longest(total_duration: i128) -> (r: SegmentPlan)
        ensures
            r.wf(),
            r.boundaries@ == seq![0u128],
            r.total_duration == from_zero(total_duration),
            r.target_duration_secs == ceil_seconds(longest(r.boundaries@, r.total_duration, 1)),
    {
        reveal_with_fuel(longest, 2);
        SegmentPlan::single(total_duration)
    }

    /// The layout for a session: a grid where video is encoded, keyframes where
    /// it is copied.
    pub fn for_session(mode: HlsMode, total_duration: i128, keyframes: &Vec<i128>) -> (r:
        SegmentPlan)
        requires
            mode is HlsFullTranscode ==> total_duration <= MAX_GRID_NANOS,
            mode is HlsRemux || mode is HlsAudioTranscode ==> keyframes@.len() <= u32::MAX,
        ensures
            r.wf(),
            r.total_duration == from_zero(total_duration),
            r.boundaries@ == boundaries_for(mode, from_zero(total_duration), keyframes@),
            r.target_duration_secs == target_for(mode, r.boundaries@, r.total_duration),
    {
        reveal_with_fuel(longest, 2);
        match mode {
            HlsMode::HlsFullTranscode => SegmentPlan::fixed_grid(total_duration),
            HlsMode::HlsRemux | HlsMode::HlsAudioTranscode => SegmentPlan::from_keyframes(
                total_duration,
                keyframes,
            ),
            HlsMode::NotHls => SegmentPlan::single(total_duration),
        }
    }

    /// The number of segments.
    pub fn segment_count(&self) -> (r: u32)
        requires
            self.wf(),
        ensures
            r == self.boundaries@.len(),
    {
        self.boundaries.len() as u32
    }

    /// Where a segment starts.
    pub fn start_time_of(&self, index: u32) -> (r: u128)
        ensures
            r == self.start(index as int),
    {
        let place: usize = index as usize;
        if place < self.boundaries.len() {
            self.boundaries[place]
        } else {
            self.total_duration
        }
    }

    /// How long a segment is.
    pub fn duration_of(&self, index: u32) -> (r: u128)
        requires
            self.wf(),
        ensures
            r == self.length(index as int),
    {
        let place: usize = index as usize;
        if place >= self.boundaries.len() {
            return 0;
        }
        let start: u128 = self.boundaries[place];
        let end: u128 = if place + 1 < self.boundaries.len() {
            self.boundaries[place + 1]
        } else {
            self.total_duration
        };
        end - start
    }

    /// Whether the segment `i` covers the time `t`: the first covers what is
    /// before the start, the last what is after the end.
    pub open spec fn covers(self, t: int, i: int) -> bool {
        &&& 0 <= i < self.boundaries@.len()
        &&& t >= 0 ==> self.boundaries@[i] <= t
        &&& i + 1 < self.boundaries@.len() ==> t < self.boundaries@[i + 1]
        &&& t < 0 ==> i == 0
    }

    /// The segment that covers the time `t`; the first for a time before the
    /// start, the last for one after the end.
    pub fn segment_index_for_time(&self, t: i128) -> (r: u32)
        requires
            self.wf(),
        ensures
            self.covers(t as int, r as int),
    {
        let mut i: usize = 1;
        while i < self.boundaries.len() && t >= 0 && self.boundaries[i] <= t as u128
            invariant
                1 <= i <= self.boundaries@.len(),
                self.wf(),
                t >= 0 ==> self.boundaries@[i - 1] <= t,
                t < 0 ==> i == 1,
            decreases self.boundaries@.len() - i,
        {
            i = i + 1;
        }
        (i - 1) as u32
    }

    /// The segments lie end to end and cover the video: each but the last ends
    /// where the next starts, the first starts at zero and the last ends with
    /// the video.
    pub proof fn law_segments_cover_the_video(self, i: int)
        requires
            self.wf(),
            0 <= i < self.boundaries@.len(),
        ensures
            self.start(0) == 0,
            self.start(i) + self.length(i) == self.start(i + 1),
            self.start(self.boundaries@.len() as int) == self.total_duration,
            self.length(i) >= 0,
    {
    }

    /// The durations of all segments add up to that of the video.
    pub proof fn law_durations_add_up(self, n: int)
        requires
            self.wf(),
            0 <= n <= self.boundaries@.len(),
        ensures
            total_length(self, n) == self.start(n),
            n == self.boundaries@.len() ==> total_length(self, n) == self.total_duration,
        decreases n,
    {
        if n > 0 {
            self.law_durations_add_up(n - 1);
            self.law_segments_cover_the_video(n - 1);
        }
    }

    /// The segment for the time at which a segment starts is that segment.
    pub proof fn law_start_is_in_its_segment(self, i: int, found: int)
        requires
            self.wf(),
            0 <= i < self.boundaries@.len(),
            self.covers(self.start(i) as int, found),
        ensures
            found == i,
    {
        if found > i {
            assert(self.boundaries@[i] < self.boundaries@[found]);
        } else if found < i {
            if found + 1 < i {
                assert(self.boundaries@[found + 1] < self.boundaries@[i]);
            }
        }
    }
}

/// The durations of the first `n` segments together.
pub open spec fn total_length(plan: SegmentPlan, n: int) -> int
    decreases n,
{
    if n <= 0 {
        0
    } else {
        total_length(plan, n - 1) + plan.length(n - 1)
    }
}

/// Copied video is only ever cut at keyframes of the source, and no segment but
/// the last is shorter than the minimum.
pub proof fn law_copied_video_is_cut_at_keyframes(total: u128, keyframes: Seq<i128>, i: int)
    requires
        1 <= i < boundaries_for(HlsMode::HlsRemux, total, keyframes).len(),
    ensures
        exists|k: int|
            0 <= k < keyframes.len() && #[trigger] keyframes[k] == boundaries_for(
                HlsMode::HlsRemux,
                total,
                keyframes,
            )[i],
        boundaries_for(HlsMode::HlsRemux, total, keyframes)[i] - boundaries_for(
            HlsMode::HlsRemux,
            total,
            keyframes,
        )[i - 1] >= MIN_SEGMENT_NANOS,
{
    let n = keyframes.len() as int;
    lemma_coalesced(total, keyframes, n);
    let cut = coalesced(total, keyframes, n);
    let k = choose|k: int| 1 <= k < n && #[trigger] keyframes[k] == cut[i];
    assert(keyframes[k] == cut[i]);
    assert(cut[i - 1] + MIN_SEGMENT_NANOS <= cut[i - 1 + 1]);
}

/// No segment of copied video is longer than its playlist declares, where the
/// declared number of seconds fits.
pub proof fn law_target_covers_copied_segments(boundaries: Seq<u128>, total: u128, i: int)
    requires
        0 <= i < boundaries.len(),
        longest(boundaries, total, boundaries.len() as int) <= 1_000_000_000 * u32::MAX,
    ensures
        end_of(boundaries, total, i) - boundaries[i] <= 1_000_000_000 * ceil_seconds(
            longest(boundaries, total, boundaries.len() as int),
        ),
{
    lemma_longest(boundaries, total, boundaries.len() as int, i);
}

/// The millisecond that is nearest to a time; of two as near, the even one.
pub open spec fn nearest_milli(nanos: nat) -> nat {
    let whole = nanos / 1_000_000;
    let rest = nanos % 1_000_000;
    if rest > 500_000 || (rest == 500_000 && whole % 2 == 1) {
        whole + 1
    } else {
        whole
    }
}

/// A time in seconds with three decimals.
pub open spec fn seconds_of(nanos: nat) -> Seq<char> {
    seconds_text(nearest_milli(nanos))
}

/// A time in seconds with three decimals.
pub fn format_seconds(nanos: u128) -> (r: String)
    ensures
        r@ == seconds_of(nanos as nat),
{
    let whole: u128 = nanos / 1_000_000;
    let rest: u128 = nanos % 1_000_000;
    if rest > 500_000 || (rest == 500_000 && whole % 2 == 1) {
        format_millis(whole + 1)
    } else {
        format_millis(whole)
    }
}

/// `n` zeros.
pub open spec fn zeros(n: nat) -> Seq<char> {
    Seq::new(n, |i: int| '0')
}

/// A number with at least five digits.
pub open spec fn five_digits(n: nat) -> Seq<char> {
    let digits = decimal(n);
    if digits.len() >= 5 {
        digits
    } else {
        zeros((5 - digits.len()) as nat) + digits
    }
}

fn five_digits_text(n: u32) -> (r: String)
    ensures
        r@ == five_digits(n as nat),
{
    let digits: String = decimal_text(n as u64);
    let len: usize = digits.as_str().unicode_len();
    if len >= 5 {
        return digits;
    }
    let mut r: String = String::new();
    let mut i: usize = len;
    while i < 5
        invariant
            len <= i <= 5,
            r@ =~= zeros((i - len) as nat),
        decreases 5 - i,
    {
        r.push('0');
        i = i + 1;
    }
    r.append(digits.as_str());
    r
}

/// The file name of a video segment.
pub open spec fn segment_name(index: nat) -> Seq<char> {
    "seg_0_"@ + five_digits(index) + ".m4s"@
}

/// The file name of a video segment.
pub fn video_segment_filename(index: u32) -> (r: String)
    ensures
        r@ == segment_name(index as nat),
{
    concat3("seg_0_", five_digits_text(index).as_str(), ".m4s")
}

/// The index in the file name of a video segment; nothing for other files,
/// audio segments among them.
pub open spec fn segment_index(name: Seq<char>) -> Option<nat> {
    let prefix = "seg_0_"@;
    let suffix = ".m4s"@;
    if !prefix.is_prefix_of(name) {
        None
    } else {
        let rest = name.skip(prefix.len() as int);
        if !suffix.is_suffix_of(rest) {
            None
        } else {
            let number = rest.take(rest.len() - suffix.len());
            if number.len() > 0 && all_digits(number) {
                parsed_number(number, u32::MAX as nat)
            } else {
                None
            }
        }
    }
}

fn has_only_digits(text: &str) -> (r: bool)
    ensures
        r == all_digits(text@),
{
    let chars: Vec<char> = chars_of(text);
    let mut i: usize = 0;
    while i < chars.len()
        invariant
            i <= chars@.len(),
            chars@ == text@,
            forall|k: int| 0 <= k < i ==> is_digit(#[trigger] text@[k]),
        decreases chars@.len() - i,
    {
        if !('0' <= chars[i] && chars[i] <= '9') {
            assert(!is_digit(text@[i as int]));
            return false;
        }
        i = i + 1;
    }
    true
}

/// The index in the file name of a video segment.
pub fn parse_video_segment_filename(filename: &str) -> (r: Option<u32>)
    ensures
        r is Some == segment_index(filename@) is Some,
        r matches Some(index) ==> segment_index(filename@) == Some(index as nat),
{
    let rest: &str = match strip_prefix(filename, "seg_0_") {
        Some(rest) => rest,
        None => {
            return None;
        },
    };
    assert(rest@ =~= filename@.skip("seg_0_"@.len() as int));
    let number: &str = match strip_suffix(rest, ".m4s") {
        Some(number) => number,
        None => {
            return None;
        },
    };
    assert(number@ =~= rest@.take(rest@.len() - ".m4s"@.len()));
    if number.is_empty() {
        return None;
    }
    if !has_only_digits(number) {
        return None;
    }
    match parse_number(number, 0xFFFF_FFFF) {
        Some(index) => Some(index as u32),
        None => None,
    }
}

proof fn lemma_leading_zeros(count: nat, digits: Seq<char>)
    requires
        all_digits(digits),
    ensures
        all_digits(zeros(count) + digits),
        numeral_value(zeros(count) + digits) == numeral_value(digits),
    decreases digits.len(), count,
{
    if digits.len() > 0 {
        assert(all_digits(digits.drop_last()));
        lemma_leading_zeros(count, digits.drop_last());
        let s = zeros(count) + digits;
        assert(s.drop_last() =~= zeros(count) + digits.drop_last());
        assert(s.last() == digits.last());
        assert forall|i: int| 0 <= i < s.len() implies is_digit(#[trigger] s[i]) by {
            if i >= count {
                assert(is_digit(digits[i - count]));
            }
        }
    } else if count > 0 {
        lemma_leading_zeros((count - 1) as nat, digits);
        let s = zeros(count) + digits;
        assert(s.drop_last() =~= zeros((count - 1) as nat) + digits);
        assert(s.last() == '0');
        assert forall|i: int| 0 <= i < s.len() implies is_digit(#[trigger] s[i]) by {}
    } else {
        assert(zeros(0) + digits =~= digits);
    }
}

/// The file name of a segment is read back as the index of that segment.
pub proof fn law_segment_name_reads_back(index: nat)
    requires
        index <= u32::MAX,
    ensures
        segment_index(segment_name(index)) == Some(index),
{
    let digits = decimal(index);
    let number = five_digits(index);
    lemma_decimal(index);
    if digits.len() < 5 {
        lemma_leading_zeros((5 - digits.len()) as nat, digits);
    }
    let name = segment_name(index);
    let prefix = "seg_0_"@;
    let suffix = ".m4s"@;
    assert(prefix =~= name.subrange(0, prefix.len() as int));
    let rest = name.skip(prefix.len() as int);
    assert(rest =~= number + suffix);
    assert(suffix =~= rest.subrange(rest.len() - suffix.len(), rest.len() as int));
    assert(rest.take(rest.len() - suffix.len()) =~= number);
    assert(is_digit(number[0]));
}

/// Video that is encoded is cut every two seconds, whatever the keyframes of the
/// source are: each segment but the last takes two seconds, and the last between one
/// and three. Two seconds or less are one segment.
pub proof fn law_encoded_video_is_cut_every_two_seconds(
    total: u128,
    keyframes: Seq<i128>,
    i: int,
)
    requires
        0 <= i < boundaries_for(HlsMode::HlsFullTranscode, total, keyframes).len(),
    ensures
        ({
            let cuts = boundaries_for(HlsMode::HlsFullTranscode, total, keyframes);
            &&& cuts[0] == 0
            &&& total <= 2_000_000_000 ==> cuts.len() == 1
            &&& i + 1 < cuts.len() ==> cuts[i + 1] - cuts[i] == 2_000_000_000
            &&& total > 2_000_000_000 ==> 1_000_000_000 <= total - cuts.last() < 3_000_000_000
        }),
{
    let cuts = boundaries_for(HlsMode::HlsFullTranscode, total, keyframes);
    if total > 2_000_000_000 {
        let count = grid_count(total as int);
        assert(cuts.last() == 2_000_000_000 * (count - 1));
        if i + 1 < cuts.len() {
            assert(cuts[i + 1] == 2_000_000_000 * (i + 1));
        }
        assert(cuts[i] == 2_000_000_000 * i);
    }
}

proof fn lemma_coalesced_last(total: u128, keyframes: Seq<i128>, n: int)
    requires
        1 <= n <= keyframes.len(),
        total > 0,
        keyframes[0] <= 100_000_000,
        forall|a: int, b: int| 0 <= a <= b < keyframes.len() ==> keyframes[a] <= keyframes[b],
    ensures
        coalesced(total, keyframes, n).len() >= 1,
        0 < keyframes[n - 1] ==> coalesced(total, keyframes, n).last() <= keyframes[n - 1],
        keyframes[n - 1] <= 0 ==> coalesced(total, keyframes, n).last() == 0,
        0 < keyframes[n - 1] < total ==> keyframes[n - 1] - coalesced(
            total,
            keyframes,
            n,
        ).last() < 1_000_000_000,
    decreases n,
{
    if n > 1 {
        lemma_coalesced_last(total, keyframes, n - 1);
        assert(keyframes[n - 2] <= keyframes[n - 1]);
    }
}

proof fn lemma_coalesced_grows(total: u128, keyframes: Seq<i128>, m: int, n: int)
    requires
        m <= n,
    ensures
        coalesced(total, keyframes, m).is_prefix_of(coalesced(total, keyframes, n)),
    decreases n - m,
{
    let shorter = coalesced(total, keyframes, m);
    if m < n {
        lemma_coalesced_grows(total, keyframes, m, n - 1);
        let before = coalesced(total, keyframes, n - 1);
        let after = coalesced(total, keyframes, n);
        if n <= 1 {
            assert(after =~= before);
        }
        assert(shorter =~= after.take(shorter.len() as int));
        assert(shorter.is_prefix_of(after));
    } else {
        assert(shorter.is_prefix_of(shorter));
    }
}

/// Copied video is cut wherever it can be: less than a second before every keyframe
/// inside the video, or at it, there is a cut.
pub proof fn law_no_keyframe_is_far_behind_a_cut(total: u128, keyframes: Seq<i128>, k: int)
    requires
        total > 1_000_000_000,
        keyframes.len() > 0,
        keyframes[0] <= 100_000_000,
        forall|a: int, b: int| 0 <= a <= b < keyframes.len() ==> keyframes[a] <= keyframes[b],
        0 <= k < keyframes.len(),
        0 < keyframes[k] < total,
    ensures
        exists|i: int|
            0 <= i < boundaries_for(HlsMode::HlsRemux, total, keyframes).len() && 0 <= keyframes[k]
                - #[trigger] boundaries_for(HlsMode::HlsRemux, total, keyframes)[i]
                < 1_000_000_000,
{
    let n = keyframes.len() as int;
    lemma_coalesced_last(total, keyframes, k + 1);
    lemma_coalesced_grows(total, keyframes, k + 1, n);
    let shorter = coalesced(total, keyframes, k + 1);
    let cuts = boundaries_for(HlsMode::HlsRemux, total, keyframes);
    assert(cuts.take(shorter.len() as int) =~= shorter);
    assert(cuts[shorter.len() - 1] == shorter.last());
}

/// Copied video is one segment where it has no usable keyframes: none are known, the
/// first is more than a tenth of a second inside, or the video is no longer than a
/// second. Both modes that copy video cut it alike.
pub proof fn law_copied_video_without_keyframes_is_one_segment(
    total: u128,
    keyframes: Seq<i128>,
)
    ensures
        keyframes.len() == 0 || total <= 1_000_000_000 || keyframes[0] > 100_000_000
            ==> boundaries_for(HlsMode::HlsRemux, total, keyframes) == seq![0u128],
        boundaries_for(HlsMode::HlsRemux, total, keyframes) == boundaries_for(
            HlsMode::HlsAudioTranscode,
            total,
            keyframes,
        ),
        boundaries_for(HlsMode::NotHls, total, keyframes) == seq![0u128],
        boundaries_for(HlsMode::HlsRemux, total, keyframes).len() >= 1,
        boundaries_for(HlsMode::HlsRemux, total, keyframes)[0] == 0,
{
    if has_usable_keyframes(total, keyframes) {
        lemma_coalesced(total, keyframes, keyframes.len() as int);
    }
}

proof fn lemma_longest_is_attained(boundaries: Seq<u128>, total: u128, n: int)
    requires
        0 <= n <= boundaries.len(),
    ensures
        longest(boundaries, total, n) >= 0,
        longest(boundaries, total, n) > 0 ==> exists|i: int|
            0 <= i < n && longest(boundaries, total, n) == end_of(boundaries, total, i)
                - #[trigger] boundaries[i],
    decreases n,
{
    if n > 0 {
        lemma_longest_is_attained(boundaries, total, n - 1);
    }
}

/// The declared duration of segments is that of the longest one in whole seconds,
/// rounded up, and at least one; two where video is cut on the grid.
pub proof fn law_declared_duration_is_the_longest(
    mode: HlsMode,
    boundaries: Seq<u128>,
    total: u128,
    i: int,
)
    requires
        0 <= i < boundaries.len(),
    ensures
        mode is HlsFullTranscode && total > 2_000_000_000 ==> target_for(mode, boundaries, total)
            == 2,
        !(mode is HlsFullTranscode && total > 2_000_000_000) ==> {
            let declared = target_for(mode, boundaries, total);
            let next = if i + 1 < boundaries.len() {
                boundaries[i + 1]
            } else {
                total
            };
            &&& 1 <= declared <= u32::MAX
            &&& declared < u32::MAX ==> next - boundaries[i] <= 1_000_000_000 * declared
            &&& declared > 1 ==> exists|k: int|
                0 <= k < boundaries.len() && (if k + 1 < boundaries.len() {
                    boundaries[k + 1]
                } else {
                    total
                }) - #[trigger] boundaries[k] > 1_000_000_000 * (declared - 1)
        },
{
    let n = boundaries.len() as int;
    lemma_longest(boundaries, total, n, i);
    lemma_longest_is_attained(boundaries, total, n);
}

proof fn lemma_three_digits(n: nat)
    requires
        n < 1000,
    ensures
        three_digits(n).len() == 3,
        all_digits(three_digits(n)),
        numeral_value(three_digits(n)) == n,
{
    let digits = three_digits(n);
    reveal_with_fuel(numeral_value, 4);
    assert(digits.drop_last() =~= seq![digits[0], digits[1]]);
    assert(digits.drop_last().drop_last() =~= seq![digits[0]]);
    assert(digits.drop_last().drop_last().drop_last() =~= Seq::<char>::empty());
}

/// A time is written in seconds with three decimals, and what is written is at most
/// half a millisecond off.
pub proof fn law_written_time_is_nearest(nanos: nat)
    ensures
        exists|whole: Seq<char>, part: Seq<char>|
            seconds_of(nanos) == #[trigger] (whole + "."@ + part) && whole.len() > 0 && all_digits(
                whole,
            ) && part.len() == 3 && all_digits(part) && ({
                let written = (numeral_value(whole) * 1000 + numeral_value(part)) * 1_000_000;
                -500_000 <= written - nanos <= 500_000
            }),
{
    let millis = nearest_milli(nanos);
    let whole = decimal(millis / 1000);
    let part = three_digits(millis % 1000);
    lemma_decimal(millis / 1000);
    lemma_three_digits(millis % 1000);
    assert(seconds_of(nanos) == whole + "."@ + part);
}

/// The name of a video segment is its index between a fixed start and the extension
/// of segments, with at least five digits.
pub proof fn law_segment_name_holds_its_index(index: nat)
    ensures
        ({
            let name = segment_name(index);
            let n = name.len() as int;
            let digits = name.subrange(6, n - 4);
            &&& n >= 15
            &&& name.take(6) == "seg_0_"@
            &&& name.skip(n - 4) == ".m4s"@
            &&& all_digits(digits)
            &&& numeral_value(digits) == index
        }),
{
    let name = segment_name(index);
    let n = name.len() as int;
    let digits = decimal(index);
    lemma_decimal(index);
    if digits.len() < 5 {
        lemma_leading_zeros((5 - digits.len()) as nat, digits);
    }
    reveal_strlit("seg_0_");
    reveal_strlit(".m4s");
    assert(name.take(6) =~= "seg_0_"@);
    assert(name.skip(n - 4) =~= ".m4s"@);
    assert(name.subrange(6, n - 4) =~= five_digits(index));
}

/// A time half way between two milliseconds is written as the even one.
pub proof fn law_halves_go_to_the_even_millisecond(millis: nat)
    ensures
        nearest_milli(millis * 1_000_000 + 500_000) % 2 == 0,
        nearest_milli(millis * 1_000_000) == millis,
{
    assert((millis * 1_000_000 + 500_000) / 1_000_000 == millis);
    assert((millis * 1_000_000) / 1_000_000 == millis);
}

/// A layout holds as many segments as it has starts, tells where each starts and how long
/// it is, and finds the segment of a time: the last that starts at or before it.
pub proof fn law_layouts_find_their_segments(
    plan: &SegmentPlan,
    index: u32,
    t: i128,
    count: u32,
    start: u128,
    length: u128,
    found: u32,
)
    requires
        plan.wf(),
        index < plan.boundaries@.len(),
        call_ensures(SegmentPlan::segment_count, (plan,), count),
        call_ensures(SegmentPlan::start_time_of, (plan, index), start),
        call_ensures(SegmentPlan::duration_of, (plan, index), length),
        call_ensures(SegmentPlan::segment_index_for_time, (plan, t), found),
    ensures
        count == plan.boundaries@.len(),
        start == plan.boundaries@[index as int],
        index + 1 < count ==> start + length == plan.boundaries@[index + 1],
        index + 1 == count ==> start + length == plan.total_duration,
        found < count,
        t >= 0 ==> plan.boundaries@[found as int] <= t,
        found + 1 < count ==> t < plan.boundaries@[found + 1],
        t < 0 ==> found == 0,
{
}

/// A layout is made for its mode: of encoded video on the grid, of copied video at its
/// keyframes. A negative duration is none.
pub proof fn law_layouts_are_made_for_their_mode(
    mode: HlsMode,
    total_duration: i128,
    keyframes: &Vec<i128>,
    r: SegmentPlan,
)
    requires
        call_ensures(SegmentPlan::for_session, (mode, total_duration, keyframes), r),
    ensures
        r.wf(),
        total_duration >= 0 ==> r.total_duration == total_duration,
        total_duration < 0 ==> r.total_duration == 0,
        mode is HlsFullTranscode && total_duration > 2_000_000_000 ==> r.target_duration_secs == 2,
        mode is NotHls ==> r.boundaries@.len() == 1,
        r.boundaries@[0] == 0,
{
}

/// A segment that a layout does not have starts at the end and takes no time.
pub proof fn law_missing_segments_take_no_time(
    plan: &SegmentPlan,
    index: u32,
    start: u128,
    length: u128,
)
    requires
        index >= plan.boundaries@.len(),
        call_ensures(SegmentPlan::start_time_of, (plan, index), start),
        call_ensures(SegmentPlan::duration_of, (plan, index), length),
    ensures
        start == plan.total_duration,
        length == 0,
{
}

} // verus!
