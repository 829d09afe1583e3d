//! The progress that ffmpeg reports while it makes a stream copy.
use std::collections::HashMap;
use crate::text::{
    decimal, find, law_decimal_reads_back, lemma_find, opt_str, parse_number, parsed_number,
    same_text, split_first, split_once, strip_prefix, strip_suffix, trim, trimmed, white_space,
};
use vstd::prelude::*;
use vstd::std_specs::hash::*;

verus! {

/// How far a stream copy is: the time written so far, in microseconds, and the
/// bit pattern of the reported speed.
#[derive(Debug, Clone, Copy, PartialEq, Eq, Structural)]
pub struct StreamCopyProgressSnapshot {
    pub out_time_micros: Option<u64>,
    pub speed_bits: Option<u32>,
}

/// What the current block of progress lines has said so far.
#[derive(Debug, Clone, Copy, PartialEq, Eq, Structural)]
pub struct FfmpegProgressBlock {
    pub out_time_micros: Option<u64>,
    pub speed_bits: Option<u32>,
}

impl Default for StreamCopyProgressSnapshot {
    fn default() -> (r: StreamCopyProgressSnapshot)
        ensures
            r == (StreamCopyProgressSnapshot { out_time_micros: None, speed_bits: None }),
    {
        StreamCopyProgressSnapshot { out_time_micros: None, speed_bits: None }
    }
}

/// The block before its first line.
pub open spec fn empty_block() -> FfmpegProgressBlock {
    FfmpegProgressBlock { out_time_micros: None, speed_bits: None }
}

impl Default for FfmpegProgressBlock {
    fn default() -> (r: FfmpegProgressBlock)
        ensures
            r == empty_block(),
    {
        FfmpegProgressBlock { out_time_micros: None, speed_bits: None }
    }
}

/// The number in a reported speed, as text: what stands before the `x`.
pub open spec fn speed_number(value: Seq<char>) -> Option<Seq<char>> {
    let text = trimmed(value);
    if text.len() > 0 && text.last() == 'x' {
        Some(text.drop_last())
    } else {
        None
    }
}

/// The number that a progress line reports as the speed, as text. Lines of
/// other keys report none.
pub open spec fn line_speed(line: Seq<char>) -> Option<Seq<char>> {
    match split_first(line, '=') {
        Some((key, value)) => if key == "speed"@ {
            speed_number(value)
        } else {
            None
        },
        None => None,
    }
}

/// The number in a reported speed, as text.
pub fn ffmpeg_speed_text<'a>(value: &'a str) -> (r: Option<&'a str>)
    ensures
        opt_str(r) == speed_number(value@),
{
    let text: &'a str = trim(value);
    proof {
        reveal_strlit("x");
        assert("x"@ =~= seq!['x']);
    }
    match strip_suffix(text, "x") {
        Some(number) => {
            assert(text@.drop_last() =~= number@);
            Some(number)
        },
        None => {
            proof {
                if text@.len() > 0 && text@.last() == 'x' {
                    assert("x"@ =~= text@.subrange(text@.len() - 1, text@.len() as int));
                }
            }
            None
        },
    }
}

/// The number that a progress line reports as the speed, as text.
pub fn line_speed_text<'a>(line: &'a str) -> (r: Option<&'a str>)
    ensures
        opt_str(r) == line_speed(line@),
{
    match split_once(line, '=') {
        Some((key, value)) => {
            if same_text(key, "speed") {
                ffmpeg_speed_text(value)
            } else {
                None
            }
        },
        None => None,
    }
}

/// An optional number as a machine integer.
pub open spec fn micros_of(value: Option<nat>) -> Option<u64> {
    match value {
        Some(n) => Some(n as u64),
        None => None,
    }
}

/// The block after one more line, where `speed_bits` is what the line's speed
/// reads as. Despite its name, `out_time_ms` is in microseconds.
pub open spec fn block_after(
    block: FfmpegProgressBlock,
    line: Seq<char>,
    speed_bits: Option<u32>,
) -> FfmpegProgressBlock {
    match split_first(line, '=') {
        Some((key, value)) => if key == "out_time_ms"@ {
            FfmpegProgressBlock {
                out_time_micros: micros_of(parsed_number(value, u64::MAX as nat)),
                ..block
            }
        } else if key == "speed"@ {
            FfmpegProgressBlock { speed_bits, ..block }
        } else {
            block
        },
        None => block,
    }
}

/// Takes one more line into a block.
pub fn update_progress_block(block: &mut FfmpegProgressBlock, line: &str, speed_bits: Option<u32>)
    ensures
        *final(block) == block_after(*old(block), line@, speed_bits),
{
    match split_once(line, '=') {
        Some((key, value)) => {
            if same_text(key, "out_time_ms") {
                block.out_time_micros = parse_number(value, u64::MAX);
            } else if same_text(key, "speed") {
                block.speed_bits = speed_bits;
            }
        },
        None => {},
    }
}

/// What follows from one progress line.
#[derive(Debug, Clone, Copy, PartialEq, Eq, Structural)]
pub struct ProgressStep {
    /// The block to go on with.
    pub block: FfmpegProgressBlock,
    /// Progress to publish.
    pub publish: Option<StreamCopyProgressSnapshot>,
    /// Whether ffmpeg has said that it is done.
    pub finished: bool,
}

/// What a finished block publishes: nothing where it says nothing.
pub open spec fn published(block: FfmpegProgressBlock) -> Option<StreamCopyProgressSnapshot> {
    if block.out_time_micros is None && block.speed_bits is None {
        None
    } else {
        Some(
            StreamCopyProgressSnapshot {
                out_time_micros: block.out_time_micros,
                speed_bits: block.speed_bits,
            },
        )
    }
}

/// What follows from one progress line: a `progress` line ends the block, and
/// the value `end` ends the report.
pub open spec fn step_for(
    block: FfmpegProgressBlock,
    line: Seq<char>,
    speed_bits: Option<u32>,
) -> ProgressStep {
    let next = block_after(block, line, speed_bits);
    if "progress="@.is_prefix_of(line) {
        let finished = line == "progress="@ + "end"@;
        ProgressStep {
            block: if finished {
                next
            } else {
                empty_block()
            },
            publish: published(next),
            finished,
        }
    } else {
        ProgressStep { block: next, publish: None, finished: false }
    }
}

/// Takes one progress line of ffmpeg. `speed_bits` is what the text that
/// `line_speed_text` gives for the line reads as.
pub fn read_progress_line(
    block: FfmpegProgressBlock,
    line: &str,
    speed_bits: Option<u32>,
) -> (r: ProgressStep)
    ensures
        r == step_for(block, line@, speed_bits),
{
    let mut next: FfmpegProgressBlock = block;
    update_progress_block(&mut next, line, speed_bits);
    match strip_prefix(line, "progress=") {
        Some(marker) => {
            let publish = if next.out_time_micros.is_none() && next.speed_bits.is_none() {
                None
            } else {
                Some(
                    StreamCopyProgressSnapshot {
                        out_time_micros: next.out_time_micros,
                        speed_bits: next.speed_bits,
                    },
                )
            };
            if same_text(marker, "end") {
                ProgressStep { block: next, publish, finished: true }
            } else {
                proof {
                    if line@ == "progress="@ + "end"@ {
                        assert(marker@ =~= line@.skip("progress="@.len() as int));
                        assert("end"@ =~= line@.skip("progress="@.len() as int));
                    }
                }
                ProgressStep { block: FfmpegProgressBlock::default(), publish, finished: false }
            }
        },
        None => {
            proof {
                if line@ == "progress="@ + "end"@ {
                    assert("progress="@ =~= line@.subrange(0, "progress="@.len() as int));
                }
            }
            ProgressStep { block: next, publish: None, finished: false }
        },
    }
}

/// The finished part of a file of the given duration in milliseconds, as
/// billionths: at most all of it, and unknown without a positive duration or a
/// written time.
pub open spec fn ratio_billionths(duration: Option<i64>, written: Option<u64>) -> Option<u32> {
    match (duration, written) {
        (Some(d), Some(w)) => if d <= 0 {
            None
        } else if w >= d * 1000 {
            Some(1_000_000_000)
        } else {
            Some((w as int * 1_000_000 / d as int) as u32)
        },
        _ => None,
    }
}

/// The finished part of a file of the given duration, in billionths.
pub fn progress_ratio_from_snapshot(duration_millis: Option<i64>, out_time_micros: Option<u64>) -> (r:
    Option<u32>)
    ensures
        r == ratio_billionths(duration_millis, out_time_micros),
        r matches Some(part) ==> part <= 1_000_000_000,
{
    match (duration_millis, out_time_micros) {
        (Some(duration), Some(written)) => {
            if duration <= 0 {
                None
            } else if written as u128 >= duration as u128 * 1000 {
                Some(1_000_000_000)
            } else {
                proof {
                    lemma_ratio_bounds(duration as int, written as int);
                }
                Some((written as u128 * 1_000_000 / duration as u128) as u32)
            }
        },
        _ => None,
    }
}

proof fn lemma_ratio_bounds(duration: int, written: int)
    requires
        duration > 0,
        0 <= written < duration * 1000,
    ensures
        0 <= written * 1_000_000 / duration <= 1_000_000_000,
{
    assert(0 <= written * 1_000_000 / duration <= 1_000_000_000) by (nonlinear_arith)
        requires
            duration > 0,
            0 <= written < duration * 1000,
    ;
}

/// Progress never goes down as more is written.
pub proof fn law_progress_is_monotone(duration: i64, earlier: u64, later: u64)
    requires
        duration > 0,
        earlier <= later,
    ensures
        ratio_billionths(Some(duration), Some(earlier))->0 <= ratio_billionths(
            Some(duration),
            Some(later),
        )->0,
{
    let d = duration as int;
    vstd::arithmetic::div_mod::lemma_div_is_ordered(earlier as int * 1_000_000, later as int * 1_000_000, d);
    if earlier < d * 1000 {
        lemma_ratio_bounds(d, earlier as int);
    }
    if later < d * 1000 {
        lemma_ratio_bounds(d, later as int);
    }
}

/// The progress of the stream copies that are being made.
pub struct StreamCopyProgress {
    entries: HashMap<u128, StreamCopyProgressSnapshot>,
}

impl View for StreamCopyProgress {
    type V = Map<u128, StreamCopyProgressSnapshot>;

    closed spec fn view(&self) -> Map<u128, StreamCopyProgressSnapshot> {
        self.entries@
    }
}

impl StreamCopyProgress {
    pub fn new() -> (r: StreamCopyProgress)
        ensures
            r@ == Map::<u128, StreamCopyProgressSnapshot>::empty(),
    {
        StreamCopyProgress { entries: HashMap::new() }
    }

    /// Records the progress of one stream copy.
    pub fn write(&mut self, media_id: u128, snapshot: StreamCopyProgressSnapshot)
        ensures
            final(self)@ == old(self)@.insert(media_id, snapshot),
    {
        broadcast use vstd::std_specs::hash::group_hash_axioms;

        self.entries.insert(media_id, snapshot);
    }

    /// Forgets the progress of one stream copy.
    pub fn clear(&mut self, media_id: u128)
        ensures
            final(self)@ == old(self)@.remove(media_id),
    {
        broadcast use vstd::std_specs::hash::group_hash_axioms;

        self.entries.remove(&media_id);
    }

    /// The progress of one stream copy.
    pub fn snapshot(&self, media_id: u128) -> (r: Option<StreamCopyProgressSnapshot>)
        ensures
            r is Some == self@.contains_key(media_id),
            r matches Some(snapshot) ==> snapshot == self@[media_id],
    {
        broadcast use vstd::std_specs::hash::group_hash_axioms;

        match self.entries.get(&media_id) {
            Some(snapshot) => Some(*snapshot),
            None => None,
        }
    }
}

/// Progress is the written time over the duration, rounded down to billionths, and all
/// of it once the whole duration is written. Without either it is not known.
pub proof fn law_progress_is_written_over_duration(duration: Option<i64>, written: Option<u64>)
    ensures
        ratio_billionths(duration, written) is Some <==> duration is Some && duration->0 > 0
            && written is Some,
        ratio_billionths(duration, written) matches Some(part) ==> {
            let d = duration->0 as int;
            let w = written->0 as int;
            &&& w >= d * 1_000 ==> part == 1_000_000_000
            &&& w < d * 1_000 ==> part * d <= w * 1_000_000 < (part + 1) * d
        },
{
    if duration is Some && duration->0 > 0 && written is Some {
        let d = duration->0 as int;
        let w = written->0 as int;
        if w < d * 1_000 {
            lemma_ratio_bounds(d, w);
            let total = w * 1_000_000;
            let part = total / d;
            vstd::arithmetic::div_mod::lemma_fundamental_div_mod(total, d);
            vstd::arithmetic::div_mod::lemma_mod_bound(total, d);
            assert(part * d <= total < (part + 1) * d) by (nonlinear_arith)
                requires
                    total == d * part + total % d,
                    0 <= total % d < d,
            ;
        }
    }
}

proof fn lemma_key_splits(key: Seq<char>, value: Seq<char>)
    requires
        !key.contains('='),
    ensures
        split_first(key + seq!['='] + value, '=') == Some((key, value)),
{
    let line = key + seq!['='] + value;
    lemma_find(line, '=');
    let n = key.len() as int;
    assert(line[n] == '=');
    assert forall|k: int| 0 <= k < n implies line[k] != '=' by {
        assert(line[k] == key[k]);
        assert(key.contains(key[k]));
    }
    assert(find(line, '=') == n);
    assert(line.take(n) =~= key);
    assert(line.skip(n + 1) =~= value);
}

/// The line with the written time sets it, the line with the speed sets that, and each
/// leaves the other as it was; any other line leaves both.
pub proof fn law_lines_set_what_they_name(
    block: FfmpegProgressBlock,
    micros: u64,
    key: Seq<char>,
    value: Seq<char>,
    speed_bits: Option<u32>,
)
    requires
        !key.contains('='),
        key != "out_time_ms"@,
        key != "speed"@,
    ensures
        block_after(block, "out_time_ms="@ + decimal(micros as nat), speed_bits) == (
        FfmpegProgressBlock { out_time_micros: Some(micros), speed_bits: block.speed_bits }),
        block_after(block, "speed="@ + value, speed_bits) == (FfmpegProgressBlock {
            out_time_micros: block.out_time_micros,
            speed_bits,
        }),
        block_after(block, key + seq!['='] + value, speed_bits) == block,
        !value.contains('=') ==> block_after(block, value, speed_bits) == block,
{
    reveal_strlit("out_time_ms=");
    reveal_strlit("out_time_ms");
    reveal_strlit("speed=");
    reveal_strlit("speed");
    let number = decimal(micros as nat);
    assert("out_time_ms="@ + number =~= "out_time_ms"@ + seq!['='] + number);
    assert("speed="@ + value =~= "speed"@ + seq!['='] + value);
    assert(!"out_time_ms"@.contains('='));
    assert(!"speed"@.contains('='));
    assert("speed"@.len() != "out_time_ms"@.len());
    lemma_key_splits("out_time_ms"@, number);
    lemma_key_splits("speed"@, value);
    lemma_key_splits(key, value);
    law_decimal_reads_back(micros as nat, u64::MAX as nat);
    lemma_find(value, '=');
}

/// The speed that a line reports is what stands before the `x`, and only a speed line
/// reports one.
pub proof fn law_speed_stands_before_the_x(number: Seq<char>, key: Seq<char>, value: Seq<char>)
    requires
        number.len() > 0,
        !white_space(number[0]),
        !key.contains('='),
        key != "speed"@,
    ensures
        line_speed("speed="@ + number + "x"@) == Some(number),
        line_speed(key + seq!['='] + value) is None,
{
    reveal_strlit("speed=");
    reveal_strlit("speed");
    reveal_strlit("x");
    let text = number + "x"@;
    assert("speed="@ + number + "x"@ =~= "speed"@ + seq!['='] + text);
    assert(!"speed"@.contains('='));
    lemma_key_splits("speed"@, text);
    lemma_key_splits(key, value);
    assert(text[0] == number[0]);
    assert(text.last() == 'x');
    assert(!white_space('x'));
    assert(trimmed(text) == text);
    assert(text.drop_last() =~= number);
}

/// A progress line ends the block: what it said is published, where it said anything,
/// and the next block starts empty. The report ends with the line that says so, and
/// with no other.
pub proof fn law_progress_lines_end_the_block(
    block: FfmpegProgressBlock,
    line: Seq<char>,
    speed_bits: Option<u32>,
)
    ensures
        step_for(block, line, speed_bits).finished <==> line == "progress=end"@,
        "progress="@.is_prefix_of(line) ==> step_for(block, line, speed_bits).publish is Some == (
        block.out_time_micros is Some || block.speed_bits is Some),
        "progress="@.is_prefix_of(line) ==> (step_for(block, line, speed_bits).publish matches Some(
            shown,
        ) ==> shown.out_time_micros == block.out_time_micros && shown.speed_bits
            == block.speed_bits),
        "progress="@.is_prefix_of(line) && line != "progress=end"@ ==> step_for(
            block,
            line,
            speed_bits,
        ).block.out_time_micros is None && step_for(block, line, speed_bits).block.speed_bits is None,
        !"progress="@.is_prefix_of(line) ==> step_for(block, line, speed_bits).publish is None
            && step_for(block, line, speed_bits).block == block_after(block, line, speed_bits),
{
    reveal_strlit("progress=");
    reveal_strlit("progress");
    reveal_strlit("progress=end");
    reveal_strlit("end");
    reveal_strlit("out_time_ms");
    reveal_strlit("speed");
    assert("progress="@ + "end"@ =~= "progress=end"@);
    if line == "progress=end"@ {
        assert("progress="@ =~= line.subrange(0, 9));
    }
    if "progress="@.is_prefix_of(line) {
        let value = line.skip(9);
        assert(line =~= "progress="@ + value);
        assert(line =~= "progress"@ + seq!['='] + value);
        assert(!"progress"@.contains('='));
        assert("progress"@.len() == 8 && "out_time_ms"@.len() == 11 && "speed"@.len() == 5);
        lemma_key_splits("progress"@, value);
    }
}

} // verus!
