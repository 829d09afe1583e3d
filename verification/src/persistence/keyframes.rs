//! The keyframe index of a media item, as it is stored.
use crate::text::{concat2, join, joined, push_text, texts};
use vstd::prelude::*;

verus! {

/// How many keyframes one statement stores at most.
pub const KEYFRAME_CHUNK: usize = 500;

/// A keyframe of a media item: its place in the index, and its time in
/// nanoseconds.
#[derive(Debug, Clone, Copy, PartialEq, Eq, Structural)]
pub struct KeyframeRow {
    pub kf_index: i64,
    pub pts_nanos: i128,
}

/// A statement with the rows that it stores.
#[derive(Debug)]
pub struct KeyframeBatch {
    pub statement: String,
    pub rows: Vec<KeyframeRow>,
}

/// The number of batches for a number of keyframes.
pub open spec fn batch_count(len: int) -> int {
    (len + KEYFRAME_CHUNK - 1) / KEYFRAME_CHUNK as int
}

/// The number of keyframes in a batch: all batches but the last are full.
pub open spec fn batch_size(len: int, batch: int) -> int {
    if len - batch * KEYFRAME_CHUNK < KEYFRAME_CHUNK {
        len - batch * KEYFRAME_CHUNK
    } else {
        KEYFRAME_CHUNK as int
    }
}

/// The rows of a batch.
pub open spec fn batch_rows(offsets: Seq<i128>, batch: int) -> Seq<KeyframeRow> {
    Seq::new(
        batch_size(offsets.len() as int, batch) as nat,
        |i: int|
            KeyframeRow {
                kf_index: (batch * KEYFRAME_CHUNK + i) as i64,
                pts_nanos: offsets[batch * KEYFRAME_CHUNK + i],
            },
    )
}

/// The statement that stores a number of keyframes.
pub open spec fn insert_statement(count: nat) -> Seq<char> {
    "INSERT INTO media_keyframes (media_id, kf_index, pts_seconds) VALUES "@ + joined(
        Seq::new(count, |i: int| "(?, ?, ?)"@),
        ", "@,
    )
}

fn keyframe_statement(count: usize) -> (r: String)
    ensures
        r@ == insert_statement(count as nat),
{
    let mut places: Vec<String> = Vec::new();
    let mut i: usize = 0;
    while i < count
        invariant
            i <= count,
            texts(places@) =~= Seq::new(i as nat, |i: int| "(?, ?, ?)"@),
        decreases count - i,
    {
        push_text(&mut places, "(?, ?, ?)");
        i = i + 1;
    }
    let list: String = join(&places, ", ");
    concat2(
        "INSERT INTO media_keyframes (media_id, kf_index, pts_seconds) VALUES ",
        list.as_str(),
    )
}

/// The statements that store the keyframes of a media item, in order.
pub fn update_keyframes(offsets: &Vec<i128>) -> (r: Vec<KeyframeBatch>)
    requires
        offsets@.len() <= i64::MAX,
    ensures
        r@.len() == batch_count(offsets@.len() as int),
        forall|b: int|
            #![trigger r@[b]]
            0 <= b < r@.len() ==> r@[b].rows@ == batch_rows(offsets@, b) && r@[b].statement@
                == insert_statement(r@[b].rows@.len()),
{
    let mut batches: Vec<KeyframeBatch> = Vec::new();
    let mut start: usize = 0;
    while start < offsets.len()
        invariant
            offsets@.len() <= i64::MAX,
            start <= offsets@.len(),
            start == batches@.len() * KEYFRAME_CHUNK || (start == offsets@.len() && batches@.len()
                == batch_count(offsets@.len() as int)),
            forall|b: int|
                #![trigger batches@[b]]
                0 <= b < batches@.len() ==> batches@[b].rows@ == batch_rows(offsets@, b)
                    && batches@[b].statement@ == insert_statement(batches@[b].rows@.len()),
        decreases offsets@.len() - start,
    {
        let ghost batch = batches@.len() as int;
        let end: usize = if offsets.len() - start < KEYFRAME_CHUNK {
            offsets.len()
        } else {
            start + KEYFRAME_CHUNK
        };
        let mut rows: Vec<KeyframeRow> = Vec::new();
        let mut i: usize = start;
        while i < end
            invariant
                offsets@.len() <= i64::MAX,
                start == batch * KEYFRAME_CHUNK,
                start <= i <= end <= offsets@.len(),
                end - start == batch_size(offsets@.len() as int, batch),
                rows@.len() == i - start,
                forall|k: int|
                    0 <= k < rows@.len() ==> #[trigger] rows@[k] == batch_rows(offsets@, batch)[k],
            decreases end - i,
        {
            rows.push(KeyframeRow { kf_index: i as i64, pts_nanos: offsets[i] });
            i = i + 1;
        }
        assert(rows@ =~= batch_rows(offsets@, batch));
        let statement: String = keyframe_statement(rows.len());
        batches.push(KeyframeBatch { statement, rows });
        start = end;
    }
    batches
}

/// Every keyframe is stored once, under its place in the index, and no batch is
/// larger than a statement takes.
pub proof fn law_every_keyframe_is_stored(offsets: Seq<i128>, k: int)
    requires
        offsets.len() <= i64::MAX,
        0 <= k < offsets.len(),
    ensures
        k / (KEYFRAME_CHUNK as int) < batch_count(offsets.len() as int),
        0 <= k % (KEYFRAME_CHUNK as int) < batch_rows(offsets, k / (KEYFRAME_CHUNK as int)).len(),
        batch_rows(offsets, k / (KEYFRAME_CHUNK as int)).len() <= KEYFRAME_CHUNK,
        batch_rows(offsets, k / (KEYFRAME_CHUNK as int))[k % (KEYFRAME_CHUNK as int)] == (
        KeyframeRow { kf_index: k as i64, pts_nanos: offsets[k] }),
{
    assert(KEYFRAME_CHUNK == 500);
}

} // verus!
