//! The queue of files to be probed, and what follows a probe.
use std::collections::HashSet;
use crate::paths::{join_path, joined_path};
use crate::persistence::records::{PendingProbe, ProbeOutcome};
use crate::text::copy_opt;
use crate::thumbnails::ThumbnailJob;
use vstd::prelude::*;

verus! {

pub const DEFAULT_WORKERS: usize = 4;

/// How many jobs may wait at a time.
pub const QUEUE_CAPACITY: usize = 4096;

/// How files are probed. Without a probe command none is, and files stay
/// pending.
#[derive(Debug)]
pub struct ProbeConfig {
    pub probe_command: Option<String>,
    pub max_concurrent: usize,
}

impl Default for ProbeConfig {
    fn default() -> (r: ProbeConfig)
        ensures
            r.probe_command is None,
            r.max_concurrent == DEFAULT_WORKERS,
    {
        ProbeConfig { probe_command: None, max_concurrent: DEFAULT_WORKERS }
    }
}

impl ProbeConfig {
    /// How many files are probed at a time: at least one.
    pub fn permits(&self) -> (r: usize)
        ensures
            r == (if self.max_concurrent > 1 {
                self.max_concurrent
            } else {
                1
            }),
    {
        if self.max_concurrent > 1 {
            self.max_concurrent
        } else {
            1
        }
    }
}

/// A file to be probed.
#[derive(Debug, PartialEq, Eq)]
pub struct ProbeJob {
    pub media_id: u128,
    pub media_path: String,
    pub root_path: String,
    pub extension: Option<String>,
}

impl ProbeJob {
    pub fn from_pending(pending: PendingProbe) -> (r: ProbeJob)
        ensures
            r.media_id == pending.media_id,
            r.media_path@ == joined_path(pending.root_path@, pending.relative_path@),
            r.root_path == pending.root_path,
            r.extension == pending.extension,
    {
        let media_path: String = join_path(
            pending.root_path.as_str(),
            pending.relative_path.as_str(),
        );
        ProbeJob {
            media_id: pending.media_id,
            media_path,
            root_path: pending.root_path,
            extension: pending.extension,
        }
    }
}

/// What came of handing a job to the workers.
#[derive(Debug, Clone, Copy, PartialEq, Eq, Structural)]
pub enum SendResult {
    Sent,
    Full,
    Closed,
}

/// The jobs that wait. Its view is the set of their media items.
pub struct QueuedJobs {
    ids: HashSet<u128>,
}

impl View for QueuedJobs {
    type V = Set<u128>;

    closed spec fn view(&self) -> Set<u128> {
        self.ids@
    }
}

/// Whether a new job for a media item is sent: none waits for it yet.
pub open spec fn is_granted(waiting: Set<u128>, media_id: u128) -> bool {
    !waiting.contains(media_id)
}

/// What waits once a job is marked.
pub open spec fn marked(waiting: Set<u128>, media_id: u128) -> Set<u128> {
    waiting.insert(media_id)
}

/// What waits once a marked job was handed to the workers.
pub open spec fn after_sending(
    waiting: Set<u128>,
    media_id: u128,
    result: SendResult,
) -> Set<u128> {
    if result is Sent {
        waiting
    } else {
        waiting.remove(media_id)
    }
}

impl QueuedJobs {
    pub fn new() -> (r: QueuedJobs)
        ensures
            r@ == Set::<u128>::empty(),
    {
        QueuedJobs { ids: HashSet::new() }
    }

    /// Notes that a job waits. Nothing changes where one for the same media
    /// item waits already, and the new one is not to be sent.
    pub fn mark_queued(&mut self, media_id: u128) -> (r: bool)
        ensures
            r == is_granted(old(self)@, media_id),
            final(self)@ == marked(old(self)@, media_id),
    {
        broadcast use vstd::std_specs::hash::group_hash_axioms;

        self.ids.insert(media_id)
    }

    /// Notes that a job no longer waits.
    pub fn unmark_queued(&mut self, media_id: u128)
        ensures
            final(self)@ == old(self)@.remove(media_id),
    {
        broadcast use vstd::std_specs::hash::group_hash_axioms;

        self.ids.remove(&media_id);
    }

    /// Takes note of what came of sending a job that was marked: one that the
    /// workers did not take no longer waits, and can be queued again.
    pub fn after_send(&mut self, media_id: u128, result: SendResult)
        ensures
            final(self)@ == after_sending(old(self)@, media_id, result),
    {
        match result {
            SendResult::Sent => {},
            SendResult::Full | SendResult::Closed => self.unmark_queued(media_id),
        }
    }
}

/// A media item waits at most once: while a job for it waits a second one is not
/// sent, and once the workers refused the first a second one is. Jobs for other
/// media items are not affected.
pub proof fn law_waiting_job_is_not_queued_again(
    waiting: Set<u128>,
    media_id: u128,
    other: u128,
    result: SendResult,
)
    requires
        other != media_id,
    ensures
        !is_granted(marked(waiting, media_id), media_id),
        is_granted(after_sending(marked(waiting, media_id), media_id, result), media_id)
            <==> !(result is Sent),
        is_granted(after_sending(marked(waiting, media_id), media_id, result), other)
            <==> is_granted(waiting, other),
{
}

/// Whether storing the outcome of a probe makes the thumbnail pending again: a
/// probe that succeeded brings a codec and a duration that the old thumbnail may
/// not fit, and one that failed leaves the thumbnail alone.
pub fn resets_thumbnail(outcome: &ProbeOutcome) -> (r: bool)
    ensures
        r == outcome.probe_error is None,
{
    outcome.probe_error.is_none()
}

/// The thumbnail job that follows a probe: only where the probe succeeded,
/// since without codec and duration it would be a guess.
pub fn process_job(job: &ProbeJob, outcome: &ProbeOutcome) -> (r: Option<ThumbnailJob>)
    ensures
        r is Some == outcome.probe_error is None,
        r matches Some(next) ==> next.media_id == job.media_id && next.media_path
            == job.media_path && next.video_codec == outcome.video_codec && next.duration_millis
            == outcome.duration_millis,
{
    if outcome.probe_error.is_none() {
        Some(
            ThumbnailJob {
                media_id: job.media_id,
                media_path: job.media_path.clone(),
                video_codec: copy_opt(&outcome.video_codec),
                duration_millis: outcome.duration_millis,
            },
        )
    } else {
        None
    }
}

/// A thumbnail follows a probe exactly where the probe succeeded: of the same file, with
/// the codec and the duration that the probe found. Only then is an old thumbnail made
/// again.
pub proof fn law_thumbnails_follow_good_probes(
    job: &ProbeJob,
    outcome: &ProbeOutcome,
    next: Option<ThumbnailJob>,
    resets: bool,
)
    requires
        call_ensures(process_job, (job, outcome), next),
        call_ensures(resets_thumbnail, (outcome,), resets),
    ensures
        next is Some <==> outcome.probe_error is None,
        resets <==> next is Some,
        next matches Some(made) ==> made.media_id == job.media_id && made.media_path
            == job.media_path && made.video_codec == outcome.video_codec && made.duration_millis
            == outcome.duration_millis,
{
}

} // verus!
