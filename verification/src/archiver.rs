//! Archiver: the per-file pipeline, probe for writers, read the source in
//! chunks, build and save the archive, then delete the source, driven as a
//! state machine.
//!
//! The surrounding binary owns the filesystem: it performs the action the
//! machine asks for and reports what happened as the next event. The machine
//! decides every transition, so the ordering guarantees, no filesystem write
//! for an in-use file, and deletion only after the archive is finalized and
//! saved, are proved here once and hold for any driver.

use vstd::prelude::*;
use crate::stamp::Stamp;
use crate::stamp::archive_name;
use crate::stamp::archive_name_chars;
use crate::zipc::ZipStream;
use crate::zipc::entry_bytes_of;
use crate::zipc::entry_name_of;
use crate::zipc::sole_entry_of;

verus! {

/// Why a candidate failed: the source could not be read, or the archive
/// could not be built or saved.
#[derive(Clone, Copy, PartialEq, Eq, Structural, Debug)]
pub enum FailKind {
    SourceRead,
    Archive,
}

/// The terminal classification of one candidate's processing attempt.
/// A failed deletion after a finalized archive is a warning carried by
/// `Compressed`, not a failure: the archive is already valid.
#[derive(Clone, Copy, PartialEq, Eq, Structural, Debug)]
pub enum Outcome {
    Compressed { delete_failed: bool },
    SkippedInUse,
    Failed { kind: FailKind },
}

/// Where the pipeline stands for one candidate.
#[derive(Clone, Copy, PartialEq, Eq, Structural, Debug)]
pub enum Phase {
    Probing,
    Reading,
    Saving,
    Deleting,
    Finished,
}

/// What the driver observed while carrying out the last action.
#[derive(Debug)]
pub enum Event {
    Probed { in_use: bool },
    Chunk { bytes: Vec<u8> },
    SourceEof,
    SourceReadFailed,
    ArchiveSaved,
    ArchiveFailed,
    SourceDeleted,
    SourceDeleteFailed,
}

/// Mathematical image of an `Event`.
pub enum EventV {
    Probed { in_use: bool },
    Chunk { bytes: Seq<u8> },
    SourceEof,
    SourceReadFailed,
    ArchiveSaved,
    ArchiveFailed,
    SourceDeleted,
    SourceDeleteFailed,
}

impl View for Event {
    type V = EventV;

    open spec fn view(&self) -> EventV {
        match self {
            Event::Probed { in_use } => EventV::Probed { in_use: *in_use },
            Event::Chunk { bytes } => EventV::Chunk { bytes: bytes@ },
            Event::SourceEof => EventV::SourceEof,
            Event::SourceReadFailed => EventV::SourceReadFailed,
            Event::ArchiveSaved => EventV::ArchiveSaved,
            Event::ArchiveFailed => EventV::ArchiveFailed,
            Event::SourceDeleted => EventV::SourceDeleted,
            Event::SourceDeleteFailed => EventV::SourceDeleteFailed,
        }
    }
}

/// What the machine asks the driver to do next.
#[derive(PartialEq, Eq, Structural, Debug)]
pub enum Action {
    ReadChunk,
    BuildAndSave,
    DeleteSource,
    Finish { outcome: Outcome },
}

/// The pipeline state for one candidate: its base name, the timestamp the
/// archive is named after, the phase, and the archive builder into which
/// the source's chunks are streamed as they are read, so no more than one
/// chunk of the source is ever held at once.
pub struct Job {
    pub name: String,
    pub stamp: Stamp,
    pub phase: Phase,
    stream: Option<ZipStream>,
}

/// Mathematical image of a `Job`.
pub struct JobV {
    pub name: Seq<char>,
    pub stamp: Stamp,
    pub phase: Phase,
    pub data: Seq<u8>,
}

impl View for Job {
    type V = JobV;

    closed spec fn view(&self) -> JobV {
        JobV {
            name: self.name@,
            stamp: self.stamp,
            phase: self.phase,
            data: match self.stream {
                Some(z) => entry_bytes_of(z),
                None => Seq::empty(),
            },
        }
    }
}

/// Which events the driver may report in which phase.
pub open spec fn event_fits(ph: Phase, ev: EventV) -> bool {
    match (ph, ev) {
        (Phase::Probing, EventV::Probed { .. }) => true,
        (Phase::Reading, EventV::Chunk { .. }) => true,
        (Phase::Reading, EventV::SourceEof) => true,
        (Phase::Reading, EventV::SourceReadFailed) => true,
        (Phase::Saving, EventV::ArchiveSaved) => true,
        (Phase::Saving, EventV::ArchiveFailed) => true,
        (Phase::Deleting, EventV::SourceDeleted) => true,
        (Phase::Deleting, EventV::SourceDeleteFailed) => true,
        _ => false,
    }
}

/// The phase after an event.
pub open spec fn next_phase(ph: Phase, ev: EventV) -> Phase {
    match (ph, ev) {
        (Phase::Probing, EventV::Probed { in_use }) => if in_use {
            Phase::Finished
        } else {
            Phase::Reading
        },
        (Phase::Reading, EventV::Chunk { .. }) => Phase::Reading,
        (Phase::Reading, EventV::SourceEof) => Phase::Saving,
        (Phase::Reading, EventV::SourceReadFailed) => Phase::Finished,
        (Phase::Saving, EventV::ArchiveSaved) => Phase::Deleting,
        (Phase::Saving, EventV::ArchiveFailed) => Phase::Finished,
        (Phase::Deleting, EventV::SourceDeleted) => Phase::Finished,
        (Phase::Deleting, EventV::SourceDeleteFailed) => Phase::Finished,
        _ => ph,
    }
}

/// The accumulated source bytes after an event: only a chunk extends them.
pub open spec fn next_data(data: Seq<u8>, ev: EventV) -> Seq<u8> {
    match ev {
        EventV::Chunk { bytes } => data + bytes,
        _ => data,
    }
}

/// The whole job after an event.
pub open spec fn next_job(j: JobV, ev: EventV) -> JobV {
    JobV { name: j.name, stamp: j.stamp, phase: next_phase(j.phase, ev), data: next_data(j.data, ev) }
}

/// The action the machine emits on an event.
pub open spec fn action_of(j: JobV, ev: EventV) -> Action {
    match (j.phase, ev) {
        (Phase::Probing, EventV::Probed { in_use }) => if in_use {
            Action::Finish { outcome: Outcome::SkippedInUse }
        } else {
            Action::ReadChunk
        },
        (Phase::Reading, EventV::Chunk { .. }) => Action::ReadChunk,
        (Phase::Reading, EventV::SourceEof) => Action::BuildAndSave,
        (Phase::Reading, EventV::SourceReadFailed) => Action::Finish {
            outcome: Outcome::Failed { kind: FailKind::SourceRead },
        },
        (Phase::Saving, EventV::ArchiveSaved) => Action::DeleteSource,
        (Phase::Saving, EventV::ArchiveFailed) => Action::Finish {
            outcome: Outcome::Failed { kind: FailKind::Archive },
        },
        (Phase::Deleting, EventV::SourceDeleted) => Action::Finish {
            outcome: Outcome::Compressed { delete_failed: false },
        },
        (Phase::Deleting, EventV::SourceDeleteFailed) => Action::Finish {
            outcome: Outcome::Compressed { delete_failed: true },
        },
        _ => Action::ReadChunk,
    }
}

impl Job {
    /// The job's internal invariant: a well-formed timestamp, a name
    /// short enough for the container's name-length field, and, once the
    /// probe has cleared the file, a builder started under that name.
    pub closed spec fn inv(self) -> bool {
        &&& self.stamp.wf()
        &&& self.name@.len() <= 16383
        &&& match self.stream {
            Some(z) => entry_name_of(z) == self.name@,
            None => true,
        }
        &&& self.phase is Probing ==> self.stream is None
        &&& self.phase is Reading ==> self.stream is Some
    }

    /// The archive builder is still in hand, ready to be finalized.
    pub closed spec fn can_build(self) -> bool {
        self.stream is Some
    }

    /// A fresh pipeline for one candidate, about to probe the source.
    pub fn new(name: String, stamp: Stamp) -> (j: Job)
        requires
            stamp.wf(),
            name@.len() <= 16383,
        ensures
            j@ == (JobV { name: name@, stamp, phase: Phase::Probing, data: Seq::<u8>::empty() }),
            j.inv(),
    {
        Job { name, stamp, phase: Phase::Probing, stream: None }
    }

    /// Advance on one reported event: the new state and the emitted action
    /// are exactly the transition relation's. A chunk is handed straight
    /// to the compressor, never accumulated. Once the machine asks for the
    /// archive to be built and saved, the builder is ready.
    pub fn step(&mut self, ev: Event) -> (a: Action)
        requires
            old(self).inv(),
            event_fits(old(self)@.phase, ev@),
        ensures
            final(self).inv(),
            final(self)@ == next_job(old(self)@, ev@),
            a == action_of(old(self)@, ev@),
            final(self)@.phase is Saving ==> final(self).can_build(),
    {
        match ev {
            Event::Probed { in_use } => {
                if in_use {
                    self.phase = Phase::Finished;
                    Action::Finish { outcome: Outcome::SkippedInUse }
                } else {
                    self.stream = Some(ZipStream::begin(self.name.as_str()));
                    self.phase = Phase::Reading;
                    Action::ReadChunk
                }
            },
            Event::Chunk { bytes } => {
                match &mut self.stream {
                    Some(z) => {
                        z.append(&bytes);
                    },
                    None => {
                        proof {
                            assert(false);
                        }
                    },
                }
                Action::ReadChunk
            },
            Event::SourceEof => {
                self.phase = Phase::Saving;
                Action::BuildAndSave
            },
            Event::SourceReadFailed => {
                self.phase = Phase::Finished;
                Action::Finish { outcome: Outcome::Failed { kind: FailKind::SourceRead } }
            },
            Event::ArchiveSaved => {
                self.phase = Phase::Deleting;
                Action::DeleteSource
            },
            Event::ArchiveFailed => {
                self.phase = Phase::Finished;
                Action::Finish { outcome: Outcome::Failed { kind: FailKind::Archive } }
            },
            Event::SourceDeleted => {
                self.phase = Phase::Finished;
                Action::Finish { outcome: Outcome::Compressed { delete_failed: false } }
            },
            Event::SourceDeleteFailed => {
                self.phase = Phase::Finished;
                Action::Finish { outcome: Outcome::Compressed { delete_failed: true } }
            },
        }
    }

    /// Finalize the archive for everything streamed so far. Building
    /// always succeeds: the result is the Archive Target name and
    /// container bytes whose sole entry is the source's base name over
    /// exactly the bytes read. The builder is spent afterwards; only the
    /// driver's report of saving the bytes, the next event, can still
    /// fail the candidate.
    pub fn build_archive(&mut self) -> (r: (String, Vec<u8>))
        requires
            old(self).inv(),
            old(self)@.phase is Saving,
            old(self).can_build(),
        ensures
            final(self).inv(),
            !final(self).can_build(),
            final(self)@.name == old(self)@.name,
            final(self)@.stamp == old(self)@.stamp,
            final(self)@.phase == old(self)@.phase,
            final(self)@.data == Seq::<u8>::empty(),
            r.0@ == archive_name_chars(old(self)@.stamp, old(self)@.name),
            sole_entry_of(r.1@) == Some((old(self)@.name, old(self)@.data)),
    {
        let target = archive_name(&self.stamp, self.name.as_str());
        match self.stream.take() {
            Some(z) => {
                let bytes = z.finish();
                (target, bytes)
            },
            None => {
                proof {
                    assert(false);
                }
                (target, Vec::new())
            },
        }
    }
}

/// The job after a whole sequence of events.
pub open spec fn run_job(j: JobV, evs: Seq<EventV>) -> JobV
    decreases evs.len(),
{
    if evs.len() == 0 {
        j
    } else {
        run_job(next_job(j, evs.first()), evs.drop_first())
    }
}

/// Every event of the sequence fits the phase at its point.
pub open spec fn trace_fits(j: JobV, evs: Seq<EventV>) -> bool
    decreases evs.len(),
{
    evs.len() == 0 || (event_fits(j.phase, evs.first()) && trace_fits(
        next_job(j, evs.first()),
        evs.drop_first(),
    ))
}

/// The job just before the event at position `i`.
pub open spec fn job_at(j: JobV, evs: Seq<EventV>, i: int) -> JobV {
    run_job(j, evs.take(i))
}

/// Running a sequence and then one more event is one more transition.
pub proof fn lemma_run_snoc(j: JobV, evs: Seq<EventV>, ev: EventV)
    ensures
        run_job(j, evs.push(ev)) == next_job(run_job(j, evs), ev),
    decreases evs.len(),
{
    if evs.len() == 0 {
        assert(evs.push(ev).first() == ev);
        assert(evs.push(ev).drop_first() =~= Seq::<EventV>::empty());
        assert(run_job(j, evs.push(ev)) == run_job(next_job(j, ev), evs.push(ev).drop_first()));
    } else {
        assert(evs.push(ev).first() == evs.first());
        assert(evs.push(ev).drop_first() =~= evs.drop_first().push(ev));
        lemma_run_snoc(next_job(j, evs.first()), evs.drop_first(), ev);
    }
}

/// In a fitting trace, the event at each position fits the phase there.
pub proof fn lemma_trace_fits_at(j: JobV, evs: Seq<EventV>, i: int)
    requires
        trace_fits(j, evs),
        0 <= i < evs.len(),
    ensures
        event_fits(job_at(j, evs, i).phase, evs[i]),
    decreases i,
{
    if i == 0 {
        assert(evs.take(0) =~= Seq::<EventV>::empty());
    } else {
        let j1 = next_job(j, evs.first());
        let rest = evs.drop_first();
        lemma_trace_fits_at(j1, rest, i - 1);
        assert(rest[i - 1] == evs[i]);
        assert(rest.take(i - 1) =~= evs.take(i).drop_first());
        assert(evs.take(i).first() == evs.first());
        assert(job_at(j1, rest, i - 1) == job_at(j, evs, i));
    }
}

/// The state one step later is one transition further.
pub proof fn lemma_job_at_step(j: JobV, evs: Seq<EventV>, i: int)
    requires
        0 <= i < evs.len(),
    ensures
        job_at(j, evs, i + 1) == next_job(job_at(j, evs, i), evs[i]),
{
    assert(evs.take(i + 1) =~= evs.take(i).push(evs[i]));
    lemma_run_snoc(j, evs.take(i), evs[i]);
}

/// A file found in use is skipped and left alone: from a fresh job, a
/// busy probe is the whole trace. The machine finishes at once with
/// `SkippedInUse`, so no further event fits, and in particular it never
/// asks for a read, an archive, or a deletion.
pub proof fn lemma_in_use_skips(j: JobV, evs: Seq<EventV>)
    requires
        j.phase == Phase::Probing,
        trace_fits(j, evs),
        evs.len() >= 1,
        evs.first() == (EventV::Probed { in_use: true }),
    ensures
        evs.len() == 1,
        action_of(j, evs.first()) == (Action::Finish { outcome: Outcome::SkippedInUse }),
        run_job(j, evs).phase == Phase::Finished,
        run_job(j, evs).data == j.data,
{
    let j1 = next_job(j, evs.first());
    assert(j1.phase == Phase::Finished);
    let rest = evs.drop_first();
    assert(trace_fits(j1, rest));
    if evs.len() > 1 {
        assert(event_fits(j1.phase, rest.first()));
        assert(false);
    }
    assert(rest.len() == 0);
    assert(run_job(j1, rest) == j1);
    assert(run_job(j, evs) == run_job(j1, rest));
}

/// The phase `Saving` is only ever entered from `Reading` on end of
/// source, the step whose action is `BuildAndSave`.
pub proof fn lemma_saving_entered(j: JobV, evs: Seq<EventV>, i: int)
    requires
        j.phase == Phase::Probing,
        trace_fits(j, evs),
        0 <= i <= evs.len(),
        job_at(j, evs, i).phase == Phase::Saving,
    ensures
        exists|k: int|
            0 <= k < i && evs[k] == EventV::SourceEof && #[trigger] job_at(j, evs, k).phase
                == Phase::Reading,
    decreases i,
{
    assert(evs.take(0) =~= Seq::<EventV>::empty());
    assert(i > 0);
    lemma_job_at_step(j, evs, i - 1);
    lemma_trace_fits_at(j, evs, i - 1);
    let prev = job_at(j, evs, i - 1);
    if prev.phase == Phase::Reading && evs[i - 1] == EventV::SourceEof {
        assert(0 <= i - 1 < i && evs[i - 1] == EventV::SourceEof && job_at(j, evs, i - 1).phase
            == Phase::Reading);
    } else {
        assert(prev.phase == Phase::Saving);
        lemma_saving_entered(j, evs, i - 1);
        let k = choose|k: int|
            0 <= k < i - 1 && evs[k] == EventV::SourceEof && #[trigger] job_at(j, evs, k).phase
                == Phase::Reading;
        assert(0 <= k < i && evs[k] == EventV::SourceEof && job_at(j, evs, k).phase
            == Phase::Reading);
    }
}

/// Deletion comes last and only after the archive is complete: whenever
/// the machine asks for the source to be deleted, the driver has already
/// reported the archive finalized and saved, and before that the machine
/// had asked for the archive to be built from the fully read source.
pub proof fn lemma_delete_only_after_archive(j: JobV, evs: Seq<EventV>, i: int)
    requires
        j.phase == Phase::Probing,
        trace_fits(j, evs),
        0 <= i < evs.len(),
        action_of(job_at(j, evs, i), evs[i]) == Action::DeleteSource,
    ensures
        evs[i] == EventV::ArchiveSaved,
        job_at(j, evs, i).phase == Phase::Saving,
        exists|k: int|
            0 <= k < i && evs[k] == EventV::SourceEof && #[trigger] action_of(
                job_at(j, evs, k),
                evs[k],
            ) == Action::BuildAndSave,
{
    lemma_trace_fits_at(j, evs, i);
    let cur = job_at(j, evs, i);
    assert(cur.phase == Phase::Saving && evs[i] == EventV::ArchiveSaved);
    lemma_saving_entered(j, evs, i);
    let k = choose|k: int|
        0 <= k < i && evs[k] == EventV::SourceEof && #[trigger] job_at(j, evs, k).phase
            == Phase::Reading;
    assert(action_of(job_at(j, evs, k), evs[k]) == Action::BuildAndSave);
}

/// The phase `Deleting` is only ever entered from `Saving` when the
/// driver reports the archive finalized and saved.
pub proof fn lemma_deleting_entered(j: JobV, evs: Seq<EventV>, i: int)
    requires
        j.phase == Phase::Probing,
        trace_fits(j, evs),
        0 <= i <= evs.len(),
        job_at(j, evs, i).phase == Phase::Deleting,
    ensures
        exists|k: int|
            0 <= k < i && evs[k] == EventV::ArchiveSaved && #[trigger] job_at(j, evs, k).phase
                == Phase::Saving,
    decreases i,
{
    assert(evs.take(0) =~= Seq::<EventV>::empty());
    assert(i > 0);
    lemma_job_at_step(j, evs, i - 1);
    lemma_trace_fits_at(j, evs, i - 1);
    let prev = job_at(j, evs, i - 1);
    if prev.phase == Phase::Saving && evs[i - 1] == EventV::ArchiveSaved {
        assert(0 <= i - 1 < i && evs[i - 1] == EventV::ArchiveSaved && job_at(j, evs, i - 1).phase
            == Phase::Saving);
    } else {
        assert(prev.phase == Phase::Deleting);
        lemma_deleting_entered(j, evs, i - 1);
        let k = choose|k: int|
            0 <= k < i - 1 && evs[k] == EventV::ArchiveSaved && #[trigger] job_at(j, evs, k).phase
                == Phase::Saving;
        assert(0 <= k < i && evs[k] == EventV::ArchiveSaved && job_at(j, evs, k).phase
            == Phase::Saving);
    }
}

/// A compressed outcome certifies the archive: whenever the machine
/// reports a candidate compressed, with or without the deletion warning,
/// the driver had already reported the archive finalized and saved.
pub proof fn lemma_compressed_needs_saved_archive(j: JobV, evs: Seq<EventV>, i: int, warn: bool)
    requires
        j.phase == Phase::Probing,
        trace_fits(j, evs),
        0 <= i < evs.len(),
        action_of(job_at(j, evs, i), evs[i]) == (Action::Finish {
            outcome: Outcome::Compressed { delete_failed: warn },
        }),
    ensures
        job_at(j, evs, i).phase == Phase::Deleting,
        exists|k: int|
            0 <= k < i && evs[k] == EventV::ArchiveSaved && #[trigger] job_at(j, evs, k).phase
                == Phase::Saving,
{
    lemma_trace_fits_at(j, evs, i);
    lemma_deleting_entered(j, evs, i);
}

/// The source bytes carried by a sequence of events: the chunks'
/// payloads, concatenated in order.
pub open spec fn chunks_of(evs: Seq<EventV>) -> Seq<u8>
    decreases evs.len(),
{
    if evs.len() == 0 {
        Seq::empty()
    } else {
        chunks_of(evs.drop_last()) + (match evs.last() {
            EventV::Chunk { bytes } => bytes,
            _ => Seq::<u8>::empty(),
        })
    }
}

/// What the machine has read is exactly what the driver fed it: from a
/// fresh job, the accumulated source bytes at every point are the
/// concatenation of all chunk payloads reported so far. So when the
/// archive is built, its entry holds the source's bytes as read, whole
/// and in order.
pub proof fn lemma_data_is_chunks(j: JobV, evs: Seq<EventV>, i: int)
    requires
        j.data == Seq::<u8>::empty(),
        0 <= i <= evs.len(),
    ensures
        job_at(j, evs, i).data == chunks_of(evs.take(i)),
    decreases i,
{
    if i == 0 {
        assert(evs.take(0) =~= Seq::<EventV>::empty());
        assert(chunks_of(evs.take(0)) =~= Seq::<u8>::empty());
    } else {
        lemma_data_is_chunks(j, evs, i - 1);
        lemma_job_at_step(j, evs, i - 1);
        assert(evs.take(i).drop_last() =~= evs.take(i - 1));
        assert(evs.take(i).last() == evs[i - 1]);
        match evs[i - 1] {
            EventV::Chunk { bytes } => {
                assert(job_at(j, evs, i).data == chunks_of(evs.take(i)));
            },
            _ => {
                assert(chunks_of(evs.take(i)) =~= chunks_of(evs.take(i - 1)));
            },
        }
    }
}

} // verus!
