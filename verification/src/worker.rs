//! The streaming worker's decisions: at each step it consults the job and
//! either stops, waits while the job is paused, skips a file line, sends a
//! command, or finishes.

use vstd::prelude::*;

use crate::job::{
    completed_view, completion_event, progress_event, progressed_view, stop_event, stopped_view,
    JobState, JobView,
};
use crate::stream::{StreamSession, StreamStep};

verus! {

/// What the streaming worker does next.
pub enum WorkerMove {
    /// Stop: a newer job has started or a cancel was requested.
    Stop,
    /// Wait and ask again: the job is paused.
    Wait,
    /// The file line is not a command to send.
    Skip,
    /// Send this command to the machine.
    Send(String),
    /// Every file line has been handled.
    Finished,
}

/// A streaming worker: the session over the job's file, the generation of
/// the job it streams, and a command held back while the job is paused.
pub struct StreamWorker {
    session: StreamSession,
    generation: usize,
    pending: Option<String>,
}

impl StreamWorker {
    /// The commands the worker has sent so far.
    pub closed spec fn sent(self) -> Seq<Seq<char>> {
        match self.pending {
            Some(_) => self.session.sent().drop_last(),
            None => self.session.sent(),
        }
    }

    /// Every command the worker's job sends, from the first to the last.
    pub closed spec fn plan(self) -> Seq<Seq<char>> {
        self.session.plan()
    }

    /// The number of lines of the file that carry a command.
    pub closed spec fn total(self) -> nat {
        self.session.total()
    }

    /// The generation of the job the worker streams.
    pub closed spec fn job_generation(self) -> nat {
        self.generation as nat
    }

    /// The 0-based index of the next file line the worker handles.
    pub closed spec fn position(self) -> nat {
        self.session.position()
    }

    /// The number of lines in the worker's file.
    pub closed spec fn line_count(self) -> nat {
        self.session.line_count()
    }

    /// The command held back while the job is paused, if any.
    pub closed spec fn held(self) -> Option<Seq<char>> {
        match self.pending {
            Some(c) => Some(c@),
            None => None,
        }
    }

    /// Whether the next file line gives a command to send.
    pub closed spec fn next_line_sends(self) -> bool {
        self.session.next_line_sends()
    }

    /// Whether the worker must stop given the job `j`: a newer job has
    /// started or a cancel was requested.
    pub open spec fn must_stop(self, j: JobView) -> bool {
        j.generation != self.job_generation() || j.cancel_flag
    }

    /// The worker's internal consistency.
    pub closed spec fn wf(self) -> bool {
        &&& self.session.wf()
        &&& self.pending matches Some(c) ==> self.session.sent().len() > 0
            && self.session.sent().last() == c@
    }

    /// A worker for the job of generation `generation` over `session`.
    pub fn new(session: StreamSession, generation: usize) -> (w: Self)
        requires
            session.wf(),
        ensures
            w.wf(),
            w.sent() == session.sent(),
            w.plan() == session.plan(),
            w.total() == session.total(),
            w.job_generation() == generation,
            w.position() == session.position(),
            w.line_count() == session.line_count(),
            w.held() is None,
    {
        StreamWorker { session, generation, pending: None }
    }

    /// The worker's next move, given the job as it is now.  It stops exactly
    /// when its job was preempted or cancelled.  Otherwise a command held
    /// back during a pause goes out first, as soon as the job is no longer
    /// paused; then each file line is handled once, in order: skipped when it
    /// gives no command, sent when it gives one, or held back when the job is
    /// paused.  The worker finishes once every line is handled and nothing is
    /// held back.
    pub fn next_move(&mut self, job: &JobState) -> (m: WorkerMove)
        requires
            old(self).wf(),
        ensures
            final(self).wf(),
            final(self).plan() == old(self).plan(),
            final(self).total() == old(self).total(),
            final(self).job_generation() == old(self).job_generation(),
            final(self).line_count() == old(self).line_count(),
            (m is Stop) <==> old(self).must_stop(job.view()),
            m is Stop ==> *final(self) == *old(self),
            !old(self).must_stop(job.view()) && old(self).held() is Some ==> (if job.view().pause_flag {
                m is Wait && *final(self) == *old(self)
            } else {
                (m matches WorkerMove::Send(d) && Some(d@) == old(self).held())
                    && final(self).held() is None && final(self).position() == old(self).position()
            }),
            !old(self).must_stop(job.view()) && old(self).held() is None && old(self).position()
                < old(self).line_count() ==> final(self).position() == old(self).position() + 1,
            !old(self).must_stop(job.view()) && old(self).held() is None ==> ((m is Skip) <==> (
            old(self).position() < old(self).line_count() && !old(self).next_line_sends())),
            !old(self).must_stop(job.view()) && old(self).held() is None
                && old(self).next_line_sends() ==> (if job.view().pause_flag {
                m is Wait && final(self).held() == Some(old(self).plan()[old(self).sent().len() as int])
            } else {
                (m matches WorkerMove::Send(d) && d@ == old(self).plan()[old(self).sent().len() as int])
                    && final(self).held() is None
            }),
            (m is Finished) <==> (!old(self).must_stop(job.view()) && old(self).held() is None
                && old(self).position() == old(self).line_count()),
            m is Send ==> !job.view().pause_flag,
            m is Wait ==> job.view().pause_flag,
            m matches WorkerMove::Send(c) ==> final(self).sent() == old(self).sent().push(c@),
            !(m is Send) ==> final(self).sent() == old(self).sent(),
            m is Finished ==> final(self).sent() == final(self).plan(),
            final(self).sent().len() <= final(self).plan().len(),
            final(self).sent() == final(self).plan().take(final(self).sent().len() as int),
    {
        proof {
            self.lemma_sent_prefix();
        }
        if job.should_stop(self.generation) {
            return WorkerMove::Stop;
        }
        let paused = job.pause_requested();
        if self.pending.is_some() {
            if paused {
                return WorkerMove::Wait;
            }
            let c = self.pending.take().unwrap();
            proof {
                assert(old(self).session.sent() =~= old(self).sent().push(c@));
                self.lemma_sent_prefix();
            }
            return WorkerMove::Send(c);
        }
        match self.session.step() {
            StreamStep::Skip => {
                proof {
                    self.lemma_sent_prefix();
                }
                WorkerMove::Skip
            },
            StreamStep::Finished => WorkerMove::Finished,
            StreamStep::Send(c) => {
                proof {
                    assert(self.session.sent() == old(self).sent().push(c@));
                    assert(self.session.sent() == self.plan().take(self.session.sent().len() as int));
                    assert(c@ == self.session.sent()[old(self).sent().len() as int]);
                }
                if paused {
                    self.pending = Some(c);
                    proof {
                        assert(self.sent() =~= old(self).sent());
                        self.lemma_sent_prefix();
                    }
                    WorkerMove::Wait
                } else {
                    proof {
                        self.lemma_sent_prefix();
                    }
                    WorkerMove::Send(c)
                }
            },
        }
    }

    proof fn lemma_sent_prefix(&self)
        requires
            self.wf(),
        ensures
            self.sent().len() <= self.plan().len(),
            self.sent() == self.plan().take(self.sent().len() as int),
            self.position() <= self.line_count(),
    {
        let s = self.session.sent();
        self.session.lemma_sent_is_prefix();
        if self.pending is Some {
            assert(s.drop_last() =~= self.plan().take(s.len() - 1));
        }
    }

    /// The number of commands sent so far; never more than the job's total.
    pub fn sent_count(&self) -> (n: usize)
        requires
            self.wf(),
        ensures
            n == self.sent().len(),
            n <= self.total(),
    {
        let n = self.session.sent_count();
        match &self.pending {
            Some(_) => n - 1,
            None => n,
        }
    }

    /// Tells the job that this worker has sent one more command: its count
    /// of commands sent, against its file's total, as its own generation.
    pub fn report_sent(&self, job: &mut JobState)
        requires
            self.wf(),
        ensures
            final(job).view() == progressed_view(
                old(job).view(),
                self.job_generation(),
                self.sent().len(),
            ),
            old(job).announces(
                *final(job),
                progress_event(old(job).view(), self.job_generation(), self.sent().len(), self.total()),
            ),
    {
        let sent = self.sent_count();
        let total = self.session.total_active();
        job.record_progress(self.generation, sent, total);
    }

    /// Tells the job that this worker has handled every line of its file.
    pub fn report_finished(&self, job: &mut JobState)
        requires
            self.wf(),
        ensures
            final(job).view() == completed_view(old(job).view(), self.job_generation()),
            old(job).announces(
                *final(job),
                completion_event(
                    old(job).view(),
                    self.job_generation(),
                    self.sent().len(),
                    self.total(),
                ),
            ),
    {
        let sent = self.sent_count();
        let total = self.session.total_active();
        job.complete(self.generation, sent, total);
    }

    /// Tells the job that this worker has stopped: the job, when the worker
    /// still owns it, was cancelled, and that is announced with the total of
    /// the worker's own file; a job that preempted the worker hears nothing.
    pub fn report_stopped(&self, job: &mut JobState)
        requires
            self.wf(),
        ensures
            final(job).view() == stopped_view(old(job).view(), self.job_generation()),
            old(job).announces(
                *final(job),
                stop_event(old(job).view(), self.job_generation(), self.total()),
            ),
    {
        let total = self.session.total_active();
        job.worker_stopped(self.generation, total);
    }

    /// The 0-based index of the file line that the next step handles.
    pub fn next_line_index(&self) -> (n: usize)
        ensures
            n == self.position(),
    {
        self.session.next_line_index()
    }
}

} // verus!
