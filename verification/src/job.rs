//! The state of the G-code streaming job, shared by the request handlers and
//! the streaming worker, and the `job://status` events that announce its
//! changes to every subscribed client.

use vstd::prelude::*;

use std::sync::mpsc::Sender;

use crate::channel::{Attempt, Subscriber};
use crate::events::{
    job_report, job_report_text, job_started_event, job_started_text, status_event,
    status_event_text,
};

verus! {

/// The realtime byte that holds the feed (`!`).
pub const FEED_HOLD: u8 = 0x21;

/// The realtime byte that starts or resumes the cycle (`~`).
pub const CYCLE_START: u8 = 0x7e;

/// The realtime byte that resets the controller (Ctrl-X).
pub const SOFT_RESET: u8 = 0x18;

/// The realtime byte that asks the controller for a status report (`?`).
pub const STATUS_QUERY: u8 = 0x3f;

/// How often a running job reports its progress: every this many commands.
pub const PROGRESS_EVERY: usize = 10;

/// Where a job stands.  A job that has completed is idle again.
#[derive(PartialEq, Eq, Structural, Clone, Copy, Debug)]
pub enum JobStatus {
    Idle,
    Running,
    Paused,
    Cancelled,
}

/// The name of a status on the wire.
pub open spec fn status_name(s: JobStatus) -> Seq<char> {
    match s {
        JobStatus::Idle => "idle"@,
        JobStatus::Running => "running"@,
        JobStatus::Paused => "paused"@,
        JobStatus::Cancelled => "cancelled"@,
    }
}

impl JobStatus {
    /// The name of the status on the wire.
    pub fn as_str(&self) -> (s: &'static str)
        ensures
            s@ == status_name(*self),
    {
        match self {
            JobStatus::Idle => "idle",
            JobStatus::Running => "running",
            JobStatus::Paused => "paused",
            JobStatus::Cancelled => "cancelled",
        }
    }
}

/// The subscribers of `after` whose last handed message was taken, in
/// order: those whose client is still there.
pub open spec fn accepted_only(after: Seq<Subscriber>) -> Seq<Subscriber>
    decreases after.len(),
{
    if after.len() == 0 {
        seq![]
    } else {
        accepted_only(after.drop_last()) + if after.last().attempts().last().accepted {
            seq![after.last()]
        } else {
            seq![]
        }
    }
}

/// `after` is `before` once `msg` was handed to it: same channel, and one
/// more attempt, with `msg`.
pub open spec fn handed_once(before: Subscriber, after: Subscriber, msg: Seq<char>) -> bool {
    &&& after.channel() == before.channel()
    &&& after.attempts().len() == before.attempts().len() + 1
    &&& after.attempts().drop_last() == before.attempts()
    &&& after.attempts().last().message == msg
}

/// Each of `old_subs` was handed `msg` exactly once, and exactly those whose
/// client took it stay subscribed, in their order, as `new_subs`.
pub open spec fn handed_to_each(
    old_subs: Seq<Subscriber>,
    new_subs: Seq<Subscriber>,
    msg: Seq<char>,
) -> bool {
    exists|after: Seq<Subscriber>|
        #![trigger accepted_only(after)]
        after.len() == old_subs.len() && (forall|i: int|
            0 <= i < after.len() ==> #[trigger] handed_once(old_subs[i], after[i], msg))
            && new_subs == accepted_only(after)
}

/// What a job's state holds, apart from its subscribers and the events it
/// has announced.
pub struct JobView {
    pub status: JobStatus,
    pub file_path: Seq<char>,
    pub total_lines: nat,
    pub current_line: nat,
    pub cancel_flag: bool,
    pub pause_flag: bool,
    pub generation: nat,
}

/// The state of a job just created: idle, empty, with no request pending.
pub open spec fn idle_view() -> JobView {
    JobView {
        status: JobStatus::Idle,
        file_path: seq![],
        total_lines: 0,
        current_line: 0,
        cancel_flag: false,
        pause_flag: false,
        generation: 0,
    }
}

/// The state after a new job over `path` with `total` command lines starts,
/// preempting the job before it.
pub open spec fn started_view(v: JobView, path: Seq<char>, total: nat) -> JobView {
    JobView {
        status: JobStatus::Running,
        file_path: path,
        total_lines: total,
        current_line: 0,
        cancel_flag: false,
        pause_flag: false,
        generation: if v.generation == usize::MAX {
            0
        } else {
            v.generation + 1
        },
    }
}

/// The state after a pause request: only a running job pauses.
pub open spec fn paused_view(v: JobView) -> JobView {
    if v.status == JobStatus::Running {
        JobView { status: JobStatus::Paused, pause_flag: true, ..v }
    } else {
        v
    }
}

/// The state after a resume request: only a paused job resumes.
pub open spec fn resumed_view(v: JobView) -> JobView {
    if v.status == JobStatus::Paused {
        JobView { status: JobStatus::Running, pause_flag: false, ..v }
    } else {
        v
    }
}

/// A job that a cancel request stops: one that is running or paused.
pub open spec fn is_active_job(v: JobView) -> bool {
    v.status == JobStatus::Running || v.status == JobStatus::Paused
}

/// The state after a cancel request: only a running or paused job is
/// cancelled.
pub open spec fn cancelled_view(v: JobView) -> JobView {
    if is_active_job(v) {
        JobView { status: JobStatus::Cancelled, pause_flag: false, cancel_flag: true, ..v }
    } else {
        v
    }
}

/// Whether the worker of generation `generation` still owns the job: no
/// newer job has started since it was started.
pub open spec fn owns(v: JobView, generation: nat) -> bool {
    v.generation == generation
}

/// The state after the worker of generation `generation` has sent `sent`
/// commands; a worker whose job was preempted changes nothing.
pub open spec fn progressed_view(v: JobView, generation: nat, sent: nat) -> JobView {
    if owns(v, generation) {
        JobView { current_line: sent, ..v }
    } else {
        v
    }
}

/// The event that reports the worker's progress: every tenth command, while
/// the worker owns the job.
pub open spec fn progress_event(v: JobView, generation: nat, sent: nat, total: nat) -> Option<
    Seq<char>,
> {
    if owns(v, generation) && sent % 10 == 0 {
        Some(status_event_text("running"@, sent, total))
    } else {
        None
    }
}

/// The state after the worker of generation `generation` has sent the last
/// command: its job is idle again.  A preempted worker changes nothing.
pub open spec fn completed_view(v: JobView, generation: nat) -> JobView {
    if owns(v, generation) {
        JobView { status: JobStatus::Idle, ..v }
    } else {
        v
    }
}

/// The event that reports a completed job, while the worker owns it.
pub open spec fn completion_event(v: JobView, generation: nat, sent: nat, total: nat) -> Option<
    Seq<char>,
> {
    if owns(v, generation) {
        Some(status_event_text("completed"@, sent, total))
    } else {
        None
    }
}

/// The state after the worker of generation `generation` has stopped: its
/// job, when it still owns it, was cancelled.  A job that preempted the
/// worker is left as it is.
pub open spec fn stopped_view(v: JobView, generation: nat) -> JobView {
    if owns(v, generation) {
        JobView { status: JobStatus::Cancelled, ..v }
    } else {
        v
    }
}

/// The event that reports a stopped worker whose file has `total` command
/// lines: its job was cancelled, when it still owns it; nothing is said on
/// behalf of a preempted worker.
pub open spec fn stop_event(v: JobView, generation: nat, total: nat) -> Option<Seq<char>> {
    if owns(v, generation) {
        Some(status_event_text("cancelled"@, v.current_line, total))
    } else {
        None
    }
}

/// Tracks the currently active streaming job.
pub struct JobState {
    status: JobStatus,
    file_path: String,
    total_lines: usize,
    current_line: usize,
    cancel_flag: bool,
    pause_flag: bool,
    generation: usize,
    subscribers: Vec<Subscriber>,
}

impl JobState {
    /// What the state holds, apart from subscribers and announced events.
    pub closed spec fn view(&self) -> JobView {
        JobView {
            status: self.status,
            file_path: self.file_path@,
            total_lines: self.total_lines as nat,
            current_line: self.current_line as nat,
            cancel_flag: self.cancel_flag,
            pause_flag: self.pause_flag,
            generation: self.generation as nat,
        }
    }

    /// The subscribed clients, each with what was handed to it.
    pub closed spec fn subscribers(&self) -> Seq<Subscriber> {
        self.subscribers@
    }

    /// `next` is `self` after `msg` was broadcast: handed to each subscriber
    /// once, in order; those whose client is gone are dropped.
    pub open spec fn broadcast_to(&self, next: JobState, msg: Seq<char>) -> bool {
        handed_to_each(self.subscribers(), next.subscribers(), msg)
    }

    /// `next` has handed nothing to anyone since `self` and has the same
    /// subscribers.
    pub open spec fn quiet_to(&self, next: JobState) -> bool {
        next.subscribers() == self.subscribers()
    }

    /// `next` is `self` after `event` was broadcast, or after nothing was
    /// sent when there is no event.
    pub open spec fn announces(&self, next: JobState, event: Option<Seq<char>>) -> bool {
        match event {
            Some(msg) => self.broadcast_to(next, msg),
            None => self.quiet_to(next),
        }
    }

    /// A job state that is idle, with no subscribers.
    pub fn new() -> (s: Self)
        ensures
            s.view() == idle_view(),
            s.subscribers() == Seq::<Subscriber>::empty(),
    {
        JobState {
            status: JobStatus::Idle,
            file_path: String::new(),
            total_lines: 0,
            current_line: 0,
            cancel_flag: false,
            pause_flag: false,
            generation: 0,
            subscribers: Vec::new(),
        }
    }

    /// Where the job stands.
    pub fn status(&self) -> (s: JobStatus)
        ensures
            s == self.view().status,
    {
        self.status
    }

    /// The file being streamed.
    pub fn file_path(&self) -> (p: &str)
        ensures
            p@ == self.view().file_path,
    {
        self.file_path.as_str()
    }

    /// The number of lines of the file that carry a command.
    pub fn total_lines(&self) -> (n: usize)
        ensures
            n == self.view().total_lines,
    {
        self.total_lines
    }

    /// The number of commands sent so far.
    pub fn current_line(&self) -> (n: usize)
        ensures
            n == self.view().current_line,
    {
        self.current_line
    }

    /// Whether a cancel was requested.
    pub fn cancel_requested(&self) -> (b: bool)
        ensures
            b == self.view().cancel_flag,
    {
        self.cancel_flag
    }

    /// Whether the job is to wait between lines.
    pub fn pause_requested(&self) -> (b: bool)
        ensures
            b == self.view().pause_flag,
    {
        self.pause_flag
    }

    /// The generation of the current job.
    pub fn generation(&self) -> (g: usize)
        ensures
            g == self.view().generation,
    {
        self.generation
    }

    /// The number of subscribed clients.
    pub fn subscriber_count(&self) -> (n: usize)
        ensures
            n == self.subscribers().len(),
    {
        self.subscribers.len()
    }

    /// Hands `msg` to every subscriber, once each and in order, and drops
    /// those whose client is gone; the others stay, in their order.
    pub fn broadcast(&mut self, msg: &str)
        ensures
            final(self).view() == old(self).view(),
            old(self).broadcast_to(*final(self), msg@),
    {
        let text = msg.to_owned();
        let mut pending: Vec<Subscriber> = Vec::new();
        std::mem::swap(&mut pending, &mut self.subscribers);
        let ghost before = pending@;
        let count = pending.len();
        assert(before.len() == count);
        let ghost mut after: Seq<Subscriber> = Seq::empty();
        let mut kept: Vec<Subscriber> = Vec::new();
        let mut i: usize = 0;
        assert(before.skip(0) =~= before);
        while pending.len() > 0
            invariant
                i <= before.len(),
                before.len() <= usize::MAX,
                text@ == msg@,
                pending@ == before.skip(i as int),
                after.len() == i,
                forall|j: int| 0 <= j < i ==> #[trigger] handed_once(before[j], after[j], msg@),
                kept@ == accepted_only(after),
            decreases pending.len(),
        {
            assert(before.skip(i as int).len() > 0);
            let mut sub = pending.remove(0);
            assert(before.skip(i as int)[0] == sub);
            assert(before.skip(i as int).drop_first() =~= before.skip(i + 1));
            let ghost start = sub;
            let ok = sub.send(text.clone());
            proof {
                let prev = after;
                after = after.push(sub);
                assert(after.drop_last() =~= prev);
                assert forall|j: int| 0 <= j < i + 1 implies #[trigger] handed_once(
                    before[j],
                    after[j],
                    msg@,
                ) by {
                    if j < i {
                        assert(after[j] == prev[j]);
                    } else {
                        assert(sub.attempts().drop_last() =~= start.attempts());
                    }
                }
            }
            if ok {
                kept.push(sub);
            }
            proof {
                assert(kept@ =~= accepted_only(after));
            }
            i = i + 1;
        }
        self.subscribers = kept;
        proof {
            assert(before.skip(i as int).len() == 0);
            assert(handed_to_each(before, self.subscribers@, msg@));
        }
    }

    /// Subscribes a client to job events; nothing is handed to its channel.
    pub fn add_subscriber(&mut self, tx: Sender<String>)
        ensures
            final(self).view() == old(self).view(),
            final(self).subscribers().len() == old(self).subscribers().len() + 1,
            final(self).subscribers().drop_last() == old(self).subscribers(),
            final(self).subscribers().last().channel() == tx,
            final(self).subscribers().last().attempts() == Seq::<Attempt>::empty(),
    {
        let sub = Subscriber::new(tx);
        self.subscribers.push(sub);
        assert(self.subscribers@.drop_last() =~= old(self).subscribers@);
    }

    /// Marks the job cancelled and broadcasts it with the current progress
    /// and the given total.
    pub fn broadcast_cancelled(&mut self, total_lines: usize)
        ensures
            final(self).view() == (JobView { status: JobStatus::Cancelled, ..old(self).view() }),
            old(self).broadcast_to(
                *final(self),
                status_event_text("cancelled"@, old(self).view().current_line, total_lines as nat),
            ),
    {
        let msg = status_event("cancelled", self.current_line, total_lines);
        self.status = JobStatus::Cancelled;
        self.broadcast(msg.as_str());
    }

    /// Broadcasts the job's current status and progress.
    fn announce_status(&mut self)
        ensures
            final(self).view() == old(self).view(),
            old(self).broadcast_to(
                *final(self),
                status_event_text(
                    status_name(old(self).status),
                    old(self).current_line as nat,
                    old(self).total_lines as nat,
                ),
            ),
    {
        let msg = status_event(self.status.as_str(), self.current_line, self.total_lines);
        self.broadcast(msg.as_str());
    }

    /// Starts a new job over `path`, whose file has `total` lines that carry a
    /// command, streamed from `start_line`: any job before it is preempted.
    /// Returns the new job's generation, which its worker holds.
    pub fn start_job(&mut self, path: &str, total: usize, start_line: usize) -> (generation: usize)
        ensures
            final(self).view() == started_view(old(self).view(), path@, total as nat),
            generation == final(self).view().generation,
            generation != old(self).view().generation,
            old(self).broadcast_to(
                *final(self),
                job_started_text(path@, total as nat, start_line as nat),
            ),
    {
        self.generation = self.generation.wrapping_add(1);
        self.cancel_flag = false;
        self.pause_flag = false;
        self.total_lines = total;
        self.current_line = 0;
        self.status = JobStatus::Running;
        self.file_path = path.to_owned();
        let msg = job_started_event(path, total, start_line);
        self.broadcast(msg.as_str());
        self.generation
    }

    /// Whether the worker of generation `generation` must stop: a newer job
    /// has started or a cancel was requested.
    pub fn should_stop(&self, generation: usize) -> (stop: bool)
        ensures
            stop == (self.view().generation != generation || self.view().cancel_flag),
    {
        self.generation != generation || self.cancel_flag
    }

    /// Records that the worker of generation `generation` has sent `sent` of
    /// its job's `total` commands; every tenth command the progress is
    /// broadcast.  A worker whose job was preempted changes nothing and
    /// sends nothing.
    pub fn record_progress(&mut self, generation: usize, sent: usize, total: usize)
        ensures
            final(self).view() == progressed_view(old(self).view(), generation as nat, sent as nat),
            old(self).announces(
                *final(self),
                progress_event(old(self).view(), generation as nat, sent as nat, total as nat),
            ),
    {
        if self.generation != generation {
            return ;
        }
        self.current_line = sent;
        if sent % PROGRESS_EVERY == 0 {
            let msg = status_event("running", sent, total);
            self.broadcast(msg.as_str());
        }
    }

    /// Broadcasts that the job of the worker of generation `generation`
    /// completed after `sent` of its `total` commands; the job is then idle
    /// again.  A worker whose job was preempted changes nothing and sends
    /// nothing.
    pub fn complete(&mut self, generation: usize, sent: usize, total: usize)
        ensures
            final(self).view() == completed_view(old(self).view(), generation as nat),
            old(self).announces(
                *final(self),
                completion_event(old(self).view(), generation as nat, sent as nat, total as nat),
            ),
    {
        if self.generation != generation {
            return ;
        }
        let msg = status_event("completed", sent, total);
        self.broadcast(msg.as_str());
        self.status = JobStatus::Idle;
    }

    /// Records that the worker of generation `generation`, whose file has
    /// `total` command lines, has stopped.  When it still owns the job, the
    /// job was cancelled and that is broadcast; a worker that a newer job
    /// preempted leaves that job as it is and sends nothing.
    pub fn worker_stopped(&mut self, generation: usize, total: usize)
        ensures
            final(self).view() == stopped_view(old(self).view(), generation as nat),
            old(self).announces(
                *final(self),
                stop_event(old(self).view(), generation as nat, total as nat),
            ),
    {
        if self.generation == generation {
            self.broadcast_cancelled(total);
        }
    }

    /// Pauses a running job and broadcasts it; returns the realtime byte that
    /// holds the machine's feed.  A job that is not running is left as it is
    /// and nothing is sent.
    pub fn pause(&mut self) -> (byte: Option<u8>)
        ensures
            final(self).view() == paused_view(old(self).view()),
            old(self).view().status == JobStatus::Running ==> byte == Some(FEED_HOLD)
                && old(self).broadcast_to(
                *final(self),
                status_event_text(
                    "paused"@,
                    old(self).view().current_line,
                    old(self).view().total_lines,
                ),
            ),
            old(self).view().status != JobStatus::Running ==> byte is None && old(self).quiet_to(
                *final(self),
            ),
    {
        if self.status != JobStatus::Running {
            return None;
        }
        self.pause_flag = true;
        self.status = JobStatus::Paused;
        self.announce_status();
        Some(FEED_HOLD)
    }

    /// Resumes a paused job and broadcasts it; returns the realtime byte that
    /// restarts the machine's cycle.  A job that is not paused is left as it
    /// is and nothing is sent.
    pub fn resume(&mut self) -> (byte: Option<u8>)
        ensures
            final(self).view() == resumed_view(old(self).view()),
            old(self).view().status == JobStatus::Paused ==> byte == Some(CYCLE_START)
                && old(self).broadcast_to(
                *final(self),
                status_event_text(
                    "running"@,
                    old(self).view().current_line,
                    old(self).view().total_lines,
                ),
            ),
            old(self).view().status != JobStatus::Paused ==> byte is None && old(self).quiet_to(
                *final(self),
            ),
    {
        if self.status != JobStatus::Paused {
            return None;
        }
        self.pause_flag = false;
        self.status = JobStatus::Running;
        self.announce_status();
        Some(CYCLE_START)
    }

    /// Cancels a running or paused job and broadcasts it; returns the
    /// realtime byte that resets the machine and flushes its motion buffer.
    /// Any other job is left as it is and nothing is sent.
    pub fn cancel(&mut self) -> (byte: Option<u8>)
        ensures
            final(self).view() == cancelled_view(old(self).view()),
            is_active_job(old(self).view()) ==> byte == Some(SOFT_RESET) && old(
                self,
            ).broadcast_to(
                *final(self),
                status_event_text(
                    "cancelled"@,
                    old(self).view().current_line,
                    old(self).view().total_lines,
                ),
            ),
            !is_active_job(old(self).view()) ==> byte is None && old(self).quiet_to(*final(self)),
    {
        if self.status != JobStatus::Running && self.status != JobStatus::Paused {
            return None;
        }
        self.pause_flag = false;
        self.cancel_flag = true;
        let total = self.total_lines;
        self.broadcast_cancelled(total);
        Some(SOFT_RESET)
    }

    /// The report that answers `get_job_status`.
    pub fn status_report(&self) -> (report: String)
        ensures
            report@ == job_report_text(
                status_name(self.view().status),
                self.view().file_path,
                self.view().current_line,
                self.view().total_lines,
            ),
    {
        job_report(self.status.as_str(), self.file_path.as_str(), self.current_line, self.total_lines)
    }
}

/// Pausing a running job and then resuming it leaves it running with no
/// pause pending and its file, progress, cancel request and generation as
/// they were.
pub proof fn law_pause_then_resume(v: JobView)
    requires
        v.status == JobStatus::Running,
    ensures
        resumed_view(paused_view(v)) == (JobView { pause_flag: false, ..v }),
{
}

/// Only a running job pauses and only a paused one resumes: any other job
/// is left as it is.
pub proof fn law_pause_and_resume_follow_the_lifecycle(v: JobView)
    ensures
        v.status != JobStatus::Running ==> paused_view(v) == v,
        v.status != JobStatus::Paused ==> resumed_view(v) == v,
        paused_view(v).status == JobStatus::Paused <==> (v.status == JobStatus::Running || v.status
            == JobStatus::Paused),
{
}

/// Cancelling a running or paused job clears the pause request, so that the
/// worker stops at once; a paused job cancels as a running one does.
pub proof fn law_cancel_releases_pause(v: JobView)
    requires
        is_active_job(v),
    ensures
        !cancelled_view(v).pause_flag && cancelled_view(v).cancel_flag,
        cancelled_view(v).status == JobStatus::Cancelled,
        cancelled_view(paused_view(v)) == cancelled_view(JobView { pause_flag: true, ..v }),
{
}

/// A job that its worker completes is idle again, with its progress kept.
pub proof fn law_completed_job_is_idle(v: JobView)
    ensures
        completed_view(v, v.generation).status == JobStatus::Idle,
        completed_view(v, v.generation).current_line == v.current_line,
        completed_view(v, v.generation).total_lines == v.total_lines,
{
}

/// Preemption is clean: once a new job has started, whatever the worker of
/// the job before it reports (progress, completion, or that it stopped)
/// leaves the new job running as it is and is announced to no one.
pub proof fn law_clean_preemption(
    v: JobView,
    path: Seq<char>,
    total: nat,
    sent: nat,
    old_total: nat,
)
    requires
        v.generation <= usize::MAX,
    ensures
        ({
            let n = started_view(v, path, total);
            &&& n.status == JobStatus::Running
            &&& stopped_view(n, v.generation) == n
            &&& stop_event(n, v.generation, old_total) is None
            &&& progressed_view(n, v.generation, sent) == n
            &&& progress_event(n, v.generation, sent, old_total) is None
            &&& completed_view(n, v.generation) == n
            &&& completion_event(n, v.generation, sent, old_total) is None
        }),
{
}

/// A worker that stops while it still owns its job (a cancel was requested)
/// marks the job cancelled and announces it with the job's progress and the
/// total of its own file.
pub proof fn law_stopped_owner_announces_cancellation(v: JobView, total: nat)
    ensures
        stopped_view(v, v.generation).status == JobStatus::Cancelled,
        stop_event(v, v.generation, total) == Some(
            status_event_text("cancelled"@, v.current_line, total),
        ),
        is_active_job(v) ==> stop_event(cancelled_view(v), v.generation, total) == Some(
            status_event_text("cancelled"@, v.current_line, total),
        ),
{
}

/// Starting a job preempts the worker of the job before it: that worker's
/// generation no longer matches, so it stops.  The new job starts running
/// from no progress, with no pause or cancel pending, whatever state the job
/// was in.
pub proof fn law_start_preempts_previous_worker(v: JobView, path: Seq<char>, total: nat)
    requires
        v.generation <= usize::MAX,
    ensures
        started_view(v, path, total).generation != v.generation,
        started_view(v, path, total).status == JobStatus::Running,
        started_view(v, path, total).current_line == 0,
        !started_view(v, path, total).pause_flag && !started_view(v, path, total).cancel_flag,
{
}

proof fn lemma_accepted_only(after: Seq<Subscriber>)
    ensures
        accepted_only(after).len() <= after.len(),
        forall|k: int|
            #![trigger accepted_only(after)[k]]
            0 <= k < accepted_only(after).len() ==> exists|i: int|
                #![trigger after[i]]
                0 <= i < after.len() && accepted_only(after)[k] == after[i]
                    && after[i].attempts().last().accepted,
    decreases after.len(),
{
    if after.len() > 0 {
        let d = after.drop_last();
        lemma_accepted_only(d);
        let r0 = accepted_only(d);
        assert forall|k: int|
            #![trigger accepted_only(after)[k]]
            0 <= k < accepted_only(after).len() implies exists|i: int|
            #![trigger after[i]]
            0 <= i < after.len() && accepted_only(after)[k] == after[i]
                && after[i].attempts().last().accepted by {
            if k < r0.len() {
                assert(accepted_only(after)[k] == r0[k]);
                let i = choose|i: int|
                    #![trigger d[i]]
                    0 <= i < d.len() && r0[k] == d[i] && d[i].attempts().last().accepted;
                assert(d[i] == after[i]);
            } else {
                assert(accepted_only(after)[k] == after[after.len() - 1]);
            }
        }
    }
}

/// `s` is one of `old_subs`, on the same channel, after it was handed `msg`
/// once and took it.
pub open spec fn took_message(old_subs: Seq<Subscriber>, s: Subscriber, msg: Seq<char>) -> bool {
    exists|i: int|
        #![trigger old_subs[i]]
        0 <= i < old_subs.len() && s.channel() == old_subs[i].channel() && s.attempts()
            == old_subs[i].attempts().push((Attempt { message: msg, accepted: true }))
}

/// Broadcasting adds no subscriber, and each subscriber that stays is one of
/// those before on the same channel, which was handed the message exactly
/// once and took it.
pub proof fn law_broadcast_keeps_a_subsequence(
    old_subs: Seq<Subscriber>,
    new_subs: Seq<Subscriber>,
    msg: Seq<char>,
)
    requires
        handed_to_each(old_subs, new_subs, msg),
    ensures
        new_subs.len() <= old_subs.len(),
        forall|k: int| 0 <= k < new_subs.len() ==> #[trigger] took_message(old_subs, new_subs[k], msg),
{
    let after = choose|after: Seq<Subscriber>|
        #![trigger accepted_only(after)]
        after.len() == old_subs.len() && (forall|i: int|
            0 <= i < after.len() ==> #[trigger] handed_once(old_subs[i], after[i], msg))
            && new_subs == accepted_only(after);
    lemma_accepted_only(after);
    assert forall|k: int| 0 <= k < new_subs.len() implies #[trigger] took_message(
        old_subs,
        new_subs[k],
        msg,
    ) by {
        assert(new_subs[k] == accepted_only(after)[k]);
        let i = choose|i: int|
            #![trigger after[i]]
            0 <= i < after.len() && accepted_only(after)[k] == after[i]
                && after[i].attempts().last().accepted;
        assert(handed_once(old_subs[i], after[i], msg));
        let a = after[i].attempts();
        assert(a.last() == (Attempt { message: msg, accepted: true }));
        assert(a =~= old_subs[i].attempts().push((Attempt { message: msg, accepted: true })));
    }
}

/// A subscriber whose client takes the message stays subscribed: when every
/// attempt was taken, all subscribers stay, in their order.
pub proof fn law_broadcast_keeps_live_subscribers(after: Seq<Subscriber>)
    requires
        forall|i: int| 0 <= i < after.len() ==> (#[trigger] after[i]).attempts().last().accepted,
    ensures
        accepted_only(after) == after,
    decreases after.len(),
{
    if after.len() > 0 {
        let d = after.drop_last();
        assert forall|i: int| 0 <= i < d.len() implies (#[trigger] d[i]).attempts().last().accepted by {
            assert(d[i] == after[i]);
        }
        law_broadcast_keeps_live_subscribers(d);
        assert(after[after.len() - 1].attempts().last().accepted);
        assert(d.push(after.last()) =~= after);
    }
}

/// With one subscriber, a broadcast hands it the message exactly once: it
/// stays only when its client took the message, and then its record holds
/// one more message, the broadcast one, taken.
pub proof fn law_single_subscriber_gets_one_delivery(
    s: Subscriber,
    new_subs: Seq<Subscriber>,
    msg: Seq<char>,
)
    requires
        handed_to_each(seq![s], new_subs, msg),
    ensures
        new_subs.len() <= 1,
        new_subs.len() == 1 ==> new_subs[0].channel() == s.channel() && new_subs[0].attempts()
            == s.attempts().push((Attempt { message: msg, accepted: true })),
{
    law_broadcast_keeps_a_subsequence(seq![s], new_subs, msg);
    if new_subs.len() == 1 {
        assert(took_message(seq![s], new_subs[0], msg));
        assert(seq![s][0] == s);
    }
}

} // verus!
