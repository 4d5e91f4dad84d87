//! The job scheduler: one repeating timer for each source. The timers run
//! outside; the scheduler decides, at each tick and at the end of each
//! cycle, what becomes of the source's job.

use crate::domain::error::FetchError;
use crate::domain::models::{Cycle, Source, SOURCE_COUNT};
use vstd::prelude::*;

verus! {

/// Whether a job's cycle is under way.
#[derive(Clone, Copy, Debug, PartialEq, Eq, Structural)]
pub enum JobState {
    Idle,
    Running,
}

/// How the last cycle of a job ended.
#[derive(Clone, Copy, Debug, PartialEq, Eq, Structural)]
pub enum LastCycle {
    /// No cycle has ended yet.
    Never,
    Stored,
    Skipped,
    Failed,
}

/// The job of one source.
#[derive(Clone, Copy, Debug, PartialEq, Eq, Structural)]
pub struct Job {
    pub source: Source,
    /// Seconds between two ticks; 0 disables the job.
    pub period: u64,
    pub state: JobState,
    pub last: LastCycle,
}

/// The scheduler's state: whether it was started, and the job of each
/// source, in the order of the sources.
pub struct Schedule {
    pub started: bool,
    pub jobs: Seq<Job>,
}

/// How a cycle's end is remembered.
pub open spec fn remembered(outcome: Result<Cycle, FetchError>) -> LastCycle {
    match outcome {
        Ok(Cycle::Stored { .. }) => LastCycle::Stored,
        Ok(Cycle::Skipped) => LastCycle::Skipped,
        Err(_) => LastCycle::Failed,
    }
}

/// There is one job for each source, at the source's place.
pub open spec fn schedule_wf(s: Schedule) -> bool {
    &&& s.jobs.len() == SOURCE_COUNT
    &&& forall|i: int| 0 <= i < s.jobs.len() ==> (#[trigger] s.jobs[i]).source.spec_index() == i
}

/// The job of a source.
pub open spec fn job_of(s: Schedule, source: Source) -> Job {
    s.jobs[source.spec_index()]
}

/// Whether a tick of a source's timer starts a cycle: the scheduler is
/// started, the job is enabled, and no cycle of the source is under way.
pub open spec fn tick_starts(s: Schedule, source: Source) -> bool {
    s.started && job_of(s, source).period > 0 && job_of(s, source).state == JobState::Idle
}

/// The schedule after a tick of a source's timer.
pub open spec fn ticked(s: Schedule, source: Source) -> Schedule {
    if tick_starts(s, source) {
        Schedule {
            started: s.started,
            jobs: s.jobs.update(
                source.spec_index(),
                Job { state: JobState::Running, ..job_of(s, source) },
            ),
        }
    } else {
        s
    }
}

/// The schedule after a cycle of a source ended. Whatever the outcome, the
/// job is idle again and keeps its period: the next tick is the retry.
pub open spec fn finished(s: Schedule, source: Source, outcome: Result<Cycle, FetchError>) -> Schedule {
    if job_of(s, source).state == JobState::Running {
        Schedule {
            started: s.started,
            jobs: s.jobs.update(
                source.spec_index(),
                Job { state: JobState::Idle, last: remembered(outcome), ..job_of(s, source) },
            ),
        }
    } else {
        s
    }
}

/// The timers that a started scheduler runs: the enabled jobs among the
/// first `n`, each with its period, in the order of the sources.
pub open spec fn timers(jobs: Seq<Job>, n: int) -> Seq<(Source, u64)>
    decreases n,
{
    if n <= 0 {
        Seq::empty()
    } else if jobs[n - 1].period > 0 {
        timers(jobs, n - 1).push((jobs[n - 1].source, jobs[n - 1].period))
    } else {
        timers(jobs, n - 1)
    }
}

/// A job that has not run yet.
pub open spec fn fresh_job(source: Source, period: u64) -> Job {
    Job { source, period, state: JobState::Idle, last: LastCycle::Never }
}

/// The jobs of a new scheduler, in the order of the sources. The two
/// solar-event feeds share one period.
pub open spec fn fresh_jobs(
    every_iss: u64,
    every_osdr: u64,
    every_apod: u64,
    every_neo: u64,
    every_donki: u64,
    every_spacex: u64,
) -> Seq<Job> {
    seq![
        fresh_job(Source::Iss, every_iss),
        fresh_job(Source::Apod, every_apod),
        fresh_job(Source::Neo, every_neo),
        fresh_job(Source::Flr, every_donki),
        fresh_job(Source::Cme, every_donki),
        fresh_job(Source::Spacex, every_spacex),
        fresh_job(Source::Osdr, every_osdr),
    ]
}

/// A tick and the end of a cycle touch the job of their source only: the
/// job of every other source is as it was, whatever the outcome, and so is
/// whether its next tick starts a cycle.
pub proof fn lemma_jobs_are_isolated(
    s: Schedule,
    a: Source,
    b: Source,
    outcome: Result<Cycle, FetchError>,
)
    requires
        schedule_wf(s),
        a != b,
    ensures
        job_of(finished(s, a, outcome), b) == job_of(s, b),
        job_of(ticked(s, a), b) == job_of(s, b),
        tick_starts(finished(s, a, outcome), b) == tick_starts(s, b),
        tick_starts(ticked(s, a), b) == tick_starts(s, b),
        schedule_wf(finished(s, a, outcome)),
        schedule_wf(ticked(s, a)),
{
    assert(a.spec_index() != b.spec_index());
}

/// A job that fails keeps ticking: after a cycle that failed, the next tick
/// of the same source starts a cycle again, as after one that succeeded.
pub proof fn lemma_failure_keeps_the_timer(s: Schedule, a: Source, error: FetchError)
    requires
        schedule_wf(s),
        s.started,
        job_of(s, a).period > 0,
        job_of(s, a).state == JobState::Running,
    ensures
        job_of(finished(s, a, Err(error)), a).period == job_of(s, a).period,
        job_of(finished(s, a, Err(error)), a).last == LastCycle::Failed,
        tick_starts(finished(s, a, Err(error)), a),
{
}

/// The cycles of one source never overlap: once a tick has started a cycle,
/// no further tick starts another until that cycle has ended.
pub proof fn lemma_no_overlap(s: Schedule, a: Source)
    requires
        schedule_wf(s),
        tick_starts(s, a),
    ensures
        job_of(ticked(s, a), a).state == JobState::Running,
        !tick_starts(ticked(s, a), a),
        ticked(ticked(s, a), a) == ticked(s, a),
{
}

/// A job with period 0 never starts a cycle.
pub proof fn lemma_zero_period_is_disabled(s: Schedule, a: Source)
    requires
        schedule_wf(s),
        job_of(s, a).period == 0,
    ensures
        !tick_starts(s, a),
        ticked(s, a) == s,
{
}

/// The job scheduler.
pub struct JobService {
    started: bool,
    jobs: Vec<Job>,
}

impl View for JobService {
    type V = Schedule;

    closed spec fn view(&self) -> Schedule {
        Schedule { started: self.started, jobs: self.jobs@ }
    }
}

impl JobService {
    /// Whether the scheduler is well formed.
    pub open spec fn wf(&self) -> bool {
        schedule_wf(self@)
    }

    /// A scheduler that is not started yet, with the period of each source
    /// in seconds; the two solar-event feeds share one. Every job is idle,
    /// and none has run.
    pub fn new(
        every_iss: u64,
        every_osdr: u64,
        every_apod: u64,
        every_neo: u64,
        every_donki: u64,
        every_spacex: u64,
    ) -> (out: JobService)
        ensures
            out.wf(),
            !out@.started,
            out@.jobs == fresh_jobs(
                every_iss,
                every_osdr,
                every_apod,
                every_neo,
                every_donki,
                every_spacex,
            ),
    {
        let mut jobs: Vec<Job> = Vec::new();
        jobs.push(JobService::fresh(Source::Iss, every_iss));
        jobs.push(JobService::fresh(Source::Apod, every_apod));
        jobs.push(JobService::fresh(Source::Neo, every_neo));
        jobs.push(JobService::fresh(Source::Flr, every_donki));
        jobs.push(JobService::fresh(Source::Cme, every_donki));
        jobs.push(JobService::fresh(Source::Spacex, every_spacex));
        jobs.push(JobService::fresh(Source::Osdr, every_osdr));
        assert(jobs@ =~= fresh_jobs(
            every_iss,
            every_osdr,
            every_apod,
            every_neo,
            every_donki,
            every_spacex,
        ));
        JobService { started: false, jobs }
    }

    fn fresh(source: Source, period: u64) -> (out: Job)
        ensures
            out == fresh_job(source, period),
    {
        Job { source, period, state: JobState::Idle, last: LastCycle::Never }
    }

    /// Starts the scheduler and returns the timers to run: one for each
    /// enabled job, with its period in seconds. Jobs, and cycles under way,
    /// are as they were.
    pub fn spawn_all_jobs(&mut self) -> (out: Vec<(Source, u64)>)
        requires
            old(self).wf(),
        ensures
            final(self).wf(),
            final(self)@.started,
            final(self)@.jobs == old(self)@.jobs,
            out@ == timers(old(self)@.jobs, SOURCE_COUNT as int),
    {
        self.started = true;
        let mut out: Vec<(Source, u64)> = Vec::new();
        let mut i: usize = 0;
        while i < self.jobs.len()
            invariant
                i <= self.jobs@.len(),
                self.jobs@.len() == SOURCE_COUNT,
                out@ == timers(self.jobs@, i as int),
            decreases self.jobs@.len() - i,
        {
            let job = self.jobs[i];
            if job.period > 0 {
                out.push((job.source, job.period));
            }
            i += 1;
        }
        out
    }

    /// Stops the scheduler: from now on no tick starts a cycle. A cycle
    /// under way is left to end.
    pub fn stop(&mut self)
        requires
            old(self).wf(),
        ensures
            final(self).wf(),
            !final(self)@.started,
            final(self)@.jobs == old(self)@.jobs,
    {
        self.started = false;
    }

    /// A tick of a source's timer. Returns whether a cycle is to start now;
    /// where it is, the job counts as running until `finish` is called.
    pub fn tick(&mut self, source: Source) -> (out: bool)
        requires
            old(self).wf(),
        ensures
            final(self).wf(),
            out == tick_starts(old(self)@, source),
            final(self)@ == ticked(old(self)@, source),
    {
        let i = source.index();
        let job = self.jobs[i];
        let starts = self.started && job.period > 0 && match job.state {
            JobState::Idle => true,
            JobState::Running => false,
        };
        if starts {
            self.jobs.set(
                i,
                Job { source: job.source, period: job.period, state: JobState::Running, last: job.last },
            );
        }
        starts
    }

    /// The end of a source's cycle, with its outcome. A failure is
    /// remembered and goes no further: the job is idle again, and no other
    /// job is touched.
    pub fn finish(&mut self, source: Source, outcome: &Result<Cycle, FetchError>)
        requires
            old(self).wf(),
        ensures
            final(self).wf(),
            final(self)@ == finished(old(self)@, source, *outcome),
    {
        let i = source.index();
        let job = self.jobs[i];
        let running = match job.state {
            JobState::Running => true,
            JobState::Idle => false,
        };
        if running {
            let last = match outcome {
                Ok(Cycle::Stored { .. }) => LastCycle::Stored,
                Ok(Cycle::Skipped) => LastCycle::Skipped,
                Err(_) => LastCycle::Failed,
            };
            self.jobs.set(
                i,
                Job { source: job.source, period: job.period, state: JobState::Idle, last },
            );
        }
    }

    /// The job of a source.
    pub fn job(&self, source: Source) -> (out: Job)
        requires
            self.wf(),
        ensures
            out == job_of(self@, source),
            out.source == source,
    {
        self.jobs[source.index()]
    }

    /// Whether the scheduler is started.
    pub fn is_started(&self) -> (out: bool)
        ensures
            out == self@.started,
    {
        self.started
    }
}

} // verus!
