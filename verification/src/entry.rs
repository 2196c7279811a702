use vstd::prelude::*;

use crate::schedule::{CronSchedule, scheduled_after};
use crate::time::{UtcOffset, MAX_CLOCK_MILLIS, clock_now_millis};

verus! {

/// Whether a job whose next run time is `next` is due at the instant `now`:
/// it has a run time and that time is not later than `now`.
pub open spec fn is_due(next: Option<i64>, now: i64) -> bool {
    next matches Some(t) && t <= now
}

/// The order in which the scheduler sorts run times: a missing run time
/// comes first, run times in increasing order after it.
pub open spec fn next_le(a: Option<i64>, b: Option<i64>) -> bool {
    match a {
        None => true,
        Some(x) => match b {
            None => false,
            Some(y) => x <= y,
        },
    }
}

/// A job of the scheduler.
///
/// A job with a cron schedule runs again and again; a job without one runs
/// once, at `next`. `run` is what the caller wants done when the job is due.
#[derive(Clone, Debug)]
pub struct Entry<J> {
    /// The identifier that the scheduler gave the job.
    pub id: usize,
    /// The next run time, in milliseconds since the epoch, if there is one.
    pub next: Option<i64>,
    /// What to run.
    pub run: J,
    /// The cron schedule of a recurring job; `None` for a one-time job.
    pub schedule: Option<CronSchedule>,
}

/// What the scheduler's table operations read of a job: its identifier
/// and its next run time.
pub trait ScheduledJob {
    /// The job's identifier.
    spec fn job_id(&self) -> usize;

    /// The job's next run time, if it has one.
    spec fn next_run(&self) -> Option<i64>;

    /// The job's identifier.
    fn identifier(&self) -> (id: usize)
        ensures
            id == self.job_id(),
    ;

    /// The job's next run time.
    fn next_run_time(&self) -> (next: Option<i64>)
        ensures
            next == self.next_run(),
    ;
}

impl<J> ScheduledJob for Entry<J> {
    open spec fn job_id(&self) -> usize {
        self.id
    }

    open spec fn next_run(&self) -> Option<i64> {
        self.next
    }

    fn identifier(&self) -> (id: usize) {
        self.id
    }

    fn next_run_time(&self) -> (next: Option<i64>) {
        self.next
    }
}

impl<J> Entry<J> {
    /// The same job with the next run time `next`.
    pub open spec fn with_next(self, next: Option<i64>) -> Entry<J> {
        Entry { id: self.id, next, run: self.run, schedule: self.schedule }
    }

    /// The next run time after `after_ms` in the zone `tz`: the schedule's
    /// next fire time for a recurring job, none for a one-time job.
    pub open spec fn upcoming_after(&self, tz: UtcOffset, after_ms: i64) -> Option<i64> {
        match self.schedule {
            Some(s) => scheduled_after(s@, tz@, after_ms),
            None => None,
        }
    }

    /// Whether the job runs only once.
    pub fn is_once(&self) -> (once: bool)
        ensures
            once == (self.schedule is None),
    {
        self.schedule.is_none()
    }

    /// The next run time strictly after `after_ms` in the zone `tz`.
    pub fn schedule_next_after(&self, tz: UtcOffset, after_ms: i64) -> (next: Option<i64>)
        ensures
            next == self.upcoming_after(tz, after_ms),
            next matches Some(t) ==> after_ms < t,
    {
        match &self.schedule {
            Some(s) => s.next_after(tz, after_ms),
            None => None,
        }
    }

    /// The next run time after the present instant, read from the system
    /// clock, in the zone `tz`.
    pub fn schedule_next(&self, tz: UtcOffset) -> (next: Option<i64>)
        ensures
            exists|now: i64| 0 <= now <= MAX_CLOCK_MILLIS && next == self.upcoming_after(tz, now) && (next matches Some(t) ==> now < t),
    {
        let now = clock_now_millis();
        self.schedule_next_after(tz, now)
    }
}

} // verus!
