use vstd::prelude::*;

use crate::entry::ScheduledJob;
use crate::schedule::{CronSchedule, scheduled_after};
use crate::time::{UtcOffset, MAX_CLOCK_MILLIS, clock_now_millis};

verus! {

/// A job of the asynchronous scheduler: always recurring, under a cron
/// schedule. `run` is what the caller wants done (such as an asynchronous
/// task to spawn) when the job is due.
#[derive(Clone, Debug)]
pub struct AsyncEntry<J> {
    /// The identifier that the scheduler gave the job.
    pub id: usize,
    /// The cron schedule of the job.
    pub schedule: CronSchedule,
    /// The next run time, in milliseconds since the epoch, if there is one.
    pub next: Option<i64>,
    /// What to run.
    pub run: J,
}

impl<J> ScheduledJob for AsyncEntry<J> {
    open spec fn job_id(&self) -> usize {
        self.id
    }

    open spec fn next_run(&self) -> Option<i64> {
        self.next
    }

    fn identifier(&self) -> (id: usize) {
        self.id
    }

    fn next_run_time(&self) -> (next: Option<i64>) {
        self.next
    }
}

impl<J> AsyncEntry<J> {
    /// The schedule's next fire time after `after_ms` in the zone `tz`.
    pub open spec fn upcoming_after(&self, tz: UtcOffset, after_ms: i64) -> Option<i64> {
        scheduled_after(self.schedule@, tz@, after_ms)
    }

    /// The same job with the next run time `next`.
    pub open spec fn with_next(self, next: Option<i64>) -> AsyncEntry<J> {
        AsyncEntry { id: self.id, schedule: self.schedule, next, run: self.run }
    }

    /// The next fire time strictly after `after_ms` in the zone `tz`.
    pub fn get_next_after(&self, tz: UtcOffset, after_ms: i64) -> (next: Option<i64>)
        ensures
            next == self.upcoming_after(tz, after_ms),
            next matches Some(t) ==> after_ms < t,
    {
        self.schedule.next_after(tz, after_ms)
    }

    /// The next fire time after the present instant, read from the system
    /// clock, in the zone `tz`.
    pub fn get_next(&self, tz: UtcOffset) -> (next: Option<i64>)
        ensures
            exists|now: i64| 0 <= now <= MAX_CLOCK_MILLIS && next == self.upcoming_after(tz, now) && (next matches Some(t) ==> now < t),
    {
        let now = clock_now_millis();
        self.get_next_after(tz, now)
    }
}

} // verus!
