//! A cron job scheduler whose scheduling decisions are verified.
//!
//! Cron expressions have seven fields with second precision
//! (`sec min hour day month weekday year`; the year may be left out).
//! Expressions are parsed and explored by the `cron` crate; everything the
//! scheduler decides with the results (job identifiers, which jobs are due,
//! when a job runs next, how long to wait, which jobs leave the table) is
//! stated in contracts and proved here.
//!
//! Instants are milliseconds since the Unix epoch (`i64`), time zones are
//! fixed offsets from UTC ([`UtcOffset`]), and the payload of a job is any
//! value `J` that the caller chooses (a closure, a task, an identifier).
//! Running the payloads, timers and threads belong to the caller.

mod error;
mod time;
mod schedule;
mod entry;
mod table;
mod sync_cron;
mod async_entry;
mod async_cron;
mod laws;

pub use crate::error::{CronError, cron_error_text};
pub use crate::time::{UtcOffset, Delay, valid_offset, delay_millis_ceil, delay_nanos, chrono_accepts_delay, MAX_CLOCK_MILLIS, ClockReading, next_serial};
pub use crate::sync_cron::{Cron, appended, after_firing, due_runs, wait_millis, capped_wait, lemma_after_firing_ids};
pub use crate::table::{ids_fresh, has_id, issued_id, id_step, earliest_next, sorted_by_next, reorders, stable_sort_of, lemma_earliest_next};
pub use crate::async_entry::AsyncEntry;
pub use crate::async_cron::{AsyncCron, async_due_runs, async_after_firing};
pub use crate::laws::{law_next_id_is_unused, law_async_next_id_is_unused, law_removed_job_stays_removed, law_async_removed_job_stays_removed, law_due_job_runs, law_once_job_runs_once, law_firing_twice_changes_nothing, law_runs_come_from_due_jobs, law_async_runs_come_from_due_jobs, law_job_without_run_time_stays, run_of_due_job, run_of_due_async_job, law_async_nothing_due_runs_nothing, lemma_no_due_fixed, law_no_wait_iff_due, law_delayed_job_due_when_delay_over, law_ids_strictly_increase, law_async_firing_reschedules_in_zone, law_firing_reschedules_in_zone, law_fire_time_not_due_until_after, law_delayed_job_not_due_before_reading_plus_delay, law_rezoned_jobs_not_due_at_switch, law_async_rezoned_jobs_not_due_at_switch};
pub use crate::entry::{Entry, ScheduledJob, is_due, next_le};
pub use crate::schedule::{CronSchedule, cron_expression_accepted, cron_next_fire, scheduled_after, law_fire_time_uses_full_offset};

use vstd::prelude::*;

verus! {

/// Results of the fallible operations of this crate.
pub type Result<T> = std::result::Result<T, CronError>;

/// Longest wait, in seconds, of the scheduler loop when no job has an
/// upcoming run time.
pub const MAX_WAIT_SECONDS: u64 = 100000000;

/// Longest wait, in milliseconds, of the scheduler loop between two looks
/// at the zone's offset.
pub const OFFSET_CHECK_MILLIS: u64 = 60_000;

} // verus!
