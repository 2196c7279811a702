//! Properties of the scheduler that span several operations or instants.

use vstd::prelude::*;

use crate::async_cron::{AsyncCron, async_due_runs, async_after_firing};
use crate::async_entry::AsyncEntry;
use crate::entry::{Entry, ScheduledJob, is_due};
use crate::sync_cron::{Cron, after_firing, due_runs, wait_millis, lemma_after_firing_ids};
use crate::schedule::scheduled_after;
use crate::table::{has_id, ids_fresh, earliest_next, lemma_earliest_next, id_step};
use crate::time::{UtcOffset, Delay, ClockReading, MAX_CLOCK_MILLIS, delay_nanos};
use crate::error::CronError;
use crate::MAX_WAIT_SECONDS;

verus! {

/// The identifier that the next added job gets is not the identifier of any
/// job in the scheduler, so every added job gets an identifier of its own.
pub proof fn law_next_id_is_unused<J>(cron: Cron<J>)
    requires
        cron.wf(),
    ensures
        !has_id(cron.entries(), cron.next_id()),
{
}

/// The asynchronous scheduler, too, never gives out an identifier in use.
pub proof fn law_async_next_id_is_unused<J>(cron: AsyncCron<J>)
    requires
        cron.wf(),
    ensures
        !has_id(cron.entries(), cron.next_id()),
{
}

/// The asynchronous scheduler runs nothing when no job is due, so handling
/// the due jobs a second time at the same instant runs nothing.
pub proof fn law_async_nothing_due_runs_nothing<J>(entries: Seq<AsyncEntry<J>>, now: i64)
    requires
        forall|k: int| 0 <= k < entries.len() ==> !is_due(#[trigger] entries[k].next, now),
    ensures
        async_due_runs(entries, now).len() == 0,
    decreases entries.len(),
{
    if entries.len() > 0 {
        let rest = entries.drop_last();
        assert forall|k: int| 0 <= k < rest.len() implies !is_due(#[trigger] rest[k].next, now) by {
            assert(rest[k] == entries[k]);
        }
        law_async_nothing_due_runs_nothing(rest, now);
        assert(entries[entries.len() - 1] == entries.last());
    }
}

/// Handling due jobs never brings back a job: an identifier that no job has
/// stays absent, so a removed job is never run again.
pub proof fn law_removed_job_stays_removed<J>(entries: Seq<Entry<J>>, tz: UtcOffset, now: i64, id: usize)
    requires
        !has_id(entries, id),
    ensures
        !has_id(after_firing(entries, tz, now), id),
{
    lemma_after_firing_ids(entries, tz, now, 0);
    let out = after_firing(entries, tz, now);
    if has_id(out, id) {
        let k = choose|k: int| 0 <= k < out.len() && #[trigger] out[k].job_id() == id;
        assert(has_id(entries, out[k].id));
    }
}

/// The asynchronous scheduler, too, never brings back a job when it handles
/// due jobs: an identifier that no job has stays absent, so a removed job is
/// never run again.
pub proof fn law_async_removed_job_stays_removed<J>(entries: Seq<AsyncEntry<J>>, tz: UtcOffset, now: i64, id: usize)
    requires
        !has_id(entries, id),
    ensures
        !has_id(async_after_firing(entries, tz, now), id),
{
    let out = async_after_firing(entries, tz, now);
    if has_id(out, id) {
        let k = choose|k: int| 0 <= k < out.len() && #[trigger] out[k].job_id() == id;
        assert(entries[k].job_id() == id);
    }
}

/// A job that is due is run: its payload is among the runs of the due jobs.
pub proof fn law_due_job_runs<J>(entries: Seq<Entry<J>>, now: i64, i: int)
    requires
        0 <= i < entries.len(),
        is_due(entries[i].next, now),
    ensures
        due_runs(entries, now).contains(entries[i].run),
    decreases entries.len(),
{
    let n = entries.len() as int;
    let rest = entries.drop_last();
    if i == n - 1 {
        assert(due_runs(entries, now).last() == entries[i].run);
        assert(due_runs(entries, now)[due_runs(entries, now).len() - 1] == entries[i].run);
    } else {
        assert(entries[i] == rest[i]);
        law_due_job_runs(rest, now, i);
        let runs = due_runs(rest, now);
        let j = choose|j: int| 0 <= j < runs.len() && runs[j] == entries[i].run;
        if is_due(entries.last().next, now) {
            assert(due_runs(entries, now)[j] == runs[j]);
        }
    }
}

/// Whether `run` is the run of some job of `entries` that is due at `now`.
pub open spec fn run_of_due_job<J>(entries: Seq<Entry<J>>, now: i64, run: J) -> bool {
    exists|i: int| 0 <= i < entries.len() && is_due(entries[i].next, now) && #[trigger] entries[i].run == run
}

/// Every run that handling the due jobs hands out is the run of a job whose
/// run time is not later than `now`: no job is started before its time.
pub proof fn law_runs_come_from_due_jobs<J>(entries: Seq<Entry<J>>, now: i64)
    ensures
        forall|k: int| 0 <= k < due_runs(entries, now).len() ==> run_of_due_job(entries, now, #[trigger] due_runs(entries, now)[k]),
    decreases entries.len(),
{
    if entries.len() > 0 {
        let n = entries.len() as int;
        let rest = entries.drop_last();
        law_runs_come_from_due_jobs(rest, now);
        let runs = due_runs(entries, now);
        let rest_runs = due_runs(rest, now);
        assert forall|k: int| 0 <= k < runs.len() implies run_of_due_job(entries, now, #[trigger] runs[k]) by {
            if k < rest_runs.len() {
                assert(runs[k] == rest_runs[k]);
                assert(run_of_due_job(rest, now, rest_runs[k]));
                let i = choose|i: int| 0 <= i < rest.len() && is_due(rest[i].next, now) && #[trigger] rest[i].run == rest_runs[k];
                assert(entries[i] == rest[i]);
                assert(entries[i].run == runs[k]);
            } else {
                assert(entries[n - 1] == entries.last());
                assert(entries[n - 1].run == runs[k]);
            }
        }
    }
}

/// Whether `run` is the run of some job of `entries` that is due at `now`.
pub open spec fn run_of_due_async_job<J>(entries: Seq<AsyncEntry<J>>, now: i64, run: J) -> bool {
    exists|i: int| 0 <= i < entries.len() && is_due(entries[i].next, now) && #[trigger] entries[i].run == run
}

/// The same for the asynchronous scheduler: every run handed out belongs to
/// a job whose run time is not later than `now`.
pub proof fn law_async_runs_come_from_due_jobs<J>(entries: Seq<AsyncEntry<J>>, now: i64)
    ensures
        forall|k: int| 0 <= k < async_due_runs(entries, now).len() ==> run_of_due_async_job(entries, now, #[trigger] async_due_runs(entries, now)[k]),
    decreases entries.len(),
{
    if entries.len() > 0 {
        let n = entries.len() as int;
        let rest = entries.drop_last();
        law_async_runs_come_from_due_jobs(rest, now);
        let runs = async_due_runs(entries, now);
        let rest_runs = async_due_runs(rest, now);
        assert forall|k: int| 0 <= k < runs.len() implies run_of_due_async_job(entries, now, #[trigger] runs[k]) by {
            if k < rest_runs.len() {
                assert(runs[k] == rest_runs[k]);
                assert(run_of_due_async_job(rest, now, rest_runs[k]));
                let i = choose|i: int| 0 <= i < rest.len() && is_due(rest[i].next, now) && #[trigger] rest[i].run == rest_runs[k];
                assert(entries[i] == rest[i]);
                assert(entries[i].run == runs[k]);
            } else {
                assert(entries[n - 1] == entries.last());
                assert(entries[n - 1].run == runs[k]);
            }
        }
    }
}

/// A job without a run time (a cron schedule with no later fire time) is
/// never due, and handling the due jobs keeps it, unchanged: it never runs
/// and never disturbs the other jobs.
pub proof fn law_job_without_run_time_stays<J>(entries: Seq<Entry<J>>, tz: UtcOffset, now: i64, i: int)
    requires
        0 <= i < entries.len(),
        entries[i].next is None,
    ensures
        !is_due(entries[i].next, now),
        after_firing(entries, tz, now).contains(entries[i]),
    decreases entries.len(),
{
    let n = entries.len() as int;
    let rest = entries.drop_last();
    let out = after_firing(entries, tz, now);
    let kept = after_firing(rest, tz, now);
    if i == n - 1 {
        assert(entries.last() == entries[i]);
        assert(out == kept.push(entries[i]));
        assert(out[out.len() - 1] == entries[i]);
    } else {
        assert(entries[i] == rest[i]);
        law_job_without_run_time_stays(rest, tz, now, i);
        let k = choose|k: int| 0 <= k < kept.len() && kept[k] == entries[i];
        let e = entries.last();
        if !is_due(e.next, now) || e.schedule is Some {
            assert(out[k] == kept[k]);
        } else {
            assert(out == kept);
        }
    }
}

/// A due one-time job leaves the scheduler when the due jobs are handled:
/// it runs once and never again.
pub proof fn law_once_job_runs_once<J>(entries: Seq<Entry<J>>, tz: UtcOffset, now: i64, next_id: usize, i: int)
    requires
        ids_fresh(entries, next_id),
        0 <= i < entries.len(),
        entries[i].schedule is None,
        is_due(entries[i].next, now),
    ensures
        !has_id(after_firing(entries, tz, now), entries[i].id),
    decreases entries.len(),
{
    let n = entries.len() as int;
    let rest = entries.drop_last();
    let id = entries[i].id;
    if i == n - 1 {
        assert(entries.last() == entries[i]);
        assert forall|k: int| 0 <= k < rest.len() implies #[trigger] rest[k].job_id() != id by {
            assert(rest[k] == entries[k]);
            assert(entries[k].job_id() != entries[n - 1].job_id());
        }
        law_removed_job_stays_removed(rest, tz, now, id);
    } else {
        assert(entries[i] == rest[i]);
        assert(ids_fresh(rest, next_id)) by {
            assert forall|k: int| 0 <= k < rest.len() implies #[trigger] rest[k] == entries[k] by {}
        }
        law_once_job_runs_once(rest, tz, now, next_id, i);
        let out = after_firing(entries, tz, now);
        let kept = after_firing(rest, tz, now);
        assert(entries.last().id != id) by {
            assert(entries[n - 1].job_id() != entries[i].job_id());
        }
        if has_id(out, id) {
            let k = choose|k: int| 0 <= k < out.len() && #[trigger] out[k].job_id() == id;
            if k < kept.len() {
                assert(out[k] == kept[k]);
            }
        }
    }
}

/// After the due jobs at `now` have been handled, no job is due at `now`:
/// handling them again runs nothing and changes nothing, so no job runs
/// twice for one instant.
pub proof fn law_firing_twice_changes_nothing<J>(entries: Seq<Entry<J>>, tz: UtcOffset, now: i64)
    ensures
        forall|k: int| 0 <= k < after_firing(entries, tz, now).len() ==> !is_due(#[trigger] after_firing(entries, tz, now)[k].next, now),
        due_runs(after_firing(entries, tz, now), now).len() == 0,
        after_firing(after_firing(entries, tz, now), tz, now) == after_firing(entries, tz, now),
    decreases entries.len(),
{
    if entries.len() > 0 {
        let rest = entries.drop_last();
        law_firing_twice_changes_nothing(rest, tz, now);
        let kept = after_firing(rest, tz, now);
        let out = after_firing(entries, tz, now);
        assert forall|k: int| 0 <= k < out.len() implies !is_due(#[trigger] out[k].next, now) by {
            if k < kept.len() {
                assert(out[k] == kept[k]);
            }
        }
        if out.len() > kept.len() {
            assert(out.drop_last() =~= kept);
            assert(!is_due(out.last().next, now));
        } else {
            assert(out =~= kept);
        }
        lemma_no_due_fixed(out, tz, now);
    } else {
        assert(after_firing(entries, tz, now) =~= Seq::<Entry<J>>::empty());
    }
}

/// When no job is due at `now`, handling the due jobs runs nothing and
/// changes nothing.
pub proof fn lemma_no_due_fixed<J>(entries: Seq<Entry<J>>, tz: UtcOffset, now: i64)
    requires
        forall|k: int| 0 <= k < entries.len() ==> !is_due(#[trigger] entries[k].next, now),
    ensures
        due_runs(entries, now).len() == 0,
        after_firing(entries, tz, now) == entries,
    decreases entries.len(),
{
    if entries.len() > 0 {
        let rest = entries.drop_last();
        assert forall|k: int| 0 <= k < rest.len() implies !is_due(#[trigger] rest[k].next, now) by {
            assert(rest[k] == entries[k]);
        }
        lemma_no_due_fixed(rest, tz, now);
        assert(entries[entries.len() - 1] == entries.last());
        assert(rest.push(entries.last()) =~= entries);
    } else {
        assert(entries =~= Seq::<Entry<J>>::empty());
    }
}

/// The scheduler waits for nothing exactly when some job is due: a job with
/// a run time in the past runs at the next iteration, and otherwise the
/// scheduler sleeps until the earliest run time or for `MAX_WAIT_SECONDS`.
pub proof fn law_no_wait_iff_due<J>(entries: Seq<Entry<J>>, now: i64)
    ensures
        wait_millis(earliest_next(entries), now) == 0 <==> exists|i: int| 0 <= i < entries.len() && is_due(#[trigger] entries[i].next, now),
        earliest_next(entries) is None ==> wait_millis(earliest_next(entries), now) == MAX_WAIT_SECONDS * 1000,
        earliest_next(entries) matches Some(t) ==> (now < t ==> now + wait_millis(earliest_next(entries), now) == t),
{
    lemma_earliest_next(entries);
    if let Some(t) = earliest_next(entries) {
        if t <= now {
            let i = choose|i: int| 0 <= i < entries.len() && #[trigger] entries[i].next_run() == Some(t);
            assert(is_due(entries[i].next, now));
        } else {
            assert forall|i: int| 0 <= i < entries.len() implies !is_due(#[trigger] entries[i].next, now) by {
                assert(entries[i].next_run() == entries[i].next);
            }
        }
    } else {
        assert forall|i: int| 0 <= i < entries.len() implies !is_due(#[trigger] entries[i].next, now) by {
            assert(entries[i].next_run() is None);
        }
    }
}

/// A job added to run once after a delay is due exactly when the delay is
/// over: at an instant `at` (in milliseconds) it is due if and only if `at`
/// is not earlier than the instant of the add plus the delay, counted to the
/// nanosecond. It never runs early, and it runs at the first whole
/// millisecond at which the delay is over.
pub proof fn law_delayed_job_due_when_delay_over<J>(
    before: Cron<J>,
    after: Cron<J>,
    delay: Delay,
    run: J,
    now_ms: i64,
    res: std::result::Result<usize, CronError>,
    at: i64,
)
    requires
        before.delayed_add_outcome(after, delay, run, now_ms, res),
        res is Ok,
    ensures
        is_due(after.entries().last().next, at) <==> at * 1_000_000 >= now_ms * 1_000_000 + delay_nanos(delay@.0, delay@.1),
{
    let nanos = delay@.1 as int;
    let up = (nanos + 999_999) / 1_000_000;
    assert(up * 1_000_000 >= nanos && up * 1_000_000 < nanos + 1_000_000);
}

/// Identifiers handed out by one scheduler strictly increase in the order
/// of the calls. `counters` are the successive values of the scheduler's
/// `next_id()` and `issued[k]` is what the `k`-th operation handed out
/// (`issued_id` of an add's result, `None` for any other operation); every
/// operation of [`Cron`] and [`AsyncCron`] moves the counter as `id_step`
/// says.
pub proof fn law_ids_strictly_increase(counters: Seq<usize>, issued: Seq<Option<usize>>)
    requires
        counters.len() == issued.len() + 1,
        forall|k: int| 0 <= k < issued.len() ==> id_step(counters[k], counters[k + 1], #[trigger] issued[k]),
    ensures
        forall|i: int, j: int|
            #![trigger issued[i], issued[j]]
            0 <= i < j < issued.len() && issued[i] is Some && issued[j] is Some ==> issued[i]->0 < issued[j]->0,
{
    assert forall|i: int, j: int|
        #![trigger issued[i], issued[j]]
        0 <= i < j < issued.len() && issued[i] is Some && issued[j] is Some implies issued[i]->0 < issued[j]->0 by {
        assert(id_step(counters[i], counters[i + 1], issued[i]));
        assert(id_step(counters[j], counters[j + 1], issued[j]));
        lemma_counters_grow(counters, issued, i + 1, j);
    }
}

/// The identifier counter never decreases: `counters[i] <= counters[j]`.
proof fn lemma_counters_grow(counters: Seq<usize>, issued: Seq<Option<usize>>, i: int, j: int)
    requires
        counters.len() == issued.len() + 1,
        forall|k: int| 0 <= k < issued.len() ==> id_step(counters[k], counters[k + 1], #[trigger] issued[k]),
        0 <= i <= j < counters.len(),
    ensures
        counters[i] <= counters[j],
    decreases j - i,
{
    if i < j {
        lemma_counters_grow(counters, issued, i, j - 1);
        assert(id_step(counters[j - 1], counters[j], issued[j - 1]));
    }
}

/// Handling due jobs in the asynchronous scheduler reads every schedule in
/// the scheduler's zone: a job due at `now` gets as its next run its
/// expression's next fire time after `now` in the zone `tz`, and keeps its
/// identifier, schedule and payload; a job not due stays as it is.
pub proof fn law_async_firing_reschedules_in_zone<J>(entries: Seq<AsyncEntry<J>>, tz: UtcOffset, now: i64, k: int)
    requires
        0 <= k < entries.len(),
    ensures
        async_after_firing(entries, tz, now).len() == entries.len(),
        is_due(entries[k].next, now) ==> {
            let e = async_after_firing(entries, tz, now)[k];
            &&& e.next == scheduled_after(entries[k].schedule@, tz@, now)
            &&& e.id == entries[k].id
            &&& e.schedule == entries[k].schedule
            &&& e.run == entries[k].run
        },
        !is_due(entries[k].next, now) ==> async_after_firing(entries, tz, now)[k] == entries[k],
{
}

/// Handling due jobs in the synchronous scheduler reads every schedule in
/// the scheduler's zone: a due recurring job stays, with its identifier and
/// payload, and gets as its next run its expression's next fire time after
/// `now` in the zone `tz`.
pub proof fn law_firing_reschedules_in_zone<J>(entries: Seq<Entry<J>>, tz: UtcOffset, now: i64, i: int)
    requires
        0 <= i < entries.len(),
        entries[i].schedule is Some,
        is_due(entries[i].next, now),
    ensures
        exists|k: int|
            0 <= k < after_firing(entries, tz, now).len() && #[trigger] after_firing(entries, tz, now)[k].id == entries[i].id
                && after_firing(entries, tz, now)[k].run == entries[i].run
                && after_firing(entries, tz, now)[k].next == scheduled_after(entries[i].schedule->0@, tz@, now),
    decreases entries.len(),
{
    let n = entries.len() as int;
    let rest = entries.drop_last();
    let out = after_firing(entries, tz, now);
    let kept = after_firing(rest, tz, now);
    if i == n - 1 {
        assert(entries.last() == entries[i]);
        assert(out[out.len() - 1].id == entries[i].id);
    } else {
        assert(entries[i] == rest[i]);
        law_firing_reschedules_in_zone(rest, tz, now, i);
        let k = choose|k: int|
            0 <= k < kept.len() && #[trigger] kept[k].id == rest[i].id && kept[k].run == rest[i].run
                && kept[k].next == scheduled_after(rest[i].schedule->0@, tz@, now);
        let e = entries.last();
        if !is_due(e.next, now) || e.schedule is Some {
            assert(out[k] == kept[k]);
        } else {
            assert(out == kept);
        }
    }
}

/// A fire time is never due at or before the instant it was looked up
/// after: a recurring job whose first run was looked up from a clock
/// reading (as `add_fn` does) is not due at that reading, nor at any
/// earlier instant.
pub proof fn law_fire_time_not_due_until_after(expression: Seq<char>, offset_secs: i32, after_ms: i64, at: i64)
    requires
        at <= after_ms,
    ensures
        !is_due(scheduled_after(expression, offset_secs, after_ms), at),
{
}

/// A job added to run once after `delay` from the clock reading `r` (as
/// `Cron::add_fn_after` does) is not due at any instant earlier than the
/// reading plus the delay, counted to the nanosecond, and it is due from the
/// first whole millisecond after the reading, rounded up, plus the delay.
pub proof fn law_delayed_job_not_due_before_reading_plus_delay<J>(
    before: Cron<J>,
    after: Cron<J>,
    delay: Delay,
    run: J,
    r: ClockReading,
    res: std::result::Result<usize, CronError>,
    at: i64,
)
    requires
        0 <= r.instant_millis() <= MAX_CLOCK_MILLIS,
        r.extra_nanos() < 1_000_000,
        before.delayed_add_outcome(after, delay, run, r.instant_millis_ceil(), res),
        res is Ok,
    ensures
        at * 1_000_000 < r.instant_nanos() + delay_nanos(delay@.0, delay@.1) ==> !is_due(after.entries().last().next, at),
        at * 1_000_000 >= r.instant_millis_ceil() * 1_000_000 + delay_nanos(delay@.0, delay@.1) ==> is_due(after.entries().last().next, at),
{
    law_delayed_job_due_when_delay_over(before, after, delay, run, r.instant_millis_ceil(), res, at);
    assert(r.instant_millis_ceil() * 1_000_000 >= r.instant_nanos());
}

/// After a change of zone at `now` (as `Cron::set_timezone` does with its
/// clock reading), every recurring job's next run is its expression's next
/// fire time after `now` read in the new zone, so no recurring job is due at
/// `now` or before; a one-time job keeps its instant.
pub proof fn law_rezoned_jobs_not_due_at_switch<J>(cron: Cron<J>, tz: UtcOffset, now: i64, k: int, at: i64)
    requires
        0 <= k < cron.entries().len(),
    ensures
        cron.rezoned(tz, now).len() == cron.entries().len(),
        cron.entries()[k].schedule matches Some(s) ==> cron.rezoned(tz, now)[k].next == scheduled_after(s@, tz@, now)
            && cron.rezoned(tz, now)[k].id == cron.entries()[k].id,
        cron.entries()[k].schedule is Some && at <= now ==> !is_due(cron.rezoned(tz, now)[k].next, at),
        cron.entries()[k].schedule is None ==> cron.rezoned(tz, now)[k] == cron.entries()[k],
{
}

/// The same for the asynchronous scheduler: after a change of zone at `now`
/// every job's next run is its expression's next fire time after `now` in
/// the new zone, and no job is due at `now` or before.
pub proof fn law_async_rezoned_jobs_not_due_at_switch<J>(cron: AsyncCron<J>, tz: UtcOffset, now: i64, k: int, at: i64)
    requires
        0 <= k < cron.entries().len(),
    ensures
        cron.rezoned(tz, now).len() == cron.entries().len(),
        cron.rezoned(tz, now)[k].next == scheduled_after(cron.entries()[k].schedule@, tz@, now),
        cron.rezoned(tz, now)[k].id == cron.entries()[k].id,
        at <= now ==> !is_due(cron.rezoned(tz, now)[k].next, at),
{
}

} // verus!
