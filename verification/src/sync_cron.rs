use vstd::prelude::*;

use crate::entry::{Entry, is_due};
use crate::entry::ScheduledJob;
use crate::table::{ids_fresh, has_id, issued_id, id_step, remove_job, earliest_next, find_earliest_next, sort_jobs_by_next, stable_sort_of, reorders, lemma_reorder_keeps_ids_fresh};
use crate::{MAX_WAIT_SECONDS, OFFSET_CHECK_MILLIS};
use crate::error::CronError;
use crate::schedule::{CronSchedule, cron_expression_accepted, scheduled_after};
use crate::time::{UtcOffset, Delay, ClockReading, MAX_CLOCK_MILLIS, chrono_accepts_delay, chrono_delay, delay_millis_ceil, next_serial, following_serial};

verus! {

/// `entries` with one job appended.
pub open spec fn appended<J>(
    old_entries: Seq<Entry<J>>,
    new_entries: Seq<Entry<J>>,
    id: usize,
    next: Option<i64>,
    run: J,
) -> bool {
    &&& new_entries.len() == old_entries.len() + 1
    &&& new_entries.drop_last() == old_entries
    &&& new_entries.last().id == id
    &&& new_entries.last().next == next
    &&& new_entries.last().run == run
}

/// The jobs left after the jobs due at `now` have been handled: a due
/// one-time job leaves, a due recurring job gets its next fire time after
/// `now`, and every other job stays as it is, all in the same order.
pub open spec fn after_firing<J>(entries: Seq<Entry<J>>, tz: UtcOffset, now: i64) -> Seq<Entry<J>>
    decreases entries.len(),
{
    if entries.len() == 0 {
        Seq::empty()
    } else {
        let kept = after_firing(entries.drop_last(), tz, now);
        let e = entries.last();
        if !is_due(e.next, now) {
            kept.push(e)
        } else if e.schedule is None {
            kept
        } else {
            kept.push(e.with_next(e.upcoming_after(tz, now)))
        }
    }
}

/// What the jobs due at `now` run, in the order of the jobs.
pub open spec fn due_runs<J>(entries: Seq<Entry<J>>, now: i64) -> Seq<J>
    decreases entries.len(),
{
    if entries.len() == 0 {
        Seq::empty()
    } else {
        let runs = due_runs(entries.drop_last(), now);
        if is_due(entries.last().next, now) {
            runs.push(entries.last().run)
        } else {
            runs
        }
    }
}

/// How long, in milliseconds, the scheduler waits when the earliest run
/// time is `earliest`: until that time, nothing when it has come, and
/// `MAX_WAIT_SECONDS` when no job has a run time.
pub open spec fn wait_millis(earliest: Option<i64>, now: i64) -> int {
    match earliest {
        None => MAX_WAIT_SECONDS * 1000,
        Some(t) => if t <= now { 0 } else { t - now },
    }
}

/// A wait cut to at most `OFFSET_CHECK_MILLIS` milliseconds.
pub open spec fn capped_wait(wait: int) -> int {
    if wait < OFFSET_CHECK_MILLIS { wait } else { OFFSET_CHECK_MILLIS as int }
}

/// Every job left after firing is one of the jobs before it, with the same
/// identifier; identifiers stay distinct and below `next_id`.
pub proof fn lemma_after_firing_ids<J>(entries: Seq<Entry<J>>, tz: UtcOffset, now: i64, next_id: usize)
    ensures
        after_firing(entries, tz, now).len() <= entries.len(),
        forall|k: int| 0 <= k < after_firing(entries, tz, now).len() ==> has_id(entries, #[trigger] after_firing(entries, tz, now)[k].id),
        ids_fresh(entries, next_id) ==> ids_fresh(after_firing(entries, tz, now), next_id),
    decreases entries.len(),
{
    if entries.len() > 0 {
        let n = entries.len() as int;
        let rest = entries.drop_last();
        let kept = after_firing(rest, tz, now);
        let out = after_firing(entries, tz, now);
        lemma_after_firing_ids(rest, tz, now, next_id);
        assert forall|i: int| 0 <= i < n - 1 implies #[trigger] entries[i] == rest[i] by {}
        assert(entries[n - 1] == entries.last());
        assert forall|k: int| 0 <= k < kept.len() implies has_id(entries, #[trigger] kept[k].id) by {
            let j = choose|j: int| 0 <= j < rest.len() && #[trigger] rest[j].job_id() == kept[k].id;
            assert(entries[j].job_id() == kept[k].id);
        }
        assert forall|k: int| 0 <= k < out.len() implies has_id(entries, #[trigger] out[k].id) by {
            if k < kept.len() {
                assert(out[k] == kept[k]);
            } else {
                assert(entries[n - 1].job_id() == out[k].id);
            }
        }
        if ids_fresh(entries, next_id) {
            assert(ids_fresh(rest, next_id));
            assert forall|k: int| 0 <= k < kept.len() implies #[trigger] kept[k].id != entries[n - 1].id by {
                let j = choose|j: int| 0 <= j < rest.len() && #[trigger] rest[j].job_id() == kept[k].id;
                assert(entries[j].job_id() != entries[n - 1].job_id());
            }
            assert forall|a: int| 0 <= a < out.len() implies #[trigger] out[a].id < next_id by {
                let j = choose|j: int| 0 <= j < entries.len() && #[trigger] entries[j].job_id() == out[a].id;
            }
            assert forall|a: int, b: int|
                0 <= a < out.len() && 0 <= b < out.len() && a != b implies #[trigger] out[a].id
                != #[trigger] out[b].id by {
                if a < kept.len() && b < kept.len() {
                    assert(out[a] == kept[a]);
                    assert(out[b] == kept[b]);
                    assert(kept[a].job_id() != kept[b].job_id());
                } else if a < kept.len() {
                    assert(out[a] == kept[a]);
                    assert(out[b].id == entries[n - 1].id);
                    assert(kept[a].id != entries[n - 1].id);
                } else {
                    assert(out[b] == kept[b]);
                    assert(out[a].id == entries[n - 1].id);
                    assert(kept[b].id != entries[n - 1].id);
                }
            }
        }
    }
}

/// The synchronous cron scheduler: a table of jobs, the identifier that the
/// next job gets, and the time zone in which cron expressions are read.
///
/// Its methods take the scheduler's decisions: which identifier a job gets,
/// when it runs first, which jobs leave the table, which jobs are due at an
/// instant and what happens to them, and how long the scheduler loop waits.
/// Running the jobs and waiting belong to the caller.
pub struct Cron<J> {
    entries: Vec<Entry<J>>,
    next_id: usize,
    tz: UtcOffset,
    clock: Option<ClockReading>,
    readings: u64,
}

impl<J> Cron<J> {
    /// The jobs, in the order the scheduler keeps them.
    pub closed spec fn entries(&self) -> Seq<Entry<J>> {
        self.entries@
    }

    /// The identifier that the next added job gets.
    pub closed spec fn next_id(&self) -> usize {
        self.next_id
    }

    /// The time zone in which cron expressions are read.
    pub closed spec fn timezone(&self) -> UtcOffset {
        self.tz
    }

    /// The last clock reading that an operation of the scheduler took.
    pub closed spec fn last_reading(&self) -> Option<ClockReading> {
        self.clock
    }

    /// The number that the scheduler's next clock reading gets.
    pub closed spec fn readings(&self) -> u64 {
        self.readings
    }

    /// Well-formedness: identifiers are distinct and below `next_id`. Every
    /// scheduler has it (it is the type invariant); each operation ensures it.
    pub open spec fn wf(&self) -> bool {
        ids_fresh(self.entries(), self.next_id())
    }

    /// Every scheduler is well-formed at all times.
    #[verifier::type_invariant]
    spec fn identifiers_well_formed(self) -> bool {
        ids_fresh(self.entries@, self.next_id)
    }

    /// A scheduler without jobs that reads cron expressions in the zone `tz`.
    pub fn new(tz: UtcOffset) -> (cron: Cron<J>)
        ensures
            cron.wf(),
            cron.entries() == Seq::<Entry<J>>::empty(),
            cron.next_id() == 0,
            cron.timezone() == tz,
            cron.last_reading() is None,
            cron.readings() == 0,
    {
        Cron { entries: Vec::new(), next_id: 0, tz, clock: None, readings: 0 }
    }

    /// Appends a job with the next free identifier; fails with `Unknown`
    /// when every identifier has been given out.
    fn insert_entry(&mut self, next: Option<i64>, run: J, schedule: Option<CronSchedule>) -> (res:
        std::result::Result<usize, CronError>)
        ensures
            final(self).wf(),
            final(self).timezone() == old(self).timezone(),
            res is Ok <==> old(self).next_id() < usize::MAX,
            res matches Err(e) ==> e is Unknown && final(self).entries() == old(self).entries()
                && final(self).next_id() == old(self).next_id(),
            res matches Ok(id) ==> id == old(self).next_id() && final(self).next_id() == id + 1
                && appended(old(self).entries(), final(self).entries(), id, next, run)
                && final(self).entries().last().schedule == schedule,
    {
        proof {
            use_type_invariant(&*self);
        }
        if self.next_id == usize::MAX {
            return Err(CronError::Unknown);
        }
        let id = self.next_id;
        let mut entries: Vec<Entry<J>> = Vec::new();
        std::mem::swap(&mut entries, &mut self.entries);
        entries.push(Entry { id, next, run, schedule });
        self.next_id = id + 1;
        proof {
            assert(entries@.drop_last() =~= old(self).entries@);
            assert forall|i: int| 0 <= i < entries@.len() - 1 implies #[trigger] entries@[i] == old(self).entries@[i] by {}
            assert forall|i: int| 0 <= i < entries@.len() implies #[trigger] entries@[i].job_id() < self.next_id by {
                if i < entries@.len() - 1 {
                    assert(old(self).entries@[i].job_id() < id);
                }
            }
            assert forall|i: int, j: int|
                0 <= i < entries@.len() && 0 <= j < entries@.len() && i != j implies #[trigger] entries@[i].job_id()
                != #[trigger] entries@[j].job_id() by {
                if i < entries@.len() - 1 {
                    assert(old(self).entries@[i].job_id() < id);
                }
                if j < entries@.len() - 1 {
                    assert(old(self).entries@[j].job_id() < id);
                }
            }
        }
        std::mem::swap(&mut entries, &mut self.entries);
        Ok(id)
    }

    /// Adds a recurring job whose cron schedule is `expression`, with its
    /// first run looked up after the instant `now_ms`.
    ///
    /// Fails with `ParseError` when the `cron` crate rejects the expression,
    /// and with `Unknown` when every identifier has been given out; the
    /// scheduler is then unchanged.
    pub fn add_fn_from(&mut self, expression: &str, run: J, now_ms: i64) -> (res:
        std::result::Result<usize, CronError>)
        ensures
            id_step(old(self).next_id(), final(self).next_id(), issued_id(res)),
            final(self).wf(),
            final(self).timezone() == old(self).timezone(),
            res is Ok <==> cron_expression_accepted(expression@) && old(self).next_id() < usize::MAX,
            !cron_expression_accepted(expression@) ==> (res matches Err(e) && e is ParseError),
            cron_expression_accepted(expression@) && old(self).next_id() == usize::MAX ==> (res matches Err(e) && e is Unknown),
            res is Err ==> final(self).entries() == old(self).entries() && final(self).next_id()
                == old(self).next_id(),
            res matches Ok(id) ==> id == old(self).next_id() && final(self).next_id() == id + 1
                && appended(
                old(self).entries(),
                final(self).entries(),
                id,
                scheduled_after(expression@, old(self).timezone()@, now_ms),
                run,
            ) && (final(self).entries().last().schedule matches Some(s) && s@ == expression@),
    {
        proof {
            use_type_invariant(&*self);
        }
        let schedule = CronSchedule::parse(expression)?;
        self.schedule(schedule, run, now_ms)
    }

    /// Adds a recurring job under `schedule`, first run after `now_ms`.
    fn schedule(&mut self, schedule: CronSchedule, run: J, now_ms: i64) -> (res: std::result::Result<
        usize,
        CronError,
    >)
        ensures
            final(self).wf(),
            final(self).timezone() == old(self).timezone(),
            res is Ok <==> old(self).next_id() < usize::MAX,
            res matches Err(e) ==> e is Unknown && final(self).entries() == old(self).entries()
                && final(self).next_id() == old(self).next_id(),
            res matches Ok(id) ==> id == old(self).next_id() && final(self).next_id() == id + 1
                && appended(
                old(self).entries(),
                final(self).entries(),
                id,
                scheduled_after(schedule@, old(self).timezone()@, now_ms),
                run,
            ) && final(self).entries().last().schedule == Some(schedule),
    {
        proof {
            use_type_invariant(&*self);
        }
        let next = schedule.next_after(self.tz, now_ms);
        self.insert_entry(next, run, Some(schedule))
    }

    /// Adds a recurring job whose cron schedule is `expression`, with its
    /// first run looked up after the present instant (read from the clock).
    ///
    /// Fails as [`Cron::add_fn_from`] does.
    pub fn add_fn(&mut self, expression: &str, run: J) -> (res: std::result::Result<usize, CronError>)
        ensures
            id_step(old(self).next_id(), final(self).next_id(), issued_id(res)),
            final(self).wf(),
            final(self).timezone() == old(self).timezone(),
            res is Ok <==> cron_expression_accepted(expression@) && old(self).next_id() < usize::MAX,
            !cron_expression_accepted(expression@) ==> (res matches Err(e) && e is ParseError),
            cron_expression_accepted(expression@) && old(self).next_id() == usize::MAX ==> (res matches Err(e) && e is Unknown),
            res is Err ==> final(self).entries() == old(self).entries() && final(self).next_id()
                == old(self).next_id(),
            res matches Ok(id) ==> id == old(self).next_id() && final(self).next_id() == id + 1
                && (exists|now: i64| 0 <= now <= MAX_CLOCK_MILLIS &&
                appended(
                    old(self).entries(),
                    final(self).entries(),
                    id,
                    scheduled_after(expression@, old(self).timezone()@, now),
                    run,
                )) && (final(self).entries().last().schedule matches Some(s) && s@ == expression@),
            final(self).readings() == next_serial(old(self).readings()),
            final(self).last_reading() matches Some(r) && r.serial() == old(self).readings()
                && 0 <= r.instant_millis() <= MAX_CLOCK_MILLIS && r.extra_nanos() < 1_000_000
                && (res is Ok ==> final(self).entries().last().next == scheduled_after(expression@, old(self).timezone()@, r.instant_millis())),
    {
        proof {
            use_type_invariant(&*self);
        }
        let reading = self.read_clock();
        let res = self.add_fn_from(expression, run, reading.millis());
        self.record_reading(reading);
        proof {
            if res is Ok {
                assert(self.entries().last().next == scheduled_after(expression@, old(self).timezone()@, reading.instant_millis()));
            }
        }
        res
    }

    /// Adds a job that runs once, at the instant `at_ms`. An instant in the
    /// past makes the job due at once.
    ///
    /// Fails with `Unknown` when every identifier has been given out.
    pub fn add_fn_once(&mut self, at_ms: i64, run: J) -> (res: std::result::Result<usize, CronError>)
        ensures
            id_step(old(self).next_id(), final(self).next_id(), issued_id(res)),
            final(self).wf(),
            final(self).timezone() == old(self).timezone(),
            res is Ok <==> old(self).next_id() < usize::MAX,
            res matches Err(e) ==> e is Unknown && final(self).entries() == old(self).entries()
                && final(self).next_id() == old(self).next_id(),
            res matches Ok(id) ==> id == old(self).next_id() && final(self).next_id() == id + 1
                && appended(old(self).entries(), final(self).entries(), id, Some(at_ms), run)
                && final(self).entries().last().schedule is None,
    {
        proof {
            use_type_invariant(&*self);
        }
        self.insert_entry(Some(at_ms), run, None)
    }

    /// The outcome of adding a job that runs once, `delay` after `now_ms`,
    /// to `self`, giving `after` and the result `res`.
    ///
    /// The delay is refused with `DurationOutOfRange` when `chrono` refuses
    /// it or the run time would not fit in an `i64` of milliseconds; the job
    /// is refused with `Unknown` when every identifier has been given out;
    /// a refusal changes nothing. Otherwise the job is appended with the
    /// next free identifier and the run time `now_ms` plus the delay rounded
    /// up to a whole millisecond, so that it never runs before the delay is
    /// over.
    pub open spec fn delayed_add_outcome(
        self,
        after: Cron<J>,
        delay: Delay,
        run: J,
        now_ms: i64,
        res: std::result::Result<usize, CronError>,
    ) -> bool {
        let delay_ms = delay_millis_ceil(delay@.0, delay@.1);
        let in_range = chrono_accepts_delay(delay@.0, delay@.1) && now_ms + delay_ms <= i64::MAX;
        &&& after.timezone() == self.timezone()
        &&& !in_range ==> (res matches Err(e) && e is DurationOutOfRange)
        &&& in_range && self.next_id() == usize::MAX ==> (res matches Err(e) && e is Unknown)
        &&& res is Ok <==> in_range && self.next_id() < usize::MAX
        &&& res is Err ==> after.entries() == self.entries() && after.next_id() == self.next_id()
        &&& res matches Ok(id) ==> id == self.next_id() && after.next_id() == id + 1
            && appended(self.entries(), after.entries(), id, Some((now_ms + delay_ms) as i64), run)
            && after.entries().last().schedule is None
    }

    /// Adds a job that runs once, `delay` after the instant `now_ms`, at the
    /// first whole millisecond that is not earlier.
    ///
    /// Fails with `DurationOutOfRange` when `chrono` refuses the delay or the
    /// run time would not fit in an `i64` of milliseconds, and with `Unknown`
    /// when every identifier has been given out; the scheduler is then
    /// unchanged.
    pub fn add_fn_after_from(&mut self, delay: Delay, run: J, now_ms: i64) -> (res:
        std::result::Result<usize, CronError>)
        ensures
            id_step(old(self).next_id(), final(self).next_id(), issued_id(res)),
            final(self).wf(),
            old(self).delayed_add_outcome(*final(self), delay, run, now_ms, res),
    {
        proof {
            use_type_invariant(&*self);
        }
        let nanos = delay.subsec_nanos();
        let (secs, sub_nanos) = match chrono_delay(delay.as_secs(), nanos) {
            Some(d) => d,
            None => return Err(CronError::DurationOutOfRange),
        };
        let delay_ms: i128 = secs as i128 * 1000 + ((sub_nanos as i128 + 999_999) / 1_000_000);
        let at: i128 = now_ms as i128 + delay_ms;
        if at > i64::MAX as i128 {
            return Err(CronError::DurationOutOfRange);
        }
        self.add_fn_once(at as i64, run)
    }

    /// Adds a job that runs once, `delay` after the present instant: the
    /// clock reading rounded up to a whole millisecond, so that the job
    /// never runs before the delay is over. Behaves as
    /// [`Cron::add_fn_after_from`] at that instant.
    pub fn add_fn_after(&mut self, delay: Delay, run: J) -> (res: std::result::Result<usize, CronError>)
        ensures
            id_step(old(self).next_id(), final(self).next_id(), issued_id(res)),
            final(self).wf(),
            exists|now: i64| 0 <= now <= MAX_CLOCK_MILLIS + 1 && #[trigger] old(self).delayed_add_outcome(*final(self), delay, run, now, res),
            final(self).readings() == next_serial(old(self).readings()),
            final(self).last_reading() matches Some(r) && r.serial() == old(self).readings()
                && 0 <= r.instant_millis() <= MAX_CLOCK_MILLIS && r.extra_nanos() < 1_000_000
                && old(self).delayed_add_outcome(*final(self), delay, run, r.instant_millis_ceil(), res),
    {
        proof {
            use_type_invariant(&*self);
        }
        let reading = self.read_clock();
        let ghost before = *old(self);
        let res = self.add_fn_after_from(delay, run, reading.millis_ceil());
        let ghost added = *self;
        self.record_reading(reading);
        proof {
            assert(before.delayed_add_outcome(added, delay, run, reading.instant_millis_ceil(), res));
            assert(added.entries() == self.entries());
            assert(before.delayed_add_outcome(*self, delay, run, reading.instant_millis_ceil(), res));
        }
        res
    }

    /// The jobs after switching to the zone `tz` at the instant `now_ms`:
    /// every recurring job gets its schedule's next fire time after `now_ms`
    /// read in `tz`; a one-time job keeps its instant.
    pub open spec fn rezoned(self, tz: UtcOffset, now_ms: i64) -> Seq<Entry<J>> {
        Seq::new(
            self.entries().len(),
            |k: int|
                if self.entries()[k].schedule is Some {
                    self.entries()[k].with_next(self.entries()[k].upcoming_after(tz, now_ms))
                } else {
                    self.entries()[k]
                },
        )
    }

    /// Reads cron expressions in the zone `tz` from the instant `now_ms` on:
    /// every recurring job's next run becomes its schedule's next fire time
    /// after `now_ms` in `tz`; one-time jobs keep their instants.
    pub fn set_timezone_at(&mut self, tz: UtcOffset, now_ms: i64)
        ensures
            final(self).wf(),
            final(self).timezone() == tz,
            final(self).next_id() == old(self).next_id(),
            final(self).entries() == old(self).rezoned(tz, now_ms),
    {
        proof {
            use_type_invariant(&*self);
        }
        let mut entries: Vec<Entry<J>> = Vec::new();
        std::mem::swap(&mut entries, &mut self.entries);
        self.tz = tz;
        let n = entries.len();
        let mut i: usize = 0;
        while i < n
            invariant
                n == entries@.len(),
                n == old(self).entries@.len(),
                i <= n,
                self.tz == tz,
                self.next_id == old(self).next_id,
                old(self).wf(),
                forall|k: int| i <= k < n ==> #[trigger] entries@[k] == old(self).entries@[k],
                forall|k: int|
                    0 <= k < i ==> #[trigger] entries@[k] == old(self).rezoned(tz, now_ms)[k],
            decreases n - i,
        {
            if entries[i].schedule.is_some() {
                let next = entries[i].schedule_next_after(tz, now_ms);
                let mut e = entries.remove(i);
                e.next = next;
                entries.insert(i, e);
            }
            i = i + 1;
        }
        proof {
            assert(entries@ =~= old(self).rezoned(tz, now_ms));
            assert forall|a: int| 0 <= a < n implies #[trigger] entries@[a].job_id() == old(self).entries@[a].job_id() by {}
        }
        std::mem::swap(&mut entries, &mut self.entries);
    }

    /// Reads cron expressions in the zone `tz` from the present instant (read
    /// from the clock) on; behaves as [`Cron::set_timezone_at`] at that
    /// instant.
    pub fn set_timezone(&mut self, tz: UtcOffset)
        ensures
            final(self).wf(),
            final(self).timezone() == tz,
            final(self).next_id() == old(self).next_id(),
            exists|now: i64| 0 <= now <= MAX_CLOCK_MILLIS && final(self).entries() == #[trigger] old(self).rezoned(tz, now),
            final(self).readings() == next_serial(old(self).readings()),
            final(self).last_reading() matches Some(r) && r.serial() == old(self).readings()
                && 0 <= r.instant_millis() <= MAX_CLOCK_MILLIS && r.extra_nanos() < 1_000_000
                && final(self).entries() == old(self).rezoned(tz, r.instant_millis()),
    {
        proof {
            use_type_invariant(&*self);
        }
        let reading = self.read_clock();
        self.set_timezone_at(tz, reading.millis());
        self.record_reading(reading);
        proof {
            assert(self.entries() == old(self).rezoned(tz, reading.instant_millis()));
        }
    }

    /// Follows a zone whose offset changes over time (such as one with
    /// daylight saving time): when `offset`, the zone's offset at `now_ms`,
    /// differs from the offset in use, switches to it as
    /// [`Cron::set_timezone_at`] does; otherwise changes nothing.
    pub fn follow_offset_at(&mut self, offset: UtcOffset, now_ms: i64)
        ensures
            final(self).wf(),
            final(self).next_id() == old(self).next_id(),
            final(self).timezone() == offset,
            offset == old(self).timezone() ==> final(self).entries() == old(self).entries(),
            offset != old(self).timezone() ==> final(self).entries() == old(self).rezoned(offset, now_ms),
    {
        proof {
            use_type_invariant(&*self);
        }
        if offset != self.tz {
            self.set_timezone_at(offset, now_ms);
        }
    }

    /// The jobs, in the order the scheduler keeps them.
    pub fn jobs(&self) -> (jobs: &Vec<Entry<J>>)
        ensures
            jobs@ == self.entries(),
    {
        &self.entries
    }

    /// Reads the clock, numbering the reading with the scheduler's count.
    fn read_clock(&self) -> (r: ClockReading)
        ensures
            r.serial() == self.readings(),
            0 <= r.instant_millis() <= MAX_CLOCK_MILLIS,
            r.extra_nanos() < 1_000_000,
    {
        ClockReading::take(self.readings)
    }

    /// Keeps `r` as the last clock reading; the next reading gets the number
    /// after `r`'s.
    fn record_reading(&mut self, r: ClockReading)
        ensures
            final(self).wf(),
            final(self).entries() == old(self).entries(),
            final(self).next_id() == old(self).next_id(),
            final(self).timezone() == old(self).timezone(),
            final(self).last_reading() == Some(r),
            final(self).readings() == next_serial(r.serial()),
    {
        proof {
            use_type_invariant(&*self);
        }
        self.readings = following_serial(r.serial_number());
        self.clock = Some(r);
    }

    /// The time zone in which cron expressions are read.
    fn get_timezone(&self) -> (tz: UtcOffset)
        ensures
            tz == self.timezone(),
    {
        self.tz
    }

    /// Removes the job with identifier `id`, keeping the others in order.
    fn remove_entry(&mut self, id: usize)
        ensures
            final(self).wf(),
            final(self).timezone() == old(self).timezone(),
            final(self).next_id() == old(self).next_id(),
            !has_id(final(self).entries(), id),
            has_id(old(self).entries(), id) ==> exists|i: int|
                0 <= i < old(self).entries().len() && #[trigger] old(self).entries()[i].id == id
                    && final(self).entries() == old(self).entries().remove(i),
            !has_id(old(self).entries(), id) ==> final(self).entries() == old(self).entries(),
    {
        proof {
            use_type_invariant(&*self);
        }
        let mut entries: Vec<Entry<J>> = Vec::new();
        std::mem::swap(&mut entries, &mut self.entries);
        remove_job(&mut entries, id, Ghost(self.next_id));
        std::mem::swap(&mut entries, &mut self.entries);
    }

    /// Gives every job without a run time its next run time after `now_ms`,
    /// as the scheduler loop does when it starts. One-time jobs, and cron
    /// schedules without a later fire time, stay without one.
    pub fn initialize_next_times(&mut self, now_ms: i64)
        ensures
            final(self).wf(),
            final(self).timezone() == old(self).timezone(),
            final(self).next_id() == old(self).next_id(),
            final(self).entries().len() == old(self).entries().len(),
            forall|k: int|
                0 <= k < old(self).entries().len() ==> #[trigger] final(self).entries()[k] == if old(
                    self,
                ).entries()[k].next is None {
                    old(self).entries()[k].with_next(
                        old(self).entries()[k].upcoming_after(old(self).timezone(), now_ms),
                    )
                } else {
                    old(self).entries()[k]
                },
    {
        proof {
            use_type_invariant(&*self);
        }
        let mut entries: Vec<Entry<J>> = Vec::new();
        std::mem::swap(&mut entries, &mut self.entries);
        let n = entries.len();
        let mut i: usize = 0;
        while i < n
            invariant
                n == entries@.len(),
                n == old(self).entries@.len(),
                i <= n,
                self.tz == old(self).tz,
                self.next_id == old(self).next_id,
                old(self).wf(),
                forall|k: int| i <= k < n ==> #[trigger] entries@[k] == old(self).entries@[k],
                forall|k: int|
                    0 <= k < i ==> #[trigger] entries@[k] == if old(self).entries@[k].next is None {
                        old(self).entries@[k].with_next(
                            old(self).entries@[k].upcoming_after(old(self).tz, now_ms),
                        )
                    } else {
                        old(self).entries@[k]
                    },
            decreases n - i,
        {
            if entries[i].next.is_none() {
                let next = entries[i].schedule_next_after(self.tz, now_ms);
                let mut e = entries.remove(i);
                e.next = next;
                entries.insert(i, e);
            }
            i = i + 1;
        }
        proof {
            assert forall|a: int| 0 <= a < n implies #[trigger] entries@[a].job_id() == old(self).entries@[a].job_id() by {}
        }
        std::mem::swap(&mut entries, &mut self.entries);
    }

    /// Orders the jobs by next run time (stable, a missing run time first),
    /// as the scheduler loop does before it waits, and returns how long to
    /// wait at `now_ms`: until the earliest run time, nothing when it has
    /// come, `MAX_WAIT_SECONDS` when no job has a run time.
    pub fn next_wait(&mut self, now_ms: i64) -> (wait: u64)
        ensures
            final(self).wf(),
            final(self).timezone() == old(self).timezone(),
            final(self).next_id() == old(self).next_id(),
            stable_sort_of(final(self).entries(), old(self).entries()),
            wait == wait_millis(earliest_next(old(self).entries()), now_ms),
    {
        proof {
            use_type_invariant(&*self);
        }
        let earliest = find_earliest_next(&self.entries);
        let mut entries: Vec<Entry<J>> = Vec::new();
        std::mem::swap(&mut entries, &mut self.entries);
        sort_jobs_by_next(&mut entries);
        proof {
            let order = choose|order: Seq<int>| reorders(entries@, old(self).entries@, order) && forall|a: int, b: int|
                0 <= a < b < order.len() && entries@[a].next_run() == entries@[b].next_run() ==> #[trigger] order[a] < #[trigger] order[b];
            lemma_reorder_keeps_ids_fresh(entries@, old(self).entries@, order, self.next_id);
        }
        std::mem::swap(&mut entries, &mut self.entries);
        match earliest {
            None => MAX_WAIT_SECONDS * 1000,
            Some(t) => {
                if t <= now_ms {
                    0
                } else {
                    let gap: i128 = t as i128 - now_ms as i128;
                    gap as u64
                }
            },
        }
    }

    /// [`Cron::next_wait`], cut to `OFFSET_CHECK_MILLIS`: the scheduler loop
    /// looks at the zone's offset again at least that often, so that it
    /// follows a change of offset (daylight saving time) within that time.
    pub fn next_wait_capped(&mut self, now_ms: i64) -> (wait: u64)
        ensures
            final(self).wf(),
            final(self).timezone() == old(self).timezone(),
            final(self).next_id() == old(self).next_id(),
            stable_sort_of(final(self).entries(), old(self).entries()),
            wait == capped_wait(wait_millis(earliest_next(old(self).entries()), now_ms)),
    {
        let wait = self.next_wait(now_ms);
        if wait < OFFSET_CHECK_MILLIS {
            wait
        } else {
            OFFSET_CHECK_MILLIS
        }
    }

    /// Handles the jobs due at `now_ms`, as the scheduler loop does when its
    /// timer expires: returns copies of what they run, in the order of the
    /// jobs; a due one-time job leaves the table, a due recurring job gets its
    /// next fire time after `now_ms`. Afterwards no job is due at `now_ms`.
    pub fn fire_due(&mut self, now_ms: i64) -> (runs: Vec<J>)
        where J: Clone
        ensures
            final(self).wf(),
            final(self).timezone() == old(self).timezone(),
            final(self).next_id() == old(self).next_id(),
            final(self).entries() == after_firing(old(self).entries(), old(self).timezone(), now_ms),
            runs@.len() == due_runs(old(self).entries(), now_ms).len(),
            forall|k: int| 0 <= k < runs@.len() ==> cloned(#[trigger] due_runs(old(self).entries(), now_ms)[k], runs@[k]),
            forall|k: int| 0 <= k < final(self).entries().len() ==> !is_due(#[trigger] final(self).entries()[k].next, now_ms),
    {
        proof {
            use_type_invariant(&*self);
        }
        let mut pending: Vec<Entry<J>> = Vec::new();
        std::mem::swap(&mut pending, &mut self.entries);
        let mut kept: Vec<Entry<J>> = Vec::new();
        let ghost orig = pending@;
        let n = pending.len();
        let mut runs: Vec<J> = Vec::new();
        let mut i: usize = 0;
        proof {
            assert(orig.take(0) =~= Seq::<Entry<J>>::empty());
            assert(orig.skip(0) =~= orig);
        }
        while i < n
            invariant
                n == orig.len(),
                orig == old(self).entries@,
                i <= n,
                pending@ == orig.skip(i as int),
                self.tz == old(self).tz,
                self.next_id == old(self).next_id,
                kept@ == after_firing(orig.take(i as int), self.tz, now_ms),
                runs@.len() == due_runs(orig.take(i as int), now_ms).len(),
                forall|k: int| 0 <= k < runs@.len() ==> cloned(#[trigger] due_runs(orig.take(i as int), now_ms)[k], runs@[k]),
                forall|k: int| 0 <= k < kept@.len() ==> !is_due(#[trigger] kept@[k].next, now_ms),
            decreases n - i,
        {
            let ghost before = orig.take(i as int);
            let ghost runs_before = runs@;
            let e = pending.remove(0);
            proof {
                assert(orig.take(i + 1).drop_last() =~= before);
                assert(orig.take(i + 1).last() == e);
                assert(pending@ =~= orig.skip(i + 1));
            }
            let due = match e.next {
                Some(t) => t <= now_ms,
                None => false,
            };
            if due {
                let run = e.run.clone();
                runs.push(run);
                if e.schedule.is_some() {
                    let next = e.schedule_next_after(self.tz, now_ms);
                    let mut e2 = e;
                    e2.next = next;
                    kept.push(e2);
                }
                proof {
                    assert forall|k: int| 0 <= k < runs@.len() implies cloned(#[trigger] due_runs(orig.take(i + 1), now_ms)[k], runs@[k]) by {
                        if k < runs_before.len() {
                            assert(runs@[k] == runs_before[k]);
                        }
                    }
                }
            } else {
                kept.push(e);
            }
            i = i + 1;
        }
        proof {
            assert(orig.take(n as int) =~= orig);
            lemma_after_firing_ids(orig, self.tz, now_ms, self.next_id);
        }
        std::mem::swap(&mut kept, &mut self.entries);
        runs
    }

    /// Removes the job with identifier `id`; the other jobs stay, in order.
    /// Removing an identifier that no job has changes nothing.
    pub fn remove(&mut self, id: usize)
        ensures
            final(self).wf(),
            final(self).timezone() == old(self).timezone(),
            final(self).next_id() == old(self).next_id(),
            !has_id(final(self).entries(), id),
            has_id(old(self).entries(), id) ==> exists|i: int|
                0 <= i < old(self).entries().len() && #[trigger] old(self).entries()[i].id == id
                    && final(self).entries() == old(self).entries().remove(i),
            !has_id(old(self).entries(), id) ==> final(self).entries() == old(self).entries(),
    {
        proof {
            use_type_invariant(&*self);
        }
        self.remove_entry(id)
    }
}

} // verus!
