use vstd::prelude::*;

use crate::async_entry::AsyncEntry;
use crate::entry::{ScheduledJob, is_due};
use crate::error::CronError;
use crate::schedule::{CronSchedule, cron_expression_accepted, scheduled_after};
use crate::sync_cron::{wait_millis, capped_wait};
use crate::table::{ids_fresh, has_id, issued_id, id_step, remove_job, earliest_next, find_earliest_next, sort_jobs_by_next, stable_sort_of, reorders, lemma_reorder_keeps_ids_fresh};
use crate::time::{UtcOffset, ClockReading, MAX_CLOCK_MILLIS, next_serial, following_serial};
use crate::{MAX_WAIT_SECONDS, OFFSET_CHECK_MILLIS};

verus! {

/// The jobs after the jobs due at `now` have been handled: every due job
/// gets its schedule's next fire time after `now` read in `tz`; every other
/// job stays as it is, all in the same order.
pub open spec fn async_after_firing<J>(entries: Seq<AsyncEntry<J>>, tz: UtcOffset, now: i64) -> Seq<AsyncEntry<J>> {
    Seq::new(
        entries.len(),
        |k: int|
            if is_due(entries[k].next, now) {
                entries[k].with_next(entries[k].upcoming_after(tz, now))
            } else {
                entries[k]
            },
    )
}

/// What the jobs due at `now` run, in the order of the jobs.
pub open spec fn async_due_runs<J>(entries: Seq<AsyncEntry<J>>, now: i64) -> Seq<J>
    decreases entries.len(),
{
    if entries.len() == 0 {
        Seq::empty()
    } else {
        let runs = async_due_runs(entries.drop_last(), now);
        if is_due(entries.last().next, now) {
            runs.push(entries.last().run)
        } else {
            runs
        }
    }
}

/// The asynchronous cron scheduler: a table of recurring jobs, the
/// identifier that the next job gets, and the time zone in which cron
/// expressions are read.
///
/// Its methods take the scheduler's decisions; spawning the jobs' tasks,
/// waiting, and passing requests to a running scheduler belong to the
/// caller.
pub struct AsyncCron<J> {
    entries: Vec<AsyncEntry<J>>,
    next_id: usize,
    tz: UtcOffset,
    clock: Option<ClockReading>,
    readings: u64,
}

impl<J> AsyncCron<J> {
    /// The jobs, in the order the scheduler keeps them.
    pub closed spec fn entries(&self) -> Seq<AsyncEntry<J>> {
        self.entries@
    }

    /// The identifier that the next added job gets.
    pub closed spec fn next_id(&self) -> usize {
        self.next_id
    }

    /// The time zone in which cron expressions are read.
    pub closed spec fn timezone(&self) -> UtcOffset {
        self.tz
    }

    /// The last clock reading that an operation of the scheduler took.
    pub closed spec fn last_reading(&self) -> Option<ClockReading> {
        self.clock
    }

    /// The number that the scheduler's next clock reading gets.
    pub closed spec fn readings(&self) -> u64 {
        self.readings
    }

    /// Well-formedness: identifiers are distinct and below `next_id`. Every
    /// scheduler has it (it is the type invariant); each operation ensures it.
    pub open spec fn wf(&self) -> bool {
        ids_fresh(self.entries(), self.next_id())
    }

    /// Every scheduler is well-formed at all times.
    #[verifier::type_invariant]
    spec fn identifiers_well_formed(self) -> bool {
        ids_fresh(self.entries@, self.next_id)
    }

    /// A scheduler without jobs that reads cron expressions in the zone `tz`.
    pub fn new(tz: UtcOffset) -> (cron: AsyncCron<J>)
        ensures
            cron.wf(),
            cron.entries() == Seq::<AsyncEntry<J>>::empty(),
            cron.next_id() == 0,
            cron.timezone() == tz,
            cron.last_reading() is None,
            cron.readings() == 0,
    {
        AsyncCron { entries: Vec::new(), next_id: 0, tz, clock: None, readings: 0 }
    }

    /// Reads the clock, numbering the reading with the scheduler's count.
    fn read_clock(&self) -> (r: ClockReading)
        ensures
            r.serial() == self.readings(),
            0 <= r.instant_millis() <= MAX_CLOCK_MILLIS,
            r.extra_nanos() < 1_000_000,
    {
        ClockReading::take(self.readings)
    }

    /// Keeps `r` as the last clock reading; the next reading gets the number
    /// after `r`'s.
    fn record_reading(&mut self, r: ClockReading)
        ensures
            final(self).wf(),
            final(self).entries() == old(self).entries(),
            final(self).next_id() == old(self).next_id(),
            final(self).timezone() == old(self).timezone(),
            final(self).last_reading() == Some(r),
            final(self).readings() == next_serial(r.serial()),
    {
        proof {
            use_type_invariant(&*self);
        }
        self.readings = following_serial(r.serial_number());
        self.clock = Some(r);
    }

    /// The time zone in which cron expressions are read.
    fn get_timezone(&self) -> (tz: UtcOffset)
        ensures
            tz == self.timezone(),
    {
        self.tz
    }

    /// Adds a job under `schedule` with the next free identifier, its first
    /// run looked up after `now_ms`; fails with `Unknown` when every
    /// identifier has been given out.
    fn schedule(&mut self, schedule: CronSchedule, run: J, now_ms: i64) -> (res: std::result::Result<
        usize,
        CronError,
    >)
        ensures
            final(self).wf(),
            final(self).timezone() == old(self).timezone(),
            res is Ok <==> old(self).next_id() < usize::MAX,
            res matches Err(e) ==> e is Unknown && final(self).entries() == old(self).entries()
                && final(self).next_id() == old(self).next_id(),
            res matches Ok(id) ==> id == old(self).next_id() && final(self).next_id() == id + 1
                && final(self).entries() == old(self).entries().push(
                AsyncEntry {
                    id,
                    schedule,
                    next: scheduled_after(schedule@, old(self).timezone()@, now_ms),
                    run,
                },
            ),
    {
        proof {
            use_type_invariant(&*self);
        }
        if self.next_id == usize::MAX {
            return Err(CronError::Unknown);
        }
        let id = self.next_id;
        let tz = self.get_timezone();
        let next = schedule.next_after(tz, now_ms);
        let mut entries: Vec<AsyncEntry<J>> = Vec::new();
        std::mem::swap(&mut entries, &mut self.entries);
        entries.push(AsyncEntry { id, schedule, next, run });
        self.next_id = id + 1;
        proof {
            assert forall|i: int| 0 <= i < entries@.len() - 1 implies #[trigger] entries@[i] == old(self).entries@[i] by {}
            assert forall|i: int| 0 <= i < entries@.len() implies #[trigger] entries@[i].job_id() < self.next_id by {
                if i < entries@.len() - 1 {
                    assert(old(self).entries@[i].job_id() < id);
                }
            }
            assert forall|i: int, j: int|
                0 <= i < entries@.len() && 0 <= j < entries@.len() && i != j implies #[trigger] entries@[i].job_id()
                != #[trigger] entries@[j].job_id() by {
                if i < entries@.len() - 1 {
                    assert(old(self).entries@[i].job_id() < id);
                }
                if j < entries@.len() - 1 {
                    assert(old(self).entries@[j].job_id() < id);
                }
            }
        }
        std::mem::swap(&mut entries, &mut self.entries);
        Ok(id)
    }

    /// Adds a job whose cron schedule is `expression`, with its first run
    /// looked up after the instant `now_ms`.
    ///
    /// Fails with `ParseError` when the `cron` crate rejects the expression,
    /// and with `Unknown` when every identifier has been given out; the
    /// scheduler is then unchanged.
    pub fn add_fn_from(&mut self, expression: &str, run: J, now_ms: i64) -> (res:
        std::result::Result<usize, CronError>)
        ensures
            id_step(old(self).next_id(), final(self).next_id(), issued_id(res)),
            final(self).wf(),
            final(self).timezone() == old(self).timezone(),
            res is Ok <==> cron_expression_accepted(expression@) && old(self).next_id() < usize::MAX,
            !cron_expression_accepted(expression@) ==> (res matches Err(e) && e is ParseError),
            cron_expression_accepted(expression@) && old(self).next_id() == usize::MAX ==> (res matches Err(e) && e is Unknown),
            res is Err ==> final(self).entries() == old(self).entries() && final(self).next_id()
                == old(self).next_id(),
            res matches Ok(id) ==> id == old(self).next_id() && final(self).next_id() == id + 1
                && final(self).entries().len() == old(self).entries().len() + 1
                && final(self).entries().drop_last() == old(self).entries()
                && final(self).entries().last().id == id
                && final(self).entries().last().schedule@ == expression@
                && final(self).entries().last().run == run
                && final(self).entries().last().next == scheduled_after(expression@, old(self).timezone()@, now_ms),
    {
        proof {
            use_type_invariant(&*self);
        }
        let schedule = CronSchedule::parse(expression)?;
        let res = self.schedule(schedule, run, now_ms);
        proof {
            if res is Ok {
                assert(self.entries@.drop_last() =~= old(self).entries@);
            }
        }
        res
    }

    /// Adds a job whose cron schedule is `expression`, with its first run
    /// looked up after the present instant (read from the clock). Fails as
    /// [`AsyncCron::add_fn_from`] does.
    pub fn add_fn(&mut self, expression: &str, run: J) -> (res: std::result::Result<usize, CronError>)
        ensures
            id_step(old(self).next_id(), final(self).next_id(), issued_id(res)),
            final(self).wf(),
            final(self).timezone() == old(self).timezone(),
            res is Ok <==> cron_expression_accepted(expression@) && old(self).next_id() < usize::MAX,
            !cron_expression_accepted(expression@) ==> (res matches Err(e) && e is ParseError),
            cron_expression_accepted(expression@) && old(self).next_id() == usize::MAX ==> (res matches Err(e) && e is Unknown),
            res is Err ==> final(self).entries() == old(self).entries() && final(self).next_id()
                == old(self).next_id(),
            res matches Ok(id) ==> id == old(self).next_id() && final(self).next_id() == id + 1
                && final(self).entries().len() == old(self).entries().len() + 1
                && final(self).entries().drop_last() == old(self).entries()
                && final(self).entries().last().id == id
                && final(self).entries().last().schedule@ == expression@
                && final(self).entries().last().run == run
                && (exists|now: i64| 0 <= now <= MAX_CLOCK_MILLIS && final(self).entries().last().next == scheduled_after(expression@, old(self).timezone()@, now)),
            final(self).readings() == next_serial(old(self).readings()),
            final(self).last_reading() matches Some(r) && r.serial() == old(self).readings()
                && 0 <= r.instant_millis() <= MAX_CLOCK_MILLIS && r.extra_nanos() < 1_000_000
                && (res is Ok ==> final(self).entries().last().next == scheduled_after(expression@, old(self).timezone()@, r.instant_millis())),
    {
        proof {
            use_type_invariant(&*self);
        }
        let reading = self.read_clock();
        let res = self.add_fn_from(expression, run, reading.millis());
        self.record_reading(reading);
        proof {
            if res is Ok {
                assert(self.entries().last().next == scheduled_after(expression@, old(self).timezone()@, reading.instant_millis()));
            }
        }
        res
    }

    /// The jobs after switching to the zone `tz` at the instant `now_ms`:
    /// every job gets its schedule's next fire time after `now_ms` read in
    /// `tz`.
    pub open spec fn rezoned(self, tz: UtcOffset, now_ms: i64) -> Seq<AsyncEntry<J>> {
        Seq::new(
            self.entries().len(),
            |k: int| self.entries()[k].with_next(self.entries()[k].upcoming_after(tz, now_ms)),
        )
    }

    /// Reads cron expressions in the zone `tz` from the instant `now_ms` on:
    /// every job's next run becomes its schedule's next fire time after
    /// `now_ms` in `tz`.
    pub fn set_timezone_at(&mut self, tz: UtcOffset, now_ms: i64)
        ensures
            final(self).wf(),
            final(self).timezone() == tz,
            final(self).next_id() == old(self).next_id(),
            final(self).entries() == old(self).rezoned(tz, now_ms),
    {
        proof {
            use_type_invariant(&*self);
        }
        self.tz = tz;
        self.reset_next_times(now_ms);
        proof {
            assert(self.entries@ =~= old(self).rezoned(tz, now_ms));
        }
    }

    /// Reads cron expressions in the zone `tz` from the present instant (read
    /// from the clock) on; behaves as [`AsyncCron::set_timezone_at`] at that
    /// instant.
    pub fn set_timezone(&mut self, tz: UtcOffset)
        ensures
            final(self).wf(),
            final(self).timezone() == tz,
            final(self).next_id() == old(self).next_id(),
            exists|now: i64| 0 <= now <= MAX_CLOCK_MILLIS && final(self).entries() == #[trigger] old(self).rezoned(tz, now),
            final(self).readings() == next_serial(old(self).readings()),
            final(self).last_reading() matches Some(r) && r.serial() == old(self).readings()
                && 0 <= r.instant_millis() <= MAX_CLOCK_MILLIS && r.extra_nanos() < 1_000_000
                && final(self).entries() == old(self).rezoned(tz, r.instant_millis()),
    {
        proof {
            use_type_invariant(&*self);
        }
        let reading = self.read_clock();
        self.set_timezone_at(tz, reading.millis());
        self.record_reading(reading);
        proof {
            assert(self.entries() == old(self).rezoned(tz, reading.instant_millis()));
        }
    }

    /// Follows a zone whose offset changes over time (such as one with
    /// daylight saving time): when `offset`, the zone's offset at `now_ms`,
    /// differs from the offset in use, switches to it as
    /// [`AsyncCron::set_timezone_at`] does; otherwise changes nothing.
    pub fn follow_offset_at(&mut self, offset: UtcOffset, now_ms: i64)
        ensures
            final(self).wf(),
            final(self).next_id() == old(self).next_id(),
            final(self).timezone() == offset,
            offset == old(self).timezone() ==> final(self).entries() == old(self).entries(),
            offset != old(self).timezone() ==> final(self).entries() == old(self).rezoned(offset, now_ms),
    {
        proof {
            use_type_invariant(&*self);
        }
        if offset != self.tz {
            self.set_timezone_at(offset, now_ms);
        }
    }

    /// The jobs, in the order the scheduler keeps them.
    pub fn jobs(&self) -> (jobs: &Vec<AsyncEntry<J>>)
        ensures
            jobs@ == self.entries(),
    {
        &self.entries
    }

    /// Removes the job with identifier `id`, keeping the others in order.
    fn remove_entry(&mut self, id: usize)
        ensures
            final(self).wf(),
            final(self).timezone() == old(self).timezone(),
            final(self).next_id() == old(self).next_id(),
            !has_id(final(self).entries(), id),
            has_id(old(self).entries(), id) ==> exists|i: int|
                0 <= i < old(self).entries().len() && #[trigger] old(self).entries()[i].id == id
                    && final(self).entries() == old(self).entries().remove(i),
            !has_id(old(self).entries(), id) ==> final(self).entries() == old(self).entries(),
    {
        proof {
            use_type_invariant(&*self);
        }
        let mut entries: Vec<AsyncEntry<J>> = Vec::new();
        std::mem::swap(&mut entries, &mut self.entries);
        remove_job(&mut entries, id, Ghost(self.next_id));
        std::mem::swap(&mut entries, &mut self.entries);
    }

    /// Removes the job with identifier `id`; the other jobs stay, in order.
    /// Removing an identifier that no job has changes nothing.
    pub fn remove(&mut self, id: usize)
        ensures
            final(self).wf(),
            final(self).timezone() == old(self).timezone(),
            final(self).next_id() == old(self).next_id(),
            !has_id(final(self).entries(), id),
            has_id(old(self).entries(), id) ==> exists|i: int|
                0 <= i < old(self).entries().len() && #[trigger] old(self).entries()[i].id == id
                    && final(self).entries() == old(self).entries().remove(i),
            !has_id(old(self).entries(), id) ==> final(self).entries() == old(self).entries(),
    {
        proof {
            use_type_invariant(&*self);
        }
        self.remove_entry(id)
    }

    /// Gives every job its next fire time after `now_ms`, as the scheduler
    /// loop does when it starts.
    pub fn reset_next_times(&mut self, now_ms: i64)
        ensures
            final(self).wf(),
            final(self).timezone() == old(self).timezone(),
            final(self).next_id() == old(self).next_id(),
            final(self).entries().len() == old(self).entries().len(),
            forall|k: int|
                0 <= k < old(self).entries().len() ==> #[trigger] final(self).entries()[k]
                    == old(self).entries()[k].with_next(
                    old(self).entries()[k].upcoming_after(old(self).timezone(), now_ms),
                ),
            forall|k: int| 0 <= k < final(self).entries().len() ==> !is_due(#[trigger] final(self).entries()[k].next, now_ms),
    {
        proof {
            use_type_invariant(&*self);
        }
        let mut entries: Vec<AsyncEntry<J>> = Vec::new();
        std::mem::swap(&mut entries, &mut self.entries);
        let n = entries.len();
        let mut i: usize = 0;
        while i < n
            invariant
                n == entries@.len(),
                n == old(self).entries@.len(),
                i <= n,
                self.tz == old(self).tz,
                self.next_id == old(self).next_id,
                old(self).wf(),
                forall|k: int| i <= k < n ==> #[trigger] entries@[k] == old(self).entries@[k],
                forall|k: int|
                    0 <= k < i ==> #[trigger] entries@[k] == old(self).entries@[k].with_next(
                        old(self).entries@[k].upcoming_after(old(self).tz, now_ms),
                    ),
                forall|k: int| 0 <= k < i ==> !is_due(#[trigger] entries@[k].next, now_ms),
            decreases n - i,
        {
            let next = entries[i].get_next_after(self.tz, now_ms);
            let mut e = entries.remove(i);
            e.next = next;
            entries.insert(i, e);
            i = i + 1;
        }
        proof {
            assert forall|a: int| 0 <= a < n implies #[trigger] entries@[a].job_id() == old(self).entries@[a].job_id() by {}
        }
        std::mem::swap(&mut entries, &mut self.entries);
    }

    /// Orders the jobs by next run time (stable, a missing run time first),
    /// as the scheduler loop does before it waits, and returns how long to
    /// wait at `now_ms`: until the earliest run time, nothing when it has
    /// come, `MAX_WAIT_SECONDS` when no job has a run time.
    pub fn next_wait(&mut self, now_ms: i64) -> (wait: u64)
        ensures
            final(self).wf(),
            final(self).timezone() == old(self).timezone(),
            final(self).next_id() == old(self).next_id(),
            stable_sort_of(final(self).entries(), old(self).entries()),
            wait == wait_millis(earliest_next(old(self).entries()), now_ms),
    {
        proof {
            use_type_invariant(&*self);
        }
        let earliest = find_earliest_next(&self.entries);
        let mut entries: Vec<AsyncEntry<J>> = Vec::new();
        std::mem::swap(&mut entries, &mut self.entries);
        sort_jobs_by_next(&mut entries);
        proof {
            let order = choose|order: Seq<int>| reorders(entries@, old(self).entries@, order) && forall|a: int, b: int|
                0 <= a < b < order.len() && entries@[a].next_run() == entries@[b].next_run() ==> #[trigger] order[a] < #[trigger] order[b];
            lemma_reorder_keeps_ids_fresh(entries@, old(self).entries@, order, self.next_id);
        }
        std::mem::swap(&mut entries, &mut self.entries);
        match earliest {
            None => MAX_WAIT_SECONDS * 1000,
            Some(t) => {
                if t <= now_ms {
                    0
                } else {
                    let gap: i128 = t as i128 - now_ms as i128;
                    gap as u64
                }
            },
        }
    }

    /// [`AsyncCron::next_wait`], cut to `OFFSET_CHECK_MILLIS`: the scheduler loop
    /// looks at the zone's offset again at least that often, so that it
    /// follows a change of offset (daylight saving time) within that time.
    pub fn next_wait_capped(&mut self, now_ms: i64) -> (wait: u64)
        ensures
            final(self).wf(),
            final(self).timezone() == old(self).timezone(),
            final(self).next_id() == old(self).next_id(),
            stable_sort_of(final(self).entries(), old(self).entries()),
            wait == capped_wait(wait_millis(earliest_next(old(self).entries()), now_ms)),
    {
        let wait = self.next_wait(now_ms);
        if wait < OFFSET_CHECK_MILLIS {
            wait
        } else {
            OFFSET_CHECK_MILLIS
        }
    }

    /// Handles the jobs due at `now_ms`, as the scheduler loop does when its
    /// timer expires: returns copies of what they run, in the order of the
    /// jobs, and gives each due job its next fire time after `now_ms`; the
    /// other jobs stay as they are. Afterwards no job is due at `now_ms`.
    pub fn fire_due(&mut self, now_ms: i64) -> (runs: Vec<J>)
        where J: Clone
        ensures
            final(self).wf(),
            final(self).timezone() == old(self).timezone(),
            final(self).next_id() == old(self).next_id(),
            final(self).entries() == async_after_firing(old(self).entries(), old(self).timezone(), now_ms),
            final(self).entries().len() == old(self).entries().len(),
            forall|k: int| 0 <= k < old(self).entries().len() && is_due(old(self).entries()[k].next, now_ms)
                ==> #[trigger] final(self).entries()[k].next == scheduled_after(old(self).entries()[k].schedule@, old(self).timezone()@, now_ms),
            runs@.len() == async_due_runs(old(self).entries(), now_ms).len(),
            forall|k: int| 0 <= k < runs@.len() ==> cloned(#[trigger] async_due_runs(old(self).entries(), now_ms)[k], runs@[k]),
            forall|k: int| 0 <= k < final(self).entries().len() ==> !is_due(#[trigger] final(self).entries()[k].next, now_ms),
    {
        proof {
            use_type_invariant(&*self);
        }
        let mut entries: Vec<AsyncEntry<J>> = Vec::new();
        std::mem::swap(&mut entries, &mut self.entries);
        let n = entries.len();
        let mut runs: Vec<J> = Vec::new();
        let mut i: usize = 0;
        let ghost orig = entries@;
        proof {
            assert(orig.take(0) =~= Seq::<AsyncEntry<J>>::empty());
        }
        while i < n
            invariant
                n == entries@.len(),
                orig == old(self).entries@,
                n == orig.len(),
                i <= n,
                self.tz == old(self).tz,
                self.next_id == old(self).next_id,
                old(self).wf(),
                forall|k: int| i <= k < n ==> #[trigger] entries@[k] == orig[k],
                forall|k: int|
                    0 <= k < i ==> #[trigger] entries@[k] == if is_due(orig[k].next, now_ms) {
                        orig[k].with_next(orig[k].upcoming_after(old(self).tz, now_ms))
                    } else {
                        orig[k]
                    },
                forall|k: int| 0 <= k < i ==> !is_due(#[trigger] entries@[k].next, now_ms),
                runs@.len() == async_due_runs(orig.take(i as int), now_ms).len(),
                forall|k: int| 0 <= k < runs@.len() ==> cloned(#[trigger] async_due_runs(orig.take(i as int), now_ms)[k], runs@[k]),
            decreases n - i,
        {
            let ghost runs_before = runs@;
            proof {
                assert(orig.take(i + 1).drop_last() =~= orig.take(i as int));
                assert(orig.take(i + 1).last() == orig[i as int]);
            }
            let due = match entries[i].next {
                Some(t) => t <= now_ms,
                None => false,
            };
            if due {
                let run = entries[i].run.clone();
                runs.push(run);
                let next = entries[i].get_next_after(self.tz, now_ms);
                let mut e = entries.remove(i);
                e.next = next;
                entries.insert(i, e);
                proof {
                    assert forall|k: int| 0 <= k < runs@.len() implies cloned(#[trigger] async_due_runs(orig.take(i + 1), now_ms)[k], runs@[k]) by {
                        if k < runs_before.len() {
                            assert(runs@[k] == runs_before[k]);
                        }
                    }
                }
            }
            i = i + 1;
        }
        proof {
            assert(orig.take(n as int) =~= orig);
            assert forall|a: int| 0 <= a < n implies #[trigger] entries@[a].job_id() == old(self).entries@[a].job_id() by {}
            assert(entries@ =~= async_after_firing(orig, self.tz, now_ms));
        }
        std::mem::swap(&mut entries, &mut self.entries);
        runs
    }
}

} // verus!
