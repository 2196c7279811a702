# cron_tab

A cron job scheduler with seven-field, second-precision cron expressions
(`sec min hour day month weekday year`), verified with Verus.

- `src/` is the verified library. `Cron<J>` (jobs that recur under a cron
  schedule or run once) and `AsyncCron<J>` (recurring jobs) hold the job
  table and take every scheduling decision: job identifiers, first run
  times, removal, the order of the table, how long the scheduler waits, which
  jobs are due at an instant, and what becomes of them. The `cron` crate parses
  expressions and finds fire times; `chrono` reads the clock and converts
  delays. Those calls sit behind small trusted wrappers whose contracts are
  documented beside them. Well-formedness of a scheduler (distinct job
  identifiers below the next one) is a type invariant, so no operation has a
  precondition. `laws.rs` states and proves properties that span several
  operations.
- `app/` wraps the library for use from threads (`Cron<Z>`, with crossbeam
  channels) and from tokio (`AsyncCron<Z>`), with any `chrono` time zone and
  closures as jobs. The library computes fire times at fixed offsets and
  caps every wait at a minute (`next_wait_capped`); at each wake the loops
  read the zone (shared by all clones of a scheduler, so `set_timezone` on
  any clone reaches a running loop) and hand its offset to
  `follow_offset_at`, so zones with daylight saving time are followed within
  a minute of a change.
- `tests/` exercises the library.
