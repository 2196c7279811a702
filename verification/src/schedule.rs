use std::str::FromStr;

use vstd::prelude::*;

use crate::error::CronError;
use crate::time::{UtcOffset, valid_offset};

verus! {

/// `cron::Schedule`, a parsed cron expression, carried through unopened.
#[verifier::external_type_specification]
#[verifier::external_body]
pub struct ExCronSchedule(cron::Schedule);

/// Whether the `cron` crate's parser accepts `expression` as a cron
/// expression. The grammar is the crate's own; it is named, not restated.
pub uninterp spec fn cron_expression_accepted(expression: Seq<char>) -> bool;

/// The first fire time, in milliseconds since the epoch, that the `cron`
/// crate finds for `expression` strictly after the instant `after_ms`, with
/// the calendar fields read in the zone `offset_secs` seconds east of UTC;
/// `None` when the schedule has no later fire time.
pub uninterp spec fn cron_next_fire(expression: Seq<char>, offset_secs: i32, after_ms: i64) -> Option<i64>;

/// Earliest instant from which fire times are looked up (about year -251,000).
pub const MIN_LOOKUP_MILLIS: i64 = -8_000_000_000_000_000;

/// Latest instant from which fire times are looked up (about year 255,000).
/// Cron expressions only name years up to 2100, so no schedule fires later.
pub const MAX_LOOKUP_MILLIS: i64 = 8_000_000_000_000_000;

/// The next fire time of `expression` after `after_ms` in the zone
/// `offset_secs`, or `None` when there is none or `after_ms` lies outside
/// the range of instants that are looked up. A fire time is always later
/// than `after_ms` (the lookup below guarantees it), so the comparison in
/// this definition never discards one; it makes the fact usable in proofs.
pub open spec fn scheduled_after(expression: Seq<char>, offset_secs: i32, after_ms: i64) -> Option<i64> {
    if MIN_LOOKUP_MILLIS <= after_ms <= MAX_LOOKUP_MILLIS {
        match cron_next_fire(expression, offset_secs, after_ms) {
            Some(t) => if after_ms < t { Some(t) } else { None },
            None => None,
        }
    } else {
        None
    }
}

/// `cron::Schedule::from_str`: parses a cron expression. The contract claims
/// only that the outcome depends on the expression alone.
#[verifier::external_body]
fn parse_expression(expression: &str) -> (res: std::result::Result<cron::Schedule, cron::error::Error>)
    ensures
        res is Ok <==> cron_expression_accepted(expression@),
{
    cron::Schedule::from_str(expression)
}

/// `cron::Schedule::clone`. Nothing is claimed of the copy; the schedule's
/// expression, which is what the contracts speak of, is kept beside it.
pub assume_specification [<cron::Schedule as std::clone::Clone>::clone] (schedule: &cron::Schedule) -> cron::Schedule;

/// A parsed cron schedule together with the expression it was parsed from.
#[derive(Debug)]
pub struct CronSchedule {
    expression: String,
    parsed: cron::Schedule,
}

impl View for CronSchedule {
    type V = Seq<char>;

    /// A schedule is seen as the expression it was parsed from.
    closed spec fn view(&self) -> Seq<char> {
        self.expression@
    }
}

/// `cron::Schedule::after(..).next()`: the first fire time of the schedule
/// strictly after `after_ms`, computed in the fixed zone `offset_secs`.
/// The contract claims that the result depends on the expression, the offset
/// and the instant alone, and that a fire time lies strictly after `after_ms`
/// (the crate starts its search one second after the given instant and
/// returns whole seconds). The requires keep the conversions to `chrono`
/// values within their ranges.
#[verifier::external_body]
fn next_fire_after(schedule: &CronSchedule, offset_secs: i32, after_ms: i64) -> (res: Option<i64>)
    requires
        valid_offset(offset_secs as int),
        MIN_LOOKUP_MILLIS <= after_ms <= MAX_LOOKUP_MILLIS,
    ensures
        res == cron_next_fire(schedule@, offset_secs, after_ms),
        res matches Some(t) ==> after_ms < t,
{
    let zone = chrono::FixedOffset::east_opt(offset_secs).unwrap();
    let start = chrono::DateTime::from_timestamp_millis(after_ms).unwrap().with_timezone(&zone);
    match schedule.parsed.after(&start).next() {
        Some(fire) => Some(fire.timestamp_millis()),
        None => None,
    }
}

impl Clone for CronSchedule {
    fn clone(&self) -> (copy: CronSchedule)
        ensures
            copy@ == self@,
    {
        CronSchedule { expression: self.expression.clone(), parsed: self.parsed.clone() }
    }
}

impl CronSchedule {
    /// Parses `expression`; fails with `CronError::ParseError` exactly when
    /// the `cron` crate rejects it.
    pub fn parse(expression: &str) -> (res: std::result::Result<CronSchedule, CronError>)
        ensures
            res is Ok <==> cron_expression_accepted(expression@),
            res matches Ok(s) ==> s@ == expression@,
            res matches Err(e) ==> e is ParseError,
    {
        match parse_expression(expression) {
            Ok(parsed) => Ok(CronSchedule { expression: expression.to_owned(), parsed }),
            Err(e) => Err(CronError::ParseError(e)),
        }
    }

    /// The expression this schedule was parsed from.
    pub fn source(&self) -> (expression: &str)
        ensures
            expression@ == self@,
    {
        self.expression.as_str()
    }

    /// The first fire time strictly after `after_ms` in the zone `tz`.
    pub fn next_after(&self, tz: UtcOffset, after_ms: i64) -> (next: Option<i64>)
        ensures
            next == scheduled_after(self@, tz@, after_ms),
            next matches Some(t) ==> after_ms < t,
            MIN_LOOKUP_MILLIS <= after_ms <= MAX_LOOKUP_MILLIS ==> next == cron_next_fire(self@, tz@, after_ms),
            !(MIN_LOOKUP_MILLIS <= after_ms <= MAX_LOOKUP_MILLIS) ==> next is None,
    {
        let offset = tz.local_minus_utc();
        if MIN_LOOKUP_MILLIS <= after_ms && after_ms <= MAX_LOOKUP_MILLIS {
            next_fire_after(self, offset, after_ms)
        } else {
            None
        }
    }
}

/// Fire times are looked up in the zone's full offset, to the second: for
/// any expression, offset and instant in the looked-up range, the next fire
/// time is the one that the `cron` crate finds with the calendar read at
/// exactly that offset, and it is later than the instant.
pub proof fn law_fire_time_uses_full_offset(expression: Seq<char>, offset_secs: i32, after_ms: i64)
    ensures
        scheduled_after(expression, offset_secs, after_ms) matches Some(t) ==> cron_next_fire(expression, offset_secs, after_ms) == Some(t) && after_ms < t,
        MIN_LOOKUP_MILLIS <= after_ms <= MAX_LOOKUP_MILLIS && (cron_next_fire(expression, offset_secs, after_ms) matches Some(t) && after_ms < t)
            ==> scheduled_after(expression, offset_secs, after_ms) == cron_next_fire(expression, offset_secs, after_ms),
        !(MIN_LOOKUP_MILLIS <= after_ms <= MAX_LOOKUP_MILLIS) ==> scheduled_after(expression, offset_secs, after_ms) is None,
{
}

} // verus!
