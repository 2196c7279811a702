use vstd::prelude::*;

verus! {

/// Seconds in a day: an offset from UTC lies strictly between minus and plus
/// this many seconds.
pub const SECONDS_PER_DAY: i32 = 86400;

/// A time zone given by a fixed offset from UTC, in seconds east of UTC.
///
/// The offset lies strictly between -86400 and 86400 seconds, as for
/// `chrono::FixedOffset`.
#[derive(Clone, Copy, Debug, PartialEq, Eq, Structural)]
pub struct UtcOffset {
    secs: i32,
}

impl View for UtcOffset {
    type V = i32;

    closed spec fn view(&self) -> i32 {
        self.secs
    }
}

/// An offset from UTC that a fixed time zone can have.
pub open spec fn valid_offset(secs: int) -> bool {
    -86400 < secs < 86400
}

impl UtcOffset {
    #[verifier::type_invariant]
    spec fn offset_in_range(self) -> bool {
        valid_offset(self.secs as int)
    }

    /// The UTC time zone itself.
    pub fn utc() -> (tz: UtcOffset)
        ensures
            tz@ == 0,
    {
        UtcOffset { secs: 0 }
    }

    /// The zone `secs` seconds east of UTC, if `secs` is a valid offset.
    pub fn east_opt(secs: i32) -> (tz: Option<UtcOffset>)
        ensures
            tz is Some <==> valid_offset(secs as int),
            tz matches Some(z) ==> z@ == secs,
    {
        if -SECONDS_PER_DAY < secs && secs < SECONDS_PER_DAY {
            Some(UtcOffset { secs })
        } else {
            None
        }
    }

    /// The zone `secs` seconds west of UTC, if `secs` is a valid offset.
    pub fn west_opt(secs: i32) -> (tz: Option<UtcOffset>)
        ensures
            tz is Some <==> valid_offset(secs as int),
            tz matches Some(z) ==> z@ == -secs,
    {
        if -SECONDS_PER_DAY < secs && secs < SECONDS_PER_DAY {
            Some(UtcOffset { secs: -secs })
        } else {
            None
        }
    }

    /// The offset in seconds east of UTC.
    pub fn local_minus_utc(&self) -> (secs: i32)
        ensures
            secs == self@,
            valid_offset(secs as int),
    {
        proof {
            use_type_invariant(self);
        }
        self.secs
    }
}

/// A span of time: whole seconds and the nanoseconds beyond them, as in
/// `std::time::Duration`.
#[derive(Clone, Copy, Debug, PartialEq, Eq)]
pub struct Delay {
    secs: u64,
    nanos: u32,
}

/// Nanoseconds in a second.
pub const NANOS_PER_SEC: u32 = 1_000_000_000;

impl View for Delay {
    type V = (u64, u32);

    /// Whole seconds and the nanoseconds beyond them.
    closed spec fn view(&self) -> (u64, u32) {
        (self.secs, self.nanos)
    }
}

impl Delay {
    #[verifier::type_invariant]
    spec fn nanos_below_second(self) -> bool {
        self.nanos < NANOS_PER_SEC
    }

    /// `secs` seconds and `nanos` nanoseconds; whole seconds in `nanos` carry
    /// over into the seconds, as `Duration::new` does.
    pub fn new(secs: u64, nanos: u32) -> (d: Delay)
        requires
            secs + nanos / 1_000_000_000 <= u64::MAX,
        ensures
            d@ == ((secs + nanos / 1_000_000_000) as u64, (nanos % 1_000_000_000) as u32),
    {
        let carry: u32 = nanos / NANOS_PER_SEC;
        Delay { secs: secs + carry as u64, nanos: nanos % NANOS_PER_SEC }
    }

    /// `secs` whole seconds.
    pub fn from_secs(secs: u64) -> (d: Delay)
        ensures
            d@ == (secs, 0u32),
    {
        Delay { secs, nanos: 0 }
    }

    /// `millis` milliseconds.
    pub fn from_millis(millis: u64) -> (d: Delay)
        ensures
            d@ == (millis / 1000, ((millis % 1000) * 1_000_000) as u32),
    {
        let rest: u64 = millis % 1000;
        Delay { secs: millis / 1000, nanos: (rest * 1_000_000) as u32 }
    }

    /// The whole seconds.
    pub fn as_secs(&self) -> (secs: u64)
        ensures
            secs == self@.0,
    {
        self.secs
    }

    /// The nanoseconds beyond the whole seconds; always below one second.
    pub fn subsec_nanos(&self) -> (nanos: u32)
        ensures
            nanos == self@.1,
            nanos < NANOS_PER_SEC,
    {
        proof {
            use_type_invariant(self);
        }
        self.nanos
    }
}

/// Whether `chrono::Duration::from_std` accepts a duration of `secs` seconds
/// and `nanos` nanoseconds: it must not exceed `chrono`'s largest duration,
/// `i64::MAX` milliseconds, that is 9223372036854775 seconds and
/// 807000000 nanoseconds.
pub open spec fn chrono_accepts_delay(secs: u64, nanos: u32) -> bool {
    secs < 9223372036854775 || (secs == 9223372036854775 && nanos <= 807_000_000)
}

/// The length in nanoseconds of `secs` seconds and `nanos` nanoseconds.
pub open spec fn delay_nanos(secs: u64, nanos: u32) -> int {
    secs * 1_000_000_000 + nanos
}

/// The whole milliseconds in `secs` seconds and `nanos` nanoseconds, rounded
/// up: the first whole millisecond that is not earlier than the end of the
/// delay.
pub open spec fn delay_millis_ceil(secs: u64, nanos: u32) -> int {
    secs * 1000 + (nanos + 999_999) / 1_000_000
}

/// `chrono::Duration::from_std` followed by `num_seconds` and
/// `subsec_nanos`: the delay as `chrono` holds it, or `None` where `chrono`
/// refuses the duration. Both parts follow `TimeDelta::from_std`,
/// `TimeDelta::new`, `TimeDelta::num_seconds` and `TimeDelta::subsec_nanos`
/// in the `chrono` source: an accepted duration keeps its seconds and
/// nanoseconds.
#[verifier::external_body]
pub(crate) fn chrono_delay(secs: u64, nanos: u32) -> (delay: Option<(i64, i32)>)
    requires
        nanos < NANOS_PER_SEC,
    ensures
        delay is Some <==> chrono_accepts_delay(secs, nanos),
        delay matches Some(d) ==> d.0 == secs && d.1 == nanos,
{
    match chrono::Duration::from_std(std::time::Duration::new(secs, nanos)) {
        Ok(d) => Some((d.num_seconds(), d.subsec_nanos())),
        Err(_) => None,
    }
}

/// The largest instant, in milliseconds since the epoch, that the clock can
/// give: `chrono`'s latest date (the end of year 262142) lies below it.
pub const MAX_CLOCK_MILLIS: i64 = 8_300_000_000_000_000;

/// `chrono::Utc::now`, read as whole milliseconds since the epoch (rounded
/// down) and the nanoseconds beyond the whole second. It reads the system
/// clock, so only ranges are claimed: `Utc::now` builds its result from the
/// time since the epoch (it panics on a clock set before 1970) with
/// `DateTime::from_timestamp(..).unwrap()`, so the reading is not before the
/// epoch, not after `chrono`'s latest date, and has fewer than a second of
/// nanoseconds.
#[verifier::external_body]
fn clock_reading() -> (reading: (i64, u32))
    ensures
        0 <= reading.0 <= MAX_CLOCK_MILLIS,
        reading.1 < NANOS_PER_SEC,
{
    let now = chrono::Utc::now();
    (now.timestamp_millis(), now.timestamp_subsec_nanos())
}

/// The present instant in whole milliseconds, rounded down.
pub(crate) fn clock_now_millis() -> (now_ms: i64)
    ensures
        0 <= now_ms <= MAX_CLOCK_MILLIS,
{
    let (millis, _nanos) = clock_reading();
    millis
}

/// The present instant in whole milliseconds, rounded up: the reading is
/// moved to the next millisecond when it has nanoseconds beyond a whole one.
pub(crate) fn clock_now_millis_ceil() -> (now_ms: i64)
    ensures
        0 <= now_ms <= MAX_CLOCK_MILLIS + 1,
{
    let (millis, nanos) = clock_reading();
    if nanos % 1_000_000 != 0 {
        millis + 1
    } else {
        millis
    }
}

/// The number that follows `serial` among the readings of one scheduler
/// (it starts over after `u64::MAX`).
pub open spec fn next_serial(serial: u64) -> u64 {
    if serial < u64::MAX {
        (serial + 1) as u64
    } else {
        0
    }
}

/// One reading of the system clock, numbered by `serial` among the readings
/// that one scheduler takes.
///
/// The fields are private to this module and `ClockReading::take` is the
/// only function that makes one, from `chrono::Utc::now`: every value of
/// this type that executable code holds is a reading of the clock. The
/// scheduler's contracts speak of the reading that an operation took, so the
/// instant that a clock-based operation works from is the clock's present
/// instant, not some other number.
pub struct ClockReading {
    millis: i64,
    extra_nanos: u32,
    serial: u64,
}

impl ClockReading {
    #[verifier::type_invariant]
    spec fn reading_in_range(self) -> bool {
        &&& 0 <= self.millis <= MAX_CLOCK_MILLIS
        &&& self.extra_nanos < 1_000_000
    }

    /// The instant read, in whole milliseconds since the epoch, rounded down.
    pub closed spec fn instant_millis(&self) -> i64 {
        self.millis
    }

    /// The nanoseconds of the reading beyond its whole milliseconds.
    pub closed spec fn extra_nanos(&self) -> u32 {
        self.extra_nanos
    }

    /// The number of the reading among one scheduler's readings.
    pub closed spec fn serial(&self) -> u64 {
        self.serial
    }

    /// The instant read, in nanoseconds since the epoch.
    pub open spec fn instant_nanos(&self) -> int {
        self.instant_millis() * 1_000_000 + self.extra_nanos()
    }

    /// The instant read, rounded up to a whole millisecond.
    pub open spec fn instant_millis_ceil(&self) -> i64 {
        if self.extra_nanos() > 0 {
            (self.instant_millis() + 1) as i64
        } else {
            self.instant_millis()
        }
    }

    /// Reads the clock; the reading gets the number `serial`.
    pub(crate) fn take(serial: u64) -> (r: ClockReading)
        ensures
            r.serial() == serial,
            0 <= r.instant_millis() <= MAX_CLOCK_MILLIS,
            r.extra_nanos() < 1_000_000,
    {
        let (millis, nanos) = clock_reading();
        ClockReading { millis, extra_nanos: nanos % 1_000_000, serial }
    }

    /// The instant read, in whole milliseconds, rounded down.
    pub fn millis(&self) -> (ms: i64)
        ensures
            ms == self.instant_millis(),
            0 <= ms <= MAX_CLOCK_MILLIS,
    {
        proof {
            use_type_invariant(self);
        }
        self.millis
    }

    /// The instant read, rounded up to a whole millisecond.
    pub fn millis_ceil(&self) -> (ms: i64)
        ensures
            ms == self.instant_millis_ceil(),
            0 <= ms <= MAX_CLOCK_MILLIS + 1,
            ms * 1_000_000 >= self.instant_nanos(),
    {
        proof {
            use_type_invariant(self);
        }
        if self.extra_nanos > 0 {
            self.millis + 1
        } else {
            self.millis
        }
    }

    /// The number of the reading.
    pub fn serial_number(&self) -> (serial: u64)
        ensures
            serial == self.serial(),
    {
        self.serial
    }
}

/// The number after `serial`.
pub(crate) fn following_serial(serial: u64) -> (next: u64)
    ensures
        next == next_serial(serial),
{
    if serial < u64::MAX {
        serial + 1
    } else {
        0
    }
}

} // verus!
