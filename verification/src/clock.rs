//! Clocks: the `Clock` trait the devices read time through, a virtual clock
//! that tests and captures advance by hand, and civil dates from Unix time.
use vstd::prelude::*;

verus! {

pub const US_PER_MS: u64 = 1000;
pub const NS_PER_US: u64 = 1000;
pub const MS_PER_SEC: u64 = 1000;
pub const SEC_PER_MIN: u64 = 60;
pub const MIN_PER_HOUR: u64 = 60;
pub const HOUR_PER_DAY: u64 = 24;
pub const MS_PER_DAY: u64 = 86_400_000;
pub const UNIX_TO_CIVIL_DAYS: i64 = 719_468;
pub const DAYS_PER_ERA: i64 = 146_097;
pub const YEAR_ORIGIN: i32 = 1900;

/// A source of monotonic and wall time.
pub trait Clock {
    fn monotonic_ms(&self) -> u64;

    fn monotonic_us(&self) -> u64;

    fn monotonic_ns(&self) -> u64;

    fn wall_ms(&self) -> u64;

    /// The civil time of `wall_ms`.
    fn wall_stamp(&self) -> WallStamp {
        WallStamp::from_unix_ms(self.wall_ms())
    }
}

/// Civil time. `millis` is the log lines' field: microseconds divided by 1000.
#[derive(Clone, Copy, Debug, PartialEq, Eq, Structural)]
pub struct WallStamp {
    pub year: i32,
    pub month: u8,
    pub day: u8,
    pub hour: u8,
    pub minute: u8,
    pub second: u8,
    pub millis: u16,
}

/// A clock that only moves when it is told to.
#[derive(Clone, Copy, Debug)]
pub struct VirtualClock {
    monotonic_us: u64,
    wall_ms: u64,
}

/// `a + b`, or `u64::MAX` when that does not fit.
pub open spec fn sat_add(a: int, b: int) -> u64 {
    if a + b > u64::MAX { u64::MAX } else { (a + b) as u64 }
}

impl VirtualClock {
    pub closed spec fn spec_us(&self) -> u64 {
        self.monotonic_us
    }

    pub closed spec fn spec_wall_ms(&self) -> u64 {
        self.wall_ms
    }

    /// A clock at zero.
    pub fn new() -> (c: Self)
        ensures
            c.spec_us() == 0,
            c.spec_wall_ms() == 0,
    {
        VirtualClock { monotonic_us: 0, wall_ms: 0 }
    }

    /// Moves both clocks forward; wall time moves by whole milliseconds.
    pub fn advance_us(&mut self, delta_us: u64)
        ensures
            final(self).spec_us() == sat_add(old(self).spec_us() as int, delta_us as int),
            final(self).spec_wall_ms() == sat_add(
                old(self).spec_wall_ms() as int,
                (delta_us / US_PER_MS) as int,
            ),
    {
        self.monotonic_us = self.monotonic_us.saturating_add(delta_us);
        self.wall_ms = self.wall_ms.saturating_add(delta_us / US_PER_MS);
    }

    /// A clock advanced to `now_ns`, in whole microseconds.
    pub fn from_monotonic_ns(now_ns: u64) -> (c: Self)
        ensures
            c.spec_us() == now_ns / NS_PER_US,
            c.spec_wall_ms() == now_ns / NS_PER_US / US_PER_MS,
    {
        let mut clock = Self::new();
        clock.advance_us(now_ns / NS_PER_US);
        clock
    }
}

impl Clock for VirtualClock {
    fn monotonic_ms(&self) -> (r: u64)
        ensures
            r == self.spec_us() / US_PER_MS,
    {
        self.monotonic_us / US_PER_MS
    }

    fn monotonic_us(&self) -> (r: u64)
        ensures
            r == self.spec_us(),
    {
        self.monotonic_us
    }

    fn monotonic_ns(&self) -> (r: u64)
        ensures
            r == sat_mul_1000(self.spec_us()),
    {
        if self.monotonic_us > u64::MAX / NS_PER_US {
            u64::MAX
        } else {
            self.monotonic_us * NS_PER_US
        }
    }

    fn wall_ms(&self) -> (r: u64)
        ensures
            r == self.spec_wall_ms(),
    {
        self.wall_ms
    }
}

/// `1000 * a`, or `u64::MAX` when that does not fit.
pub open spec fn sat_mul_1000(a: u64) -> u64 {
    if a * 1000 > u64::MAX { u64::MAX } else { (a * 1000) as u64 }
}

/// Civil date of a day count from 1970-01-01, by days from 0000-03-01 split into
/// 400-year eras: `(year, month index from March, day of month)`.
pub open spec fn civil_parts(unix_days: int) -> (int, int, int) {
    let z = unix_days + UNIX_TO_CIVIL_DAYS as int;
    let era = z / (DAYS_PER_ERA as int);
    let doe = z - era * (DAYS_PER_ERA as int);
    let yoe = (doe - doe / 1460 + doe / 36524 - doe / 146096) / 365;
    let doy = doe - (365 * yoe + yoe / 4 - yoe / 100);
    let mp = (5 * doy + 2) / 153;
    let day = doy - (153 * mp + 2) / 5 + 1;
    (yoe + era * 400, mp, day)
}

/// Year, month and day of a day count from 1970-01-01 (proleptic Gregorian,
/// before 1970 too); a day or month that does not fit a byte falls back to 1
/// (3 for a month from March on), and a year past `i32` to 0.
pub open spec fn civil_ymd_spec(unix_days: int) -> (i32, u8, u8) {
    let (y, mp, d) = civil_parts(unix_days);
    let day: u8 = if 0 <= d <= 255 { d as u8 } else { 1 };
    let month: u8 = if mp < 10 { if 0 <= mp + 3 <= 255 { (mp + 3) as u8 } else { 3 } } else if 0 <= mp - 9
        <= 255 { (mp - 9) as u8 } else { 1 };
    let y32 = if i32::MIN <= y <= i32::MAX { y } else { 0 };
    let year = if month <= 2 { y32 + 1 } else { y32 };
    (year as i32, month, day)
}

#[verifier::rlimit(50)]
#[verifier::spinoff_prover]
fn civil_ymd(unix_days: i64) -> (r: (i32, u8, u8))
    requires
        unix_days <= 213_503_982_334,
    ensures
        r == civil_ymd_spec(unix_days as int),
{
    let z: i64 = unix_days + UNIX_TO_CIVIL_DAYS;
    let era: i64 = if z >= 0 { z / DAYS_PER_ERA } else { -((-z + (DAYS_PER_ERA - 1)) / DAYS_PER_ERA) };
    proof {
        if z < 0 {
            let w: int = -z;
            let q: int = (w + 146096) / 146097;
            assert(q * 146097 <= w + 146096 < q * 146097 + 146097) by (nonlinear_arith)
                requires
                    q == (w + 146096) / 146097,
                    w > 0,
            ;
            assert(z as int / 146097 == -q) by (nonlinear_arith)
                requires
                    -q * 146097 <= z < -q * 146097 + 146097,
            ;
        }
    }
    assert(era == z as int / (DAYS_PER_ERA as int));
    assert(era <= 1_500_000);
    let doe: i64 = z - era * DAYS_PER_ERA;
    assert(0 <= doe < DAYS_PER_ERA);
    let yoe: i64 = (doe - doe / 1460 + doe / 36524 - doe / 146096) / 365;
    assert(0 <= yoe <= 400);
    let year_base: i64 = yoe + era * 400;
    let doy: i64 = doe - (365 * yoe + yoe / 4 - yoe / 100);
    assert(-200_000 <= doy <= 200_000);
    let mp: i64 = (5 * doy + 2) / 153;
    let d: i64 = doy - (153 * mp + 2) / 5 + 1;
    let day: u8 = if 0 <= d && d <= 255 { d as u8 } else { 1 };
    let month: u8 = if mp < 10 {
        if 0 <= mp + 3 && mp + 3 <= 255 { (mp + 3) as u8 } else { 3 }
    } else if 0 <= mp - 9 && mp - 9 <= 255 {
        (mp - 9) as u8
    } else {
        1
    };
    let y32: i32 = if i32::MIN as i64 <= year_base && year_base <= i32::MAX as i64 { year_base as i32 } else { 0 };
    assert(y32 < i32::MAX);
    let year: i32 = if month <= 2 { y32 + 1 } else { y32 };
    (year, month, day)
}

/// The civil time of `ms` milliseconds since the Unix epoch.
pub open spec fn spec_wall_stamp(ms: u64) -> WallStamp {
    let days = ms / MS_PER_DAY;
    let tod = ms % MS_PER_DAY;
    let (year, month, day) = civil_ymd_spec(days as int);
    WallStamp {
        year,
        month,
        day,
        hour: (tod / 3_600_000) as u8,
        minute: ((tod / 60_000) % 60) as u8,
        second: ((tod / 1000) % 60) as u8,
        millis: (tod % 1000) as u16,
    }
}

impl WallStamp {
    /// The civil time of `ms` milliseconds since the Unix epoch.
    pub fn from_unix_ms(ms: u64) -> (s: Self)
        ensures
            s == spec_wall_stamp(ms),
            s.hour < 24,
            s.minute < 60,
            s.second < 60,
            s.millis < 1000,
    {
        let days = ms / MS_PER_DAY;
        let tod = ms % MS_PER_DAY;
        let hour = (tod / 3_600_000) as u8;
        let minute = ((tod / 60_000) % 60) as u8;
        let second = ((tod / 1000) % 60) as u8;
        let millis = (tod % 1000) as u16;
        let (year, month, day) = civil_ymd(days as i64);
        WallStamp { year, month, day, hour, minute, second, millis }
    }
}


/// A leap year of the proleptic Gregorian calendar.
pub open spec fn is_leap_year(y: int) -> bool {
    y % 4 == 0 && (y % 100 != 0 || y % 400 == 0)
}

/// Days in month `m` (1 to 12) of year `y`.
pub open spec fn days_in_month(y: int, m: int) -> int {
    if m == 2 {
        if is_leap_year(y) { 29 } else { 28 }
    } else if m == 4 || m == 6 || m == 9 || m == 11 {
        30
    } else {
        31
    }
}

/// Days in the months of year `y` before month `m` (1 to 12).
pub open spec fn days_before_month(y: int, m: int) -> int {
    let common: int = if m == 1 {
        0
    } else if m == 2 {
        31
    } else if m == 3 {
        59
    } else if m == 4 {
        90
    } else if m == 5 {
        120
    } else if m == 6 {
        151
    } else if m == 7 {
        181
    } else if m == 8 {
        212
    } else if m == 9 {
        243
    } else if m == 10 {
        273
    } else if m == 11 {
        304
    } else {
        334
    };
    common + if m > 2 && is_leap_year(y) { 1int } else { 0 }
}

/// How many leap years there are from year 1 up to year `n`.
pub open spec fn leap_count(n: int) -> int {
    n / 4 - n / 100 + n / 400
}

/// The number of days from 1970-01-01 to the date `y`-`m`-`d`.
pub open spec fn days_from_civil(y: int, m: int, d: int) -> int {
    365 * (y - 1970) + leap_count(y - 1) - leap_count(1969) + days_before_month(y, m) + d - 1
}

/// The civil date inside a 400-year era, from its day `doe` counted from
/// March 1st of the era's first year: year of the era, month, day.
spec fn era_date(doe: int) -> (int, int, int) {
    let yoe = (doe - doe / 1460 + doe / 36524 - doe / 146096) / 365;
    let doy = doe - (365 * yoe + yoe / 4 - yoe / 100);
    let mp = (5 * doy + 2) / 153;
    let d = doy - (153 * mp + 2) / 5 + 1;
    let m = if mp < 10 { mp + 3 } else { mp - 9 };
    (if m <= 2 { yoe + 1 } else { yoe }, m, d)
}

#[verifier::spinoff_prover]
#[verifier::rlimit(60)]
proof fn lemma_era_date(doe: int)
    requires
        0 <= doe < 146097,
    ensures
        1 <= era_date(doe).1 <= 12,
        1 <= era_date(doe).2 <= days_in_month(era_date(doe).0, era_date(doe).1),
        0 <= era_date(doe).0 <= 400,
        days_from_civil(era_date(doe).0, era_date(doe).1, era_date(doe).2) == doe - 719_468,
{
}

proof fn lemma_era_shift(y: int, m: int, d: int, e: int)
    ensures
        days_from_civil(y + 400 * e, m, d) == days_from_civil(y, m, d) + 146_097 * e,
        days_in_month(y + 400 * e, m) == days_in_month(y, m),
{
    vstd::arithmetic::div_mod::lemma_mod_multiples_vanish(100 * e, y, 4);
    vstd::arithmetic::div_mod::lemma_mod_multiples_vanish(4 * e, y, 100);
    vstd::arithmetic::div_mod::lemma_mod_multiples_vanish(e, y, 400);
    assert(4 * (100 * e) + y == y + 400 * e);
    assert(100 * (4 * e) + y == y + 400 * e);
    assert(is_leap_year(y + 400 * e) == is_leap_year(y));
    vstd::arithmetic::div_mod::lemma_hoist_over_denominator(y - 1, 100 * e, 4);
    vstd::arithmetic::div_mod::lemma_hoist_over_denominator(y - 1, 4 * e, 100);
    vstd::arithmetic::div_mod::lemma_hoist_over_denominator(y - 1, e, 400);
    assert((100 * e) * 4 == 400 * e);
    assert((4 * e) * 100 == 400 * e);
    assert(leap_count(y - 1 + 400 * e) == leap_count(y - 1) + 97 * e);
    assert(days_before_month(y + 400 * e, m) == days_before_month(y, m));
}

proof fn lemma_time_of_day(tod: int)
    requires
        0 <= tod < 86_400_000,
    ensures
        tod / 3_600_000 < 24,
        (tod / 3_600_000) * 3_600_000 + ((tod / 60_000) % 60) * 60_000 + ((tod / 1000) % 60) * 1000 + tod % 1000 == tod,
{
}

proof fn lemma_civil_ymd(days: int)
    requires
        0 <= days <= 213_503_982_334,
    ensures
        ({
            let z = days + 719_468;
            let era = z / 146_097;
            let ed = era_date(z - era * 146_097);
            &&& 0 <= era <= 1_500_000
            &&& civil_ymd_spec(days).0 as int == ed.0 + 400 * era
            &&& civil_ymd_spec(days).1 as int == ed.1
            &&& civil_ymd_spec(days).2 as int == ed.2
            &&& 1 <= ed.1 <= 12
            &&& 1 <= ed.2 <= days_in_month(ed.0, ed.1)
            &&& days_from_civil(ed.0, ed.1, ed.2) == z - era * 146_097 - 719_468
        }),
{
    let z = days + 719_468;
    let era = z / 146_097;
    let doe = z - era * 146_097;
    lemma_era_date(doe);
}

/// A wall stamp holds a real calendar date, which lies `ms / MS_PER_DAY`
/// days after 1970-01-01, and a time of day that adds up to the
/// milliseconds past that midnight.
pub proof fn wall_stamp_is_the_civil_date(ms: u64)
    ensures
        1 <= spec_wall_stamp(ms).month <= 12,
        1 <= spec_wall_stamp(ms).day <= days_in_month(spec_wall_stamp(ms).year as int, spec_wall_stamp(ms).month as int),
        days_from_civil(spec_wall_stamp(ms).year as int, spec_wall_stamp(ms).month as int, spec_wall_stamp(ms).day as int)
            == ms / MS_PER_DAY,
        spec_wall_stamp(ms).hour * 3_600_000int + spec_wall_stamp(ms).minute * 60_000int + spec_wall_stamp(ms).second
            * 1000int + spec_wall_stamp(ms).millis == ms % MS_PER_DAY,
{
    let days = (ms / MS_PER_DAY) as int;
    let tod = (ms % MS_PER_DAY) as int;
    lemma_time_of_day(tod);
    lemma_civil_ymd(days);
    let z = days + 719_468;
    let era = z / 146_097;
    let ed = era_date(z - era * 146_097);
    lemma_era_shift(ed.0, ed.1, ed.2, era);
}
} // verus!
