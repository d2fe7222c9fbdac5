//! Calendar arithmetic for reporting windows.
//!
//! An instant is a count of Unix seconds; a fixed UTC offset in seconds turns it
//! into a local date. Days are numbered from 1970-01-01 (day 0, a Thursday) and
//! weekdays from Monday (0) to Sunday (6).

use vstd::prelude::*;
use vstd::arithmetic::div_mod::{lemma_hoist_over_denominator, lemma_mod_multiples_vanish};

verus! {

pub const SECONDS_PER_DAY: i64 = 86400;

pub const SECONDS_PER_WEEK: i64 = 604800;

/// Largest magnitude of a UTC offset, 25:59:59.
pub const MAX_OFFSET_SECONDS: i32 = 93599;

/// -9999-01-01T00:00:00Z, the earliest representable instant.
pub const MIN_UNIX_SECONDS: i64 = -377705116800;

/// 9999-12-31T23:59:59Z, the latest representable instant.
pub const MAX_UNIX_SECONDS: i64 = 253402300799;

/// A whole number of weeks, larger than any representable instant plus offset,
/// added before dividing so that the dividend is never negative.
const SHIFT_WEEKS: i64 = 624513;

pub open spec fn valid_offset(offset: int) -> bool {
    -MAX_OFFSET_SECONDS <= offset <= MAX_OFFSET_SECONDS
}

pub open spec fn valid_instant(unix: int) -> bool {
    MIN_UNIX_SECONDS <= unix <= MAX_UNIX_SECONDS
}

/// The local day number of an instant.
pub open spec fn local_day(unix: int, offset: int) -> int {
    (unix + offset) / (SECONDS_PER_DAY as int)
}

/// Weekday of a day number, Monday being 0.
pub open spec fn weekday(day: int) -> int {
    (day + 3) % 7
}

/// The instant of local midnight starting the given day.
pub open spec fn local_midnight(day: int, offset: int) -> int {
    day * SECONDS_PER_DAY - offset
}

/// The day number of the most recent Monday, on or before the local day of `unix`.
pub open spec fn last_monday_day(unix: int, offset: int) -> int {
    local_day(unix, offset) - weekday(local_day(unix, offset))
}

/// An instant together with the UTC offset it is read in.
#[derive(Debug)]
pub struct LocalTimestamp {
    pub unix_seconds: i64,
    pub utc_offset_seconds: i32,
}

impl LocalTimestamp {
    pub open spec fn wf(self) -> bool {
        valid_instant(self.unix_seconds as int) && valid_offset(self.utc_offset_seconds as int)
    }

    /// The local day number.
    pub open spec fn day(self) -> int {
        local_day(self.unix_seconds as int, self.utc_offset_seconds as int)
    }

    /// The instant is a local midnight.
    pub open spec fn at_midnight(self) -> bool {
        self.unix_seconds == local_midnight(self.day(), self.utc_offset_seconds as int)
    }
}

/// Relies on time::OffsetDateTime::now_utc, read as Unix seconds: the clock's
/// current instant, which lies in the range of `time`'s dates (years -9999 to
/// 9999, as this crate builds `time` without its `large-dates` feature).
#[verifier::external_body]
pub(crate) fn current_unix_seconds() -> (r: i64)
    ensures
        valid_instant(r as int),
{
    time::OffsetDateTime::now_utc().unix_timestamp()
}

/// Relies on time::UtcOffset::from_whole_seconds: an offset exists for exactly
/// the seconds within 25:59:59 of UTC, and it keeps the seconds it was given.
#[verifier::external_body]
fn checked_utc_offset(seconds: i32) -> (r: Option<i32>)
    ensures
        r == (if valid_offset(seconds as int) {
            Some(seconds)
        } else {
            None::<i32>
        }),
{
    match time::UtcOffset::from_whole_seconds(seconds) {
        Ok(offset) => Some(offset.whole_seconds()),
        Err(_) => None,
    }
}

/// Local day number of an instant, and its weekday.
fn day_and_weekday(unix: i64, offset: i32) -> (r: (i64, i64))
    requires
        valid_instant(unix as int),
        valid_offset(offset as int),
    ensures
        r.0 == local_day(unix as int, offset as int),
        r.1 == weekday(local_day(unix as int, offset as int)),
        0 <= r.1 < 7,
{
    let shift_days: i64 = SHIFT_WEEKS * 7;
    let shifted: i64 = unix + offset as i64 + shift_days * SECONDS_PER_DAY;
    let shifted_day: i64 = shifted / SECONDS_PER_DAY;
    let day: i64 = shifted_day - shift_days;
    let wd: i64 = (shifted_day + 3) % 7;
    proof {
        let x = unix + offset;
        lemma_hoist_over_denominator(x, shift_days as int, SECONDS_PER_DAY as nat);
        assert(shifted_day == local_day(unix as int, offset as int) + shift_days);
        lemma_mod_multiples_vanish(SHIFT_WEEKS as int, day + 3, 7);
        assert(shifted_day + 3 == 7 * SHIFT_WEEKS + (day + 3));
    }
    (day, wd)
}

/// The most recent Monday, at local midnight, on or before `now` in the given
/// offset.
pub fn last_monday_at(now: i64, offset: i32) -> (r: LocalTimestamp)
    requires
        valid_instant(now as int),
        valid_offset(offset as int),
    ensures
        r.utc_offset_seconds == offset,
        r.unix_seconds == local_midnight(last_monday_day(now as int, offset as int), offset as int),
{
    let (day, wd) = day_and_weekday(now, offset);
    let monday = day - wd;
    LocalTimestamp { unix_seconds: monday * SECONDS_PER_DAY - offset as i64, utc_offset_seconds: offset }
}

/// The most recent Monday, at local midnight, on or before the current instant.
pub fn last_monday(offset: i32) -> (r: LocalTimestamp)
    requires
        valid_offset(offset as int),
    ensures
        r.utc_offset_seconds == offset,
        exists|now: int|
            valid_instant(now) && r.unix_seconds == local_midnight(
                last_monday_day(now, offset as int),
                offset as int,
            ),
{
    let now = current_unix_seconds();
    last_monday_at(now, offset)
}

/// The given instant is not on a Monday.
#[derive(Debug)]
pub struct NotMondayError {
    /// The weekday it falls on, Monday being 0.
    pub weekday: i64,
}

/// The export window starting at `monday`: from its local midnight to the
/// local midnight six days later, both read in `offset`.
pub fn pretix_export_period(monday: LocalTimestamp, offset: i32) -> (r: Result<
    (LocalTimestamp, LocalTimestamp),
    NotMondayError,
>)
    requires
        monday.wf(),
        valid_offset(offset as int),
    ensures
        r is Err <==> weekday(monday.day()) != 0,
        r matches Err(e) ==> e.weekday == weekday(monday.day()),
        r matches Ok((start, end)) ==> {
            &&& start.utc_offset_seconds == offset
            &&& end.utc_offset_seconds == offset
            &&& start.unix_seconds == local_midnight(monday.day(), offset as int)
            &&& end.unix_seconds == local_midnight(monday.day() + 6, offset as int)
        },
{
    let (day, wd) = day_and_weekday(monday.unix_seconds, monday.utc_offset_seconds);
    if wd != 0 {
        return Err(NotMondayError { weekday: wd });
    }
    let start = LocalTimestamp {
        unix_seconds: day * SECONDS_PER_DAY - offset as i64,
        utc_offset_seconds: offset,
    };
    let end = LocalTimestamp {
        unix_seconds: (day + 6) * SECONDS_PER_DAY - offset as i64,
        utc_offset_seconds: offset,
    };
    Ok((start, end))
}

/// Why no reporting window could be computed.
#[derive(Debug)]
pub enum WindowError {
    /// A window zero periods ago would still be running.
    ZeroPeriodsAgo,
    /// The offset in hours is beyond 25:59:59.
    InvalidOffset,
    /// The current instant is outside the representable range, or the window
    /// would start before it.
    OutOfRange,
}

/// The reporting window `periods_ago` whole weeks before the week holding
/// `now`: from a Monday at local midnight to the Sunday at local midnight six
/// days later, in the offset of `utc_offset_hours`.
pub fn export_window(now: i64, utc_offset_hours: i32, periods_ago: u32) -> (r: Result<
    (LocalTimestamp, LocalTimestamp),
    WindowError,
>)
    ensures
        periods_ago == 0 ==> r == Err::<(LocalTimestamp, LocalTimestamp), _>(
            WindowError::ZeroPeriodsAgo,
        ),
        periods_ago != 0 && !valid_offset(utc_offset_hours * 3600) ==> r == Err::<
            (LocalTimestamp, LocalTimestamp),
            _,
        >(WindowError::InvalidOffset),
        periods_ago != 0 && valid_offset(utc_offset_hours * 3600) ==> {
            let offset = utc_offset_hours * 3600;
            let day = last_monday_day(now as int, offset) - 7 * periods_ago;
            if valid_instant(now as int) && valid_instant(local_midnight(day, offset)) {
                r matches Ok((start, end)) && start.utc_offset_seconds == offset
                    && end.utc_offset_seconds == offset && start.unix_seconds == local_midnight(
                    day,
                    offset,
                ) && end.unix_seconds == local_midnight(day + 6, offset)
            } else {
                r == Err::<(LocalTimestamp, LocalTimestamp), _>(WindowError::OutOfRange)
            }
        },
{
    if periods_ago == 0 {
        return Err(WindowError::ZeroPeriodsAgo);
    }
    let seconds: i64 = utc_offset_hours as i64 * 3600;
    if seconds < i32::MIN as i64 || seconds > i32::MAX as i64 {
        return Err(WindowError::InvalidOffset);
    }
    let offset = match checked_utc_offset(seconds as i32) {
        Some(o) => o,
        None => {
            return Err(WindowError::InvalidOffset);
        },
    };
    if now < MIN_UNIX_SECONDS || now > MAX_UNIX_SECONDS {
        return Err(WindowError::OutOfRange);
    }
    let latest = last_monday_at(now, offset);
    let start_unix: i64 = latest.unix_seconds - periods_ago as i64 * SECONDS_PER_WEEK;
    if start_unix < MIN_UNIX_SECONDS {
        return Err(WindowError::OutOfRange);
    }
    let ghost day = last_monday_day(now as int, offset as int) - 7 * periods_ago;
    assert(start_unix == local_midnight(day, offset as int));
    let monday = LocalTimestamp { unix_seconds: start_unix, utc_offset_seconds: offset };
    proof {
        lemma_midnight_day(day, offset as int);
        lemma_monday_shift(now as int, offset as int, periods_ago as int);
    }
    match pretix_export_period(monday, offset) {
        Ok(window) => Ok(window),
        Err(_) => Err(WindowError::OutOfRange),
    }
}

/// Local midnight of a day lies on that day.
proof fn lemma_midnight_day(day: int, offset: int)
    ensures
        local_day(local_midnight(day, offset), offset) == day,
{
    lemma_hoist_over_denominator(0, day, SECONDS_PER_DAY as nat);
}

/// A whole number of weeks before a Monday is again a Monday.
proof fn lemma_monday_shift(now: int, offset: int, weeks: int)
    ensures
        weekday(last_monday_day(now, offset) - 7 * weeks) == 0,
{
    let d = local_day(now, offset);
    let m = d - weekday(d);
    assert(m + 3 == 7 * ((d + 3) / 7) - 0) by {
        vstd::arithmetic::div_mod::lemma_fundamental_div_mod(d + 3, 7);
    }
    lemma_mod_multiples_vanish((d + 3) / 7 - weeks, 0, 7);
    assert(m - 7 * weeks + 3 == 7 * ((d + 3) / 7 - weeks) + 0) by (nonlinear_arith)
        requires
            m + 3 == 7 * ((d + 3) / 7),
    ;
}

/// For any valid offset, the window of the most recent finished week starts on
/// a Monday at local midnight and ends exactly six days later at local midnight.
pub proof fn lemma_window_is_monday_to_sunday(now: i64, utc_offset_hours: i32, periods_ago: u32)
    requires
        periods_ago >= 1,
        valid_offset(utc_offset_hours * 3600),
        valid_instant(now as int),
        valid_instant(
            local_midnight(
                last_monday_day(now as int, utc_offset_hours * 3600) - 7 * periods_ago,
                utc_offset_hours * 3600,
            ),
        ),
    ensures
        ({
            let offset = utc_offset_hours * 3600;
            let start = local_midnight(
                last_monday_day(now as int, offset) - 7 * periods_ago,
                offset,
            );
            &&& weekday(local_day(start, offset)) == 0
            &&& local_midnight(local_day(start, offset), offset) == start
            &&& local_midnight(local_day(start, offset) + 6, offset) == start + 6 * SECONDS_PER_DAY
        }),
{
    let offset = utc_offset_hours * 3600;
    let day = last_monday_day(now as int, offset) - 7 * periods_ago;
    lemma_midnight_day(day, offset);
    lemma_monday_shift(now as int, offset, periods_ago as int);
}

} // verus!
