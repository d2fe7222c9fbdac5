//! The weekly reconciliation run.

use vstd::prelude::*;
use crate::args::WeekelijksePlezierArgs;
use crate::period::{
    current_unix_seconds, export_window, last_monday_day, lemma_window_is_monday_to_sunday, local_day,
    local_midnight, valid_instant, valid_offset, weekday, LocalTimestamp, WindowError, SECONDS_PER_DAY,
};

verus! {

/// The weekly reconciliation of ticket sales against the sales journal.
#[derive(Debug)]
pub struct WeekelijksePlezier;

impl WeekelijksePlezier {
    /// The week to report on, read from the current instant: it starts on a
    /// Monday at local midnight and ends six days later at local midnight.
    pub fn reporting_window(args: &WeekelijksePlezierArgs) -> (r: Result<
        (LocalTimestamp, LocalTimestamp),
        WindowError,
    >)
        ensures
            args.periods_ago == 0 ==> r == Err::<(LocalTimestamp, LocalTimestamp), _>(
                WindowError::ZeroPeriodsAgo,
            ),
            args.periods_ago != 0 && !valid_offset(args.utc_offset_hours * 3600) ==> r == Err::<
                (LocalTimestamp, LocalTimestamp),
                _,
            >(WindowError::InvalidOffset),
            args.periods_ago != 0 && valid_offset(args.utc_offset_hours * 3600) ==> r is Ok || r
                == Err::<(LocalTimestamp, LocalTimestamp), _>(WindowError::OutOfRange),
            args.periods_ago != 0 && valid_offset(args.utc_offset_hours * 3600) ==> exists|now: int|
                #[trigger] valid_instant(now) && {
                    let offset = args.utc_offset_hours * 3600;
                    let day = last_monday_day(now, offset) - 7 * args.periods_ago;
                    &&& valid_instant(local_midnight(day, offset)) ==> r is Ok
                    &&& r matches Ok((start, end)) ==> start.unix_seconds == local_midnight(
                        day,
                        offset,
                    ) && end.unix_seconds == local_midnight(day + 6, offset)
                },
            r matches Ok((start, end)) ==> {
                &&& start.utc_offset_seconds == args.utc_offset_hours * 3600
                &&& end.utc_offset_seconds == start.utc_offset_seconds
                &&& weekday(start.day()) == 0
                &&& start.at_midnight()
                &&& end.unix_seconds == start.unix_seconds + 6 * SECONDS_PER_DAY
            },
    {
        let now = current_unix_seconds();
        let r = export_window(now, args.utc_offset_hours, args.periods_ago);
        proof {
            if r is Ok {
                lemma_window_is_monday_to_sunday(now, args.utc_offset_hours, args.periods_ago);
            }
            assert(valid_instant(now as int));
        }
        r
    }
}

} // verus!
