//! The program's arguments as plain data.

use vstd::prelude::*;

verus! {

#[derive(Debug)]
pub struct ProgramArgs {
    /// Path of the configuration file.
    pub config: String,
    pub mode: Option<ExecutionMode>,
    /// Only obtain authorizations, then stop.
    pub only_auth: bool,
    /// Only report what would be booked.
    pub dry_run: bool,
}

#[derive(Debug)]
pub enum ExecutionMode {
    /// The weekly reconciliation of ticket sales.
    WeekelijksePlezier(WeekelijksePlezierArgs),
}

#[derive(Debug)]
pub struct WeekelijksePlezierArgs {
    /// Number of the sales entry the lines are added to.
    pub transaction_id: i32,
    /// How many whole weeks back the reported week lies; `1` is the most
    /// recent finished week.
    pub periods_ago: u32,
    /// The local offset from UTC, in hours.
    pub utc_offset_hours: i32,
}

} // verus!
