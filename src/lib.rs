//! Weekly reconciliation of ticket-sales revenue against a bookkeeping system:
//! query-filter construction, export-job polling decisions, aggregation of
//! order totals, reporting windows and ledger-line classification.

pub mod filter;
pub mod pretix;
pub mod totals;
pub mod period;
pub mod export;
pub mod config;
pub mod ledger;
pub mod text;
pub mod exact;
pub mod args;
pub mod weekly;
