//! In-memory recording of per-instrument market and account snapshots for a
//! backtest run, together with rendering of the recorded logs as CSV text.
//!
//! The recorder keeps one append-only log of snapshots per instrument; every
//! capture call appends exactly one snapshot to every log. After a run, each
//! log is rendered as one CSV file body (`record_<i>.csv`), eight fields per
//! line, no header. Writing the rendered bytes to disk, and turning the
//! engine's floating-point state into the decimal text carried here, are left
//! to a thin unverified layer around this crate.

pub mod csv;
pub mod decimal;
pub mod recorder;
pub mod snapshot;
