//! The per-instrument snapshot record and the per-call input row.
//!
//! A snapshot carries the simulation timestamp and the cumulative trade count
//! as integers; the six remaining fields are account and market values that
//! the engine produces in floating point, carried here as the decimal text
//! they are exported with.

use vstd::prelude::*;
use vstd::string::StringExecFns;

verus! {

/// One captured record of an instrument's market and account state.
pub struct Snapshot {
    /// Simulation clock at capture time.
    pub timestamp: i64,
    /// Midpoint of best bid and best ask, as decimal text.
    pub mid_price: String,
    /// Account cash balance, as decimal text.
    pub balance: String,
    /// Net held quantity, as decimal text.
    pub position: String,
    /// Cumulative fees charged, as decimal text.
    pub fee: String,
    /// Cumulative number of fills.
    pub trade_count: i32,
    /// Cumulative notional traded, as decimal text.
    pub trade_amount: String,
    /// Cumulative quantity traded, as decimal text.
    pub trade_qty: String,
}

/// The mathematical model of a snapshot.
pub ghost struct SnapshotV {
    pub timestamp: int,
    pub mid_price: Seq<char>,
    pub balance: Seq<char>,
    pub position: Seq<char>,
    pub fee: Seq<char>,
    pub trade_count: int,
    pub trade_amount: Seq<char>,
    pub trade_qty: Seq<char>,
}

impl View for Snapshot {
    type V = SnapshotV;

    open spec fn view(&self) -> SnapshotV {
        SnapshotV {
            timestamp: self.timestamp as int,
            mid_price: self.mid_price@,
            balance: self.balance@,
            position: self.position@,
            fee: self.fee@,
            trade_count: self.trade_count as int,
            trade_amount: self.trade_amount@,
            trade_qty: self.trade_qty@,
        }
    }
}

impl DeepView for Snapshot {
    type V = SnapshotV;

    open spec fn deep_view(&self) -> SnapshotV {
        self.view()
    }
}

/// The state of one instrument at one capture call: everything a snapshot
/// holds except the shared timestamp.
pub struct StateRow {
    /// Midpoint of best bid and best ask, as decimal text.
    pub mid_price: String,
    /// Account cash balance, as decimal text.
    pub balance: String,
    /// Net held quantity, as decimal text.
    pub position: String,
    /// Cumulative fees charged, as decimal text.
    pub fee: String,
    /// Cumulative number of fills.
    pub trade_count: i32,
    /// Cumulative notional traded, as decimal text.
    pub trade_amount: String,
    /// Cumulative quantity traded, as decimal text.
    pub trade_qty: String,
}

/// The mathematical model of a state row.
pub ghost struct StateRowV {
    pub mid_price: Seq<char>,
    pub balance: Seq<char>,
    pub position: Seq<char>,
    pub fee: Seq<char>,
    pub trade_count: int,
    pub trade_amount: Seq<char>,
    pub trade_qty: Seq<char>,
}

impl View for StateRow {
    type V = StateRowV;

    open spec fn view(&self) -> StateRowV {
        StateRowV {
            mid_price: self.mid_price@,
            balance: self.balance@,
            position: self.position@,
            fee: self.fee@,
            trade_count: self.trade_count as int,
            trade_amount: self.trade_amount@,
            trade_qty: self.trade_qty@,
        }
    }
}

impl DeepView for StateRow {
    type V = StateRowV;

    open spec fn deep_view(&self) -> StateRowV {
        self.view()
    }
}

/// The snapshot assembled from a capture call's timestamp and one row.
pub open spec fn snapshot_of(timestamp: int, row: StateRowV) -> SnapshotV {
    SnapshotV {
        timestamp,
        mid_price: row.mid_price,
        balance: row.balance,
        position: row.position,
        fee: row.fee,
        trade_count: row.trade_count,
        trade_amount: row.trade_amount,
        trade_qty: row.trade_qty,
    }
}

/// A copy of a string with the same characters.
fn clone_string(s: &String) -> (r: String)
    ensures
        r@ == s@,
{
    String::from_str(s.as_str())
}

/// Builds the snapshot recorded for one instrument at one capture call.
pub fn make_snapshot(timestamp: i64, row: &StateRow) -> (s: Snapshot)
    ensures
        s@ == snapshot_of(timestamp as int, row@),
{
    Snapshot {
        timestamp,
        mid_price: clone_string(&row.mid_price),
        balance: clone_string(&row.balance),
        position: clone_string(&row.position),
        fee: clone_string(&row.fee),
        trade_count: row.trade_count,
        trade_amount: clone_string(&row.trade_amount),
        trade_qty: clone_string(&row.trade_qty),
    }
}

} // verus!
