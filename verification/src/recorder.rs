//! The recorder: one append-only snapshot log per instrument, a capture
//! operation that advances every log by one entry, and an export operation
//! that renders each log as the body of its `record_<i>.csv` file.

use vstd::prelude::*;
use vstd::string::StringExecFns;
use crate::csv::{csv_of, render_log};
use crate::decimal::{dec_nat, fmt_usize};
use crate::snapshot::{make_snapshot, snapshot_of, Snapshot, SnapshotV, StateRow, StateRowV};

verus! {

/// Errors of recorder construction.
#[derive(Clone, Copy, Debug, PartialEq, Eq, Structural)]
pub enum RecorderError {
    /// The instrument count given at construction was zero.
    Configuration,
}

/// The state of a fresh recorder: one empty log per instrument.
pub open spec fn empty_state(n: nat) -> Seq<Seq<SnapshotV>> {
    Seq::new(n, |i: int| Seq::empty())
}

/// What one capture call does: append one snapshot, built from the shared
/// timestamp and that instrument's row, to every instrument's log.
pub open spec fn apply_capture(
    state: Seq<Seq<SnapshotV>>,
    timestamp: int,
    rows: Seq<StateRowV>,
) -> Seq<Seq<SnapshotV>> {
    state.map(|i: int, log: Seq<SnapshotV>| log.push(snapshot_of(timestamp, rows[i])))
}

/// One capture call's inputs: the shared timestamp and one row per instrument.
pub ghost struct CaptureV {
    pub timestamp: int,
    pub rows: Seq<StateRowV>,
}

/// The state after a sequence of capture calls.
pub open spec fn apply_captures(
    state: Seq<Seq<SnapshotV>>,
    calls: Seq<CaptureV>,
) -> Seq<Seq<SnapshotV>>
    decreases calls.len(),
{
    if calls.len() == 0 {
        state
    } else {
        apply_captures(apply_capture(state, calls[0].timestamp, calls[0].rows), calls.skip(1))
    }
}

/// The name of the export file for instrument `i`: `record_<i>.csv`.
pub open spec fn file_name(i: int) -> Seq<char> {
    "record_"@ + dec_nat(i as nat) + ".csv"@
}

/// One rendered export file: its name and its full text.
pub struct CsvFile {
    /// File name, `record_<i>.csv` for instrument `i`.
    pub name: String,
    /// The file's whole text: one line per snapshot, in log order.
    pub contents: String,
}

/// Records, for every instrument of a backtest run, the values needed to
/// compute performance metrics: one append-only log of snapshots per
/// instrument, all logs advancing together.
pub struct BacktestRecorder {
    logs: Vec<Vec<Snapshot>>,
}

impl View for BacktestRecorder {
    type V = Seq<Seq<SnapshotV>>;

    closed spec fn view(&self) -> Seq<Seq<SnapshotV>> {
        self.logs.deep_view()
    }
}

impl BacktestRecorder {
    /// Constructs a recorder with one empty log per instrument. A zero
    /// instrument count is rejected as a configuration error.
    pub fn new(num_instruments: usize) -> (r: Result<BacktestRecorder, RecorderError>)
        ensures
            num_instruments == 0 ==> r == Result::<BacktestRecorder, RecorderError>::Err(
                RecorderError::Configuration,
            ),
            num_instruments > 0 ==> (r matches Ok(rec) && rec@ == empty_state(
                num_instruments as nat,
            )),
    {
        if num_instruments == 0 {
            return Err(RecorderError::Configuration);
        }
        let mut logs: Vec<Vec<Snapshot>> = Vec::new();
        let mut i: usize = 0;
        while i < num_instruments
            invariant
                i <= num_instruments,
                logs@.len() == i,
                forall|j: int| 0 <= j < i ==> logs@[j]@.len() == 0,
            decreases num_instruments - i,
        {
            logs.push(Vec::new());
            i += 1;
        }
        let rec = BacktestRecorder { logs };
        proof {
            assert forall|j: int| 0 <= j < num_instruments implies rec@[j]
                == empty_state(num_instruments as nat)[j] by {
                assert(rec@[j] == rec.logs@[j].deep_view());
                assert(rec.logs@[j].deep_view() =~= Seq::<SnapshotV>::empty());
            }
            assert(rec@ =~= empty_state(num_instruments as nat));
        }
        Ok(rec)
    }

    /// The instrument count fixed at construction.
    pub fn num_instruments(&self) -> (n: usize)
        ensures
            n == self@.len(),
    {
        self.logs.len()
    }

    /// The number of snapshots captured so far for instrument `i`.
    pub fn log_len(&self, i: usize) -> (n: usize)
        requires
            i < self@.len(),
        ensures
            n == self@[i as int].len(),
    {
        self.logs[i].len()
    }

    /// Captures one snapshot per instrument: appends, to every log, the
    /// snapshot built from the shared timestamp and that instrument's row.
    /// A row count differing from the instrument count fixed at construction
    /// is a caller error, excluded here rather than tolerated.
    pub fn record(&mut self, timestamp: i64, rows: &Vec<StateRow>)
        requires
            old(self)@.len() == rows@.len(),
        ensures
            final(self)@ == apply_capture(old(self)@, timestamp as int, rows.deep_view()),
            final(self)@.len() == old(self)@.len(),
            forall|i: int|
                0 <= i < old(self)@.len() ==> final(self)@[i] == old(self)@[i].push(
                    snapshot_of(timestamp as int, rows.deep_view()[i]),
                ),
    {
        let ghost pre = self@;
        let n = self.logs.len();
        let mut i: usize = 0;
        while i < n
            invariant
                i <= n,
                self.logs@.len() == n,
                rows@.len() == n,
                pre.len() == n,
                forall|j: int| i <= j < n ==> self.logs@[j].deep_view() == pre[j],
                forall|j: int|
                    0 <= j < i ==> self.logs@[j].deep_view() == pre[j].push(
                        snapshot_of(timestamp as int, rows@[j]@),
                    ),
            decreases n - i,
        {
            let snap = make_snapshot(timestamp, &rows[i]);
            let ghost logs_before = self.logs@;
            self.logs[i].push(snap);
            proof {
                assert(self.logs@[i as int].deep_view() =~= logs_before[i as int].deep_view().push(
                    snap@,
                ));
            }
            i += 1;
        }
        proof {
            assert(forall|j: int| 0 <= j < n ==> rows.deep_view()[j] == rows@[j]@);
            assert(self@ =~= apply_capture(pre, timestamp as int, rows.deep_view()));
        }
    }

    /// Renders the recorded state for export: for every instrument, the file
    /// `record_<i>.csv` and its full text, one line per captured snapshot, in
    /// capture order. Rendering reads the state and writes nothing.
    pub fn to_csv(&self) -> (files: Vec<CsvFile>)
        ensures
            files@.len() == self@.len(),
            forall|i: int|
                0 <= i < self@.len() ==> (#[trigger] files@[i]).name@ == file_name(i)
                    && files@[i].contents@ == csv_of(self@[i]),
    {
        let n = self.logs.len();
        let mut files: Vec<CsvFile> = Vec::new();
        let mut i: usize = 0;
        while i < n
            invariant
                i <= n,
                self.logs@.len() == n,
                self@.len() == n,
                files@.len() == i,
                forall|j: int|
                    0 <= j < i ==> (#[trigger] files@[j]).name@ == file_name(j)
                        && files@[j].contents@ == csv_of(self@[j]),
            decreases n - i,
        {
            let mut name = String::from_str("record_");
            let digits = fmt_usize(i);
            name.append(digits.as_str());
            name.append(".csv");
            let contents = render_log(&self.logs[i]);
            proof {
                assert(self.logs@[i as int].deep_view() == self@[i as int]);
            }
            files.push(CsvFile { name, contents });
            i += 1;
        }
        files
    }
}

/// Law: every capture call appends exactly one snapshot to every log, so
/// after any sequence of `k` capture calls on a fresh recorder every
/// instrument's log holds exactly `k` snapshots — no instrument falls behind.
pub proof fn lemma_capture_counts(n: nat, calls: Seq<CaptureV>)
    ensures
        apply_captures(empty_state(n), calls).len() == n,
        forall|i: int|
            0 <= i < n ==> (#[trigger] apply_captures(empty_state(n), calls)[i]).len()
                == calls.len(),
{
    lemma_captures_uniform(empty_state(n), calls, 0);
}

/// Law: capture keeps the logs level — starting from logs of equal length,
/// every log grows by one per call and the lengths stay equal throughout.
pub proof fn lemma_captures_uniform(state: Seq<Seq<SnapshotV>>, calls: Seq<CaptureV>, k: nat)
    requires
        forall|i: int| 0 <= i < state.len() ==> (#[trigger] state[i]).len() == k,
    ensures
        apply_captures(state, calls).len() == state.len(),
        forall|i: int|
            0 <= i < state.len() ==> (#[trigger] apply_captures(state, calls)[i]).len() == k
                + calls.len(),
    decreases calls.len(),
{
    if calls.len() == 0 {
    } else {
        let next = apply_capture(state, calls[0].timestamp, calls[0].rows);
        assert forall|i: int| 0 <= i < next.len() implies (#[trigger] next[i]).len() == k + 1 by {
            assert(next[i] == state[i].push(snapshot_of(calls[0].timestamp, calls[0].rows[i])));
        }
        lemma_captures_uniform(next, calls.skip(1), k + 1);
    }
}

/// Timestamps within one log never decrease.
pub open spec fn ts_monotone(log: Seq<SnapshotV>) -> bool {
    forall|a: int, b: int| 0 <= a <= b < log.len() ==> log[a].timestamp <= log[b].timestamp
}

/// Every snapshot of the log carries a timestamp at most `t`.
pub open spec fn log_before(log: Seq<SnapshotV>, t: int) -> bool {
    forall|j: int| 0 <= j < log.len() ==> log[j].timestamp <= t
}

/// Law: when the driving calls supply non-decreasing timestamps, the
/// timestamps within every instrument's log are non-decreasing — the
/// recorder preserves the caller's clock discipline without enforcing it.
pub proof fn lemma_capture_timestamps_monotone(n: nat, calls: Seq<CaptureV>)
    requires
        forall|a: int, b: int|
            0 <= a <= b < calls.len() ==> calls[a].timestamp <= calls[b].timestamp,
    ensures
        forall|i: int|
            0 <= i < n ==> ts_monotone(#[trigger] apply_captures(empty_state(n), calls)[i]),
{
    lemma_captures_monotone(empty_state(n), calls);
}

/// Law: capture preserves timestamp order in every log, provided every
/// already-recorded timestamp is at most every upcoming call's timestamp and
/// the calls' timestamps are non-decreasing.
pub proof fn lemma_captures_monotone(state: Seq<Seq<SnapshotV>>, calls: Seq<CaptureV>)
    requires
        forall|i: int| 0 <= i < state.len() ==> ts_monotone(#[trigger] state[i]),
        forall|i: int, c: int|
            0 <= i < state.len() && 0 <= c < calls.len() ==> log_before(
                #[trigger] state[i],
                #[trigger] calls[c].timestamp,
            ),
        forall|a: int, b: int|
            0 <= a <= b < calls.len() ==> calls[a].timestamp <= calls[b].timestamp,
    ensures
        apply_captures(state, calls).len() == state.len(),
        forall|i: int|
            0 <= i < state.len() ==> ts_monotone(#[trigger] apply_captures(state, calls)[i]),
    decreases calls.len(),
{
    if calls.len() == 0 {
    } else {
        let t0 = calls[0].timestamp;
        let next = apply_capture(state, t0, calls[0].rows);
        assert forall|i: int| 0 <= i < next.len() implies ts_monotone(#[trigger] next[i]) by {
            assert(next[i] == state[i].push(snapshot_of(t0, calls[0].rows[i])));
            assert(log_before(state[i], t0));
        }
        assert forall|i: int, c: int|
            0 <= i < next.len() && 0 <= c < calls.skip(1).len() implies log_before(
            #[trigger] next[i],
            #[trigger] calls.skip(1)[c].timestamp,
        ) by {
            assert(calls.skip(1)[c] == calls[c + 1]);
            assert(next[i] == state[i].push(snapshot_of(t0, calls[0].rows[i])));
            assert(log_before(state[i], calls[c + 1].timestamp));
            assert(t0 <= calls[c + 1].timestamp);
        }
        lemma_captures_monotone(next, calls.skip(1));
    }
}

} // verus!
