use backtest_recorder::recorder::{BacktestRecorder, CsvFile, RecorderError};
use backtest_recorder::snapshot::StateRow;

fn row(
    mid_price: f32,
    balance: f64,
    position: f64,
    fee: f64,
    trade_count: i32,
    trade_amount: f64,
    trade_qty: f64,
) -> StateRow {
    StateRow {
        mid_price: format!("{}", mid_price),
        balance: format!("{}", balance),
        position: format!("{}", position),
        fee: format!("{}", fee),
        trade_count,
        trade_amount: format!("{}", trade_amount),
        trade_qty: format!("{}", trade_qty),
    }
}

fn mid(best_bid: f32, best_ask: f32) -> f32 {
    (best_bid + best_ask) / 2.0
}

#[test]
fn new_zero_instruments_is_configuration_error() {
    let r = BacktestRecorder::new(0);
    assert!(matches!(r, Err(RecorderError::Configuration)));
}

#[test]
fn new_positive_count_has_empty_logs() {
    let rec = BacktestRecorder::new(3).unwrap();
    assert_eq!(rec.num_instruments(), 3);
    for i in 0..3 {
        assert_eq!(rec.log_len(i), 0);
    }
}

#[test]
fn capture_once_two_instruments_exact_lines() {
    let mut rec = BacktestRecorder::new(2).unwrap();
    let rows = vec![
        row(mid(9.0, 11.0), 1000.0, 0.0, 0.0, 0, 0.0, 0.0),
        row(mid(50.0, 52.0), 500.0, 2.0, 1.5, 1, 100.0, 2.0),
    ];
    rec.record(100, &rows);
    let files = rec.to_csv();
    assert_eq!(files.len(), 2);
    assert_eq!(files[0].name, "record_0.csv");
    assert_eq!(files[0].contents, "100,10,1000,0,0,0,0,0\n");
    assert_eq!(files[1].name, "record_1.csv");
    assert_eq!(files[1].contents, "100,51,500,2,1.5,1,100,2\n");
}

#[test]
fn capture_keeps_all_logs_at_equal_length() {
    let mut rec = BacktestRecorder::new(3).unwrap();
    for k in 0..5i64 {
        let rows = vec![
            row(1.0, 1.0, 0.0, 0.0, 0, 0.0, 0.0),
            row(2.0, 2.0, 0.0, 0.0, 0, 0.0, 0.0),
            row(3.0, 3.0, 0.0, 0.0, 0, 0.0, 0.0),
        ];
        rec.record(k, &rows);
        for i in 0..3 {
            assert_eq!(rec.log_len(i), (k + 1) as usize);
        }
    }
}

#[test]
fn mid_price_is_mean_of_bid_and_ask() {
    let mut rec = BacktestRecorder::new(1).unwrap();
    let best_bid: f32 = 1.0;
    let best_ask: f32 = 2.0;
    let rows = vec![row(mid(best_bid, best_ask), 0.0, 0.0, 0.0, 0, 0.0, 0.0)];
    rec.record(7, &rows);
    let files = rec.to_csv();
    let fields: Vec<&str> = files[0].contents.trim_end().split(',').collect();
    assert_eq!(fields[1], format!("{}", (best_bid + best_ask) / 2.0));
    assert_eq!(fields[1], "1.5");
}

fn parse_file(contents: &str) -> Vec<(i64, String, String, String, String, i32, String, String)> {
    let mut out = Vec::new();
    for line in contents.lines() {
        let f: Vec<&str> = line.split(',').collect();
        assert_eq!(f.len(), 8);
        out.push((
            f[0].parse::<i64>().unwrap(),
            f[1].to_string(),
            f[2].to_string(),
            f[3].to_string(),
            f[4].to_string(),
            f[5].parse::<i32>().unwrap(),
            f[6].to_string(),
            f[7].to_string(),
        ));
    }
    out
}

#[test]
fn export_then_parse_recovers_recorded_tuples() {
    let mut rec = BacktestRecorder::new(2).unwrap();
    let calls: Vec<(i64, Vec<StateRow>)> = vec![
        (
            10,
            vec![
                row(1.25, -1000.5, 0.0, 0.25, 3, 12.5, 10.0),
                row(99.5, 4.0, -2.0, 0.0, 0, 0.0, 0.0),
            ],
        ),
        (
            20,
            vec![
                row(1.5, -999.0, 1.0, 0.5, 4, 14.0, 11.0),
                row(100.0, 4.5, -3.0, 0.125, 2, 7.75, 1.0),
            ],
        ),
    ];
    for (ts, rows) in &calls {
        rec.record(*ts, rows);
    }
    let files = rec.to_csv();
    for (i, file) in files.iter().enumerate() {
        let parsed = parse_file(&file.contents);
        assert_eq!(parsed.len(), calls.len());
        for (k, (ts, rows)) in calls.iter().enumerate() {
            let r = &rows[i];
            let got = &parsed[k];
            assert_eq!(got.0, *ts);
            assert_eq!(got.1, r.mid_price);
            assert_eq!(got.2, r.balance);
            assert_eq!(got.3, r.position);
            assert_eq!(got.4, r.fee);
            assert_eq!(got.5, r.trade_count);
            assert_eq!(got.6, r.trade_amount);
            assert_eq!(got.7, r.trade_qty);
        }
    }
}

#[test]
fn export_twice_is_byte_identical() {
    let mut rec = BacktestRecorder::new(2).unwrap();
    rec.record(
        5,
        &vec![
            row(3.5, 10.0, 1.0, 0.0, 1, 3.5, 1.0),
            row(7.25, -20.0, -1.0, 0.5, 2, 14.5, 2.0),
        ],
    );
    let first = rec.to_csv();
    let second = rec.to_csv();
    assert_eq!(first.len(), second.len());
    for (a, b) in first.iter().zip(second.iter()) {
        assert_eq!(a.name, b.name);
        assert_eq!(a.contents, b.contents);
    }
}

#[test]
fn zero_captures_export_empty_files() {
    let rec = BacktestRecorder::new(2).unwrap();
    let files = rec.to_csv();
    assert_eq!(files.len(), 2);
    assert_eq!(files[0].name, "record_0.csv");
    assert_eq!(files[1].name, "record_1.csv");
    assert_eq!(files[0].contents, "");
    assert_eq!(files[1].contents, "");
}

#[test]
fn timestamps_nondecreasing_in_each_log() {
    let mut rec = BacktestRecorder::new(1).unwrap();
    for ts in [1i64, 1, 5, 9] {
        rec.record(ts, &vec![row(1.0, 0.0, 0.0, 0.0, 0, 0.0, 0.0)]);
    }
    let files = rec.to_csv();
    let parsed = parse_file(&files[0].contents);
    let stamps: Vec<i64> = parsed.iter().map(|t| t.0).collect();
    assert_eq!(stamps, vec![1, 1, 5, 9]);
    for w in stamps.windows(2) {
        assert!(w[0] <= w[1]);
    }
}

#[test]
fn file_names_follow_instrument_index() {
    let mut rec = BacktestRecorder::new(11).unwrap();
    let rows: Vec<StateRow> = (0..11)
        .map(|_| row(1.0, 0.0, 0.0, 0.0, 0, 0.0, 0.0))
        .collect();
    rec.record(0, &rows);
    let files: Vec<CsvFile> = rec.to_csv();
    assert_eq!(files[10].name, "record_10.csv");
}

#[test]
fn nonfinite_values_pass_through_as_text() {
    let mut rec = BacktestRecorder::new(1).unwrap();
    let rows = vec![row(f32::NAN, f64::INFINITY, f64::NEG_INFINITY, 0.0, 0, 0.0, 0.0)];
    rec.record(1, &rows);
    let files = rec.to_csv();
    assert_eq!(files[0].contents, "1,NaN,inf,-inf,0,0,0,0\n");
}
