use backtest_recorder::csv::{render_line, render_log};
use backtest_recorder::snapshot::Snapshot;

fn snap(timestamp: i64, mid_price: &str, trade_count: i32) -> Snapshot {
    Snapshot {
        timestamp,
        mid_price: mid_price.to_string(),
        balance: "1.5".to_string(),
        position: "-2".to_string(),
        fee: "0".to_string(),
        trade_count,
        trade_amount: "10".to_string(),
        trade_qty: "4".to_string(),
    }
}

#[test]
fn render_line_joins_eight_fields_in_order() {
    let line = render_line(&snap(42, "9.5", -3));
    assert_eq!(line, "42,9.5,1.5,-2,0,-3,10,4\n");
}

#[test]
fn render_log_keeps_capture_order() {
    let log = vec![snap(1, "1", 0), snap(2, "2", 1), snap(3, "3", 2)];
    let text = render_log(&log);
    assert_eq!(text, "1,1,1.5,-2,0,0,10,4\n2,2,1.5,-2,0,1,10,4\n3,3,1.5,-2,0,2,10,4\n");
}

#[test]
fn render_log_of_empty_log_is_empty() {
    let log: Vec<Snapshot> = Vec::new();
    assert_eq!(render_log(&log), "");
}
