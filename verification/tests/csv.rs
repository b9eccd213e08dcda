use logger_client::log_parse::progress_interval;
use logger_client::log_parse::{to_csv, ParsedLog};

#[test]
fn csv_has_header_then_rows() {
    let log = ParsedLog {
        columns: vec!["timestamp".into(), "v_batt".into()],
        rows: vec![vec!["0".into(), "12.5".into()], vec!["50".into(), "12.4".into()]],
    };
    assert_eq!(String::from_utf8(to_csv(&log)).unwrap(), "timestamp,v_batt\n0,12.5\n50,12.4\n");
}

#[test]
fn csv_of_empty_log() {
    let log = ParsedLog { columns: vec![], rows: vec![] };
    assert_eq!(to_csv(&log), b"\n".to_vec());
    let log = ParsedLog { columns: vec!["a".into()], rows: vec![vec![], vec!["\u{e9}".into(), "x".into()]] };
    assert_eq!(String::from_utf8(to_csv(&log)).unwrap(), "a\n\n\u{e9},x\n");
}

#[test]
fn csv_splits_back_into_header_and_rows() {
    let p = ParsedLog {
        columns: vec!["timestamp".into(), "rpm".into()],
        rows: vec![vec!["0".into(), "800".into()], vec!["50".into(), "".into()]],
    };
    let text = String::from_utf8(to_csv(&p)).unwrap();
    let back: Vec<Vec<String>> = text.lines().map(|l| l.split(',').map(|f| f.to_string()).collect()).collect();
    let mut want = vec![p.columns.clone()];
    want.extend(p.rows.iter().cloned());
    assert_eq!(back, want);
}

#[test]
fn about_fifty_progress_reports() {
    assert_eq!(progress_interval(0, 4), 1);
    assert_eq!(progress_interval(4 * 50 * 3, 4), 3);
    assert_eq!(progress_interval(4 * 50 * 3 + 199, 4), 3);
    assert_eq!(progress_interval(399, 4), 1);
}
