use fanout_engine::outcome::{collect_outcomes, TaskOutcome};
use fanout_engine::record::ResultRecord;
use fanout_engine::stream::OutputStream;

fn completed(alias: &str, value: i64) -> TaskOutcome {
    TaskOutcome::Completed(ResultRecord { alias: String::from(alias), value })
}

#[test]
fn new_stream_is_empty() {
    let s = OutputStream::new();
    assert_eq!(s.data, "");
    assert!(!s.finished);
}

#[test]
fn write_appends_one_framed_line() {
    let mut s = OutputStream::new();
    s.write_line("first");
    s.write_line("second");
    assert_eq!(s.data, "first\nsecond\n");
}

#[test]
fn write_record_appends_serialized_record() {
    let mut s = OutputStream::new();
    s.write_record(&ResultRecord { alias: String::from("calc2"), value: 17 });
    assert_eq!(s.data, "{\"calc2\":17}\n");
}

#[test]
fn finish_keeps_content() {
    let mut s = OutputStream::new();
    s.write_line("only");
    s.finish();
    assert!(s.finished);
    assert_eq!(s.data, "only\n");
}

#[test]
fn collects_records_and_failures() {
    let outcomes = vec![
        completed("calc1", 10),
        TaskOutcome::Failed(String::from("calc2")),
        completed("calc3", -4),
    ];
    let mut s = OutputStream::new();
    let failed = collect_outcomes(outcomes, &mut s);
    assert_eq!(s.data, "{\"calc1\":10}\n{\"calc3\":-4}\n");
    assert_eq!(failed, vec![String::from("calc2")]);
}

#[test]
fn every_task_is_accounted_exactly_once() {
    let outcomes = vec![
        completed("calc1", 1),
        completed("calc2", 2),
        TaskOutcome::Failed(String::from("calc3")),
        TaskOutcome::Failed(String::from("calc4")),
        completed("calc5", 5),
    ];
    let total = outcomes.len();
    let mut s = OutputStream::new();
    let failed = collect_outcomes(outcomes, &mut s);
    let records = s.data.lines().count();
    assert_eq!(records + failed.len(), total);
}

#[test]
fn completion_order_changes_order_not_content() {
    let forward = vec![completed("calc1", 10), completed("calc2", 20)];
    let backward = vec![completed("calc2", 20), completed("calc1", 10)];
    let mut s1 = OutputStream::new();
    let mut s2 = OutputStream::new();
    collect_outcomes(forward, &mut s1);
    collect_outcomes(backward, &mut s2);
    let mut lines1: Vec<&str> = s1.data.lines().collect();
    let mut lines2: Vec<&str> = s2.data.lines().collect();
    assert_ne!(lines1, lines2);
    lines1.sort();
    lines2.sort();
    assert_eq!(lines1, lines2);
}

#[test]
fn no_line_is_truncated_or_merged() {
    let outcomes = vec![completed("calc1", 1), completed("calc2", -22), completed("calc3", 333)];
    let mut s = OutputStream::new();
    collect_outcomes(outcomes, &mut s);
    assert!(s.data.ends_with('\n'));
    let lines: Vec<&str> = s.data.lines().collect();
    assert_eq!(lines, vec!["{\"calc1\":1}", "{\"calc2\":-22}", "{\"calc3\":333}"]);
}
