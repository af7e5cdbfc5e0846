use fanout_engine::query::{build_alias, build_query, fan_out, Family};
use fanout_engine::record::{i64_to_string, serialize_record, ResultRecord};
use fanout_engine::text::u64_to_string;

#[test]
fn renders_zero() {
    assert_eq!(u64_to_string(0), "0");
}

#[test]
fn renders_small_number() {
    assert_eq!(u64_to_string(42), "42");
}

#[test]
fn renders_large_number() {
    assert_eq!(u64_to_string(1234567890123456789), "1234567890123456789");
}

#[test]
fn renders_u64_max() {
    assert_eq!(u64_to_string(u64::MAX), "18446744073709551615");
}

#[test]
fn renders_negative_number() {
    assert_eq!(i64_to_string(-5), "-5");
    assert_eq!(i64_to_string(0), "0");
    assert_eq!(i64_to_string(7), "7");
}

#[test]
fn renders_i64_min() {
    assert_eq!(i64_to_string(i64::MIN), "-9223372036854775808");
    assert_eq!(i64_to_string(i64::MAX), "9223372036854775807");
}

#[test]
fn builds_alias() {
    assert_eq!(build_alias(7), "calc7");
    assert_eq!(build_alias(48), "calc48");
}

#[test]
fn builds_amount_query() {
    assert_eq!(
        build_query("t", Family::Amount, 3),
        "SELECT sum(t.amount3) as calc3 FROM t"
    );
}

#[test]
fn builds_number_query() {
    assert_eq!(
        build_query("pension_history_1", Family::Number, 47),
        "SELECT sum(pension_history_1.number47) as calc47 FROM pension_history_1"
    );
}

#[test]
fn fans_out_both_families() {
    let tasks = fan_out("t", 48, 47);
    assert_eq!(tasks.len(), 95);
    assert_eq!(tasks[0].query, "SELECT sum(t.amount1) as calc1 FROM t");
    assert_eq!(tasks[0].alias, "calc1");
    assert_eq!(tasks[0].index, 1);
    assert!(matches!(tasks[0].family, Family::Amount));
    assert_eq!(tasks[47].query, "SELECT sum(t.amount48) as calc48 FROM t");
    assert_eq!(tasks[48].query, "SELECT sum(t.number1) as calc1 FROM t");
    assert!(matches!(tasks[48].family, Family::Number));
    assert_eq!(tasks[94].query, "SELECT sum(t.number47) as calc47 FROM t");
    for task in &tasks {
        assert_eq!(task.table, "t");
    }
}

#[test]
fn fans_out_nothing_for_zero_counts() {
    let tasks = fan_out("t", 0, 0);
    assert_eq!(tasks.len(), 0);
}

#[test]
fn serializes_record_as_json_line() {
    let rec = ResultRecord { alias: String::from("calc1"), value: 4950 };
    assert_eq!(serialize_record(&rec), "{\"calc1\":4950}");
}

#[test]
fn serializes_negative_value() {
    let rec = ResultRecord { alias: String::from("calc9"), value: -123 };
    assert_eq!(serialize_record(&rec), "{\"calc9\":-123}");
}
