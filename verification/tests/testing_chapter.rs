use rust_learn::rust23_testing::{uptime_label, uptime_label_for, FakeClock};
use std::error::Error;

#[test]
fn uptime_label_covers_all_branches() {
    let cases = [
        (500u64, "500 毫秒"),
        (1_000, "1 秒"),
        (59_999, "59 秒"),
        (60_000, "1 分钟"),
        (185_000, "3 分钟"),
    ];
    for (millis, expected) in cases {
        assert_eq!(
            uptime_label(&FakeClock { millis }),
            expected,
            "输入 {millis} 毫秒时"
        );
    }
}

#[test]
fn matches_macro_is_good_for_shapes() {
    let value = Some(42);
    assert!(matches!(value, Some(n) if n > 40));
    assert!(!matches!(value, Some(n) if n > 100));

    let outcome: Result<i32, String> = Err(String::from("boom"));
    assert!(matches!(outcome, Err(message) if message.contains("boom")));
}

#[test]
fn tests_can_return_result() -> Result<(), Box<dyn Error>> {
    let parsed: i32 = "42".parse()?;
    assert_eq!(parsed, 42);
    let date = chrono::NaiveDate::parse_from_str("2026-09-13", "%Y-%m-%d")?;
    assert_eq!(date.to_string(), "2026-09-13");
    Ok(())
}

#[test]
fn uptime_label_at_the_unit_boundaries() {
    assert_eq!(uptime_label_for(0), "0 毫秒");
    assert_eq!(uptime_label_for(999), "999 毫秒");
    assert_eq!(uptime_label_for(u64::MAX), "307445734561825 分钟");
}
