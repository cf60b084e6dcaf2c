use rust_learn::rust24_cargo::{
    compare_versions, next_version, order_label, parse_version, Change,
};
use std::cmp::Ordering;

#[test]
fn parses_three_numeric_segments_only() {
    assert_eq!(parse_version("1.2.3"), Some((1, 2, 3)));
    assert_eq!(parse_version(" 0.1.0 "), Some((0, 1, 0)));
    assert_eq!(parse_version("1.2"), None);
    assert_eq!(parse_version("1.2.3.4"), None);
    assert_eq!(parse_version("1.2.x"), None);
    assert_eq!(parse_version(""), None);
}

#[test]
fn compares_each_segment_in_order() {
    assert_eq!(compare_versions("0.1.0", "0.2.0"), Some(Ordering::Less));
    assert_eq!(compare_versions("1.2.10", "1.2.9"), Some(Ordering::Greater));
    assert_eq!(compare_versions("1.0.0", "1.0.0"), Some(Ordering::Equal));
    assert_eq!(compare_versions("2.0.0", "1.99.99"), Some(Ordering::Greater));
    assert_eq!(compare_versions("1.0", "1.0.0"), None);
}

#[test]
fn bumps_the_right_segment_and_resets_lower_ones() {
    assert_eq!(next_version("1.2.3", Change::Fix), Some("1.2.4".into()));
    assert_eq!(next_version("1.2.3", Change::Feature), Some("1.3.0".into()));
    assert_eq!(next_version("1.2.3", Change::Breaking), Some("2.0.0".into()));
    assert_eq!(next_version("0.0.1", Change::Breaking), Some("1.0.0".into()));
    assert_eq!(next_version("1.2", Change::Fix), None);
}

#[test]
fn comparison_is_antisymmetric_on_an_example() {
    assert_eq!(compare_versions("1.2.9", "1.2.10"), Some(Ordering::Less));
    assert_eq!(compare_versions("1.2.10", "1.2.9"), Some(Ordering::Greater));
}

#[test]
fn next_version_is_always_greater_on_examples() {
    for change in [Change::Fix, Change::Feature, Change::Breaking] {
        let next = next_version("3.4.5", change).unwrap();
        assert_eq!(compare_versions(&next, "3.4.5"), Some(Ordering::Greater));
    }
    assert_eq!(parse_version("1.02.3"), Some((1, 2, 3)));
    assert_eq!(parse_version("+1.02.3"), None);
}

#[test]
fn order_labels_name_each_ordering() {
    assert_eq!(order_label(Ordering::Less), "小于");
    assert_eq!(order_label(Ordering::Equal), "等于");
    assert_eq!(order_label(Ordering::Greater), "大于");
}

#[test]
fn version_segments_are_digits_only() {
    assert_eq!(parse_version("+1.2.3"), None);
    assert_eq!(parse_version("1.+2.3"), None);
    assert_eq!(parse_version("1..3"), None);
    assert_eq!(parse_version("18446744073709551615.0.0"), Some((u64::MAX, 0, 0)));
    assert_eq!(parse_version("18446744073709551616.0.0"), None);
}
