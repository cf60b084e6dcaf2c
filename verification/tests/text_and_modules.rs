use rust_learn::rust07_collections::{shout, sorted_counts, word_count};
use rust_learn::rust14_modules_tests::normalize;
use rust_learn::rust14_modules_tests::text;
use rust_learn::rust18_text::{counts, normalize_whitespace, parse_log_line};
use std::borrow::Cow;

#[test]
fn normalize_collapses_spaces() {
    assert_eq!(normalize("  rust   is   fun "), "rust is fun");
}

#[test]
fn normalize_keeps_single_word() {
    assert_eq!(normalize("rust"), "rust");
    assert_ne!(normalize("rust"), "rust ");
}

#[test]
fn word_count_counts_words() {
    assert_eq!(text::word_count("rust is fun"), 3);
    assert_eq!(text::word_count("   "), 0);
}

#[test]
fn normalize_is_idempotent_on_an_example() {
    let once = normalize(" a \t b\n\nc ");
    assert_eq!(once, "a b c");
    assert_eq!(normalize(&once), once);
    assert_eq!(text::word_count(&once), text::word_count(" a \t b\n\nc "));
}

#[test]
fn normalize_whitespace_borrows_clean_text() {
    let clean = normalize_whitespace("already clean");
    assert!(matches!(clean, Cow::Borrowed("already clean")));
    let messy = normalize_whitespace("  many   spaces\there  ");
    assert!(matches!(messy, Cow::Owned(_)));
    assert_eq!(messy, "many spaces here");
    // Every run of whitespace, a single tab too, becomes one space.
    assert_eq!(normalize_whitespace("a\tb"), "a b");
    let mixed = normalize_whitespace("a \tb");
    assert!(matches!(mixed, Cow::Owned(_)));
    assert_eq!(mixed, "a b");
}

#[test]
fn cleaning_a_cleaned_text_borrows_it() {
    let once = normalize_whitespace("\t a  b \u{3000} c\n");
    assert_eq!(once, "a b c");
    let twice = normalize_whitespace(&once);
    assert!(matches!(twice, Cow::Borrowed(_)));
    assert_eq!(twice, once);
}

#[test]
fn log_lines_are_split_into_fields() {
    assert_eq!(
        parse_log_line("INFO 14:30:00 服务启动"),
        Some((String::from("INFO"), String::from("14:30:00"), String::from("服务启动")))
    );
    assert_eq!(parse_log_line("DEBUG 14:30:00 too chatty"), None);
    assert_eq!(parse_log_line("WARN 1:2:3 bad time"), None);
}

#[test]
fn three_lengths_of_a_text() {
    assert_eq!(counts("héllo"), (5, 6, 5));
    // "e" followed by a combining acute accent is one grapheme of two chars.
    assert_eq!(counts("e\u{301}"), (2, 3, 1));
}

#[test]
fn word_table_counts_each_distinct_word_once() {
    let table = word_count("the cat saw the dog the end");
    assert_eq!(table[0], ("the", 3));
    assert_eq!(table.len(), 5);
    let sorted = sorted_counts(&table);
    assert_eq!(
        sorted,
        vec![("cat", 1), ("dog", 1), ("end", 1), ("saw", 1), ("the", 3)]
    );
    assert!(word_count("   ").is_empty());
}

#[test]
fn shout_upper_cases_and_exclaims() {
    assert_eq!(shout("hello"), "HELLO!");
    assert_eq!(shout("straße"), "STRASSE!");
}
