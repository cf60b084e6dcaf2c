//! Text processing: whitespace clean-up that borrows when nothing needs
//! changing, extracting the fields of a log line with a regular expression,
//! and three ways to measure a text's length.
use vstd::prelude::*;
use vstd::string::*;
use std::borrow::Cow;
use regex::Regex;
use unicode_segmentation::UnicodeSegmentation;
use crate::strings::{
    chars_of, collapse_runs, join, join_words, lemma_join_words_is_collapsed_trim, lemma_words_are_words,
    lemma_words_of_join, str_equals, trim, trim_bounds, words,
};

verus! {

/// What `Regex::replace_all` gives for a pattern that compiles: every
/// leftmost-first, non-overlapping match in `text` replaced by
/// `replacement` (with `$name` group references expanded).
pub uninterp spec fn regex_replaced(pattern: Seq<char>, text: Seq<char>, replacement: Seq<char>) -> Seq<char>;

/// The pattern of a run of whitespace.
pub open spec fn whitespace_run_pattern() -> Seq<char> {
    "\\s+"@
}

/// The pattern `\\s+` with the replacement `" "`.
pub open spec fn is_whitespace_collapse(pattern: Seq<char>, replacement: Seq<char>) -> bool {
    pattern == whitespace_run_pattern() && replacement == " "@
}

/// `Regex::new(pattern)` then `replace_all(text, replacement)`; `None` when
/// the pattern does not compile. For the pattern `\s+` and the replacement
/// `" "`, each maximal run of whitespace (`\s` is Unicode `White_Space`, as
/// for `char::is_whitespace`) becomes a single space and the rest is kept.
#[verifier::external_body]
fn replace_all(pattern: &str, text: &str, replacement: &str) -> (r: Option<String>)
    ensures
        r matches Some(s) ==> s@ == regex_replaced(pattern@, text@, replacement@),
        is_whitespace_collapse(pattern@, replacement@) ==> r is Some,
        r matches Some(s) ==> (is_whitespace_collapse(pattern@, replacement@) ==> s@ == collapse_runs(text@)),
{
    let regex = Regex::new(pattern).ok()?;
    Some(regex.replace_all(text, replacement).into_owned())
}

/// What `normalize_whitespace` gives: the text trimmed, with every run of
/// whitespace inside collapsed to a single space.
pub open spec fn normalized_text(s: Seq<char>) -> Seq<char> {
    collapse_runs(trim(s))
}

/// Trims and collapses every run of whitespace to a single space; a text
/// that needs no change is borrowed, not copied.
pub fn normalize_whitespace(text: &str) -> (r: Cow<'_, str>)
    ensures
        r@ == normalized_text(text@),
        r is Borrowed <==> normalized_text(text@) == text@,
{
    let v = chars_of(text);
    let cleaned = join_words(&v);
    proof {
        lemma_join_words_is_collapsed_trim(text@);
    }
    if str_equals(cleaned.as_str(), text) {
        Cow::Borrowed(text)
    } else {
        let (start, end) = trim_bounds(&v);
        let trimmed = text.substring_char(start, end);
        match replace_all("\\s+", trimmed, " ") {
            Some(replaced) => Cow::Owned(replaced),
            None => Cow::Owned(cleaned),
        }
    }
}

/// The cleaned text is the words joined by single spaces.
pub proof fn law_cleanup_matches_normalize(text: Seq<char>)
    ensures
        normalized_text(text) == join(words(text), seq![' ']),
{
    lemma_join_words_is_collapsed_trim(text);
}

/// Cleaning twice is cleaning once: a cleaned text needs no change, so
/// `normalize_whitespace` borrows it.
pub proof fn law_cleanup_is_idempotent(text: Seq<char>)
    ensures
        normalized_text(normalized_text(text)) == normalized_text(text),
{
    let j = join(words(text), seq![' ']);
    lemma_join_words_is_collapsed_trim(text);
    lemma_words_are_words(text);
    lemma_words_of_join(words(text));
    lemma_join_words_is_collapsed_trim(j);
}

/// What `Regex::captures` finds: when `pattern` compiles and matches
/// `line`, the text of each group named in `names`, in that order; `None`
/// when the pattern does not compile, does not match, or a named group took
/// no part in the match.
pub uninterp spec fn named_captures(pattern: Seq<char>, line: Seq<char>, names: Seq<Seq<char>>) -> Option<Seq<Seq<char>>>;

/// `Regex::new(pattern)`, then `captures(line)` and the text of each named
/// group; `None` when the pattern does not compile, does not match, or a
/// group took no part in the match.
#[verifier::external_body]
fn captures_named(pattern: &str, line: &str, names: &[&str]) -> (r: Option<Vec<String>>)
    ensures
        match r {
            Some(v) => v@.len() == names@.len() && named_captures(pattern@, line@, names@.map_values(|n: &str| n@))
                == Some(v@.map_values(|t: String| t@)),
            None => named_captures(pattern@, line@, names@.map_values(|n: &str| n@)) is None,
        },
{
    let regex = Regex::new(pattern).ok()?;
    let caps = regex.captures(line)?;
    names.iter().map(|name| caps.name(name).map(|m| m.as_str().to_string())).collect()
}

/// The log-line pattern: a level among `INFO`, `WARN`, `ERROR`, whitespace,
/// a time `hh:mm:ss`, whitespace, and the message up to the end.
pub open spec fn log_line_pattern() -> Seq<char> {
    "^(?P<level>INFO|WARN|ERROR)\\s+(?P<time>\\d{2}:\\d{2}:\\d{2})\\s+(?P<msg>.*)$"@
}

/// The groups of a log line, in order.
pub open spec fn log_group_names() -> Seq<Seq<char>> {
    seq!["level"@, "time"@, "msg"@]
}

/// What the log-line pattern captures in a line, as (level, time,
/// message); `None` when it does not match.
pub open spec fn log_line_fields(line: Seq<char>) -> Option<(Seq<char>, Seq<char>, Seq<char>)> {
    match named_captures(log_line_pattern(), line, log_group_names()) {
        Some(v) => if v.len() == 3 { Some((v[0], v[1], v[2])) } else { None },
        None => None,
    }
}

/// Extracts (level, time, message) from a line such as
/// `INFO 14:30:00 service started`.
pub fn parse_log_line(line: &str) -> (r: Option<(String, String, String)>)
    ensures
        match r {
            Some((level, time, msg)) => log_line_fields(line@) == Some((level@, time@, msg@)),
            None => log_line_fields(line@) is None,
        },
{
    let names = vec!["level", "time", "msg"];
    assert(names@.map_values(|n: &str| n@) =~= log_group_names());
    match captures_named("^(?P<level>INFO|WARN|ERROR)\\s+(?P<time>\\d{2}:\\d{2}:\\d{2})\\s+(?P<msg>.*)$", line, names.as_slice()) {
        Some(mut v) => {
            let ghost all = v@.map_values(|t: String| t@);
            let msg = v.pop().unwrap();
            let time = v.pop().unwrap();
            let level = v.pop().unwrap();
            assert(all[0] == level@ && all[1] == time@ && all[2] == msg@);
            Some((level, time, msg))
        },
        None => None,
    }
}

/// How many extended grapheme clusters (user-perceived characters)
/// `unicode-segmentation` finds in a text.
pub uninterp spec fn grapheme_count(text: Seq<char>) -> usize;

/// `UnicodeSegmentation::graphemes(text, true).count()`.
#[verifier::external_body]
fn count_graphemes(text: &str) -> (n: usize)
    ensures
        n == grapheme_count(text@),
{
    text.graphemes(true).count()
}

/// Three lengths of a text: characters, UTF-8 bytes, grapheme clusters.
pub fn counts(text: &str) -> (r: (usize, usize, usize))
    ensures
        r.0 == text@.len(),
        r.1 == text.spec_bytes().len() as usize,
        r.2 == grapheme_count(text@),
{
    (text.unicode_len(), text.len(), count_graphemes(text))
}

} // verus!
