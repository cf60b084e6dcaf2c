//! Whitespace clean-up and word counting.
use vstd::prelude::*;
use crate::strings::{
    chars_of, collapse_runs, count_words, join, join_words, lemma_join_words_is_collapsed_trim, lemma_words_are_words,
    lemma_words_of_join, trim, words,
};

verus! {

/// Leading and trailing whitespace removed and every run of whitespace
/// inside collapsed to a single space: the words joined by `' '`.
pub fn normalize(input: &str) -> (s: String)
    ensures
        s@ == join(words(input@), seq![' ']),
{
    let v = chars_of(input);
    join_words(&v)
}

/// Number of whitespace-separated words.
pub fn word_count(input: &str) -> (n: usize)
    ensures
        n == words(input@).len(),
{
    let v = chars_of(input);
    count_words(&v)
}

/// What `normalize` promises: leading and trailing whitespace removed, and
/// every run of whitespace collapsed to a single space.
pub proof fn law_normalize_trims_and_collapses(input: Seq<char>)
    ensures
        join(words(input), seq![' ']) == collapse_runs(trim(input)),
{
    lemma_join_words_is_collapsed_trim(input);
}

/// Normalising twice is normalising once, and normalising keeps the words
/// (and so the word count).
pub proof fn law_normalize_is_idempotent(input: Seq<char>)
    ensures
        words(join(words(input), seq![' '])) == words(input),
        join(words(join(words(input), seq![' '])), seq![' ']) == join(words(input), seq![' ']),
{
    lemma_words_are_words(input);
    lemma_words_of_join(words(input));
}

} // verus!
