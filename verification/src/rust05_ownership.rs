//! Ownership and borrowing: functions that borrow, take, give back or
//! mutate their argument.
use vstd::prelude::*;
use vstd::string::*;
use crate::strings::{ascii_case_mapped, ascii_upper_all, chars_of, find_from, seg_len};

verus! {

/// Number of characters in `text`; only borrows it.
pub fn count_chars(text: &str) -> (n: usize)
    ensures
        n == text@.len(),
{
    text.unicode_len()
}

/// Hands the string back to the caller unchanged.
pub fn give_back(text: String) -> (r: String)
    ensures
        r == text,
{
    text
}

/// Appends `'!'` and upper-cases the ASCII letters, in place.
pub fn shout(text: &mut String)
    ensures
        final(text)@ == ascii_upper_all(old(text)@.push('!')),
{
    let mut v = chars_of(text.as_str());
    v.push('!');
    *text = ascii_case_mapped(&v, true);
}

/// The text before the first space, or all of it when there is no space.
pub fn first_word(text: &str) -> (w: &str)
    ensures
        w@ == text@.take(seg_len(text@, ' ') as int),
{
    let v = chars_of(text);
    let end = find_from(&v, 0, ' ');
    assert(v@.skip(0) =~= v@);
    text.substring_char(0, end)
}

/// Sum of the UTF-8 byte lengths of `s`.
pub open spec fn byte_len_sum(s: Seq<String>) -> nat
    decreases s.len(),
{
    if s.len() == 0 {
        0
    } else {
        byte_len_sum(s.drop_last()) + vstd::utf8::encode_utf8(s.last()@).len()
    }
}

/// Total byte length of the words; the caller keeps the vector.
pub fn total_len(words: &[String]) -> (total: usize)
    requires
        byte_len_sum(words@) <= usize::MAX,
    ensures
        total == byte_len_sum(words@),
{
    let mut total: usize = 0;
    let mut i: usize = 0;
    while i < words.len()
        invariant
            i <= words@.len(),
            total == byte_len_sum(words@.take(i as int)),
            byte_len_sum(words@) <= usize::MAX,
        decreases words@.len() - i,
    {
        assert(words@.take(i + 1).drop_last() =~= words@.take(i as int));
        proof {
            lemma_byte_len_sum_prefix(words@, i + 1);
        }
        total = total + words[i].as_str().len();
        i = i + 1;
    }
    assert(words@.take(words@.len() as int) =~= words@);
    total
}

pub proof fn lemma_byte_len_sum_prefix(s: Seq<String>, k: int)
    requires
        0 <= k <= s.len(),
    ensures
        byte_len_sum(s.take(k)) <= byte_len_sum(s),
    decreases s.len() - k,
{
    if k < s.len() {
        lemma_byte_len_sum_prefix(s, k + 1);
        assert(s.take(k + 1).drop_last() =~= s.take(k));
    } else {
        assert(s.take(k) =~= s);
    }
}

} // verus!
