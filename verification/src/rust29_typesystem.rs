//! Type-system techniques: a lending iterator over borrowed words, a trait
//! whose implementations render differently, and functions that accept
//! references of any lifetime.
use vstd::prelude::*;
use vstd::string::*;
use crate::strings::{chars_of, next_word, trim, trim_bounds, words};

verus! {

/// An iterator that lends out string slices borrowed from itself.
pub trait LendingIterator {
    fn next(&mut self) -> Option<&str>;
}

/// Splits text into whitespace-separated words, lending each word as a
/// slice of the input.
pub struct WordSplitter<'s> {
    rest: &'s str,
}

impl<'s> WordSplitter<'s> {
    /// The words not yet handed out.
    pub closed spec fn remaining(&self) -> Seq<Seq<char>> {
        words(self.rest@)
    }

    pub fn new(s: &'s str) -> (w: Self)
        ensures
            w.remaining() == words(s@),
    {
        Self { rest: s }
    }

}

impl<'s> LendingIterator for WordSplitter<'s> {
    /// The next word, or `None` once only whitespace is left.
    fn next(&mut self) -> (r: Option<&str>)
        ensures
            old(self).remaining().len() == 0 ==> r is None,
            old(self).remaining().len() > 0 ==> (r matches Some(w) && w@ == old(self).remaining()[0]),
            old(self).remaining().len() > 0 ==> final(self).remaining() == old(self).remaining().drop_first(),
            old(self).remaining().len() == 0 ==> final(self).remaining() == old(self).remaining(),
    {
        let v = chars_of(self.rest);
        assert(v@.skip(0) =~= v@);
        match next_word(&v, 0) {
            None => None,
            Some((a, b)) => {
                let word = self.rest.substring_char(a, b);
                let rest = self.rest.substring_char(b, v.len());
                assert(rest@ =~= v@.skip(b as int));
                self.rest = rest;
                Some(word)
            },
        }
    }
}

/// Something that renders itself as text; each implementation chooses
/// its own rendering.
pub trait Style {
    fn render(&self) -> String;
}

/// Renders the text as it is.
pub struct Plain(pub String);

/// Renders the text followed by three exclamation marks.
pub struct Shouty(pub String);

impl Style for Plain {
    fn render(&self) -> (s: String)
        ensures
            s@ == self.0@,
    {
        self.0.clone()
    }
}

impl Style for Shouty {
    fn render(&self) -> (s: String)
        ensures
            s@ == self.0@ + "!!!"@,
    {
        let mut s = self.0.clone();
        s.append("!!!");
        s
    }
}

/// The first whitespace-separated word, or `""` when there is none.
pub fn first_word(s: &str) -> (w: &str)
    ensures
        w@ == (if words(s@).len() > 0 { words(s@)[0] } else { Seq::<char>::empty() }),
{
    let v = chars_of(s);
    assert(v@.skip(0) =~= v@);
    match next_word(&v, 0) {
        None => {
            proof {
                reveal_strlit("");
            }
            ""
        },
        Some((a, b)) => s.substring_char(a, b),
    }
}

/// Calls `f` on `input`; `f` accepts a reference of any lifetime and
/// returns one that lives as long as its argument.
pub fn apply_to_any_lifetime<F: Fn(&str) -> &str>(f: F, input: &str) -> (r: &str)
    requires
        f.requires((input,)),
    ensures
        f.ensures((input,), r),
{
    f(input)
}

/// The text after an optional leading `">>>"` marker, trimmed.
pub open spec fn unmarked(s: Seq<char>) -> Seq<char> {
    if s.len() >= 3 && s[0] == '>' && s[1] == '>' && s[2] == '>' {
        trim(s.skip(3))
    } else {
        trim(s)
    }
}

/// Drops a leading `">>>"` marker, if any, and trims the rest.
pub fn strip_marker(s: &str) -> (r: &str)
    ensures
        r@ == unmarked(s@),
{
    let v = chars_of(s);
    let from: usize = if v.len() >= 3 && v[0] == '>' && v[1] == '>' && v[2] == '>' {
        3
    } else {
        0
    };
    let rest = s.substring_char(from, v.len());
    let w = chars_of(rest);
    let (a, b) = trim_bounds(&w);
    assert(s@.skip(from as int) =~= rest@);
    assert(s@.skip(0) =~= s@);
    rest.substring_char(a, b)
}

/// A boxed closure that strips a leading `">>>"` marker from a reference
/// of any lifetime.
pub fn boxed_hrtb_closure() -> (f: impl Fn(&str) -> &str)
    ensures
        forall|s: &str| #[trigger] f.requires((s,)),
        forall|s: &str, r: &str| #[trigger] f.ensures((s,), r) ==> r@ == unmarked(s@),
{
    strip_marker
}

/// Sum of an array of any length.
pub fn sum_array<const N: usize>(arr: [i32; N]) -> (total: i32)
    requires
        forall|k: int| 0 <= k <= N ==> i32::MIN <= #[trigger] sum_prefix(arr@, k) <= i32::MAX,
    ensures
        total == sum_prefix(arr@, N as int),
{
    let mut total: i32 = 0;
    let mut i: usize = 0;
    while i < N
        invariant
            i <= N,
            arr@.len() == N,
            total == sum_prefix(arr@, i as int),
            forall|k: int| 0 <= k <= N ==> i32::MIN <= #[trigger] sum_prefix(arr@, k) <= i32::MAX,
        decreases N - i,
    {
        assert(sum_prefix(arr@, i + 1) == sum_prefix(arr@, i as int) + arr@[i as int]);
        total = total + arr[i];
        i = i + 1;
    }
    total
}

/// Sum of the first `k` elements.
pub open spec fn sum_prefix(s: Seq<i32>, k: int) -> int
    decreases k,
{
    if k <= 0 {
        0
    } else {
        sum_prefix(s, k - 1) + s[k - 1]
    }
}

/// Arrays of different lengths are different types, yet one generic sum
/// serves them all.
pub fn array_len_is_part_of_type() {
    let a: [i32; 3] = [1, 2, 3];
    let b: [i32; 4] = [1, 2, 3, 4];
    assert(sum_prefix(a@, 3) == 6) by {
        reveal_with_fuel(sum_prefix, 4);
    }
    assert(sum_prefix(b@, 4) == 10) by {
        reveal_with_fuel(sum_prefix, 5);
    }
    assert forall|k: int| 0 <= k <= 3 implies i32::MIN <= #[trigger] sum_prefix(a@, k) <= i32::MAX by {
        reveal_with_fuel(sum_prefix, 4);
    }
    assert forall|k: int| 0 <= k <= 4 implies i32::MIN <= #[trigger] sum_prefix(b@, k) <= i32::MAX by {
        reveal_with_fuel(sum_prefix, 5);
    }
    let sa = sum_array(a);
    let sb = sum_array(b);
    assert(sa == 6 && sb == 10);
}

} // verus!
