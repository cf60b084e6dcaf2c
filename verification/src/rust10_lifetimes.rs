//! Lifetimes: functions returning one of their borrowed arguments, structs
//! holding references, and a tokenizer lending out slices of its input.
use vstd::prelude::*;
use vstd::string::*;
use crate::strings::{chars_of, find_from, is_ascii_whitespace, is_ascii_ws, seg_len};

verus! {

/// The longer of two strings by byte length; the first one on a tie.
pub fn longest<'a>(a: &'a str, b: &'a str) -> (r: &'a str)
    ensures
        r == (if a.len() >= b.len() { a } else { b }),
{
    if a.len() >= b.len() {
        a
    } else {
        b
    }
}

/// The text before the first space, or all of it.
pub fn first_word(text: &str) -> (w: &str)
    ensures
        w@ == text@.take(seg_len(text@, ' ') as int),
{
    let v = chars_of(text);
    let end = find_from(&v, 0, ' ');
    assert(v@.skip(0) =~= v@);
    text.substring_char(0, end)
}

/// A struct holding a borrowed part of some text.
#[derive(Debug)]
pub struct Excerpt<'a> {
    pub part: &'a str,
}

impl<'a> Excerpt<'a> {
    /// The borrowed part.
    pub fn part(&self) -> (p: &str)
        ensures
            p == self.part,
    {
        self.part
    }
}

/// `text[a..b]` is the token found from `from`: only ASCII whitespace
/// before it, none inside, and whitespace or the end right after it.
pub open spec fn token_span(text: Seq<char>, from: int, a: int, b: int) -> bool {
    &&& from <= a < b <= text.len()
    &&& forall|k: int| from <= k < a ==> is_ascii_ws(#[trigger] text[k])
    &&& forall|k: int| a <= k < b ==> !is_ascii_ws(#[trigger] text[k])
    &&& (b == text.len() || is_ascii_ws(text[b]))
}

/// First index at or after `from` that does not hold ASCII whitespace.
pub open spec fn ascii_ws_end(text: Seq<char>, from: int) -> int
    decreases text.len() - from,
{
    if 0 <= from < text.len() && is_ascii_ws(text[from]) {
        ascii_ws_end(text, from + 1)
    } else {
        from
    }
}

/// Splits its input at ASCII whitespace, lending each token as a slice of
/// the input.
pub struct Tokenizer<'a> {
    input: &'a str,
    pos: usize,
}

impl<'a> Tokenizer<'a> {
    /// The text being split.
    pub closed spec fn text(&self) -> Seq<char> {
        self.input@
    }

    /// Characters handed out or skipped so far.
    pub closed spec fn position(&self) -> int {
        self.pos as int
    }

    pub closed spec fn wf(&self) -> bool {
        self.pos <= self.input@.len()
    }

    pub fn new(input: &'a str) -> (t: Self)
        ensures
            t.text() == input@,
            t.position() == 0,
            t.wf(),
    {
        Self { input, pos: 0 }
    }

    /// The next token: whitespace from the current position is skipped and
    /// the token runs to the next ASCII whitespace or the end.
    pub fn next_token(&mut self) -> (r: Option<&'a str>)
        requires
            old(self).wf(),
        ensures
            final(self).wf(),
            final(self).text() == old(self).text(),
            match r {
                None => final(self).position() == old(self).text().len() && forall|k: int|
                    old(self).position() <= k < old(self).text().len() ==> is_ascii_ws(
                        #[trigger] old(self).text()[k],
                    ),
                Some(tok) => token_span(old(self).text(), old(self).position(), ascii_ws_end(old(self).text(), old(self).position()), final(self).position())
                        && tok@ == old(self).text().subrange(ascii_ws_end(old(self).text(), old(self).position()), final(self).position()),
            },
    {
        let v = chars_of(self.input);
        let mut i = self.pos;
        while i < v.len() && is_ascii_whitespace(v[i])
            invariant
                self.pos <= i <= v@.len(),
                v@ == self.input@,
                forall|k: int| self.pos <= k < i ==> is_ascii_ws(#[trigger] v@[k]),
                ascii_ws_end(v@, self.pos as int) == ascii_ws_end(v@, i as int),
            decreases v@.len() - i,
        {
            i = i + 1;
        }
        if i >= v.len() {
            self.pos = i;
            return None;
        }
        let start = i;
        while i < v.len() && !is_ascii_whitespace(v[i])
            invariant
                start <= i <= v@.len(),
                v@ == self.input@,
                forall|k: int| start <= k < i ==> !is_ascii_ws(#[trigger] v@[k]),
            decreases v@.len() - i,
        {
            i = i + 1;
        }
        let ghost old_pos = self.pos;
        self.pos = i;
        let tok = self.input.substring_char(start, i);
        assert(token_span(v@, old_pos as int, start as int, i as int));
        Some(tok)
    }
}

/// A string literal lives for the whole program.
pub fn greeting() -> (s: &'static str)
    ensures
        s@ == "程序全程有效"@,
{
    "程序全程有效"
}


} // verus!
