//! Collections: counting words into a table with one entry per distinct
//! word, ordering such a table by word, and an upper-case greeting.
use vstd::prelude::*;
use vstd::string::*;
use crate::strings::{chars_of, next_word, push_char, str_equals, words};

verus! {

broadcast use {vstd::seq_lib::group_to_multiset_ensures, vstd::multiset::group_multiset_axioms};

/// How often `w` occurs in `ws`.
pub open spec fn occurrences(ws: Seq<Seq<char>>, w: Seq<char>) -> nat {
    ws.to_multiset().count(w)
}

/// `table` counts the words `ws`: each distinct word appears once, with the
/// number of times it occurs, and every word has its entry.
pub open spec fn counts_words(table: Seq<(&str, usize)>, ws: Seq<Seq<char>>) -> bool {
    &&& forall|i: int, j: int| 0 <= i < j < table.len() ==> (#[trigger] table[i]).0@ != (#[trigger] table[j]).0@
    &&& forall|i: int| 0 <= i < table.len() ==> (#[trigger] table[i]).1 == occurrences(ws, table[i].0@) && table[i].1 > 0
    &&& forall|k: int| 0 <= k < ws.len() ==> keys(table).contains(#[trigger] ws[k])
}

/// The words of a table, in order.
pub open spec fn keys(table: Seq<(&str, usize)>) -> Seq<Seq<char>> {
    table.map_values(|e: (&str, usize)| e.0@)
}

/// Where `w` stands among the keys of `table`, if anywhere.
fn position_of(table: &Vec<(&str, usize)>, w: &str) -> (r: Option<usize>)
    ensures
        match r {
            Some(j) => j < table@.len() && table@[j as int].0@ == w@,
            None => forall|i: int| 0 <= i < table@.len() ==> (#[trigger] table@[i]).0@ != w@,
        },
{
    let mut j: usize = 0;
    while j < table.len()
        invariant
            j <= table@.len(),
            forall|i: int| 0 <= i < j ==> (#[trigger] table@[i]).0@ != w@,
        decreases table@.len() - j,
    {
        if str_equals(table[j].0, w) {
            return Some(j);
        }
        j = j + 1;
    }
    None
}

/// Counts the whitespace-separated words of `text`: one entry per distinct
/// word, in order of first occurrence, with its number of occurrences.
pub fn word_count<'a>(text: &'a str) -> (table: Vec<(&'a str, usize)>)
    ensures
        counts_words(table@, words(text@)),
{
    let v = chars_of(text);
    let mut table: Vec<(&'a str, usize)> = Vec::new();
    let mut i: usize = 0;
    let ghost mut done: Seq<Seq<char>> = seq![];
    assert(v@.skip(0) =~= v@);
    loop
        invariant
            i <= v@.len(),
            v@ == text@,
            words(v@) == done + words(v@.skip(i as int)),
            done.len() <= i,
            counts_words(table@, done),
        decreases v@.len() - i,
    {
        match next_word(&v, i) {
            None => {
                assert(done + Seq::<Seq<char>>::empty() =~= done);
                return table;
            },
            Some((a, b)) => {
                let w = text.substring_char(a, b);
                let ghost before = table@;
                let ghost next = done.push(w@);
                assert(next.to_multiset() =~= done.to_multiset().insert(w@));
                match position_of(&table, w) {
                    Some(j) => {
                        let entry = table[j];
                        assert(entry.1 <= done.len()) by {
                            assert(done.to_multiset().count(entry.0@) <= done.to_multiset().len());
                        }
                        table.set(j, (entry.0, entry.1 + 1));
                        proof {
                            assert forall|x: int| 0 <= x < table@.len() implies (#[trigger] table@[x]).1 == occurrences(next, table@[x].0@) && table@[x].1 > 0 by {
                                if x != j {
                                    assert(before[x].0@ != before[j as int].0@);
                                }
                            }
                            assert forall|x: int, y: int| 0 <= x < y < table@.len() implies (#[trigger] table@[x]).0@ != (#[trigger] table@[y]).0@ by {
                                assert(table@[x].0@ == before[x].0@ && table@[y].0@ == before[y].0@);
                            }
                            assert forall|k: int| 0 <= k < next.len() implies keys(table@).contains(#[trigger] next[k]) by {
                                if k < done.len() {
                                    assert(next[k] == done[k]);
                                    assert(keys(before).contains(done[k]));
                                    let x = choose|x: int| 0 <= x < keys(before).len() && keys(before)[x] == done[k];
                                    assert(keys(table@)[x] == keys(before)[x]);
                                } else {
                                    assert(keys(table@)[j as int] == next[k]);
                                }
                            }
                        }
                    },
                    None => {
                        assert(done.to_multiset().count(w@) == 0) by {
                            if done.to_multiset().count(w@) > 0 {
                                assert(done.contains(w@));
                                let k = choose|k: int| 0 <= k < done.len() && done[k] == w@;
                                assert(keys(before).contains(done[k]));
                                let x = choose|x: int| 0 <= x < keys(before).len() && keys(before)[x] == done[k];
                                assert(before[x].0@ == w@);
                            }
                        }
                        table.push((w, 1));
                        proof {
                            assert forall|x: int| 0 <= x < table@.len() implies (#[trigger] table@[x]).1 == occurrences(next, table@[x].0@) && table@[x].1 > 0 by {
                                if x < before.len() {
                                    assert(table@[x] == before[x]);
                                }
                            }
                            assert forall|x: int, y: int| 0 <= x < y < table@.len() implies (#[trigger] table@[x]).0@ != (#[trigger] table@[y]).0@ by {
                                assert(table@[x] == before[x]);
                                if y < before.len() {
                                    assert(table@[y] == before[y]);
                                }
                            }
                            assert forall|k: int| 0 <= k < next.len() implies keys(table@).contains(#[trigger] next[k]) by {
                                if k < done.len() {
                                    assert(next[k] == done[k]);
                                    assert(keys(before).contains(done[k]));
                                    let x = choose|x: int| 0 <= x < keys(before).len() && keys(before)[x] == done[k];
                                    assert(keys(table@)[x] == keys(before)[x]);
                                } else {
                                    assert(keys(table@)[before.len() as int] == next[k]);
                                }
                            }
                        }
                    },
                }
                proof {
                    done = next;
                    assert(words(v@) =~= done + words(v@.skip(b as int)));
                }
                i = b;
            },
        }
    }
}

/// Lexicographic order of character sequences; on `str` it is the order of
/// their UTF-8 bytes.
pub open spec fn lex_less(a: Seq<char>, b: Seq<char>) -> bool
    decreases a.len(),
{
    if a.len() == 0 {
        b.len() > 0
    } else if b.len() == 0 {
        false
    } else if a[0] != b[0] {
        (a[0] as u32) < (b[0] as u32)
    } else {
        lex_less(a.drop_first(), b.drop_first())
    }
}

/// `lex_less` never holds of a sequence and itself.
pub proof fn lemma_lex_irreflexive(a: Seq<char>)
    ensures
        !lex_less(a, a),
    decreases a.len(),
{
    if a.len() > 0 {
        lemma_lex_irreflexive(a.drop_first());
    }
}

/// `lex_less` is asymmetric.
pub proof fn lemma_lex_asymmetric(a: Seq<char>, b: Seq<char>)
    ensures
        lex_less(a, b) ==> !lex_less(b, a),
    decreases a.len(),
{
    if a.len() > 0 && b.len() > 0 && a[0] == b[0] {
        lemma_lex_asymmetric(a.drop_first(), b.drop_first());
    }
}

/// Different characters have different code points.
proof fn lemma_char_code_injective(c: char, d: char)
    ensures
        c != d ==> (c as u32) != (d as u32),
{
}

/// Of two different sequences, one comes first.
pub proof fn lemma_lex_total(a: Seq<char>, b: Seq<char>)
    ensures
        a != b ==> lex_less(a, b) || lex_less(b, a),
    decreases a.len(),
{
    if a.len() == 0 && b.len() == 0 {
        assert(a =~= b);
    } else if a.len() > 0 && b.len() > 0 && a[0] == b[0] {
        lemma_lex_total(a.drop_first(), b.drop_first());
        if a.drop_first() == b.drop_first() {
            assert(a =~= seq![a[0]] + a.drop_first());
            assert(b =~= seq![b[0]] + b.drop_first());
        }
    } else if a.len() > 0 && b.len() > 0 {
        lemma_char_code_injective(a[0], b[0]);
    }
}

/// `lex_less` is transitive.
pub proof fn lemma_lex_transitive(a: Seq<char>, b: Seq<char>, c: Seq<char>)
    ensures
        lex_less(a, b) && lex_less(b, c) ==> lex_less(a, c),
    decreases a.len(),
{
    if a.len() > 0 && b.len() > 0 && c.len() > 0 {
        lemma_lex_transitive(a.drop_first(), b.drop_first(), c.drop_first());
    }
}

/// Whether `a` comes before `b` in `str` order.
pub fn str_less(a: &str, b: &str) -> (r: bool)
    ensures
        r == lex_less(a@, b@),
{
    let x = chars_of(a);
    let y = chars_of(b);
    let mut i: usize = 0;
    assert(x@.skip(0) =~= x@);
    assert(y@.skip(0) =~= y@);
    while i < x.len() && i < y.len() && x[i] == y[i]
        invariant
            i <= x@.len(),
            i <= y@.len(),
            lex_less(a@, b@) == lex_less(x@.skip(i as int), y@.skip(i as int)),
            x@ == a@,
            y@ == b@,
        decreases x@.len() - i,
    {
        assert(x@.skip(i as int).drop_first() =~= x@.skip(i + 1));
        assert(y@.skip(i as int).drop_first() =~= y@.skip(i + 1));
        i = i + 1;
    }
    if i == x.len() {
        i < y.len()
    } else if i == y.len() {
        false
    } else {
        assert(x@.skip(i as int)[0] == x@[i as int]);
        assert(y@.skip(i as int)[0] == y@[i as int]);
        (x[i] as u32) < (y[i] as u32)
    }
}

/// Keys in strictly increasing `str` order.
pub open spec fn sorted_by_word(table: Seq<(&str, usize)>) -> bool {
    forall|i: int, j: int| 0 <= i < j < table.len() ==> lex_less((#[trigger] table[i]).0@, (#[trigger] table[j]).0@)
}

/// Orders a word table by word. `HashMap` gives no order, so a stable
/// output has to be sorted; the table's words are distinct, so the result
/// is the unique arrangement of the same entries in increasing word order.
pub fn sorted_counts<'a>(counts: &[(&'a str, usize)]) -> (r: Vec<(&'a str, usize)>)
    requires
        forall|i: int, j: int| 0 <= i < j < counts@.len() ==> (#[trigger] counts@[i]).0@ != (#[trigger] counts@[j]).0@,
    ensures
        r@.to_multiset() == counts@.to_multiset(),
        sorted_by_word(r@),
{
    let mut r: Vec<(&'a str, usize)> = Vec::new();
    let mut k: usize = 0;
    while k < counts.len()
        invariant
            k <= counts@.len(),
            forall|i: int, j: int| 0 <= i < j < counts@.len() ==> (#[trigger] counts@[i]).0@ != (#[trigger] counts@[j]).0@,
            r@.to_multiset() == counts@.take(k as int).to_multiset(),
            sorted_by_word(r@),
        decreases counts@.len() - k,
    {
        let item = counts[k];
        let mut p: usize = 0;
        while p < r.len() && !str_less(item.0, r[p].0)
            invariant
                p <= r@.len(),
                forall|q: int| 0 <= q < p ==> !lex_less(item.0@, (#[trigger] r@[q]).0@),
            decreases r@.len() - p,
        {
            p = p + 1;
        }
        let ghost old_r = r@;
        proof {
            assert forall|q: int| 0 <= q < old_r.len() implies (#[trigger] old_r[q]).0@ != item.0@ by {
                assert(old_r.to_multiset().count(old_r[q]) > 0);
                assert(counts@.take(k as int).contains(old_r[q]));
                let m = choose|m: int| 0 <= m < k && counts@.take(k as int)[m] == old_r[q];
                assert(counts@[m] == old_r[q]);
            }
        }
        r.insert(p, item);
        proof {
            assert(counts@.take(k + 1) =~= counts@.take(k as int).push(item));
            assert forall|i: int, j: int| 0 <= i < j < r@.len() implies lex_less((#[trigger] r@[i]).0@, (#[trigger] r@[j]).0@) by {
                if j < p {
                    assert(r@[i] == old_r[i] && r@[j] == old_r[j]);
                } else if j == p {
                    assert(r@[i] == old_r[i]);
                    lemma_lex_total(old_r[i].0@, item.0@);
                } else if i == p {
                    assert(r@[j] == old_r[j - 1]);
                    if p < old_r.len() {
                        assert(lex_less(item.0@, old_r[p as int].0@));
                        if j - 1 > p {
                            lemma_lex_transitive(item.0@, old_r[p as int].0@, old_r[j - 1].0@);
                        }
                    }
                } else if i < p {
                    assert(r@[i] == old_r[i] && r@[j] == old_r[j - 1]);
                } else {
                    assert(r@[i] == old_r[i - 1] && r@[j] == old_r[j - 1]);
                }
            }
        }
        k = k + 1;
    }
    assert(counts@.take(counts@.len() as int) =~= counts@);
    r
}

/// What `str::to_uppercase` gives for a text: Unicode's full upper-case
/// mapping, character by character.
pub uninterp spec fn upper_case(text: Seq<char>) -> Seq<char>;

/// `str::to_uppercase`.
#[verifier::external_body]
fn to_uppercase(text: &str) -> (r: String)
    ensures
        r@ == upper_case(text@),
{
    text.to_uppercase()
}

/// The text in upper case, with an exclamation mark.
pub fn shout(text: &str) -> (s: String)
    ensures
        s@ == upper_case(text@).push('!'),
{
    let mut s = to_uppercase(text);
    push_char(&mut s, '!');
    s
}

} // verus!
