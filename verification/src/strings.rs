//! Character-level model of the string operations the chapters share:
//! whitespace, trimming, splitting into words and lines, joining, and
//! decimal text for integers.  Every executable helper here is proved
//! against the spec function of the same topic.
use vstd::prelude::*;

verus! {

/// Unicode `White_Space`, the property behind `char::is_whitespace`,
/// `str::trim` and `str::split_whitespace`.
pub open spec fn is_ws(c: char) -> bool {
    let u = c as u32;
    ||| (9 <= u && u <= 13)
    ||| u == 32
    ||| u == 0x85
    ||| u == 0xa0
    ||| u == 0x1680
    ||| (0x2000 <= u && u <= 0x200a)
    ||| u == 0x2028
    ||| u == 0x2029
    ||| u == 0x202f
    ||| u == 0x205f
    ||| u == 0x3000
}

/// ASCII whitespace as `u8::is_ascii_whitespace` defines it
/// (space, tab, line feed, form feed, carriage return).
pub open spec fn is_ascii_ws(c: char) -> bool {
    c == ' ' || c == '\t' || c == '\n' || c == '\x0C' || c == '\r'
}

pub fn is_whitespace(c: char) -> (b: bool)
    ensures
        b == is_ws(c),
{
    let u = c as u32;
    (9 <= u && u <= 13) || u == 32 || u == 0x85 || u == 0xa0 || u == 0x1680 || (0x2000 <= u && u
        <= 0x200a) || u == 0x2028 || u == 0x2029 || u == 0x202f || u == 0x205f || u == 0x3000
}

pub fn is_ascii_whitespace(c: char) -> (b: bool)
    ensures
        b == is_ascii_ws(c),
{
    c == ' ' || c == '\t' || c == '\n' || c == '\x0C' || c == '\r'
}

/// The characters of `text`, in order.
pub fn chars_of(text: &str) -> (v: Vec<char>)
    ensures
        v@ == text@,
{
    let mut v: Vec<char> = Vec::new();
    for c in it: text.chars()
        invariant
            v@ == it.seq().take(it.index() as int),
            it.seq() == text@,
    {
        v.push(c);
    }
    v
}

/// `String::push`.
#[verifier::external_body]
pub fn push_char(s: &mut String, c: char)
    ensures
        final(s)@ == old(s)@.push(c),
{
    s.push(c);
}

/// Appends the characters `v[from..to]` to `s`.
pub fn push_range(s: &mut String, v: &Vec<char>, from: usize, to: usize)
    requires
        from <= to <= v@.len(),
    ensures
        final(s)@ == old(s)@ + v@.subrange(from as int, to as int),
{
    let mut i = from;
    while i < to
        invariant
            from <= i <= to <= v@.len(),
            s@ == old(s)@ + v@.subrange(from as int, i as int),
        decreases to - i,
    {
        push_char(s, v[i]);
        assert(v@.subrange(from as int, i + 1) =~= v@.subrange(from as int, i as int).push(v@[i as int]));
        i = i + 1;
    }
}

/// The characters `v[from..to]` as a vector of their own.
pub fn copy_range(v: &Vec<char>, from: usize, to: usize) -> (w: Vec<char>)
    requires
        from <= to <= v@.len(),
    ensures
        w@ == v@.subrange(from as int, to as int),
{
    let mut w: Vec<char> = Vec::new();
    let mut k = from;
    while k < to
        invariant
            from <= k <= to <= v@.len(),
            w@ == v@.subrange(from as int, k as int),
        decreases to - k,
    {
        w.push(v[k]);
        assert(v@.subrange(from as int, k + 1) =~= v@.subrange(from as int, k as int).push(v@[k as int]));
        k = k + 1;
    }
    w
}

/// Whether `v[from..to]` equals `w`.
pub fn range_equals(v: &Vec<char>, from: usize, to: usize, w: &Vec<char>) -> (b: bool)
    requires
        from <= to <= v@.len(),
    ensures
        b == (v@.subrange(from as int, to as int) == w@),
{
    if to - from != w.len() {
        return false;
    }
    let mut k: usize = 0;
    while k < w.len()
        invariant
            k <= w@.len(),
            to - from == w@.len(),
            from <= to <= v@.len(),
            forall|q: int| 0 <= q < k ==> v@[from + q] == w@[q],
        decreases w@.len() - k,
    {
        if v[from + k] != w[k] {
            assert(v@.subrange(from as int, to as int)[k as int] != w@[k as int]);
            return false;
        }
        k = k + 1;
    }
    assert(v@.subrange(from as int, to as int) =~= w@);
    true
}

/// Whether two string slices hold the same characters.
pub fn str_equals(a: &str, b: &str) -> (r: bool)
    ensures
        r == (a@ == b@),
{
    let va = chars_of(a);
    let vb = chars_of(b);
    let r = range_equals(&va, 0, va.len(), &vb);
    assert(va@.subrange(0, va@.len() as int) =~= va@);
    r
}

/// A `String` holding exactly the characters of `v`.
pub fn string_from(v: &Vec<char>) -> (s: String)
    ensures
        s@ == v@,
{
    let mut s = String::new();
    push_range(&mut s, v, 0, v.len());
    assert(v@.subrange(0, v@.len() as int) =~= v@);
    s
}

// ---------------------------------------------------------------------------
// ASCII case
// ---------------------------------------------------------------------------

/// `char::to_ascii_uppercase`: `a`..`z` become `A`..`Z`, all else stays.
pub open spec fn ascii_upper(c: char) -> char {
    if 97 <= (c as u32) && (c as u32) <= 122 {
        ((c as u32) - 32) as char
    } else {
        c
    }
}

/// `char::to_ascii_lowercase`: `A`..`Z` become `a`..`z`, all else stays.
pub open spec fn ascii_lower(c: char) -> char {
    if 65 <= (c as u32) && (c as u32) <= 90 {
        ((c as u32) + 32) as char
    } else {
        c
    }
}

pub open spec fn ascii_upper_all(s: Seq<char>) -> Seq<char> {
    s.map_values(|c: char| ascii_upper(c))
}

pub open spec fn ascii_lower_all(s: Seq<char>) -> Seq<char> {
    s.map_values(|c: char| ascii_lower(c))
}

pub fn to_ascii_upper(c: char) -> (r: char)
    ensures
        r == ascii_upper(c),
{
    let u = c as u32;
    if 97 <= u && u <= 122 {
        ((u - 32) as u8) as char
    } else {
        c
    }
}

pub fn to_ascii_lower(c: char) -> (r: char)
    ensures
        r == ascii_lower(c),
{
    let u = c as u32;
    if 65 <= u && u <= 90 {
        ((u + 32) as u8) as char
    } else {
        c
    }
}

/// `str::to_ascii_uppercase`/`to_ascii_lowercase` over characters.
pub fn ascii_case_mapped(v: &Vec<char>, upper: bool) -> (s: String)
    ensures
        s@ == (if upper { ascii_upper_all(v@) } else { ascii_lower_all(v@) }),
{
    let mut s = String::new();
    let mut i: usize = 0;
    while i < v.len()
        invariant
            i <= v@.len(),
            s@ == (if upper { ascii_upper_all(v@.take(i as int)) } else { ascii_lower_all(v@.take(i as int)) }),
        decreases v@.len() - i,
    {
        let c = if upper {
            to_ascii_upper(v[i])
        } else {
            to_ascii_lower(v[i])
        };
        push_char(&mut s, c);
        assert(v@.take(i + 1) =~= v@.take(i as int).push(v@[i as int]));
        assert(ascii_upper_all(v@.take(i + 1)) =~= ascii_upper_all(v@.take(i as int)).push(ascii_upper(v@[i as int])));
        assert(ascii_lower_all(v@.take(i + 1)) =~= ascii_lower_all(v@.take(i as int)).push(ascii_lower(v@[i as int])));
        i = i + 1;
    }
    assert(v@.take(v@.len() as int) =~= v@);
    s
}

// ---------------------------------------------------------------------------
// Trimming
// ---------------------------------------------------------------------------

pub open spec fn trim_start(s: Seq<char>) -> Seq<char>
    decreases s.len(),
{
    if s.len() > 0 && is_ws(s[0]) {
        trim_start(s.drop_first())
    } else {
        s
    }
}

pub open spec fn trim_end(s: Seq<char>) -> Seq<char>
    decreases s.len(),
{
    if s.len() > 0 && is_ws(s.last()) {
        trim_end(s.drop_last())
    } else {
        s
    }
}

/// `str::trim`: leading and trailing whitespace removed.
pub open spec fn trim(s: Seq<char>) -> Seq<char> {
    trim_end(trim_start(s))
}

pub proof fn lemma_trim_start_skip(s: Seq<char>, i: int)
    requires
        0 <= i <= s.len(),
    ensures
        i < s.len() && is_ws(s[i]) ==> trim_start(s.skip(i)) == trim_start(s.skip(i + 1)),
        (i == s.len() || !is_ws(s[i])) ==> trim_start(s.skip(i)) == s.skip(i),
{
    if i < s.len() {
        assert(s.skip(i).drop_first() =~= s.skip(i + 1));
    }
}

pub proof fn lemma_trim_end_take(s: Seq<char>, j: int)
    requires
        0 <= j <= s.len(),
    ensures
        j > 0 && is_ws(s[j - 1]) ==> trim_end(s.take(j)) == trim_end(s.take(j - 1)),
        (j == 0 || !is_ws(s[j - 1])) ==> trim_end(s.take(j)) == s.take(j),
{
    if j > 0 {
        assert(s.take(j).drop_last() =~= s.take(j - 1));
    }
}

/// `trim_start(s)` is the suffix of `s` that starts at the first
/// non-whitespace character.
pub proof fn lemma_trim_start_is_suffix(s: Seq<char>)
    ensures
        trim_start(s).len() <= s.len(),
        trim_start(s) =~= s.skip(s.len() - trim_start(s).len()),
        trim_start(s).len() > 0 ==> !is_ws(trim_start(s)[0]),
        forall|k: int| 0 <= k < s.len() - trim_start(s).len() ==> is_ws(#[trigger] s[k]),
    decreases s.len(),
{
    if s.len() > 0 && is_ws(s[0]) {
        let r = s.drop_first();
        lemma_trim_start_is_suffix(r);
        assert forall|k: int| 0 <= k < s.len() - trim_start(s).len() implies is_ws(#[trigger] s[k]) by {
            if k > 0 {
                assert(s[k] == r[k - 1]);
            }
        }
    }
}

pub proof fn lemma_trim_end_is_prefix(s: Seq<char>)
    ensures
        trim_end(s).len() <= s.len(),
        trim_end(s) =~= s.take(trim_end(s).len() as int),
        trim_end(s).len() > 0 ==> !is_ws(trim_end(s).last()),
        forall|k: int| trim_end(s).len() <= k < s.len() ==> is_ws(#[trigger] s[k]),
    decreases s.len(),
{
    if s.len() > 0 && is_ws(s.last()) {
        let r = s.drop_last();
        lemma_trim_end_is_prefix(r);
        assert forall|k: int| trim_end(s).len() <= k < s.len() implies is_ws(#[trigger] s[k]) by {
            if k < s.len() - 1 {
                assert(s[k] == r[k]);
            }
        }
    }
}

/// Index of the first non-whitespace character at or after `from`.
pub fn skip_whitespace(v: &Vec<char>, from: usize) -> (i: usize)
    requires
        from <= v@.len(),
    ensures
        from <= i <= v@.len(),
        trim_start(v@.skip(from as int)) == v@.skip(i as int),
        forall|k: int| from <= k < i ==> is_ws(#[trigger] v@[k]),
        i < v@.len() ==> !is_ws(v@[i as int]),
{
    let mut i = from;
    while i < v.len() && is_whitespace(v[i])
        invariant
            from <= i <= v@.len(),
            trim_start(v@.skip(from as int)) == trim_start(v@.skip(i as int)),
            forall|k: int| from <= k < i ==> is_ws(#[trigger] v@[k]),
        decreases v@.len() - i,
    {
        proof {
            lemma_trim_start_skip(v@, i as int);
        }
        i = i + 1;
    }
    proof {
        lemma_trim_start_skip(v@, i as int);
    }
    i
}

/// Bounds `(start, end)` of `str::trim` applied to `v`.
pub fn trim_bounds(v: &Vec<char>) -> (r: (usize, usize))
    ensures
        r.0 <= r.1 <= v@.len(),
        v@.subrange(r.0 as int, r.1 as int) == trim(v@),
{
    let start = skip_whitespace(v, 0);
    assert(v@.skip(0) =~= v@);
    let ghost t = v@.skip(start as int);
    let mut end = v.len();
    assert(t.take(end - start) =~= t);
    while end > start && is_whitespace(v[end - 1])
        invariant
            start <= end <= v@.len(),
            t == v@.skip(start as int),
            trim_end(t) == trim_end(t.take(end - start)),
        decreases end,
    {
        proof {
            lemma_trim_end_take(t, end - start);
        }
        end = end - 1;
    }
    proof {
        lemma_trim_end_take(t, end - start);
        assert(t.take(end - start) =~= v@.subrange(start as int, end as int));
        assert(t.take(v@.len() - start) =~= t);
    }
    (start, end)
}

/// `str::trim` on a string slice, as characters.
pub fn trimmed_chars(text: &str) -> (v: Vec<char>)
    ensures
        v@ == trim(text@),
{
    let all = chars_of(text);
    let (start, end) = trim_bounds(&all);
    let mut v: Vec<char> = Vec::new();
    let mut i = start;
    while i < end
        invariant
            start <= i <= end <= all@.len(),
            v@ == all@.subrange(start as int, i as int),
        decreases end - i,
    {
        v.push(all[i]);
        assert(all@.subrange(start as int, i + 1) =~= all@.subrange(start as int, i as int).push(
            all@[i as int],
        ));
        i = i + 1;
    }
    v
}

// ---------------------------------------------------------------------------
// Words (`split_whitespace`)
// ---------------------------------------------------------------------------

/// Length of the run of non-whitespace characters at the start of `s`.
pub open spec fn word_len(s: Seq<char>) -> nat
    decreases s.len(),
{
    if s.len() == 0 || is_ws(s[0]) {
        0
    } else {
        1 + word_len(s.drop_first())
    }
}

pub proof fn lemma_word_len_bound(s: Seq<char>)
    ensures
        word_len(s) <= s.len(),
        s.len() > 0 && !is_ws(s[0]) ==> word_len(s) >= 1,
        forall|k: int| 0 <= k < word_len(s) ==> !is_ws(#[trigger] s[k]),
        word_len(s) < s.len() ==> is_ws(s[word_len(s) as int]),
    decreases s.len(),
{
    if s.len() > 0 && !is_ws(s[0]) {
        let r = s.drop_first();
        lemma_word_len_bound(r);
        assert forall|k: int| 0 <= k < word_len(s) implies !is_ws(#[trigger] s[k]) by {
            if k > 0 {
                assert(s[k] == r[k - 1]);
            }
        }
        if word_len(s) < s.len() {
            assert(s[word_len(s) as int] == r[word_len(r) as int]);
        }
    }
}

/// `str::split_whitespace`: the maximal runs of non-whitespace characters.
pub open spec fn words(s: Seq<char>) -> Seq<Seq<char>>
    decreases s.len(),
{
    let t = trim_start(s);
    if t.len() == 0 {
        seq![]
    } else {
        let n = word_len(t);
        proof {
            lemma_trim_start_is_suffix(s);
            lemma_word_len_bound(t);
        }
        seq![t.take(n as int)] + words(t.skip(n as int))
    }
}

pub proof fn lemma_word_len_skip(s: Seq<char>, i: int)
    requires
        0 <= i <= s.len(),
    ensures
        i < s.len() && !is_ws(s[i]) ==> word_len(s.skip(i)) == 1 + word_len(s.skip(i + 1)),
        (i == s.len() || is_ws(s[i])) ==> word_len(s.skip(i)) == 0,
{
    if i < s.len() {
        assert(s.skip(i).drop_first() =~= s.skip(i + 1));
    }
}

/// End of the word that starts at `from` (the first whitespace at or after it).
pub fn word_end(v: &Vec<char>, from: usize) -> (j: usize)
    requires
        from <= v@.len(),
    ensures
        from <= j <= v@.len(),
        word_len(v@.skip(from as int)) == j - from,
        j < v@.len() ==> is_ws(v@[j as int]),
        forall|k: int| from <= k < j ==> !is_ws(#[trigger] v@[k]),
{
    let mut j = from;
    while j < v.len() && !is_whitespace(v[j])
        invariant
            from <= j <= v@.len(),
            word_len(v@.skip(from as int)) == (j - from) + word_len(v@.skip(j as int)),
            forall|k: int| from <= k < j ==> !is_ws(#[trigger] v@[k]),
        decreases v@.len() - j,
    {
        proof {
            lemma_word_len_skip(v@, j as int);
        }
        j = j + 1;
    }
    proof {
        lemma_word_len_skip(v@, j as int);
    }
    j
}

/// One step of `split_whitespace` from position `i`: the bounds of the
/// next word, or `None` when only whitespace is left.
pub fn next_word(v: &Vec<char>, i: usize) -> (r: Option<(usize, usize)>)
    requires
        i <= v@.len(),
    ensures
        match r {
            None => words(v@.skip(i as int)) == Seq::<Seq<char>>::empty()
                && trim_start(v@.skip(i as int)).len() == 0,
            Some((a, b)) => {
                &&& i <= a < b <= v@.len()
                &&& words(v@.skip(i as int)) == seq![v@.subrange(a as int, b as int)] + words(
                    v@.skip(b as int),
                )
                &&& trim_start(v@.skip(i as int)) == v@.skip(a as int)
                &&& b < v@.len() ==> is_ws(v@[b as int])
            },
        },
{
    let a = skip_whitespace(v, i);
    if a == v.len() {
        proof {
            assert(v@.skip(a as int).len() == 0);
        }
        return None;
    }
    let b = word_end(v, a);
    proof {
        let t = v@.skip(a as int);
        lemma_word_len_skip(v@, a as int);
        assert(t.len() > 0);
        assert(words(v@.skip(i as int)) == seq![t.take(word_len(t) as int)] + words(t.skip(word_len(t) as int)));
        assert(t.take((b - a) as int) =~= v@.subrange(a as int, b as int));
        assert(t.skip((b - a) as int) =~= v@.skip(b as int));
    }
    Some((a, b))
}

/// The words of `text`, each as a character vector.
pub fn split_words(v: &Vec<char>) -> (ws: Vec<Vec<char>>)
    ensures
        ws@.map_values(|w: Vec<char>| w@) == words(v@),
{
    let mut ws: Vec<Vec<char>> = Vec::new();
    let mut i: usize = 0;
    assert(v@.skip(0) =~= v@);
    loop
        invariant
            i <= v@.len(),
            words(v@) == ws@.map_values(|w: Vec<char>| w@) + words(v@.skip(i as int)),
        decreases v@.len() - i,
    {
        match next_word(v, i) {
            None => {
                assert(ws@.map_values(|w: Vec<char>| w@) + Seq::<Seq<char>>::empty() =~= ws@.map_values(|w: Vec<char>| w@));
                return ws;
            },
            Some((a, b)) => {
                let w = copy_range(v, a, b);
                let ghost before = ws@;
                ws.push(w);
                assert(ws@.map_values(|w: Vec<char>| w@) =~= before.map_values(|w: Vec<char>| w@).push(v@.subrange(a as int, b as int)));
                assert(words(v@) =~= ws@.map_values(|w: Vec<char>| w@) + words(v@.skip(b as int)));
                i = b;
            },
        }
    }
}

/// Number of words in `s`.
pub fn count_words(v: &Vec<char>) -> (n: usize)
    ensures
        n == words(v@).len(),
{
    let mut n: usize = 0;
    let mut i: usize = 0;
    assert(v@.skip(0) =~= v@);
    loop
        invariant
            i <= v@.len(),
            words(v@).len() == n + words(v@.skip(i as int)).len(),
            n <= i,
        decreases v@.len() - i,
    {
        match next_word(v, i) {
            None => {
                return n;
            },
            Some((a, b)) => {
                n = n + 1;
                i = b;
            },
        }
    }
}

// ---------------------------------------------------------------------------
// Joining
// ---------------------------------------------------------------------------

/// `slice::join`: the parts with `sep` between neighbours.
pub open spec fn join(parts: Seq<Seq<char>>, sep: Seq<char>) -> Seq<char>
    decreases parts.len(),
{
    if parts.len() == 0 {
        seq![]
    } else if parts.len() == 1 {
        parts[0]
    } else {
        join(parts.drop_last(), sep) + sep + parts.last()
    }
}

/// Extending a join by one more part.
pub proof fn lemma_join_push(parts: Seq<Seq<char>>, sep: Seq<char>, p: Seq<char>)
    ensures
        join(parts.push(p), sep) == if parts.len() == 0 {
            p
        } else {
            join(parts, sep) + sep + p
        },
{
    assert(parts.push(p).drop_last() =~= parts);
}

/// The words of `v` joined by single spaces, as a `String`.
pub fn join_words(v: &Vec<char>) -> (s: String)
    ensures
        s@ == join(words(v@), seq![' ']),
{
    let mut s = String::new();
    let mut i: usize = 0;
    let ghost mut done: Seq<Seq<char>> = seq![];
    let mut first = true;
    assert(v@.skip(0) =~= v@);
    loop
        invariant
            i <= v@.len(),
            first <==> done.len() == 0,
            words(v@) == done + words(v@.skip(i as int)),
            s@ == join(done, seq![' ']),
        decreases v@.len() - i,
    {
        match next_word(v, i) {
            None => {
                assert(done + Seq::<Seq<char>>::empty() =~= done);
                return s;
            },
            Some((a, b)) => {
                proof {
                    lemma_join_push(done, seq![' '], v@.subrange(a as int, b as int));
                }
                if !first {
                    push_char(&mut s, ' ');
                }
                first = false;
                push_range(&mut s, v, a, b);
                proof {
                    done = done.push(v@.subrange(a as int, b as int));
                    assert(words(v@) =~= done + words(v@.skip(b as int)));
                }
                i = b;
            },
        }
    }
}

// ---------------------------------------------------------------------------
// Splitting on one character (`str::split`, `str::lines`)
// ---------------------------------------------------------------------------

/// Length of the prefix of `s` that holds no `c`.
pub open spec fn seg_len(s: Seq<char>, c: char) -> nat
    decreases s.len(),
{
    if s.len() == 0 || s[0] == c {
        0
    } else {
        1 + seg_len(s.drop_first(), c)
    }
}

pub proof fn lemma_seg_len(s: Seq<char>, c: char)
    ensures
        seg_len(s, c) <= s.len(),
        forall|k: int| 0 <= k < seg_len(s, c) ==> #[trigger] s[k] != c,
        seg_len(s, c) < s.len() ==> s[seg_len(s, c) as int] == c,
    decreases s.len(),
{
    if s.len() > 0 && s[0] != c {
        let r = s.drop_first();
        lemma_seg_len(r, c);
        assert forall|k: int| 0 <= k < seg_len(s, c) implies #[trigger] s[k] != c by {
            if k > 0 {
                assert(s[k] == r[k - 1]);
            }
        }
        if seg_len(s, c) < s.len() {
            assert(s[seg_len(s, c) as int] == r[seg_len(r, c) as int]);
        }
    }
}

pub proof fn lemma_seg_len_skip(s: Seq<char>, c: char, i: int)
    requires
        0 <= i <= s.len(),
    ensures
        i < s.len() && s[i] != c ==> seg_len(s.skip(i), c) == 1 + seg_len(s.skip(i + 1), c),
        (i == s.len() || s[i] == c) ==> seg_len(s.skip(i), c) == 0,
{
    if i < s.len() {
        assert(s.skip(i).drop_first() =~= s.skip(i + 1));
    }
}

/// `str::split(c)`: the pieces between occurrences of `c` (always at least one).
pub open spec fn split_on(s: Seq<char>, c: char) -> Seq<Seq<char>>
    decreases s.len(),
{
    let n = seg_len(s, c);
    if n >= s.len() {
        seq![s]
    } else {
        proof {
            lemma_seg_len(s, c);
        }
        seq![s.take(n as int)] + split_on(s.skip((n + 1) as int), c)
    }
}

/// First occurrence of `c` at or after `from`, or the end.
pub fn find_from(v: &Vec<char>, from: usize, c: char) -> (j: usize)
    requires
        from <= v@.len(),
    ensures
        from <= j <= v@.len(),
        seg_len(v@.skip(from as int), c) == j - from,
        j < v@.len() ==> v@[j as int] == c,
        forall|k: int| from <= k < j ==> #[trigger] v@[k] != c,
{
    let mut j = from;
    while j < v.len() && v[j] != c
        invariant
            from <= j <= v@.len(),
            seg_len(v@.skip(from as int), c) == (j - from) + seg_len(v@.skip(j as int), c),
            forall|k: int| from <= k < j ==> #[trigger] v@[k] != c,
        decreases v@.len() - j,
    {
        proof {
            lemma_seg_len_skip(v@, c, j as int);
        }
        j = j + 1;
    }
    proof {
        lemma_seg_len_skip(v@, c, j as int);
    }
    j
}

/// The pieces of `v` between occurrences of `c`.
pub fn split_chars(v: &Vec<char>, c: char) -> (parts: Vec<Vec<char>>)
    ensures
        parts@.map_values(|w: Vec<char>| w@) == split_on(v@, c),
{
    let mut parts: Vec<Vec<char>> = Vec::new();
    let mut i: usize = 0;
    assert(v@.skip(0) =~= v@);
    loop
        invariant
            i <= v@.len(),
            split_on(v@, c) == parts@.map_values(|w: Vec<char>| w@) + split_on(v@.skip(i as int), c),
        decreases v@.len() - i,
    {
        let j = find_from(v, i, c);
        let piece = copy_range(v, i, j);
        let ghost before = parts@;
        let ghost rest = v@.skip(i as int);
        parts.push(piece);
        assert(parts@.map_values(|w: Vec<char>| w@) =~= before.map_values(|w: Vec<char>| w@).push(v@.subrange(i as int, j as int)));
        if j == v.len() {
            assert(rest.take((j - i) as int) =~= rest);
            assert(rest =~= v@.subrange(i as int, j as int));
            assert(split_on(v@, c) =~= parts@.map_values(|w: Vec<char>| w@));
            return parts;
        }
        assert(rest.take((j - i) as int) =~= v@.subrange(i as int, j as int));
        assert(rest.skip((j - i) + 1) =~= v@.skip(j + 1));
        assert(split_on(v@, c) =~= parts@.map_values(|w: Vec<char>| w@) + split_on(v@.skip(j + 1), c));
        i = j + 1;
    }
}

/// One line as `str::lines` yields it: a trailing `'\r'` is dropped only
/// when the line was ended by `'\n'`.
pub open spec fn strip_cr(line: Seq<char>) -> Seq<char> {
    if line.len() > 0 && line.last() == '\r' {
        line.drop_last()
    } else {
        line
    }
}

/// `str::lines`: pieces ended by `'\n'` (or the end), with `"\r\n"`
/// endings handled and no empty piece after a final line ending.
pub open spec fn lines(s: Seq<char>) -> Seq<Seq<char>>
    decreases s.len(),
{
    if s.len() == 0 {
        seq![]
    } else {
        let n = seg_len(s, '\n');
        if n >= s.len() {
            seq![s]
        } else {
            proof {
                lemma_seg_len(s, '\n');
            }
            seq![strip_cr(s.take(n as int))] + lines(s.skip((n + 1) as int))
        }
    }
}

/// Bounds of the line that starts at `i`, and where the next one starts.
pub fn next_line(v: &Vec<char>, i: usize) -> (r: Option<(usize, usize, usize)>)
    requires
        i <= v@.len(),
    ensures
        match r {
            None => i == v@.len() && lines(v@.skip(i as int)) == Seq::<Seq<char>>::empty(),
            Some((a, b, next)) => {
                &&& a == i && a <= b <= v@.len() && i < next <= v@.len()
                &&& lines(v@.skip(i as int)) == seq![v@.subrange(a as int, b as int)] + lines(
                    v@.skip(next as int),
                )
            },
        },
{
    if i == v.len() {
        return None;
    }
    let j = find_from(v, i, '\n');
    let ghost rest = v@.skip(i as int);
    if j == v.len() {
        assert(rest =~= v@.subrange(i as int, j as int));
        assert(v@.skip(j as int).len() == 0);
        assert(lines(v@.skip(j as int)) =~= Seq::<Seq<char>>::empty());
        assert(lines(rest) =~= seq![v@.subrange(i as int, j as int)] + lines(v@.skip(j as int)));
        return Some((i, j, j));
    }
    assert(rest.take((j - i) as int) =~= v@.subrange(i as int, j as int));
    assert(rest.skip((j - i) + 1) =~= v@.skip(j + 1));
    assert(rest.len() > 0);
    assert(lines(rest) == seq![strip_cr(rest.take((j - i) as int))] + lines(rest.skip((j - i) + 1)));
    let ghost line = v@.subrange(i as int, j as int);
    let end = if j > i && v[j - 1] == '\r' {
        assert(line.last() == '\r');
        assert(line.drop_last() =~= v@.subrange(i as int, j - 1));
        assert(strip_cr(line) == v@.subrange(i as int, j - 1));
        j - 1
    } else {
        assert(line.len() == 0 || line.last() != '\r');
        assert(strip_cr(line) == v@.subrange(i as int, j as int));
        j
    };
    Some((i, end, j + 1))
}

/// Number of lines `str::lines` yields.
pub fn count_lines(v: &Vec<char>) -> (n: usize)
    ensures
        n == lines(v@).len(),
{
    let mut n: usize = 0;
    let mut i: usize = 0;
    assert(v@.skip(0) =~= v@);
    loop
        invariant
            i <= v@.len(),
            n <= i,
            lines(v@).len() == n + lines(v@.skip(i as int)).len(),
        decreases v@.len() - i,
    {
        match next_line(v, i) {
            None => {
                return n;
            },
            Some((a, b, next)) => {
                n = n + 1;
                i = next;
            },
        }
    }
}

// ---------------------------------------------------------------------------
// Decimal text
// ---------------------------------------------------------------------------

pub open spec fn digit_char(d: nat) -> char {
    (48 + d) as char
}

/// Decimal digits of `n`, most significant first, no leading zeros.
pub open spec fn decimal(n: nat) -> Seq<char>
    decreases n,
{
    if n < 10 {
        seq![digit_char(n)]
    } else {
        decimal(n / 10).push(digit_char(n % 10))
    }
}

/// `Display` of a signed integer: a minus sign for negatives.
pub open spec fn signed_decimal(i: int) -> Seq<char> {
    if i < 0 {
        seq!['-'] + decimal((-i) as nat)
    } else {
        decimal(i as nat)
    }
}

/// Appends the decimal digits of `n` to `s`.
pub fn push_decimal(s: &mut String, n: u64)
    ensures
        final(s)@ == old(s)@ + decimal(n as nat),
    decreases n,
{
    if n >= 10 {
        push_decimal(s, n / 10);
    }
    let d = (n % 10) as u8;
    let c = (48u8 + d) as char;
    assert(c == digit_char((n % 10) as nat));
    push_char(s, c);
}

/// Appends the decimal text of a signed integer to `s`.
pub fn push_signed_decimal(s: &mut String, i: i64)
    ensures
        final(s)@ == old(s)@ + signed_decimal(i as int),
{
    if i < 0 {
        push_char(s, '-');
        let m: u64 = if i == i64::MIN {
            9223372036854775808u64
        } else {
            (-i) as u64
        };
        push_decimal(s, m);
        assert(old(s)@.push('-') + decimal(m as nat) =~= old(s)@ + (seq!['-'] + decimal(m as nat)));
    } else {
        push_decimal(s, i as u64);
    }
}

pub open spec fn is_digit(c: char) -> bool {
    48 <= (c as u32) && (c as u32) <= 57
}

pub open spec fn digit_value(c: char) -> nat {
    ((c as u32) - 48) as nat
}

pub open spec fn all_digits(s: Seq<char>) -> bool {
    forall|k: int| 0 <= k < s.len() ==> is_digit(#[trigger] s[k])
}

/// Value of a run of decimal digits, most significant first.
pub open spec fn digits_value(s: Seq<char>) -> nat
    decreases s.len(),
{
    if s.len() == 0 {
        0
    } else {
        digits_value(s.drop_last()) * 10 + digit_value(s.last())
    }
}

/// The digits an unsigned `from_str` reads: an optional leading `+` is dropped.
pub open spec fn unsigned_digits(s: Seq<char>) -> Seq<char> {
    if s.len() > 0 && s[0] == '+' {
        s.drop_first()
    } else {
        s
    }
}

/// `FromStr` for an unsigned integer type whose largest value is `max`:
/// an optional `+`, then at least one ASCII digit, and a value that fits.
pub open spec fn parse_unsigned(s: Seq<char>, max: nat) -> Option<nat> {
    let d = unsigned_digits(s);
    if d.len() > 0 && all_digits(d) && digits_value(d) <= max {
        Some(digits_value(d))
    } else {
        None
    }
}

pub proof fn lemma_digits_value_monotone(s: Seq<char>, i: int, j: int)
    requires
        0 <= i <= j <= s.len(),
    ensures
        digits_value(s.take(i)) <= digits_value(s.take(j)),
    decreases j - i,
{
    if i < j {
        lemma_digits_value_monotone(s, i, j - 1);
        assert(s.take(j).drop_last() =~= s.take(j - 1));
    }
}

/// `u64::from_str` on `v[from..to]`.
pub fn parse_u64_range(v: &Vec<char>, from: usize, to: usize) -> (r: Option<u64>)
    requires
        from <= to <= v@.len(),
    ensures
        match r {
            Some(x) => parse_unsigned(v@.subrange(from as int, to as int), u64::MAX as nat) == Some(
                x as nat,
            ),
            None => parse_unsigned(v@.subrange(from as int, to as int), u64::MAX as nat) is None,
        },
{
    let ghost s = v@.subrange(from as int, to as int);
    let start = if from < to && v[from] == '+' {
        from + 1
    } else {
        from
    };
    let ghost d = v@.subrange(start as int, to as int);
    assert(unsigned_digits(s) =~= d);
    if start == to {
        return None;
    }
    let mut acc: u64 = 0;
    let mut i = start;
    assert(d.take(0) =~= Seq::<char>::empty());
    while i < to
        invariant
            from <= start <= i <= to <= v@.len(),
            d == v@.subrange(start as int, to as int),
            unsigned_digits(v@.subrange(from as int, to as int)) == d,
            d.len() > 0,
            all_digits(d.take(i - start)),
            acc as nat == digits_value(d.take(i - start)),
        decreases to - i,
    {
        let c = v[i];
        let ghost k = (i - start) as int;
        assert(d[k] == c);
        assert(d.take(k + 1).drop_last() =~= d.take(k));
        if !((c as u32) >= 48 && (c as u32) <= 57) {
            assert(!is_digit(d[k]));
            return None;
        }
        let dv = ((c as u32) - 48) as u64;
        match acc.checked_mul(10) {
            None => {
                proof {
                    lemma_digits_value_monotone(d, k + 1, d.len() as int);
                    assert(d.take(d.len() as int) =~= d);
                }
                return None;
            },
            Some(m) => match m.checked_add(dv) {
                None => {
                    proof {
                        lemma_digits_value_monotone(d, k + 1, d.len() as int);
                        assert(d.take(d.len() as int) =~= d);
                    }
                    return None;
                },
                Some(next) => {
                    acc = next;
                    assert(all_digits(d.take(k + 1))) by {
                        assert forall|q: int| 0 <= q < k + 1 implies is_digit(#[trigger] d.take(k + 1)[q]) by {
                            if q < k {
                                assert(d.take(k + 1)[q] == d.take(k)[q]);
                            }
                        }
                    }
                },
            },
        }
        i = i + 1;
    }
    assert(d.take(d.len() as int) =~= d);
    Some(acc)
}


// ---------------------------------------------------------------------------
// Collapsing whitespace runs
// ---------------------------------------------------------------------------

/// Every maximal run of whitespace replaced by one space, everything else
/// kept.
pub open spec fn collapse_runs(s: Seq<char>) -> Seq<char>
    decreases s.len(),
{
    if s.len() == 0 {
        seq![]
    } else if is_ws(s[0]) {
        proof {
            lemma_trim_start_is_suffix(s.drop_first());
        }
        seq![' '] + collapse_runs(trim_start(s.drop_first()))
    } else {
        seq![s[0]] + collapse_runs(s.drop_first())
    }
}

/// `trim_start` is characterised by where the first non-whitespace
/// character stands.
pub proof fn lemma_trim_start_at(x: Seq<char>, k: int)
    requires
        0 <= k <= x.len(),
        forall|i: int| 0 <= i < k ==> is_ws(#[trigger] x[i]),
        k == x.len() || !is_ws(x[k]),
    ensures
        trim_start(x) == x.skip(k),
    decreases k,
{
    if k == 0 {
        assert(x.skip(0) =~= x);
    } else {
        lemma_trim_start_at(x.drop_first(), k - 1);
        assert(x.drop_first().skip(k - 1) =~= x.skip(k));
    }
}

/// `trim_end` is characterised by where the last non-whitespace character
/// stands.
pub proof fn lemma_trim_end_at(x: Seq<char>, j: int)
    requires
        0 <= j <= x.len(),
        forall|i: int| j <= i < x.len() ==> is_ws(#[trigger] x[i]),
        j == 0 || !is_ws(x[j - 1]),
    ensures
        trim_end(x) == x.take(j),
    decreases x.len() - j,
{
    if j == x.len() {
        assert(x.take(j) =~= x);
    } else {
        let y = x.drop_last();
        assert forall|i: int| j <= i < y.len() implies is_ws(#[trigger] y[i]) by {
            assert(y[i] == x[i]);
        }
        if j > 0 {
            assert(y[j - 1] == x[j - 1]);
        }
        lemma_trim_end_at(y, j);
        assert(y.take(j) =~= x.take(j));
    }
}

/// Trimming the start twice is trimming it once.
pub proof fn lemma_trim_start_idempotent(s: Seq<char>)
    ensures
        trim_start(trim_start(s)) == trim_start(s),
{
    lemma_trim_start_is_suffix(s);
    let t = trim_start(s);
    lemma_trim_start_at(t, 0);
    assert(t.skip(0) =~= t);
}

/// Leading whitespace does not change the words.
pub proof fn lemma_words_trim_start(s: Seq<char>)
    ensures
        words(trim_start(s)) == words(s),
{
    lemma_trim_start_idempotent(s);
}

/// A prefix without whitespace passes through `collapse_runs` unchanged.
pub proof fn lemma_collapse_runs_word(w: Seq<char>, r: Seq<char>)
    requires
        forall|i: int| 0 <= i < w.len() ==> !is_ws(#[trigger] w[i]),
    ensures
        collapse_runs(w + r) == w + collapse_runs(r),
    decreases w.len(),
{
    if w.len() > 0 {
        let x = w + r;
        assert(x[0] == w[0]);
        assert(x.drop_first() =~= w.drop_first() + r);
        lemma_collapse_runs_word(w.drop_first(), r);
        assert(seq![w[0]] + (w.drop_first() + collapse_runs(r)) =~= w + collapse_runs(r));
    } else {
        assert(w + r =~= r);
        assert(w + collapse_runs(r) =~= collapse_runs(r));
    }
}

/// Joining a first part in front of at least one more.
pub proof fn lemma_join_cons(w: Seq<char>, ps: Seq<Seq<char>>, sep: Seq<char>)
    requires
        ps.len() > 0,
    ensures
        join(seq![w] + ps, sep) == w + sep + join(ps, sep),
    decreases ps.len(),
{
    let all = seq![w] + ps;
    assert(all.drop_last() =~= seq![w] + ps.drop_last());
    assert(all.last() == ps.last());
    assert(all.len() >= 2);
    assert(join(all, sep) == join(all.drop_last(), sep) + sep + all.last());
    if ps.len() == 1 {
        assert(all.drop_last() =~= seq![w]);
        assert(join(seq![w], sep) == w);
        assert(join(ps, sep) == ps[0]);
    } else {
        lemma_join_cons(w, ps.drop_last(), sep);
        assert(join(ps, sep) == join(ps.drop_last(), sep) + sep + ps.last());
        assert(w + sep + join(ps.drop_last(), sep) + sep + ps.last() =~= w + sep + (join(ps.drop_last(), sep) + sep + ps.last()));
    }
}

/// Cutting trailing whitespace only touches the part that holds the last
/// non-whitespace character.
pub proof fn lemma_trim_end_append(a: Seq<char>, b: Seq<char>)
    requires
        trim_end(b).len() > 0,
    ensures
        trim_end(a + b) == a + trim_end(b),
{
    lemma_trim_end_is_prefix(b);
    let lb = trim_end(b).len() as int;
    let x = a + b;
    let j = a.len() + lb;
    assert forall|i: int| j <= i < x.len() implies is_ws(#[trigger] x[i]) by {
        assert(x[i] == b[i - a.len()]);
    }
    assert(x[j - 1] == b[lb - 1]);
    assert(trim_end(b)[lb - 1] == b[lb - 1]);
    lemma_trim_end_at(x, j);
    assert(x.take(j) =~= a + b.take(lb));
}

/// On text without leading whitespace, collapsing the runs of the text
/// without its trailing whitespace gives the words joined by single spaces.
proof fn lemma_collapse_is_join(s: Seq<char>)
    requires
        trim_start(s) == s,
    ensures
        collapse_runs(trim_end(s)) == join(words(s), seq![' ']),
    decreases s.len(),
{
    if s.len() == 0 {
        assert(trim_end(s) == s);
        return;
    }
    lemma_word_len_bound(s);
    let n = word_len(s) as int;
    let w = s.take(n);
    let rest = s.skip(n);
    assert(s =~= w + rest);
    assert forall|i: int| 0 <= i < w.len() implies !is_ws(#[trigger] w[i]) by {
        assert(w[i] == s[i]);
    }
    assert(words(s) == seq![w] + words(rest));
    let r2 = trim_start(rest);
    lemma_trim_start_is_suffix(rest);
    lemma_words_trim_start(rest);
    if r2.len() == 0 {
        assert(words(rest) =~= Seq::<Seq<char>>::empty()) by {
            assert(words(rest) == words(r2));
        }
        assert(seq![w] + words(rest) =~= seq![w]);
        assert forall|i: int| n <= i < s.len() implies is_ws(#[trigger] s[i]) by {
            assert(s[i] == rest[i - n]);
        }
        lemma_trim_end_at(s, n);
        lemma_collapse_runs_word(w, seq![]);
        assert(w + Seq::<char>::empty() =~= w);
        assert(collapse_runs(Seq::<char>::empty()) =~= Seq::<char>::empty());
    } else {
        let k = rest.len() - r2.len();
        assert(rest.len() > 0);
        assert(is_ws(rest[0])) by {
            assert(rest[0] == s[n]);
        }
        assert(k >= 1) by {
            if k == 0 {
                assert(r2[0] == rest[0]);
            }
        }
        // the trailing whitespace of `s` lies inside `rest`
        lemma_trim_end_is_prefix(r2);
        lemma_trim_start_idempotent(rest);
        assert(trim_end(r2).len() > 0) by {
            assert(r2[0] == rest[k]);
            if trim_end(r2).len() == 0 {
                assert(is_ws(r2[0]));
            }
        }
        let tr = trim_end(rest);
        assert(trim_end(rest) == rest.take(k) + trim_end(r2)) by {
            assert(rest =~= rest.take(k) + r2);
            lemma_trim_end_append(rest.take(k), r2);
        }
        assert(tr.len() > 0);
        assert(trim_end(s) == w + tr) by {
            lemma_trim_end_append(w, rest);
        }
        lemma_collapse_runs_word(w, tr);
        // `tr` starts with the whitespace run, then `trim_end(r2)`
        assert(tr[0] == rest[0]);
        let d = tr.drop_first();
        assert(d =~= rest.take(k).drop_first() + trim_end(r2));
        assert(trim_start(d) == trim_end(r2)) by {
            lemma_trim_end_is_prefix(r2);
            let e = trim_end(r2);
            assert(e[0] == r2[0]);
            assert forall|i: int| 0 <= i < k - 1 implies is_ws(#[trigger] d[i]) by {
                assert(d[i] == rest[i + 1]);
            }
            assert(d[k - 1] == e[0]);
            lemma_trim_start_at(d, k - 1);
            assert(d.skip(k - 1) =~= e);
        }
        assert(collapse_runs(tr) == seq![' '] + collapse_runs(trim_end(r2)));
        lemma_collapse_is_join(r2);
        assert(words(rest) == words(r2));
        assert(words(r2).len() > 0) by {
            assert(trim_start(r2) == r2);
        }
        lemma_join_cons(w, words(rest), seq![' ']);
        assert(w + (seq![' '] + join(words(r2), seq![' '])) =~= w + seq![' '] + join(words(r2), seq![' ']));
    }
}

/// A run without whitespace, followed by nothing or by whitespace, is
/// exactly one word long.
proof fn lemma_word_len_append(w: Seq<char>, r: Seq<char>)
    requires
        forall|i: int| 0 <= i < w.len() ==> !is_ws(#[trigger] w[i]),
        r.len() == 0 || is_ws(r[0]),
    ensures
        word_len(w + r) == w.len(),
    decreases w.len(),
{
    if w.len() > 0 {
        let x = w + r;
        assert(x[0] == w[0]);
        assert(x.drop_first() =~= w.drop_first() + r);
        lemma_word_len_append(w.drop_first(), r);
    } else {
        assert(w + r =~= r);
    }
}

/// A non-empty whitespace-free prefix, ended by whitespace or by the end of
/// the text, is the first word.
proof fn lemma_words_of_word(w: Seq<char>, r: Seq<char>)
    requires
        w.len() > 0,
        forall|i: int| 0 <= i < w.len() ==> !is_ws(#[trigger] w[i]),
        r.len() == 0 || is_ws(r[0]),
    ensures
        words(w + r) == seq![w] + words(r),
{
    let x = w + r;
    assert(x[0] == w[0]);
    assert(trim_start(x) == x);
    lemma_word_len_append(w, r);
    assert(x.take(w.len() as int) =~= w);
    assert(x.skip(w.len() as int) =~= r);
}

/// Leading single space does not change the words.
proof fn lemma_words_after_space(r: Seq<char>)
    ensures
        words(seq![' '] + r) == words(r),
{
    let x = seq![' '] + r;
    assert(is_ws(' '));
    assert(x.drop_first() =~= r);
    assert(trim_start(x) == trim_start(r));
}

/// Every word is non-empty and holds no whitespace.
pub proof fn lemma_words_are_words(s: Seq<char>)
    ensures
        forall|k: int| 0 <= k < words(s).len() ==> (#[trigger] words(s)[k]).len() > 0
            && forall|i: int| 0 <= i < words(s)[k].len() ==> !is_ws(#[trigger] words(s)[k][i]),
    decreases s.len(),
{
    let t = trim_start(s);
    if t.len() > 0 {
        lemma_trim_start_is_suffix(s);
        lemma_word_len_bound(t);
        let n = word_len(t) as int;
        let rest = t.skip(n);
        lemma_words_are_words(rest);
        let ws = words(s);
        assert(ws == seq![t.take(n)] + words(rest));
        assert forall|k: int| 0 <= k < ws.len() implies (#[trigger] ws[k]).len() > 0
            && forall|i: int| 0 <= i < ws[k].len() ==> !is_ws(#[trigger] ws[k][i]) by {
            if k == 0 {
                assert forall|i: int| 0 <= i < ws[k].len() implies !is_ws(#[trigger] ws[k][i]) by {
                    assert(ws[k][i] == t[i]);
                }
            } else {
                assert(ws[k] == words(rest)[k - 1]);
            }
        }
    }
}

/// Words without whitespace, joined by single spaces, split back into the
/// same words.
pub proof fn lemma_words_of_join(ws: Seq<Seq<char>>)
    requires
        forall|k: int| 0 <= k < ws.len() ==> (#[trigger] ws[k]).len() > 0
            && forall|i: int| 0 <= i < ws[k].len() ==> !is_ws(#[trigger] ws[k][i]),
    ensures
        words(join(ws, seq![' '])) == ws,
    decreases ws.len(),
{
    if ws.len() == 0 {
        assert(words(Seq::<char>::empty()) =~= Seq::<Seq<char>>::empty());
    } else {
        let w = ws[0];
        let ps = ws.drop_first();
        assert(ws =~= seq![w] + ps);
        assert(forall|i: int| 0 <= i < w.len() ==> !is_ws(#[trigger] w[i]));
        if ps.len() == 0 {
            assert(join(ws, seq![' ']) == w);
            lemma_words_of_word(w, Seq::<char>::empty());
            assert(w + Seq::<char>::empty() =~= w);
            assert(words(Seq::<char>::empty()) =~= Seq::<Seq<char>>::empty());
            assert(seq![w] + Seq::<Seq<char>>::empty() =~= ws);
        } else {
            lemma_join_cons(w, ps, seq![' ']);
            let rest = join(ps, seq![' ']);
            assert forall|k: int| 0 <= k < ps.len() implies (#[trigger] ps[k]).len() > 0
                && forall|i: int| 0 <= i < ps[k].len() ==> !is_ws(#[trigger] ps[k][i]) by {
                assert(ps[k] == ws[k + 1]);
            }
            lemma_words_of_join(ps);
            let r = seq![' '] + rest;
            assert(w + seq![' '] + rest =~= w + r);
            lemma_words_of_word(w, r);
            lemma_words_after_space(rest);
        }
    }
}

/// Trimming keeps no character that the text does not hold.
pub proof fn lemma_trim_keeps_out(x: Seq<char>, c: char)
    requires
        !x.contains(c),
    ensures
        !trim(x).contains(c),
{
    lemma_trim_start_is_suffix(x);
    let y = trim_start(x);
    lemma_trim_end_is_prefix(y);
    let d = x.len() - y.len();
    assert forall|k: int| 0 <= k < trim(x).len() implies trim(x)[k] != c by {
        assert(trim(x)[k] == y[k]);
        assert(y[k] == x[k + d]);
    }
}

/// Trimming twice is trimming once.
pub proof fn lemma_trim_idempotent(x: Seq<char>)
    ensures
        trim(trim(x)) == trim(x),
{
    lemma_trim_start_is_suffix(x);
    let y = trim_start(x);
    lemma_trim_end_is_prefix(y);
    let z = trim_end(y);
    if z.len() > 0 {
        assert(z[0] == y[0]);
        lemma_trim_start_at(z, 0);
        assert(z.skip(0) =~= z);
        lemma_trim_end_at(z, z.len() as int);
        assert(z.take(z.len() as int) =~= z);
    } else {
        assert(trim_start(z) == z);
    }
}

/// `split_whitespace` joined by single spaces is the text trimmed, with
/// every run of whitespace collapsed to one space.
pub proof fn lemma_join_words_is_collapsed_trim(s: Seq<char>)
    ensures
        join(words(s), seq![' ']) == collapse_runs(trim(s)),
{
    lemma_trim_start_idempotent(s);
    lemma_collapse_is_join(trim_start(s));
    lemma_words_trim_start(s);
}

} // verus!
