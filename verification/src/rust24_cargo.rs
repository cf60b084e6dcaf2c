//! Semantic-versioning arithmetic: parsing `major.minor.patch`, comparing
//! versions segment by segment, and computing the next version.
use vstd::prelude::*;
use core::cmp::Ordering;
use crate::strings::{
    all_digits, decimal, digit_char, digit_value, digits_value, is_digit, is_ws, parse_u64_range,
    parse_unsigned, push_char, push_decimal, seg_len, split_chars, split_on, trim, trimmed_chars,
    unsigned_digits,
};

verus! {

/// Which segment of a version an update bumps (SemVer).
#[derive(Debug, Clone, Copy, PartialEq, Eq, Structural)]
pub enum Change {
    /// Breaks backward compatibility: major + 1, minor and patch reset.
    Breaking,
    /// Adds features compatibly: minor + 1, patch reset.
    Feature,
    /// Compatible bug fix: patch + 1.
    Fix,
}

pub type Version = (u64, u64, u64);

/// One version segment: at least one ASCII digit and nothing else (no
/// sign), with a value that fits `u64`.
pub open spec fn segment_value(s: Seq<char>) -> Option<u64> {
    if s.len() > 0 && all_digits(s) && digits_value(s) <= u64::MAX {
        Some(digits_value(s) as u64)
    } else {
        None
    }
}

/// `parse_version` on the text `text`: the trimmed text must split on
/// `'.'` into exactly three pieces, each made only of decimal digits, with
/// a value that fits `u64`.
pub open spec fn parsed_version(text: Seq<char>) -> Option<Version> {
    let p = split_on(trim(text), '.');
    if p.len() == 3 && segment_value(p[0]) is Some && segment_value(p[1]) is Some && segment_value(p[2]) is Some {
        Some((segment_value(p[0])->0, segment_value(p[1])->0, segment_value(p[2])->0))
    } else {
        None
    }
}

/// Reads one version segment: digits only, no sign.
fn parse_segment(v: &Vec<char>) -> (r: Option<u64>)
    ensures
        r == segment_value(v@),
{
    if v.len() > 0 && v[0] == '+' {
        assert(!is_digit(v@[0]));
        return None;
    }
    assert(v@.subrange(0, v@.len() as int) =~= v@);
    assert(unsigned_digits(v@) == v@);
    parse_u64_range(v, 0, v.len())
}

/// Order of two numbers.
pub open spec fn number_order(a: u64, b: u64) -> Ordering {
    if a < b {
        Ordering::Less
    } else if a == b {
        Ordering::Equal
    } else {
        Ordering::Greater
    }
}

/// Lexicographic order of versions: major, then minor, then patch.
pub open spec fn version_order(a: Version, b: Version) -> Ordering {
    if a.0 != b.0 {
        number_order(a.0, b.0)
    } else if a.1 != b.1 {
        number_order(a.1, b.1)
    } else {
        number_order(a.2, b.2)
    }
}

pub open spec fn reversed(o: Ordering) -> Ordering {
    match o {
        Ordering::Less => Ordering::Greater,
        Ordering::Equal => Ordering::Equal,
        Ordering::Greater => Ordering::Less,
    }
}

/// `compare_versions`: the order of the two parsed versions, or `None`
/// when either side does not parse.
pub open spec fn compared_versions(left: Seq<char>, right: Seq<char>) -> Option<Ordering> {
    match (parsed_version(left), parsed_version(right)) {
        (Some(a), Some(b)) => Some(version_order(a, b)),
        _ => None,
    }
}

/// Whether bumping `v` for `change` stays within `u64`.
pub open spec fn can_bump(v: Version, change: Change) -> bool {
    match change {
        Change::Breaking => v.0 < u64::MAX,
        Change::Feature => v.1 < u64::MAX,
        Change::Fix => v.2 < u64::MAX,
    }
}

/// The next version under SemVer: the bumped segment grows by one and every
/// lower segment resets to zero.
pub open spec fn bumped(v: Version, change: Change) -> Version {
    match change {
        Change::Breaking => ((v.0 + 1) as u64, 0, 0),
        Change::Feature => (v.0, (v.1 + 1) as u64, 0),
        Change::Fix => (v.0, v.1, (v.2 + 1) as u64),
    }
}

/// `major.minor.patch` in decimal.
pub open spec fn version_text(v: Version) -> Seq<char> {
    decimal(v.0 as nat) + seq!['.'] + decimal(v.1 as nat) + seq!['.'] + decimal(v.2 as nat)
}

/// Parses three numeric segments `major.minor.patch` after trimming the
/// text; anything else (too few or too many segments, a non-numeric
/// segment, a value beyond `u64`) gives `None`.
pub fn parse_version(text: &str) -> (r: Option<(u64, u64, u64)>)
    ensures
        r == parsed_version(text@),
{
    let v = trimmed_chars(text);
    let parts = split_chars(&v, '.');
    let ghost p = parts@.map_values(|w: Vec<char>| w@);
    assert(p == split_on(trim(text@), '.'));
    if parts.len() != 3 {
        return None;
    }
    assert(p[0] == parts@[0]@ && p[1] == parts@[1]@ && p[2] == parts@[2]@);
    let major = match parse_segment(&parts[0]) {
        Some(x) => x,
        None => return None,
    };
    let minor = match parse_segment(&parts[1]) {
        Some(x) => x,
        None => return None,
    };
    let patch = match parse_segment(&parts[2]) {
        Some(x) => x,
        None => return None,
    };
    Some((major, minor, patch))
}

fn order_numbers(a: u64, b: u64) -> (o: Ordering)
    ensures
        o == number_order(a, b),
{
    if a < b {
        Ordering::Less
    } else if a == b {
        Ordering::Equal
    } else {
        Ordering::Greater
    }
}

fn order_versions(a: (u64, u64, u64), b: (u64, u64, u64)) -> (o: Ordering)
    ensures
        o == version_order(a, b),
{
    if a.0 != b.0 {
        order_numbers(a.0, b.0)
    } else if a.1 != b.1 {
        order_numbers(a.1, b.1)
    } else {
        order_numbers(a.2, b.2)
    }
}

/// Compares two versions segment by segment, numerically; `None` when
/// either side fails to parse.
pub fn compare_versions(left: &str, right: &str) -> (r: Option<Ordering>)
    ensures
        r == compared_versions(left@, right@),
{
    let a = match parse_version(left) {
        Some(v) => v,
        None => return None,
    };
    let b = match parse_version(right) {
        Some(v) => v,
        None => return None,
    };
    Some(order_versions(a, b))
}

/// The next version of `current` for `change`, or `None` when `current`
/// does not parse.  The text of the result parses back to the bumped
/// version, which is strictly greater than `current`.
pub fn next_version(current: &str, change: Change) -> (r: Option<String>)
    requires
        parsed_version(current@) matches Some(v) ==> can_bump(v, change),
    ensures
        match parsed_version(current@) {
            None => r is None,
            Some(v) => r matches Some(s) && s@ == version_text(bumped(v, change)),
        },
        r matches Some(s) ==> parsed_version(s@) == Some(bumped(parsed_version(current@)->0, change)),
        r matches Some(s) ==> compared_versions(s@, current@) == Some(Ordering::Greater),
{
    let (major, minor, patch) = match parse_version(current) {
        Some(v) => v,
        None => return None,
    };
    let next = match change {
        Change::Breaking => (major + 1, 0, 0),
        Change::Feature => (major, minor + 1, 0),
        Change::Fix => (major, minor, patch + 1),
    };
    let mut s = String::new();
    push_decimal(&mut s, next.0);
    push_char(&mut s, '.');
    push_decimal(&mut s, next.1);
    push_char(&mut s, '.');
    push_decimal(&mut s, next.2);
    proof {
        let v = (major, minor, patch);
        assert(next == bumped(v, change));
        assert(s@ =~= version_text(next));
        lemma_version_text_parses(next);
        lemma_bump_is_greater(v, change);
    }
    Some(s)
}

// ---------------------------------------------------------------------------
// Laws
// ---------------------------------------------------------------------------

pub proof fn lemma_digit_char(d: nat)
    requires
        d < 10,
    ensures
        is_digit(digit_char(d)),
        digit_value(digit_char(d)) == d,
        digit_char(d) != '.',
        digit_char(d) != '+',
        !is_ws(digit_char(d)),
{
}

/// The decimal text of `n` is a non-empty run of digits whose value is `n`.
pub proof fn lemma_decimal_digits(n: nat)
    ensures
        decimal(n).len() > 0,
        all_digits(decimal(n)),
        digits_value(decimal(n)) == n,
    decreases n,
{
    lemma_digit_char(n % 10);
    if n >= 10 {
        lemma_decimal_digits(n / 10);
        let d = decimal(n);
        assert(d.drop_last() =~= decimal(n / 10));
        assert(d.last() == digit_char(n % 10));
        assert(n == (n / 10) * 10 + n % 10);
        assert(digits_value(d) == digits_value(decimal(n / 10)) * 10 + digit_value(digit_char(n % 10)));
        assert forall|k: int| 0 <= k < d.len() implies is_digit(#[trigger] d[k]) by {
            if k < d.len() - 1 {
                assert(d[k] == decimal(n / 10)[k]);
            }
        }
    } else {
        let d = decimal(n);
        assert(d.drop_last() =~= Seq::<char>::empty());
        assert(digits_value(d) == digits_value(d.drop_last()) * 10 + digit_value(d.last()));
    }
}

/// Decimal text of a `u64` reads back as a version segment.
pub proof fn lemma_decimal_parses(n: u64)
    ensures
        segment_value(decimal(n as nat)) == Some(n),
{
    lemma_decimal_digits(n as nat);
}

pub open spec fn holds_no(s: Seq<char>, c: char) -> bool {
    forall|k: int| 0 <= k < s.len() ==> #[trigger] s[k] != c
}

pub proof fn lemma_seg_len_prefix(x: Seq<char>, y: Seq<char>, c: char)
    requires
        holds_no(x, c),
    ensures
        seg_len(x + y, c) == x.len() + seg_len(y, c),
    decreases x.len(),
{
    if x.len() > 0 {
        assert((x + y).drop_first() =~= x.drop_first() + y);
        lemma_seg_len_prefix(x.drop_first(), y, c);
    } else {
        assert(x + y =~= y);
    }
}

pub proof fn lemma_split_on_piece(x: Seq<char>, y: Seq<char>, c: char)
    requires
        holds_no(x, c),
    ensures
        split_on(x + seq![c] + y, c) == seq![x] + split_on(y, c),
{
    let s = x + seq![c] + y;
    lemma_seg_len_prefix(x, seq![c] + y, c);
    assert(x + seq![c] + y =~= x + (seq![c] + y));
    assert(seg_len(seq![c] + y, c) == 0);
    assert(s.take(x.len() as int) =~= x);
    assert(s.skip(x.len() as int + 1) =~= y);
}

pub proof fn lemma_split_on_whole(x: Seq<char>, c: char)
    requires
        holds_no(x, c),
    ensures
        split_on(x, c) == seq![x],
{
    lemma_seg_len_prefix(x, seq![], c);
    assert(x + Seq::<char>::empty() =~= x);
}

pub proof fn lemma_decimal_has_no(n: nat, c: char)
    requires
        !is_digit(c),
    ensures
        holds_no(decimal(n), c),
{
    lemma_decimal_digits(n);
}

/// Trimming leaves text alone that starts and ends with non-whitespace.
pub proof fn lemma_trim_noop(t: Seq<char>)
    requires
        t.len() > 0,
        !is_ws(t[0]),
        !is_ws(t.last()),
    ensures
        trim(t) == t,
{
}

/// The text of a version parses back to the same version.
pub proof fn lemma_version_text_parses(v: Version)
    ensures
        parsed_version(version_text(v)) == Some(v),
{
    let a = decimal(v.0 as nat);
    let b = decimal(v.1 as nat);
    let c = decimal(v.2 as nat);
    lemma_decimal_digits(v.0 as nat);
    lemma_decimal_digits(v.1 as nat);
    lemma_decimal_digits(v.2 as nat);
    lemma_decimal_has_no(v.0 as nat, '.');
    lemma_decimal_has_no(v.1 as nat, '.');
    lemma_decimal_has_no(v.2 as nat, '.');
    let t = version_text(v);
    lemma_digit_char(0);
    assert(t[0] == a[0]);
    assert(t.last() == c.last());
    assert(is_digit(a[0]) && is_digit(c.last()));
    lemma_trim_noop(t);
    assert(t =~= a + seq!['.'] + (b + seq!['.'] + c));
    lemma_split_on_piece(a, b + seq!['.'] + c, '.');
    lemma_split_on_piece(b, c, '.');
    lemma_split_on_whole(c, '.');
    let p = split_on(t, '.');
    assert(p =~= seq![a, b, c]);
    lemma_decimal_parses(v.0);
    lemma_decimal_parses(v.1);
    lemma_decimal_parses(v.2);
}

/// Every bump yields a strictly greater version.
pub proof fn lemma_bump_is_greater(v: Version, change: Change)
    requires
        can_bump(v, change),
    ensures
        version_order(bumped(v, change), v) == Ordering::Greater,
{
}

/// Comparing the other way round reverses the order.
pub proof fn lemma_version_order_antisymmetric(a: Version, b: Version)
    ensures
        version_order(b, a) == reversed(version_order(a, b)),
        version_order(a, b) == Ordering::Equal <==> a == b,
{
}

/// The order of versions is transitive.
pub proof fn lemma_version_order_transitive(a: Version, b: Version, c: Version, o: Ordering)
    requires
        o != Ordering::Equal,
        version_order(a, b) == o,
        version_order(b, c) == o,
    ensures
        version_order(a, c) == o,
{
}

/// `compare_versions(a, b)` is `compare_versions(b, a)` reversed, and a
/// version that parses compares equal to itself.
pub proof fn law_compare_versions_reverses(left: Seq<char>, right: Seq<char>)
    ensures
        compared_versions(right, left) == match compared_versions(left, right) {
            Some(o) => Some(reversed(o)),
            None => None,
        },
        parsed_version(left) is Some ==> compared_versions(left, left) == Some(Ordering::Equal),
{
    if let (Some(a), Some(b)) = (parsed_version(left), parsed_version(right)) {
        lemma_version_order_antisymmetric(a, b);
    }
    if let Some(a) = parsed_version(left) {
        lemma_version_order_antisymmetric(a, a);
    }
}

/// The next version of any parsable version reads back as the bumped
/// version and compares greater than the version it came from.
pub proof fn law_next_version_is_greater(v: Version, change: Change)
    requires
        can_bump(v, change),
    ensures
        parsed_version(version_text(bumped(v, change))) == Some(bumped(v, change)),
        compared_versions(version_text(bumped(v, change)), version_text(v)) == Some(Ordering::Greater),
{
    lemma_version_text_parses(bumped(v, change));
    lemma_version_text_parses(v);
    lemma_bump_is_greater(v, change);
}


/// The word for an ordering: less, equal, greater.
pub fn order_label(order: Ordering) -> (s: &'static str)
    ensures
        s@ == match order {
            Ordering::Less => "小于"@,
            Ordering::Equal => "等于"@,
            Ordering::Greater => "大于"@,
        },
{
    match order {
        Ordering::Less => "小于",
        Ordering::Equal => "等于",
        Ordering::Greater => "大于",
    }
}

} // verus!
