//! Functions and expressions: early return, tuples as results, functions
//! passed as values.
use vstd::prelude::*;

verus! {

/// Sum of `s[0..k]`.
pub open spec fn prefix_sum(s: Seq<i32>, k: int) -> int
    decreases k,
{
    if k <= 0 {
        0
    } else {
        prefix_sum(s, k - 1) + s[k - 1]
    }
}

/// The first `k` values hold no negative one.
pub open spec fn no_negative_before(s: Seq<i32>, k: int) -> bool {
    forall|j: int| 0 <= j < k ==> s[j] >= 0
}

/// Sums the values up to (not including) the first negative one: the
/// result is the sum of the longest prefix without a negative value. Only
/// the sums of such prefixes must fit `i32`; values after the first
/// negative one are never added.
pub fn sum_until_negative(values: &[i32]) -> (total: i32)
    requires
        forall|k: int| 0 <= k <= values@.len() && no_negative_before(values@, k)
            ==> i32::MIN <= #[trigger] prefix_sum(values@, k) <= i32::MAX,
    ensures
        exists|k: int|
            0 <= k <= values@.len() && total == prefix_sum(values@, k) && (forall|j: int|
                0 <= j < k ==> values@[j] >= 0) && (k == values@.len() || values@[k] < 0),
{
    let mut total: i32 = 0;
    let mut i: usize = 0;
    while i < values.len()
        invariant
            i <= values@.len(),
            total == prefix_sum(values@, i as int),
            forall|j: int| 0 <= j < i ==> values@[j] >= 0,
            forall|k: int| 0 <= k <= values@.len() && no_negative_before(values@, k)
                ==> i32::MIN <= #[trigger] prefix_sum(values@, k) <= i32::MAX,
        decreases values@.len() - i,
    {
        let value = values[i];
        if value < 0 {
            return total;
        }
        assert(prefix_sum(values@, i + 1) == prefix_sum(values@, i as int) + value);
        assert(no_negative_before(values@, i + 1));
        total = total + value;
        i = i + 1;
    }
    total
}

/// `a + b`.
pub fn add(a: i32, b: i32) -> (r: i32)
    requires
        i32::MIN <= a + b <= i32::MAX,
    ensures
        r == a + b,
{
    a + b
}

/// `x * x`.
pub fn square(x: i32) -> (r: i32)
    requires
        x * x <= i32::MAX,
    ensures
        r == x * x,
{
    assert(0 <= x * x) by (nonlinear_arith);
    x * x
}

/// Absolute value.
pub fn absolute(x: i32) -> (r: i32)
    requires
        x != i32::MIN,
    ensures
        r >= 0,
        r == x || r == -x,
        r == (if x < 0 { -x } else { x as int }),
{
    if x < 0 {
        return -x;
    }
    x
}

/// Quotient of Rust's `/`: rounded towards zero.
pub open spec fn trunc_div(a: int, b: int) -> int {
    let q = (if a < 0 { -a } else { a }) / (if b < 0 { -b } else { b });
    if (a < 0) == (b < 0) {
        q
    } else {
        -q
    }
}

/// Remainder of Rust's `%`: it takes the sign of the dividend.
pub open spec fn trunc_rem(a: int, b: int) -> int {
    a - trunc_div(a, b) * b
}

/// Quotient and remainder of `a` by `b`, computed as Rust's `/` and `%`.
pub fn divmod(a: i32, b: i32) -> (r: (i32, i32))
    requires
        b != 0,
        !(a == i32::MIN && b == -1),
    ensures
        r.0 == trunc_div(a as int, b as int),
        r.1 == trunc_rem(a as int, b as int),
        r.0 * b + r.1 == a,
{
    let ua: i64 = if a < 0 { -(a as i64) } else { a as i64 };
    let ub: i64 = if b < 0 { -(b as i64) } else { b as i64 };
    let q = ua / ub;
    assert(0 <= q <= ua) by (nonlinear_arith)
        requires
            ua >= 0,
            ub >= 1,
            q == ua / ub,
    ;
    let quotient: i64 = if (a < 0) == (b < 0) { q } else { -q };
    assert(-2147483648 <= quotient <= 2147483647) by (nonlinear_arith)
        requires
            quotient == q || quotient == -q,
            0 <= q <= ua,
            ua <= 2147483648,
            ua == 2147483648 ==> (ub >= 2 || quotient == -q),
            ub >= 1,
            q == ua / ub,
    ;
    assert(-4611686018427387904 <= quotient * (b as i64) <= 4611686018427387904) by (nonlinear_arith)
        requires
            -2147483648 <= quotient <= 2147483648,
            -2147483648 <= b <= 2147483647,
    ;
    let rem: i64 = (a as i64) - quotient * (b as i64);
    assert(-2147483648 <= rem <= 2147483647) by (nonlinear_arith)
        requires
            ua == (if a < 0 { -a } else { a as int }),
            ub == (if b < 0 { -b } else { b as int }),
            ub >= 1,
            q == ua / ub,
            quotient == (if (a < 0) == (b < 0) { q as int } else { -q }),
            rem == a - quotient * b,
            -2147483648 <= a <= 2147483647,
    {
        assert(ua - q * ub == ua % ub);
        assert(0 <= ua % ub < ub);
    }
    (quotient as i32, rem as i32)
}

/// Calls `f` with `a` and `b`.
pub fn apply<F: Fn(i32, i32) -> i32>(f: F, a: i32, b: i32) -> (r: i32)
    requires
        f.requires((a, b)),
    ensures
        f.ensures((a, b), r),
{
    f(a, b)
}

/// `x * x`, as the compile-time evaluable version.
pub fn const_square(x: i32) -> (r: i32)
    requires
        x * x <= i32::MAX,
    ensures
        r == x * x,
{
    assert(0 <= x * x) by (nonlinear_arith);
    x * x
}

/// Number of characters (not bytes) in `text`.
pub fn count_chars(text: &str) -> (n: usize)
    ensures
        n == text@.len(),
{
    text.unicode_len()
}

} // verus!
