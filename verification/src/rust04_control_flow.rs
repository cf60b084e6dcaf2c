//! Control flow: `if` chains, `loop`, `while`.
use vstd::prelude::*;

verus! {

/// The grade of a score: 90 and up excellent, 75 and up good, 60 and up a
/// pass, below 60 a fail.
pub open spec fn grade_of(score: u32) -> Seq<char> {
    if score >= 90 {
        "优秀"@
    } else if score >= 75 {
        "良好"@
    } else if score >= 60 {
        "及格"@
    } else {
        "不及格"@
    }
}

pub fn grade(score: u32) -> (g: &'static str)
    ensures
        g@ == grade_of(score),
{
    if score >= 90 {
        "优秀"
    } else if score >= 75 {
        "良好"
    } else if score >= 60 {
        "及格"
    } else {
        "不及格"
    }
}

/// The larger of two numbers.
pub fn max_of(a: i32, b: i32) -> (m: i32)
    ensures
        m >= a && m >= b,
        m == a || m == b,
{
    if a >= b {
        a
    } else {
        b
    }
}

/// `1 + 2 + ... + n`.
pub open spec fn triangle(n: nat) -> nat
    decreases n,
{
    if n == 0 {
        0
    } else {
        n + triangle((n - 1) as nat)
    }
}

pub proof fn lemma_triangle_monotone(i: nat, j: nat)
    requires
        i <= j,
    ensures
        triangle(i) <= triangle(j),
    decreases j - i,
{
    if i < j {
        lemma_triangle_monotone(i, (j - 1) as nat);
    }
}

/// Sums `1..=limit` with `loop` and `break`.
pub fn sum_with_loop(limit: u32) -> (total: u32)
    requires
        triangle(limit as nat) <= u32::MAX,
    ensures
        total == triangle(limit as nat),
{
    let mut total: u32 = 0;
    let mut current: u32 = 1;
    loop
        invariant
            1 <= current <= limit + 1,
            total == triangle((current - 1) as nat),
            triangle(limit as nat) <= u32::MAX,
        ensures
            total == triangle(limit as nat),
        decreases limit + 1 - current,
    {
        if current > limit {
            break;
        }
        proof {
            lemma_triangle_monotone(current as nat, limit as nat);
        }
        total = total + current;
        current = current + 1;
    }
    total
}

/// Sums `1..=limit` with `while`.
pub fn sum_with_while(limit: u32) -> (total: u32)
    requires
        triangle(limit as nat) <= u32::MAX,
    ensures
        total == triangle(limit as nat),
{
    let mut total: u32 = 0;
    let mut current: u32 = 1;
    while current <= limit
        invariant
            1 <= current <= limit + 1,
            total == triangle((current - 1) as nat),
            triangle(limit as nat) <= u32::MAX,
        decreases limit + 1 - current,
    {
        proof {
            lemma_triangle_monotone(current as nat, limit as nat);
        }
        total = total + current;
        current = current + 1;
    }
    total
}

/// `1 + 2 + ... + n == n (n + 1) / 2`.
pub proof fn law_triangle_closed_form(n: nat)
    ensures
        2 * triangle(n) == n * (n + 1),
    decreases n,
{
    if n > 0 {
        let m = (n - 1) as nat;
        law_triangle_closed_form(m);
        assert(triangle(n) == n + triangle(m));
        assert(2 * triangle(n) == n * (n + 1)) by (nonlinear_arith)
            requires
                2 * triangle(m) == m * (m + 1),
                triangle(n) == n + triangle(m),
                m + 1 == n,
        ;
    } else {
        assert(n * (n + 1) == 0) by (nonlinear_arith)
            requires
                n == 0,
        ;
    }
}

} // verus!
