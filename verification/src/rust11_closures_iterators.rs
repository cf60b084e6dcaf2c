//! Closures and iterators: functions taking `Fn`/`FnOnce` closures, an
//! endless Fibonacci generator, and grouping words by length.
use vstd::prelude::*;
use vstd::string::*;
use std::collections::HashMap;

verus! {

broadcast use vstd::std_specs::hash::group_hash_axioms;

/// Applies `f` twice: `f(f(value))`.
pub fn apply_twice<F: Fn(i32) -> i32>(f: F, value: i32) -> (r: i32)
    requires
        f.requires((value,)),
        forall|x: i32| f.ensures((value,), x) ==> f.requires((x,)),
    ensures
        exists|m: i32| f.ensures((value,), m) && f.ensures((m,), r),
{
    let m = f(value);
    f(m)
}

/// Calls `f` `times` times, in a row; `f` may change what it captured.
pub fn apply_and_count<F: FnMut()>(mut f: F, times: usize)
    requires
        forall|g: F| #[trigger] g.requires(()),
{
    let mut i: usize = 0;
    while i < times
        invariant
            forall|g: F| #[trigger] g.requires(()),
        decreases times - i,
    {
        f();
        i = i + 1;
    }
}

/// Calls `f` exactly once and returns what it gives.
pub fn consume_once<F: FnOnce() -> String>(f: F) -> (r: String)
    requires
        f.requires(()),
    ensures
        f.ensures((), r),
{
    f()
}

/// `fib(0) = 0`, `fib(1) = 1`, `fib(n) = fib(n - 1) + fib(n - 2)`.
pub open spec fn fib(n: nat) -> nat
    decreases n,
{
    if n == 0 {
        0
    } else if n == 1 {
        1
    } else {
        fib((n - 1) as nat) + fib((n - 2) as nat)
    }
}

/// The Fibonacci numbers `1, 1, 2, 3, 5, ...`, one per call of `next`.
pub struct Fibonacci {
    a: u64,
    b: u64,
}

impl Fibonacci {
    /// After `k` numbers were handed out the state is `fib(k), fib(k + 1)`.
    pub closed spec fn state_is(&self, k: nat) -> bool {
        self.a == fib(k) && self.b == fib(k + 1)
    }

    /// The next number still fits `u64`.
    pub closed spec fn fits(&self) -> bool {
        self.a + self.b <= u64::MAX
    }

    pub fn new() -> (f: Self)
        ensures
            f.state_is(0),
    {
        Self { a: 0, b: 1 }
    }

    /// Whether `next` can produce one more number without overflow.
    pub fn can_advance(&self) -> (b: bool)
        ensures
            b == self.fits(),
    {
        self.a.checked_add(self.b).is_some()
    }

    /// The next Fibonacci number: after `k` calls the call returns
    /// `fib(k + 1)`.
    pub fn next(&mut self) -> (r: Option<u64>)
        requires
            old(self).fits(),
        ensures
            forall|k: nat| old(self).state_is(k) ==> final(self).state_is(k + 1) && r == Some(fib(k + 1) as u64),
    {
        let next = self.a + self.b;
        self.a = self.b;
        self.b = next;
        Some(self.a)
    }
}

/// The words grouped by byte length, each group in input order.
pub open spec fn grouped(ws: Seq<&str>) -> Map<usize, Seq<Seq<char>>>
    decreases ws.len(),
{
    if ws.len() == 0 {
        Map::empty()
    } else {
        let g = grouped(ws.drop_last());
        let w = ws.last();
        let n = w.len();
        let before = if g.contains_key(n) {
            g[n]
        } else {
            Seq::empty()
        };
        g.insert(n, before.push(w@))
    }
}

/// What a map of groups holds, as characters.
pub open spec fn groups_view(m: Map<usize, Vec<String>>) -> Map<usize, Seq<Seq<char>>> {
    m.map_values(|v: Vec<String>| v@.map_values(|s: String| s@))
}

/// Groups words by their byte length.
pub fn group_by_len(words: &[&str]) -> (groups: HashMap<usize, Vec<String>>)
    ensures
        groups_view(groups@) == grouped(words@),
{
    let mut groups: HashMap<usize, Vec<String>> = HashMap::new();
    let mut i: usize = 0;
    assert(groups_view(groups@) =~= grouped(words@.take(0)));
    while i < words.len()
        invariant
            i <= words@.len(),
            groups_view(groups@) == grouped(words@.take(i as int)),
        decreases words@.len() - i,
    {
        let word = words[i];
        let n = word.len();
        let ghost g0 = groups@;
        let mut group = match groups.remove(&n) {
            Some(g) => g,
            None => Vec::new(),
        };
        let ghost before = group@;
        assert(g0.contains_key(n) ==> before == g0[n]@);
        assert(!g0.contains_key(n) ==> before.len() == 0);
        group.push(String::from_str(word));
        groups.insert(n, group);
        proof {
            let ws = words@.take(i + 1);
            assert(ws.drop_last() =~= words@.take(i as int));
            assert(ws.last() == word);
            let g = grouped(words@.take(i as int));
            assert(g == groups_view(g0));
            assert(g.contains_key(n) == g0.contains_key(n));
            let b = if g.contains_key(n) { g[n] } else { Seq::empty() };
            assert(b =~= before.map_values(|s: String| s@));
            assert(group@.map_values(|s: String| s@) =~= b.push(word@));
            assert(groups@ == g0.insert(n, group));
            assert(groups_view(groups@) =~= g.insert(n, b.push(word@)));
            assert(groups_view(groups@) =~= grouped(ws));
        }
        i = i + 1;
    }
    assert(words@.take(words@.len() as int) =~= words@);
    groups
}

} // verus!
