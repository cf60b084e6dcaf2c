//! Health probes and request metrics: liveness versus readiness, request
//! and error counters, and nearest-rank latency percentiles.
use vstd::prelude::*;
use vstd::relations::{sorted_by, total_ordering};
use core::time::Duration;
use vstd::string::*;
use crate::rust26_database::{add_task, insert_call, SqlCall, TaskDb, TaskError};
use crate::strings::{decimal, is_ws, lemma_trim_start_is_suffix, push_decimal, trim, trim_start};

verus! {

broadcast use vstd::seq_lib::group_to_multiset_ensures;

/// Health of the service.
///
/// Being alive and being ready are different questions: a live process may
/// not accept traffic yet, and a broken dependency is no reason to restart.
#[derive(Debug, Clone, Copy, PartialEq, Eq, Structural)]
pub enum Health {
    /// The process is running.
    Live,
    /// Every dependency is available; traffic may be sent.
    Ready,
    /// A dependency is unavailable; hold traffic back, but do not restart.
    Degraded,
}

impl Health {
    /// The HTTP status a probe answers with: 200 while live or ready, 503
    /// while degraded.
    pub fn status_code(self) -> (code: u16)
        ensures
            code == (if self == Health::Degraded { 503u16 } else { 200u16 }),
    {
        match self {
            Health::Live | Health::Ready => 200,
            Health::Degraded => 503,
        }
    }

    /// Whether traffic may be routed here: only when ready.
    pub fn is_ready(self) -> (ready: bool)
        ensures
            ready == (self == Health::Ready),
    {
        matches!(self, Health::Ready)
    }
}

/// Liveness probe: answers whether the process runs, without consulting
/// any dependency.
pub fn liveness() -> (h: Health)
    ensures
        h == Health::Live,
{
    Health::Live
}

/// Readiness: ready exactly when the database and every other dependency
/// are available, degraded otherwise.
pub fn health_status(database_ok: bool, dependency_ok: bool) -> (h: Health)
    ensures
        h == (if database_ok && dependency_ok { Health::Ready } else { Health::Degraded }),
{
    if database_ok && dependency_ok {
        Health::Ready
    } else {
        Health::Degraded
    }
}

/// Request counters and latency samples (milliseconds).
#[derive(Debug)]
pub struct Metrics {
    requests: u64,
    errors: u64,
    latencies_ms: Vec<u64>,
}

/// What a `Metrics` holds.
pub struct MetricsView {
    pub requests: u64,
    pub errors: u64,
    pub latencies: Seq<u64>,
}

impl View for Metrics {
    type V = MetricsView;

    closed spec fn view(&self) -> MetricsView {
        MetricsView { requests: self.requests, errors: self.errors, latencies: self.latencies_ms@ }
    }
}

impl Default for Metrics {
    fn default() -> (m: Metrics)
        ensures
            m@.requests == 0,
            m@.errors == 0,
            m@.latencies == Seq::<u64>::empty(),
            m.consistent(),
    {
        Metrics { requests: 0, errors: 0, latencies_ms: Vec::new() }
    }
}

impl Clone for Metrics {
    fn clone(&self) -> (m: Metrics)
        ensures
            m@ == self@,
    {
        Metrics { requests: self.requests, errors: self.errors, latencies_ms: self.latencies_ms.clone() }
    }
}

/// The whole milliseconds of a duration (`Duration::as_millis`), cut to
/// `u64` as the metrics store them.
pub uninterp spec fn whole_millis_of(elapsed: Duration) -> u64;

/// `Duration::as_millis`, cut to `u64`.
#[verifier::external_body]
fn whole_millis(elapsed: &Duration) -> (r: u64)
    ensures
        r == whole_millis_of(*elapsed),
{
    elapsed.as_millis() as u64
}

pub open spec fn u64_leq() -> spec_fn(u64, u64) -> bool {
    |a: u64, b: u64| a <= b
}

/// The latencies in ascending order.
pub open spec fn sorted_latencies(s: Seq<u64>) -> Seq<u64> {
    s.sort_by(u64_leq())
}

/// `percent` clamped into `1..=100`.
pub open spec fn clamped_percent(percent: u8) -> nat {
    if percent < 1 {
        1
    } else if percent > 100 {
        100
    } else {
        percent as nat
    }
}

/// Nearest rank of `percent` among `n` samples: `ceil(percent / 100 * n)`.
pub open spec fn nearest_rank(percent: u8, n: nat) -> nat {
    ((clamped_percent(percent) * n + 99) / 100) as nat
}

/// The nearest-rank percentile of the samples: the sample at position
/// `nearest_rank` (counting from 1) in ascending order; `None` without samples.
pub open spec fn percentile_of(s: Seq<u64>, percent: u8) -> Option<u64> {
    if s.len() == 0 {
        None
    } else {
        Some(sorted_latencies(s)[nearest_rank(percent, s.len()) - 1])
    }
}

impl Metrics {
    /// Requests recorded so far never include more errors than requests,
    /// and every request left one latency sample. Every `Metrics` made by
    /// `default` and `record` is consistent, so a caller that knows
    /// `requests < u64::MAX` also knows `errors < u64::MAX`.
    pub open spec fn consistent(&self) -> bool {
        &&& self@.errors <= self@.requests
        &&& self@.latencies.len() == self@.requests
    }

    pub proof fn lemma_default_consistent(m: Metrics)
        requires
            m@.requests == 0,
            m@.errors == 0,
            m@.latencies == Seq::<u64>::empty(),
        ensures
            m.consistent(),
    {
    }

    /// Records one request: its outcome and how long it took.
    pub fn record(&mut self, success: bool, elapsed: Duration)
        requires
            old(self)@.requests < u64::MAX,
            old(self)@.errors < u64::MAX,
        ensures
            final(self)@.requests == old(self)@.requests + 1,
            final(self)@.errors == old(self)@.errors + (if success { 0int } else { 1int }),
            final(self)@.latencies == old(self)@.latencies.push(whole_millis_of(elapsed)),
            old(self).consistent() ==> final(self).consistent(),
    {
        let millis = whole_millis(&elapsed);
        self.record_millis(success, millis);
    }

    /// Records one request that took `millis` milliseconds.
    pub fn record_millis(&mut self, success: bool, millis: u64)
        requires
            old(self)@.requests < u64::MAX,
            old(self)@.errors < u64::MAX,
        ensures
            final(self)@.requests == old(self)@.requests + 1,
            final(self)@.errors == old(self)@.errors + (if success { 0int } else { 1int }),
            final(self)@.latencies == old(self)@.latencies.push(millis),
            old(self).consistent() ==> final(self).consistent(),
    {
        self.requests = self.requests + 1;
        if !success {
            self.errors = self.errors + 1;
        }
        self.latencies_ms.push(millis);
    }

    /// Number of requests recorded.
    pub fn requests(&self) -> (n: u64)
        ensures
            n == self@.requests,
    {
        self.requests
    }

    /// Number of failed requests recorded.
    pub fn errors(&self) -> (n: u64)
        ensures
            n == self@.errors,
    {
        self.errors
    }

    /// Nearest-rank percentile of the recorded latencies (`percent` is
    /// clamped into `1..=100`); `None` without samples.
    pub fn percentile_ms(&self, percent: u8) -> (r: Option<u64>)
        requires
            clamped_percent(percent) * self@.latencies.len() <= usize::MAX,
        ensures
            r == percentile_of(self@.latencies, percent),
            r matches Some(v) ==> self@.latencies.contains(v)
                && count_at_most(self@.latencies, v) >= nearest_rank(percent, self@.latencies.len())
                && count_below(self@.latencies, v) < nearest_rank(percent, self@.latencies.len()),
    {
        if self.latencies_ms.len() == 0 {
            return None;
        }
        proof {
            law_percentile_is_kth_smallest(self@.latencies, percent);
        }
        let p: usize = if percent < 1 {
            1
        } else if percent > 100 {
            100
        } else {
            percent as usize
        };
        let sorted = sort_ascending(&self.latencies_ms);
        let n = sorted.len();
        assert(p * n <= usize::MAX) by (nonlinear_arith)
            requires
                p == clamped_percent(percent),
                n == self@.latencies.len(),
                clamped_percent(percent) * self@.latencies.len() <= usize::MAX,
        ;
        let x = p * n;
        let rank = if x % 100 == 0 {
            x / 100
        } else {
            x / 100 + 1
        };
        assert(rank == nearest_rank(percent, n as nat));
        assert(1 <= rank <= n) by (nonlinear_arith)
            requires
                1 <= p <= 100,
                n >= 1,
                x == p * n,
                rank == (x + 99) / 100,
        ;
        let idx = rank - 1;
        Some(sorted[idx])
    }
}

/// The samples in ascending order.
pub fn sort_ascending(v: &Vec<u64>) -> (t: Vec<u64>)
    ensures
        t@ == sorted_latencies(v@),
        t@.len() == v@.len(),
{
    let mut t: Vec<u64> = Vec::new();
    let mut i: usize = 0;
    while i < v.len()
        invariant
            i <= v@.len(),
            sorted_by(t@, u64_leq()),
            t@.len() == i,
            t@.to_multiset() == v@.take(i as int).to_multiset(),
        decreases v@.len() - i,
    {
        let x = v[i];
        let mut p: usize = 0;
        while p < t.len() && t[p] <= x
            invariant
                p <= t@.len(),
                forall|k: int| 0 <= k < p ==> t@[k] <= x,
            decreases t@.len() - p,
        {
            p = p + 1;
        }
        let ghost before = t@;
        assert(forall|k: int| p <= k < before.len() ==> #[trigger] before[k] > x) by {
            assert forall|k: int| p <= k < before.len() implies #[trigger] before[k] > x by {
                assert(before[p as int] > x);
                if k > p {
                    assert(u64_leq()(before[p as int], before[k]));
                }
            }
        }
        t.insert(p, x);
        assert(sorted_by(t@, u64_leq())) by {
            assert forall|a: int, b: int| 0 <= a < b < t@.len() implies #[trigger] u64_leq()(t@[a], t@[b]) by {
                if b < p {
                    assert(u64_leq()(before[a], before[b]));
                } else if b == p {
                    assert(t@[a] == before[a]);
                } else if a < p {
                    assert(t@[b] == before[b - 1]);
                } else if a == p {
                    assert(t@[b] == before[b - 1]);
                } else {
                    assert(u64_leq()(before[a - 1], before[b - 1]));
                }
            }
        }
        assert(v@.take(i + 1) =~= v@.take(i as int).push(x));
        i = i + 1;
    }
    proof {
        assert(v@.take(v@.len() as int) =~= v@);
        assert(total_ordering(u64_leq()));
        v@.lemma_sort_by_ensures(u64_leq());
        vstd::seq_lib::lemma_sorted_unique(t@, sorted_latencies(v@), u64_leq());
    }
    t
}

/// The nearest rank lies among the samples: from 1 to their number.
proof fn lemma_rank_in_range(percent: u8, n: nat)
    requires
        n >= 1,
    ensures
        1 <= nearest_rank(percent, n) <= n,
{
    let c = clamped_percent(percent);
    assert(1 <= (c * n + 99) / 100 <= n) by (nonlinear_arith)
        requires
            1 <= c <= 100,
            n >= 1,
    ;
}

/// Facts about the ascending order of the samples.
proof fn lemma_sorted_latencies(s: Seq<u64>)
    ensures
        sorted_latencies(s).len() == s.len(),
        sorted_latencies(s).to_multiset() == s.to_multiset(),
        forall|i: int, j: int| 0 <= i <= j < s.len() ==> #[trigger] sorted_latencies(s)[i] <= #[trigger] sorted_latencies(s)[j],
{
    assert(total_ordering(u64_leq()));
    s.lemma_sort_by_ensures(u64_leq());
    let t = sorted_latencies(s);
    assert(t.len() == s.len()) by {
        assert(t.to_multiset().len() == s.to_multiset().len());
    }
    assert forall|i: int, j: int| 0 <= i <= j < s.len() implies #[trigger] t[i] <= #[trigger] t[j] by {
        if i < j {
            assert(u64_leq()(t[i], t[j]));
        }
    }
}

/// A percentile is always one of the recorded samples.
pub proof fn law_percentile_is_a_sample(s: Seq<u64>, percent: u8)
    requires
        s.len() > 0,
    ensures
        percentile_of(s, percent) matches Some(x) && s.contains(x),
{
    lemma_rank_in_range(percent, s.len());
    lemma_sorted_latencies(s);
    let t = sorted_latencies(s);
    let x = t[nearest_rank(percent, s.len()) - 1];
    assert(t.contains(x));
    assert(t.to_multiset().count(x) > 0);
}

/// A higher percent never gives a lower percentile.
pub proof fn law_percentile_is_monotone(s: Seq<u64>, low: u8, high: u8)
    requires
        s.len() > 0,
        low <= high,
    ensures
        percentile_of(s, low)->0 <= percentile_of(s, high)->0,
{
    let n = s.len();
    lemma_rank_in_range(low, n);
    lemma_rank_in_range(high, n);
    let a = clamped_percent(low);
    let b = clamped_percent(high);
    assert(a <= b);
    assert((a * n + 99) / 100 <= (b * n + 99) / 100) by (nonlinear_arith)
        requires
            a <= b,
            n >= 1,
    ;
    lemma_sorted_latencies(s);
    let t = sorted_latencies(s);
    assert(t[nearest_rank(low, n) - 1] <= t[nearest_rank(high, n) - 1]);
}

/// The order in which latencies were recorded does not matter: the same
/// samples, in any order, give the same percentiles.
pub proof fn law_percentile_ignores_order(s: Seq<u64>, t: Seq<u64>, percent: u8)
    requires
        s.to_multiset() == t.to_multiset(),
    ensures
        percentile_of(s, percent) == percentile_of(t, percent),
{
    assert(total_ordering(u64_leq()));
    s.lemma_sort_by_ensures(u64_leq());
    t.lemma_sort_by_ensures(u64_leq());
    vstd::seq_lib::lemma_sorted_unique(sorted_latencies(s), sorted_latencies(t), u64_leq());
    vstd::seq_lib::to_multiset_len(s);
    vstd::seq_lib::to_multiset_len(t);
}

/// How many samples are at most `v`.
pub open spec fn count_at_most(s: Seq<u64>, v: u64) -> nat {
    s.filter(|x: u64| x <= v).len()
}

/// How many samples are below `v`.
pub open spec fn count_below(s: Seq<u64>, v: u64) -> nat {
    s.filter(|x: u64| x < v).len()
}

/// Taking one element out of a sequence takes it out of the filtered one
/// when it passes the filter.
proof fn lemma_filter_len_remove(t: Seq<u64>, j: int, p: spec_fn(u64) -> bool)
    requires
        0 <= j < t.len(),
    ensures
        t.filter(p).len() == t.remove(j).filter(p).len() + (if p(t[j]) { 1int } else { 0int }),
{
    broadcast use Seq::filter_distributes_over_add, Seq::lemma_filter_len_push;

    let a = t.take(j);
    let b = t.skip(j + 1);
    assert(t =~= a.push(t[j]) + b);
    assert(t.remove(j) =~= a + b);
    assert(a.push(t[j]).filter(p).len() == a.filter(p).len() + (if p(t[j]) { 1int } else { 0int }));
}

/// Sequences with the same elements, in any order, keep as many under any
/// filter.
proof fn lemma_filter_len_permutation(s: Seq<u64>, t: Seq<u64>, p: spec_fn(u64) -> bool)
    requires
        s.to_multiset() == t.to_multiset(),
    ensures
        s.filter(p).len() == t.filter(p).len(),
    decreases s.len(),
{
    broadcast use vstd::seq_lib::group_to_multiset_ensures, Seq::lemma_filter_len_push;

    vstd::seq_lib::to_multiset_len(s);
    vstd::seq_lib::to_multiset_len(t);
    if s.len() == 0 {
        assert(t.len() == 0);
        assert(s.filter(p) =~= Seq::<u64>::empty());
        assert(t.filter(p) =~= Seq::<u64>::empty());
    } else {
        let x = s.last();
        let s1 = s.drop_last();
        assert(s =~= s1.push(x));
        vstd::seq_lib::to_multiset_remove(s, s.len() - 1);
        assert(s.remove(s.len() - 1) =~= s1);
        vstd::seq_lib::to_multiset_contains(s, x);
        assert(s.contains(x)) by {
            assert(s[s.len() - 1] == x);
        }
        vstd::seq_lib::to_multiset_contains(t, x);
        let j = choose|j: int| 0 <= j < t.len() && t[j] == x;
        vstd::seq_lib::to_multiset_remove(t, j);
        let t1 = t.remove(j);
        lemma_filter_len_permutation(s1, t1, p);
        lemma_filter_len_remove(t, j, p);
        assert(s.filter(p).len() == s1.filter(p).len() + (if p(x) { 1int } else { 0int }));
    }
}

/// The nearest-rank percentile is the `k`-th smallest sample, with
/// `k = ceil(percent * n / 100)` for the clamped percent: at least `k`
/// samples are at most it, and fewer than `k` are below it.
pub proof fn law_percentile_is_kth_smallest(s: Seq<u64>, percent: u8)
    requires
        s.len() > 0,
    ensures
        percentile_of(s, percent) matches Some(v) && s.contains(v) && count_at_most(s, v) >= nearest_rank(
            percent,
            s.len(),
        ) && count_below(s, v) < nearest_rank(percent, s.len()),
{
    broadcast use Seq::lemma_filter_len_push;

    law_percentile_is_a_sample(s, percent);
    lemma_rank_in_range(percent, s.len());
    lemma_sorted_latencies(s);
    let t = sorted_latencies(s);
    let k = nearest_rank(percent, s.len()) as int;
    let v = t[k - 1];
    let at_most = |x: u64| x <= v;
    let below = |x: u64| x < v;
    lemma_filter_len_permutation(s, t, at_most);
    lemma_filter_len_permutation(s, t, below);
    // the first `k` sorted samples are all at most `v`
    t.lemma_filter_take_len(at_most, k);
    let head = t.take(k);
    assert(forall|i: int| 0 <= i < k ==> #[trigger] head[i] <= v);
    assert(head.filter(at_most).len() == k) by {
        assert forall|i: int| 0 <= i <= k implies #[trigger] head.take(i).filter(at_most).len() == i by {
            lemma_take_all_pass(head, at_most, i);
        }
        assert(head.take(k) =~= head);
    }
    // the samples from position `k - 1` on are all at least `v`
    let tail = t.skip(k - 1);
    assert(t =~= t.take(k - 1) + tail);
    assert(tail.filter(below).len() == 0) by {
        assert forall|i: int| 0 <= i < tail.len() implies !below(#[trigger] tail[i]) by {
            assert(tail[i] == t[k - 1 + i]);
        }
        tail.lemma_all_neg_filter_empty(below);
    }
    broadcast use Seq::filter_distributes_over_add;
    assert(t.filter(below).len() == t.take(k - 1).filter(below).len());
    t.lemma_filter_take_len(below, k - 1);
    t.take(k - 1).lemma_filter_len(below);
}

/// A prefix whose elements all pass a filter keeps all of them.
proof fn lemma_take_all_pass(h: Seq<u64>, p: spec_fn(u64) -> bool, i: int)
    requires
        0 <= i <= h.len(),
        forall|m: int| 0 <= m < h.len() ==> p(#[trigger] h[m]),
    ensures
        h.take(i).filter(p).len() == i,
    decreases i,
{
    broadcast use Seq::lemma_filter_len_push;

    if i == 0 {
        assert(h.take(0).filter(p) =~= Seq::<u64>::empty());
    } else {
        lemma_take_all_pass(h, p, i - 1);
        assert(h.take(i) =~= h.take(i - 1).push(h[i - 1]));
        assert(p(h[i - 1]));
    }
}

/// Percentages outside `1..=100` are clamped: 0 reads as 1, anything
/// above 100 as 100.
pub proof fn law_percent_is_clamped(s: Seq<u64>, percent: u8)
    ensures
        percent == 0 ==> percentile_of(s, percent) == percentile_of(s, 1),
        percent > 100 ==> percentile_of(s, percent) == percentile_of(s, 100),
{
}

/// Recorded metrics never count more errors than requests, and hold one
/// latency sample per request.
pub proof fn law_errors_never_exceed_requests(m: Metrics)
    requires
        m.consistent(),
    ensures
        m@.errors <= m@.requests,
        m@.latencies.len() == m@.requests,
{
}

/// `prefix` followed by `index` in decimal: the titles of the benchmark
/// rows.
pub fn numbered_title(prefix: &str, index: u64) -> (s: String)
    ensures
        s@ == prefix@ + decimal(index as nat),
{
    let mut s = String::from_str(prefix);
    push_decimal(&mut s, index);
    s
}

/// A numbered title ends with a digit, so it is never blank.
proof fn lemma_numbered_title_not_blank(prefix: Seq<char>, index: nat)
    ensures
        trim(prefix + decimal(index)).len() > 0,
{
    let d = decimal(index);
    let s = prefix + d;
    crate::rust24_cargo::lemma_decimal_digits(index);
    if index < 10 {
        crate::rust24_cargo::lemma_digit_char(index);
    } else {
        crate::rust24_cargo::lemma_digit_char(index % 10);
    }
    assert(!is_ws(d.last()));
    assert(s.last() == d.last());
    lemma_trim_start_is_suffix(s);
    let t = trim_start(s);
    assert(t.len() > 0) by {
        if t.len() == 0 {
            assert(is_ws(s[s.len() - 1]));
        }
    }
    assert(t.last() == s.last());
}

/// The inserts of the titles `prefix0`, `prefix1`, ... up to `n` of them.
pub open spec fn numbered_inserts(prefix: Seq<char>, n: nat) -> Seq<SqlCall> {
    Seq::new(n, |i: int| insert_call(prefix + decimal(i as nat), 2))
}

/// Inserts `count` numbered tasks one statement at a time, each in its own
/// implicit transaction; the first failure stops the run.
pub fn insert_numbered(db: &mut TaskDb, prefix: &str, count: u64) -> (r: Result<(), TaskError>)
    ensures
        count == 0 ==> r is Ok,
        r is Ok ==> final(db).log() == old(db).log() + numbered_inserts(prefix@, count as nat),
        r is Err ==> r->Err_0 is Sqlite && exists|k: nat| k < count && final(db).log() == old(db).log()
            + #[trigger] numbered_inserts(prefix@, k + 1) + seq![SqlCall::Refused],
{
    let mut index: u64 = 0;
    let ghost start = db.log();
    assert(start + numbered_inserts(prefix@, 0) =~= start);
    while index < count
        invariant
            index <= count,
            start == old(db).log(),
            db.log() == start + numbered_inserts(prefix@, index as nat),
        decreases count - index,
    {
        let title = numbered_title(prefix, index);
        proof {
            lemma_numbered_title_not_blank(prefix@, index as nat);
            assert(numbered_inserts(prefix@, (index + 1) as nat) =~= numbered_inserts(prefix@, index as nat).push(
                insert_call(title@, 2),
            ));
        }
        match add_task(db, title.as_str()) {
            Ok(_) => {
                assert(db.log() =~= start + numbered_inserts(prefix@, (index + 1) as nat));
            },
            Err(e) => {
                proof {
                    let k = index as nat;
                    assert(db.log() =~= start + numbered_inserts(prefix@, k + 1) + seq![SqlCall::Refused]);
                    assert(e is Sqlite);
                    assert(k < count);
                }
                return Err(e);
            },
        }
        index = index + 1;
    }
    Ok(())
}

} // verus!
