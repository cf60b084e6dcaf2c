//! Generics and traits: a generic maximum, a generic point with `+`, and a
//! `Summary` trait with a default method, used through `impl Trait`,
//! generic bounds and `where` clauses.
use vstd::prelude::*;
use vstd::string::*;
use core::cmp::Ordering;
use core::ops::Add;
use vstd::std_specs::ops::{AddSpec, AddSpecImpl};
use vstd::std_specs::cmp::PartialOrdSpec;

verus! {

/// The running maximum of `s` after its first `k` elements, starting from
/// `s[0]`: an element replaces it when it compares greater.
pub open spec fn max_upto<T: PartialOrd>(s: Seq<T>, k: int) -> T
    decreases k,
{
    if k <= 0 {
        s[0]
    } else {
        let m = max_upto(s, k - 1);
        if s[k - 1].partial_cmp_spec(&m) == Some(Ordering::Greater) {
            s[k - 1]
        } else {
            m
        }
    }
}

/// The running maximum after the first `i` elements.
pub open spec fn max_prefix<T: PartialOrd>(s: Seq<T>, i: usize) -> T {
    max_upto(s, i as int)
}

/// The running maximum over all of `s`.
pub open spec fn max_of_all<T: PartialOrd>(s: Seq<T>) -> T {
    max_upto(s, s.len() as int)
}

/// The largest element: the first one, replaced by every later one that
/// compares greater than the maximum so far. The slice must not be empty.
pub fn largest<T: PartialOrd + Copy>(list: &[T]) -> (r: T)
    requires
        list@.len() > 0,
    ensures
        list@.contains(r),
        T::obeys_partial_cmp_spec() ==> r == max_of_all(list@),
{
    let mut largest = list[0];
    let mut i: usize = 0;
    while i < list.len()
        invariant
            0 < list@.len(),
            i <= list@.len(),
            list@.contains(largest),
            T::obeys_partial_cmp_spec() ==> largest == max_prefix(list@, i),
        decreases list@.len() - i,
    {
        let item = list[i];
        if item > largest {
            largest = item;
        }
        i = i + 1;
    }
    largest
}

/// A point whose coordinate type the user picks.
#[derive(Debug, Clone, Copy, PartialEq)]
pub struct Point<T> {
    pub x: T,
    pub y: T,
}

impl<T: core::fmt::Display> Point<T> {
    /// `(x, y)`, each coordinate as its `Display` text.
    pub fn show(&self) -> (s: String)
        ensures
            exists|xs: String, ys: String|
                to_string_from_display_ensures::<T>(&self.x, xs) && to_string_from_display_ensures::<T>(&self.y, ys)
                && s@ == "("@ + xs@ + ", "@ + ys@ + ")"@,
    {
        let xs = self.x.to_string();
        let ys = self.y.to_string();
        let mut s = String::from_str("(");
        s.append(xs.as_str());
        s.append(", ");
        s.append(ys.as_str());
        s.append(")");
        s
    }
}

impl<T: Add<Output = T>> Add for Point<T> {
    type Output = Point<T>;

    fn add(self, other: Point<T>) -> (p: Point<T>) {
        Point { x: self.x + other.x, y: self.y + other.y }
    }
}

impl<T: Add<Output = T>> AddSpecImpl for Point<T> {
    open spec fn obeys_add_spec() -> bool {
        T::obeys_add_spec()
    }

    open spec fn add_req(self, rhs: Point<T>) -> bool {
        self.x.add_req(rhs.x) && self.y.add_req(rhs.y)
    }

    open spec fn add_spec(self, rhs: Point<T>) -> Point<T> {
        Point { x: self.x.add_spec(rhs.x), y: self.y.add_spec(rhs.y) }
    }
}

/// Something that can be summarised.
pub trait Summary {
    /// The summary's text.
    spec fn summary_text(&self) -> Seq<char>;

    /// The summary.
    fn summarize(&self) -> (s: String)
        ensures
            s@ == self.summary_text(),
    ;

    /// A preview; by default the summary behind a `[摘要] ` label.
    fn preview(&self) -> (s: String)
        default_ensures
            s@ == "[摘要] "@ + self.summary_text(),
    {
        let mut s = String::from_str("[摘要] ");
        s.append(self.summarize().as_str());
        s
    }
}

/// A news article: keeps the default preview.
pub struct NewsArticle {
    pub title: String,
    pub author: String,
}

impl Summary for NewsArticle {
    open spec fn summary_text(&self) -> Seq<char> {
        "《"@ + self.title@ + "》，作者 "@ + self.author@
    }

    fn summarize(&self) -> (s: String) {
        let mut s = String::from_str("《");
        s.append(self.title.as_str());
        s.append("》，作者 ");
        s.append(self.author.as_str());
        s
    }
}

/// The first `n` characters of `s` (all of them when there are fewer).
pub open spec fn first_chars(s: Seq<char>, n: int) -> Seq<char> {
    if s.len() <= n {
        s
    } else {
        s.take(n)
    }
}

/// A tweet: overrides the preview with the first twelve characters.
pub struct Tweet {
    pub user: String,
    pub content: String,
}

impl Summary for Tweet {
    open spec fn summary_text(&self) -> Seq<char> {
        "@"@ + self.user@ + ": "@ + self.content@
    }

    fn summarize(&self) -> (s: String) {
        let mut s = String::from_str("@");
        s.append(self.user.as_str());
        s.append(": ");
        s.append(self.content.as_str());
        s
    }

    fn preview(&self) -> (s: String)
        ensures
            s@ == "[推文] "@ + first_chars(self.content@, 12) + "..."@,
    {
        let chars = crate::strings::chars_of(self.content.as_str());
        let n: usize = if chars.len() < 12 { chars.len() } else { 12 };
        let mut s = String::from_str("[推文] ");
        crate::strings::push_range(&mut s, &chars, 0, n);
        s.append("...");
        assert(chars@.subrange(0, n as int) =~= first_chars(self.content@, 12));
        s
    }
}

/// The notice text for a preview.
pub fn notice(preview: &str) -> (s: String)
    ensures
        s@ == "通知："@ + preview@,
{
    let mut s = String::from_str("通知：");
    s.append(preview);
    s
}

/// A notice for anything summarisable: `通知：` and its preview.
pub fn notify<S: Summary>(item: &S) -> (s: String)
    ensures
        exists|p: String| call_ensures(S::preview, (item,), p) && s@ == "通知："@ + p@,
{
    let p = item.preview();
    notice(p.as_str())
}

/// The previews of a list of items, in order.
pub fn notify_all<T: Summary>(items: &[T]) -> (notices: Vec<String>)
    ensures
        notices@.len() == items@.len(),
        forall|i: int| 0 <= i < items@.len() ==> call_ensures(T::preview, (&items@[i],), #[trigger] notices@[i]),
{
    let mut notices: Vec<String> = Vec::new();
    let mut i: usize = 0;
    while i < items.len()
        invariant
            i <= items@.len(),
            notices@.len() == i,
            forall|k: int| 0 <= k < i ==> call_ensures(T::preview, (&items@[k],), #[trigger] notices@[k]),
        decreases items@.len() - i,
    {
        notices.push(items[i].preview());
        i = i + 1;
    }
    notices
}

/// A preview and a displayed value side by side: `preview / value`.
pub fn describe_pair<A, B>(a: &A, b: &B) -> (s: String)
    where
        A: Summary,
        B: core::fmt::Display,
    ensures
        exists|p: String, ds: String| call_ensures(A::preview, (a,), p) && to_string_from_display_ensures::<B>(b, ds)
            && s@ == p@ + " / "@ + ds@,
{
    let mut s = a.preview();
    let ghost p = s;
    let ds = b.to_string();
    s.append(" / ");
    s.append(ds.as_str());
    s
}

/// An article about Rust's ownership, by Ada, known only as a `Summary`.
pub fn make_article() -> (a: impl Summary)
    ensures
        a.summary_text() == "《"@ + "Rust 所有权"@ + "》，作者 "@ + "Ada"@,
{
    NewsArticle { title: String::from_str("Rust 所有权"), author: String::from_str("Ada") }
}

} // verus!
