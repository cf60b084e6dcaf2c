//! Smart pointers: a recursive list through `Box`, and a wrapper that
//! dereferences to what it holds.
use vstd::prelude::*;
use core::ops::Deref;

verus! {

/// A cons list: `Box` gives the recursive type a known size.
#[derive(Debug)]
pub enum List {
    Cons(i32, Box<List>),
    Nil,
}

impl List {
    /// The values from the head to the tail.
    pub open spec fn values(self) -> Seq<i32>
        decreases self,
    {
        match self {
            List::Cons(v, next) => seq![v] + next.values(),
            List::Nil => seq![],
        }
    }

    /// The empty list.
    pub fn new() -> (l: Self)
        ensures
            l.values() == Seq::<i32>::empty(),
    {
        List::Nil
    }

    /// Puts `value` in front; the old list becomes the tail.
    pub fn push(self, value: i32) -> (l: Self)
        ensures
            l.values() == seq![value] + self.values(),
    {
        List::Cons(value, Box::new(self))
    }

    /// The sum of the values, added from the tail up: every partial sum
    /// must fit `i32`.
    pub fn sum(&self) -> (s: i32)
        requires
            forall|k: int| 0 <= k <= self.values().len() ==> i32::MIN <= #[trigger] total(self.values().skip(k)) <= i32::MAX,
        ensures
            s == total(self.values()),
        decreases self,
    {
        match self {
            List::Cons(value, next) => {
                proof {
                    assert forall|k: int| 0 <= k <= next.values().len() implies i32::MIN <= #[trigger] total(next.values().skip(k)) <= i32::MAX by {
                        assert(self.values().skip(k + 1) =~= next.values().skip(k));
                    }
                    assert(self.values().skip(0) =~= self.values());
                    assert(next.values().skip(0) =~= next.values());
                    assert(self.values().drop_first() =~= next.values());
                    assert(i32::MIN <= total(self.values().skip(0)) <= i32::MAX);
                    assert(total(self.values()) == *value + total(next.values()));
                }
                let rest = next.sum();
                *value + rest
            },
            List::Nil => 0,
        }
    }

    /// The values as a vector, head first.
    pub fn to_vec(&self) -> (v: Vec<i32>)
        ensures
            v@ == self.values(),
        decreases self,
    {
        match self {
            List::Cons(value, next) => {
                let mut rest = next.to_vec();
                rest.insert(0, *value);
                assert(rest@ =~= self.values());
                rest
            },
            List::Nil => Vec::new(),
        }
    }
}

/// The sum of a sequence, first element plus the sum of the rest.
pub open spec fn total(s: Seq<i32>) -> int
    decreases s.len(),
{
    if s.len() == 0 {
        0
    } else {
        s[0] + total(s.drop_first())
    }
}

/// A hand-made smart pointer: dereferencing it reaches the value it holds.
pub struct Wrapper<T> {
    pub value: T,
}

impl<T> Deref for Wrapper<T> {
    type Target = T;

    fn deref(&self) -> (r: &T)
        ensures
            *r == self.value,
    {
        &self.value
    }
}

} // verus!
