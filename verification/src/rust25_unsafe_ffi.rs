//! Safe wrappers around what is unsafe in C-style code: bounds checked
//! before a read, a borrowed byte view, and division that reports an error
//! code instead of panicking.
use vstd::prelude::*;

pub use crate::{checksum, multiply, sum_bytes, ERR_NULL, ERR_TOO_LONG, MAX_BYTES};

verus! {

/// Error code: the divisor is 0.
pub const ERR_DIVIDE: i32 = -3;

/// The first byte, or 0 for an empty slice.
pub fn first_or_zero(bytes: &[u8]) -> (r: u8)
    ensures
        r == (if bytes@.len() == 0 { 0u8 } else { bytes@[0] }),
{
    if bytes.len() == 0 {
        0
    } else {
        bytes[0]
    }
}

/// The value at `index`, or `None` past the end.
pub fn read_at(values: &[i32], index: usize) -> (r: Option<i32>)
    ensures
        r == (if index < values@.len() { Some(values@[index as int]) } else { None }),
{
    if index >= values.len() {
        return None;
    }
    Some(values[index])
}

/// A read-only view of bytes in the shape of C's
/// `struct { const uint8_t *data; size_t len; }`.
#[derive(Debug, Clone, Copy)]
pub struct BufferView<'a> {
    /// Where the bytes start.
    pub data: &'a [u8],
    /// How many bytes the view covers.
    pub len: usize,
}

impl<'a> BufferView<'a> {
    /// Borrows a slice as a view, without copying it.
    pub fn from_slice(bytes: &'a [u8]) -> (v: Self)
        ensures
            v.data@ == bytes@,
            v.len == bytes@.len(),
    {
        BufferView { data: bytes, len: bytes.len() }
    }

    /// The bytes the view covers; an empty view reads nothing.
    pub fn as_slice(&self) -> (r: &'a [u8])
        requires
            self.len <= self.data@.len(),
        ensures
            r@ == self.data@.take(self.len as int),
    {
        if self.len == 0 {
            return &[];
        }
        &self.data[0..self.len]
    }
}

/// Integer division as C's `int` division: the quotient rounded toward zero.
pub open spec fn c_quotient(left: int, right: int) -> int
    recommends
        right != 0,
{
    let q = (if left >= 0 { left } else { -left }) / (if right >= 0 { right } else { -right });
    if (left >= 0) == (right >= 0) {
        q
    } else {
        -q
    }
}

/// Division whose misuse panics: the divisor must not be 0, and the
/// quotient must fit (`i32::MIN / -1` does not).
fn divide_strict(left: i32, right: i32) -> (r: i32)
    requires
        right != 0,
        !(left == i32::MIN && right == -1),
    ensures
        r == c_quotient(left as int, right as int),
{
    let l: i64 = if left >= 0 { left as i64 } else { -(left as i64) };
    let d: i64 = if right >= 0 { right as i64 } else { -(right as i64) };
    let q: i64 = l / d;
    assert(q <= l) by (nonlinear_arith)
        requires
            q == l / d,
            l >= 0,
            d >= 1,
    ;
    if (left >= 0) == (right >= 0) {
        proof {
            if left == i32::MIN {
                assert(d >= 2);
                assert(q <= l / 2) by (nonlinear_arith)
                    requires
                        q == l / d,
                        l >= 0,
                        d >= 2,
                ;
            }
        }
        q as i32
    } else {
        (-q) as i32
    }
}

/// Division for C callers: the quotient when it exists, [`ERR_DIVIDE`]
/// where the division itself would panic (a zero divisor, or an overflowing
/// `i32::MIN / -1`).
pub fn safe_divide(left: i32, right: i32) -> (r: i32)
    ensures
        right == 0 || (left == i32::MIN && right == -1) ==> r == ERR_DIVIDE,
        right != 0 && !(left == i32::MIN && right == -1) ==> r == c_quotient(left as int, right as int),
{
    if right == 0 || (left == i32::MIN && right == -1) {
        ERR_DIVIDE
    } else {
        divide_strict(left, right)
    }
}

} // verus!
