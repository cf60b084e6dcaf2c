//! Companion code for a thirty-chapter Rust course, as a verified library.
//!
//! The crate root holds the C-ABI style exports (saturating multiplication,
//! byte sums and checksums with an explicit null/length contract); each
//! chapter's logic lives in a module of its own.
use vstd::prelude::*;

pub mod strings;
pub mod command_line;
pub mod rust03_functions;
pub mod rust04_control_flow;
pub mod rust05_ownership;
pub mod rust06_structs_enums;
pub mod rust07_collections;
pub mod rust08_errors;
pub mod rust09_generics_traits;
pub mod rust10_lifetimes;
pub mod rust11_closures_iterators;
pub mod rust12_smart_pointers;
pub mod rust14_modules_tests;
pub mod rust16_async;
pub mod rust18_text;
pub mod rust20_serde;
pub mod rust21_cli;
pub mod rust22_network;
pub mod rust23_testing;
pub mod rust24_cargo;
pub mod rust25_unsafe_ffi;
pub mod rust26_database;
pub mod rust27_app;
pub mod rust28_ops;
pub mod rust29_typesystem;

verus! {

/// Largest input length accepted by [`sum_bytes`] and [`checksum`].
pub const MAX_BYTES: usize = 1048576;

/// Error code: no data was given, but the length is not zero.
pub const ERR_NULL: i32 = -1;

/// Error code: the length exceeds [`MAX_BYTES`].
pub const ERR_TOO_LONG: i32 = -2;

/// `left * right`, clamped to the `i32` range instead of overflowing.
pub open spec fn saturated_product(left: int, right: int) -> int {
    let p = left * right;
    if p > i32::MAX {
        i32::MAX as int
    } else if p < i32::MIN {
        i32::MIN as int
    } else {
        p
    }
}

/// Multiplies, saturating at the bounds of `i32` rather than panicking.
pub fn multiply(left: i32, right: i32) -> (r: i32)
    ensures
        r == saturated_product(left as int, right as int),
{
    let l: i64 = left as i64;
    let rr: i64 = right as i64;
    assert(-2147483648 * 2147483648 <= l * rr <= 2147483648 * 2147483648) by (nonlinear_arith)
        requires
            -2147483648 <= l <= 2147483647,
            -2147483648 <= rr <= 2147483647,
    ;
    let p: i64 = l * rr;
    if p > i32::MAX as i64 {
        i32::MAX
    } else if p < i32::MIN as i64 {
        i32::MIN
    } else {
        p as i32
    }
}

/// The sum of a sequence of bytes.
pub open spec fn byte_sum(s: Seq<u8>) -> int
    decreases s.len(),
{
    if s.len() == 0 {
        0
    } else {
        byte_sum(s.drop_last()) + s.last()
    }
}

proof fn lemma_byte_sum_bound(s: Seq<u8>)
    ensures
        0 <= byte_sum(s) <= 255 * s.len(),
    decreases s.len(),
{
    if s.len() > 0 {
        lemma_byte_sum_bound(s.drop_last());
    }
}

/// What a caller may hand over: with data, at least `len` readable bytes,
/// unless the length is already over the limit.
pub open spec fn readable(data: Option<&[u8]>, len: usize) -> bool {
    match data {
        Some(bytes) => len <= MAX_BYTES ==> len <= bytes@.len(),
        None => true,
    }
}

/// Sums the first `len` bytes of `bytes` (at most `MAX_BYTES` of them).
fn sum_prefix(bytes: &[u8], len: usize) -> (r: u32)
    requires
        len <= bytes@.len(),
        len <= MAX_BYTES,
    ensures
        r == byte_sum(bytes@.take(len as int)),
{
    let mut total: u32 = 0;
    let mut i: usize = 0;
    while i < len
        invariant
            i <= len <= bytes@.len(),
            len <= MAX_BYTES,
            total == byte_sum(bytes@.take(i as int)),
        decreases len - i,
    {
        proof {
            assert(bytes@.take(i + 1).drop_last() =~= bytes@.take(i as int));
            lemma_byte_sum_bound(bytes@.take(i as int));
        }
        total = total + bytes[i] as u32;
        i = i + 1;
    }
    total
}

/// Sums bytes, reporting misuse as a negative error code: no data with a
/// non-zero length gives [`ERR_NULL`], a length over [`MAX_BYTES`] gives
/// [`ERR_TOO_LONG`]; no data with length 0 sums to 0.
pub fn sum_bytes(data: Option<&[u8]>, len: usize) -> (r: i32)
    requires
        readable(data, len),
    ensures
        data is None ==> r == (if len == 0 { 0 } else { ERR_NULL }),
        data is Some && len > MAX_BYTES ==> r == ERR_TOO_LONG,
        data is Some && len <= MAX_BYTES ==> r == byte_sum(data->0@.take(len as int)),
{
    match data {
        None => {
            if len == 0 {
                0
            } else {
                ERR_NULL
            }
        },
        Some(bytes) => {
            if len > MAX_BYTES {
                return ERR_TOO_LONG;
            }
            proof {
                lemma_byte_sum_bound(bytes@.take(len as int));
            }
            sum_prefix(bytes, len) as i32
        },
    }
}

/// A 32-bit checksum with the same contract as [`sum_bytes`], except that
/// every misuse gives 0.
pub fn checksum(data: Option<&[u8]>, len: usize) -> (r: u32)
    requires
        readable(data, len),
    ensures
        (data is None || len > MAX_BYTES) ==> r == 0,
        data is Some && len <= MAX_BYTES ==> r == byte_sum(data->0@.take(len as int)),
{
    match data {
        None => 0,
        Some(bytes) => {
            if len > MAX_BYTES {
                0
            } else {
                sum_prefix(bytes, len)
            }
        },
    }
}

} // verus!
