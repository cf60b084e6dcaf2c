use rust_learn::rust25_unsafe_ffi::{
    first_or_zero, read_at, safe_divide, BufferView, ERR_DIVIDE,
};
use rust_learn::{checksum, multiply, sum_bytes, ERR_NULL, ERR_TOO_LONG, MAX_BYTES};

#[test]
fn multiply_saturates_instead_of_panicking() {
    assert_eq!(multiply(6, 7), 42);
    assert_eq!(multiply(i32::MAX, 2), i32::MAX);
    assert_eq!(multiply(i32::MIN, 2), i32::MIN);
}

#[test]
fn sum_and_checksum_follow_the_null_and_length_contract() {
    let bytes = [1_u8, 2, 3];
    assert_eq!(sum_bytes(Some(&bytes), bytes.len()), 6);
    assert_eq!(checksum(Some(&bytes), bytes.len()), 6);

    assert_eq!(sum_bytes(None, 0), 0);
    assert_eq!(sum_bytes(None, 1), ERR_NULL);
    assert_eq!(checksum(None, 1), 0);

    assert_eq!(sum_bytes(Some(&bytes), MAX_BYTES + 1), ERR_TOO_LONG);
    assert_eq!(checksum(Some(&bytes), MAX_BYTES + 1), 0);
}

#[test]
fn safe_wrapper_handles_empty_and_non_empty_slices() {
    assert_eq!(first_or_zero(&[]), 0);
    assert_eq!(first_or_zero(&[7, 8]), 7);
}

#[test]
fn read_at_covers_every_boundary() {
    let values = [10, 20, 30];
    assert_eq!(read_at(&values, 0), Some(10));
    assert_eq!(read_at(&values, 2), Some(30));
    assert_eq!(read_at(&values, 3), None);
    assert_eq!(read_at(&[], 0), None);
}

#[test]
fn buffer_view_roundtrips_and_keeps_c_layout() {
    let bytes = [1_u8, 2, 3];
    let view = BufferView::from_slice(&bytes);
    assert_eq!(view.len, 3);
    assert_eq!(view.as_slice(), &bytes);
    assert!(BufferView::from_slice(&[]).as_slice().is_empty());
}

#[test]
fn exported_api_follows_the_null_and_length_contract() {
    let bytes = [1_u8, 2, 3];
    assert_eq!(sum_bytes(Some(&bytes), bytes.len()), 6);
    assert_eq!(sum_bytes(None, 0), 0);
    assert_eq!(sum_bytes(None, 4), ERR_NULL);
    assert_eq!(sum_bytes(Some(&bytes), MAX_BYTES + 1), ERR_TOO_LONG);
    assert_eq!(checksum(Some(&bytes), bytes.len()), 6);
}

#[test]
fn panic_is_converted_to_an_error_code() {
    assert_eq!(safe_divide(10, 2), 5);
    assert_eq!(safe_divide(1, 0), ERR_DIVIDE);
    assert_eq!(safe_divide(7, 1), 7);
}

#[test]
fn division_truncates_toward_zero_and_refuses_overflow() {
    assert_eq!(safe_divide(-7, 2), -3);
    assert_eq!(safe_divide(7, -2), -3);
    assert_eq!(safe_divide(i32::MIN, -1), ERR_DIVIDE);
    assert_eq!(safe_divide(i32::MIN, 1), i32::MIN);
}

#[test]
fn multiply_clamps_both_signs() {
    assert_eq!(multiply(i32::MIN, -1), i32::MAX);
    assert_eq!(multiply(-3, 5), -15);
    assert_eq!(multiply(65536, 65536), i32::MAX);
}

#[test]
fn sums_read_only_the_first_len_bytes() {
    let bytes = [200_u8, 100, 50, 25];
    assert_eq!(sum_bytes(Some(&bytes), 2), 300);
    assert_eq!(checksum(Some(&bytes), 0), 0);
    let view = BufferView { data: &bytes, len: 2 };
    assert_eq!(view.as_slice(), &[200, 100]);
}
