//! The primitive library: allocation, bulk moves, casts, lane masks and
//! swizzles, argument parsing, and the accelerator interface boundary.

use scan::support::ICast;
use scan::support::ITop;
use scan::support::IZero;

#[test]
fn test_alloc_vec_filled() {
    let v = scan::support::alloc_vec(5, 7i64);
    assert_eq!(v, vec![7, 7, 7, 7, 7]);
    let empty = scan::support::alloc_vec(0, 1i64);
    assert!(empty.is_empty());
}

#[test]
fn test_alloc_aligned_filled() {
    let v = scan::support::alloc_aligned(3, -2i64);
    assert_eq!(v, vec![-2, -2, -2]);
}

#[test]
fn test_clamp_range() {
    let v_in: Vec<i64> = vec![-10, 0, 5, 99];
    let mut v_out: Vec<i64> = vec![0; 4];
    assert!(scan::support::clamp(4, &v_in, &mut v_out, -1, 50).is_ok());
    assert_eq!(v_out, vec![-1, 0, 5, 50]);
}

#[test]
fn test_concat_exact_and_oversized() {
    let a: Vec<i64> = vec![1, 2];
    let b: Vec<i64> = vec![3];
    let mut dst: Vec<i64> = vec![0; 3];
    assert!(scan::support::concat(&a, &b, &mut dst).is_ok());
    assert_eq!(dst, vec![1, 2, 3]);
    let mut too_large: Vec<i64> = vec![0; 4];
    assert!(scan::support::concat(&a, &b, &mut too_large).is_err());
}

#[test]
fn test_copy_whole() {
    let src: Vec<i64> = vec![4, 5, 6];
    let mut dst: Vec<i64> = vec![0; 3];
    assert!(scan::support::copy(&src, &mut dst).is_ok());
    assert_eq!(dst, vec![4, 5, 6]);
}

#[test]
fn test_casts() {
    let x: i64 = -12345;
    let y: i32 = x.cast();
    assert_eq!(y, -12345);
    let z: i64 = y.cast();
    assert_eq!(z, -12345);
    assert_eq!(<i64 as ITop>::top(), i64::MAX);
    assert_eq!(<usize as ITop>::top(), usize::MAX);
    assert_eq!(<i64 as IZero>::zero(), 0);
    assert_eq!(<usize as IZero>::zero(), 0);
}

#[test]
fn test_copy_casted_narrow_and_widen() {
    let src: Vec<i64> = vec![1, -2, 3];
    let mut dst: Vec<i32> = vec![0; 4];
    assert!(scan::support::copy_casted(&src, &mut dst).is_ok());
    assert_eq!(dst, vec![1, -2, 3, 0]);
    let src32: Vec<i32> = vec![-7, 8];
    let mut dst64: Vec<i64> = vec![0; 2];
    assert!(scan::support::copy_casted(&src32, &mut dst64).is_ok());
    assert_eq!(dst64, vec![-7, 8]);
}

#[test]
fn test_rotate_right_by_one() {
    let src: Vec<i64> = vec![1, 2, 3, 4, 5];
    let mut dst: Vec<i64> = vec![0; 4];
    assert!(scan::support::rotate_right(4, &src, &mut dst).is_ok());
    assert_eq!(dst, vec![5, 1, 2, 3]);
}

#[test]
fn test_swizzle_gather() {
    let src: Vec<i64> = vec![10, 20, 30, 40];
    let indices: Vec<usize> = vec![3, 0, 9, 1];
    let r = scan::support::swizzle(-1, &src, &indices, 4);
    assert_eq!(r, vec![40, 10, -1, 20]);
    let r = scan::lanes::swizzle_simd(-1, &src, &indices, 4);
    assert_eq!(r, vec![40, 10, -1, 20]);
}

#[test]
fn test_ceil_log2_values() {
    assert_eq!(scan::support::ceil_log2(0), 0);
    assert_eq!(scan::support::ceil_log2(1), 0);
    assert_eq!(scan::support::ceil_log2(2), 1);
    assert_eq!(scan::support::ceil_log2(8), 3);
    assert_eq!(scan::support::ceil_log2(15), 4);
    assert_eq!(scan::support::ceil_log2(16), 4);
    assert_eq!(scan::support::ceil_log2(100), 7);
}

#[test]
fn test_div_ceil_values() {
    assert_eq!(scan::support::div_ceil(0, 4), 0);
    assert_eq!(scan::support::div_ceil(1, 4), 1);
    assert_eq!(scan::support::div_ceil(8, 4), 2);
    assert_eq!(scan::support::div_ceil(9, 4), 3);
}

#[test]
fn test_new_mask_variants() {
    let bits: Vec<bool> = vec![true, false, true];
    let m = scan::lanes::new_mask(&bits, 5);
    assert_eq!(m, vec![true, false, true, false, false]);
    let values: Vec<usize> = vec![2, 5, 9];
    let m = scan::lanes::new_mask_pred(&values, 3, 9, 4);
    assert_eq!(m, vec![false, true, false, false]);
    let m = scan::lanes::new_mask_pred_simd(&values, 2, 6);
    assert_eq!(m, vec![true, true, false]);
    assert_eq!(scan::lanes::new_mask_all_off(3), vec![false, false, false]);
    assert_eq!(scan::lanes::new_mask_all_on(2), vec![true, true]);
}

#[test]
fn test_copy_simd_prefix() {
    let src: Vec<i64> = vec![1, 2, 3, 4, 5];
    let mut dst: Vec<i64> = vec![9; 5];
    assert!(scan::lanes::copy_simd(3, 0, &src, &mut dst, 2).is_ok());
    assert_eq!(dst, vec![1, 2, 3, 9, 9]);
}

#[test]
fn test_copy_in_range_simd_masked() {
    let src: Vec<i64> = vec![1, 2, 3, 4, 5, 6];
    let mut dst: Vec<i64> = vec![9; 6];
    // Destination range [1, 5), source range [0, 3): inside both, elements
    // copy; inside the destination range alone, the default lands.
    assert!(
        scan::lanes::copy_in_range_simd_masked(6, -1, &src, &mut dst, 0, 3, 1, 5, 2).is_ok()
    );
    assert_eq!(dst, vec![9, 2, 3, -1, -1, 9]);
}

#[test]
fn test_copy_swizzle_simd_chunks() {
    let src: Vec<i64> = vec![10, 20, 30, 40];
    let indices: Vec<usize> = vec![1, 0, 5, 0];
    let mut dst: Vec<i64> = vec![0; 4];
    // Chunks of two: the second chunk gathers from its own lanes, and an
    // index past the lane width yields the default.
    assert!(scan::lanes::copy_swizzle_simd(4, -1, &src, &mut dst, &indices, 2).is_ok());
    assert_eq!(dst, vec![20, 10, -1, 30]);
}

#[test]
fn test_parse_vec_success() {
    let args: Vec<String> = vec!["3".to_string(), "-17".to_string(), "0".to_string()];
    let r = scan::parse::parse_vec(&args, i64::MIN);
    assert_eq!(r, Ok(vec![3, -17, 0]));
}

#[test]
fn test_parse_vec_rejects_garbage() {
    let args: Vec<String> = vec!["3".to_string(), "seven".to_string()];
    let r = scan::parse::parse_vec(&args, i64::MIN);
    assert_eq!(r, Err("Failed to parse integer(s) from arguments"));
}

#[test]
fn test_device_input_rotation_and_range() {
    let v: Vec<i64> = vec![7, 8, 9];
    let g = scan::par_gpu_naive_dbl::Scan::device_input(0, &v).expect("values fit the device");
    assert_eq!(g, vec![0, 7, 8]);
    let too_large: Vec<i64> = vec![i64::MAX, 1, 2];
    assert!(scan::par_gpu_naive_dbl::Scan::device_input(0, &too_large).is_none());
    let empty: Vec<i64> = Vec::new();
    assert_eq!(scan::par_gpu_naive_dbl::Scan::device_input(0, &empty), Some(Vec::new()));
}

#[test]
fn test_device_output_parity_selection() {
    let data_a: Vec<i32> = vec![1, 2, 3];
    let data_b: Vec<i32> = vec![4, 5, 6];
    let mut out: Vec<i64> = vec![0; 3];
    assert!(
        scan::par_gpu_naive_dbl::Scan::device_output(3, &data_a, &data_b, &mut out).is_ok()
    );
    assert_eq!(out, vec![1, 2, 3]);
    assert!(
        scan::par_gpu_naive_dbl::Scan::device_output(4, &data_a, &data_b, &mut out).is_ok()
    );
    assert_eq!(out, vec![4, 5, 6]);
}
