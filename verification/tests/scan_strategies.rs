//! Every implemented strategy against the same concrete inputs and the same
//! expected exclusive prefix sums.

use scan::scan::ImplKind;

fn n8_1_in() -> Vec<i64> {
    vec![3, 1, 7, 0, 4, 1, 6, 3]
}

fn n8_1_out() -> Vec<i64> {
    vec![0, 3, 4, 11, 11, 15, 16, 22]
}

fn n15_1_in() -> Vec<i64> {
    vec![18, 12, 18, 0, 19, 10, 7, 17, 0, 1, 8, 17, 18, 17, 9]
}

fn n15_1_out() -> Vec<i64> {
    vec![0, 18, 30, 48, 48, 67, 77, 84, 101, 101, 102, 110, 127, 145, 162]
}

fn n16_1_in() -> Vec<i64> {
    vec![2, 2, 4, 8, 15, 12, 4, 19, 8, 11, 15, 12, 9, 17, 14, 15]
}

fn n16_1_out() -> Vec<i64> {
    vec![0, 2, 4, 8, 16, 31, 43, 47, 66, 74, 85, 100, 112, 121, 138, 152]
}

fn n100_1_in() -> Vec<i64> {
    vec![
        0, 13, 6, 18, 19, 9, 3, 8, 2, 6, 12, 13, 7, 2, 9, 17, 8, 9, 0, 14, 5, 18, 10, 12, 5, 16,
        2, 10, 5, 5, 13, 8, 12, 18, 1, 3, 2, 10, 13, 9, 11, 19, 2, 2, 18, 12, 2, 9, 14, 9, 0, 8,
        14, 15, 16, 2, 7, 2, 2, 15, 13, 3, 11, 16, 7, 15, 15, 20, 1, 10, 18, 13, 1, 4, 18, 8, 19,
        3, 8, 20, 3, 9, 14, 4, 20, 11, 0, 8, 6, 4, 3, 19, 3, 18, 13, 0, 2, 13, 11, 11,
    ]
}

fn n100_1_out() -> Vec<i64> {
    vec![
        0, 0, 13, 19, 37, 56, 65, 68, 76, 78, 84, 96, 109, 116, 118, 127, 144, 152, 161, 161, 175,
        180, 198, 208, 220, 225, 241, 243, 253, 258, 263, 276, 284, 296, 314, 315, 318, 320, 330,
        343, 352, 363, 382, 384, 386, 404, 416, 418, 427, 441, 450, 450, 458, 472, 487, 503, 505,
        512, 514, 516, 531, 544, 547, 558, 574, 581, 596, 611, 631, 632, 642, 660, 673, 674, 678,
        696, 704, 723, 726, 734, 754, 757, 766, 780, 784, 804, 815, 815, 823, 829, 833, 836, 855,
        858, 876, 889, 889, 891, 904, 915,
    ]
}

fn test_body(impl_id: i8, impl_str: &str, v_in: &[i64], v_out: &[i64]) {
    let kind = ImplKind::from_id(impl_id).expect("valid implementation id");
    assert_eq!(kind.name(), impl_str);
    let input: Vec<i64> = v_in.to_vec();
    let mut output: Vec<i64> = vec![0; v_in.len()];
    let result = if kind.is_simd() {
        kind.dispatch_simd(0, &input, &mut output, false, 4)
    } else if kind.is_parallel() {
        kind.dispatch_parallel(0, &input, &mut output, false, 4)
    } else {
        kind.dispatch(0, &input, &mut output, false)
    };
    assert!(result.is_ok());
    assert_eq!(output, v_out.to_vec());
}

#[test]
fn test_par_cpu_naive_2x_n8_1() {
    test_body(4, "ScanParCPUNaive2x", &n8_1_in(), &n8_1_out());
}

#[test]
fn test_par_cpu_naive_2x_n15_1() {
    test_body(4, "ScanParCPUNaive2x", &n15_1_in(), &n15_1_out());
}

#[test]
fn test_par_cpu_naive_2x_n16_1() {
    test_body(4, "ScanParCPUNaive2x", &n16_1_in(), &n16_1_out());
}

#[test]
fn test_par_cpu_naive_2x_n100_1() {
    test_body(4, "ScanParCPUNaive2x", &n100_1_in(), &n100_1_out());
}

#[test]
fn test_seq_n8_1() {
    test_body(0, "ScanSeq", &n8_1_in(), &n8_1_out());
}

#[test]
fn test_seq_n15_1() {
    test_body(0, "ScanSeq", &n15_1_in(), &n15_1_out());
}

#[test]
fn test_seq_n16_1() {
    test_body(0, "ScanSeq", &n16_1_in(), &n16_1_out());
}

#[test]
fn test_seq_n100_1() {
    test_body(0, "ScanSeq", &n100_1_in(), &n100_1_out());
}

#[test]
fn test_seq_naive_n8_1() {
    test_body(1, "ScanSeqNaive", &n8_1_in(), &n8_1_out());
}

#[test]
fn test_seq_naive_n15_1() {
    test_body(1, "ScanSeqNaive", &n15_1_in(), &n15_1_out());
}

#[test]
fn test_seq_naive_n16_1() {
    test_body(1, "ScanSeqNaive", &n16_1_in(), &n16_1_out());
}

#[test]
fn test_seq_naive_n100_1() {
    test_body(1, "ScanSeqNaive", &n100_1_in(), &n100_1_out());
}

#[test]
fn test_seq_naive_2x_n8_1() {
    test_body(2, "ScanSeqNaive2x", &n8_1_in(), &n8_1_out());
}

#[test]
fn test_seq_naive_2x_n15_1() {
    test_body(2, "ScanSeqNaive2x", &n15_1_in(), &n15_1_out());
}

#[test]
fn test_seq_naive_2x_n16_1() {
    test_body(2, "ScanSeqNaive2x", &n16_1_in(), &n16_1_out());
}

#[test]
fn test_seq_naive_2x_n100_1() {
    test_body(2, "ScanSeqNaive2x", &n100_1_in(), &n100_1_out());
}

#[test]
fn test_simd_naive_2x_n8_1() {
    test_body(3, "ScanSimdNaive2x", &n8_1_in(), &n8_1_out());
}

#[test]
fn test_simd_naive_2x_n15_1() {
    test_body(3, "ScanSimdNaive2x", &n15_1_in(), &n15_1_out());
}

#[test]
fn test_simd_naive_2x_n16_1() {
    test_body(3, "ScanSimdNaive2x", &n16_1_in(), &n16_1_out());
}

#[test]
fn test_simd_naive_2x_n100_1() {
    test_body(3, "ScanSimdNaive2x", &n100_1_in(), &n100_1_out());
}
