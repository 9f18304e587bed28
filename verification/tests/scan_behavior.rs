//! Boundary behavior, the error taxonomy, cross-strategy and chunk-size
//! agreement, and the parity of the double-buffer mode.

use scan::scan::ImplKind;
use scan::support::DoubleBufferMode;
use scan::support::IScan;
use scan::support::ScanError;
use scan::par_cpu_naive_dbl::WorkGroup;
use scan::par_cpu_naive_dbl::WorkStatus;
use scan::par_cpu_naive_dbl::WorkerAction;

fn run_strategy(impl_id: i8, identity: i64, input: &[i64], output: &mut Vec<i64>) -> Result<(), ScanError> {
    let kind = ImplKind::from_id(impl_id).expect("valid implementation id");
    let input: Vec<i64> = input.to_vec();
    if kind.is_simd() {
        kind.dispatch_simd(identity, &input, output, false, 4)
    } else if kind.is_parallel() {
        kind.dispatch_parallel(identity, &input, output, false, 4)
    } else {
        kind.dispatch(identity, &input, output, false)
    }
}

#[test]
fn test_empty_input_yields_empty_output() {
    for impl_id in [0i8, 1, 2, 3, 4] {
        let mut output: Vec<i64> = Vec::new();
        let result = run_strategy(impl_id, 0, &[], &mut output);
        assert!(result.is_ok());
        assert!(output.is_empty());
    }
}

#[test]
fn test_length_mismatch_fails_every_strategy() {
    for impl_id in [0i8, 1, 2, 3, 4] {
        let mut output: Vec<i64> = vec![0; 2];
        let result = run_strategy(impl_id, 0, &[1, 2, 3], &mut output);
        assert_eq!(result, Err(ScanError::ArgumentMismatch));
        assert_eq!(output, vec![0, 0]);
    }
}

#[test]
fn test_parallel_capacity_exceeded() {
    let n = scan::par_cpu_naive_dbl::BUFFER_CAPACITY + 1;
    let input: Vec<i64> = vec![1; n];
    let mut output: Vec<i64> = vec![0; n];
    let kind = ImplKind::ParallelCPUNaiveDoubleBuffer;
    let result = kind.dispatch_parallel(0, &input, &mut output, false, 64);
    assert_eq!(result, Err(ScanError::CapacityExceeded));
}

#[test]
fn test_unimplemented_strategy_error() {
    let input: Vec<i64> = vec![1, 2];
    // The scalar dispatcher has no algorithm for the pool kinds, and the
    // parallel dispatcher none for the accelerator kind.
    let mut output: Vec<i64> = vec![0; 2];
    let r = ImplKind::ParallelCPUNaiveDoubleBuffer.dispatch(0, &input, &mut output, false);
    assert_eq!(r, Err(ScanError::UnimplementedStrategy));
    let r = ImplKind::ParallelGPUNaiveDoubleBuffer.dispatch_parallel(0, &input, &mut output, false, 4);
    assert_eq!(r, Err(ScanError::UnimplementedStrategy));
    let r = ImplKind::Sequential.dispatch_simd(0, &input, &mut output, false, 4);
    assert_eq!(r, Err(ScanError::UnimplementedStrategy));
}

#[test]
fn test_cross_strategy_agreement() {
    let input: Vec<i64> = vec![5, -3, 12, 0, -7, 9, 1, 1, 4, -2, 6];
    let mut baseline: Vec<i64> = vec![0; input.len()];
    assert!(run_strategy(0, 2, &input, &mut baseline).is_ok());
    for impl_id in [1i8, 2, 3, 4] {
        let mut output: Vec<i64> = vec![0; input.len()];
        assert!(run_strategy(impl_id, 2, &input, &mut output).is_ok());
        assert_eq!(output, baseline);
    }
}

#[test]
fn test_parallel_chunk_size_independence() {
    let input: Vec<i64> = vec![9, 1, 4, 4, 2, 8, 5, 7, 1, 0, 3, 6, 2];
    let kind = ImplKind::ParallelCPUNaiveDoubleBuffer;
    let mut baseline: Vec<i64> = vec![0; input.len()];
    assert!(kind.dispatch_parallel(0, &input, &mut baseline, false, 1).is_ok());
    for chunk in [2usize, 3, 4, 5, 13, 64] {
        let mut output: Vec<i64> = vec![0; input.len()];
        assert!(kind.dispatch_parallel(0, &input, &mut output, false, chunk).is_ok());
        assert_eq!(output, baseline);
    }
}

#[test]
fn test_exclusive_scan_law_concrete() {
    // output[k] == sum of input[0..k), and output[0] == identity.
    let input: Vec<i64> = vec![4, -1, 3, 3];
    let mut output: Vec<i64> = vec![9; 4];
    assert!(run_strategy(0, 0, &input, &mut output).is_ok());
    assert_eq!(output, vec![0, 4, 3, 6]);
}

#[test]
fn test_nonzero_identity() {
    let input: Vec<i64> = vec![1, 2, 3];
    for impl_id in [0i8, 1, 2, 3, 4] {
        let mut output: Vec<i64> = vec![0; 3];
        assert!(run_strategy(impl_id, 10, &input, &mut output).is_ok());
        assert_eq!(output, vec![10, 11, 13]);
    }
}

#[test]
fn test_seq_naive_descending_order_all_ones() {
    // The in-place tree scan depends on its descending index order; with an
    // all-ones input an ascending update would double already-updated values
    // instead of producing 0, 1, 2, ...
    let input: Vec<i64> = vec![1; 8];
    let mut output: Vec<i64> = vec![0; 8];
    assert!(run_strategy(1, 0, &input, &mut output).is_ok());
    assert_eq!(output, vec![0, 1, 2, 3, 4, 5, 6, 7]);
}

#[test]
fn test_double_buffer_parity_odd_and_even_depths() {
    // n = 8 runs three depths (odd), n = 16 runs four (even); the
    // double-buffered strategies must select the correct final buffer in
    // both cases.
    let input8: Vec<i64> = vec![3, 1, 7, 0, 4, 1, 6, 3];
    let expected8: Vec<i64> = vec![0, 3, 4, 11, 11, 15, 16, 22];
    let input16: Vec<i64> = vec![2, 2, 4, 8, 15, 12, 4, 19, 8, 11, 15, 12, 9, 17, 14, 15];
    let expected16: Vec<i64> = vec![0, 2, 4, 8, 16, 31, 43, 47, 66, 74, 85, 100, 112, 121, 138, 152];
    for impl_id in [2i8, 3, 4] {
        let mut output: Vec<i64> = vec![0; 8];
        assert!(run_strategy(impl_id, 0, &input8, &mut output).is_ok());
        assert_eq!(output, expected8);
        let mut output: Vec<i64> = vec![0; 16];
        assert!(run_strategy(impl_id, 0, &input16, &mut output).is_ok());
        assert_eq!(output, expected16);
    }
}

#[test]
fn test_double_buffer_mode_swap() {
    let mut mode = DoubleBufferMode::default();
    assert_eq!(mode, DoubleBufferMode::A);
    assert_eq!(mode.get_alternate(), DoubleBufferMode::B);
    mode.swap();
    assert_eq!(mode, DoubleBufferMode::B);
    mode.swap();
    assert_eq!(mode, DoubleBufferMode::A);
    assert_eq!(mode.name(), "ModeA");
}

#[test]
fn test_error_messages() {
    assert_eq!(ScanError::UnimplementedStrategy.describe(), "Unimplemented");
    assert_eq!(
        ScanError::ArgumentMismatch.describe(),
        "Expected input and output vectors of equal length"
    );
    assert!(ScanError::CapacityExceeded.describe().contains("capacity"));
    assert!(ScanError::WorkerCommunicationFailure.describe().contains("acknowledgment"));
}

#[test]
fn test_worker_action_decision_table() {
    assert_eq!(WorkStatus::default(), WorkStatus::NoWorkPresent);
    assert_eq!(WorkStatus::NoWorkPresent.to_action(), WorkerAction::WaitAgain);
    assert_eq!(
        WorkStatus::WorkPresent { offset: 2, mode: DoubleBufferMode::B }.to_action(),
        WorkerAction::RunChunk { offset: 2, mode: DoubleBufferMode::B }
    );
    assert_eq!(WorkStatus::Shutdown.to_action(), WorkerAction::Exit);
    assert_eq!(WorkStatus::Shutdown.name(), "Shutdown");
}

#[test]
fn test_workgroup_single_chunk() {
    // One depth with offset 1 over indices [0, 4): buffer B receives the
    // pairwise sums read from buffer A.
    let mut buf_a: Vec<i64> = vec![0, 3, 1, 7];
    let mut buf_b: Vec<i64> = vec![9, 9, 9, 9];
    let workgroup = WorkGroup {
        verbose: false,
        id: 0,
        n: 4,
        offset: 1,
        mode: DoubleBufferMode::A,
        chunk: 4,
    };
    workgroup.process(&mut buf_a, &mut buf_b);
    assert_eq!(buf_a, vec![0, 3, 1, 7]);
    assert_eq!(buf_b, vec![0, 3, 4, 8]);
}

#[test]
fn test_impl_kind_table() {
    assert_eq!(ImplKind::from_id(0), Some(ImplKind::Sequential));
    assert_eq!(ImplKind::from_id(5), Some(ImplKind::ParallelGPUNaiveDoubleBuffer));
    assert_eq!(ImplKind::from_id(6), None);
    assert_eq!(ImplKind::from_id(-1), None);
    assert_eq!(ImplKind::SimdNaiveDoubleBuffer.to_id(), 3);
    assert!(ImplKind::SimdNaiveDoubleBuffer.is_simd());
    assert!(!ImplKind::SimdNaiveDoubleBuffer.is_parallel());
    assert!(ImplKind::ParallelCPUNaiveDoubleBuffer.is_parallel());
    assert!(ImplKind::ParallelGPUNaiveDoubleBuffer.is_parallel());
    assert_eq!(ImplKind::Sequential.to_option_string(), "*  0 => ScanSeq");
    let table = ImplKind::get_options_string();
    assert!(table.starts_with("Implementations:\n*  0 => ScanSeq\n"));
    assert!(table.ends_with("*  5 => ScanParGPUNaive2x"));
}

#[test]
fn test_exit_codes() {
    assert_eq!(scan::exit::ExitCode::Success.code(), 0);
    assert_eq!(scan::exit::ExitCode::Error.code(), 1);
}

#[test]
fn test_scan_objects_construct() {
    let _ = scan::seq::Scan::new(false);
    let _ = scan::unimplemented::Scan::new(true);
    let _ = scan::seq_naive_dbl::Scan::new(false);
    let _ = scan::simd_naive_dbl::Scan::new(false);
    let obj = scan::scan::Scan::new(true);
    assert!(obj.verbose);
    let quiet = scan::scan::Scan::default();
    assert!(!quiet.verbose);
    let par = scan::par_cpu_naive_dbl::Scan::new(false);
    assert_eq!(par.buf_a.len(), scan::par_cpu_naive_dbl::BUFFER_CAPACITY);
    assert_eq!(par.buf_b.len(), scan::par_cpu_naive_dbl::BUFFER_CAPACITY);
}
