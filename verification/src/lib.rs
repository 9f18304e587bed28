//! Exclusive prefix-sum ("scan") strategies over `i64` sequences.
//!
//! Every strategy realizes the same contract: given an identity element and an
//! input sequence, fill an equal-length output sequence so that position `k`
//! holds the identity plus the sum of the first `k` input elements.  The
//! strategies range from a single-pass sequential loop (the correctness
//! oracle) over offset-doubling tree algorithms, in place or double-buffered,
//! to a lane-vectorized formulation and a chunked formulation that a worker
//! pool can execute.

pub mod exit;
pub mod lanes;
pub mod model;
pub mod par_gpu_naive_dbl;
pub mod parse;
pub mod par_cpu_naive_dbl;
pub mod scan;
pub mod seq;
pub mod seq_naive_dbl;
pub mod simd_naive_dbl;
pub mod support;
pub mod unimplemented;
