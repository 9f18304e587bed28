//! Strategy identifiers, the dispatcher, and the in-place strategies: the
//! sequential scan and the naive (single-buffer) offset-doubling tree scan.

use vstd::prelude::*;
use vstd::arithmetic::power2::*;
use vstd::string::StringExecFns;

use crate::model::buf_matches;
use crate::model::depth_step_at;
use crate::model::lemma_depth_step_all;
use crate::model::lemma_pow2_le;
use crate::model::lemma_scan_from_windows;
use crate::model::lemma_windows_base;
use crate::model::prefixes_bounded;
use crate::model::rot_spec;
use crate::model::scan_at;
use crate::model::window_at;
use crate::model::windows_bounded;
use crate::support::ceil_log2;
use crate::support::IScan;
use crate::support::ScanError;

verus! {

/// The selectable scan implementations, in the order of their numeric
/// identifiers.
#[derive(Clone, Copy, Debug, Eq, Hash, PartialEq, Structural)]
pub enum ImplKind {
    Sequential,
    SequentialNaive,
    SequentialNaiveDoubleBuffer,
    SimdNaiveDoubleBuffer,
    ParallelCPUNaiveDoubleBuffer,
    ParallelGPUNaiveDoubleBuffer,
}

impl ImplKind {
    /// The printable name of the implementation.
    pub open spec fn name_spec(self) -> Seq<char> {
        match self {
            ImplKind::Sequential => "ScanSeq"@,
            ImplKind::SequentialNaive => "ScanSeqNaive"@,
            ImplKind::SequentialNaiveDoubleBuffer => "ScanSeqNaive2x"@,
            ImplKind::SimdNaiveDoubleBuffer => "ScanSimdNaive2x"@,
            ImplKind::ParallelCPUNaiveDoubleBuffer => "ScanParCPUNaive2x"@,
            ImplKind::ParallelGPUNaiveDoubleBuffer => "ScanParGPUNaive2x"@,
        }
    }

    pub fn name(self) -> (r: &'static str)
        ensures
            r@ == self.name_spec(),
    {
        match self {
            ImplKind::Sequential => "ScanSeq",
            ImplKind::SequentialNaive => "ScanSeqNaive",
            ImplKind::SequentialNaiveDoubleBuffer => "ScanSeqNaive2x",
            ImplKind::SimdNaiveDoubleBuffer => "ScanSimdNaive2x",
            ImplKind::ParallelCPUNaiveDoubleBuffer => "ScanParCPUNaive2x",
            ImplKind::ParallelGPUNaiveDoubleBuffer => "ScanParGPUNaive2x",
        }
    }

    /// The numeric identifier of the implementation.
    pub open spec fn id_spec(self) -> i8 {
        match self {
            ImplKind::Sequential => 0,
            ImplKind::SequentialNaive => 1,
            ImplKind::SequentialNaiveDoubleBuffer => 2,
            ImplKind::SimdNaiveDoubleBuffer => 3,
            ImplKind::ParallelCPUNaiveDoubleBuffer => 4,
            ImplKind::ParallelGPUNaiveDoubleBuffer => 5,
        }
    }

    pub fn to_id(self) -> (r: i8)
        ensures
            r == self.id_spec(),
    {
        match self {
            ImplKind::Sequential => 0,
            ImplKind::SequentialNaive => 1,
            ImplKind::SequentialNaiveDoubleBuffer => 2,
            ImplKind::SimdNaiveDoubleBuffer => 3,
            ImplKind::ParallelCPUNaiveDoubleBuffer => 4,
            ImplKind::ParallelGPUNaiveDoubleBuffer => 5,
        }
    }

    /// Resolves a numeric identifier; identifiers outside the table yield
    /// `None` rather than a crash.
    pub fn from_id(n: i8) -> (r: Option<ImplKind>)
        ensures
            r is Some <==> 0 <= n <= 5,
            r matches Some(k) ==> k.id_spec() == n,
    {
        match n {
            0 => Some(ImplKind::Sequential),
            1 => Some(ImplKind::SequentialNaive),
            2 => Some(ImplKind::SequentialNaiveDoubleBuffer),
            3 => Some(ImplKind::SimdNaiveDoubleBuffer),
            4 => Some(ImplKind::ParallelCPUNaiveDoubleBuffer),
            5 => Some(ImplKind::ParallelGPUNaiveDoubleBuffer),
            _ => None,
        }
    }

    pub fn is_parallel(self) -> (r: bool)
        ensures
            r == (self == ImplKind::ParallelCPUNaiveDoubleBuffer || self
                == ImplKind::ParallelGPUNaiveDoubleBuffer),
    {
        self == ImplKind::ParallelCPUNaiveDoubleBuffer || self
            == ImplKind::ParallelGPUNaiveDoubleBuffer
    }

    pub fn is_simd(self) -> (r: bool)
        ensures
            r == (self == ImplKind::SimdNaiveDoubleBuffer),
    {
        self == ImplKind::SimdNaiveDoubleBuffer
    }

    /// The scalar dispatcher resolves these kinds to a real algorithm; every
    /// other kind falls back to the explicit unimplemented strategy.
    pub open spec fn scalar_implemented(self) -> bool {
        self == ImplKind::Sequential || self == ImplKind::SequentialNaive || self
            == ImplKind::SequentialNaiveDoubleBuffer
    }

    /// The inputs a kind's algorithm can run on without overflowing `i64`:
    /// the sequential pass forms only prefix sums, the tree algorithms hold
    /// window sums of the rotated input in their buffers.
    pub open spec fn input_ok(self, def: i64, v: Seq<i64>) -> bool {
        match self {
            ImplKind::Sequential => prefixes_bounded(def, v),
            ImplKind::SequentialNaive => windows_bounded(def, v),
            ImplKind::SequentialNaiveDoubleBuffer => windows_bounded(def, v),
            _ => true,
        }
    }

    /// Invokes the selected scalar strategy with the uniform contract; kinds
    /// without a scalar algorithm resolve to the unimplemented strategy and
    /// its explicit error, never to a crash.
    pub fn dispatch(&self, identity: i64, v_in: &Vec<i64>, v_out: &mut Vec<i64>, verbose: bool) -> (r:
        Result<(), ScanError>)
        requires
            old(v_out)@.len() == v_in@.len() ==> self.input_ok(identity, v_in@),
        ensures
            self.scalar_implemented() ==> (r is Ok <==> v_in@.len() == old(v_out)@.len()),
            self.scalar_implemented() && r is Ok ==> final(v_out)@.len() == v_in@.len()
                && forall|k: int|
                0 <= k < v_in@.len() ==> final(v_out)@[k] == scan_at(identity, v_in@, k),
            self.scalar_implemented() && r is Err ==> r == Err::<(), ScanError>(
                ScanError::ArgumentMismatch,
            ) && final(v_out)@ == old(v_out)@,
            !self.scalar_implemented() ==> r == Err::<(), ScanError>(
                ScanError::UnimplementedStrategy,
            ) && final(v_out)@ == old(v_out)@,
    {
        match self {
            ImplKind::Sequential => crate::seq::Scan::new(verbose).process(identity, v_in, v_out),
            ImplKind::SequentialNaive => Scan::new(verbose).seq_naive(identity, v_in, v_out),
            ImplKind::SequentialNaiveDoubleBuffer => crate::seq_naive_dbl::Scan::new(
                verbose,
            ).process(identity, v_in, v_out),
            _ => crate::unimplemented::Scan::new(verbose).process(identity, v_in, v_out),
        }
    }

    /// Invokes the lane-vectorized strategy; every other kind resolves to
    /// the unimplemented strategy.
    pub fn dispatch_simd(
        &self,
        identity: i64,
        v_in: &Vec<i64>,
        v_out: &mut Vec<i64>,
        verbose: bool,
        n_lanes: usize,
    ) -> (r: Result<(), ScanError>)
        requires
            1 <= n_lanes,
            v_in@.len() + n_lanes <= usize::MAX,
            self == ImplKind::SimdNaiveDoubleBuffer && old(v_out)@.len() == v_in@.len()
                ==> windows_bounded(identity, v_in@),
        ensures
            self == ImplKind::SimdNaiveDoubleBuffer ==> {
                &&& (r is Ok <==> v_in@.len() == old(v_out)@.len())
                &&& (r is Ok ==> final(v_out)@.len() == v_in@.len() && forall|k: int|
                    0 <= k < v_in@.len() ==> final(v_out)@[k] == scan_at(identity, v_in@, k))
                &&& (r is Err ==> r == Err::<(), ScanError>(ScanError::ArgumentMismatch)
                    && final(v_out)@ == old(v_out)@)
            },
            self != ImplKind::SimdNaiveDoubleBuffer ==> r == Err::<(), ScanError>(
                ScanError::UnimplementedStrategy,
            ) && final(v_out)@ == old(v_out)@,
    {
        match self {
            ImplKind::SimdNaiveDoubleBuffer => crate::simd_naive_dbl::Scan::new(verbose).process(
                identity,
                v_in,
                v_out,
                n_lanes,
            ),
            _ => crate::unimplemented::Scan::new(verbose).process(identity, v_in, v_out),
        }
    }

    /// Invokes the worker-pool strategy.  The accelerator-backed kind runs
    /// its kernel outside this library, so here it resolves, like every
    /// other non-pool kind, to the unimplemented strategy.
    pub fn dispatch_parallel(
        &self,
        identity: i64,
        v_in: &Vec<i64>,
        v_out: &mut Vec<i64>,
        verbose: bool,
        chunk: usize,
    ) -> (r: Result<(), ScanError>)
        requires
            1 <= chunk,
            self == ImplKind::ParallelCPUNaiveDoubleBuffer && old(v_out)@.len() == v_in@.len()
                && v_in@.len() <= crate::par_cpu_naive_dbl::BUFFER_CAPACITY ==> windows_bounded(
                identity,
                v_in@,
            ),
        ensures
            self == ImplKind::ParallelCPUNaiveDoubleBuffer ==> {
                &&& (r is Ok <==> (v_in@.len() == old(v_out)@.len() && v_in@.len()
                    <= crate::par_cpu_naive_dbl::BUFFER_CAPACITY))
                &&& (r is Ok ==> final(v_out)@.len() == v_in@.len() && forall|k: int|
                    0 <= k < v_in@.len() ==> final(v_out)@[k] == scan_at(identity, v_in@, k))
                &&& (v_in@.len() != old(v_out)@.len() ==> r == Err::<(), ScanError>(
                    ScanError::ArgumentMismatch,
                ) && final(v_out)@ == old(v_out)@)
                &&& (v_in@.len() == old(v_out)@.len() && v_in@.len()
                    > crate::par_cpu_naive_dbl::BUFFER_CAPACITY ==> r == Err::<(), ScanError>(
                    ScanError::CapacityExceeded,
                ) && final(v_out)@ == old(v_out)@)
            },
            self != ImplKind::ParallelCPUNaiveDoubleBuffer ==> r == Err::<(), ScanError>(
                ScanError::UnimplementedStrategy,
            ) && final(v_out)@ == old(v_out)@,
    {
        match self {
            ImplKind::ParallelCPUNaiveDoubleBuffer => {
                let mut scan_obj = crate::par_cpu_naive_dbl::Scan::new(verbose);
                scan_obj.process(identity, v_in, v_out, chunk)
            },
            _ => crate::unimplemented::Scan::new(verbose).process(identity, v_in, v_out),
        }
    }

    /// The identifier as a character sequence.
    pub open spec fn id_str_spec(self) -> Seq<char> {
        match self {
            ImplKind::Sequential => "0"@,
            ImplKind::SequentialNaive => "1"@,
            ImplKind::SequentialNaiveDoubleBuffer => "2"@,
            ImplKind::SimdNaiveDoubleBuffer => "3"@,
            ImplKind::ParallelCPUNaiveDoubleBuffer => "4"@,
            ImplKind::ParallelGPUNaiveDoubleBuffer => "5"@,
        }
    }

    pub fn id_str(self) -> (r: &'static str)
        ensures
            r@ == self.id_str_spec(),
    {
        match self {
            ImplKind::Sequential => "0",
            ImplKind::SequentialNaive => "1",
            ImplKind::SequentialNaiveDoubleBuffer => "2",
            ImplKind::SimdNaiveDoubleBuffer => "3",
            ImplKind::ParallelCPUNaiveDoubleBuffer => "4",
            ImplKind::ParallelGPUNaiveDoubleBuffer => "5",
        }
    }

    /// One line of the option table: identifier and name.
    pub open spec fn option_line_spec(self) -> Seq<char> {
        "*  "@ + self.id_str_spec() + " => "@ + self.name_spec()
    }

    pub fn to_option_string(self) -> (r: String)
        ensures
            r@ == self.option_line_spec(),
    {
        let mut s = String::from_str("*  ");
        s.append(self.id_str());
        s.append(" => ");
        s.append(self.name());
        proof {
            assert(s@ =~= self.option_line_spec());
        }
        s
    }

    /// The option table listing every implementation.
    pub open spec fn options_string_spec() -> Seq<char> {
        "Implementations:\n"@ + ImplKind::Sequential.option_line_spec() + "\n"@
            + ImplKind::SequentialNaive.option_line_spec() + "\n"@
            + ImplKind::SequentialNaiveDoubleBuffer.option_line_spec() + "\n"@
            + ImplKind::SimdNaiveDoubleBuffer.option_line_spec() + "\n"@
            + ImplKind::ParallelCPUNaiveDoubleBuffer.option_line_spec() + "\n"@
            + ImplKind::ParallelGPUNaiveDoubleBuffer.option_line_spec()
    }

    pub fn get_options_string() -> (r: String)
        ensures
            r@ == Self::options_string_spec(),
    {
        let mut s = String::from_str("Implementations:\n");
        let line = ImplKind::Sequential.to_option_string();
        s.append(line.as_str());
        s.append("\n");
        let line = ImplKind::SequentialNaive.to_option_string();
        s.append(line.as_str());
        s.append("\n");
        let line = ImplKind::SequentialNaiveDoubleBuffer.to_option_string();
        s.append(line.as_str());
        s.append("\n");
        let line = ImplKind::SimdNaiveDoubleBuffer.to_option_string();
        s.append(line.as_str());
        s.append("\n");
        let line = ImplKind::ParallelCPUNaiveDoubleBuffer.to_option_string();
        s.append(line.as_str());
        s.append("\n");
        let line = ImplKind::ParallelGPUNaiveDoubleBuffer.to_option_string();
        s.append(line.as_str());
        proof {
            assert(s@ =~= Self::options_string_spec());
        }
        s
    }
}

/// The strategy object of the in-place implementations below.
#[derive(Clone, Copy)]
pub struct Scan {
    pub verbose: bool,
}

impl Scan {
    pub fn new(verbose: bool) -> (r: Self)
        ensures
            r.verbose == verbose,
    {
        Self { verbose }
    }

    /// Every strategy validates the lengths before any work.
    pub fn check_args(n_in: usize, n_out: usize) -> (r: Result<(), ScanError>)
        ensures
            r is Ok <==> n_in == n_out,
            r is Err ==> r == Err::<(), ScanError>(ScanError::ArgumentMismatch),
    {
        if n_in != n_out {
            Err(ScanError::ArgumentMismatch)
        } else {
            Ok(())
        }
    }

    /// The sequential exclusive scan (the ground truth).
    pub fn seq(&self, def: i64, v_in: &Vec<i64>, v_out: &mut Vec<i64>) -> (r: Result<
        (),
        ScanError,
    >)
        requires
            old(v_out)@.len() == v_in@.len() ==> prefixes_bounded(def, v_in@),
        ensures
            r is Ok <==> v_in@.len() == old(v_out)@.len(),
            r is Ok ==> final(v_out)@.len() == v_in@.len() && forall|k: int|
                0 <= k < v_in@.len() ==> final(v_out)@[k] == scan_at(def, v_in@, k),
            r is Err ==> r == Err::<(), ScanError>(ScanError::ArgumentMismatch) && final(v_out)@
                == old(v_out)@,
    {
        crate::seq::Scan::new(self.verbose).process(def, v_in, v_out)
    }

    /// The naive offset-doubling tree scan, in place in a single buffer.
    ///
    /// The update loop of each depth must run its indices in *decreasing*
    /// order: position `k` is still read as the companion of positions above
    /// it, so writing it first would corrupt values the same depth still
    /// needs.  This ordering is the algorithm's only guard against that
    /// loop-carried hazard.
    pub fn seq_naive(&self, def: i64, v_in: &Vec<i64>, v_out: &mut Vec<i64>) -> (r: Result<
        (),
        ScanError,
    >)
        requires
            old(v_out)@.len() == v_in@.len() ==> windows_bounded(def, v_in@),
        ensures
            r is Ok <==> v_in@.len() == old(v_out)@.len(),
            r is Ok ==> final(v_out)@.len() == v_in@.len() && forall|k: int|
                0 <= k < v_in@.len() ==> final(v_out)@[k] == scan_at(def, v_in@, k),
            r is Err ==> r == Err::<(), ScanError>(ScanError::ArgumentMismatch) && final(v_out)@
                == old(v_out)@,
    {
        let n_in = v_in.len();
        let n_out = v_out.len();
        match Self::check_args(n_in, n_out) {
            Err(e) => {
                return Err(e);
            },
            Ok(()) => {},
        }
        if n_out == 0 {
            return Ok(());
        }
        let n = n_out;
        // Rotate the input right by one into the buffer, identity first.
        let mut k: usize = 1;
        while k < n
            invariant
                1 <= k <= n,
                n == v_in@.len(),
                v_out@.len() == n,
                forall|j: int| 1 <= j < k ==> v_out@[j] == v_in@[j - 1],
            decreases n - k,
        {
            v_out[k] = v_in[k - 1];
            k = k + 1;
        }
        v_out[0] = def;
        proof {
            assert forall|j: int| 0 <= j < n implies v_out@[j] == rot_spec(def, v_in@)[j] by {
                if j > 0 {
                    assert(rot_spec(def, v_in@)[j] == v_in@[j - 1]);
                }
            }
            lemma_windows_base(def, v_in@, v_out@);
        }
        let d_end = ceil_log2(n);
        let mut d: usize = 0;
        let mut offset: usize = 1;
        proof {
            lemma2_to64();
        }
        while d < d_end
            invariant
                d <= d_end,
                n == v_in@.len(),
                v_out@.len() == n,
                1 <= n,
                windows_bounded(def, v_in@),
                d < d_end ==> offset == pow2(d as nat),
                offset >= 1,
                buf_matches(def, v_in@, v_out@, d as nat),
                pow2(d_end as nat) >= n,
                d_end > 0 ==> pow2((d_end - 1) as nat) < n,
            decreases d_end - d,
        {
            let ghost s0 = v_out@;
            proof {
                lemma_depth_step_all(def, v_in@, s0, d as nat);
            }
            // NOTE: iterate in reverse due to the loop-carried dependencies
            let mut k: usize = n - 1;
            while k >= 1
                invariant
                    k <= n - 1,
                    n == v_in@.len(),
                    v_out@.len() == n,
                    1 <= n,
                    offset >= 1,
                    s0.len() == n,
                    forall|j: int|
                        0 <= j < n ==> i64::MIN <= #[trigger] depth_step_at(s0, offset as int, j)
                            <= i64::MAX,
                    forall|j: int|
                        k < j < n ==> v_out@[j] == depth_step_at(s0, offset as int, j),
                    forall|j: int| 0 <= j <= k ==> v_out@[j] == s0[j],
                decreases k,
            {
                if k >= offset {
                    let j = k - offset;
                    let a = v_out[j];
                    let b = v_out[k];
                    proof {
                        assert(depth_step_at(s0, offset as int, k as int) == s0[k as int] + s0[
                            k - offset
                        ]);
                    }
                    v_out[k] = a + b;
                }
                k = k - 1;
            }
            proof {
                assert forall|j: int| 0 <= j < n implies v_out@[j] == window_at(
                    def,
                    v_in@,
                    (d + 1) as nat,
                    j,
                ) by {
                    if j == 0 {
                        assert(depth_step_at(s0, offset as int, 0) == s0[0]);
                    }
                    assert(v_out@[j] == depth_step_at(s0, offset as int, j));
                }
                if d + 1 < d_end {
                    lemma_pow2_le((d + 1) as nat, (d_end - 1) as nat);
                    assert(pow2((d + 1) as nat) == 2 * pow2(d as nat)) by {
                        lemma_pow2_adds(d as nat, 1);
                        lemma2_to64();
                    }
                    assert(offset <= usize::MAX / 2);
                }
            }
            offset = if offset <= usize::MAX / 2 {
                offset * 2
            } else {
                offset
            };
            d = d + 1;
        }
        proof {
            lemma_scan_from_windows(def, v_in@, v_out@, d_end as nat);
        }
        Ok(())
    }

    /// An unimplemented default.
    pub fn unimplemented(&self, _identity: i64, _v_in: &Vec<i64>, v_out: &mut Vec<i64>) -> (r:
        Result<(), ScanError>)
        ensures
            r == Err::<(), ScanError>(ScanError::UnimplementedStrategy),
            final(v_out)@ == old(v_out)@,
    {
        Err(ScanError::UnimplementedStrategy)
    }

    /// An unimplemented default for the chunked strategies.
    pub fn par_unimplemented(&self, _identity: i64, _v_in: &Vec<i64>, v_out: &mut Vec<i64>) -> (r:
        Result<(), ScanError>)
        ensures
            r == Err::<(), ScanError>(ScanError::UnimplementedStrategy),
            final(v_out)@ == old(v_out)@,
    {
        Err(ScanError::UnimplementedStrategy)
    }
}

impl Default for Scan {
    /// The default strategy object is quiet.
    fn default() -> (r: Self)
        ensures
            r.verbose == false,
    {
        Self::new(false)
    }
}

} // verus!
