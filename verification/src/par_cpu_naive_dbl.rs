//! The worker-pool formulation of the double-buffered tree scan.  Each depth
//! is partitioned into fixed-size chunks of output indices, one per worker;
//! workers read only the current buffer and write only their own disjoint
//! slice of the next buffer, which is what makes the writes safe without
//! per-element locking.  The cross-thread protocol state (`WorkStatus`, the
//! per-worker decision, the chunk computation, and the orchestration over
//! depths) lives here as verified functions; an embedding program runs the
//! same decisions over real threads, a barrier and acknowledgment channels.
//!
//! The two backing buffers form a bounded arena owned by the strategy object:
//! the constructor allocates the fixed capacity once, and inputs that exceed
//! it are rejected up front.

use vstd::prelude::*;
use vstd::arithmetic::power2::*;

use crate::model::buf_matches;
use crate::model::cur_of;
use crate::model::depth_step_at;
use crate::model::lemma_depth_step_all;
use crate::model::lemma_pow2_le;
use crate::model::lemma_scan_from_windows;
use crate::model::lemma_windows_base;
use crate::model::nxt_of;
use crate::model::rot_spec;
use crate::model::scan_at;
use crate::model::window_at;
use crate::model::windows_bounded;
use crate::support::alloc_vec;
use crate::support::ceil_log2;
use crate::support::DoubleBufferMode;
use crate::support::IScan;
use crate::support::mode_after;
use crate::support::ScanError;

verus! {

pub const NUM_PAGES: usize = 10;

pub const PAGE_SIZE: usize = 4096;

/// The arena size in bytes.
pub const BUFFER_LENGTH: usize = NUM_PAGES * PAGE_SIZE;

/// The arena capacity in elements.
pub const BUFFER_CAPACITY: usize = BUFFER_LENGTH / 8;

/// The mutex-guarded mailbox the orchestrator publishes to the workers, one
/// value per depth: no work yet, the current depth's offset and buffer mode,
/// or the order to shut down.
#[derive(Clone, Copy, Debug, PartialEq, Eq, Structural)]
pub enum WorkStatus {
    NoWorkPresent,
    WorkPresent { offset: usize, mode: DoubleBufferMode },
    Shutdown,
}

impl Default for WorkStatus {
    /// A freshly created mailbox holds no work.
    fn default() -> (r: Self)
        ensures
            r == WorkStatus::NoWorkPresent,
    {
        WorkStatus::NoWorkPresent
    }
}

/// What a worker does after reading the mailbox at the barrier.
#[derive(Clone, Copy, Debug, PartialEq, Eq, Structural)]
pub enum WorkerAction {
    /// Loop back to the barrier without doing work or acknowledging.
    WaitAgain,
    /// Acknowledge, run the chunk for this depth, acknowledge again.
    RunChunk { offset: usize, mode: DoubleBufferMode },
    /// Leave the loop and terminate.
    Exit,
}

impl WorkStatus {
    /// The worker-side decision table of the protocol: each mailbox state
    /// maps to exactly one action.
    pub fn to_action(self) -> (r: WorkerAction)
        ensures
            self == WorkStatus::NoWorkPresent ==> r == WorkerAction::WaitAgain,
            forall|offset: usize, mode: DoubleBufferMode|
                self == (WorkStatus::WorkPresent { offset, mode }) ==> r
                    == (WorkerAction::RunChunk { offset, mode }),
            self == WorkStatus::Shutdown ==> r == WorkerAction::Exit,
    {
        match self {
            WorkStatus::NoWorkPresent => WorkerAction::WaitAgain,
            WorkStatus::WorkPresent { offset, mode } => WorkerAction::RunChunk { offset, mode },
            WorkStatus::Shutdown => WorkerAction::Exit,
        }
    }

    /// The mailbox state's printable name.
    pub fn name(&self) -> (r: &'static str)
        ensures
            self == WorkStatus::NoWorkPresent ==> r@ == "NoWorkPresent"@,
            (self matches WorkStatus::WorkPresent { .. }) ==> r@ == "WorkPresent"@,
            self == WorkStatus::Shutdown ==> r@ == "Shutdown"@,
    {
        match self {
            WorkStatus::NoWorkPresent => "NoWorkPresent",
            WorkStatus::WorkPresent { .. } => "WorkPresent",
            WorkStatus::Shutdown => "Shutdown",
        }
    }
}

/// One worker's slice of the index space for one depth: worker `id` owns the
/// output indices `[id * chunk, min(n, id * chunk + chunk))`.
#[derive(Clone, Copy)]
pub struct WorkGroup {
    pub verbose: bool,
    pub id: usize,
    pub n: usize,
    pub offset: usize,
    pub mode: DoubleBufferMode,
    pub chunk: usize,
}

impl WorkGroup {
    /// The first output index of this worker's slice.
    pub open spec fn k_begin_spec(self) -> int {
        self.id * self.chunk
    }

    /// One past the last output index of this worker's slice.
    pub open spec fn k_end_spec(self) -> int {
        if self.n < self.id * self.chunk + self.chunk {
            self.n as int
        } else {
            self.id * self.chunk + self.chunk
        }
    }

    /// Applies one depth of the recurrence over this worker's slice: reads
    /// come only from the buffer the mode marks current, writes go only to
    /// the worker's own indices of the other buffer.
    pub fn process(&self, buf_a: &mut Vec<i64>, buf_b: &mut Vec<i64>)
        requires
            1 <= self.chunk,
            1 <= self.offset,
            self.id * self.chunk < self.n,
            self.n <= old(buf_a)@.len(),
            self.n <= old(buf_b)@.len(),
            forall|k: int|
                self.k_begin_spec() <= k < self.k_end_spec() ==> i64::MIN
                    <= #[trigger] depth_step_at(
                    cur_of(self.mode, old(buf_a)@, old(buf_b)@),
                    self.offset as int,
                    k,
                ) <= i64::MAX,
        ensures
            final(buf_a)@.len() == old(buf_a)@.len(),
            final(buf_b)@.len() == old(buf_b)@.len(),
            cur_of(self.mode, final(buf_a)@, final(buf_b)@) == cur_of(
                self.mode,
                old(buf_a)@,
                old(buf_b)@,
            ),
            forall|k: int|
                self.k_begin_spec() <= k < self.k_end_spec() ==> nxt_of(
                    self.mode,
                    final(buf_a)@,
                    final(buf_b)@,
                )[k] == depth_step_at(
                    cur_of(self.mode, old(buf_a)@, old(buf_b)@),
                    self.offset as int,
                    k,
                ),
            forall|k: int|
                0 <= k < nxt_of(self.mode, old(buf_a)@, old(buf_b)@).len() && !(self.k_begin_spec()
                    <= k < self.k_end_spec()) ==> nxt_of(self.mode, final(buf_a)@, final(buf_b)@)[k]
                    == nxt_of(self.mode, old(buf_a)@, old(buf_b)@)[k],
    {
        let k_begin = self.id * self.chunk;
        let k_end_clamp = if self.n - k_begin > self.chunk {
            k_begin + self.chunk
        } else {
            self.n
        };
        let ghost cur0 = cur_of(self.mode, buf_a@, buf_b@);
        proof {
            assert forall|k: int| k_begin <= k < k_end_clamp implies i64::MIN <= #[trigger] depth_step_at(
                cur0,
                self.offset as int,
                k,
            ) <= i64::MAX by {
                assert(i64::MIN <= depth_step_at(
                    cur_of(self.mode, old(buf_a)@, old(buf_b)@),
                    self.offset as int,
                    k,
                ) <= i64::MAX);
            }
        }
        match self.mode {
            DoubleBufferMode::A => {
                chunk_pass(buf_a, buf_b, self.offset, k_begin, k_end_clamp);
                proof {
                    assert forall|k: int| self.k_begin_spec() <= k < self.k_end_spec() implies nxt_of(
                        self.mode,
                        buf_a@,
                        buf_b@,
                    )[k] == depth_step_at(cur0, self.offset as int, k) by {
                        assert(buf_b@[k] == depth_step_at(buf_a@, self.offset as int, k));
                    }
                }
            },
            DoubleBufferMode::B => {
                chunk_pass(buf_b, buf_a, self.offset, k_begin, k_end_clamp);
                proof {
                    assert forall|k: int| self.k_begin_spec() <= k < self.k_end_spec() implies nxt_of(
                        self.mode,
                        buf_a@,
                        buf_b@,
                    )[k] == depth_step_at(cur0, self.offset as int, k) by {
                        assert(buf_a@[k] == depth_step_at(buf_b@, self.offset as int, k));
                    }
                }
            },
        }
    }
}

/// One depth of the recurrence from `src` into `dst` over the index range
/// `[k_begin, k_end)`; every other position of `dst` is untouched.
fn chunk_pass(src: &Vec<i64>, dst: &mut Vec<i64>, offset: usize, k_begin: usize, k_end: usize)
    requires
        1 <= offset,
        k_begin <= k_end,
        k_end <= src@.len(),
        k_end <= old(dst)@.len(),
        forall|k: int|
            k_begin <= k < k_end ==> i64::MIN <= #[trigger] depth_step_at(src@, offset as int, k)
                <= i64::MAX,
    ensures
        final(dst)@.len() == old(dst)@.len(),
        forall|k: int| k_begin <= k < k_end ==> final(dst)@[k] == depth_step_at(src@, offset as int, k),
        forall|k: int|
            0 <= k < old(dst)@.len() && !(k_begin <= k < k_end) ==> final(dst)@[k] == old(dst)@[k],
{
    let mut k: usize = k_begin;
    while k < k_end
        invariant
            k_begin <= k <= k_end,
            1 <= offset,
            k_end <= src@.len(),
            k_end <= dst@.len(),
            dst@.len() == old(dst)@.len(),
            forall|j: int|
                k_begin <= j < k_end ==> i64::MIN <= #[trigger] depth_step_at(
                    src@,
                    offset as int,
                    j,
                ) <= i64::MAX,
            forall|j: int| k_begin <= j < k ==> dst@[j] == depth_step_at(src@, offset as int, j),
            forall|j: int|
                0 <= j < old(dst)@.len() && !(k_begin <= j < k) ==> dst@[j] == old(dst)@[j],
        decreases k_end - k,
    {
        if k >= offset {
            let j = k - offset;
            let a = src[j];
            let b = src[k];
            proof {
                assert(depth_step_at(src@, offset as int, k as int) == src@[k as int] + src@[
                    k - offset
                ]);
            }
            dst[k] = a + b;
        } else {
            dst[k] = src[k];
        }
        k = k + 1;
    }
}

/// Copies the first `n` elements of `src` into `dst`.
fn copy_prefix(src: &Vec<i64>, dst: &mut Vec<i64>, n: usize)
    requires
        n <= src@.len(),
        n <= old(dst)@.len(),
    ensures
        final(dst)@.len() == old(dst)@.len(),
        forall|i: int| 0 <= i < n ==> final(dst)@[i] == src@[i],
        forall|i: int| n <= i < old(dst)@.len() ==> final(dst)@[i] == old(dst)@[i],
{
    let mut i: usize = 0;
    while i < n
        invariant
            i <= n,
            n <= src@.len(),
            n <= dst@.len(),
            dst@.len() == old(dst)@.len(),
            forall|j: int| 0 <= j < i ==> dst@[j] == src@[j],
            forall|j: int| i <= j < old(dst)@.len() ==> dst@[j] == old(dst)@[j],
        decreases n - i,
    {
        dst[i] = src[i];
        i = i + 1;
    }
}

/// The worker-pool strategy object: the two arena buffers and the verbosity
/// flag.
pub struct Scan {
    pub verbose: bool,
    pub buf_a: Vec<i64>,
    pub buf_b: Vec<i64>,
}

impl IScan for Scan {
    /// The arena holds its full fixed capacity.
    open spec fn wf(&self) -> bool {
        self.buf_a@.len() == BUFFER_CAPACITY && self.buf_b@.len() == BUFFER_CAPACITY
    }

    fn new(verbose: bool) -> Self {
        Self { verbose, buf_a: alloc_vec(BUFFER_LENGTH / 8, 0), buf_b: alloc_vec(BUFFER_LENGTH / 8, 0) }
    }
}

impl Scan {
    /// The chunked double-buffered scan that the worker pool executes: for
    /// each depth, every chunk applies the recurrence from the current buffer
    /// into its own slice of the next one, and the mode toggles once all
    /// chunks of the depth are done.  The result does not depend on the
    /// chunk size.
    pub fn process(
        &mut self,
        def: i64,
        v_in: &Vec<i64>,
        v_out: &mut Vec<i64>,
        chunk: usize,
    ) -> (r: Result<(), ScanError>)
        requires
            old(self).wf(),
            1 <= chunk,
            old(v_out)@.len() == v_in@.len() && v_in@.len() <= BUFFER_CAPACITY ==> windows_bounded(
                def,
                v_in@,
            ),
        ensures
            final(self).wf(),
            r is Ok <==> (v_in@.len() == old(v_out)@.len() && v_in@.len() <= BUFFER_CAPACITY),
            r is Ok ==> final(v_out)@.len() == v_in@.len() && forall|k: int|
                0 <= k < v_in@.len() ==> final(v_out)@[k] == scan_at(def, v_in@, k),
            v_in@.len() != old(v_out)@.len() ==> r == Err::<(), ScanError>(
                ScanError::ArgumentMismatch,
            ) && final(v_out)@ == old(v_out)@,
            v_in@.len() == old(v_out)@.len() && v_in@.len() > BUFFER_CAPACITY ==> r == Err::<
                (),
                ScanError,
            >(ScanError::CapacityExceeded) && final(v_out)@ == old(v_out)@,
    {
        let n_in = v_in.len();
        let n_out = v_out.len();
        match Self::check_args(n_in, n_out) {
            Err(e) => {
                return Err(e);
            },
            Ok(()) => {},
        }
        if n_out > BUFFER_LENGTH / 8 {
            return Err(ScanError::CapacityExceeded);
        }
        if n_out == 0 {
            return Ok(());
        }
        let n = n_out;
        let ghost v = v_in@;
        // Workers never own more than the whole index space.
        let chunk_c = if chunk > n {
            n
        } else {
            chunk
        };
        // The rotated initial layout in buffer A, mirrored into buffer B.
        let mut k: usize = 1;
        while k < n
            invariant
                1 <= k <= n,
                n == v_in@.len(),
                self.buf_a@.len() == BUFFER_CAPACITY,
                self.buf_b@.len() == BUFFER_CAPACITY,
                n <= BUFFER_CAPACITY,
                forall|j: int| 1 <= j < k ==> self.buf_a@[j] == v_in@[j - 1],
            decreases n - k,
        {
            self.buf_a[k] = v_in[k - 1];
            k = k + 1;
        }
        self.buf_a[0] = def;
        copy_prefix(&self.buf_a, &mut self.buf_b, n);
        proof {
            assert forall|j: int| 0 <= j < n implies self.buf_a@[j] == rot_spec(def, v)[j] by {
                if j > 0 {
                    assert(rot_spec(def, v)[j] == v[j - 1]);
                }
            }
            lemma_windows_base(def, v, self.buf_a@);
            assert forall|j: int| 0 <= j < n implies self.buf_b@[j] == rot_spec(def, v)[j] by {
                assert(self.buf_b@[j] == self.buf_a@[j]);
            }
            lemma_windows_base(def, v, self.buf_b@);
        }
        let d_end = ceil_log2(n);
        let mut mode = DoubleBufferMode::default();
        let mut d: usize = 0;
        let mut offset: usize = 1;
        proof {
            lemma2_to64();
        }
        while d < d_end
            invariant
                d <= d_end,
                n == v.len(),
                n == v_in@.len(),
                self.buf_a@.len() == BUFFER_CAPACITY,
                self.buf_b@.len() == BUFFER_CAPACITY,
                n <= BUFFER_CAPACITY,
                1 <= n,
                1 <= chunk_c <= n,
                windows_bounded(def, v),
                mode == mode_after(DoubleBufferMode::A, d as nat),
                d < d_end ==> offset == pow2(d as nat),
                offset >= 1,
                buf_matches(def, v, cur_of(mode, self.buf_a@, self.buf_b@), d as nat),
                pow2(d_end as nat) >= n,
                d_end > 0 ==> pow2((d_end - 1) as nat) < n,
            decreases d_end - d,
        {
            let ghost cur0 = cur_of(mode, self.buf_a@, self.buf_b@);
            proof {
                lemma_depth_step_all(def, v, cur0, d as nat);
            }
            let mut j: usize = 0;
            let mut pos: usize = 0;
            while pos < n
                invariant
                    pos <= n,
                    j <= n,
                    n == v.len(),
                    self.buf_a@.len() == BUFFER_CAPACITY,
                    self.buf_b@.len() == BUFFER_CAPACITY,
                    n <= BUFFER_CAPACITY,
                    1 <= n,
                    1 <= chunk_c <= n,
                    1 <= offset,
                    pos == j * chunk_c || pos == n,
                    cur_of(mode, self.buf_a@, self.buf_b@) == cur0,
                    forall|i: int|
                        0 <= i < n ==> i64::MIN <= #[trigger] depth_step_at(
                            cur0,
                            offset as int,
                            i,
                        ) <= i64::MAX,
                    forall|i: int|
                        0 <= i < pos ==> nxt_of(mode, self.buf_a@, self.buf_b@)[i]
                            == depth_step_at(cur0, offset as int, i),
                decreases n - pos,
            {
                let workgroup = WorkGroup {
                    verbose: self.verbose,
                    id: j,
                    n,
                    offset,
                    mode,
                    chunk: chunk_c,
                };
                proof {
                    assert(workgroup.k_begin_spec() == pos);
                    assert(workgroup.k_end_spec() == if n < pos + chunk_c {
                        n as int
                    } else {
                        pos + chunk_c
                    });
                }
                workgroup.process(&mut self.buf_a, &mut self.buf_b);
                proof {
                    assert((j + 1) * chunk_c == j * chunk_c + chunk_c && j * chunk_c >= j)
                        by (nonlinear_arith)
                        requires
                            chunk_c >= 1,
                            j >= 0,
                    ;
                }
                pos = if n - pos > chunk_c {
                    pos + chunk_c
                } else {
                    n
                };
                j = j + 1;
            }
            proof {
                let nxt1 = nxt_of(mode, self.buf_a@, self.buf_b@);
                assert forall|i: int| 0 <= i < n implies nxt1[i] == window_at(
                    def,
                    v,
                    (d + 1) as nat,
                    i,
                ) by {
                    assert(nxt1[i] == depth_step_at(cur0, offset as int, i));
                }
                if d + 1 < d_end {
                    lemma_pow2_le((d + 1) as nat, (d_end - 1) as nat);
                    assert(pow2((d + 1) as nat) == 2 * pow2(d as nat)) by {
                        lemma_pow2_adds(d as nat, 1);
                        lemma2_to64();
                    }
                    assert(offset <= usize::MAX / 2);
                }
            }
            mode.swap();
            offset = if offset <= usize::MAX / 2 {
                offset * 2
            } else {
                offset
            };
            d = d + 1;
        }
        let ghost res = cur_of(mode, self.buf_a@, self.buf_b@);
        proof {
            lemma_scan_from_windows(def, v, res, d_end as nat);
        }
        match mode {
            DoubleBufferMode::A => {
                copy_prefix(&self.buf_a, v_out, n);
                proof {
                    assert forall|i: int| 0 <= i < n implies v_out@[i] == scan_at(def, v, i) by {
                        assert(v_out@[i] == self.buf_a@[i]);
                        assert(res[i] == scan_at(def, v, i));
                    }
                }
            },
            DoubleBufferMode::B => {
                copy_prefix(&self.buf_b, v_out, n);
                proof {
                    assert forall|i: int| 0 <= i < n implies v_out@[i] == scan_at(def, v, i) by {
                        assert(v_out@[i] == self.buf_b@[i]);
                        assert(res[i] == scan_at(def, v, i));
                    }
                }
            },
        }
        Ok(())
    }
}

} // verus!
