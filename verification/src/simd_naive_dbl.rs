//! The lane-vectorized double-buffered tree scan.  Each depth processes the
//! output in chunks of `n_lanes` consecutive positions: lane masks decide
//! which lanes add their companion value and which pass through, an indexed
//! gather fetches the companions, and two disjoint masked stores together
//! cover every valid lane exactly once.  Boundary lanes beyond the sequence
//! are never read or written; the masks guarantee it.

use vstd::prelude::*;
use vstd::arithmetic::power2::*;

use crate::lanes::copy_simd;
use crate::model::buf_matches;
use crate::model::cur_of;
use crate::model::depth_step_at;
use crate::model::lemma_depth_step_all;
use crate::model::lemma_pow2_le;
use crate::model::lemma_scan_from_windows;
use crate::model::lemma_windows_base;
use crate::model::nxt_of;
use crate::model::rot_spec;
use crate::model::scan_at;
use crate::model::window_at;
use crate::model::windows_bounded;
use crate::support::alloc_vec;
use crate::support::ceil_log2;
use crate::support::DoubleBufferMode;
use crate::support::IScan;
use crate::support::mode_after;
use crate::support::ScanError;

verus! {

#[derive(Clone, Copy)]
pub struct Scan {
    pub verbose: bool,
}

impl IScan for Scan {
    open spec fn wf(&self) -> bool {
        true
    }

    fn new(verbose: bool) -> Self {
        Self { verbose }
    }
}

/// One lane chunk of one depth: positions `[kk, min(n, kk + n_lanes))` of
/// `dst` receive the offset-doubling update read from `src`; every other
/// position of `dst` is untouched.
///
/// The lane masks are: `mask_en_k` for lanes whose index reaches `offset`,
/// its complement for lanes that pass through, and `mask_en_kj` for lanes
/// whose companion index also lies within bounds.  The value vector at `k`
/// is loaded with a default beyond the clamp, the companion vector is
/// gathered only for enabled lanes, and the two stores (pass-through, then
/// sums) are disjoint.
fn simd_depth_chunk(
    src: &Vec<i64>,
    dst: &mut Vec<i64>,
    n: usize,
    offset: usize,
    kk: usize,
    n_lanes: usize,
    def: i64,
)
    requires
        1 <= n_lanes,
        1 <= offset,
        kk < n,
        kk + n_lanes <= usize::MAX,
        n <= src@.len(),
        n <= old(dst)@.len(),
        forall|k: int|
            kk <= k < n && k < kk + n_lanes ==> i64::MIN <= #[trigger] depth_step_at(
                src@,
                offset as int,
                k,
            ) <= i64::MAX,
    ensures
        final(dst)@.len() == old(dst)@.len(),
        forall|k: int|
            kk <= k < n && k < kk + n_lanes ==> final(dst)@[k] == depth_step_at(
                src@,
                offset as int,
                k,
            ),
        forall|k: int|
            0 <= k < old(dst)@.len() && !(kk <= k < n && k < kk + n_lanes) ==> final(dst)@[k]
                == old(dst)@[k],
{
    let kk_end_clamp = if n - kk > n_lanes {
        kk + n_lanes
    } else {
        n
    };
    // Lane masks: index reaches the offset; companion index within bounds.
    let mut mask_en_k: Vec<bool> = Vec::new();
    let mut mask_en_kj: Vec<bool> = Vec::new();
    let mut i: usize = 0;
    while i < n_lanes
        invariant
            i <= n_lanes,
            kk + n_lanes <= usize::MAX,
            mask_en_k@.len() == i,
            mask_en_kj@.len() == i,
            forall|l: int| 0 <= l < i ==> mask_en_k@[l] == (kk + l >= offset),
            forall|l: int|
                0 <= l < i ==> mask_en_kj@[l] == (kk + l >= offset && kk + l - offset < n),
        decreases n_lanes - i,
    {
        let k = kk + i;
        let en_k = k >= offset;
        let en_kj = en_k && (k - offset < n);
        mask_en_k.push(en_k);
        mask_en_kj.push(en_kj);
        i = i + 1;
    }
    // Masked load of the lane values at `k` (default past the clamp), and
    // gather of the companion values at `k - offset` for enabled lanes.
    let mut ld_k: Vec<i64> = Vec::new();
    let mut ld_j: Vec<i64> = Vec::new();
    let mut i: usize = 0;
    while i < n_lanes
        invariant
            i <= n_lanes,
            kk + n_lanes <= usize::MAX,
            kk < kk_end_clamp <= n,
            n <= src@.len(),
            mask_en_k@.len() == n_lanes,
            mask_en_kj@.len() == n_lanes,
            forall|l: int| 0 <= l < n_lanes ==> mask_en_k@[l] == (kk + l >= offset),
            forall|l: int|
                0 <= l < n_lanes ==> mask_en_kj@[l] == (kk + l >= offset && kk + l - offset < n),
            ld_k@.len() == i,
            ld_j@.len() == i,
            forall|l: int|
                0 <= l < i ==> ld_k@[l] == (if kk + l < kk_end_clamp {
                    src@[kk + l]
                } else {
                    def
                }),
            forall|l: int|
                0 <= l < i ==> ld_j@[l] == (if mask_en_kj@[l] {
                    src@[kk + l - offset]
                } else {
                    def
                }),
        decreases n_lanes - i,
    {
        let k = kk + i;
        if k < kk_end_clamp {
            ld_k.push(src[k]);
        } else {
            ld_k.push(def);
        }
        if mask_en_kj[i] {
            ld_j.push(src[k - offset]);
        } else {
            ld_j.push(def);
        }
        i = i + 1;
    }
    // Lane-wise addition where the companion mask is set and the lane is
    // within the clamp (only those lanes are ever stored).
    let mut sum_kj: Vec<i64> = Vec::new();
    let mut i: usize = 0;
    while i < n_lanes
        invariant
            i <= n_lanes,
            kk + n_lanes <= usize::MAX,
            kk < kk_end_clamp <= n,
            n <= src@.len(),
            mask_en_kj@.len() == n_lanes,
            forall|l: int|
                0 <= l < n_lanes ==> mask_en_kj@[l] == (kk + l >= offset && kk + l - offset < n),
            ld_k@.len() == n_lanes,
            ld_j@.len() == n_lanes,
            forall|l: int|
                0 <= l < n_lanes ==> ld_k@[l] == (if kk + l < kk_end_clamp {
                    src@[kk + l]
                } else {
                    def
                }),
            forall|l: int|
                0 <= l < n_lanes ==> ld_j@[l] == (if mask_en_kj@[l] {
                    src@[kk + l - offset]
                } else {
                    def
                }),
            forall|k: int|
                kk <= k < kk_end_clamp ==> i64::MIN <= #[trigger] depth_step_at(
                    src@,
                    offset as int,
                    k,
                ) <= i64::MAX,
            sum_kj@.len() == i,
            forall|l: int|
                0 <= l < i ==> sum_kj@[l] == (if mask_en_kj@[l] && kk + l < kk_end_clamp {
                    depth_step_at(src@, offset as int, kk + l)
                } else {
                    ld_k@[l] as int
                }),
        decreases n_lanes - i,
    {
        if mask_en_kj[i] && kk + i < kk_end_clamp {
            proof {
                assert(depth_step_at(src@, offset as int, (kk + i) as int) == src@[(kk + i) as int]
                    + src@[kk + i - offset]);
            }
            sum_kj.push(ld_k[i] + ld_j[i]);
        } else {
            sum_kj.push(ld_k[i]);
        }
        i = i + 1;
    }
    let ghost dst0 = dst@;
    // Store the pass-through lanes: companion disabled because the lane
    // index is below the offset.
    let mut i: usize = 0;
    while i < n_lanes
        invariant
            i <= n_lanes,
            kk + n_lanes <= usize::MAX,
            kk < kk_end_clamp <= n,
            n <= dst@.len(),
            dst@.len() == dst0.len(),
            mask_en_k@.len() == n_lanes,
            forall|l: int| 0 <= l < n_lanes ==> mask_en_k@[l] == (kk + l >= offset),
            ld_k@.len() == n_lanes,
            forall|l: int|
                0 <= l < n_lanes ==> ld_k@[l] == (if kk + l < kk_end_clamp {
                    src@[kk + l]
                } else {
                    def
                }),
            n <= src@.len(),
            forall|l: int|
                0 <= l < i && !mask_en_k@[l] && kk + l < kk_end_clamp ==> dst@[kk + l] == src@[kk
                    + l],
            forall|k: int|
                0 <= k < dst0.len() && !(kk <= k < kk_end_clamp && k - kk < i && !mask_en_k@[k
                    - kk]) ==> dst@[k] == dst0[k],
        decreases n_lanes - i,
    {
        let k = kk + i;
        if k < kk_end_clamp {
            if !mask_en_k[i] {
                dst[k] = ld_k[i];
            }
        }
        i = i + 1;
    }
    let ghost dst1 = dst@;
    // Store the summed lanes: index and companion both enabled.
    let mut i: usize = 0;
    while i < n_lanes
        invariant
            i <= n_lanes,
            kk + n_lanes <= usize::MAX,
            kk < kk_end_clamp <= n,
            n <= dst@.len(),
            dst@.len() == dst1.len(),
            mask_en_kj@.len() == n_lanes,
            forall|l: int|
                0 <= l < n_lanes ==> mask_en_kj@[l] == (kk + l >= offset && kk + l - offset < n),
            sum_kj@.len() == n_lanes,
            forall|l: int|
                0 <= l < n_lanes ==> sum_kj@[l] == (if mask_en_kj@[l] && kk + l < kk_end_clamp {
                    depth_step_at(src@, offset as int, kk + l)
                } else {
                    ld_k@[l] as int
                }),
            forall|l: int|
                0 <= l < i && mask_en_kj@[l] && kk + l < kk_end_clamp ==> dst@[kk + l]
                    == depth_step_at(src@, offset as int, kk + l),
            forall|k: int|
                0 <= k < dst1.len() && !(kk <= k < kk_end_clamp && k - kk < i && mask_en_kj@[k
                    - kk]) ==> dst@[k] == dst1[k],
        decreases n_lanes - i,
    {
        let k = kk + i;
        if k < kk_end_clamp {
            if mask_en_kj[i] {
                dst[k] = sum_kj[i];
            }
        }
        i = i + 1;
    }
    proof {
        assert forall|k: int| kk <= k < n && k < kk + n_lanes implies dst@[k] == depth_step_at(
            src@,
            offset as int,
            k,
        ) by {
            let l = k - kk;
            if k >= offset {
                assert(mask_en_kj@[l] == (k - offset < n));
                assert(k - offset < n);
                assert(dst@[k] == depth_step_at(src@, offset as int, k));
            } else {
                assert(!mask_en_k@[l]);
                assert(dst1[k] == src@[k]);
                assert(dst@[k] == dst1[k]);
            }
        }
    }
}

impl Scan {
    /// The vectorized double-buffered tree scan: the same recurrence and
    /// buffer discipline as the scalar double-buffered strategy, executed
    /// lane chunk by lane chunk under masks.
    pub fn process(
        &self,
        def: i64,
        v_in: &Vec<i64>,
        v_out: &mut Vec<i64>,
        n_lanes: usize,
    ) -> (r: Result<(), ScanError>)
        requires
            1 <= n_lanes,
            v_in@.len() + n_lanes <= usize::MAX,
            old(v_out)@.len() == v_in@.len() ==> windows_bounded(def, v_in@),
        ensures
            r is Ok <==> v_in@.len() == old(v_out)@.len(),
            r is Ok ==> final(v_out)@.len() == v_in@.len() && forall|k: int|
                0 <= k < v_in@.len() ==> final(v_out)@[k] == scan_at(def, v_in@, k),
            r is Err ==> r == Err::<(), ScanError>(ScanError::ArgumentMismatch) && final(v_out)@
                == old(v_out)@,
    {
        let n_in = v_in.len();
        let n_out = v_out.len();
        match Self::check_args(n_in, n_out) {
            Err(e) => {
                return Err(e);
            },
            Ok(()) => {},
        }
        if n_out == 0 {
            return Ok(());
        }
        let n = n_out;
        let ghost v = v_in@;
        // The rotated initial layout in buffer A, mirrored into buffer B.
        let mut buf_a = alloc_vec(n, def);
        let mut k: usize = 1;
        while k < n
            invariant
                1 <= k <= n,
                n == v_in@.len(),
                buf_a@.len() == n,
                buf_a@[0] == def,
                forall|j: int| 1 <= j < k ==> buf_a@[j] == v_in@[j - 1],
            decreases n - k,
        {
            buf_a[k] = v_in[k - 1];
            k = k + 1;
        }
        let mut buf_b = alloc_vec(n, def);
        let _ = copy_simd(n, def, &buf_a, &mut buf_b, n_lanes);
        proof {
            assert forall|j: int| 0 <= j < n implies buf_a@[j] == rot_spec(def, v)[j] by {
                if j > 0 {
                    assert(rot_spec(def, v)[j] == v[j - 1]);
                }
            }
            lemma_windows_base(def, v, buf_a@);
            assert forall|j: int| 0 <= j < n implies buf_b@[j] == rot_spec(def, v)[j] by {
                assert(buf_b@[j] == buf_a@[j]);
            }
            lemma_windows_base(def, v, buf_b@);
        }
        let d_end = ceil_log2(n);
        let mut mode = DoubleBufferMode::default();
        let mut d: usize = 0;
        let mut offset: usize = 1;
        proof {
            lemma2_to64();
        }
        while d < d_end
            invariant
                d <= d_end,
                n == v.len(),
                n == v_in@.len(),
                buf_a@.len() == n,
                buf_b@.len() == n,
                1 <= n,
                1 <= n_lanes,
                n + n_lanes <= usize::MAX,
                windows_bounded(def, v),
                mode == mode_after(DoubleBufferMode::A, d as nat),
                d < d_end ==> offset == pow2(d as nat),
                offset >= 1,
                buf_matches(def, v, cur_of(mode, buf_a@, buf_b@), d as nat),
                pow2(d_end as nat) >= n,
                d_end > 0 ==> pow2((d_end - 1) as nat) < n,
            decreases d_end - d,
        {
            let ghost cur0 = cur_of(mode, buf_a@, buf_b@);
            proof {
                lemma_depth_step_all(def, v, cur0, d as nat);
            }
            let mut kk: usize = 0;
            while kk < n
                invariant
                    kk <= n + n_lanes,
                    n == v.len(),
                    buf_a@.len() == n,
                    buf_b@.len() == n,
                    1 <= n,
                    1 <= n_lanes,
                    n + n_lanes <= usize::MAX,
                    1 <= offset,
                    cur_of(mode, buf_a@, buf_b@) == cur0,
                    forall|j: int|
                        0 <= j < n ==> i64::MIN <= #[trigger] depth_step_at(
                            cur0,
                            offset as int,
                            j,
                        ) <= i64::MAX,
                    forall|j: int|
                        0 <= j < n && j < kk ==> nxt_of(mode, buf_a@, buf_b@)[j] == depth_step_at(
                            cur0,
                            offset as int,
                            j,
                        ),
                decreases n + n_lanes - kk,
            {
                match mode {
                    DoubleBufferMode::A => simd_depth_chunk(
                        &buf_a,
                        &mut buf_b,
                        n,
                        offset,
                        kk,
                        n_lanes,
                        def,
                    ),
                    DoubleBufferMode::B => simd_depth_chunk(
                        &buf_b,
                        &mut buf_a,
                        n,
                        offset,
                        kk,
                        n_lanes,
                        def,
                    ),
                }
                kk = kk + n_lanes;
            }
            proof {
                let nxt1 = nxt_of(mode, buf_a@, buf_b@);
                assert forall|j: int| 0 <= j < n implies nxt1[j] == window_at(
                    def,
                    v,
                    (d + 1) as nat,
                    j,
                ) by {
                    assert(nxt1[j] == depth_step_at(cur0, offset as int, j));
                }
                if d + 1 < d_end {
                    lemma_pow2_le((d + 1) as nat, (d_end - 1) as nat);
                    assert(pow2((d + 1) as nat) == 2 * pow2(d as nat)) by {
                        lemma_pow2_adds(d as nat, 1);
                        lemma2_to64();
                    }
                    assert(offset <= usize::MAX / 2);
                }
            }
            mode.swap();
            offset = if offset <= usize::MAX / 2 {
                offset * 2
            } else {
                offset
            };
            d = d + 1;
        }
        let ghost res = cur_of(mode, buf_a@, buf_b@);
        proof {
            lemma_scan_from_windows(def, v, res, d_end as nat);
        }
        match mode {
            DoubleBufferMode::A => {
                let _ = copy_simd(n, def, &buf_a, v_out, n_lanes);
                proof {
                    assert forall|k: int| 0 <= k < n implies v_out@[k] == scan_at(def, v, k) by {
                        assert(v_out@[k] == buf_a@[k]);
                        assert(res[k] == scan_at(def, v, k));
                    }
                }
            },
            DoubleBufferMode::B => {
                let _ = copy_simd(n, def, &buf_b, v_out, n_lanes);
                proof {
                    assert forall|k: int| 0 <= k < n implies v_out@[k] == scan_at(def, v, k) by {
                        assert(v_out@[k] == buf_b@[k]);
                        assert(res[k] == scan_at(def, v, k));
                    }
                }
            },
        }
        Ok(())
    }
}

} // verus!
