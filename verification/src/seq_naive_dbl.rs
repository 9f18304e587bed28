//! The double-buffered offset-doubling tree scan: each depth reads from the
//! "current" buffer and writes to the "next" one, so no index order within a
//! depth is hazardous; a final mode check selects the buffer that holds the
//! result.

use vstd::prelude::*;
use vstd::arithmetic::power2::*;

use crate::model::buf_matches;
use crate::model::cur_of;
use crate::model::depth_step_at;
use crate::model::lemma_depth_step_all;
use crate::model::lemma_pow2_le;
use crate::model::lemma_scan_from_windows;
use crate::model::lemma_windows_base;
use crate::model::nxt_of;
use crate::model::rot_spec;
use crate::model::scan_at;
use crate::model::sum_range;
use crate::model::win_lo;
use crate::model::window_at;
use crate::model::windows_bounded;
use crate::support::alloc_vec;
use crate::support::ceil_log2;
use crate::support::copy;
use crate::support::DoubleBufferMode;
use crate::support::IScan;
use crate::support::mode_after;
use crate::support::ScanError;

verus! {

#[derive(Clone, Copy)]
pub struct Scan {
    pub verbose: bool,
}

impl IScan for Scan {
    open spec fn wf(&self) -> bool {
        true
    }

    fn new(verbose: bool) -> Self {
        Self { verbose }
    }
}

/// One depth of the recurrence from `src` into `dst` over positions
/// `[1, n)`; position 0 of `dst` is left alone, as are positions past `n`.
fn depth_pass(src: &Vec<i64>, dst: &mut Vec<i64>, n: usize, offset: usize)
    requires
        1 <= n,
        1 <= offset,
        n <= src@.len(),
        n <= old(dst)@.len(),
        forall|k: int|
            1 <= k < n ==> i64::MIN <= #[trigger] depth_step_at(src@, offset as int, k)
                <= i64::MAX,
    ensures
        final(dst)@.len() == old(dst)@.len(),
        final(dst)@[0] == old(dst)@[0],
        forall|k: int| 1 <= k < n ==> final(dst)@[k] == depth_step_at(src@, offset as int, k),
        forall|k: int| n <= k < old(dst)@.len() ==> final(dst)@[k] == old(dst)@[k],
{
    let mut k: usize = 1;
    while k < n
        invariant
            1 <= k <= n,
            1 <= offset,
            n <= src@.len(),
            n <= dst@.len(),
            dst@.len() == old(dst)@.len(),
            dst@[0] == old(dst)@[0],
            forall|j: int|
                1 <= j < n ==> i64::MIN <= #[trigger] depth_step_at(src@, offset as int, j)
                    <= i64::MAX,
            forall|j: int| 1 <= j < k ==> dst@[j] == depth_step_at(src@, offset as int, j),
            forall|j: int| k <= j < old(dst)@.len() ==> dst@[j] == old(dst)@[j],
        decreases n - k,
    {
        if k >= offset {
            let j = k - offset;
            let a = src[j];
            let b = src[k];
            proof {
                assert(depth_step_at(src@, offset as int, k as int) == src@[k as int] + src@[
                    k - offset
                ]);
            }
            dst[k] = a + b;
        } else {
            dst[k] = src[k];
        }
        k = k + 1;
    }
}

impl Scan {
    /// The double-buffered tree scan: same recurrence as the naive variant,
    /// but reads always come from the current buffer and writes go to the
    /// next one, and the final mode tells which buffer holds the answer.
    pub fn process(&self, def: i64, v_in: &Vec<i64>, v_out: &mut Vec<i64>) -> (r: Result<
        (),
        ScanError,
    >)
        requires
            old(v_out)@.len() == v_in@.len() ==> windows_bounded(def, v_in@),
        ensures
            r is Ok <==> v_in@.len() == old(v_out)@.len(),
            r is Ok ==> final(v_out)@.len() == v_in@.len() && forall|k: int|
                0 <= k < v_in@.len() ==> final(v_out)@[k] == scan_at(def, v_in@, k),
            r is Err ==> r == Err::<(), ScanError>(ScanError::ArgumentMismatch) && final(v_out)@
                == old(v_out)@,
    {
        let n_in = v_in.len();
        let n_out = v_out.len();
        match Self::check_args(n_in, n_out) {
            Err(e) => {
                return Err(e);
            },
            Ok(()) => {},
        }
        if n_out == 0 {
            return Ok(());
        }
        let n = n_out;
        let ghost v = v_in@;
        // Rotate the input right by one into the output buffer, identity
        // first, then mirror it into the scratch buffer.
        let mut k: usize = 1;
        while k < n
            invariant
                1 <= k <= n,
                n == v_in@.len(),
                v_out@.len() == n,
                forall|j: int| 1 <= j < k ==> v_out@[j] == v_in@[j - 1],
            decreases n - k,
        {
            v_out[k] = v_in[k - 1];
            k = k + 1;
        }
        v_out[0] = def;
        let mut tmp = alloc_vec(n, def);
        let _ = copy(v_out, &mut tmp);
        proof {
            assert forall|j: int| 0 <= j < n implies v_out@[j] == rot_spec(def, v)[j] by {
                if j > 0 {
                    assert(rot_spec(def, v)[j] == v[j - 1]);
                }
            }
            lemma_windows_base(def, v, v_out@);
            lemma_windows_base(def, v, tmp@);
        }
        let d_end = ceil_log2(n);
        let mut mode = DoubleBufferMode::default();
        let mut d: usize = 0;
        let mut offset: usize = 1;
        proof {
            lemma2_to64();
        }
        while d < d_end
            invariant
                d <= d_end,
                n == v.len(),
                v_out@.len() == n,
                tmp@.len() == n,
                1 <= n,
                windows_bounded(def, v),
                mode == mode_after(DoubleBufferMode::A, d as nat),
                d < d_end ==> offset == pow2(d as nat),
                offset >= 1,
                buf_matches(def, v, cur_of(mode, tmp@, v_out@), d as nat),
                cur_of(mode, tmp@, v_out@)[0] == def,
                nxt_of(mode, tmp@, v_out@)[0] == def,
                pow2(d_end as nat) >= n,
                d_end > 0 ==> pow2((d_end - 1) as nat) < n,
            decreases d_end - d,
        {
            let ghost cur0 = cur_of(mode, tmp@, v_out@);
            proof {
                lemma_depth_step_all(def, v, cur0, d as nat);
            }
            match mode {
                DoubleBufferMode::A => depth_pass(&tmp, v_out, n, offset),
                DoubleBufferMode::B => depth_pass(v_out, &mut tmp, n, offset),
            }
            proof {
                let nxt1 = nxt_of(mode, tmp@, v_out@);
                assert forall|j: int| 0 <= j < n implies nxt1[j] == window_at(
                    def,
                    v,
                    (d + 1) as nat,
                    j,
                ) by {
                    if j == 0 {
                        lemma_pow2_pos((d + 1) as nat);
                        assert(win_lo(0, (d + 1) as nat) == 0);
                        assert(sum_range(rot_spec(def, v), 0, 1) == sum_range(rot_spec(def, v), 0, 0)
                            + rot_spec(def, v)[0]);
                        assert(rot_spec(def, v)[0] == def);
                    } else {
                        assert(nxt1[j] == depth_step_at(cur0, offset as int, j));
                    }
                }
                if d + 1 < d_end {
                    lemma_pow2_le((d + 1) as nat, (d_end - 1) as nat);
                    assert(pow2((d + 1) as nat) == 2 * pow2(d as nat)) by {
                        lemma_pow2_adds(d as nat, 1);
                        lemma2_to64();
                    }
                    assert(offset <= usize::MAX / 2);
                }
            }
            mode.swap();
            offset = if offset <= usize::MAX / 2 {
                offset * 2
            } else {
                offset
            };
            d = d + 1;
        }
        proof {
            lemma_scan_from_windows(def, v, cur_of(mode, tmp@, v_out@), d_end as nat);
        }
        // Parity step: after an even number of swaps the result sits in the
        // scratch buffer and must be copied out; after an odd number it is
        // already in the output buffer.
        match mode {
            DoubleBufferMode::A => {
                let _ = copy(&tmp, v_out);
            },
            DoubleBufferMode::B => {},
        }
        Ok(())
    }
}

} // verus!
