//! The sequential scan strategy: a single O(n) pass.  It defines the
//! ground-truth semantics every other strategy must match.

use vstd::prelude::*;

use crate::model::prefixes_bounded;
use crate::model::scan_at;
use crate::model::sum_range;
use crate::support::IScan;
use crate::support::ScanError;

verus! {

#[derive(Clone, Copy)]
pub struct Scan {
    pub verbose: bool,
}

impl IScan for Scan {
    open spec fn wf(&self) -> bool {
        true
    }

    fn new(verbose: bool) -> Self {
        Self { verbose }
    }
}

impl Scan {
    /// The sequential exclusive scan: position 0 receives the identity, and
    /// each later position adds the previous input element to the previous
    /// output element.
    pub fn process(&self, def: i64, v_in: &Vec<i64>, v_out: &mut Vec<i64>) -> (r: Result<
        (),
        ScanError,
    >)
        requires
            old(v_out)@.len() == v_in@.len() ==> prefixes_bounded(def, v_in@),
        ensures
            r is Ok <==> v_in@.len() == old(v_out)@.len(),
            r is Ok ==> final(v_out)@.len() == v_in@.len() && forall|k: int|
                0 <= k < v_in@.len() ==> final(v_out)@[k] == scan_at(def, v_in@, k),
            r is Err ==> r == Err::<(), ScanError>(ScanError::ArgumentMismatch) && final(v_out)@
                == old(v_out)@,
    {
        let n_in = v_in.len();
        let n_out = v_out.len();
        match Self::check_args(n_in, n_out) {
            Err(e) => {
                return Err(e);
            },
            Ok(()) => {},
        }
        if n_out == 0 {
            return Ok(());
        }
        v_out[0] = def;
        let mut k: usize = 1;
        while k < n_out
            invariant
                1 <= k <= n_out,
                n_out == v_in@.len(),
                v_out@.len() == n_out,
                prefixes_bounded(def, v_in@),
                forall|j: int| 0 <= j < k ==> v_out@[j] == scan_at(def, v_in@, j),
            decreases n_out - k,
        {
            proof {
                assert(sum_range(v_in@, 0, k as int) == sum_range(v_in@, 0, k - 1) + v_in@[k - 1]);
                assert(i64::MIN <= scan_at(def, v_in@, k as int) <= i64::MAX);
            }
            let value = v_in[k - 1] + v_out[k - 1];
            v_out[k] = value;
            k = k + 1;
        }
        Ok(())
    }
}

} // verus!
