//! The fallback strategy behind identifiers that have no real algorithm: it
//! returns an explicit error instead of crashing.

use vstd::prelude::*;

use crate::support::IScan;
use crate::support::ScanError;

verus! {

#[derive(Clone, Copy)]
pub struct Scan {
    pub verbose: bool,
}

impl IScan for Scan {
    open spec fn wf(&self) -> bool {
        true
    }

    fn new(verbose: bool) -> Self {
        Self { verbose }
    }
}

impl Scan {
    /// An unimplemented default: every invocation returns the
    /// `UnimplementedStrategy` error and leaves the output untouched.
    pub fn process(&self, _identity: i64, _v_in: &Vec<i64>, v_out: &mut Vec<i64>) -> (r: Result<
        (),
        ScanError,
    >)
        ensures
            r == Err::<(), ScanError>(ScanError::UnimplementedStrategy),
            final(v_out)@ == old(v_out)@,
    {
        Err(ScanError::UnimplementedStrategy)
    }
}

} // verus!
