//! The accelerator-backed variant of the double-buffered tree scan.  The
//! parallel kernel runs on an external compute device outside this library;
//! what lives here are the interface-boundary computations around it: the
//! strategy object, narrowing the rotated input to the device's 32-bit
//! elements with a range check, and selecting the correct result buffer by
//! depth parity when the data comes back.

use vstd::prelude::*;

use crate::support::ICast;
use crate::support::IScan;
use crate::support::ScanError;

verus! {

#[derive(Clone, Copy)]
pub struct Scan {
    pub verbose: bool,
}

impl IScan for Scan {
    open spec fn wf(&self) -> bool {
        true
    }

    fn new(verbose: bool) -> Self {
        Self { verbose }
    }
}

impl Scan {
    /// Builds the device submission: the input rotated right by one with the
    /// identity first, every element narrowed to 32 bits.  Returns `None`
    /// when the identity or an element lies outside the device's value
    /// range.
    pub fn device_input(def: i64, v_in: &Vec<i64>) -> (r: Option<Vec<i32>>)
        ensures
            r is Some <==> (v_in@.len() == 0 || (i32::MIN <= def <= i32::MAX && forall|i: int|
                0 <= i < v_in@.len() - 1 ==> i32::MIN <= #[trigger] v_in@[i] <= i32::MAX)),
            r matches Some(g) ==> g@.len() == v_in@.len() && (v_in@.len() > 0 ==> g@[0]
                == def as i32) && forall|i: int|
                1 <= i < v_in@.len() ==> g@[i] == v_in@[i - 1] as i32,
    {
        let n = v_in.len();
        if n == 0 {
            return Some(Vec::new());
        }
        if def < i32::MIN as i64 || def > i32::MAX as i64 {
            return None;
        }
        let mut g: Vec<i32> = Vec::new();
        g.push(def.cast());
        let mut i: usize = 1;
        while i < n
            invariant
                1 <= i <= n,
                n == v_in@.len(),
                i32::MIN <= def <= i32::MAX,
                g@.len() == i,
                g@[0] == def as i32,
                forall|j: int| 0 <= j < i - 1 ==> i32::MIN <= #[trigger] v_in@[j] <= i32::MAX,
                forall|j: int| 1 <= j < i ==> g@[j] == v_in@[j - 1] as i32,
            decreases n - i,
        {
            let x = v_in[i - 1];
            if x < i32::MIN as i64 || x > i32::MAX as i64 {
                return None;
            }
            g.push(x.cast());
            i = i + 1;
        }
        Some(g)
    }

    /// Selects the device buffer that holds the final result: after an odd
    /// number of depths it is the working buffer `data_a`, after an even
    /// number the mirror `data_b`; the chosen buffer is widened into the
    /// output.
    pub fn device_output(
        d_end: usize,
        data_a: &Vec<i32>,
        data_b: &Vec<i32>,
        v_out: &mut Vec<i64>,
    ) -> (r: Result<(), ScanError>)
        requires
            data_a@.len() >= old(v_out)@.len(),
            data_b@.len() >= old(v_out)@.len(),
            data_a@.len() == data_b@.len(),
        ensures
            r is Ok,
            final(v_out)@.len() == old(v_out)@.len(),
            d_end % 2 == 1 ==> forall|i: int|
                0 <= i < old(v_out)@.len() ==> final(v_out)@[i] == data_a@[i] as i64,
            d_end % 2 == 0 ==> forall|i: int|
                0 <= i < old(v_out)@.len() ==> final(v_out)@[i] == data_b@[i] as i64,
    {
        let n = v_out.len();
        let src = if d_end % 2 == 1 {
            data_a
        } else {
            data_b
        };
        let mut i: usize = 0;
        while i < n
            invariant
                i <= n,
                n <= src@.len(),
                v_out@.len() == n,
                n == old(v_out)@.len(),
                forall|j: int| 0 <= j < i ==> v_out@[j] == src@[j] as i64,
            decreases n - i,
        {
            let x: i32 = src[i];
            v_out[i] = x.cast();
            i = i + 1;
        }
        Ok(())
    }
}

} // verus!
