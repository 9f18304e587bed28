//! Lane-vectorized primitives, modeled with explicit lane vectors: a "lane
//! register" is a vector of `n_lanes` plain values and a mask is one boolean
//! per lane.  Masked loads, stores and gathers only touch lanes whose mask
//! bit is set; every other lane keeps a supplied default, which is how the
//! vectorized scan handles boundary lanes without branching per element.

use vstd::prelude::*;

use crate::support::div_ceil;
use crate::support::div_ceil_spec;
use crate::support::ScanError;
use crate::support::swizzle;

verus! {

/// Generates a mask from the elements of `v`: the first `min(v.len(),
/// n_lanes)` lanes take their bit from `v`, the rest stay off.
pub fn new_mask(v: &Vec<bool>, n_lanes: usize) -> (r: Vec<bool>)
    ensures
        r@.len() == n_lanes,
        forall|i: int| 0 <= i < n_lanes ==> r@[i] == (i < v@.len() && v@[i]),
{
    let mut r: Vec<bool> = Vec::new();
    let mut i: usize = 0;
    while i < n_lanes
        invariant
            i <= n_lanes,
            r@.len() == i,
            forall|j: int| 0 <= j < i ==> r@[j] == (j < v@.len() && v@[j]),
        decreases n_lanes - i,
    {
        if i < v.len() {
            r.push(v[i]);
        } else {
            r.push(false);
        }
        i = i + 1;
    }
    r
}

/// Generates a mask by testing the first `min(v.len(), n_lanes)` elements of
/// `v` for membership in `[begin, end)`; lanes past `v` stay off.
pub fn new_mask_pred(v: &Vec<usize>, begin: usize, end: usize, n_lanes: usize) -> (r: Vec<bool>)
    ensures
        r@.len() == n_lanes,
        forall|i: int|
            0 <= i < n_lanes ==> r@[i] == (i < v@.len() && begin <= v@[i] && v@[i] < end),
{
    let mut r: Vec<bool> = Vec::new();
    let mut i: usize = 0;
    while i < n_lanes
        invariant
            i <= n_lanes,
            r@.len() == i,
            forall|j: int|
                0 <= j < i ==> r@[j] == (j < v@.len() && begin <= v@[j] && v@[j] < end),
        decreases n_lanes - i,
    {
        if i < v.len() {
            let x = v[i];
            r.push(begin <= x && x < end);
        } else {
            r.push(false);
        }
        i = i + 1;
    }
    r
}

/// Generates a mask by testing every lane of the index vector `v` for
/// membership in `[begin, end)`.
pub fn new_mask_pred_simd(v: &Vec<usize>, begin: usize, end: usize) -> (r: Vec<bool>)
    ensures
        r@.len() == v@.len(),
        forall|i: int| 0 <= i < v@.len() ==> r@[i] == (begin <= v@[i] && v@[i] < end),
{
    let n = v.len();
    let mut r: Vec<bool> = Vec::new();
    let mut i: usize = 0;
    while i < n
        invariant
            i <= n,
            n == v@.len(),
            r@.len() == i,
            forall|j: int| 0 <= j < i ==> r@[j] == (begin <= v@[j] && v@[j] < end),
        decreases n - i,
    {
        let x = v[i];
        r.push(begin <= x && x < end);
        i = i + 1;
    }
    r
}

/// A mask with every lane off.
pub fn new_mask_all_off(n_lanes: usize) -> (r: Vec<bool>)
    ensures
        r@.len() == n_lanes,
        forall|i: int| 0 <= i < n_lanes ==> r@[i] == false,
{
    crate::support::alloc_vec(n_lanes, false)
}

/// A mask with every lane on.
pub fn new_mask_all_on(n_lanes: usize) -> (r: Vec<bool>)
    ensures
        r@.len() == n_lanes,
        forall|i: int| 0 <= i < n_lanes ==> r@[i] == true,
{
    crate::support::alloc_vec(n_lanes, true)
}

/// The gathering swizzle over one lane register: lane `i` receives
/// `v_src[indices[i]]` where the index is a valid lane number, `def` where it
/// is not.
pub fn swizzle_simd(def: i64, v_src: &Vec<i64>, indices: &Vec<usize>, n_lanes: usize) -> (r: Vec<
    i64,
>)
    requires
        n_lanes <= v_src@.len(),
        n_lanes <= indices@.len(),
    ensures
        r@.len() == n_lanes,
        forall|i: int|
            0 <= i < n_lanes ==> r@[i] == (if indices@[i] < n_lanes {
                v_src@[indices@[i] as int]
            } else {
                def
            }),
{
    swizzle(def, v_src, indices, n_lanes)
}

/// Copies the first `n` elements of `v_src` into `v_dst`, lane chunk by lane
/// chunk; elements past `n` are untouched.
pub fn copy_simd(n: usize, _def: i64, v_src: &Vec<i64>, v_dst: &mut Vec<i64>, n_lanes: usize) -> (r:
    Result<(), ScanError>)
    requires
        1 <= n_lanes,
        n <= v_src@.len(),
        n <= old(v_dst)@.len(),
    ensures
        r is Ok,
        final(v_dst)@.len() == old(v_dst)@.len(),
        forall|i: int| 0 <= i < n ==> final(v_dst)@[i] == v_src@[i],
        forall|i: int| n <= i < old(v_dst)@.len() ==> final(v_dst)@[i] == old(v_dst)@[i],
{
    let mut i: usize = 0;
    while i < n
        invariant
            i <= n,
            n <= v_src@.len(),
            n <= v_dst@.len(),
            v_dst@.len() == old(v_dst)@.len(),
            forall|j: int| 0 <= j < i ==> v_dst@[j] == v_src@[j],
            forall|j: int| i <= j < old(v_dst)@.len() ==> v_dst@[j] == old(v_dst)@[j],
        decreases n - i,
    {
        v_dst[i] = v_src[i];
        i = i + 1;
    }
    Ok(())
}

/// Copies lane chunks covering `[0, n)` under two range masks: destination
/// lanes inside `[dst_begin, dst_end)` are written, and they receive the
/// source element where the index also lies in `[src_begin, src_end)`, the
/// default where it does not.  The chunks cover the whole rounded-up area, so
/// both vectors must extend to a full chunk count.
pub fn copy_in_range_simd_masked(
    n: usize,
    def: i64,
    v_src: &Vec<i64>,
    v_dst: &mut Vec<i64>,
    src_begin: usize,
    src_end: usize,
    dst_begin: usize,
    dst_end: usize,
    n_lanes: usize,
) -> (r: Result<(), ScanError>)
    requires
        1 <= n_lanes,
        div_ceil_spec(n as nat, n_lanes as nat) * n_lanes <= v_src@.len(),
        div_ceil_spec(n as nat, n_lanes as nat) * n_lanes <= old(v_dst)@.len(),
    ensures
        r is Ok,
        final(v_dst)@.len() == old(v_dst)@.len(),
        forall|k: int|
            0 <= k < div_ceil_spec(n as nat, n_lanes as nat) * n_lanes && dst_begin <= k < dst_end
                ==> final(v_dst)@[k] == (if src_begin <= k < src_end {
                v_src@[k]
            } else {
                def
            }),
        forall|k: int|
            0 <= k < old(v_dst)@.len() && !(0 <= k < div_ceil_spec(n as nat, n_lanes as nat)
                * n_lanes && dst_begin <= k < dst_end) ==> final(v_dst)@[k] == old(v_dst)@[k],
{
    let n_chunks = div_ceil(n, n_lanes);
    let n_cap = v_src.len();
    proof {
        assert(n_chunks * n_lanes == div_ceil_spec(n as nat, n_lanes as nat) * n_lanes);
        assert(n_chunks * n_lanes <= n_cap);
    }
    let n_area = n_chunks * n_lanes;
    let mut k: usize = 0;
    while k < n_area
        invariant
            k <= n_area,
            n_area == div_ceil_spec(n as nat, n_lanes as nat) * n_lanes,
            n_area <= v_src@.len(),
            n_area <= v_dst@.len(),
            v_dst@.len() == old(v_dst)@.len(),
            forall|j: int|
                0 <= j < k && dst_begin <= j < dst_end ==> v_dst@[j] == (if src_begin <= j
                    < src_end {
                    v_src@[j]
                } else {
                    def
                }),
            forall|j: int|
                0 <= j < old(v_dst)@.len() && !(0 <= j < k && dst_begin <= j < dst_end)
                    ==> v_dst@[j] == old(v_dst)@[j],
        decreases n_area - k,
    {
        if dst_begin <= k && k < dst_end {
            if src_begin <= k && k < src_end {
                v_dst[k] = v_src[k];
            } else {
                v_dst[k] = def;
            }
        }
        k = k + 1;
    }
    Ok(())
}

/// Copies `n` elements chunk by chunk through a per-chunk gathering swizzle:
/// within each lane chunk, the destination lane receives the source element
/// of its own chunk named by the index vector, or the default where the
/// index is not a valid lane number.  `n` must be a whole number of chunks.
pub fn copy_swizzle_simd(
    n: usize,
    def: i64,
    v_src: &Vec<i64>,
    v_dst: &mut Vec<i64>,
    indices: &Vec<usize>,
    n_lanes: usize,
) -> (r: Result<(), ScanError>)
    requires
        1 <= n_lanes,
        n % n_lanes == 0,
        n <= v_src@.len(),
        n <= old(v_dst)@.len(),
        n <= indices@.len(),
    ensures
        r is Ok,
        final(v_dst)@.len() == old(v_dst)@.len(),
        forall|k: int|
            0 <= k < n ==> final(v_dst)@[k] == (if indices@[k] < n_lanes {
                v_src@[k - (k % (n_lanes as int)) + indices@[k]]
            } else {
                def
            }),
        forall|k: int| n <= k < old(v_dst)@.len() ==> final(v_dst)@[k] == old(v_dst)@[k],
{
    let mut kk: usize = 0;
    while kk < n
        invariant
            kk <= n,
            kk % n_lanes == 0,
            1 <= n_lanes,
            n % n_lanes == 0,
            n <= v_src@.len(),
            n <= v_dst@.len(),
            n <= indices@.len(),
            v_dst@.len() == old(v_dst)@.len(),
            forall|j: int|
                0 <= j < kk ==> v_dst@[j] == (if indices@[j] < n_lanes {
                    v_src@[j - (j % (n_lanes as int)) + indices@[j]]
                } else {
                    def
                }),
            forall|j: int| kk <= j < old(v_dst)@.len() ==> v_dst@[j] == old(v_dst)@[j],
        decreases n - kk,
    {
        proof {
            // A partial chunk cannot remain: `n_lanes` divides both `kk` and `n`.
            vstd::arithmetic::div_mod::lemma_sub_mod_noop(n as int, kk as int, n_lanes as int);
            vstd::arithmetic::div_mod::lemma_small_mod(0, n_lanes as nat);
            vstd::arithmetic::div_mod::lemma_mod_is_zero((n - kk) as nat, n_lanes as nat);
            assert(kk + n_lanes <= n);
        }
        let mut l: usize = 0;
        while l < n_lanes
            invariant
                l <= n_lanes,
                kk + n_lanes <= n,
                kk % n_lanes == 0,
                1 <= n_lanes,
                n <= v_src@.len(),
                n <= v_dst@.len(),
                n <= indices@.len(),
                v_dst@.len() == old(v_dst)@.len(),
                forall|j: int|
                    0 <= j < kk + l ==> v_dst@[j] == (if indices@[j] < n_lanes {
                        v_src@[j - (j % (n_lanes as int)) + indices@[j]]
                    } else {
                        def
                    }),
                forall|j: int| kk + l <= j < old(v_dst)@.len() ==> v_dst@[j] == old(v_dst)@[j],
            decreases n_lanes - l,
        {
            let k = kk + l;
            proof {
                vstd::arithmetic::div_mod::lemma_fundamental_div_mod(kk as int, n_lanes as int);
                vstd::arithmetic::div_mod::lemma_mod_multiples_vanish(
                    kk as int / n_lanes as int,
                    l as int,
                    n_lanes as int,
                );
                vstd::arithmetic::div_mod::lemma_small_mod(l as nat, n_lanes as nat);
                assert(k as int % (n_lanes as int) == l as int);
            }
            let idx = indices[k];
            if idx < n_lanes {
                v_dst[k] = v_src[kk + idx];
            } else {
                v_dst[k] = def;
            }
            l = l + 1;
        }
        proof {
            vstd::arithmetic::div_mod::lemma_mod_add_multiples_vanish(kk as int, n_lanes as int);
        }
        kk = kk + n_lanes;
    }
    Ok(())
}

} // verus!
