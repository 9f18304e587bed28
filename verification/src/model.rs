//! The mathematical model of the exclusive scan: range sums, the rotated
//! initial layout shared by the tree algorithms, the per-depth window
//! invariant of the offset-doubling recurrence, and the laws that relate the
//! strategies to the sequential ground truth.

use vstd::prelude::*;
use vstd::arithmetic::power2::*;

verus! {

/// Sum of the elements of `s` with indices in `[i, j)`, as an unbounded integer.
pub open spec fn sum_range(s: Seq<i64>, i: int, j: int) -> int
    decreases j - i,
{
    if i >= j {
        0
    } else {
        sum_range(s, i, j - 1) + s[j - 1]
    }
}

/// The exclusive prefix sum at position `k`: the identity plus the sum of `v[0..k)`.
pub open spec fn scan_at(def: i64, v: Seq<i64>, k: int) -> int {
    def + sum_range(v, 0, k)
}

/// The whole output sequence that every scan strategy must produce.
pub open spec fn scan_spec(def: i64, v: Seq<i64>) -> Seq<int> {
    Seq::new(v.len(), |k: int| scan_at(def, v, k))
}

/// The input right-rotated by one position with the identity forced into
/// position 0: the initial buffer layout shared by the tree algorithms.
pub open spec fn rot_spec(def: i64, v: Seq<i64>) -> Seq<i64>
    recommends
        v.len() >= 1,
{
    seq![def] + v.take(v.len() - 1)
}

/// Every prefix sum of the scan fits in `i64`.  This is what the sequential
/// strategy needs to run without overflow.
pub open spec fn prefixes_bounded(def: i64, v: Seq<i64>) -> bool {
    forall|k: int| 0 <= k < v.len() ==> i64::MIN <= #[trigger] scan_at(def, v, k) <= i64::MAX
}

/// Every contiguous-range sum of the rotated input fits in `i64`.  The
/// offset-doubling algorithms hold such range sums in their buffers at every
/// depth, so this is what they need to run without overflow.
pub open spec fn windows_bounded(def: i64, v: Seq<i64>) -> bool {
    forall|i: int, j: int|
        0 <= i <= j <= v.len() ==> i64::MIN <= #[trigger] sum_range(
            rot_spec(def, v),
            i,
            j,
        ) <= i64::MAX
}

/// One element of the offset-doubling update: combine position `k` with its
/// companion `k - offset` where the companion exists, else pass through.
pub open spec fn depth_step_at(s: Seq<i64>, offset: int, k: int) -> int {
    if k >= offset {
        s[k] + s[k - offset]
    } else {
        s[k] as int
    }
}

/// The lower end of the window that position `k` holds after `e` depths.
pub open spec fn win_lo(k: int, e: nat) -> int {
    if k + 1 - pow2(e) >= 0 {
        k + 1 - pow2(e)
    } else {
        0
    }
}

/// The value position `k` holds after `e` depths of the offset-doubling
/// recurrence: the sum of the rotated input over `[win_lo(k, e), k]`.
pub open spec fn window_at(def: i64, v: Seq<i64>, e: nat, k: int) -> int {
    sum_range(rot_spec(def, v), win_lo(k, e), k + 1)
}

/// The buffer `s` holds the depth-`e` state of the recurrence on its first
/// `v.len()` positions.
pub open spec fn buf_matches(def: i64, v: Seq<i64>, s: Seq<i64>, e: nat) -> bool {
    &&& s.len() >= v.len()
    &&& forall|k: int| 0 <= k < v.len() ==> #[trigger] s[k] == window_at(def, v, e, k)
}

/// The buffer a depth reads from: the `a` side iff the mode is `A`.
pub open spec fn cur_of<T>(mode: crate::support::DoubleBufferMode, a: T, b: T) -> T {
    if mode == crate::support::DoubleBufferMode::A {
        a
    } else {
        b
    }
}

/// The buffer a depth writes to: the side `cur_of` does not pick.
pub open spec fn nxt_of<T>(mode: crate::support::DoubleBufferMode, a: T, b: T) -> T {
    if mode == crate::support::DoubleBufferMode::A {
        b
    } else {
        a
    }
}

/// Monotonicity of powers of two.
pub proof fn lemma_pow2_le(a: nat, b: nat)
    requires
        a <= b,
    ensures
        pow2(a) <= pow2(b),
{
    if a < b {
        lemma_pow2_strictly_increases(a, b);
    }
}

/// Splitting a range sum at a midpoint.
pub proof fn lemma_sum_range_split(s: Seq<i64>, i: int, m: int, j: int)
    requires
        i <= m <= j,
    ensures
        sum_range(s, i, j) == sum_range(s, i, m) + sum_range(s, m, j),
    decreases j - m,
{
    if m < j {
        lemma_sum_range_split(s, i, m, j - 1);
    }
}

/// A sum over a prefix of the rotated input is the identity plus a prefix sum
/// of the input itself.
pub proof fn lemma_sum_rot_prefix(def: i64, v: Seq<i64>, k: int)
    requires
        v.len() >= 1,
        0 <= k <= v.len(),
    ensures
        sum_range(rot_spec(def, v), 0, k) == if k == 0 {
            0
        } else {
            scan_at(def, v, k - 1)
        },
    decreases k,
{
    if k > 0 {
        lemma_sum_rot_prefix(def, v, k - 1);
        if k == 1 {
            assert(rot_spec(def, v)[0] == def);
        } else {
            assert(rot_spec(def, v)[k - 1] == v[k - 2]);
        }
    }
}

/// A freshly rotated buffer is the depth-0 state: each position holds the
/// one-element window ending at itself.
pub proof fn lemma_windows_base(def: i64, v: Seq<i64>, s: Seq<i64>)
    requires
        v.len() >= 1,
        s.len() >= v.len(),
        forall|k: int| 0 <= k < v.len() ==> s[k] == rot_spec(def, v)[k],
    ensures
        buf_matches(def, v, s, 0),
{
    assert forall|k: int| 0 <= k < v.len() implies #[trigger] s[k] == window_at(def, v, 0, k) by {
        lemma_pow2_unfold(1);
        assert(pow2(0) == 1) by {
            lemma_pow2(0);
            vstd::arithmetic::power::lemma_pow0(2);
        }
        assert(win_lo(k, 0) == k);
        assert(sum_range(rot_spec(def, v), k, k + 1) == sum_range(rot_spec(def, v), k, k)
            + rot_spec(def, v)[k]);
    }
}

/// One offset-doubling update applied to the depth-`e` state yields the
/// depth-`e + 1` state, and every value involved stays within `i64` bounds.
pub proof fn lemma_depth_step(def: i64, v: Seq<i64>, s: Seq<i64>, e: nat, k: int)
    requires
        v.len() >= 1,
        windows_bounded(def, v),
        buf_matches(def, v, s, e),
        0 <= k < v.len(),
    ensures
        i64::MIN <= depth_step_at(s, pow2(e) as int, k) <= i64::MAX,
        depth_step_at(s, pow2(e) as int, k) == window_at(def, v, (e + 1) as nat, k),
{
    let r = rot_spec(def, v);
    let off = pow2(e) as int;
    lemma_pow2_pos(e);
    assert(pow2((e + 1) as nat) == 2 * pow2(e)) by {
        lemma_pow2_adds(e, 1);
        lemma_pow2_unfold(1);
        assert(pow2(1) == 2) by {
            lemma_pow2(1);
            vstd::arithmetic::power::lemma_pow1(2);
        }
    }
    assert(r.len() == v.len());
    if k >= off {
        assert(s[k] == window_at(def, v, e, k));
        assert(s[k - off] == window_at(def, v, e, k - off));
        assert(win_lo(k, e) == k + 1 - off);
        assert(win_lo(k - off, e) == win_lo(k, (e + 1) as nat));
        lemma_sum_range_split(r, win_lo(k, (e + 1) as nat), k + 1 - off, k + 1);
        assert(0 <= win_lo(k, (e + 1) as nat) <= k + 1 <= v.len());
    } else {
        assert(win_lo(k, e) == 0);
        assert(win_lo(k, (e + 1) as nat) == 0);
        assert(s[k] == window_at(def, v, e, k));
    }
}

/// All positions at once: one update turns the depth-`e` state held in `s`
/// into the depth-`e + 1` state, within `i64` bounds everywhere.
pub proof fn lemma_depth_step_all(def: i64, v: Seq<i64>, s: Seq<i64>, e: nat)
    requires
        v.len() >= 1,
        windows_bounded(def, v),
        buf_matches(def, v, s, e),
    ensures
        forall|k: int|
            0 <= k < v.len() ==> i64::MIN <= #[trigger] depth_step_at(s, pow2(e) as int, k)
                <= i64::MAX,
        forall|k: int|
            0 <= k < v.len() ==> #[trigger] depth_step_at(s, pow2(e) as int, k) == window_at(
                def,
                v,
                (e + 1) as nat,
                k,
            ),
{
    assert forall|k: int| 0 <= k < v.len() implies i64::MIN <= #[trigger] depth_step_at(
        s,
        pow2(e) as int,
        k,
    ) <= i64::MAX && depth_step_at(s, pow2(e) as int, k) == window_at(def, v, (e + 1) as nat, k) by {
        lemma_depth_step(def, v, s, e, k);
    }
}

/// Once the offset has grown past the length, every window reaches back to
/// position 0, so the buffer holds the exclusive prefix sums.
pub proof fn lemma_scan_from_windows(def: i64, v: Seq<i64>, s: Seq<i64>, e: nat)
    requires
        v.len() >= 1,
        buf_matches(def, v, s, e),
        pow2(e) >= v.len(),
    ensures
        forall|k: int| 0 <= k < v.len() ==> #[trigger] s[k] == scan_at(def, v, k),
{
    assert forall|k: int| 0 <= k < v.len() implies #[trigger] s[k] == scan_at(def, v, k) by {
        assert(win_lo(k, e) == 0);
        assert(s[k] == window_at(def, v, e, k));
        lemma_sum_rot_prefix(def, v, k + 1);
    }
}

/// Exclusive prefix-sum law: with identity 0 the output at `k` is exactly the
/// sum of `v[0..k)`, and in particular the output starts with 0.
pub proof fn lemma_exclusive_scan_law(v: Seq<i64>)
    ensures
        forall|k: int| 0 <= k < v.len() ==> #[trigger] scan_spec(0, v)[k] == sum_range(v, 0, k),
        v.len() > 0 ==> scan_spec(0, v)[0] == 0,
{
}

/// Cross-strategy equivalence: any two outputs that both realize the scan of
/// the same `(identity, input)` pair are identical, element for element.
pub proof fn lemma_cross_strategy_equivalence(
    def: i64,
    v: Seq<i64>,
    out_a: Seq<i64>,
    out_b: Seq<i64>,
)
    requires
        out_a.len() == v.len(),
        out_b.len() == v.len(),
        forall|k: int| 0 <= k < v.len() ==> #[trigger] out_a[k] == scan_at(def, v, k),
        forall|k: int| 0 <= k < v.len() ==> #[trigger] out_b[k] == scan_at(def, v, k),
    ensures
        out_a == out_b,
{
    assert(out_a =~= out_b);
}

/// The chunked strategy's output does not depend on the chunk size: two runs
/// over the same `(identity, input)` pair with different chunk sizes agree.
pub proof fn lemma_chunk_size_independence(
    def: i64,
    v: Seq<i64>,
    chunk_a: usize,
    chunk_b: usize,
    out_a: Seq<i64>,
    out_b: Seq<i64>,
)
    requires
        out_a.len() == v.len(),
        out_b.len() == v.len(),
        forall|k: int| 0 <= k < v.len() ==> #[trigger] out_a[k] == scan_at(def, v, k),
        forall|k: int| 0 <= k < v.len() ==> #[trigger] out_b[k] == scan_at(def, v, k),
    ensures
        out_a == out_b,
{
    lemma_cross_strategy_equivalence(def, v, out_a, out_b);
}

} // verus!
