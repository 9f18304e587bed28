//! Shared primitives: error values, buffer allocation and bulk element moves,
//! numeric casts, and the two-valued double-buffer mode with its parity law.

use vstd::prelude::*;
use vstd::arithmetic::power2::*;

verus! {

/// The number of depths the offset-doubling algorithms run: the least `d`
/// with `2^d >= n`.
pub fn ceil_log2(n: usize) -> (r: usize)
    ensures
        pow2(r as nat) >= n,
        r > 0 ==> pow2((r - 1) as nat) < n,
        n <= 1 ==> r == 0,
{
    let mut d: usize = 0;
    let mut p: u128 = 1;
    proof {
        lemma2_to64();
    }
    while p < n as u128
        invariant
            p == pow2(d as nat),
            p >= 1,
            d > 0 ==> pow2((d - 1) as nat) < n,
            d <= 64,
        decreases 2 * (n as int) - p as int,
    {
        proof {
            lemma2_to64();
            assert(d < 64);
            assert(pow2((d + 1) as nat) == 2 * pow2(d as nat)) by {
                lemma_pow2_adds(d as nat, 1);
            }
        }
        p = p * 2;
        d = d + 1;
    }
    proof {
        if d > 0 {
            lemma_pow2_pos((d - 1) as nat);
        }
    }
    d
}

/// The ceiling of `a / b`.
pub open spec fn div_ceil_spec(a: nat, b: nat) -> nat
    recommends
        b >= 1,
{
    (((a + b - 1) as int) / (b as int)) as nat
}

/// The number of lane chunks (or worker chunks) that cover `a` elements in
/// groups of `b`.
pub fn div_ceil(a: usize, b: usize) -> (r: usize)
    requires
        1 <= b,
    ensures
        r == div_ceil_spec(a as nat, b as nat),
{
    if a == 0 {
        proof {
            vstd::arithmetic::div_mod::lemma_basic_div((b - 1) as int, b as int);
        }
        0
    } else {
        let q = (a - 1) / b;
        proof {
            vstd::arithmetic::div_mod::lemma_fundamental_div_mod((a - 1) as int, b as int);
            let r0 = ((a - 1) as int) % (b as int);
            assert((b as int) * (q + 1) == (b as int) * (q as int) + (b as int) && (b as int) * (
            q as int) >= q as int) by (nonlinear_arith)
                requires
                    b >= 1,
                    q >= 0,
            ;
            vstd::arithmetic::div_mod::lemma_fundamental_div_mod_converse(
                (a + b - 1) as int,
                b as int,
                q + 1,
                r0,
            );
        }
        q + 1
    }
}

/// The errors a scan strategy can return.  Every one is a value the caller
/// can inspect; no strategy panics on inputs its contract admits.
#[derive(Clone, Copy, Debug, PartialEq, Eq, Structural)]
pub enum ScanError {
    /// The input and output sequences have different lengths.
    ArgumentMismatch,
    /// The requested length exceeds the fixed internal buffer capacity.
    CapacityExceeded,
    /// A worker acknowledgment could not be received during the barrier
    /// protocol; the invocation is aborted.
    WorkerCommunicationFailure,
    /// The selected identifier has no implemented algorithm behind it.
    UnimplementedStrategy,
}

impl ScanError {
    /// The descriptive message of each error, as a character sequence.
    pub open spec fn describe_spec(self) -> Seq<char> {
        match self {
            ScanError::ArgumentMismatch => "Expected input and output vectors of equal length"@,
            ScanError::CapacityExceeded => "Expected internal buffer capacity to be at least as large as the input/output size"@,
            ScanError::WorkerCommunicationFailure => "Failed to receive a worker acknowledgment during a work phase"@,
            ScanError::UnimplementedStrategy => "Unimplemented"@,
        }
    }

    /// A descriptive message for the error.
    pub fn describe(&self) -> (r: &'static str)
        ensures
            r@ == self.describe_spec(),
    {
        match self {
            ScanError::ArgumentMismatch => "Expected input and output vectors of equal length",
            ScanError::CapacityExceeded => "Expected internal buffer capacity to be at least as large as the input/output size",
            ScanError::WorkerCommunicationFailure => "Failed to receive a worker acknowledgment during a work phase",
            ScanError::UnimplementedStrategy => "Unimplemented",
        }
    }
}

/// The interface every scan strategy object offers: construction and the
/// shared argument check.
pub trait IScan: Sized {
    /// The strategy object is ready to run.
    spec fn wf(&self) -> bool;

    fn new(verbose: bool) -> (r: Self)
        ensures
            r.wf(),
    ;

    /// Every strategy validates the lengths before any work.
    fn check_args(n_in: usize, n_out: usize) -> (r: Result<(), ScanError>)
        ensures
            r is Ok <==> n_in == n_out,
            r is Err ==> r == Err::<(), ScanError>(ScanError::ArgumentMismatch),
    {
        if n_in != n_out {
            Err(ScanError::ArgumentMismatch)
        } else {
            Ok(())
        }
    }
}

/// Which of the two buffers currently holds the "current" data.
#[derive(Clone, Copy, Debug, PartialEq, Eq, Structural)]
pub enum DoubleBufferMode {
    A,
    B,
}

impl Default for DoubleBufferMode {
    /// The initial mode: buffer A is current.
    fn default() -> (r: Self)
        ensures
            r == DoubleBufferMode::A,
    {
        DoubleBufferMode::A
    }
}

/// The mode reached after `d` swaps from `m`.
pub open spec fn mode_after(m: DoubleBufferMode, d: nat) -> DoubleBufferMode
    decreases d,
{
    if d == 0 {
        m
    } else {
        mode_after(m, (d - 1) as nat).alternate_spec()
    }
}

/// Buffer-mode parity law: after `d` swaps the mode is back at its start
/// exactly when `d` is even.  This is what makes the double-buffered
/// algorithms pick the correct final buffer for both even and odd depth
/// counts.
pub proof fn lemma_mode_parity(m: DoubleBufferMode, d: nat)
    ensures
        mode_after(m, d) == if d % 2 == 0 {
            m
        } else {
            m.alternate_spec()
        },
    decreases d,
{
    if d > 0 {
        lemma_mode_parity(m, (d - 1) as nat);
    }
}

impl DoubleBufferMode {
    /// The other of the two modes.
    pub open spec fn alternate_spec(self) -> Self {
        match self {
            DoubleBufferMode::A => DoubleBufferMode::B,
            DoubleBufferMode::B => DoubleBufferMode::A,
        }
    }

    pub fn get_alternate(self) -> (r: Self)
        ensures
            r == self.alternate_spec(),
    {
        match self {
            DoubleBufferMode::A => DoubleBufferMode::B,
            DoubleBufferMode::B => DoubleBufferMode::A,
        }
    }

    pub fn swap(&mut self)
        ensures
            *final(self) == old(self).alternate_spec(),
    {
        *self = self.get_alternate();
    }

    /// The mode's printable name.
    pub fn name(&self) -> (r: &'static str)
        ensures
            self == DoubleBufferMode::A ==> r@ == "ModeA"@,
            self == DoubleBufferMode::B ==> r@ == "ModeB"@,
    {
        match self {
            DoubleBufferMode::A => "ModeA",
            DoubleBufferMode::B => "ModeB",
        }
    }
}

/// A value that can be converted into the numeric type `T`.
pub trait ICast<T>: Sized {
    /// The conversion does not lose the value.
    spec fn cast_ok(self) -> bool;

    /// The converted value.
    spec fn cast_spec(self) -> T;

    fn cast(self) -> (r: T)
        requires
            self.cast_ok(),
        ensures
            r == self.cast_spec(),
    ;
}

impl ICast<i32> for i64 {
    open spec fn cast_ok(self) -> bool {
        i32::MIN <= self <= i32::MAX
    }

    open spec fn cast_spec(self) -> i32 {
        self as i32
    }

    fn cast(self) -> i32 {
        self as i32
    }
}

impl ICast<i64> for i32 {
    open spec fn cast_ok(self) -> bool {
        true
    }

    open spec fn cast_spec(self) -> i64 {
        self as i64
    }

    fn cast(self) -> i64 {
        self as i64
    }
}

/// A type with a largest value.
pub trait ITop: Sized {
    /// The largest value.
    spec fn top_spec() -> Self;

    fn top() -> (r: Self)
        ensures
            r == Self::top_spec(),
    ;
}

/// A type with a zero value.
pub trait IZero: Sized {
    /// The zero value.
    spec fn zero_spec() -> Self;

    fn zero() -> (r: Self)
        ensures
            r == Self::zero_spec(),
    ;
}

impl ITop for i64 {
    open spec fn top_spec() -> i64 {
        i64::MAX
    }

    fn top() -> i64 {
        i64::MAX
    }
}

impl ITop for usize {
    open spec fn top_spec() -> usize {
        usize::MAX
    }

    fn top() -> usize {
        usize::MAX
    }
}

impl IZero for i64 {
    open spec fn zero_spec() -> i64 {
        0
    }

    fn zero() -> i64 {
        0
    }
}

impl IZero for usize {
    open spec fn zero_spec() -> usize {
        0
    }

    fn zero() -> usize {
        0
    }
}

/// Returns a vector of size `n` filled with `def`.
pub fn alloc_vec<T: Copy>(n: usize, def: T) -> (r: Vec<T>)
    ensures
        r@.len() == n,
        forall|i: int| 0 <= i < n ==> r@[i] == def,
{
    let mut v: Vec<T> = Vec::new();
    while v.len() < n
        invariant
            v@.len() <= n,
            forall|i: int| 0 <= i < v@.len() ==> v@[i] == def,
        decreases n - v@.len(),
    {
        v.push(def);
    }
    v
}

/// Returns a buffer of size `n` filled with `def`, ready for element-wise
/// use.  Alignment of the backing storage is a machine-level capability; the
/// buffer returned here carries plain values only.
pub fn alloc_aligned<T: Copy>(n: usize, def: T) -> (r: Vec<T>)
    ensures
        r@.len() == n,
        forall|i: int| 0 <= i < n ==> r@[i] == def,
{
    alloc_vec(n, def)
}

/// The clamped value: `x` raised to at least `begin`, then lowered to at most
/// `end` (the `end` bound is applied last).
pub open spec fn clamp_spec(x: i64, begin: i64, end: i64) -> i64 {
    if (if x < begin {
        begin
    } else {
        x
    }) > end {
        end
    } else {
        if x < begin {
            begin
        } else {
            x
        }
    }
}

/// Clamps the first `n` elements of `v_in` into `[begin, end]` and writes the
/// results into `v_out`.
pub fn clamp(n: usize, v_in: &Vec<i64>, v_out: &mut Vec<i64>, begin: i64, end: i64) -> (r: Result<
    (),
    ScanError,
>)
    requires
        n <= v_in@.len(),
        n <= old(v_out)@.len(),
    ensures
        r is Ok,
        final(v_out)@.len() == old(v_out)@.len(),
        forall|i: int| 0 <= i < n ==> final(v_out)@[i] == clamp_spec(v_in@[i], begin, end),
        forall|i: int| n <= i < old(v_out)@.len() ==> final(v_out)@[i] == old(v_out)@[i],
{
    let mut i: usize = 0;
    while i < n
        invariant
            i <= n,
            n <= v_in@.len(),
            n <= v_out@.len(),
            v_out@.len() == old(v_out)@.len(),
            forall|j: int| 0 <= j < i ==> v_out@[j] == clamp_spec(v_in@[j], begin, end),
            forall|j: int| i <= j < old(v_out)@.len() ==> v_out@[j] == old(v_out)@[j],
        decreases n - i,
    {
        let x = v_in[i];
        let lo = if x < begin {
            begin
        } else {
            x
        };
        let hi = if lo > end {
            end
        } else {
            lo
        };
        v_out[i] = hi;
        i = i + 1;
    }
    Ok(())
}

/// Concatenates `v_a` and `v_b` into `v_dst`, which must be exactly as large
/// as the two sources together; a larger destination is rejected.
pub fn concat<T: Copy>(v_a: &Vec<T>, v_b: &Vec<T>, v_dst: &mut Vec<T>) -> (r: Result<
    (),
    ScanError,
>)
    requires
        v_a@.len() + v_b@.len() <= old(v_dst)@.len(),
    ensures
        r is Ok <==> v_a@.len() + v_b@.len() == old(v_dst)@.len(),
        r is Ok ==> final(v_dst)@ == v_a@ + v_b@,
        r is Err ==> r == Err::<(), ScanError>(ScanError::ArgumentMismatch) && final(v_dst)@ == old(v_dst)@,
{
    let n_a = v_a.len();
    let n_b = v_b.len();
    let n_dst = v_dst.len();
    if n_a + n_b < n_dst {
        return Err(ScanError::ArgumentMismatch);
    }
    let mut i: usize = 0;
    while i < n_a
        invariant
            i <= n_a,
            n_a == v_a@.len(),
            n_b == v_b@.len(),
            v_dst@.len() == n_a + n_b,
            forall|j: int| 0 <= j < i ==> v_dst@[j] == v_a@[j],
        decreases n_a - i,
    {
        v_dst[i] = v_a[i];
        i = i + 1;
    }
    let mut i: usize = 0;
    while i < n_b
        invariant
            i <= n_b,
            n_a + n_b <= usize::MAX,
            n_a == v_a@.len(),
            n_b == v_b@.len(),
            v_dst@.len() == n_a + n_b,
            forall|j: int| 0 <= j < n_a ==> v_dst@[j] == v_a@[j],
            forall|j: int| 0 <= j < i ==> v_dst@[n_a + j] == v_b@[j],
        decreases n_b - i,
    {
        v_dst[n_a + i] = v_b[i];
        i = i + 1;
    }
    proof {
        assert(v_dst@ =~= v_a@ + v_b@);
    }
    Ok(())
}

/// Copies `v_src` into `v_dst`; the two must have equal lengths.
pub fn copy<T: Copy>(v_src: &Vec<T>, v_dst: &mut Vec<T>) -> (r: Result<(), ScanError>)
    requires
        v_src@.len() == old(v_dst)@.len(),
    ensures
        r is Ok,
        final(v_dst)@ == v_src@,
{
    let n = v_src.len();
    let mut i: usize = 0;
    while i < n
        invariant
            i <= n,
            n == v_src@.len(),
            v_dst@.len() == n,
            forall|j: int| 0 <= j < i ==> v_dst@[j] == v_src@[j],
        decreases n - i,
    {
        v_dst[i] = v_src[i];
        i = i + 1;
    }
    proof {
        assert(v_dst@ =~= v_src@);
    }
    Ok(())
}

/// Converts every element of `v_src` into the destination type and writes it
/// at the same index of `v_dst`.
pub fn copy_casted<T: Copy + ICast<U>, U: Copy>(v_src: &Vec<T>, v_dst: &mut Vec<U>) -> (r: Result<
    (),
    ScanError,
>)
    requires
        v_src@.len() <= old(v_dst)@.len(),
        forall|i: int| 0 <= i < v_src@.len() ==> (#[trigger] v_src@[i]).cast_ok(),
    ensures
        r is Ok,
        final(v_dst)@.len() == old(v_dst)@.len(),
        forall|i: int| 0 <= i < v_src@.len() ==> final(v_dst)@[i] == (#[trigger] v_src@[i]).cast_spec(),
        forall|i: int| v_src@.len() <= i < old(v_dst)@.len() ==> final(v_dst)@[i] == old(v_dst)@[i],
{
    let n = v_src.len();
    let mut i: usize = 0;
    while i < n
        invariant
            i <= n,
            n == v_src@.len(),
            n <= v_dst@.len(),
            v_dst@.len() == old(v_dst)@.len(),
            forall|j: int| 0 <= j < n ==> (#[trigger] v_src@[j]).cast_ok(),
            forall|j: int| 0 <= j < i ==> v_dst@[j] == (#[trigger] v_src@[j]).cast_spec(),
            forall|j: int| n <= j < old(v_dst)@.len() ==> v_dst@[j] == old(v_dst)@[j],
            forall|j: int| i <= j < n ==> v_dst@[j] == old(v_dst)@[j],
        decreases n - i,
    {
        let x: T = v_src[i];
        v_dst[i] = x.cast();
        i = i + 1;
    }
    Ok(())
}

/// Rotates right by one: `v_dst[0]` receives `v_src[n]` and `v_dst[1..n]`
/// receives `v_src[0..n-1]`.
pub fn rotate_right<T: Copy>(n: usize, v_src: &Vec<T>, v_dst: &mut Vec<T>) -> (r: Result<
    (),
    ScanError,
>)
    requires
        1 <= n,
        n + 1 <= v_src@.len(),
        n <= old(v_dst)@.len(),
    ensures
        r is Ok,
        final(v_dst)@.len() == old(v_dst)@.len(),
        final(v_dst)@[0] == v_src@[n as int],
        forall|i: int| 1 <= i < n ==> final(v_dst)@[i] == v_src@[i - 1],
        forall|i: int| n <= i < old(v_dst)@.len() ==> final(v_dst)@[i] == old(v_dst)@[i],
{
    v_dst[0] = v_src[n];
    let mut i: usize = 1;
    while i < n
        invariant
            1 <= i <= n,
            n + 1 <= v_src@.len(),
            n <= v_dst@.len(),
            v_dst@.len() == old(v_dst)@.len(),
            v_dst@[0] == v_src@[n as int],
            forall|j: int| 1 <= j < i ==> v_dst@[j] == v_src@[j - 1],
            forall|j: int| i <= j < old(v_dst)@.len() ==> v_dst@[j] == old(v_dst)@[j],
        decreases n - i,
    {
        v_dst[i] = v_src[i - 1];
        i = i + 1;
    }
    Ok(())
}

/// Gathers `n_lanes` elements of `v_src` as named by `indices`: lane `i`
/// receives `v_src[indices[i]]` where the index lies within the lane range,
/// and `def` where it does not.
pub fn swizzle(def: i64, v_src: &Vec<i64>, indices: &Vec<usize>, n_lanes: usize) -> (r: Vec<i64>)
    requires
        n_lanes <= v_src@.len(),
        n_lanes <= indices@.len(),
    ensures
        r@.len() == n_lanes,
        forall|i: int|
            0 <= i < n_lanes ==> r@[i] == (if indices@[i] < n_lanes {
                v_src@[indices@[i] as int]
            } else {
                def
            }),
{
    let mut res: Vec<i64> = Vec::new();
    let mut i: usize = 0;
    while i < n_lanes
        invariant
            i <= n_lanes,
            n_lanes <= v_src@.len(),
            n_lanes <= indices@.len(),
            res@.len() == i,
            forall|j: int|
                0 <= j < i ==> res@[j] == (if indices@[j] < n_lanes {
                    v_src@[indices@[j] as int]
                } else {
                    def
                }),
        decreases n_lanes - i,
    {
        let index = indices[i];
        if index < n_lanes {
            res.push(v_src[index]);
        } else {
            res.push(def);
        }
        i = i + 1;
    }
    res
}

} // verus!
