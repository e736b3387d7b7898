//! Saturating 16-bit cell arithmetic shared by the kernel and the control loop.
use vstd::prelude::*;

verus! {

/// Number of cells that form one vector of the kernel (and one trace word).
pub const L: usize = 16;

/// Bias that places a score of zero in the middle of the 16-bit range.
pub const ZERO: i16 = 16384;

/// Sentinel for a cell that was never reached.
pub const MIN: i16 = 0;

/// Number of rows or columns added by one shift.
pub const STEP: usize = 8;

/// Number of cells in half a vector: the prefix scan works on each half and
/// then carries the lower half's last cell into the upper half.
pub const HALF: usize = 8;

/// One vector of cells.
pub type Simd = [i16; L];

/// Clamps an integer into the range of `i16`.
pub open spec fn sat16(x: int) -> i16 {
    if x > i16::MAX {
        i16::MAX
    } else if x < i16::MIN {
        i16::MIN
    } else {
        x as i16
    }
}

pub open spec fn max16(a: i16, b: i16) -> i16 {
    if a >= b {
        a
    } else {
        b
    }
}

/// Saturating addition of two cells.
pub fn adds(a: i16, b: i16) -> (r: i16)
    ensures
        r == sat16(a + b),
{
    let s: i32 = a as i32 + b as i32;
    if s > i16::MAX as i32 {
        i16::MAX
    } else if s < i16::MIN as i32 {
        i16::MIN
    } else {
        s as i16
    }
}

/// Saturating subtraction of two cells.
pub fn subs(a: i16, b: i16) -> (r: i16)
    ensures
        r == sat16(a - b),
{
    let s: i32 = a as i32 - b as i32;
    if s > i16::MAX as i32 {
        i16::MAX
    } else if s < i16::MIN as i32 {
        i16::MIN
    } else {
        s as i16
    }
}

pub fn max_i16(a: i16, b: i16) -> (r: i16)
    ensures
        r == max16(a, b),
{
    if a >= b {
        a
    } else {
        b
    }
}

/// Clamps a 32-bit score difference into a cell.
pub fn clamp(x: i32) -> (r: i16)
    ensures
        r == sat16(x as int),
{
    if x > i16::MAX as i32 {
        i16::MAX
    } else if x < i16::MIN as i32 {
        i16::MIN
    } else {
        x as i16
    }
}

/// Row-gap closure inside one vector: lane `l` holds the best of `x[k]` moved
/// down by `l - k` extensions, for `k <= l`, with `MIN` as a fresh start before
/// each half of the vector.
pub open spec fn scan_lane(x: Seq<i16>, gap: i16, l: int) -> i16
    decreases l,
{
    let prev: i16 = if l <= 0 {
        MIN
    } else if l % (HALF as int) == 0 {
        max16(scan_lane(x, gap, l - 1), MIN)
    } else {
        scan_lane(x, gap, l - 1)
    };
    max16(sat16(prev + gap), x[l])
}

/// Prefix scan of a vector under the gap-extension cost `gap` (see `scan_lane`).
pub fn simd_prefix_scan_i16(x: Simd, gap: i16) -> (r: Simd)
    ensures
        forall|l: int| 0 <= l < L ==> #[trigger] r@[l] == scan_lane(x@, gap, l),
{
    let mut r: Simd = x;
    let mut prev: i16 = MIN;
    let mut l: usize = 0;
    while l < L
        invariant
            l <= L,
            l > 0 ==> prev == scan_lane(x@, gap, l - 1),
            l == 0 ==> prev == MIN,
            forall|m: int| 0 <= m < l ==> #[trigger] r@[m] == scan_lane(x@, gap, m),
        decreases L - l,
    {
        let p = if l % HALF == 0 {
            max_i16(prev, MIN)
        } else {
            prev
        };
        let v = max_i16(adds(p, gap), x[l]);
        r.set(l, v);
        prev = v;
        l += 1;
    }
    r
}

/// The extension cost of a gap of `l + 1` cells in lane `l`.
pub fn get_gap_extend_all(gap: i16) -> (r: Simd)
    requires
        -2048 <= gap <= 2047,
    ensures
        forall|l: int| 0 <= l < L ==> #[trigger] r@[l] == (l + 1) * gap,
{
    let mut r: Simd = [MIN; L];
    let mut l: usize = 0;
    while l < L
        invariant
            l <= L,
            -2048 <= gap <= 2047,
            forall|m: int| 0 <= m < l ==> #[trigger] r@[m] == (m + 1) * gap,
        decreases L - l,
    {
        proof {
            assert(-32768 <= (l + 1) * gap <= 32767) by (nonlinear_arith)
                requires
                    l < 16,
                    -2048 <= gap <= 2047,
            ;
        }
        r.set(l, ((l + 1) as i16) * gap);
        l += 1;
    }
    r
}

/// Two saturating moves by non-positive amounts make one move by their sum.
pub proof fn lemma_sat_chain(a: i16, t: int, g: int)
    requires
        t <= 0,
        g <= 0,
    ensures
        sat16(sat16(a + t) + g) == sat16(a + t + g),
{
}

/// Moving by the same amount keeps the larger of two cells the larger.
pub proof fn lemma_sat_max(a: i16, b: i16, g: int)
    ensures
        sat16(max16(a, b) + g) == max16(sat16(a + g), sat16(b + g)),
{
}

/// `n / d` rounded up.
pub fn div_ceil(n: usize, d: usize) -> (r: usize)
    requires
        d > 0,
        n + d - 1 <= usize::MAX,
    ensures
        r == (n + d - 1) as int / d as int,
        r * d >= n,
{
    let r = (n + (d - 1)) / d;
    assert(r * d >= n) by (nonlinear_arith)
        requires
            r == (n + d - 1) as int / d as int,
            d > 0,
            n >= 0,
    ;
    r
}

} // verus!
