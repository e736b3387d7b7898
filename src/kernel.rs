//! The block kernel: the affine-gap recurrence over a strip of new cells,
//! computed one vector of `L` rows at a time, and its trace words.
use vstd::prelude::*;
use crate::lanes::{
    L, HALF, MIN, ZERO, Simd, sat16, max16, adds, max_i16, scan_lane, simd_prefix_scan_i16,
    get_gap_extend_all, lemma_sat_chain, lemma_sat_max,
};
use crate::padded::PaddedBytes;
use crate::scores::{Gaps, Matrix};
use crate::trace::{Trace, TraceType, lemma_appended_refl, lemma_appended_trans};

verus! {

/// Score of kernel row `k` against the kernel's column symbol. The kernel
/// always walks right; `right` tells whether its rows are the query (so the
/// table is read query first either way).
pub open spec fn oriented_score<M: Matrix>(m: M, along: u8, across: u8, right: bool) -> int {
    if right {
        m.score_spec(along, across) as int
    } else {
        m.score_spec(across, along) as int
    }
}

/// Best score of a cell that ends in a column gap: extend the gap of the cell
/// to the left, or open one from it.
pub open spec fn col_c(dn: Seq<i16>, cn: Seq<i16>, g: Gaps, k: int) -> i16 {
    max16(sat16(cn[k] + g.extend), sat16(dn[k] + g.open))
}

/// The diagonal step into row `k`: from row `k - 1` of the column to the left
/// (from `corner` for the first row); the cell of the global origin is zero.
pub open spec fn col_diag(dn: Seq<i16>, corner: i16, s: Seq<int>, origin: bool, k: int) -> i16 {
    if origin && k == 0 {
        ZERO
    } else if k == 0 {
        sat16(corner + s[k])
    } else {
        sat16(dn[k - 1] + s[k])
    }
}

/// A cell's score before row gaps are taken into account.
pub open spec fn col_dp(
    dn: Seq<i16>,
    cn: Seq<i16>,
    corner: i16,
    s: Seq<int>,
    origin: bool,
    g: Gaps,
    k: int,
) -> i16 {
    max16(col_diag(dn, corner, s, origin, k), col_c(dn, cn, g, k))
}

/// Row-gap value of row `k`: the best score of a gap that runs down the column
/// to just after row `k`, with every `HALF` rows also a fresh start from `MIN`
/// (where the kernel's prefix scan starts each half vector).
/// The gap that would open at row `k` itself costs `open - extend` here, so
/// one more `extend` gives the cost of the gap for row `k + 1`.
pub open spec fn col_r(
    dn: Seq<i16>,
    cn: Seq<i16>,
    corner: i16,
    s: Seq<int>,
    origin: bool,
    g: Gaps,
    k: int,
) -> i16
    decreases k,
{
    let prev: i16 = if k <= 0 {
        MIN
    } else if k % (HALF as int) == 0 {
        max16(col_r(dn, cn, corner, s, origin, g, k - 1), MIN)
    } else {
        col_r(dn, cn, corner, s, origin, g, k - 1)
    };
    max16(
        sat16(prev + g.extend),
        sat16(col_dp(dn, cn, corner, s, origin, g, k) + (g.open - g.extend)),
    )
}

/// The full score of row `k` of the new column.
pub open spec fn col_d(
    dn: Seq<i16>,
    cn: Seq<i16>,
    corner: i16,
    s: Seq<int>,
    origin: bool,
    g: Gaps,
    k: int,
) -> i16 {
    max16(col_dp(dn, cn, corner, s, origin, g, k), col_r(dn, cn, corner, s, origin, g, k))
}

/// The new column's scores, row by row.
pub open spec fn new_col_d(
    dn: Seq<i16>,
    cn: Seq<i16>,
    corner: i16,
    s: Seq<int>,
    origin: bool,
    g: Gaps,
    h: nat,
) -> Seq<i16> {
    Seq::new(h, |k: int| col_d(dn, cn, corner, s, origin, g, k))
}

/// The new column's column-gap values, row by row.
pub open spec fn new_col_c(dn: Seq<i16>, cn: Seq<i16>, g: Gaps, h: nat) -> Seq<i16> {
    Seq::new(h, |k: int| col_c(dn, cn, g, k))
}

/// Scores of the `h` rows from `si` against column symbol `rf[sj]`.
pub open spec fn col_scores<M: Matrix>(
    m: M,
    q: Seq<u8>,
    rf: Seq<u8>,
    si: int,
    sj: int,
    h: nat,
    right: bool,
) -> Seq<int> {
    Seq::new(h, |k: int| oriented_score(m, q[si + k], rf[sj], right))
}

/// Two trace bits of a cell: bit 0 when its score equals its column-gap
/// value, bit 1 when it equals its row-gap value.
pub open spec fn cell_bits(d: i16, c: i16, r: i16) -> u32 {
    (if d == c {
        1u32
    } else {
        0u32
    }) | (if d == r {
        2u32
    } else {
        0u32
    })
}

/// The trace word of rows `k0..k0 + n` of a new column: row `k0 + l` takes
/// bits `2l` and `2l + 1`.
pub open spec fn trace_word(
    dn: Seq<i16>,
    cn: Seq<i16>,
    corner: i16,
    s: Seq<int>,
    origin: bool,
    g: Gaps,
    k0: int,
    n: nat,
) -> u32
    decreases n,
{
    if n == 0 {
        0u32
    } else {
        let k = k0 + n - 1;
        trace_word(dn, cn, corner, s, origin, g, k0, (n - 1) as nat) | (cell_bits(
            col_d(dn, cn, corner, s, origin, g, k),
            col_c(dn, cn, g, k),
            col_r(dn, cn, corner, s, origin, g, k),
        ) << ((2 * (n - 1)) as u32))
    }
}

/// The trace words of a new column of `h` rows, one per vector of `L` rows.
pub open spec fn column_words(
    dn: Seq<i16>,
    cn: Seq<i16>,
    corner: i16,
    s: Seq<int>,
    origin: bool,
    g: Gaps,
    h: nat,
) -> Seq<u32> {
    Seq::new(h / (L as nat), |v: int| trace_word(dn, cn, corner, s, origin, g, v * L, L as nat))
}

/// The near border `(D, C)` after `j` columns of a strip whose first column is
/// `sj`, whose rows start at `si` and whose near border started as `(dn0, cn0)`.
pub open spec fn strip<M: Matrix>(
    m: M,
    g: Gaps,
    right: bool,
    q: Seq<u8>,
    rf: Seq<u8>,
    si: int,
    sj: int,
    dn0: Seq<i16>,
    cn0: Seq<i16>,
    corner0: i16,
    j: nat,
) -> (Seq<i16>, Seq<i16>)
    decreases j,
{
    if j == 0 {
        (dn0, cn0)
    } else {
        let prev = strip(m, g, right, q, rf, si, sj, dn0, cn0, corner0, (j - 1) as nat);
        let col = j - 1;
        let s = col_scores(m, q, rf, si, sj + col, dn0.len(), right);
        let corner = if col == 0 {
            corner0
        } else {
            MIN
        };
        let origin = si == 0 && sj + col == 0;
        (new_col_d(prev.0, prev.1, corner, s, origin, g, dn0.len()), new_col_c(prev.0, prev.1, g, dn0.len()))
    }
}

/// The trace words of the first `j` columns of the strip, column after column.
#[verifier::opaque]
pub open spec fn strip_words<M: Matrix>(
    m: M,
    g: Gaps,
    right: bool,
    q: Seq<u8>,
    rf: Seq<u8>,
    si: int,
    sj: int,
    dn0: Seq<i16>,
    cn0: Seq<i16>,
    corner0: i16,
    j: nat,
) -> Seq<u32>
    decreases j,
{
    if j == 0 {
        Seq::empty()
    } else {
        strip_words(m, g, right, q, rf, si, sj, dn0, cn0, corner0, (j - 1) as nat)
            + strip_column_words(m, g, right, q, rf, si, sj, dn0, cn0, corner0, (j - 1) as nat)
    }
}

/// The trace words of column `j` of the strip.
pub open spec fn strip_column_words<M: Matrix>(
    m: M,
    g: Gaps,
    right: bool,
    q: Seq<u8>,
    rf: Seq<u8>,
    si: int,
    sj: int,
    dn0: Seq<i16>,
    cn0: Seq<i16>,
    corner0: i16,
    j: nat,
) -> Seq<u32> {
    let prev = strip(m, g, right, q, rf, si, sj, dn0, cn0, corner0, j);
    let s = col_scores(m, q, rf, si, sj + j, dn0.len(), right);
    let corner = if j == 0 {
        corner0
    } else {
        MIN
    };
    column_words(prev.0, prev.1, corner, s, si == 0 && sj + j == 0, g, dn0.len())
}

/// Row-gap value of row `k` of column `j` of the strip.
pub open spec fn strip_r<M: Matrix>(
    m: M,
    g: Gaps,
    right: bool,
    q: Seq<u8>,
    rf: Seq<u8>,
    si: int,
    sj: int,
    dn0: Seq<i16>,
    cn0: Seq<i16>,
    corner0: i16,
    j: nat,
    k: int,
) -> i16 {
    let prev = strip(m, g, right, q, rf, si, sj, dn0, cn0, corner0, j);
    let s = col_scores(m, q, rf, si, sj + j, dn0.len(), right);
    let corner = if j == 0 {
        corner0
    } else {
        MIN
    };
    col_r(prev.0, prev.1, corner, s, si == 0 && sj + j == 0, g, k)
}

/// Number of columns that the kernel computes: in global mode it stops after
/// the column of the last reference symbol once its rows pass the query's end.
pub open spec fn cols_done(
    x_drop: bool,
    si: int,
    h: int,
    qlen: int,
    sj: int,
    rlen: int,
    w: int,
) -> int {
    if !x_drop && si + h > qlen && w > 0 {
        let j0 = if rlen - sj > 0 {
            rlen - sj
        } else {
            0
        };
        if j0 + 1 < w {
            j0 + 1
        } else {
            w
        }
    } else {
        w
    }
}

/// The best cell after looking at cell `(row, col)` with score `v`: a higher
/// score wins, and so does an equal one in the same or a lower lane (rows are
/// taken in order, so the latest cell of the lowest lane with the best score
/// is kept).
pub open spec fn take_cell(b: BlockMax, v: i16, row: int, col: int) -> BlockMax {
    if v > b.max || (v == b.max && row % (L as int) <= b.row as int % (L as int)) {
        BlockMax { max: v, row: row as usize, col: col as usize }
    } else {
        b
    }
}

/// The best cell after rows `0..h` of column `col` with scores `c`.
pub open spec fn col_best(b: BlockMax, c: Seq<i16>, h: int, col: int) -> BlockMax
    decreases h,
{
    if h <= 0 {
        b
    } else {
        take_cell(col_best(b, c, h - 1, col), c[h - 1], h - 1, col)
    }
}

/// The best cell of the first `n` columns of the strip, starting from `MIN`
/// at `(0, 0)`.
pub open spec fn strip_best<M: Matrix>(
    m: M,
    g: Gaps,
    right: bool,
    q: Seq<u8>,
    rf: Seq<u8>,
    si: int,
    sj: int,
    dn0: Seq<i16>,
    cn0: Seq<i16>,
    corner0: i16,
    n: nat,
) -> BlockMax
    decreases n,
{
    if n == 0 {
        BlockMax { max: MIN, row: 0, col: 0 }
    } else {
        col_best(strip_best(m, g, right, q, rf, si, sj, dn0, cn0, corner0, (n - 1) as nat),
            strip(m, g, right, q, rf, si, sj, dn0, cn0, corner0, n).0, dn0.len() as int, n - 1)
    }
}

/// What `place_block` leaves behind: the near border, the far border and the
/// best cell of the strip (see `place_block`).
#[verifier::opaque]
pub open spec fn block_effect<M: Matrix>(
    m: M,
    g: Gaps,
    q: Seq<u8>,
    rf: Seq<u8>,
    qlen: int,
    rlen: int,
    si: int,
    sj: int,
    w: int,
    h: int,
    nd: Seq<i16>,
    nc: Seq<i16>,
    fd: Seq<i16>,
    fr: Seq<i16>,
    far_off: int,
    corner: i16,
    right: bool,
    x_drop: bool,
) -> (Seq<i16>, Seq<i16>, Seq<i16>, Seq<i16>, BlockMax) {
    let n = if w == 0 || h == 0 {
        0
    } else {
        cols_done(x_drop, si, h, qlen, sj, rlen, w)
    };
    let dn0 = nd.subrange(0, h);
    let cn0 = nc.subrange(0, h);
    (
        strip(m, g, right, q, rf, si, sj, dn0, cn0, corner, n as nat).0 + nd.subrange(h, nd.len() as int),
        strip(m, g, right, q, rf, si, sj, dn0, cn0, corner, n as nat).1 + nc.subrange(h, nc.len() as int),
        Seq::new(fd.len(), |x: int| if far_off <= x < far_off + n {
            strip(m, g, right, q, rf, si, sj, dn0, cn0, corner, (x - far_off + 1) as nat).0[h - 1]
        } else {
            fd[x]
        }),
        Seq::new(fr.len(), |x: int| if far_off <= x < far_off + n {
            strip_r(m, g, right, q, rf, si, sj, dn0, cn0, corner, (x - far_off) as nat, h - 1)
        } else {
            fr[x]
        }),
        strip_best(m, g, right, q, rf, si, sj, dn0, cn0, corner, n as nat),
    )
}

/// The trace words that `place_block` appends: those of the columns it
/// computes, then an empty word for each vector of each column it skips.
#[verifier::opaque]
pub open spec fn block_words<M: Matrix>(
    m: M,
    g: Gaps,
    q: Seq<u8>,
    rf: Seq<u8>,
    qlen: int,
    rlen: int,
    si: int,
    sj: int,
    w: int,
    h: int,
    nd: Seq<i16>,
    nc: Seq<i16>,
    corner: i16,
    right: bool,
    x_drop: bool,
) -> Seq<u32> {
    if w > 0 && h > 0 {
        let n = cols_done(x_drop, si, h, qlen, sj, rlen, w);
        strip_words(m, g, right, q, rf, si, sj, nd.subrange(0, h), nc.subrange(0, h), corner, n as nat)
            + Seq::new(((w - n) * (h / (L as int))) as nat, |k: int| 0u32)
    } else {
        Seq::empty()
    }
}

/// Best cell found by the kernel, at row `row` and column `col` of the strip.
#[derive(Clone, Copy, Debug, PartialEq, Eq, Structural)]
pub struct BlockMax {
    pub max: i16,
    pub row: usize,
    pub col: usize,
}

/// The row-gap values of a vector come from its prefix scan and the last
/// row-gap value of the vector before: lane `l` is the better of the scan and
/// that value moved down by `l + 1` extensions.
#[verifier::rlimit(60)]
#[verifier::spinoff_prover]
proof fn lemma_vector_row_gap(
    dn: Seq<i16>,
    cn: Seq<i16>,
    corner: i16,
    s: Seq<int>,
    origin: bool,
    g: Gaps,
    x: Seq<i16>,
    p: Seq<i16>,
    k0: int,
    l: int,
    r01: i16,
    rprev: i16,
)
    requires
        k0 >= 0,
        k0 % (L as int) == 0,
        0 <= l < L,
        g.extend < 0,
        x.len() == L,
        forall|m: int| 0 <= m < L ==> #[trigger] x[m] == sat16(col_dp(dn, cn, corner, s, origin, g, k0 + m) + (g.open - g.extend)),
        forall|m: int| 0 <= m < L ==> #[trigger] p[m] == scan_lane(x, g.extend as i16, m),
        k0 > 0 ==> r01 == col_r(dn, cn, corner, s, origin, g, k0 - 1),
        k0 == 0 ==> r01 == MIN,
        l > 0 ==> rprev == col_r(dn, cn, corner, s, origin, g, k0 + l - 1),
        l > 0 ==> rprev == max16(p[l - 1], sat16(r01 + l * g.extend)),
    ensures
        max16(p[l], sat16(r01 + (l + 1) * g.extend)) == col_r(dn, cn, corner, s, origin, g, k0 + l),
{
    let e = g.extend as int;
    assert(l * e <= 0) by (nonlinear_arith)
        requires
            l >= 0,
            e < 0,
    ;
    assert((l + 1) * e == l * e + e) by (nonlinear_arith);
    assert((k0 + l) % (HALF as int) == l % (HALF as int));
    assert(p[l] == scan_lane(x, g.extend as i16, l));
    lemma_sat_chain(r01, l * e, e);
    lemma_sat_max(r01, MIN, e);
    if l > 0 {
        lemma_sat_max(p[l - 1], sat16(r01 + l * e), e);
        lemma_sat_max(max16(p[l - 1], sat16(r01 + l * e)), MIN, e);
        lemma_sat_max(p[l - 1], MIN, e);
    }
}

/// Computes column `j` of the strip: rows `0..h` of the near border are
/// replaced by the new column, one vector of `L` rows at a time. Returns the
/// new bottom cell's score and row-gap value and the best cell seen so far.
#[verifier::rlimit(80)]
#[verifier::spinoff_prover]
fn place_column<M: Matrix>(
    matrix: &M,
    gaps: Gaps,
    query: &PaddedBytes,
    reference: &PaddedBytes,
    start_i: usize,
    col: usize,
    j: usize,
    height: usize,
    d_near: &mut Vec<i16>,
    c_near: &mut Vec<i16>,
    corner: i16,
    right: bool,
    trace: &mut Trace,
    do_trace: bool,
    best: BlockMax,
) -> (r: (i16, i16, BlockMax))
    requires
        height > 0,
        height % L == 0,
        height <= old(d_near)@.len(),
        height <= old(c_near)@.len(),
        start_i + height <= query.padded().len(),
        col < reference.padded().len(),
        old(trace).wf(),
        gaps.open < 0,
        gaps.extend < 0,
    ensures
        ({
            let dn = old(d_near)@.subrange(0, height as int);
            let cn = old(c_near)@.subrange(0, height as int);
            let s = col_scores(*matrix, query.padded(), reference.padded(), start_i as int, col as int, height as nat, right);
            let origin = start_i == 0 && col == 0;
            &&& final(d_near)@ == new_col_d(dn, cn, corner, s, origin, gaps, height as nat)
                + old(d_near)@.subrange(height as int, old(d_near)@.len() as int)
            &&& final(c_near)@ == new_col_c(dn, cn, gaps, height as nat)
                + old(c_near)@.subrange(height as int, old(c_near)@.len() as int)
            &&& r.0 == new_col_d(dn, cn, corner, s, origin, gaps, height as nat)[height - 1]
            &&& r.1 == col_r(dn, cn, corner, s, origin, gaps, height - 1)
            &&& r.2.max >= best.max
            &&& forall|k: int| 0 <= k < height ==> #[trigger] final(d_near)@[k] <= r.2.max
            &&& r.2 == best || (r.2.col == j && r.2.row < height && final(d_near)@[r.2.row as int] == r.2.max)
            &&& r.2 == col_best(best, new_col_d(dn, cn, corner, s, origin, gaps, height as nat), height as int, j as int)
            &&& final(trace).cells() == old(trace).cells() + if do_trace {
                column_words(dn, cn, corner, s, origin, gaps, height as nat)
            } else {
                Seq::empty()
            }
        }),
        final(trace).wf(),
        old(trace).appended_to(&*final(trace)),
        final(trace).rects() == old(trace).rects(),
        final(trace).rights() == old(trace).rights(),
        final(trace).starts() == old(trace).starts(),
{
    let ghost dn = d_near@.subrange(0, height as int);
    let ghost cn = c_near@.subrange(0, height as int);
    let ghost s = col_scores(*matrix, query.padded(), reference.padded(), start_i as int, col as int, height as nat, right);
    let ghost origin = start_i == 0 && col == 0;
    let ghost d_orig = d_near@;
    let ghost c_orig = c_near@;
    let ghost t0 = *trace;
    proof { lemma_appended_refl(t0); }
    let plen = query.padded_len();
    let open = gaps.open as i16;
    let extend = gaps.extend as i16;
    let open_extend = (gaps.open - gaps.extend) as i16;
    let gap_extend_all = get_gap_extend_all(extend);
    let c = reference.get(col);
    let ghost best0 = best;
    let mut best = best;
    // the old score of the row above the current one
    let mut d00 = corner;
    // the row-gap value of the last row of the previous vector
    let mut r01: i16 = MIN;
    let mut d_last: i16 = MIN;
    let mut nvec: usize = 0;
    let mut k0: usize = 0;
    while k0 < height
        invariant
            k0 <= height,
            height % L == 0,
            k0 == nvec * L,
            height <= d_orig.len(),
            height <= c_orig.len(),
            d_near@.len() == d_orig.len(),
            c_near@.len() == c_orig.len(),
            dn == d_orig.subrange(0, height as int),
            cn == c_orig.subrange(0, height as int),
            start_i + height <= plen,
            plen == query.padded().len(),
            col < reference.padded().len(),
            c == reference.padded()[col as int],
            s == col_scores(*matrix, query.padded(), reference.padded(), start_i as int, col as int, height as nat, right),
            origin == (start_i == 0 && col == 0),
            open == gaps.open,
            extend == gaps.extend,
            open_extend == gaps.open - gaps.extend,
            gaps.open < 0,
            gaps.extend < 0,
            forall|m: int| 0 <= m < L ==> #[trigger] gap_extend_all@[m] == (m + 1) * extend,
            forall|x: int| 0 <= x < k0 ==> d_near@[x] == #[trigger] col_d(dn, cn, corner, s, origin, gaps, x),
            forall|x: int| 0 <= x < k0 ==> c_near@[x] == #[trigger] col_c(dn, cn, gaps, x),
            forall|x: int| k0 <= x < d_orig.len() ==> d_near@[x] == d_orig[x],
            forall|x: int| k0 <= x < c_orig.len() ==> c_near@[x] == c_orig[x],
            d00 == if k0 == 0 { corner } else { dn[k0 - 1] },
            k0 > 0 ==> r01 == col_r(dn, cn, corner, s, origin, gaps, k0 - 1),
            k0 == 0 ==> r01 == MIN,
            k0 > 0 ==> d_last == col_d(dn, cn, corner, s, origin, gaps, k0 - 1),
            best.max >= best0.max,
            forall|x: int| 0 <= x < k0 ==> #[trigger] d_near@[x] <= best.max,
            best == best0 || (best.col == j && best.row < k0 && d_near@[best.row as int] == best.max),
            best == col_best(best0, new_col_d(dn, cn, corner, s, origin, gaps, height as nat), k0 as int, j as int),
            trace.wf(),
            t0.wf(),
            t0.appended_to(&*trace),
            trace.rects() == t0.rects(),
            trace.rights() == t0.rights(),
            trace.starts() == t0.starts(),
            trace.cells() == t0.cells() + if do_trace {
                Seq::new(nvec as nat, |v: int| trace_word(dn, cn, corner, s, origin, gaps, v * L, L as nat))
            } else {
                Seq::empty()
            },
        decreases height - k0,
    {
        // first pass: diagonal and column-gap values of the vector's rows
        let mut dp: Simd = [MIN; L];
        let mut x: Simd = [MIN; L];
        let mut l: usize = 0;
        while l < L
            invariant
                l <= L,
                k0 + L <= height,
                k0 % L == 0,
                height <= d_orig.len(),
                height <= c_orig.len(),
                d_near@.len() == d_orig.len(),
                c_near@.len() == c_orig.len(),
                dn == d_orig.subrange(0, height as int),
                cn == c_orig.subrange(0, height as int),
                start_i + height <= plen,
                plen == query.padded().len(),
                col < reference.padded().len(),
                c == reference.padded()[col as int],
                s == col_scores(*matrix, query.padded(), reference.padded(), start_i as int, col as int, height as nat, right),
                origin == (start_i == 0 && col == 0),
                open == gaps.open,
                extend == gaps.extend,
                open_extend == gaps.open - gaps.extend,
                forall|m: int| 0 <= m < l ==> #[trigger] dp@[m] == col_dp(dn, cn, corner, s, origin, gaps, k0 + m),
                forall|m: int| 0 <= m < l ==> #[trigger] x@[m] == sat16(col_dp(dn, cn, corner, s, origin, gaps, k0 + m) + (gaps.open - gaps.extend)),
                forall|y: int| 0 <= y < k0 + l ==> c_near@[y] == #[trigger] col_c(dn, cn, gaps, y),
                forall|y: int| k0 + l <= y < c_orig.len() ==> c_near@[y] == c_orig[y],
                forall|y: int| k0 <= y < d_orig.len() ==> d_near@[y] == d_orig[y],
                d00 == if k0 + l == 0 { corner } else { dn[k0 + l - 1] },
            decreases L - l,
        {
            let k = k0 + l;
            let d10 = d_near[k];
            let c10 = c_near[k];
            let qc = query.get(start_i + k);
            let sc = if right {
                matrix.get_score(qc, c)
            } else {
                matrix.get_score(c, qc)
            };
            let mut diag = adds(d00, sc as i16);
            if start_i + k == 0 && col == 0 {
                diag = ZERO;
            }
            let c11 = max_i16(adds(c10, extend), adds(d10, open));
            let dpv = max_i16(diag, c11);
            proof {
                assert(s[k as int] == sc as int);
                assert(dn[k as int] == d10);
                assert(cn[k as int] == c10);
                assert(c11 == col_c(dn, cn, gaps, k as int));
                assert(dpv == col_dp(dn, cn, corner, s, origin, gaps, k as int));
            }
            dp.set(l, dpv);
            x.set(l, adds(dpv, open_extend));
            c_near.set(k, c11);
            d00 = d10;
            l += 1;
        }
        let p = simd_prefix_scan_i16(x, extend);
        // second pass: row gaps, final scores, trace bits and the best cell
        let mut word: TraceType = 0;
        let mut rprev: i16 = r01;
        l = 0;
        while l < L
            invariant
                l <= L,
                k0 + L <= height,
                k0 % L == 0,
                height <= d_orig.len(),
                height <= c_orig.len(),
                d_near@.len() == d_orig.len(),
                c_near@.len() == c_orig.len(),
                dn == d_orig.subrange(0, height as int),
                cn == c_orig.subrange(0, height as int),
                extend == gaps.extend,
                gaps.extend < 0,
                forall|m: int| 0 <= m < L ==> #[trigger] gap_extend_all@[m] == (m + 1) * extend,
                forall|m: int| 0 <= m < L ==> #[trigger] dp@[m] == col_dp(dn, cn, corner, s, origin, gaps, k0 + m),
                forall|m: int| 0 <= m < L ==> #[trigger] x@[m] == sat16(col_dp(dn, cn, corner, s, origin, gaps, k0 + m) + (gaps.open - gaps.extend)),
                forall|m: int| 0 <= m < L ==> #[trigger] p@[m] == scan_lane(x@, extend, m),
                forall|y: int| 0 <= y < k0 + L ==> c_near@[y] == #[trigger] col_c(dn, cn, gaps, y),
                forall|y: int| 0 <= y < k0 + l ==> d_near@[y] == #[trigger] col_d(dn, cn, corner, s, origin, gaps, y),
                forall|y: int| k0 + l <= y < d_orig.len() ==> d_near@[y] == d_orig[y],
                k0 > 0 ==> r01 == col_r(dn, cn, corner, s, origin, gaps, k0 - 1),
                k0 == 0 ==> r01 == MIN,
                l > 0 ==> rprev == col_r(dn, cn, corner, s, origin, gaps, k0 + l - 1),
                l > 0 ==> rprev == max16(p@[l - 1], sat16(r01 + l * extend)),
                l == 0 ==> rprev == r01,
                l > 0 ==> d_last == col_d(dn, cn, corner, s, origin, gaps, k0 + l - 1),
                k0 > 0 && l == 0 ==> d_last == col_d(dn, cn, corner, s, origin, gaps, k0 - 1),
                do_trace ==> word == trace_word(dn, cn, corner, s, origin, gaps, k0 as int, l as nat),
                best.max >= best0.max,
                forall|y: int| 0 <= y < k0 + l ==> #[trigger] d_near@[y] <= best.max,
                best == best0 || (best.col == j && best.row < k0 + l && d_near@[best.row as int] == best.max),
                best == col_best(best0, new_col_d(dn, cn, corner, s, origin, gaps, height as nat), (k0 + l) as int, j as int),
                k0 + L <= height,
            decreases L - l,
        {
            let k = k0 + l;
            let r11 = max_i16(p[l], adds(r01, gap_extend_all[l]));
            proof {
                lemma_vector_row_gap(dn, cn, corner, s, origin, gaps, x@, p@, k0 as int, l as int, r01, rprev);
            }
            let d11 = max_i16(dp[l], r11);
            let c11 = c_near[k];
            if do_trace {
                let bits: u32 = (if d11 == c11 { 1u32 } else { 0u32 }) | (if d11 == r11 { 2u32 } else { 0u32 });
                let shift: u32 = (l * 2) as u32;
                word = word | (bits << shift);
            }
            if d11 > best.max || (d11 == best.max && l <= best.row % L) {
                best = BlockMax { max: d11, row: k, col: j };
            }
            d_near.set(k, d11);
            rprev = r11;
            d_last = d11;
            l += 1;
        }
        if do_trace {
            let ghost t1 = *trace;
            trace.add_trace(word);
            proof {
                lemma_appended_trans(t0, t1, *trace);
                assert(Seq::new((nvec + 1) as nat, |v: int| trace_word(dn, cn, corner, s, origin, gaps, v * L, L as nat))
                    =~= Seq::new(nvec as nat, |v: int| trace_word(dn, cn, corner, s, origin, gaps, v * L, L as nat)).push(word));
                assert(trace.cells() =~= t0.cells() + Seq::new((nvec + 1) as nat, |v: int| trace_word(dn, cn, corner, s, origin, gaps, v * L, L as nat)));
            }
        } else {
            assert(trace.cells() =~= t0.cells() + Seq::<u32>::empty());
        }
        r01 = rprev;
        k0 += L;
        nvec += 1;
    }
    assert(d_near@ =~= new_col_d(dn, cn, corner, s, origin, gaps, height as nat)
        + d_orig.subrange(height as int, d_orig.len() as int));
    assert(c_near@ =~= new_col_c(dn, cn, gaps, height as nat)
        + c_orig.subrange(height as int, c_orig.len() as int));
    assert(Seq::new(nvec as nat, |v: int| trace_word(dn, cn, corner, s, origin, gaps, v * L, L as nat))
        =~= column_words(dn, cn, corner, s, origin, gaps, height as nat));
    (d_last, r01, best)
}

/// Computes column `j` of a strip (see `place_block`): the near border
/// becomes the strip's next column and its bottom cell goes to the far border.
#[verifier::rlimit(100)]
#[verifier::spinoff_prover]
fn place_strip_column<M: Matrix>(
    matrix: &M,
    gaps: Gaps,
    query: &PaddedBytes,
    reference: &PaddedBytes,
    start_i: usize,
    start_j: usize,
    j: usize,
    height: usize,
    d_near: &mut Vec<i16>,
    c_near: &mut Vec<i16>,
    d_far: &mut Vec<i16>,
    r_far: &mut Vec<i16>,
    far_off: usize,
    corner: i16,
    right: bool,
    trace: &mut Trace,
    do_trace: bool,
    best: BlockMax,
    dn0: Ghost<Seq<i16>>,
    cn0: Ghost<Seq<i16>>,
) -> (r: BlockMax)
    requires
        0 < height,
        height % L == 0,
        height <= old(d_near)@.len(),
        height <= old(c_near)@.len(),
        start_i + height <= query.padded().len(),
        start_j + j < reference.padded().len(),
        far_off + j < old(d_far)@.len(),
        far_off + j < old(r_far)@.len(),
        dn0@.len() == height,
        old(d_near)@.subrange(0, height as int) == strip(*matrix, gaps, right, query.padded(),
            reference.padded(), start_i as int, start_j as int, dn0@, cn0@, corner, j as nat).0,
        old(c_near)@.subrange(0, height as int) == strip(*matrix, gaps, right, query.padded(),
            reference.padded(), start_i as int, start_j as int, dn0@, cn0@, corner, j as nat).1,
        old(trace).wf(),
        gaps.open < 0,
        gaps.extend < 0,
    ensures
        ({
            let q = query.padded();
            let rf = reference.padded();
            let si = start_i as int;
            let sj = start_j as int;
            let next = strip(*matrix, gaps, right, q, rf, si, sj, dn0@, cn0@, corner, (j + 1) as nat);
            &&& next.0.len() == height
            &&& final(d_near)@ == next.0 + old(d_near)@.subrange(height as int, old(d_near)@.len() as int)
            &&& final(c_near)@ == next.1 + old(c_near)@.subrange(height as int, old(c_near)@.len() as int)
            &&& final(d_far)@ == old(d_far)@.update(far_off + j, next.0[height - 1])
            &&& final(r_far)@ == old(r_far)@.update(far_off + j,
                strip_r(*matrix, gaps, right, q, rf, si, sj, dn0@, cn0@, corner, j as nat, height - 1))
            &&& r.max >= best.max
            &&& forall|k: int| 0 <= k < height ==> #[trigger] final(d_near)@[k] <= r.max
            &&& r == best || (r.col == j && r.row < height && final(d_near)@[r.row as int] == r.max)
            &&& r == col_best(best, next.0, height as int, j as int)
            &&& final(trace).cells() == old(trace).cells() + if do_trace {
                strip_column_words(*matrix, gaps, right, q, rf, si, sj, dn0@, cn0@, corner, j as nat)
            } else {
                Seq::empty()
            }
        }),
        final(trace).wf(),
        old(trace).appended_to(&*final(trace)),
        final(trace).rects() == old(trace).rects(),
        final(trace).rights() == old(trace).rights(),
        final(trace).starts() == old(trace).starts(),
{
    let ghost q = query.padded();
    let ghost rf = reference.padded();
    let ghost si = start_i as int;
    let ghost sj = start_j as int;
    let ghost prev = strip(*matrix, gaps, right, q, rf, si, sj, dn0@, cn0@, corner, j as nat);
    let ghost d_orig = d_near@;
    let ghost c_orig = c_near@;
    let rplen = reference.padded_len();
    let dflen = d_far.len();
    assert(start_j + j < rplen && far_off + j < dflen);
    let col_corner = if j == 0 {
        corner
    } else {
        MIN
    };
    let (d_last, r_last, nb) = place_column(
        matrix, gaps, query, reference, start_i, start_j + j, j, height, d_near, c_near,
        col_corner, right, trace, do_trace, best,
    );
    proof {
        let next = strip(*matrix, gaps, right, q, rf, si, sj, dn0@, cn0@, corner, (j + 1) as nat);
        let sc = col_scores(*matrix, q, rf, si, sj + j, height as nat, right);
        let origin = si == 0 && sj + j == 0;
        assert(sc == col_scores(*matrix, query.padded(), reference.padded(), start_i as int, (start_j + j) as usize as int, height as nat, right));
        assert(origin == (start_i == 0 && (start_j + j) as usize == 0));
        assert(next.0 == new_col_d(prev.0, prev.1, col_corner, sc, origin, gaps, height as nat));
        assert(d_near@ =~= next.0 + d_orig.subrange(height as int, d_orig.len() as int));
        assert(c_near@ =~= next.1 + c_orig.subrange(height as int, c_orig.len() as int));
    }
    d_far.set(far_off + j, d_last);
    r_far.set(far_off + j, r_last);
    nb
}

/// Places a strip of `width` columns and `height` rows whose top left cell is
/// `(start_i, start_j)`, everything seen as a shift to the right.
///
/// The near border `(d_near, c_near)` holds the column to the left of the strip
/// and is advanced column by column; the bottom cell of each new column goes to
/// `d_far` and `r_far` from `far_off` on. `corner` is the cell diagonal to the
/// strip's first cell. Returns the best cell of the strip.
#[verifier::rlimit(100)]
#[verifier::spinoff_prover]
pub(crate) fn place_block<M: Matrix>(
    matrix: &M,
    gaps: Gaps,
    query: &PaddedBytes,
    reference: &PaddedBytes,
    start_i: usize,
    start_j: usize,
    width: usize,
    height: usize,
    d_near: &mut Vec<i16>,
    c_near: &mut Vec<i16>,
    d_far: &mut Vec<i16>,
    r_far: &mut Vec<i16>,
    far_off: usize,
    corner: i16,
    right: bool,
    trace: &mut Trace,
    do_trace: bool,
    x_drop: bool,
) -> (r: BlockMax)
    requires
        height % L == 0,
        height <= 65536,
        width <= 65536,
        height <= old(d_near)@.len(),
        height <= old(c_near)@.len(),
        start_i + height <= query.padded().len(),
        start_j + width <= reference.padded().len(),
        far_off + width <= old(d_far)@.len(),
        far_off + width <= old(r_far)@.len(),
        old(trace).wf(),
        gaps.open < 0,
        gaps.extend < 0,
    ensures
        ({
            let n = if width == 0 || height == 0 {
                0
            } else {
                cols_done(x_drop, start_i as int, height as int, query.len_spec() as int, start_j as int, reference.len_spec() as int, width as int)
            };
            let dn0 = old(d_near)@.subrange(0, height as int);
            let cn0 = old(c_near)@.subrange(0, height as int);
            let q = query.padded();
            let rf = reference.padded();
            let si = start_i as int;
            let sj = start_j as int;
            &&& 0 <= n <= width
            &&& final(d_near)@ == strip(*matrix, gaps, right, q, rf, si, sj, dn0, cn0, corner, n as nat).0
                + old(d_near)@.subrange(height as int, old(d_near)@.len() as int)
            &&& final(c_near)@ == strip(*matrix, gaps, right, q, rf, si, sj, dn0, cn0, corner, n as nat).1
                + old(c_near)@.subrange(height as int, old(c_near)@.len() as int)
            &&& final(d_far)@.len() == old(d_far)@.len()
            &&& final(r_far)@.len() == old(r_far)@.len()
            &&& forall|jj: int| 0 <= jj < n ==> #[trigger] final(d_far)@[far_off + jj]
                == strip(*matrix, gaps, right, q, rf, si, sj, dn0, cn0, corner, (jj + 1) as nat).0[height - 1]
            &&& forall|jj: int| 0 <= jj < n ==> #[trigger] final(r_far)@[far_off + jj]
                == strip_r(*matrix, gaps, right, q, rf, si, sj, dn0, cn0, corner, jj as nat, height - 1)
            &&& forall|x: int| 0 <= x < old(d_far)@.len() && !(far_off <= x < far_off + n)
                ==> #[trigger] final(d_far)@[x] == old(d_far)@[x]
            &&& forall|x: int| 0 <= x < old(r_far)@.len() && !(far_off <= x < far_off + n)
                ==> #[trigger] final(r_far)@[x] == old(r_far)@[x]
            &&& r.max >= MIN
            &&& forall|jj: int, k: int| 0 <= jj < n && 0 <= k < height ==>
                #[trigger] strip(*matrix, gaps, right, q, rf, si, sj, dn0, cn0, corner, (jj + 1) as nat).0[k] <= r.max
            &&& r == (BlockMax { max: MIN, row: 0, col: 0 }) || (r.col < n && r.row < height
                && strip(*matrix, gaps, right, q, rf, si, sj, dn0, cn0, corner, (r.col + 1) as nat).0[r.row as int] == r.max)
        }),
        final(trace).wf(),
        old(trace).appended_to(&*final(trace)),
        final(trace).rects() == old(trace).rects(),
        final(trace).rights() == old(trace).rights(),
        final(trace).starts() == old(trace).starts(),
        final(trace).cells() == old(trace).cells() + if do_trace {
            block_words(*matrix, gaps, query.padded(), reference.padded(), query.len_spec() as int,
                reference.len_spec() as int, start_i as int, start_j as int, width as int, height as int,
                old(d_near)@, old(c_near)@, corner, right, x_drop)
        } else {
            Seq::empty()
        },
        (final(d_near)@, final(c_near)@, final(d_far)@, final(r_far)@, r) == block_effect(*matrix, gaps,
            query.padded(), reference.padded(), query.len_spec() as int, reference.len_spec() as int,
            start_i as int, start_j as int, width as int, height as int, old(d_near)@, old(c_near)@,
            old(d_far)@, old(r_far)@, far_off as int, corner, right, x_drop),
{
    let ghost t0 = *trace;
    proof { lemma_appended_refl(t0); }
    let ghost dn0 = d_near@.subrange(0, height as int);
    let ghost cn0 = c_near@.subrange(0, height as int);
    let ghost d_orig = d_near@;
    let ghost c_orig = c_near@;
    let ghost df_orig = d_far@;
    let ghost rf_orig = r_far@;
    let ghost q = query.padded();
    let ghost rf = reference.padded();
    let ghost si = start_i as int;
    let ghost sj = start_j as int;
    let mut best = BlockMax { max: MIN, row: 0, col: 0 };
    if width == 0 || height == 0 {
        reveal(block_words);
        assert(trace.cells() =~= t0.cells() + Seq::<u32>::empty());
        assert(d_near@ =~= d_orig.subrange(0, height as int) + d_orig.subrange(height as int, d_orig.len() as int));
        assert(c_near@ =~= c_orig.subrange(0, height as int) + c_orig.subrange(height as int, c_orig.len() as int));
        reveal(block_effect);
        assert(d_far@ =~= block_effect(*matrix, gaps, q, rf, query.len_spec() as int, reference.len_spec() as int,
            si, sj, width as int, height as int, d_orig, c_orig, df_orig, rf_orig, far_off as int, corner, right, x_drop).2);
        assert(r_far@ =~= block_effect(*matrix, gaps, q, rf, query.len_spec() as int, reference.len_spec() as int,
            si, sj, width as int, height as int, d_orig, c_orig, df_orig, rf_orig, far_off as int, corner, right, x_drop).3);
        return best;
    }
    let ghost n = cols_done(x_drop, start_i as int, height as int, query.len_spec() as int, start_j as int, reference.len_spec() as int, width as int);
    let qlen = query.len();
    let rlen = reference.len();
    let rplen = reference.padded_len();
    let qplen = query.padded_len();
    let dflen = d_far.len();
    let hv = height / L;
    let mut j: usize = 0;
    let mut stop = false;
    assert(strip_words(*matrix, gaps, right, q, rf, si, sj, dn0, cn0, corner, 0) == Seq::<u32>::empty()) by {
        reveal(strip_words);
    }
    assert(trace.cells() =~= t0.cells() + if do_trace {
        strip_words(*matrix, gaps, right, q, rf, si, sj, dn0, cn0, corner, 0) + Seq::new(0, |k: int| 0u32)
    } else {
        Seq::empty()
    });
    assert(d_near@ =~= strip(*matrix, gaps, right, q, rf, si, sj, dn0, cn0, corner, 0).0
        + d_orig.subrange(height as int, d_orig.len() as int));
    assert(c_near@ =~= strip(*matrix, gaps, right, q, rf, si, sj, dn0, cn0, corner, 0).1
        + c_orig.subrange(height as int, c_orig.len() as int));
    while j < width && !stop
        invariant
            0 < height <= 65536,
            width <= 65536,
            height % L == 0,
            hv == height / L,
            j <= width,
            qlen == query.len_spec(),
            rlen == reference.len_spec(),
            n == cols_done(x_drop, start_i as int, height as int, qlen as int, start_j as int, rlen as int, width as int),
            stop ==> j == n,
            !stop ==> j <= n,
            height <= d_orig.len(),
            height <= c_orig.len(),
            dn0 == d_orig.subrange(0, height as int),
            cn0 == c_orig.subrange(0, height as int),
            q == query.padded(),
            rf == reference.padded(),
            si == start_i,
            sj == start_j,
            start_i + height <= q.len(),
            start_j + width <= rf.len(),
            rplen == rf.len(),
            qplen == q.len(),
            dflen == df_orig.len(),
            !stop && !x_drop && start_i + height > qlen ==> j <= (if rlen - start_j > 0 { rlen - start_j } else { 0 }),
            far_off + width <= df_orig.len(),
            far_off + width <= rf_orig.len(),
            d_near@ == strip(*matrix, gaps, right, q, rf, si, sj, dn0, cn0, corner, j as nat).0
                + d_orig.subrange(height as int, d_orig.len() as int),
            c_near@ == strip(*matrix, gaps, right, q, rf, si, sj, dn0, cn0, corner, j as nat).1
                + c_orig.subrange(height as int, c_orig.len() as int),
            d_far@.len() == df_orig.len(),
            r_far@.len() == rf_orig.len(),
            forall|jj: int| 0 <= jj < j ==> #[trigger] d_far@[far_off + jj]
                == strip(*matrix, gaps, right, q, rf, si, sj, dn0, cn0, corner, (jj + 1) as nat).0[height - 1],
            forall|jj: int| 0 <= jj < j ==> #[trigger] r_far@[far_off + jj]
                == strip_r(*matrix, gaps, right, q, rf, si, sj, dn0, cn0, corner, jj as nat, height - 1),
            forall|x: int| 0 <= x < df_orig.len() && !(far_off <= x < far_off + j)
                ==> #[trigger] d_far@[x] == df_orig[x],
            forall|x: int| 0 <= x < rf_orig.len() && !(far_off <= x < far_off + j)
                ==> #[trigger] r_far@[x] == rf_orig[x],
            best.max >= MIN,
            forall|jj: int, k: int| 0 <= jj < j && 0 <= k < height ==>
                #[trigger] strip(*matrix, gaps, right, q, rf, si, sj, dn0, cn0, corner, (jj + 1) as nat).0[k] <= best.max,
            best == (BlockMax { max: MIN, row: 0, col: 0 }) || (best.col < j && best.row < height
                && strip(*matrix, gaps, right, q, rf, si, sj, dn0, cn0, corner, (best.col + 1) as nat).0[best.row as int] == best.max),
            best == strip_best(*matrix, gaps, right, q, rf, si, sj, dn0, cn0, corner, j as nat),
            trace.wf(),
            t0.wf(),
            t0.appended_to(&*trace),
            trace.rects() == t0.rects(),
            trace.rights() == t0.rights(),
            trace.starts() == t0.starts(),
            trace.cells() == t0.cells() + if do_trace {
                strip_words(*matrix, gaps, right, q, rf, si, sj, dn0, cn0, corner, j as nat)
                    + Seq::new(if stop { ((width - j) * hv) as nat } else { 0 }, |k: int| 0u32)
            } else {
                Seq::empty()
            },
            gaps.open < 0,
            gaps.extend < 0,
        decreases width - j,
    {
        let ghost t1 = *trace;
        let ghost best_before = best;
        let ghost df_before = d_far@;
        let ghost rf_before = r_far@;
        assert(d_near@.subrange(0, height as int) =~= strip(*matrix, gaps, right, q, rf, si, sj, dn0, cn0, corner, j as nat).0);
        assert(c_near@.subrange(0, height as int) =~= strip(*matrix, gaps, right, q, rf, si, sj, dn0, cn0, corner, j as nat).1);
        best = place_strip_column(
            matrix, gaps, query, reference, start_i, start_j, j, height, d_near, c_near, d_far,
            r_far, far_off, corner, right, trace, do_trace, best, Ghost(dn0), Ghost(cn0),
        );
        proof {
            lemma_appended_trans(t0, t1, *trace);
            if do_trace {
                assert(strip_words(*matrix, gaps, right, q, rf, si, sj, dn0, cn0, corner, (j + 1) as nat)
                    == strip_words(*matrix, gaps, right, q, rf, si, sj, dn0, cn0, corner, j as nat)
                    + strip_column_words(*matrix, gaps, right, q, rf, si, sj, dn0, cn0, corner, j as nat)) by {
                    reveal(strip_words);
                }
                assert(trace.cells() =~= t0.cells() + (strip_words(*matrix, gaps, right, q, rf, si, sj, dn0, cn0, corner, (j + 1) as nat)
                    + Seq::new(0, |k: int| 0u32)));
            } else {
                assert(trace.cells() =~= t0.cells() + Seq::<u32>::empty());
            }
            let next = strip(*matrix, gaps, right, q, rf, si, sj, dn0, cn0, corner, (j + 1) as nat);
            assert forall|jj: int, k: int| 0 <= jj < j + 1 && 0 <= k < height implies
                #[trigger] strip(*matrix, gaps, right, q, rf, si, sj, dn0, cn0, corner, (jj + 1) as nat).0[k] <= best.max by {
                if jj < j {
                    assert(strip(*matrix, gaps, right, q, rf, si, sj, dn0, cn0, corner, (jj + 1) as nat).0[k] <= best_before.max);
                } else {
                    assert(d_near@[k] == next.0[k]);
                }
            }
            if best != best_before {
                assert(d_near@[best.row as int] == next.0[best.row as int]);
            }
        }
        if !x_drop && start_i + height > qlen && start_j + j >= rlen {
            if do_trace {
                proof {
                    assert((width - 1 - j) * hv <= width * hv) by (nonlinear_arith)
                        requires j < width, hv >= 0;
                    assert(width * hv <= 65536 * 4096) by (nonlinear_arith)
                        requires width <= 65536, hv <= 4096;
                }
                let ghost t2 = *trace;
                trace.add_trace_idx((width - 1 - j) * hv);
                proof {
                    lemma_appended_trans(t0, t2, *trace);
                    assert(trace.cells() =~= t0.cells() + (strip_words(*matrix, gaps, right, q, rf, si, sj, dn0, cn0, corner, (j + 1) as nat)
                        + Seq::new(((width - (j + 1)) * hv) as nat, |k: int| 0u32)));
                }
            }
            stop = true;
        }
        j += 1;
    }
    proof {
        reveal(block_words);
        reveal(block_effect);
        let e = block_effect(*matrix, gaps, q, rf, qlen as int, rlen as int, si, sj, width as int, height as int,
            d_orig, c_orig, df_orig, rf_orig, far_off as int, corner, right, x_drop);
        assert forall|x: int| 0 <= x < d_far@.len() implies d_far@[x] == #[trigger] e.2[x] by {
            if far_off <= x < far_off + n {
                let jj = x - far_off;
                assert(d_far@[far_off + jj] == strip(*matrix, gaps, right, q, rf, si, sj, dn0, cn0, corner, (jj + 1) as nat).0[height - 1]);
            }
        }
        assert forall|x: int| 0 <= x < r_far@.len() implies r_far@[x] == #[trigger] e.3[x] by {
            if far_off <= x < far_off + n {
                let jj = x - far_off;
                assert(r_far@[far_off + jj] == strip_r(*matrix, gaps, right, q, rf, si, sj, dn0, cn0, corner, jj as nat, height - 1));
            }
        }
        assert(d_far@ =~= e.2);
        assert(r_far@ =~= e.3);
        assert(j == n);
        if do_trace {
            assert(hv as int == height as int / L as int);
            if !stop {
                assert(width == n);
                assert((width - n) * hv == 0) by (nonlinear_arith)
                    requires
                        width == n,
                ;
            }
            assert(trace.cells() =~= t0.cells() + (strip_words(*matrix, gaps, right, q, rf, si, sj, dn0, cn0, corner, n as nat)
                + Seq::new(((width - n) * (height / L)) as nat, |k: int| 0u32)));
        }
    }
    best
}

} // verus!
