//! The adaptive block aligner: the control loop that shifts and grows the
//! block, and the public entry point.
use vstd::prelude::*;
use crate::kernel::{BlockMax, place_block, strip, cols_done, block_effect, block_words};
use crate::lanes::{L, MIN, ZERO, STEP, sat16, max16, adds, subs, max_i16, clamp};
use crate::padded::PaddedBytes;
use crate::scores::{Gaps, Matrix};
use crate::trace::{Trace, Rectangle};
use std::ops::RangeInclusive;
use vstd::arithmetic::power2::is_pow2;

verus! {

/// Adds `off_add` (saturating) to the first `block_size` cells of a border.
fn just_offset(block_size: usize, buf: &mut Vec<i16>, off_add: i16)
    requires
        block_size <= old(buf)@.len(),
    ensures
        final(buf)@ == Seq::new(block_size as nat, |k: int| sat16(old(buf)@[k] + off_add))
            + old(buf)@.subrange(block_size as int, old(buf)@.len() as int),
{
    let ghost orig = buf@;
    let mut k: usize = 0;
    while k < block_size
        invariant
            k <= block_size,
            block_size <= orig.len(),
            buf@.len() == orig.len(),
            forall|x: int| 0 <= x < k ==> buf@[x] == sat16(orig[x] + off_add),
            forall|x: int| k <= x < orig.len() ==> buf@[x] == orig[x],
        decreases block_size - k,
    {
        let v = adds(buf[k], off_add);
        buf.set(k, v);
        k += 1;
    }
    assert(buf@ =~= Seq::new(block_size as nat, |k: int| sat16(orig[k] + off_add))
        + orig.subrange(block_size as int, orig.len() as int));
}

/// Moves a border `step` cells towards its start, adding `off_add` (saturating)
/// to the cells that stay, and puts the `step` cells of `temp` at its end.
/// Returns the cell that was at index `step - 1`, offset the same way: the
/// corner for the next strip.
fn shift_and_offset(block_size: usize, buf: &mut Vec<i16>, temp: &Vec<i16>, off_add: i16, step: usize) -> (r: i16)
    requires
        0 < step <= block_size,
        block_size <= old(buf)@.len(),
        step <= temp@.len(),
    ensures
        r == sat16(old(buf)@[step - 1] + off_add),
        final(buf)@ == Seq::new((block_size - step) as nat, |k: int| sat16(old(buf)@[k + step] + off_add))
            + temp@.subrange(0, step as int)
            + old(buf)@.subrange(block_size as int, old(buf)@.len() as int),
{
    let ghost orig = buf@;
    let corner = adds(buf[step - 1], off_add);
    let mut k: usize = 0;
    while k < block_size - step
        invariant
            k <= block_size - step,
            0 < step <= block_size,
            block_size <= orig.len(),
            buf@.len() == orig.len(),
            forall|x: int| 0 <= x < k ==> buf@[x] == sat16(orig[x + step] + off_add),
            forall|x: int| k <= x < orig.len() ==> buf@[x] == orig[x],
        decreases block_size - step - k,
    {
        let v = adds(buf[k + step], off_add);
        buf.set(k, v);
        k += 1;
    }
    let mut m: usize = 0;
    while m < step
        invariant
            m <= step,
            0 < step <= block_size,
            step <= temp@.len(),
            block_size <= orig.len(),
            buf@.len() == orig.len(),
            forall|x: int| 0 <= x < block_size - step ==> buf@[x] == sat16(orig[x + step] + off_add),
            forall|x: int| 0 <= x < m ==> buf@[block_size - step + x] == temp@[x],
            forall|x: int| block_size - step + m <= x < orig.len() ==> buf@[x] == orig[x],
        decreases step - m,
    {
        buf.set(block_size - step + m, temp[m]);
        m += 1;
    }
    assert(buf@ =~= Seq::new((block_size - step) as nat, |k: int| sat16(orig[k + step] + off_add))
        + temp@.subrange(0, step as int) + orig.subrange(block_size as int, orig.len() as int));
    corner
}

/// How much the first eight cells of a border rose above zero in total,
/// summed pairwise with saturation as a tree: `(b0 + b4) + (b2 + b6)` and
/// `(b1 + b5) + (b3 + b7)`, then the two.
pub open spec fn prefix_sum8(b: Seq<i16>) -> i16 {
    let a = |k: int| sat16(b[k] - ZERO);
    let p = |k: int| sat16(a(k) + a(k + 4));
    let c = |k: int| sat16(p(k) + p(k + 2));
    sat16(c(0) + c(1))
}

/// Sum of the first `STEP` cells of a border above zero (see `prefix_sum8`):
/// the border with the larger sum is where the block moves next.
fn prefix_max(buf: &Vec<i16>) -> (r: i16)
    requires
        STEP <= buf@.len(),
    ensures
        r == prefix_sum8(buf@),
{
    let a0 = subs(buf[0], ZERO);
    let a1 = subs(buf[1], ZERO);
    let a2 = subs(buf[2], ZERO);
    let a3 = subs(buf[3], ZERO);
    let a4 = subs(buf[4], ZERO);
    let a5 = subs(buf[5], ZERO);
    let a6 = subs(buf[6], ZERO);
    let a7 = subs(buf[7], ZERO);
    let pair0 = adds(a0, a4);
    let pair1 = adds(a1, a5);
    let pair2 = adds(a2, a6);
    let pair3 = adds(a3, a7);
    let half0 = adds(pair0, pair2);
    let half1 = adds(pair1, pair3);
    adds(half0, half1)
}

/// Relies on `RangeInclusive::start`: it returns the range's lower bound.
pub assume_specification<Idx>[ RangeInclusive::<Idx>::start ](r: &RangeInclusive<Idx>) -> (res: &Idx)
    ensures
        *res == r@.start,
;

/// Relies on `RangeInclusive::end`: it returns the range's upper bound.
pub assume_specification<Idx>[ RangeInclusive::<Idx>::end ](r: &RangeInclusive<Idx>) -> (res: &Idx)
    ensures
        *res == r@.end,
;

/// A block size as used: sizes below `L` become `L`.
pub open spec fn effective_size(n: usize) -> usize {
    if n < L {
        L
    } else {
        n
    }
}

/// Number of consecutive steps under the X-drop threshold that end the alignment.
pub const X_DROP_ITER: usize = 2;

#[derive(Clone, Copy, Debug, PartialEq, Eq, Structural)]
pub enum Direction {
    Right,
    Down,
    Grow,
}

/// Resulting score and alignment end position.
#[derive(Clone, Copy, Debug, PartialEq, Eq, Structural)]
pub struct AlignResult {
    pub score: i32,
    pub query_idx: usize,
    pub reference_idx: usize,
}

/// Clamps an integer into the range of `i32`.
pub open spec fn sat32(x: int) -> i32 {
    if x > i32::MAX {
        i32::MAX
    } else if x < i32::MIN {
        i32::MIN
    } else {
        x as i32
    }
}

/// The 32-bit score of a cell: the shared offset plus the cell's distance from `ZERO`.
fn cell_score(off: i32, delta: i16) -> (r: i32)
    ensures
        r == sat32(off + delta - ZERO),
{
    let v: i64 = off as i64 + delta as i64 - ZERO as i64;
    if v > i32::MAX as i64 {
        i32::MAX
    } else if v < i32::MIN as i64 {
        i32::MIN
    } else {
        v as i32
    }
}

/// The amount that moves every border cell from the offset `prev_off` to `off`.
fn offset_delta(prev_off: i32, off: i32) -> (r: i16)
    ensures
        r == sat16(prev_off - off),
{
    let d: i64 = prev_off as i64 - off as i64;
    let d32: i32 = if d > i32::MAX as i64 {
        i32::MAX
    } else if d < i32::MIN as i64 {
        i32::MIN
    } else {
        d as i32
    };
    clamp(d32)
}

/// The best score after a step whose block reached `off_max`: it never falls.
pub fn next_best(best_max: i32, off_max: i32) -> (r: i32)
    ensures
        r >= best_max,
        r >= off_max,
        r == best_max || r == off_max,
{
    if off_max > best_max {
        off_max
    } else {
        best_max
    }
}

/// What the control loop does after a step.
#[derive(Clone, Copy, Debug, PartialEq, Eq, Structural)]
pub enum Move {
    Stop,
    Right,
    Down,
    Grow,
}

/// The next move of a block of `block_size` at `(i, j)`: stop once it covers
/// the ends of both sequences; shift the only way that stays inside when one
/// end is covered; grow (up to `max_size`) after more than
/// `block_size / step - 1` steps without a new best, or after a grow that found
/// none; otherwise shift towards the border whose first cells score higher,
/// right on a tie.
pub open spec fn move_spec(
    i: int,
    j: int,
    block_size: int,
    qlen: int,
    rlen: int,
    max_size: int,
    step: int,
    y_drop_iter: int,
    grow_no_max: bool,
    right_max: i16,
    down_max: i16,
) -> Move {
    if i + block_size > qlen && j + block_size > rlen {
        Move::Stop
    } else if j + block_size > rlen {
        Move::Down
    } else if i + block_size > qlen {
        Move::Right
    } else if block_size * 2 <= max_size && (y_drop_iter > block_size / step - 1 || grow_no_max) {
        Move::Grow
    } else if down_max > right_max {
        Move::Down
    } else {
        Move::Right
    }
}

/// Decides the next move of the block (see `move_spec`).
pub fn next_move(
    i: usize,
    j: usize,
    block_size: usize,
    qlen: usize,
    rlen: usize,
    max_size: usize,
    step: usize,
    y_drop_iter: usize,
    grow_no_max: bool,
    right_max: i16,
    down_max: i16,
) -> (r: Move)
    requires
        0 < step <= block_size,
        i + block_size <= usize::MAX,
        j + block_size <= usize::MAX,
        block_size * 2 <= usize::MAX,
    ensures
        r == move_spec(i as int, j as int, block_size as int, qlen as int, rlen as int, max_size as int,
            step as int, y_drop_iter as int, grow_no_max, right_max, down_max),
{
    assert(block_size / step >= 1) by (nonlinear_arith)
        requires
            0 < step <= block_size,
    ;
    if i + block_size > qlen && j + block_size > rlen {
        Move::Stop
    } else if j + block_size > rlen {
        Move::Down
    } else if i + block_size > qlen {
        Move::Right
    } else if block_size * 2 <= max_size && (y_drop_iter > block_size / step - 1 || grow_no_max) {
        Move::Grow
    } else if down_max > right_max {
        Move::Down
    } else {
        Move::Right
    }
}

/// The X-drop counter after a step whose block reached `off_max`, or `None`
/// when the alignment ends: that happens on the `X_DROP_ITER`-th step in a row
/// whose block stays more than `x_drop` below the best score.
pub fn next_x_drop_iter(off_max: i32, best_max: i32, x_drop: i32, x_drop_iter: usize) -> (r: Option<usize>)
    requires
        best_max >= 0,
        x_drop >= 0,
    ensures
        off_max >= best_max - x_drop ==> r == Some(0usize),
        off_max < best_max - x_drop && x_drop_iter + 1 < X_DROP_ITER ==> r == Some((x_drop_iter + 1) as usize),
        off_max < best_max - x_drop && x_drop_iter + 1 >= X_DROP_ITER ==> r is None,
{
    if off_max < best_max - x_drop {
        if x_drop_iter < X_DROP_ITER - 1 {
            Some(x_drop_iter + 1)
        } else {
            None
        }
    } else {
        Some(0)
    }
}

/// A border of `n` unreached cells.
fn min_border(n: usize) -> (r: Vec<i16>)
    ensures
        r@ == Seq::new(n as nat, |k: int| MIN),
{
    let mut v: Vec<i16> = Vec::new();
    let mut k: usize = 0;
    while k < n
        invariant
            k <= n,
            v@ == Seq::new(k as nat, |x: int| MIN),
        decreases n - k,
    {
        v.push(MIN);
        k += 1;
        assert(v@ =~= Seq::new(k as nat, |x: int| MIN));
    }
    v
}

/// Copies the first `n` cells of `src` over those of `dst`.
fn copy_prefix(dst: &mut Vec<i16>, src: &Vec<i16>, n: usize)
    requires
        n <= old(dst)@.len(),
        n <= src@.len(),
    ensures
        final(dst)@ == src@.subrange(0, n as int) + old(dst)@.subrange(n as int, old(dst)@.len() as int),
{
    let ghost orig = dst@;
    let mut k: usize = 0;
    while k < n
        invariant
            k <= n,
            n <= orig.len(),
            n <= src@.len(),
            dst@.len() == orig.len(),
            forall|x: int| 0 <= x < k ==> dst@[x] == src@[x],
            forall|x: int| k <= x < orig.len() ==> dst@[x] == orig[x],
        decreases n - k,
    {
        dst.set(k, src[k]);
        k += 1;
    }
    assert(dst@ =~= src@.subrange(0, n as int) + orig.subrange(n as int, orig.len() as int));
}

/// A power of two of at least `L` is a multiple of `L`.
proof fn lemma_pow2_multiple(n: int)
    requires
        is_pow2(n),
        n >= 16,
    ensures
        n % 16 == 0,
    decreases n,
{
    reveal(is_pow2);
    if n / 2 >= 16 {
        lemma_pow2_multiple(n / 2);
    } else {
        let m = n / 2;
        assert(is_pow2(m));
        assert(m % 2 == 0 && is_pow2(m / 2));
        assert(is_pow2(m / 2) ==> (m / 2) % 2 == 0 && is_pow2(m / 4));
        assert(is_pow2(m / 4) ==> m / 4 == 1 || ((m / 4) % 2 == 0 && is_pow2(m / 8)));
        assert(is_pow2(m / 8) ==> m / 8 == 1 || ((m / 8) % 2 == 0 && is_pow2(m / 16)));
    }
}

/// The right column `(D, C)` and the bottom row `(D, R)` of the block.
pub struct Borders {
    pub d_col: Vec<i16>,
    pub c_col: Vec<i16>,
    pub d_row: Vec<i16>,
    pub r_row: Vec<i16>,
}

impl Borders {
    spec fn sized(&self, n: nat) -> bool {
        &&& self.d_col@.len() == n
        &&& self.c_col@.len() == n
        &&& self.d_row@.len() == n
        &&& self.r_row@.len() == n
    }

    fn new(n: usize) -> (r: Borders)
        ensures
            r.sized(n as nat),
            r.d_col@ == Seq::new(n as nat, |k: int| MIN),
            r.c_col@ == Seq::new(n as nat, |k: int| MIN),
            r.d_row@ == Seq::new(n as nat, |k: int| MIN),
            r.r_row@ == Seq::new(n as nat, |k: int| MIN),
    {
        Borders { d_col: min_border(n), c_col: min_border(n), d_row: min_border(n), r_row: min_border(n) }
    }

    /// Copies the first `n` cells of each border of `src`.
    fn copy_from(&mut self, src: &Borders, n: usize)
        requires
            n <= src.d_col@.len(),
            old(self).sized(src.d_col@.len()),
            src.sized(src.d_col@.len()),
        ensures
            final(self).sized(src.d_col@.len()),
            final(self).d_col@ == src.d_col@.subrange(0, n as int) + old(self).d_col@.subrange(n as int, old(self).d_col@.len() as int),
            final(self).c_col@ == src.c_col@.subrange(0, n as int) + old(self).c_col@.subrange(n as int, old(self).c_col@.len() as int),
            final(self).d_row@ == src.d_row@.subrange(0, n as int) + old(self).d_row@.subrange(n as int, old(self).d_row@.len() as int),
            final(self).r_row@ == src.r_row@.subrange(0, n as int) + old(self).r_row@.subrange(n as int, old(self).r_row@.len() as int),
    {
        copy_prefix(&mut self.d_col, &src.d_col, n);
        copy_prefix(&mut self.c_col, &src.c_col, n);
        copy_prefix(&mut self.d_row, &src.d_row, n);
        copy_prefix(&mut self.r_row, &src.r_row, n);
    }
}

/// A border after `just_offset`.
pub open spec fn offset_border(b: Seq<i16>, add: i16, bs: int) -> Seq<i16> {
    Seq::new(bs as nat, |k: int| sat16(b[k] + add)) + b.subrange(bs, b.len() as int)
}

/// A border after `shift_and_offset` with the new cells `temp`.
pub open spec fn shifted_border(b: Seq<i16>, temp: Seq<i16>, add: i16, step: int, bs: int) -> Seq<i16> {
    Seq::new((bs - step) as nat, |k: int| sat16(b[k + step] + add)) + temp.subrange(0, step) + b.subrange(
        bs,
        b.len() as int,
    )
}

/// `dst` with its first `n` cells taken from `src`.
pub open spec fn copied_border(dst: Seq<i16>, src: Seq<i16>, n: int) -> Seq<i16> {
    src.subrange(0, n) + dst.subrange(n, dst.len() as int)
}

/// The borders, scratch vectors and checkpoint copies of the control loop,
/// with the results of one step.
pub struct StepCells {
    pub d_col: Seq<i16>,
    pub c_col: Seq<i16>,
    pub d_row: Seq<i16>,
    pub r_row: Seq<i16>,
    pub k_d_col: Seq<i16>,
    pub k_c_col: Seq<i16>,
    pub k_d_row: Seq<i16>,
    pub k_r_row: Seq<i16>,
    pub temp1: Seq<i16>,
    pub temp2: Seq<i16>,
    pub main_cell: BlockMax,
    pub grow_cell: BlockMax,
    pub right_max: i16,
    pub down_max: i16,
    pub corner: i16,
    pub t_cells: Seq<u32>,
    pub t_rects: Seq<Rectangle>,
    pub t_rights: Seq<bool>,
    pub t_starts: Seq<usize>,
    pub t_ck_cells: nat,
    pub t_ck_blocks: nat,
}

/// The trace with one more rectangle, whose words start at the current end.
pub open spec fn with_block(c: StepCells, do_trace: bool, i: int, j: int, w: int, h: int, right: bool) -> StepCells {
    if do_trace {
        StepCells {
            t_rects: c.t_rects.push(Rectangle { row: i as usize, col: j as usize, width: w as usize, height: h as usize }),
            t_rights: c.t_rights.push(right),
            t_starts: c.t_starts.push(c.t_cells.len() as usize),
            ..c
        }
    } else {
        c
    }
}

/// The trace with `words` appended.
pub open spec fn with_words(c: StepCells, do_trace: bool, words: Seq<u32>) -> StepCells {
    if do_trace {
        StepCells { t_cells: c.t_cells + words, ..c }
    } else {
        c
    }
}

/// The trace with its checkpoint at its current end.
pub open spec fn with_save(c: StepCells, do_trace: bool) -> StepCells {
    if do_trace {
        StepCells { t_ck_cells: c.t_cells.len(), t_ck_blocks: c.t_rects.len(), ..c }
    } else {
        c
    }
}

/// The trace cut back to its checkpoint.
pub open spec fn with_restore(c: StepCells, do_trace: bool) -> StepCells {
    if do_trace {
        StepCells {
            t_cells: c.t_cells.subrange(0, c.t_ck_cells as int),
            t_rects: c.t_rects.subrange(0, c.t_ck_blocks as int),
            t_rights: c.t_rights.subrange(0, c.t_ck_blocks as int),
            t_starts: c.t_starts.subrange(0, c.t_ck_blocks as int),
            ..c
        }
    } else {
        c
    }
}

/// What one step of the control loop computes (see `place_step`).
#[verifier::opaque]
pub open spec fn step_cells<M: Matrix>(
    m: M,
    g: Gaps,
    q: Seq<u8>,
    rf: Seq<u8>,
    qlen: int,
    rlen: int,
    x_drop: bool,
    do_trace: bool,
    i: int,
    j: int,
    bs: int,
    ps: int,
    dir: Direction,
    prev_dir: Direction,
    add: i16,
    corner: i16,
    c: StepCells,
) -> StepCells {
    let step = STEP as int;
    match dir {
        Direction::Right => {
            let cin = if prev_dir == Direction::Down { sat16(corner + add) } else { MIN };
            let e = block_effect(m, g, q, rf, qlen, rlen, i, j + bs - step, step, bs,
                offset_border(c.d_col, add, bs), offset_border(c.c_col, add, bs), c.temp1, c.temp2, 0, cin,
                true, x_drop);
            let nd = shifted_border(c.d_row, e.2, add, step, bs);
            let words = block_words(m, g, q, rf, qlen, rlen, i, j + bs - step, step, bs,
                offset_border(c.d_col, add, bs), offset_border(c.c_col, add, bs), cin, true, x_drop);
            StepCells {
                d_col: e.0,
                c_col: e.1,
                d_row: nd,
                r_row: shifted_border(c.r_row, e.3, add, step, bs),
                temp1: e.2,
                temp2: e.3,
                main_cell: e.4,
                grow_cell: BlockMax { max: MIN, row: 0, col: 0 },
                right_max: prefix_sum8(e.0),
                down_max: prefix_sum8(nd),
                corner: sat16(c.d_row[step - 1] + add),
                ..with_words(with_block(c, do_trace, i, j + bs - step, step, bs, true), do_trace, words)
            }
        },
        Direction::Down => {
            let cin = if prev_dir == Direction::Right { sat16(corner + add) } else { MIN };
            let e = block_effect(m, g, rf, q, rlen, qlen, j, i + bs - step, step, bs,
                offset_border(c.d_row, add, bs), offset_border(c.r_row, add, bs), c.temp1, c.temp2, 0, cin,
                false, x_drop);
            let nd = shifted_border(c.d_col, e.2, add, step, bs);
            let words = block_words(m, g, rf, q, rlen, qlen, j, i + bs - step, step, bs,
                offset_border(c.d_row, add, bs), offset_border(c.r_row, add, bs), cin, false, x_drop);
            StepCells {
                d_row: e.0,
                r_row: e.1,
                d_col: nd,
                c_col: shifted_border(c.c_col, e.3, add, step, bs),
                temp1: e.2,
                temp2: e.3,
                main_cell: e.4,
                grow_cell: BlockMax { max: MIN, row: 0, col: 0 },
                right_max: prefix_sum8(nd),
                down_max: prefix_sum8(e.0),
                corner: sat16(c.d_col[step - 1] + add),
                ..with_words(with_block(c, do_trace, i + bs - step, j, bs, step, false), do_trace, words)
            }
        },
        Direction::Grow => {
            let gs = bs - ps;
            let e1 = block_effect(m, g, rf, q, rlen, qlen, j, i + ps, gs, ps, c.d_row, c.r_row, c.d_col,
                c.c_col, ps, MIN, false, x_drop);
            let e2 = block_effect(m, g, q, rf, qlen, rlen, i, j + ps, gs, bs, e1.2, e1.3, e1.0, e1.1, ps,
                MIN, true, x_drop);
            StepCells {
                d_col: e2.0,
                c_col: e2.1,
                d_row: e2.2,
                r_row: e2.3,
                k_d_col: copied_border(c.k_d_col, e2.0, bs),
                k_c_col: copied_border(c.k_c_col, e2.1, bs),
                k_d_row: copied_border(c.k_d_row, e2.2, bs),
                k_r_row: copied_border(c.k_r_row, e2.3, bs),
                main_cell: e2.4,
                grow_cell: e1.4,
                right_max: prefix_sum8(e2.0),
                down_max: prefix_sum8(e2.2),
                corner: MIN,
                ..with_save(with_words(with_block(with_words(with_block(c, do_trace, i + ps, j, ps, gs, false),
                    do_trace, block_words(m, g, rf, q, rlen, qlen, j, i + ps, gs, ps, c.d_row, c.r_row, MIN, false,
                    x_drop)), do_trace, i, j + ps, gs, bs, true), do_trace, block_words(m, g, q, rf, qlen, rlen, i,
                    j + ps, gs, bs, e1.2, e1.3, MIN, true, x_drop)), do_trace)
            }
        },
    }
}

/// The cells of the exec state, in the form `step_cells` takes.
pub open spec fn cells_of(b: Borders, k: Borders, t1: Seq<i16>, t2: Seq<i16>, t: Trace) -> StepCells {
    StepCells {
        d_col: b.d_col@,
        c_col: b.c_col@,
        d_row: b.d_row@,
        r_row: b.r_row@,
        k_d_col: k.d_col@,
        k_c_col: k.c_col@,
        k_d_row: k.d_row@,
        k_r_row: k.r_row@,
        temp1: t1,
        temp2: t2,
        main_cell: BlockMax { max: MIN, row: 0, col: 0 },
        grow_cell: BlockMax { max: MIN, row: 0, col: 0 },
        right_max: MIN,
        down_max: MIN,
        corner: MIN,
        t_cells: t.cells(),
        t_rects: t.rects(),
        t_rights: t.rights(),
        t_starts: t.starts(),
        t_ck_cells: t.ckpt_trace_idx(),
        t_ck_blocks: t.ckpt_block_idx(),
    }
}

/// The strip of a shift right: the right border is moved by `off_add`, then
/// `STEP` new columns are computed into it, their bottom cells into `temp1`
/// and `temp2`.
#[verifier::rlimit(60)]
fn right_strip<M: Matrix>(
    matrix: &M,
    gaps: Gaps,
    query: &PaddedBytes,
    reference: &PaddedBytes,
    i: usize,
    j: usize,
    block_size: usize,
    off_add: i16,
    corner_in: i16,
    borders: &mut Borders,
    temp1: &mut Vec<i16>,
    temp2: &mut Vec<i16>,
    trace: &mut Trace,
    do_trace: bool,
    x_drop_mode: bool,
) -> (r: BlockMax)
    requires
        i + block_size <= query.padded().len(),
        j + block_size <= reference.padded().len(),
        L <= block_size <= 65536,
        block_size % L == 0,
        STEP <= block_size,
        block_size <= old(borders).d_col@.len(),
        old(borders).sized(old(borders).d_col@.len()),
        old(temp1)@.len() == L,
        old(temp2)@.len() == L,
        old(trace).wf(),
        gaps.open < 0,
        gaps.extend < 0,
    ensures
        final(borders).sized(old(borders).d_col@.len()),
        final(borders).d_row@ == old(borders).d_row@,
        final(borders).r_row@ == old(borders).r_row@,
        final(temp1)@.len() == L,
        final(temp2)@.len() == L,
        (final(borders).d_col@, final(borders).c_col@, final(temp1)@, final(temp2)@, r) == block_effect(*matrix,
            gaps, query.padded(), reference.padded(), query.len_spec() as int, reference.len_spec() as int,
            i as int, (j + block_size - STEP) as int, STEP as int, block_size as int,
            offset_border(old(borders).d_col@, off_add, block_size as int),
            offset_border(old(borders).c_col@, off_add, block_size as int), old(temp1)@, old(temp2)@, 0, corner_in,
            true, x_drop_mode),
        r.row <= block_size,
        r.col <= STEP,
        final(trace).wf(),
        final(trace).query_len() == old(trace).query_len(),
        final(trace).reference_len() == old(trace).reference_len(),
        final(trace).ckpt_trace_idx() == old(trace).ckpt_trace_idx(),
        final(trace).ckpt_block_idx() == old(trace).ckpt_block_idx(),
        do_trace ==> final(trace).rects() == old(trace).rects().push(Rectangle {
            row: i,
            col: (j + block_size - STEP) as usize,
            width: STEP,
            height: block_size,
        }) && final(trace).rights() == old(trace).rights().push(true) && final(trace).starts()
            == old(trace).starts().push(old(trace).cells().len() as usize) && final(trace).cells()
            == old(trace).cells() + block_words(*matrix, gaps, query.padded(), reference.padded(),
            query.len_spec() as int, reference.len_spec() as int, i as int, (j + block_size - STEP) as int,
            STEP as int, block_size as int, offset_border(old(borders).d_col@, off_add, block_size as int),
            offset_border(old(borders).c_col@, off_add, block_size as int), corner_in, true, x_drop_mode),
        !do_trace ==> final(trace).rects() == old(trace).rects() && final(trace).rights() == old(trace).rights()
            && final(trace).starts() == old(trace).starts() && final(trace).cells() == old(trace).cells(),
{
    let step = STEP;
    let qplen = query.padded_len();
    let rplen = reference.padded_len();
    assert(i + block_size <= qplen && j + block_size <= rplen);
    if do_trace {
        trace.add_block(i, j + block_size - step, step, block_size, true);
    }
    let ghost d0 = borders.d_col@;
    let ghost c0 = borders.c_col@;
    just_offset(block_size, &mut borders.d_col, off_add);
    just_offset(block_size, &mut borders.c_col, off_add);
    assert(borders.d_col@ == offset_border(d0, off_add, block_size as int));
    assert(borders.c_col@ == offset_border(c0, off_add, block_size as int));
    place_block(
        matrix, gaps, query, reference, i, j + block_size - step, step, block_size,
        &mut borders.d_col, &mut borders.c_col, temp1, temp2, 0, corner_in, true,
        trace, do_trace, x_drop_mode,
    )
}

/// `place_step` when the block shifts right.
#[verifier::rlimit(100)]
#[verifier::spinoff_prover]
fn step_right<M: Matrix>(
    matrix: &M,
    gaps: Gaps,
    query: &PaddedBytes,
    reference: &PaddedBytes,
    i: usize,
    j: usize,
    block_size: usize,
    prev_size: usize,
    dir: Direction,
    prev_dir: Direction,
    off_add: i16,
    corner: i16,
    borders: &mut Borders,
    ckpt: &mut Borders,
    temp1: &mut Vec<i16>,
    temp2: &mut Vec<i16>,
    trace: &mut Trace,
    do_trace: bool,
    x_drop_mode: bool,
) -> (r: (BlockMax, BlockMax, i16, i16, i16))
    requires
        dir == Direction::Right,
        i + block_size <= query.padded().len(),
        j + block_size <= reference.padded().len(),
        i <= query.len_spec(),
        j <= reference.len_spec(),
        L <= block_size <= 65536,
        block_size % L == 0,
        prev_size <= block_size,
        prev_size % L == 0,
        STEP <= block_size,
        block_size <= old(borders).d_col@.len(),
        old(borders).sized(old(borders).d_col@.len()),
        old(ckpt).sized(old(borders).d_col@.len()),
        old(temp1)@.len() == L,
        old(temp2)@.len() == L,
        old(trace).wf(),
        gaps.open < 0,
        gaps.extend < 0,
    ensures
        final(borders).sized(old(borders).d_col@.len()),
        final(ckpt).sized(old(borders).d_col@.len()),
        final(temp1)@.len() == L,
        final(temp2)@.len() == L,
        final(trace).wf(),
        final(trace).query_len() == old(trace).query_len(),
        final(trace).reference_len() == old(trace).reference_len(),
        r.0.row <= block_size,
        dir != Direction::Grow ==> r.0.col <= STEP,
        ({
            let out = step_cells(*matrix, gaps, query.padded(), reference.padded(), query.len_spec() as int,
                reference.len_spec() as int, x_drop_mode, do_trace, i as int, j as int, block_size as int, prev_size as int,
                dir, prev_dir, off_add, corner, cells_of(*old(borders), *old(ckpt), old(temp1)@, old(temp2)@, *old(trace)));
            &&& final(borders).d_col@ == out.d_col
            &&& final(borders).c_col@ == out.c_col
            &&& final(borders).d_row@ == out.d_row
            &&& final(borders).r_row@ == out.r_row
            &&& final(ckpt).d_col@ == out.k_d_col
            &&& final(ckpt).c_col@ == out.k_c_col
            &&& final(ckpt).d_row@ == out.k_d_row
            &&& final(ckpt).r_row@ == out.k_r_row
            &&& final(temp1)@ == out.temp1
            &&& final(temp2)@ == out.temp2
            &&& r.0 == out.main_cell
            &&& r.1 == out.grow_cell
            &&& r.2 == out.right_max
            &&& r.3 == out.down_max
            &&& r.4 == out.corner
            &&& final(trace).cells() == out.t_cells
            &&& final(trace).rects() == out.t_rects
            &&& final(trace).rights() == out.t_rights
            &&& final(trace).starts() == out.t_starts
            &&& final(trace).ckpt_trace_idx() == out.t_ck_cells
            &&& final(trace).ckpt_block_idx() == out.t_ck_blocks
        }),
{
    reveal(step_cells);
    let step = STEP;
    // both padded lengths fit in a usize, so the strip coordinates below do too
    let qplen = query.padded_len();
    let rplen = reference.padded_len();
    assert(i + block_size <= qplen && j + block_size <= rplen);
        let corner_in = if prev_dir == Direction::Down {
            adds(corner, off_add)
        } else {
            MIN
        };
        let main_cell = right_strip(matrix, gaps, query, reference, i, j, block_size, off_add, corner_in, borders,
            temp1, temp2, trace, do_trace, x_drop_mode);
        let right_max = prefix_max(&borders.d_col);
        let next_corner = shift_and_offset(block_size, &mut borders.d_row, temp1, off_add, step);
        shift_and_offset(block_size, &mut borders.r_row, temp2, off_add, step);
        let down_max = prefix_max(&borders.d_row);
        (main_cell, BlockMax { max: MIN, row: 0, col: 0 }, right_max, down_max, next_corner)
}

/// `place_step` when the block shifts down.
#[verifier::rlimit(100)]
#[verifier::spinoff_prover]
fn step_down<M: Matrix>(
    matrix: &M,
    gaps: Gaps,
    query: &PaddedBytes,
    reference: &PaddedBytes,
    i: usize,
    j: usize,
    block_size: usize,
    prev_size: usize,
    dir: Direction,
    prev_dir: Direction,
    off_add: i16,
    corner: i16,
    borders: &mut Borders,
    ckpt: &mut Borders,
    temp1: &mut Vec<i16>,
    temp2: &mut Vec<i16>,
    trace: &mut Trace,
    do_trace: bool,
    x_drop_mode: bool,
) -> (r: (BlockMax, BlockMax, i16, i16, i16))
    requires
        dir == Direction::Down,
        i + block_size <= query.padded().len(),
        j + block_size <= reference.padded().len(),
        i <= query.len_spec(),
        j <= reference.len_spec(),
        L <= block_size <= 65536,
        block_size % L == 0,
        prev_size <= block_size,
        prev_size % L == 0,
        STEP <= block_size,
        block_size <= old(borders).d_col@.len(),
        old(borders).sized(old(borders).d_col@.len()),
        old(ckpt).sized(old(borders).d_col@.len()),
        old(temp1)@.len() == L,
        old(temp2)@.len() == L,
        old(trace).wf(),
        gaps.open < 0,
        gaps.extend < 0,
    ensures
        final(borders).sized(old(borders).d_col@.len()),
        final(ckpt).sized(old(borders).d_col@.len()),
        final(temp1)@.len() == L,
        final(temp2)@.len() == L,
        final(trace).wf(),
        final(trace).query_len() == old(trace).query_len(),
        final(trace).reference_len() == old(trace).reference_len(),
        r.0.row <= block_size,
        dir != Direction::Grow ==> r.0.col <= STEP,
        ({
            let out = step_cells(*matrix, gaps, query.padded(), reference.padded(), query.len_spec() as int,
                reference.len_spec() as int, x_drop_mode, do_trace, i as int, j as int, block_size as int, prev_size as int,
                dir, prev_dir, off_add, corner, cells_of(*old(borders), *old(ckpt), old(temp1)@, old(temp2)@, *old(trace)));
            &&& final(borders).d_col@ == out.d_col
            &&& final(borders).c_col@ == out.c_col
            &&& final(borders).d_row@ == out.d_row
            &&& final(borders).r_row@ == out.r_row
            &&& final(ckpt).d_col@ == out.k_d_col
            &&& final(ckpt).c_col@ == out.k_c_col
            &&& final(ckpt).d_row@ == out.k_d_row
            &&& final(ckpt).r_row@ == out.k_r_row
            &&& final(temp1)@ == out.temp1
            &&& final(temp2)@ == out.temp2
            &&& r.0 == out.main_cell
            &&& r.1 == out.grow_cell
            &&& r.2 == out.right_max
            &&& r.3 == out.down_max
            &&& r.4 == out.corner
            &&& final(trace).cells() == out.t_cells
            &&& final(trace).rects() == out.t_rects
            &&& final(trace).rights() == out.t_rights
            &&& final(trace).starts() == out.t_starts
            &&& final(trace).ckpt_trace_idx() == out.t_ck_cells
            &&& final(trace).ckpt_block_idx() == out.t_ck_blocks
        }),
{
    reveal(step_cells);
    let step = STEP;
    // both padded lengths fit in a usize, so the strip coordinates below do too
    let qplen = query.padded_len();
    let rplen = reference.padded_len();
    assert(i + block_size <= qplen && j + block_size <= rplen);
        if do_trace {
            trace.add_block(i + block_size - step, j, block_size, step, false);
        }
        just_offset(block_size, &mut borders.d_row, off_add);
        just_offset(block_size, &mut borders.r_row, off_add);
        let corner_in = if prev_dir == Direction::Right {
            adds(corner, off_add)
        } else {
            MIN
        };
        let main_cell = place_block(
            matrix, gaps, reference, query, j, i + block_size - step, step, block_size,
            &mut borders.d_row, &mut borders.r_row, temp1, temp2, 0, corner_in, false,
            trace, do_trace, x_drop_mode,
        );
        let down_max = prefix_max(&borders.d_row);
        let next_corner = shift_and_offset(block_size, &mut borders.d_col, temp1, off_add, step);
        shift_and_offset(block_size, &mut borders.c_col, temp2, off_add, step);
        let right_max = prefix_max(&borders.d_col);
        (main_cell, BlockMax { max: MIN, row: 0, col: 0 }, right_max, down_max, next_corner)
}

/// The first strip of a grow: the rows added below the old block, as wide as
/// the old block.
#[verifier::rlimit(60)]
fn grow_below<M: Matrix>(
    matrix: &M,
    gaps: Gaps,
    query: &PaddedBytes,
    reference: &PaddedBytes,
    i: usize,
    j: usize,
    block_size: usize,
    prev_size: usize,
    borders: &mut Borders,
    trace: &mut Trace,
    do_trace: bool,
    x_drop_mode: bool,
) -> (r: BlockMax)
    requires
        i + block_size <= query.padded().len(),
        j + block_size <= reference.padded().len(),
        L <= block_size <= 65536,
        block_size % L == 0,
        prev_size <= block_size,
        prev_size % L == 0,
        block_size <= old(borders).d_col@.len(),
        old(borders).sized(old(borders).d_col@.len()),
        old(trace).wf(),
        gaps.open < 0,
        gaps.extend < 0,
    ensures
        final(borders).sized(old(borders).d_col@.len()),
        (final(borders).d_row@, final(borders).r_row@, final(borders).d_col@, final(borders).c_col@, r)
            == block_effect(*matrix, gaps, reference.padded(), query.padded(), reference.len_spec() as int,
            query.len_spec() as int, j as int, (i + prev_size) as int, (block_size - prev_size) as int,
            prev_size as int, old(borders).d_row@, old(borders).r_row@, old(borders).d_col@, old(borders).c_col@,
            prev_size as int, MIN, false, x_drop_mode),
        r.row <= prev_size,
        r.col <= block_size - prev_size,
        prev_size == 0 ==> final(borders).d_col@ == old(borders).d_col@ && final(borders).c_col@
            == old(borders).c_col@ && r == (BlockMax { max: MIN, row: 0, col: 0 }),
        final(trace).wf(),
        final(trace).query_len() == old(trace).query_len(),
        final(trace).reference_len() == old(trace).reference_len(),
        final(trace).ckpt_trace_idx() == old(trace).ckpt_trace_idx(),
        final(trace).ckpt_block_idx() == old(trace).ckpt_block_idx(),
        do_trace ==> final(trace).rects() == old(trace).rects().push(Rectangle {
            row: (i + prev_size) as usize,
            col: j,
            width: prev_size,
            height: (block_size - prev_size) as usize,
        }) && final(trace).rights() == old(trace).rights().push(false) && final(trace).starts()
            == old(trace).starts().push(old(trace).cells().len() as usize) && final(trace).cells()
            == old(trace).cells() + block_words(*matrix, gaps, reference.padded(), query.padded(),
            reference.len_spec() as int, query.len_spec() as int, j as int, (i + prev_size) as int,
            (block_size - prev_size) as int, prev_size as int, old(borders).d_row@, old(borders).r_row@, MIN,
            false, x_drop_mode),
        !do_trace ==> final(trace).rects() == old(trace).rects() && final(trace).rights() == old(trace).rights()
            && final(trace).starts() == old(trace).starts() && final(trace).cells() == old(trace).cells(),
{
    let qplen = query.padded_len();
    let rplen = reference.padded_len();
    assert(i + block_size <= qplen && j + block_size <= rplen);
    let grow_step = block_size - prev_size;
    if do_trace {
        trace.resize_trace(i, j, query.len(), reference.len(), block_size);
        trace.add_block(i + prev_size, j, prev_size, grow_step, false);
    }
    let ghost d_col0 = borders.d_col@;
    let ghost c_col0 = borders.c_col@;
    let grow_cell = place_block(
        matrix, gaps, reference, query, j, i + prev_size, grow_step, prev_size,
        &mut borders.d_row, &mut borders.r_row, &mut borders.d_col, &mut borders.c_col,
        prev_size, MIN, false, trace, do_trace, x_drop_mode,
    );
    if prev_size == 0 {
        assert(borders.d_col@ =~= d_col0);
        assert(borders.c_col@ =~= c_col0);
    }
    grow_cell
}

/// The second strip of a grow: the columns added to the right of the old
/// block, as tall as the new block.
#[verifier::rlimit(100)]
#[verifier::spinoff_prover]
fn grow_right<M: Matrix>(
    matrix: &M,
    gaps: Gaps,
    query: &PaddedBytes,
    reference: &PaddedBytes,
    i: usize,
    j: usize,
    block_size: usize,
    prev_size: usize,
    borders: &mut Borders,
    trace: &mut Trace,
    do_trace: bool,
    x_drop_mode: bool,
) -> (r: BlockMax)
    requires
        i + block_size <= query.padded().len(),
        j + block_size <= reference.padded().len(),
        L <= block_size <= 65536,
        block_size % L == 0,
        prev_size <= block_size,
        prev_size % L == 0,
        block_size <= old(borders).d_col@.len(),
        old(borders).sized(old(borders).d_col@.len()),
        old(trace).wf(),
        gaps.open < 0,
        gaps.extend < 0,
    ensures
        final(borders).sized(old(borders).d_col@.len()),
        (final(borders).d_col@, final(borders).c_col@, final(borders).d_row@, final(borders).r_row@, r)
            == block_effect(*matrix, gaps, query.padded(), reference.padded(), query.len_spec() as int,
            reference.len_spec() as int, i as int, (j + prev_size) as int, (block_size - prev_size) as int,
            block_size as int, old(borders).d_col@, old(borders).c_col@, old(borders).d_row@, old(borders).r_row@,
            prev_size as int, MIN, true, x_drop_mode),
        r.row <= block_size,
        r.col <= block_size - prev_size,
        prev_size == 0 ==> final(borders).d_col@ == strip(*matrix, gaps, true, query.padded(), reference.padded(),
            i as int, j as int, old(borders).d_col@.subrange(0, block_size as int),
            old(borders).c_col@.subrange(0, block_size as int), MIN, cols_done(x_drop_mode, i as int,
            block_size as int, query.len_spec() as int, j as int, reference.len_spec() as int, block_size as int) as nat).0
            + old(borders).d_col@.subrange(block_size as int, old(borders).d_col@.len() as int),
        prev_size == 0 && x_drop_mode ==> ({
            let q = query.padded();
            let rf = reference.padded();
            let dn0 = old(borders).d_col@.subrange(0, block_size as int);
            let cn0 = old(borders).c_col@.subrange(0, block_size as int);
            &&& r.max >= MIN
            &&& forall|jj: int, k: int| 0 <= jj < block_size && 0 <= k < block_size ==>
                #[trigger] strip(*matrix, gaps, true, q, rf, i as int, j as int, dn0, cn0, MIN, (jj + 1) as nat).0[k] <= r.max
            &&& r == (BlockMax { max: MIN, row: 0, col: 0 }) || (r.col < block_size && r.row < block_size
                && strip(*matrix, gaps, true, q, rf, i as int, j as int, dn0, cn0, MIN, (r.col + 1) as nat).0[r.row as int] == r.max)
        }),
        final(trace).wf(),
        final(trace).query_len() == old(trace).query_len(),
        final(trace).reference_len() == old(trace).reference_len(),
        final(trace).ckpt_trace_idx() == old(trace).ckpt_trace_idx(),
        final(trace).ckpt_block_idx() == old(trace).ckpt_block_idx(),
        do_trace ==> final(trace).rects() == old(trace).rects().push(Rectangle {
            row: i,
            col: (j + prev_size) as usize,
            width: (block_size - prev_size) as usize,
            height: block_size,
        }) && final(trace).rights() == old(trace).rights().push(true) && final(trace).starts()
            == old(trace).starts().push(old(trace).cells().len() as usize) && final(trace).cells()
            == old(trace).cells() + block_words(*matrix, gaps, query.padded(), reference.padded(),
            query.len_spec() as int, reference.len_spec() as int, i as int, (j + prev_size) as int,
            (block_size - prev_size) as int, block_size as int, old(borders).d_col@, old(borders).c_col@, MIN,
            true, x_drop_mode),
        !do_trace ==> final(trace).rects() == old(trace).rects() && final(trace).rights() == old(trace).rights()
            && final(trace).starts() == old(trace).starts() && final(trace).cells() == old(trace).cells(),
{
    let qplen = query.padded_len();
    let rplen = reference.padded_len();
    assert(i + block_size <= qplen && j + block_size <= rplen);
    let grow_step = block_size - prev_size;
    if do_trace {
        trace.add_block(i, j + prev_size, grow_step, block_size, true);
    }
    place_block(
        matrix, gaps, query, reference, i, j + prev_size, grow_step, block_size,
        &mut borders.d_col, &mut borders.c_col, &mut borders.d_row, &mut borders.r_row,
        prev_size, MIN, true, trace, do_trace, x_drop_mode,
    )
}

/// `place_step` when the block grows.
#[verifier::rlimit(100)]
#[verifier::spinoff_prover]
fn step_grow<M: Matrix>(
    matrix: &M,
    gaps: Gaps,
    query: &PaddedBytes,
    reference: &PaddedBytes,
    i: usize,
    j: usize,
    block_size: usize,
    prev_size: usize,
    dir: Direction,
    prev_dir: Direction,
    off_add: i16,
    corner: i16,
    borders: &mut Borders,
    ckpt: &mut Borders,
    temp1: &mut Vec<i16>,
    temp2: &mut Vec<i16>,
    trace: &mut Trace,
    do_trace: bool,
    x_drop_mode: bool,
) -> (r: (BlockMax, BlockMax, i16, i16, i16))
    requires
        dir == Direction::Grow,
        i + block_size <= query.padded().len(),
        j + block_size <= reference.padded().len(),
        i <= query.len_spec(),
        j <= reference.len_spec(),
        L <= block_size <= 65536,
        block_size % L == 0,
        prev_size <= block_size,
        prev_size % L == 0,
        STEP <= block_size,
        block_size <= old(borders).d_col@.len(),
        old(borders).sized(old(borders).d_col@.len()),
        old(ckpt).sized(old(borders).d_col@.len()),
        old(temp1)@.len() == L,
        old(temp2)@.len() == L,
        old(trace).wf(),
        gaps.open < 0,
        gaps.extend < 0,
    ensures
        final(borders).sized(old(borders).d_col@.len()),
        final(ckpt).sized(old(borders).d_col@.len()),
        final(temp1)@.len() == L,
        final(temp2)@.len() == L,
        final(trace).wf(),
        final(trace).query_len() == old(trace).query_len(),
        final(trace).reference_len() == old(trace).reference_len(),
        r.0.row <= block_size,
        dir != Direction::Grow ==> r.0.col <= STEP,
        dir == Direction::Grow ==> r.0.col <= block_size - prev_size && r.1.col <= block_size
            - prev_size && r.1.row <= prev_size,
        dir == Direction::Grow && prev_size == 0 ==> final(borders).d_col@ == strip(*matrix, gaps, true,
            query.padded(), reference.padded(), i as int, j as int, old(borders).d_col@.subrange(0, block_size as int),
            old(borders).c_col@.subrange(0, block_size as int), MIN, cols_done(x_drop_mode, i as int,
            block_size as int, query.len_spec() as int, j as int, reference.len_spec() as int, block_size as int) as nat).0
            + old(borders).d_col@.subrange(block_size as int, old(borders).d_col@.len() as int),
        ({
            let out = step_cells(*matrix, gaps, query.padded(), reference.padded(), query.len_spec() as int,
                reference.len_spec() as int, x_drop_mode, do_trace, i as int, j as int, block_size as int, prev_size as int,
                dir, prev_dir, off_add, corner, cells_of(*old(borders), *old(ckpt), old(temp1)@, old(temp2)@, *old(trace)));
            &&& final(borders).d_col@ == out.d_col
            &&& final(borders).c_col@ == out.c_col
            &&& final(borders).d_row@ == out.d_row
            &&& final(borders).r_row@ == out.r_row
            &&& final(ckpt).d_col@ == out.k_d_col
            &&& final(ckpt).c_col@ == out.k_c_col
            &&& final(ckpt).d_row@ == out.k_d_row
            &&& final(ckpt).r_row@ == out.k_r_row
            &&& final(temp1)@ == out.temp1
            &&& final(temp2)@ == out.temp2
            &&& r.0 == out.main_cell
            &&& r.1 == out.grow_cell
            &&& r.2 == out.right_max
            &&& r.3 == out.down_max
            &&& r.4 == out.corner
            &&& final(trace).cells() == out.t_cells
            &&& final(trace).rects() == out.t_rects
            &&& final(trace).rights() == out.t_rights
            &&& final(trace).starts() == out.t_starts
            &&& final(trace).ckpt_trace_idx() == out.t_ck_cells
            &&& final(trace).ckpt_block_idx() == out.t_ck_blocks
        }),
        dir == Direction::Grow && prev_size == 0 ==> r.1 == (BlockMax { max: MIN, row: 0, col: 0 }),
        dir == Direction::Grow && prev_size == 0 && x_drop_mode ==> ({
            let q = query.padded();
            let rf = reference.padded();
            let dn0 = old(borders).d_col@.subrange(0, block_size as int);
            let cn0 = old(borders).c_col@.subrange(0, block_size as int);
            &&& r.0.max >= MIN
            &&& forall|jj: int, k: int| 0 <= jj < block_size && 0 <= k < block_size ==>
                #[trigger] strip(*matrix, gaps, true, q, rf, i as int, j as int, dn0, cn0, MIN, (jj + 1) as nat).0[k] <= r.0.max
            &&& r.0 == (BlockMax { max: MIN, row: 0, col: 0 }) || (r.0.col < block_size && r.0.row < block_size
                && strip(*matrix, gaps, true, q, rf, i as int, j as int, dn0, cn0, MIN, (r.0.col + 1) as nat).0[r.0.row as int] == r.0.max)
        }),
{
    reveal(step_cells);
    let step = STEP;
    // both padded lengths fit in a usize, so the strip coordinates below do too
    let qplen = query.padded_len();
    let rplen = reference.padded_len();
    assert(i + block_size <= qplen && j + block_size <= rplen);
        let grow_step = block_size - prev_size;
        // below the old block, then to the right of the whole new block
        let grow_cell = grow_below(matrix, gaps, query, reference, i, j, block_size, prev_size, borders, trace,
            do_trace, x_drop_mode);
        let main_cell = grow_right(matrix, gaps, query, reference, i, j, block_size, prev_size, borders, trace,
            do_trace, x_drop_mode);
        let right_max = prefix_max(&borders.d_col);
        let down_max = prefix_max(&borders.d_row);
        // growing again from here starts from the extended borders
        ckpt.copy_from(borders, block_size);
        if do_trace {
            trace.save_ckpt();
        }
        (main_cell, grow_cell, right_max, down_max, MIN)
}

/// Computes the new cells of one step of the control loop: a strip on the
/// right, a strip at the bottom, or both strips of a grow. Borders are first
/// moved by `off_add` when the block shifts. Returns the best cells of the
/// (second and first) strips, the prefix sums of the right and bottom borders
/// and the corner for the next strip.
#[verifier::rlimit(100)]
#[verifier::spinoff_prover]
fn place_step<M: Matrix>(
    matrix: &M,
    gaps: Gaps,
    query: &PaddedBytes,
    reference: &PaddedBytes,
    i: usize,
    j: usize,
    block_size: usize,
    prev_size: usize,
    dir: Direction,
    prev_dir: Direction,
    off_add: i16,
    corner: i16,
    borders: &mut Borders,
    ckpt: &mut Borders,
    temp1: &mut Vec<i16>,
    temp2: &mut Vec<i16>,
    trace: &mut Trace,
    do_trace: bool,
    x_drop_mode: bool,
) -> (r: (BlockMax, BlockMax, i16, i16, i16))
    requires
        i + block_size <= query.padded().len(),
        j + block_size <= reference.padded().len(),
        i <= query.len_spec(),
        j <= reference.len_spec(),
        L <= block_size <= 65536,
        block_size % L == 0,
        prev_size <= block_size,
        prev_size % L == 0,
        STEP <= block_size,
        block_size <= old(borders).d_col@.len(),
        old(borders).sized(old(borders).d_col@.len()),
        old(ckpt).sized(old(borders).d_col@.len()),
        old(temp1)@.len() == L,
        old(temp2)@.len() == L,
        old(trace).wf(),
        gaps.open < 0,
        gaps.extend < 0,
    ensures
        final(borders).sized(old(borders).d_col@.len()),
        final(ckpt).sized(old(borders).d_col@.len()),
        final(temp1)@.len() == L,
        final(temp2)@.len() == L,
        final(trace).wf(),
        final(trace).query_len() == old(trace).query_len(),
        final(trace).reference_len() == old(trace).reference_len(),
        r.0.row <= block_size,
        dir != Direction::Grow ==> r.0.col <= STEP,
        dir == Direction::Grow ==> r.0.col <= block_size - prev_size && r.1.col <= block_size
            - prev_size && r.1.row <= prev_size,
        dir == Direction::Grow && prev_size == 0 ==> final(borders).d_col@ == strip(*matrix, gaps, true,
            query.padded(), reference.padded(), i as int, j as int, old(borders).d_col@.subrange(0, block_size as int),
            old(borders).c_col@.subrange(0, block_size as int), MIN, cols_done(x_drop_mode, i as int,
            block_size as int, query.len_spec() as int, j as int, reference.len_spec() as int, block_size as int) as nat).0
            + old(borders).d_col@.subrange(block_size as int, old(borders).d_col@.len() as int),
        ({
            let out = step_cells(*matrix, gaps, query.padded(), reference.padded(), query.len_spec() as int,
                reference.len_spec() as int, x_drop_mode, do_trace, i as int, j as int, block_size as int, prev_size as int,
                dir, prev_dir, off_add, corner, cells_of(*old(borders), *old(ckpt), old(temp1)@, old(temp2)@, *old(trace)));
            &&& final(borders).d_col@ == out.d_col
            &&& final(borders).c_col@ == out.c_col
            &&& final(borders).d_row@ == out.d_row
            &&& final(borders).r_row@ == out.r_row
            &&& final(ckpt).d_col@ == out.k_d_col
            &&& final(ckpt).c_col@ == out.k_c_col
            &&& final(ckpt).d_row@ == out.k_d_row
            &&& final(ckpt).r_row@ == out.k_r_row
            &&& final(temp1)@ == out.temp1
            &&& final(temp2)@ == out.temp2
            &&& r.0 == out.main_cell
            &&& r.1 == out.grow_cell
            &&& r.2 == out.right_max
            &&& r.3 == out.down_max
            &&& r.4 == out.corner
            &&& final(trace).cells() == out.t_cells
            &&& final(trace).rects() == out.t_rects
            &&& final(trace).rights() == out.t_rights
            &&& final(trace).starts() == out.t_starts
            &&& final(trace).ckpt_trace_idx() == out.t_ck_cells
            &&& final(trace).ckpt_block_idx() == out.t_ck_blocks
        }),
        dir == Direction::Grow && prev_size == 0 ==> r.1 == (BlockMax { max: MIN, row: 0, col: 0 }),
        dir == Direction::Grow && prev_size == 0 && x_drop_mode ==> ({
            let q = query.padded();
            let rf = reference.padded();
            let dn0 = old(borders).d_col@.subrange(0, block_size as int);
            let cn0 = old(borders).c_col@.subrange(0, block_size as int);
            &&& r.0.max >= MIN
            &&& forall|jj: int, k: int| 0 <= jj < block_size && 0 <= k < block_size ==>
                #[trigger] strip(*matrix, gaps, true, q, rf, i as int, j as int, dn0, cn0, MIN, (jj + 1) as nat).0[k] <= r.0.max
            &&& r.0 == (BlockMax { max: MIN, row: 0, col: 0 }) || (r.0.col < block_size && r.0.row < block_size
                && strip(*matrix, gaps, true, q, rf, i as int, j as int, dn0, cn0, MIN, (r.0.col + 1) as nat).0[r.0.row as int] == r.0.max)
        }),
{
    match dir {
        Direction::Right => step_right(matrix, gaps, query, reference, i, j, block_size, prev_size, dir, prev_dir, off_add, corner, borders, ckpt, temp1, temp2, trace, do_trace, x_drop_mode),
        Direction::Down => step_down(matrix, gaps, query, reference, i, j, block_size, prev_size, dir, prev_dir, off_add, corner, borders, ckpt, temp1, temp2, trace, do_trace, x_drop_mode),
        Direction::Grow => step_grow(matrix, gaps, query, reference, i, j, block_size, prev_size, dir, prev_dir, off_add, corner, borders, ckpt, temp1, temp2, trace, do_trace, x_drop_mode),
    }
}

/// The score (less the bias) of cell `(row, col)` of the strip that the
/// first grow computes from unreached borders with a block of `size` cells.
pub open spec fn single_block_cell<M: Matrix>(
    m: M,
    g: Gaps,
    q: Seq<u8>,
    rf: Seq<u8>,
    size: nat,
    row: int,
    col: int,
) -> int {
    let border = Seq::new(size, |k: int| MIN);
    strip(m, g, true, q, rf, 0, 0, border, border, MIN, (col + 1) as nat).0[row] - ZERO
}

/// `score` is the best of zero and the scores of all cells of the strip that
/// the first grow computes with a block of `size` cells, and `(row, col)` is a
/// cell of that strip with that score (when it is above zero).
pub open spec fn single_block_best<M: Matrix>(
    m: M,
    g: Gaps,
    q: Seq<u8>,
    rf: Seq<u8>,
    size: nat,
    score: int,
    row: int,
    col: int,
) -> bool {
    &&& score >= 0
    &&& forall|jj: int, k: int| 0 <= jj < size && 0 <= k < size ==>
        #[trigger] single_block_cell(m, g, q, rf, size, k, jj) <= score
    &&& score == 0 || (0 <= row < size && 0 <= col < size && single_block_cell(m, g, q, rf, size, row, col) == score)
}

/// The global score when one block of `size` cells covers the whole matrix:
/// the bottom right cell of the strip that the first grow computes from
/// unreached borders, less the bias.
pub open spec fn single_block_score<M: Matrix>(
    m: M,
    g: Gaps,
    q: Seq<u8>,
    rf: Seq<u8>,
    qlen: int,
    rlen: int,
    size: nat,
) -> i32 {
    let border = Seq::new(size, |k: int| MIN);
    let n = cols_done(false, 0, size as int, qlen, 0, rlen, size as int);
    sat32(strip(m, g, true, q, rf, 0, 0, border, border, MIN, n as nat).0[qlen] - ZERO)
}

/// The state of the control loop at the start of an iteration (or once it
/// has finished).
pub struct WalkState {
    pub i: int,
    pub j: int,
    pub block_size: int,
    pub prev_size: int,
    pub dir: Direction,
    pub prev_dir: Direction,
    pub off: i32,
    pub off_max: i32,
    pub corner: i16,
    pub cells: StepCells,
    pub i_ckpt: int,
    pub j_ckpt: int,
    pub off_ckpt: i32,
    pub best_max: i32,
    pub best_i: int,
    pub best_j: int,
    pub y_drop: int,
    pub x_drop_iter: int,
    pub done: bool,
    pub end_score: i32,
}

/// The borders, scratch vectors and checkpoint copies alone.
pub open spec fn plain(c: StepCells) -> StepCells {
    StepCells { main_cell: BlockMax { max: MIN, row: 0, col: 0 }, grow_cell: BlockMax { max: MIN, row: 0, col: 0 }, right_max: MIN, down_max: MIN, corner: MIN, ..c }
}

/// The inputs of a walk that stay fixed.
pub struct WalkInput<M> {
    pub m: M,
    pub g: Gaps,
    pub q: Seq<u8>,
    pub rf: Seq<u8>,
    pub qlen: int,
    pub rlen: int,
    pub max_size: int,
    pub x_drop_mode: bool,
    pub x_drop: i32,
    pub do_trace: bool,
}

/// One iteration of the control loop: place the step's cells, rebase, keep
/// the best score and the checkpoint, count the X-drop steps, then stop,
/// grow from the checkpoint or shift (`move_spec`).
#[verifier::opaque]
pub open spec fn walk_step<M: Matrix>(w: WalkInput<M>, s: WalkState) -> WalkState {
    let off = if s.dir != Direction::Grow { s.off_max } else { s.off };
    let add = sat16(s.off - off);
    let out = step_cells(w.m, w.g, w.q, w.rf, w.qlen, w.rlen, w.x_drop_mode, w.do_trace, s.i, s.j, s.block_size,
        s.prev_size, s.dir, s.prev_dir, add, s.corner, s.cells);
    let cells = plain(out);
    let off_max = sat32(off + max16(out.main_cell.max, out.grow_cell.max) - ZERO);
    let y0 = if s.y_drop < usize::MAX { s.y_drop + 1 } else { s.y_drop };
    let improved = off_max > s.best_max;
    let save = improved && s.block_size < w.max_size;
    let cells1 = if save {
        StepCells {
            k_d_col: copied_border(cells.k_d_col, cells.d_col, s.block_size),
            k_c_col: copied_border(cells.k_c_col, cells.c_col, s.block_size),
            k_d_row: copied_border(cells.k_d_row, cells.d_row, s.block_size),
            k_r_row: copied_border(cells.k_r_row, cells.r_row, s.block_size),
            ..with_save(cells, w.do_trace)
        }
    } else {
        cells
    };
    let best = if improved { off_max } else { s.best_max };
    let mc = out.main_cell;
    let gc = out.grow_cell;
    let pos: (int, int) = match s.dir {
        Direction::Right => (s.i + mc.row, s.j + (s.block_size - STEP) + mc.col),
        Direction::Down => (s.i + (s.block_size - STEP) + mc.col, s.j + mc.row),
        Direction::Grow => if mc.max >= gc.max {
            (s.i + mc.row, s.j + s.prev_size + mc.col)
        } else {
            (s.i + s.prev_size + gc.col, s.j + gc.row)
        },
    };
    let y = if improved { 0 } else { y0 };
    let grow_no_max = s.dir == Direction::Grow && !save;
    let low = off_max < best - w.x_drop;
    let base = WalkState {
        off,
        off_max,
        corner: out.corner,
        cells: cells1,
        prev_dir: s.dir,
        i_ckpt: if save { s.i } else { s.i_ckpt },
        j_ckpt: if save { s.j } else { s.j_ckpt },
        off_ckpt: if save { off } else { s.off_ckpt },
        best_max: best,
        best_i: if improved && w.x_drop_mode { pos.0 } else { s.best_i },
        best_j: if improved && w.x_drop_mode { pos.1 } else { s.best_j },
        y_drop: y,
        x_drop_iter: if w.x_drop_mode { if low { s.x_drop_iter + 1 } else { 0 } } else { s.x_drop_iter },
        ..s
    };
    if w.x_drop_mode && low && s.x_drop_iter + 1 >= X_DROP_ITER {
        WalkState { done: true, ..base }
    } else {
        match move_spec(s.i, s.j, s.block_size, w.qlen, w.rlen, w.max_size, STEP as int, y, grow_no_max,
            out.right_max, out.down_max) {
            Move::Stop => WalkState {
                done: true,
                end_score: if w.x_drop_mode {
                    s.end_score
                } else if s.dir == Direction::Down {
                    sat32(off + cells1.d_row[w.rlen - s.j] - ZERO)
                } else {
                    sat32(off + cells1.d_col[w.qlen - s.i] - ZERO)
                },
                ..base
            },
            Move::Grow => WalkState {
                prev_size: s.block_size,
                block_size: s.block_size * 2,
                dir: Direction::Grow,
                i: base.i_ckpt,
                j: base.j_ckpt,
                off: base.off_ckpt,
                cells: StepCells {
                    d_col: copied_border(cells1.d_col, cells1.k_d_col, s.block_size),
                    c_col: copied_border(cells1.c_col, cells1.k_c_col, s.block_size),
                    d_row: copied_border(cells1.d_row, cells1.k_d_row, s.block_size),
                    r_row: copied_border(cells1.r_row, cells1.k_r_row, s.block_size),
                    ..with_restore(cells1, w.do_trace)
                },
                y_drop: 0,
                ..base
            },
            Move::Down => WalkState { i: s.i + STEP, dir: Direction::Down, ..base },
            Move::Right => WalkState { j: s.j + STEP, dir: Direction::Right, ..base },
        }
    }
}

/// The state after `k` iterations from `s` (a finished state stays as it is).
pub open spec fn run<M: Matrix>(w: WalkInput<M>, s: WalkState, k: nat) -> WalkState
    decreases k,
{
    if k == 0 {
        s
    } else {
        let p = run(w, s, (k - 1) as nat);
        if p.done {
            p
        } else {
            walk_step(w, p)
        }
    }
}

/// The state before the first iteration: a block of `min_size` about to grow
/// from nothing at the origin, every border cell unreached.
pub open spec fn walk_start(min_size: int, max_size: int) -> WalkState {
    let border = Seq::new(max_size as nat, |k: int| MIN);
    let temp = Seq::new(L as nat, |k: int| MIN);
    WalkState {
        i: 0,
        j: 0,
        block_size: min_size,
        prev_size: 0,
        dir: Direction::Grow,
        prev_dir: Direction::Grow,
        off: 0,
        off_max: 0,
        corner: MIN,
        cells: StepCells {
            d_col: border,
            c_col: border,
            d_row: border,
            r_row: border,
            k_d_col: border,
            k_c_col: border,
            k_d_row: border,
            k_r_row: border,
            temp1: temp,
            temp2: temp,
            main_cell: BlockMax { max: MIN, row: 0, col: 0 },
            grow_cell: BlockMax { max: MIN, row: 0, col: 0 },
            right_max: MIN,
            down_max: MIN,
            corner: MIN,
            t_cells: Seq::empty(),
            t_rects: Seq::empty(),
            t_rights: Seq::empty(),
            t_starts: Seq::empty(),
            t_ck_cells: 0,
            t_ck_blocks: 0,
        },
        i_ckpt: 0,
        j_ckpt: 0,
        off_ckpt: 0,
        best_max: 0,
        best_i: 0,
        best_j: 0,
        y_drop: 0,
        x_drop_iter: 0,
        done: false,
        end_score: 0,
    }
}

/// The score that the walk ends with: the best score seen in X-drop mode,
/// the bottom right cell otherwise.
pub open spec fn walk_score(w_x_drop_mode: bool, s: WalkState) -> i32 {
    if w_x_drop_mode { s.best_max } else { s.end_score }
}

/// The walk state that the control loop's variables stand for.
pub open spec fn state_of(
    i: usize,
    j: usize,
    block_size: usize,
    prev_size: usize,
    dir: Direction,
    prev_dir: Direction,
    off: i32,
    off_max: i32,
    corner: i16,
    borders: Borders,
    ckpt: Borders,
    temp1: Seq<i16>,
    temp2: Seq<i16>,
    trace: Trace,
    i_ckpt: usize,
    j_ckpt: usize,
    off_ckpt: i32,
    best_max: i32,
    best_i: usize,
    best_j: usize,
    y_drop: usize,
    x_drop_iter: usize,
    end_score: i32,
) -> WalkState {
    WalkState {
        i: i as int,
        j: j as int,
        block_size: block_size as int,
        prev_size: prev_size as int,
        dir,
        prev_dir,
        off,
        off_max,
        corner,
        cells: cells_of(borders, ckpt, temp1, temp2, trace),
        i_ckpt: i_ckpt as int,
        j_ckpt: j_ckpt as int,
        off_ckpt,
        best_max,
        best_i: best_i as int,
        best_j: best_j as int,
        y_drop: y_drop as int,
        x_drop_iter: x_drop_iter as int,
        done: false,
        end_score,
    }
}

/// The fixed inputs of the walk for one alignment.
pub open spec fn walk_input<M: Matrix>(
    m: M,
    g: Gaps,
    query: PaddedBytes,
    reference: PaddedBytes,
    max_size: int,
    x_drop_mode: bool,
    x_drop: i32,
    do_trace: bool,
) -> WalkInput<M> {
    WalkInput {
        m,
        g,
        q: query.padded(),
        rf: reference.padded(),
        qlen: query.len_spec() as int,
        rlen: reference.len_spec() as int,
        max_size,
        x_drop_mode,
        x_drop,
        do_trace,
    }
}

/// The walk finishes after `k` iterations with the score `score`. Once the
/// walk has finished it stays so, so the score is the same for every such `k`.
pub open spec fn walk_ends_with<M: Matrix>(w: WalkInput<M>, min_size: int, k: nat, score: i32) -> bool {
    &&& run(w, walk_start(min_size, w.max_size), k).done
    &&& walk_score(w.x_drop_mode, run(w, walk_start(min_size, w.max_size), k)) == score
}

/// A walk that has finished stays finished with the same state.
pub proof fn lemma_run_stays<M: Matrix>(w: WalkInput<M>, s: WalkState, k1: nat, k2: nat)
    requires
        k1 <= k2,
        run(w, s, k1).done,
    ensures
        run(w, s, k2) == run(w, s, k1),
    decreases k2 - k1,
{
    if k1 < k2 {
        lemma_run_stays(w, s, k1, (k2 - 1) as nat);
    }
}

/// The walk ends with at most one score: every iteration count at which it has
/// finished gives the same score, so the score that `align` returns is fixed
/// by its inputs.
pub proof fn lemma_walk_score_unique<M: Matrix>(w: WalkInput<M>, min_size: int, k1: nat, k2: nat, s1: i32, s2: i32)
    requires
        walk_ends_with(w, min_size, k1, s1),
        walk_ends_with(w, min_size, k2, s2),
    ensures
        s1 == s2,
{
    let start = walk_start(min_size, w.max_size);
    if k1 <= k2 {
        lemma_run_stays(w, start, k1, k2);
    } else {
        lemma_run_stays(w, start, k2, k1);
    }
}

/// `t` holds the trace words and rectangles that the walk state `c` records.
pub open spec fn trace_matches(c: StepCells, t: Trace) -> bool {
    &&& t.cells() == c.t_cells
    &&& t.rects() == c.t_rects
    &&& t.rights() == c.t_rights
    &&& t.starts() == c.t_starts
}

/// The walk finishes after `k` iterations with the result `res` and the trace
/// `t` (empty unless the walk keeps one); in X-drop mode the position is the
/// best cell the walk found.
pub open spec fn walk_ends_in<M: Matrix>(w: WalkInput<M>, min_size: int, k: nat, res: AlignResult, t: Trace) -> bool {
    let end = run(w, walk_start(min_size, w.max_size), k);
    &&& walk_ends_with(w, min_size, k, res.score)
    &&& trace_matches(end.cells, t)
    &&& w.x_drop_mode ==> res.query_idx == end.best_i && res.reference_idx == end.best_j
}

/// When one block covers the whole matrix, the X-drop result scores at least
/// as much as the global one (its end cell is one of the cells the X-drop
/// result is best among), and exactly as much when the X-drop result ends in
/// that same cell with a positive score.
pub proof fn lemma_x_drop_at_least_global<M: Matrix>(
    m: M,
    g: Gaps,
    q: Seq<u8>,
    rf: Seq<u8>,
    qlen: int,
    rlen: int,
    size: nat,
    score: int,
    row: int,
    col: int,
)
    requires
        0 <= qlen < size,
        0 <= rlen < size,
        single_block_best(m, g, q, rf, size, score, row, col),
    ensures
        score >= single_block_score(m, g, q, rf, qlen, rlen, size),
        score > 0 && row == qlen && col == rlen ==> score == single_block_score(m, g, q, rf, qlen, rlen, size),
{
    let n = cols_done(false, 0, size as int, qlen, 0, rlen, size as int);
    assert(n == rlen + 1);
    let border = Seq::new(size, |k: int| MIN);
    let v = strip(m, g, true, q, rf, 0, 0, border, border, MIN, n as nat).0[qlen];
    assert(single_block_cell(m, g, q, rf, size, qlen, rlen) == v - ZERO);
    assert(single_block_score(m, g, q, rf, qlen, rlen, size) == v - ZERO);
}

/// Runs the adaptive block over the whole matrix and returns the result with
/// the trace (empty unless `do_trace`).
#[verifier::rlimit(100)]
#[verifier::spinoff_prover]
fn align_core<M: Matrix>(
    matrix: &M,
    gaps: Gaps,
    query: &PaddedBytes,
    reference: &PaddedBytes,
    min_size: usize,
    max_size: usize,
    x_drop: i32,
    do_trace: bool,
    x_drop_mode: bool,
) -> (r: (AlignResult, Trace, usize, usize))
    requires
        L <= min_size <= max_size <= 65536,
        min_size % L == 0,
        query.len_spec() + max_size <= query.padded().len(),
        reference.len_spec() + max_size <= reference.padded().len(),
        gaps.open < gaps.extend < 0,
        x_drop_mode ==> x_drop >= 0,
    ensures
        !x_drop_mode ==> r.0.query_idx == query.len_spec() && r.0.reference_idx == reference.len_spec(),
        x_drop_mode ==> r.0.score >= 0,
        exists|k: nat| #[trigger] walk_ends_in(walk_input(*matrix, gaps, *query, *reference,
            max_size as int, x_drop_mode, x_drop, do_trace), min_size as int, k, r.0, r.1),
        x_drop_mode && r.0.score == 0 ==> r.0.query_idx == 0 && r.0.reference_idx == 0,
        r.1.wf(),
        r.1.query_len() == if do_trace { query.len_spec() } else { 0 },
        r.1.reference_len() == if do_trace { reference.len_spec() } else { 0 },
        r.2 <= query.len_spec(),
        r.3 <= reference.len_spec(),
        !x_drop_mode && min_size == max_size && query.len_spec() < min_size && reference.len_spec()
            < min_size ==> r.0.score == single_block_score(*matrix, gaps, query.padded(),
            reference.padded(), query.len_spec() as int, reference.len_spec() as int, min_size as nat),
        x_drop_mode && min_size == max_size && query.len_spec() < min_size && reference.len_spec()
            < min_size ==> single_block_best(*matrix, gaps, query.padded(), reference.padded(), min_size as nat,
            r.0.score as int, r.0.query_idx as int, r.0.reference_idx as int),
{
    let qlen = query.len();
    let rlen = reference.len();
    let qplen = query.padded_len();
    let rplen = reference.padded_len();
    let mut trace = if do_trace {
        Trace::new(qlen, rlen)
    } else {
        Trace::new(0, 0)
    };
    let ghost tq = trace.query_len();
    let ghost tr = trace.reference_len();
    let step: usize = STEP;
    let mut i: usize = 0;
    let mut j: usize = 0;
    let mut best_max: i32 = 0;
    let mut best_i: usize = 0;
    let mut best_j: usize = 0;
    let mut prev_dir = Direction::Grow;
    let mut dir = Direction::Grow;
    let mut prev_size: usize = 0;
    let mut block_size: usize = min_size;
    let mut off: i32 = 0;
    let mut off_max: i32 = 0;
    let mut borders = Borders::new(max_size);
    let mut temp1 = min_border(L);
    let mut temp2 = min_border(L);
    let mut y_drop_iter: usize = 0;
    let mut x_drop_iter: usize = 0;
    let mut i_ckpt: usize = 0;
    let mut j_ckpt: usize = 0;
    let mut off_ckpt: i32 = 0;
    let mut ckpt = Borders::new(max_size);
    let mut corner: i16 = MIN;
    let mut end_score: i32 = 0;
    let ghost single = !x_drop_mode && min_size == max_size && qlen < min_size && rlen < min_size;
    let ghost xsingle = x_drop_mode && min_size == max_size && qlen < min_size && rlen < min_size;
    let ghost score = single_block_score(*matrix, gaps, query.padded(), reference.padded(), qlen as int,
        rlen as int, min_size as nat);
    let ghost w = WalkInput {
        m: *matrix,
        g: gaps,
        q: query.padded(),
        rf: reference.padded(),
        qlen: qlen as int,
        rlen: rlen as int,
        max_size: max_size as int,
        x_drop_mode,
        x_drop,
        do_trace,
    };
    let ghost start = walk_start(min_size as int, max_size as int);
    let ghost mut k: nat = 0;
    assert(trace.cells() =~= Seq::<u32>::empty());
    assert(trace.rects() =~= Seq::<Rectangle>::empty());
    assert(trace.rights() =~= Seq::<bool>::empty());
    assert(trace.starts() =~= Seq::<usize>::empty());
    assert(cells_of(borders, ckpt, temp1@, temp2@, trace) == start.cells);
    loop
        invariant_except_break
            run(w, start, k) == state_of(i, j, block_size, prev_size, dir, prev_dir, off, off_max, corner, borders, ckpt, temp1@, temp2@, trace, i_ckpt, j_ckpt, off_ckpt, best_max, best_i, best_j, y_drop_iter, x_drop_iter, end_score),
            single ==> dir == Direction::Grow && prev_size == 0 && i == 0 && j == 0
                && block_size == min_size && off == 0 && borders.d_col@ == Seq::new(max_size as nat, |k: int| MIN)
                && borders.c_col@ == Seq::new(max_size as nat, |k: int| MIN),
            xsingle ==> dir == Direction::Grow && prev_size == 0 && i == 0 && j == 0
                && block_size == min_size && off == 0 && best_max == 0 && best_i == 0 && best_j == 0
                && borders.d_col@ == Seq::new(max_size as nat, |k: int| MIN)
                && borders.c_col@ == Seq::new(max_size as nat, |k: int| MIN),
        invariant
            qlen == query.len_spec(),
            rlen == reference.len_spec(),
            qplen == query.padded().len(),
            rplen == reference.padded().len(),
            qlen + max_size <= qplen,
            rlen + max_size <= rplen,
            L <= min_size <= max_size <= 65536,
            step == STEP,
            L <= block_size <= max_size,
            block_size % L == 0,
            prev_size <= block_size,
            prev_size % L == 0,
            i <= qlen,
            j <= rlen,
            i_ckpt <= qlen,
            j_ckpt <= rlen,
            best_max >= 0,
            best_max == 0 ==> best_i == 0 && best_j == 0,
            borders.sized(max_size as nat),
            ckpt.sized(max_size as nat),
            temp1@.len() == L,
            temp2@.len() == L,
            trace.wf(),
            trace.query_len() == tq,
            trace.reference_len() == tr,
            gaps.open < gaps.extend < 0,
            x_drop_mode ==> x_drop >= 0,
            single == (!x_drop_mode && min_size == max_size && qlen < min_size && rlen < min_size),
            score == single_block_score(*matrix, gaps, query.padded(), reference.padded(), qlen as int,
                rlen as int, min_size as nat),
            xsingle == (x_drop_mode && min_size == max_size && qlen < min_size && rlen < min_size),
            w == (WalkInput {
                m: *matrix,
                g: gaps,
                q: query.padded(),
                rf: reference.padded(),
                qlen: qlen as int,
                rlen: rlen as int,
                max_size: max_size as int,
                x_drop_mode,
                x_drop,
                do_trace,
            }),
            start == walk_start(min_size as int, max_size as int),
        ensures
            single ==> end_score == score,
            exists|kk: nat| #[trigger] run(w, start, kk).done && walk_score(x_drop_mode, run(w, start, kk))
                == (if x_drop_mode { best_max } else { end_score }) && trace_matches(run(w, start, kk).cells, trace)
                && (x_drop_mode ==> run(w, start, kk).best_i == best_i && run(w, start, kk).best_j == best_j),
            xsingle ==> single_block_best(*matrix, gaps, query.padded(), reference.padded(), min_size as nat,
                best_max as int, best_i as int, best_j as int),
        decreases max_size - block_size, qlen + rlen - i - j,
    {
        let ghost s0 = state_of(i, j, block_size, prev_size, dir, prev_dir, off, off_max, corner, borders, ckpt, temp1@, temp2@, trace, i_ckpt, j_ckpt, off_ckpt, best_max, best_i, best_j, y_drop_iter, x_drop_iter, end_score);
        let prev_off = off;
        if dir != Direction::Grow {
            off = off_max;
        }
        let ghost d_col0 = borders.d_col@;
        let ghost c_col0 = borders.c_col@;
        let (main_cell, grow_cell, right_max, down_max, next_corner) = place_step(
            matrix, gaps, query, reference, i, j, block_size, prev_size, dir, prev_dir,
            offset_delta(prev_off, off), corner, &mut borders, &mut ckpt, &mut temp1, &mut temp2,
            &mut trace, do_trace, x_drop_mode,
        );
        corner = next_corner;
        prev_dir = dir;
        let max = max_i16(main_cell.max, grow_cell.max);
        off_max = cell_score(off, max);
        if y_drop_iter < usize::MAX {
            y_drop_iter += 1;
        }
        // a grow that brings no new best must be followed by another grow
        let mut grow_no_max = dir == Direction::Grow;
        if off_max > best_max {
            if x_drop_mode {
                match dir {
                    Direction::Right => {
                        best_i = i + main_cell.row;
                        best_j = j + (block_size - step) + main_cell.col;
                    },
                    Direction::Down => {
                        best_i = i + (block_size - step) + main_cell.col;
                        best_j = j + main_cell.row;
                    },
                    Direction::Grow => {
                        if main_cell.max >= grow_cell.max {
                            best_i = i + main_cell.row;
                            best_j = j + prev_size + main_cell.col;
                        } else {
                            best_i = i + prev_size + grow_cell.col;
                            best_j = j + grow_cell.row;
                        }
                    },
                }
            }
            if block_size < max_size {
                i_ckpt = i;
                j_ckpt = j;
                off_ckpt = off;
                ckpt.copy_from(&borders, block_size);
                if do_trace {
                    trace.save_ckpt();
                }
                grow_no_max = false;
            }
            best_max = next_best(best_max, off_max);
            y_drop_iter = 0;
        }
        proof {
            if xsingle {
                let q = query.padded();
                let rf = reference.padded();
                let border = Seq::new(min_size as nat, |k: int| MIN);
                assert(d_col0.subrange(0, min_size as int) =~= border);
                assert(c_col0.subrange(0, min_size as int) =~= border);
                assert forall|jj: int, k: int| 0 <= jj < min_size && 0 <= k < min_size implies
                    #[trigger] single_block_cell(*matrix, gaps, q, rf, min_size as nat, k, jj) <= best_max by {
                    assert(strip(*matrix, gaps, true, q, rf, 0, 0, border, border, MIN, (jj + 1) as nat).0[k] <= main_cell.max);
                }
                if best_max != 0 {
                    assert(main_cell != (BlockMax { max: MIN, row: 0, col: 0 }));
                    assert(single_block_cell(*matrix, gaps, q, rf, min_size as nat, best_i as int, best_j as int) == best_max);
                }
            }
        }
        if x_drop_mode {
            match next_x_drop_iter(off_max, best_max, x_drop, x_drop_iter) {
                Some(n) => {
                    x_drop_iter = n;
                },
                None => {
                    proof {
                        assert(walk_step(w, s0).done && walk_step(w, s0).best_max == best_max
                            && trace_matches(walk_step(w, s0).cells, trace)
                            && walk_step(w, s0).best_i == best_i && walk_step(w, s0).best_j == best_j) by {
                            reveal(walk_step);
                        }
                        assert(run(w, start, (k + 1) as nat) == walk_step(w, s0));
                    }
                    break;
                },
            }
        }
        let mv = next_move(
            i, j, block_size, qlen, rlen, max_size, step, y_drop_iter, grow_no_max, right_max, down_max,
        );
        match mv {
            Move::Stop => {
                // reached the end of both sequences
                if !x_drop_mode {
                    end_score = match dir {
                        Direction::Down => cell_score(off, borders.d_row[rlen - j]),
                        _ => cell_score(off, borders.d_col[qlen - i]),
                    };
                }
                proof {
                    assert(walk_step(w, s0).done && walk_step(w, s0).best_max == best_max
                        && (!x_drop_mode ==> walk_step(w, s0).end_score == end_score)
                        && trace_matches(walk_step(w, s0).cells, trace)
                        && walk_step(w, s0).best_i == best_i && walk_step(w, s0).best_j == best_j) by {
                        reveal(walk_step);
                    }
                    assert(run(w, start, (k + 1) as nat) == walk_step(w, s0));
                    if single {
                        assert(d_col0.subrange(0, min_size as int) =~= Seq::new(min_size as nat, |k: int| MIN));
                        assert(c_col0.subrange(0, min_size as int) =~= Seq::new(min_size as nat, |k: int| MIN));
                        assert(end_score == score);
                    }
                }
                break;
            },
            Move::Grow => {
                prev_size = block_size;
                block_size = block_size * 2;
                dir = Direction::Grow;
                // grow from the last checkpoint
                i = i_ckpt;
                j = j_ckpt;
                off = off_ckpt;
                borders.copy_from(&ckpt, prev_size);
                if do_trace {
                    trace.restore_ckpt();
                }
                y_drop_iter = 0;
            },
            Move::Down => {
                i += step;
                dir = Direction::Down;
            },
            Move::Right => {
                j += step;
                dir = Direction::Right;
            },
        }
        proof {
            assert(state_of(i, j, block_size, prev_size, dir, prev_dir, off, off_max, corner, borders, ckpt, temp1@, temp2@, trace, i_ckpt, j_ckpt, off_ckpt, best_max, best_i, best_j, y_drop_iter, x_drop_iter, end_score) == walk_step(w, s0)) by {
                reveal(walk_step);
            }
            k = (k + 1) as nat;
        }
    }
    let res = if x_drop_mode {
        AlignResult { score: best_max, query_idx: best_i, reference_idx: best_j }
    } else {
        AlignResult { score: end_score, query_idx: qlen, reference_idx: rlen }
    };
    let ghost tr_final = trace;
    let out = (res, trace, i, j);
    proof {
        let kk = choose|kk: nat| #[trigger] run(w, start, kk).done && walk_score(x_drop_mode, run(w, start, kk))
            == (if x_drop_mode { best_max } else { end_score }) && trace_matches(run(w, start, kk).cells, tr_final)
            && (x_drop_mode ==> run(w, start, kk).best_i == best_i && run(w, start, kk).best_j == best_j);
        assert(w == walk_input(*matrix, gaps, *query, *reference, max_size as int, x_drop_mode, x_drop, do_trace));
        assert(out.1 == tr_final);
        assert(walk_ends_in(walk_input(*matrix, gaps, *query, *reference, max_size as int, x_drop_mode, x_drop,
            do_trace), min_size as int, kk, out.0, out.1));
    }
    out
}

/// Data structure storing the settings and the outcome of the block aligner.
pub struct Block<'a, M: Matrix, const TRACE: bool, const X_DROP: bool> {
    res: AlignResult,
    trace: Trace,
    query: &'a PaddedBytes,
    i: usize,
    reference: &'a PaddedBytes,
    j: usize,
    min_size: usize,
    max_size: usize,
    matrix: &'a M,
    gaps: Gaps,
    x_drop: i32,
}

impl<'a, M: Matrix, const TRACE: bool, const X_DROP: bool> Block<'a, M, TRACE, X_DROP> {
    /// The result of the alignment.
    pub closed spec fn res_spec(&self) -> AlignResult {
        self.res
    }

    /// The trace kept for the traceback.
    pub closed spec fn trace_spec(&self) -> Trace {
        self.trace
    }

    /// Aligns `query` against `reference` with a block whose size starts at
    /// the low end of `size` and may grow up to its high end.
    ///
    /// With `TRACE` the trace for a traceback is kept. With `X_DROP` the
    /// alignment stops once the block's best score stays more than `x_drop`
    /// below the best score seen, and the result is the best cell; otherwise
    /// the alignment is global and the result is the bottom right cell; when
    /// one block covers the whole matrix that cell's score is the one the
    /// kernel's recurrence gives it (`single_block_score`), and in X-drop mode
    /// the result is the best cell of that block (`single_block_best`).
    pub fn align(
        query: &'a PaddedBytes,
        reference: &'a PaddedBytes,
        matrix: &'a M,
        gaps: Gaps,
        size: RangeInclusive<usize>,
        x_drop: i32,
    ) -> (r: Self)
        requires
            gaps.open < 0,
            gaps.extend < 0,
            gaps.open < gaps.extend,
            effective_size(size@.start) < 65535,
            effective_size(size@.end) < 65535,
            is_pow2(effective_size(size@.start) as int),
            is_pow2(effective_size(size@.end) as int),
            effective_size(size@.start) <= effective_size(size@.end),
            X_DROP ==> x_drop >= 0 && M::allows_x_drop_spec(),
            query.len_spec() + effective_size(size@.end) <= query.padded().len(),
            reference.len_spec() + effective_size(size@.end) <= reference.padded().len(),
        ensures
            !X_DROP ==> r.res_spec().query_idx == query.len_spec() && r.res_spec().reference_idx
                == reference.len_spec(),
            X_DROP ==> r.res_spec().score >= 0,
            exists|k: nat| #[trigger] walk_ends_in(walk_input(*matrix, gaps, *query, *reference,
                effective_size(size@.end) as int, X_DROP, x_drop, TRACE), effective_size(size@.start) as int, k,
                r.res_spec(), r.trace_spec()),
            X_DROP && r.res_spec().score == 0 ==> r.res_spec().query_idx == 0 && r.res_spec().reference_idx == 0,
            !X_DROP && effective_size(size@.start) == effective_size(size@.end) && query.len_spec()
                < effective_size(size@.end) && reference.len_spec() < effective_size(size@.end)
                ==> r.res_spec().score == single_block_score(*matrix, gaps, query.padded(),
                reference.padded(), query.len_spec() as int, reference.len_spec() as int,
                effective_size(size@.end) as nat),
            X_DROP && effective_size(size@.start) == effective_size(size@.end) && query.len_spec()
                < effective_size(size@.end) && reference.len_spec() < effective_size(size@.end)
                ==> single_block_best(*matrix, gaps, query.padded(), reference.padded(),
                effective_size(size@.end) as nat, r.res_spec().score as int, r.res_spec().query_idx as int,
                r.res_spec().reference_idx as int),
            r.trace_spec().wf(),
            TRACE ==> r.trace_spec().query_len() == query.len_spec()
                && r.trace_spec().reference_len() == reference.len_spec(),
    {
        let start = *size.start();
        let end = *size.end();
        let min_size = if start < L {
            L
        } else {
            start
        };
        let max_size = if end < L {
            L
        } else {
            end
        };
        proof {
            lemma_pow2_multiple(min_size as int);
        }
        let (res, trace, i, j) = align_core(
            matrix,
            gaps,
            query,
            reference,
            min_size,
            max_size,
            x_drop,
            TRACE,
            X_DROP,
        );
        let r = Block { res, trace, query, i, reference, j, min_size, max_size, matrix, gaps, x_drop };
        proof {
            let w = walk_input(*matrix, gaps, *query, *reference, max_size as int, X_DROP, x_drop, TRACE);
            let kk = choose|kk: nat| #[trigger] walk_ends_in(w, min_size as int, kk, res, r.trace_spec());
            assert(min_size == effective_size(size@.start) && max_size == effective_size(size@.end));
            assert(r.res_spec() == res);
            assert(walk_ends_in(walk_input(*matrix, gaps, *query, *reference, effective_size(size@.end) as int,
                X_DROP, x_drop, TRACE), effective_size(size@.start) as int, kk, r.res_spec(), r.trace_spec()));
        }
        r
    }

    /// The resulting score and the alignment's end position.
    pub fn res(&self) -> (r: AlignResult)
        ensures
            r == self.res_spec(),
    {
        self.res
    }

    /// The trace of the alignment; it is kept only with `TRACE`.
    pub fn trace(&self) -> (r: &Trace)
        requires
            TRACE,
        ensures
            *r == self.trace_spec(),
    {
        &self.trace
    }
}

} // verus!
