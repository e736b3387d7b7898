//! The trace log: rectangles computed by the kernel and two direction bits
//! per cell, kept as a stack that can be cut back to a checkpoint.
use vstd::prelude::*;
use crate::cigar::{Cigar, Operation, query_span, reference_span};
use crate::lanes::L;

verus! {

/// One trace word: two bits for each of `L` cells.
pub type TraceType = u32;

/// A rectangular region of the dynamic-programming matrix.
#[derive(Clone, Copy, Debug, PartialEq, Eq, Structural)]
pub struct Rectangle {
    pub row: usize,
    pub col: usize,
    pub width: usize,
    pub height: usize,
}

/// The traceback step for a cell: its two trace bits `t` (bit 0: the cell came
/// from a column gap, bit 1: from a row gap) read in the orientation of its
/// rectangle give the operation and how far the row and column go back. When
/// both bits are set the step stays inside the rectangle.
pub open spec fn trace_step(right: bool, t: u32) -> (Operation, usize, usize) {
    if t == 0 {
        (Operation::M, 1, 1)
    } else if right {
        if t == 2 {
            (Operation::I, 1, 0)
        } else {
            (Operation::D, 0, 1)
        }
    } else {
        if t == 2 {
            (Operation::D, 0, 1)
        } else {
            (Operation::I, 1, 0)
        }
    }
}

fn trace_step_exec(right: bool, t: u32) -> (r: (Operation, usize, usize))
    ensures
        r == trace_step(right, t),
{
    if t == 0 {
        (Operation::M, 1, 1)
    } else if right {
        if t == 2 {
            (Operation::I, 1, 0)
        } else {
            (Operation::D, 0, 1)
        }
    } else {
        if t == 2 {
            (Operation::D, 0, 1)
        } else {
            (Operation::I, 1, 0)
        }
    }
}

/// Index of the word that holds cell `along` of vector column `across` of a
/// rectangle whose words start at `start`, `span` words per column; `None`
/// when that index is not below `len`.
fn cell_index(start: usize, along: usize, across: usize, span: usize, len: usize) -> (r: Option<
    usize,
>)
    ensures
        r matches Some(idx) ==> idx < len && idx == start + across * span + along as int / L as int,
        r is None ==> start + across * span + along as int / L as int >= len,
{
    let a = along / L;
    if start >= len || a >= len {
        return None;
    }
    if span != 0 && across > (len - start) / span {
        proof {
            assert(across * span >= len - start) by (nonlinear_arith)
                requires
                    across > (len - start) as int / span as int,
                    span > 0,
                    len > start,
            ;
        }
        return None;
    }
    proof {
        assert(across * span <= len - start) by (nonlinear_arith)
            requires
                span == 0 || across <= (len - start) as int / span as int,
                span >= 0,
                len > start,
        ;
    }
    let b = across * span;
    if start + b >= len - a {
        return None;
    }
    Some(start + b + a)
}

/// Holds the trace generated by the block aligner.
#[derive(Clone, Debug)]
pub struct Trace {
    trace: Vec<TraceType>,
    blocks: Vec<Rectangle>,
    right: Vec<bool>,
    starts: Vec<usize>,
    ckpt_trace_idx: usize,
    ckpt_block_idx: usize,
    query_len: usize,
    reference_len: usize,
}

impl Trace {
    /// The trace words written so far.
    pub closed spec fn cells(&self) -> Seq<TraceType> {
        self.trace@
    }

    /// The rectangles added so far.
    pub closed spec fn rects(&self) -> Seq<Rectangle> {
        self.blocks@
    }

    /// For each rectangle, whether it was computed shifting right.
    pub closed spec fn rights(&self) -> Seq<bool> {
        self.right@
    }

    /// For each rectangle, the index of its first trace word.
    pub closed spec fn starts(&self) -> Seq<usize> {
        self.starts@
    }

    /// The latest rectangle before index `b` whose top left cell is at or
    /// above and left of `(ci, cj)`; `-1` when there is none.
    pub open spec fn holder(&self, ci: int, cj: int, b: int) -> int
        decreases b,
    {
        if b <= 0 {
            -1
        } else if self.rects()[b - 1].row <= ci && self.rects()[b - 1].col <= cj {
            b - 1
        } else {
            self.holder(ci, cj, b - 1)
        }
    }

    /// The traceback step at `(ci, cj)` read from rectangle `k`: the two
    /// trace bits of the cell taken through `trace_step`. `None` where the
    /// cell's word lies past the trace or the step would leave the matrix.
    pub open spec fn cell_step(&self, k: int, ci: int, cj: int) -> Option<(Operation, usize, usize)> {
        let b = self.rects()[k];
        let right = self.rights()[k];
        let along = if right { ci - b.row } else { cj - b.col };
        let across = if right { cj - b.col } else { ci - b.row };
        let span = if right { (b.height / L) as int } else { (b.width / L) as int };
        let idx = self.starts()[k] + across * span + along / (L as int);
        if idx >= self.cells().len() {
            None
        } else {
            let t = (self.cells()[idx] >> (((along % (L as int)) * 2) as u32)) & 3u32;
            let st = trace_step(right, t);
            if ci < st.1 || cj < st.2 {
                None
            } else {
                Some(st)
            }
        }
    }

    /// The traceback inside rectangle `k` from `(ci, cj)`: the operations, the
    /// cell where it left the rectangle or reached the origin, and whether it
    /// stopped at a cell it cannot step from.
    pub open spec fn walk_in(&self, k: int, ci: int, cj: int) -> (Seq<Operation>, int, int, bool)
        decreases ci + cj,
    {
        let b = self.rects()[k];
        if ci >= b.row && cj >= b.col && (ci > 0 || cj > 0) {
            match self.cell_step(k, ci, cj) {
                None => (Seq::empty(), ci, cj, true),
                Some(st) => {
                    let rest = self.walk_in(k, ci - st.1, cj - st.2);
                    (seq![st.0] + rest.0, rest.1, rest.2, rest.3)
                },
            }
        } else {
            (Seq::empty(), ci, cj, false)
        }
    }

    /// The whole traceback from `(ci, cj)` through the rectangles before index
    /// `b`, latest first: the operations in the order they are found, and the
    /// cell where the walk stopped (the origin when it found a full path).
    pub open spec fn walk(&self, ci: int, cj: int, b: int) -> (Seq<Operation>, int, int)
        decreases b,
    {
        if (ci > 0 || cj > 0) && b > 0 {
            let k = self.holder(ci, cj, b);
            if k < 0 || k >= b {
                (Seq::empty(), ci, cj)
            } else {
                let w = self.walk_in(k, ci, cj);
                if w.3 {
                    (w.0, w.1, w.2)
                } else {
                    let rest = self.walk(w.1, w.2, k);
                    (w.0 + rest.0, rest.1, rest.2)
                }
            }
        } else {
            (Seq::empty(), ci, cj)
        }
    }

    pub open spec fn trace_idx(&self) -> nat {
        self.cells().len()
    }

    pub open spec fn block_idx(&self) -> nat {
        self.rects().len()
    }

    pub closed spec fn ckpt_trace_idx(&self) -> nat {
        self.ckpt_trace_idx as nat
    }

    pub closed spec fn ckpt_block_idx(&self) -> nat {
        self.ckpt_block_idx as nat
    }

    pub closed spec fn query_len(&self) -> nat {
        self.query_len as nat
    }

    pub closed spec fn reference_len(&self) -> nat {
        self.reference_len as nat
    }

    pub closed spec fn wf(&self) -> bool {
        &&& self.blocks@.len() == self.right@.len()
        &&& self.blocks@.len() == self.starts@.len()
        &&& self.ckpt_trace_idx <= self.trace@.len()
        &&& self.ckpt_block_idx <= self.blocks@.len()
    }

    /// `later` was reached from `self` by appending words and rectangles only.
    pub open spec fn appended_to(&self, later: &Trace) -> bool {
        &&& self.cells().len() <= later.cells().len()
        &&& later.cells().subrange(0, self.cells().len() as int) == self.cells()
        &&& self.rects().len() <= later.rects().len()
        &&& later.rects().subrange(0, self.rects().len() as int) == self.rects()
        &&& later.rights().subrange(0, self.rects().len() as int) == self.rights()
        &&& later.starts().subrange(0, self.rects().len() as int) == self.starts()
        &&& later.ckpt_trace_idx() == self.ckpt_trace_idx()
        &&& later.ckpt_block_idx() == self.ckpt_block_idx()
        &&& later.query_len() == self.query_len()
        &&& later.reference_len() == self.reference_len()
    }

    /// `after` is `before` cut back to its checkpoint.
    pub open spec fn restored_from(&self, before: &Trace) -> bool {
        &&& before.ckpt_trace_idx() <= before.cells().len()
        &&& before.ckpt_block_idx() <= before.rects().len()
        &&& self.cells() == before.cells().subrange(0, before.ckpt_trace_idx() as int)
        &&& self.rects() == before.rects().subrange(0, before.ckpt_block_idx() as int)
        &&& self.rights() == before.rights().subrange(0, before.ckpt_block_idx() as int)
        &&& self.starts() == before.starts().subrange(0, before.ckpt_block_idx() as int)
        &&& self.ckpt_trace_idx() == before.ckpt_trace_idx()
        &&& self.ckpt_block_idx() == before.ckpt_block_idx()
        &&& self.query_len() == before.query_len()
        &&& self.reference_len() == before.reference_len()
    }

    /// The checkpoint of `self` marks its current end.
    pub open spec fn at_checkpoint(&self) -> bool {
        &&& self.ckpt_trace_idx() == self.cells().len()
        &&& self.ckpt_block_idx() == self.rects().len()
    }

    pub fn new(query_len: usize, reference_len: usize) -> (r: Trace)
        ensures
            r.wf(),
            r.cells().len() == 0,
            r.rects().len() == 0,
            r.rights().len() == 0,
            r.starts().len() == 0,
            r.at_checkpoint(),
            r.query_len() == query_len,
            r.reference_len() == reference_len,
    {
        Trace {
            trace: Vec::new(),
            blocks: Vec::new(),
            right: Vec::new(),
            starts: Vec::new(),
            ckpt_trace_idx: 0,
            ckpt_block_idx: 0,
            query_len,
            reference_len,
        }
    }

    /// Appends one trace word.
    pub fn add_trace(&mut self, t: TraceType)
        requires
            old(self).wf(),
        ensures
            final(self).wf(),
            old(self).appended_to(&*final(self)),
            final(self).cells() == old(self).cells().push(t),
            final(self).rects() == old(self).rects(),
            final(self).rights() == old(self).rights(),
            final(self).starts() == old(self).starts(),
    {
        let ghost before = *self;
        self.trace.push(t);
        proof { self.lemma_prefixes_kept(&before); }
    }

    /// Appends a rectangle whose trace words start at the current end.
    pub fn add_block(&mut self, i: usize, j: usize, width: usize, height: usize, right: bool)
        requires
            old(self).wf(),
        ensures
            final(self).wf(),
            old(self).appended_to(&*final(self)),
            final(self).cells() == old(self).cells(),
            final(self).rects() == old(self).rects().push(
                Rectangle { row: i, col: j, width, height },
            ),
            final(self).rights() == old(self).rights().push(right),
            final(self).starts() == old(self).starts().push(old(self).cells().len() as usize),
            final(self).rights().len() == final(self).rects().len(),
            final(self).starts().len() == final(self).rects().len(),
    {
        let ghost before = *self;
        let start = self.trace.len();
        self.blocks.push(Rectangle { row: i, col: j, width, height });
        self.right.push(right);
        self.starts.push(start);
        proof { self.lemma_prefixes_kept(&before); }
    }

    proof fn lemma_prefixes_kept(&self, before: &Trace)
        requires
            before.trace@.len() <= self.trace@.len(),
            before.blocks@.len() <= self.blocks@.len(),
            forall|k: int| 0 <= k < before.trace@.len() ==> self.trace@[k] == before.trace@[k],
            forall|k: int| 0 <= k < before.blocks@.len() ==> self.blocks@[k] == before.blocks@[k],
            forall|k: int| 0 <= k < before.blocks@.len() ==> self.right@[k] == before.right@[k],
            forall|k: int| 0 <= k < before.blocks@.len() ==> self.starts@[k] == before.starts@[k],
            before.blocks@.len() == before.right@.len(),
            before.blocks@.len() == before.starts@.len(),
            self.blocks@.len() == self.right@.len(),
            self.blocks@.len() == self.starts@.len(),
            self.ckpt_trace_idx == before.ckpt_trace_idx,
            self.ckpt_block_idx == before.ckpt_block_idx,
            self.query_len == before.query_len,
            self.reference_len == before.reference_len,
        ensures
            before.appended_to(self),
    {
        assert(self.trace@.subrange(0, before.trace@.len() as int) =~= before.trace@);
        assert(self.blocks@.subrange(0, before.blocks@.len() as int) =~= before.blocks@);
        assert(self.right@.subrange(0, before.blocks@.len() as int) =~= before.right@);
        assert(self.starts@.subrange(0, before.blocks@.len() as int) =~= before.starts@);
    }

    /// Reserves room for the words that a block of `block_size` may still
    /// append from `(i, j)` on; the contents do not change.
    pub fn resize_trace(&mut self, i: usize, j: usize, q_len: usize, r_len: usize, block_size: usize)
        requires
            old(self).wf(),
        ensures
            final(self).wf(),
            final(self).cells() == old(self).cells(),
            final(self).rects() == old(self).rects(),
            final(self).rights() == old(self).rights(),
            final(self).starts() == old(self).starts(),
            final(self).ckpt_trace_idx() == old(self).ckpt_trace_idx(),
            final(self).ckpt_block_idx() == old(self).ckpt_block_idx(),
            final(self).query_len() == old(self).query_len(),
            final(self).reference_len() == old(self).reference_len(),
    {
        let per = block_size / L;
        if q_len <= usize::MAX / 4 && r_len <= usize::MAX / 4 && block_size <= usize::MAX / 8
            && i <= q_len + block_size && j <= r_len + block_size {
            let cols = (q_len + block_size - i) + (r_len + block_size - j);
            if per == 0 || cols <= usize::MAX / per {
                proof {
                    assert(per * cols <= usize::MAX) by (nonlinear_arith)
                        requires
                            per == 0 || cols <= usize::MAX as int / per as int,
                            per >= 0,
                    ;
                }
                self.trace.reserve(per * cols);
            }
        }
    }

    /// Appends `add` empty trace words: the words of columns that the kernel skipped.
    pub fn add_trace_idx(&mut self, add: usize)
        requires
            old(self).wf(),
        ensures
            final(self).wf(),
            old(self).appended_to(&*final(self)),
            final(self).cells() == old(self).cells() + Seq::new(add as nat, |k: int| 0u32),
            final(self).rects() == old(self).rects(),
            final(self).rights() == old(self).rights(),
            final(self).starts() == old(self).starts(),
    {
        let ghost start = *self;
        let ghost before = self.trace@;
        let mut k: usize = 0;
        proof { self.lemma_prefixes_kept(&start); }
        while k < add
            invariant
                self.wf(),
                start.appended_to(&*self),
                k <= add,
                self.trace@ == before + Seq::new(k as nat, |x: int| 0u32),
                self.blocks@ == start.blocks@,
                self.right@ == start.right@,
                self.starts@ == start.starts@,
                self.ckpt_trace_idx == start.ckpt_trace_idx,
                self.ckpt_block_idx == start.ckpt_block_idx,
                self.query_len == start.query_len,
                self.reference_len == start.reference_len,
                before == start.trace@,
                start.blocks@.len() == start.right@.len(),
                start.blocks@.len() == start.starts@.len(),
            decreases add - k,
        {
            self.trace.push(0);
            k += 1;
            assert(self.trace@ =~= before + Seq::new(k as nat, |x: int| 0u32));
            proof { self.lemma_prefixes_kept(&start); }
        }
    }

    /// Marks the current end as the checkpoint.
    pub fn save_ckpt(&mut self)
        requires
            old(self).wf(),
        ensures
            final(self).wf(),
            final(self).at_checkpoint(),
            final(self).cells() == old(self).cells(),
            final(self).rects() == old(self).rects(),
            final(self).rights() == old(self).rights(),
            final(self).starts() == old(self).starts(),
            final(self).query_len() == old(self).query_len(),
            final(self).reference_len() == old(self).reference_len(),
    {
        self.ckpt_trace_idx = self.trace.len();
        self.ckpt_block_idx = self.blocks.len();
    }

    /// Drops every word and rectangle added after the checkpoint.
    pub fn restore_ckpt(&mut self)
        requires
            old(self).wf(),
        ensures
            final(self).wf(),
            final(self).restored_from(&*old(self)),
            final(self).at_checkpoint(),
            final(self).rights().len() == final(self).rects().len(),
            final(self).starts().len() == final(self).rects().len(),
    {
        self.trace.truncate(self.ckpt_trace_idx);
        self.blocks.truncate(self.ckpt_block_idx);
        self.right.truncate(self.ckpt_block_idx);
        self.starts.truncate(self.ckpt_block_idx);
    }

    /// Returns all of the rectangles that were computed separately as the
    /// block shifted and grew.
    pub fn blocks(&self) -> (r: Vec<Rectangle>)
        ensures
            r@ == self.rects(),
    {
        self.blocks.clone()
    }

    /// Reads the traceback step at `(ci, cj)` from rectangle `block_idx`.
    fn read_step(&self, block_idx: usize, ci: usize, cj: usize) -> (r: Option<(Operation, usize, usize)>)
        requires
            self.wf(),
            block_idx < self.blocks@.len(),
            ci >= self.blocks@[block_idx as int].row,
            cj >= self.blocks@[block_idx as int].col,
        ensures
            r == self.cell_step(block_idx as int, ci as int, cj as int),
            r matches Some(st) ==> st.1 <= ci && st.2 <= cj && st.1 + st.2 >= 1,
    {
        let b = self.blocks[block_idx];
        let right = self.right[block_idx];
        let start = self.starts[block_idx];
        let curr_i = ci - b.row;
        let curr_j = cj - b.col;
        let (along, across, span) = if right {
            (curr_i, curr_j, b.height / L)
        } else {
            (curr_j, curr_i, b.width / L)
        };
        match cell_index(start, along, across, span, self.trace.len()) {
            None => None,
            Some(idx) => {
                let word = self.trace[idx];
                let shift: u32 = ((along % L) * 2) as u32;
                let t = (word >> shift) & 3u32;
                let (op, di, dj) = trace_step_exec(right, t);
                if ci < di || cj < dj {
                    None
                } else {
                    Some((op, di, dj))
                }
            },
        }
    }

    /// Follows the trace inside rectangle `block_idx` from `(ci, cj)` until the
    /// path leaves it or reaches the origin; returns where it stopped and
    /// whether it met a cell it cannot step from.
    #[verifier::rlimit(100)]
    #[verifier::spinoff_prover]
    fn walk_block(
        &self,
        block_idx: usize,
        res: &mut Cigar,
        i: usize,
        j: usize,
        ci: usize,
        cj: usize,
    ) -> (r: (usize, usize, bool))
        requires
            self.wf(),
            block_idx < self.blocks@.len(),
            ci <= i,
            cj <= j,
            i + j < usize::MAX,
            old(res).wf(),
            query_span(old(res).added()) + ci == i,
            reference_span(old(res).added()) + cj == j,
            old(res).added().len() + ci + cj <= i + j,
        ensures
            final(res).wf(),
            query_span(final(res).added()) + r.0 == i,
            reference_span(final(res).added()) + r.1 == j,
            final(res).added().len() + r.0 + r.1 <= i + j,
            ({
                let w = self.walk_in(block_idx as int, ci as int, cj as int);
                &&& final(res).added() == old(res).added() + w.0
                &&& r.0 == w.1
                &&& r.1 == w.2
                &&& r.2 == w.3
            }),
    {
        let ghost k = block_idx as int;
        let ghost w0 = self.walk_in(k, ci as int, cj as int);
        let ghost a0 = res.added();
        let b = self.blocks[block_idx];
        let mut ci = ci;
        let mut cj = cj;
        let mut done = false;
        assert(res.added() + w0.0 =~= a0 + w0.0);
        while !done && ci >= b.row && cj >= b.col && (ci > 0 || cj > 0)
            invariant
                self.wf(),
                block_idx < self.blocks@.len(),
                b == self.blocks@[k],
                k == block_idx as int,
                ci <= i,
                cj <= j,
                i + j < usize::MAX,
                res.wf(),
                query_span(res.added()) + ci == i,
                reference_span(res.added()) + cj == j,
                res.added().len() + ci + cj <= i + j,
                !done ==> res.added() + self.walk_in(k, ci as int, cj as int).0 == a0 + w0.0,
                !done ==> self.walk_in(k, ci as int, cj as int).1 == w0.1,
                !done ==> self.walk_in(k, ci as int, cj as int).2 == w0.2,
                !done ==> self.walk_in(k, ci as int, cj as int).3 == w0.3,
                done ==> res.added() == a0 + w0.0 && ci == w0.1 && cj == w0.2 && w0.3,
            decreases ci + cj + if done { 0int } else { 1int },
        {
            let ghost w = self.walk_in(k, ci as int, cj as int);
            match self.read_step(block_idx, ci, cj) {
                None => {
                    assert(res.added() =~= a0 + w0.0);
                    done = true;
                },
                Some((op, di, dj)) => {
                    let ghost before = res.added();
                    res.add(op);
                    ci -= di;
                    cj -= dj;
                    proof {
                        assert(res.added().drop_last() =~= before);
                        let rest = self.walk_in(k, ci as int, cj as int);
                        assert(w.0 == seq![op] + rest.0);
                        assert(res.added() + rest.0 =~= before + w.0);
                    }
                },
            }
        }
        proof {
            if !done {
                assert(res.added() =~= res.added() + self.walk_in(k, ci as int, cj as int).0);
            }
        }
        (ci, cj, done)
    }

    /// Traces back from `(i, j)` and returns the operations of the path found.
    ///
    /// The walk goes through the rectangles from the latest back and stops at
    /// the origin, or where no rectangle holds the current cell.
    pub fn cigar(&self, i: usize, j: usize) -> (r: Cigar)
        requires
            self.wf(),
            i <= self.query_len(),
            j <= self.reference_len(),
            self.query_len() + self.reference_len() < usize::MAX,
        ensures
            r.wf(),
            r.added() == self.walk(i as int, j as int, self.rects().len() as int).0,
            query_span(r.added()) + self.walk(i as int, j as int, self.rects().len() as int).1 == i,
            reference_span(r.added()) + self.walk(i as int, j as int, self.rects().len() as int).2 == j,
            i == 0 && j == 0 ==> r.added().len() == 0,
    {
        let ghost whole = self.walk(i as int, j as int, self.blocks@.len() as int);
        let mut res = Cigar::new();
        let mut ci = i;
        let mut cj = j;
        let mut block_idx = self.blocks.len();
        let mut done = false;
        assert(res.added() =~= Seq::<Operation>::empty());
        assert(res.added() + whole.0 =~= whole.0);
        while !done && (ci > 0 || cj > 0) && block_idx > 0
            invariant
                self.wf(),
                block_idx <= self.blocks@.len(),
                ci <= i,
                cj <= j,
                i + j < usize::MAX,
                res.wf(),
                query_span(res.added()) + ci == i,
                reference_span(res.added()) + cj == j,
                res.added().len() + ci + cj <= i + j,
                whole == self.walk(i as int, j as int, self.blocks@.len() as int),
                !done ==> res.added() + self.walk(ci as int, cj as int, block_idx as int).0 == whole.0,
                !done ==> self.walk(ci as int, cj as int, block_idx as int).1 == whole.1,
                !done ==> self.walk(ci as int, cj as int, block_idx as int).2 == whole.2,
                done ==> res.added() == whole.0 && ci == whole.1 && cj == whole.2,
            decreases block_idx,
        {
            // find the latest rectangle at or above and left of the cell
            let ghost b0 = block_idx as int;
            let ghost k0 = self.holder(ci as int, cj as int, b0);
            block_idx -= 1;
            while block_idx > 0 && !(ci >= self.blocks[block_idx].row && cj
                >= self.blocks[block_idx].col)
                invariant
                    block_idx < self.blocks@.len(),
                    block_idx < b0,
                    self.holder(ci as int, cj as int, block_idx + 1) == k0,
                decreases block_idx,
            {
                block_idx -= 1;
            }
            let found = ci >= self.blocks[block_idx].row && cj >= self.blocks[block_idx].col;
            if !found {
                assert(self.holder(ci as int, cj as int, 0) == -1);
                assert(k0 == -1);
                assert(res.added() =~= whole.0);
                done = true;
            } else {
                assert(k0 == block_idx as int);
                let ghost before = res.added();
                let ghost w = self.walk_in(k0, ci as int, cj as int);
                let (ni, nj, stop) = self.walk_block(block_idx, &mut res, i, j, ci, cj);
                proof {
                    if stop {
                        assert(res.added() =~= whole.0);
                    } else {
                        let rest = self.walk(ni as int, nj as int, k0);
                        assert(self.walk(ci as int, cj as int, b0) == (w.0 + rest.0, rest.1, rest.2));
                        assert(res.added() + rest.0 =~= whole.0);
                    }
                }
                ci = ni;
                cj = nj;
                done = stop;
            }
        }
        proof {
            if !done {
                assert(res.added() =~= res.added() + self.walk(ci as int, cj as int, block_idx as int).0);
            }
        }
        res
    }
}

/// Every trace was reached from itself.
pub proof fn lemma_appended_refl(t: Trace)
    requires
        t.wf(),
    ensures
        t.appended_to(&t),
{
    assert(t.cells().subrange(0, t.cells().len() as int) =~= t.cells());
    assert(t.rects().subrange(0, t.rects().len() as int) =~= t.rects());
    assert(t.rights().subrange(0, t.rects().len() as int) =~= t.rights());
    assert(t.starts().subrange(0, t.rects().len() as int) =~= t.starts());
}

/// Appending in two rounds is appending.
pub proof fn lemma_appended_trans(a: Trace, b: Trace, c: Trace)
    requires
        a.wf(),
        b.wf(),
        c.wf(),
        a.appended_to(&b),
        b.appended_to(&c),
    ensures
        a.appended_to(&c),
{
    assert(c.cells().subrange(0, a.cells().len() as int) =~= b.cells().subrange(
        0,
        a.cells().len() as int,
    ));
    assert(c.rects().subrange(0, a.rects().len() as int) =~= b.rects().subrange(
        0,
        a.rects().len() as int,
    ));
    assert(c.rights().subrange(0, a.rects().len() as int) =~= b.rights().subrange(
        0,
        a.rects().len() as int,
    ));
    assert(c.starts().subrange(0, a.rects().len() as int) =~= b.starts().subrange(
        0,
        a.rects().len() as int,
    ));
}

/// Cutting the trace back to a checkpoint undoes every append made since the
/// checkpoint was saved: both indices return to their values at save time and
/// the words and rectangles below them are unchanged.
pub proof fn lemma_checkpoint_stack(saved: Trace, later: Trace, restored: Trace)
    requires
        saved.at_checkpoint(),
        saved.appended_to(&later),
        restored.restored_from(&later),
    ensures
        restored.trace_idx() == saved.trace_idx(),
        restored.block_idx() == saved.block_idx(),
        restored.cells() == saved.cells(),
        restored.rects() == saved.rects(),
        restored.rights() == saved.rights(),
        restored.starts() == saved.starts(),
{
}

} // verus!
