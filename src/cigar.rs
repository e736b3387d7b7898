//! Run-length encoded alignment operations.
use vstd::prelude::*;

verus! {

/// One alignment operation: a match or mismatch, an insertion (a query symbol
/// against a gap) or a deletion (a reference symbol against a gap).
#[derive(Clone, Copy, Debug, PartialEq, Eq, Structural)]
pub enum Operation {
    M,
    I,
    D,
}

/// A run of `len` equal operations.
#[derive(Clone, Copy, Debug, PartialEq, Eq, Structural)]
pub struct OpLen {
    pub op: Operation,
    pub len: usize,
}

/// The operations that a sequence of runs stands for, run by run.
pub open spec fn expand(runs: Seq<OpLen>) -> Seq<Operation>
    decreases runs.len(),
{
    if runs.len() == 0 {
        Seq::empty()
    } else {
        expand(runs.drop_last()) + Seq::new(runs.last().len as nat, |k: int| runs.last().op)
    }
}

/// Runs are non-empty and neighbouring runs hold different operations.
pub open spec fn runs_compressed(runs: Seq<OpLen>) -> bool {
    &&& forall|k: int| 0 <= k < runs.len() ==> #[trigger] runs[k].len >= 1
    &&& forall|k: int| 0 < k < runs.len() ==> #[trigger] runs[k].op != runs[k - 1].op
}

/// The runs in reverse order.
pub open spec fn reversed(runs: Seq<OpLen>) -> Seq<OpLen> {
    Seq::new(runs.len(), |k: int| runs[runs.len() - 1 - k])
}

/// Number of query symbols that a list of operations consumes.
pub open spec fn query_span(ops: Seq<Operation>) -> nat
    decreases ops.len(),
{
    if ops.len() == 0 {
        0
    } else {
        query_span(ops.drop_last()) + if ops.last() != Operation::D {
            1nat
        } else {
            0nat
        }
    }
}

/// Number of reference symbols that a list of operations consumes.
pub open spec fn reference_span(ops: Seq<Operation>) -> nat
    decreases ops.len(),
{
    if ops.len() == 0 {
        0
    } else {
        reference_span(ops.drop_last()) + if ops.last() != Operation::I {
            1nat
        } else {
            0nat
        }
    }
}

pub open spec fn op_char(op: Operation) -> char {
    match op {
        Operation::M => 'M',
        Operation::I => 'I',
        Operation::D => 'D',
    }
}

/// Decimal digits of `n`, most significant first.
pub open spec fn decimal(n: nat) -> Seq<char>
    decreases n,
{
    if n < 10 {
        seq![(48 + n) as char]
    } else {
        decimal(n / 10) + seq![(48 + n % 10) as char]
    }
}

/// The usual text form: for each run its length in decimal, then its letter.
pub open spec fn cigar_text(runs: Seq<OpLen>) -> Seq<char>
    decreases runs.len(),
{
    if runs.len() == 0 {
        Seq::empty()
    } else {
        cigar_text(runs.drop_last()) + decimal(runs.last().len as nat) + seq![
            op_char(runs.last().op),
        ]
    }
}

/// Operations collected while tracing back, so the last operation of the
/// alignment comes first.
#[derive(Clone, Debug)]
pub struct Cigar {
    s: Vec<OpLen>,
}

fn digit_str(d: usize) -> (r: &'static str)
    requires
        d < 10,
    ensures
        r@ == seq![(48 + d) as char],
{
    if d == 0 {
        proof { reveal_strlit("0"); }
        "0"
    } else if d == 1 {
        proof { reveal_strlit("1"); }
        "1"
    } else if d == 2 {
        proof { reveal_strlit("2"); }
        "2"
    } else if d == 3 {
        proof { reveal_strlit("3"); }
        "3"
    } else if d == 4 {
        proof { reveal_strlit("4"); }
        "4"
    } else if d == 5 {
        proof { reveal_strlit("5"); }
        "5"
    } else if d == 6 {
        proof { reveal_strlit("6"); }
        "6"
    } else if d == 7 {
        proof { reveal_strlit("7"); }
        "7"
    } else if d == 8 {
        proof { reveal_strlit("8"); }
        "8"
    } else {
        proof { reveal_strlit("9"); }
        "9"
    }
}

fn op_str(op: Operation) -> (r: &'static str)
    ensures
        r@ == seq![op_char(op)],
{
    match op {
        Operation::M => {
            proof { reveal_strlit("M"); }
            "M"
        },
        Operation::I => {
            proof { reveal_strlit("I"); }
            "I"
        },
        Operation::D => {
            proof { reveal_strlit("D"); }
            "D"
        },
    }
}

fn push_decimal(out: &mut String, n: usize)
    ensures
        final(out)@ == old(out)@ + decimal(n as nat),
    decreases n,
{
    if n >= 10 {
        push_decimal(out, n / 10);
    }
    out.append(digit_str(n % 10));
    assert(final(out)@ =~= old(out)@ + decimal(n as nat));
}

impl Cigar {
    /// The runs in the order they were added.
    pub closed spec fn added_runs(&self) -> Seq<OpLen> {
        self.s@
    }

    /// The operations in the order they were added (the alignment read backwards).
    pub open spec fn added(&self) -> Seq<Operation> {
        expand(self.added_runs())
    }

    pub open spec fn wf(&self) -> bool {
        runs_compressed(self.added_runs())
    }

    pub fn new() -> (r: Cigar)
        ensures
            r.added_runs() == Seq::<OpLen>::empty(),
            r.wf(),
    {
        Cigar { s: Vec::new() }
    }

    /// Adds one operation in front of those already added (tracing goes backwards).
    pub fn add(&mut self, op: Operation)
        requires
            old(self).wf(),
            old(self).added().len() < usize::MAX,
        ensures
            final(self).wf(),
            final(self).added() == old(self).added().push(op),
    {
        let n = self.s.len();
        proof { self.lemma_last_len_bound(); }
        if n > 0 && self.s[n - 1].op == op {
            let last = self.s[n - 1];
            let ghost before = self.s@;
            self.s.set(n - 1, OpLen { op, len: last.len + 1 });
            assert(self.s@.drop_last() =~= before.drop_last());
            assert(Seq::new((last.len + 1) as nat, |k: int| op) =~= Seq::new(
                last.len as nat,
                |k: int| op,
            ).push(op));
            assert(self.s@.last() == OpLen { op, len: (last.len + 1) as usize });
        } else {
            let ghost before = self.s@;
            self.s.push(OpLen { op, len: 1 });
            assert(self.s@.drop_last() =~= before);
            assert(Seq::new(1nat, |k: int| op) =~= seq![op]);
        }
    }

    proof fn lemma_last_len_bound(&self)
        requires
            self.wf(),
        ensures
            self.s@.len() > 0 ==> self.s@.last().len <= self.added().len(),
    {
    }

    /// The runs in alignment order.
    pub fn to_vec(&self) -> (r: Vec<OpLen>)
        ensures
            r@ == reversed(self.added_runs()),
    {
        let mut r: Vec<OpLen> = Vec::new();
        let n = self.s.len();
        let mut k: usize = 0;
        while k < n
            invariant
                n == self.s@.len(),
                k <= n,
                r@ == Seq::new(k as nat, |x: int| self.s@[n - 1 - x]),
            decreases n - k,
        {
            r.push(self.s[n - 1 - k]);
            k += 1;
            assert(r@ =~= Seq::new(k as nat, |x: int| self.s@[n - 1 - x]));
        }
        r
    }

    /// The usual text form, for example `2M6I16M3D`.
    pub fn to_string(&self) -> (r: String)
        ensures
            r@ == cigar_text(reversed(self.added_runs())),
    {
        let v = self.to_vec();
        let mut out = String::new();
        let mut k: usize = 0;
        while k < v.len()
            invariant
                k <= v@.len(),
                out@ == cigar_text(v@.subrange(0, k as int)),
            decreases v@.len() - k,
        {
            let run = v[k];
            push_decimal(&mut out, run.len);
            out.append(op_str(run.op));
            k += 1;
            assert(v@.subrange(0, k as int).drop_last() =~= v@.subrange(0, k - 1));
        }
        assert(v@.subrange(0, v@.len() as int) =~= v@);
        out
    }
}

} // verus!
