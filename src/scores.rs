//! Substitution score tables and gap penalties.
use vstd::prelude::*;

verus! {

/// Number of symbol codes of the letter tables: 26 letters and the padding symbol.
pub const ALPHABET: usize = 27;

/// Code of the padding symbol in the letter tables.
pub const NULL_CODE: u8 = 26;

/// Score of a pair that the table does not list, and of the padding symbol.
pub const ABSENT: i8 = -128;

/// Affine gap penalties: a gap of length `k` costs `open + (k - 1) * extend`.
#[derive(Clone, Copy, Debug, PartialEq, Eq)]
pub struct Gaps {
    pub open: i8,
    pub extend: i8,
}

/// A substitution score capability.
pub trait Matrix: Sized {
    /// The padding symbol, before conversion.
    spec fn null_spec() -> u8;

    /// The internal code of a byte.
    spec fn convert_spec(c: u8) -> u8;

    /// The score of query symbol `a` against reference symbol `b` (both converted).
    spec fn score_spec(&self, a: u8, b: u8) -> i8;

    /// Whether X-drop alignment may be run with this kind of table.
    spec fn allows_x_drop_spec() -> bool;

    fn null() -> (r: u8)
        ensures
            r == Self::null_spec(),
    ;

    fn convert_char(c: u8) -> (r: u8)
        ensures
            r == Self::convert_spec(c),
    ;

    fn get_score(&self, a: u8, b: u8) -> (r: i8)
        ensures
            r == self.score_spec(a, b),
    ;

    fn allows_x_drop() -> (r: bool)
        ensures
            r == Self::allows_x_drop_spec(),
    ;
}

/// Code of a byte in the letter tables: letters of either case map to `0..26`,
/// the padding symbol to `NULL_CODE` and anything else to the code of `X`.
pub open spec fn letter_code(c: u8) -> u8 {
    if 65 <= c <= 90 {
        (c - 65) as u8
    } else if 97 <= c <= 122 {
        (c - 97) as u8
    } else if c == 91 {
        NULL_CODE
    } else {
        23
    }
}

fn letter_code_exec(c: u8) -> (r: u8)
    ensures
        r == letter_code(c),
        r < ALPHABET,
{
    if 65 <= c && c <= 90 {
        c - 65
    } else if 97 <= c && c <= 122 {
        c - 97
    } else if c == 91 {
        NULL_CODE
    } else {
        23
    }
}

/// Looks a pair of codes up in a square table of `ALPHABET` rows.
pub open spec fn table_score(t: Seq<i8>, a: u8, b: u8) -> i8 {
    if t.len() == ALPHABET * ALPHABET && a < ALPHABET && b < ALPHABET {
        t[a as int * ALPHABET as int + b as int]
    } else {
        ABSENT
    }
}

fn table_lookup(t: &Vec<i8>, a: u8, b: u8) -> (r: i8)
    ensures
        r == table_score(t@, a, b),
{
    if t.len() == ALPHABET * ALPHABET && (a as usize) < ALPHABET && (b as usize) < ALPHABET {
        t[a as usize * ALPHABET + b as usize]
    } else {
        ABSENT
    }
}

/// A table filled with `ABSENT`, then with `m` on the diagonal and `mm` elsewhere
/// for the 26 letters when `simple` holds.
fn simple_table(m: i8, mm: i8, simple: bool) -> (r: Vec<i8>)
    ensures
        r@.len() == ALPHABET * ALPHABET,
        forall|a: u8, b: u8|
            a < ALPHABET && b < ALPHABET ==> #[trigger] table_score(r@, a, b) == if simple && a
                < NULL_CODE && b < NULL_CODE {
                if a == b {
                    m
                } else {
                    mm
                }
            } else {
                ABSENT
            },
{
    let mut t: Vec<i8> = Vec::new();
    let mut k: usize = 0;
    while k < ALPHABET * ALPHABET
        invariant
            k <= ALPHABET * ALPHABET,
            t@.len() == k,
            forall|x: int|
                0 <= x < k ==> t@[x] == if simple && x / 27 < 26 && x % 27 < 26 {
                    if x / 27 == x % 27 {
                        m
                    } else {
                        mm
                    }
                } else {
                    ABSENT
                },
        decreases ALPHABET * ALPHABET - k,
    {
        let a = k / ALPHABET;
        let b = k % ALPHABET;
        let v = if simple && a < 26 && b < 26 {
            if a == b {
                m
            } else {
                mm
            }
        } else {
            ABSENT
        };
        t.push(v);
        k += 1;
    }
    assert forall|a: u8, b: u8| a < ALPHABET && b < ALPHABET implies #[trigger] table_score(
        t@,
        a,
        b,
    ) == if simple && a < NULL_CODE && b < NULL_CODE {
        if a == b {
            m
        } else {
            mm
        }
    } else {
        ABSENT
    } by {
        let x = a as int * 27 + b as int;
        assert(x / 27 == a as int && x % 27 == b as int) by (nonlinear_arith)
            requires
                x == a as int * 27 + b as int,
                0 <= b < 27,
                0 <= a,
        ;
        assert(0 <= x < 729) by (nonlinear_arith)
            requires
                x == a as int * 27 + b as int,
                0 <= b < 27,
                0 <= a < 27,
        ;
    }
    t
}

/// A table over letters for amino acids (protein substitution matrices).
#[derive(Clone, Debug)]
pub struct AAMatrix {
    scores: Vec<i8>,
}

/// A table over letters for nucleotides.
#[derive(Clone, Debug)]
pub struct NucMatrix {
    scores: Vec<i8>,
}

/// Raw bytes scored by equality alone.
#[derive(Clone, Copy, Debug)]
pub struct ByteMatrix {
    pub match_score: i8,
    pub mismatch_score: i8,
}

impl Matrix for AAMatrix {
    open spec fn null_spec() -> u8 {
        91
    }

    open spec fn convert_spec(c: u8) -> u8 {
        letter_code(c)
    }

    closed spec fn score_spec(&self, a: u8, b: u8) -> i8 {
        table_score(self.scores@, a, b)
    }

    open spec fn allows_x_drop_spec() -> bool {
        true
    }

    fn null() -> (r: u8) {
        91
    }

    fn convert_char(c: u8) -> (r: u8) {
        letter_code_exec(c)
    }

    fn get_score(&self, a: u8, b: u8) -> (r: i8) {
        table_lookup(&self.scores, a, b)
    }

    fn allows_x_drop() -> (r: bool) {
        true
    }
}

impl Matrix for NucMatrix {
    open spec fn null_spec() -> u8 {
        91
    }

    open spec fn convert_spec(c: u8) -> u8 {
        letter_code(c)
    }

    closed spec fn score_spec(&self, a: u8, b: u8) -> i8 {
        table_score(self.scores@, a, b)
    }

    open spec fn allows_x_drop_spec() -> bool {
        true
    }

    fn null() -> (r: u8) {
        91
    }

    fn convert_char(c: u8) -> (r: u8) {
        letter_code_exec(c)
    }

    fn get_score(&self, a: u8, b: u8) -> (r: i8) {
        table_lookup(&self.scores, a, b)
    }

    fn allows_x_drop() -> (r: bool) {
        true
    }
}

impl Matrix for ByteMatrix {
    open spec fn null_spec() -> u8 {
        0
    }

    open spec fn convert_spec(c: u8) -> u8 {
        c
    }

    open spec fn score_spec(&self, a: u8, b: u8) -> i8 {
        if a == b {
            self.match_score
        } else {
            self.mismatch_score
        }
    }

    open spec fn allows_x_drop_spec() -> bool {
        false
    }

    fn null() -> (r: u8) {
        0
    }

    fn convert_char(c: u8) -> (r: u8) {
        c
    }

    fn get_score(&self, a: u8, b: u8) -> (r: i8) {
        if a == b {
            self.match_score
        } else {
            self.mismatch_score
        }
    }

    fn allows_x_drop() -> (r: bool) {
        false
    }
}

impl NucMatrix {
    /// Scores `match_score` for equal letters and `mismatch_score` for different ones.
    pub fn new_simple(match_score: i8, mismatch_score: i8) -> (r: NucMatrix)
        ensures
            forall|a: u8, b: u8|
                a < NULL_CODE && b < NULL_CODE ==> #[trigger] r.score_spec(a, b) == if a == b {
                    match_score
                } else {
                    mismatch_score
                },
            forall|a: u8| #[trigger] r.score_spec(a, NULL_CODE) == ABSENT,
            forall|a: u8| #[trigger] r.score_spec(NULL_CODE, a) == ABSENT,
    {
        let scores = simple_table(match_score, mismatch_score, true);
        NucMatrix { scores }
    }
}

/// BLOSUM62 laid out by letter code: entry `a * ALPHABET + b` scores letter
/// `a` against letter `b`; letters the matrix does not list (J, O, U) and the
/// padding symbol score `ABSENT`.
pub open spec fn blosum62_table() -> Seq<i8> {
    seq![
        4i8, -2i8, 0i8, -2i8, -1i8, -2i8, 0i8, -2i8, -1i8, -128i8, -1i8, -1i8, -1i8, -2i8, -128i8, -1i8, -1i8, -1i8, 1i8, 0i8, -128i8, 0i8, -3i8, 0i8, -2i8, -1i8, -128i8,
        -2i8, 4i8, -3i8, 4i8, 1i8, -3i8, -1i8, 0i8, -3i8, -128i8, 0i8, -4i8, -3i8, 3i8, -128i8, -2i8, 0i8, -1i8, 0i8, -1i8, -128i8, -3i8, -4i8, -1i8, -3i8, 1i8, -128i8,
        0i8, -3i8, 9i8, -3i8, -4i8, -2i8, -3i8, -3i8, -1i8, -128i8, -3i8, -1i8, -1i8, -3i8, -128i8, -3i8, -3i8, -3i8, -1i8, -1i8, -128i8, -1i8, -2i8, -2i8, -2i8, -3i8, -128i8,
        -2i8, 4i8, -3i8, 6i8, 2i8, -3i8, -1i8, -1i8, -3i8, -128i8, -1i8, -4i8, -3i8, 1i8, -128i8, -1i8, 0i8, -2i8, 0i8, -1i8, -128i8, -3i8, -4i8, -1i8, -3i8, 1i8, -128i8,
        -1i8, 1i8, -4i8, 2i8, 5i8, -3i8, -2i8, 0i8, -3i8, -128i8, 1i8, -3i8, -2i8, 0i8, -128i8, -1i8, 2i8, 0i8, 0i8, -1i8, -128i8, -2i8, -3i8, -1i8, -2i8, 4i8, -128i8,
        -2i8, -3i8, -2i8, -3i8, -3i8, 6i8, -3i8, -1i8, 0i8, -128i8, -3i8, 0i8, 0i8, -3i8, -128i8, -4i8, -3i8, -3i8, -2i8, -2i8, -128i8, -1i8, 1i8, -1i8, 3i8, -3i8, -128i8,
        0i8, -1i8, -3i8, -1i8, -2i8, -3i8, 6i8, -2i8, -4i8, -128i8, -2i8, -4i8, -3i8, 0i8, -128i8, -2i8, -2i8, -2i8, 0i8, -2i8, -128i8, -3i8, -2i8, -1i8, -3i8, -2i8, -128i8,
        -2i8, 0i8, -3i8, -1i8, 0i8, -1i8, -2i8, 8i8, -3i8, -128i8, -1i8, -3i8, -2i8, 1i8, -128i8, -2i8, 0i8, 0i8, -1i8, -2i8, -128i8, -3i8, -2i8, -1i8, 2i8, 0i8, -128i8,
        -1i8, -3i8, -1i8, -3i8, -3i8, 0i8, -4i8, -3i8, 4i8, -128i8, -3i8, 2i8, 1i8, -3i8, -128i8, -3i8, -3i8, -3i8, -2i8, -1i8, -128i8, 3i8, -3i8, -1i8, -1i8, -3i8, -128i8,
        -128i8, -128i8, -128i8, -128i8, -128i8, -128i8, -128i8, -128i8, -128i8, -128i8, -128i8, -128i8, -128i8, -128i8, -128i8, -128i8, -128i8, -128i8, -128i8, -128i8, -128i8, -128i8, -128i8, -128i8, -128i8, -128i8, -128i8,
        -1i8, 0i8, -3i8, -1i8, 1i8, -3i8, -2i8, -1i8, -3i8, -128i8, 5i8, -2i8, -1i8, 0i8, -128i8, -1i8, 1i8, 2i8, 0i8, -1i8, -128i8, -2i8, -3i8, -1i8, -2i8, 1i8, -128i8,
        -1i8, -4i8, -1i8, -4i8, -3i8, 0i8, -4i8, -3i8, 2i8, -128i8, -2i8, 4i8, 2i8, -3i8, -128i8, -3i8, -2i8, -2i8, -2i8, -1i8, -128i8, 1i8, -2i8, -1i8, -1i8, -3i8, -128i8,
        -1i8, -3i8, -1i8, -3i8, -2i8, 0i8, -3i8, -2i8, 1i8, -128i8, -1i8, 2i8, 5i8, -2i8, -128i8, -2i8, 0i8, -1i8, -1i8, -1i8, -128i8, 1i8, -1i8, -1i8, -1i8, -1i8, -128i8,
        -2i8, 3i8, -3i8, 1i8, 0i8, -3i8, 0i8, 1i8, -3i8, -128i8, 0i8, -3i8, -2i8, 6i8, -128i8, -2i8, 0i8, 0i8, 1i8, 0i8, -128i8, -3i8, -4i8, -1i8, -2i8, 0i8, -128i8,
        -128i8, -128i8, -128i8, -128i8, -128i8, -128i8, -128i8, -128i8, -128i8, -128i8, -128i8, -128i8, -128i8, -128i8, -128i8, -128i8, -128i8, -128i8, -128i8, -128i8, -128i8, -128i8, -128i8, -128i8, -128i8, -128i8, -128i8,
        -1i8, -2i8, -3i8, -1i8, -1i8, -4i8, -2i8, -2i8, -3i8, -128i8, -1i8, -3i8, -2i8, -2i8, -128i8, 7i8, -1i8, -2i8, -1i8, -1i8, -128i8, -2i8, -4i8, -2i8, -3i8, -1i8, -128i8,
        -1i8, 0i8, -3i8, 0i8, 2i8, -3i8, -2i8, 0i8, -3i8, -128i8, 1i8, -2i8, 0i8, 0i8, -128i8, -1i8, 5i8, 1i8, 0i8, -1i8, -128i8, -2i8, -2i8, -1i8, -1i8, 3i8, -128i8,
        -1i8, -1i8, -3i8, -2i8, 0i8, -3i8, -2i8, 0i8, -3i8, -128i8, 2i8, -2i8, -1i8, 0i8, -128i8, -2i8, 1i8, 5i8, -1i8, -1i8, -128i8, -3i8, -3i8, -1i8, -2i8, 0i8, -128i8,
        1i8, 0i8, -1i8, 0i8, 0i8, -2i8, 0i8, -1i8, -2i8, -128i8, 0i8, -2i8, -1i8, 1i8, -128i8, -1i8, 0i8, -1i8, 4i8, 1i8, -128i8, -2i8, -3i8, 0i8, -2i8, 0i8, -128i8,
        0i8, -1i8, -1i8, -1i8, -1i8, -2i8, -2i8, -2i8, -1i8, -128i8, -1i8, -1i8, -1i8, 0i8, -128i8, -1i8, -1i8, -1i8, 1i8, 5i8, -128i8, 0i8, -2i8, 0i8, -2i8, -1i8, -128i8,
        -128i8, -128i8, -128i8, -128i8, -128i8, -128i8, -128i8, -128i8, -128i8, -128i8, -128i8, -128i8, -128i8, -128i8, -128i8, -128i8, -128i8, -128i8, -128i8, -128i8, -128i8, -128i8, -128i8, -128i8, -128i8, -128i8, -128i8,
        0i8, -3i8, -1i8, -3i8, -2i8, -1i8, -3i8, -3i8, 3i8, -128i8, -2i8, 1i8, 1i8, -3i8, -128i8, -2i8, -2i8, -3i8, -2i8, 0i8, -128i8, 4i8, -3i8, -1i8, -1i8, -2i8, -128i8,
        -3i8, -4i8, -2i8, -4i8, -3i8, 1i8, -2i8, -2i8, -3i8, -128i8, -3i8, -2i8, -1i8, -4i8, -128i8, -4i8, -2i8, -3i8, -3i8, -2i8, -128i8, -3i8, 11i8, -2i8, 2i8, -3i8, -128i8,
        0i8, -1i8, -2i8, -1i8, -1i8, -1i8, -1i8, -1i8, -1i8, -128i8, -1i8, -1i8, -1i8, -1i8, -128i8, -2i8, -1i8, -1i8, 0i8, 0i8, -128i8, -1i8, -2i8, -1i8, -1i8, -1i8, -128i8,
        -2i8, -3i8, -2i8, -3i8, -2i8, 3i8, -3i8, 2i8, -1i8, -128i8, -2i8, -1i8, -1i8, -2i8, -128i8, -3i8, -1i8, -2i8, -2i8, -2i8, -128i8, -1i8, 2i8, -1i8, 7i8, -2i8, -128i8,
        -1i8, 1i8, -3i8, 1i8, 4i8, -3i8, -2i8, 0i8, -3i8, -128i8, 1i8, -3i8, -1i8, 0i8, -128i8, -1i8, 3i8, 0i8, 0i8, -1i8, -128i8, -2i8, -3i8, -1i8, -2i8, 4i8, -128i8,
        -128i8, -128i8, -128i8, -128i8, -128i8, -128i8, -128i8, -128i8, -128i8, -128i8, -128i8, -128i8, -128i8, -128i8, -128i8, -128i8, -128i8, -128i8, -128i8, -128i8, -128i8, -128i8, -128i8, -128i8, -128i8, -128i8, -128i8,
    ]
}

/// The BLOSUM62 substitution matrix over amino acid letters.
pub fn blosum62() -> (r: AAMatrix)
    ensures
        forall|a: u8, b: u8| a < ALPHABET && b < ALPHABET ==> #[trigger] r.score_spec(a, b)
            == blosum62_table()[a as int * ALPHABET as int + b as int],
        forall|a: u8| a < ALPHABET ==> #[trigger] r.score_spec(a, NULL_CODE) == ABSENT,
        forall|a: u8| a < ALPHABET ==> #[trigger] r.score_spec(NULL_CODE, a) == ABSENT,
{
    let table: [i8; 729] = [
        4, -2, 0, -2, -1, -2, 0, -2, -1, -128, -1, -1, -1, -2, -128, -1, -1, -1, 1, 0, -128, 0, -3, 0, -2, -1, -128,
        -2, 4, -3, 4, 1, -3, -1, 0, -3, -128, 0, -4, -3, 3, -128, -2, 0, -1, 0, -1, -128, -3, -4, -1, -3, 1, -128,
        0, -3, 9, -3, -4, -2, -3, -3, -1, -128, -3, -1, -1, -3, -128, -3, -3, -3, -1, -1, -128, -1, -2, -2, -2, -3, -128,
        -2, 4, -3, 6, 2, -3, -1, -1, -3, -128, -1, -4, -3, 1, -128, -1, 0, -2, 0, -1, -128, -3, -4, -1, -3, 1, -128,
        -1, 1, -4, 2, 5, -3, -2, 0, -3, -128, 1, -3, -2, 0, -128, -1, 2, 0, 0, -1, -128, -2, -3, -1, -2, 4, -128,
        -2, -3, -2, -3, -3, 6, -3, -1, 0, -128, -3, 0, 0, -3, -128, -4, -3, -3, -2, -2, -128, -1, 1, -1, 3, -3, -128,
        0, -1, -3, -1, -2, -3, 6, -2, -4, -128, -2, -4, -3, 0, -128, -2, -2, -2, 0, -2, -128, -3, -2, -1, -3, -2, -128,
        -2, 0, -3, -1, 0, -1, -2, 8, -3, -128, -1, -3, -2, 1, -128, -2, 0, 0, -1, -2, -128, -3, -2, -1, 2, 0, -128,
        -1, -3, -1, -3, -3, 0, -4, -3, 4, -128, -3, 2, 1, -3, -128, -3, -3, -3, -2, -1, -128, 3, -3, -1, -1, -3, -128,
        -128, -128, -128, -128, -128, -128, -128, -128, -128, -128, -128, -128, -128, -128, -128, -128, -128, -128, -128, -128, -128, -128, -128, -128, -128, -128, -128,
        -1, 0, -3, -1, 1, -3, -2, -1, -3, -128, 5, -2, -1, 0, -128, -1, 1, 2, 0, -1, -128, -2, -3, -1, -2, 1, -128,
        -1, -4, -1, -4, -3, 0, -4, -3, 2, -128, -2, 4, 2, -3, -128, -3, -2, -2, -2, -1, -128, 1, -2, -1, -1, -3, -128,
        -1, -3, -1, -3, -2, 0, -3, -2, 1, -128, -1, 2, 5, -2, -128, -2, 0, -1, -1, -1, -128, 1, -1, -1, -1, -1, -128,
        -2, 3, -3, 1, 0, -3, 0, 1, -3, -128, 0, -3, -2, 6, -128, -2, 0, 0, 1, 0, -128, -3, -4, -1, -2, 0, -128,
        -128, -128, -128, -128, -128, -128, -128, -128, -128, -128, -128, -128, -128, -128, -128, -128, -128, -128, -128, -128, -128, -128, -128, -128, -128, -128, -128,
        -1, -2, -3, -1, -1, -4, -2, -2, -3, -128, -1, -3, -2, -2, -128, 7, -1, -2, -1, -1, -128, -2, -4, -2, -3, -1, -128,
        -1, 0, -3, 0, 2, -3, -2, 0, -3, -128, 1, -2, 0, 0, -128, -1, 5, 1, 0, -1, -128, -2, -2, -1, -1, 3, -128,
        -1, -1, -3, -2, 0, -3, -2, 0, -3, -128, 2, -2, -1, 0, -128, -2, 1, 5, -1, -1, -128, -3, -3, -1, -2, 0, -128,
        1, 0, -1, 0, 0, -2, 0, -1, -2, -128, 0, -2, -1, 1, -128, -1, 0, -1, 4, 1, -128, -2, -3, 0, -2, 0, -128,
        0, -1, -1, -1, -1, -2, -2, -2, -1, -128, -1, -1, -1, 0, -128, -1, -1, -1, 1, 5, -128, 0, -2, 0, -2, -1, -128,
        -128, -128, -128, -128, -128, -128, -128, -128, -128, -128, -128, -128, -128, -128, -128, -128, -128, -128, -128, -128, -128, -128, -128, -128, -128, -128, -128,
        0, -3, -1, -3, -2, -1, -3, -3, 3, -128, -2, 1, 1, -3, -128, -2, -2, -3, -2, 0, -128, 4, -3, -1, -1, -2, -128,
        -3, -4, -2, -4, -3, 1, -2, -2, -3, -128, -3, -2, -1, -4, -128, -4, -2, -3, -3, -2, -128, -3, 11, -2, 2, -3, -128,
        0, -1, -2, -1, -1, -1, -1, -1, -1, -128, -1, -1, -1, -1, -128, -2, -1, -1, 0, 0, -128, -1, -2, -1, -1, -1, -128,
        -2, -3, -2, -3, -2, 3, -3, 2, -1, -128, -2, -1, -1, -2, -128, -3, -1, -2, -2, -2, -128, -1, 2, -1, 7, -2, -128,
        -1, 1, -3, 1, 4, -3, -2, 0, -3, -128, 1, -3, -1, 0, -128, -1, 3, 0, 0, -1, -128, -2, -3, -1, -2, 4, -128,
        -128, -128, -128, -128, -128, -128, -128, -128, -128, -128, -128, -128, -128, -128, -128, -128, -128, -128, -128, -128, -128, -128, -128, -128, -128, -128, -128,
    ];
    assert(table@ =~= blosum62_table());
    let mut scores: Vec<i8> = Vec::new();
    let mut k: usize = 0;
    while k < 729
        invariant
            k <= 729,
            scores@ == table@.subrange(0, k as int),
        decreases 729 - k,
    {
        scores.push(table[k]);
        k += 1;
        assert(scores@ =~= table@.subrange(0, k as int));
    }
    assert(scores@ =~= blosum62_table());
    AAMatrix { scores }
}

/// Nucleotide table with match `1` and mismatch `-1`.
pub fn nw1() -> (r: NucMatrix)
    ensures
        forall|a: u8, b: u8|
            a < NULL_CODE && b < NULL_CODE ==> #[trigger] r.score_spec(a, b) == if a == b {
                1i8
            } else {
                -1i8
            },
        forall|a: u8| #[trigger] r.score_spec(a, NULL_CODE) == ABSENT,
        forall|a: u8| #[trigger] r.score_spec(NULL_CODE, a) == ABSENT,
{
    NucMatrix::new_simple(1, -1)
}

/// Byte table with match `1` and mismatch `-1`.
pub fn bytes1() -> (r: ByteMatrix)
    ensures
        r.match_score == 1,
        r.mismatch_score == -1,
{
    ByteMatrix { match_score: 1, mismatch_score: -1 }
}

} // verus!
