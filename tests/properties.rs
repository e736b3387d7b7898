use block_aligner::cigar::{OpLen, Operation};
use block_aligner::padded::PaddedBytes;
use block_aligner::scan_block::{next_best, next_move, next_x_drop_iter, AlignResult, Block, Move};
use block_aligner::scores::{blosum62, bytes1, nw1, AAMatrix, ByteMatrix, Gaps, Matrix, NucMatrix};
use block_aligner::trace::{Rectangle, Trace};

const NEG: i64 = -1_000_000;

/// Full-matrix affine-gap global alignment: the last cell, and the best cell of all.
fn naive<M: Matrix>(m: &M, q: &[u8], r: &[u8], gaps: Gaps) -> (i64, i64) {
    let open = gaps.open as i64;
    let ext = gaps.extend as i64;
    let (n, k) = (q.len(), r.len());
    let mut h = vec![vec![NEG; k + 1]; n + 1];
    let mut e = vec![vec![NEG; k + 1]; n + 1];
    let mut f = vec![vec![NEG; k + 1]; n + 1];
    h[0][0] = 0;
    let mut best = 0;
    for i in 0..=n {
        for j in 0..=k {
            if i == 0 && j == 0 {
                continue;
            }
            if j > 0 {
                e[i][j] = (h[i][j - 1] + open).max(e[i][j - 1] + ext);
            }
            if i > 0 {
                f[i][j] = (h[i - 1][j] + open).max(f[i - 1][j] + ext);
            }
            let mut v = e[i][j].max(f[i][j]);
            if i > 0 && j > 0 {
                let s = m.get_score(M::convert_char(q[i - 1]), M::convert_char(r[j - 1])) as i64;
                v = v.max(h[i - 1][j - 1] + s);
            }
            h[i][j] = v;
            best = best.max(v);
        }
    }
    (h[n][k], best)
}

/// Score of an alignment given as runs, applied to the two sequences.
fn rescore<M: Matrix>(m: &M, q: &[u8], r: &[u8], gaps: Gaps, runs: &[OpLen]) -> (i64, usize, usize) {
    let (mut i, mut j, mut score) = (0usize, 0usize, 0i64);
    for run in runs {
        match run.op {
            Operation::M => {
                for _ in 0..run.len {
                    score += m.get_score(M::convert_char(q[i]), M::convert_char(r[j])) as i64;
                    i += 1;
                    j += 1;
                }
            }
            Operation::I => {
                score += gaps.open as i64 + (run.len as i64 - 1) * gaps.extend as i64;
                i += run.len;
            }
            Operation::D => {
                score += gaps.open as i64 + (run.len as i64 - 1) * gaps.extend as i64;
                j += run.len;
            }
        }
    }
    (score, i, j)
}

fn pseudo_random(seed: &mut u64, len: usize, alphabet: &[u8]) -> Vec<u8> {
    let mut v = Vec::with_capacity(len);
    for _ in 0..len {
        *seed = seed.wrapping_mul(6364136223846793005).wrapping_add(1442695040888963407);
        v.push(alphabet[((*seed >> 33) as usize) % alphabet.len()]);
    }
    v
}

fn global_nuc(q: &[u8], r: &[u8], size: usize, gaps: Gaps) -> i32 {
    let nw = nw1();
    let qp = PaddedBytes::from_bytes::<NucMatrix>(q, size);
    let rp = PaddedBytes::from_bytes::<NucMatrix>(r, size);
    Block::<_, false, false>::align(&qp, &rp, &nw, gaps, size..=size, 0).res().score
}

#[test]
fn global_score_matches_full_matrix() {
    let gaps = Gaps { open: -2, extend: -1 };
    let nw = nw1();
    let mut seed = 7u64;
    for round in 0..40 {
        let q = pseudo_random(&mut seed, 1 + round % 37, b"ACGT");
        let r = pseudo_random(&mut seed, 1 + (round * 7) % 41, b"ACGT");
        let got = global_nuc(&q, &r, 64, gaps);
        assert_eq!(got as i64, naive(&nw, &q, &r, gaps).0, "{:?} {:?}", q, r);
    }
}

#[test]
fn global_score_matches_full_matrix_protein() {
    let gaps = Gaps { open: -11, extend: -1 };
    let blosum = blosum62();
    let mut seed = 99u64;
    for round in 0..30 {
        let q = pseudo_random(&mut seed, 1 + round % 29, b"ARNDCQEGHILKMFPSTWYV");
        let r = pseudo_random(&mut seed, 1 + (round * 5) % 31, b"ARNDCQEGHILKMFPSTWYV");
        let qp = PaddedBytes::from_bytes::<AAMatrix>(&q, 32);
        let rp = PaddedBytes::from_bytes::<AAMatrix>(&r, 32);
        let a = Block::<_, false, false>::align(&qp, &rp, &blosum, gaps, 32..=32, 0);
        assert_eq!(a.res().score as i64, naive(&blosum, &q, &r, gaps).0);
        assert_eq!(a.res().query_idx, q.len());
        assert_eq!(a.res().reference_idx, r.len());
    }
}

#[test]
fn fixed_size_sixteen_matches_full_matrix_on_short_inputs() {
    let gaps = Gaps { open: -2, extend: -1 };
    let nw = nw1();
    let mut seed = 12345u64;
    for round in 0..40 {
        let q = pseudo_random(&mut seed, 1 + round % 15, b"ACGT");
        let r = pseudo_random(&mut seed, 1 + (round * 3) % 15, b"ACGT");
        assert_eq!(global_nuc(&q, &r, 16, gaps) as i64, naive(&nw, &q, &r, gaps).0);
    }
}

#[test]
fn growing_block_matches_full_matrix_on_similar_inputs() {
    let gaps = Gaps { open: -2, extend: -1 };
    let nw = nw1();
    let mut seed = 4242u64;
    for _ in 0..10 {
        let r = pseudo_random(&mut seed, 200, b"ACGT");
        let mut q = r.clone();
        q.drain(50..60);
        q[120] = if q[120] == b'A' { b'C' } else { b'A' };
        let qp = PaddedBytes::from_bytes::<NucMatrix>(&q, 256);
        let rp = PaddedBytes::from_bytes::<NucMatrix>(&r, 256);
        let a = Block::<_, false, false>::align(&qp, &rp, &nw, gaps, 16..=256, 0);
        assert_eq!(a.res().score as i64, naive(&nw, &q, &r, gaps).0);
    }
}

#[test]
fn cigar_rescores_to_the_alignment_score() {
    let gaps = Gaps { open: -2, extend: -1 };
    let nw = nw1();
    let mut seed = 31u64;
    for round in 0..30 {
        let q = pseudo_random(&mut seed, 1 + round % 30, b"ACGT");
        let r = pseudo_random(&mut seed, 1 + (round * 11) % 33, b"ACGT");
        let qp = PaddedBytes::from_bytes::<NucMatrix>(&q, 64);
        let rp = PaddedBytes::from_bytes::<NucMatrix>(&r, 64);
        let a = Block::<_, true, false>::align(&qp, &rp, &nw, gaps, 64..=64, 0);
        let res = a.res();
        let runs = a.trace().cigar(res.query_idx, res.reference_idx).to_vec();
        let (score, i, j) = rescore(&nw, &q, &r, gaps, &runs);
        assert_eq!((i, j), (q.len(), r.len()));
        assert_eq!(score, res.score as i64);
    }
}

#[test]
fn cigar_of_the_long_scenario_rescores() {
    let gaps = Gaps { open: -2, extend: -1 };
    let nw = nw1();
    let q = b"TTTTTTTTAAAAAAATTTTTTTTT";
    let r = b"TTAAAAAAATTTTTTTTTTTT";
    let qp = PaddedBytes::from_bytes::<NucMatrix>(q, 16);
    let rp = PaddedBytes::from_bytes::<NucMatrix>(r, 16);
    let a = Block::<_, true, false>::align(&qp, &rp, &nw, gaps, 16..=16, 0);
    let cigar = a.trace().cigar(24, 21);
    assert_eq!(cigar.to_string(), "2M6I16M3D");
    assert_eq!(
        cigar.to_vec(),
        vec![
            OpLen { op: Operation::M, len: 2 },
            OpLen { op: Operation::I, len: 6 },
            OpLen { op: Operation::M, len: 16 },
            OpLen { op: Operation::D, len: 3 },
        ]
    );
    assert_eq!(rescore(&nw, q, r, gaps, &cigar.to_vec()), (7, 24, 21));
}

#[test]
fn swapping_the_sequences_keeps_the_score_and_transposes_the_cigar() {
    let gaps = Gaps { open: -2, extend: -1 };
    let nw = nw1();
    let mut seed = 2024u64;
    for round in 0..25 {
        let a = pseudo_random(&mut seed, 1 + round % 28, b"ACGT");
        let b = pseudo_random(&mut seed, 1 + (round * 13) % 30, b"ACGT");
        assert_eq!(global_nuc(&a, &b, 32, gaps), global_nuc(&b, &a, 32, gaps));
    }
    let ap = PaddedBytes::from_bytes::<NucMatrix>(b"AAAA", 16);
    let bp = PaddedBytes::from_bytes::<NucMatrix>(b"AAA", 16);
    let x = Block::<_, true, false>::align(&ap, &bp, &nw, gaps, 16..=16, 0);
    let y = Block::<_, true, false>::align(&bp, &ap, &nw, gaps, 16..=16, 0);
    assert_eq!(x.res().score, y.res().score);
    let cx = x.trace().cigar(4, 3).to_vec();
    let cy = y.trace().cigar(3, 4).to_vec();
    assert_eq!(cx.len(), cy.len());
    for (s, t) in cx.iter().zip(cy.iter()) {
        let transposed = match s.op {
            Operation::M => Operation::M,
            Operation::I => Operation::D,
            Operation::D => Operation::I,
        };
        assert_eq!(t.op, transposed);
        assert_eq!(t.len, s.len);
    }
}

#[test]
fn x_drop_without_a_threshold_finds_the_best_cell() {
    let gaps = Gaps { open: -11, extend: -1 };
    let blosum = blosum62();
    let q = b"AAAAAAAAWWWW";
    let r = b"AAAAAAAACCCC";
    let qp = PaddedBytes::from_bytes::<AAMatrix>(q, 16);
    let rp = PaddedBytes::from_bytes::<AAMatrix>(r, 16);
    let x = Block::<_, false, true>::align(&qp, &rp, &blosum, gaps, 16..=16, i32::MAX);
    let g = Block::<_, false, false>::align(&qp, &rp, &blosum, gaps, 16..=16, 0);
    let (end, best) = naive(&blosum, q, r, gaps);
    assert_eq!(g.res().score as i64, end);
    assert_eq!(x.res(), AlignResult { score: 32, query_idx: 8, reference_idx: 8 });
    assert_eq!(x.res().score as i64, best);
}

#[test]
fn x_drop_score_equals_global_when_the_end_is_best() {
    let gaps = Gaps { open: -11, extend: -1 };
    let blosum = blosum62();
    let qp = PaddedBytes::from_bytes::<AAMatrix>(b"AAAAAA", 16);
    let rp = PaddedBytes::from_bytes::<AAMatrix>(b"AAARRA", 16);
    let x = Block::<_, false, true>::align(&qp, &rp, &blosum, gaps, 16..=16, 1);
    let g = Block::<_, false, false>::align(&qp, &rp, &blosum, gaps, 16..=16, 0);
    assert!(x.res().score <= g.res().score);
    assert_eq!(x.res(), AlignResult { score: 14, query_idx: 6, reference_idx: 6 });
}

#[test]
fn scenario_one_mismatch_in_four() {
    let gaps = Gaps { open: -11, extend: -1 };
    let blosum = blosum62();
    let qp = PaddedBytes::from_bytes::<AAMatrix>(b"AARA", 16);
    let rp = PaddedBytes::from_bytes::<AAMatrix>(b"AAAA", 16);
    let a = Block::<_, true, false>::align(&qp, &rp, &blosum, gaps, 16..=16, 0);
    assert_eq!(a.res().score, 11);
    assert_eq!(a.trace().cigar(4, 4).to_string(), "4M");
}

#[test]
fn scenario_one_deletion() {
    let gaps = Gaps { open: -11, extend: -1 };
    let blosum = blosum62();
    let qp = PaddedBytes::from_bytes::<AAMatrix>(b"AAA", 16);
    let rp = PaddedBytes::from_bytes::<AAMatrix>(b"AAAA", 16);
    let a = Block::<_, true, false>::align(&qp, &rp, &blosum, gaps, 16..=16, 0);
    assert_eq!(a.res().score, 1);
    assert_eq!(a.trace().cigar(3, 4).to_string(), "3M1D");
}

#[test]
fn scenario_all_mismatches_both_ways() {
    let gaps = Gaps { open: -11, extend: -1 };
    let blosum = blosum62();
    let a4 = PaddedBytes::from_bytes::<AAMatrix>(b"AAAA", 16);
    let r4 = PaddedBytes::from_bytes::<AAMatrix>(b"RRRR", 16);
    let x = Block::<_, false, false>::align(&a4, &r4, &blosum, gaps, 16..=16, 0);
    assert_eq!(x.res().score, -4);
    let y = Block::<_, false, false>::align(&r4, &a4, &blosum, gaps, 16..=16, 0);
    assert_eq!(y.res().score, -4);
}

#[test]
fn empty_sequences() {
    let gaps = Gaps { open: -2, extend: -1 };
    let nw = nw1();
    let e = PaddedBytes::from_bytes::<NucMatrix>(b"", 16);
    let s = PaddedBytes::from_bytes::<NucMatrix>(b"ACG", 16);
    let a = Block::<_, true, false>::align(&e, &e, &nw, gaps, 16..=16, 0);
    assert_eq!(a.res(), AlignResult { score: 0, query_idx: 0, reference_idx: 0 });
    assert_eq!(a.trace().cigar(0, 0).to_string(), "");
    let a = Block::<_, true, false>::align(&e, &s, &nw, gaps, 16..=16, 0);
    assert_eq!(a.res().score, -4);
    assert_eq!(a.trace().cigar(0, 3).to_string(), "3D");
    let a = Block::<_, true, false>::align(&s, &e, &nw, gaps, 16..=16, 0);
    assert_eq!(a.res().score, -4);
    assert_eq!(a.trace().cigar(3, 0).to_string(), "3I");
}

#[test]
fn sizes_below_a_vector_are_raised() {
    let gaps = Gaps { open: -2, extend: -1 };
    let nw = nw1();
    let q = PaddedBytes::from_bytes::<NucMatrix>(b"ACGTACGT", 16);
    let r = PaddedBytes::from_bytes::<NucMatrix>(b"ACGTTCGT", 16);
    let a = Block::<_, false, false>::align(&q, &r, &nw, gaps, 1..=8, 0);
    assert_eq!(a.res().score, 6);
}

#[test]
fn byte_matrix_is_case_sensitive() {
    let gaps = Gaps { open: -2, extend: -1 };
    let bytes = bytes1();
    assert_eq!(bytes.get_score(b'a', b'a'), 1);
    assert_eq!(bytes.get_score(b'a', b'A'), -1);
    let q = PaddedBytes::from_str::<ByteMatrix>("abc", 16);
    let r = PaddedBytes::from_string::<ByteMatrix>(String::from("abc"), 16);
    let a = Block::<_, false, false>::align(&q, &r, &bytes, gaps, 16..=16, 0);
    assert_eq!(a.res().score, 3);
}

#[test]
fn padded_bytes_layout() {
    let p = PaddedBytes::from_bytes::<NucMatrix>(b"acgT", 3);
    assert_eq!(p.len(), 4);
    assert_eq!(p.padded_len(), 8);
    let null = NucMatrix::convert_char(NucMatrix::null());
    assert_eq!(p.get(0), null);
    assert_eq!(p.get(1), 0);
    assert_eq!(p.get(2), 2);
    assert_eq!(p.get(3), 6);
    assert_eq!(p.get(4), 19);
    assert_eq!(p.get(5), null);
    assert_eq!(p.get(7), null);
    let s = PaddedBytes::from_str::<NucMatrix>("acgT", 3);
    assert_eq!(s, p);
    let t = PaddedBytes::from_string::<NucMatrix>(String::from("acgT"), 3);
    assert_eq!(t, p);
    let mut u = p.clone();
    u.set(2, 0);
    assert_eq!(u.get(2), 0);
    assert_eq!(u.len(), 4);
}

#[test]
fn score_tables() {
    let blosum = blosum62();
    let a = AAMatrix::convert_char(b'A');
    let r = AAMatrix::convert_char(b'r');
    let w = AAMatrix::convert_char(b'W');
    let null = AAMatrix::convert_char(AAMatrix::null());
    assert_eq!(blosum.get_score(a, a), 4);
    assert_eq!(blosum.get_score(r, r), 5);
    assert_eq!(blosum.get_score(a, r), -1);
    assert_eq!(blosum.get_score(w, w), 11);
    assert_eq!(blosum.get_score(a, null), -128);
    let nuc = NucMatrix::new_simple(2, -3);
    let c = NucMatrix::convert_char(b'C');
    let g = NucMatrix::convert_char(b'g');
    assert_eq!(nuc.get_score(c, c), 2);
    assert_eq!(nuc.get_score(c, g), -3);
    assert!(AAMatrix::allows_x_drop());
    assert!(!ByteMatrix::allows_x_drop());
}

#[test]
fn best_score_never_falls() {
    assert_eq!(next_best(5, 3), 5);
    assert_eq!(next_best(5, 9), 9);
    assert_eq!(next_best(0, -7), 0);
    let mut best = 0;
    for v in [3, -2, 8, 8, 1, 12, -40] {
        let next = next_best(best, v);
        assert!(next >= best);
        best = next;
    }
    assert_eq!(best, 12);
}

#[test]
fn trace_checkpoint_behaves_as_a_stack() {
    let mut t = Trace::new(10, 10);
    t.add_block(0, 0, 16, 16, true);
    for k in 0..16 {
        t.add_trace(k);
    }
    t.save_ckpt();
    let saved_blocks = t.blocks();
    t.add_block(0, 8, 8, 16, true);
    t.add_trace(99);
    t.add_trace_idx(7);
    t.add_block(8, 0, 16, 8, false);
    assert_eq!(t.blocks().len(), 3);
    t.restore_ckpt();
    assert_eq!(t.blocks(), saved_blocks);
    assert_eq!(t.blocks(), vec![Rectangle { row: 0, col: 0, width: 16, height: 16 }]);
    t.add_block(4, 4, 16, 16, false);
    assert_eq!(t.blocks().len(), 2);
    t.restore_ckpt();
    assert_eq!(t.blocks().len(), 1);
}

#[test]
fn blocks_of_a_growing_alignment() {
    let gaps = Gaps { open: -11, extend: -1 };
    let blosum = blosum62();
    let q = PaddedBytes::from_bytes::<AAMatrix>(b"AAAAAAAAAAAAAAAAAAAAAAAAAAAAAAAAAAAAAAAA", 32);
    let r = PaddedBytes::from_bytes::<AAMatrix>(b"AAAAAAAAAAAAAAAAAAAAAAAAAAAAAAAAAAAAAAAA", 32);
    let a = Block::<_, true, false>::align(&q, &r, &blosum, gaps, 16..=32, 0);
    assert_eq!(a.res().score, 160);
    let blocks = a.trace().blocks();
    assert_eq!(blocks[0], Rectangle { row: 0, col: 0, width: 0, height: 16 });
    assert_eq!(blocks[1], Rectangle { row: 0, col: 0, width: 16, height: 16 });
    assert_eq!(a.trace().cigar(40, 40).to_string(), "40M");
}

#[test]
fn moves_of_the_control_loop() {
    // both ends covered
    assert_eq!(next_move(10, 10, 16, 20, 20, 64, 8, 0, false, 0, 0), Move::Stop);
    // only the reference end covered: go down
    assert_eq!(next_move(0, 10, 16, 40, 20, 64, 8, 0, false, 5, 0), Move::Down);
    // only the query end covered: go right
    assert_eq!(next_move(30, 0, 16, 40, 40, 64, 8, 0, false, 0, 5), Move::Right);
    // no new best for more than block_size / step - 1 steps: grow
    assert_eq!(next_move(0, 0, 16, 100, 100, 64, 8, 2, false, 0, 0), Move::Grow);
    assert_eq!(next_move(0, 0, 16, 100, 100, 64, 8, 1, false, 0, 0), Move::Right);
    // a grow that found no new best grows again, unless at the largest size
    assert_eq!(next_move(0, 0, 16, 100, 100, 64, 8, 0, true, 0, 0), Move::Grow);
    assert_eq!(next_move(0, 0, 64, 100, 100, 64, 8, 9, true, 0, 0), Move::Right);
    // otherwise towards the higher border, right on a tie
    assert_eq!(next_move(0, 0, 16, 100, 100, 16, 8, 0, false, 3, 4), Move::Down);
    assert_eq!(next_move(0, 0, 16, 100, 100, 16, 8, 0, false, 4, 4), Move::Right);
}

#[test]
fn x_drop_needs_two_bad_steps_in_a_row() {
    assert_eq!(next_x_drop_iter(10, 20, 5, 0), Some(1));
    assert_eq!(next_x_drop_iter(10, 20, 5, 1), None);
    assert_eq!(next_x_drop_iter(15, 20, 5, 1), Some(0));
    assert_eq!(next_x_drop_iter(30, 20, 0, 1), Some(0));
}

#[test]
fn sliding_block_of_sixteen_matches_full_matrix_on_similar_inputs() {
    let gaps = Gaps { open: -2, extend: -1 };
    let nw = nw1();
    let mut seed = 777u64;
    for round in 0..20 {
        let r = pseudo_random(&mut seed, 40 + round * 3, b"ACGT");
        let mut q = r.clone();
        let k = 5 + round % 20;
        q[k] = if q[k] == b'G' { b'T' } else { b'G' };
        q.remove(20 + round % 10);
        assert_eq!(global_nuc(&q, &r, 16, gaps) as i64, naive(&nw, &q, &r, gaps).0);
    }
}
