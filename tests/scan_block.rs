use block_aligner::padded::PaddedBytes;
use block_aligner::scan_block::{AlignResult, Block};
use block_aligner::scores::{blosum62, bytes1, nw1, AAMatrix, ByteMatrix, Gaps, NucMatrix};

#[test]
fn test_no_x_drop() {
    let test_gaps = Gaps { open: -11, extend: -1 };
    let blosum = blosum62();

    let r = PaddedBytes::from_bytes::<AAMatrix>(b"AAAA", 16);
    let q = PaddedBytes::from_bytes::<AAMatrix>(b"AARA", 16);
    let a = Block::<_, false, false>::align(&q, &r, &blosum, test_gaps, 16..=16, 0);
    assert_eq!(a.res().score, 11);

    let r = PaddedBytes::from_bytes::<AAMatrix>(b"AAAA", 16);
    let q = PaddedBytes::from_bytes::<AAMatrix>(b"AAAA", 16);
    let a = Block::<_, false, false>::align(&q, &r, &blosum, test_gaps, 16..=16, 0);
    assert_eq!(a.res().score, 16);

    let r = PaddedBytes::from_bytes::<AAMatrix>(b"AAAA", 16);
    let q = PaddedBytes::from_bytes::<AAMatrix>(b"AARA", 16);
    let a = Block::<_, false, false>::align(&q, &r, &blosum, test_gaps, 16..=16, 0);
    assert_eq!(a.res().score, 11);

    let r = PaddedBytes::from_bytes::<AAMatrix>(b"AAAA", 16);
    let q = PaddedBytes::from_bytes::<AAMatrix>(b"RRRR", 16);
    let a = Block::<_, false, false>::align(&q, &r, &blosum, test_gaps, 16..=16, 0);
    assert_eq!(a.res().score, -4);

    let r = PaddedBytes::from_bytes::<AAMatrix>(b"AAAA", 16);
    let q = PaddedBytes::from_bytes::<AAMatrix>(b"AAA", 16);
    let a = Block::<_, false, false>::align(&q, &r, &blosum, test_gaps, 16..=16, 0);
    assert_eq!(a.res().score, 1);

    let test_gaps2 = Gaps { open: -2, extend: -1 };
    let nw = nw1();

    let r = PaddedBytes::from_bytes::<NucMatrix>(b"AAAN", 16);
    let q = PaddedBytes::from_bytes::<NucMatrix>(b"ATAA", 16);
    let a = Block::<_, false, false>::align(&q, &r, &nw, test_gaps2, 16..=16, 0);
    assert_eq!(a.res().score, 0);

    let r = PaddedBytes::from_bytes::<NucMatrix>(b"AAAAAAAAAAAAAAAAAAAAAAAAAAAAAAAA", 16);
    let q = PaddedBytes::from_bytes::<NucMatrix>(b"AAAAAAAAAAAAAAAAAAAAAAAAAAAAAAAA", 16);
    let a = Block::<_, false, false>::align(&q, &r, &nw, test_gaps2, 16..=16, 0);
    assert_eq!(a.res().score, 32);

    let r = PaddedBytes::from_bytes::<NucMatrix>(b"AAAAAAAAAAAAAAAAAAAAAAAAAAAAAAAA", 16);
    let q = PaddedBytes::from_bytes::<NucMatrix>(b"TTTTTTTTTTTTTTTTTTTTTTTTTTTTTTTT", 16);
    let a = Block::<_, false, false>::align(&q, &r, &nw, test_gaps2, 16..=16, 0);
    assert_eq!(a.res().score, -32);

    let r = PaddedBytes::from_bytes::<NucMatrix>(b"AAAAAAAAAAAAAAAAAAAAAAAAAAAAAAAA", 16);
    let q = PaddedBytes::from_bytes::<NucMatrix>(b"TATATATATATATATATATATATATATATATA", 16);
    let a = Block::<_, false, false>::align(&q, &r, &nw, test_gaps2, 16..=16, 0);
    assert_eq!(a.res().score, 0);

    let r = PaddedBytes::from_bytes::<NucMatrix>(b"TTAAAAAAATTTTTTTTTTTT", 16);
    let q = PaddedBytes::from_bytes::<NucMatrix>(b"TTTTTTTTAAAAAAATTTTTTTTT", 16);
    let a = Block::<_, false, false>::align(&q, &r, &nw, test_gaps2, 16..=16, 0);
    assert_eq!(a.res().score, 7);

    let r = PaddedBytes::from_bytes::<NucMatrix>(b"AAAA", 16);
    let q = PaddedBytes::from_bytes::<NucMatrix>(b"C", 16);
    let a = Block::<_, false, false>::align(&q, &r, &nw, test_gaps2, 16..=16, 0);
    assert_eq!(a.res().score, -5);
    let a = Block::<_, false, false>::align(&r, &q, &nw, test_gaps2, 16..=16, 0);
    assert_eq!(a.res().score, -5);
}

#[test]
fn test_x_drop() {
    let test_gaps = Gaps { open: -11, extend: -1 };
    let blosum = blosum62();

    let r = PaddedBytes::from_bytes::<AAMatrix>(b"AAARRA", 16);
    let q = PaddedBytes::from_bytes::<AAMatrix>(b"AAAAAA", 16);
    let a = Block::<_, false, true>::align(&q, &r, &blosum, test_gaps, 16..=16, 1);
    assert_eq!(a.res(), AlignResult { score: 14, query_idx: 6, reference_idx: 6 });

    let r = PaddedBytes::from_bytes::<AAMatrix>(b"AAAAAAAAAAAAAAARRRRRRRRRRRRRRRRAAAAAAAAAAAAA", 16);
    let q = PaddedBytes::from_bytes::<AAMatrix>(b"AAAAAAAAAAAAAAAAAAAAAAAAAAAAAAAAAAAAAAAAAAAA", 16);
    let a = Block::<_, false, true>::align(&q, &r, &blosum, test_gaps, 16..=16, 1);
    assert_eq!(a.res(), AlignResult { score: 60, query_idx: 15, reference_idx: 15 });
}

#[test]
fn test_trace() {
    let test_gaps = Gaps { open: -11, extend: -1 };
    let blosum = blosum62();

    let r = PaddedBytes::from_bytes::<AAMatrix>(b"AAARRA", 16);
    let q = PaddedBytes::from_bytes::<AAMatrix>(b"AAAAAA", 16);
    let a = Block::<_, true, false>::align(&q, &r, &blosum, test_gaps, 16..=16, 0);
    let res = a.res();
    assert_eq!(res, AlignResult { score: 14, query_idx: 6, reference_idx: 6 });
    assert_eq!(a.trace().cigar(res.query_idx, res.reference_idx).to_string(), "6M");

    let r = PaddedBytes::from_bytes::<AAMatrix>(b"AAAA", 16);
    let q = PaddedBytes::from_bytes::<AAMatrix>(b"AAA", 16);
    let a = Block::<_, true, false>::align(&q, &r, &blosum, test_gaps, 16..=16, 0);
    let res = a.res();
    assert_eq!(res, AlignResult { score: 1, query_idx: 3, reference_idx: 4 });
    assert_eq!(a.trace().cigar(res.query_idx, res.reference_idx).to_string(), "3M1D");

    let test_gaps2 = Gaps { open: -2, extend: -1 };
    let nw = nw1();

    let r = PaddedBytes::from_bytes::<NucMatrix>(b"TTAAAAAAATTTTTTTTTTTT", 16);
    let q = PaddedBytes::from_bytes::<NucMatrix>(b"TTTTTTTTAAAAAAATTTTTTTTT", 16);
    let a = Block::<_, true, false>::align(&q, &r, &nw, test_gaps2, 16..=16, 0);
    let res = a.res();
    assert_eq!(res, AlignResult { score: 7, query_idx: 24, reference_idx: 21 });
    assert_eq!(a.trace().cigar(res.query_idx, res.reference_idx).to_string(), "2M6I16M3D");
}

#[test]
fn test_bytes() {
    let test_gaps = Gaps { open: -2, extend: -1 };
    let bytes = bytes1();

    let r = PaddedBytes::from_bytes::<ByteMatrix>(b"AAAaaA", 16);
    let q = PaddedBytes::from_bytes::<ByteMatrix>(b"AAAAAA", 16);
    let a = Block::<_, false, false>::align(&q, &r, &bytes, test_gaps, 16..=16, 0);
    assert_eq!(a.res().score, 2);

    let r = PaddedBytes::from_bytes::<ByteMatrix>(b"abcdefg", 16);
    let q = PaddedBytes::from_bytes::<ByteMatrix>(b"abdefg", 16);
    let a = Block::<_, false, false>::align(&q, &r, &bytes, test_gaps, 16..=16, 0);
    assert_eq!(a.res().score, 4);
}
