use block_aligner::lanes::{adds, clamp, div_ceil, get_gap_extend_all, simd_prefix_scan_i16, subs};

#[test]
fn test_prefix_scan() {
    let vec = [0, 1, 2, 3, 4, 5, 6, 7, 8, 9, 10, 15, 12, 13, 14, 11];
    let res = simd_prefix_scan_i16(vec, 0);
    assert_eq!(res, [0, 1, 2, 3, 4, 5, 6, 7, 8, 9, 10, 15, 15, 15, 15, 15]);

    let vec = [0, 1, 2, 3, 4, 5, 6, 7, 8, 9, 10, 15, 12, 13, 14, 11];
    let res = simd_prefix_scan_i16(vec, -1);
    assert_eq!(res, [0, 1, 2, 3, 4, 5, 6, 7, 8, 9, 10, 15, 14, 13, 14, 13]);
}

#[test]
fn prefix_scan_restarts_each_half_from_the_sentinel() {
    let vec = [-100, -100, -100, -100, -100, -100, -100, -100, -100, -100, -100, -100, -100, -100, -100, -100];
    let res = simd_prefix_scan_i16(vec, -1);
    assert_eq!(res, [-1, -2, -3, -4, -5, -6, -7, -8, -1, -2, -3, -4, -5, -6, -7, -8]);
}

#[test]
fn gap_extend_all_holds_multiples() {
    let g = get_gap_extend_all(-3);
    for l in 0..16 {
        assert_eq!(g[l], -3 * (l as i16 + 1));
    }
}

#[test]
fn saturating_cells() {
    assert_eq!(adds(32000, 1000), i16::MAX);
    assert_eq!(adds(-32000, -1000), i16::MIN);
    assert_eq!(adds(5, -7), -2);
    assert_eq!(subs(-32000, 1000), i16::MIN);
    assert_eq!(subs(100, 16384), -16284);
    assert_eq!(clamp(70000), i16::MAX);
    assert_eq!(clamp(-70000), i16::MIN);
    assert_eq!(clamp(-5), -5);
    assert_eq!(div_ceil(17, 16), 2);
    assert_eq!(div_ceil(16, 16), 1);
    assert_eq!(div_ceil(0, 64), 0);
}
