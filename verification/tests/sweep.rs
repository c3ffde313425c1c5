use hessenberg_qr::array::FortranArray;
use hessenberg_qr::sweep::{clear_corner, neighbours, pair_shifts, strip_len, Sweep, Target};

fn vector(values: &[f64]) -> FortranArray {
    FortranArray::vector(&values.iter().map(|x| x.to_bits()).collect::<Vec<u64>>())
}

fn reals(a: &FortranArray) -> Vec<f64> {
    a.clone().to_vec().iter().map(|x| f64::from_bits(*x)).collect()
}

#[test]
fn nothing_is_planned_without_shifts_or_rows() {
    assert!(Sweep::plan(true, true, 1, 4, 1, 3, 1).is_none());
    assert!(Sweep::plan(true, true, 1, 4, 1, 3, 0).is_none());
    assert!(Sweep::plan(true, true, 1, 4, 1, 3, -4).is_none());
    assert!(Sweep::plan(true, true, 1, 4, 3, 3, 2).is_none());
    assert!(Sweep::plan(true, true, 1, 4, 4, 3, 2).is_none());
    assert!(Sweep::plan(true, true, 1, 4, 1, 3, 2).is_some());
}

#[test]
fn a_plan_counts_the_bulges() {
    let s = Sweep::plan(true, false, 2, 10, 1, 10, 7).unwrap();
    assert_eq!(s.nbmps, 3);
    assert_eq!(s.gathered_order(), 12);
    assert!(s.accum);
    assert!(s.wantt);
    assert!(!s.wantz);
    assert!(Sweep::plan(true, false, 1, 10, 1, 10, 2).unwrap().accum);
    assert!(!Sweep::plan(true, false, 0, 10, 1, 10, 2).unwrap().accum);
    assert!(!Sweep::plan(true, false, 3, 10, 1, 10, 2).unwrap().accum);
}

#[test]
fn one_bulge_in_a_window_of_three_rows() {
    let s = Sweep::plan(true, true, 1, 4, 1, 3, 2).unwrap();
    assert_eq!((s.nbmps, s.gathered_order()), (1, 4));
    let b = s.first_block();
    assert_eq!((b.incol, b.last, b.jtop, b.ndcol, b.k1, b.nu), (0, 1, 1, 4, 1, 3));
    assert_eq!((b.first_row, b.right_from, b.right_to, b.above_from, b.above_to), (1, 4, 4, 1, 0));
    let c0 = s.column(&b, 0);
    assert_eq!((c0.mtop, c0.mbot, c0.m22, c0.bmp22, c0.jbot), (1, 1, 2, false, 3));
    let first = s.bulge(&b, 0, 1);
    assert_eq!((first.m, first.first_shift, first.k, first.order), (1, 1, 0, 3));
    assert_eq!((first.fresh, first.vigilant), (true, false));
    assert_eq!((first.right_last, first.left_first, first.kms), (3, 2, 0));
    assert_eq!((first.gather_first, first.gather_last), (1, 4));
    let c1 = s.column(&b, 1);
    assert_eq!((c1.mtop, c1.mbot, c1.m22, c1.bmp22), (1, 0, 1, true));
    let small = s.small_bulge(&b, 1);
    assert_eq!((small.m, small.first_shift, small.k, small.order), (1, 1, 1, 2));
    assert_eq!((small.fresh, small.vigilant), (false, true));
    assert_eq!((small.right_last, small.left_first, small.kms), (3, 2, 1));
    assert_eq!((small.gather_first, small.gather_last), (1, 4));
    assert!(s.next_block(&b).is_none());
}

#[test]
fn the_window_of_two_rows_has_a_small_bulge_only() {
    let s = Sweep::plan(true, true, 1, 3, 2, 3, 2).unwrap();
    let b = s.first_block();
    assert_eq!((b.incol, b.last, b.jtop, b.ndcol, b.k1, b.nu), (1, 1, 2, 5, 1, 2));
    assert_eq!((b.first_row, b.right_from, b.right_to, b.above_from, b.above_to), (2, 4, 3, 1, 1));
    let c = s.column(&b, 1);
    assert_eq!((c.mtop, c.mbot, c.m22, c.bmp22, c.jbot), (1, 0, 1, true, 3));
    let small = s.small_bulge(&b, 1);
    assert_eq!((small.m, small.k, small.order, small.fresh, small.vigilant), (1, 1, 2, true, false));
    assert_eq!((small.right_last, small.left_first, small.kms), (3, 2, 0));
    assert!(s.next_block(&b).is_none());
}

#[test]
fn blocks_follow_each_other_through_the_window() {
    let s = Sweep::plan(false, false, 0, 20, 3, 17, 4).unwrap();
    assert_eq!(s.nbmps, 2);
    let mut block = s.first_block();
    assert_eq!((block.incol, block.last, block.jtop), (0, 3, 3));
    let mut seen: Vec<i32> = Vec::new();
    let mut visits: Vec<(i32, i32)> = Vec::new();
    loop {
        for krcol in block.incol..=block.last {
            seen.push(krcol);
            let c = s.column(&block, krcol);
            assert_eq!(c.jbot, 17);
            assert_eq!(c.m22, c.mbot + 1);
            for m in c.mtop..=c.mbot {
                let b = s.bulge(&block, krcol, m);
                assert!(2 <= b.k && b.k + 3 <= 17);
                assert_eq!(b.k, krcol + 2 * (m - 1));
                assert_eq!(b.fresh, b.k == 2);
                assert_eq!(b.vigilant, b.k >= 3);
                assert_eq!(b.right_last, b.k + 3);
                assert_eq!(b.left_first, 3.max(b.k + 2));
                assert_eq!((b.first_shift, b.order), (2 * m - 1, 3));
                visits.push((m, b.k));
            }
            if c.bmp22 {
                let b = s.small_bulge(&block, krcol);
                assert_eq!((b.m, b.k, b.order, b.right_last, b.left_first), (c.m22, 15, 2, 17, 16));
            }
        }
        match s.next_block(&block) {
            Some(next) => {
                assert_eq!(next.incol, block.last + 1);
                block = next;
            }
            None => break,
        }
    }
    assert_eq!(seen, (0..=15).collect::<Vec<i32>>());
    for m in 1..=2 {
        for k in 2..=14 {
            assert_eq!(visits.iter().filter(|v| **v == (m, k)).count(), 1, "{m} {k}");
        }
    }
    assert_eq!(visits.len(), 26);
}

#[test]
fn gathered_reflections_fit_their_matrix() {
    let s = Sweep::plan(true, true, 1, 30, 5, 25, 6).unwrap();
    assert_eq!((s.nbmps, s.gathered_order()), (3, 12));
    let mut block = s.first_block();
    loop {
        assert_eq!(block.ndcol, block.incol + 12);
        assert_eq!(block.jtop, block.incol.max(5));
        assert!(1 <= block.k1 && block.k1 + block.nu - 1 <= 12);
        assert_eq!(block.incol + block.k1 + block.nu - 1, block.ndcol.min(25));
        assert_eq!(block.first_row, block.incol + block.k1);
        assert_eq!(block.right_from, block.ndcol.min(25) + 1);
        assert_eq!((block.right_to, block.above_from), (30, 1));
        assert_eq!(block.above_to, block.incol.max(5) - 1);
        for krcol in block.incol..=block.last {
            let c = s.column(&block, krcol);
            assert_eq!(c.jbot, block.ndcol.min(25));
            for m in c.mtop..=c.mbot {
                let b = s.bulge(&block, krcol, m);
                let kms = b.k - block.incol;
                assert_eq!(b.kms, kms);
                assert!(kms + 1 >= 1 && kms + 3 <= 12);
                let (lo, hi) = (b.gather_first, b.gather_last);
                assert!(1 <= lo && hi <= 12);
                assert_eq!(lo, 1.max(5 - block.incol).max(kms - (krcol - block.incol) + 1));
                assert_eq!(hi, 12.min(krcol + 2 * (c.mbot - 1) - block.incol + 5));
            }
            if c.bmp22 {
                let b = s.small_bulge(&block, krcol);
                assert_eq!((b.gather_first, b.gather_last), (1.max(5 - block.incol), 12));
                assert!(b.kms + 2 <= 12);
            }
        }
        match s.next_block(&block) {
            Some(next) => block = next,
            None => break,
        }
    }
    assert_eq!(block.last, 23);
}

#[test]
fn reflections_go_to_the_matrix_that_is_wanted() {
    for wantz in [false, true] {
        for kacc22 in 0..=3 {
            let s = Sweep::plan(true, wantz, kacc22, 8, 1, 8, 4).unwrap();
            let gathers = kacc22 == 1 || kacc22 == 2;
            let expected = if gathers {
                Target::Gathered
            } else if wantz {
                Target::Accumulator
            } else {
                Target::Neither
            };
            assert_eq!(s.target_of(), expected);
            let b = s.first_block();
            assert_eq!((b.gathers, b.into_z), (gathers, gathers && wantz));
            let bulge = s.bulge(&b, b.incol, s.column(&b, b.incol).mtop);
            assert_eq!(bulge.target, expected);
        }
    }
}

#[test]
fn nothing_to_do_needs_no_valid_window() {
    assert!(Sweep::plan(true, true, 1, 4, -7, 3, 1).is_none());
    assert!(Sweep::plan(true, true, 1, 4, 0, 0, 2).is_none());
    assert!(Sweep::plan(true, true, 1, 4, i32::MAX, i32::MAX, i32::MAX).is_none());
    assert!(Sweep::plan(true, true, 1, 4, 1, i32::MAX, 1).is_none());
    assert!(Sweep::plan(true, true, 1, 4, i32::MIN, i32::MAX, i32::MIN).is_none());
}

#[test]
fn strips_cut_a_range() {
    assert_eq!(strip_len(3, 10, 1), 3);
    assert_eq!(strip_len(3, 10, 8), 3);
    assert_eq!(strip_len(3, 10, 9), 2);
    assert_eq!(strip_len(3, 10, 10), 1);
    assert_eq!(strip_len(i32::MAX, i32::MAX, i32::MIN), i32::MAX);
}

#[test]
fn neighbours_stay_in_the_window() {
    let n = neighbours(3, 10, 3);
    assert_eq!((n.left, n.below), (0, 3));
    let n = neighbours(3, 10, 5);
    assert_eq!((n.left, n.below), (2, 3));
    let n = neighbours(3, 10, 6);
    assert_eq!((n.left, n.below), (3, 3));
    let n = neighbours(3, 10, 7);
    assert_eq!((n.left, n.below), (3, 2));
    let n = neighbours(3, 10, 9);
    assert_eq!((n.left, n.below), (3, 0));
    let n = neighbours(3, 10, 2);
    assert_eq!((n.left, n.below), (0, 3));
}

#[test]
fn shifts_are_put_in_pairs() {
    // real, then a conjugate pair, then real: the single real shift moves behind the pair
    let mut sr = vector(&[1., 2., 2., 3.]);
    let mut si = vector(&[0., 5., -5., 0.]);
    pair_shifts(4, &mut sr, &mut si);
    assert_eq!(reals(&sr), vec![2., 2., 1., 3.]);
    assert_eq!(reals(&si), vec![5., -5., 0., 0.]);

    // pairs that are in order stay
    let mut sr = vector(&[2., 2., 1., 3., 4., 4.]);
    let mut si = vector(&[5., -5., 0., 0., 1., -1.]);
    pair_shifts(6, &mut sr, &mut si);
    assert_eq!(reals(&sr), vec![2., 2., 1., 3., 4., 4.]);
    assert_eq!(reals(&si), vec![5., -5., 0., 0., 1., -1.]);

    // real shifts stay where they are
    let mut sr = vector(&[1., 2., 3.]);
    let mut si = vector(&[0., 0., 0.]);
    pair_shifts(3, &mut sr, &mut si);
    assert_eq!(reals(&sr), vec![1., 2., 3.]);
    assert_eq!(reals(&si), vec![0., 0., 0.]);

    // two shifts are one pair: nothing to reorder
    let mut sr = vector(&[1., 2.]);
    let mut si = vector(&[3., 4.]);
    pair_shifts(2, &mut sr, &mut si);
    assert_eq!(reals(&sr), vec![1., 2.]);
    assert_eq!(reals(&si), vec![3., 4.]);

    // two displaced pairs in a row
    let mut sr = vector(&[1., 2., 2., 3., 3., 4.]);
    let mut si = vector(&[0., 5., -5., 6., -6., 0.]);
    pair_shifts(6, &mut sr, &mut si);
    assert_eq!(reals(&sr), vec![2., 2., 3., 3., 1., 4.]);
    assert_eq!(reals(&si), vec![5., -5., 6., -6., 0., 0.]);
}

#[test]
fn the_corner_below_the_subdiagonal_is_cleared() {
    let mut h = FortranArray::matrix(&[1.0f64; 16].map(|x| x.to_bits()), 4, 4);
    clear_corner(&mut h, 2, 4);
    let mut expected = vec![1.0; 16];
    expected[7] = 0.0;
    assert_eq!(reals(&h), expected);
    clear_corner(&mut h, 3, 4);
    assert_eq!(reals(&h), expected);
    clear_corner(&mut h, i32::MAX, i32::MAX);
    assert_eq!(reals(&h), expected);
}
