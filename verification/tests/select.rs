use chess_players::position::Side;
use chess_players::select::{is_better, pick_best};

#[test]
fn white_takes_the_highest_score() {
    assert_eq!(pick_best(Side::White, &vec![3, 7, 1]), 1);
    assert_eq!(pick_best(Side::White, &vec![-5]), 0);
    assert_eq!(pick_best(Side::White, &vec![i32::MIN, i32::MAX, 0]), 1);
}

#[test]
fn black_takes_the_lowest_score() {
    assert_eq!(pick_best(Side::Black, &vec![3, 7, 1]), 2);
    assert_eq!(pick_best(Side::Black, &vec![i32::MAX, 0, i32::MIN]), 2);
}

#[test]
fn a_tie_keeps_the_earlier_candidate() {
    assert_eq!(pick_best(Side::White, &vec![3, 7, 7, 1]), 1);
    assert_eq!(pick_best(Side::Black, &vec![3, 1, 7, 1]), 1);
    assert_eq!(pick_best(Side::White, &vec![20; 20]), 0);
    assert_eq!(pick_best(Side::Black, &vec![20; 20]), 0);
}

#[test]
fn better_is_strict() {
    assert!(is_better(Side::White, 2, 1));
    assert!(!is_better(Side::White, 1, 1));
    assert!(!is_better(Side::White, 1, 2));
    assert!(is_better(Side::Black, 1, 2));
    assert!(!is_better(Side::Black, 1, 1));
    assert!(!is_better(Side::Black, 2, 1));
}
