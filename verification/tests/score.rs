use rusty_engine::score::Score;
use std::cmp::Ordering;

fn samples() -> Vec<Score> {
    vec![
        Score::new_mate(-3, false),
        Score::new_mate(-1, false),
        Score::new_mate(0, false),
        Score::new_eval(i32::MIN),
        Score::new_eval(-250),
        Score::new_eval(0),
        Score::new_eval(17),
        Score::new_eval(i32::MAX),
        Score::new_mate(0, true),
        Score::new_mate(1, true),
        Score::new_mate(4, true),
    ]
}

#[test]
fn constructors_keep_their_arguments() {
    let n = Score::new_eval(-42);
    assert!(!n.is_mate());
    assert!(!n.white_wins());
    assert_eq!(n.eval(), -42);
    assert_eq!(n.ply(), 0);
    let w = Score::new_mate(3, true);
    assert!(w.is_mate());
    assert!(w.white_wins());
    assert_eq!(w.eval(), 0);
    assert_eq!(w.ply(), 3);
    let b = Score::new_mate(-2, false);
    assert!(b.is_mate());
    assert!(!b.white_wins());
    assert_eq!(b.ply(), -2);
}

#[test]
fn default_is_numeric_zero() {
    assert!(Score::default() == Score::new_eval(0));
}

#[test]
fn equality_by_variant_and_value() {
    assert!(Score::new_eval(5) == Score::new_eval(5));
    assert!(Score::new_eval(5) != Score::new_eval(6));
    assert!(Score::new_mate(2, true) == Score::new_mate(2, true));
    assert!(Score::new_mate(2, true) != Score::new_mate(3, true));
    assert!(Score::new_mate(2, true) != Score::new_mate(2, false));
    assert!(Score::new_mate(0, true) != Score::new_eval(0));
    assert!(Score::new_mate(0, false) != Score::new_eval(0));
}

#[test]
fn order_is_total() {
    let all = samples();
    for (i, a) in all.iter().enumerate() {
        for (j, b) in all.iter().enumerate() {
            let less = a < b;
            let equal = a == b;
            let greater = a > b;
            assert_eq!(less as u8 + equal as u8 + greater as u8, 1);
            assert_eq!(less, i < j);
            assert_eq!(equal, i == j);
            assert_eq!(a.partial_cmp(b), Some(i.cmp(&j)));
            assert_eq!(a <= b, i <= j);
            assert_eq!(a >= b, i >= j);
        }
    }
}

#[test]
fn order_is_transitive() {
    let all = samples();
    for a in all.iter() {
        for b in all.iter() {
            for c in all.iter() {
                if a < b && b < c {
                    assert!(a < c);
                }
            }
        }
    }
}

#[test]
fn mate_dominates_numbers() {
    for value in [i32::MIN, -20000, 0, 20000, i32::MAX] {
        for ply in [-5, 0, 5] {
            assert!(Score::new_mate(ply, true) > Score::new_eval(value));
            assert!(Score::new_eval(value) < Score::new_mate(ply, true));
            assert!(Score::new_mate(ply, false) < Score::new_eval(value));
            assert!(Score::new_eval(value) > Score::new_mate(ply, false));
        }
    }
}

#[test]
fn white_mate_beats_black_mate() {
    assert!(Score::new_mate(0, true) > Score::new_mate(0, false));
    assert!(Score::new_mate(-9, true) > Score::new_mate(9, false));
    assert_eq!(
        Score::new_mate(9, false).partial_cmp(&Score::new_mate(-9, true)),
        Some(Ordering::Less)
    );
}

#[test]
fn same_side_mates_go_by_ply() {
    assert!(Score::new_mate(1, true) < Score::new_mate(2, true));
    assert!(Score::new_mate(-2, false) < Score::new_mate(-1, false));
    assert_eq!(
        Score::new_mate(3, true).partial_cmp(&Score::new_mate(3, true)),
        Some(Ordering::Equal)
    );
}

#[test]
fn deepen_moves_a_mate_one_ply_away() {
    assert!(Score::new_mate(0, true).deepen() == Score::new_mate(1, true));
    assert!(Score::new_mate(0, false).deepen() == Score::new_mate(-1, false));
    assert!(Score::new_mate(-4, false).deepen() == Score::new_mate(-5, false));
    assert!(Score::new_eval(33).deepen() == Score::new_eval(33));
}
