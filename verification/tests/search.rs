use rusty_engine::driver::best_move;
use rusty_engine::eval::{evaluation_middlegame, Status};
use rusty_engine::rules::{Move, Position};
use rusty_engine::score::Score;
use rusty_engine::search::{Searcher, Tally, ALPHA, BETA};

const START: &str = "rnbqkbnr/pppppppp/8/8/8/8/PPPPPPPP/RNBQKBNR w KQkq - 0 1";
const ROOK_ENDING: &str = "7k/8/5K2/8/8/8/8/6R1 w - - 0 1";

/// Full-width minimax with the same leaves, move order and mate counting.
fn minimax(position: &Position, depth: u8) -> (Score, Move) {
    let placement = position.placement();
    if depth == 0 || placement.status != Status::Ongoing {
        return (evaluation_middlegame(position), Move::default());
    }
    let mut best: Option<(Score, Move)> = None;
    for m in position.legal_moves() {
        let (score, _) = minimax(&position.play(m).unwrap(), depth - 1);
        let better = match best {
            None => true,
            Some((b, _)) => {
                if placement.white_to_move {
                    score > b
                } else {
                    score < b
                }
            }
        };
        if better {
            best = Some((score, m));
        }
    }
    let (score, m) = best.unwrap();
    (score.deepen(), m)
}

#[test]
fn depth_zero_looks_at_no_move() {
    let position = Position::from_fen(START).unwrap();
    assert_eq!(best_move(&position, 0), (Move::default(), 0));
    let mut searcher = Searcher::new(&position, 0);
    assert!(searcher.alpha_beta(ALPHA, BETA) == Score::new_eval(0));
    assert_eq!(searcher.best_move(), Move::default());
    assert_eq!(searcher.depth(), 0);
}

#[test]
fn start_position_depth_one() {
    let position = Position::from_fen(START).unwrap();
    let (m, score) = best_move(&position, 1);
    assert!(position.legal_moves().contains(&m));
    // A pawn two squares up the d-file: 5 for the centre and 10 for a
    // second rank that holds White pawns and no Black one.
    assert_eq!(m, Move::new(11, 27, None));
    assert_eq!(score, 15);
    let after = position.play(m).unwrap();
    assert_eq!(evaluation_middlegame(&after).eval(), 15);
}

#[test]
fn one_ply_search_is_minimax() {
    for fen in [
        START,
        ROOK_ENDING,
        "4k3/7p/8/8/8/8/P7/4K3 w - - 0 1",
        "6k1/5ppp/8/8/8/8/8/R3K3 w - - 0 1",
        "r1bq1rk1/pp2ppbp/2np1np1/8/3NP3/2N1BP2/PPPQ2PP/R3KB1R b KQ - 0 1",
        "4k3/8/8/8/8/8/r7/4K2R b K - 0 1",
    ] {
        let position = Position::from_fen(fen).unwrap();
        for depth in [0u8, 1] {
            let mut searcher = Searcher::new(&position, depth);
            let score = searcher.alpha_beta(ALPHA, BETA);
            let (expected, m) = minimax(&position, depth);
            assert!(score == expected);
            assert_eq!(searcher.best_move(), m);
        }
    }
}

#[test]
fn deeper_search_answers_with_the_first_reply() {
    // The rook check on g8 loses the rook to the king, which is not the
    // first reply the generator yields.
    let position = Position::from_fen(ROOK_ENDING).unwrap();
    assert_eq!(best_move(&position, 2), (Move::new(6, 62, None), 540));
    let (full, m) = minimax(&position, 2);
    assert!(full == Score::new_eval(510));
    assert_eq!(m, Move::new(6, 0, None));
}

#[test]
fn fixed_depth_search_is_repeatable() {
    for fen in [START, ROOK_ENDING] {
        let position = Position::from_fen(fen).unwrap();
        for depth in 0..=3u8 {
            assert_eq!(best_move(&position, depth), best_move(&position, depth));
            let again = Position::from_fen(fen).unwrap();
            assert_eq!(best_move(&position, depth), best_move(&again, depth));
        }
    }
}

#[test]
fn back_rank_mate_is_found() {
    let position = Position::from_fen("6k1/5ppp/8/8/8/8/8/R3K3 w - - 0 1").unwrap();
    for depth in 1..=3u8 {
        let mut searcher = Searcher::new(&position, depth);
        let score = searcher.alpha_beta(ALPHA, BETA);
        assert_eq!(searcher.best_move(), Move::new(0, 56, None));
        assert!(score == Score::new_mate(1, true));
        assert!(searcher.best_score() == Score::new_mate(0, true));
        assert_eq!(best_move(&position, depth), (Move::new(0, 56, None), 0));
    }
}

#[test]
fn black_mates_on_the_back_rank() {
    let position = Position::from_fen("4k2r/8/8/8/8/8/PPP5/1K6 b k - 0 1").unwrap();
    let mut searcher = Searcher::new(&position, 2);
    let score = searcher.alpha_beta(ALPHA, BETA);
    assert_eq!(searcher.best_move(), Move::new(63, 7, None));
    assert!(score == Score::new_mate(-1, false));
    assert!(searcher.best_score() == Score::new_mate(0, false));
}

#[test]
fn mate_distance_grows_one_ply_per_level() {
    let position = Position::from_fen(ROOK_ENDING).unwrap();
    let mut searcher = Searcher::new(&position, 3);
    let score = searcher.alpha_beta(ALPHA, BETA);
    assert!(score == Score::new_mate(3, true));
    assert!(searcher.best_score() == Score::new_mate(2, true));
    let king_up = Move::new(45, 53, None);
    assert_eq!(searcher.best_move(), king_up);

    // One level down the bounds arrive in exchanged roles.
    let second = position.play(king_up).unwrap();
    let mut searcher = Searcher::new(&second, 2);
    assert!(searcher.alpha_beta(BETA, ALPHA) == Score::new_mate(2, true));
    let reply = searcher.best_move();
    assert_eq!(reply, Move::new(63, 55, None));

    let third = second.play(reply).unwrap();
    let mut searcher = Searcher::new(&third, 1);
    assert!(searcher.alpha_beta(ALPHA, BETA) == Score::new_mate(1, true));
    let last = third.play(searcher.best_move()).unwrap();
    assert_eq!(last.placement().status, Status::Checkmate);
    assert!(evaluation_middlegame(&last) == Score::new_mate(0, true));
}

#[test]
fn bare_kings_score_zero_at_every_depth() {
    for fen in ["8/8/8/4k3/8/8/4K3/8 w - - 0 1", "8/8/8/4k3/8/8/4K3/8 b - - 0 1"] {
        let position = Position::from_fen(fen).unwrap();
        for depth in 0..=4u8 {
            let mut searcher = Searcher::new(&position, depth);
            assert!(searcher.alpha_beta(ALPHA, BETA) == Score::new_eval(0));
            assert_eq!(best_move(&position, depth).1, 0);
        }
    }
}

#[test]
fn a_finished_game_is_scored_as_it_stands() {
    let mated = Position::from_fen("R5k1/5ppp/8/8/8/8/8/4K3 b - - 0 1").unwrap();
    let mut searcher = Searcher::new(&mated, 3);
    assert!(searcher.alpha_beta(ALPHA, BETA) == Score::new_mate(0, true));
    assert_eq!(searcher.best_move(), Move::default());
    assert_eq!(best_move(&mated, 3), (Move::default(), 0));
    let stale = Position::from_fen("7k/5Q2/6K1/8/8/8/8/8 b - - 0 1").unwrap();
    assert_eq!(best_move(&stale, 3), (Move::default(), 0));
}

#[test]
fn searcher_keeps_its_depth() {
    let position = Position::from_fen(START).unwrap();
    let mut searcher = Searcher::new(&position, 2);
    searcher.alpha_beta(ALPHA, BETA);
    assert_eq!(searcher.depth(), 2);
    searcher.set_depth(1);
    assert_eq!(searcher.depth(), 1);
    searcher.alpha_beta(ALPHA, BETA);
    assert_eq!(searcher.best_move(), best_move(&position, 1).0);
}

#[test]
fn tally_for_white_keeps_the_first_greatest() {
    let a = Move::new(1, 2, None);
    let b = Move::new(3, 4, None);
    let c = Move::new(5, 6, None);
    let t = Tally::start(true, ALPHA, BETA);
    assert!(!t.found && !t.cut);
    assert!(t.best == Score::new_eval(i32::MIN));
    let t = t.absorb(true, a, Score::new_mate(-2, false));
    assert!(t.found && !t.cut);
    assert!(t.best == Score::new_mate(-2, false));
    assert!(t.alpha == Score::new_eval(ALPHA));
    assert_eq!(t.best_move, a);
    let t = t.absorb(true, b, Score::new_eval(30));
    assert!(t.best == Score::new_eval(30) && t.alpha == Score::new_eval(30));
    assert_eq!(t.best_move, b);
    let t = t.absorb(true, c, Score::new_eval(30));
    assert_eq!(t.best_move, b);
    assert!(!t.cut);
    let t = t.absorb(true, c, Score::new_mate(0, true));
    assert!(t.cut);
    assert!(t.best == Score::new_mate(0, true));
    assert_eq!(t.best_move, c);
    assert!(t.beta == Score::new_eval(BETA));
}

#[test]
fn tally_for_black_keeps_the_first_least() {
    let a = Move::new(1, 2, None);
    let b = Move::new(3, 4, None);
    let t = Tally::start(false, -50, 50);
    assert!(t.best == Score::new_eval(i32::MAX));
    let t = t.absorb(false, a, Score::new_eval(70));
    assert!(t.best == Score::new_eval(70));
    assert!(t.beta == Score::new_eval(50));
    assert!(!t.cut);
    let t = t.absorb(false, b, Score::new_eval(-50));
    assert!(t.best == Score::new_eval(-50) && t.beta == Score::new_eval(-50));
    assert_eq!(t.best_move, b);
    assert!(t.cut);
    assert!(t.alpha == Score::new_eval(-50));
}

#[test]
fn tally_is_cut_at_once_when_the_bounds_have_met() {
    let t = Tally::start(true, 10, 10).absorb(true, Move::new(8, 16, None), Score::new_eval(-5));
    assert!(t.cut);
    assert!(t.best == Score::new_eval(-5));
    assert!(t.alpha == Score::new_eval(10));
}
