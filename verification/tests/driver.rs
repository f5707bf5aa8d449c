use rusty_engine::driver::{
    best_move, best_move_infinite_thread, best_move_with_time, worth_deepening,
};
use rusty_engine::rules::{Move, Position};
use rusty_engine::score::Score;
use rusty_engine::search::Searcher;
use std::sync::mpsc::channel;

const START: &str = "rnbqkbnr/pppppppp/8/8/8/8/PPPPPPPP/RNBQKBNR w KQkq - 0 1";

#[test]
fn estimate_threshold() {
    assert!(worth_deepening(100, 0));
    assert!(!worth_deepening(99, 0));
    assert!(worth_deepening(250, 1));
    assert!(!worth_deepening(249, 1));
    assert!(worth_deepening(625, 2));
    assert!(!worth_deepening(624, 2));
    assert!(worth_deepening(1563, 3));
    assert!(!worth_deepening(1562, 3));
    assert!(worth_deepening(u64::MAX, 43));
    assert!(!worth_deepening(u64::MAX, 44));
    assert!(!worth_deepening(u64::MAX, u32::MAX));
    assert!(!worth_deepening(0, 0));
}

#[test]
fn zero_budget_returns_at_once() {
    let position = Position::from_fen(START).unwrap();
    assert_eq!(best_move_with_time(&position, 0), (Move::default(), 0));
    let mut searcher = Searcher::new(&position, 0);
    assert!(searcher.alpha_beta_with_time(0) == Score::new_eval(0));
    assert_eq!(searcher.depth(), 0);
}

#[test]
fn a_budget_too_small_for_one_round() {
    let position = Position::from_fen(START).unwrap();
    assert_eq!(best_move_with_time(&position, 249), (Move::default(), 0));
}

#[test]
fn a_budget_for_one_round_reaches_depth_zero_only() {
    let position = Position::from_fen(START).unwrap();
    let mut searcher = Searcher::new(&position, 0);
    searcher.alpha_beta_with_time(300);
    assert_eq!(searcher.depth(), 1);
    assert_eq!(searcher.best_move(), Move::default());
}

#[test]
fn a_budget_for_two_rounds_searches_one_ply() {
    let position = Position::from_fen(START).unwrap();
    assert_eq!(best_move_with_time(&position, 700), best_move(&position, 1));
    let mut searcher = Searcher::new(&position, 0);
    let score = searcher.alpha_beta_with_time(700);
    assert_eq!(searcher.depth(), 2);
    assert!(score == Score::new_eval(15));
}

#[test]
fn stop_before_the_first_round() {
    let position = Position::from_fen(START).unwrap();
    let (sender, receiver) = channel();
    sender.send(true).unwrap();
    assert_eq!(best_move_infinite_thread(&position, receiver), (Move::default(), 0));
}

#[test]
fn stop_after_one_round() {
    let position = Position::from_fen(START).unwrap();
    let (sender, receiver) = channel();
    sender.send(false).unwrap();
    sender.send(true).unwrap();
    assert_eq!(best_move_infinite_thread(&position, receiver), best_move(&position, 1));
}

#[test]
fn stop_after_two_rounds() {
    let position = Position::from_fen(START).unwrap();
    let (sender, receiver) = channel();
    sender.send(false).unwrap();
    sender.send(false).unwrap();
    sender.send(true).unwrap();
    let mut searcher = Searcher::new(&position, 1);
    let score = searcher.alpha_beta_until_stopped(receiver);
    assert_eq!(searcher.depth(), 3);
    assert_eq!((searcher.best_move(), score.eval()), best_move(&position, 2));
}

#[test]
fn timed_round_runs_while_time_is_left() {
    let position = Position::from_fen(START).unwrap();
    let mut searcher = Searcher::new(&position, 1);
    let score = searcher.timed_round(1000, 1, 999).unwrap();
    assert!(score == Score::new_eval(15));
    assert_eq!(searcher.depth(), 2);
    assert_eq!((searcher.best_move(), searcher.best_score().eval()), best_move(&position, 1));
}

#[test]
fn timed_round_stops_when_time_is_up() {
    let position = Position::from_fen(START).unwrap();
    let mut searcher = Searcher::new(&position, 1);
    assert!(searcher.timed_round(1000, 1, 1000).is_none());
    assert!(searcher.timed_round(1000, 1, u128::MAX).is_none());
    assert!(searcher.timed_round(0, 1, 0).is_none());
    assert_eq!(searcher.depth(), 1);
    assert_eq!(searcher.best_move(), Move::default());
}

#[test]
fn timed_round_stops_when_the_round_is_not_worth_starting() {
    let position = Position::from_fen(START).unwrap();
    let mut searcher = Searcher::new(&position, 1);
    assert!(searcher.timed_round(624, 2, 0).is_none());
    assert!(searcher.timed_round(249, 1, 0).is_none());
    assert_eq!(searcher.depth(), 1);
    assert!(searcher.timed_round(625, 2, 0).is_some());
    assert_eq!(searcher.depth(), 2);
}

#[test]
fn rounds_stop_at_the_greatest_depth() {
    let position = Position::from_fen("7k/5Q2/6K1/8/8/8/8/8 b - - 0 1").unwrap();
    let mut searcher = Searcher::new(&position, 254);
    assert!(searcher.timed_round(u64::MAX, 1, 0).is_some());
    assert_eq!(searcher.depth(), 255);
    assert!(searcher.timed_round(u64::MAX, 1, 0).is_none());
    assert!(!searcher.polled_round(None));
    assert_eq!(searcher.depth(), 255);
}

#[test]
fn polled_round_runs_unless_told_to_stop() {
    let position = Position::from_fen(START).unwrap();
    let mut searcher = Searcher::new(&position, 1);
    assert!(!searcher.polled_round(Some(true)));
    assert_eq!(searcher.depth(), 1);
    assert_eq!(searcher.best_move(), Move::default());
    assert!(searcher.polled_round(Some(false)));
    assert_eq!(searcher.depth(), 2);
    assert_eq!((searcher.best_move(), searcher.best_score().eval()), best_move(&position, 1));
    assert!(searcher.polled_round(None));
    assert_eq!(searcher.depth(), 3);
    assert_eq!((searcher.best_move(), searcher.best_score().eval()), best_move(&position, 2));
}

#[test]
fn a_gone_sender_does_not_stop_the_search() {
    let position = Position::from_fen("7k/5Q2/6K1/8/8/8/8/8 b - - 0 1").unwrap();
    let (sender, receiver) = channel::<bool>();
    drop(sender);
    let mut searcher = Searcher::new(&position, 250);
    searcher.alpha_beta_until_stopped(receiver);
    assert_eq!(searcher.depth(), 255);
}
