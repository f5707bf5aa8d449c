use rusty_engine::eval::{evaluate, evaluation_middlegame, stands_sound, Placement, Status};
use rusty_engine::rules::Position;
use rusty_engine::score::Score;

fn value(fen: &str) -> i32 {
    let position = Position::from_fen(fen).unwrap();
    let score = evaluation_middlegame(&position);
    assert!(!score.is_mate());
    score.eval()
}

#[test]
fn starting_position_is_level() {
    assert_eq!(value("rnbqkbnr/pppppppp/8/8/8/8/PPPPPPPP/RNBQKBNR w KQkq - 0 1"), 0);
}

#[test]
fn bare_kings_are_level() {
    assert_eq!(value("8/8/8/4k3/8/8/4K3/8 w - - 0 1"), 0);
    assert_eq!(value("8/8/8/4k3/8/8/4K3/8 b - - 0 1"), 0);
}

#[test]
fn material_of_each_man() {
    assert_eq!(value("4k3/8/8/8/8/8/8/1N2K3 w - - 0 1"), 320);
    assert_eq!(value("4k3/8/8/8/8/8/8/2B1K3 w - - 0 1"), 330);
    assert_eq!(value("4k3/8/8/8/8/8/8/3QK3 w - - 0 1"), 900);
    assert_eq!(value("1n2k3/8/8/8/8/8/8/4K3 w - - 0 1"), -320);
    assert_eq!(value("3qk3/8/8/8/8/8/8/4K3 w - - 0 1"), -900);
}

#[test]
fn king_value_counts_in_material() {
    let kings_only = Placement {
        pawns: 0,
        knights: 0,
        bishops: 0,
        rooks: 0,
        queens: 0,
        kings: 1 << 4,
        white: 1 << 4,
        black: 0,
        white_to_move: true,
        status: Status::Ongoing,
    };
    assert_eq!(evaluate(&kings_only).eval(), 20000);
}

#[test]
fn lone_pawn_is_isolated_and_passed() {
    assert_eq!(value("4k3/8/8/8/8/8/4P3/4K3 w - - 0 1"), 100 - 10 + 10);
    assert_eq!(value("4k3/4p3/8/8/8/8/8/4K3 w - - 0 1"), -100);
}

#[test]
fn bishop_pair_bonus() {
    assert_eq!(value("4k3/8/8/8/8/8/8/2B1KB2 w - - 0 1"), 2 * 330 + 50);
    assert_eq!(value("4k3/8/8/8/8/8/8/1BB1KB2 w - - 0 1"), 3 * 330);
    assert_eq!(value("2b1kb2/8/8/8/8/8/8/4K3 w - - 0 1"), -(2 * 330 + 50));
}

#[test]
fn rook_on_open_and_semi_open_file() {
    assert_eq!(value("4k3/8/8/8/8/8/8/R3K3 w - - 0 1"), 500 + 10);
    assert_eq!(value("4k3/p7/8/8/8/8/8/R3K3 w - - 0 1"), 500 - 100 + 5 + 10 - 10);
    assert_eq!(value("4k3/8/8/8/8/8/P7/R3K3 w - - 0 1"), 500 + 100 - 10 + 10);
    assert_eq!(value("4k3/8/8/8/8/8/8/4K2R w - - 0 1"), 500 + 10);
    assert_eq!(value("4k3/8/8/8/8/8/8/R3K2R w - - 0 1"), 1000 + 20);
}

#[test]
fn two_rooks_on_one_file_count_once() {
    assert_eq!(value("4k3/8/8/8/8/R7/8/R3K3 w - - 0 1"), 1000 + 10);
}

#[test]
fn rook_on_seventh_and_eighth_rank() {
    assert_eq!(value("4k3/R7/8/8/8/8/8/4K3 w - - 0 1"), 500 + 10 + 20);
    assert_eq!(value("R3k3/8/8/8/8/8/8/4K3 b - - 0 1"), 500 + 10 + 30);
    assert_eq!(value("4k3/8/8/8/8/8/r7/4K3 w - - 0 1"), -(500 + 10 + 20));
    assert_eq!(value("4k3/8/8/8/8/8/8/r3K3 w - - 0 1"), -(500 + 10 + 30));
}

#[test]
fn doubled_pawns_share_a_file() {
    assert_eq!(value("4k3/8/8/8/8/4P3/4P3/4K3 w - - 0 1"), 200 - 10 - 10 + 20);
    assert_eq!(value("4k3/8/8/8/4P3/4P3/4P3/4K3 w - - 0 1"), 300 - 10 - 10 + 30 + 5);
    assert_eq!(value("4k3/8/8/8/8/8/3PP3/4K3 w - - 0 1"), 200 + 10);
}

#[test]
fn pawn_on_the_seventh_rank() {
    assert_eq!(value("8/4P3/8/8/k7/8/8/4K3 w - - 0 1"), 100 - 10 + 10 + 10);
    assert_eq!(value("4k3/8/8/8/8/8/4p3/K7 w - - 0 1"), -(100 - 10 + 10 + 10));
}

#[test]
fn pawns_in_the_centre() {
    assert_eq!(value("4k3/8/8/8/4P3/8/8/4K3 w - - 0 1"), 100 - 10 + 10 + 5);
    assert_eq!(value("4k3/8/8/8/3PP3/8/8/4K3 w - - 0 1"), 200 + 10 + 10);
    assert_eq!(value("4k3/8/8/3pp3/8/8/8/4K3 w - - 0 1"), -(200 + 10 + 10));
    assert_eq!(value("4k3/8/8/3PP3/3PP3/8/8/4K3 w - - 0 1"), 400 - 20 + 20 + 20);
}

#[test]
fn a_neighbour_of_either_colour_ends_isolation() {
    assert_eq!(value("4k3/3p4/8/8/8/8/4P3/4K3 w - - 0 1"), 0);
    assert_eq!(value("4k3/8/8/8/p3P3/8/8/4K3 w - - 0 1"), -10 + 10 + 5);
}

#[test]
fn a_pawn_on_the_same_rank_ends_a_passed_pawn() {
    assert_eq!(value("4k3/8/8/8/8/8/p3P3/4K3 w - - 0 1"), 0 - 10 + 10 - 10);
}

#[test]
fn checkmate_is_a_mate_at_ply_zero() {
    let mated_white =
        Position::from_fen("rnb1kbnr/pppp1ppp/8/4p3/6Pq/5P2/PPPPP2P/RNBQKBNR w KQkq - 1 3")
            .unwrap();
    let score = evaluation_middlegame(&mated_white);
    assert!(score == Score::new_mate(0, false));
    let mated_black = Position::from_fen("R5k1/5ppp/8/8/8/8/8/4K3 b - - 0 1").unwrap();
    let score = evaluation_middlegame(&mated_black);
    assert!(score == Score::new_mate(0, true));
}

#[test]
fn stalemate_is_zero() {
    let position = Position::from_fen("7k/5Q2/6K1/8/8/8/8/8 b - - 0 1").unwrap();
    assert_eq!(position.placement().status, Status::Stalemate);
    assert!(evaluation_middlegame(&position) == Score::new_eval(0));
}

#[test]
fn evaluation_is_zero_sum() {
    let pairs = [
        (
            "r1bq1rk1/pp2ppbp/2np1np1/8/3NP3/2N1BP2/PPPQ2PP/R3KB1R w KQ - 0 1",
            "r3kb1r/pppq2pp/2n1bp2/3np3/8/2NP1NP1/PP2PPBP/R1BQ1RK1 b kq - 0 1",
        ),
        ("4k3/R7/8/8/4P3/8/P7/4K3 w - - 0 1", "4k3/p7/8/4p3/8/8/r7/4K3 b - - 0 1"),
        ("4k3/8/8/8/8/4P3/4P3/2B1KB2 w - - 0 1", "2b1kb2/4p3/4p3/8/8/8/8/4K3 b - - 0 1"),
    ];
    for (fen, mirrored) in pairs {
        let a = Position::from_fen(fen).unwrap().placement();
        let b = Position::from_fen(mirrored).unwrap().placement();
        let m = a.mirrored();
        assert_eq!(
            (m.pawns, m.knights, m.bishops, m.rooks, m.queens, m.kings, m.white, m.black),
            (b.pawns, b.knights, b.bishops, b.rooks, b.queens, b.kings, b.white, b.black)
        );
        assert_eq!(m.white_to_move, b.white_to_move);
        assert_eq!(evaluate(&m).eval(), -evaluate(&a).eval());
        assert_eq!(value(mirrored), -value(fen));
    }
    assert_ne!(value("4k3/R7/8/8/4P3/8/P7/4K3 w - - 0 1"), 0);
}

#[test]
fn mirrored_checkmate_changes_the_winner() {
    let placement = Position::from_fen("R5k1/5ppp/8/8/8/8/8/4K3 b - - 0 1").unwrap().placement();
    assert!(evaluate(&placement) == Score::new_mate(0, true));
    assert!(evaluate(&placement.mirrored()) == Score::new_mate(0, false));
}

#[test]
fn searchable_while_the_game_goes_on() {
    let start = Position::from_fen("rnbqkbnr/pppppppp/8/8/8/8/PPPPPPPP/RNBQKBNR w KQkq - 0 1")
        .unwrap()
        .placement();
    assert!(start.searchable());
    let stale = Position::from_fen("7k/5Q2/6K1/8/8/8/8/8 b - - 0 1").unwrap().placement();
    assert!(!stale.searchable());
    let full = Placement { white: 0xffff, ..start };
    assert!(full.searchable());
    let overfull = Placement { white: 0x1_ffff, ..start };
    assert!(!overfull.searchable());
    let overfull = Placement { black: 0xffff_8000_0000_0000, ..start };
    assert!(!overfull.searchable());
    let kingless = Placement { kings: 1 << 60, ..start };
    assert!(!kingless.searchable());
    let two_kings = Placement { kings: (1 << 3) | (1 << 4) | (1 << 60), ..start };
    assert!(!two_kings.searchable());
}

#[test]
fn sound_boards_have_one_king_a_side() {
    let white: u64 = 0xffff;
    let black: u64 = 0xffff_0000_0000_0000;
    assert!(stands_sound(white, black, (1 << 4) | (1 << 60)));
    assert!(!stands_sound(white, black, 1 << 4));
    assert!(!stands_sound(white, black, 1 << 60));
    assert!(!stands_sound(white, black, 0));
    assert!(!stands_sound(white, black, (1 << 4) | (1 << 5) | (1 << 60)));
    assert!(!stands_sound(white | (1 << 16), black, (1 << 4) | (1 << 60)));
    assert!(!stands_sound(white, black | (1 << 40), (1 << 4) | (1 << 60)));
}
