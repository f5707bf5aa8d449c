//! The static evaluator: a score for a position as it stands.

use crate::bits::{
    file_bits, file_mask, flip, flip_bits, lemma_count_below_bound, lemma_empty_meets,
    lemma_flip_and,
    lemma_flip_center, lemma_flip_file, lemma_flip_on_rank, lemma_flip_popcount,
    lemma_flip_within, lemma_popcount_empty, popcnt, popcount, rank_bits, rank_mask, CENTER,
};
use crate::rules::{placement_of, Position};
use crate::score::{Score, ScoreValue};
use vstd::prelude::*;

verus! {

/// The material value of a pawn, in centipawns.
pub const PAWN_VALUE: i32 = 100;

/// The material value of a knight.
pub const KNIGHT_VALUE: i32 = 320;

/// The material value of a bishop.
pub const BISHOP_VALUE: i32 = 330;

/// The material value of a rook.
pub const ROOK_VALUE: i32 = 500;

/// The material value of a queen.
pub const QUEEN_VALUE: i32 = 900;

/// The material value of a king. Each side has one, so it never shows in
/// the score of a game.
pub const KING_VALUE: i32 = 20000;

/// For holding exactly two bishops.
pub const BISHOP_PAIR: i32 = 50;

/// For each file with a rook on it and no pawn.
pub const ROOK_ON_OPEN_FILE: i32 = 10;

/// For each file with a rook on it and no pawn of its own side.
pub const ROOK_ON_SEMI_OPEN_FILE: i32 = 5;

/// For a rook on the seventh rank, counted from its own side.
pub const ROOK_ON_7TH: i32 = 20;

/// For a rook on the eighth rank, counted from its own side.
pub const ROOK_ON_8TH: i32 = 30;

/// For a pawn on the seventh rank, counted from its own side.
pub const PAWN_ON_7TH: i32 = 10;

/// For each file with a pawn that has no pawn on a neighbouring file.
pub const ISOLATED_PAWN: i32 = -10;

/// For each file with more than one pawn of one side.
pub const DOUBLED_PAWN: i32 = -10;

/// For each rank with a pawn of one side and none of the other.
pub const PASSED_PAWN: i32 = 10;

/// For each pawn on one of the four central squares.
pub const CENTER_CONTROL: i32 = 5;

/// The most men a side has in a game, and the most it may have for its
/// moves to be looked at.
pub const MAX_MEN: u32 = 16;

/// Whether the game goes on at a position, and how it ended if not.
#[derive(Clone, Copy, Debug, PartialEq, Eq, Structural)]
pub enum Status {
    Ongoing,
    Stalemate,
    Checkmate,
}

/// What stands on the board: one square set per kind of man, one per
/// colour, the side to move and the status of the game.
#[derive(Clone, Copy, Debug)]
pub struct Placement {
    pub pawns: u64,
    pub knights: u64,
    pub bishops: u64,
    pub rooks: u64,
    pub queens: u64,
    pub kings: u64,
    pub white: u64,
    pub black: u64,
    pub white_to_move: bool,
    pub status: Status,
}

/// Each side has exactly one king and no more than `MAX_MEN` men: what
/// the move generator needs of a board.
pub open spec fn sound_sets(white: u64, black: u64, kings: u64) -> bool {
    &&& popcount(white) <= MAX_MEN
    &&& popcount(black) <= MAX_MEN
    &&& popcount(kings & white) == 1
    &&& popcount(kings & black) == 1
}

/// Whether each side has exactly one king and no more than `MAX_MEN` men.
pub fn stands_sound(white: u64, black: u64, kings: u64) -> (b: bool)
    ensures
        b == sound_sets(white, black, kings),
{
    popcnt(white) <= MAX_MEN && popcnt(black) <= MAX_MEN && popcnt(kings & white) == 1 && popcnt(
        kings & black,
    ) == 1
}

/// The moves of the position can be generated and the game goes on.
pub open spec fn searchable(p: Placement) -> bool {
    p.status == Status::Ongoing && sound_sets(p.white, p.black, p.kings)
}

/// The rank next to last in a side's direction of advance.
pub open spec fn seventh_rank(white: bool) -> u64 {
    if white {
        6
    } else {
        1
    }
}

/// The last rank in a side's direction of advance.
pub open spec fn eighth_rank(white: bool) -> u64 {
    if white {
        7
    } else {
        0
    }
}

/// The bonus for holding exactly two bishops.
pub open spec fn bishop_pair(bishops: u64) -> int {
    if popcount(bishops) == 2 {
        BISHOP_PAIR as int
    } else {
        0
    }
}

/// What the rooks of one side earn on file `f`: the open-file bonus where
/// no pawn stands on it, the smaller one where no pawn of their own does.
pub open spec fn rook_file_term(rooks: u64, own: u64, opp: u64, f: u64) -> int {
    if rooks & file_mask(f) == 0 {
        0
    } else if own & file_mask(f) == 0 && opp & file_mask(f) == 0 {
        ROOK_ON_OPEN_FILE as int
    } else if own & file_mask(f) == 0 {
        ROOK_ON_SEMI_OPEN_FILE as int
    } else {
        0
    }
}

/// The sum of `rook_file_term` over the files below `n`.
pub open spec fn rook_files(rooks: u64, own: u64, opp: u64, n: u64) -> int
    decreases n,
{
    if n == 0 {
        0
    } else {
        rook_files(rooks, own, opp, (n - 1) as u64) + rook_file_term(
            rooks,
            own,
            opp,
            (n - 1) as u64,
        )
    }
}

/// The bonuses for a rook on the side's seventh and on its eighth rank,
/// each given once.
pub open spec fn rook_ranks(rooks: u64, white: bool) -> int {
    (if rooks & rank_mask(seventh_rank(white)) != 0 {
        ROOK_ON_7TH as int
    } else {
        0
    }) + (if rooks & rank_mask(eighth_rank(white)) != 0 {
        ROOK_ON_8TH as int
    } else {
        0
    })
}

/// The files next to file `f`.
pub open spec fn neighbours(f: u64) -> u64 {
    (if f > 0 {
        file_mask((f - 1) as u64)
    } else {
        0
    }) | (if f < 7 {
        file_mask((f + 1) as u64)
    } else {
        0
    })
}

/// The penalty for file `f` where a side has a pawn on it and no pawn of
/// either colour stands on a neighbouring file.
pub open spec fn isolated_term(own: u64, opp: u64, f: u64) -> int {
    if own & file_mask(f) != 0 && (own | opp) & neighbours(f) == 0 {
        ISOLATED_PAWN as int
    } else {
        0
    }
}

/// The sum of `isolated_term` over the files below `n`.
pub open spec fn isolated(own: u64, opp: u64, n: u64) -> int
    decreases n,
{
    if n == 0 {
        0
    } else {
        isolated(own, opp, (n - 1) as u64) + isolated_term(own, opp, (n - 1) as u64)
    }
}

/// The penalty for file `f` where a side has more than one pawn on it.
pub open spec fn doubled_term(own: u64, f: u64) -> int {
    if popcount(own & file_mask(f)) > 1 {
        DOUBLED_PAWN as int
    } else {
        0
    }
}

/// The sum of `doubled_term` over the files below `n`.
pub open spec fn doubled(own: u64, n: u64) -> int
    decreases n,
{
    if n == 0 {
        0
    } else {
        doubled(own, (n - 1) as u64) + doubled_term(own, (n - 1) as u64)
    }
}

/// The bonus for rank `r` where a side has a pawn on it and the other side
/// has none.
pub open spec fn passed_term(own: u64, opp: u64, r: u64) -> int {
    if own & rank_mask(r) != 0 && opp & rank_mask(r) == 0 {
        PASSED_PAWN as int
    } else {
        0
    }
}

/// The sum of `passed_term` over the ranks below `n`.
pub open spec fn passed(own: u64, opp: u64, n: u64) -> int
    decreases n,
{
    if n == 0 {
        0
    } else {
        passed(own, opp, (n - 1) as u64) + passed_term(own, opp, (n - 1) as u64)
    }
}

/// The bonus for a pawn on the side's seventh rank, given once.
pub open spec fn pawn_seventh(own: u64, white: bool) -> int {
    if own & rank_mask(seventh_rank(white)) != 0 {
        PAWN_ON_7TH as int
    } else {
        0
    }
}

/// The bonus for each pawn on a central square.
pub open spec fn center(own: u64) -> int {
    CENTER_CONTROL * popcount(own & CENTER)
}

/// Everything but material that one side earns: `own` and `opp` are the
/// pawns of the two sides, `bishops` and `rooks` the side's own.
pub open spec fn side_score(own: u64, opp: u64, bishops: u64, rooks: u64, white: bool) -> int {
    bishop_pair(bishops) + rook_files(rooks, own, opp, 8) + rook_ranks(rooks, white) + isolated(
        own,
        opp,
        8,
    ) + doubled(own, 8) + passed(own, opp, 8) + pawn_seventh(own, white) + center(own)
}

/// The difference in men of one kind, White's less Black's.
pub open spec fn balance(kind: u64, white: u64, black: u64) -> int {
    popcount(kind & white) - popcount(kind & black)
}

/// The material on the board, White's less Black's.
pub open spec fn material(p: Placement) -> int {
    PAWN_VALUE * balance(p.pawns, p.white, p.black) + KNIGHT_VALUE * balance(
        p.knights,
        p.white,
        p.black,
    ) + BISHOP_VALUE * balance(p.bishops, p.white, p.black) + ROOK_VALUE * balance(
        p.rooks,
        p.white,
        p.black,
    ) + QUEEN_VALUE * balance(p.queens, p.white, p.black) + KING_VALUE * balance(
        p.kings,
        p.white,
        p.black,
    )
}

/// The centipawn value of what stands on the board: material, and each
/// positional term once for White and once, negated, for Black.
pub open spec fn numeric_evaluation(p: Placement) -> int {
    material(p) + side_score(
        p.pawns & p.white,
        p.pawns & p.black,
        p.bishops & p.white,
        p.rooks & p.white,
        true,
    ) - side_score(
        p.pawns & p.black,
        p.pawns & p.white,
        p.bishops & p.black,
        p.rooks & p.black,
        false,
    )
}

/// The score of a position: its centipawn value while the game goes on, 0
/// for a stalemate, and for a checkmate a mate at ply 0 won by the side
/// that is not to move.
pub open spec fn evaluation(p: Placement) -> ScoreValue {
    match p.status {
        Status::Ongoing => ScoreValue::Numeric(numeric_evaluation(p)),
        Status::Stalemate => ScoreValue::Numeric(0),
        Status::Checkmate => if p.white_to_move {
            ScoreValue::MateForBlack(0)
        } else {
            ScoreValue::MateForWhite(0)
        },
    }
}

/// No evaluation leaves this range.
pub const EVAL_LIMIT: i32 = 2_000_000;

fn balance_of(kind: u64, white: u64, black: u64) -> (d: i32)
    ensures
        d == balance(kind, white, black),
        -64 <= d <= 64,
{
    let w: u32 = popcnt(kind & white);
    let b: u32 = popcnt(kind & black);
    w as i32 - b as i32
}

fn side_score_of(own: u64, opp: u64, bishops: u64, rooks: u64, white: bool) -> (s: i32)
    ensures
        s == side_score(own, opp, bishops, rooks, white),
        -160 <= s <= 600,
{
    let mut total: i32 = 0;
    if popcnt(bishops) == 2 {
        total = total + BISHOP_PAIR;
    }
    let seventh: u64 = rank_bits(if white {
        6
    } else {
        1
    });
    let eighth: u64 = rank_bits(if white {
        7
    } else {
        0
    });
    if rooks & seventh != 0 {
        total = total + ROOK_ON_7TH;
    }
    if rooks & eighth != 0 {
        total = total + ROOK_ON_8TH;
    }
    if own & seventh != 0 {
        total = total + PAWN_ON_7TH;
    }
    total = total + CENTER_CONTROL * (popcnt(own & CENTER) as i32);
    let ghost fixed: int = total as int;
    let mut i: u8 = 0;
    while i < 8
        invariant
            i <= 8,
            fixed == bishop_pair(bishops) + rook_ranks(rooks, white) + pawn_seventh(own, white)
                + center(own),
            0 <= fixed <= 50 + 50 + 10 + 320,
            total == fixed + rook_files(rooks, own, opp, i as u64) + isolated(own, opp, i as u64)
                + doubled(own, i as u64) + passed(own, opp, i as u64),
            0 <= rook_files(rooks, own, opp, i as u64) <= 10 * i,
            -10 * i <= isolated(own, opp, i as u64) <= 0,
            -10 * i <= doubled(own, i as u64) <= 0,
            0 <= passed(own, opp, i as u64) <= 10 * i,
        decreases 8 - i,
    {
        let file: u64 = file_bits(i);
        let rank: u64 = rank_bits(i);
        if rooks & file != 0 {
            if own & file == 0 && opp & file == 0 {
                total = total + ROOK_ON_OPEN_FILE;
            } else if own & file == 0 {
                total = total + ROOK_ON_SEMI_OPEN_FILE;
            }
        }
        let mut beside: u64 = 0;
        if i > 0 {
            beside = beside | file_bits(i - 1);
        }
        if i < 7 {
            beside = beside | file_bits(i + 1);
        }
        assert(beside == neighbours(i as u64)) by {
            assert(0u64 | 0u64 == 0u64) by (bit_vector);
            let a = file_mask((i - 1) as u64);
            let b = file_mask((i + 1) as u64);
            assert(0u64 | a == a && a | 0u64 == a && 0u64 | b == b) by (bit_vector);
        }
        if own & file != 0 && (own | opp) & beside == 0 {
            total = total + ISOLATED_PAWN;
        }
        if popcnt(own & file) > 1 {
            total = total + DOUBLED_PAWN;
        }
        if own & rank != 0 && opp & rank == 0 {
            total = total + PASSED_PAWN;
        }
        i = i + 1;
    }
    total
}

/// Scores a position as it stands, without looking at any move.
pub fn evaluation_middlegame(position: &Position) -> (s: Score)
    ensures
        s@ == evaluation(placement_of(position@.fen, position@.line)),
{
    evaluate(&position.placement())
}

/// Scores what stands on the board.
pub fn evaluate(p: &Placement) -> (s: Score)
    ensures
        s@ == evaluation(*p),
        -EVAL_LIMIT < s@.rank() < EVAL_LIMIT,
{
    match p.status {
        Status::Ongoing => {
            let mut total: i32 = PAWN_VALUE * balance_of(p.pawns, p.white, p.black);
            total = total + KNIGHT_VALUE * balance_of(p.knights, p.white, p.black);
            total = total + BISHOP_VALUE * balance_of(p.bishops, p.white, p.black);
            total = total + ROOK_VALUE * balance_of(p.rooks, p.white, p.black);
            total = total + QUEEN_VALUE * balance_of(p.queens, p.white, p.black);
            total = total + KING_VALUE * balance_of(p.kings, p.white, p.black);
            let white_pawns: u64 = p.pawns & p.white;
            let black_pawns: u64 = p.pawns & p.black;
            total = total + side_score_of(
                white_pawns,
                black_pawns,
                p.bishops & p.white,
                p.rooks & p.white,
                true,
            );
            total = total - side_score_of(
                black_pawns,
                white_pawns,
                p.bishops & p.black,
                p.rooks & p.black,
                false,
            );
            Score::new_eval(total)
        },
        Status::Stalemate => Score::new_eval(0),
        Status::Checkmate => Score::new_mate(0, !p.white_to_move),
    }
}

/// The position with the colours exchanged and the board turned upside
/// down, so that each side sees what the other saw.
pub open spec fn mirror(p: Placement) -> Placement {
    Placement {
        pawns: flip(p.pawns),
        knights: flip(p.knights),
        bishops: flip(p.bishops),
        rooks: flip(p.rooks),
        queens: flip(p.queens),
        kings: flip(p.kings),
        white: flip(p.black),
        black: flip(p.white),
        white_to_move: !p.white_to_move,
        status: p.status,
    }
}

impl Placement {
    /// Whether the moves of the position can be generated and the game
    /// goes on.
    pub fn searchable(&self) -> (b: bool)
        ensures
            b == searchable(*self),
    {
        match self.status {
            Status::Ongoing => stands_sound(self.white, self.black, self.kings),
            _ => false,
        }
    }

    /// Exchanges the colours and turns the board upside down.
    pub fn mirrored(&self) -> (m: Placement)
        ensures
            m == mirror(*self),
    {
        Placement {
            pawns: flip_bits(self.pawns),
            knights: flip_bits(self.knights),
            bishops: flip_bits(self.bishops),
            rooks: flip_bits(self.rooks),
            queens: flip_bits(self.queens),
            kings: flip_bits(self.kings),
            white: flip_bits(self.black),
            black: flip_bits(self.white),
            white_to_move: !self.white_to_move,
            status: self.status,
        }
    }
}

proof fn lemma_balance_mirror(kind: u64, white: u64, black: u64)
    ensures
        balance(flip(kind), flip(black), flip(white)) == -balance(kind, white, black),
{
    lemma_flip_and(kind, white);
    lemma_flip_and(kind, black);
    lemma_flip_popcount(kind & white);
    lemma_flip_popcount(kind & black);
}

proof fn lemma_neighbours_flip(f: u64)
    requires
        f < 8,
    ensures
        flip(neighbours(f)) == neighbours(f),
{
    let a: u64 = if f > 0 {
        file_mask((f - 1) as u64)
    } else {
        0
    };
    let b: u64 = if f < 7 {
        file_mask((f + 1) as u64)
    } else {
        0
    };
    if f > 0 {
        lemma_flip_file((f - 1) as u64);
    }
    if f < 7 {
        lemma_flip_file((f + 1) as u64);
    }
    assert(flip(0) == 0) by (bit_vector);
    assert(flip(a | b) == flip(a) | flip(b)) by (bit_vector);
}

proof fn lemma_file_terms_mirror(rooks: u64, own: u64, opp: u64, f: u64)
    requires
        f < 8,
    ensures
        rook_file_term(flip(rooks), flip(own), flip(opp), f) == rook_file_term(rooks, own, opp, f),
        isolated_term(flip(own), flip(opp), f) == isolated_term(own, opp, f),
        doubled_term(flip(own), f) == doubled_term(own, f),
{
    lemma_flip_file(f);
    lemma_flip_within(rooks, file_mask(f));
    lemma_flip_within(own, file_mask(f));
    lemma_flip_within(opp, file_mask(f));
    lemma_neighbours_flip(f);
    lemma_flip_within(own | opp, neighbours(f));
    assert(flip(own | opp) == flip(own) | flip(opp)) by (bit_vector);
}

proof fn lemma_file_sums_mirror(rooks: u64, own: u64, opp: u64, n: u64)
    requires
        n <= 8,
    ensures
        rook_files(flip(rooks), flip(own), flip(opp), n) == rook_files(rooks, own, opp, n),
        isolated(flip(own), flip(opp), n) == isolated(own, opp, n),
        doubled(flip(own), n) == doubled(own, n),
    decreases n,
{
    if n > 0 {
        lemma_file_sums_mirror(rooks, own, opp, (n - 1) as u64);
        lemma_file_terms_mirror(rooks, own, opp, (n - 1) as u64);
    }
}

proof fn lemma_passed_term_mirror(own: u64, opp: u64, r: u64)
    requires
        r < 8,
    ensures
        passed_term(flip(own), flip(opp), (7 - r) as u64) == passed_term(own, opp, r),
{
    lemma_flip_on_rank(own, r);
    lemma_flip_on_rank(opp, r);
}

proof fn lemma_passed_mirror(own: u64, opp: u64)
    ensures
        passed(flip(own), flip(opp), 8) == passed(own, opp, 8),
{
    reveal_with_fuel(passed, 9);
    lemma_passed_term_mirror(own, opp, 0);
    lemma_passed_term_mirror(own, opp, 1);
    lemma_passed_term_mirror(own, opp, 2);
    lemma_passed_term_mirror(own, opp, 3);
    lemma_passed_term_mirror(own, opp, 4);
    lemma_passed_term_mirror(own, opp, 5);
    lemma_passed_term_mirror(own, opp, 6);
    lemma_passed_term_mirror(own, opp, 7);
}

/// One side's positional terms are what the other side earns on the
/// mirrored board.
pub proof fn lemma_side_score_mirror(own: u64, opp: u64, bishops: u64, rooks: u64, white: bool)
    ensures
        side_score(flip(own), flip(opp), flip(bishops), flip(rooks), !white) == side_score(
            own,
            opp,
            bishops,
            rooks,
            white,
        ),
{
    lemma_flip_popcount(bishops);
    lemma_file_sums_mirror(rooks, own, opp, 8);
    lemma_passed_mirror(own, opp);
    lemma_flip_on_rank(rooks, seventh_rank(white));
    lemma_flip_on_rank(rooks, eighth_rank(white));
    lemma_flip_on_rank(own, seventh_rank(white));
    lemma_flip_center();
    lemma_flip_within(own, CENTER);
}

/// The evaluation is zero-sum: a position and its mirror image have
/// opposite centipawn values.
pub proof fn lemma_zero_sum(p: Placement)
    ensures
        numeric_evaluation(mirror(p)) == -numeric_evaluation(p),
{
    let m = mirror(p);
    lemma_balance_mirror(p.pawns, p.white, p.black);
    lemma_balance_mirror(p.knights, p.white, p.black);
    lemma_balance_mirror(p.bishops, p.white, p.black);
    lemma_balance_mirror(p.rooks, p.white, p.black);
    lemma_balance_mirror(p.queens, p.white, p.black);
    lemma_balance_mirror(p.kings, p.white, p.black);
    lemma_flip_and(p.pawns, p.white);
    lemma_flip_and(p.pawns, p.black);
    lemma_flip_and(p.bishops, p.white);
    lemma_flip_and(p.bishops, p.black);
    lemma_flip_and(p.rooks, p.white);
    lemma_flip_and(p.rooks, p.black);
    lemma_side_score_mirror(
        p.pawns & p.black,
        p.pawns & p.white,
        p.bishops & p.black,
        p.rooks & p.black,
        false,
    );
    lemma_side_score_mirror(
        p.pawns & p.white,
        p.pawns & p.black,
        p.bishops & p.white,
        p.rooks & p.white,
        true,
    );
}

/// A position and its mirror image have opposite scores: opposite
/// centipawn values, and a mate at the same ply for the other side.
pub proof fn lemma_evaluation_mirror(p: Placement)
    ensures
        evaluation(mirror(p)) == (match evaluation(p) {
            ScoreValue::Numeric(v) => ScoreValue::Numeric(-v),
            ScoreValue::MateForWhite(k) => ScoreValue::MateForBlack(k),
            ScoreValue::MateForBlack(k) => ScoreValue::MateForWhite(k),
        }),
{
    lemma_zero_sum(p);
}

proof fn lemma_file_sums_bounds(rooks: u64, own: u64, opp: u64, n: u64)
    ensures
        0 <= rook_files(rooks, own, opp, n) <= 10 * n,
        -10 * n <= isolated(own, opp, n) <= 0,
        -10 * n <= doubled(own, n) <= 0,
        0 <= passed(own, opp, n) <= 10 * n,
    decreases n,
{
    if n > 0 {
        lemma_file_sums_bounds(rooks, own, opp, (n - 1) as u64);
    }
}

proof fn lemma_side_score_bounds(own: u64, opp: u64, bishops: u64, rooks: u64, white: bool)
    ensures
        -160 <= side_score(own, opp, bishops, rooks, white) <= 600,
{
    lemma_file_sums_bounds(rooks, own, opp, 8);
    lemma_count_below_bound(own & CENTER, 64);
}

/// No position is worth as much as `EVAL_LIMIT` centipawns to either
/// side.
pub proof fn lemma_evaluation_bounds(p: Placement)
    ensures
        -EVAL_LIMIT < numeric_evaluation(p) < EVAL_LIMIT,
{
    lemma_count_below_bound(p.pawns & p.white, 64);
    lemma_count_below_bound(p.pawns & p.black, 64);
    lemma_count_below_bound(p.knights & p.white, 64);
    lemma_count_below_bound(p.knights & p.black, 64);
    lemma_count_below_bound(p.bishops & p.white, 64);
    lemma_count_below_bound(p.bishops & p.black, 64);
    lemma_count_below_bound(p.rooks & p.white, 64);
    lemma_count_below_bound(p.rooks & p.black, 64);
    lemma_count_below_bound(p.queens & p.white, 64);
    lemma_count_below_bound(p.queens & p.black, 64);
    lemma_count_below_bound(p.kings & p.white, 64);
    lemma_count_below_bound(p.kings & p.black, 64);
    lemma_side_score_bounds(
        p.pawns & p.white,
        p.pawns & p.black,
        p.bishops & p.white,
        p.rooks & p.white,
        true,
    );
    lemma_side_score_bounds(
        p.pawns & p.black,
        p.pawns & p.white,
        p.bishops & p.black,
        p.rooks & p.black,
        false,
    );
}

/// Nothing stands on the board but kings, as many of one colour as of the
/// other.
pub open spec fn bare_kings(p: Placement) -> bool {
    &&& p.pawns == 0
    &&& p.knights == 0
    &&& p.bishops == 0
    &&& p.rooks == 0
    &&& p.queens == 0
    &&& popcount(p.kings & p.white) == popcount(p.kings & p.black)
}

proof fn lemma_empty_side_sums(n: u64)
    requires
        n <= 8,
    ensures
        rook_files(0, 0, 0, n) == 0,
        isolated(0, 0, n) == 0,
        doubled(0, n) == 0,
        passed(0, 0, n) == 0,
    decreases n,
{
    if n > 0 {
        lemma_empty_side_sums((n - 1) as u64);
        lemma_empty_meets(file_mask((n - 1) as u64));
        lemma_empty_meets(rank_mask((n - 1) as u64));
        lemma_popcount_empty();
    }
}

/// Bare kings stand level: with nothing else on the board the score is 0
/// unless the side to move is checkmated.
pub proof fn lemma_bare_kings_level(p: Placement)
    requires
        bare_kings(p),
        p.status != Status::Checkmate,
    ensures
        evaluation(p) == ScoreValue::Numeric(0),
{
    lemma_empty_meets(p.white);
    lemma_empty_meets(p.black);
    lemma_popcount_empty();
    lemma_empty_side_sums(8);
    lemma_empty_meets(rank_mask(0));
    lemma_empty_meets(rank_mask(1));
    lemma_empty_meets(rank_mask(6));
    lemma_empty_meets(rank_mask(7));
    lemma_empty_meets(CENTER);
    assert(side_score(0, 0, 0, 0, true) == 0);
    assert(side_score(0, 0, 0, 0, false) == 0);
}

} // verus!
