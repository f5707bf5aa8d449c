//! Plain minimax over the same tree, and how the walker compares with it.

use crate::eval::{
    bare_kings, evaluation, lemma_bare_kings_level, lemma_evaluation_bounds, Status, EVAL_LIMIT,
};
use crate::rules::{expandable, legal_moves_of, standing_of, white_to_move_of, Move};
use crate::score::ScoreValue;
use crate::search::{absorb, continues, initial, scan, search, Outcome, Scan, ALPHA, BETA};
use vstd::prelude::*;

verus! {

/// What a full-width scan knows: the best score so far, the first move
/// that reached it, and whether any move was looked at.
pub struct Pick {
    pub best: ScoreValue,
    pub best_move: Move,
    pub found: bool,
}

/// The pick before the first move.
pub open spec fn unpicked(white: bool) -> Pick {
    Pick {
        best: ScoreValue::Numeric(
            if white {
                i32::MIN as int
            } else {
                i32::MAX as int
            },
        ),
        best_move: Move { from: 0, to: 0, promotion: None },
        found: false,
    }
}

/// The pick after the move `m` came back with the score `child`: White
/// keeps the first greatest score, Black the first least.
pub open spec fn pick(p: Pick, white: bool, m: Move, child: ScoreValue) -> Pick {
    let better = !p.found || (if white {
        p.best.lt(child)
    } else {
        child.lt(p.best)
    });
    Pick {
        best: if better {
            child
        } else {
            p.best
        },
        best_move: if better {
            m
        } else {
            p.best_move
        },
        found: true,
    }
}

/// The full-width scan of the moves `moves[i..]`: every move is looked at.
pub open spec fn full_scan(
    fen: Seq<char>,
    line: Seq<Move>,
    depth: nat,
    white: bool,
    moves: Seq<Move>,
    i: nat,
    p: Pick,
) -> Pick
    decreases depth, 0nat, moves.len() - i,
{
    if depth == 0 || i >= moves.len() {
        p
    } else {
        let child = minimax(fen, line.push(moves[i as int]), (depth - 1) as nat).score;
        full_scan(fen, line, depth, white, moves, i + 1, pick(p, white, moves[i as int], child))
    }
}

/// Minimax to `depth` plies without bounds or cutoffs, over the same
/// leaves, the same order of moves and the same counting of mates as
/// `search`.
pub open spec fn minimax(fen: Seq<char>, line: Seq<Move>, depth: nat) -> Outcome
    decreases depth, 1nat, 0nat,
{
    if depth == 0 || !expandable(fen, line) {
        Outcome {
            score: evaluation(standing_of(fen, line)),
            expanded: false,
            best_score: ScoreValue::Numeric(0),
            best_move: Move { from: 0, to: 0, promotion: None },
        }
    } else {
        let white = white_to_move_of(fen, line);
        let end = full_scan(fen, line, depth, white, legal_moves_of(fen, line), 0, unpicked(white));
        Outcome {
            score: end.best.deepen(),
            expanded: true,
            best_score: end.best,
            best_move: end.best_move,
        }
    }
}

/// A score as the evaluator gives it: a number inside the evaluation
/// limit, or a mate at ply 0.
pub open spec fn leaf_like(s: ScoreValue) -> bool {
    match s {
        ScoreValue::Numeric(v) => -EVAL_LIMIT < v < EVAL_LIMIT,
        ScoreValue::MateForWhite(k) => k == 0,
        ScoreValue::MateForBlack(k) => k == 0,
    }
}

/// The walker's state and the full-width pick agree one ply above the
/// leaves, under the widest bounds: same best score and move, and the
/// running bound of the side to move follows the best score.
pub open spec fn in_step(st: Scan, p: Pick, white: bool) -> bool {
    &&& st.best == p.best
    &&& st.best_move == p.best_move
    &&& st.found == p.found
    &&& p.found ==> leaf_like(p.best)
    &&& if white {
        &&& st.beta == ScoreValue::Numeric(BETA as int)
        &&& st.alpha == (if p.found && !(p.best is MateForBlack) {
            p.best
        } else {
            ScoreValue::Numeric(ALPHA as int)
        })
        &&& st.cut == (p.found && p.best is MateForWhite)
    } else {
        &&& st.alpha == ScoreValue::Numeric(ALPHA as int)
        &&& st.beta == (if p.found && !(p.best is MateForWhite) {
            p.best
        } else {
            ScoreValue::Numeric(BETA as int)
        })
        &&& st.cut == (p.found && p.best is MateForBlack)
    }
}

proof fn lemma_leaf_scores(fen: Seq<char>, line: Seq<Move>, alpha: int, beta: int)
    ensures
        search(fen, line, 0, alpha, beta).score == minimax(fen, line, 0).score,
        leaf_like(minimax(fen, line, 0).score),
{
    lemma_evaluation_bounds(standing_of(fen, line));
}

proof fn lemma_full_scan_settled(
    fen: Seq<char>,
    line: Seq<Move>,
    white: bool,
    moves: Seq<Move>,
    i: nat,
    p: Pick,
)
    requires
        p.found,
        p.best == (if white {
            ScoreValue::MateForWhite(0)
        } else {
            ScoreValue::MateForBlack(0)
        }),
    ensures
        full_scan(fen, line, 1, white, moves, i, p) == p,
    decreases moves.len() - i,
{
    if i < moves.len() {
        lemma_leaf_scores(fen, line.push(moves[i as int]), 0, 0);
        lemma_full_scan_settled(fen, line, white, moves, i + 1, p);
    }
}

proof fn lemma_scan_in_step(
    fen: Seq<char>,
    line: Seq<Move>,
    white: bool,
    moves: Seq<Move>,
    i: nat,
    st: Scan,
    p: Pick,
)
    requires
        in_step(st, p, white),
    ensures
        ({
            let end = scan(fen, line, 1, white, moves, i, st);
            let full = full_scan(fen, line, 1, white, moves, i, p);
            end.best == full.best && end.best_move == full.best_move
        }),
    decreases moves.len() - i,
{
    if i >= moves.len() {
    } else if st.cut {
        lemma_full_scan_settled(fen, line, white, moves, i, p);
    } else {
        let m = moves[i as int];
        lemma_leaf_scores(fen, line.push(m), st.beta.numeric_part(), st.alpha.numeric_part());
        let child = minimax(fen, line.push(m), 0).score;
        lemma_scan_in_step(
            fen,
            line,
            white,
            moves,
            i + 1,
            absorb(st, white, m, child),
            pick(p, white, m, child),
        );
    }
}

/// One ply above the leaves the cutoffs change nothing: a search to depth
/// 0 or 1 under the widest bounds returns the score and the move of plain
/// minimax over the same tree.
pub proof fn lemma_pruning_equivalence(fen: Seq<char>, line: Seq<Move>, depth: nat)
    requires
        depth <= 1,
    ensures
        search(fen, line, depth, ALPHA as int, BETA as int) == minimax(fen, line, depth),
{
    if depth == 1 && expandable(fen, line) {
        let white = white_to_move_of(fen, line);
        lemma_scan_in_step(
            fen,
            line,
            white,
            legal_moves_of(fen, line),
            0,
            initial(white, ALPHA as int, BETA as int),
            unpicked(white),
        );
    }
}

/// The scan of `moves[i..]` from the state `st` skips no move: it is not
/// cut while moves remain, and every search below it is full-width too.
pub open spec fn scan_full_width(
    fen: Seq<char>,
    line: Seq<Move>,
    depth: nat,
    white: bool,
    moves: Seq<Move>,
    i: nat,
    st: Scan,
) -> bool
    decreases depth, 0nat, moves.len() - i,
{
    if depth == 0 || i >= moves.len() {
        true
    } else {
        let m = moves[i as int];
        let alpha = st.beta.numeric_part();
        let beta = st.alpha.numeric_part();
        let child = search(fen, line.push(m), (depth - 1) as nat, alpha, beta).score;
        &&& !st.cut
        &&& full_width(fen, line.push(m), (depth - 1) as nat, alpha, beta)
        &&& scan_full_width(fen, line, depth, white, moves, i + 1, absorb(st, white, m, child))
    }
}

/// The search of the node reached by `line` looks at every move of every
/// node down to `depth` plies: no cutoff skips a move.
pub open spec fn full_width(
    fen: Seq<char>,
    line: Seq<Move>,
    depth: nat,
    alpha: int,
    beta: int,
) -> bool
    decreases depth, 1nat, 0nat,
{
    if depth == 0 || !expandable(fen, line) {
        true
    } else {
        let white = white_to_move_of(fen, line);
        scan_full_width(
            fen,
            line,
            depth,
            white,
            legal_moves_of(fen, line),
            0,
            initial(white, alpha, beta),
        )
    }
}

proof fn lemma_scan_full_width(
    fen: Seq<char>,
    line: Seq<Move>,
    depth: nat,
    white: bool,
    moves: Seq<Move>,
    i: nat,
    st: Scan,
    p: Pick,
)
    requires
        depth > 0,
        scan_full_width(fen, line, depth, white, moves, i, st),
        st.best == p.best,
        st.best_move == p.best_move,
        st.found == p.found,
    ensures
        ({
            let end = scan(fen, line, depth, white, moves, i, st);
            let full = full_scan(fen, line, depth, white, moves, i, p);
            end.best == full.best && end.best_move == full.best_move
        }),
    decreases depth, 0nat, moves.len() - i,
{
    if i < moves.len() {
        let m = moves[i as int];
        let alpha = st.beta.numeric_part();
        let beta = st.alpha.numeric_part();
        lemma_full_width_is_minimax(fen, line.push(m), (depth - 1) as nat, alpha, beta);
        let child = minimax(fen, line.push(m), (depth - 1) as nat).score;
        lemma_scan_full_width(
            fen,
            line,
            depth,
            white,
            moves,
            i + 1,
            absorb(st, white, m, child),
            pick(p, white, m, child),
        );
    }
}

/// Without cutoffs the walker is minimax: where a search skips no move,
/// under whatever bounds, it returns the score and the move of plain
/// minimax over the same tree.
pub proof fn lemma_full_width_is_minimax(
    fen: Seq<char>,
    line: Seq<Move>,
    depth: nat,
    alpha: int,
    beta: int,
)
    requires
        full_width(fen, line, depth, alpha, beta),
    ensures
        search(fen, line, depth, alpha, beta) == minimax(fen, line, depth),
    decreases depth, 1nat, 0nat,
{
    if depth > 0 && expandable(fen, line) {
        let white = white_to_move_of(fen, line);
        lemma_scan_full_width(
            fen,
            line,
            depth,
            white,
            legal_moves_of(fen, line),
            0,
            initial(white, alpha, beta),
            unpicked(white),
        );
    }
}

/// The node reached by `node` stands level, and has a legal move where
/// the game goes on.
pub open spec fn level_node(fen: Seq<char>, node: Seq<Move>) -> bool {
    &&& evaluation(standing_of(fen, node)) == ScoreValue::Numeric(0)
    &&& expandable(fen, node) ==> legal_moves_of(fen, node).len() > 0
}

/// Every node that legal moves reach within `depth` plies of the node
/// reached by `line`, that node among them, stands level.
pub open spec fn level_below(fen: Seq<char>, line: Seq<Move>, depth: nat) -> bool {
    forall|ext: Seq<Move>|
        ext.len() <= depth && continues(fen, line, ext) ==> #[trigger] level_node(fen, line + ext)
}

proof fn lemma_level_below_step(fen: Seq<char>, line: Seq<Move>, depth: nat, m: Move)
    requires
        depth > 0,
        level_below(fen, line, depth),
        expandable(fen, line),
        legal_moves_of(fen, line).contains(m),
    ensures
        level_below(fen, line.push(m), (depth - 1) as nat),
{
    assert forall|ext: Seq<Move>|
        ext.len() <= depth - 1 && continues(fen, line.push(m), ext) implies #[trigger] level_node(
        fen,
        line.push(m) + ext,
    ) by {
        let longer = seq![m] + ext;
        assert(line + longer =~= line.push(m) + ext);
        assert forall|i: int| 0 <= i < longer.len() implies {
            &&& expandable(fen, line + #[trigger] longer.take(i))
            &&& legal_moves_of(fen, line + longer.take(i)).contains(longer[i])
        } by {
            if i == 0 {
                assert(line + longer.take(0) =~= line);
            } else {
                assert(line + longer.take(i) =~= line.push(m) + ext.take(i - 1));
                assert(longer[i] == ext[i - 1]);
            }
        }
        assert(level_node(fen, line + longer));
    }
}

proof fn lemma_scan_level(
    fen: Seq<char>,
    line: Seq<Move>,
    depth: nat,
    white: bool,
    moves: Seq<Move>,
    i: nat,
    st: Scan,
)
    requires
        depth > 0,
        level_below(fen, line, depth),
        expandable(fen, line),
        moves == legal_moves_of(fen, line),
        st.found ==> st.best == ScoreValue::Numeric(0),
        st.found || (i < moves.len() && !st.cut),
    ensures
        scan(fen, line, depth, white, moves, i, st).best == ScoreValue::Numeric(0),
    decreases depth, 0nat, moves.len() - i,
{
    if !(i >= moves.len() || st.cut) {
        let m = moves[i as int];
        assert(moves.contains(m));
        lemma_level_below_step(fen, line, depth, m);
        lemma_level_tree(
            fen,
            line.push(m),
            (depth - 1) as nat,
            st.beta.numeric_part(),
            st.alpha.numeric_part(),
        );
        let child = search(
            fen,
            line.push(m),
            (depth - 1) as nat,
            st.beta.numeric_part(),
            st.alpha.numeric_part(),
        ).score;
        lemma_scan_level(fen, line, depth, white, moves, i + 1, absorb(st, white, m, child));
    }
}

/// A level tree searches to 0: where every node within `depth` plies
/// stands level, as with bare kings, the search returns the score 0
/// under whatever bounds.
pub proof fn lemma_level_tree(fen: Seq<char>, line: Seq<Move>, depth: nat, alpha: int, beta: int)
    requires
        level_below(fen, line, depth),
    ensures
        search(fen, line, depth, alpha, beta).score == ScoreValue::Numeric(0),
    decreases depth, 1nat, 0nat,
{
    let none = Seq::<Move>::empty();
    assert(line + none =~= line);
    assert(continues(fen, line, none));
    assert(level_node(fen, line + none));
    if depth > 0 && expandable(fen, line) {
        let white = white_to_move_of(fen, line);
        lemma_scan_level(
            fen,
            line,
            depth,
            white,
            legal_moves_of(fen, line),
            0,
            initial(white, alpha, beta),
        );
    }
}

/// Only kings stand on the board of the node reached by `node`, the side
/// to move is not checkmated, and there is a legal move where the game
/// goes on.
pub open spec fn bare_node(fen: Seq<char>, node: Seq<Move>) -> bool {
    &&& bare_kings(standing_of(fen, node))
    &&& standing_of(fen, node).status != Status::Checkmate
    &&& expandable(fen, node) ==> legal_moves_of(fen, node).len() > 0
}

/// With bare kings the score is 0 at every depth: where only kings stand
/// on the board of every node that legal moves reach within `depth`
/// plies, the search returns the score 0.
pub proof fn lemma_bare_kings_search(
    fen: Seq<char>,
    line: Seq<Move>,
    depth: nat,
    alpha: int,
    beta: int,
)
    requires
        forall|ext: Seq<Move>|
            ext.len() <= depth && continues(fen, line, ext) ==> #[trigger] bare_node(
                fen,
                line + ext,
            ),
    ensures
        search(fen, line, depth, alpha, beta).score == ScoreValue::Numeric(0),
{
    assert forall|ext: Seq<Move>|
        ext.len() <= depth && continues(fen, line, ext) implies #[trigger] level_node(
        fen,
        line + ext,
    ) by {
        assert(bare_node(fen, line + ext));
        lemma_bare_kings_level(standing_of(fen, line + ext));
    }
    lemma_level_tree(fen, line, depth, alpha, beta);
}

} // verus!
