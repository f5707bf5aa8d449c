//! The tree walker: a bounded-depth search of the legal-move tree with
//! window cutoffs.

use crate::eval::{evaluate, evaluation, Status};
use crate::rules::{
    copy_line, expandable, legal_moves_at, legal_moves_of, lemma_playable_push, observe,
    lands_on_no_king, replayable, sound, standing_of, status_of, white_to_move_of, Move,
    Position, PositionView,
};
use crate::score::{Score, ScoreValue};
use vstd::prelude::*;

verus! {

/// The lowest bound a search can be given.
pub const ALPHA: i32 = i32::MIN;

/// The highest bound a search can be given.
pub const BETA: i32 = i32::MAX;

/// What a node knows while its moves are looked at, as mathematical values.
pub struct Scan {
    /// The best score among the moves looked at.
    pub best: ScoreValue,
    /// The first move that reached `best`.
    pub best_move: Move,
    /// Whether any move was looked at.
    pub found: bool,
    /// The running lower bound.
    pub alpha: ScoreValue,
    /// The running upper bound.
    pub beta: ScoreValue,
    /// Whether the bounds have met, which ends the scan.
    pub cut: bool,
}

/// The state before the first move: no move found, the bounds as given.
/// `best` holds the numeric extreme against the side to move, which is what
/// a node without moves reports.
pub open spec fn initial(white: bool, alpha: int, beta: int) -> Scan {
    Scan {
        best: ScoreValue::Numeric(
            if white {
                i32::MIN as int
            } else {
                i32::MAX as int
            },
        ),
        best_move: Move { from: 0, to: 0, promotion: None },
        found: false,
        alpha: ScoreValue::Numeric(alpha),
        beta: ScoreValue::Numeric(beta),
        cut: false,
    }
}

/// The state after the move `m` came back with the score `child`. White
/// keeps the first greatest score and raises `alpha` to it; Black keeps the
/// first least score and lowers `beta` to it. The scan is cut once `alpha`
/// is no longer below `beta`.
pub open spec fn absorb(st: Scan, white: bool, m: Move, child: ScoreValue) -> Scan {
    if white {
        let better = !st.found || st.best.lt(child);
        let alpha = if st.alpha.lt(child) {
            child
        } else {
            st.alpha
        };
        Scan {
            best: if better {
                child
            } else {
                st.best
            },
            best_move: if better {
                m
            } else {
                st.best_move
            },
            found: true,
            alpha,
            beta: st.beta,
            cut: !alpha.lt(st.beta),
        }
    } else {
        let better = !st.found || child.lt(st.best);
        let beta = if child.lt(st.beta) {
            child
        } else {
            st.beta
        };
        Scan {
            best: if better {
                child
            } else {
                st.best
            },
            best_move: if better {
                m
            } else {
                st.best_move
            },
            found: true,
            alpha: st.alpha,
            beta,
            cut: !st.alpha.lt(beta),
        }
    }
}

/// What a search of one node yields.
pub struct Outcome {
    /// The score handed to the parent.
    pub score: ScoreValue,
    /// Whether the node's moves were looked at. A node at depth 0 and one
    /// where the game has ended are scored as they stand.
    pub expanded: bool,
    /// For an expanded node, the best score among its moves.
    pub best_score: ScoreValue,
    /// For an expanded node, the move that reached it.
    pub best_move: Move,
}

/// The scan of the moves `moves[i..]` of the node reached by `line`, from
/// the state `st`. Each move is searched one ply less deep, with the node's
/// running bounds handed down in exchanged roles and as plain numbers: the
/// child's lower bound is the numeric part of `beta`, its upper bound that
/// of `alpha`.
pub open spec fn scan(
    fen: Seq<char>,
    line: Seq<Move>,
    depth: nat,
    white: bool,
    moves: Seq<Move>,
    i: nat,
    st: Scan,
) -> Scan
    decreases depth, 0nat, moves.len() - i,
{
    if depth == 0 || i >= moves.len() || st.cut {
        st
    } else {
        let child = search(
            fen,
            line.push(moves[i as int]),
            (depth - 1) as nat,
            st.beta.numeric_part(),
            st.alpha.numeric_part(),
        ).score;
        scan(fen, line, depth, white, moves, i + 1, absorb(st, white, moves[i as int], child))
    }
}

/// The search of the node reached by `line` to `depth` plies within the
/// bounds `alpha` and `beta`.
pub open spec fn search(
    fen: Seq<char>,
    line: Seq<Move>,
    depth: nat,
    alpha: int,
    beta: int,
) -> Outcome
    decreases depth, 1nat, 0nat,
{
    if depth == 0 || !expandable(fen, line) {
        Outcome {
            score: evaluation(standing_of(fen, line)),
            expanded: false,
            best_score: ScoreValue::Numeric(0),
            best_move: Move { from: 0, to: 0, promotion: None },
        }
    } else {
        let white = white_to_move_of(fen, line);
        let end = scan(
            fen,
            line,
            depth,
            white,
            legal_moves_of(fen, line),
            0,
            initial(white, alpha, beta),
        );
        Outcome {
            score: end.best.deepen(),
            expanded: true,
            best_score: end.best,
            best_move: end.best_move,
        }
    }
}

/// A mate score counts no more plies than `depth`, up from 0 for White
/// and down from 0 for Black.
pub open spec fn within_depth(s: ScoreValue, depth: int) -> bool {
    match s {
        ScoreValue::MateForWhite(p) => 0 <= p <= depth,
        ScoreValue::MateForBlack(p) => -depth <= p <= 0,
        ScoreValue::Numeric(_) => true,
    }
}

/// What a node knows while its moves are looked at.
#[derive(Clone, Copy, Debug)]
pub struct Tally {
    pub best: Score,
    pub best_move: Move,
    pub found: bool,
    pub alpha: Score,
    pub beta: Score,
    pub cut: bool,
}

impl View for Tally {
    type V = Scan;

    open spec fn view(&self) -> Scan {
        Scan {
            best: self.best@,
            best_move: self.best_move,
            found: self.found,
            alpha: self.alpha@,
            beta: self.beta@,
            cut: self.cut,
        }
    }
}

impl Tally {
    /// The tally before the first move of a node.
    pub fn start(white: bool, alpha: i32, beta: i32) -> (t: Tally)
        ensures
            t@ == initial(white, alpha as int, beta as int),
    {
        Tally {
            best: Score::new_eval(
                if white {
                    i32::MIN
                } else {
                    i32::MAX
                },
            ),
            best_move: Move::default(),
            found: false,
            alpha: Score::new_eval(alpha),
            beta: Score::new_eval(beta),
            cut: false,
        }
    }

    /// Takes in the score `child` that the move `m` came back with.
    pub fn absorb(self, white: bool, m: Move, child: Score) -> (t: Tally)
        ensures
            t@ == absorb(self@, white, m, child@),
    {
        let mut t = self;
        if white {
            if !t.found || child > t.best {
                t.best = child;
                t.best_move = m;
            }
            if child > t.alpha {
                t.alpha = child;
            }
        } else {
            if !t.found || child < t.best {
                t.best = child;
                t.best_move = m;
            }
            if child < t.beta {
                t.beta = child;
            }
        }
        t.found = true;
        t.cut = t.alpha >= t.beta;
        t
    }
}

/// What a search of one node yields.
#[derive(Clone, Copy, Debug)]
pub struct Found {
    /// The score handed to the parent.
    pub score: Score,
    /// Whether the node's moves were looked at.
    pub expanded: bool,
    /// For an expanded node, the best score among its moves.
    pub best_score: Score,
    /// For an expanded node, the move that reached it.
    pub best_move: Move,
}

impl View for Found {
    type V = Outcome;

    open spec fn view(&self) -> Outcome {
        Outcome {
            score: self.score@,
            expanded: self.expanded,
            best_score: self.best_score@,
            best_move: self.best_move,
        }
    }
}

/// Searches the node reached by `line`, which is left as it was found.
fn walk(fen: &str, line: &mut Vec<Move>, depth: u8, alpha: i32, beta: i32) -> (r: Found)
    requires
        replayable(fen@, old(line)@),
    ensures
        final(line)@ == old(line)@,
        r@ == search(fen@, old(line)@, depth as nat, alpha as int, beta as int),
        within_depth(r.score@, depth as int),
        r.expanded ==> legal_moves_of(fen@, old(line)@).contains(r.best_move),
    decreases depth,
{
    let ghost line0 = line@;
    let placement = observe(fen, line);
    if depth == 0 || !placement.searchable() {
        let score = evaluate(&placement);
        return Found {
            score,
            expanded: false,
            best_score: Score::new_eval(0),
            best_move: Move::default(),
        };
    }
    let moves = legal_moves_at(fen, line);
    if !lands_on_no_king(placement.kings, &moves) {
        let score = evaluate(&placement);
        return Found {
            score,
            expanded: false,
            best_score: Score::new_eval(0),
            best_move: Move::default(),
        };
    }
    let white = placement.white_to_move;
    let mut tally = Tally::start(white, alpha, beta);
    let mut i: usize = 0;
    while i < moves.len() && !tally.cut
        invariant
            depth > 0,
            i <= moves.len(),
            line@ == line0,
            replayable(fen@, line0),
            expandable(fen@, line0),
            moves@.len() > 0,
            i > 0 || tally.cut ==> tally.found,
            tally.found ==> moves@.contains(tally.best_move),
            moves@ == legal_moves_of(fen@, line0),
            forall|j: int| 0 <= j < moves@.len() ==> (#[trigger] moves@[j]).wf(),
            within_depth(tally.best@, depth - 1),
            scan(fen@, line0, depth as nat, white, moves@, i as nat, tally@) == scan(
                fen@,
                line0,
                depth as nat,
                white,
                moves@,
                0,
                initial(white, alpha as int, beta as int),
            ),
        decreases moves.len() - i,
    {
        let m = moves[i];
        proof {
            lemma_playable_push(fen@, line0, m);
        }
        line.push(m);
        let child = walk(fen, line, depth - 1, tally.beta.eval(), tally.alpha.eval());
        line.pop();
        tally = tally.absorb(white, m, child.score);
        i = i + 1;
    }
    Found {
        score: tally.best.deepen(),
        expanded: true,
        best_score: tally.best,
        best_move: tally.best_move,
    }
}

/// What a searcher holds, as mathematical values.
pub struct SearcherView {
    pub position: PositionView,
    pub depth: nat,
    pub best_move: Move,
    pub best_score: ScoreValue,
}

/// One node of the search tree: a position, the depth it is to be searched
/// to, and the best move and score that the last search of it found. The
/// nodes below it are not kept once they have given their score.
pub struct Searcher {
    position: Position,
    depth: u8,
    best_move: Move,
    best_score: Score,
}

impl View for Searcher {
    type V = SearcherView;

    closed spec fn view(&self) -> SearcherView {
        SearcherView {
            position: self.position@,
            depth: self.depth as nat,
            best_move: self.best_move,
            best_score: self.best_score@,
        }
    }
}

impl Searcher {
    /// A node for `position`, to be searched `depth` plies deep. Until a
    /// search finds better it holds no move and the score 0.
    pub fn new(position: &Position, depth: u8) -> (s: Searcher)
        ensures
            s@ == (SearcherView {
                position: position@,
                depth: depth as nat,
                best_move: Move { from: 0, to: 0, promotion: None },
                best_score: ScoreValue::Numeric(0),
            }),
    {
        Searcher {
            position: position.duplicate(),
            depth,
            best_move: Move::default(),
            best_score: Score::new_eval(0),
        }
    }

    /// The depth of the next search.
    pub fn depth(&self) -> (d: u8)
        ensures
            d == self@.depth,
    {
        self.depth
    }

    /// The best move of the last search that looked at moves.
    pub fn best_move(&self) -> (m: Move)
        ensures
            m == self@.best_move,
    {
        self.best_move
    }

    /// The best score of the last search that looked at moves.
    pub fn best_score(&self) -> (s: Score)
        ensures
            s@ == self@.best_score,
    {
        self.best_score
    }

    /// Sets the depth of the next search.
    pub fn set_depth(&mut self, depth: u8)
        ensures
            final(self)@ == (SearcherView { depth: depth as nat, ..old(self)@ }),
    {
        self.depth = depth;
    }

    /// Searches the position to the node's depth within the bounds
    /// `alpha` and `beta`, and returns its score as the parent would see
    /// it. The moves are looked at where the depth is not 0 and the game
    /// goes on; then the best of them, a legal move, and its score are
    /// recorded. A position scored as it stands leaves the record alone.
    pub fn alpha_beta(&mut self, alpha: i32, beta: i32) -> (score: Score)
        ensures
            ({
                let before = old(self)@;
                let out = search(
                    before.position.fen,
                    before.position.line,
                    before.depth,
                    alpha as int,
                    beta as int,
                );
                &&& score@ == out.score
                &&& out.expanded == (before.depth > 0 && status_of(
                    before.position.fen,
                    before.position.line,
                ) == Status::Ongoing)
                &&& out.expanded ==> score@ == final(self)@.best_score.deepen()
                &&& out.expanded ==> legal_moves_of(
                    before.position.fen,
                    before.position.line,
                ).contains(final(self)@.best_move)
                &&& final(self)@ == (if out.expanded {
                    SearcherView { best_move: out.best_move, best_score: out.best_score, ..before }
                } else {
                    before
                })
            }),
    {
        let mut line = copy_line(self.position.line());
        let found = walk(self.position.fen(), &mut line, self.depth, alpha, beta);
        if found.expanded {
            self.best_move = found.best_move;
            self.best_score = found.best_score;
        }
        found.score
    }
}

/// The moves `ext` can be played one after another from the node reached
/// by `line`: each is made where the game goes on and is legal there.
pub open spec fn continues(fen: Seq<char>, line: Seq<Move>, ext: Seq<Move>) -> bool {
    forall|i: int|
        0 <= i < ext.len() ==> {
            &&& expandable(fen, line + #[trigger] ext.take(i))
            &&& legal_moves_of(fen, line + ext.take(i)).contains(ext[i])
        }
}

/// The side to move at the node reached by `line` is checkmated, and the
/// winner is White exactly when `white_wins` is set.
pub open spec fn mated(fen: Seq<char>, line: Seq<Move>, white_wins: bool) -> bool {
    &&& sound(fen, line)
    &&& status_of(fen, line) == Status::Checkmate
    &&& white_to_move_of(fen, line) != white_wins
}

/// The line `ext` bears out the score `s` at the node reached by `line`:
/// where `s` is a mate, `ext` is a playable line of as many plies as the
/// mate counts, at most `depth`, and ends with the loser checkmated.
pub open spec fn borne_out(
    fen: Seq<char>,
    line: Seq<Move>,
    s: ScoreValue,
    ext: Seq<Move>,
    depth: int,
) -> bool {
    match s {
        ScoreValue::MateForWhite(k) => {
            &&& 0 <= k <= depth
            &&& ext.len() == k
            &&& continues(fen, line, ext)
            &&& mated(fen, line + ext, true)
        },
        ScoreValue::MateForBlack(k) => {
            &&& -depth <= k <= 0
            &&& ext.len() == -k
            &&& continues(fen, line, ext)
            &&& mated(fen, line + ext, false)
        },
        ScoreValue::Numeric(_) => true,
    }
}

proof fn lemma_borne_out_step(
    fen: Seq<char>,
    line: Seq<Move>,
    m: Move,
    s: ScoreValue,
    ext: Seq<Move>,
    depth: int,
)
    requires
        expandable(fen, line),
        legal_moves_of(fen, line).contains(m),
        borne_out(fen, line.push(m), s, ext, depth - 1),
    ensures
        borne_out(fen, line, s.deepen(), seq![m] + ext, depth),
{
    let longer = seq![m] + ext;
    assert(line + longer =~= line.push(m) + ext);
    if s.is_mate() {
        assert forall|i: int| 0 <= i < longer.len() implies {
            &&& expandable(fen, line + #[trigger] longer.take(i))
            &&& legal_moves_of(fen, line + longer.take(i)).contains(longer[i])
        } by {
            if i > 0 {
                assert(line + longer.take(i) =~= line.push(m) + ext.take(i - 1));
            }
        }
    }
}

proof fn lemma_scan_mate(
    fen: Seq<char>,
    line: Seq<Move>,
    depth: nat,
    white: bool,
    moves: Seq<Move>,
    i: nat,
    st: Scan,
    at: int,
    ext: Seq<Move>,
) -> (r: (int, Seq<Move>))
    requires
        depth > 0,
        st.best.is_mate() ==> 0 <= at < moves.len() && borne_out(
            fen,
            line.push(moves[at]),
            st.best,
            ext,
            depth - 1,
        ),
    ensures
        ({
            let end = scan(fen, line, depth, white, moves, i, st);
            end.best.is_mate() ==> 0 <= r.0 < moves.len() && borne_out(
                fen,
                line.push(moves[r.0]),
                end.best,
                r.1,
                depth - 1,
            )
        }),
    decreases depth, 0nat, moves.len() - i,
{
    if i >= moves.len() || st.cut {
        (at, ext)
    } else {
        let m = moves[i as int];
        let below = lemma_search_mate(
            fen,
            line.push(m),
            (depth - 1) as nat,
            st.beta.numeric_part(),
            st.alpha.numeric_part(),
        );
        let child = search(
            fen,
            line.push(m),
            (depth - 1) as nat,
            st.beta.numeric_part(),
            st.alpha.numeric_part(),
        ).score;
        let next = absorb(st, white, m, child);
        if next.best_move == m && next.best == child {
            lemma_scan_mate(fen, line, depth, white, moves, i + 1, next, i as int, below)
        } else {
            lemma_scan_mate(fen, line, depth, white, moves, i + 1, next, at, ext)
        }
    }
}

/// A reported mate stands on the board: where a search to `depth` plies
/// returns a mate that counts `k` plies, some line of `k` legal moves from
/// the node, `k` no more than `depth`, ends with the loser checkmated. The
/// line is returned.
pub proof fn lemma_search_mate(
    fen: Seq<char>,
    line: Seq<Move>,
    depth: nat,
    alpha: int,
    beta: int,
) -> (ext: Seq<Move>)
    ensures
        borne_out(fen, line, search(fen, line, depth, alpha, beta).score, ext, depth as int),
    decreases depth, 1nat, 0nat,
{
    if depth == 0 || !expandable(fen, line) {
        Seq::<Move>::empty()
    } else {
        let white = white_to_move_of(fen, line);
        let moves = legal_moves_of(fen, line);
        let start = initial(white, alpha, beta);
        let (at, below) = lemma_scan_mate(
            fen,
            line,
            depth,
            white,
            moves,
            0,
            start,
            0,
            Seq::<Move>::empty(),
        );
        let end = scan(fen, line, depth, white, moves, 0, start);
        if end.best.is_mate() {
            lemma_borne_out_step(fen, line, moves[at], end.best, below, depth as int);
            seq![moves[at]] + below
        } else {
            Seq::<Move>::empty()
        }
    }
}

proof fn lemma_scan_keeps_to_the_moves(
    fen: Seq<char>,
    line: Seq<Move>,
    depth: nat,
    white: bool,
    moves: Seq<Move>,
    i: nat,
    st: Scan,
)
    requires
        st.found ==> moves.contains(st.best_move),
        st.found || (i < moves.len() && !st.cut && depth > 0),
    ensures
        ({
            let end = scan(fen, line, depth, white, moves, i, st);
            end.found && moves.contains(end.best_move)
        }),
    decreases depth, 0nat, moves.len() - i,
{
    if !(depth == 0 || i >= moves.len() || st.cut) {
        let m = moves[i as int];
        let child = search(
            fen,
            line.push(m),
            (depth - 1) as nat,
            st.beta.numeric_part(),
            st.alpha.numeric_part(),
        ).score;
        lemma_scan_keeps_to_the_moves(
            fen,
            line,
            depth,
            white,
            moves,
            i + 1,
            absorb(st, white, m, child),
        );
    }
}

/// The move that a search records is one of the moves of the position:
/// where a node is expanded and has a legal move, its best move is a
/// legal move.
pub proof fn lemma_best_move_is_legal(
    fen: Seq<char>,
    line: Seq<Move>,
    depth: nat,
    alpha: int,
    beta: int,
)
    requires
        search(fen, line, depth, alpha, beta).expanded,
        legal_moves_of(fen, line).len() > 0,
    ensures
        legal_moves_of(fen, line).contains(search(fen, line, depth, alpha, beta).best_move),
{
    let white = white_to_move_of(fen, line);
    lemma_scan_keeps_to_the_moves(
        fen,
        line,
        depth,
        white,
        legal_moves_of(fen, line),
        0,
        initial(white, alpha, beta),
    );
}

} // verus!
