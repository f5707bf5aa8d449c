//! The rules of the game, as far as the engine needs them: which moves a
//! position allows, whose turn it is, what stands where and whether the game
//! has ended. A position is named by the text it was set up from and the
//! moves played since; the `chess` crate answers every question about it.

use crate::bits::{popcount, square_bit, square_mask};
use crate::eval::{searchable, stands_sound, Placement, Status, MAX_MEN};
use chess::{
    Board, BoardBuilder, BoardStatus, ChessMove, MoveGen, ALL_COLORS, ALL_PIECES, ALL_SQUARES,
};
use std::str::FromStr;
use vstd::prelude::*;

verus! {

/// The index of a kind of man, as the `chess` crate counts them.
pub const PAWN: u8 = 0;

pub const KNIGHT: u8 = 1;

pub const BISHOP: u8 = 2;

pub const ROOK: u8 = 3;

pub const QUEEN: u8 = 4;

pub const KING: u8 = 5;

/// The index of a colour, as the `chess` crate counts them.
pub const WHITE: u8 = 0;

pub const BLACK: u8 = 1;

/// A move: the square left, the square reached (each `8 * rank + file`)
/// and, for a pawn reaching the last rank, the kind of man it becomes.
#[derive(Clone, Copy, Debug, PartialEq, Eq, Structural)]
pub struct Move {
    pub from: u8,
    pub to: u8,
    pub promotion: Option<u8>,
}

impl Move {
    /// Both squares are on the board and the promotion, if any, names a
    /// kind of man.
    pub open spec fn wf(self) -> bool {
        &&& self.from < 64
        &&& self.to < 64
        &&& self.promotion matches Some(kind) ==> kind < 6
    }

    pub fn new(from: u8, to: u8, promotion: Option<u8>) -> (m: Move)
        ensures
            m == (Move { from, to, promotion }),
    {
        Move { from, to, promotion }
    }

    /// Whether both squares are on the board and the promotion, if any,
    /// names a kind of man.
    pub fn is_wf(&self) -> (b: bool)
        ensures
            b == self.wf(),
    {
        self.from < 64 && self.to < 64 && match self.promotion {
            Some(kind) => kind < 6,
            None => true,
        }
    }
}

impl Default for Move {
    /// The move from a1 to a1, which no position allows: it stands for "no
    /// move".
    fn default() -> (m: Move)
        ensures
            m == (Move { from: 0, to: 0, promotion: None }),
    {
        Move { from: 0, to: 0, promotion: None }
    }
}

/// Whether `BoardBuilder::from_str` accepts the text `fen`.
pub uninterp spec fn setup_parses(fen: Seq<char>) -> bool;

/// The index of the colour that `BoardBuilder::get_side_to_move` gives on
/// the setup that `BoardBuilder::from_str` reads from `fen`.
pub uninterp spec fn setup_mover_of(fen: Seq<char>) -> u8;

/// What the setup read from `fen` holds on `square`: nothing, or the index
/// of a kind of man and the index of its colour.
pub uninterp spec fn setup_man_of(fen: Seq<char>, square: u8) -> Option<(u8, u8)>;

/// Whether `Board::from_str` accepts the text `fen`.
pub uninterp spec fn fen_parses(fen: Seq<char>) -> bool;

/// What `Board::color_combined` holds for the colour with index `color`
/// after the moves `line` were made from the board of `fen`.
pub uninterp spec fn color_bits_of(fen: Seq<char>, line: Seq<Move>, color: u8) -> u64;

/// What `Board::pieces` holds for the kind of man `kind` after the moves
/// `line` were made from the board of `fen`.
pub uninterp spec fn piece_bits_of(fen: Seq<char>, line: Seq<Move>, kind: u8) -> u64;

/// The index of the colour to move after the moves `line` were made from
/// the board of `fen`: the mover of the setup, exchanged once for each
/// move.
pub open spec fn mover_of(fen: Seq<char>, line: Seq<Move>) -> u8 {
    if line.len() % 2 == 0 {
        setup_mover_of(fen)
    } else if setup_mover_of(fen) == WHITE {
        BLACK
    } else {
        WHITE
    }
}

/// White is to move after the moves `line` were made from the board of
/// `fen`.
pub open spec fn white_to_move_of(fen: Seq<char>, line: Seq<Move>) -> bool {
    mover_of(fen, line) == WHITE
}

/// What `Board::status` says after the moves `line` were made from the
/// board of `fen`.
pub uninterp spec fn status_of(fen: Seq<char>, line: Seq<Move>) -> Status;

/// The moves that `MoveGen::new_legal` yields, in its order, after the
/// moves `line` were made from the board of `fen`.
pub uninterp spec fn legal_moves_of(fen: Seq<char>, line: Seq<Move>) -> Seq<Move>;

/// The move that `ChessMove::from_str` reads from `text`, if it reads
/// one.
pub uninterp spec fn move_written(text: Seq<char>) -> Option<Move>;

/// The text that `ChessMove` writes for the move `m` when it is
/// displayed.
pub uninterp spec fn move_text_of(m: Move) -> Seq<char>;

/// Neither side has more than `MAX_MEN` men. The move generator fills a
/// list of eighteen entries without looking at its length: one entry for
/// each man of the side to move that can move and at most two more for
/// captures in passing. Each side is to move at every other ply, so both
/// are held to the limit.
pub open spec fn sparse(fen: Seq<char>, line: Seq<Move>) -> bool {
    &&& popcount(color_bits_of(fen, line, WHITE)) <= MAX_MEN
    &&& popcount(color_bits_of(fen, line, BLACK)) <= MAX_MEN
}

/// Each side has exactly one king. The move generator and the making of
/// a move look up a king's square without testing that there is one.
pub open spec fn kinged(fen: Seq<char>, line: Seq<Move>) -> bool {
    &&& popcount(piece_bits_of(fen, line, KING) & color_bits_of(fen, line, WHITE)) == 1
    &&& popcount(piece_bits_of(fen, line, KING) & color_bits_of(fen, line, BLACK)) == 1
}

/// The board reached by `line` can be handed to the move generator.
pub open spec fn sound(fen: Seq<char>, line: Seq<Move>) -> bool {
    sparse(fen, line) && kinged(fen, line)
}

/// The move `m` lands on no king of the board reached by `line`.
pub open spec fn spares_kings(fen: Seq<char>, line: Seq<Move>, m: Move) -> bool {
    piece_bits_of(fen, line, KING) & square_mask(m.to) == 0
}

/// No legal move on the board reached by `line` lands on a king, so the
/// board after any of them can be built: a move that takes a king leaves
/// the board without the square it looks up next. In a game no move does.
pub open spec fn calm(fen: Seq<char>, line: Seq<Move>) -> bool {
    forall|i: int|
        0 <= i < legal_moves_of(fen, line).len() ==> spares_kings(
            fen,
            line,
            #[trigger] legal_moves_of(fen, line)[i],
        )
}

/// Every move of `line` was made on a sound and calm board and was legal
/// there.
pub open spec fn legal_line(fen: Seq<char>, line: Seq<Move>) -> bool {
    forall|i: int|
        0 <= i < line.len() ==> {
            &&& sound(fen, #[trigger] line.take(i))
            &&& calm(fen, line.take(i))
            &&& legal_moves_of(fen, line.take(i)).contains(line[i])
            &&& line[i].wf()
        }
}

/// The side to move has a king on the setup read from `fen`.
pub open spec fn mover_has_king(fen: Seq<char>) -> bool {
    exists|square: u8|
        square < 64 && #[trigger] setup_man_of(fen, square) == Some((KING, setup_mover_of(fen)))
}

/// The text can be handed to `Board::from_str`: it reads as a setup and
/// the side to move has a king, whose square the board looks up before it
/// checks anything.
pub open spec fn settable(fen: Seq<char>) -> bool {
    setup_parses(fen) && mover_has_king(fen)
}

/// The text sets up a board and the moves of the line can be made on it
/// one after another: the board reached by `line` can be read.
pub open spec fn replayable(fen: Seq<char>, line: Seq<Move>) -> bool {
    settable(fen) && fen_parses(fen) && legal_line(fen, line)
}

/// The board reached by `line` can be read and handed to the move
/// generator.
pub open spec fn generable(fen: Seq<char>, line: Seq<Move>) -> bool {
    replayable(fen, line) && sound(fen, line)
}

/// The board reached by `line` can be read and handed to the move
/// generator, and every legal move can be made on it.
pub open spec fn playable(fen: Seq<char>, line: Seq<Move>) -> bool {
    generable(fen, line) && calm(fen, line)
}

/// The board after a legal move on a playable line can be read.
pub proof fn lemma_playable_push(fen: Seq<char>, line: Seq<Move>, m: Move)
    requires
        playable(fen, line),
        legal_moves_of(fen, line).contains(m),
        m.wf(),
    ensures
        replayable(fen, line.push(m)),
{
    let next = line.push(m);
    assert forall|i: int| 0 <= i < next.len() implies {
        &&& sound(fen, #[trigger] next.take(i))
        &&& calm(fen, next.take(i))
        &&& legal_moves_of(fen, next.take(i)).contains(next[i])
        &&& next[i].wf()
    } by {
        if i < line.len() {
            assert(next.take(i) =~= line.take(i));
        } else {
            assert(next.take(i) =~= line);
        }
    }
}

/// Asks `BoardBuilder::from_str` whether it accepts `fen`.
#[verifier::external_body]
fn setup_parses_at(fen: &str) -> (ok: bool)
    ensures
        ok == setup_parses(fen@),
{
    BoardBuilder::from_str(fen).is_ok()
}

/// Reads `BoardBuilder::get_side_to_move` on the setup read from `fen`.
#[verifier::external_body]
fn setup_mover_at(fen: &str) -> (color: u8)
    requires
        setup_parses(fen@),
    ensures
        color == setup_mover_of(fen@),
{
    BoardBuilder::from_str(fen).unwrap().get_side_to_move().to_index() as u8
}

/// Reads what the setup read from `fen` holds on `square`, through
/// `BoardBuilder`'s index operator.
#[verifier::external_body]
fn setup_man_at(fen: &str, square: u8) -> (man: Option<(u8, u8)>)
    requires
        setup_parses(fen@),
        square < 64,
    ensures
        man == setup_man_of(fen@, square),
{
    let setup = BoardBuilder::from_str(fen).unwrap();
    let man = setup[ALL_SQUARES[square as usize]];
    man.map(|(kind, color)| (kind.to_index() as u8, color.to_index() as u8))
}

/// Asks `Board::from_str` whether it accepts `fen`.
#[verifier::external_body]
fn parses(fen: &str) -> (ok: bool)
    requires
        settable(fen@),
    ensures
        ok == fen_parses(fen@),
{
    Board::from_str(fen).is_ok()
}

/// Whether the side to move has a king on the setup read from `fen`.
fn finds_mover_king(fen: &str) -> (found: bool)
    requires
        setup_parses(fen@),
    ensures
        found == mover_has_king(fen@),
{
    let mover: u8 = setup_mover_at(fen);
    let mut square: u8 = 0;
    while square < 64
        invariant
            square <= 64,
            setup_parses(fen@),
            mover == setup_mover_of(fen@),
            forall|s: u8| s < square ==> #[trigger] setup_man_of(fen@, s) != Some((KING, mover)),
        decreases 64 - square,
    {
        match setup_man_at(fen, square) {
            Some((kind, color)) => {
                if kind == KING && color == mover {
                    return true;
                }
            },
            None => {},
        }
        square = square + 1;
    }
    false
}

/// Reads `Board::color_combined` on the board reached by `line`. The
/// board is rebuilt by `Board::from_str` and `Board::make_move_new`; the
/// result is a function of the text and the moves alone.
#[verifier::external_body]
fn color_bits_at(fen: &str, line: &Vec<Move>, color: u8) -> (bits: u64)
    requires
        replayable(fen@, line@),
        color < 2,
    ensures
        bits == color_bits_of(fen@, line@, color),
{
    let mut board = Board::from_str(fen).unwrap();
    for m in line.iter() {
        let promotion = m.promotion.map(|kind| ALL_PIECES[kind as usize]);
        let (from, to) = (ALL_SQUARES[m.from as usize], ALL_SQUARES[m.to as usize]);
        board = board.make_move_new(ChessMove::new(from, to, promotion));
    }
    board.color_combined(ALL_COLORS[color as usize]).0
}

/// Reads `Board::pieces` on the board reached by `line`, for the kind of
/// man with index `kind`.
#[verifier::external_body]
fn piece_bits_at(fen: &str, line: &Vec<Move>, kind: u8) -> (bits: u64)
    requires
        replayable(fen@, line@),
        kind < 6,
    ensures
        bits == piece_bits_of(fen@, line@, kind),
{
    let mut board = Board::from_str(fen).unwrap();
    for m in line.iter() {
        let promotion = m.promotion.map(|kind| ALL_PIECES[kind as usize]);
        let (from, to) = (ALL_SQUARES[m.from as usize], ALL_SQUARES[m.to as usize]);
        board = board.make_move_new(ChessMove::new(from, to, promotion));
    }
    board.pieces(ALL_PIECES[kind as usize]).0
}

/// Reads `Board::side_to_move` on the board reached by `line`. The board
/// takes its mover from the setup, and `Board::make_move_new` exchanges
/// it with every move.
#[verifier::external_body]
fn mover_at(fen: &str, line: &Vec<Move>) -> (color: u8)
    requires
        replayable(fen@, line@),
    ensures
        color == mover_of(fen@, line@),
{
    let mut board = Board::from_str(fen).unwrap();
    for m in line.iter() {
        let promotion = m.promotion.map(|kind| ALL_PIECES[kind as usize]);
        let (from, to) = (ALL_SQUARES[m.from as usize], ALL_SQUARES[m.to as usize]);
        board = board.make_move_new(ChessMove::new(from, to, promotion));
    }
    board.side_to_move().to_index() as u8
}

/// Reads `Board::status` on the board reached by `line`. The board
/// counts what `MoveGen::new_legal` yields: the game goes on exactly when
/// there is a legal move.
#[verifier::external_body]
fn status_at(fen: &str, line: &Vec<Move>) -> (status: Status)
    requires
        generable(fen@, line@),
    ensures
        status == status_of(fen@, line@),
        (status == Status::Ongoing) == (legal_moves_of(fen@, line@).len() > 0),
{
    let mut board = Board::from_str(fen).unwrap();
    for m in line.iter() {
        let promotion = m.promotion.map(|kind| ALL_PIECES[kind as usize]);
        let (from, to) = (ALL_SQUARES[m.from as usize], ALL_SQUARES[m.to as usize]);
        board = board.make_move_new(ChessMove::new(from, to, promotion));
    }
    match board.status() {
        BoardStatus::Ongoing => Status::Ongoing,
        BoardStatus::Stalemate => Status::Stalemate,
        BoardStatus::Checkmate => Status::Checkmate,
    }
}

/// Collects what `MoveGen::new_legal` yields on the board reached by
/// `line`. Each move comes with two squares of the board and, where a pawn
/// promotes, one of the four kinds of man it may become.
#[verifier::external_body]
pub(crate) fn legal_moves_at(fen: &str, line: &Vec<Move>) -> (moves: Vec<Move>)
    requires
        generable(fen@, line@),
    ensures
        moves@ == legal_moves_of(fen@, line@),
        forall|i: int| 0 <= i < moves@.len() ==> (#[trigger] moves@[i]).wf(),
{
    let mut board = Board::from_str(fen).unwrap();
    for m in line.iter() {
        let promotion = m.promotion.map(|kind| ALL_PIECES[kind as usize]);
        let (from, to) = (ALL_SQUARES[m.from as usize], ALL_SQUARES[m.to as usize]);
        board = board.make_move_new(ChessMove::new(from, to, promotion));
    }
    MoveGen::new_legal(&board).map(|m| Move {
        from: m.get_source().to_int(),
        to: m.get_dest().to_int(),
        promotion: m.get_promotion().map(|kind| kind.to_index() as u8),
    }).collect()
}

/// Reads a move in coordinate notation with `ChessMove::from_str`, which
/// takes two squares and, from a text of five bytes, one of the letters
/// `q`, `r`, `n`, `b` for the man a pawn becomes.
#[verifier::external_body]
fn read_move(text: &str) -> (r: Option<Move>)
    ensures
        r == move_written(text@),
        r matches Some(m) ==> m.wf(),
{
    ChessMove::from_str(text).ok().map(|m| Move {
        from: m.get_source().to_int(),
        to: m.get_dest().to_int(),
        promotion: m.get_promotion().map(|kind| kind.to_index() as u8),
    })
}

/// Writes a move as `ChessMove` displays it.
#[verifier::external_body]
fn write_move(m: Move) -> (text: String)
    requires
        m.wf(),
    ensures
        text@ == move_text_of(m),
{
    let promotion = m.promotion.map(|kind| ALL_PIECES[kind as usize]);
    ChessMove::new(ALL_SQUARES[m.from as usize], ALL_SQUARES[m.to as usize], promotion).to_string()
}

/// Reads a move in coordinate notation, such as `e2e4` or `a7a8q`.
/// `None` where the text is no such move.
pub fn move_from_text(text: &str) -> (r: Option<Move>)
    ensures
        r == move_written(text@),
        r matches Some(m) ==> m.wf(),
{
    read_move(text)
}

/// Writes a move in coordinate notation. `None` where a square is off
/// the board or the promotion names no kind of man.
pub fn move_text(m: Move) -> (r: Option<String>)
    ensures
        r is Some == m.wf(),
        r matches Some(text) ==> text@ == move_text_of(m),
{
    if m.is_wf() {
        Some(write_move(m))
    } else {
        None
    }
}

/// What stands on the board reached by `line`.
pub open spec fn placement_of(fen: Seq<char>, line: Seq<Move>) -> Placement {
    Placement {
        pawns: piece_bits_of(fen, line, PAWN),
        knights: piece_bits_of(fen, line, KNIGHT),
        bishops: piece_bits_of(fen, line, BISHOP),
        rooks: piece_bits_of(fen, line, ROOK),
        queens: piece_bits_of(fen, line, QUEEN),
        kings: piece_bits_of(fen, line, KING),
        white: color_bits_of(fen, line, WHITE),
        black: color_bits_of(fen, line, BLACK),
        white_to_move: white_to_move_of(fen, line),
        status: status_of(fen, line),
    }
}

/// What a search reads at the node reached by `line`: what stands on the
/// board, with the status left at `Ongoing` where the board cannot be
/// handed to the move generator. No position has such a board.
pub open spec fn standing_of(fen: Seq<char>, line: Seq<Move>) -> Placement {
    if sound(fen, line) {
        placement_of(fen, line)
    } else {
        Placement { status: Status::Ongoing, ..placement_of(fen, line) }
    }
}

/// The node has moves to look at: the board can be handed to the move
/// generator, the game goes on, and every legal move can be made.
pub open spec fn expandable(fen: Seq<char>, line: Seq<Move>) -> bool {
    sound(fen, line) && calm(fen, line) && status_of(fen, line) == Status::Ongoing
}

/// Reads the board reached by `line` for a search.
pub(crate) fn observe(fen: &str, line: &Vec<Move>) -> (p: Placement)
    requires
        replayable(fen@, line@),
    ensures
        p == standing_of(fen@, line@),
        searchable(p) == (sound(fen@, line@) && status_of(fen@, line@) == Status::Ongoing),
        sound(fen@, line@) ==> (p.status == Status::Ongoing) == (legal_moves_of(
            fen@,
            line@,
        ).len() > 0),
{
    let white: u64 = color_bits_at(fen, line, WHITE);
    let black: u64 = color_bits_at(fen, line, BLACK);
    let kings: u64 = piece_bits_at(fen, line, KING);
    let status = if stands_sound(white, black, kings) {
        status_at(fen, line)
    } else {
        Status::Ongoing
    };
    Placement {
        pawns: piece_bits_at(fen, line, PAWN),
        knights: piece_bits_at(fen, line, KNIGHT),
        bishops: piece_bits_at(fen, line, BISHOP),
        rooks: piece_bits_at(fen, line, ROOK),
        queens: piece_bits_at(fen, line, QUEEN),
        kings,
        white,
        black,
        white_to_move: mover_at(fen, line) == WHITE,
        status,
    }
}

/// No move of the list lands on a king.
pub open spec fn land_on_no_king(kings: u64, moves: Seq<Move>) -> bool {
    forall|i: int| 0 <= i < moves.len() ==> kings & square_mask((#[trigger] moves[i]).to) == 0
}

/// Whether no move of the list lands on one of the squares `kings`.
pub fn lands_on_no_king(kings: u64, moves: &Vec<Move>) -> (b: bool)
    requires
        forall|i: int| 0 <= i < moves@.len() ==> (#[trigger] moves@[i]).wf(),
    ensures
        b == land_on_no_king(kings, moves@),
{
    let mut i: usize = 0;
    while i < moves.len()
        invariant
            i <= moves.len(),
            forall|j: int| 0 <= j < moves@.len() ==> (#[trigger] moves@[j]).wf(),
            forall|j: int| 0 <= j < i ==> kings & square_mask((#[trigger] moves@[j]).to) == 0,
        decreases moves.len() - i,
    {
        if kings & square_bit(moves[i].to) != 0 {
            return false;
        }
        i = i + 1;
    }
    true
}

/// Whether the board reached by `line` can be handed to the move
/// generator and every legal move can be made on it.
fn is_playable(fen: &str, line: &Vec<Move>) -> (b: bool)
    requires
        replayable(fen@, line@),
    ensures
        b == playable(fen@, line@),
{
    let white: u64 = color_bits_at(fen, line, WHITE);
    let black: u64 = color_bits_at(fen, line, BLACK);
    let kings: u64 = piece_bits_at(fen, line, KING);
    if !stands_sound(white, black, kings) {
        return false;
    }
    let moves = legal_moves_at(fen, line);
    lands_on_no_king(kings, &moves)
}

/// A copy of a line of moves.
pub(crate) fn copy_line(line: &Vec<Move>) -> (copy: Vec<Move>)
    ensures
        copy@ == line@,
{
    let mut copy: Vec<Move> = Vec::new();
    let mut i: usize = 0;
    while i < line.len()
        invariant
            i <= line.len(),
            copy@ == line@.take(i as int),
        decreases line.len() - i,
    {
        copy.push(line[i]);
        i = i + 1;
    }
    copy
}

/// What names a position: the text it was set up from and the moves made
/// since.
pub struct PositionView {
    pub fen: Seq<char>,
    pub line: Seq<Move>,
}

/// A position of a game: a board set up from a text in Forsyth-Edwards
/// notation, and the legal moves made on it since.
pub struct Position {
    fen: String,
    line: Vec<Move>,
}

impl View for Position {
    type V = PositionView;

    closed spec fn view(&self) -> PositionView {
        PositionView { fen: self.fen@, line: self.line@ }
    }
}

impl Position {
    #[verifier::type_invariant]
    closed spec fn valid(self) -> bool {
        playable(self.fen@, self.line@)
    }

    /// Sets up the board that `fen` describes. `None` where the text is
    /// no valid position, or gives a side more than `MAX_MEN` men, or lets
    /// a move land on a king.
    pub fn from_fen(fen: &str) -> (r: Option<Position>)
        ensures
            r is Some == (settable(fen@) && fen_parses(fen@) && playable(
                fen@,
                Seq::<Move>::empty(),
            )),
            r matches Some(p) ==> p@.fen == fen@ && p@.line == Seq::<Move>::empty(),
    {
        if setup_parses_at(fen) && finds_mover_king(fen) && parses(fen) {
            let line: Vec<Move> = Vec::new();
            if is_playable(fen, &line) {
                return Some(Position { fen: fen.to_owned(), line });
            }
        }
        None
    }

    /// A copy of this position.
    pub fn duplicate(&self) -> (p: Position)
        ensures
            p@ == self@,
    {
        proof {
            use_type_invariant(self);
        }
        Position { fen: self.fen.clone(), line: copy_line(&self.line) }
    }

    /// The text this position was set up from.
    pub fn fen(&self) -> (fen: &str)
        ensures
            fen@ == self@.fen,
            playable(self@.fen, self@.line),
    {
        proof {
            use_type_invariant(self);
        }
        self.fen.as_str()
    }

    /// The moves made since the board was set up, each legal where it was
    /// made.
    pub fn line(&self) -> (line: &Vec<Move>)
        ensures
            line@ == self@.line,
            playable(self@.fen, self@.line),
    {
        proof {
            use_type_invariant(self);
        }
        &self.line
    }

    /// What stands on the board.
    pub fn placement(&self) -> (p: Placement)
        ensures
            p == placement_of(self@.fen, self@.line),
            (p.status == Status::Ongoing) == (legal_moves_of(self@.fen, self@.line).len() > 0),
    {
        proof {
            use_type_invariant(self);
        }
        observe(self.fen.as_str(), &self.line)
    }

    /// The legal moves, in the generator's order.
    pub fn legal_moves(&self) -> (moves: Vec<Move>)
        ensures
            moves@ == legal_moves_of(self@.fen, self@.line),
            forall|i: int| 0 <= i < moves@.len() ==> (#[trigger] moves@[i]).wf(),
    {
        proof {
            use_type_invariant(self);
        }
        legal_moves_at(self.fen.as_str(), &self.line)
    }

    /// The position after the move `m`. `None` where `m` is not among the
    /// legal moves, or where the board after it could not be handed to the
    /// move generator or would let a move land on a king, which no move of
    /// a game brings about.
    pub fn play(&self, m: Move) -> (r: Option<Position>)
        ensures
            r is Some == (legal_moves_of(self@.fen, self@.line).contains(m) && playable(
                self@.fen,
                self@.line.push(m),
            )),
            r matches Some(p) ==> p@.fen == self@.fen && p@.line == self@.line.push(m),
    {
        proof {
            use_type_invariant(self);
        }
        let moves = self.legal_moves();
        let mut i: usize = 0;
        while i < moves.len()
            invariant
                i <= moves.len(),
                forall|j: int| 0 <= j < i ==> moves@[j] != m,
                forall|j: int| 0 <= j < moves@.len() ==> (#[trigger] moves@[j]).wf(),
                playable(self@.fen, self@.line),
                moves@ == legal_moves_of(self@.fen, self@.line),
            decreases moves.len() - i,
        {
            if moves[i] == m {
                let mut line = copy_line(&self.line);
                line.push(m);
                proof {
                    lemma_playable_push(self@.fen, self@.line, m);
                }
                if is_playable(self.fen.as_str(), &line) {
                    return Some(Position { fen: self.fen.clone(), line });
                }
                return None;
            }
            i = i + 1;
        }
        None
    }
}

} // verus!
