//! The words of the line protocol: which command a line gives, and what
//! `go` and `position` ask for.

use crate::rules::{
    fen_parses, legal_moves_of, move_from_text, move_written, playable, settable, Move, Position,
};
use vstd::prelude::*;
use vstd::string::{StringExecFns, StringSliceAdditionalSpecFns};
use vstd::utf8::encode_utf8;

verus! {

/// The text of the starting position.
pub const START: &'static str = "rnbqkbnr/pppppppp/8/8/8/8/PPPPPPPP/RNBQKBNR w KQkq - 0 1";

/// Whether two texts are the same.
pub fn same(a: &str, b: &str) -> (r: bool)
    ensures
        r == (a@ == b@),
{
    a.to_owned() == b.to_owned()
}

/// The commands of the protocol.
#[derive(Clone, Copy, Debug, PartialEq, Eq, Structural)]
pub enum Command {
    Uci,
    IsReady,
    NewGame,
    Position,
    Go,
    Stop,
    Quit,
    /// Any other word; such a line is passed over.
    Unknown,
}

/// The command that the first word of a line gives.
pub open spec fn command_named(word: Seq<char>) -> Command {
    if word == "uci"@ {
        Command::Uci
    } else if word == "isready"@ {
        Command::IsReady
    } else if word == "ucinewgame"@ {
        Command::NewGame
    } else if word == "position"@ {
        Command::Position
    } else if word == "go"@ {
        Command::Go
    } else if word == "stop"@ {
        Command::Stop
    } else if word == "quit"@ {
        Command::Quit
    } else {
        Command::Unknown
    }
}

/// Tells which command the first word of a line gives.
pub fn command_of(word: &str) -> (c: Command)
    ensures
        c == command_named(word@),
{
    if same(word, "uci") {
        Command::Uci
    } else if same(word, "isready") {
        Command::IsReady
    } else if same(word, "ucinewgame") {
        Command::NewGame
    } else if same(word, "position") {
        Command::Position
    } else if same(word, "go") {
        Command::Go
    } else if same(word, "stop") {
        Command::Stop
    } else if same(word, "quit") {
        Command::Quit
    } else {
        Command::Unknown
    }
}

/// Every byte is a decimal digit.
pub open spec fn all_digits(s: Seq<u8>) -> bool {
    forall|i: int| 0 <= i < s.len() ==> 0x30 <= #[trigger] s[i] <= 0x39
}

/// The number that a run of decimal digits writes.
pub open spec fn digits_value(s: Seq<u8>) -> nat
    decreases s.len(),
{
    if s.len() == 0 {
        0
    } else {
        (10 * digits_value(s.drop_last()) + (s.last() - 0x30)) as nat
    }
}

/// The bytes after an optional plus sign.
pub open spec fn unsigned_part(s: Seq<u8>) -> Seq<u8> {
    if s.len() > 0 && s[0] == 0x2b {
        s.subrange(1, s.len() as int)
    } else {
        s
    }
}

/// The number that a word writes: an optional plus sign and then one or
/// more decimal digits, of a value that fits 64 bits. Any other word
/// counts 0.
pub open spec fn number_of(s: Seq<u8>) -> nat {
    let d = unsigned_part(s);
    if d.len() > 0 && all_digits(d) && digits_value(d) <= u64::MAX {
        digits_value(d)
    } else {
        0
    }
}

proof fn lemma_digits_value_grows(s: Seq<u8>, n: int)
    requires
        0 <= n <= s.len(),
        all_digits(s),
    ensures
        digits_value(s.take(n)) <= digits_value(s),
    decreases s.len() - n,
{
    if n < s.len() {
        lemma_digits_value_grows(s, n + 1);
        assert(s.take(n + 1).drop_last() =~= s.take(n));
    } else {
        assert(s.take(n) =~= s);
    }
}

/// The number that a text writes in its bytes.
pub open spec fn number_in(text: Seq<char>) -> nat {
    number_of(encode_utf8(text))
}

/// Reads the number that `word` writes, or 0 where it writes none.
pub fn parse_number(word: &str) -> (n: u64)
    ensures
        n == number_in(word@),
{
    let bytes = word.as_bytes();
    let start: usize = if bytes.len() > 0 && bytes[0] == 0x2b {
        1
    } else {
        0
    };
    let ghost d = unsigned_part(bytes@);
    if start == bytes.len() {
        return 0;
    }
    let mut n: u64 = 0;
    let mut i: usize = start;
    while i < bytes.len()
        invariant
            start <= i <= bytes.len(),
            bytes@ == word.spec_bytes(),
            d == unsigned_part(bytes@),
            d == bytes@.subrange(start as int, bytes@.len() as int),
            all_digits(d.take(i - start)),
            n == digits_value(d.take(i - start)),
        decreases bytes.len() - i,
    {
        let b = bytes[i];
        let ghost seen = d.take(i - start);
        let ghost next = d.take(i - start + 1);
        proof {
            assert(d[i - start] == b);
            assert(next.drop_last() =~= seen);
        }
        if b < 0x30 || b > 0x39 {
            return 0;
        }
        assert(all_digits(next));
        let digit: u64 = (b - 0x30) as u64;
        if n > (u64::MAX - digit) / 10 {
            proof {
                if all_digits(d) {
                    lemma_digits_value_grows(d, i - start + 1);
                }
            }
            return 0;
        }
        n = 10 * n + digit;
        i = i + 1;
    }
    assert(d.take(i - start) =~= d);
    n
}

/// What a `go` line asks for. A number that the line does not give is 0.
#[derive(Clone, Copy, Debug, PartialEq, Eq, Structural)]
pub struct GoParams {
    /// Milliseconds left on the clock, from `wtime` or `btime`.
    pub time: u64,
    /// Milliseconds added for each move, from `winc` or `binc`.
    pub inc: u64,
    pub movestogo: u64,
    pub depth: u64,
    pub nodes: u64,
    pub mate: u64,
    pub movetime: u64,
    pub infinite: bool,
}

/// A `go` line that asks for nothing.
pub open spec fn go_default() -> GoParams {
    GoParams {
        time: 0,
        inc: 0,
        movestogo: 0,
        depth: 0,
        nodes: 0,
        mate: 0,
        movetime: 0,
        infinite: false,
    }
}

/// The word is one that the next word gives a number to.
pub open spec fn takes_number(key: Seq<char>) -> bool {
    ||| key == "wtime"@
    ||| key == "btime"@
    ||| key == "winc"@
    ||| key == "binc"@
    ||| key == "movestogo"@
    ||| key == "depth"@
    ||| key == "nodes"@
    ||| key == "mate"@
    ||| key == "movetime"@
}

/// The parameters after the word `key` gave the number `value`. Where two
/// words name one field the later one counts.
pub open spec fn go_set(p: GoParams, key: Seq<char>, value: u64) -> GoParams {
    if key == "wtime"@ || key == "btime"@ {
        GoParams { time: value, ..p }
    } else if key == "winc"@ || key == "binc"@ {
        GoParams { inc: value, ..p }
    } else if key == "movestogo"@ {
        GoParams { movestogo: value, ..p }
    } else if key == "depth"@ {
        GoParams { depth: value, ..p }
    } else if key == "nodes"@ {
        GoParams { nodes: value, ..p }
    } else if key == "mate"@ {
        GoParams { mate: value, ..p }
    } else if key == "movetime"@ {
        GoParams { movetime: value, ..p }
    } else {
        p
    }
}

/// The number that word `i` writes; a word that is missing counts 0.
pub open spec fn number_at(words: Seq<String>, i: int) -> u64 {
    if 0 <= i < words.len() {
        number_in(words[i]@) as u64
    } else {
        0
    }
}

/// What the words from `i` on add to the parameters `p`: a word that
/// takes a number uses up the word after it, `infinite` stands alone, and
/// any other word is passed over.
pub open spec fn go_from(words: Seq<String>, i: int, p: GoParams) -> GoParams
    decreases words.len() - i,
{
    if i < 0 || i >= words.len() {
        p
    } else if takes_number(words[i]@) {
        let next = if i + 2 <= words.len() {
            i + 2
        } else {
            i + 1
        };
        go_from(words, next, go_set(p, words[i]@, number_at(words, i + 1)))
    } else if words[i]@ == "infinite"@ {
        go_from(words, i + 1, GoParams { infinite: true, ..p })
    } else {
        go_from(words, i + 1, p)
    }
}

fn is_numbered(key: &str) -> (r: bool)
    ensures
        r == takes_number(key@),
{
    same(key, "wtime") || same(key, "btime") || same(key, "winc") || same(key, "binc") || same(
        key,
        "movestogo",
    ) || same(key, "depth") || same(key, "nodes") || same(key, "mate") || same(key, "movetime")
}

fn set_numbered(p: GoParams, key: &str, value: u64) -> (r: GoParams)
    ensures
        r == go_set(p, key@, value),
{
    let mut r = p;
    if same(key, "wtime") || same(key, "btime") {
        r.time = value;
    } else if same(key, "winc") || same(key, "binc") {
        r.inc = value;
    } else if same(key, "movestogo") {
        r.movestogo = value;
    } else if same(key, "depth") {
        r.depth = value;
    } else if same(key, "nodes") {
        r.nodes = value;
    } else if same(key, "mate") {
        r.mate = value;
    } else if same(key, "movetime") {
        r.movetime = value;
    }
    r
}

/// Reads the words that follow `go`.
pub fn parse_go(words: &Vec<String>) -> (p: GoParams)
    ensures
        p == go_from(words@, 0, go_default()),
{
    let mut p = GoParams {
        time: 0,
        inc: 0,
        movestogo: 0,
        depth: 0,
        nodes: 0,
        mate: 0,
        movetime: 0,
        infinite: false,
    };
    let mut i: usize = 0;
    while i < words.len()
        invariant
            i <= words.len(),
            go_from(words@, i as int, p) == go_from(words@, 0, go_default()),
        decreases words.len() - i,
    {
        let word = words[i].as_str();
        if is_numbered(word) {
            let value: u64 = if i + 1 < words.len() {
                parse_number(words[i + 1].as_str())
            } else {
                0
            };
            p = set_numbered(p, word, value);
            if i + 1 < words.len() {
                i = i + 2;
            } else {
                i = i + 1;
            }
        } else {
            if same(word, "infinite") {
                p.infinite = true;
            }
            i = i + 1;
        }
    }
    p
}

/// What a `position` line has given so far.
pub struct SetupSoFar {
    /// The text of the board, each word followed by a blank.
    pub fen: Seq<char>,
    /// The moves to make on it.
    pub moves: Seq<Seq<char>>,
    /// The words that come now belong to the text of the board.
    pub in_fen: bool,
    /// The words that come now are moves.
    pub in_moves: bool,
}

/// A `position` line before its first word.
pub open spec fn setup_start() -> SetupSoFar {
    SetupSoFar {
        fen: Seq::<char>::empty(),
        moves: Seq::<Seq<char>>::empty(),
        in_fen: false,
        in_moves: false,
    }
}

/// What one more word adds: after `moves` every word is a move;
/// `startpos` gives the starting position; after `fen` the words up to
/// `moves` make up the text of the board; any other word is passed over.
pub open spec fn setup_step(st: SetupSoFar, word: Seq<char>) -> SetupSoFar {
    if st.in_moves {
        SetupSoFar { moves: st.moves.push(word), ..st }
    } else if word == "moves"@ {
        SetupSoFar { in_moves: true, ..st }
    } else if word == "startpos"@ {
        SetupSoFar { fen: START@, in_fen: false, ..st }
    } else if word == "fen"@ {
        SetupSoFar { in_fen: true, ..st }
    } else if st.in_fen {
        SetupSoFar { fen: st.fen + word + " "@, ..st }
    } else {
        st
    }
}

/// What the words from `i` on add to `st`.
pub open spec fn setup_from(words: Seq<String>, i: int, st: SetupSoFar) -> SetupSoFar
    decreases words.len() - i,
{
    if i < 0 || i >= words.len() {
        st
    } else {
        setup_from(words, i + 1, setup_step(st, words[i]@))
    }
}

/// What a `position` line asks for: the text of a board and the moves to
/// make on it.
pub struct Setup {
    pub fen: String,
    pub moves: Vec<String>,
}

/// The texts of a list of words.
pub open spec fn texts(words: Seq<String>) -> Seq<Seq<char>> {
    Seq::new(words.len(), |i: int| words[i]@)
}

/// Reads the words that follow `position`.
pub fn parse_position(words: &Vec<String>) -> (setup: Setup)
    ensures
        setup.fen@ == setup_from(words@, 0, setup_start()).fen,
        texts(setup.moves@) == setup_from(words@, 0, setup_start()).moves,
{
    let mut fen = String::new();
    let mut moves: Vec<String> = Vec::new();
    let mut in_fen = false;
    let mut in_moves = false;
    let mut i: usize = 0;
    assert(texts(moves@) =~= Seq::<Seq<char>>::empty());
    while i < words.len()
        invariant
            i <= words.len(),
            setup_from(
                words@,
                i as int,
                SetupSoFar { fen: fen@, moves: texts(moves@), in_fen, in_moves },
            ) == setup_from(words@, 0, setup_start()),
        decreases words.len() - i,
    {
        let word = words[i].as_str();
        let ghost before = texts(moves@);
        if in_moves {
            moves.push(words[i].clone());
            assert(texts(moves@) =~= before.push(word@));
        } else if same(word, "moves") {
            in_moves = true;
        } else if same(word, "startpos") {
            fen = START.to_owned();
            in_fen = false;
        } else if same(word, "fen") {
            in_fen = true;
        } else if in_fen {
            fen.append(word);
            fen.append(" ");
        }
        i = i + 1;
    }
    Setup { fen, moves }
}

/// The line of moves that the first `n` of the texts `moves` give on the
/// board of `fen`: each text is read as a move, which must be legal where
/// it is made and lead to a playable board. `None` where the board cannot
/// be set up or one of the moves cannot be made.
pub open spec fn line_played(fen: Seq<char>, moves: Seq<Seq<char>>, n: nat) -> Option<Seq<Move>>
    decreases n,
{
    if n == 0 {
        if settable(fen) && fen_parses(fen) && playable(fen, Seq::<Move>::empty()) {
            Some(Seq::<Move>::empty())
        } else {
            None
        }
    } else {
        match (line_played(fen, moves, (n - 1) as nat), move_written(moves[n - 1])) {
            (Some(line), Some(m)) => if legal_moves_of(fen, line).contains(m) && playable(
                fen,
                line.push(m),
            ) {
                Some(line.push(m))
            } else {
                None
            },
            _ => None,
        }
    }
}

proof fn lemma_line_played_fails(fen: Seq<char>, moves: Seq<Seq<char>>, k: nat, n: nat)
    requires
        k <= n,
        line_played(fen, moves, k) is None,
    ensures
        line_played(fen, moves, n) is None,
    decreases n - k,
{
    if k < n {
        lemma_line_played_fails(fen, moves, k, (n - 1) as nat);
    }
}

/// Sets up the position that the words after `position` ask for: the
/// board of their text with their moves made on it. `None` where the text
/// is no playable position or a move cannot be read or made.
pub fn set_up(words: &Vec<String>) -> (r: Option<Position>)
    ensures
        ({
            let asked = setup_from(words@, 0, setup_start());
            match r {
                Some(p) => p@.fen == asked.fen && line_played(
                    asked.fen,
                    asked.moves,
                    asked.moves.len(),
                ) == Some(p@.line),
                None => line_played(asked.fen, asked.moves, asked.moves.len()) is None,
            }
        }),
{
    let setup = parse_position(words);
    let ghost fen = setup.fen@;
    let ghost moves = texts(setup.moves@);
    let mut position = match Position::from_fen(setup.fen.as_str()) {
        Some(p) => p,
        None => {
            proof {
                lemma_line_played_fails(fen, moves, 0, moves.len());
            }
            return None;
        },
    };
    let mut i: usize = 0;
    while i < setup.moves.len()
        invariant
            i <= setup.moves.len(),
            fen == setup_from(words@, 0, setup_start()).fen,
            moves == setup_from(words@, 0, setup_start()).moves,
            moves == texts(setup.moves@),
            position@.fen == fen,
            line_played(fen, moves, i as nat) == Some(position@.line),
        decreases setup.moves.len() - i,
    {
        assert(moves[i as int] == setup.moves@[i as int]@);
        let next = match move_from_text(setup.moves[i].as_str()) {
            Some(m) => position.play(m),
            None => None,
        };
        match next {
            Some(p) => {
                position = p;
            },
            None => {
                proof {
                    assert(line_played(fen, moves, (i + 1) as nat) is None);
                    lemma_line_played_fails(fen, moves, (i + 1) as nat, moves.len());
                }
                return None;
            },
        }
        i = i + 1;
    }
    Some(position)
}

} // verus!
