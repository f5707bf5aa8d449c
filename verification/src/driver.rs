//! The three ways to ask for a move: to a fixed depth, within a time
//! budget, and until told to stop.

use crate::eval::Status;
use crate::rules::{legal_moves_of, status_of, Move, Position, PositionView};
use crate::score::{Score, ScoreValue};
use crate::search::{search, Searcher, SearcherView, ALPHA, BETA};
use std::sync::mpsc::Receiver;
use std::time::{Duration, Instant};
use vstd::prelude::*;

verus! {

/// A deeper search is started only while its estimated cost is at least
/// this many milliseconds.
pub const MIN_ESTIMATE_MILLIS: u64 = 100;

/// `b` to the power `e`.
pub open spec fn power(b: int, e: nat) -> int
    decreases e,
{
    if e == 0 {
        1
    } else {
        b * power(b, (e - 1) as nat)
    }
}

/// Whether iteration `i` is worth starting under a budget of `budget`
/// milliseconds: the estimate `budget / 2.5^i` is no less than
/// `MIN_ESTIMATE_MILLIS`, stated without fractions.
pub open spec fn worth_starting(budget: int, i: nat) -> bool {
    budget * power(2, i) >= MIN_ESTIMATE_MILLIS * power(5, i)
}

proof fn lemma_powers(i: nat)
    ensures
        power(2, i) >= 1,
        power(5, i) >= power(2, i) * power(2, i),
    decreases i,
{
    if i > 0 {
        lemma_powers((i - 1) as nat);
        let a = power(2, (i - 1) as nat);
        let c = power(5, (i - 1) as nat);
        assert(5 * c >= (2 * a) * (2 * a)) by (nonlinear_arith)
            requires
                c >= a * a,
                a >= 1,
        ;
    }
}

/// Once an iteration is not worth starting, no later one is.
pub proof fn lemma_worth_starting_earlier(budget: int, i: nat, j: nat)
    requires
        budget >= 0,
        i <= j,
        worth_starting(budget, j),
    ensures
        worth_starting(budget, i),
    decreases j - i,
{
    if i < j {
        let a = power(2, (j - 1) as nat);
        let c = power(5, (j - 1) as nat);
        lemma_powers((j - 1) as nat);
        assert(budget * a >= MIN_ESTIMATE_MILLIS * c) by (nonlinear_arith)
            requires
                budget * (2 * a) >= MIN_ESTIMATE_MILLIS * (5 * c),
                budget >= 0,
                a >= 1,
                c >= 0,
        ;
        lemma_worth_starting_earlier(budget, i, (j - 1) as nat);
    }
}

/// Decides whether iteration `iteration` is worth starting under a budget
/// of `budget` milliseconds.
pub fn worth_deepening(budget: u64, iteration: u32) -> (worth: bool)
    ensures
        worth == worth_starting(budget as int, iteration as nat),
{
    if budget < MIN_ESTIMATE_MILLIS {
        proof {
            lemma_not_worth_later(budget as int, 0, iteration as nat);
        }
        return false;
    }
    let mut left: u128 = budget as u128;
    let mut right: u128 = MIN_ESTIMATE_MILLIS as u128;
    let mut i: u32 = 0;
    while i < iteration
        invariant
            i <= iteration,
            left == budget * power(2, i as nat),
            right == MIN_ESTIMATE_MILLIS * power(5, i as nat),
            left >= right,
        decreases iteration - i,
    {
        proof {
            let a = power(2, i as nat);
            let c = power(5, i as nat);
            lemma_powers(i as nat);
            assert(100 * a <= budget) by (nonlinear_arith)
                requires
                    budget * a >= 100 * c,
                    c >= a * a,
                    a >= 1,
                    budget >= 0,
            ;
            assert(budget * a <= 0x1_0000_0000_0000_0000 * 0x400_0000_0000_0000) by (
                nonlinear_arith)
                requires
                    0 <= budget < 0x1_0000_0000_0000_0000,
                    1 <= a <= 0x400_0000_0000_0000,
            ;
            assert(budget * (2 * a) == 2 * (budget * a)) by (nonlinear_arith);
            assert(100 * (5 * c) == 5 * (100 * c)) by (nonlinear_arith);
        }
        if left * 2 < right * 5 {
            proof {
                lemma_not_worth_later(budget as int, (i + 1) as nat, iteration as nat);
            }
            return false;
        }
        left = left * 2;
        right = right * 5;
        i = i + 1;
    }
    true
}

proof fn lemma_not_worth_later(budget: int, i: nat, j: nat)
    requires
        budget >= 0,
        i <= j,
        !worth_starting(budget, i),
    ensures
        !worth_starting(budget, j),
{
    if worth_starting(budget, j) {
        lemma_worth_starting_earlier(budget, i, j);
    }
}

/// A searcher that has not searched yet.
pub open spec fn fresh(position: PositionView, depth: nat) -> SearcherView {
    SearcherView {
        position,
        depth,
        best_move: Move { from: 0, to: 0, promotion: None },
        best_score: ScoreValue::Numeric(0),
    }
}

/// The searcher after one search at its depth with the widest bounds: the
/// best move and score are recorded where the moves were looked at.
pub open spec fn searched(s: SearcherView) -> SearcherView {
    let out = search(s.position.fen, s.position.line, s.depth, ALPHA as int, BETA as int);
    if out.expanded {
        SearcherView { best_move: out.best_move, best_score: out.best_score, ..s }
    } else {
        s
    }
}

/// The searcher after `n` rounds of deepening: each round searches at the
/// current depth and then raises the depth by one.
pub open spec fn deepened(s: SearcherView, n: nat) -> SearcherView
    decreases n,
{
    if n == 0 {
        s
    } else {
        let t = searched(deepened(s, (n - 1) as nat));
        SearcherView { depth: t.depth + 1, ..t }
    }
}

/// The score that the last of `n` rounds of deepening returned, or 0 where
/// there was none.
pub open spec fn last_score(s: SearcherView, n: nat) -> ScoreValue {
    if n == 0 {
        ScoreValue::Numeric(0)
    } else {
        let t = deepened(s, (n - 1) as nat);
        search(t.position.fen, t.position.line, t.depth, ALPHA as int, BETA as int).score
    }
}

/// What a driver hands back: the recorded move and the numeric part of the
/// recorded score.
pub open spec fn chosen(s: SearcherView) -> (Move, int) {
    (s.best_move, s.best_score.numeric_part())
}

/// `std::time::Instant`, a reading of the clock. Nothing is known of what
/// it holds.
#[verifier::external_type_specification]
#[verifier::external_body]
pub struct ExInstant(std::time::Instant);

/// `std::sync::mpsc::Receiver`, the receiving end of a channel. Nothing is
/// known of what waits on it.
#[verifier::external_type_specification]
#[verifier::external_body]
#[verifier::reject_recursive_types(T)]
pub struct ExReceiver<T>(std::sync::mpsc::Receiver<T>);

/// Reads the clock with `Instant::now`. Nothing is known of the result.
#[verifier::external_body]
fn now() -> Instant {
    Instant::now()
}

/// The time since `start`, by `Instant::elapsed`. Nothing is known of the
/// result.
#[verifier::external_body]
fn elapsed(start: &Instant) -> Duration {
    start.elapsed()
}

/// The whole milliseconds of a duration, by `Duration::as_millis`.
#[verifier::external_body]
fn as_millis(duration: &Duration) -> u128 {
    duration.as_millis()
}

/// Polls the channel with `Receiver::try_recv`, without waiting: the value
/// that was waiting, or `None` where there was none or the sender is gone.
#[verifier::external_body]
fn poll(receiver: &Receiver<bool>) -> Option<bool> {
    receiver.try_recv().ok()
}

impl Searcher {
    /// One round of a timed deepening, given what the clock showed: the
    /// round is run where less than `budget` milliseconds were spent, round
    /// number `iteration` is worth starting and the depth can still grow.
    /// Returns the round's score, or `None` where no round was run.
    pub fn timed_round(&mut self, budget: u64, iteration: u32, spent: u128) -> (r: Option<Score>)
        ensures
            r is Some == (old(self)@.depth < u8::MAX && spent < budget && worth_starting(
                budget as int,
                iteration as nat,
            )),
            final(self)@ == (if r is Some {
                deepened(old(self)@, 1)
            } else {
                old(self)@
            }),
            r matches Some(s) ==> s@ == last_score(old(self)@, 1),
    {
        let depth = self.depth();
        if depth == u8::MAX || spent >= budget as u128 || !worth_deepening(budget, iteration) {
            return None;
        }
        proof {
            reveal_with_fuel(deepened, 2);
        }
        let score = self.alpha_beta(ALPHA, BETA);
        self.set_depth(depth + 1);
        Some(score)
    }

    /// One round of a deepening that can be stopped, given what was
    /// waiting on the channel: the round is run unless that was `true` or
    /// the depth can grow no more. Returns whether it was run.
    pub fn polled_round(&mut self, signal: Option<bool>) -> (ran: bool)
        ensures
            ran == (old(self)@.depth < u8::MAX && signal != Some(true)),
            final(self)@ == (if ran {
                deepened(old(self)@, 1)
            } else {
                old(self)@
            }),
    {
        let depth = self.depth();
        let stop = match signal {
            Some(flag) => flag,
            None => false,
        };
        if depth == u8::MAX || stop {
            return false;
        }
        proof {
            reveal_with_fuel(deepened, 2);
        }
        self.alpha_beta(ALPHA, BETA);
        self.set_depth(depth + 1);
        true
    }

    /// Deepens the search while time is left: before each round the clock
    /// is read and `timed_round` decides. Returns the score of the last
    /// round, or 0 where there was none.
    pub fn alpha_beta_with_time(&mut self, budget: u64) -> (score: Score)
        ensures
            old(self)@.depth <= final(self)@.depth <= u8::MAX,
            ({
                let n = (final(self)@.depth - old(self)@.depth) as nat;
                &&& final(self)@ == deepened(old(self)@, n)
                &&& score@ == last_score(old(self)@, n)
                &&& n > 0 ==> worth_starting(budget as int, n)
            }),
    {
        let start = now();
        let mut iteration: u32 = 1;
        let mut score = Score::new_eval(0);
        let ghost first = self@;
        let ghost mut n: nat = 0;
        let _ = self.depth();
        loop
            invariant
                iteration == n + 1,
                self@.depth == first.depth + n,
                self@.depth <= u8::MAX,
                self@ == deepened(first, n),
                score@ == last_score(first, n),
                n > 0 ==> worth_starting(budget as int, n),
            decreases u8::MAX - self@.depth,
        {
            let spent = as_millis(&elapsed(&start));
            match self.timed_round(budget, iteration, spent) {
                Some(s) => {
                    score = s;
                },
                None => {
                    break ;
                },
            }
            proof {
                reveal_with_fuel(deepened, 2);
                n = n + 1;
            }
            iteration = iteration + 1;
        }
        score
    }

    /// Deepens the search until a `true` is waiting on `receiver`, which
    /// is looked for before each round and never during one, or until the
    /// depth can grow no more. Returns the recorded best score.
    pub fn alpha_beta_until_stopped(&mut self, receiver: Receiver<bool>) -> (score: Score)
        ensures
            old(self)@.depth <= final(self)@.depth <= u8::MAX,
            final(self)@ == deepened(
                old(self)@,
                (final(self)@.depth - old(self)@.depth) as nat,
            ),
            score@ == final(self)@.best_score,
    {
        let ghost first = self@;
        let ghost mut n: nat = 0;
        let _ = self.depth();
        loop
            invariant
                self@.depth == first.depth + n,
                self@.depth <= u8::MAX,
                self@ == deepened(first, n),
            decreases u8::MAX - self@.depth,
        {
            if !self.polled_round(poll(&receiver)) {
                break ;
            }
            proof {
                reveal_with_fuel(deepened, 2);
                n = n + 1;
            }
        }
        self.best_score()
    }
}

/// The best move at `position` by a search `depth` plies deep, with the
/// numeric part of its score. Where the depth is not 0 and the game goes
/// on, the move is a legal move; else no move was looked at and the result
/// is "no move" and 0.
pub fn best_move(position: &Position, depth: u8) -> (r: (Move, i32))
    ensures
        (r.0, r.1 as int) == chosen(searched(fresh(position@, depth as nat))),
        if depth > 0 && status_of(position@.fen, position@.line) == Status::Ongoing {
            legal_moves_of(position@.fen, position@.line).contains(r.0)
        } else {
            r == (Move { from: 0, to: 0, promotion: None }, 0i32)
        },
{
    let mut searcher = Searcher::new(position, depth);
    searcher.alpha_beta(ALPHA, BETA);
    (searcher.best_move(), searcher.best_score().eval())
}

/// The best move at `position` found within `time` milliseconds: the
/// search is deepened from depth 0 for some number of rounds, each of them
/// worth starting. A budget under which not even the first round is worth
/// starting gives "no move" and 0.
pub fn best_move_with_time(position: &Position, time: u64) -> (r: (Move, i32))
    ensures
        exists|n: nat|
            {
                &&& n <= u8::MAX
                &&& n > 0 ==> worth_starting(time as int, n)
                &&& (r.0, r.1 as int) == chosen(#[trigger] deepened(fresh(position@, 0), n))
            },
        !worth_starting(time as int, 1) ==> r == (Move { from: 0, to: 0, promotion: None }, 0i32),
{
    let mut searcher = Searcher::new(position, 0);
    searcher.alpha_beta_with_time(time);
    proof {
        let n = searcher@.depth;
        if n > 0 && !worth_starting(time as int, 1) {
            lemma_worth_starting_earlier(time as int, 1, n);
        }
    }
    (searcher.best_move(), searcher.best_score().eval())
}

/// The best move at `position` found until a `true` is waiting on
/// `receiver`: the search is deepened from depth 1 for some number of
/// rounds. Meant to run on a thread of its own.
pub fn best_move_infinite_thread(position: &Position, receiver: Receiver<bool>) -> (r: (Move, i32))
    ensures
        exists|n: nat|
            n < u8::MAX && (r.0, r.1 as int) == chosen(
                #[trigger] deepened(fresh(position@, 1), n),
            ),
{
    let mut searcher = Searcher::new(position, 1);
    searcher.alpha_beta_until_stopped(receiver);
    (searcher.best_move(), searcher.best_score().eval())
}

/// A fixed-depth search is repeatable: two calls of `best_move` on one
/// position with one depth return the same move and the same score.
pub proof fn lemma_best_move_repeatable(
    a: &Position,
    b: &Position,
    depth: u8,
    first: (Move, i32),
    second: (Move, i32),
)
    requires
        a@ == b@,
        call_ensures(best_move, (a, depth), first),
        call_ensures(best_move, (b, depth), second),
    ensures
        first == second,
{
}

} // verus!
