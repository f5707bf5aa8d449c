//! Position scores: ordinary centipawn values and forced mates on one scale.

use core::cmp::Ordering;
use vstd::prelude::*;

verus! {

/// What a score stands for. White is the maximising side, so the three
/// variants are listed from Black's best to White's best.
pub enum ScoreValue {
    /// Black forces mate; the payload is the signed ply counter.
    MateForBlack(int),
    /// A centipawn value, positive when White is better.
    Numeric(int),
    /// White forces mate; the payload is the signed ply counter.
    MateForWhite(int),
}

impl ScoreValue {
    /// The band a score lies in: -1 for a Black mate, 0 for a number, 1 for
    /// a White mate.
    pub open spec fn tier(self) -> int {
        match self {
            ScoreValue::MateForBlack(_) => -1,
            ScoreValue::Numeric(_) => 0,
            ScoreValue::MateForWhite(_) => 1,
        }
    }

    /// The number that orders two scores of one band: the centipawn value,
    /// or the ply counter of a mate.
    pub open spec fn rank(self) -> int {
        match self {
            ScoreValue::MateForBlack(p) => p,
            ScoreValue::Numeric(v) => v,
            ScoreValue::MateForWhite(p) => p,
        }
    }

    /// Strictly worse for White: a lower band, or the same band and a lower
    /// rank.
    pub open spec fn lt(self, other: ScoreValue) -> bool {
        self.tier() < other.tier() || (self.tier() == other.tier() && self.rank() < other.rank())
    }

    pub open spec fn is_mate(self) -> bool {
        self.tier() != 0
    }

    /// The centipawn value of a numeric score; a mate has none and counts 0.
    pub open spec fn numeric_part(self) -> int {
        match self {
            ScoreValue::Numeric(v) => v,
            _ => 0,
        }
    }

    /// The score seen from one ply further up the tree: a mate moves one
    /// ply away, counted up for White and down for Black; a number stays.
    pub open spec fn deepen(self) -> ScoreValue {
        match self {
            ScoreValue::MateForWhite(p) => ScoreValue::MateForWhite(p + 1),
            ScoreValue::MateForBlack(p) => ScoreValue::MateForBlack(p - 1),
            ScoreValue::Numeric(v) => ScoreValue::Numeric(v),
        }
    }
}

/// The value of a position seen from White's side.
#[derive(Clone, Copy, Debug)]
pub struct Score {
    eval: i32,
    mate: bool,
    ply: i32,
    /// Read only when `mate` is set: true when White is the winner.
    color: bool,
}

impl View for Score {
    type V = ScoreValue;

    closed spec fn view(&self) -> ScoreValue {
        if self.mate {
            if self.color {
                ScoreValue::MateForWhite(self.ply as int)
            } else {
                ScoreValue::MateForBlack(self.ply as int)
            }
        } else {
            ScoreValue::Numeric(self.eval as int)
        }
    }
}

impl Score {
    /// A numeric score of `eval` centipawns.
    pub fn new_eval(eval: i32) -> (s: Score)
        ensures
            s@ == ScoreValue::Numeric(eval as int),
    {
        Score { eval: eval, mate: false, ply: 0, color: false }
    }

    /// A mate score with ply counter `ply`, won by White when `color` is set
    /// and by Black otherwise.
    pub fn new_mate(ply: i32, color: bool) -> (s: Score)
        ensures
            s@ == (if color {
                ScoreValue::MateForWhite(ply as int)
            } else {
                ScoreValue::MateForBlack(ply as int)
            }),
    {
        Score { eval: 0, mate: true, ply: ply, color: color }
    }

    pub fn is_mate(&self) -> (b: bool)
        ensures
            b == self@.is_mate(),
    {
        self.mate
    }

    /// True exactly for a mate that White delivers.
    pub fn white_wins(&self) -> (b: bool)
        ensures
            b == (self@ is MateForWhite),
    {
        self.mate && self.color
    }

    /// The centipawn value, or 0 for a mate.
    pub fn eval(&self) -> (v: i32)
        ensures
            v == self@.numeric_part(),
    {
        if self.mate {
            0
        } else {
            self.eval
        }
    }

    /// The ply counter of a mate, or 0 for a numeric score.
    pub fn ply(&self) -> (p: i32)
        ensures
            p == (if self@.is_mate() {
                self@.rank()
            } else {
                0
            }),
    {
        if self.mate {
            self.ply
        } else {
            0
        }
    }

    /// The score seen from one ply further up the tree.
    pub fn deepen(self) -> (s: Score)
        requires
            self@ matches ScoreValue::MateForWhite(p) ==> p < i32::MAX,
            self@ matches ScoreValue::MateForBlack(p) ==> p > i32::MIN,
        ensures
            s@ == self@.deepen(),
    {
        if self.mate {
            if self.color {
                Score { eval: self.eval, mate: true, ply: self.ply + 1, color: true }
            } else {
                Score { eval: self.eval, mate: true, ply: self.ply - 1, color: false }
            }
        } else {
            self
        }
    }
}

impl Default for Score {
    fn default() -> (s: Score)
        ensures
            s@ == ScoreValue::Numeric(0),
    {
        Score { eval: 0, mate: false, ply: 0, color: false }
    }
}

impl PartialEq for Score {
    fn eq(&self, other: &Score) -> (r: bool) {
        if self.mate == other.mate {
            if self.mate {
                self.ply == other.ply && self.color == other.color
            } else {
                self.eval == other.eval
            }
        } else {
            false
        }
    }
}

impl vstd::std_specs::cmp::PartialEqSpecImpl for Score {
    open spec fn obeys_eq_spec() -> bool {
        true
    }

    open spec fn eq_spec(&self, other: &Score) -> bool {
        self@ == other@
    }
}

impl PartialOrd for Score {
    fn partial_cmp(&self, other: &Score) -> (r: Option<Ordering>) {
        if self.mate != other.mate {
            // A mate against a number: the winner decides the direction.
            let mate_for_white = if self.mate {
                self.color
            } else {
                !other.color
            };
            if mate_for_white {
                Some(Ordering::Greater)
            } else {
                Some(Ordering::Less)
            }
        } else if self.mate && self.color != other.color {
            if self.color {
                Some(Ordering::Greater)
            } else {
                Some(Ordering::Less)
            }
        } else {
            let (a, b) = if self.mate {
                (self.ply, other.ply)
            } else {
                (self.eval, other.eval)
            };
            if a < b {
                Some(Ordering::Less)
            } else if a == b {
                Some(Ordering::Equal)
            } else {
                Some(Ordering::Greater)
            }
        }
    }
}

impl vstd::std_specs::cmp::PartialOrdSpecImpl for Score {
    open spec fn obeys_partial_cmp_spec() -> bool {
        true
    }

    open spec fn partial_cmp_spec(&self, other: &Score) -> Option<Ordering> {
        if self@.lt(other@) {
            Some(Ordering::Less)
        } else if other@.lt(self@) {
            Some(Ordering::Greater)
        } else {
            Some(Ordering::Equal)
        }
    }
}

/// The order is total: of "less", "equal" and "greater" exactly one holds
/// between any two scores.
pub proof fn lemma_order_trichotomy(a: Score, b: Score)
    ensures
        a@.lt(b@) || a@ == b@ || b@.lt(a@),
        !(a@.lt(b@) && a@ == b@),
        !(a@.lt(b@) && b@.lt(a@)),
        !(a@ == b@ && b@.lt(a@)),
{
}

/// The order is transitive.
pub proof fn lemma_order_transitive(a: Score, b: Score, c: Score)
    requires
        a@.lt(b@),
        b@.lt(c@),
    ensures
        a@.lt(c@),
{
}

/// A mate for White is greater than every numeric score, and a mate for
/// Black is less than every numeric score.
pub proof fn lemma_mate_dominance(m: Score, n: Score)
    requires
        m@.is_mate(),
        !n@.is_mate(),
    ensures
        m@ is MateForWhite ==> n@.lt(m@),
        m@ is MateForBlack ==> m@.lt(n@),
{
}

} // verus!
