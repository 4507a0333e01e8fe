//! The outcome value of a position: win, loss or draw, with the ply
//! distance to the terminal position, ordered from the mover's point of
//! view and negated to flip between the two players' points of view.

use vstd::prelude::*;

use core::cmp::Ordering;

verus! {

/// The game-theoretic outcome of a position, seen by the player to move:
/// `Win(d)` / `Loss(d)` end the game `d` plies from here, `Draw` fills the
/// board with no winner.
#[derive(Debug, Copy, Clone, PartialEq, Eq, Structural)]
pub enum Evaluation {
    Draw,
    Loss(u8),
    Win(u8),
}

impl Evaluation {
    /// The value on a single numeric scale: every win beats the draw,
    /// the draw beats every loss, a sooner win beats a later one, and a
    /// later loss beats a sooner one. Distinct values get distinct scores.
    pub open spec fn spec_score(self) -> int {
        match self {
            Evaluation::Draw => 0,
            Evaluation::Loss(t) => t - 256,
            Evaluation::Win(t) => 256 - t,
        }
    }

    /// The same outcome seen by the other player: wins and losses swap at
    /// the same distance, a draw stays a draw.
    pub open spec fn spec_neg(self) -> Evaluation {
        match self {
            Evaluation::Draw => Evaluation::Draw,
            Evaluation::Loss(t) => Evaluation::Win(t),
            Evaluation::Win(t) => Evaluation::Loss(t),
        }
    }

    /// The opposing player's view of this outcome.
    pub fn neg(self) -> (r: Evaluation)
        ensures
            r == self.spec_neg(),
    {
        match self {
            Evaluation::Draw => Evaluation::Draw,
            Evaluation::Loss(t) => Evaluation::Win(t),
            Evaluation::Win(t) => Evaluation::Loss(t),
        }
    }

    /// The score as a runtime value.
    pub fn score(&self) -> (r: i32)
        ensures
            r as int == self.spec_score(),
    {
        match self {
            Evaluation::Draw => 0,
            Evaluation::Loss(t) => (*t as i32) - 256,
            Evaluation::Win(t) => 256 - (*t as i32),
        }
    }

    /// Compares two outcomes from the mover's point of view.
    pub fn cmp(&self, other: &Self) -> (r: Ordering)
        ensures
            (r == Ordering::Greater) <==> self.spec_score() > other.spec_score(),
            (r == Ordering::Equal) <==> self == other,
            (r == Ordering::Less) <==> self.spec_score() < other.spec_score(),
    {
        match (self, other) {
            (Evaluation::Win(_), Evaluation::Loss(_)) => Ordering::Greater,
            (Evaluation::Win(_), Evaluation::Draw) => Ordering::Greater,
            (Evaluation::Draw, Evaluation::Loss(_)) => Ordering::Greater,
            (Evaluation::Win(s), Evaluation::Win(o)) => if s < o {
                Ordering::Greater
            } else if s == o {
                Ordering::Equal
            } else {
                Ordering::Less
            },
            (Evaluation::Draw, Evaluation::Draw) => Ordering::Equal,
            (Evaluation::Loss(s), Evaluation::Loss(o)) => if s > o {
                Ordering::Greater
            } else if s == o {
                Ordering::Equal
            } else {
                Ordering::Less
            },
            (Evaluation::Draw, Evaluation::Win(_)) => Ordering::Less,
            (Evaluation::Loss(_), Evaluation::Draw) => Ordering::Less,
            (Evaluation::Loss(_), Evaluation::Win(_)) => Ordering::Less,
        }
    }
}

/// Negation is an involution: negating an outcome twice gives it back.
pub proof fn lemma_neg_involution(v: Evaluation)
    ensures
        v.spec_neg().spec_neg() == v,
{
}

/// Negation mirrors the score exactly, so it reverses the order.
pub proof fn lemma_neg_score(v: Evaluation)
    ensures
        v.spec_neg().spec_score() == -v.spec_score(),
{
}

/// The score orders outcomes totally: equal scores mean equal outcomes,
/// and a strictly better outcome becomes strictly worse when both are
/// seen by the other player.
pub proof fn lemma_order_total_and_neg_consistent(a: Evaluation, b: Evaluation)
    ensures
        a.spec_score() == b.spec_score() ==> a == b,
        a.spec_score() > b.spec_score() ==> a.spec_neg().spec_score() < b.spec_neg().spec_score(),
{
    lemma_neg_score(a);
    lemma_neg_score(b);
}

} // verus!
