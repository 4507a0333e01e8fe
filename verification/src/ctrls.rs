//! The move-selection strategies: a human prompt (validated here, driven
//! at the I/O layer), a uniform-random choice, a heuristic random choice
//! that takes wins and blocks threats, and the exhaustive evaluator.

use vstd::prelude::*;

use crate::board::{
    cell_is, count_empty, has_win_spot, is_first_win_spot, is_win_spot,
    lemma_count_empty_exists, lemma_count_empty_le, line_win_spot, possible_moves, Board, Player,
};
use crate::evaluator::{eval, spec_eval};

verus! {

/// A move-selection strategy: given the player to move and a board with
/// at least one empty cell, it picks an empty cell's index.
pub trait Controller {
    fn get_move(&self, player: Player, board: &Board) -> (r: usize)
        requires
            count_empty(board@) > 0,
        ensures
            r < 9 && board@[r as int] is None,
    ;
}

/// The two per-player strategies of one game.
pub struct Controllers<CX: Controller, CO: Controller> {
    pub x: CX,
    pub o: CO,
}

impl<CX: Controller, CO: Controller> Controllers<CX, CO> {
    /// Asks the strategy of the player to move for an empty cell's index.
    pub fn get_move(&self, player: Player, board: &Board) -> (r: usize)
        requires
            count_empty(board@) > 0,
        ensures
            r < 9 && board@[r as int] is None,
    {
        match player {
            Player::X => self.x.get_move(player, board),
            Player::O => self.o.get_move(player, board),
        }
    }
}

/// The human-driven strategy. Prompting and reading happen at the I/O
/// layer, which accepts an entry exactly when `parse_square_choice` does.
pub struct Human;

/// The decision inside the human prompt loop: entries `1` through `9`
/// name a board cell (one-based), anything else is rejected and asked
/// again at the I/O layer.
pub fn parse_square_choice(n: usize) -> (r: Option<usize>)
    ensures
        1 <= n <= 9 ==> r == Some((n - 1) as usize),
        !(1 <= n <= 9) ==> r is None,
{
    if 1 <= n && n <= 9 {
        Some(n - 1)
    } else {
        None
    }
}

/// Relies on rand::seq::IndexedRandom::choose, with the thread-local
/// generator from rand::rng: a uniformly sampled element of the slice;
/// `None` only for an empty slice.
#[verifier::external_body]
fn choose_one(v: &Vec<usize>) -> (r: usize)
    requires
        v@.len() > 0,
    ensures
        v@.contains(r),
{
    *rand::seq::IndexedRandom::choose(v.as_slice(), &mut rand::rng()).unwrap()
}

/// The uniform-random strategy: any empty cell, with equal probability.
pub struct Random;

impl Controller for Random {
    fn get_move(&self, _player: Player, board: &Board) -> (r: usize) {
        let choices = possible_moves(board);
        proof {
            lemma_count_empty_exists(board@, 9);
            let i = choose|i: int| 0 <= i < 9 && board@[i] is None;
            assert(choices@.contains(i as usize));
        }
        choose_one(&choices)
    }
}

/// The heuristic random strategy: it takes an immediate win when one
/// exists (the spot of the first win-line in scan order, without looking
/// further), otherwise blocks an opponent's immediate win, otherwise
/// moves uniformly at random.
pub struct RandomSmart;

impl Controller for RandomSmart {
    fn get_move(&self, me: Player, board: &Board) -> (r: usize)
        ensures
            has_win_spot(board@, me) ==> is_win_spot(board@, me, r as int),
            has_win_spot(board@, me) ==> exists|k: int|
                is_first_win_spot(board@, me, k, r as int),
            !has_win_spot(board@, me) && has_win_spot(board@, me.spec_not()) ==> is_win_spot(
                board@,
                me.spec_not(),
                r as int,
            ),
    {
        let op = me.not();
        let mut danger: Option<usize> = None;
        let mut k: usize = 0;
        while k < 8
            invariant
                k <= 8,
                op == me.spec_not(),
                forall|kk: int, i: int| 0 <= kk < k ==> !line_win_spot(board@, me, kk, i),
                danger matches Some(d) ==> d < 9 && board@[d as int] is None && is_win_spot(
                    board@,
                    op,
                    d as int,
                ),
                danger is None ==> forall|kk: int, i: int|
                    0 <= kk < k ==> !line_win_spot(board@, op, kk, i),
            decreases 8 - k,
        {
            let (a, b, c) = Board::win_case(k);
            let ca = board.get(a);
            let cb = board.get(b);
            let cc = board.get(c);
            let mine: Option<usize> = if ca.is_none() && cell_is(cb, me) && cell_is(cc, me) {
                Some(a)
            } else if cb.is_none() && cell_is(ca, me) && cell_is(cc, me) {
                Some(b)
            } else if cc.is_none() && cell_is(ca, me) && cell_is(cb, me) {
                Some(c)
            } else {
                None
            };
            match mine {
                Some(w) => {
                    proof {
                        assert(line_win_spot(board@, me, k as int, w as int));
                        assert(is_win_spot(board@, me, w as int));
                        assert(is_first_win_spot(board@, me, k as int, w as int));
                    }
                    // We will win instantly if we take this.
                    return w;
                },
                None => {
                    proof {
                        assert forall|i: int| !line_win_spot(board@, me, k as int, i) by {}
                    }
                },
            }
            let theirs: Option<usize> = if ca.is_none() && cell_is(cb, op) && cell_is(cc, op) {
                Some(a)
            } else if cb.is_none() && cell_is(ca, op) && cell_is(cc, op) {
                Some(b)
            } else if cc.is_none() && cell_is(ca, op) && cell_is(cb, op) {
                Some(c)
            } else {
                None
            };
            match theirs {
                Some(d) => {
                    proof {
                        assert(line_win_spot(board@, op, k as int, d as int));
                        assert(is_win_spot(board@, op, d as int));
                    }
                    // A threat; keep scanning in case a win turns up later.
                    danger = Some(d);
                },
                None => {
                    proof {
                        assert forall|i: int| !line_win_spot(board@, op, k as int, i) by {}
                    }
                },
            }
            k = k + 1;
        }
        proof {
            assert forall|i: int| !is_win_spot(board@, me, i) by {}
        }
        // Avoid losing.
        if let Some(d) = danger {
            return d;
        }
        proof {
            assert forall|i: int| !is_win_spot(board@, op, i) by {}
        }
        Random.get_move(me, board)
    }
}

/// The exhaustive strategy: the move the game-tree evaluator picks at
/// depth 0, with the value component discarded.
pub struct Eval;

impl Controller for Eval {
    fn get_move(&self, me: Player, board: &Board) -> (r: usize)
        ensures
            has_win_spot(board@, me) ==> is_win_spot(board@, me, r as int) && (exists|k: int|
                is_first_win_spot(board@, me, k, r as int)),
            !has_win_spot(board@, me) ==> spec_eval(
                me.spec_not(),
                board@.update(r as int, Some(me)),
                1,
            ).spec_neg() == spec_eval(me, board@, 0),
    {
        proof {
            lemma_count_empty_le(board@, 9);
        }
        let (best_move, _evaluation) = eval(me, board, 0);
        best_move
    }
}

} // verus!
