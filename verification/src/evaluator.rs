//! The exhaustive game-tree evaluator: the game-theoretic value of a
//! position and one optimal move for it, with randomized tie-breaking
//! among equally good moves.

use vstd::prelude::*;

use crate::board::{
    cell_is, Board, Player, count_empty, count_empty_to, has_win_spot, is_first_win_spot,
    is_win_spot, lemma_count_empty_pos, lemma_count_empty_update, line_win_spot,
};
use crate::outcome::{lemma_order_total_and_neg_consistent, Evaluation};

verus! {

/// The bound on the random tie-break key drawn for each candidate move.
const FUZZ: u8 = 8;

/// The better of two outcomes for the mover; the first on equal values.
pub open spec fn spec_max(a: Evaluation, b: Evaluation) -> Evaluation {
    if b.spec_score() > a.spec_score() {
        b
    } else {
        a
    }
}

/// The best outcome `me` can force by moving on an empty cell with index
/// below `n`, or `None` when no such cell is empty. Each candidate cell is
/// scored by evaluating the resulting position from the opponent's point
/// of view one ply deeper and negating the result.
pub open spec fn best_from(me: Player, b: Seq<Option<Player>>, depth: u8, n: int) -> Option<
    Evaluation,
>
    decreases count_empty(b), n,
        when n <= 9 && b.len() == 9
{
    if n <= 0 {
        None
    } else {
        let rest = best_from(me, b, depth, n - 1);
        if b[n - 1] is None {
            proof {
                lemma_count_empty_update(b, n - 1, me, 9);
            }
            let v = spec_eval(me.spec_not(), b.update(n - 1, Some(me)), (depth + 1) as u8).spec_neg();
            match rest {
                None => Some(v),
                Some(w) => Some(spec_max(w, v)),
            }
        } else {
            rest
        }
    }
}

/// The game-theoretic value of the position for `me`, `depth` plies into
/// the search: an immediately winning cell gives `Win(depth)`; a full
/// board gives `Draw`; otherwise the best value among all moves.
pub open spec fn spec_eval(me: Player, b: Seq<Option<Player>>, depth: u8) -> Evaluation
    decreases count_empty(b), 10int,
        when b.len() == 9
{
    if has_win_spot(b, me) {
        Evaluation::Win(depth)
    } else {
        match best_from(me, b, depth, 9) {
            None => Evaluation::Draw,
            Some(v) => v,
        }
    }
}

/// The candidate set below `n` is non-empty exactly when some cell below
/// `n` is empty.
pub proof fn lemma_best_from_some(me: Player, b: Seq<Option<Player>>, depth: u8, n: int)
    requires
        b.len() == 9,
        0 <= n <= 9,
    ensures
        best_from(me, b, depth, n) is Some <==> count_empty_to(b, n) > 0,
    decreases n,
{
    if n > 0 {
        lemma_best_from_some(me, b, depth, n - 1);
    }
}

/// Relies on rand::random_range: a uniformly distributed value below the
/// bound, from the thread-local generator; it panics only on an empty
/// range.
#[verifier::external_body]
fn random_below(n: u8) -> (r: u8)
    requires
        n > 0,
    ensures
        r < n,
{
    rand::random_range(0..n)
}

/// One optimal move for `me` and the value it forces, `depth` plies into
/// the search. The value is exactly `spec_eval`; the returned index is an
/// empty cell whenever one exists, the winning spot of the first win-line
/// in scan order whenever `me` has one, and `0` with `Draw` on a full
/// board. Ties between equally good moves are broken by a random key, so
/// only the value and the optimality of the index are promised, not which
/// tied index comes back.
pub fn eval(me: Player, board: &Board, depth: u8) -> (r: (usize, Evaluation))
    requires
        depth + count_empty(board@) <= 255,
    ensures
        r.1 == spec_eval(me, board@, depth),
        count_empty(board@) > 0 ==> r.0 < 9 && board@[r.0 as int] is None,
        has_win_spot(board@, me) ==> is_win_spot(board@, me, r.0 as int) && r.1
            == Evaluation::Win(depth),
        has_win_spot(board@, me) ==> exists|k: int| is_first_win_spot(board@, me, k, r.0 as int),
        count_empty(board@) == 0 ==> r == (0usize, Evaluation::Draw),
        !has_win_spot(board@, me) && count_empty(board@) > 0 ==> spec_eval(
            me.spec_not(),
            board@.update(r.0 as int, Some(me)),
            (depth + 1) as u8,
        ).spec_neg() == r.1,
    decreases count_empty(board@),
{
    // Scan the eight win-lines for a cell that wins at once.
    let mut k: usize = 0;
    while k < 8
        invariant
            k <= 8,
            forall|kk: int, i: int| 0 <= kk < k ==> !line_win_spot(board@, me, kk, i),
        decreases 8 - k,
    {
        let (a, b, c) = Board::win_case(k);
        let ca = board.get(a);
        let cb = board.get(b);
        let cc = board.get(c);
        let spot: Option<usize> = if ca.is_none() && cell_is(cb, me) && cell_is(cc, me) {
            Some(a)
        } else if cb.is_none() && cell_is(ca, me) && cell_is(cc, me) {
            Some(b)
        } else if cc.is_none() && cell_is(ca, me) && cell_is(cb, me) {
            Some(c)
        } else {
            None
        };
        match spot {
            Some(w) => {
                proof {
                    assert(line_win_spot(board@, me, k as int, w as int));
                    assert(is_win_spot(board@, me, w as int));
                    assert(has_win_spot(board@, me));
                    assert(is_first_win_spot(board@, me, k as int, w as int));
                    lemma_count_empty_pos(board@, w as int, 9);
                }
                return (w, Evaluation::Win(depth));
            },
            None => {
                proof {
                    assert forall|i: int| !line_win_spot(board@, me, k as int, i) by {}
                }
            },
        }
        k = k + 1;
    }
    proof {
        assert forall|i: int| !is_win_spot(board@, me, i) by {}
        assert(!has_win_spot(board@, me));
    }

    // No immediate win: try every empty cell and keep the best reply,
    // breaking ties with a bounded random key.
    let mut best_i: usize = 0;
    let mut best_v: Evaluation = Evaluation::Draw;
    let mut best_fuzz: u8 = 0;
    let mut any: bool = false;
    let mut i: usize = 0;
    while i < 9
        invariant
            i <= 9,
            depth + count_empty(board@) <= 255,
            !has_win_spot(board@, me),
            any <==> best_from(me, board@, depth, i as int) is Some,
            any ==> best_from(me, board@, depth, i as int) == Some(best_v),
            any ==> best_i < 9 && board@[best_i as int] is None,
            any ==> spec_eval(
                me.spec_not(),
                board@.update(best_i as int, Some(me)),
                (depth + 1) as u8,
            ).spec_neg() == best_v,
        decreases 9 - i,
    {
        let cell = board.get(i);
        if cell.is_none() {
            proof {
                lemma_count_empty_update(board@, i as int, me, 9);
                lemma_count_empty_pos(board@, i as int, 9);
            }
            let mut nb = *board;
            nb.place(i, me);
            let child = eval(me.not(), &nb, depth + 1);
            let v = child.1.neg();
            let f = random_below(FUZZ);
            let vs = v.score();
            let bs = best_v.score();
            if !any || vs > bs || (vs == bs && f >= best_fuzz) {
                proof {
                    if any && vs == bs {
                        lemma_order_total_and_neg_consistent(v, best_v);
                    }
                }
                best_i = i;
                best_v = v;
                best_fuzz = f;
            }
            any = true;
        }
        i = i + 1;
    }
    proof {
        lemma_best_from_some(me, board@, depth, 9);
    }
    if any {
        (best_i, best_v)
    } else {
        (0, Evaluation::Draw)
    }
}

} // verus!

