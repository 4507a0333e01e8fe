//! The 3x3 board: players, cells, win-line detection and move enumeration.

use vstd::prelude::*;

verus! {

/// One of the two players. Values are copied freely; `not` yields the
/// opponent.
#[derive(Debug, Copy, Clone, PartialEq, Eq, Structural)]
pub enum Player {
    X,
    O,
}

impl Player {
    /// The opposing player, as a mathematical value.
    pub open spec fn spec_not(self) -> Player {
        match self {
            Player::X => Player::O,
            Player::O => Player::X,
        }
    }

    /// The opposing player.
    pub fn not(self) -> (r: Player)
        ensures
            r == self.spec_not(),
    {
        match self {
            Player::X => Player::O,
            Player::O => Player::X,
        }
    }

    /// The player's one-character name.
    pub fn as_str(self) -> (r: &'static str)
        ensures
            self == Player::X ==> r@ == "X"@,
            self == Player::O ==> r@ == "O"@,
    {
        match self {
            Player::X => "X",
            Player::O => "O",
        }
    }
}

/// The board: nine cells in row-major order, each empty or marked by a
/// player.
#[derive(Debug, Copy, Clone, PartialEq, Eq)]
pub struct Board {
    pub board: [Option<Player>; 9],
}

impl View for Board {
    type V = Seq<Option<Player>>;

    open spec fn view(&self) -> Seq<Option<Player>> {
        self.board@
    }
}

/// The cell indices of the `k`-th win-line: the three rows, the three
/// columns and the two diagonals, in the order the strategies scan them.
pub open spec fn win_line(k: int) -> (int, int, int) {
    if k == 0 {
        (0int, 1int, 2int)
    } else if k == 1 {
        (3int, 4int, 5int)
    } else if k == 2 {
        (6int, 7int, 8int)
    } else if k == 3 {
        (0int, 3int, 6int)
    } else if k == 4 {
        (0int, 4int, 8int)
    } else if k == 5 {
        (1int, 4int, 7int)
    } else if k == 6 {
        (2int, 5int, 8int)
    } else {
        (2int, 4int, 6int)
    }
}

/// All three cells of win-line `k` hold the same player's mark.
pub open spec fn line_won(b: Seq<Option<Player>>, k: int) -> bool {
    let (x, y, z) = win_line(k);
    b[x] is Some && b[y] == b[x] && b[z] == b[x]
}

/// Some win-line is completely held by one player.
pub open spec fn spec_has_winner(b: Seq<Option<Player>>) -> bool {
    exists|k: int| 0 <= k < 8 && line_won(b, k)
}

/// In win-line `k`, cell `i` is the single empty cell and the other two
/// cells both hold `p`'s mark: placing at `i` completes the line for `p`.
pub open spec fn line_win_spot(b: Seq<Option<Player>>, p: Player, k: int, i: int) -> bool {
    let (x, y, z) = win_line(k);
    ||| (i == x && b[x] is None && b[y] == Some(p) && b[z] == Some(p))
    ||| (i == y && b[y] is None && b[x] == Some(p) && b[z] == Some(p))
    ||| (i == z && b[z] is None && b[x] == Some(p) && b[y] == Some(p))
}

/// Cell `i` immediately wins for `p`: some win-line has `p`'s mark twice
/// and `i` as its only empty cell.
pub open spec fn is_win_spot(b: Seq<Option<Player>>, p: Player, i: int) -> bool {
    exists|k: int| 0 <= k < 8 && line_win_spot(b, p, k, i)
}

/// `p` has at least one immediately winning cell.
pub open spec fn has_win_spot(b: Seq<Option<Player>>, p: Player) -> bool {
    exists|i: int| is_win_spot(b, p, i)
}

/// Cell `i` is the winning spot of line `k`, and no line before `k` in
/// scan order has a winning spot: `i` is the spot a scan finds first.
pub open spec fn is_first_win_spot(b: Seq<Option<Player>>, p: Player, k: int, i: int) -> bool {
    &&& 0 <= k < 8
    &&& line_win_spot(b, p, k, i)
    &&& forall|kk: int, j: int| 0 <= kk < k ==> !line_win_spot(b, p, kk, j)
}

/// Marking a winning spot really wins: it leaves a board with a complete
/// win-line.
pub proof fn lemma_win_spot_wins(b: Seq<Option<Player>>, p: Player, i: int)
    requires
        b.len() == 9,
        is_win_spot(b, p, i),
    ensures
        spec_has_winner(b.update(i, Some(p))),
{
    let k = choose|k: int| 0 <= k < 8 && line_win_spot(b, p, k, i);
    assert(line_won(b.update(i, Some(p)), k));
}

/// The number of empty cells among the first `n` cells.
pub open spec fn count_empty_to(b: Seq<Option<Player>>, n: int) -> nat
    decreases n,
{
    if n <= 0 {
        0
    } else {
        (if b[n - 1] is None {
            1nat
        } else {
            0nat
        }) + count_empty_to(b, n - 1)
    }
}

/// The number of empty cells of the board.
pub open spec fn count_empty(b: Seq<Option<Player>>) -> nat {
    count_empty_to(b, 9)
}

/// Placing a mark on an empty cell lowers the empty-cell count by one.
pub proof fn lemma_count_empty_update(b: Seq<Option<Player>>, i: int, p: Player, n: int)
    requires
        0 <= i < b.len(),
        b[i] is None,
        n <= b.len(),
    ensures
        i < n ==> count_empty_to(b.update(i, Some(p)), n) + 1 == count_empty_to(b, n),
        i >= n ==> count_empty_to(b.update(i, Some(p)), n) == count_empty_to(b, n),
    decreases n,
{
    if n > 0 {
        lemma_count_empty_update(b, i, p, n - 1);
    }
}

/// A board with an empty cell has a positive empty-cell count.
pub proof fn lemma_count_empty_pos(b: Seq<Option<Player>>, i: int, n: int)
    requires
        0 <= i < n,
        b[i] is None,
    ensures
        count_empty_to(b, n) >= 1,
    decreases n,
{
    if i < n - 1 {
        lemma_count_empty_pos(b, i, n - 1);
    }
}

/// A positive empty-cell count names an empty cell.
pub proof fn lemma_count_empty_exists(b: Seq<Option<Player>>, n: int)
    requires
        count_empty_to(b, n) > 0,
    ensures
        exists|i: int| 0 <= i < n && b[i] is None,
    decreases n,
{
    if n > 0 && !(b[n - 1] is None) {
        lemma_count_empty_exists(b, n - 1);
    }
}

/// The empty-cell count of a prefix never exceeds the prefix length.
pub proof fn lemma_count_empty_le(b: Seq<Option<Player>>, n: int)
    requires
        n >= 0,
    ensures
        count_empty_to(b, n) <= n,
    decreases n,
{
    if n > 0 {
        lemma_count_empty_le(b, n - 1);
    }
}

/// True iff the cell holds `p`'s mark.
pub fn cell_is(cell: Option<Player>, p: Player) -> (r: bool)
    ensures
        r == (cell == Some(p)),
{
    match cell {
        Some(q) => q == p,
        None => false,
    }
}

/// The one-based label shown on an empty cell `i`.
pub open spec fn cell_label(i: int) -> Seq<char> {
    if i == 0 {
        "1"@
    } else if i == 1 {
        "2"@
    } else if i == 2 {
        "3"@
    } else if i == 3 {
        "4"@
    } else if i == 4 {
        "5"@
    } else if i == 5 {
        "6"@
    } else if i == 6 {
        "7"@
    } else if i == 7 {
        "8"@
    } else {
        "9"@
    }
}

impl Default for Board {
    /// The empty board.
    fn default() -> (r: Board)
        ensures
            forall|i: int| 0 <= i < 9 ==> r@[i] is None,
    {
        Board { board: [None, None, None, None, None, None, None, None, None] }
    }
}

impl Board {
    /// The text shown for cell `i`: the owning player's name, or the
    /// cell's one-based label while it is empty.
    pub fn field_display(&self, i: usize) -> (r: &'static str)
        requires
            i < 9,
        ensures
            self@[i as int] == Some(Player::X) ==> r@ == "X"@,
            self@[i as int] == Some(Player::O) ==> r@ == "O"@,
            self@[i as int] is None ==> r@ == cell_label(i as int),
    {
        match self.board[i] {
            Some(p) => p.as_str(),
            None => if i == 0 {
                "1"
            } else if i == 1 {
                "2"
            } else if i == 2 {
                "3"
            } else if i == 3 {
                "4"
            } else if i == 4 {
                "5"
            } else if i == 5 {
                "6"
            } else if i == 6 {
                "7"
            } else if i == 7 {
                "8"
            } else {
                "9"
            },
        }
    }

    /// The mark on cell `i`, or `None` for an empty cell.
    pub fn get(&self, i: usize) -> (r: Option<Player>)
        requires
            i < 9,
        ensures
            r == self@[i as int],
    {
        self.board[i]
    }

    /// Marks the empty cell `i` with `p`'s mark; all other cells keep
    /// their contents.
    pub fn place(&mut self, i: usize, p: Player)
        requires
            i < 9,
            old(self)@[i as int] is None,
        ensures
            final(self)@ == old(self)@.update(i as int, Some(p)),
    {
        self.board[i] = Some(p);
    }

    /// The three cells of win-line `k`, as runtime indices.
    pub fn win_case(k: usize) -> (r: (usize, usize, usize))
        requires
            k < 8,
        ensures
            (r.0 as int, r.1 as int, r.2 as int) == win_line(k as int),
            r.0 < 9 && r.1 < 9 && r.2 < 9,
    {
        if k == 0 {
            (0, 1, 2)
        } else if k == 1 {
            (3, 4, 5)
        } else if k == 2 {
            (6, 7, 8)
        } else if k == 3 {
            (0, 3, 6)
        } else if k == 4 {
            (0, 4, 8)
        } else if k == 5 {
            (1, 4, 7)
        } else if k == 6 {
            (2, 5, 8)
        } else {
            (2, 4, 6)
        }
    }

    /// True iff cells `a`, `b`, `c` all hold the same player's mark.
    pub fn check_line(&self, a: usize, b: usize, c: usize) -> (r: bool)
        requires
            a < 9 && b < 9 && c < 9,
        ensures
            r == (self@[a as int] is Some && self@[b as int] == self@[a as int]
                && self@[c as int] == self@[a as int]),
    {
        match (self.board[a], self.board[b], self.board[c]) {
            (Some(x), Some(y), Some(z)) => x == y && y == z,
            _ => false,
        }
    }

    /// True iff some player holds a complete win-line.
    pub fn winner(&self) -> (r: bool)
        ensures
            r == spec_has_winner(self@),
    {
        let mut k: usize = 0;
        while k < 8
            invariant
                k <= 8,
                forall|j: int| 0 <= j < k ==> !line_won(self@, j),
            decreases 8 - k,
        {
            let (a, b, c) = Board::win_case(k);
            if self.check_line(a, b, c) {
                proof {
                    assert(line_won(self@, k as int));
                }
                return true;
            }
            k = k + 1;
        }
        false
    }
}

/// Every currently empty cell's index, in ascending order and nothing else.
pub fn possible_moves(board: &Board) -> (r: Vec<usize>)
    ensures
        forall|j: int| 0 <= j < r@.len() ==> r@[j] < 9 && board@[r@[j] as int] is None,
        forall|i: int| 0 <= i < 9 && board@[i] is None ==> r@.contains(i as usize),
        forall|j1: int, j2: int| 0 <= j1 < j2 < r@.len() ==> r@[j1] < r@[j2],
{
    let mut r: Vec<usize> = Vec::new();
    let mut i: usize = 0;
    while i < 9
        invariant
            i <= 9,
            forall|j: int| 0 <= j < r@.len() ==> r@[j] < i && board@[r@[j] as int] is None,
            forall|c: int| 0 <= c < i && board@[c] is None ==> r@.contains(c as usize),
            forall|j1: int, j2: int| 0 <= j1 < j2 < r@.len() ==> r@[j1] < r@[j2],
        decreases 9 - i,
    {
        if board.get(i).is_none() {
            let ghost prev = r@;
            r.push(i);
            proof {
                assert forall|c: int| 0 <= c < i + 1 && board@[c] is None implies r@.contains(
                    c as usize,
                ) by {
                    if c < i {
                        let j = choose|j: int|
                            0 <= j < prev.len() && prev[j] == c as usize;
                        assert(r@[j] == c as usize);
                    } else {
                        assert(r@[r@.len() - 1] == i);
                    }
                }
            }
        }
        i = i + 1;
    }
    r
}

} // verus!
