use tictactoe::evaluator::eval;
use tictactoe::{Board, Evaluation, Player};

fn board_of(cells: [Option<Player>; 9]) -> Board {
    Board { board: cells }
}

const X: Option<Player> = Some(Player::X);
const O: Option<Player> = Some(Player::O);
const E: Option<Player> = None;

#[test]
fn immediate_win_beats_blocking() {
    // Row 0 has two X with cell 2 empty; row 1 has two O with cell 5
    // empty. X must complete its own row, not block O's.
    let b = board_of([X, X, E, O, O, E, E, E, E]);
    assert_eq!(eval(Player::X, &b, 0), (2, Evaluation::Win(0)));
}

#[test]
fn immediate_win_keeps_the_given_depth() {
    let b = board_of([X, X, E, O, O, E, E, E, E]);
    assert_eq!(eval(Player::X, &b, 7), (2, Evaluation::Win(7)));
    assert_eq!(eval(Player::O, &b, 3), (5, Evaluation::Win(3)));
}

#[test]
fn immediate_win_takes_the_first_scanned_line() {
    // X can win on cells 2, 5 and 8; the row scanned first decides.
    let b = board_of([X, X, E, X, X, E, O, O, E]);
    assert_eq!(eval(Player::X, &b, 0), (2, Evaluation::Win(0)));
}

#[test]
fn full_board_without_winner_is_a_draw() {
    let b = board_of([X, O, X, X, O, O, O, X, X]);
    assert_eq!(eval(Player::X, &b, 0), (0, Evaluation::Draw));
    assert_eq!(eval(Player::O, &b, 6), (0, Evaluation::Draw));
}

#[test]
fn evaluator_blocks_a_loss() {
    // O threatens to complete row 0 at cell 2; every other move of X
    // loses at once, so the search must pick the block.
    let b = board_of([O, O, E, X, E, E, E, E, E]);
    let (mv, _value) = eval(Player::X, &b, 0);
    assert_eq!(mv, 2);
}

#[test]
fn empty_board_is_a_draw_under_optimal_play() {
    let b = Board::default();
    let (mv, value) = eval(Player::X, &b, 0);
    assert!(mv < 9);
    assert_eq!(value, Evaluation::Draw);
}

#[test]
fn returned_move_is_always_an_empty_cell() {
    let b = board_of([X, E, O, E, X, E, E, O, E]);
    for _ in 0..5 {
        let (mv, _value) = eval(Player::O, &b, 0);
        assert!(b.get(mv).is_none());
    }
}
