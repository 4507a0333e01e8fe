use tictactoe::board::possible_moves;
use tictactoe::ctrls::parse_square_choice;
use tictactoe::{Board, Player};

fn board_of(cells: [Option<Player>; 9]) -> Board {
    Board { board: cells }
}

const X: Option<Player> = Some(Player::X);
const O: Option<Player> = Some(Player::O);
const E: Option<Player> = None;

#[test]
fn default_board_is_empty() {
    let b = Board::default();
    for i in 0..9 {
        assert!(b.get(i).is_none());
    }
    assert_eq!(possible_moves(&b), vec![0, 1, 2, 3, 4, 5, 6, 7, 8]);
}

#[test]
fn place_marks_one_cell() {
    let mut b = Board::default();
    b.place(4, Player::X);
    assert_eq!(b.get(4), Some(Player::X));
    for i in 0..9 {
        if i != 4 {
            assert!(b.get(i).is_none());
        }
    }
}

#[test]
fn possible_moves_lists_empty_cells_in_order() {
    let b = board_of([X, E, O, E, X, E, E, O, X]);
    assert_eq!(possible_moves(&b), vec![1, 3, 5, 6]);
}

#[test]
fn possible_moves_of_full_board_is_empty() {
    let b = board_of([X, O, X, X, O, O, O, X, X]);
    assert_eq!(possible_moves(&b), Vec::<usize>::new());
}

#[test]
fn check_line_sees_a_completed_row() {
    let b = board_of([O, O, O, X, X, E, E, E, E]);
    assert!(b.check_line(0, 1, 2));
    assert!(!b.check_line(3, 4, 5));
    assert!(!b.check_line(0, 3, 6));
}

#[test]
fn winner_on_rows_columns_and_diagonals() {
    assert!(board_of([X, X, X, O, O, E, E, E, E]).winner());
    assert!(board_of([X, O, E, X, O, E, E, O, X]).winner());
    assert!(board_of([X, O, O, E, X, E, E, E, X]).winner());
    assert!(board_of([O, X, O, E, O, X, O, X, E]).winner());
    assert!(!Board::default().winner());
    assert!(!board_of([X, O, X, X, O, O, O, X, X]).winner());
}

#[test]
fn player_not_toggles() {
    assert_eq!(Player::X.not(), Player::O);
    assert_eq!(Player::O.not(), Player::X);
    assert_eq!(Player::X.not().not(), Player::X);
}

#[test]
fn player_as_str_names() {
    assert_eq!(Player::X.as_str(), "X");
    assert_eq!(Player::O.as_str(), "O");
}

#[test]
fn field_display_shows_mark_or_label() {
    let b = board_of([X, O, E, E, E, E, E, E, E]);
    assert_eq!(b.field_display(0), "X");
    assert_eq!(b.field_display(1), "O");
    assert_eq!(b.field_display(2), "3");
    assert_eq!(b.field_display(8), "9");
}

#[test]
fn parse_square_choice_accepts_one_through_nine() {
    assert_eq!(parse_square_choice(1), Some(0));
    assert_eq!(parse_square_choice(5), Some(4));
    assert_eq!(parse_square_choice(9), Some(8));
    assert_eq!(parse_square_choice(0), None);
    assert_eq!(parse_square_choice(10), None);
    assert_eq!(parse_square_choice(usize::MAX), None);
}
