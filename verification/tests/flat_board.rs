use tictactoe::board::{Board, BoardError, EndGame};
use tictactoe::notation::notation_to_index;
use tictactoe::piece::Piece;

#[test]
fn test_board() {
    let mut board = Board::new();

    board.play(1).unwrap();
    board.next_turn();
    board.play(5).unwrap();

    notation_to_index("a1").unwrap();
    notation_to_index("c3").unwrap();
    notation_to_index("b1").unwrap();
}

#[test]
fn test_new_board_is_empty_and_in_play() {
    let board = Board::new();
    assert_eq!(board.get_turn(), Piece::X);
    for i in 0..9 {
        assert_eq!(board.get_space(i), Piece::Empty);
    }
    assert_eq!(board.win_check(), EndGame::NotDone);
}

#[test]
fn test_left_column_win() {
    let mut board = Board::new();
    board.play(0).unwrap();
    board.next_turn();
    board.play(1).unwrap();
    board.next_turn();
    board.play(3).unwrap();
    board.next_turn();
    board.play(4).unwrap();
    board.next_turn();
    board.play(6).unwrap();
    assert_eq!(board.win_check(), EndGame::Winner(Piece::X));
}

#[test]
fn test_top_row_win_for_o() {
    let mut board = Board::new();
    board.play(4).unwrap();
    board.next_turn();
    board.play(0).unwrap();
    board.next_turn();
    board.play(8).unwrap();
    board.next_turn();
    board.play(1).unwrap();
    board.next_turn();
    board.play(6).unwrap();
    board.next_turn();
    board.play(2).unwrap();
    assert_eq!(board.win_check(), EndGame::Winner(Piece::O));
}

#[test]
fn test_diagonal_win() {
    let mut board = Board::new();
    board.play(0).unwrap();
    board.next_turn();
    board.play(1).unwrap();
    board.next_turn();
    board.play(4).unwrap();
    board.next_turn();
    board.play(2).unwrap();
    board.next_turn();
    board.play(8).unwrap();
    assert_eq!(board.win_check(), EndGame::Winner(Piece::X));
}

#[test]
fn test_cats_game() {
    let mut board = Board::new();
    // X takes 0, 2, 3, 7, 8 and O takes 1, 4, 5, 6: no line for either.
    for space in [0, 1, 2, 4, 3, 5, 7, 6, 8] {
        board.play(space).unwrap();
        board.next_turn();
    }
    assert_eq!(board.win_check(), EndGame::CatsGame);
}

#[test]
fn test_last_cell_is_playable() {
    let mut board = Board::new();
    board.play(8).unwrap();
    assert_eq!(board.get_space(8), Piece::X);
}

#[test]
fn test_out_of_bounds_leaves_board_unchanged() {
    let mut board = Board::new();
    let err = board.play(9).unwrap_err();
    assert!(matches!(err, BoardError::OutOfBoundsError));
    for i in 0..9 {
        assert_eq!(board.get_space(i), Piece::Empty);
    }
    assert_eq!(board.get_turn(), Piece::X);
}

#[test]
fn test_space_taken_leaves_board_unchanged() {
    let mut board = Board::new();
    board.play(4).unwrap();
    board.next_turn();
    let err = board.play(4).unwrap_err();
    assert!(matches!(err, BoardError::SpaceTakenError));
    assert_eq!(board.get_space(4), Piece::X);
    for i in 0..9 {
        if i != 4 {
            assert_eq!(board.get_space(i), Piece::Empty);
        }
    }
    assert_eq!(board.get_turn(), Piece::O);
}

#[test]
fn test_flat_turn_alternation() {
    let mut board = Board::new();
    for n in 0..6 {
        let expected = if n % 2 == 0 { Piece::X } else { Piece::O };
        assert_eq!(board.get_turn(), expected);
        board.next_turn();
    }
}

#[test]
fn test_flat_error_messages() {
    assert_eq!(
        BoardError::SpaceTakenError.message(),
        "This space is already occupied!"
    );
    assert_eq!(
        BoardError::OutOfBoundsError.message(),
        "That space does not exist!"
    );
}
