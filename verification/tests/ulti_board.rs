use tictactoe::piece::Piece;
use tictactoe::ultiboard::{BoardSelection, BoardState, UltiError, UltimateBoard};

#[test]
fn test() {
    let mut ultiboard = UltimateBoard::new();

    let selected = ultiboard.get_focus();
    match selected {
        BoardSelection::Unselected => println!("No selection!"),
        BoardSelection::Selected(s) => println!("Selected board {}", s),
    }

    ultiboard.focus(BoardSelection::Selected(1)).unwrap();
    ultiboard.play(5).unwrap();

    let selected = ultiboard.get_focus();
    match selected {
        BoardSelection::Unselected => println!("No selection!"),
        BoardSelection::Selected(s) => println!("Selected board {}", s),
    }
}

#[test]
fn test_new_board() {
    let board = UltimateBoard::new();
    assert!(matches!(board.get_focus(), BoardSelection::Unselected));
    assert_eq!(board.get_turn(), Piece::X);
    for i in 0..9 {
        assert!(matches!(board.get_board_state(i), BoardState::InPlay));
        for s in 0..9 {
            assert_eq!(board.get_space(i, s), Piece::Empty);
        }
    }
}

#[test]
fn test_focus_out_of_bounds() {
    let mut board = UltimateBoard::new();
    let err = board.focus(BoardSelection::Selected(9)).unwrap_err();
    assert!(matches!(err, UltiError::OutOfBoundsError));
    assert!(matches!(board.get_focus(), BoardSelection::Unselected));
}

#[test]
fn test_play_errors_leave_board_unchanged() {
    let mut board = UltimateBoard::new();
    board.focus(BoardSelection::Selected(3)).unwrap();
    let err = board.play(9).unwrap_err();
    assert!(matches!(err, UltiError::OutOfBoundsError));
    board.play(2).unwrap();
    let err = board.play(2).unwrap_err();
    assert!(matches!(err, UltiError::SpaceTakenError));
    assert_eq!(board.get_space(3, 2), Piece::X);
    for s in 0..9 {
        if s != 2 {
            assert_eq!(board.get_space(3, s), Piece::Empty);
        }
    }
}

#[test]
fn test_won_sub_board_is_painted_and_unfocusable() {
    let mut board = UltimateBoard::new();
    board.focus(BoardSelection::Selected(1)).unwrap();
    // X fills the top row of sub-board 1 (the turn is not advanced).
    board.play(0).unwrap();
    board.play(1).unwrap();
    board.play(2).unwrap();
    let overall = board.win_check();
    assert!(matches!(overall, BoardState::InPlay));
    // The decided sub-board is recorded won, painted uniformly with the
    // winner's piece, and the focus was forced off it.
    assert!(matches!(board.get_board_state(1), BoardState::Winner(Piece::X)));
    for s in 0..9 {
        assert_eq!(board.get_space(1, s), Piece::X);
    }
    assert!(matches!(board.get_focus(), BoardSelection::Unselected));
    // Selecting the decided sub-board again is redirected to Unselected.
    board.focus(BoardSelection::Selected(1)).unwrap();
    assert!(matches!(board.get_focus(), BoardSelection::Unselected));
    // An in-play sub-board can still be focused.
    board.focus(BoardSelection::Selected(0)).unwrap();
    assert!(matches!(board.get_focus(), BoardSelection::Selected(0)));
}

#[test]
fn test_meta_row_win() {
    let mut board = UltimateBoard::new();
    for sub in 0..3 {
        board.focus(BoardSelection::Selected(sub)).unwrap();
        // X fills the left column of each of sub-boards 0, 1, 2.
        board.play(0).unwrap();
        board.play(3).unwrap();
        board.play(6).unwrap();
    }
    let overall = board.win_check();
    assert!(matches!(overall, BoardState::Winner(Piece::X)));
}

#[test]
fn test_meta_cats_game() {
    // Every sub-board is won, but the winners form no meta line:
    //   X O X
    //   X O O
    //   O X X
    let colors = [
        Piece::X,
        Piece::O,
        Piece::X,
        Piece::X,
        Piece::O,
        Piece::O,
        Piece::O,
        Piece::X,
        Piece::X,
    ];
    let mut board = UltimateBoard::new();
    let mut turn_is_x = true;
    for (sub, color) in colors.iter().enumerate() {
        board.focus(BoardSelection::Selected(sub)).unwrap();
        let want_x = matches!(color, Piece::X);
        if want_x != turn_is_x {
            board.next_turn();
            turn_is_x = want_x;
        }
        board.play(0).unwrap();
        board.play(1).unwrap();
        board.play(2).unwrap();
    }
    let overall = board.win_check();
    assert!(matches!(overall, BoardState::CatsGame));
}

#[test]
fn test_drawn_sub_board_keeps_cells_and_meta_in_play() {
    let mut board = UltimateBoard::new();
    // Fill sub-board 0 with no line for either colour: X on 0, 2, 3, 7, 8
    // and O on 1, 4, 5, 6.
    board.focus(BoardSelection::Selected(0)).unwrap();
    let mut turn_is_x = true;
    let drawn_cells = [
        (0, true),
        (1, false),
        (2, true),
        (4, false),
        (3, true),
        (5, false),
        (7, true),
        (6, false),
        (8, true),
    ];
    for (space, want_x) in drawn_cells {
        if want_x != turn_is_x {
            board.next_turn();
            turn_is_x = want_x;
        }
        board.play(space).unwrap();
    }
    // Win every other sub-board, with winners that form no meta line:
    //   . O X
    //   X O O
    //   O X X
    let colors = [
        Piece::O,
        Piece::X,
        Piece::X,
        Piece::O,
        Piece::O,
        Piece::O,
        Piece::X,
        Piece::X,
    ];
    for (sub, color) in colors.iter().enumerate() {
        board.focus(BoardSelection::Selected(sub + 1)).unwrap();
        let want_x = matches!(color, Piece::X);
        if want_x != turn_is_x {
            board.next_turn();
            turn_is_x = want_x;
        }
        board.play(0).unwrap();
        board.play(1).unwrap();
        board.play(2).unwrap();
    }
    let overall = board.win_check();
    // Every sub-board is decided, but a cat's-game sub-board contributes no
    // meta bit, so the nested board reports neither a winner nor a cat's
    // game.
    assert!(matches!(overall, BoardState::InPlay));
    assert!(matches!(board.get_board_state(0), BoardState::CatsGame));
    // The drawn sub-board keeps its cells as they were.
    let expected = [
        Piece::X,
        Piece::O,
        Piece::X,
        Piece::X,
        Piece::O,
        Piece::O,
        Piece::O,
        Piece::X,
        Piece::X,
    ];
    for (space, piece) in expected.iter().enumerate() {
        assert_eq!(board.get_space(0, space), *piece);
    }
}

#[test]
fn test_ulti_turn_alternation() {
    let mut board = UltimateBoard::new();
    assert_eq!(board.get_turn(), Piece::X);
    board.next_turn();
    assert_eq!(board.get_turn(), Piece::O);
    board.next_turn();
    assert_eq!(board.get_turn(), Piece::X);
}

#[test]
fn test_ulti_error_messages() {
    assert_eq!(
        UltiError::SpaceTakenError.message(),
        "There is already a piece there!"
    );
    assert_eq!(
        UltiError::OutOfBoundsError.message(),
        "That space does not exist!"
    );
}
