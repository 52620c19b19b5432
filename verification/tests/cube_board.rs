use tictactoe::cubeboard::{CubeBoard, CubeError};
use tictactoe::piece::Piece;

#[test]
fn test_new_cube_is_empty() {
    let cube = CubeBoard::new();
    assert_eq!(cube.get_turn(), Piece::X);
    for layer in 0..3 {
        for space in 0..9 {
            assert_eq!(cube.get_space(layer, space), Piece::Empty);
        }
    }
    assert_eq!(cube.win_check(), Piece::Empty);
}

#[test]
fn test_layer_internal_win() {
    let mut cube = CubeBoard::new();
    // X fills the top row of layer 0 (the turn is not advanced).
    cube.play(0, 0).unwrap();
    cube.play(0, 1).unwrap();
    cube.play(0, 2).unwrap();
    assert_eq!(cube.win_check(), Piece::X);
}

#[test]
fn test_cross_layer_pillar_win() {
    let mut cube = CubeBoard::new();
    // X stacks the same cell through all three layers.
    cube.play(0, 0).unwrap();
    cube.play(1, 0).unwrap();
    cube.play(2, 0).unwrap();
    assert_eq!(cube.win_check(), Piece::X);
}

#[test]
fn test_space_diagonal_win() {
    let mut cube = CubeBoard::new();
    cube.play(0, 0).unwrap();
    cube.play(1, 4).unwrap();
    cube.play(2, 8).unwrap();
    assert_eq!(cube.win_check(), Piece::X);
}

#[test]
fn test_o_wins_a_layer_row() {
    let mut cube = CubeBoard::new();
    cube.play(0, 0).unwrap();
    cube.next_turn();
    cube.play(0, 3).unwrap();
    cube.next_turn();
    cube.play(0, 1).unwrap();
    cube.next_turn();
    cube.play(0, 4).unwrap();
    cube.next_turn();
    cube.play(2, 8).unwrap();
    cube.next_turn();
    cube.play(0, 5).unwrap();
    assert_eq!(cube.win_check(), Piece::O);
}

#[test]
fn test_space_taken() {
    let mut cube = CubeBoard::new();
    cube.play(1, 5).unwrap();
    cube.next_turn();
    let err = cube.play(1, 5).unwrap_err();
    assert!(matches!(err, CubeError::SpaceTakenError));
    assert_eq!(cube.get_space(1, 5), Piece::X);
    assert_eq!(cube.get_turn(), Piece::O);
}

#[test]
fn test_cube_turn_alternation() {
    let mut cube = CubeBoard::new();
    assert_eq!(cube.get_turn(), Piece::X);
    cube.next_turn();
    assert_eq!(cube.get_turn(), Piece::O);
    cube.next_turn();
    assert_eq!(cube.get_turn(), Piece::X);
}

#[test]
fn test_cube_error_message() {
    assert_eq!(CubeError::SpaceTakenError.message(), "Space already taken!");
}
