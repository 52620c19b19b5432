use tictactoe::board::Board;
use tictactoe::ultiboard::{BoardSelection, UltimateBoard};
use tictactoe::{tictactoe, ultimate, LoopState};

#[test]
fn test_flat_loop_continues_then_exits() {
    let mut board = Board::new();
    assert!(matches!(tictactoe(&board), LoopState::Continue));
    board.play(0).unwrap();
    board.next_turn();
    board.play(3).unwrap();
    board.next_turn();
    board.play(1).unwrap();
    board.next_turn();
    board.play(4).unwrap();
    board.next_turn();
    assert!(matches!(tictactoe(&board), LoopState::Continue));
    board.play(2).unwrap();
    assert!(matches!(tictactoe(&board), LoopState::Exit));
}

#[test]
fn test_ultimate_loop_continues_then_exits() {
    let mut board = UltimateBoard::new();
    assert!(matches!(ultimate(&mut board), LoopState::Continue));
    for sub in 0..3 {
        board.focus(BoardSelection::Selected(sub)).unwrap();
        board.play(0).unwrap();
        board.play(1).unwrap();
        board.play(2).unwrap();
    }
    assert!(matches!(ultimate(&mut board), LoopState::Exit));
}
