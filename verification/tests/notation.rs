use tictactoe::notation::{
    notation_to_index, notation_to_layer_index, notation_to_usize, usize_to_notation, GameError,
};

#[test]
fn test_decode_corners() {
    assert_eq!(notation_to_index("a1").unwrap(), 0);
    assert_eq!(notation_to_index("c3").unwrap(), 8);
}

#[test]
fn test_decode_centre_and_rows() {
    assert_eq!(notation_to_index("b2").unwrap(), 4);
    assert_eq!(notation_to_index("a3").unwrap(), 2);
    assert_eq!(notation_to_index("c1").unwrap(), 6);
}

#[test]
fn test_decode_rejects_out_of_range() {
    assert!(matches!(
        notation_to_index("d4"),
        Err(GameError::InvalidInputError)
    ));
    assert!(matches!(
        notation_to_index("a0"),
        Err(GameError::InvalidInputError)
    ));
    assert!(matches!(
        notation_to_index("a4"),
        Err(GameError::InvalidInputError)
    ));
    assert!(matches!(
        notation_to_index("d1"),
        Err(GameError::InvalidInputError)
    ));
}

#[test]
fn test_decode_rejects_short_tokens() {
    assert!(matches!(
        notation_to_index(""),
        Err(GameError::InvalidInputError)
    ));
    assert!(matches!(
        notation_to_index("a"),
        Err(GameError::InvalidInputError)
    ));
}

#[test]
fn test_decode_for_nested_board() {
    assert_eq!(notation_to_usize("a1").unwrap(), 0);
    assert_eq!(notation_to_usize("b3").unwrap(), 5);
    assert_eq!(notation_to_usize("c3").unwrap(), 8);
    assert!(matches!(
        notation_to_usize("z9"),
        Err(GameError::InvalidInputError)
    ));
}

#[test]
fn test_decode_cube_tokens() {
    assert_eq!(notation_to_layer_index("xa1").unwrap(), (0, 0));
    assert_eq!(notation_to_layer_index("yb2").unwrap(), (1, 4));
    assert_eq!(notation_to_layer_index("zc3").unwrap(), (2, 8));
}

#[test]
fn test_decode_cube_rejects_bad_tokens() {
    assert!(matches!(
        notation_to_layer_index("wa1"),
        Err(GameError::InvalidInputError)
    ));
    assert!(matches!(
        notation_to_layer_index("xd1"),
        Err(GameError::InvalidInputError)
    ));
    assert!(matches!(
        notation_to_layer_index("xa0"),
        Err(GameError::InvalidInputError)
    ));
    assert!(matches!(
        notation_to_layer_index("xa"),
        Err(GameError::InvalidInputError)
    ));
    assert!(matches!(
        notation_to_layer_index(""),
        Err(GameError::InvalidInputError)
    ));
}

#[test]
fn test_index_to_notation() {
    assert_eq!(usize_to_notation(0), "A1");
    assert_eq!(usize_to_notation(4), "B2");
    assert_eq!(usize_to_notation(5), "B3");
    assert_eq!(usize_to_notation(6), "c1");
    assert_eq!(usize_to_notation(8), "c3");
    assert_eq!(usize_to_notation(9), "uh oh");
}

#[test]
fn test_notation_error_message() {
    assert_eq!(GameError::InvalidInputError.message(), "Invalid input!");
}
