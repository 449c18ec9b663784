use rusty_chess::piece::{square_symbol, Color, Piece, PieceType, PromotionPiece};

#[test]
fn color_switch_gives_the_other_side() {
    let mut color = Color::White;
    color.switch();
    assert_eq!(color, Color::Black);
    color.switch();
    assert_eq!(color, Color::White);
}

#[test]
fn promotion_piece_becomes_a_piece_of_the_given_side() {
    assert_eq!(
        PromotionPiece::Knight.as_piece(Color::White),
        Some(Piece::Knight { color: Color::White })
    );
    assert_eq!(
        PromotionPiece::Bishop.as_piece(Color::Black),
        Some(Piece::Bishop { color: Color::Black })
    );
    assert_eq!(
        PromotionPiece::Queen.as_piece(Color::Black),
        Some(Piece::Queen { color: Color::Black })
    );
}

#[test]
fn promoted_rook_counts_as_moved() {
    assert_eq!(
        PromotionPiece::Rook.as_piece(Color::White),
        Some(Piece::Rook { color: Color::White, has_moved: true })
    );
    assert_eq!(
        PromotionPiece::Rook.as_piece(Color::Black),
        Some(Piece::Rook { color: Color::Black, has_moved: true })
    );
}

#[test]
fn get_color_reads_the_side_of_every_kind() {
    let white = Color::White;
    let black = Color::Black;
    assert_eq!(Piece::Pawn { color: white, enpassantable_turn: Some(4) }.get_color(), white);
    assert_eq!(Piece::Knight { color: black }.get_color(), black);
    assert_eq!(Piece::Bishop { color: white }.get_color(), white);
    assert_eq!(Piece::Rook { color: black, has_moved: true }.get_color(), black);
    assert_eq!(Piece::Queen { color: white }.get_color(), white);
    assert_eq!(Piece::King { color: black, has_moved: false }.get_color(), black);
}

#[test]
fn piece_type_drops_the_marks() {
    assert_eq!(PieceType::from_chess_piece(None), None);
    assert_eq!(
        PieceType::from_chess_piece(Some(Piece::Pawn {
            color: Color::Black,
            enpassantable_turn: Some(9)
        })),
        Some(PieceType::Pawn(Color::Black))
    );
    assert_eq!(
        PieceType::from_chess_piece(Some(Piece::Rook { color: Color::White, has_moved: true })),
        Some(PieceType::Rook(Color::White))
    );
    assert_eq!(
        PieceType::from_chess_piece(Some(Piece::King { color: Color::White, has_moved: false })),
        Some(PieceType::King(Color::White))
    );
    assert_eq!(
        PieceType::from_chess_piece(Some(Piece::Knight { color: Color::Black })),
        Some(PieceType::Knight(Color::Black))
    );
    assert_eq!(
        PieceType::from_chess_piece(Some(Piece::Bishop { color: Color::Black })),
        Some(PieceType::Bishop(Color::Black))
    );
    assert_eq!(
        PieceType::from_chess_piece(Some(Piece::Queen { color: Color::White })),
        Some(PieceType::Queen(Color::White))
    );
}

#[test]
fn square_symbol_is_upper_case_for_white() {
    assert_eq!(square_symbol(None), ' ');
    assert_eq!(
        square_symbol(Some(Piece::Pawn { color: Color::White, enpassantable_turn: None })),
        'P'
    );
    assert_eq!(square_symbol(Some(Piece::Knight { color: Color::White })), 'N');
    assert_eq!(square_symbol(Some(Piece::Bishop { color: Color::White })), 'B');
    assert_eq!(square_symbol(Some(Piece::Rook { color: Color::White, has_moved: false })), 'R');
    assert_eq!(square_symbol(Some(Piece::Queen { color: Color::White })), 'Q');
    assert_eq!(square_symbol(Some(Piece::King { color: Color::White, has_moved: true })), 'K');
}

#[test]
fn square_symbol_is_lower_case_for_black() {
    assert_eq!(
        square_symbol(Some(Piece::Pawn { color: Color::Black, enpassantable_turn: Some(2) })),
        'p'
    );
    assert_eq!(square_symbol(Some(Piece::Knight { color: Color::Black })), 'n');
    assert_eq!(square_symbol(Some(Piece::Bishop { color: Color::Black })), 'b');
    assert_eq!(square_symbol(Some(Piece::Rook { color: Color::Black, has_moved: true })), 'r');
    assert_eq!(square_symbol(Some(Piece::Queen { color: Color::Black })), 'q');
    assert_eq!(square_symbol(Some(Piece::King { color: Color::Black, has_moved: false })), 'k');
}
