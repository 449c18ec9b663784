use rusty_chess::chess_board::ChessBoard;
use rusty_chess::coordinate::Coordinate;
use rusty_chess::piece::{CaptureType, CastleType, Color, MoveType, Piece};

const WHITE: Color = Color::White;
const BLACK: Color = Color::Black;

fn at(x: usize, y: usize) -> Coordinate {
    Coordinate::new(x, y)
}

fn pawn(color: Color) -> Option<Piece> {
    Some(Piece::Pawn { color, enpassantable_turn: None })
}

/// Two kings in opposite corners and nothing else, White to move.
fn bare_kings() -> ChessBoard {
    let mut board = ChessBoard::stalemate_start();
    board.squares = [[None; 8]; 8];
    board.squares[0][0] = Some(Piece::King { color: WHITE, has_moved: true });
    board.squares[7][7] = Some(Piece::King { color: BLACK, has_moved: true });
    board.white_king_position = at(0, 0);
    board.black_king_position = at(7, 7);
    board
}

#[test]
fn pawn_advances_one_or_two_from_its_start() {
    let board = ChessBoard::starting_positions();
    assert_eq!(Piece::is_legal_pawn_move(at(4, 1), at(4, 2), &board, WHITE), MoveType::SinglePawn);
    assert_eq!(Piece::is_legal_pawn_move(at(4, 1), at(4, 3), &board, WHITE), MoveType::DoublePawn);
    assert_eq!(Piece::is_legal_pawn_move(at(4, 1), at(4, 4), &board, WHITE), MoveType::Illegal);
    assert_eq!(Piece::is_legal_pawn_move(at(4, 6), at(4, 5), &board, BLACK), MoveType::SinglePawn);
    assert_eq!(Piece::is_legal_pawn_move(at(4, 6), at(4, 4), &board, BLACK), MoveType::DoublePawn);
    assert_eq!(Piece::is_legal_pawn_move(at(4, 6), at(4, 3), &board, BLACK), MoveType::Illegal);
}

#[test]
fn pawn_never_moves_sideways_or_backwards() {
    let mut board = bare_kings();
    board.squares[3][3] = pawn(WHITE);
    board.squares[5][4] = pawn(BLACK);
    assert_eq!(Piece::is_legal_pawn_move(at(3, 3), at(4, 3), &board, WHITE), MoveType::Illegal);
    assert_eq!(Piece::is_legal_pawn_move(at(3, 3), at(3, 2), &board, WHITE), MoveType::Illegal);
    assert_eq!(Piece::is_legal_pawn_move(at(3, 3), at(2, 4), &board, WHITE), MoveType::Illegal);
    assert_eq!(Piece::is_legal_pawn_move(at(3, 3), at(3, 5), &board, WHITE), MoveType::Illegal);
    assert_eq!(Piece::is_legal_pawn_move(at(3, 3), at(3, 3), &board, WHITE), MoveType::Illegal);
    assert_eq!(Piece::is_legal_pawn_move(at(5, 4), at(5, 5), &board, BLACK), MoveType::Illegal);
    assert_eq!(Piece::is_legal_pawn_move(at(5, 4), at(5, 3), &board, BLACK), MoveType::SinglePawn);
}

#[test]
fn pawn_is_blocked_by_any_piece_before_it() {
    let mut board = ChessBoard::starting_positions();
    board.squares[4][2] = Some(Piece::Knight { color: BLACK });
    assert_eq!(Piece::is_legal_pawn_move(at(4, 1), at(4, 2), &board, WHITE), MoveType::Illegal);
    assert_eq!(Piece::is_legal_pawn_move(at(4, 1), at(4, 3), &board, WHITE), MoveType::Illegal);
    board.squares[4][2] = None;
    board.squares[4][3] = Some(Piece::Knight { color: WHITE });
    assert_eq!(Piece::is_legal_pawn_move(at(4, 1), at(4, 3), &board, WHITE), MoveType::Illegal);
    assert_eq!(Piece::is_legal_pawn_move(at(4, 1), at(4, 2), &board, WHITE), MoveType::SinglePawn);
}

#[test]
fn pawn_captures_diagonally_forward_only() {
    let mut board = bare_kings();
    board.squares[3][3] = pawn(WHITE);
    board.squares[4][4] = pawn(BLACK);
    board.squares[2][4] = Some(Piece::Knight { color: WHITE });
    board.squares[3][4] = Some(Piece::Bishop { color: BLACK });
    assert_eq!(
        Piece::is_legal_pawn_move(at(3, 3), at(4, 4), &board, WHITE),
        MoveType::Capture(CaptureType::Other)
    );
    assert_eq!(Piece::is_legal_pawn_move(at(3, 3), at(2, 4), &board, WHITE), MoveType::Illegal);
    assert_eq!(Piece::is_legal_pawn_move(at(3, 3), at(3, 4), &board, WHITE), MoveType::Illegal);
    assert_eq!(
        Piece::is_legal_pawn_move(at(4, 4), at(3, 3), &board, BLACK),
        MoveType::Capture(CaptureType::Other)
    );
}

#[test]
fn pawn_on_the_last_rank_is_promoted() {
    let mut board = bare_kings();
    board.squares[0][6] = pawn(WHITE);
    board.squares[1][7] = Some(Piece::Knight { color: BLACK });
    board.squares[6][1] = pawn(BLACK);
    board.squares[5][0] = Some(Piece::Knight { color: WHITE });
    assert_eq!(Piece::is_legal_pawn_move(at(0, 6), at(0, 7), &board, WHITE), MoveType::Promotion);
    assert_eq!(
        Piece::is_legal_pawn_move(at(0, 6), at(1, 7), &board, WHITE),
        MoveType::Capture(CaptureType::Promotion)
    );
    assert_eq!(Piece::is_legal_pawn_move(at(6, 1), at(6, 0), &board, BLACK), MoveType::Promotion);
    assert_eq!(
        Piece::is_legal_pawn_move(at(6, 1), at(5, 0), &board, BLACK),
        MoveType::Capture(CaptureType::Promotion)
    );
}

#[test]
fn pawn_takes_a_marked_pawn_en_passant() {
    let mut board = bare_kings();
    board.squares[4][4] = pawn(WHITE);
    board.squares[3][4] = Some(Piece::Pawn { color: BLACK, enpassantable_turn: Some(1) });
    board.squares[5][4] = pawn(BLACK);
    assert_eq!(
        Piece::is_legal_pawn_move(at(4, 4), at(3, 5), &board, WHITE),
        MoveType::Capture(CaptureType::EnPassant)
    );
    assert_eq!(Piece::is_legal_pawn_move(at(4, 4), at(5, 5), &board, WHITE), MoveType::Illegal);
    board.squares[2][3] = pawn(BLACK);
    board.squares[3][3] = Some(Piece::Pawn { color: WHITE, enpassantable_turn: Some(1) });
    assert_eq!(
        Piece::is_legal_pawn_move(at(2, 3), at(3, 2), &board, BLACK),
        MoveType::Capture(CaptureType::EnPassant)
    );
}

#[test]
fn knight_jumps_two_and_one() {
    let board = ChessBoard::starting_positions();
    assert_eq!(Piece::is_legal_knight_move(at(1, 0), at(2, 2), &board, WHITE), MoveType::Other);
    assert_eq!(Piece::is_legal_knight_move(at(1, 0), at(0, 2), &board, WHITE), MoveType::Other);
    assert_eq!(Piece::is_legal_knight_move(at(1, 0), at(3, 1), &board, WHITE), MoveType::Illegal);
    assert_eq!(Piece::is_legal_knight_move(at(1, 0), at(1, 2), &board, WHITE), MoveType::Illegal);
    assert_eq!(Piece::is_legal_knight_move(at(1, 0), at(3, 2), &board, WHITE), MoveType::Illegal);
    assert_eq!(
        Piece::is_legal_knight_move(at(1, 0), at(3, 1), &board, BLACK),
        MoveType::Capture(CaptureType::Other)
    );
}

#[test]
fn bishop_runs_along_clear_diagonals() {
    let mut board = ChessBoard::starting_positions();
    assert_eq!(Piece::is_legal_bishop_move(at(2, 0), at(4, 2), &board, WHITE), MoveType::Illegal);
    board.squares[3][1] = None;
    assert_eq!(Piece::is_legal_bishop_move(at(2, 0), at(4, 2), &board, WHITE), MoveType::Other);
    assert_eq!(Piece::is_legal_bishop_move(at(2, 0), at(7, 5), &board, WHITE), MoveType::Other);
    assert_eq!(Piece::is_legal_bishop_move(at(2, 0), at(3, 1), &board, WHITE), MoveType::Other);
    assert_eq!(Piece::is_legal_bishop_move(at(2, 0), at(2, 3), &board, WHITE), MoveType::Illegal);
    assert_eq!(Piece::is_legal_bishop_move(at(2, 0), at(2, 0), &board, WHITE), MoveType::Illegal);
    board.squares[5][3] = pawn(BLACK);
    assert_eq!(
        Piece::is_legal_bishop_move(at(2, 0), at(5, 3), &board, WHITE),
        MoveType::Capture(CaptureType::Other)
    );
    assert_eq!(Piece::is_legal_bishop_move(at(2, 0), at(6, 4), &board, WHITE), MoveType::Illegal);
    assert_eq!(Piece::is_legal_bishop_move(at(5, 3), at(3, 1), &board, BLACK), MoveType::Other);
}

#[test]
fn rook_runs_along_clear_files_and_ranks() {
    let mut board = ChessBoard::starting_positions();
    assert_eq!(Piece::is_legal_rook_move(at(0, 0), at(0, 3), &board, WHITE), MoveType::Illegal);
    board.squares[0][1] = None;
    assert_eq!(Piece::is_legal_rook_move(at(0, 0), at(0, 3), &board, WHITE), MoveType::Other);
    assert_eq!(Piece::is_legal_rook_move(at(0, 0), at(0, 5), &board, WHITE), MoveType::Other);
    assert_eq!(
        Piece::is_legal_rook_move(at(0, 0), at(0, 6), &board, WHITE),
        MoveType::Capture(CaptureType::Other)
    );
    assert_eq!(Piece::is_legal_rook_move(at(0, 0), at(0, 7), &board, WHITE), MoveType::Illegal);
    assert_eq!(Piece::is_legal_rook_move(at(0, 0), at(1, 0), &board, WHITE), MoveType::Illegal);
    assert_eq!(Piece::is_legal_rook_move(at(0, 0), at(1, 1), &board, WHITE), MoveType::Illegal);
    assert_eq!(Piece::is_legal_rook_move(at(0, 0), at(0, 0), &board, WHITE), MoveType::Illegal);
    board.squares[0][4] = Some(Piece::Rook { color: BLACK, has_moved: true });
    assert_eq!(Piece::is_legal_rook_move(at(0, 4), at(7, 4), &board, BLACK), MoveType::Other);
    assert_eq!(Piece::is_legal_rook_move(at(0, 4), at(0, 2), &board, BLACK), MoveType::Other);
}

#[test]
fn queen_moves_as_rook_or_bishop() {
    let mut board = bare_kings();
    board.squares[3][3] = Some(Piece::Queen { color: WHITE });
    board.squares[3][6] = pawn(BLACK);
    board.squares[5][5] = pawn(WHITE);
    assert_eq!(Piece::is_legal_queen_move(at(3, 3), at(3, 5), &board, WHITE), MoveType::Other);
    assert_eq!(
        Piece::is_legal_queen_move(at(3, 3), at(3, 6), &board, WHITE),
        MoveType::Capture(CaptureType::Other)
    );
    assert_eq!(Piece::is_legal_queen_move(at(3, 3), at(3, 7), &board, WHITE), MoveType::Illegal);
    assert_eq!(Piece::is_legal_queen_move(at(3, 3), at(4, 4), &board, WHITE), MoveType::Other);
    assert_eq!(Piece::is_legal_queen_move(at(3, 3), at(5, 5), &board, WHITE), MoveType::Illegal);
    assert_eq!(Piece::is_legal_queen_move(at(3, 3), at(6, 6), &board, WHITE), MoveType::Illegal);
    assert_eq!(Piece::is_legal_queen_move(at(3, 3), at(0, 6), &board, WHITE), MoveType::Other);
    assert_eq!(Piece::is_legal_queen_move(at(3, 3), at(7, 3), &board, WHITE), MoveType::Other);
    assert_eq!(Piece::is_legal_queen_move(at(3, 3), at(5, 4), &board, WHITE), MoveType::Illegal);
}

#[test]
fn king_steps_to_a_neighbouring_square() {
    let mut board = bare_kings();
    board.squares[1][1] = pawn(BLACK);
    board.squares[1][0] = pawn(WHITE);
    assert_eq!(Piece::is_legal_king_move(at(0, 0), at(0, 1), &board, WHITE, true), MoveType::Other);
    assert_eq!(
        Piece::is_legal_king_move(at(0, 0), at(1, 1), &board, WHITE, true),
        MoveType::Capture(CaptureType::Other)
    );
    assert_eq!(Piece::is_legal_king_move(at(0, 0), at(1, 0), &board, WHITE, true), MoveType::Illegal);
    assert_eq!(Piece::is_legal_king_move(at(0, 0), at(0, 2), &board, WHITE, true), MoveType::Illegal);
    assert_eq!(Piece::is_legal_king_move(at(0, 0), at(0, 0), &board, WHITE, true), MoveType::Illegal);
}

/// The starting position with the squares between the kings and their rooks cleared.
fn ready_to_castle() -> ChessBoard {
    let mut board = ChessBoard::starting_positions();
    for x in [1, 2, 3, 5, 6] {
        board.squares[x][0] = None;
        board.squares[x][7] = None;
    }
    board
}

#[test]
fn unmoved_king_castles_to_either_side() {
    let board = ready_to_castle();
    assert_eq!(
        Piece::is_legal_king_move(at(4, 0), at(6, 0), &board, WHITE, false),
        MoveType::CastleShort
    );
    assert_eq!(
        Piece::is_legal_king_move(at(4, 0), at(2, 0), &board, WHITE, false),
        MoveType::CastleLong
    );
    assert_eq!(
        Piece::is_legal_king_move(at(4, 7), at(6, 7), &board, BLACK, false),
        MoveType::CastleShort
    );
    assert_eq!(
        Piece::is_legal_king_move(at(4, 7), at(2, 7), &board, BLACK, false),
        MoveType::CastleLong
    );
    assert!(Piece::is_legal_castleing_move(WHITE, &board, CastleType::Short));
    assert!(Piece::is_legal_castleing_move(BLACK, &board, CastleType::Long));
}

#[test]
fn moved_king_does_not_castle() {
    let board = ready_to_castle();
    assert_eq!(Piece::is_legal_king_move(at(4, 0), at(6, 0), &board, WHITE, true), MoveType::Illegal);
    assert_eq!(Piece::is_legal_king_move(at(4, 7), at(2, 7), &board, BLACK, true), MoveType::Illegal);
}

#[test]
fn king_castles_only_to_its_own_castling_squares() {
    let board = ready_to_castle();
    assert_eq!(Piece::is_legal_king_move(at(4, 0), at(6, 7), &board, WHITE, false), MoveType::Illegal);
    assert_eq!(Piece::is_legal_king_move(at(4, 0), at(1, 0), &board, WHITE, false), MoveType::Illegal);
    assert_eq!(Piece::is_legal_king_move(at(3, 0), at(6, 0), &board, WHITE, false), MoveType::Illegal);
    assert_eq!(Piece::is_legal_king_move(at(3, 0), at(1, 0), &board, WHITE, false), MoveType::Illegal);
}

#[test]
fn castling_needs_the_unmoved_rook_in_its_corner() {
    let mut board = ready_to_castle();
    board.squares[7][0] = Some(Piece::Rook { color: WHITE, has_moved: true });
    assert_eq!(Piece::is_legal_king_move(at(4, 0), at(6, 0), &board, WHITE, false), MoveType::Illegal);
    assert!(!Piece::is_legal_castleing_move(WHITE, &board, CastleType::Short));
    assert!(Piece::is_legal_castleing_move(WHITE, &board, CastleType::Long));
    board.squares[7][0] = None;
    assert_eq!(Piece::is_legal_king_move(at(4, 0), at(6, 0), &board, WHITE, false), MoveType::Illegal);
    board.squares[7][0] = Some(Piece::Rook { color: BLACK, has_moved: false });
    assert_eq!(Piece::is_legal_king_move(at(4, 0), at(6, 0), &board, WHITE, false), MoveType::Illegal);
    board.squares[0][7] = Some(Piece::Queen { color: BLACK });
    assert_eq!(Piece::is_legal_king_move(at(4, 7), at(2, 7), &board, BLACK, false), MoveType::Illegal);
}

#[test]
fn castling_needs_every_square_between_king_and_rook_empty() {
    let mut board = ready_to_castle();
    board.squares[1][0] = Some(Piece::Knight { color: WHITE });
    assert_eq!(Piece::is_legal_king_move(at(4, 0), at(2, 0), &board, WHITE, false), MoveType::Illegal);
    assert_eq!(
        Piece::is_legal_king_move(at(4, 0), at(6, 0), &board, WHITE, false),
        MoveType::CastleShort
    );
    board.squares[5][7] = Some(Piece::Bishop { color: BLACK });
    assert_eq!(Piece::is_legal_king_move(at(4, 7), at(6, 7), &board, BLACK, false), MoveType::Illegal);
    board.squares[5][7] = None;
    board.squares[6][7] = Some(Piece::Knight { color: WHITE });
    assert_eq!(Piece::is_legal_king_move(at(4, 7), at(6, 7), &board, BLACK, false), MoveType::Illegal);
}

#[test]
fn castling_needs_the_kings_path_out_of_reach_of_the_enemy() {
    let mut board = ready_to_castle();
    board.squares[5][1] = None;
    board.squares[5][5] = Some(Piece::Rook { color: BLACK, has_moved: true });
    assert_eq!(Piece::is_legal_king_move(at(4, 0), at(6, 0), &board, WHITE, false), MoveType::Illegal);
    assert_eq!(
        Piece::is_legal_king_move(at(4, 0), at(2, 0), &board, WHITE, false),
        MoveType::CastleLong
    );
    board.squares[5][5] = None;
    board.squares[4][1] = None;
    board.squares[4][4] = Some(Piece::Rook { color: BLACK, has_moved: true });
    assert_eq!(Piece::is_legal_king_move(at(4, 0), at(6, 0), &board, WHITE, false), MoveType::Illegal);
    assert_eq!(Piece::is_legal_king_move(at(4, 0), at(2, 0), &board, WHITE, false), MoveType::Illegal);
    board.squares[4][4] = None;
    board.squares[7][2] = Some(Piece::Knight { color: BLACK });
    assert_eq!(Piece::is_legal_king_move(at(4, 0), at(6, 0), &board, WHITE, false), MoveType::Illegal);
}

#[test]
fn no_piece_moves_onto_a_piece_of_its_own_side() {
    let board = ChessBoard::starting_positions();
    let rook = Piece::Rook { color: WHITE, has_moved: false };
    let king = Piece::King { color: WHITE, has_moved: false };
    assert_eq!(rook.is_legal_move(at(0, 0), at(0, 1), &board, false), MoveType::Illegal);
    assert_eq!(rook.is_legal_move(at(0, 0), at(0, 1), &board, true), MoveType::Illegal);
    assert_eq!(king.is_legal_move(at(4, 0), at(3, 0), &board, true), MoveType::Illegal);
    assert_eq!(king.is_legal_move(at(4, 0), at(4, 0), &board, false), MoveType::Illegal);
}

#[test]
fn is_legal_move_follows_the_kind_of_the_piece() {
    let board = ChessBoard::starting_positions();
    let knight = Piece::Knight { color: WHITE };
    let white_pawn = Piece::Pawn { color: WHITE, enpassantable_turn: None };
    let black_pawn = Piece::Pawn { color: BLACK, enpassantable_turn: None };
    assert_eq!(knight.is_legal_move(at(6, 0), at(5, 2), &board, false), MoveType::Other);
    assert_eq!(knight.is_legal_move(at(6, 0), at(6, 2), &board, false), MoveType::Illegal);
    assert_eq!(white_pawn.is_legal_move(at(0, 1), at(0, 3), &board, false), MoveType::DoublePawn);
    assert_eq!(black_pawn.is_legal_move(at(7, 6), at(7, 5), &board, false), MoveType::SinglePawn);
    assert_eq!(
        Piece::Bishop { color: WHITE }.is_legal_move(at(2, 0), at(4, 2), &board, false),
        MoveType::Illegal
    );
    assert_eq!(
        Piece::Queen { color: BLACK }.is_legal_move(at(3, 7), at(3, 5), &board, false),
        MoveType::Illegal
    );
}

#[test]
fn a_pinned_piece_may_not_leave_its_line() {
    let mut board = bare_kings();
    board.squares[0][3] = Some(Piece::Bishop { color: WHITE });
    board.squares[0][6] = Some(Piece::Rook { color: BLACK, has_moved: true });
    let bishop = Piece::Bishop { color: WHITE };
    assert_eq!(bishop.is_legal_move(at(0, 3), at(1, 4), &board, true), MoveType::Other);
    assert_eq!(bishop.is_legal_move(at(0, 3), at(1, 4), &board, false), MoveType::Illegal);
    let king = Piece::King { color: WHITE, has_moved: true };
    assert_eq!(king.is_legal_move(at(0, 0), at(0, 1), &board, false), MoveType::Other);
    board.squares[0][3] = None;
    assert_eq!(king.is_legal_move(at(0, 0), at(0, 1), &board, false), MoveType::Illegal);
    assert_eq!(king.is_legal_move(at(0, 0), at(0, 1), &board, true), MoveType::Other);
    assert_eq!(king.is_legal_move(at(0, 0), at(1, 0), &board, false), MoveType::Other);
}
