use rusty_chess::chess_board::{ChessBoard, DrawType, GameStatus, MoveError};
use rusty_chess::coordinate::Coordinate;
use rusty_chess::piece::{Color, Piece, PromotionPiece};

fn play(board: &mut ChessBoard, moves: &[((usize, usize), (usize, usize))]) {
    for (from, to) in moves {
        assert_eq!(board.move_piece(*from, *to, None), Ok(GameStatus::Ongoing));
    }
}

#[test]
fn fools_mate_is_won_by_black() {
    let mut board = ChessBoard::starting_positions();
    play(&mut board, &[((5, 1), (5, 2)), ((4, 6), (4, 4)), ((6, 1), (6, 3))]);
    assert_eq!(board.move_piece((3, 7), (7, 3), None), Ok(GameStatus::Win(Color::Black)));
    assert_eq!(board.game_status, GameStatus::Win(Color::Black));
    assert!(board.all_legal_moves().is_empty());
    assert!(board.is_in_check(Color::White));
    assert_eq!(board.move_piece((0, 1), (0, 2), None), Err(MoveError::GameHasEnded));
}

#[test]
fn boxed_in_king_is_stalemate() {
    let mut board = ChessBoard::stalemate_start();
    play(&mut board, &[((3, 0), (6, 3)), ((6, 7), (7, 7))]);
    assert_eq!(
        board.move_piece((6, 3), (6, 5), None),
        Ok(GameStatus::Draw(DrawType::Stalemate))
    );
    assert!(!board.is_in_check(Color::Black));
    assert!(board.all_legal_moves().is_empty());
}

#[test]
fn en_passant_is_open_for_one_move_only() {
    let mut board = ChessBoard::starting_positions();
    play(&mut board, &[((4, 1), (4, 3)), ((0, 6), (0, 5)), ((4, 3), (4, 4)), ((3, 6), (3, 4))]);
    assert_eq!(
        board.squares[3][4],
        Some(Piece::Pawn { color: Color::Black, enpassantable_turn: Some(5) })
    );
    let mut later = board.clone();
    assert_eq!(board.move_piece((4, 4), (3, 5), None), Ok(GameStatus::Ongoing));
    assert_eq!(board.squares[3][4], None);
    assert_eq!(
        board.squares[3][5],
        Some(Piece::Pawn { color: Color::White, enpassantable_turn: None })
    );
    assert_eq!(board.squares[4][4], None);

    play(&mut later, &[((7, 1), (7, 2)), ((7, 6), (7, 5))]);
    assert_eq!(later.move_piece((4, 4), (3, 5), None), Err(MoveError::IllegalMove));
    assert_eq!(
        later.squares[3][4],
        Some(Piece::Pawn { color: Color::Black, enpassantable_turn: None })
    );
}

#[test]
fn third_occurrence_of_a_position_is_a_draw() {
    let mut board = ChessBoard::stalemate_start();
    let round = [((4, 0), (4, 1)), ((6, 7), (7, 7)), ((4, 1), (4, 0)), ((7, 7), (6, 7))];
    play(&mut board, &round);
    play(&mut board, &round);
    play(&mut board, &[((4, 0), (4, 1))]);
    assert_eq!(
        board.move_piece((6, 7), (7, 7), None),
        Ok(GameStatus::Draw(DrawType::Repetition))
    );
}

#[test]
fn hundred_quiet_half_moves_are_a_draw() {
    let mut board = ChessBoard::stalemate_start();
    let white = [(4, 0), (5, 0), (6, 0), (7, 1), (6, 2), (5, 2), (4, 1)];
    let black = [(6, 7), (5, 7), (5, 6), (5, 5), (6, 5), (7, 5), (7, 6), (7, 7)];
    for turn in 0..50 {
        let from = white[turn % 7];
        let to = white[(turn + 1) % 7];
        assert_eq!(board.move_piece(from, to, None), Ok(GameStatus::Ongoing));
        assert_eq!(board.move_rule_counter as usize, 2 * turn + 1);
        let from = black[turn % 8];
        let to = black[(turn + 1) % 8];
        let expected = if turn == 49 {
            GameStatus::Draw(DrawType::MoveRule)
        } else {
            GameStatus::Ongoing
        };
        assert_eq!(board.move_piece(from, to, None), Ok(expected));
    }
    assert_eq!(board.move_rule_counter, 100);
}

#[test]
fn promotion_places_the_chosen_piece() {
    let mut board = ChessBoard::stalemate_start();
    board.squares[0][6] = Some(Piece::Pawn { color: Color::White, enpassantable_turn: None });
    assert_eq!(
        board.move_piece((0, 6), (0, 7), Some(PromotionPiece::Rook)),
        Ok(GameStatus::Ongoing)
    );
    assert_eq!(board.squares[0][7], Some(Piece::Rook { color: Color::White, has_moved: true }));
    assert_eq!(board.squares[0][6], None);
    assert_eq!(board.white_king_position, Coordinate::new(4, 0));
}

/// Two kings and nothing else: the white king on `white`, the black king on `black`.
fn kings_on(white: (usize, usize), black: (usize, usize)) -> ChessBoard {
    let mut board = ChessBoard::stalemate_start();
    board.squares = [[None; 8]; 8];
    board.squares[white.0][white.1] = Some(Piece::King { color: Color::White, has_moved: true });
    board.squares[black.0][black.1] = Some(Piece::King { color: Color::Black, has_moved: true });
    board.white_king_position = Coordinate::new(white.0, white.1);
    board.black_king_position = Coordinate::new(black.0, black.1);
    board
}

#[test]
fn en_passant_is_tried_with_the_taken_pawn_still_standing() {
    let mut board = kings_on((0, 4), (7, 7));
    board.squares[1][4] = Some(Piece::Pawn { color: Color::White, enpassantable_turn: None });
    board.squares[2][6] = Some(Piece::Pawn { color: Color::Black, enpassantable_turn: None });
    board.squares[7][4] = Some(Piece::Rook { color: Color::Black, has_moved: true });
    board.side_to_move = Color::Black;
    board.turn_number = 2;
    assert_eq!(board.move_piece((2, 6), (2, 4), None), Ok(GameStatus::Ongoing));
    assert!(!board.is_in_check(Color::White));
    assert_eq!(board.move_piece((1, 4), (2, 5), None), Ok(GameStatus::Ongoing));
    assert_eq!(board.squares[2][4], None);
    assert!(board.is_in_check(Color::White));
}

#[test]
fn a_pawn_that_leaves_the_board_shields_its_king_no_longer() {
    let mut board = kings_on((0, 7), (7, 0));
    board.squares[4][6] = Some(Piece::Pawn { color: Color::White, enpassantable_turn: None });
    board.squares[7][7] = Some(Piece::Rook { color: Color::Black, has_moved: true });
    assert!(board.is_in_check(Color::White));
    let mut chosen = board.clone();
    assert_eq!(board.move_piece((4, 6), (4, 7), None), Ok(GameStatus::Ongoing));
    assert_eq!(board.squares[4][7], None);
    assert!(board.is_in_check(Color::White));
    assert_eq!(
        chosen.move_piece((4, 6), (4, 7), Some(PromotionPiece::Knight)),
        Ok(GameStatus::Ongoing)
    );
    assert_eq!(chosen.squares[4][7], Some(Piece::Knight { color: Color::White }));
    assert!(!chosen.is_in_check(Color::White));
}

#[test]
fn castling_keeps_the_king_out_of_check() {
    let mut board = ChessBoard::starting_positions();
    for x in [1, 2, 3, 5, 6] {
        board.squares[x][0] = None;
    }
    board.squares[0][1] = None;
    board.squares[0][5] = Some(Piece::Rook { color: Color::Black, has_moved: true });
    assert_eq!(board.move_piece((4, 0), (2, 0), None), Ok(GameStatus::Ongoing));
    assert!(!board.is_in_check(Color::White));
    assert_eq!(board.squares[3][0], Some(Piece::Rook { color: Color::White, has_moved: true }));
}
