//! The pieces, the kinds of move, and the test of a single move.
use vstd::prelude::*;
use crate::chess_board::ChessBoard;
use crate::coordinate::{distance, sign, Coordinate, Vector};
use crate::movement::{
    aligned, arrival, bishop_move, can_castle, castle_king_file, castle_transit_file,
    guards_castling, holds_color, home_rank, king_move, knight_move, path_clear, pawn_move,
    piece_at, queen_move, rook_move, square, strictly_between,
};

verus! {

/// The two sides of a game.
#[derive(Copy, Clone, Debug, PartialEq, Eq, Hash, Structural)]
pub enum Color {
    White,
    Black,
}

/// The side that is not `color`.
pub open spec fn opposite(color: Color) -> Color {
    match color {
        Color::White => Color::Black,
        Color::Black => Color::White,
    }
}

impl Color {
    /// Hands the turn to the other side.
    pub fn switch(&mut self)
        ensures
            *final(self) == opposite(*old(self)),
    {
        *self = match self {
            Color::White => Color::Black,
            Color::Black => Color::White,
        };
    }
}

/// A piece, with the state that the rules read from it.
///
/// A pawn remembers the turn in which it can be taken en passant; a rook and a king
/// remember whether they have moved, which ends their right to castle.
#[derive(Copy, Clone, Debug, PartialEq, Eq, Structural)]
pub enum Piece {
    Pawn { color: Color, enpassantable_turn: Option<u16> },
    Knight { color: Color },
    Bishop { color: Color },
    Rook { color: Color, has_moved: bool },
    Queen { color: Color },
    King { color: Color, has_moved: bool },
}

/// The pieces a pawn can turn into on the last rank.
#[derive(Copy, Clone, Debug, PartialEq, Eq, Structural)]
pub enum PromotionPiece {
    Knight,
    Bishop,
    Rook,
    Queen,
}

/// What kind of move a step from one square to another is.
#[derive(Copy, Clone, Debug, PartialEq, Eq, Structural)]
pub enum MoveType {
    CastleShort,
    CastleLong,
    SinglePawn,
    DoublePawn,
    Promotion,
    Capture(CaptureType),
    Illegal,
    Other,
}

/// What kind of capture a move is.
#[derive(Copy, Clone, Debug, PartialEq, Eq, Structural)]
pub enum CaptureType {
    EnPassant,
    Promotion,
    Other,
}

/// The two wings a king can castle to.
#[derive(Copy, Clone, Debug, PartialEq, Eq, Structural)]
pub enum CastleType {
    Short,
    Long,
}

/// The kind and side of a piece, without the state that the rules keep on it: what a
/// square shows.
#[derive(Copy, Clone, Debug, PartialEq, Eq, Hash, Structural)]
pub enum PieceType {
    Pawn(Color),
    Knight(Color),
    Bishop(Color),
    Rook(Color),
    Queen(Color),
    King(Color),
}

/// The letter that stands for what a square holds: the initial of the piece, `n` for
/// the knight, in upper case for White and in lower case for Black, and a blank for
/// an empty square.
pub open spec fn symbol_of(content: Option<Piece>) -> char {
    match content {
        None => ' ',
        Some(Piece::Pawn { color: Color::White, .. }) => 'P',
        Some(Piece::Knight { color: Color::White }) => 'N',
        Some(Piece::Bishop { color: Color::White }) => 'B',
        Some(Piece::Rook { color: Color::White, .. }) => 'R',
        Some(Piece::Queen { color: Color::White }) => 'Q',
        Some(Piece::King { color: Color::White, .. }) => 'K',
        Some(Piece::Pawn { color: Color::Black, .. }) => 'p',
        Some(Piece::Knight { color: Color::Black }) => 'n',
        Some(Piece::Bishop { color: Color::Black }) => 'b',
        Some(Piece::Rook { color: Color::Black, .. }) => 'r',
        Some(Piece::Queen { color: Color::Black }) => 'q',
        Some(Piece::King { color: Color::Black, .. }) => 'k',
    }
}

/// The letter that stands for what a square holds when a board is written out.
pub fn square_symbol(content: Option<Piece>) -> (symbol: char)
    ensures
        symbol == symbol_of(content),
{
    match content {
        None => ' ',
        Some(piece) => {
            let letter = match piece {
                Piece::Pawn { .. } => ('P', 'p'),
                Piece::Knight { .. } => ('N', 'n'),
                Piece::Bishop { .. } => ('B', 'b'),
                Piece::Rook { .. } => ('R', 'r'),
                Piece::Queen { .. } => ('Q', 'q'),
                Piece::King { .. } => ('K', 'k'),
            };
            match piece.get_color() {
                Color::White => letter.0,
                Color::Black => letter.1,
            }
        },
    }
}

/// The piece of `color` that `choice` stands for. A rook that a pawn turned into
/// counts as moved.
pub open spec fn promoted(choice: PromotionPiece, color: Color) -> Piece {
    match choice {
        PromotionPiece::Knight => Piece::Knight { color },
        PromotionPiece::Bishop => Piece::Bishop { color },
        PromotionPiece::Rook => Piece::Rook { color, has_moved: true },
        PromotionPiece::Queen => Piece::Queen { color },
    }
}

impl PieceType {
    /// What a square that holds `piece` shows.
    pub fn from_chess_piece(piece: Option<Piece>) -> (shown: Option<PieceType>)
        ensures
            shown == match piece {
                Some(piece) => Some(piece.piece_type()),
                None => None,
            },
    {
        match piece {
            Some(Piece::Pawn { color, .. }) => Some(PieceType::Pawn(color)),
            Some(Piece::Knight { color }) => Some(PieceType::Knight(color)),
            Some(Piece::Bishop { color }) => Some(PieceType::Bishop(color)),
            Some(Piece::Rook { color, .. }) => Some(PieceType::Rook(color)),
            Some(Piece::Queen { color }) => Some(PieceType::Queen(color)),
            Some(Piece::King { color, .. }) => Some(PieceType::King(color)),
            None => None,
        }
    }
}

impl PromotionPiece {
    /// The piece of `color` that a pawn turns into by this choice.
    pub fn as_piece(&self, color: Color) -> (piece: Option<Piece>)
        ensures
            piece == Some(promoted(*self, color)),
    {
        match self {
            PromotionPiece::Knight => Some(Piece::Knight { color: color }),
            PromotionPiece::Bishop => Some(Piece::Bishop { color: color }),
            PromotionPiece::Rook => Some(Piece::Rook { color: color, has_moved: true }),
            PromotionPiece::Queen => Some(Piece::Queen { color: color }),
        }
    }
}

impl Piece {
    /// The side the piece belongs to.
    pub open spec fn color(self) -> Color {
        match self {
            Piece::Pawn { color, .. } => color,
            Piece::Knight { color } => color,
            Piece::Bishop { color } => color,
            Piece::Rook { color, .. } => color,
            Piece::Queen { color } => color,
            Piece::King { color, .. } => color,
        }
    }

    /// The kind and side of the piece.
    pub open spec fn piece_type(self) -> PieceType {
        match self {
            Piece::Pawn { color, .. } => PieceType::Pawn(color),
            Piece::Knight { color } => PieceType::Knight(color),
            Piece::Bishop { color } => PieceType::Bishop(color),
            Piece::Rook { color, .. } => PieceType::Rook(color),
            Piece::Queen { color } => PieceType::Queen(color),
            Piece::King { color, .. } => PieceType::King(color),
        }
    }

    /// The side the piece belongs to.
    pub fn get_color(&self) -> (color: Color)
        ensures
            color == self.color(),
    {
        match self {
            Piece::Pawn { color, .. } => *color,
            Piece::Knight { color } => *color,
            Piece::Bishop { color } => *color,
            Piece::Rook { color, .. } => *color,
            Piece::Queen { color } => *color,
            Piece::King { color, .. } => *color,
        }
    }
}

/// One for a square on the home rank of `color` and nought for any other. A king's
/// move to its home rank may ask whether the enemy pieces reach that rank, and no
/// move of theirs to that rank asks such a question in turn; this is the measure by
/// which the questions come to an end.
pub open spec fn home_rank_level(color: Color, to: Coordinate) -> nat {
    if to.y == home_rank(color) {
        1
    } else {
        0
    }
}

/// What it is for a piece of `color` to arrive on `to`.
fn arrive(to: Coordinate, board: &ChessBoard, color: Color) -> (kind: MoveType)
    requires
        to.in_bounds(),
    ensures
        kind == arrival(board@.squares, to, color),
{
    match board.squares[to.x][to.y] {
        None => MoveType::Other,
        Some(piece) => {
            if piece.get_color() != color {
                MoveType::Capture(CaptureType::Other)
            } else {
                MoveType::Illegal
            }
        },
    }
}

/// Walks from `from` towards `to` and says whether every square on the way is empty.
fn is_path_clear(from: Coordinate, to: Coordinate, board: &ChessBoard) -> (clear: bool)
    requires
        from.in_bounds(),
        to.in_bounds(),
        from != to,
        aligned(from, to),
    ensures
        clear == path_clear(board@.squares, from, to),
{
    let from_vector = from.vector();
    let to_vector = to.vector();
    let movement_direction = to_vector.subtract(from_vector).direction();
    let x_end: i32 = to_vector.x;
    let y_end: i32 = to_vector.y;
    let mut x: i32 = from_vector.x + movement_direction.x;
    let mut y: i32 = from_vector.y + movement_direction.y;
    while x != x_end || y != y_end
        invariant
            from.in_bounds(),
            to.in_bounds(),
            from != to,
            aligned(from, to),
            x_end == to.x,
            y_end == to.y,
            movement_direction.x == sign(to.x - from.x),
            movement_direction.y == sign(to.y - from.y),
            0 <= x < 8,
            0 <= y < 8,
            square(x as int, y as int) == to || strictly_between(from, to, square(x as int, y as int)),
            forall|s: Coordinate|
                s.in_bounds() && strictly_between(from, square(x as int, y as int), s) ==> (
                #[trigger] piece_at(board@.squares, s)) is None,
        decreases distance(x as int, x_end as int) + distance(y as int, y_end as int),
    {
        if board.squares[x as usize][y as usize].is_some() {
            assert(piece_at(board@.squares, square(x as int, y as int)) is Some);
            return false;
        }
        x += movement_direction.x;
        y += movement_direction.y;
    }
    true
}

impl Piece {
    /// The move of a pawn of `color` from `from` to `to`: an advance of one square or
    /// of two, a capture, a capture en passant, or a promotion.
    pub fn is_legal_pawn_move(
        from: Coordinate,
        to: Coordinate,
        board: &ChessBoard,
        color: Color,
    ) -> (kind: MoveType)
        requires
            from.in_bounds(),
            to.in_bounds(),
        ensures
            kind == pawn_move(board@.squares, from, to, color),
    {
        let step = to.vector().subtract(from.vector());
        let forward: i32 = match color {
            Color::White => 1,
            Color::Black => -1,
        };
        let promotes = match color {
            Color::White => to.y == 7,
            Color::Black => to.y == 0,
        };
        let diagonal = step.y == forward && (step.x == 1 || step.x == -1);
        match board.squares[to.x][to.y] {
            Some(target) => {
                if target.get_color() != color && diagonal {
                    if promotes {
                        return MoveType::Capture(CaptureType::Promotion);
                    }
                    return MoveType::Capture(CaptureType::Other);
                }
                MoveType::Illegal
            },
            None => {
                if diagonal {
                    let on_rank = match color {
                        Color::White => from.y == 4,
                        Color::Black => from.y == 3,
                    };
                    if on_rank {
                        if let Some(Piece::Pawn { color: victim, enpassantable_turn: Some(_) }) =
                            board.squares[to.x][from.y] {
                            if victim != color {
                                return MoveType::Capture(CaptureType::EnPassant);
                            }
                        }
                    }
                    return MoveType::Illegal;
                }
                if step.x != 0 {
                    return MoveType::Illegal;
                }
                if step.y == forward {
                    if promotes {
                        return MoveType::Promotion;
                    }
                    return MoveType::SinglePawn;
                }
                let can_double_move = match color {
                    Color::Black => from.y == 6 && to.y == 4 && board.squares[from.x][5].is_none(),
                    Color::White => from.y == 1 && to.y == 3 && board.squares[from.x][2].is_none(),
                };
                if can_double_move {
                    return MoveType::DoublePawn;
                }
                MoveType::Illegal
            },
        }
    }

    /// The move of a knight of `color` from `from` to `to`.
    pub fn is_legal_knight_move(
        from: Coordinate,
        to: Coordinate,
        board: &ChessBoard,
        color: Color,
    ) -> (kind: MoveType)
        requires
            from.in_bounds(),
            to.in_bounds(),
        ensures
            kind == knight_move(board@.squares, from, to, color),
    {
        let difference = from.vector().difference(to.vector());
        if difference == Vector::new(2, 1) || difference == Vector::new(1, 2) {
            return arrive(to, board, color);
        }
        MoveType::Illegal
    }

    /// The move of a bishop of `color` from `from` to `to`, along a clear diagonal.
    pub fn is_legal_bishop_move(
        from: Coordinate,
        to: Coordinate,
        board: &ChessBoard,
        color: Color,
    ) -> (kind: MoveType)
        requires
            from.in_bounds(),
            to.in_bounds(),
        ensures
            kind == bishop_move(board@.squares, from, to, color),
    {
        let difference = from.vector().difference(to.vector());
        if difference.x != difference.y || difference.x == 0 {
            return MoveType::Illegal;
        }
        if !is_path_clear(from, to, board) {
            return MoveType::Illegal;
        }
        arrive(to, board, color)
    }

    /// The move of a rook of `color` from `from` to `to`, along a clear file or rank.
    pub fn is_legal_rook_move(
        from: Coordinate,
        to: Coordinate,
        board: &ChessBoard,
        color: Color,
    ) -> (kind: MoveType)
        requires
            from.in_bounds(),
            to.in_bounds(),
        ensures
            kind == rook_move(board@.squares, from, to, color),
    {
        let difference = from.vector().difference(to.vector());
        if (difference.x == 0) == (difference.y == 0) {
            return MoveType::Illegal;
        }
        if !is_path_clear(from, to, board) {
            return MoveType::Illegal;
        }
        arrive(to, board, color)
    }

    /// The move of a queen of `color` from `from` to `to`: that of a bishop or that of
    /// a rook.
    pub fn is_legal_queen_move(
        from: Coordinate,
        to: Coordinate,
        board: &ChessBoard,
        color: Color,
    ) -> (kind: MoveType)
        requires
            from.in_bounds(),
            to.in_bounds(),
        ensures
            kind == queen_move(board@.squares, from, to, color),
    {
        let legal_rook = Self::is_legal_rook_move(from, to, board, color);
        let legal_bishop = Self::is_legal_bishop_move(from, to, board, color);
        if legal_bishop != MoveType::Illegal {
            return legal_bishop;
        } else if legal_rook != MoveType::Illegal {
            return legal_rook;
        }
        MoveType::Illegal
    }

    /// The move of a king of `color` from `from` to `to`: a step to a neighbouring
    /// square, or castling for a king that has not moved.
    pub fn is_legal_king_move(
        from: Coordinate,
        to: Coordinate,
        board: &ChessBoard,
        color: Color,
        has_moved: bool,
    ) -> (kind: MoveType)
        requires
            from.in_bounds(),
            to.in_bounds(),
        ensures
            kind == king_move(board@.squares, from, to, color, has_moved),
        decreases 0nat, home_rank_level(color, to), 2nat,
    {
        let difference = from.vector().difference(to.vector());
        if difference.x <= 1 && difference.y <= 1 && from != to {
            let kind = arrive(to, board, color);
            if kind != MoveType::Illegal {
                return kind;
            }
        }
        if has_moved {
            return MoveType::Illegal;
        }
        let rank_y: usize = match color {
            Color::Black => 7,
            Color::White => 0,
        };
        if from != Coordinate::new(4, rank_y) {
            return MoveType::Illegal;
        }
        if to == Coordinate::new(6, rank_y) {
            if Piece::is_legal_castleing_move(color, board, CastleType::Short) {
                return MoveType::CastleShort;
            }
        } else if to == Coordinate::new(2, rank_y) {
            if Piece::is_legal_castleing_move(color, board, CastleType::Long) {
                return MoveType::CastleLong;
            }
        }
        MoveType::Illegal
    }

    /// Whether `color` may castle on `side`: the rook stands unmoved in its corner,
    /// nothing stands between it and the king's home square, and no enemy piece can
    /// go to the square the king leaves, the one it crosses or the one it lands on.
    pub fn is_legal_castleing_move(color: Color, board: &ChessBoard, side: CastleType) -> (allowed:
        bool)
        ensures
            allowed == can_castle(board@.squares, color, side),
        decreases 0nat, 1nat, 1nat,
    {
        let rank_y: usize = match color {
            Color::Black => 7,
            Color::White => 0,
        };
        let (rook_x, between_x, to_x): (usize, usize, usize) = match side {
            CastleType::Short => (7, 5, 6),
            CastleType::Long => (0, 3, 2),
        };
        match board.squares[rook_x][rank_y] {
            Some(Piece::Rook { color: rook_color, has_moved }) => {
                if rook_color != color || has_moved {
                    return false;
                }
            },
            _ => {
                return false;
            },
        }
        let king = Coordinate::new(4, rank_y);
        let rook = Coordinate::new(rook_x, rank_y);
        let between = Coordinate::new(between_x, rank_y);
        let to = Coordinate::new(to_x, rank_y);
        if !is_path_clear(king, rook, board) {
            return false;
        }
        for y in 0..8usize
            invariant
                king == square(4, home_rank(color)),
                between == square(castle_transit_file(side), home_rank(color)),
                to == square(castle_king_file(side), home_rank(color)),
                can_castle(board@.squares, color, side) == (forall|s: Coordinate|
                    s.in_bounds() && holds_color(board@.squares, s, opposite(color))
                        ==> !#[trigger] guards_castling(board@.squares, s, color, side)),
                forall|s: Coordinate|
                    s.in_bounds() && s.y < y && holds_color(board@.squares, s, opposite(color))
                        ==> !#[trigger] guards_castling(board@.squares, s, color, side),
        {
            for x in 0..8usize
                invariant
                    y < 8,
                    king == square(4, home_rank(color)),
                    between == square(castle_transit_file(side), home_rank(color)),
                    to == square(castle_king_file(side), home_rank(color)),
                    can_castle(board@.squares, color, side) == (forall|s: Coordinate|
                        s.in_bounds() && holds_color(board@.squares, s, opposite(color))
                            ==> !#[trigger] guards_castling(board@.squares, s, color, side)),
                    forall|s: Coordinate|
                        s.in_bounds() && (s.y < y || (s.y == y && s.x < x)) && holds_color(
                            board@.squares,
                            s,
                            opposite(color),
                        ) ==> !#[trigger] guards_castling(board@.squares, s, color, side),
            {
                if let Some(piece) = board.squares[x][y] {
                    if piece.get_color() != color {
                        let at = Coordinate::new(x, y);
                        if piece.is_legal_move(at, between, board, true) != MoveType::Illegal
                            || piece.is_legal_move(at, to, board, true) != MoveType::Illegal
                            || piece.is_legal_move(at, king, board, true) != MoveType::Illegal {
                            assert(guards_castling(board@.squares, at, color, side));
                            return false;
                        }
                        assert(!guards_castling(board@.squares, at, color, side));
                    }
                }
            }
        }
        true
    }

    /// The kind of the move of this piece from `from` to `to` on `board`.
    ///
    /// With `ignore_checks` the move is not tested for the safety of the mover's own
    /// king. The test for that safety sets it, and so does not call for itself again.
    pub fn is_legal_move(
        &self,
        from: Coordinate,
        to: Coordinate,
        board: &ChessBoard,
        ignore_checks: bool,
    ) -> (kind: MoveType)
        requires
            from.in_bounds(),
            to.in_bounds(),
            ignore_checks || board@.king_square(self.color()).in_bounds(),
        ensures
            kind == board@.classify(*self, from, to, ignore_checks),
        decreases
            (if ignore_checks {
                0nat
            } else {
                1nat
            }),
            (match *self {
                Piece::King { color, .. } => home_rank_level(color, to),
                _ => 0nat,
            }),
            3nat,
    {
        if let Some(destination_piece) = board.squares[to.x][to.y] {
            if self.get_color() == destination_piece.get_color() {
                return MoveType::Illegal;
            }
        }
        if !ignore_checks {
            let board_after_move = board.after_lifting(from, to);
            if board_after_move.is_in_check(self.get_color()) {
                return MoveType::Illegal;
            }
        }
        match self {
            Piece::Pawn { color, .. } => Piece::is_legal_pawn_move(from, to, board, *color),
            Piece::Knight { color } => Piece::is_legal_knight_move(from, to, board, *color),
            Piece::Bishop { color } => Piece::is_legal_bishop_move(from, to, board, *color),
            Piece::Rook { color, .. } => Piece::is_legal_rook_move(from, to, board, *color),
            Piece::Queen { color } => Piece::is_legal_queen_move(from, to, board, *color),
            Piece::King { color, has_moved } => Piece::is_legal_king_move(
                from,
                to,
                board,
                *color,
                *has_moved,
            ),
        }
    }
}

} // verus!
