//! How each kind of piece moves on a board, and what it is for a king to be in check.
use vstd::prelude::*;
use crate::coordinate::{distance, Coordinate};
use crate::piece::{opposite, CaptureType, CastleType, Color, MoveType, Piece};

verus! {

/// What stands on the board: eight files of eight squares, `grid[x][y]` being the
/// square on file `x` and rank `y`.
pub type Grid = Seq<Seq<Option<Piece>>>;

/// Whether `grid` has the shape of a board.
pub open spec fn is_grid(grid: Grid) -> bool {
    &&& grid.len() == 8
    &&& forall|x: int| 0 <= x < 8 ==> (#[trigger] grid[x]).len() == 8
}

/// The square on file `x` and rank `y`.
pub open spec fn square(x: int, y: int) -> Coordinate {
    Coordinate { x: x as usize, y: y as usize }
}

/// What stands on square `c`.
pub open spec fn piece_at(grid: Grid, c: Coordinate) -> Option<Piece> {
    grid[c.x as int][c.y as int]
}

/// The board with square `c` holding `content` and every other square as before.
pub open spec fn put(grid: Grid, c: Coordinate, content: Option<Piece>) -> Grid {
    grid.update(c.x as int, grid[c.x as int].update(c.y as int, content))
}

/// The board after the piece on `from` was lifted and set down on `to`, whatever stood
/// there. Nothing else moves.
pub open spec fn lifted(grid: Grid, from: Coordinate, to: Coordinate) -> Grid {
    put(put(grid, from, None), to, piece_at(grid, from))
}

/// Whether `content` is the king of `color`.
pub open spec fn is_king_of(content: Option<Piece>, color: Color) -> bool {
    content matches Some(Piece::King { color: c, .. }) && c == color
}

/// Whether a piece of `color` stands on `c`.
pub open spec fn holds_color(grid: Grid, c: Coordinate, color: Color) -> bool {
    piece_at(grid, c) matches Some(piece) && piece.color() == color
}

/// What it is to arrive on `to` for a piece of `color`: a quiet move onto an empty
/// square, a capture of an enemy piece, and never a move onto a piece of one's own.
pub open spec fn arrival(grid: Grid, to: Coordinate, color: Color) -> MoveType {
    match piece_at(grid, to) {
        None => MoveType::Other,
        Some(piece) => if piece.color() != color {
            MoveType::Capture(CaptureType::Other)
        } else {
            MoveType::Illegal
        },
    }
}

/// Whether `s` lies on the straight or diagonal line from `a` to `b`, strictly between
/// the two. It is meant for `a` and `b` that share a file, a rank or a diagonal.
pub open spec fn strictly_between(a: Coordinate, b: Coordinate, s: Coordinate) -> bool {
    &&& s != a
    &&& s != b
    &&& (a.x <= s.x <= b.x || b.x <= s.x <= a.x)
    &&& (a.y <= s.y <= b.y || b.y <= s.y <= a.y)
    &&& (a.x == b.x || a.y == b.y || distance(s.x as int, a.x as int) == distance(
        s.y as int,
        a.y as int,
    ))
}

/// Whether two squares share a file, a rank or a diagonal.
pub open spec fn aligned(a: Coordinate, b: Coordinate) -> bool {
    a.x == b.x || a.y == b.y || distance(a.x as int, b.x as int) == distance(
        a.y as int,
        b.y as int,
    )
}

/// Whether every square strictly between `a` and `b` is empty.
pub open spec fn path_clear(grid: Grid, a: Coordinate, b: Coordinate) -> bool {
    forall|s: Coordinate|
        s.in_bounds() && strictly_between(a, b, s) ==> (#[trigger] piece_at(grid, s)) is None
}

/// The direction in which the pawns of `color` advance along the ranks.
pub open spec fn forward(color: Color) -> int {
    match color {
        Color::White => 1,
        Color::Black => -1,
    }
}

/// The rank on which the king and the rooks of `color` start.
pub open spec fn home_rank(color: Color) -> int {
    match color {
        Color::White => 0,
        Color::Black => 7,
    }
}

/// The rank on which the pawns of `color` start.
pub open spec fn pawn_rank(color: Color) -> int {
    match color {
        Color::White => 1,
        Color::Black => 6,
    }
}

/// The rank on which a pawn of `color` is promoted.
pub open spec fn last_rank(color: Color) -> int {
    match color {
        Color::White => 7,
        Color::Black => 0,
    }
}

/// The rank from which a pawn of `color` takes en passant.
pub open spec fn en_passant_rank(color: Color) -> int {
    match color {
        Color::White => 4,
        Color::Black => 3,
    }
}

/// Whether `content` is a pawn of `color` that is marked as open to en passant.
pub open spec fn is_en_passant_target(content: Option<Piece>, color: Color) -> bool {
    content matches Some(Piece::Pawn { color: c, enpassantable_turn: Some(_) }) && c == color
}

/// The move of a pawn of `color` from `from` to `to`.
///
/// A pawn captures one step diagonally forward, and only there; it takes en passant
/// from its en-passant rank onto an empty square beside a marked enemy pawn; it
/// advances one square straight onto an empty square, or two from its starting rank
/// over an empty square. Reaching the last rank is a promotion.
pub open spec fn pawn_move(grid: Grid, from: Coordinate, to: Coordinate, color: Color) -> MoveType {
    let dx = to.x - from.x;
    let dy = to.y - from.y;
    let diagonal = dy == forward(color) && (dx == 1 || dx == -1);
    match piece_at(grid, to) {
        Some(target) => if target.color() != color && diagonal {
            if to.y == last_rank(color) {
                MoveType::Capture(CaptureType::Promotion)
            } else {
                MoveType::Capture(CaptureType::Other)
            }
        } else {
            MoveType::Illegal
        },
        None => if diagonal {
            if from.y == en_passant_rank(color) && is_en_passant_target(
                piece_at(grid, square(to.x as int, from.y as int)),
                opposite(color),
            ) {
                MoveType::Capture(CaptureType::EnPassant)
            } else {
                MoveType::Illegal
            }
        } else if dx == 0 && dy == forward(color) {
            if to.y == last_rank(color) {
                MoveType::Promotion
            } else {
                MoveType::SinglePawn
            }
        } else if dx == 0 && dy == 2 * forward(color) && from.y == pawn_rank(color) && piece_at(
            grid,
            square(from.x as int, from.y + forward(color)),
        ) is None {
            MoveType::DoublePawn
        } else {
            MoveType::Illegal
        },
    }
}

/// The move of a knight of `color`: two squares one way and one the other.
pub open spec fn knight_move(grid: Grid, from: Coordinate, to: Coordinate, color: Color) -> MoveType {
    let dx = distance(from.x as int, to.x as int);
    let dy = distance(from.y as int, to.y as int);
    if (dx == 2 && dy == 1) || (dx == 1 && dy == 2) {
        arrival(grid, to, color)
    } else {
        MoveType::Illegal
    }
}

/// The move of a bishop of `color`: along a diagonal, over empty squares.
pub open spec fn bishop_move(grid: Grid, from: Coordinate, to: Coordinate, color: Color) -> MoveType {
    let dx = distance(from.x as int, to.x as int);
    let dy = distance(from.y as int, to.y as int);
    if dx == dy && dx != 0 && path_clear(grid, from, to) {
        arrival(grid, to, color)
    } else {
        MoveType::Illegal
    }
}

/// The move of a rook of `color`: along a file or a rank, over empty squares.
pub open spec fn rook_move(grid: Grid, from: Coordinate, to: Coordinate, color: Color) -> MoveType {
    let dx = distance(from.x as int, to.x as int);
    let dy = distance(from.y as int, to.y as int);
    if (dx == 0) != (dy == 0) && path_clear(grid, from, to) {
        arrival(grid, to, color)
    } else {
        MoveType::Illegal
    }
}

/// The move of a queen of `color`: that of a bishop or that of a rook.
pub open spec fn queen_move(grid: Grid, from: Coordinate, to: Coordinate, color: Color) -> MoveType {
    if bishop_move(grid, from, to, color) != MoveType::Illegal {
        bishop_move(grid, from, to, color)
    } else {
        rook_move(grid, from, to, color)
    }
}

/// The single step of a king of `color` to a neighbouring square.
pub open spec fn king_step(grid: Grid, from: Coordinate, to: Coordinate, color: Color) -> MoveType {
    let dx = distance(from.x as int, to.x as int);
    let dy = distance(from.y as int, to.y as int);
    if dx <= 1 && dy <= 1 && from != to {
        arrival(grid, to, color)
    } else {
        MoveType::Illegal
    }
}

/// The move of `piece` by its own way of moving, castling left aside.
pub open spec fn plain_move(grid: Grid, piece: Piece, from: Coordinate, to: Coordinate) -> MoveType {
    match piece {
        Piece::Pawn { color, .. } => pawn_move(grid, from, to, color),
        Piece::Knight { color } => knight_move(grid, from, to, color),
        Piece::Bishop { color } => bishop_move(grid, from, to, color),
        Piece::Rook { color, .. } => rook_move(grid, from, to, color),
        Piece::Queen { color } => queen_move(grid, from, to, color),
        Piece::King { color, .. } => king_step(grid, from, to, color),
    }
}

/// Whether the piece on `s` can go to `target` by its own way of moving. A pawn
/// reaches the squares it can move to, so the empty square before it and not the empty
/// squares it guards.
pub open spec fn reaches(grid: Grid, s: Coordinate, target: Coordinate) -> bool {
    piece_at(grid, s) matches Some(piece) && !holds_color(grid, target, piece.color())
        && plain_move(grid, piece, s, target) != MoveType::Illegal
}

/// The file of the rook that castles on `side`.
pub open spec fn castle_rook_file(side: CastleType) -> int {
    match side {
        CastleType::Short => 7,
        CastleType::Long => 0,
    }
}

/// The file on which the king lands when it castles on `side`.
pub open spec fn castle_king_file(side: CastleType) -> int {
    match side {
        CastleType::Short => 6,
        CastleType::Long => 2,
    }
}

/// The file that the king crosses, and on which the rook lands, when castling on `side`.
pub open spec fn castle_transit_file(side: CastleType) -> int {
    match side {
        CastleType::Short => 5,
        CastleType::Long => 3,
    }
}

/// Whether the piece on `s` stands in the way of `color` castling on `side`: it reaches
/// the home square of the king, the square the king crosses or the square it lands on.
pub open spec fn guards_castling(grid: Grid, s: Coordinate, color: Color, side: CastleType) -> bool {
    let rank = home_rank(color);
    ||| reaches(grid, s, square(4, rank))
    ||| reaches(grid, s, square(castle_transit_file(side), rank))
    ||| reaches(grid, s, square(castle_king_file(side), rank))
}

/// Whether `color` may castle on `side`, its king standing unmoved on its home square.
///
/// The rook of that side stands unmoved in its corner, the squares between king and
/// rook are empty, and no enemy piece reaches the king's square, the square it
/// crosses or the square it lands on. An enemy king cannot castle onto this rank, so
/// `reaches` says all that the enemy pieces can do here.
pub open spec fn can_castle(grid: Grid, color: Color, side: CastleType) -> bool {
    let rank = home_rank(color);
    &&& piece_at(grid, square(castle_rook_file(side), rank)) == Some(
        Piece::Rook { color, has_moved: false },
    )
    &&& path_clear(grid, square(4, rank), square(castle_rook_file(side), rank))
    &&& forall|s: Coordinate|
        s.in_bounds() && holds_color(grid, s, opposite(color)) ==> !#[trigger] guards_castling(
            grid,
            s,
            color,
            side,
        )
}

/// The move of a king of `color`: a single step, or castling.
///
/// A king that has not moved castles from its home square by going two squares
/// towards a rook, where `can_castle` allows it.
pub open spec fn king_move(
    grid: Grid,
    from: Coordinate,
    to: Coordinate,
    color: Color,
    has_moved: bool,
) -> MoveType {
    let rank = home_rank(color);
    if king_step(grid, from, to, color) != MoveType::Illegal {
        king_step(grid, from, to, color)
    } else if has_moved || from != square(4, rank) {
        MoveType::Illegal
    } else if to == square(6, rank) && can_castle(grid, color, CastleType::Short) {
        MoveType::CastleShort
    } else if to == square(2, rank) && can_castle(grid, color, CastleType::Long) {
        MoveType::CastleLong
    } else {
        MoveType::Illegal
    }
}

/// The move of `piece` from `from` to `to` by the rules of its kind.
pub open spec fn piece_move(grid: Grid, piece: Piece, from: Coordinate, to: Coordinate) -> MoveType {
    match piece {
        Piece::King { color, has_moved } => king_move(grid, from, to, color, has_moved),
        _ => plain_move(grid, piece, from, to),
    }
}

/// The move of `piece` from `from` to `to`, without regard to what it does to the
/// safety of its own king: never onto a piece of its own side, and else by the rules
/// of its kind.
pub open spec fn pseudo_move(grid: Grid, piece: Piece, from: Coordinate, to: Coordinate) -> MoveType {
    if holds_color(grid, to, piece.color()) {
        MoveType::Illegal
    } else {
        piece_move(grid, piece, from, to)
    }
}

/// Whether the piece on `s` is an enemy of `color` that could move to `target`.
pub open spec fn attacks(grid: Grid, s: Coordinate, target: Coordinate, color: Color) -> bool {
    piece_at(grid, s) matches Some(piece) && piece.color() != color && pseudo_move(
        grid,
        piece,
        s,
        target,
    ) != MoveType::Illegal
}

/// Whether the king of `color`, standing on `king`, is in check: some enemy piece
/// could move onto its square.
pub open spec fn in_check(grid: Grid, king: Coordinate, color: Color) -> bool {
    exists|s: Coordinate| s.in_bounds() && #[trigger] attacks(grid, s, king, color)
}

} // verus!
