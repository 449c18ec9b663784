//! The material on a board, and why no game goes on for ever.
use vstd::prelude::*;
use crate::coordinate::{distance, Coordinate};
use crate::laws::{lemma_accepted, lemma_kinds};
use crate::movement::{is_grid, last_rank, lifted, piece_at, put, square, Grid};
use crate::piece::{CaptureType, MoveType, Piece, PromotionPiece};
use crate::position::{
    expire, lemma_lifted, lemma_put, lemma_relocated, lemma_settled, relocated, resets_count,
    settled, Position,
};

verus! {

/// What the content of a square on rank `y` adds to the material on the board: one for
/// a piece, and for a pawn one more for every step it has left to the last rank.
///
/// A capture takes a piece off the board, an advance takes a step from a pawn, and a
/// promotion turns a pawn with a step left into a piece with none: each of them
/// lessens the material, and no move adds to it.
pub open spec fn weight(content: Option<Piece>, y: int) -> nat {
    match content {
        None => 0,
        Some(Piece::Pawn { color, .. }) => (1 + distance(last_rank(color), y)) as nat,
        Some(_) => 1,
    }
}

/// The material on the first `n` squares of a board, counted file by file.
pub open spec fn material_below(grid: Grid, n: nat) -> nat
    decreases n,
{
    if n == 0 {
        0
    } else {
        let i = (n - 1) as int;
        material_below(grid, (n - 1) as nat) + weight(grid[i / 8][i % 8], i % 8)
    }
}

/// The material on a board.
pub open spec fn material(grid: Grid) -> nat {
    material_below(grid, 64)
}

/// The material on the first `n` squares once `content` was put on `c`.
proof fn lemma_material_below_put(grid: Grid, c: Coordinate, content: Option<Piece>, n: nat)
    requires
        is_grid(grid),
        c.in_bounds(),
        n <= 64,
    ensures
        material_below(put(grid, c, content), n) + (if c.x * 8 + c.y < n {
            weight(piece_at(grid, c), c.y as int)
        } else {
            0
        }) == material_below(grid, n) + (if c.x * 8 + c.y < n {
            weight(content, c.y as int)
        } else {
            0
        }),
    decreases n,
{
    if n > 0 {
        let i = (n - 1) as int;
        lemma_material_below_put(grid, c, content, (n - 1) as nat);
        lemma_put(grid, c, content, square(i / 8, i % 8));
        assert(square(i / 8, i % 8) == c <==> i == c.x * 8 + c.y);
    }
}

/// The material on the first `n` squares of two boards whose squares weigh the same.
proof fn lemma_material_below_same(a: Grid, b: Grid, n: nat)
    requires
        n <= 64,
        forall|s: Coordinate|
            s.in_bounds() ==> weight(#[trigger] piece_at(a, s), s.y as int) == weight(
                piece_at(b, s),
                s.y as int,
            ),
    ensures
        material_below(a, n) == material_below(b, n),
    decreases n,
{
    if n > 0 {
        let i = (n - 1) as int;
        lemma_material_below_same(a, b, (n - 1) as nat);
        let s = square(i / 8, i % 8);
        assert(weight(piece_at(a, s), s.y as int) == weight(piece_at(b, s), s.y as int));
    }
}

/// The material on the first `n` squares is at most eight for each of them.
proof fn lemma_material_below_bound(grid: Grid, n: nat)
    requires
        n <= 64,
    ensures
        material_below(grid, n) <= 8 * n,
    decreases n,
{
    if n > 0 {
        lemma_material_below_bound(grid, (n - 1) as nat);
    }
}

/// Putting `content` on a square takes the weight of what stood there from the
/// material and adds its own.
pub proof fn lemma_material_put(grid: Grid, c: Coordinate, content: Option<Piece>)
    requires
        is_grid(grid),
        c.in_bounds(),
    ensures
        material(put(grid, c, content)) + weight(piece_at(grid, c), c.y as int) == material(grid)
            + weight(content, c.y as int),
        is_grid(put(grid, c, content)),
{
    lemma_material_below_put(grid, c, content, 64);
}

/// Two boards whose squares weigh the same hold the same material.
pub proof fn lemma_material_same(a: Grid, b: Grid)
    requires
        forall|s: Coordinate|
            s.in_bounds() ==> weight(#[trigger] piece_at(a, s), s.y as int) == weight(
                piece_at(b, s),
                s.y as int,
            ),
    ensures
        material(a) == material(b),
{
    lemma_material_below_same(a, b, 64);
}

/// No board holds more material than eight for each square.
pub proof fn lemma_material_bound(grid: Grid)
    ensures
        material(grid) <= 512,
{
    lemma_material_below_bound(grid, 64);
}

/// Setting a piece down on another square takes the weight of what stood there from
/// the material, and changes the weight of the piece by the ranks it has passed.
pub proof fn lemma_material_lifted(grid: Grid, from: Coordinate, to: Coordinate)
    requires
        is_grid(grid),
        from.in_bounds(),
        to.in_bounds(),
        from != to,
    ensures
        material(lifted(grid, from, to)) + weight(piece_at(grid, from), from.y as int) + weight(
            piece_at(grid, to),
            to.y as int,
        ) == material(grid) + weight(piece_at(grid, from), to.y as int),
        is_grid(lifted(grid, from, to)),
{
    lemma_material_put(grid, from, None);
    lemma_put(grid, from, None, to);
    lemma_material_put(put(grid, from, None), to, piece_at(grid, from));
}

impl Position {
    /// A bound on the half-moves that the game can still take.
    ///
    /// A hundred half-moves at most pass without a pawn move or a capture, and each of
    /// these lessens the material on the board: so a hundred and one half-moves for
    /// each unit of material, and what is left of the present hundred.
    pub open spec fn half_moves_left(self) -> int {
        101 * material(self.squares) + 100 - self.move_rule_counter
    }
}

/// No move adds to the material on the board, and a pawn move or a capture lessens
/// it.
pub proof fn lemma_material_after_move(
    pos: Position,
    from: Coordinate,
    to: Coordinate,
    promotion: Option<PromotionPiece>,
)
    requires
        is_grid(pos.squares),
        pos.rejection(from, to) is None,
    ensures
        material(pos.after_move(from, to, promotion).squares) <= material(pos.squares),
        resets_count(pos.move_kind(from, to)) ==> material(
            pos.after_move(from, to, promotion).squares,
        ) < material(pos.squares),
{
    lemma_accepted(pos, from, to);
    let start = pos.refreshed().squares;
    let kind = pos.move_kind(from, to);
    let piece = pos.mover(from);
    let turn = pos.turn_number;
    let mid = relocated(start, kind, piece, from, to, promotion, turn);
    lemma_kinds(start, piece, from, to);
    assert(material(start) == material(pos.squares)) by {
        assert forall|s: Coordinate| s.in_bounds() implies weight(
            #[trigger] piece_at(start, s),
            s.y as int,
        ) == weight(piece_at(pos.squares, s), s.y as int) by {
            assert(piece_at(start, s) == expire(piece_at(pos.squares, s), turn));
        }
        lemma_material_same(start, pos.squares);
    }
    assert(material(settled(mid, to)) == material(mid)) by {
        lemma_relocated(start, kind, piece, from, to, promotion, turn, to);
        assert forall|s: Coordinate| s.in_bounds() implies weight(
            #[trigger] piece_at(settled(mid, to), s),
            s.y as int,
        ) == weight(piece_at(mid, s), s.y as int) by {
            lemma_settled(mid, to, s);
        }
        lemma_material_same(settled(mid, to), mid);
    }
    let up = lifted(start, from, to);
    lemma_material_lifted(start, from, to);
    match kind {
        MoveType::CastleShort | MoveType::CastleLong => {
            let rank = to.y as int;
            let (corner, transit) = if kind == MoveType::CastleShort {
                (square(7, rank), square(5, rank))
            } else {
                (square(0, rank), square(3, rank))
            };
            lemma_lifted(start, from, to, corner);
            lemma_lifted(start, from, to, transit);
            lemma_material_put(up, corner, None);
            lemma_put(up, corner, None, transit);
            lemma_material_put(
                put(up, corner, None),
                transit,
                Some(Piece::Rook { color: piece.color(), has_moved: true }),
            );
            assert(crate::movement::strictly_between(from, corner, transit));
            assert(crate::movement::strictly_between(from, corner, to));
        },
        MoveType::DoublePawn => {
            let pawn = Some(
                Piece::Pawn { color: piece.color(), enpassantable_turn: Some((turn + 1) as u16) },
            );
            lemma_material_put(start, from, None);
            lemma_put(start, from, None, to);
            lemma_material_put(put(start, from, None), to, pawn);
        },
        MoveType::Capture(CaptureType::EnPassant) => {
            let taken = square(to.x as int, from.y as int);
            lemma_lifted(start, from, to, taken);
            lemma_material_put(up, taken, None);
        },
        MoveType::Promotion | MoveType::Capture(CaptureType::Promotion) => {
            let successor = match promotion {
                Some(choice) => Some(crate::piece::promoted(choice, piece.color())),
                None => None,
            };
            lemma_material_put(start, from, None);
            lemma_put(start, from, None, to);
            lemma_material_put(put(start, from, None), to, successor);
        },
        _ => {},
    }
}

/// Every move that is made lessens the bound on the half-moves that the game can
/// still take: a game comes to an end.
pub proof fn lemma_moves_run_out(
    pos: Position,
    from: Coordinate,
    to: Coordinate,
    promotion: Option<PromotionPiece>,
)
    requires
        pos.wf(),
        pos.rejection(from, to) is None,
    ensures
        pos.after_move(from, to, promotion).half_moves_left() < pos.half_moves_left(),
        pos.after_move(from, to, promotion).half_moves_left() >= 0,
        pos.half_moves_left() > 0,
{
    lemma_accepted(pos, from, to);
    lemma_material_after_move(pos, from, to, promotion);
}

} // verus!
