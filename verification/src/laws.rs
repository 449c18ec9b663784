//! What holds of every game played by the rules.
use vstd::prelude::*;
use crate::chess_board::{DrawType, GameStatus, MoveError};
use crate::coordinate::Coordinate;
use crate::movement::{
    attacks, can_castle, castle_king_file, castle_rook_file, castle_transit_file,
    en_passant_rank, forward, guards_castling, holds_color, home_rank, in_check, is_grid,
    is_king_of, king_step, last_rank, lifted, path_clear, pawn_rank, piece_at, piece_move,
    reaches, square, strictly_between, Grid,
};
use crate::piece::{opposite, promoted, CaptureType, CastleType, Color, MoveType, Piece, PromotionPiece};
use crate::material::lemma_moves_run_out;
use crate::position::{
    expire, lemma_lifted, lemma_occurrences_push, lemma_relocated, lemma_settled, mark_in_order,
    occurrences, relocated, resets_count, settled, Position,
};

verus! {

/// What the kind of a move says of the piece that makes it and of the squares it
/// joins.
///
/// Only a pawn makes a pawn's move, and only onto the squares that such a move
/// joins; only a king that has not moved castles, from its home square to the
/// square two files away, and only where `can_castle` allows it. Every other piece
/// moves quietly onto an empty square or takes an enemy piece.
pub proof fn lemma_kinds(grid: Grid, piece: Piece, from: Coordinate, to: Coordinate)
    requires
        from.in_bounds(),
        to.in_bounds(),
    ensures
        ({
            let kind = piece_move(grid, piece, from, to);
            let color = piece.color();
            &&& kind == MoveType::SinglePawn || kind == MoveType::DoublePawn || kind
                == MoveType::Promotion || kind == MoveType::Capture(CaptureType::EnPassant) || kind
                == MoveType::Capture(CaptureType::Promotion) ==> piece is Pawn
            &&& kind == MoveType::SinglePawn || kind == MoveType::DoublePawn || kind
                == MoveType::Promotion || kind == MoveType::Other ==> piece_at(grid, to) is None
            &&& kind == MoveType::Capture(CaptureType::Other) || kind == MoveType::Capture(
                CaptureType::Promotion,
            ) ==> piece_at(grid, to) is Some
            &&& kind == MoveType::Promotion || kind == MoveType::Capture(CaptureType::Promotion)
                ==> to.y == last_rank(color) && to.y == from.y + forward(color)
            &&& kind == MoveType::SinglePawn ==> to.x == from.x && to.y == from.y + forward(color)
                && to.y != last_rank(color)
            &&& kind == MoveType::DoublePawn ==> to.x == from.x && from.y == pawn_rank(color)
                && to.y == from.y + 2 * forward(color)
            &&& kind == MoveType::Capture(CaptureType::EnPassant) ==> {
                &&& piece_at(grid, to) is None
                &&& from.y == en_passant_rank(color)
                &&& to.y == from.y + forward(color)
                &&& (to.x == from.x + 1 || to.x == from.x - 1)
                &&& piece_at(grid, square(to.x as int, from.y as int)) matches Some(
                    Piece::Pawn { color: victim, enpassantable_turn: Some(_) },
                )
                &&& victim == opposite(color)
            }
            &&& kind == MoveType::CastleShort ==> {
                &&& piece == (Piece::King { color, has_moved: false })
                &&& from == square(4, home_rank(color))
                &&& to == square(6, home_rank(color))
                &&& can_castle(grid, color, CastleType::Short)
            }
            &&& kind == MoveType::CastleLong ==> {
                &&& piece == (Piece::King { color, has_moved: false })
                &&& from == square(4, home_rank(color))
                &&& to == square(2, home_rank(color))
                &&& can_castle(grid, color, CastleType::Long)
            }
        }),
{
}

/// The turn passes with every move that is made: the side to move afterwards is the
/// other side, and so never the side that moved.
pub proof fn lemma_turn_alternates(
    pos: Position,
    from: Coordinate,
    to: Coordinate,
    promotion: Option<PromotionPiece>,
)
    ensures
        pos.after_move(from, to, promotion).side_to_move == opposite(pos.side_to_move),
        pos.after_move(from, to, promotion).side_to_move != pos.side_to_move,
        pos.after_move(from, to, promotion).turn_number == pos.turn_number + 1,
{
}

/// What it is for a move to be made.
///
/// The game goes on; the two squares differ and lie on the board; the piece on
/// `from` is of the side to move; it does not go onto a piece of its own side;
/// setting it down on `to` does not leave its own king in check; and the rules of
/// its kind allow the move and give it its kind. All of this is judged once the
/// stale en-passant marks have lapsed.
pub proof fn lemma_accepted(pos: Position, from: Coordinate, to: Coordinate)
    requires
        pos.rejection(from, to) is None,
    ensures
        pos.game_status == GameStatus::Ongoing,
        from != to,
        from.in_bounds(),
        to.in_bounds(),
        piece_at(pos.refreshed().squares, from) == Some(pos.mover(from)),
        piece_at(pos.refreshed().squares, from) == expire(piece_at(pos.squares, from), pos.turn_number),
        pos.mover(from).color() == pos.side_to_move,
        !holds_color(pos.refreshed().squares, to, pos.side_to_move),
        !pos.refreshed().exposes_king(pos.side_to_move, from, to),
        pos.move_kind(from, to) != MoveType::Illegal,
        pos.move_kind(from, to) == piece_move(pos.refreshed().squares, pos.mover(from), from, to),
{
}

/// The state of a game after a move is what the position reached is judged to be:
/// the state that the position had before is not consulted.
pub proof fn lemma_status_is_judged(
    pos: Position,
    from: Coordinate,
    to: Coordinate,
    promotion: Option<PromotionPiece>,
)
    ensures
        pos.after_move(from, to, promotion).game_status == pos.after_move(
            from,
            to,
            promotion,
        ).evaluate(),
{
    let after = pos.after_move(from, to, promotion);
    let moved = Position { game_status: pos.game_status, ..after };
    assert(after.game_status == moved.evaluate());
    assert forall|f: Coordinate, t: Coordinate| #[trigger] after.is_legal(f, t) == moved.is_legal(f, t) by {}
    assert(after.has_legal_move() == moved.has_legal_move()) by {
        if after.has_legal_move() {
            let (f, t) = choose|f: Coordinate, t: Coordinate|
                f.in_bounds() && t.in_bounds() && #[trigger] after.is_legal(f, t);
            assert(moved.is_legal(f, t));
        }
        if moved.has_legal_move() {
            let (f, t) = choose|f: Coordinate, t: Coordinate|
                f.in_bounds() && t.in_bounds() && #[trigger] moved.is_legal(f, t);
            assert(after.is_legal(f, t));
        }
    }
}

/// The count of half-moves starts again exactly when a pawn moves or a piece is
/// taken, and goes up by one with every other move.
pub proof fn lemma_count_of_quiet_moves(
    pos: Position,
    from: Coordinate,
    to: Coordinate,
    promotion: Option<PromotionPiece>,
)
    requires
        pos.wf(),
        pos.rejection(from, to) is None,
    ensures
        resets_count(pos.move_kind(from, to)) <==> pos.mover(from) is Pawn || piece_at(
            pos.squares,
            to,
        ) is Some,
        pos.after_move(from, to, promotion).move_rule_counter == if pos.mover(from) is Pawn
            || piece_at(pos.squares, to) is Some {
            0
        } else {
            pos.move_rule_counter + 1
        },
{
    lemma_accepted(pos, from, to);
    lemma_kinds(pos.refreshed().squares, pos.mover(from), from, to);
    assert(piece_at(pos.refreshed().squares, to) == expire(piece_at(pos.squares, to), pos.turn_number));
}

/// The hundredth half-move in a row without a pawn move or a capture ends the game:
/// in a draw by the fifty-move rule wherever the side to move still has a legal
/// move, and by mate or stalemate where it has none.
pub proof fn lemma_hundredth_quiet_move_draws(
    pos: Position,
    from: Coordinate,
    to: Coordinate,
    promotion: Option<PromotionPiece>,
)
    requires
        pos.wf(),
        pos.rejection(from, to) is None,
        pos.move_rule_counter == 99,
        !(pos.mover(from) is Pawn),
        piece_at(pos.squares, to) is None,
    ensures
        pos.after_move(from, to, promotion).move_rule_counter == 100,
        pos.after_move(from, to, promotion).game_status != GameStatus::Ongoing,
        pos.after_move(from, to, promotion).has_legal_move() ==> pos.after_move(
            from,
            to,
            promotion,
        ).game_status == GameStatus::Draw(DrawType::MoveRule),
{
    lemma_count_of_quiet_moves(pos, from, to, promotion);
    lemma_status_is_judged(pos, from, to, promotion);
}

/// A position that has occurred twice before and occurs again is a draw by
/// repetition, where the side to move has a legal move and the fifty-move rule has
/// not ended the game.
pub proof fn lemma_third_occurrence_draws(pos: Position)
    requires
        pos.has_legal_move(),
        pos.move_rule_counter < 100,
        occurrences(pos.history, pos.snapshot()) >= 2,
    ensures
        pos.evaluate() == GameStatus::Draw(DrawType::Repetition),
{
    let all = pos.history.push(pos.snapshot());
    lemma_occurrences_push(pos.history, pos.snapshot(), pos.snapshot());
    assert(all[pos.history.len() as int] == pos.snapshot());
}

/// A pawn that reaches the last rank leaves its square and, where a piece was
/// chosen, that piece of the mover's side stands on the square it went to; a rook
/// that it became counts as moved. Where none was chosen, the square is left empty.
pub proof fn lemma_promotion_places_choice(
    pos: Position,
    from: Coordinate,
    to: Coordinate,
    promotion: Option<PromotionPiece>,
)
    requires
        pos.wf(),
        pos.rejection(from, to) is None,
        pos.move_kind(from, to) == MoveType::Promotion || pos.move_kind(from, to)
            == MoveType::Capture(CaptureType::Promotion),
    ensures
        pos.mover(from) is Pawn,
        to.y == last_rank(pos.side_to_move),
        piece_at(pos.after_move(from, to, promotion).squares, from) is None,
        piece_at(pos.after_move(from, to, promotion).squares, to) == match promotion {
            Some(choice) => Some(promoted(choice, pos.side_to_move)),
            None => None,
        },
        promoted(PromotionPiece::Rook, pos.side_to_move) == (Piece::Rook {
            color: pos.side_to_move,
            has_moved: true,
        }),
{
    lemma_accepted(pos, from, to);
    let start = pos.refreshed();
    let kind = pos.move_kind(from, to);
    let piece = pos.mover(from);
    lemma_kinds(start.squares, piece, from, to);
    let mid = relocated(start.squares, kind, piece, from, to, promotion, pos.turn_number);
    lemma_relocated(start.squares, kind, piece, from, to, promotion, pos.turn_number, to);
    lemma_relocated(start.squares, kind, piece, from, to, promotion, pos.turn_number, from);
    lemma_settled(mid, to, to);
    lemma_settled(mid, to, from);
}

/// A pawn that advances two squares is marked as open to en passant for the turn
/// that follows, and for no other.
pub proof fn lemma_double_push_marks_next_turn(
    pos: Position,
    from: Coordinate,
    to: Coordinate,
    promotion: Option<PromotionPiece>,
)
    requires
        pos.wf(),
        pos.rejection(from, to) is None,
        pos.move_kind(from, to) == MoveType::DoublePawn,
    ensures
        piece_at(pos.after_move(from, to, promotion).squares, to) == Some(
            Piece::Pawn {
                color: pos.side_to_move,
                enpassantable_turn: Some((pos.turn_number + 1) as u16),
            },
        ),
        pos.after_move(from, to, promotion).turn_number == pos.turn_number + 1,
{
    lemma_accepted(pos, from, to);
    let start = pos.refreshed();
    let kind = pos.move_kind(from, to);
    let piece = pos.mover(from);
    let mid = relocated(start.squares, kind, piece, from, to, promotion, pos.turn_number);
    lemma_relocated(start.squares, kind, piece, from, to, promotion, pos.turn_number, to);
    lemma_settled(mid, to, to);
}

/// A pawn is taken en passant only in the turn that it is marked for, which is the
/// turn after its double advance: the pawn taken stands beside the square the taker
/// leaves, on the file of the empty square it goes to, and is an enemy pawn marked
/// for this very turn. The move takes it off the board and sets the taker down on
/// the square behind it.
pub proof fn lemma_en_passant_window(
    pos: Position,
    from: Coordinate,
    to: Coordinate,
    promotion: Option<PromotionPiece>,
)
    requires
        pos.wf(),
        pos.rejection(from, to) is None,
        pos.move_kind(from, to) == MoveType::Capture(CaptureType::EnPassant),
    ensures
        pos.mover(from) is Pawn,
        piece_at(pos.squares, to) is None,
        piece_at(pos.squares, square(to.x as int, from.y as int)) == Some(
            Piece::Pawn {
                color: opposite(pos.side_to_move),
                enpassantable_turn: Some(pos.turn_number as u16),
            },
        ),
        pos.turn_number <= u16::MAX,
        piece_at(pos.after_move(from, to, promotion).squares, square(to.x as int, from.y as int))
            is None,
        piece_at(pos.after_move(from, to, promotion).squares, from) is None,
        piece_at(pos.after_move(from, to, promotion).squares, to) == Some(pos.mover(from)),
{
    lemma_accepted(pos, from, to);
    let start = pos.refreshed();
    let kind = pos.move_kind(from, to);
    let piece = pos.mover(from);
    let taken = square(to.x as int, from.y as int);
    lemma_kinds(start.squares, piece, from, to);
    assert(piece_at(start.squares, taken) == expire(piece_at(pos.squares, taken), pos.turn_number));
    assert(piece_at(start.squares, to) == expire(piece_at(pos.squares, to), pos.turn_number));
    let mid = relocated(start.squares, kind, piece, from, to, promotion, pos.turn_number);
    lemma_relocated(start.squares, kind, piece, from, to, promotion, pos.turn_number, to);
    lemma_relocated(start.squares, kind, piece, from, to, promotion, pos.turn_number, from);
    lemma_relocated(start.squares, kind, piece, from, to, promotion, pos.turn_number, taken);
    lemma_lifted(start.squares, from, to, to);
    lemma_lifted(start.squares, from, to, from);
    lemma_settled(mid, to, to);
    lemma_settled(mid, to, from);
    lemma_settled(mid, to, taken);
}

/// The en-passant marks that stand on the board after a move made in turn `t` are
/// the mark for turn `t + 1` on the pawn that has just advanced two squares, and
/// marks for turn `t` that stood before. The latter lapse when the next move is
/// judged, so a pawn is open to en passant for one turn and no longer.
pub proof fn lemma_marks_last_one_turn(
    pos: Position,
    from: Coordinate,
    to: Coordinate,
    promotion: Option<PromotionPiece>,
    s: Coordinate,
)
    requires
        pos.wf(),
        pos.rejection(from, to) is None,
        s.in_bounds(),
    ensures
        piece_at(pos.after_move(from, to, promotion).squares, s) matches Some(
            Piece::Pawn { enpassantable_turn: Some(mark), .. },
        ) ==> mark == pos.turn_number || (mark == (pos.turn_number + 1) as u16 && s == to
            && pos.move_kind(from, to) == MoveType::DoublePawn),
        piece_at(pos.after_move(from, to, promotion).refreshed().squares, s) matches Some(
            Piece::Pawn { enpassantable_turn: Some(mark), .. },
        ) ==> mark == pos.turn_number + 1 && s == to && pos.move_kind(from, to)
            == MoveType::DoublePawn,
{
    lemma_accepted(pos, from, to);
    let start = pos.refreshed();
    let kind = pos.move_kind(from, to);
    let piece = pos.mover(from);
    let after = pos.after_move(from, to, promotion);
    let mid = relocated(start.squares, kind, piece, from, to, promotion, pos.turn_number);
    lemma_kinds(start.squares, piece, from, to);
    assert(piece_at(start.squares, s) == expire(piece_at(pos.squares, s), pos.turn_number));
    lemma_relocated(start.squares, kind, piece, from, to, promotion, pos.turn_number, s);
    lemma_lifted(start.squares, from, to, s);
    lemma_settled(mid, to, s);
    assert(piece_at(after.refreshed().squares, s) == expire(
        piece_at(after.squares, s),
        after.turn_number,
    ));
}

/// A pawn on its en-passant rank takes the enemy pawn beside it that is marked for
/// this turn, by stepping diagonally forward onto the empty square behind it, unless
/// that leaves its own king in check.
pub proof fn lemma_en_passant_is_open(pos: Position, from: Coordinate, to: Coordinate)
    requires
        pos.wf(),
        pos.game_status == GameStatus::Ongoing,
        from.in_bounds(),
        to.in_bounds(),
        piece_at(pos.squares, from) matches Some(Piece::Pawn { color, .. }) && color
            == pos.side_to_move,
        from.y == en_passant_rank(pos.side_to_move),
        to.y == from.y + forward(pos.side_to_move),
        to.x == from.x + 1 || to.x == from.x - 1,
        piece_at(pos.squares, to) is None,
        piece_at(pos.squares, square(to.x as int, from.y as int)) matches Some(
            Piece::Pawn { color, enpassantable_turn: Some(mark) },
        ) && color == opposite(pos.side_to_move) && mark == pos.turn_number,
        !pos.refreshed().exposes_king(pos.side_to_move, from, to),
    ensures
        pos.rejection(from, to) is None,
        pos.move_kind(from, to) == MoveType::Capture(CaptureType::EnPassant),
{
    let start = pos.refreshed();
    let taken = square(to.x as int, from.y as int);
    assert(piece_at(start.squares, from) == expire(piece_at(pos.squares, from), pos.turn_number));
    assert(piece_at(start.squares, to) == expire(piece_at(pos.squares, to), pos.turn_number));
    assert(piece_at(start.squares, taken) == expire(piece_at(pos.squares, taken), pos.turn_number));
}

/// A game that has ended takes no more moves.
pub proof fn lemma_ended_game_takes_no_move(pos: Position, from: Coordinate, to: Coordinate)
    requires
        pos.game_status != GameStatus::Ongoing,
    ensures
        pos.rejection(from, to) == Some(MoveError::GameHasEnded),
{
}

/// Whether `color` still has the right to castle on `side`: its king stands unmoved
/// on its home square and the rook of that side stands unmoved in its corner.
pub open spec fn has_castling_right(grid: Grid, color: Color, side: CastleType) -> bool {
    &&& piece_at(grid, square(4, home_rank(color))) == Some(Piece::King { color, has_moved: false })
    &&& piece_at(grid, square(castle_rook_file(side), home_rank(color))) == Some(
        Piece::Rook { color, has_moved: false },
    )
}

/// Only a side that has the right to castle castles, and its king then goes from
/// its home square to the square two files towards the rook.
pub proof fn lemma_castling_needs_right(pos: Position, from: Coordinate, to: Coordinate, side: CastleType)
    requires
        pos.wf(),
        pos.rejection(from, to) is None,
        pos.move_kind(from, to) == match side {
            CastleType::Short => MoveType::CastleShort,
            CastleType::Long => MoveType::CastleLong,
        },
    ensures
        has_castling_right(pos.squares, pos.side_to_move, side),
        from == square(4, home_rank(pos.side_to_move)),
        to == square(castle_king_file(side), home_rank(pos.side_to_move)),
{
    lemma_accepted(pos, from, to);
    let start = pos.refreshed();
    lemma_kinds(start.squares, pos.mover(from), from, to);
    let corner = square(castle_rook_file(side), home_rank(pos.side_to_move));
    assert(piece_at(start.squares, corner) == expire(piece_at(pos.squares, corner), pos.turn_number));
}

/// A king or rook that has moved is marked so for good: whatever move is made, a
/// right to castle that a side has afterwards is one that it had before. A right
/// that was lost, by a move of the king or the rook or by the rook being taken, does
/// not come back, wherever the pieces stand later.
pub proof fn lemma_castling_right_never_returns(
    pos: Position,
    from: Coordinate,
    to: Coordinate,
    promotion: Option<PromotionPiece>,
    color: Color,
    side: CastleType,
)
    requires
        pos.wf(),
        pos.rejection(from, to) is None,
        has_castling_right(pos.after_move(from, to, promotion).squares, color, side),
    ensures
        has_castling_right(pos.squares, color, side),
        from != square(4, home_rank(color)),
        from != square(castle_rook_file(side), home_rank(color)),
        to != square(4, home_rank(color)),
        to != square(castle_rook_file(side), home_rank(color)),
{
    lemma_accepted(pos, from, to);
    let start = pos.refreshed();
    let kind = pos.move_kind(from, to);
    let piece = pos.mover(from);
    let home = square(4, home_rank(color));
    let corner = square(castle_rook_file(side), home_rank(color));
    let mid = relocated(start.squares, kind, piece, from, to, promotion, pos.turn_number);
    assert(piece_at(start.squares, home) == expire(piece_at(pos.squares, home), pos.turn_number));
    assert(piece_at(start.squares, corner) == expire(piece_at(pos.squares, corner), pos.turn_number));
    lemma_relocated(start.squares, kind, piece, from, to, promotion, pos.turn_number, home);
    lemma_relocated(start.squares, kind, piece, from, to, promotion, pos.turn_number, corner);
    lemma_relocated(start.squares, kind, piece, from, to, promotion, pos.turn_number, to);
    lemma_lifted(start.squares, from, to, home);
    lemma_lifted(start.squares, from, to, corner);
    lemma_lifted(start.squares, from, to, to);
    lemma_settled(mid, to, home);
    lemma_settled(mid, to, corner);
}

/// An attack on an occupied square depends only on the attacker and on which squares
/// between the two are empty.
///
/// Let an enemy of `color` on `s` attack the square `k` on the board `f`, and let `g`
/// be a board with the same piece on `s`, a piece of `color` on `k` as on `f`, and
/// every square between `s` and `k` empty that is empty on `f`. Then the piece
/// attacks `k` on `g` too.
pub proof fn lemma_attack_carries_over(f: Grid, g: Grid, s: Coordinate, k: Coordinate, color: Color)
    requires
        is_grid(f),
        is_grid(g),
        s.in_bounds(),
        k.in_bounds(),
        piece_at(f, s) == piece_at(g, s),
        holds_color(f, k, color),
        holds_color(g, k, color),
        forall|q: Coordinate|
            q.in_bounds() && strictly_between(s, k, q) && piece_at(f, q) is None ==> (
            #[trigger] piece_at(g, q)) is None,
        attacks(f, s, k, color),
    ensures
        attacks(g, s, k, color),
{
    let piece = piece_at(f, s)->0;
    assert(path_clear(f, s, k) ==> path_clear(g, s, k));
    match piece {
        Piece::King { color: c, has_moved } => {
            let rank = home_rank(c);
            assert(strictly_between(square(4, rank), square(7, rank), square(6, rank)));
            assert(strictly_between(square(4, rank), square(0, rank), square(2, rank)));
            assert(king_step(f, s, k, c) != MoveType::Illegal);
        },
        _ => {},
    }
}

/// How the board after a move differs from the board on which the move was tried,
/// where only the moving piece was set down: for a move that is not en passant and
/// that, where it promotes, names a piece.
///
/// On both boards the square moved to holds a piece of the mover's side. On every
/// other square the two boards hold the same, but that castling has taken the rook
/// from its corner to the king's other side.
pub proof fn lemma_after_move_against_trial(
    pos: Position,
    from: Coordinate,
    to: Coordinate,
    promotion: Option<PromotionPiece>,
    q: Coordinate,
)
    requires
        pos.wf(),
        pos.rejection(from, to) is None,
        pos.move_kind(from, to) != MoveType::Capture(CaptureType::EnPassant),
        pos.move_kind(from, to) == MoveType::Promotion || pos.move_kind(from, to)
            == MoveType::Capture(CaptureType::Promotion) ==> promotion is Some,
        q.in_bounds(),
    ensures
        ({
            let color = pos.side_to_move;
            let rank = home_rank(color);
            let kind = pos.move_kind(from, to);
            let after = pos.after_move(from, to, promotion).squares;
            let trial = lifted(pos.refreshed().squares, from, to);
            &&& is_grid(after)
            &&& is_grid(trial)
            &&& holds_color(after, to, color)
            &&& holds_color(trial, to, color)
            &&& piece_at(trial, from) is None
            &&& piece_at(after, from) is None
            &&& kind == MoveType::CastleShort ==> {
                &&& to == square(6, rank)
                &&& from == square(4, rank)
                &&& holds_color(after, square(5, rank), color)
                &&& piece_at(after, square(7, rank)) is None
                &&& q != to && q != square(5, rank) && q != square(7, rank) ==> piece_at(after, q)
                    == piece_at(trial, q)
            }
            &&& kind == MoveType::CastleLong ==> {
                &&& to == square(2, rank)
                &&& from == square(4, rank)
                &&& holds_color(after, square(3, rank), color)
                &&& piece_at(after, square(0, rank)) is None
                &&& q != to && q != square(3, rank) && q != square(0, rank) ==> piece_at(after, q)
                    == piece_at(trial, q)
            }
            &&& kind != MoveType::CastleShort && kind != MoveType::CastleLong && q != to
                ==> piece_at(after, q) == piece_at(trial, q)
        }),
{
    lemma_accepted(pos, from, to);
    let color = pos.side_to_move;
    let rank = home_rank(color);
    let start = pos.refreshed();
    let kind = pos.move_kind(from, to);
    let piece = pos.mover(from);
    let mid = relocated(start.squares, kind, piece, from, to, promotion, pos.turn_number);
    lemma_kinds(start.squares, piece, from, to);
    lemma_relocated(start.squares, kind, piece, from, to, promotion, pos.turn_number, q);
    lemma_relocated(start.squares, kind, piece, from, to, promotion, pos.turn_number, to);
    lemma_relocated(start.squares, kind, piece, from, to, promotion, pos.turn_number, from);
    lemma_lifted(start.squares, from, to, q);
    lemma_lifted(start.squares, from, to, to);
    lemma_lifted(start.squares, from, to, from);
    lemma_settled(mid, to, q);
    lemma_settled(mid, to, to);
    lemma_settled(mid, to, from);
    if kind == MoveType::CastleShort {
        lemma_relocated(start.squares, kind, piece, from, to, promotion, pos.turn_number, square(5, rank));
        lemma_relocated(start.squares, kind, piece, from, to, promotion, pos.turn_number, square(7, rank));
        lemma_settled(mid, to, square(5, rank));
        lemma_settled(mid, to, square(7, rank));
    }
    if kind == MoveType::CastleLong {
        lemma_relocated(start.squares, kind, piece, from, to, promotion, pos.turn_number, square(3, rank));
        lemma_relocated(start.squares, kind, piece, from, to, promotion, pos.turn_number, square(0, rank));
        lemma_settled(mid, to, square(3, rank));
        lemma_settled(mid, to, square(0, rank));
    }
}

/// No move that is made leaves the mover's own king in check, for a side whose king
/// stands where it is looked for, a move that is not en passant and a promotion
/// that names a piece.
///
/// The two moves left out are judged, as every move is, on a board on which only the
/// moving piece was set down; the pawn that en passant takes off and the pawn that
/// leaves the board without a successor still stand on that board.
pub proof fn lemma_own_king_stays_safe(
    pos: Position,
    from: Coordinate,
    to: Coordinate,
    promotion: Option<PromotionPiece>,
)
    requires
        pos.wf(),
        pos.rejection(from, to) is None,
        pos.has_king(pos.side_to_move),
        pos.move_kind(from, to) != MoveType::Capture(CaptureType::EnPassant),
        pos.move_kind(from, to) == MoveType::Promotion || pos.move_kind(from, to)
            == MoveType::Capture(CaptureType::Promotion) ==> promotion is Some,
    ensures
        !pos.after_move(from, to, promotion).is_in_check(pos.side_to_move),
        pos.after_move(from, to, promotion).has_king(pos.side_to_move),
{
    lemma_accepted(pos, from, to);
    let color = pos.side_to_move;
    let rank = home_rank(color);
    let start = pos.refreshed();
    let kind = pos.move_kind(from, to);
    let piece = pos.mover(from);
    let after = pos.after_move(from, to, promotion);
    let trial = lifted(start.squares, from, to);
    let king = start.king_square_after(color, from, to);
    lemma_kinds(start.squares, piece, from, to);
    assert(after.king_square(color) == king);
    assert(!in_check(trial, king, color));
    let seat = pos.king_square(color);
    assert(piece_at(start.squares, seat) == expire(piece_at(pos.squares, seat), pos.turn_number));
    lemma_after_move_against_trial(pos, from, to, promotion, king);
    assert(king != to ==> king == seat && !is_king_of(Some(piece), color));
    assert(holds_color(after.squares, king, color));
    assert(holds_color(trial, king, color));
    assert(is_king_of(piece_at(after.squares, king), color)) by {
        let mid = relocated(start.squares, kind, piece, from, to, promotion, pos.turn_number);
        lemma_relocated(start.squares, kind, piece, from, to, promotion, pos.turn_number, king);
        lemma_lifted(start.squares, from, to, king);
        lemma_settled(mid, to, king);
    }
    assert forall|s: Coordinate| s.in_bounds() implies !#[trigger] attacks(
        after.squares,
        s,
        king,
        color,
    ) by {
        if attacks(after.squares, s, king, color) {
            lemma_after_move_against_trial(pos, from, to, promotion, s);
            assert forall|q: Coordinate|
                q.in_bounds() && strictly_between(s, king, q) && piece_at(after.squares, q) is None implies (
            #[trigger] piece_at(trial, q)) is None by {
                lemma_after_move_against_trial(pos, from, to, promotion, q);
            }
            lemma_attack_carries_over(after.squares, trial, s, king, color);
            assert(in_check(trial, king, color));
        }
    }
}

/// A king that stands on `s` after a move is the king that moved, on the square it
/// went to, or a king that stood on `s` before and did not move.
pub proof fn lemma_kings_after_relocation(
    grid: Grid,
    kind: MoveType,
    piece: Piece,
    from: Coordinate,
    to: Coordinate,
    promotion: Option<PromotionPiece>,
    turn: nat,
    s: Coordinate,
    color: Color,
)
    requires
        is_grid(grid),
        from.in_bounds(),
        to.in_bounds(),
        s.in_bounds(),
        from != to,
        piece_at(grid, from) == Some(piece),
        is_king_of(
            piece_at(settled(relocated(grid, kind, piece, from, to, promotion, turn), to), s),
            color,
        ),
    ensures
        (s == to && is_king_of(Some(piece), color)) || (s != from && s != to && is_king_of(
            piece_at(grid, s),
            color,
        )),
{
    let mid = relocated(grid, kind, piece, from, to, promotion, turn);
    lemma_relocated(grid, kind, piece, from, to, promotion, turn, s);
    lemma_relocated(grid, kind, piece, from, to, promotion, turn, to);
    lemma_settled(mid, to, s);
    lemma_lifted(grid, from, to, s);
    lemma_lifted(grid, from, to, to);
}

/// A move that is made leaves a position that the rules can work on: no king stands
/// off the square where it is looked for, the only pawn marked for the turn to come
/// is one that has just advanced two squares, a game that goes on has not reached
/// its hundredth quiet half-move, and the count of turns still has room for the
/// half-moves that can follow.
pub proof fn lemma_moves_keep_wf(
    pos: Position,
    from: Coordinate,
    to: Coordinate,
    promotion: Option<PromotionPiece>,
)
    requires
        pos.wf(),
        pos.rejection(from, to) is None,
    ensures
        pos.after_move(from, to, promotion).wf(),
{
    let start = pos.refreshed();
    let piece = pos.mover(from);
    let kind = pos.move_kind(from, to);
    let after = pos.after_move(from, to, promotion);
    let mid = relocated(start.squares, kind, piece, from, to, promotion, pos.turn_number);
    assert(is_grid(start.squares));
    lemma_relocated(start.squares, kind, piece, from, to, promotion, pos.turn_number, to);
    lemma_settled(mid, to, to);
    assert(after.squares == settled(mid, to));
    assert(piece_at(start.squares, from) == Some(piece));
    assert(piece_at(start.squares, from) == expire(piece_at(pos.squares, from), pos.turn_number));
    assert forall|s: Coordinate| s.in_bounds() implies (#[trigger] piece_at(after.squares, s) matches Some(
        Piece::King { color, .. },
    ) ==> s == after.king_square(color)) by {
        if let Some(Piece::King { color, .. }) = piece_at(after.squares, s) {
            lemma_kings_after_relocation(
                start.squares,
                kind,
                piece,
                from,
                to,
                promotion,
                pos.turn_number,
                s,
                color,
            );
            assert(piece_at(start.squares, s) == expire(piece_at(pos.squares, s), pos.turn_number));
        }
    }
    lemma_moves_run_out(pos, from, to, promotion);
    lemma_accepted(pos, from, to);
    lemma_kinds(start.squares, piece, from, to);
    assert forall|s: Coordinate| s.in_bounds() implies mark_in_order(
        #[trigger] piece_at(after.squares, s),
        after.side_to_move,
        after.turn_number,
    ) by {
        assert(piece_at(start.squares, s) == expire(piece_at(pos.squares, s), pos.turn_number));
        assert(mark_in_order(piece_at(pos.squares, s), pos.side_to_move, pos.turn_number));
        assert(mark_in_order(piece_at(pos.squares, from), pos.side_to_move, pos.turn_number));
        lemma_relocated(start.squares, kind, piece, from, to, promotion, pos.turn_number, s);
        lemma_lifted(start.squares, from, to, s);
        lemma_settled(mid, to, s);
    }
}

/// Whether `content` is a pawn of `color`.
pub open spec fn is_pawn_of(content: Option<Piece>, color: Color) -> bool {
    content matches Some(Piece::Pawn { color: c, .. }) && c == color
}

/// Whether two contents of a square are the same, or are both pawns of `color`, which
/// then differ by their marks at most.
pub open spec fn same_but_for_mark(a: Option<Piece>, b: Option<Piece>, color: Color) -> bool {
    a == b || (is_pawn_of(a, color) && is_pawn_of(b, color))
}

/// Whether two boards hold the same on every square, but for the marks on the pawns of
/// `color`.
pub open spec fn alike_but_for_marks(a: Grid, b: Grid, color: Color) -> bool {
    forall|s: Coordinate|
        s.in_bounds() ==> same_but_for_mark(#[trigger] piece_at(a, s), piece_at(b, s), color)
}

/// Whether an enemy piece reaches a square of the home rank of `color` does not
/// depend on the marks on the pawns of `color`: a pawn that takes en passant never
/// lands on a home rank.
pub proof fn lemma_reach_of_home_rank(a: Grid, b: Grid, color: Color, s: Coordinate, target: Coordinate)
    requires
        is_grid(a),
        is_grid(b),
        alike_but_for_marks(a, b, color),
        s.in_bounds(),
        target.in_bounds(),
        target.y == home_rank(color),
        holds_color(a, s, opposite(color)),
    ensures
        reaches(a, s, target) == reaches(b, s, target),
{
    assert(same_but_for_mark(piece_at(a, s), piece_at(b, s), color));
    assert(same_but_for_mark(piece_at(a, target), piece_at(b, target), color));
    assert(path_clear(a, s, target) == path_clear(b, s, target)) by {
        lemma_path_of_alike(a, b, color, s, target);
    }
    let piece = piece_at(a, s)->0;
    if piece is Pawn {
        let ahead = square(s.x as int, s.y + forward(piece.color()));
        if ahead.in_bounds() {
            assert(same_but_for_mark(piece_at(a, ahead), piece_at(b, ahead), color));
        }
    }
}

/// Whether a path is clear does not depend on the marks on pawns.
pub proof fn lemma_path_of_alike(a: Grid, b: Grid, color: Color, from: Coordinate, to: Coordinate)
    requires
        alike_but_for_marks(a, b, color),
    ensures
        path_clear(a, from, to) == path_clear(b, from, to),
{
    if path_clear(a, from, to) {
        assert forall|s: Coordinate| s.in_bounds() && strictly_between(from, to, s) implies (
        #[trigger] piece_at(b, s)) is None by {
            assert(same_but_for_mark(piece_at(a, s), piece_at(b, s), color));
        }
    }
    if path_clear(b, from, to) {
        assert forall|s: Coordinate| s.in_bounds() && strictly_between(from, to, s) implies (
        #[trigger] piece_at(a, s)) is None by {
            assert(same_but_for_mark(piece_at(a, s), piece_at(b, s), color));
        }
    }
}

/// Whether `color` may castle does not depend on the marks on its pawns.
pub proof fn lemma_castling_of_alike(a: Grid, b: Grid, color: Color, side: CastleType)
    requires
        is_grid(a),
        is_grid(b),
        alike_but_for_marks(a, b, color),
    ensures
        can_castle(a, color, side) == can_castle(b, color, side),
{
    let rank = home_rank(color);
    let home = square(4, rank);
    let corner = square(castle_rook_file(side), rank);
    let transit = square(castle_transit_file(side), rank);
    let landing = square(castle_king_file(side), rank);
    assert(same_but_for_mark(piece_at(a, corner), piece_at(b, corner), color));
    lemma_path_of_alike(a, b, color, home, corner);
    assert forall|s: Coordinate| s.in_bounds() implies (holds_color(a, s, opposite(color))
        == holds_color(b, s, opposite(color))) && (holds_color(a, s, opposite(color))
        ==> #[trigger] guards_castling(a, s, color, side) == guards_castling(b, s, color, side)) by {
        assert(same_but_for_mark(piece_at(a, s), piece_at(b, s), color));
        if holds_color(a, s, opposite(color)) {
            lemma_reach_of_home_rank(a, b, color, s, home);
            lemma_reach_of_home_rank(a, b, color, s, transit);
            lemma_reach_of_home_rank(a, b, color, s, landing);
        }
    }
    if can_castle(a, color, side) {
        assert forall|s: Coordinate|
            s.in_bounds() && holds_color(b, s, opposite(color)) implies !#[trigger] guards_castling(
            b,
            s,
            color,
            side,
        ) by {
            assert(!guards_castling(a, s, color, side));
        }
    }
    if can_castle(b, color, side) {
        assert forall|s: Coordinate|
            s.in_bounds() && holds_color(a, s, opposite(color)) implies !#[trigger] guards_castling(
            a,
            s,
            color,
            side,
        ) by {
            assert(!guards_castling(b, s, color, side));
        }
    }
}

/// What the rules of its kind make of the move of a piece of `color` does not depend
/// on the marks on the pawns of `color`.
pub proof fn lemma_move_of_alike(
    a: Grid,
    b: Grid,
    piece: Piece,
    other: Piece,
    from: Coordinate,
    to: Coordinate,
)
    requires
        is_grid(a),
        is_grid(b),
        alike_but_for_marks(a, b, piece.color()),
        same_but_for_mark(Some(piece), Some(other), piece.color()),
        from.in_bounds(),
        to.in_bounds(),
    ensures
        piece_move(a, piece, from, to) == piece_move(b, other, from, to),
        holds_color(a, to, piece.color()) == holds_color(b, to, piece.color()),
{
    let color = piece.color();
    assert(same_but_for_mark(piece_at(a, to), piece_at(b, to), color));
    lemma_path_of_alike(a, b, color, from, to);
    match piece {
        Piece::Pawn { .. } => {
            let beside = square(to.x as int, from.y as int);
            assert(same_but_for_mark(piece_at(a, beside), piece_at(b, beside), color));
            let ahead = square(from.x as int, from.y + forward(color));
            if ahead.in_bounds() {
                assert(same_but_for_mark(piece_at(a, ahead), piece_at(b, ahead), color));
            }
        },
        Piece::King { .. } => {
            lemma_castling_of_alike(a, b, color, CastleType::Short);
            lemma_castling_of_alike(a, b, color, CastleType::Long);
        },
        _ => {},
    }
}

/// Whether the king of `color`, standing on an occupied square, is in check does
/// not depend on the marks on the pawns of `color`.
pub proof fn lemma_check_of_alike(a: Grid, b: Grid, king: Coordinate, color: Color)
    requires
        is_grid(a),
        is_grid(b),
        alike_but_for_marks(a, b, color),
        king.in_bounds(),
        holds_color(a, king, color),
    ensures
        in_check(a, king, color) == in_check(b, king, color),
{
    assert(same_but_for_mark(piece_at(a, king), piece_at(b, king), color));
    if in_check(a, king, color) {
        let s = choose|s: Coordinate| s.in_bounds() && #[trigger] attacks(a, s, king, color);
        assert(same_but_for_mark(piece_at(a, s), piece_at(b, s), color));
        assert forall|q: Coordinate|
            q.in_bounds() && strictly_between(s, king, q) && piece_at(a, q) is None implies (
        #[trigger] piece_at(b, q)) is None by {
            assert(same_but_for_mark(piece_at(a, q), piece_at(b, q), color));
        }
        lemma_attack_carries_over(a, b, s, king, color);
    }
    if in_check(b, king, color) {
        let s = choose|s: Coordinate| s.in_bounds() && #[trigger] attacks(b, s, king, color);
        assert(same_but_for_mark(piece_at(a, s), piece_at(b, s), color));
        assert forall|q: Coordinate|
            q.in_bounds() && strictly_between(s, king, q) && piece_at(b, q) is None implies (
        #[trigger] piece_at(a, q)) is None by {
            assert(same_but_for_mark(piece_at(a, q), piece_at(b, q), color));
        }
        lemma_attack_carries_over(b, a, s, king, color);
    }
}

/// The moves that are listed as legal for the side to move are the moves that are
/// made when they are asked for: in a game that goes on, for a side whose king stands
/// where it is looked for, the stale marks that lapse before a move is judged change
/// nothing in what is legal.
pub proof fn lemma_listed_moves_are_made(pos: Position, from: Coordinate, to: Coordinate)
    requires
        pos.wf(),
        pos.game_status == GameStatus::Ongoing,
        pos.has_king(pos.side_to_move),
        from.in_bounds(),
        to.in_bounds(),
    ensures
        pos.is_legal(from, to) <==> pos.rejection(from, to) is None,
{
    let color = pos.side_to_move;
    let start = pos.refreshed();
    let a = pos.squares;
    let b = start.squares;
    assert(is_grid(b));
    assert forall|s: Coordinate| s.in_bounds() implies same_but_for_mark(
        #[trigger] piece_at(a, s),
        piece_at(b, s),
        color,
    ) by {
        assert(piece_at(b, s) == expire(piece_at(a, s), pos.turn_number));
        assert(mark_in_order(piece_at(a, s), color, pos.turn_number));
    }
    assert(same_but_for_mark(piece_at(a, from), piece_at(b, from), color));
    assert(same_but_for_mark(piece_at(a, to), piece_at(b, to), color));
    if from != to && holds_color(a, from, color) {
        let piece = piece_at(a, from)->0;
        let other = piece_at(b, from)->0;
        lemma_move_of_alike(a, b, piece, other, from, to);
        if !holds_color(a, to, color) {
            let king = pos.king_square_after(color, from, to);
            let seat = pos.king_square(color);
            assert(king == start.king_square_after(color, from, to));
            let up = lifted(a, from, to);
            let down = lifted(b, from, to);
            assert forall|s: Coordinate| s.in_bounds() implies same_but_for_mark(
                #[trigger] piece_at(up, s),
                piece_at(down, s),
                color,
            ) by {
                lemma_lifted(a, from, to, s);
                lemma_lifted(b, from, to, s);
                assert(same_but_for_mark(piece_at(a, s), piece_at(b, s), color));
            }
            lemma_lifted(a, from, to, king);
            lemma_lifted(a, from, to, to);
            assert(holds_color(up, king, color));
            lemma_check_of_alike(up, down, king, color);
        }
    }
}

/// A move that is listed as legal for the side to move is made when it is asked for,
/// and leaves the mover's own king out of check: in a game that goes on, for a side
/// whose king stands where it is looked for, a move that is not en passant and a
/// promotion that names a piece.
pub proof fn lemma_listed_moves_keep_king_safe(
    pos: Position,
    from: Coordinate,
    to: Coordinate,
    promotion: Option<PromotionPiece>,
)
    requires
        pos.wf(),
        pos.game_status == GameStatus::Ongoing,
        pos.has_king(pos.side_to_move),
        from.in_bounds(),
        to.in_bounds(),
        pos.is_legal(from, to),
        pos.move_kind(from, to) != MoveType::Capture(CaptureType::EnPassant),
        pos.move_kind(from, to) == MoveType::Promotion || pos.move_kind(from, to)
            == MoveType::Capture(CaptureType::Promotion) ==> promotion is Some,
    ensures
        pos.rejection(from, to) is None,
        !pos.after_move(from, to, promotion).is_in_check(pos.side_to_move),
{
    lemma_listed_moves_are_made(pos, from, to);
    lemma_own_king_stays_safe(pos, from, to, promotion);
}

} // verus!
