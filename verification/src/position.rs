//! A game between two moves: which moves are made, what a move that is made leaves
//! behind, and how the game then stands.
use vstd::prelude::*;
use crate::chess_board::{DrawType, GameStatus, MoveError};
use crate::coordinate::Coordinate;
use crate::movement::{
    castle_rook_file, castle_transit_file, holds_color, in_check, is_grid, is_king_of, lifted,
    piece_at, piece_move, put, square, Grid,
};
use crate::piece::{opposite, promoted, CaptureType, CastleType, Color, MoveType, Piece, PromotionPiece};

verus! {

/// What two positions are compared by when repetitions are counted: the board and the
/// side to move.
pub struct Snapshot {
    pub squares: Grid,
    pub side_to_move: Color,
}

/// A game between two moves: the mathematical content of a `ChessBoard`.
pub struct Position {
    pub squares: Grid,
    pub side_to_move: Color,
    /// The square on which the white king is looked for.
    pub white_king: Coordinate,
    /// The square on which the black king is looked for.
    pub black_king: Coordinate,
    /// The number of the half-move that is made next, counted from one.
    pub turn_number: nat,
    pub game_status: GameStatus,
    /// The half-moves made since a pawn last moved or a piece was last taken.
    pub move_rule_counter: nat,
    /// The positions from which the moves made so far started, oldest first.
    pub history: Seq<Snapshot>,
}

/// How often `snapshot` occurs in `history`.
pub open spec fn occurrences(history: Seq<Snapshot>, snapshot: Snapshot) -> nat
    decreases history.len(),
{
    if history.len() == 0 {
        0
    } else {
        occurrences(history.drop_last(), snapshot) + if history.last() == snapshot {
            1nat
        } else {
            0nat
        }
    }
}

/// Whether some position occurs in `history` three times or more.
pub open spec fn repeated_thrice(history: Seq<Snapshot>) -> bool {
    exists|i: int| 0 <= i < history.len() && occurrences(history, #[trigger] history[i]) >= 3
}

/// The content of a square once the mark of a pawn that was not set for `turn` has
/// lapsed.
pub open spec fn expire(content: Option<Piece>, turn: nat) -> Option<Piece> {
    match content {
        Some(Piece::Pawn { color, enpassantable_turn: Some(marked) }) => if marked == turn {
            content
        } else {
            Some(Piece::Pawn { color, enpassantable_turn: None })
        },
        _ => content,
    }
}

/// Whether the mark on `content`, if that is a marked pawn, is in order where `side` is
/// to move in turn `turn`: a pawn of the other side is marked for this turn, having
/// advanced two squares in the turn before; a pawn of the side to move is marked for
/// the turn before, a mark that is stale and has yet to lapse.
pub open spec fn mark_in_order(content: Option<Piece>, side: Color, turn: nat) -> bool {
    content matches Some(Piece::Pawn { color, enpassantable_turn: Some(mark) }) ==> if color
        == side {
        mark + 1 == turn
    } else {
        mark == turn
    }
}

/// The board with every en-passant mark lapsed that was not set for `turn`.
pub open spec fn expire_stale(grid: Grid, turn: nat) -> Grid {
    Seq::new(8, |x: int| Seq::new(8, |y: int| expire(grid[x][y], turn)))
}

/// Whether a move of kind `kind` sets the fifty-move count back: a pawn moved or a piece
/// was taken.
pub open spec fn resets_count(kind: MoveType) -> bool {
    match kind {
        MoveType::SinglePawn | MoveType::DoublePawn | MoveType::Promotion | MoveType::Capture(
            _,
        ) => true,
        _ => false,
    }
}

/// The board after the rook of `color` has gone to the king's other side, as a moved rook.
pub open spec fn rook_castled(grid: Grid, color: Color, side: CastleType, rank: int) -> Grid {
    put(
        put(grid, square(castle_rook_file(side), rank), None),
        square(castle_transit_file(side), rank),
        Some(Piece::Rook { color, has_moved: true }),
    )
}

/// The board after `piece` has made its move of kind `kind` from `from` to `to` in the
/// turn `turn`.
pub open spec fn relocated(
    grid: Grid,
    kind: MoveType,
    piece: Piece,
    from: Coordinate,
    to: Coordinate,
    promotion: Option<PromotionPiece>,
    turn: nat,
) -> Grid {
    match kind {
        MoveType::CastleShort => rook_castled(
            lifted(grid, from, to),
            piece.color(),
            CastleType::Short,
            to.y as int,
        ),
        MoveType::CastleLong => rook_castled(
            lifted(grid, from, to),
            piece.color(),
            CastleType::Long,
            to.y as int,
        ),
        MoveType::DoublePawn => put(
            put(grid, from, None),
            to,
            Some(Piece::Pawn { color: piece.color(), enpassantable_turn: Some((turn + 1) as u16) }),
        ),
        MoveType::Capture(CaptureType::EnPassant) => put(
            lifted(grid, from, to),
            square(to.x as int, from.y as int),
            None,
        ),
        MoveType::Promotion | MoveType::Capture(CaptureType::Promotion) => put(
            put(grid, from, None),
            to,
            match promotion {
                Some(choice) => Some(promoted(choice, piece.color())),
                None => None,
            },
        ),
        _ => lifted(grid, from, to),
    }
}

/// The board with the king or rook on `to`, if there is one, marked as moved.
pub open spec fn settled(grid: Grid, to: Coordinate) -> Grid {
    match piece_at(grid, to) {
        Some(Piece::King { color, .. }) => put(grid, to, Some(Piece::King { color, has_moved: true })),
        Some(Piece::Rook { color, .. }) => put(grid, to, Some(Piece::Rook { color, has_moved: true })),
        _ => grid,
    }
}

impl Position {
    /// The square on which the king of `color` is looked for.
    pub open spec fn king_square(self, color: Color) -> Coordinate {
        match color {
            Color::White => self.white_king,
            Color::Black => self.black_king,
        }
    }

    /// Whether both kings are looked for on the board.
    pub open spec fn kings_on_board(self) -> bool {
        self.white_king.in_bounds() && self.black_king.in_bounds()
    }

    /// Whether the king of `color` stands where it is looked for.
    pub open spec fn has_king(self, color: Color) -> bool {
        is_king_of(piece_at(self.squares, self.king_square(color)), color)
    }

    /// What every position of a game satisfies.
    ///
    /// The board has its shape; both king squares lie on it, and no king stands
    /// anywhere else, so each side has one king at most; every en-passant mark is in
    /// order; a game that goes on has made fewer than a hundred half-moves since a
    /// pawn moved or a piece was taken; and the count of turns has room for the
    /// half-moves that the game can still take.
    pub open spec fn wf(self) -> bool {
        &&& is_grid(self.squares)
        &&& self.kings_on_board()
        &&& forall|s: Coordinate|
            s.in_bounds() ==> (#[trigger] piece_at(self.squares, s) matches Some(
                Piece::King { color, .. },
            ) ==> s == self.king_square(color))
        &&& forall|s: Coordinate|
            s.in_bounds() ==> mark_in_order(
                #[trigger] piece_at(self.squares, s),
                self.side_to_move,
                self.turn_number,
            )
        &&& self.move_rule_counter <= 100
        &&& self.game_status == GameStatus::Ongoing ==> self.move_rule_counter < 100
        &&& self.turn_number + self.half_moves_left() <= u16::MAX
    }

    /// The position as repetitions see it.
    pub open spec fn snapshot(self) -> Snapshot {
        Snapshot { squares: self.squares, side_to_move: self.side_to_move }
    }

    /// Whether the king of `color` is in check.
    pub open spec fn is_in_check(self, color: Color) -> bool {
        in_check(self.squares, self.king_square(color), color)
    }

    /// The square on which the king of `color` is looked for once the piece on `from`
    /// has been set down on `to`.
    pub open spec fn king_square_after(self, color: Color, from: Coordinate, to: Coordinate) -> Coordinate {
        if is_king_of(piece_at(self.squares, from), color) {
            to
        } else {
            self.king_square(color)
        }
    }

    /// Whether setting the piece on `from` down on `to` would leave the king of `color`
    /// in check. Only that one piece is moved for the test.
    pub open spec fn exposes_king(self, color: Color, from: Coordinate, to: Coordinate) -> bool {
        in_check(lifted(self.squares, from, to), self.king_square_after(color, from, to), color)
    }

    /// The kind of the move of `piece` from `from` to `to`.
    ///
    /// A move onto a piece of one's own side is illegal. Unless `ignore_checks` is
    /// set, so is a move that would leave one's own king in check. Every other move is
    /// what the rules of the piece make of it.
    pub open spec fn classify(
        self,
        piece: Piece,
        from: Coordinate,
        to: Coordinate,
        ignore_checks: bool,
    ) -> MoveType {
        if holds_color(self.squares, to, piece.color()) {
            MoveType::Illegal
        } else if !ignore_checks && self.exposes_king(piece.color(), from, to) {
            MoveType::Illegal
        } else {
            piece_move(self.squares, piece, from, to)
        }
    }

    /// Whether the piece on `from` has a legal move to `to`, whoever is to move.
    pub open spec fn can_go(self, from: Coordinate, to: Coordinate) -> bool {
        piece_at(self.squares, from) matches Some(piece) && self.classify(piece, from, to, false)
            != MoveType::Illegal
    }

    /// Whether the side to move has a legal move from `from` to `to`.
    pub open spec fn is_legal(self, from: Coordinate, to: Coordinate) -> bool {
        holds_color(self.squares, from, self.side_to_move) && self.can_go(from, to)
    }

    /// Whether the side to move has any legal move.
    pub open spec fn has_legal_move(self) -> bool {
        exists|from: Coordinate, to: Coordinate|
            from.in_bounds() && to.in_bounds() && #[trigger] self.is_legal(from, to)
    }

    /// How the game stands.
    ///
    /// With no legal move the side to move has lost if its king is in check, and the
    /// game is drawn by stalemate if not. Else the game is drawn after a hundred
    /// half-moves without a pawn move or a capture, or when a position has occurred
    /// three times, the present one counted. Else it goes on.
    pub open spec fn evaluate(self) -> GameStatus {
        if !self.has_legal_move() {
            if self.is_in_check(self.side_to_move) {
                GameStatus::Win(opposite(self.side_to_move))
            } else {
                GameStatus::Draw(DrawType::Stalemate)
            }
        } else if self.move_rule_counter >= 100 {
            GameStatus::Draw(DrawType::MoveRule)
        } else if repeated_thrice(self.history.push(self.snapshot())) {
            GameStatus::Draw(DrawType::Repetition)
        } else {
            GameStatus::Ongoing
        }
    }

    /// The position with the en-passant marks lapsed that were not set for this turn.
    pub open spec fn refreshed(self) -> Position {
        Position { squares: expire_stale(self.squares, self.turn_number), ..self }
    }

    /// Why the move from `from` to `to` is turned down, or `None` where it is made.
    ///
    /// The tests come in this order: the game has ended; the two squares are the same;
    /// one of them is off the board; no piece stands on `from`; the piece there is not
    /// of the side to move; the move is illegal. The last three are judged once the
    /// stale en-passant marks have lapsed.
    pub open spec fn rejection(self, from: Coordinate, to: Coordinate) -> Option<MoveError> {
        if self.game_status != GameStatus::Ongoing {
            Some(MoveError::GameHasEnded)
        } else if from == to {
            Some(MoveError::PieceMovedToSameSquare)
        } else if !from.in_bounds() || !to.in_bounds() {
            Some(MoveError::OutOfBounds)
        } else {
            match piece_at(self.refreshed().squares, from) {
                None => Some(MoveError::NoPieceToMove),
                Some(piece) => if piece.color() != self.side_to_move {
                    Some(MoveError::NotYourTurn)
                } else if self.refreshed().classify(piece, from, to, false) == MoveType::Illegal {
                    Some(MoveError::IllegalMove)
                } else {
                    None
                },
            }
        }
    }

    /// The piece that a move from `from` moves.
    pub open spec fn mover(self, from: Coordinate) -> Piece {
        piece_at(self.refreshed().squares, from)->0
    }

    /// The kind of the move from `from` to `to`, as it is made.
    pub open spec fn move_kind(self, from: Coordinate, to: Coordinate) -> MoveType {
        self.refreshed().classify(self.mover(from), from, to, false)
    }

    /// The position after the move from `from` to `to` was made, for a move that is
    /// not turned down.
    ///
    /// The stale en-passant marks lapse and the piece moves as its kind of move says;
    /// a pawn that reaches the last rank becomes the piece of `promotion`, and leaves
    /// the board where there is none. A king or rook that moved is marked so, and the
    /// square of a king that moved is kept. The count of half-moves starts again after
    /// a pawn move or a capture and goes up by one else. The position the move started
    /// from joins the history, the turn passes to the other side, and the state of the
    /// game is judged anew.
    pub open spec fn after_move(
        self,
        from: Coordinate,
        to: Coordinate,
        promotion: Option<PromotionPiece>,
    ) -> Position {
        let start = self.refreshed();
        let piece = self.mover(from);
        let kind = self.move_kind(from, to);
        let moved = Position {
            squares: settled(
                relocated(start.squares, kind, piece, from, to, promotion, self.turn_number),
                to,
            ),
            side_to_move: opposite(self.side_to_move),
            white_king: start.king_square_after(Color::White, from, to),
            black_king: start.king_square_after(Color::Black, from, to),
            turn_number: self.turn_number + 1,
            game_status: self.game_status,
            move_rule_counter: if resets_count(kind) {
                0
            } else {
                self.move_rule_counter + 1
            },
            history: self.history.push(start.snapshot()),
        };
        Position { game_status: moved.evaluate(), ..moved }
    }
}

/// The piece of `color` that starts on file `x` of its home rank.
pub open spec fn home_rank_piece(x: int, color: Color) -> Piece {
    if x == 0 || x == 7 {
        Piece::Rook { color, has_moved: false }
    } else if x == 1 || x == 6 {
        Piece::Knight { color }
    } else if x == 2 || x == 5 {
        Piece::Bishop { color }
    } else if x == 3 {
        Piece::Queen { color }
    } else {
        Piece::King { color, has_moved: false }
    }
}

/// What stands on file `x` and rank `y` when a game starts.
pub open spec fn starting_square(x: int, y: int) -> Option<Piece> {
    if y == 0 {
        Some(home_rank_piece(x, Color::White))
    } else if y == 1 {
        Some(Piece::Pawn { color: Color::White, enpassantable_turn: None })
    } else if y == 6 {
        Some(Piece::Pawn { color: Color::Black, enpassantable_turn: None })
    } else if y == 7 {
        Some(home_rank_piece(x, Color::Black))
    } else {
        None
    }
}

/// What stands on file `x` and rank `y` in the small layout of two kings and a white
/// queen: the white queen and king on their home squares, the black king in the
/// corner it castles short to.
pub open spec fn queen_ending_square(x: int, y: int) -> Option<Piece> {
    if x == 3 && y == 0 {
        Some(Piece::Queen { color: Color::White })
    } else if x == 4 && y == 0 {
        Some(Piece::King { color: Color::White, has_moved: false })
    } else if x == 6 && y == 7 {
        Some(Piece::King { color: Color::Black, has_moved: false })
    } else {
        None
    }
}

/// The first position of a game played from the layout `layout`, with White to move
/// and the kings looked for on `white_king` and `black_king`.
pub open spec fn opening(
    layout: spec_fn(int, int) -> Option<Piece>,
    white_king: Coordinate,
    black_king: Coordinate,
) -> Position {
    Position {
        squares: Seq::new(8, |x: int| Seq::new(8, |y: int| layout(x, y))),
        side_to_move: Color::White,
        white_king,
        black_king,
        turn_number: 1,
        game_status: GameStatus::Ongoing,
        move_rule_counter: 0,
        history: Seq::empty(),
    }
}

/// The position from which a game of chess starts.
pub open spec fn standard_opening() -> Position {
    opening(|x: int, y: int| starting_square(x, y), square(4, 0), square(4, 7))
}

/// The position from which the ending of king and queen against king starts.
pub open spec fn queen_ending_opening() -> Position {
    opening(|x: int, y: int| queen_ending_square(x, y), square(4, 0), square(6, 7))
}

/// What stands on `s` once `content` was put on `c`.
pub proof fn lemma_put(grid: Grid, c: Coordinate, content: Option<Piece>, s: Coordinate)
    requires
        is_grid(grid),
        c.in_bounds(),
        s.in_bounds(),
    ensures
        is_grid(put(grid, c, content)),
        piece_at(put(grid, c, content), s) == if s == c {
            content
        } else {
            piece_at(grid, s)
        },
{
}

/// What stands on `s` once the piece on `from` was set down on `to`.
pub proof fn lemma_lifted(grid: Grid, from: Coordinate, to: Coordinate, s: Coordinate)
    requires
        is_grid(grid),
        from.in_bounds(),
        to.in_bounds(),
        s.in_bounds(),
    ensures
        is_grid(lifted(grid, from, to)),
        piece_at(lifted(grid, from, to), s) == if s == to {
            piece_at(grid, from)
        } else if s == from {
            None
        } else {
            piece_at(grid, s)
        },
{
    lemma_put(grid, from, None, s);
    lemma_put(put(grid, from, None), to, piece_at(grid, from), s);
}

/// What stands on `s` once the rook of `color` has castled on `side` along `rank`.
pub proof fn lemma_rook_castled(grid: Grid, color: Color, side: CastleType, rank: int, s: Coordinate)
    requires
        is_grid(grid),
        0 <= rank < 8,
        s.in_bounds(),
    ensures
        is_grid(rook_castled(grid, color, side, rank)),
        piece_at(rook_castled(grid, color, side, rank), s) == if s == square(
            castle_transit_file(side),
            rank,
        ) {
            Some(Piece::Rook { color, has_moved: true })
        } else if s == square(castle_rook_file(side), rank) {
            None
        } else {
            piece_at(grid, s)
        },
{
    let corner = square(castle_rook_file(side), rank);
    let transit = square(castle_transit_file(side), rank);
    lemma_put(grid, corner, None, s);
    lemma_put(put(grid, corner, None), transit, Some(Piece::Rook { color, has_moved: true }), s);
}

/// What stands on `s` once the king or rook on `to` was marked as moved.
pub proof fn lemma_settled(grid: Grid, to: Coordinate, s: Coordinate)
    requires
        is_grid(grid),
        to.in_bounds(),
        s.in_bounds(),
    ensures
        is_grid(settled(grid, to)),
        piece_at(settled(grid, to), s) == if s == to {
            match piece_at(grid, to) {
                Some(Piece::King { color, .. }) => Some(Piece::King { color, has_moved: true }),
                Some(Piece::Rook { color, .. }) => Some(Piece::Rook { color, has_moved: true }),
                other => other,
            }
        } else {
            piece_at(grid, s)
        },
{
    match piece_at(grid, to) {
        Some(Piece::King { color, .. }) => {
            lemma_put(grid, to, Some(Piece::King { color, has_moved: true }), s);
        },
        Some(Piece::Rook { color, .. }) => {
            lemma_put(grid, to, Some(Piece::Rook { color, has_moved: true }), s);
        },
        _ => {},
    }
}

/// What stands on `s` once `piece` has made its move of kind `kind` from `from` to
/// `to`.
pub proof fn lemma_relocated(
    grid: Grid,
    kind: MoveType,
    piece: Piece,
    from: Coordinate,
    to: Coordinate,
    promotion: Option<PromotionPiece>,
    turn: nat,
    s: Coordinate,
)
    requires
        is_grid(grid),
        from.in_bounds(),
        to.in_bounds(),
        s.in_bounds(),
    ensures
        is_grid(relocated(grid, kind, piece, from, to, promotion, turn)),
        piece_at(relocated(grid, kind, piece, from, to, promotion, turn), s) == match kind {
            MoveType::CastleShort => if s == square(5, to.y as int) {
                Some(Piece::Rook { color: piece.color(), has_moved: true })
            } else if s == square(7, to.y as int) {
                None
            } else {
                piece_at(lifted(grid, from, to), s)
            },
            MoveType::CastleLong => if s == square(3, to.y as int) {
                Some(Piece::Rook { color: piece.color(), has_moved: true })
            } else if s == square(0, to.y as int) {
                None
            } else {
                piece_at(lifted(grid, from, to), s)
            },
            MoveType::DoublePawn => if s == to {
                Some(
                    Piece::Pawn {
                        color: piece.color(),
                        enpassantable_turn: Some((turn + 1) as u16),
                    },
                )
            } else if s == from {
                None
            } else {
                piece_at(grid, s)
            },
            MoveType::Capture(CaptureType::EnPassant) => if s == square(to.x as int, from.y as int) {
                None
            } else {
                piece_at(lifted(grid, from, to), s)
            },
            MoveType::Promotion | MoveType::Capture(CaptureType::Promotion) => if s == to {
                match promotion {
                    Some(choice) => Some(promoted(choice, piece.color())),
                    None => None,
                }
            } else if s == from {
                None
            } else {
                piece_at(grid, s)
            },
            _ => piece_at(lifted(grid, from, to), s),
        },
{
    lemma_lifted(grid, from, to, s);
    match kind {
        MoveType::CastleShort => {
            lemma_rook_castled(lifted(grid, from, to), piece.color(), CastleType::Short, to.y as int, s);
        },
        MoveType::CastleLong => {
            lemma_rook_castled(lifted(grid, from, to), piece.color(), CastleType::Long, to.y as int, s);
        },
        MoveType::DoublePawn => {
            lemma_put(grid, from, None, s);
            lemma_put(
                put(grid, from, None),
                to,
                Some(
                    Piece::Pawn {
                        color: piece.color(),
                        enpassantable_turn: Some((turn + 1) as u16),
                    },
                ),
                s,
            );
        },
        MoveType::Capture(CaptureType::EnPassant) => {
            lemma_put(lifted(grid, from, to), square(to.x as int, from.y as int), None, s);
        },
        MoveType::Promotion | MoveType::Capture(CaptureType::Promotion) => {
            lemma_put(grid, from, None, s);
            lemma_put(
                put(grid, from, None),
                to,
                match promotion {
                    Some(choice) => Some(promoted(choice, piece.color())),
                    None => None,
                },
                s,
            );
        },
        _ => {},
    }
}

/// A position that joins a history is counted once more, and no other is.
pub proof fn lemma_occurrences_push(history: Seq<Snapshot>, last: Snapshot, snapshot: Snapshot)
    ensures
        occurrences(history.push(last), snapshot) == occurrences(history, snapshot) + if last
            == snapshot {
            1nat
        } else {
            0nat
        },
{
    assert(history.push(last).drop_last() =~= history);
}

/// A position occurs in the first `n` entries of a history no more often than in all
/// of it.
pub proof fn lemma_occurrences_prefix(history: Seq<Snapshot>, n: int, snapshot: Snapshot)
    requires
        0 <= n <= history.len(),
    ensures
        occurrences(history.take(n), snapshot) <= occurrences(history, snapshot),
    decreases history.len() - n,
{
    if n < history.len() {
        lemma_occurrences_prefix(history, n + 1, snapshot);
        assert(history.take(n + 1) =~= history.take(n).push(history[n]));
        lemma_occurrences_push(history.take(n), history[n], snapshot);
    } else {
        assert(history.take(n) =~= history);
    }
}

/// Two boards that hold the same on every square are the same board.
pub proof fn lemma_grid_extensional(a: Grid, b: Grid)
    requires
        is_grid(a),
        is_grid(b),
        forall|s: Coordinate| s.in_bounds() ==> #[trigger] piece_at(a, s) == piece_at(b, s),
    ensures
        a == b,
{
    assert forall|x: int| 0 <= x < 8 implies a[x] == b[x] by {
        assert forall|y: int| 0 <= y < 8 implies a[x][y] == b[x][y] by {
            assert(piece_at(a, square(x, y)) == piece_at(b, square(x, y)));
        }
        assert(a[x] =~= b[x]);
    }
    assert(a =~= b);
}

} // verus!
