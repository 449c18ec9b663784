//! The game as it is played: the board with its history, and the moves made on it.
use vstd::prelude::*;
use crate::coordinate::Coordinate;
use crate::movement::{attacks, holds_color, is_grid, lifted, piece_at, Grid};
use crate::piece::{CaptureType, Color, MoveType, Piece, PieceType, PromotionPiece};
use crate::laws::lemma_moves_keep_wf;
use crate::position::{
    expire, home_rank_piece, lemma_grid_extensional, lemma_occurrences_prefix,
    lemma_occurrences_push, mark_in_order, occurrences, queen_ending_opening, relocated,
    settled, standard_opening, Position, Snapshot,
};
use crate::material::{lemma_material_bound, material, material_below, weight};
use vstd::std_specs::cmp::PartialEqSpecImpl;

verus! {

/// Why a game was drawn.
#[derive(Copy, Clone, Debug, PartialEq, Eq, Structural)]
pub enum DrawType {
    Stalemate,
    MoveRule,
    Repetition,
}

/// How a game stands.
#[derive(Copy, Clone, Debug, PartialEq, Eq, Structural)]
pub enum GameStatus {
    Ongoing,
    Draw(DrawType),
    Win(Color),
}

/// Why a move was turned down.
#[derive(Copy, Clone, Debug, PartialEq, Eq, Structural)]
pub enum MoveError {
    PieceMovedToSameSquare,
    OutOfBounds,
    NoPieceToMove,
    NotYourTurn,
    IllegalMove,
    GameHasEnded,
}

/// The squares of a board as the sequence of its files, each the sequence of its
/// squares from the first rank up.
pub open spec fn grid_of(squares: [[Option<Piece>; 8]; 8]) -> Grid {
    Seq::new(8, |x: int| squares[x]@)
}

/// A board and the side to move on it: what is kept of a position to tell whether it
/// comes again.
#[derive(Copy, Clone, Debug)]
pub struct ChessPosition {
    pub squares: [[Option<Piece>; 8]; 8],
    pub side_to_move: Color,
}

/// A game of chess: the board, whose turn it is, and what the rules need to remember.
#[derive(Clone, Debug)]
pub struct ChessBoard {
    pub squares: [[Option<Piece>; 8]; 8],
    pub side_to_move: Color,
    /// The square on which the white king is looked for.
    pub white_king_position: Coordinate,
    /// The square on which the black king is looked for.
    pub black_king_position: Coordinate,
    /// The number of the half-move that is made next, counted from one.
    pub turn_number: u16,
    pub game_status: GameStatus,
    /// The half-moves made since a pawn last moved or a piece was last taken.
    pub move_rule_counter: u8,
    /// The positions from which the moves made so far started, oldest first.
    pub previous_positions: Vec<ChessPosition>,
}

impl ChessPosition {
    /// The position that `chess_board` is in, as repetitions see it.
    pub fn new(chess_board: &ChessBoard) -> (position: Self)
        ensures
            position@ == chess_board@.snapshot(),
    {
        ChessPosition { squares: chess_board.squares, side_to_move: chess_board.side_to_move }
    }
}

impl PartialEq for ChessPosition {
    /// Two positions are equal when the same side is to move and every square holds
    /// the same in both, the marks of the pieces counted.
    fn eq(&self, other: &Self) -> (same: bool) {
        if self.side_to_move != other.side_to_move {
            return false;
        }
        for x in 0..8usize
            invariant
                forall|s: Coordinate|
                    s.in_bounds() && s.x < x ==> #[trigger] piece_at(self@.squares, s) == piece_at(
                        other@.squares,
                        s,
                    ),
        {
            for y in 0..8usize
                invariant
                    x < 8,
                    forall|s: Coordinate|
                        s.in_bounds() && (s.x < x || (s.x == x && s.y < y)) ==> #[trigger] piece_at(
                            self@.squares,
                            s,
                        ) == piece_at(other@.squares, s),
            {
                if self.squares[x][y] != other.squares[x][y] {
                    assert(piece_at(self@.squares, Coordinate { x, y }) != piece_at(
                        other@.squares,
                        Coordinate { x, y },
                    ));
                    return false;
                }
            }
        }
        proof {
            lemma_grid_extensional(self@.squares, other@.squares);
        }
        true
    }
}

impl PartialEqSpecImpl for ChessPosition {
    open spec fn obeys_eq_spec() -> bool {
        true
    }

    open spec fn eq_spec(&self, other: &Self) -> bool {
        self@ == other@
    }
}

impl View for ChessPosition {
    type V = Snapshot;

    open spec fn view(&self) -> Snapshot {
        Snapshot { squares: grid_of(self.squares), side_to_move: self.side_to_move }
    }
}

impl ChessBoard {
    /// Whether the game is in a state that the rules can work on: see `Position::wf`.
    pub open spec fn wf(&self) -> bool {
        self@.wf()
    }

    /// The material on the board: one for every piece, and for a pawn one more for
    /// every step it has left to the last rank.
    pub fn material(&self) -> (total: u16)
        ensures
            total == material(self@.squares),
    {
        let mut total: u16 = 0;
        for i in 0..64usize
            invariant
                total == material_below(self@.squares, i as nat),
                total <= 8 * i,
        {
            let x = i / 8;
            let y = i % 8;
            let added: u16 = match self.squares[x][y] {
                None => 0,
                Some(Piece::Pawn { color: Color::White, .. }) => 8 - y as u16,
                Some(Piece::Pawn { color: Color::Black, .. }) => 1 + y as u16,
                Some(_) => 1,
            };
            assert(added == weight(self@.squares[(i / 8) as int][(i % 8) as int], (i % 8) as int));
            total += added;
        }
        total
    }

    /// Whether the game is in a state that the rules can work on. A game that was set
    /// up by `starting_positions` or `stalemate_start` and changed by `move_piece`
    /// alone always is; this is the test for a game whose fields were set by hand.
    pub fn is_well_formed(&self) -> (sound: bool)
        ensures
            sound == self.wf(),
    {
        let white = self.white_king_position;
        let black = self.black_king_position;
        if white.x >= 8 || white.y >= 8 || black.x >= 8 || black.y >= 8 {
            return false;
        }
        if self.move_rule_counter > 100 {
            return false;
        }
        if self.game_status == GameStatus::Ongoing && self.move_rule_counter == 100 {
            return false;
        }
        let room: u32 = 101 * (self.material() as u32) + 100 - self.move_rule_counter as u32;
        if self.turn_number as u32 + room > 65535 {
            return false;
        }
        for x in 0..8usize
            invariant
                forall|s: Coordinate|
                    s.in_bounds() && s.x < x ==> (#[trigger] piece_at(self@.squares, s) matches Some(
                        Piece::King { color, .. },
                    ) ==> s == self@.king_square(color)),
                forall|s: Coordinate|
                    s.in_bounds() && s.x < x ==> mark_in_order(
                        #[trigger] piece_at(self@.squares, s),
                        self@.side_to_move,
                        self@.turn_number,
                    ),
        {
            for y in 0..8usize
                invariant
                    x < 8,
                    forall|s: Coordinate|
                        s.in_bounds() && (s.x < x || (s.x == x && s.y < y)) ==> (
                        #[trigger] piece_at(self@.squares, s) matches Some(
                            Piece::King { color, .. },
                        ) ==> s == self@.king_square(color)),
                    forall|s: Coordinate|
                        s.in_bounds() && (s.x < x || (s.x == x && s.y < y)) ==> mark_in_order(
                            #[trigger] piece_at(self@.squares, s),
                            self@.side_to_move,
                            self@.turn_number,
                        ),
            {
                let ghost here = Coordinate { x, y };
                assert(piece_at(self@.squares, here) == self.squares[x as int][y as int]);
                match self.squares[x][y] {
                    Some(Piece::King { color, .. }) => {
                        let seat = match color {
                            Color::White => self.white_king_position,
                            Color::Black => self.black_king_position,
                        };
                        if seat != Coordinate::new(x, y) {
                            return false;
                        }
                    },
                    Some(Piece::Pawn { color, enpassantable_turn: Some(mark) }) => {
                        let due: u32 = if color == self.side_to_move {
                            mark as u32 + 1
                        } else {
                            mark as u32
                        };
                        if due != self.turn_number as u32 {
                            assert(!mark_in_order(
                                piece_at(self@.squares, here),
                                self@.side_to_move,
                                self@.turn_number,
                            ));
                            return false;
                        }
                    },
                    _ => {},
                }
            }
        }
        true
    }

    /// The side to move.
    pub fn side_to_move(&self) -> (color: Color)
        ensures
            color == self@.side_to_move,
    {
        self.side_to_move
    }

    /// How the game stood after the last move.
    pub fn current_status(&self) -> (status: GameStatus)
        ensures
            status == self@.game_status,
    {
        self.game_status
    }

    /// The number of the half-move that is made next.
    pub fn turn_number(&self) -> (turn: u16)
        ensures
            turn == self@.turn_number,
    {
        self.turn_number
    }

    /// What every square shows: the kind and side of the piece on it, if any.
    pub fn board_snapshot(&self) -> (snapshot: [[Option<PieceType>; 8]; 8])
        ensures
            forall|x: int, y: int|
                0 <= x < 8 && 0 <= y < 8 ==> #[trigger] snapshot[x][y] == match self.squares[x][y] {
                    Some(piece) => Some(piece.piece_type()),
                    None => None,
                },
    {
        let mut snapshot: [[Option<PieceType>; 8]; 8] = [[None; 8]; 8];
        for x in 0..8usize
            invariant
                forall|i: int, j: int|
                    0 <= i < x && 0 <= j < 8 ==> #[trigger] snapshot[i][j] == match self.squares[i][j] {
                        Some(piece) => Some(piece.piece_type()),
                        None => None,
                    },
        {
            for y in 0..8usize
                invariant
                    x < 8,
                    forall|i: int, j: int|
                        (0 <= i < x && 0 <= j < 8) || (i == x && 0 <= j < y)
                            ==> #[trigger] snapshot[i][j] == match self.squares[i][j] {
                            Some(piece) => Some(piece.piece_type()),
                            None => None,
                        },
            {
                snapshot[x][y] = PieceType::from_chess_piece(self.squares[x][y]);
            }
        }
        snapshot
    }

    /// A copy of the board, without its past, on which the piece on `from` has been
    /// set down on `to`: what a move is tried on before it is made.
    pub(crate) fn after_lifting(&self, from: Coordinate, to: Coordinate) -> (scratch: ChessBoard)
        requires
            from.in_bounds(),
            to.in_bounds(),
        ensures
            scratch@.squares == lifted(self@.squares, from, to),
            forall|color: Color|
                #[trigger] scratch@.king_square(color) == self@.king_square_after(color, from, to),
    {
        let mut scratch = ChessBoard {
            squares: self.squares,
            side_to_move: self.side_to_move,
            white_king_position: self.white_king_position,
            black_king_position: self.black_king_position,
            turn_number: self.turn_number,
            game_status: self.game_status,
            move_rule_counter: self.move_rule_counter,
            previous_positions: Vec::new(),
        };
        let piece = scratch.squares[from.x][from.y];
        if let Some(Piece::King { color, .. }) = piece {
            match color {
                Color::Black => scratch.black_king_position = to,
                Color::White => scratch.white_king_position = to,
            }
        }
        scratch.squares[from.x][from.y] = None;
        scratch.squares[to.x][to.y] = piece;
        scratch
    }

    /// Whether the king of `color` is in check: some enemy piece could move onto the
    /// square where that king is looked for.
    pub fn is_in_check(&self, color: Color) -> (check: bool)
        requires
            self@.king_square(color).in_bounds(),
        ensures
            check == self@.is_in_check(color),
        decreases 0nat, 2nat, 0nat,
    {
        let king_position = match color {
            Color::Black => self.black_king_position,
            Color::White => self.white_king_position,
        };
        for y in 0..8usize
            invariant
                king_position == self@.king_square(color),
                king_position.in_bounds(),
                forall|s: Coordinate|
                    s.in_bounds() && s.y < y ==> !#[trigger] attacks(
                        self@.squares,
                        s,
                        king_position,
                        color,
                    ),
        {
            for x in 0..8usize
                invariant
                    y < 8,
                    king_position == self@.king_square(color),
                    king_position.in_bounds(),
                    forall|s: Coordinate|
                        s.in_bounds() && (s.y < y || (s.y == y && s.x < x)) ==> !#[trigger] attacks(
                            self@.squares,
                            s,
                            king_position,
                            color,
                        ),
            {
                if let Some(piece) = self.squares[x][y] {
                    if piece.get_color() != color {
                        if piece.is_legal_move(Coordinate::new(x, y), king_position, self, true)
                            != MoveType::Illegal {
                            assert(attacks(
                                self@.squares,
                                Coordinate { x, y },
                                king_position,
                                color,
                            ));
                            return true;
                        }
                    }
                }
            }
        }
        false
    }
}

impl View for ChessBoard {
    type V = Position;

    open spec fn view(&self) -> Position {
        Position {
            squares: grid_of(self.squares),
            side_to_move: self.side_to_move,
            white_king: self.white_king_position,
            black_king: self.black_king_position,
            turn_number: self.turn_number as nat,
            game_status: self.game_status,
            move_rule_counter: self.move_rule_counter as nat,
            history: self.previous_positions@.map_values(|p: ChessPosition| p@),
        }
    }
}

/// Whether square `s` comes before the square on file `x` and rank `y` when the board
/// is walked file by file, each file from its first rank up.
spec fn comes_before(s: Coordinate, x: int, y: int) -> bool {
    s.x < x || (s.x == x && s.y < y)
}

/// Whether `targets` lists, each once, the squares before file `x`, rank `y` that the
/// piece on `from` can legally move to.
spec fn lists_targets(pos: Position, from: Coordinate, targets: Seq<Coordinate>, x: int, y: int) -> bool {
    &&& targets.no_duplicates()
    &&& forall|to: Coordinate| #[trigger]
        targets.contains(to) <==> to.in_bounds() && comes_before(to, x, y) && pos.can_go(from, to)
}

/// Whether `moves` lists, each once, the legal moves of the side to move that start
/// on a square before file `x`, rank `y`.
spec fn lists_moves(pos: Position, moves: Seq<(Coordinate, Coordinate)>, x: int, y: int) -> bool {
    &&& moves.no_duplicates()
    &&& forall|from: Coordinate, to: Coordinate| #[trigger]
        moves.contains((from, to)) <==> from.in_bounds() && to.in_bounds() && comes_before(
            from,
            x,
            y,
        ) && pos.is_legal(from, to)
}

/// The moves from `from` to each of `targets`, in their order.
spec fn moves_from(from: Coordinate, targets: Seq<Coordinate>) -> Seq<(Coordinate, Coordinate)> {
    targets.map_values(|to: Coordinate| (from, to))
}

/// A list of targets stays one when the next square is looked at and joins the list
/// where the piece can go there.
proof fn lemma_targets_step(pos: Position, from: Coordinate, targets: Seq<Coordinate>, to: Coordinate)
    requires
        to.in_bounds(),
        lists_targets(pos, from, targets, to.x as int, to.y as int),
    ensures
        lists_targets(
            pos,
            from,
            if pos.can_go(from, to) {
                targets.push(to)
            } else {
                targets
            },
            to.x as int,
            to.y + 1,
        ),
{
    if pos.can_go(from, to) {
        assert(!targets.contains(to));
        assert forall|other: Coordinate| #[trigger]
            targets.push(to).contains(other) <==> other.in_bounds() && comes_before(
                other,
                to.x as int,
                to.y + 1,
            ) && pos.can_go(from, other) by {
            vstd::seq_lib::lemma_seq_contains_after_push(targets, to, other);
        }
        assert forall|i: int, j: int|
            0 <= i < targets.len() + 1 && 0 <= j < targets.len() + 1 && i != j implies targets.push(
            to,
        )[i] != targets.push(to)[j] by {
            if i < targets.len() {
                assert(targets.contains(targets[i]));
            }
            if j < targets.len() {
                assert(targets.contains(targets[j]));
            }
        }
    }
}

/// A list of moves stays one when the next square is looked at and holds no piece of
/// the side to move.
proof fn lemma_moves_skip(pos: Position, moves: Seq<(Coordinate, Coordinate)>, from: Coordinate)
    requires
        from.in_bounds(),
        lists_moves(pos, moves, from.x as int, from.y as int),
        !holds_color(pos.squares, from, pos.side_to_move),
    ensures
        lists_moves(pos, moves, from.x as int, from.y + 1),
{
}

/// A list of moves stays one when the moves of the piece on the next square join it.
proof fn lemma_moves_step(
    pos: Position,
    moves: Seq<(Coordinate, Coordinate)>,
    from: Coordinate,
    targets: Seq<Coordinate>,
)
    requires
        from.in_bounds(),
        lists_moves(pos, moves, from.x as int, from.y as int),
        holds_color(pos.squares, from, pos.side_to_move),
        targets.no_duplicates(),
        forall|to: Coordinate| targets.contains(to) <==> to.in_bounds() && pos.can_go(from, to),
    ensures
        lists_moves(pos, moves + moves_from(from, targets), from.x as int, from.y + 1),
{
    let added = moves_from(from, targets);
    assert forall|f: Coordinate, t: Coordinate| #[trigger]
        added.contains((f, t)) <==> f == from && targets.contains(t) by {
        if added.contains((f, t)) {
            let i = choose|i: int| 0 <= i < added.len() && added[i] == (f, t);
            assert(targets[i] == t);
        }
        if f == from && targets.contains(t) {
            let i = choose|i: int| 0 <= i < targets.len() && targets[i] == t;
            assert(added[i] == (f, t));
        }
    }
    assert forall|f: Coordinate, t: Coordinate| #[trigger]
        (moves + added).contains((f, t)) <==> f.in_bounds() && t.in_bounds() && comes_before(
            f,
            from.x as int,
            from.y + 1,
        ) && pos.is_legal(f, t) by {
        vstd::seq_lib::lemma_seq_concat_contains_all_elements(moves, added, (f, t));
    }
    assert forall|i: int, j: int| 0 <= i < moves.len() && 0 <= j < added.len() implies moves[i]
        != added[j] by {
        assert(moves.contains((moves[i].0, moves[i].1)));
    }
    assert forall|i: int, j: int| 0 <= i < added.len() && 0 <= j < added.len() && i
        != j implies added[i] != added[j] by {
        assert(targets[i] != targets[j]);
    }
    vstd::seq_lib::lemma_no_dup_in_concat(moves, added);
}

/// Adds the moves from `from` to each of `targets` to `moves`.
fn append_moves(moves: &mut Vec<(Coordinate, Coordinate)>, from: Coordinate, targets: &Vec<Coordinate>)
    ensures
        final(moves)@ == old(moves)@ + moves_from(from, targets@),
{
    for k in 0..targets.len()
        invariant
            moves@ == old(moves)@ + moves_from(from, targets@.take(k as int)),
    {
        moves.push((from, targets[k]));
        assert(moves@ =~= old(moves)@ + moves_from(from, targets@.take(k + 1)));
    }
    assert(targets@.take(targets.len() as int) =~= targets@);
}

/// Sets the piece on `from` down on `to`, whatever stood there.
fn lift(squares: &mut [[Option<Piece>; 8]; 8], from: Coordinate, to: Coordinate)
    requires
        from.in_bounds(),
        to.in_bounds(),
    ensures
        grid_of(*final(squares)) == lifted(grid_of(*old(squares)), from, to),
{
    let piece = squares[from.x][from.y];
    squares[from.x][from.y] = None;
    squares[to.x][to.y] = piece;
}

/// Moves `piece` from `from` to `to` as a move of kind `kind` asks, in the turn `turn`.
fn relocate(
    squares: &mut [[Option<Piece>; 8]; 8],
    kind: MoveType,
    piece: Piece,
    from: Coordinate,
    to: Coordinate,
    promotion: Option<PromotionPiece>,
    turn: u16,
)
    requires
        from.in_bounds(),
        to.in_bounds(),
        turn < u16::MAX,
    ensures
        grid_of(*final(squares)) == relocated(
            grid_of(*old(squares)),
            kind,
            piece,
            from,
            to,
            promotion,
            turn as nat,
        ),
{
    match kind {
        MoveType::CastleShort => {
            lift(squares, from, to);
            squares[7][to.y] = None;
            squares[5][to.y] = Some(Piece::Rook { color: piece.get_color(), has_moved: true });
        },
        MoveType::CastleLong => {
            lift(squares, from, to);
            squares[0][to.y] = None;
            squares[3][to.y] = Some(Piece::Rook { color: piece.get_color(), has_moved: true });
        },
        MoveType::DoublePawn => {
            squares[from.x][from.y] = None;
            squares[to.x][to.y] = Some(
                Piece::Pawn { color: piece.get_color(), enpassantable_turn: Some(turn + 1) },
            );
        },
        MoveType::Capture(CaptureType::EnPassant) => {
            lift(squares, from, to);
            squares[to.x][from.y] = None;
        },
        MoveType::Promotion | MoveType::Capture(CaptureType::Promotion) => {
            squares[from.x][from.y] = None;
            squares[to.x][to.y] = match promotion {
                Some(promotion_piece) => promotion_piece.as_piece(piece.get_color()),
                None => None,
            };
        },
        _ => {
            lift(squares, from, to);
        },
    }
}

/// Marks the king or rook on `to`, if there is one, as moved.
fn settle(squares: &mut [[Option<Piece>; 8]; 8], to: Coordinate)
    requires
        to.in_bounds(),
    ensures
        grid_of(*final(squares)) == settled(grid_of(*old(squares)), to),
{
    match squares[to.x][to.y] {
        Some(Piece::King { color, .. }) => {
            squares[to.x][to.y] = Some(Piece::King { color, has_moved: true });
        },
        Some(Piece::Rook { color, .. }) => {
            squares[to.x][to.y] = Some(Piece::Rook { color, has_moved: true });
        },
        _ => {},
    }
}

/// The piece of `color` that starts on file `x` of its home rank.
fn home_rank_start(x: usize, color: Color) -> (piece: Piece)
    requires
        x < 8,
    ensures
        piece == home_rank_piece(x as int, color),
{
    match x {
        0 | 7 => Piece::Rook { color, has_moved: false },
        1 | 6 => Piece::Knight { color },
        2 | 5 => Piece::Bishop { color },
        3 => Piece::Queen { color },
        _ => Piece::King { color, has_moved: false },
    }
}

impl ChessBoard {
    /// A game about to start: the pieces on their starting squares, White to move.
    pub fn starting_positions() -> (board: ChessBoard)
        ensures
            board@ == standard_opening(),
            board.wf(),
    {
        let mut squares: [[Option<Piece>; 8]; 8] = [[None; 8]; 8];
        for x in 0..8usize
            invariant
                forall|i: int, j: int|
                    0 <= i < 8 && 0 <= j < 8 ==> #[trigger] squares[i][j] == if i < x {
                        crate::position::starting_square(i, j)
                    } else {
                        None
                    },
        {
            squares[x][0] = Some(home_rank_start(x, Color::White));
            squares[x][1] = Some(Piece::Pawn { color: Color::White, enpassantable_turn: None });
            squares[x][6] = Some(Piece::Pawn { color: Color::Black, enpassantable_turn: None });
            squares[x][7] = Some(home_rank_start(x, Color::Black));
        }
        let board = ChessBoard {
            squares,
            side_to_move: Color::White,
            white_king_position: Coordinate::new(4, 0),
            black_king_position: Coordinate::new(4, 7),
            turn_number: 1,
            game_status: GameStatus::Ongoing,
            move_rule_counter: 0,
            previous_positions: Vec::new(),
        };
        proof {
            assert(is_grid(board@.squares));
            lemma_grid_extensional(board@.squares, standard_opening().squares);
            assert(board@.history =~= standard_opening().history);
            lemma_material_bound(board@.squares);
        }
        board
    }

    /// A small game about to start: White has king and queen on their home squares,
    /// Black a lone king on the square it castles short to. White is to move.
    pub fn stalemate_start() -> (board: ChessBoard)
        ensures
            board@ == queen_ending_opening(),
            board.wf(),
    {
        let mut squares: [[Option<Piece>; 8]; 8] = [[None; 8]; 8];
        squares[3][0] = Some(Piece::Queen { color: Color::White });
        squares[4][0] = Some(Piece::King { color: Color::White, has_moved: false });
        squares[6][7] = Some(Piece::King { color: Color::Black, has_moved: false });
        let board = ChessBoard {
            squares,
            side_to_move: Color::White,
            white_king_position: Coordinate::new(4, 0),
            black_king_position: Coordinate::new(6, 7),
            turn_number: 1,
            game_status: GameStatus::Ongoing,
            move_rule_counter: 0,
            previous_positions: Vec::new(),
        };
        proof {
            assert(is_grid(board@.squares));
            lemma_grid_extensional(board@.squares, queen_ending_opening().squares);
            assert(board@.history =~= queen_ending_opening().history);
            lemma_material_bound(board@.squares);
        }
        board
    }

    /// The squares that the piece on `piece_coordinate` can legally move to, whoever
    /// is to move; none where the square is empty. Each square is listed once.
    pub fn get_legal_moves_for_piece_at(&self, piece_coordinate: Coordinate) -> (legal_moves: Vec<
        Coordinate,
    >)
        requires
            piece_coordinate.in_bounds(),
            self@.kings_on_board(),
        ensures
            forall|to: Coordinate|
                legal_moves@.contains(to) <==> to.in_bounds() && self@.can_go(piece_coordinate, to),
            legal_moves@.no_duplicates(),
    {
        let mut legal_moves = Vec::<Coordinate>::new();
        if let Some(piece) = self.squares[piece_coordinate.x][piece_coordinate.y] {
            for to_x in 0..8usize
                invariant
                    piece_coordinate.in_bounds(),
                    self@.kings_on_board(),
                    piece_at(self@.squares, piece_coordinate) == Some(piece),
                    lists_targets(self@, piece_coordinate, legal_moves@, to_x as int, 0),
            {
                for to_y in 0..8usize
                    invariant
                        to_x < 8,
                        piece_coordinate.in_bounds(),
                        self@.kings_on_board(),
                        piece_at(self@.squares, piece_coordinate) == Some(piece),
                        lists_targets(self@, piece_coordinate, legal_moves@, to_x as int, to_y as int),
                {
                    let to = Coordinate::new(to_x, to_y);
                    let ghost before = legal_moves@;
                    if piece.is_legal_move(piece_coordinate, to, self, false) != MoveType::Illegal {
                        legal_moves.push(to);
                    }
                    proof {
                        lemma_targets_step(self@, piece_coordinate, before, to);
                    }
                }
                assert(lists_targets(self@, piece_coordinate, legal_moves@, to_x + 1, 0)) by {
                    assert forall|to: Coordinate| to.in_bounds() implies (comes_before(to, to_x as int, 8)
                        <==> comes_before(to, to_x + 1, 0)) by {}
                }
            }
        }
        legal_moves
    }

    /// Every legal move of the side to move, as pairs of the square a piece leaves and
    /// the square it goes to. Each move is listed once.
    pub fn all_legal_moves(&self) -> (legal_moves: Vec<(Coordinate, Coordinate)>)
        requires
            self@.kings_on_board(),
        ensures
            forall|from: Coordinate, to: Coordinate|
                legal_moves@.contains((from, to)) <==> from.in_bounds() && to.in_bounds()
                    && self@.is_legal(from, to),
            legal_moves@.no_duplicates(),
    {
        let mut legal_moves = Vec::<(Coordinate, Coordinate)>::new();
        for from_x in 0..8usize
            invariant
                self@.kings_on_board(),
                lists_moves(self@, legal_moves@, from_x as int, 0),
        {
            for from_y in 0..8usize
                invariant
                    from_x < 8,
                    self@.kings_on_board(),
                    lists_moves(self@, legal_moves@, from_x as int, from_y as int),
            {
                let from = Coordinate::new(from_x, from_y);
                let ghost before = legal_moves@;
                let mut mine = false;
                if let Some(piece) = self.squares[from_x][from_y] {
                    mine = piece.get_color() == self.side_to_move;
                }
                if mine {
                    let targets = self.get_legal_moves_for_piece_at(from);
                    append_moves(&mut legal_moves, from, &targets);
                    proof {
                        lemma_moves_step(self@, before, from, targets@);
                    }
                } else {
                    proof {
                        lemma_moves_skip(self@, before, from);
                    }
                }
            }
            assert(lists_moves(self@, legal_moves@, from_x + 1, 0)) by {
                assert forall|from: Coordinate| from.in_bounds() implies (comes_before(
                    from,
                    from_x as int,
                    8,
                ) <==> comes_before(from, from_x + 1, 0)) by {}
            }
        }
        legal_moves
    }

    /// Whether `target` is found three times among the earlier positions and `current`.
    fn occurs_thrice(&self, current: &ChessPosition, target: &ChessPosition) -> (thrice: bool)
        ensures
            thrice == (occurrences(self@.history.push(current@), target@) >= 3),
    {
        let mut repetitions: u8 = 0;
        let n = self.previous_positions.len();
        for j in 0..n
            invariant
                n == self.previous_positions.len(),
                repetitions < 3,
                repetitions == occurrences(self@.history.take(j as int), target@),
        {
            proof {
                assert(self@.history.take(j + 1) =~= self@.history.take(j as int).push(
                    self@.history[j as int],
                ));
                lemma_occurrences_push(
                    self@.history.take(j as int),
                    self@.history[j as int],
                    target@,
                );
            }
            if self.previous_positions[j] == *target {
                repetitions += 1;
                if repetitions >= 3 {
                    proof {
                        lemma_occurrences_prefix(self@.history, j + 1, target@);
                        lemma_occurrences_push(self@.history, current@, target@);
                    }
                    return true;
                }
            }
        }
        proof {
            assert(self@.history.take(n as int) =~= self@.history);
            lemma_occurrences_push(self@.history, current@, target@);
        }
        if *current == *target {
            repetitions += 1;
        }
        repetitions >= 3
    }

    /// How the game stands for the side to move.
    pub fn check_game_status(&self) -> (status: GameStatus)
        requires
            self@.kings_on_board(),
        ensures
            status == self@.evaluate(),
    {
        let moves = self.all_legal_moves();
        if moves.len() == 0 {
            assert forall|from: Coordinate, to: Coordinate|
                from.in_bounds() && to.in_bounds() implies !#[trigger] self@.is_legal(from, to) by {
                assert(!moves@.contains((from, to)));
            }
            if self.is_in_check(self.side_to_move) {
                let mut winner = self.side_to_move;
                winner.switch();
                return GameStatus::Win(winner);
            }
            return GameStatus::Draw(DrawType::Stalemate);
        }
        proof {
            let (from, to) = moves@[0];
            assert(moves@.contains((from, to)));
            assert(self@.is_legal(from, to));
        }
        if self.move_rule_counter >= 100 {
            return GameStatus::Draw(DrawType::MoveRule);
        }
        let current = ChessPosition::new(self);
        let ghost all_positions = self@.history.push(current@);
        let n = self.previous_positions.len();
        for i in 0..n
            invariant
                n == self.previous_positions.len(),
                self@.has_legal_move(),
                self.move_rule_counter < 100,
                current@ == self@.snapshot(),
                all_positions == self@.history.push(current@),
                forall|k: int|
                    0 <= k < i ==> occurrences(all_positions, #[trigger] all_positions[k]) < 3,
        {
            if self.occurs_thrice(&current, &self.previous_positions[i]) {
                assert(all_positions[i as int] == self.previous_positions[i as int]@);
                return GameStatus::Draw(DrawType::Repetition);
            }
            assert(all_positions[i as int] == self.previous_positions[i as int]@);
        }
        if self.occurs_thrice(&current, &current) {
            assert(all_positions[n as int] == current@);
            return GameStatus::Draw(DrawType::Repetition);
        }
        assert(all_positions[n as int] == current@);
        GameStatus::Ongoing
    }

    /// Lets the en-passant marks lapse that were not set for this turn.
    fn reset_enpassantable_flags(&mut self)
        ensures
            final(self)@ == old(self)@.refreshed(),
            final(self).previous_positions == old(self).previous_positions,
    {
        for y in 0..8usize
            invariant
                self.side_to_move == old(self).side_to_move,
                self.white_king_position == old(self).white_king_position,
                self.black_king_position == old(self).black_king_position,
                self.turn_number == old(self).turn_number,
                self.game_status == old(self).game_status,
                self.move_rule_counter == old(self).move_rule_counter,
                self.previous_positions == old(self).previous_positions,
                forall|i: int, j: int|
                    0 <= i < 8 && 0 <= j < 8 ==> #[trigger] self.squares[i][j] == if j < y {
                        expire(old(self).squares[i][j], old(self).turn_number as nat)
                    } else {
                        old(self).squares[i][j]
                    },
        {
            for x in 0..8usize
                invariant
                    y < 8,
                    self.side_to_move == old(self).side_to_move,
                    self.white_king_position == old(self).white_king_position,
                    self.black_king_position == old(self).black_king_position,
                    self.turn_number == old(self).turn_number,
                    self.game_status == old(self).game_status,
                    self.move_rule_counter == old(self).move_rule_counter,
                    self.previous_positions == old(self).previous_positions,
                    forall|i: int, j: int|
                        0 <= i < 8 && 0 <= j < 8 ==> #[trigger] self.squares[i][j] == if j < y || (j
                            == y && i < x) {
                            expire(old(self).squares[i][j], old(self).turn_number as nat)
                        } else {
                            old(self).squares[i][j]
                        },
            {
                if let Some(Piece::Pawn { color, enpassantable_turn: Some(turn) }) =
                    self.squares[x][y] {
                    if turn != self.turn_number {
                        self.squares[x][y] = Some(Piece::Pawn { color, enpassantable_turn: None });
                    }
                }
            }
        }
        proof {
            assert(is_grid(self@.squares));
            lemma_grid_extensional(self@.squares, old(self)@.refreshed().squares);
        }
    }

    /// Makes the move from `from` to `to` for the side to move, or turns it down.
    ///
    /// A move that is turned down leaves the game as it was. A move that is made
    /// changes the game as `Position::after_move` says and returns how the game then
    /// stands. `promotion` is the piece that a pawn becomes on the last rank.
    pub fn move_piece(
        &mut self,
        from: (usize, usize),
        to: (usize, usize),
        promotion: Option<PromotionPiece>,
    ) -> (result: Result<GameStatus, MoveError>)
        requires
            old(self).wf(),
        ensures
            final(self).wf(),
            match old(self)@.rejection(
                Coordinate { x: from.0, y: from.1 },
                Coordinate { x: to.0, y: to.1 },
            ) {
                Some(error) => {
                    &&& result == Err::<GameStatus, MoveError>(error)
                    &&& *final(self) == *old(self)
                },
                None => {
                    &&& result == Ok::<GameStatus, MoveError>(final(self).game_status)
                    &&& final(self)@ == old(self)@.after_move(
                        Coordinate { x: from.0, y: from.1 },
                        Coordinate { x: to.0, y: to.1 },
                        promotion,
                    )
                },
            },
    {
        let from = Coordinate::from_tuple_usize(from);
        let to = Coordinate::from_tuple_usize(to);
        if self.game_status != GameStatus::Ongoing {
            return Err(MoveError::GameHasEnded);
        }
        if from == to {
            return Err(MoveError::PieceMovedToSameSquare);
        }
        if to.x >= 8 || to.y >= 8 || from.x >= 8 || from.y >= 8 {
            return Err(MoveError::OutOfBounds);
        }
        let squares_before = self.squares;
        self.reset_enpassantable_flags();
        let position_before_move = ChessPosition::new(self);
        let piece = match self.squares[from.x][from.y] {
            None => {
                self.squares = squares_before;
                return Err(MoveError::NoPieceToMove);
            },
            Some(piece) => piece,
        };
        if piece.get_color() != self.side_to_move {
            self.squares = squares_before;
            return Err(MoveError::NotYourTurn);
        }
        let kind = piece.is_legal_move(from, to, self, false);
        if kind == MoveType::Illegal {
            self.squares = squares_before;
            return Err(MoveError::IllegalMove);
        }
        relocate(&mut self.squares, kind, piece, from, to, promotion, self.turn_number);
        settle(&mut self.squares, to);
        match kind {
            MoveType::CastleShort | MoveType::CastleLong | MoveType::Other => {
                self.move_rule_counter += 1;
            },
            _ => {
                self.move_rule_counter = 0;
            },
        }
        if let Piece::King { color, .. } = piece {
            match color {
                Color::White => self.white_king_position = to,
                Color::Black => self.black_king_position = to,
            }
        }
        self.previous_positions.push(position_before_move);
        self.turn_number += 1;
        self.side_to_move.switch();
        let game_status = self.check_game_status();
        self.game_status = game_status;
        proof {
            lemma_moves_keep_wf(old(self)@, from, to, promotion);
            assert(self@.history =~= old(self)@.history.push(position_before_move@));
        }
        Ok(game_status)
    }
}

} // verus!
