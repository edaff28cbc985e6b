//! Legal-move generation: from a board snapshot and an origin coordinate,
//! the ordered sequence of plain steps and single captures for the piece
//! at the origin.

use vstd::prelude::*;

use crate::board::{idx, Board, CheckerError, Piece, PieceColor, PieceType, SlotContent};
use crate::move_info::{coord_valid, Coordinate, MoveInfo, SpecMove};

verus! {

/// The signed axis delta of one diagonal step.
pub open spec fn delta(pos: bool) -> int {
    if pos {
        1
    } else {
        -1
    }
}

/// The cell holds a piece of the given color.
pub open spec fn holds_color(c: SlotContent, color: PieceColor) -> bool {
    match c {
        SlotContent::Piece(p) => p.color == color,
        SlotContent::Empty => false,
    }
}

/// The moves (none or one) that a piece of `color` standing at `(cx, cy)`
/// has in the diagonal direction `(dx, dy)`: a plain step onto an empty
/// neighbor, or a jump over an opposing neighbor onto the empty square one
/// further step beyond it.
pub open spec fn dir_moves(
    b: Seq<SlotContent>,
    color: PieceColor,
    cx: int,
    cy: int,
    dx: int,
    dy: int,
) -> Seq<SpecMove> {
    let tx = cx + dx;
    let ty = cy + dy;
    if !coord_valid(tx, ty) {
        Seq::empty()
    } else {
        match b[idx(tx, ty)] {
            SlotContent::Empty => seq![
                SpecMove { from: (cx, cy), to: (tx, ty), capturing: Seq::empty() },
            ],
            SlotContent::Piece(other) => if other.color == color {
                Seq::empty()
            } else {
                let bx = tx + dx;
                let by = ty + dy;
                if coord_valid(bx, by) && b[idx(bx, by)] is Empty {
                    seq![SpecMove { from: (cx, cy), to: (bx, by), capturing: seq![(tx, ty)] }]
                } else {
                    Seq::empty()
                }
            },
        }
    }
}

/// The moves in one row direction `dy`, column `+1` explored before
/// column `-1`.
pub open spec fn row_moves(b: Seq<SlotContent>, color: PieceColor, cx: int, cy: int, dy: int) -> Seq<
    SpecMove,
> {
    dir_moves(b, color, cx, cy, 1, dy) + dir_moves(b, color, cx, cy, -1, dy)
}

/// All moves of `piece` from `(cx, cy)`: a king explores both row
/// directions (decreasing row first), a man only its color's forward
/// direction.
pub open spec fn piece_moves(b: Seq<SlotContent>, piece: Piece, cx: int, cy: int) -> Seq<SpecMove> {
    match piece.piece_type {
        PieceType::King => row_moves(b, piece.color, cx, cy, -1) + row_moves(b, piece.color, cx, cy, 1),
        PieceType::Man => match piece.color {
            PieceColor::White => row_moves(b, piece.color, cx, cy, 1),
            PieceColor::Black => row_moves(b, piece.color, cx, cy, -1),
        },
    }
}

/// The legal-move sequence from `(cx, cy)`: the moves of the occupying
/// piece, or empty when the cell holds none.
pub open spec fn legal_move_seq(b: Seq<SlotContent>, cx: int, cy: int) -> Seq<SpecMove> {
    match b[idx(cx, cy)] {
        SlotContent::Piece(p) => piece_moves(b, p, cx, cy),
        SlotContent::Empty => Seq::empty(),
    }
}

/// Searches `s` from position `i` for the first move whose destination
/// is `to`.
pub open spec fn find_move_from(s: Seq<SpecMove>, to: (int, int), i: int) -> Option<SpecMove>
    decreases s.len() - i,
{
    if 0 <= i < s.len() {
        if s[i].to == to {
            Some(s[i])
        } else {
            find_move_from(s, to, i + 1)
        }
    } else {
        None
    }
}

/// The first move in `s` whose destination is `to`, if any.
pub open spec fn find_move(s: Seq<SpecMove>, to: (int, int)) -> Option<SpecMove> {
    find_move_from(s, to, 0)
}

/// A move found from position `i` on is an element of the searched
/// sequence, and its destination is the searched one.
proof fn lemma_find_move_from_found(s: Seq<SpecMove>, to: (int, int), i: int)
    ensures
        find_move_from(s, to, i) matches Some(m) ==> s.contains(m) && m.to == to,
    decreases s.len() - i,
{
    if 0 <= i < s.len() {
        if s[i].to == to {
            assert(s.contains(s[i]));
        } else {
            lemma_find_move_from_found(s, to, i + 1);
        }
    }
}

/// A found move is an element of the searched sequence, and its
/// destination is the searched one. Together with `lemma_legal_moves_wf`
/// this lets a caller of move application conclude which cells changed.
pub proof fn lemma_find_move_found(s: Seq<SpecMove>, to: (int, int))
    ensures
        find_move(s, to) matches Some(m) ==> s.contains(m) && m.to == to,
{
    lemma_find_move_from_found(s, to, 0);
}

/// Shape of every generated move from origin `(cx, cy)`: it starts there,
/// its destination is a valid square other than the origin, and it captures
/// at most one square, valid and distinct from both endpoints.
pub open spec fn move_wf(m: SpecMove, cx: int, cy: int) -> bool {
    &&& m.from == (cx, cy)
    &&& coord_valid(m.to.0, m.to.1)
    &&& m.to != m.from
    &&& m.capturing.len() <= 1
    &&& forall|k: int|
        0 <= k < m.capturing.len() ==> coord_valid(
            (#[trigger] m.capturing[k]).0,
            m.capturing[k].1,
        ) && m.capturing[k] != m.from && m.capturing[k] != m.to
}

/// One direction yields at most one move, and that move is well shaped.
proof fn lemma_dir_moves_wf(
    b: Seq<SlotContent>,
    color: PieceColor,
    cx: int,
    cy: int,
    dx: int,
    dy: int,
)
    requires
        coord_valid(cx, cy),
        dx == 1 || dx == -1,
        dy == 1 || dy == -1,
    ensures
        dir_moves(b, color, cx, cy, dx, dy).len() <= 1,
        forall|k: int|
            0 <= k < dir_moves(b, color, cx, cy, dx, dy).len() ==> move_wf(
                #[trigger] dir_moves(b, color, cx, cy, dx, dy)[k],
                cx,
                cy,
            ),
{
    let s = dir_moves(b, color, cx, cy, dx, dy);
    if s.len() > 0 {
        assert(move_wf(s[0], cx, cy));
    }
}

/// Every move that the generator yields from a valid origin is well
/// shaped in the sense of `move_wf`.
pub proof fn lemma_legal_moves_wf(b: Seq<SlotContent>, cx: int, cy: int)
    requires
        coord_valid(cx, cy),
    ensures
        forall|k: int|
            0 <= k < legal_move_seq(b, cx, cy).len() ==> move_wf(
                #[trigger] legal_move_seq(b, cx, cy)[k],
                cx,
                cy,
            ),
{
    let s = legal_move_seq(b, cx, cy);
    match b[idx(cx, cy)] {
        SlotContent::Empty => {},
        SlotContent::Piece(p) => {
            lemma_dir_moves_wf(b, p.color, cx, cy, 1, -1);
            lemma_dir_moves_wf(b, p.color, cx, cy, -1, -1);
            lemma_dir_moves_wf(b, p.color, cx, cy, 1, 1);
            lemma_dir_moves_wf(b, p.color, cx, cy, -1, 1);
        },
    }
}

/// Blocked by own color: a piece whose valid diagonal neighbors are all
/// occupied by its own color has no legal move at all — no step is open
/// and no capture opportunity exists in any direction.
pub proof fn lemma_blocked_by_own_color(b: Seq<SlotContent>, piece: Piece, cx: int, cy: int)
    requires
        coord_valid(cx, cy),
        b[idx(cx, cy)] == SlotContent::Piece(piece),
        forall|nx: int, ny: int|
            (nx == cx - 1 || nx == cx + 1) && (ny == cy - 1 || ny == cy + 1) && coord_valid(nx, ny)
                ==> holds_color(#[trigger] b[idx(nx, ny)], piece.color),
    ensures
        legal_move_seq(b, cx, cy) == Seq::<SpecMove>::empty(),
{
    let e = Seq::<SpecMove>::empty();
    assert(dir_moves(b, piece.color, cx, cy, 1, 1) =~~= e);
    assert(dir_moves(b, piece.color, cx, cy, -1, 1) =~~= e);
    assert(dir_moves(b, piece.color, cx, cy, 1, -1) =~~= e);
    assert(dir_moves(b, piece.color, cx, cy, -1, -1) =~~= e);
    assert(legal_move_seq(b, cx, cy) =~~= e);
}

/// King directionality: a king explores both row directions, decreasing
/// row first, where a man explores only its color's forward direction; so
/// every move a man has, the king of the same color standing on the same
/// square of the same board also has.
pub proof fn lemma_king_directionality(b: Seq<SlotContent>, color: PieceColor, cx: int, cy: int)
    ensures
        piece_moves(b, (Piece { piece_type: PieceType::King, color }), cx, cy) == row_moves(
            b,
            color,
            cx,
            cy,
            -1,
        ) + row_moves(b, color, cx, cy, 1),
        color == PieceColor::White ==> piece_moves(
            b,
            (Piece { piece_type: PieceType::Man, color }),
            cx,
            cy,
        ) == row_moves(b, color, cx, cy, 1),
        color == PieceColor::Black ==> piece_moves(
            b,
            (Piece { piece_type: PieceType::Man, color }),
            cx,
            cy,
        ) == row_moves(b, color, cx, cy, -1),
        forall|k: int|
            0 <= k < piece_moves(b, (Piece { piece_type: PieceType::Man, color }), cx, cy).len()
                ==> piece_moves(b, (Piece { piece_type: PieceType::King, color }), cx, cy).contains(
                #[trigger] piece_moves(b, (Piece { piece_type: PieceType::Man, color }), cx, cy)[k],
            ),
{
    let king = piece_moves(b, Piece { piece_type: PieceType::King, color }, cx, cy);
    let man = piece_moves(b, Piece { piece_type: PieceType::Man, color }, cx, cy);
    let back = row_moves(b, color, cx, cy, -1);
    let fwd = row_moves(b, color, cx, cy, 1);
    assert forall|k: int| 0 <= k < man.len() implies king.contains(man[k]) by {
        match color {
            PieceColor::White => {
                assert(king[back.len() + k] == man[k]);
            },
            PieceColor::Black => {
                assert(king[k] == man[k]);
            },
        }
        assert(king.contains(man[k]));
    }
}

/// The move sequence that an optional single move stands for.
spec fn opt_move_seq(r: Option<MoveInfo>) -> Seq<SpecMove> {
    match r {
        None => Seq::empty(),
        Some(m) => seq![m@],
    }
}

/// The candidate one diagonal step away from `c`, or `None` when that
/// square falls off the grid.
fn step(c: &Coordinate, dx_pos: bool, dy_pos: bool) -> (r: Option<Coordinate>)
    requires
        c.valid(),
    ensures
        match r {
            Some(t) => coord_valid(c@.0 + delta(dx_pos), c@.1 + delta(dy_pos)) && t@ == (
                c@.0 + delta(dx_pos),
                c@.1 + delta(dy_pos),
            ),
            None => !coord_valid(c@.0 + delta(dx_pos), c@.1 + delta(dy_pos)),
        },
{
    if dx_pos && c.x >= 7 {
        return None;
    }
    if !dx_pos && c.x == 0 {
        return None;
    }
    if dy_pos && c.y >= 7 {
        return None;
    }
    if !dy_pos && c.y == 0 {
        return None;
    }
    let nx: usize = if dx_pos {
        c.x + 1
    } else {
        c.x - 1
    };
    let ny: usize = if dy_pos {
        c.y + 1
    } else {
        c.y - 1
    };
    Some(Coordinate { x: nx, y: ny })
}

/// The move, if any, that a piece of `color` at `from` has in the diagonal
/// direction given by the two signs: a plain step onto an empty neighbor,
/// or a jump over an opposing neighbor onto the empty square beyond it.
fn dir_move(board: &Board, color: PieceColor, from: Coordinate, dx_pos: bool, dy_pos: bool) -> (r:
    Option<MoveInfo>)
    requires
        board.wf(),
        from.valid(),
    ensures
        opt_move_seq(r) == dir_moves(board@, color, from@.0, from@.1, delta(dx_pos), delta(dy_pos)),
{
    let result: Option<MoveInfo> = match step(&from, dx_pos, dy_pos) {
        None => None,
        Some(to) => match board.at(&to) {
            SlotContent::Empty => Some(MoveInfo { from, to, capturing: Vec::new() }),
            SlotContent::Piece(other) => {
                if other.color == color {
                    None
                } else {
                    match step(&to, dx_pos, dy_pos) {
                        None => None,
                        Some(behind) => match board.at(&behind) {
                            SlotContent::Empty => Some(
                                MoveInfo { from, to: behind, capturing: vec![to] },
                            ),
                            SlotContent::Piece(_) => None,
                        },
                    }
                }
            },
        },
    };
    proof {
        assert(opt_move_seq(result) =~~= dir_moves(
            board@,
            color,
            from@.0,
            from@.1,
            delta(dx_pos),
            delta(dy_pos),
        ));
    }
    result
}

/// Appends the moves of one row direction: column `+1` first, then
/// column `-1`.
fn push_row(
    board: &Board,
    moves: &mut Vec<MoveInfo>,
    color: PieceColor,
    from: Coordinate,
    dy_pos: bool,
)
    requires
        board.wf(),
        from.valid(),
    ensures
        final(moves)@.map_values(|m: MoveInfo| m@) == old(moves)@.map_values(|m: MoveInfo| m@)
            + row_moves(board@, color, from@.0, from@.1, delta(dy_pos)),
{
    let ghost prev = moves@;
    if let Some(m) = dir_move(board, color, from, true, dy_pos) {
        moves.push(m);
    }
    let ghost mid = moves@;
    proof {
        assert(mid.map_values(|m: MoveInfo| m@) =~~= prev.map_values(|m: MoveInfo| m@) + dir_moves(
            board@,
            color,
            from@.0,
            from@.1,
            1,
            delta(dy_pos),
        ));
    }
    if let Some(m) = dir_move(board, color, from, false, dy_pos) {
        moves.push(m);
    }
    proof {
        assert(moves@.map_values(|m: MoveInfo| m@) =~~= mid.map_values(|m: MoveInfo| m@)
            + dir_moves(board@, color, from@.0, from@.1, -1, delta(dy_pos)));
        assert(moves@.map_values(|m: MoveInfo| m@) =~~= prev.map_values(|m: MoveInfo| m@)
            + row_moves(board@, color, from@.0, from@.1, delta(dy_pos)));
    }
}

/// Computes the legal moves for the piece on a given origin square,
/// reading the board it was created over and never mutating it.
pub struct LegalMovesComputer<'a> {
    board: &'a Board,
}

impl<'a> LegalMovesComputer<'a> {
    /// The cells of the board this computer reads.
    pub closed spec fn board_view(&self) -> Seq<SlotContent> {
        self.board@
    }

    /// The computer is usable: the board it reads is well-formed.
    pub open spec fn wf(&self) -> bool {
        self.board_view().len() == 64
    }

    /// A computer over the given board.
    pub fn new(board: &'a Board) -> (r: Self)
        requires
            board.wf(),
        ensures
            r.wf(),
            r.board_view() == board@,
    {
        LegalMovesComputer { board }
    }

    /// The ordered legal-move sequence from `from`, per the rules: validate
    /// the origin, read its piece, then explore its diagonal directions.
    pub fn compute(&self, from: &Coordinate) -> (r: Result<Vec<MoveInfo>, CheckerError>)
        requires
            self.wf(),
        ensures
            moves_result_matches(self.board_view(), *from, r),
    {
        match from.check() {
            Err(e) => {
                return Err(e);
            },
            Ok(()) => {},
        }
        let piece = match self.board.at(from) {
            SlotContent::Empty => {
                return Err(CheckerError::EmptyCell(*from));
            },
            SlotContent::Piece(p) => p,
        };
        let mut moves: Vec<MoveInfo> = Vec::new();
        match piece.piece_type {
            PieceType::King => {
                push_row(self.board, &mut moves, piece.color, *from, false);
                push_row(self.board, &mut moves, piece.color, *from, true);
            },
            PieceType::Man => match piece.color {
                PieceColor::White => push_row(self.board, &mut moves, piece.color, *from, true),
                PieceColor::Black => push_row(self.board, &mut moves, piece.color, *from, false),
            },
        }
        proof {
            assert(moves@.map_values(|m: MoveInfo| m@) =~~= legal_move_seq(
                self.board_view(),
                from@.0,
                from@.1,
            ));
        }
        Ok(moves)
    }
}

/// What a legal-move request must return for the board `b` and origin:
/// the exact move sequence on success, and the exact error otherwise.
pub open spec fn moves_result_matches(
    b: Seq<SlotContent>,
    origin: Coordinate,
    r: Result<Vec<MoveInfo>, CheckerError>,
) -> bool {
    match r {
        Ok(moves) => {
            &&& origin.valid()
            &&& b[idx(origin@.0, origin@.1)] is Piece
            &&& moves@.map_values(|m: MoveInfo| m@) == legal_move_seq(b, origin@.0, origin@.1)
        },
        Err(e) => match e {
            CheckerError::InvalidCoordinate(c) => c == origin && !origin.valid(),
            CheckerError::EmptyCell(c) => c == origin && origin.valid() && b[idx(
                origin@.0,
                origin@.1,
            )] is Empty,
            CheckerError::IllegalMove(_, _) => false,
        },
    }
}

} // verus!
