//! The 8x8 board: cell contents, the standard starting layout, and
//! validated move application.

use vstd::prelude::*;

use crate::legal_moves::{
    find_move, find_move_from, legal_move_seq, lemma_legal_moves_wf, move_wf, moves_result_matches,
    LegalMovesComputer,
};
use crate::move_info::{coord_valid, Coordinate, MoveInfo, SpecMove};

verus! {

/// Whether a piece steps forward (for a man) or in both row directions
/// (for a king).
#[derive(Copy, Clone, Debug, PartialEq, Eq, Structural)]
pub enum PieceType {
    Man,
    King,
}

/// The side a piece belongs to. White advances toward increasing row
/// index, Black toward decreasing row index.
#[derive(Copy, Clone, Debug, PartialEq, Eq, Structural)]
pub enum PieceColor {
    White,
    Black,
}

/// A piece on the board: its kind and its color.
#[derive(Copy, Clone, Debug, PartialEq, Eq, Structural)]
pub struct Piece {
    pub piece_type: PieceType,
    pub color: PieceColor,
}

/// What a cell holds: nothing, or exactly one piece.
#[derive(Copy, Clone, Debug, PartialEq, Eq, Structural)]
pub enum SlotContent {
    Empty,
    Piece(Piece),
}

/// The failures a board operation can report. All are recoverable by the
/// caller; a failed operation leaves the board unchanged.
#[derive(Debug)]
pub enum CheckerError {
    /// The requested destination is not among the legal moves from the
    /// origin. Carries the rejected request and a short reason.
    IllegalMove(MoveInfo, String),
    /// An axis of the coordinate lies outside `[0, 7]`.
    InvalidCoordinate(Coordinate),
    /// The cell that a move or a move-generation request starts from holds
    /// no piece.
    EmptyCell(Coordinate),
}

/// Position of the cell `(x, y)` in the row-major cell sequence.
pub open spec fn idx(x: int, y: int) -> int {
    y * 8 + x
}

/// The standard starting content of cell `(x, y)`: men on the dark squares
/// (column + row even) of rows 0-2 (White) and 5-7 (Black).
pub open spec fn initial_cell(x: int, y: int) -> SlotContent {
    if (x + y) % 2 == 0 && 0 <= y <= 2 {
        SlotContent::Piece(Piece { piece_type: PieceType::Man, color: PieceColor::White })
    } else if (x + y) % 2 == 0 && 5 <= y <= 7 {
        SlotContent::Piece(Piece { piece_type: PieceType::Man, color: PieceColor::Black })
    } else {
        SlotContent::Empty
    }
}

/// The 8x8 grid of cells, stored row-major: the cell `(x, y)` sits at
/// index `y * 8 + x`.
pub struct Board {
    cells: Vec<SlotContent>,
}

impl View for Board {
    type V = Seq<SlotContent>;

    closed spec fn view(&self) -> Seq<SlotContent> {
        self.cells@
    }
}

impl Board {
    /// The board's internal invariant: one slot per cell of the 8x8 grid.
    pub open spec fn wf(&self) -> bool {
        self@.len() == 64
    }

    /// Builds the standard starting layout: for every cell, its content is
    /// exactly `initial_cell`.
    pub fn new() -> (board: Board)
        ensures
            board.wf(),
            forall|x: int, y: int|
                coord_valid(x, y) ==> board@[#[trigger] idx(x, y)] == initial_cell(x, y),
    {
        let mut cells: Vec<SlotContent> = Vec::new();
        let mut y: usize = 0;
        while y < 8
            invariant
                y <= 8,
                cells@.len() == y * 8,
                forall|x2: int, y2: int|
                    0 <= x2 < 8 && 0 <= y2 < y ==> cells@[#[trigger] idx(x2, y2)] == initial_cell(
                        x2,
                        y2,
                    ),
            decreases 8 - y,
        {
            let mut x: usize = 0;
            while x < 8
                invariant
                    x <= 8,
                    y < 8,
                    cells@.len() == y * 8 + x,
                    forall|x2: int, y2: int|
                        0 <= x2 < 8 && 0 <= y2 < y ==> cells@[#[trigger] idx(x2, y2)]
                            == initial_cell(x2, y2),
                    forall|x2: int|
                        0 <= x2 < x ==> cells@[#[trigger] idx(x2, y as int)] == initial_cell(
                            x2,
                            y as int,
                        ),
                decreases 8 - x,
            {
                let content = if (x + y) % 2 == 0 && y <= 2 {
                    SlotContent::Piece(Piece { piece_type: PieceType::Man, color: PieceColor::White })
                } else if (x + y) % 2 == 0 && y >= 5 {
                    SlotContent::Piece(Piece { piece_type: PieceType::Man, color: PieceColor::Black })
                } else {
                    SlotContent::Empty
                };
                cells.push(content);
                x += 1;
            }
            y += 1;
        }
        Board { cells }
    }

    /// Reads the content of a pre-validated coordinate. Read-only.
    pub fn at(&self, coordinate: &Coordinate) -> (r: SlotContent)
        requires
            self.wf(),
            coordinate.valid(),
        ensures
            r == self@[idx(coordinate@.0, coordinate@.1)],
    {
        self.cells[coordinate.y * 8 + coordinate.x]
    }

    /// Writes one pre-validated cell; every other cell keeps its content.
    fn set_cell(&mut self, coordinate: &Coordinate, content: SlotContent)
        requires
            old(self).wf(),
            coordinate.valid(),
        ensures
            final(self).wf(),
            final(self)@ == old(self)@.update(idx(coordinate@.0, coordinate@.1), content),
    {
        let i = coordinate.y * 8 + coordinate.x;
        self.cells.set(i, content);
    }

    /// Mutates exactly the cells a matched move touches: its origin
    /// empties, its destination receives the origin's piece, and every
    /// captured square empties.
    fn apply_move_cells(&mut self, chosen: &MoveInfo)
        requires
            old(self).wf(),
            chosen.from.valid(),
            chosen.to.valid(),
            forall|j: int|
                0 <= j < chosen@.capturing.len() ==> coord_valid(
                    (#[trigger] chosen@.capturing[j]).0,
                    chosen@.capturing[j].1,
                ),
        ensures
            final(self).wf(),
            final(self)@ == board_after_move(old(self)@, chosen@),
    {
        let ghost b0 = self@;
        let ghost m = chosen@;
        let piece_cell = self.at(&chosen.from);
        self.set_cell(&chosen.from, SlotContent::Empty);
        self.set_cell(&chosen.to, piece_cell);
        let ghost b2 = self@;
        proof {
            assert(b2 == b0.update(idx(m.from.0, m.from.1), SlotContent::Empty).update(
                idx(m.to.0, m.to.1),
                b0[idx(m.from.0, m.from.1)],
            ));
        }
        let cap_n = chosen.capturing.len();
        let mut k: usize = 0;
        while k < cap_n
            invariant
                cap_n == chosen.capturing.len(),
                k <= cap_n,
                self.wf(),
                m == chosen@,
                forall|j: int|
                    0 <= j < m.capturing.len() ==> coord_valid(
                        (#[trigger] m.capturing[j]).0,
                        m.capturing[j].1,
                    ),
                clear_cells_from(self@, m.capturing, k as int) == clear_cells_from(
                    b2,
                    m.capturing,
                    0,
                ),
            decreases cap_n - k,
        {
            self.set_cell(&chosen.capturing[k], SlotContent::Empty);
            k += 1;
        }
        proof {
            assert(self@ == clear_cells_from(b2, m.capturing, 0));
            assert(self@ == board_after_move(b0, m));
        }
    }

    /// Setup helper for arranging a position: puts `content` on a
    /// validated cell and leaves every other cell unchanged. Game play
    /// itself mutates the board only through `move_piece`.
    pub fn place(&mut self, coordinate: Coordinate, content: SlotContent) -> (r: Result<
        (),
        CheckerError,
    >)
        requires
            old(self).wf(),
        ensures
            final(self).wf(),
            match r {
                Ok(()) => coordinate.valid() && final(self)@ == old(self)@.update(
                    idx(coordinate@.0, coordinate@.1),
                    content,
                ),
                Err(e) => !coordinate.valid() && e == CheckerError::InvalidCoordinate(coordinate)
                    && final(self)@ == old(self)@,
            },
    {
        match coordinate.check() {
            Err(e) => Err(e),
            Ok(()) => {
                self.set_cell(&coordinate, content);
                Ok(())
            },
        }
    }

    /// The legal moves for the piece on `coordinate`: validates the origin,
    /// then asks the generator, which reads this board without mutating it.
    pub fn list_legal_moves_for(&self, coordinate: Coordinate) -> (r: Result<
        Vec<MoveInfo>,
        CheckerError,
    >)
        requires
            self.wf(),
        ensures
            moves_result_matches(self@, coordinate, r),
    {
        let computer = LegalMovesComputer::new(self);
        computer.compute(&coordinate)
    }

    /// Applies a requested move after re-validating it against a freshly
    /// computed legal-move set: on success the origin empties, the matched
    /// destination receives the origin's piece, every captured square
    /// empties, and no other cell changes; on failure nothing changes.
    #[verifier::rlimit(50)]
    pub fn move_piece(&mut self, move_info: MoveInfo) -> (r: Result<(), CheckerError>)
        requires
            old(self).wf(),
        ensures
            final(self).wf(),
            match r {
                Ok(()) => move_applied(old(self)@, final(self)@, move_info),
                Err(e) => final(self)@ == old(self)@ && move_error_matches(
                    old(self)@,
                    move_info,
                    e,
                ),
            },
    {
        match move_info.from.check() {
            Err(e) => {
                return Err(e);
            },
            Ok(()) => {},
        }
        match move_info.to.check() {
            Err(e) => {
                return Err(e);
            },
            Ok(()) => {},
        }
        let legal = match self.list_legal_moves_for(move_info.from) {
            Err(e) => {
                return Err(e);
            },
            Ok(v) => v,
        };
        let ghost b0 = self@;
        let ghost target = legal_move_seq(b0, move_info.from@.0, move_info.from@.1);
        proof {
            lemma_legal_moves_wf(b0, move_info.from@.0, move_info.from@.1);
        }
        let n = legal.len();
        let mut i: usize = 0;
        while i < n
            invariant
                n == legal.len(),
                i <= n,
                self.wf(),
                self@ == b0,
                b0 == old(self)@,
                b0[idx(move_info.from@.0, move_info.from@.1)] is Piece,
                coord_valid(move_info.from@.0, move_info.from@.1),
                coord_valid(move_info.to@.0, move_info.to@.1),
                legal@.map_values(|m: MoveInfo| m@) == target,
                target == legal_move_seq(b0, move_info.from@.0, move_info.from@.1),
                find_move(target, move_info.to@) == find_move_from(target, move_info.to@, i as int),
            decreases n - i,
        {
            if legal[i].to == move_info.to {
                let ghost m = target[i as int];
                proof {
                    assert(find_move(target, move_info.to@) == Some(m));
                    assert(move_wf(m, move_info.from@.0, move_info.from@.1));
                    assert(legal@[i as int]@ == m);
                }
                let chosen = &legal[i];
                self.apply_move_cells(chosen);
                return Ok(());
            }
            i += 1;
        }
        Err(
            CheckerError::IllegalMove(
                move_info,
                "destination is not among the legal moves from the origin".to_owned(),
            ),
        )
    }
}

/// Empties the squares of `caps` from position `i` on, in order.
pub open spec fn clear_cells_from(b: Seq<SlotContent>, caps: Seq<(int, int)>, i: int) -> Seq<
    SlotContent,
>
    decreases caps.len() - i,
{
    if 0 <= i < caps.len() {
        clear_cells_from(b.update(idx(caps[i].0, caps[i].1), SlotContent::Empty), caps, i + 1)
    } else {
        b
    }
}

/// The board after the move `m` is applied to `b`: the origin empties, the
/// destination receives the origin's piece, then every captured square
/// empties.
pub open spec fn board_after_move(b: Seq<SlotContent>, m: SpecMove) -> Seq<SlotContent> {
    clear_cells_from(
        b.update(idx(m.from.0, m.from.1), SlotContent::Empty).update(
            idx(m.to.0, m.to.1),
            b[idx(m.from.0, m.from.1)],
        ),
        m.capturing,
        0,
    )
}

/// Two valid coordinates with the same row-major position are the same
/// cell.
pub proof fn lemma_idx_injective(x1: int, y1: int, x2: int, y2: int)
    requires
        coord_valid(x1, y1),
        coord_valid(x2, y2),
        idx(x1, y1) == idx(x2, y2),
    ensures
        x1 == x2 && y1 == y2,
{
}

/// Applying a well-shaped move mutates exactly the affected cells: the
/// origin empties, the destination receives the origin's piece, each
/// captured square empties, and every other cell keeps its content.
pub proof fn lemma_board_after_move_cells(b: Seq<SlotContent>, m: SpecMove, cx: int, cy: int)
    requires
        b.len() == 64,
        coord_valid(cx, cy),
        move_wf(m, cx, cy),
    ensures
        board_after_move(b, m).len() == 64,
        board_after_move(b, m)[idx(m.from.0, m.from.1)] is Empty,
        board_after_move(b, m)[idx(m.to.0, m.to.1)] == b[idx(m.from.0, m.from.1)],
        forall|k: int|
            0 <= k < m.capturing.len() ==> board_after_move(b, m)[idx(
                (#[trigger] m.capturing[k]).0,
                m.capturing[k].1,
            )] is Empty,
        forall|x: int, y: int|
            coord_valid(x, y) && (x, y) != m.from && (x, y) != m.to && !m.capturing.contains(
                (x, y),
            ) ==> board_after_move(b, m)[#[trigger] idx(x, y)] == b[idx(x, y)],
{
    let after = board_after_move(b, m);
    let moved = b.update(idx(m.from.0, m.from.1), SlotContent::Empty).update(
        idx(m.to.0, m.to.1),
        b[idx(m.from.0, m.from.1)],
    );
    if m.capturing.len() == 0 {
        assert(after == moved);
    } else {
        assert(m.capturing.len() == 1);
        assert(after == clear_cells_from(
            moved.update(idx(m.capturing[0].0, m.capturing[0].1), SlotContent::Empty),
            m.capturing,
            1,
        ));
        assert(after == moved.update(
            idx(m.capturing[0].0, m.capturing[0].1),
            SlotContent::Empty,
        ));
        assert(coord_valid(m.capturing[0].0, m.capturing[0].1));
        if idx(m.capturing[0].0, m.capturing[0].1) == idx(m.from.0, m.from.1) {
            lemma_idx_injective(m.capturing[0].0, m.capturing[0].1, m.from.0, m.from.1);
        }
        if idx(m.capturing[0].0, m.capturing[0].1) == idx(m.to.0, m.to.1) {
            lemma_idx_injective(m.capturing[0].0, m.capturing[0].1, m.to.0, m.to.1);
        }
    }
    if idx(m.from.0, m.from.1) == idx(m.to.0, m.to.1) {
        lemma_idx_injective(m.from.0, m.from.1, m.to.0, m.to.1);
    }
    assert forall|x: int, y: int|
        coord_valid(x, y) && (x, y) != m.from && (x, y) != m.to && !m.capturing.contains(
            (x, y),
        ) implies after[#[trigger] idx(x, y)] == b[idx(x, y)] by {
        if idx(x, y) == idx(m.from.0, m.from.1) {
            lemma_idx_injective(x, y, m.from.0, m.from.1);
        }
        if idx(x, y) == idx(m.to.0, m.to.1) {
            lemma_idx_injective(x, y, m.to.0, m.to.1);
        }
        if m.capturing.len() > 0 && idx(x, y) == idx(m.capturing[0].0, m.capturing[0].1) {
            lemma_idx_injective(x, y, m.capturing[0].0, m.capturing[0].1);
            assert(m.capturing[0] == (x, y));
            assert(m.capturing.contains((x, y)));
        }
    }
}

/// A successful application of the request `mi` took the board from `b` to
/// `b2`: both endpoints are valid, the origin held a piece, the freshly
/// computed legal-move set has a first entry with the requested
/// destination, and `b2` is exactly that entry applied to `b`.
pub open spec fn move_applied(b: Seq<SlotContent>, b2: Seq<SlotContent>, mi: MoveInfo) -> bool {
    &&& mi.from.valid()
    &&& mi.to.valid()
    &&& b[idx(mi.from@.0, mi.from@.1)] is Piece
    &&& find_move(legal_move_seq(b, mi.from@.0, mi.from@.1), mi.to@) matches Some(m) && b2
        == board_after_move(b, m)
}

/// Which error a rejected request `mi` reports, if and only if: the first
/// invalid endpoint, an empty origin, or a destination that no legal move
/// reaches.
pub open spec fn move_error_matches(b: Seq<SlotContent>, mi: MoveInfo, e: CheckerError) -> bool {
    match e {
        CheckerError::InvalidCoordinate(c) => (!mi.from.valid() && c == mi.from) || (
        mi.from.valid() && !mi.to.valid() && c == mi.to),
        CheckerError::EmptyCell(c) => mi.from.valid() && mi.to.valid() && c == mi.from && b[idx(
            mi.from@.0,
            mi.from@.1,
        )] is Empty,
        CheckerError::IllegalMove(m2, _) => mi.from.valid() && mi.to.valid() && b[idx(
            mi.from@.0,
            mi.from@.1,
        )] is Piece && find_move(legal_move_seq(b, mi.from@.0, mi.from@.1), mi.to@) is None && m2@
            == mi@,
    }
}

} // verus!
