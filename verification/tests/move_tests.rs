use checkers::board::{Board, CheckerError, Piece, PieceColor, PieceType, SlotContent};
use checkers::legal_moves::LegalMovesComputer;
use checkers::move_info::{Coordinate, MoveInfo};

fn coord(x: usize, y: usize) -> Coordinate {
    Coordinate { x, y }
}

fn white_piece(piece_type: PieceType) -> SlotContent {
    SlotContent::Piece(Piece { piece_type, color: PieceColor::White })
}

fn black_man() -> SlotContent {
    SlotContent::Piece(Piece { piece_type: PieceType::Man, color: PieceColor::Black })
}

fn expected_initial(x: usize, y: usize) -> SlotContent {
    if (x + y) % 2 == 0 && y <= 2 {
        white_piece(PieceType::Man)
    } else if (x + y) % 2 == 0 && y >= 5 {
        black_man()
    } else {
        SlotContent::Empty
    }
}

fn cleared_board() -> Board {
    let mut board = Board::new();
    for y in 0..8 {
        for x in 0..8 {
            board.place(coord(x, y), SlotContent::Empty).unwrap();
        }
    }
    board
}

#[test]
fn generation_from_empty_cell_fails() {
    let board = Board::new();
    for (x, y) in [(3, 3), (4, 4), (1, 3), (0, 4)] {
        match board.list_legal_moves_for(coord(x, y)) {
            Err(CheckerError::EmptyCell(bad)) => assert_eq!(bad, coord(x, y)),
            _ => panic!("expected EmptyCell"),
        }
    }
}

#[test]
fn generation_rejects_invalid_origin() {
    let board = Board::new();
    match board.list_legal_moves_for(coord(8, 2)) {
        Err(CheckerError::InvalidCoordinate(bad)) => assert_eq!(bad, coord(8, 2)),
        _ => panic!("expected InvalidCoordinate"),
    }
}

#[test]
fn computer_agrees_with_board() {
    let board = Board::new();
    let computer = LegalMovesComputer::new(&board);
    let direct = board.list_legal_moves_for(coord(2, 2)).unwrap();
    let via_computer = computer.compute(&coord(2, 2)).unwrap();
    assert_eq!(direct.len(), via_computer.len());
    for (a, b) in direct.iter().zip(via_computer.iter()) {
        assert_eq!(a.from, b.from);
        assert_eq!(a.to, b.to);
        assert_eq!(a.capturing, b.capturing);
    }
}

#[test]
fn plain_step_from_initial_board() {
    let mut board = Board::new();
    let moves = board.list_legal_moves_for(coord(2, 2)).unwrap();
    assert_eq!(moves.len(), 2);
    assert_eq!(moves[0].from, coord(2, 2));
    assert_eq!(moves[0].to, coord(3, 3));
    assert!(moves[0].capturing.is_empty());
    assert_eq!(moves[1].to, coord(1, 3));
    assert!(moves[1].capturing.is_empty());

    let request = MoveInfo { from: coord(2, 2), to: coord(3, 3), capturing: vec![] };
    board.move_piece(request).unwrap();
    for y in 0..8 {
        for x in 0..8 {
            let expected = if x == 2 && y == 2 {
                SlotContent::Empty
            } else if x == 3 && y == 3 {
                white_piece(PieceType::Man)
            } else {
                expected_initial(x, y)
            };
            assert_eq!(board.at(&coord(x, y)), expected);
        }
    }
}

#[test]
fn blocked_by_own_color_has_no_moves() {
    let board = Board::new();
    // The white man in the corner of the back rank sees only (1, 1),
    // occupied by its own color.
    let moves = board.list_legal_moves_for(coord(0, 0)).unwrap();
    assert!(moves.is_empty());
}

#[test]
fn single_capture_generated_and_applied() {
    let mut board = Board::new();
    board.place(coord(3, 3), black_man()).unwrap();
    let moves = board.list_legal_moves_for(coord(2, 2)).unwrap();
    let captures: Vec<&MoveInfo> = moves.iter().filter(|m| m.to == coord(4, 4)).collect();
    assert_eq!(captures.len(), 1);
    assert_eq!(captures[0].from, coord(2, 2));
    assert_eq!(captures[0].capturing, vec![coord(3, 3)]);

    let request = MoveInfo { from: coord(2, 2), to: coord(4, 4), capturing: vec![] };
    board.move_piece(request).unwrap();
    assert_eq!(board.at(&coord(2, 2)), SlotContent::Empty);
    assert_eq!(board.at(&coord(3, 3)), SlotContent::Empty);
    assert_eq!(board.at(&coord(4, 4)), white_piece(PieceType::Man));
    for y in 0..8 {
        for x in 0..8 {
            if (x, y) != (2, 2) && (x, y) != (3, 3) && (x, y) != (4, 4) {
                assert_eq!(board.at(&coord(x, y)), expected_initial(x, y));
            }
        }
    }
}

#[test]
fn capture_blocked_by_occupied_landing() {
    let mut board = Board::new();
    board.place(coord(3, 3), black_man()).unwrap();
    board.place(coord(4, 4), black_man()).unwrap();
    let moves = board.list_legal_moves_for(coord(2, 2)).unwrap();
    assert!(moves.iter().all(|m| m.to != coord(4, 4)));
    assert_eq!(moves.len(), 1);
    assert_eq!(moves[0].to, coord(1, 3));
    assert!(moves[0].capturing.is_empty());
}

#[test]
fn illegal_destination_leaves_board_unchanged() {
    let mut board = Board::new();
    let request = MoveInfo { from: coord(2, 2), to: coord(5, 5), capturing: vec![] };
    match board.move_piece(request) {
        Err(CheckerError::IllegalMove(rejected, _)) => {
            assert_eq!(rejected.from, coord(2, 2));
            assert_eq!(rejected.to, coord(5, 5));
        },
        _ => panic!("expected IllegalMove"),
    }
    for y in 0..8 {
        for x in 0..8 {
            assert_eq!(board.at(&coord(x, y)), expected_initial(x, y));
        }
    }
}

#[test]
fn king_explores_both_row_directions() {
    let mut king_board = cleared_board();
    king_board.place(coord(4, 4), white_piece(PieceType::King)).unwrap();
    let king_moves = king_board.list_legal_moves_for(coord(4, 4)).unwrap();

    let mut man_board = cleared_board();
    man_board.place(coord(4, 4), white_piece(PieceType::Man)).unwrap();
    let man_moves = man_board.list_legal_moves_for(coord(4, 4)).unwrap();

    assert_eq!(king_moves.len(), 4);
    assert_eq!(man_moves.len(), 2);
    // Backward row first for the king, column +1 before column -1.
    assert_eq!(king_moves[0].to, coord(5, 3));
    assert_eq!(king_moves[1].to, coord(3, 3));
    assert_eq!(king_moves[2].to, coord(5, 5));
    assert_eq!(king_moves[3].to, coord(3, 5));
    // The man only steps forward, and the king covers both of its moves.
    assert_eq!(man_moves[0].to, coord(5, 5));
    assert_eq!(man_moves[1].to, coord(3, 5));
    for man_move in &man_moves {
        assert!(king_moves.iter().any(|m| m.to == man_move.to));
    }
}

#[test]
fn king_captures_backward() {
    let mut board = cleared_board();
    board.place(coord(4, 4), white_piece(PieceType::King)).unwrap();
    board.place(coord(3, 3), black_man()).unwrap();
    let moves = board.list_legal_moves_for(coord(4, 4)).unwrap();
    let captures: Vec<&MoveInfo> = moves.iter().filter(|m| !m.capturing.is_empty()).collect();
    assert_eq!(captures.len(), 1);
    assert_eq!(captures[0].to, coord(2, 2));
    assert_eq!(captures[0].capturing, vec![coord(3, 3)]);

    let mut board = board;
    let request = MoveInfo { from: coord(4, 4), to: coord(2, 2), capturing: vec![] };
    board.move_piece(request).unwrap();
    assert_eq!(board.at(&coord(4, 4)), SlotContent::Empty);
    assert_eq!(board.at(&coord(3, 3)), SlotContent::Empty);
    assert_eq!(board.at(&coord(2, 2)), white_piece(PieceType::King));
}

#[test]
fn king_blocked_by_own_color_on_all_diagonals() {
    let mut board = cleared_board();
    board.place(coord(4, 4), white_piece(PieceType::King)).unwrap();
    for (x, y) in [(3, 3), (5, 3), (3, 5), (5, 5)] {
        board.place(coord(x, y), white_piece(PieceType::Man)).unwrap();
    }
    let moves = board.list_legal_moves_for(coord(4, 4)).unwrap();
    assert!(moves.is_empty());
}

#[test]
fn black_man_steps_toward_decreasing_rows() {
    let board = Board::new();
    let moves = board.list_legal_moves_for(coord(1, 5)).unwrap();
    assert_eq!(moves.len(), 2);
    assert_eq!(moves[0].to, coord(2, 4));
    assert_eq!(moves[1].to, coord(0, 4));
}
