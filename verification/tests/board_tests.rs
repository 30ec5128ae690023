use rust_chess::board::Board;
use rust_chess::board::MoveError;
use rust_chess::piece::Piece;
use rust_chess::piece::Side;
use rust_chess::piece::Type;
use rust_chess::position::Pos;

fn empty_cells() -> Vec<Option<Piece>> {
    vec![None; 64]
}

fn put(cells: &mut Vec<Option<Piece>>, column: char, row: u8, t: Type, s: Side) {
    cells[Pos::at(column, row)] = Some(Piece::new(t, s));
}

#[test]
fn fresh_board_layout() {
    let b = Board::new();
    assert_eq!(b.current_move(), Side::White);
    // pawns on ranks 2 and 7
    for column in 'a'..='h' {
        let w = b.at(Pos::new(column, 2)).unwrap();
        assert_eq!(w.p_type(), Type::Pawn(false));
        assert_eq!(w.p_side(), Side::White);
        let bl = b.at(Pos::new(column, 7)).unwrap();
        assert_eq!(bl.p_type(), Type::Pawn(false));
        assert_eq!(bl.p_side(), Side::Black);
    }
    // back ranks
    let order = [
        ('a', Type::Rook),
        ('b', Type::Knight),
        ('c', Type::Bishop),
        ('d', Type::Queen),
        ('e', Type::King),
        ('f', Type::Bishop),
        ('g', Type::Knight),
        ('h', Type::Rook),
    ];
    for (column, t) in order {
        let w = b.at(Pos::new(column, 1)).unwrap();
        assert_eq!(w.p_type(), t);
        assert_eq!(w.p_side(), Side::White);
        let bl = b.at(Pos::new(column, 8)).unwrap();
        assert_eq!(bl.p_type(), t);
        assert_eq!(bl.p_side(), Side::Black);
    }
    // the middle of the board is empty
    for column in 'a'..='h' {
        for row in 3..=6 {
            assert!(b.at(Pos::new(column, row)).is_none());
        }
    }
}

#[test]
fn white_opens_e2_e4() {
    let mut b = Board::new();
    let r = b.move_piece(Pos::new('e', 2), Pos::new('e', 4));
    assert_eq!(r, Ok(()));
    let p = b.at(Pos::new('e', 4)).unwrap();
    assert_eq!(p.p_type(), Type::Pawn(true));
    assert_eq!(p.p_side(), Side::White);
    assert!(b.at(Pos::new('e', 2)).is_none());
    assert_eq!(b.current_move(), Side::Black);
}

#[test]
fn wrong_side_selected() {
    let mut b = Board::new();
    // e7 holds a Black pawn, but it is White's move
    let r = b.move_piece(Pos::new('e', 7), Pos::new('e', 6));
    assert_eq!(r, Err(MoveError::WrongSideSelected));
    // nothing changed
    assert_eq!(b.current_move(), Side::White);
    assert!(b.at(Pos::new('e', 6)).is_none());
    assert_eq!(b.at(Pos::new('e', 7)).unwrap().p_type(), Type::Pawn(false));
}

#[test]
fn empty_square_selected() {
    let mut b = Board::new();
    let r = b.move_piece(Pos::new('e', 4), Pos::new('e', 5));
    assert_eq!(r, Err(MoveError::EmptySquareSelected));
    assert_eq!(b.current_move(), Side::White);
}

#[test]
fn illegal_destination() {
    let mut b = Board::new();
    // a pawn cannot advance three squares
    let r = b.move_piece(Pos::new('e', 2), Pos::new('e', 5));
    assert_eq!(r, Err(MoveError::IllegalDestination));
    assert_eq!(b.current_move(), Side::White);
    assert_eq!(b.at(Pos::new('e', 2)).unwrap().p_type(), Type::Pawn(false));
}

#[test]
fn fresh_rook_has_no_moves() {
    let b = Board::new();
    let moves = b.possible_moves(Pos::new('a', 1));
    assert!(moves.is_empty());
}

#[test]
fn empty_square_has_no_moves() {
    let b = Board::new();
    let moves = b.possible_moves(Pos::new('d', 5));
    assert!(moves.is_empty());
}

#[test]
fn lone_king_has_eight_moves() {
    let mut cells = empty_cells();
    put(&mut cells, 'e', 4, Type::King, Side::White);
    let b = Board::from_cells(cells, Side::White);
    let moves = b.possible_moves(Pos::new('e', 4));
    assert_eq!(moves.len(), 8);
    for (c, r) in [
        ('d', 3),
        ('d', 4),
        ('d', 5),
        ('e', 3),
        ('e', 5),
        ('f', 3),
        ('f', 4),
        ('f', 5),
    ] {
        assert!(moves.contains(&Pos::new(c, r)));
    }
}

#[test]
fn cornered_king_has_three_moves() {
    let mut cells = empty_cells();
    put(&mut cells, 'a', 1, Type::King, Side::Black);
    let b = Board::from_cells(cells, Side::Black);
    let moves = b.possible_moves(Pos::new('a', 1));
    assert_eq!(moves.len(), 3);
    assert!(moves.contains(&Pos::new('a', 2)));
    assert!(moves.contains(&Pos::new('b', 1)));
    assert!(moves.contains(&Pos::new('b', 2)));
}

#[test]
fn king_avoids_own_pieces_and_captures() {
    let mut cells = empty_cells();
    put(&mut cells, 'e', 4, Type::King, Side::White);
    put(&mut cells, 'e', 5, Type::Pawn(true), Side::White);
    put(&mut cells, 'd', 3, Type::Rook, Side::Black);
    let b = Board::from_cells(cells, Side::White);
    let moves = b.possible_moves(Pos::new('e', 4));
    assert_eq!(moves.len(), 7);
    assert!(!moves.contains(&Pos::new('e', 5)));
    assert!(moves.contains(&Pos::new('d', 3)));
}

#[test]
fn rook_ray_stops_at_first_occupied() {
    let mut cells = empty_cells();
    put(&mut cells, 'a', 1, Type::Rook, Side::White);
    put(&mut cells, 'a', 4, Type::Knight, Side::Black);
    put(&mut cells, 'd', 1, Type::Bishop, Side::White);
    let b = Board::from_cells(cells, Side::White);
    let moves = b.possible_moves(Pos::new('a', 1));
    // up the file: a2, a3, then the capture on a4 and nothing beyond
    assert!(moves.contains(&Pos::new('a', 2)));
    assert!(moves.contains(&Pos::new('a', 3)));
    assert!(moves.contains(&Pos::new('a', 4)));
    assert!(!moves.contains(&Pos::new('a', 5)));
    assert!(!moves.contains(&Pos::new('a', 8)));
    // along the rank: b1, c1; d1 holds an own piece and stops the ray
    assert!(moves.contains(&Pos::new('b', 1)));
    assert!(moves.contains(&Pos::new('c', 1)));
    assert!(!moves.contains(&Pos::new('d', 1)));
    assert!(!moves.contains(&Pos::new('e', 1)));
    assert_eq!(moves.len(), 5);
}

#[test]
fn bishop_moves_on_diagonals() {
    let mut cells = empty_cells();
    put(&mut cells, 'c', 1, Type::Bishop, Side::White);
    put(&mut cells, 'e', 3, Type::Pawn(true), Side::Black);
    let b = Board::from_cells(cells, Side::White);
    let moves = b.possible_moves(Pos::new('c', 1));
    assert!(moves.contains(&Pos::new('d', 2)));
    assert!(moves.contains(&Pos::new('e', 3)));
    assert!(!moves.contains(&Pos::new('f', 4)));
    assert!(moves.contains(&Pos::new('b', 2)));
    assert!(moves.contains(&Pos::new('a', 3)));
    assert!(!moves.contains(&Pos::new('c', 2)));
    assert_eq!(moves.len(), 4);
}

#[test]
fn queen_unions_rook_and_bishop_rays() {
    let mut cells = empty_cells();
    put(&mut cells, 'd', 4, Type::Queen, Side::White);
    let b = Board::from_cells(cells, Side::White);
    let moves = b.possible_moves(Pos::new('d', 4));
    // 7 on the file + 7 on the rank + 13 on the two diagonals
    assert_eq!(moves.len(), 27);
    assert!(moves.contains(&Pos::new('d', 8)));
    assert!(moves.contains(&Pos::new('h', 4)));
    assert!(moves.contains(&Pos::new('a', 1)));
    assert!(moves.contains(&Pos::new('a', 7)));
    assert!(moves.contains(&Pos::new('h', 8)));
    assert!(!moves.contains(&Pos::new('e', 6)));
}

#[test]
fn knight_jumps_and_corner_knight() {
    let b = Board::new();
    let moves = b.possible_moves(Pos::new('b', 1));
    assert_eq!(moves.len(), 2);
    assert!(moves.contains(&Pos::new('a', 3)));
    assert!(moves.contains(&Pos::new('c', 3)));

    let mut cells = empty_cells();
    put(&mut cells, 'a', 1, Type::Knight, Side::White);
    let b2 = Board::from_cells(cells, Side::White);
    let corner = b2.possible_moves(Pos::new('a', 1));
    assert_eq!(corner.len(), 2);
    assert!(corner.contains(&Pos::new('b', 3)));
    assert!(corner.contains(&Pos::new('c', 2)));
}

#[test]
fn pawn_advances_and_captures() {
    let mut cells = empty_cells();
    put(&mut cells, 'd', 4, Type::Pawn(true), Side::White);
    put(&mut cells, 'c', 5, Type::Rook, Side::Black);
    put(&mut cells, 'e', 5, Type::Rook, Side::White);
    let b = Board::from_cells(cells, Side::White);
    let moves = b.possible_moves(Pos::new('d', 4));
    // ahead, the enemy capture, but not the own piece diagonal
    assert!(moves.contains(&Pos::new('d', 5)));
    assert!(moves.contains(&Pos::new('c', 5)));
    assert!(!moves.contains(&Pos::new('e', 5)));
    assert_eq!(moves.len(), 2);
}

#[test]
fn pawn_cannot_capture_straight_ahead() {
    let mut cells = empty_cells();
    put(&mut cells, 'd', 4, Type::Pawn(true), Side::White);
    put(&mut cells, 'd', 5, Type::Pawn(true), Side::Black);
    let b = Board::from_cells(cells, Side::White);
    let moves = b.possible_moves(Pos::new('d', 4));
    assert!(moves.is_empty());
}

#[test]
fn black_pawn_moves_toward_rank_one() {
    let mut cells = empty_cells();
    put(&mut cells, 'd', 7, Type::Pawn(false), Side::Black);
    let b = Board::from_cells(cells, Side::Black);
    let moves = b.possible_moves(Pos::new('d', 7));
    assert_eq!(moves.len(), 2);
    assert!(moves.contains(&Pos::new('d', 6)));
    assert!(moves.contains(&Pos::new('d', 5)));
}

#[test]
fn moved_pawn_loses_double_step() {
    let mut cells = empty_cells();
    put(&mut cells, 'd', 2, Type::Pawn(true), Side::White);
    let b = Board::from_cells(cells, Side::White);
    let moves = b.possible_moves(Pos::new('d', 2));
    assert_eq!(moves.len(), 1);
    assert!(moves.contains(&Pos::new('d', 3)));
}

#[test]
fn unmoved_pawn_double_step_ignores_intermediate_square() {
    // the documented quirk: the two-ahead square is offered whenever it
    // is empty and the flag is unset, even with the one-ahead square
    // blocked
    let mut cells = empty_cells();
    put(&mut cells, 'd', 2, Type::Pawn(false), Side::White);
    put(&mut cells, 'd', 3, Type::Rook, Side::Black);
    let b = Board::from_cells(cells, Side::White);
    let moves = b.possible_moves(Pos::new('d', 2));
    assert!(!moves.contains(&Pos::new('d', 3)));
    assert!(moves.contains(&Pos::new('d', 4)));
    assert_eq!(moves.len(), 1);
}

#[test]
fn capture_removes_the_captured_piece() {
    let mut cells = empty_cells();
    put(&mut cells, 'a', 1, Type::Rook, Side::White);
    put(&mut cells, 'a', 5, Type::Knight, Side::Black);
    let mut b = Board::from_cells(cells, Side::White);
    let r = b.move_piece(Pos::new('a', 1), Pos::new('a', 5));
    assert_eq!(r, Ok(()));
    let p = b.at(Pos::new('a', 5)).unwrap();
    assert_eq!(p.p_type(), Type::Rook);
    assert_eq!(p.p_side(), Side::White);
    assert!(b.at(Pos::new('a', 1)).is_none());
    assert_eq!(b.current_move(), Side::Black);
}

#[test]
fn move_succeeds_iff_destination_is_possible() {
    let mut b = Board::new();
    // every listed destination of the b1 knight is accepted ...
    let moves = b.possible_moves(Pos::new('b', 1));
    assert!(moves.contains(&Pos::new('c', 3)));
    assert_eq!(b.move_piece(Pos::new('b', 1), Pos::new('c', 3)), Ok(()));
    // ... and for Black a square outside the list is rejected
    let black_moves = b.possible_moves(Pos::new('b', 8));
    assert!(!black_moves.contains(&Pos::new('d', 7)));
    assert_eq!(
        b.move_piece(Pos::new('b', 8), Pos::new('d', 7)),
        Err(MoveError::IllegalDestination)
    );
}

#[test]
fn sides_alternate_over_a_short_game() {
    let mut b = Board::new();
    assert_eq!(b.current_move(), Side::White);
    assert_eq!(b.move_piece(Pos::new('e', 2), Pos::new('e', 4)), Ok(()));
    assert_eq!(b.current_move(), Side::Black);
    assert_eq!(b.move_piece(Pos::new('e', 7), Pos::new('e', 5)), Ok(()));
    assert_eq!(b.current_move(), Side::White);
    assert_eq!(b.move_piece(Pos::new('g', 1), Pos::new('f', 3)), Ok(()));
    assert_eq!(b.current_move(), Side::Black);
}

#[test]
fn move_error_messages() {
    assert_eq!(
        MoveError::EmptySquareSelected.message(),
        "An empty field was selected."
    );
    assert_eq!(MoveError::WrongSideSelected.message(), "Wrong piece was selected.");
    assert_eq!(
        MoveError::IllegalDestination.message(),
        "Specified move is impossible."
    );
}
