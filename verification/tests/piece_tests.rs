use rust_chess::piece::Piece;
use rust_chess::piece::Side;
use rust_chess::piece::Type;

#[test]
fn accessors_return_what_was_built() {
    let p = Piece::new(Type::Queen, Side::Black);
    assert_eq!(p.p_type(), Type::Queen);
    assert_eq!(p.p_side(), Side::Black);
}

#[test]
fn mark_moved_flips_only_an_unmoved_pawn() {
    let mut pawn = Piece::new(Type::Pawn(false), Side::White);
    pawn.mark_moved();
    assert_eq!(pawn.p_type(), Type::Pawn(true));
    // marking again changes nothing
    pawn.mark_moved();
    assert_eq!(pawn.p_type(), Type::Pawn(true));
    // non-pawns are left alone
    let mut rook = Piece::new(Type::Rook, Side::Black);
    rook.mark_moved();
    assert_eq!(rook.p_type(), Type::Rook);
    assert_eq!(rook.p_side(), Side::Black);
}

#[test]
fn side_names_and_opposites() {
    assert_eq!(Side::White.name(), "White");
    assert_eq!(Side::Black.name(), "Black");
    assert_eq!(Side::White.other(), Side::Black);
    assert_eq!(Side::Black.other(), Side::White);
}
