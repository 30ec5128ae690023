use vstd::prelude::*;

verus! {

/// The kind of a chess piece.  A pawn also records whether it has ever
/// completed a move, which gates the initial two-square advance.
#[derive(Debug, PartialEq, Eq, Structural, Clone, Copy)]
pub enum Type {
    King,
    Queen,
    Rook,
    Bishop,
    Knight,
    Pawn(bool),
}

/// The side a piece belongs to.
#[derive(Debug, PartialEq, Eq, Structural, Clone, Copy)]
pub enum Side {
    White,
    Black,
}

impl Side {
    /// The opposing side.
    pub open spec fn spec_other(self) -> Side {
        match self {
            Side::White => Side::Black,
            Side::Black => Side::White,
        }
    }

    /// Returns the opposing side.
    pub fn other(self) -> (s: Side)
        ensures
            s == self.spec_other(),
    {
        match self {
            Side::White => Side::Black,
            Side::Black => Side::White,
        }
    }

    /// The side's name, for display by a caller.
    pub fn name(self) -> (s: &'static str)
        ensures
            self is White ==> s@ == "White"@,
            self is Black ==> s@ == "Black"@,
    {
        match self {
            Side::White => "White",
            Side::Black => "Black",
        }
    }
}

/// A chess piece: a kind together with the side that owns it.  Pieces
/// are plain copyable values with no identity beyond the square they
/// occupy.
#[derive(Debug, PartialEq, Eq, Structural, Clone, Copy)]
pub struct Piece {
    pub p_type: Type,
    pub p_side: Side,
}

impl Piece {
    /// The kind of the piece.
    pub open spec fn spec_type(self) -> Type {
        self.p_type
    }

    /// The owning side of the piece.
    pub open spec fn spec_side(self) -> Side {
        self.p_side
    }

    /// The piece after completing a move: an unmoved pawn becomes a
    /// moved pawn; every other piece is unchanged.
    pub open spec fn spec_marked(self) -> Piece {
        if self.p_type == Type::Pawn(false) {
            Piece { p_type: Type::Pawn(true), p_side: self.p_side }
        } else {
            self
        }
    }

    /// Constructs a piece from a kind and a side.
    pub fn new(p_type: Type, p_side: Side) -> (p: Self)
        ensures
            p.spec_type() == p_type,
            p.spec_side() == p_side,
    {
        Self { p_type, p_side }
    }

    /// The kind of the piece.
    pub fn p_type(&self) -> (t: Type)
        ensures
            t == self.spec_type(),
    {
        self.p_type
    }

    /// The owning side of the piece.
    pub fn p_side(&self) -> (s: Side)
        ensures
            s == self.spec_side(),
    {
        self.p_side
    }

    /// Marks a pawn as moved by setting its internal flag to true.
    /// For any piece that is not an unmoved pawn this does nothing.
    pub fn mark_moved(&mut self)
        ensures
            *final(self) == old(self).spec_marked(),
    {
        if self.p_type == Type::Pawn(false) {
            self.p_type = Type::Pawn(true);
        }
    }
}

} // verus!
