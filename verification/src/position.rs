use vstd::prelude::*;

verus! {

/// True iff column code `c` (a Unicode scalar value) and row `r` name a
/// cell of the standard 8×8 board: `c` is `'a'..='h'` and `r` is `1..=8`.
pub open spec fn on_board(c: int, r: int) -> bool {
    &&& 97 <= c <= 104
    &&& 1 <= r <= 8
}

/// A board coordinate: a file (column letter `'a'..='h'`) and a rank
/// (row `1..=8`).  Values outside those ranges can be constructed, but
/// they are rejected by `is_valid` and must never be used to address
/// the board.
#[derive(Debug, PartialEq, Eq, Structural, Clone, Copy)]
pub struct Pos {
    pub column: char,
    pub row: u8,
}

impl Pos {
    /// The column as a Unicode scalar value; `'a'` is 97, `'h'` is 104.
    pub open spec fn col_code(self) -> int {
        self.column as int
    }

    /// The row as an integer.
    pub open spec fn row_code(self) -> int {
        self.row as int
    }

    /// A position is on the board iff the column is `'a'..='h'` and the
    /// row is `1..=8`.
    pub open spec fn spec_valid(self) -> bool {
        on_board(self.col_code(), self.row_code())
    }

    /// The canonical linear index over the 64 cells: a1 is 0, h1 is 7,
    /// a2 is 8, ..., h8 is 63.
    pub open spec fn spec_index(self) -> int {
        (self.col_code() - 97) + (self.row_code() - 1) * 8
    }

    /// Constructs a position from a column and a row.  No bounds are
    /// checked here; call `is_valid` before using the result as a board
    /// address.
    pub fn new(column: char, row: u8) -> (p: Self)
        ensures
            p == (Pos { column, row }),
    {
        Self { column, row }
    }

    /// The linear board index of the position `(column, row)`;
    /// equivalent to `Pos::new(column, row).get()`.
    pub fn at(column: char, row: u8) -> (i: usize)
        requires
            (Pos { column, row }).spec_valid(),
        ensures
            i == (Pos { column, row }).spec_index(),
            i < 64,
    {
        let c = column as u32;
        (c - 97) as usize + (row - 1) as usize * 8
    }

    /// The linear board index of this position.
    pub fn get(&self) -> (i: usize)
        requires
            self.spec_valid(),
        ensures
            i == self.spec_index(),
            i < 64,
    {
        let c = self.column as u32;
        (c - 97) as usize + (self.row - 1) as usize * 8
    }

    /// True iff the position lies on the standard 8×8 board.
    pub fn is_valid(&self) -> (v: bool)
        ensures
            v == self.spec_valid(),
    {
        let c = self.column as u32;
        97 <= c && c <= 104 && 1 <= self.row && self.row <= 8
    }

    /// The inverse of the linear index: `from_index(i)` is the unique
    /// valid position whose index is `i`.
    pub fn from_index(index: usize) -> (p: Self)
        requires
            index < 64,
        ensures
            p.spec_valid(),
            p.spec_index() == index,
    {
        let column = (97 + (index % 8)) as u8 as char;
        let row = (1 + index / 8) as u8;
        Self { column, row }
    }
}

/// Any two valid positions with the same linear index are the same
/// position: the index mapping is injective on the board.
pub proof fn lemma_index_injective(p: Pos, q: Pos)
    requires
        p.spec_valid(),
        q.spec_valid(),
        p.spec_index() == q.spec_index(),
    ensures
        p == q,
{
    assert(p.col_code() == q.col_code() && p.row_code() == q.row_code());
}

} // verus!
