use vstd::prelude::*;

use crate::piece::Piece;
use crate::piece::Side;
use crate::piece::Type;
use crate::position::Pos;
use crate::position::lemma_index_injective;
use crate::position::on_board;

verus! {

/// The sign of an integer: 1, 0 or -1.
pub open spec fn sgn(x: int) -> int {
    if x > 0 {
        1
    } else if x < 0 {
        -1
    } else {
        0
    }
}

/// The absolute value of an integer.
pub open spec fn dist(x: int) -> int {
    if x >= 0 {
        x
    } else {
        -x
    }
}

/// `(tc, tr)` lies on the same rank or the same file as `(fc, fr)`,
/// and is a different cell.
pub open spec fn rook_aligned(fc: int, fr: int, tc: int, tr: int) -> bool {
    ||| (tc == fc && tr != fr)
    ||| (tr == fr && tc != fc)
}

/// `(tc, tr)` lies on one of the two diagonals through `(fc, fr)`, and
/// is a different cell.
pub open spec fn bishop_aligned(fc: int, fr: int, tc: int, tr: int) -> bool {
    &&& tc != fc
    &&& (tc - fc == tr - fr || tc - fc == fr - tr)
}

/// The reason a proposed move was rejected.
#[derive(Debug, PartialEq, Eq, Structural, Clone, Copy)]
pub enum MoveError {
    /// The start square holds no piece.
    EmptySquareSelected,
    /// The piece on the start square belongs to the side not to move.
    WrongSideSelected,
    /// The end square is not among the piece's legal destinations.
    IllegalDestination,
}

impl MoveError {
    /// A human-readable reason, for display by a caller.
    pub fn message(self) -> (s: &'static str)
        ensures
            self is EmptySquareSelected ==> s@ == "An empty field was selected."@,
            self is WrongSideSelected ==> s@ == "Wrong piece was selected."@,
            self is IllegalDestination ==> s@ == "Specified move is impossible."@,
    {
        match self {
            MoveError::EmptySquareSelected => "An empty field was selected.",
            MoveError::WrongSideSelected => "Wrong piece was selected.",
            MoveError::IllegalDestination => "Specified move is impossible.",
        }
    }
}

/// The starting occupant of the cell with linear index `i`: pawns on
/// ranks 2 and 7, the usual back ranks on 1 and 8, everything else
/// empty.
pub open spec fn initial_cell(i: int) -> Option<Piece> {
    let r = i / 8 + 1;
    let c = i % 8 + 97;
    if r == 2 {
        Some(Piece { p_type: Type::Pawn(false), p_side: Side::White })
    } else if r == 7 {
        Some(Piece { p_type: Type::Pawn(false), p_side: Side::Black })
    } else if r == 1 {
        Some(Piece { p_type: back_rank_type(c), p_side: Side::White })
    } else if r == 8 {
        Some(Piece { p_type: back_rank_type(c), p_side: Side::Black })
    } else {
        None
    }
}

/// The back-rank piece kind for the column with code `c`: rook, knight,
/// bishop, queen (on d), king (on e), bishop, knight, rook.
pub open spec fn back_rank_type(c: int) -> Type {
    if c == 97 || c == 104 {
        Type::Rook
    } else if c == 98 || c == 103 {
        Type::Knight
    } else if c == 99 || c == 102 {
        Type::Bishop
    } else if c == 100 {
        Type::Queen
    } else {
        Type::King
    }
}

/// A chess board: 64 cells each holding an optional piece, plus the
/// side whose turn it is to move.
pub struct Board {
    fields: Vec<Option<Piece>>,
    current_move: Side,
}

impl Board {
    /// The board contents as a sequence of 64 optional pieces, indexed
    /// by `Pos::spec_index`.
    pub closed spec fn spec_fields(self) -> Seq<Option<Piece>> {
        self.fields@
    }

    /// The side to move.
    pub closed spec fn spec_side(self) -> Side {
        self.current_move
    }

    /// Well-formedness: the board has exactly 64 cells.
    pub open spec fn wf(self) -> bool {
        self.spec_fields().len() == 64
    }

    /// The cell at column code `c` and row `r`.
    pub open spec fn cell_at(self, c: int, r: int) -> Option<Piece> {
        self.spec_fields()[(c - 97) + (r - 1) * 8]
    }

    /// The cell at position `p`.
    pub open spec fn cell(self, p: Pos) -> Option<Piece> {
        self.spec_fields()[p.spec_index()]
    }

    /// True iff the cell at `(c, r)` holds no piece.
    pub open spec fn empty_at(self, c: int, r: int) -> bool {
        self.cell_at(c, r) is None
    }

    /// True iff the cell at `(c, r)` holds a piece of the side opposing
    /// `side`.
    pub open spec fn enemy_at(self, side: Side, c: int, r: int) -> bool {
        match self.cell_at(c, r) {
            Some(p) => p.spec_side() != side,
            None => false,
        }
    }

    /// A piece of `side` may land on `(c, r)`: the cell is empty or
    /// holds an enemy piece (a capture).
    pub open spec fn capture_ok(self, side: Side, c: int, r: int) -> bool {
        match self.cell_at(c, r) {
            Some(p) => p.spec_side() != side,
            None => true,
        }
    }

    /// The cell `j` steps out from `(fc, fr)` along direction
    /// `(dc, dr)`.
    pub open spec fn ray_cell(self, fc: int, fr: int, dc: int, dr: int, j: int) -> Option<Piece> {
        self.cell_at(fc + j * dc, fr + j * dr)
    }

    /// Every cell strictly between the origin and `k` steps out along
    /// `(dc, dr)` is empty.
    pub open spec fn ray_clear(self, fc: int, fr: int, dc: int, dr: int, k: int) -> bool {
        forall|j: int| 1 <= j < k ==> (#[trigger] self.ray_cell(fc, fr, dc, dr, j)) is None
    }

    /// Every cell strictly between `(fc, fr)` and `(tc, tr)` on their
    /// shared rank, file or diagonal is empty.
    pub open spec fn slide_clear(self, fc: int, fr: int, tc: int, tr: int) -> bool {
        self.ray_clear(
            fc,
            fr,
            sgn(tc - fc),
            sgn(tr - fr),
            if dist(tc - fc) >= dist(tr - fr) {
                dist(tc - fc)
            } else {
                dist(tr - fr)
            },
        )
    }

    /// `(tc, tr)` is a legal rook destination from `from` for a piece
    /// of `side`: on the board, on the same rank or file, with every
    /// square strictly between empty, and empty or enemy-held itself.
    pub open spec fn rook_dest(self, from: Pos, side: Side, tc: int, tr: int) -> bool {
        &&& on_board(tc, tr)
        &&& rook_aligned(from.col_code(), from.row_code(), tc, tr)
        &&& self.slide_clear(from.col_code(), from.row_code(), tc, tr)
        &&& self.capture_ok(side, tc, tr)
    }

    /// `(tc, tr)` is a legal bishop destination from `from` for a piece
    /// of `side`: the same sliding rule as the rook, along a diagonal.
    pub open spec fn bishop_dest(self, from: Pos, side: Side, tc: int, tr: int) -> bool {
        &&& on_board(tc, tr)
        &&& bishop_aligned(from.col_code(), from.row_code(), tc, tr)
        &&& self.slide_clear(from.col_code(), from.row_code(), tc, tr)
        &&& self.capture_ok(side, tc, tr)
    }

    /// `(tc, tr)` is a legal king destination from `from`: one of the
    /// up-to-8 neighbours of the origin, on the board, empty or
    /// enemy-held.  Squares attacked by the opponent are not excluded:
    /// check is out of scope.
    pub open spec fn king_dest(self, from: Pos, side: Side, tc: int, tr: int) -> bool {
        &&& on_board(tc, tr)
        &&& !(tc == from.col_code() && tr == from.row_code())
        &&& dist(tc - from.col_code()) <= 1
        &&& dist(tr - from.row_code()) <= 1
        &&& self.capture_ok(side, tc, tr)
    }

    /// `(tc, tr)` is a legal knight destination from `from`: one of the
    /// 8 fixed L-shaped offsets, on the board, empty or enemy-held.
    pub open spec fn knight_dest(self, from: Pos, side: Side, tc: int, tr: int) -> bool {
        &&& on_board(tc, tr)
        &&& {
            ||| (dist(tc - from.col_code()) == 1 && dist(tr - from.row_code()) == 2)
            ||| (dist(tc - from.col_code()) == 2 && dist(tr - from.row_code()) == 1)
        }
        &&& self.capture_ok(side, tc, tr)
    }

    /// `(tc, tr)` is a legal pawn destination from `from` for a pawn of
    /// `side` whose moved flag is `moved`.  White advances toward
    /// increasing rank, Black toward decreasing rank: one square ahead
    /// when empty; one square diagonally ahead only as a capture; two
    /// squares ahead when the flag is still false and the two-ahead
    /// square is empty.  The two-square advance deliberately does not
    /// look at the intermediate square: a known quirk of the movement
    /// rules, kept as specified.
    pub open spec fn pawn_dest(self, from: Pos, side: Side, moved: bool, tc: int, tr: int) -> bool {
        let fc = from.col_code();
        let fr = from.row_code();
        let dir: int = if side is White {
            1
        } else {
            -1
        };
        ||| (tc == fc && tr == fr + dir && on_board(tc, tr) && self.empty_at(tc, tr))
        ||| ((tc == fc - 1 || tc == fc + 1) && tr == fr + dir && on_board(tc, tr) && self.enemy_at(
            side,
            tc,
            tr,
        ))
        ||| (!moved && tc == fc && tr == fr + 2 * dir && on_board(tc, tr) && self.empty_at(tc, tr))
    }

    /// `to` is a legal destination for the piece standing on `from`.
    /// False whenever `from` is empty or either position is off the
    /// board.
    pub open spec fn spec_dest(self, from: Pos, to: Pos) -> bool {
        &&& from.spec_valid()
        &&& to.spec_valid()
        &&& match self.cell(from) {
            None => false,
            Some(p) => {
                let tc = to.col_code();
                let tr = to.row_code();
                match p.spec_type() {
                    Type::King => self.king_dest(from, p.spec_side(), tc, tr),
                    Type::Queen => self.rook_dest(from, p.spec_side(), tc, tr) || self.bishop_dest(
                        from,
                        p.spec_side(),
                        tc,
                        tr,
                    ),
                    Type::Rook => self.rook_dest(from, p.spec_side(), tc, tr),
                    Type::Bishop => self.bishop_dest(from, p.spec_side(), tc, tr),
                    Type::Knight => self.knight_dest(from, p.spec_side(), tc, tr),
                    Type::Pawn(moved) => self.pawn_dest(from, p.spec_side(), moved, tc, tr),
                }
            },
        }
    }

    /// Constructs a board in the standard initial position with White
    /// to move.
    pub fn new() -> (b: Board)
        ensures
            b.wf(),
            b.spec_side() == Side::White,
            forall|i: int| 0 <= i < 64 ==> #[trigger] b.spec_fields()[i] == initial_cell(i),
    {
        let mut fields: Vec<Option<Piece>> = Vec::new();
        let mut i: usize = 0;
        while i < 64
            invariant
                i <= 64,
                fields@.len() == i,
                forall|j: int| 0 <= j < i ==> #[trigger] fields@[j] == initial_cell(j),
            decreases 64 - i,
        {
            fields.push(initial_piece(i));
            i += 1;
        }
        Board { fields, current_move: Side::White }
    }

    /// Constructs a board from an arbitrary placement: one optional
    /// piece per cell in linear-index order, and the side to move.
    pub fn from_cells(cells: Vec<Option<Piece>>, side: Side) -> (b: Board)
        requires
            cells@.len() == 64,
        ensures
            b.wf(),
            b.spec_side() == side,
            b.spec_fields() == cells@,
    {
        Board { fields: cells, current_move: side }
    }

    /// Returns the side which should make the next move.
    pub fn current_move(&self) -> (s: Side)
        ensures
            s == self.spec_side(),
    {
        self.current_move
    }

    /// Returns the piece at position `pos`, or `None` if that cell is
    /// empty.
    pub fn at(&self, pos: Pos) -> (r: Option<&Piece>)
        requires
            self.wf(),
            pos.spec_valid(),
        ensures
            r is Some <==> self.cell(pos) is Some,
            r is Some ==> *r->Some_0 == self.cell(pos)->Some_0,
    {
        self.fields[pos.get()].as_ref()
    }

    /// Reads the cell at column code `c` and row `r`.
    fn cell_read(&self, c: i32, r: i32) -> (res: Option<Piece>)
        requires
            self.wf(),
            on_board(c as int, r as int),
        ensures
            res == self.cell_at(c as int, r as int),
    {
        let i = (c - 97) as usize + (r - 1) as usize * 8;
        self.fields[i]
    }

    /// True iff a piece of `side` may land on `(c, r)`.
    fn capture_ok_exec(&self, side: Side, c: i32, r: i32) -> (res: bool)
        requires
            self.wf(),
            on_board(c as int, r as int),
        ensures
            res == self.capture_ok(side, c as int, r as int),
    {
        match self.cell_read(c, r) {
            None => true,
            Some(p) => p.p_side() != side,
        }
    }

    /// True iff `(c, r)` holds a piece of the side opposing `side`.
    fn enemy_exec(&self, side: Side, c: i32, r: i32) -> (res: bool)
        requires
            self.wf(),
            on_board(c as int, r as int),
        ensures
            res == self.enemy_at(side, c as int, r as int),
    {
        match self.cell_read(c, r) {
            None => false,
            Some(p) => p.p_side() != side,
        }
    }

    /// Walks the cells strictly between `(fc, fr)` and `(tc, tr)` on
    /// their shared rank, file or diagonal and reports whether all of
    /// them are empty.
    #[verifier::loop_isolation(false)]
    fn slide_clear_exec(&self, fc: i32, fr: i32, tc: i32, tr: i32) -> (res: bool)
        requires
            self.wf(),
            on_board(fc as int, fr as int),
            on_board(tc as int, tr as int),
            rook_aligned(fc as int, fr as int, tc as int, tr as int) || bishop_aligned(
                fc as int,
                fr as int,
                tc as int,
                tr as int,
            ),
        ensures
            res == self.slide_clear(fc as int, fr as int, tc as int, tr as int),
    {
        let dc: i32 = if tc > fc {
            1
        } else if tc < fc {
            -1
        } else {
            0
        };
        let dr: i32 = if tr > fr {
            1
        } else if tr < fr {
            -1
        } else {
            0
        };
        let kc: i32 = if tc >= fc {
            tc - fc
        } else {
            fc - tc
        };
        let kr: i32 = if tr >= fr {
            tr - fr
        } else {
            fr - tr
        };
        let k: i32 = if kc >= kr {
            kc
        } else {
            kr
        };
        let mut j: i32 = 1;
        while j < k
            invariant
                1 <= j <= k,
                forall|jj: int|
                    1 <= jj < j ==> (#[trigger] self.ray_cell(
                        fc as int,
                        fr as int,
                        dc as int,
                        dr as int,
                        jj,
                    )) is None,
            decreases k - j,
        {
            proof {
                lemma_coord_between(fc as int, tc as int, dc as int, k as int, j as int);
                lemma_coord_between(fr as int, tr as int, dr as int, k as int, j as int);
            }
            let c = fc + j * dc;
            let r = fr + j * dr;
            if self.cell_read(c, r).is_some() {
                assert(self.ray_cell(fc as int, fr as int, dc as int, dr as int, j as int) is Some);
                return false;
            }
            j += 1;
        }
        true
    }

    /// Returns the possible destinations for the piece at `pos`, one
    /// entry per legal destination square.  The result is empty when
    /// `pos` holds no piece or the piece has nowhere to go.
    #[verifier::loop_isolation(false)]
    pub fn possible_moves(&self, pos: Pos) -> (moves: Vec<Pos>)
        requires
            self.wf(),
            pos.spec_valid(),
        ensures
            forall|q: Pos| #[trigger] moves@.contains(q) <==> self.spec_dest(pos, q),
            moves@.no_duplicates(),
            self.cell(pos) is None ==> moves@.len() == 0,
    {
        let mut moves: Vec<Pos> = Vec::new();
        let mut i: usize = 0;
        while i < 64
            invariant
                i <= 64,
                forall|q: Pos| #[trigger] moves@.contains(q) <==> self.spec_dest(pos, q)
                    && q.spec_index() < i,
                moves@.no_duplicates(),
            decreases 64 - i,
        {
            let to = Pos::from_index(i);
            proof {
                assert forall|q: Pos| q.spec_valid() && q.spec_index() == i implies q == to by {
                    lemma_index_injective(q, to);
                }
            }
            if self.dest_allowed(pos, to) {
                proof {
                    broadcast use vstd::seq_lib::lemma_seq_contains_after_push;

                    assert(!moves@.contains(to));
                }
                moves.push(to);
            }
            i += 1;
        }
        proof {
            if self.cell(pos) is None && moves@.len() > 0 {
                assert(moves@.contains(moves@[0]));
            }
        }
        moves
    }

    /// Attempts one ply: validates the move of the piece on `start_pos`
    /// to `end_pos` and, if it is legal, applies it.
    ///
    /// On success the piece value moves from `start_pos` to `end_pos`
    /// (capturing whatever occupied `end_pos`), `start_pos` becomes
    /// empty, a pawn gets its moved flag set, and the side to move
    /// flips.  On failure the board is left exactly as it was and the
    /// error says why: the start square was empty, the piece there
    /// belongs to the side not to move, or the end square is not a
    /// legal destination.
    pub fn move_piece(&mut self, start_pos: Pos, end_pos: Pos) -> (res: Result<(), MoveError>)
        requires
            old(self).wf(),
            start_pos.spec_valid(),
            end_pos.spec_valid(),
        ensures
            final(self).wf(),
            res is Ok <==> (old(self).cell(start_pos) matches Some(p)
                && p.spec_side() == old(self).spec_side()
                && old(self).spec_dest(start_pos, end_pos)),
            (res matches Err(e) && e is EmptySquareSelected)
                <==> old(self).cell(start_pos) is None,
            (res matches Err(e) && e is WrongSideSelected)
                <==> (old(self).cell(start_pos) matches Some(p)
                && p.spec_side() != old(self).spec_side()),
            (res matches Err(e) && e is IllegalDestination)
                <==> (old(self).cell(start_pos) matches Some(p)
                && p.spec_side() == old(self).spec_side()
                && !old(self).spec_dest(start_pos, end_pos)),
            res is Err ==> final(self).spec_fields() == old(self).spec_fields()
                && final(self).spec_side() == old(self).spec_side(),
            res is Ok ==> final(self).spec_fields()
                == old(self).spec_fields()
                    .update(end_pos.spec_index(), Some(old(self).cell(start_pos)->Some_0.spec_marked()))
                    .update(start_pos.spec_index(), None),
            res is Ok ==> final(self).spec_side() == old(self).spec_side().spec_other(),
            res is Ok ==> start_pos.spec_index() != end_pos.spec_index(),
            res is Ok ==> final(self).cell(end_pos) == Some(
                old(self).cell(start_pos)->Some_0.spec_marked(),
            ) && final(self).cell(start_pos) is None,
    {
        let p = match self.cell_read_pos(start_pos) {
            None => {
                return Err(MoveError::EmptySquareSelected);
            },
            Some(p) => p,
        };
        if p.p_side() != self.current_move {
            return Err(MoveError::WrongSideSelected);
        }
        if !self.dest_allowed(start_pos, end_pos) {
            return Err(MoveError::IllegalDestination);
        }
        let mut moved = p;
        moved.mark_moved();
        let end_i = end_pos.get();
        let start_i = start_pos.get();
        proof {
            lemma_dest_is_elsewhere(*self, start_pos, end_pos);
        }
        self.fields[end_i] = Some(moved);
        self.fields[start_i] = None;
        self.current_move = self.current_move.other();
        Ok(())
    }

    /// Reads the cell at position `pos`.
    fn cell_read_pos(&self, pos: Pos) -> (res: Option<Piece>)
        requires
            self.wf(),
            pos.spec_valid(),
        ensures
            res == self.cell(pos),
    {
        self.fields[pos.get()]
    }

    /// Decides whether `to` is a legal destination for the piece at
    /// `from`, mirroring `spec_dest` exactly.
    fn dest_allowed(&self, from: Pos, to: Pos) -> (res: bool)
        requires
            self.wf(),
            from.spec_valid(),
            to.spec_valid(),
        ensures
            res == self.spec_dest(from, to),
    {
        let fc = from.column as u32 as i32;
        let fr = from.row as i32;
        let tc = to.column as u32 as i32;
        let tr = to.row as i32;
        let p = match self.cell_read(fc, fr) {
            None => {
                return false;
            },
            Some(p) => p,
        };
        let side = p.p_side();
        match p.p_type() {
            Type::King => {
                let adc: i32 = if tc >= fc {
                    tc - fc
                } else {
                    fc - tc
                };
                let adr: i32 = if tr >= fr {
                    tr - fr
                } else {
                    fr - tr
                };
                (adc != 0 || adr != 0) && adc <= 1 && adr <= 1 && self.capture_ok_exec(side, tc, tr)
            },
            Type::Queen => {
                let ra = (tc == fc && tr != fr) || (tr == fr && tc != fc);
                let ba = tc != fc && (tc - fc == tr - fr || tc - fc == fr - tr);
                if ra || ba {
                    self.slide_clear_exec(fc, fr, tc, tr) && self.capture_ok_exec(side, tc, tr)
                } else {
                    false
                }
            },
            Type::Rook => {
                let ra = (tc == fc && tr != fr) || (tr == fr && tc != fc);
                if ra {
                    self.slide_clear_exec(fc, fr, tc, tr) && self.capture_ok_exec(side, tc, tr)
                } else {
                    false
                }
            },
            Type::Bishop => {
                let ba = tc != fc && (tc - fc == tr - fr || tc - fc == fr - tr);
                if ba {
                    self.slide_clear_exec(fc, fr, tc, tr) && self.capture_ok_exec(side, tc, tr)
                } else {
                    false
                }
            },
            Type::Knight => {
                let adc: i32 = if tc >= fc {
                    tc - fc
                } else {
                    fc - tc
                };
                let adr: i32 = if tr >= fr {
                    tr - fr
                } else {
                    fr - tr
                };
                ((adc == 1 && adr == 2) || (adc == 2 && adr == 1)) && self.capture_ok_exec(
                    side,
                    tc,
                    tr,
                )
            },
            Type::Pawn(moved) => {
                let dir: i32 = if side == Side::White {
                    1
                } else {
                    -1
                };
                let one = tc == fc && tr == fr + dir && self.cell_read(tc, tr).is_none();
                let diag = (tc == fc - 1 || tc == fc + 1) && tr == fr + dir && self.enemy_exec(
                    side,
                    tc,
                    tr,
                );
                let two = !moved && tc == fc && tr == fr + 2 * dir && self.cell_read(
                    tc,
                    tr,
                ).is_none();
                one || diag || two
            },
        }
    }
}

/// An empty square has no legal destinations: whatever square is
/// asked about, nothing may move out of a cell that holds no piece.
pub proof fn lemma_empty_square_no_destinations(b: Board, s: Pos)
    requires
        b.cell(s) is None,
    ensures
        forall|q: Pos| !b.spec_dest(s, q),
{
}

/// The destination set of a king is exactly the 3×3 neighbourhood of
/// its square minus the centre, minus off-board squares, minus squares
/// occupied by its own side.
pub proof fn lemma_king_destinations(b: Board, s: Pos, q: Pos)
    requires
        b.cell(s) matches Some(p) && p.spec_type() is King,
    ensures
        b.spec_dest(s, q) <==> {
            &&& s.spec_valid()
            &&& q.spec_valid()
            &&& !(q.col_code() == s.col_code() && q.row_code() == s.row_code())
            &&& dist(q.col_code() - s.col_code()) <= 1
            &&& dist(q.row_code() - s.row_code()) <= 1
            &&& b.capture_ok(b.cell(s)->Some_0.spec_side(), q.col_code(), q.row_code())
        },
{
}

/// The destination set of a knight is exactly the 8 fixed L-shaped
/// offsets from its square, minus off-board squares, minus squares
/// occupied by its own side.
pub proof fn lemma_knight_destinations(b: Board, s: Pos, q: Pos)
    requires
        b.cell(s) matches Some(p) && p.spec_type() is Knight,
    ensures
        b.spec_dest(s, q) <==> {
            &&& s.spec_valid()
            &&& q.spec_valid()
            &&& {
                ||| (dist(q.col_code() - s.col_code()) == 1 && dist(q.row_code() - s.row_code())
                    == 2)
                ||| (dist(q.col_code() - s.col_code()) == 2 && dist(q.row_code() - s.row_code())
                    == 1)
            }
            &&& b.capture_ok(b.cell(s)->Some_0.spec_side(), q.col_code(), q.row_code())
        },
{
}

/// A pawn that has not yet moved is offered the square two ahead of it
/// whenever that square is on the board and empty — independent of
/// what stands on the square immediately ahead.  The movement rules
/// deliberately do not consult the intermediate square here: a known
/// quirk, kept as specified.
pub proof fn lemma_pawn_double_step(b: Board, s: Pos, q: Pos)
    requires
        s.spec_valid(),
        q.spec_valid(),
        b.cell(s) matches Some(p) && p.spec_type() == Type::Pawn(false),
        q.col_code() == s.col_code(),
        q.row_code() == s.row_code() + 2 * (if b.cell(s)->Some_0.spec_side() is White {
            1int
        } else {
            -1int
        }),
        b.empty_at(q.col_code(), q.row_code()),
    ensures
        b.spec_dest(s, q),
{
}

/// Multiplying by a factor of absolute value at most one is the
/// identity, negation, or zero.
proof fn lemma_mul_unit(k: int, d: int)
    by (nonlinear_arith)
    requires
        -1 <= d <= 1,
    ensures
        d == 1 ==> k * d == k,
        d == 0 ==> k * d == 0,
        d == -1 ==> k * d == -k,
{
}

/// Sliding pieces stop at the first obstruction.  Let the piece on `s`
/// be a rook, bishop or queen, and let the cell `k0` steps out along
/// the ray with direction `(dc, dr)` be the first occupied cell of
/// that ray.  Then the square `kq` steps out, strictly beyond that
/// cell on the same ray, is never a legal destination, and the
/// occupied cell itself is a legal destination iff it holds a piece of
/// the opposing side.
pub proof fn lemma_ray_stops_at_first_occupied(
    b: Board,
    s: Pos,
    dc: int,
    dr: int,
    k0: int,
    kq: int,
    q: Pos,
)
    requires
        s.spec_valid(),
        b.cell(s) matches Some(p) && (p.spec_type() is Rook || p.spec_type() is Bishop
            || p.spec_type() is Queen),
        b.cell(s)->Some_0.spec_type() is Rook ==> (dc == 0 || dr == 0),
        b.cell(s)->Some_0.spec_type() is Bishop ==> (dc != 0 && dr != 0),
        -1 <= dc <= 1,
        -1 <= dr <= 1,
        !(dc == 0 && dr == 0),
        1 <= k0,
        b.ray_clear(s.col_code(), s.row_code(), dc, dr, k0),
        b.ray_cell(s.col_code(), s.row_code(), dc, dr, k0) is Some,
    ensures
        (kq > k0 && q.col_code() == s.col_code() + kq * dc && q.row_code() == s.row_code() + kq
            * dr) ==> !b.spec_dest(s, q),
        (q.col_code() == s.col_code() + k0 * dc && q.row_code() == s.row_code() + k0 * dr
            && q.spec_valid()) ==> (b.spec_dest(s, q) <==> b.ray_cell(
            s.col_code(),
            s.row_code(),
            dc,
            dr,
            k0,
        )->Some_0.spec_side() != b.cell(s)->Some_0.spec_side()),
{
    let fc = s.col_code();
    let fr = s.row_code();
    let tc = q.col_code();
    let tr = q.row_code();
    if kq > k0 && tc == fc + kq * dc && tr == fr + kq * dr {
        lemma_mul_unit(kq, dc);
        lemma_mul_unit(kq, dr);
        assert(sgn(tc - fc) == dc);
        assert(sgn(tr - fr) == dr);
        if b.spec_dest(s, q) {
            assert(b.slide_clear(fc, fr, tc, tr));
            assert(b.ray_clear(fc, fr, dc, dr, kq));
            assert(b.ray_cell(fc, fr, dc, dr, k0) is None);
            assert(false);
        }
    }
    if tc == fc + k0 * dc && tr == fr + k0 * dr && q.spec_valid() {
        lemma_mul_unit(k0, dc);
        lemma_mul_unit(k0, dr);
        assert(sgn(tc - fc) == dc);
        assert(sgn(tr - fr) == dr);
        assert(b.slide_clear(fc, fr, tc, tr));
        let mover = b.cell(s)->Some_0.spec_side();
        let occ = b.ray_cell(fc, fr, dc, dr, k0)->Some_0;
        assert(b.cell_at(tc, tr) == Some(occ));
        if occ.spec_side() != mover {
            assert(b.capture_ok(mover, tc, tr));
            if dc == 0 || dr == 0 {
                assert(rook_aligned(fc, fr, tc, tr));
            } else {
                assert(bishop_aligned(fc, fr, tc, tr));
            }
        }
    }
}

/// A legal destination is never the origin square itself: every
/// movement rule forces the destination to differ from the start, so
/// the two squares also have different linear indices.
pub proof fn lemma_dest_is_elsewhere(b: Board, from: Pos, to: Pos)
    requires
        b.spec_dest(from, to),
    ensures
        to != from,
        to.spec_index() != from.spec_index(),
{
    assert(!(to.col_code() == from.col_code() && to.row_code() == from.row_code()));
    if to.spec_index() == from.spec_index() {
        lemma_index_injective(from, to);
    }
}

/// For a coordinate that either stays fixed (`d == 0`) or moves `k`
/// unit steps from `f` to `t`, every intermediate value `f + j * d`
/// with `0 <= j <= k` lies between `f` and `t`.
proof fn lemma_coord_between(f: int, t: int, d: int, k: int, j: int)
    by (nonlinear_arith)
    requires
        (d == 0 && t == f) || (d == 1 && t == f + k) || (d == -1 && t == f - k),
        0 <= j <= k,
    ensures
        f <= t ==> f <= f + j * d && f + j * d <= t,
        t <= f ==> t <= f + j * d && f + j * d <= f,
{
}

/// The piece that starts the game on the cell with linear index `i`.
fn initial_piece(i: usize) -> (r: Option<Piece>)
    requires
        i < 64,
    ensures
        r == initial_cell(i as int),
{
    let row = i / 8 + 1;
    let col = i % 8 + 97;
    let side = if row <= 2 {
        Side::White
    } else {
        Side::Black
    };
    if row == 2 || row == 7 {
        Some(Piece::new(Type::Pawn(false), side))
    } else if row == 1 || row == 8 {
        let t = if col == 97 || col == 104 {
            Type::Rook
        } else if col == 98 || col == 103 {
            Type::Knight
        } else if col == 99 || col == 102 {
            Type::Bishop
        } else if col == 100 {
            Type::Queen
        } else {
            Type::King
        };
        Some(Piece::new(t, side))
    } else {
        None
    }
}

} // verus!
