use vstd::prelude::*;

use crate::position::Pos;
use crate::position::on_board;

verus! {

/// A failure to parse a two-character coordinate.
#[derive(Debug, PartialEq, Eq, Structural, Clone, Copy)]
pub enum PosParseError {
    /// The two characters do not name a square of the board.
    InvalidPos,
    /// Fewer than two input characters were available.
    InsufficientArgs,
}

impl PosParseError {
    /// A human-readable reason, for display by a caller.
    pub fn message(self) -> (s: &'static str)
        ensures
            self is InvalidPos ==> s@ == "invalid position specified"@,
            self is InsufficientArgs ==> s@ == "insufficient arguments provided"@,
    {
        match self {
            PosParseError::InvalidPos => "invalid position specified",
            PosParseError::InsufficientArgs => "insufficient arguments provided",
        }
    }
}

/// The user's request to end the session, recognised from the reserved
/// two-character input `qq`.
#[derive(Debug, PartialEq, Eq, Structural, Clone, Copy)]
pub struct QuitGame;

impl QuitGame {
    /// A human-readable description, for display by a caller.
    pub fn message(self) -> (s: &'static str)
        ensures
            s@ == "quitting game"@,
    {
        "quitting game"
    }
}

/// Why `parse_pos` produced no position: either the quit sentinel was
/// entered or the input does not name a board square.
#[derive(Debug, PartialEq, Eq, Structural, Clone, Copy)]
pub enum ParseFailure {
    Quit(QuitGame),
    Invalid(PosParseError),
}

/// A parsed pair of coordinates: the selected piece's square and the
/// requested destination square.
#[derive(Debug, PartialEq, Eq, Structural, Clone, Copy)]
pub struct InputPair(pub Pos, pub Pos);

/// The position named by the two raw input bytes: the first byte is
/// the column letter, the second an ASCII digit giving the row.
pub open spec fn parsed_pos(b0: u8, b1: u8) -> Pos {
    Pos { column: b0 as char, row: (b1 - 48) as u8 }
}

/// True iff the two raw input bytes name a square on the board: a
/// column letter `'a'..='h'` followed by a digit `'1'..='8'`.
pub open spec fn names_square(b0: u8, b1: u8) -> bool {
    &&& 97 <= b0 <= 104
    &&& 49 <= b1 <= 56
}

/// Parses one two-character coordinate, already read from the user as
/// two raw bytes: a column letter and a row digit, e.g. `d2`.  The
/// reserved pair `qq` asks to end the session; anything else that does
/// not name a board square is rejected as invalid.
pub fn parse_pos(buf: &[u8; 2]) -> (res: Result<Pos, ParseFailure>)
    ensures
        (res matches Err(f) && f is Quit) <==> (buf[0] == 113 && buf[1] == 113),
        res is Ok <==> (!(buf[0] == 113 && buf[1] == 113) && names_square(buf[0], buf[1])),
        res matches Ok(p) ==> p == parsed_pos(buf[0], buf[1]) && p.spec_valid(),
        (res matches Err(f) && f == ParseFailure::Invalid(PosParseError::InvalidPos)) <==> (!(
        buf[0] == 113 && buf[1] == 113) && !names_square(buf[0], buf[1])),
{
    let b0 = buf[0];
    let b1 = buf[1];
    if b0 == 113 && b1 == 113 {
        return Err(ParseFailure::Quit(QuitGame));
    }
    if b0 < 97 || b0 > 104 || b1 < 49 || b1 > 56 {
        return Err(ParseFailure::Invalid(PosParseError::InvalidPos));
    }
    let pos = Pos::new(b0 as char, b1 - 48);
    Ok(pos)
}

} // verus!
