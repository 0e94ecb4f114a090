//! Board model: squares, pieces, moves.

use vstd::prelude::*;

verus! {

/// Side to move, or owner of a piece.
#[derive(Clone, Copy, PartialEq, Eq, Debug, Structural)]
pub enum Side {
    White,
    Black,
}

/// Kind of a chess piece.
#[derive(Clone, Copy, PartialEq, Eq, Debug, Structural)]
pub enum PieceKind {
    Pawn,
    Knight,
    Bishop,
    Rook,
    Queen,
    King,
}

/// A colored piece.
#[derive(Clone, Copy, PartialEq, Eq, Debug, Structural)]
pub struct Occupant {
    pub color: Side,
    pub role: PieceKind,
}

/// One of the 64 cells, indexed `rank * 8 + file` with a1 = 0 and h8 = 63.
#[derive(Clone, Copy, PartialEq, Eq, Debug, Structural)]
pub struct Sq {
    pub index: u8,
}

/// A move, as a closed set of kinds.
#[derive(Clone, Copy, PartialEq, Eq, Debug, Structural)]
pub enum ChessMove {
    Normal { role: PieceKind, from: Sq, capture: Option<PieceKind>, to: Sq, promotion: Option<PieceKind> },
    EnPassant { from: Sq, to: Sq },
    Castle { king: Sq, rook: Sq },
    Put { role: PieceKind, to: Sq },
}

pub open spec fn opponent(c: Side) -> Side {
    match c {
        Side::White => Side::Black,
        Side::Black => Side::White,
    }
}

impl Sq {
    pub open spec fn wf(self) -> bool {
        self.index < 64
    }

    pub open spec fn file_of(self) -> int {
        self.index as int % 8
    }

    pub open spec fn rank_of(self) -> int {
        self.index as int / 8
    }

    /// One of a1, h1, a8, h8: where a rook stands that may castle in standard chess.
    pub open spec fn corner(self) -> bool {
        self.index == 0 || self.index == 7 || self.index == 56 || self.index == 63
    }

    /// Whether this is a corner square.
    pub fn is_corner(self) -> (r: bool)
        ensures
            r == self.corner(),
    {
        self.index == 0 || self.index == 7 || self.index == 56 || self.index == 63
    }

    /// The square on the given file and rank.
    pub fn from_coords(file: u8, rank: u8) -> (r: Sq)
        requires
            file < 8,
            rank < 8,
        ensures
            r.wf(),
            r.file_of() == file,
            r.rank_of() == rank,
    {
        Sq { index: rank * 8 + file }
    }

    /// File a..h as 0..7.
    pub fn file(self) -> (r: u8)
        requires
            self.wf(),
        ensures
            r == self.file_of(),
            r < 8,
    {
        self.index % 8
    }

    /// Rank 1..8 as 0..7.
    pub fn rank(self) -> (r: u8)
        requires
            self.wf(),
        ensures
            r == self.rank_of(),
            r < 8,
    {
        self.index / 8
    }
}

impl ChessMove {
    /// Every square the move names lies on the board.
    pub open spec fn wf(self) -> bool {
        match self {
            ChessMove::Normal { from, to, .. } => from.wf() && to.wf(),
            ChessMove::EnPassant { from, to } => from.wf() && to.wf(),
            ChessMove::Castle { king, rook } => king.wf() && rook.wf(),
            ChessMove::Put { to, .. } => to.wf(),
        }
    }

    /// Well-formed, and a castle names its rook on a corner square, as standard chess has it.
    pub open spec fn standard(self) -> bool {
        &&& self.wf()
        &&& match self {
            ChessMove::Castle { rook, .. } => rook.corner(),
            _ => true,
        }
    }
}

} // verus!
