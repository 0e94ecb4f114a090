//! Canonical output records for moves: square and role names from a closed vocabulary.

use vstd::prelude::*;
use vstd::string::*;
use crate::board::{ChessMove, PieceKind, Sq};

verus! {

/// Which of the four move kinds a record came from.
#[derive(Clone, Copy, PartialEq, Eq, Debug, Structural)]
pub enum MoveKind {
    Normal,
    EnPassant,
    Castle,
    Put,
}

/// One serialized move.
#[derive(Clone, Debug)]
pub struct OutputRecord {
    pub kind: MoveKind,
    pub role: String,
    pub from: String,
    pub capture: Option<String>,
    pub to: String,
    pub promotion: Option<String>,
}

/// The record as character sequences.
pub ghost struct RecordView {
    pub kind: MoveKind,
    pub role: Seq<char>,
    pub from: Seq<char>,
    pub capture: Option<Seq<char>>,
    pub to: Seq<char>,
    pub promotion: Option<Seq<char>>,
}

pub open spec fn opt_view(o: Option<String>) -> Option<Seq<char>> {
    match o {
        Some(s) => Some(s@),
        None => None,
    }
}

impl View for OutputRecord {
    type V = RecordView;

    open spec fn view(&self) -> RecordView {
        RecordView {
            kind: self.kind,
            role: self.role@,
            from: self.from@,
            capture: opt_view(self.capture),
            to: self.to@,
            promotion: opt_view(self.promotion),
        }
    }
}

pub open spec fn file_token(f: int) -> Seq<char> {
    if f == 0 {
        "A"@
    } else if f == 1 {
        "B"@
    } else if f == 2 {
        "C"@
    } else if f == 3 {
        "D"@
    } else if f == 4 {
        "E"@
    } else if f == 5 {
        "F"@
    } else if f == 6 {
        "G"@
    } else {
        "H"@
    }
}

pub open spec fn rank_token(r: int) -> Seq<char> {
    if r == 0 {
        "1"@
    } else if r == 1 {
        "2"@
    } else if r == 2 {
        "3"@
    } else if r == 3 {
        "4"@
    } else if r == 4 {
        "5"@
    } else if r == 5 {
        "6"@
    } else if r == 6 {
        "7"@
    } else {
        "8"@
    }
}

/// Uppercase name of a square: file letter, then rank digit ("E1").
pub open spec fn square_token(s: Sq) -> Seq<char> {
    file_token(s.file_of()) + rank_token(s.rank_of())
}

/// TitleCase name of a role ("King").
pub open spec fn role_token(r: PieceKind) -> Seq<char> {
    match r {
        PieceKind::Pawn => "Pawn"@,
        PieceKind::Knight => "Knight"@,
        PieceKind::Bishop => "Bishop"@,
        PieceKind::Rook => "Rook"@,
        PieceKind::Queen => "Queen"@,
        PieceKind::King => "King"@,
    }
}

pub open spec fn opt_role_token(r: Option<PieceKind>) -> Option<Seq<char>> {
    match r {
        Some(x) => Some(role_token(x)),
        None => None,
    }
}

pub open spec fn kind_token(k: MoveKind) -> Seq<char> {
    match k {
        MoveKind::Normal => "Normal"@,
        MoveKind::EnPassant => "EnPassant"@,
        MoveKind::Castle => "Castle"@,
        MoveKind::Put => "Put"@,
    }
}

/// Where the king lands when castling with the given rook: on the king's rank,
/// file c when the rook stands on the queen's side, file g otherwise.
pub open spec fn castle_target_spec(king: Sq, rook: Sq) -> Sq {
    Sq {
        index: (king.rank_of() * 8 + if rook.file_of() < king.file_of() { 2int } else { 6int }) as u8,
    }
}

/// The record a move serializes to.
pub open spec fn record_of(m: ChessMove) -> RecordView {
    match m {
        ChessMove::Normal { role, from, capture, to, promotion } => RecordView {
            kind: MoveKind::Normal,
            role: role_token(role),
            from: square_token(from),
            capture: opt_role_token(capture),
            to: square_token(to),
            promotion: opt_role_token(promotion),
        },
        ChessMove::EnPassant { from, to } => RecordView {
            kind: MoveKind::EnPassant,
            role: "Pawn"@,
            from: square_token(from),
            capture: Some("Pawn"@),
            to: square_token(to),
            promotion: None,
        },
        ChessMove::Castle { king, rook } => RecordView {
            kind: MoveKind::Castle,
            role: "King"@,
            from: square_token(king),
            capture: None,
            to: square_token(castle_target_spec(king, rook)),
            promotion: None,
        },
        ChessMove::Put { role, to } => RecordView {
            kind: MoveKind::Put,
            role: role_token(role),
            from: "Hand"@,
            capture: None,
            to: square_token(to),
            promotion: None,
        },
    }
}

fn file_name(f: u8) -> (r: &'static str)
    requires
        f < 8,
    ensures
        r@ == file_token(f as int),
{
    match f {
        0 => "A",
        1 => "B",
        2 => "C",
        3 => "D",
        4 => "E",
        5 => "F",
        6 => "G",
        _ => "H",
    }
}

fn rank_name(r: u8) -> (s: &'static str)
    requires
        r < 8,
    ensures
        s@ == rank_token(r as int),
{
    match r {
        0 => "1",
        1 => "2",
        2 => "3",
        3 => "4",
        4 => "5",
        5 => "6",
        6 => "7",
        _ => "8",
    }
}

/// Name of a square, such as "E1".
pub fn square_name(s: Sq) -> (r: String)
    requires
        s.wf(),
    ensures
        r@ == square_token(s),
{
    let f = String::from_str(file_name(s.file()));
    f.concat(rank_name(s.rank()))
}

/// Name of a role, such as "King".
pub fn role_name(r: PieceKind) -> (s: String)
    ensures
        s@ == role_token(r),
{
    let t = match r {
        PieceKind::Pawn => "Pawn",
        PieceKind::Knight => "Knight",
        PieceKind::Bishop => "Bishop",
        PieceKind::Rook => "Rook",
        PieceKind::Queen => "Queen",
        PieceKind::King => "King",
    };
    String::from_str(t)
}

fn opt_role_name(r: Option<PieceKind>) -> (s: Option<String>)
    ensures
        opt_view(s) == opt_role_token(r),
{
    match r {
        Some(x) => Some(role_name(x)),
        None => None,
    }
}

/// Name of a move kind, such as "Castle".
pub fn kind_name(k: MoveKind) -> (s: String)
    ensures
        s@ == kind_token(k),
{
    let t = match k {
        MoveKind::Normal => "Normal",
        MoveKind::EnPassant => "EnPassant",
        MoveKind::Castle => "Castle",
        MoveKind::Put => "Put",
    };
    String::from_str(t)
}

/// The square the king reaches when castling with `rook`.
pub fn castle_target(king: Sq, rook: Sq) -> (r: Sq)
    requires
        king.wf(),
        rook.wf(),
    ensures
        r == castle_target_spec(king, rook),
        r.wf(),
{
    let f: u8 = if rook.file() < king.file() { 2 } else { 6 };
    Sq::from_coords(f, king.rank())
}

impl OutputRecord {
    /// Serializes a move into its canonical record.
    pub fn from_move(m: &ChessMove) -> (r: OutputRecord)
        requires
            m.standard(),
        ensures
            r@ == record_of(*m),
    {
        match *m {
            ChessMove::Normal { role, from, capture, to, promotion } => OutputRecord {
                kind: MoveKind::Normal,
                role: role_name(role),
                from: square_name(from),
                capture: opt_role_name(capture),
                to: square_name(to),
                promotion: opt_role_name(promotion),
            },
            ChessMove::EnPassant { from, to } => OutputRecord {
                kind: MoveKind::EnPassant,
                role: role_name(PieceKind::Pawn),
                from: square_name(from),
                capture: Some(role_name(PieceKind::Pawn)),
                to: square_name(to),
                promotion: None,
            },
            ChessMove::Castle { king, rook } => OutputRecord {
                kind: MoveKind::Castle,
                role: role_name(PieceKind::King),
                from: square_name(king),
                capture: None,
                to: square_name(castle_target(king, rook)),
                promotion: None,
            },
            ChessMove::Put { role, to } => OutputRecord {
                kind: MoveKind::Put,
                role: role_name(role),
                from: String::from_str("Hand"),
                capture: None,
                to: square_name(to),
                promotion: None,
            },
        }
    }
}

/// Serializes each move of a sequence, keeping the order.
pub fn serialize_moves(moves: &Vec<ChessMove>) -> (r: Vec<OutputRecord>)
    requires
        forall|i: int| 0 <= i < moves@.len() ==> (#[trigger] moves@[i]).standard(),
    ensures
        r@.len() == moves@.len(),
        forall|i: int| 0 <= i < r@.len() ==> (#[trigger] r@[i])@ == record_of(moves@[i]),
{
    let mut out: Vec<OutputRecord> = Vec::new();
    let mut i: usize = 0;
    while i < moves.len()
        invariant
            i <= moves@.len(),
            out@.len() == i,
            forall|j: int| 0 <= j < moves@.len() ==> (#[trigger] moves@[j]).standard(),
            forall|j: int| 0 <= j < i ==> (#[trigger] out@[j])@ == record_of(moves@[j]),
        decreases moves@.len() - i,
    {
        out.push(OutputRecord::from_move(&moves[i]));
        i = i + 1;
    }
    out
}

} // verus!
