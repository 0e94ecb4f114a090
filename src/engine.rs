//! Positions read from FEN, with candidate moves from shakmaty checked by the
//! verified legality filter.

use vstd::prelude::*;
use crate::board::{ChessMove, Occupant, PieceKind, Side, Sq};
use shakmaty::Position as _;
use crate::record::{record_of, serialize_moves, OutputRecord};
use crate::rules::{is_attacked, BoardState, CastlingRights};
use crate::order::sort_spec;

verus! {

/// shakmaty's standard chess position, carried opaquely.
#[verifier::external_type_specification]
#[verifier::external_body]
pub struct ExChess(shakmaty::Chess);

/// shakmaty's parsed FEN, carried opaquely from parsing to position setup.
#[verifier::external_type_specification]
#[verifier::external_body]
pub struct ExFen(shakmaty::fen::Fen);

/// shakmaty's FEN parse error; its unit variants are matched by the error mapping.
#[verifier::external_type_specification]
pub struct ExParseFenError(shakmaty::fen::ParseFenError);

/// shakmaty's error for a setup that is not a playable position, carried opaquely.
#[verifier::external_type_specification]
#[verifier::external_body]
#[verifier::reject_recursive_types(P)]
pub struct ExPositionError<P>(shakmaty::PositionError<P>);

/// shakmaty's square, read only through `Square::to_u32`.
#[verifier::external_type_specification]
#[verifier::external_body]
pub struct ExSquare(shakmaty::Square);

/// shakmaty's piece role; its variants are matched by the conversion.
#[verifier::external_type_specification]
pub struct ExRole(shakmaty::Role);

/// shakmaty's color; its variants are matched by the conversion.
#[verifier::external_type_specification]
pub struct ExColor(shakmaty::Color);

/// shakmaty's piece, a color and a role as public fields.
#[verifier::external_type_specification]
pub struct ExPiece(shakmaty::Piece);

/// shakmaty's move, whose variants and fields are converted one for one.
#[verifier::external_type_specification]
pub struct ExMove(shakmaty::Move);

/// shakmaty's castling side, named when asking for a castling right.
#[verifier::external_type_specification]
pub struct ExCastlingSide(shakmaty::CastlingSide);

/// Relies on shakmaty's `Square::to_u32`: the enum's discriminant, A1 = 0 up to H8 = 63.
pub assume_specification[ shakmaty::Square::to_u32 ](sq: shakmaty::Square) -> (r: u32)
    ensures
        r < 64,
;

/// Relies on shakmaty's `Square::new`, which panics unless the index is below 64.
pub assume_specification[ shakmaty::Square::new ](index: u32) -> (r: shakmaty::Square)
    requires
        index < 64,
;

/// The parse error that shakmaty's `Fen::from_ascii` gives on a text, or `None` where it accepts it.
pub uninterp spec fn fen_parse_error(s: Seq<char>) -> Option<shakmaty::fen::ParseFenError>;

/// Relies on shakmaty's `Fen::from_ascii`: parses the six FEN fields; the outcome
/// depends on the text alone; an input with no field at all fails with `InvalidFen`.
#[verifier::external_body]
fn parse_fen_text(s: &str) -> (r: Result<shakmaty::fen::Fen, shakmaty::fen::ParseFenError>)
    ensures
        r is Ok <==> fen_parse_error(s@) is None,
        r is Err ==> fen_parse_error(s@) == Some(r->Err_0),
        s@.len() == 0 ==> (r matches Err(shakmaty::fen::ParseFenError::InvalidFen)),
{
    shakmaty::fen::Fen::from_ascii(s.as_bytes())
}

/// Relies on shakmaty's `Fen::into_position` in standard castling mode: checks that
/// the setup is a playable standard chess position.
#[verifier::external_body]
fn into_standard(fen: shakmaty::fen::Fen) -> (r: Result<shakmaty::Chess, shakmaty::PositionError<shakmaty::Chess>>) {
    fen.into_position(shakmaty::CastlingMode::Standard)
}

/// Relies on shakmaty's `PositionError::kinds`: the bits of the reasons a setup was refused.
#[verifier::external_body]
fn position_error_kinds(e: &shakmaty::PositionError<shakmaty::Chess>) -> (r: u32) {
    e.kinds().bits()
}

/// Relies on shakmaty's `Position::legal_moves` for `Chess`: the moves it generates, in its order.
#[verifier::external_body]
fn generated_moves(pos: &shakmaty::Chess) -> (r: Vec<shakmaty::Move>) {
    pos.legal_moves().into_iter().collect()
}

/// Relies on shakmaty's `Board::piece_at`, read through `Position::board`.
#[verifier::external_body]
fn piece_on(pos: &shakmaty::Chess, sq: shakmaty::Square) -> (r: Option<shakmaty::Piece>) {
    pos.board().piece_at(sq)
}

/// Relies on shakmaty's `Position::turn`.
#[verifier::external_body]
fn side_to_move(pos: &shakmaty::Chess) -> (r: shakmaty::Color) {
    pos.turn()
}

/// Relies on shakmaty's `Castles::has`, read through `Position::castles`.
#[verifier::external_body]
fn castling_right(pos: &shakmaty::Chess, c: shakmaty::Color, side: shakmaty::CastlingSide) -> (r: bool) {
    pos.castles().has(c, side)
}

/// Relies on shakmaty's `Position::maybe_ep_square`: the target square after a double pawn push.
#[verifier::external_body]
fn ep_square_of(pos: &shakmaty::Chess) -> (r: Option<shakmaty::Square>) {
    pos.maybe_ep_square()
}

/// Why a FEN string was refused.
#[derive(Clone, Copy, PartialEq, Eq, Debug, Structural)]
pub enum FenError {
    FieldCountMismatch,
    InvalidPlacement,
    InvalidColor,
    InvalidCastling,
    InvalidEnPassant,
    InvalidCounter,
    IllegalPosition,
}

/// The library's error for each parse error of shakmaty.
pub open spec fn fen_error_of(e: shakmaty::fen::ParseFenError) -> FenError {
    match e {
        shakmaty::fen::ParseFenError::InvalidFen => FenError::FieldCountMismatch,
        shakmaty::fen::ParseFenError::InvalidBoard => FenError::InvalidPlacement,
        shakmaty::fen::ParseFenError::InvalidPocket => FenError::InvalidPlacement,
        shakmaty::fen::ParseFenError::InvalidTurn => FenError::InvalidColor,
        shakmaty::fen::ParseFenError::InvalidCastling => FenError::InvalidCastling,
        shakmaty::fen::ParseFenError::InvalidEpSquare => FenError::InvalidEnPassant,
        shakmaty::fen::ParseFenError::InvalidRemainingChecks => FenError::FieldCountMismatch,
        shakmaty::fen::ParseFenError::InvalidHalfmoveClock => FenError::InvalidCounter,
        shakmaty::fen::ParseFenError::InvalidFullmoves => FenError::InvalidCounter,
    }
}

/// Reason bit of a setup whose castling rights do not match its kings and rooks.
pub const CASTLING_RIGHTS_KIND: u32 = 16;

/// Reason bit of a setup whose en-passant square is on the wrong rank or has no pushed pawn.
pub const EP_SQUARE_KIND: u32 = 32;

/// The library's error for a refused setup: a field error when the only reasons
/// are bad castling rights or a bad en-passant square, `IllegalPosition` otherwise.
pub open spec fn position_error_of(bits: u32) -> FenError {
    if bits & !(CASTLING_RIGHTS_KIND | EP_SQUARE_KIND) != 0 {
        FenError::IllegalPosition
    } else if bits & EP_SQUARE_KIND != 0 {
        FenError::InvalidEnPassant
    } else if bits & CASTLING_RIGHTS_KIND != 0 {
        FenError::InvalidCastling
    } else {
        FenError::IllegalPosition
    }
}

/// Maps the reason bits of a refused setup to the library's error.
pub fn position_error_from(bits: u32) -> (r: FenError)
    ensures
        r == position_error_of(bits),
{
    if bits & !(CASTLING_RIGHTS_KIND | EP_SQUARE_KIND) != 0 {
        FenError::IllegalPosition
    } else if bits & EP_SQUARE_KIND != 0 {
        FenError::InvalidEnPassant
    } else if bits & CASTLING_RIGHTS_KIND != 0 {
        FenError::InvalidCastling
    } else {
        FenError::IllegalPosition
    }
}

fn fen_error_from(e: shakmaty::fen::ParseFenError) -> (r: FenError)
    ensures
        r == fen_error_of(e),
{
    match e {
        shakmaty::fen::ParseFenError::InvalidFen => FenError::FieldCountMismatch,
        shakmaty::fen::ParseFenError::InvalidBoard => FenError::InvalidPlacement,
        shakmaty::fen::ParseFenError::InvalidPocket => FenError::InvalidPlacement,
        shakmaty::fen::ParseFenError::InvalidTurn => FenError::InvalidColor,
        shakmaty::fen::ParseFenError::InvalidCastling => FenError::InvalidCastling,
        shakmaty::fen::ParseFenError::InvalidEpSquare => FenError::InvalidEnPassant,
        shakmaty::fen::ParseFenError::InvalidRemainingChecks => FenError::FieldCountMismatch,
        shakmaty::fen::ParseFenError::InvalidHalfmoveClock => FenError::InvalidCounter,
        shakmaty::fen::ParseFenError::InvalidFullmoves => FenError::InvalidCounter,
    }
}

fn color_from(c: shakmaty::Color) -> (r: Side) {
    match c {
        shakmaty::Color::White => Side::White,
        shakmaty::Color::Black => Side::Black,
    }
}

fn role_from(r: shakmaty::Role) -> (o: PieceKind) {
    match r {
        shakmaty::Role::Pawn => PieceKind::Pawn,
        shakmaty::Role::Knight => PieceKind::Knight,
        shakmaty::Role::Bishop => PieceKind::Bishop,
        shakmaty::Role::Rook => PieceKind::Rook,
        shakmaty::Role::Queen => PieceKind::Queen,
        shakmaty::Role::King => PieceKind::King,
    }
}

fn opt_role_from(r: Option<shakmaty::Role>) -> (o: Option<PieceKind>)
    ensures
        o is Some <==> r is Some,
{
    match r {
        Some(x) => Some(role_from(x)),
        None => None,
    }
}

fn square_from(s: shakmaty::Square) -> (r: Sq)
    ensures
        r.wf(),
{
    Sq { index: s.to_u32() as u8 }
}

fn move_from(m: shakmaty::Move) -> (r: ChessMove)
    ensures
        r.wf(),
{
    match m {
        shakmaty::Move::Normal { role, from, capture, to, promotion } => ChessMove::Normal {
            role: role_from(role),
            from: square_from(from),
            capture: opt_role_from(capture),
            to: square_from(to),
            promotion: opt_role_from(promotion),
        },
        shakmaty::Move::EnPassant { from, to } => ChessMove::EnPassant { from: square_from(from), to: square_from(to) },
        shakmaty::Move::Castle { king, rook } => ChessMove::Castle { king: square_from(king), rook: square_from(rook) },
        shakmaty::Move::Put { role, to } => ChessMove::Put { role: role_from(role), to: square_from(to) },
    }
}

/// A standard chess position: shakmaty's value, which enumerates candidate moves,
/// and the plain state that the legality filter reads.
pub struct Position {
    chess: shakmaty::Chess,
    state: BoardState,
    candidates: Vec<ChessMove>,
}

impl Position {
    pub closed spec fn state_spec(&self) -> BoardState {
        self.state
    }

    /// The moves shakmaty generated for this position, converted.
    pub closed spec fn candidates_spec(&self) -> Seq<ChessMove> {
        self.candidates@
    }

    pub closed spec fn wf(&self) -> bool {
        &&& self.state.wf()
        &&& forall|i: int| 0 <= i < self.candidates@.len() ==> (#[trigger] self.candidates@[i]).wf()
    }

    /// The legal moves in canonical order: the candidates sorted, then filtered.
    pub open spec fn legal_moves_spec(&self) -> Seq<ChessMove> {
        sort_spec(self.candidates_spec()).filter(|m: ChessMove| self.state_spec().legal(m))
    }

    /// The records match the legal moves one for one, in order.
    pub open spec fn records_match(&self, r: Seq<OutputRecord>) -> bool {
        &&& r.len() == self.legal_moves_spec().len()
        &&& forall|i: int| 0 <= i < r.len() ==> (#[trigger] r[i])@ == record_of(self.legal_moves_spec()[i])
    }

    fn read_candidates(chess: &shakmaty::Chess) -> (r: Vec<ChessMove>)
        ensures
            forall|i: int| 0 <= i < r@.len() ==> (#[trigger] r@[i]).wf(),
    {
        let generated = generated_moves(chess);
        let mut candidates: Vec<ChessMove> = Vec::new();
        let mut i: usize = 0;
        while i < generated.len()
            invariant
                i <= generated@.len(),
                candidates@.len() == i,
                forall|j: int| 0 <= j < i ==> (#[trigger] candidates@[j]).wf(),
            decreases generated@.len() - i,
        {
            candidates.push(move_from(generated[i]));
            i = i + 1;
        }
        candidates
    }

    fn read_state(chess: &shakmaty::Chess) -> (r: BoardState)
        ensures
            r.wf(),
    {
        let mut squares: Vec<Option<Occupant>> = Vec::new();
        let mut i: u32 = 0;
        while i < 64
            invariant
                i <= 64,
                squares@.len() == i,
            decreases 64 - i,
        {
            let cell = match piece_on(chess, shakmaty::Square::new(i)) {
                Some(p) => Some(Occupant { color: color_from(p.color), role: role_from(p.role) }),
                None => None,
            };
            squares.push(cell);
            i = i + 1;
        }
        let w = shakmaty::Color::White;
        let b = shakmaty::Color::Black;
        let castling = CastlingRights {
            white_king_side: castling_right(chess, w, shakmaty::CastlingSide::KingSide),
            white_queen_side: castling_right(chess, w, shakmaty::CastlingSide::QueenSide),
            black_king_side: castling_right(chess, b, shakmaty::CastlingSide::KingSide),
            black_queen_side: castling_right(chess, b, shakmaty::CastlingSide::QueenSide),
        };
        let ep_target = match ep_square_of(chess) {
            Some(s) => Some(square_from(s)),
            None => None,
        };
        BoardState { squares, turn: color_from(side_to_move(chess)), castling, ep_target }
    }

    /// Reads a position from FEN. A parse error `e` gives `fen_error_of(e)`; a parsed
    /// setup that is not a playable standard position fails with `position_error_of`
    /// of shakmaty's reason bits; otherwise the position holds shakmaty's state and
    /// candidate moves.
    pub fn from_fen(s: &str) -> (r: Result<Position, FenError>)
        ensures
            s@.len() == 0 ==> r == Err::<Position, FenError>(FenError::FieldCountMismatch),
            fen_parse_error(s@) is Some ==> r == Err::<Position, FenError>(
                fen_error_of(fen_parse_error(s@)->Some_0),
            ),
            fen_parse_error(s@) is None && r is Err ==> exists|bits: u32| r->Err_0 == position_error_of(bits),
            r is Ok ==> fen_parse_error(s@) is None && r->Ok_0.wf(),
    {
        match parse_fen_text(s) {
            Err(e) => Err(fen_error_from(e)),
            Ok(fen) => match into_standard(fen) {
                Err(e) => Err(position_error_from(position_error_kinds(&e))),
                Ok(chess) => {
                    let state = Position::read_state(&chess);
                    let candidates = Position::read_candidates(&chess);
                    Ok(Position { chess, state, candidates })
                },
            },
        }
    }

    /// The cells, side to move, castling rights and en-passant target.
    pub fn state(&self) -> (r: &BoardState)
        ensures
            *r == self.state_spec(),
    {
        &self.state
    }

    /// The piece on `sq`, if any.
    pub fn piece_at(&self, sq: Sq) -> (r: Option<Occupant>)
        requires
            self.wf(),
            sq.wf(),
        ensures
            r == self.state_spec().squares@[sq.index as int],
    {
        self.state.squares[sq.index as usize]
    }

    /// The side to move.
    pub fn turn(&self) -> (r: Side)
        ensures
            r == self.state_spec().turn,
    {
        self.state.turn
    }

    /// The castling rights still held.
    pub fn castling_rights(&self) -> (r: CastlingRights)
        ensures
            r == self.state_spec().castling,
    {
        self.state.castling
    }

    /// The en-passant target square, if any.
    pub fn en_passant_target(&self) -> (r: Option<Sq>)
        ensures
            r == self.state_spec().ep_target,
    {
        self.state.ep_target
    }

    /// The lowest square holding a king of color `c`, if any.
    pub fn king_square(&self, c: Side) -> (r: Option<Sq>)
        requires
            self.wf(),
        ensures
            match r {
                Some(k) => k.wf() && self.state_spec().squares@[k.index as int] == Some(
                    Occupant { color: c, role: PieceKind::King },
                ) && forall|j: int| 0 <= j < k.index ==> #[trigger] self.state_spec().squares@[j] != Some(
                    Occupant { color: c, role: PieceKind::King },
                ),
                None => forall|j: int| 0 <= j < 64 ==> #[trigger] self.state_spec().squares@[j] != Some(
                    Occupant { color: c, role: PieceKind::King },
                ),
            },
    {
        let mut i: u8 = 0;
        while i < 64
            invariant
                i <= 64,
                self.wf(),
                forall|j: int| 0 <= j < i ==> #[trigger] self.state.squares@[j] != Some(
                    Occupant { color: c, role: PieceKind::King },
                ),
            decreases 64 - i,
        {
            match self.state.squares[i as usize] {
                Some(p) => {
                    if p.color == c && p.role == PieceKind::King {
                        return Some(Sq { index: i });
                    }
                },
                None => {},
            }
            i = i + 1;
        }
        None
    }

    /// Whether some piece of `by` attacks `sq`.
    pub fn is_attacked(&self, sq: Sq, by: Side) -> (r: bool)
        requires
            self.wf(),
            sq.wf(),
        ensures
            r == crate::rules::attacked(self.state_spec().squares@, sq.index as int, by),
    {
        is_attacked(&self.state.squares, sq.index, by)
    }

    /// The legal moves in canonical order: each candidate of shakmaty that the
    /// filter accepts, sorted by source square, kind, destination and promotion.
    pub fn legal_moves(&self) -> (r: Vec<ChessMove>)
        requires
            self.wf(),
        ensures
            r@ == self.legal_moves_spec(),
            forall|i: int| 0 <= i < r@.len() ==> (#[trigger] r@[i]).standard() && self.state_spec().legal(r@[i]),
            crate::order::sorted_by_key(r@),
    {
        self.state.legal_in_order(&self.candidates)
    }

    /// The records of the legal moves, in canonical order.
    pub fn move_records(&self) -> (r: Vec<OutputRecord>)
        requires
            self.wf(),
        ensures
            self.records_match(r@),
    {
        let moves = self.legal_moves();
        serialize_moves(&moves)
    }
}

/// Reads `fen` and returns the records of its legal moves, in canonical order.
/// Fails exactly as `Position::from_fen` does.
pub fn legal_move_records(fen: &str) -> (r: Result<Vec<OutputRecord>, FenError>)
    ensures
        fen@.len() == 0 ==> r == Err::<Vec<OutputRecord>, FenError>(FenError::FieldCountMismatch),
        fen_parse_error(fen@) is Some ==> r == Err::<Vec<OutputRecord>, FenError>(
            fen_error_of(fen_parse_error(fen@)->Some_0),
        ),
        fen_parse_error(fen@) is None && r is Err ==> exists|bits: u32| r->Err_0 == position_error_of(bits),
        r is Ok ==> fen_parse_error(fen@) is None && exists|p: Position| p.wf() && #[trigger] p.records_match(r->Ok_0@),
{
    match Position::from_fen(fen) {
        Ok(pos) => {
            let recs = pos.move_records();
            assert(pos.wf() && pos.records_match(recs@));
            let r: Result<Vec<OutputRecord>, FenError> = Ok(recs);
            assert(r->Ok_0@ == recs@);
            assert(exists|p: Position| p.wf() && #[trigger] p.records_match(r->Ok_0@));
            r
        },
        Err(e) => Err(e),
    }
}

} // verus!
