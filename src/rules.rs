//! Attack detection and the legality filter, over a plain board of 64 cells.

use vstd::prelude::*;
use crate::board::{opponent, Side, ChessMove, Occupant, PieceKind, Sq};
use crate::record::{castle_target, castle_target_spec};
use crate::order::{order_key, sort_moves, sort_spec, sorted_by_key};

verus! {

/// Which castling moves the position still allows.
#[derive(Clone, Copy, PartialEq, Eq, Debug, Structural)]
pub struct CastlingRights {
    pub white_king_side: bool,
    pub white_queen_side: bool,
    pub black_king_side: bool,
    pub black_queen_side: bool,
}

impl CastlingRights {
    pub open spec fn allows(self, c: Side, king_side: bool) -> bool {
        match c {
            Side::White => if king_side { self.white_king_side } else { self.white_queen_side },
            Side::Black => if king_side { self.black_king_side } else { self.black_queen_side },
        }
    }
}

/// What legality depends on: the cells, the side to move, the castling rights and
/// the en-passant target.
#[derive(Clone, Debug)]
pub struct BoardState {
    pub squares: Vec<Option<Occupant>>,
    pub turn: Side,
    pub castling: CastlingRights,
    pub ep_target: Option<Sq>,
}

pub open spec fn abs(x: int) -> int {
    if x < 0 { -x } else { x }
}

pub open spec fn sgn(x: int) -> int {
    if x > 0 { 1 } else if x < 0 { -1 } else { 0 }
}

/// `j` steps from `x` in direction `d` (one of -1, 0, 1).
pub open spec fn step(x: int, d: int, j: int) -> int {
    if d > 0 { x + j } else if d < 0 { x - j } else { x }
}

pub open spec fn cell(f: int, r: int) -> int {
    r * 8 + f
}

pub open spec fn max(a: int, b: int) -> int {
    if a < b { b } else { a }
}

/// Every cell strictly between (fs, rs) and (ft, rt) on the line joining them is empty.
pub open spec fn clear_between(b: Seq<Option<Occupant>>, fs: int, rs: int, ft: int, rt: int) -> bool {
    forall|j: int|
        1 <= j < max(abs(ft - fs), abs(rt - rs)) ==> (#[trigger] b[cell(
            step(fs, sgn(ft - fs), j),
            step(rs, sgn(rt - rs), j),
        )]) is None
}

pub open spec fn straight(df: int, dr: int) -> bool {
    (df == 0) != (dr == 0)
}

pub open spec fn diagonal(df: int, dr: int) -> bool {
    abs(df) == abs(dr) && df != 0
}

/// `p`, standing on (fs, rs), attacks (ft, rt).
pub open spec fn attacks(b: Seq<Option<Occupant>>, p: Occupant, fs: int, rs: int, ft: int, rt: int) -> bool {
    let df = ft - fs;
    let dr = rt - rs;
    match p.role {
        PieceKind::Pawn => abs(df) == 1 && dr == (if p.color == Side::White { 1int } else { -1int }),
        PieceKind::Knight => (abs(df) == 1 && abs(dr) == 2) || (abs(df) == 2 && abs(dr) == 1),
        PieceKind::King => abs(df) <= 1 && abs(dr) <= 1 && !(df == 0 && dr == 0),
        PieceKind::Rook => straight(df, dr) && clear_between(b, fs, rs, ft, rt),
        PieceKind::Bishop => diagonal(df, dr) && clear_between(b, fs, rs, ft, rt),
        PieceKind::Queen => (straight(df, dr) || diagonal(df, dr)) && clear_between(b, fs, rs, ft, rt),
    }
}

/// The piece on cell `s`, if it belongs to `by`, attacks cell `t`.
pub open spec fn attacks_from(b: Seq<Option<Occupant>>, s: int, t: int, by: Side) -> bool {
    b[s] is Some && b[s]->Some_0.color == by && attacks(b, b[s]->Some_0, s % 8, s / 8, t % 8, t / 8)
}

/// Some piece of `by` attacks cell `t`.
pub open spec fn attacked(b: Seq<Option<Occupant>>, t: int, by: Side) -> bool {
    exists|s: int| 0 <= s < 64 && #[trigger] attacks_from(b, s, t, by)
}

/// No king of color `c` stands attacked.
pub open spec fn king_safe(b: Seq<Option<Occupant>>, c: Side) -> bool {
    forall|k: int|
        0 <= k < 64 && #[trigger] b[k] == Some(Occupant { color: c, role: PieceKind::King }) ==> !attacked(b, k, opponent(c))
}

/// Where the rook lands when castling: beside the king's target, on the king's side.
pub open spec fn rook_target_spec(king: Sq, rook: Sq) -> Sq {
    Sq {
        index: (king.rank_of() * 8 + if rook.file_of() < king.file_of() { 3int } else { 5int }) as u8,
    }
}

/// The cells after `turn` plays `m`.
pub open spec fn after_move(b: Seq<Option<Occupant>>, turn: Side, m: ChessMove) -> Seq<Option<Occupant>> {
    match m {
        ChessMove::Normal { role, from, to, promotion, .. } => b.update(from.index as int, None).update(
            to.index as int,
            Some(Occupant { color: turn, role: match promotion { Some(p) => p, None => role } }),
        ),
        ChessMove::EnPassant { from, to } => b.update(from.index as int, None).update(
            cell(to.file_of(), from.rank_of()),
            None,
        ).update(to.index as int, Some(Occupant { color: turn, role: PieceKind::Pawn })),
        ChessMove::Castle { king, rook } => b.update(king.index as int, None).update(rook.index as int, None).update(
            castle_target_spec(king, rook).index as int,
            Some(Occupant { color: turn, role: PieceKind::King }),
        ).update(rook_target_spec(king, rook).index as int, Some(Occupant { color: turn, role: PieceKind::Rook })),
        ChessMove::Put { role, to } => b.update(to.index as int, Some(Occupant { color: turn, role })),
    }
}

pub open spec fn is_promotion_kind(k: PieceKind) -> bool {
    k == PieceKind::Queen || k == PieceKind::Rook || k == PieceKind::Bishop || k == PieceKind::Knight
}

/// Rank 8 for White, rank 1 for Black (as 7 and 0).
pub open spec fn last_rank(c: Side) -> int {
    if c == Side::White { 7 } else { 0 }
}

/// A move of `role` to `to` carries a promotion exactly when it is a pawn reaching
/// the last rank, and the promotion is to queen, rook, bishop or knight.
pub open spec fn promotion_fits(c: Side, role: PieceKind, to: Sq, promotion: Option<PieceKind>) -> bool {
    &&& (promotion is Some <==> (role == PieceKind::Pawn && to.rank_of() == last_rank(c)))
    &&& (promotion is Some ==> is_promotion_kind(promotion->Some_0))
}

pub open spec fn pawn_dir(c: Side) -> int {
    if c == Side::White { 1 } else { -1 }
}

impl BoardState {
    pub open spec fn wf(&self) -> bool {
        &&& self.squares@.len() == 64
        &&& match self.ep_target { Some(t) => t.wf(), None => true }
    }

    /// Castling with the king on `king` and the rook on `rook` is allowed: both
    /// stand on one rank, the right is held, every cell between them is empty,
    /// the king is not in check and no cell it crosses or lands on is attacked.
    pub open spec fn castle_permitted(&self, king: Sq, rook: Sq) -> bool {
        let b = self.squares@;
        let c = self.turn;
        let kf = king.file_of();
        let rf = rook.file_of();
        let tf = castle_target_spec(king, rook).file_of();
        &&& king.rank_of() == rook.rank_of()
        &&& rook.corner()
        &&& kf != rf
        &&& b[king.index as int] == Some(Occupant { color: c, role: PieceKind::King })
        &&& b[rook.index as int] == Some(Occupant { color: c, role: PieceKind::Rook })
        &&& self.castling.allows(c, rf > kf)
        &&& forall|f: int| #![trigger cell(f, king.rank_of())]
            (kf < f < rf || rf < f < kf) ==> b[cell(f, king.rank_of())] is None
        &&& !attacked(b, king.index as int, opponent(c))
        &&& forall|f: int| #![trigger cell(f, king.rank_of())]
            (kf < f <= tf || tf <= f < kf) ==> !attacked(b, cell(f, king.rank_of()), opponent(c))
    }

    /// An en-passant capture from `from` to `to` is allowed: `to` is the target,
    /// and `from` holds a pawn of the side to move, one file beside it and one rank behind.
    pub open spec fn ep_permitted(&self, from: Sq, to: Sq) -> bool {
        &&& self.ep_target == Some(to)
        &&& abs(from.file_of() - to.file_of()) == 1
        &&& to.rank_of() == from.rank_of() + pawn_dir(self.turn)
        &&& self.squares@[from.index as int] == Some(Occupant { color: self.turn, role: PieceKind::Pawn })
    }

    /// The king-safety filter that a generated move must pass: the piece moved
    /// belongs to the side to move; a normal move promotes exactly when a pawn
    /// reaches the last rank, and then to queen, rook, bishop or knight; castles and
    /// en-passant captures meet their conditions; and no king of the mover is
    /// attacked afterwards. How a piece moves (its geometry) is not checked here:
    /// that is the generator's part.
    pub open spec fn legal(&self, m: ChessMove) -> bool {
        let b = self.squares@;
        let c = self.turn;
        &&& match m {
            ChessMove::Normal { role, from, to, promotion, .. } => {
                &&& b[from.index as int] == Some(Occupant { color: c, role })
                &&& promotion_fits(c, role, to, promotion)
            },
            ChessMove::EnPassant { from, to } => self.ep_permitted(from, to),
            ChessMove::Castle { king, rook } => self.castle_permitted(king, rook),
            ChessMove::Put { .. } => false,
        }
        &&& king_safe(after_move(b, c, m), c)
    }
}


/// The color that is not `c`.
pub fn opposite(c: Side) -> (r: Side)
    ensures
        r == opponent(c),
{
    match c {
        Side::White => Side::Black,
        Side::Black => Side::White,
    }
}

fn clear_path(b: &Vec<Option<Occupant>>, fs: i32, rs: i32, ft: i32, rt: i32) -> (r: bool)
    requires
        b@.len() == 64,
        0 <= fs < 8,
        0 <= rs < 8,
        0 <= ft < 8,
        0 <= rt < 8,
        straight(ft - fs, rt - rs) || diagonal(ft - fs, rt - rs),
    ensures
        r == clear_between(b@, fs as int, rs as int, ft as int, rt as int),
{
    let df: i32 = if ft > fs { 1 } else if ft < fs { -1 } else { 0 };
    let dr: i32 = if rt > rs { 1 } else if rt < rs { -1 } else { 0 };
    let adf: i32 = if ft > fs { ft - fs } else { fs - ft };
    let adr: i32 = if rt > rs { rt - rs } else { rs - rt };
    let n: i32 = if adf < adr { adr } else { adf };
    let mut j: i32 = 1;
    let mut f: i32 = fs + df;
    let mut r: i32 = rs + dr;
    while j < n
        invariant
            1 <= j <= n,
            n == max(abs(ft - fs), abs(rt - rs)),
            df == sgn(ft - fs),
            dr == sgn(rt - rs),
            f == step(fs as int, df as int, j as int),
            r == step(rs as int, dr as int, j as int),
            0 <= f < 8,
            0 <= r < 8,
            b@.len() == 64,
            straight(ft - fs, rt - rs) || diagonal(ft - fs, rt - rs),
            0 <= fs < 8,
            0 <= rs < 8,
            0 <= ft < 8,
            0 <= rt < 8,
            forall|k: int|
                1 <= k < j ==> (#[trigger] b@[cell(step(fs as int, df as int, k), step(rs as int, dr as int, k))]) is None,
        decreases n - j,
    {
        let idx: usize = (r * 8 + f) as usize;
        if b[idx].is_some() {
            assert(b@[cell(step(fs as int, df as int, j as int), step(rs as int, dr as int, j as int))] is Some);
            return false;
        }
        j = j + 1;
        f = f + df;
        r = r + dr;
    }
    true
}

fn piece_attacks(b: &Vec<Option<Occupant>>, p: Occupant, s: u8, t: u8) -> (r: bool)
    requires
        b@.len() == 64,
        s < 64,
        t < 64,
    ensures
        r == attacks(b@, p, s as int % 8, s as int / 8, t as int % 8, t as int / 8),
{
    let fs: i32 = (s % 8) as i32;
    let rs: i32 = (s / 8) as i32;
    let ft: i32 = (t % 8) as i32;
    let rt: i32 = (t / 8) as i32;
    let df: i32 = ft - fs;
    let dr: i32 = rt - rs;
    let adf: i32 = if df < 0 { -df } else { df };
    let adr: i32 = if dr < 0 { -dr } else { dr };
    let line: bool = (df == 0) != (dr == 0);
    let diag: bool = adf == adr && df != 0;
    match p.role {
        PieceKind::Pawn => {
            let forward: i32 = if p.color == Side::White { 1 } else { -1 };
            adf == 1 && dr == forward
        },
        PieceKind::Knight => (adf == 1 && adr == 2) || (adf == 2 && adr == 1),
        PieceKind::King => adf <= 1 && adr <= 1 && !(df == 0 && dr == 0),
        PieceKind::Rook => line && clear_path(b, fs, rs, ft, rt),
        PieceKind::Bishop => diag && clear_path(b, fs, rs, ft, rt),
        PieceKind::Queen => (line || diag) && clear_path(b, fs, rs, ft, rt),
    }
}

/// Whether some piece of `by` attacks cell `t`: sliders along clear rays,
/// knights and kings by their fixed offsets, pawns diagonally forward.
pub fn is_attacked(b: &Vec<Option<Occupant>>, t: u8, by: Side) -> (r: bool)
    requires
        b@.len() == 64,
        t < 64,
    ensures
        r == attacked(b@, t as int, by),
{
    let mut s: u8 = 0;
    while s < 64
        invariant
            s <= 64,
            b@.len() == 64,
            t < 64,
            forall|s2: int| 0 <= s2 < s ==> !#[trigger] attacks_from(b@, s2, t as int, by),
        decreases 64 - s,
    {
        match b[s as usize] {
            Some(p) => {
                if p.color == by && piece_attacks(b, p, s, t) {
                    assert(attacks_from(b@, s as int, t as int, by));
                    return true;
                }
            },
            None => {},
        }
        s = s + 1;
    }
    false
}

/// Whether no king of color `c` stands attacked.
pub fn is_king_safe(b: &Vec<Option<Occupant>>, c: Side) -> (r: bool)
    requires
        b@.len() == 64,
    ensures
        r == king_safe(b@, c),
{
    let opp = opposite(c);
    let mut k: u8 = 0;
    while k < 64
        invariant
            k <= 64,
            b@.len() == 64,
            opp == opponent(c),
            forall|k2: int|
                0 <= k2 < k && #[trigger] b@[k2] == Some(Occupant { color: c, role: PieceKind::King })
                    ==> !attacked(b@, k2, opp),
        decreases 64 - k,
    {
        match b[k as usize] {
            Some(p) => {
                if p.color == c && p.role == PieceKind::King && is_attacked(b, k, opp) {
                    return false;
                }
            },
            None => {},
        }
        k = k + 1;
    }
    true
}

/// The square the rook reaches when castling with the king on `king`.
pub fn rook_target(king: Sq, rook: Sq) -> (r: Sq)
    requires
        king.wf(),
        rook.wf(),
    ensures
        r == rook_target_spec(king, rook),
        r.wf(),
{
    let f: u8 = if rook.file() < king.file() { 3 } else { 5 };
    Sq::from_coords(f, king.rank())
}

/// The cells after `turn` plays `m`, computed on a copy.
pub fn apply_move(b: &Vec<Option<Occupant>>, turn: Side, m: ChessMove) -> (r: Vec<Option<Occupant>>)
    requires
        b@.len() == 64,
        m.wf(),
    ensures
        r@ == after_move(b@, turn, m),
{
    let mut nb: Vec<Option<Occupant>> = Vec::new();
    let mut i: usize = 0;
    while i < 64
        invariant
            i <= 64,
            b@.len() == 64,
            nb@ == b@.subrange(0, i as int),
        decreases 64 - i,
    {
        nb.push(b[i]);
        i = i + 1;
    }
    assert(nb@ == b@);
    match m {
        ChessMove::Normal { role, from, to, promotion, .. } => {
            let placed: PieceKind = match promotion {
                Some(p) => p,
                None => role,
            };
            nb.set(from.index as usize, None);
            nb.set(to.index as usize, Some(Occupant { color: turn, role: placed }));
        },
        ChessMove::EnPassant { from, to } => {
            let taken = Sq::from_coords(to.file(), from.rank());
            nb.set(from.index as usize, None);
            nb.set(taken.index as usize, None);
            nb.set(to.index as usize, Some(Occupant { color: turn, role: PieceKind::Pawn }));
        },
        ChessMove::Castle { king, rook } => {
            let kt = castle_target(king, rook);
            let rt = rook_target(king, rook);
            nb.set(king.index as usize, None);
            nb.set(rook.index as usize, None);
            nb.set(kt.index as usize, Some(Occupant { color: turn, role: PieceKind::King }));
            nb.set(rt.index as usize, Some(Occupant { color: turn, role: PieceKind::Rook }));
        },
        ChessMove::Put { role, to } => {
            nb.set(to.index as usize, Some(Occupant { color: turn, role }));
        },
    }
    nb
}


impl CastlingRights {
    /// Whether `c` may still castle on the given side.
    pub fn has(&self, c: Side, king_side: bool) -> (r: bool)
        ensures
            r == self.allows(c, king_side),
    {
        match c {
            Side::White => if king_side { self.white_king_side } else { self.white_queen_side },
            Side::Black => if king_side { self.black_king_side } else { self.black_queen_side },
        }
    }
}

fn holds(b: &Vec<Option<Occupant>>, s: Sq, c: Side, role: PieceKind) -> (r: bool)
    requires
        b@.len() == 64,
        s.wf(),
    ensures
        r == (b@[s.index as int] == Some(Occupant { color: c, role })),
{
    match b[s.index as usize] {
        Some(p) => p.color == c && p.role == role,
        None => false,
    }
}

fn promotion_ok(c: Side, role: PieceKind, to: Sq, promotion: Option<PieceKind>) -> (r: bool)
    requires
        to.wf(),
    ensures
        r == promotion_fits(c, role, to, promotion),
{
    let last: u8 = match c {
        Side::White => 7,
        Side::Black => 0,
    };
    let reaches = role == PieceKind::Pawn && to.rank() == last;
    match promotion {
        Some(k) => reaches && (k == PieceKind::Queen || k == PieceKind::Rook || k == PieceKind::Bishop
            || k == PieceKind::Knight),
        None => !reaches,
    }
}

impl BoardState {
    /// Checks `castle_permitted`.
    pub fn castle_allowed(&self, king: Sq, rook: Sq) -> (r: bool)
        requires
            self.wf(),
            king.wf(),
            rook.wf(),
        ensures
            r == self.castle_permitted(king, rook),
    {
        let b = &self.squares;
        let c = self.turn;
        let opp = opposite(c);
        let kf = king.file();
        let rf = rook.file();
        let rank = king.rank();
        if rank != rook.rank() || !rook.is_corner() || kf == rf {
            return false;
        }
        if !holds(b, king, c, PieceKind::King) || !holds(b, rook, c, PieceKind::Rook) {
            return false;
        }
        if !self.castling.has(c, rf > kf) {
            return false;
        }
        let lo: u8 = if kf < rf { kf + 1 } else { rf + 1 };
        let hi: u8 = if kf < rf { rf } else { kf };
        let mut f: u8 = lo;
        while f < hi
            invariant
                lo <= f,
                hi < 8,
                b@.len() == 64,
                rank < 8,
                rank == king.rank_of(),
                b@ == self.squares@,
                kf == king.file_of(),
                rf == rook.file_of(),
                lo == (if kf < rf { kf + 1 } else { rf + 1 }),
                hi == (if kf < rf { rf } else { kf }),
                forall|g: int| #![trigger cell(g, king.rank_of())]
                    lo <= g < f ==> b@[cell(g, king.rank_of())] is None,
            decreases hi - f,
        {
            if b[(rank * 8 + f) as usize].is_some() {
                assert(b@[cell(f as int, king.rank_of())] is Some);
                assert(king.file_of() < f < rook.file_of() || rook.file_of() < f < king.file_of());
                return false;
            }
            f = f + 1;
        }
        if is_attacked(b, king.index, opp) {
            return false;
        }
        let tf = castle_target(king, rook).file();
        let lo2: u8 = if kf < tf { kf + 1 } else { tf };
        let hi2: u8 = if kf < tf { tf + 1 } else { kf };
        let mut g: u8 = lo2;
        while g < hi2
            invariant
                lo2 <= g,
                b@ == self.squares@,
                c == self.turn,
                hi2 <= 8,
                b@.len() == 64,
                rank < 8,
                rank == king.rank_of(),
                opp == opponent(c),
                kf == king.file_of(),
                tf == castle_target_spec(king, rook).file_of(),
                lo2 == (if kf < tf { kf + 1 } else { tf as int }),
                hi2 == (if kf < tf { tf + 1 } else { kf as int }),
                forall|h: int| #![trigger cell(h, king.rank_of())]
                    lo2 <= h < g ==> !attacked(b@, cell(h, king.rank_of()), opp),
            decreases hi2 - g,
        {
            if is_attacked(b, rank * 8 + g, opp) {
                assert(attacked(b@, cell(g as int, king.rank_of()), opp));
                assert(king.file_of() < g <= castle_target_spec(king, rook).file_of()
                    || castle_target_spec(king, rook).file_of() <= g < king.file_of());
                return false;
            }
            g = g + 1;
        }
        true
    }

    /// Checks `ep_permitted`.
    pub fn en_passant_allowed(&self, from: Sq, to: Sq) -> (r: bool)
        requires
            self.wf(),
            from.wf(),
            to.wf(),
        ensures
            r == self.ep_permitted(from, to),
    {
        let target_ok = match self.ep_target {
            Some(t) => t.index == to.index,
            None => false,
        };
        let ff = from.file();
        let tf = to.file();
        let beside = ff + 1 == tf || tf + 1 == ff;
        let forward = match self.turn {
            Side::White => to.rank() == from.rank() + 1,
            Side::Black => from.rank() == to.rank() + 1,
        };
        target_ok && beside && forward && holds(&self.squares, from, self.turn, PieceKind::Pawn)
    }

    /// Checks `legal`.
    pub fn is_legal(&self, m: ChessMove) -> (r: bool)
        requires
            self.wf(),
            m.wf(),
        ensures
            r == self.legal(m),
    {
        let kind_ok = match m {
            ChessMove::Normal { role, from, to, promotion, .. } => holds(&self.squares, from, self.turn, role)
                && promotion_ok(self.turn, role, to, promotion),
            ChessMove::EnPassant { from, to } => self.en_passant_allowed(from, to),
            ChessMove::Castle { king, rook } => self.castle_allowed(king, rook),
            ChessMove::Put { .. } => false,
        };
        if !kind_ok {
            return false;
        }
        let nb = apply_move(&self.squares, self.turn, m);
        is_king_safe(&nb, self.turn)
    }

    /// Keeps, in order, the moves that are legal here.
    pub fn retain_legal(&self, candidates: &Vec<ChessMove>) -> (r: Vec<ChessMove>)
        requires
            self.wf(),
            forall|i: int| 0 <= i < candidates@.len() ==> (#[trigger] candidates@[i]).wf(),
        ensures
            r@ == candidates@.filter(|m: ChessMove| self.legal(m)),
            forall|i: int| 0 <= i < r@.len() ==> (#[trigger] r@[i]).wf() && self.legal(r@[i]),
            sorted_by_key(candidates@) ==> sorted_by_key(r@),
    {
        let mut out: Vec<ChessMove> = Vec::new();
        let mut i: usize = 0;
        while i < candidates.len()
            invariant
                i <= candidates@.len(),
                self.wf(),
                forall|j: int| 0 <= j < candidates@.len() ==> (#[trigger] candidates@[j]).wf(),
                out@ == candidates@.subrange(0, i as int).filter(|m: ChessMove| self.legal(m)),
                forall|j: int| 0 <= j < out@.len() ==> (#[trigger] out@[j]).wf() && self.legal(out@[j]),
                sorted_by_key(candidates@) ==> sorted_by_key(out@),
                sorted_by_key(candidates@) ==> forall|j: int, l: int|
                    0 <= j < out@.len() && i <= l < candidates@.len() ==> order_key(#[trigger] out@[j]) <= order_key(
                        #[trigger] candidates@[l],
                    ),
            decreases candidates@.len() - i,
        {
            let m = candidates[i];
            proof {
                reveal(Seq::filter);
                assert(candidates@.subrange(0, i as int + 1).drop_last() =~= candidates@.subrange(0, i as int));
            }
            if self.is_legal(m) {
                out.push(m);
                proof {
                    if sorted_by_key(candidates@) {
                        assert forall|j: int, l: int|
                            0 <= j < out@.len() && i + 1 <= l < candidates@.len() implies order_key(
                                #[trigger] out@[j],
                            ) <= order_key(#[trigger] candidates@[l]) by {
                            if j < out@.len() - 1 {
                                assert(order_key(out@[j]) <= order_key(candidates@[i as int]));
                            }
                            assert(order_key(candidates@[i as int]) <= order_key(candidates@[l]));
                        }
                    }
                }
            }
            i = i + 1;
        }
        assert(candidates@.subrange(0, candidates@.len() as int) =~= candidates@);
        out
    }
}


impl BoardState {
    /// The legal moves among `candidates`, in canonical order: the candidates
    /// sorted by source square, kind and destination, then filtered.
    pub fn legal_in_order(&self, candidates: &Vec<ChessMove>) -> (r: Vec<ChessMove>)
        requires
            self.wf(),
            forall|i: int| 0 <= i < candidates@.len() ==> (#[trigger] candidates@[i]).wf(),
        ensures
            r@ == sort_spec(candidates@).filter(|m: ChessMove| self.legal(m)),
            sorted_by_key(r@),
            forall|i: int| 0 <= i < r@.len() ==> (#[trigger] r@[i]).wf() && self.legal(r@[i]),
    {
        let sorted = sort_moves(candidates);
        proof {
            assert forall|i: int| 0 <= i < sorted@.len() implies (#[trigger] sorted@[i]).wf() by {
                crate::order::lemma_sort_keeps(candidates@, i);
            }
        }
        self.retain_legal(&sorted)
    }
}

} // verus!
