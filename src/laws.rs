//! Properties of the legality rules, stated over the spec model and proved.

use vstd::prelude::*;
use crate::board::{opponent, ChessMove, Occupant, PieceKind, Side, Sq};
use crate::engine::Position;
use crate::order::{keys_distinct, lemma_order_independent, sort_spec};
use crate::rules::{
    is_promotion_kind, promotion_fits,
    abs, after_move, attacked, attacks, attacks_from, cell, clear_between, diagonal, king_safe, max, sgn, step, straight,
    BoardState,
};

verus! {

proof fn lemma_same_attacks(b1: Seq<Option<Occupant>>, b2: Seq<Option<Occupant>>, c: Side)
    requires
        b1.len() == 64,
        b2.len() == 64,
        forall|x: int| 0 <= x < 64 ==> (#[trigger] b1[x] is None) == (b2[x] is None),
        forall|x: int| 0 <= x < 64 && b1[x] != b2[x] ==> (#[trigger] b1[x])->Some_0.color != c && b2[x]->Some_0.color != c,
    ensures
        forall|t: int| 0 <= t < 64 ==> #[trigger] attacked(b1, t, c) == attacked(b2, t, c),
{
    assert forall|t: int| 0 <= t < 64 implies #[trigger] attacked(b1, t, c) == attacked(b2, t, c) by {
        assert forall|s: int| 0 <= s < 64 implies #[trigger] attacks_from(b1, s, t, c) == attacks_from(b2, s, t, c) by {
            if b1[s] == b2[s] && b1[s] is Some {
                let p = b1[s]->Some_0;
                let (fs, rs, ft, rt) = (s % 8, s / 8, t % 8, t / 8);
                if straight(ft - fs, rt - rs) || diagonal(ft - fs, rt - rs) {
                    let n = max(abs(ft - fs), abs(rt - rs));
                    let (sf, sr) = (sgn(ft - fs), sgn(rt - rs));
                    if clear_between(b1, fs, rs, ft, rt) {
                        assert forall|j: int| 1 <= j < n implies (#[trigger] b2[cell(step(fs, sf, j), step(rs, sr, j))]) is None by {
                            assert(0 <= step(fs, sf, j) < 8 && 0 <= step(rs, sr, j) < 8);
                            assert(b1[cell(step(fs, sf, j), step(rs, sr, j))] is None);
                        }
                    }
                    if clear_between(b2, fs, rs, ft, rt) {
                        assert forall|j: int| 1 <= j < n implies (#[trigger] b1[cell(step(fs, sf, j), step(rs, sr, j))]) is None by {
                            assert(0 <= step(fs, sf, j) < 8 && 0 <= step(rs, sr, j) < 8);
                            assert(b2[cell(step(fs, sf, j), step(rs, sr, j))] is None);
                        }
                    }
                }
                assert(attacks(b1, p, fs, rs, ft, rt) == attacks(b2, p, fs, rs, ft, rt));
            }
        }
        if attacked(b1, t, c) {
            let s = choose|s: int| 0 <= s < 64 && #[trigger] attacks_from(b1, s, t, c);
            assert(attacks_from(b2, s, t, c));
        }
        if attacked(b2, t, c) {
            let s = choose|s: int| 0 <= s < 64 && #[trigger] attacks_from(b2, s, t, c);
            assert(attacks_from(b1, s, t, c));
        }
    }
}

/// A pawn move that promotes is legal exactly when the same move promoting to any
/// other of queen, rook, bishop or knight is legal, so the four choices come together.
pub proof fn lemma_promotion_choice(st: BoardState, m: ChessMove, k: PieceKind)
    requires
        st.wf(),
        m.wf(),
        m is Normal,
        m->Normal_promotion is Some,
        is_promotion_kind(m->Normal_promotion->Some_0),
        is_promotion_kind(k),
    ensures
        st.legal(m) == st.legal(
            ChessMove::Normal {
                role: m->Normal_role,
                from: m->Normal_from,
                capture: m->Normal_capture,
                to: m->Normal_to,
                promotion: Some(k),
            },
        ),
{
    let m2 = ChessMove::Normal {
        role: m->Normal_role,
        from: m->Normal_from,
        capture: m->Normal_capture,
        to: m->Normal_to,
        promotion: Some(k),
    };
    let c = st.turn;
    let b1 = after_move(st.squares@, c, m);
    let b2 = after_move(st.squares@, c, m2);
    let to = m->Normal_to.index as int;
    assert forall|x: int| 0 <= x < 64 implies (#[trigger] b1[x] is None) == (b2[x] is None) by {
        if x != to {
            assert(b1[x] == b2[x]);
        }
    }
    assert forall|x: int| 0 <= x < 64 && b1[x] != b2[x] implies (#[trigger] b1[x])->Some_0.color != opponent(c)
        && b2[x]->Some_0.color != opponent(c) by {
        if x != to {
            assert(b1[x] == b2[x]);
        }
    }
    lemma_same_attacks(b1, b2, opponent(c));
    let own_king = Some(Occupant { color: c, role: PieceKind::King });
    if king_safe(b1, c) {
        assert forall|x: int| 0 <= x < 64 && #[trigger] b2[x] == own_king implies !attacked(b2, x, opponent(c)) by {
            if x != to {
                assert(b1[x] == b2[x]);
            }
            assert(b1[x] == own_king);
        }
    }
    if king_safe(b2, c) {
        assert forall|x: int| 0 <= x < 64 && #[trigger] b1[x] == own_king implies !attacked(b1, x, opponent(c)) by {
            if x != to {
                assert(b1[x] == b2[x]);
            }
            assert(b2[x] == own_king);
        }
    }
}

/// Playing a legal move never leaves a king of the mover attacked; in particular a
/// piece pinned to its king cannot leave the line of the pin.
pub proof fn lemma_legal_keeps_king_safe(st: BoardState, m: ChessMove)
    requires
        st.legal(m),
    ensures
        king_safe(after_move(st.squares@, st.turn, m), st.turn),
{
}

/// A castle is never legal when the right for its side is gone, when a cell
/// between king and rook is occupied, when the king is in check, or when a cell
/// the king crosses or lands on is attacked.
pub proof fn lemma_castle_gating(st: BoardState, king: Sq, rook: Sq)
    requires
        st.wf(),
        king.wf(),
        rook.wf(),
    ensures
        !st.castling.allows(st.turn, rook.file_of() > king.file_of()) ==> !st.legal(
            ChessMove::Castle { king, rook },
        ),
        (exists|f: int|
            (king.file_of() < f < rook.file_of() || rook.file_of() < f < king.file_of())
                && #[trigger] st.squares@[cell(f, king.rank_of())] is Some) ==> !st.legal(
            ChessMove::Castle { king, rook },
        ),
        attacked(st.squares@, king.index as int, opponent(st.turn)) ==> !st.legal(ChessMove::Castle { king, rook }),
        (exists|f: int|
            (king.file_of() < f <= crate::record::castle_target_spec(king, rook).file_of()
                || crate::record::castle_target_spec(king, rook).file_of() <= f < king.file_of())
                && #[trigger] attacked(st.squares@, cell(f, king.rank_of()), opponent(st.turn))) ==> !st.legal(
            ChessMove::Castle { king, rook },
        ),
{
}

/// An en-passant capture is legal only onto the en-passant target, from a pawn of
/// the side to move one file beside it, and only when no king of the mover is
/// attacked afterwards (no discovered check through the captured pawn).
pub proof fn lemma_en_passant_gating(st: BoardState, from: Sq, to: Sq)
    requires
        st.wf(),
        from.wf(),
        to.wf(),
        st.legal(ChessMove::EnPassant { from, to }),
    ensures
        st.ep_target == Some(to),
        abs(from.file_of() - to.file_of()) == 1,
        st.squares@[from.index as int] == Some(Occupant { color: st.turn, role: PieceKind::Pawn }),
        king_safe(after_move(st.squares@, st.turn, ChessMove::EnPassant { from, to }), st.turn),
{
}

/// The canonical legal-move list depends only on the position's state and on
/// which candidate moves there are, not on the order in which they arrive: equal
/// states and the same candidates, no two distinct of which share source, kind,
/// destination and promotion, give equal, identically ordered outputs.
pub proof fn lemma_deterministic(a: BoardState, b: BoardState, ca: Seq<ChessMove>, cb: Seq<ChessMove>)
    requires
        a.squares@ == b.squares@,
        a.turn == b.turn,
        a.castling == b.castling,
        a.ep_target == b.ep_target,
        ca.to_multiset() == cb.to_multiset(),
        keys_distinct(ca.to_multiset()),
    ensures
        sort_spec(ca).filter(|m: ChessMove| a.legal(m)) == sort_spec(cb).filter(|m: ChessMove| b.legal(m)),
{
    lemma_order_independent(ca, cb);
    assert((|m: ChessMove| a.legal(m)) == (|m: ChessMove| b.legal(m)));
}

/// Every move that a position lists passes the filter, and so: a castle there
/// holds the right, has an empty path, starts out of check and crosses no attacked
/// square; an en-passant capture there lands on the target from a pawn one file
/// beside it and leaves no king of the mover attacked; a pawn move onto the last
/// rank there promotes, to queen, rook, bishop or knight, and no other move does.
pub proof fn lemma_listed_moves(p: Position, i: int)
    requires
        p.wf(),
        0 <= i < p.legal_moves_spec().len(),
    ensures
        p.state_spec().legal(p.legal_moves_spec()[i]),
        match p.legal_moves_spec()[i] {
            ChessMove::Castle { king, rook } => p.state_spec().castle_permitted(king, rook),
            ChessMove::EnPassant { from, to } => p.state_spec().ep_permitted(from, to) && king_safe(
                after_move(p.state_spec().squares@, p.state_spec().turn, p.legal_moves_spec()[i]),
                p.state_spec().turn,
            ),
            ChessMove::Normal { role, to, promotion, .. } => promotion_fits(p.state_spec().turn, role, to, promotion),
            ChessMove::Put { .. } => false,
        },
{
    let st = p.state_spec();
    sort_spec(p.candidates_spec()).filter_lemma(|m: ChessMove| st.legal(m));
}

} // verus!
