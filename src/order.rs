//! Canonical move order: by source square, then kind, then destination, then promotion.

use vstd::prelude::*;
use vstd::multiset::Multiset;
use crate::board::{ChessMove, PieceKind};
use crate::record::{castle_target, castle_target_spec};

verus! {

/// Rank of a promotion choice in the order queen, rook, bishop, knight; 0 when there is none.
pub open spec fn promotion_rank(p: Option<PieceKind>) -> int {
    match p {
        Some(PieceKind::Rook) => 1,
        Some(PieceKind::Bishop) => 2,
        Some(PieceKind::Knight) => 3,
        _ => 0,
    }
}

/// Sort key of a move: source square, then kind (normal, en passant, castle,
/// drop), then destination, then promotion choice. A castle's destination is the
/// king's landing square; a drop, which has no source, sorts after every board move.
pub open spec fn order_key(m: ChessMove) -> int {
    match m {
        ChessMove::Normal { from, to, promotion, .. } => from.index as int * 1024 + to.index as int * 4 + promotion_rank(
            promotion,
        ),
        ChessMove::EnPassant { from, to } => from.index as int * 1024 + 256 + to.index as int * 4,
        ChessMove::Castle { king, rook } => king.index as int * 1024 + 512 + castle_target_spec(king, rook).index as int * 4,
        ChessMove::Put { to, .. } => 64 * 1024 + 768 + to.index as int * 4,
    }
}

pub open spec fn sorted_by_key(s: Seq<ChessMove>) -> bool {
    forall|i: int, j: int| 0 <= i < j < s.len() ==> order_key(#[trigger] s[i]) <= order_key(#[trigger] s[j])
}

/// Where a move of key `k` goes in `s`: after the last element whose key is at most `k`.
pub open spec fn insert_pos(s: Seq<ChessMove>, k: int) -> int
    decreases s.len(),
{
    if s.len() == 0 {
        0
    } else if order_key(s.last()) <= k {
        s.len() as int
    } else {
        insert_pos(s.drop_last(), k)
    }
}

/// Stable insertion sort of `s` by `order_key`.
pub open spec fn sort_spec(s: Seq<ChessMove>) -> Seq<ChessMove>
    decreases s.len(),
{
    if s.len() == 0 {
        s
    } else {
        let t = sort_spec(s.drop_last());
        t.insert(insert_pos(t, order_key(s.last())), s.last())
    }
}

proof fn lemma_insert_pos(s: Seq<ChessMove>, k: int)
    requires
        sorted_by_key(s),
    ensures
        0 <= insert_pos(s, k) <= s.len(),
        forall|i: int| 0 <= i < insert_pos(s, k) ==> order_key(#[trigger] s[i]) <= k,
        forall|i: int| insert_pos(s, k) <= i < s.len() ==> order_key(#[trigger] s[i]) > k,
    decreases s.len(),
{
    if s.len() > 0 {
        if order_key(s.last()) <= k {
            assert forall|i: int| 0 <= i < s.len() implies order_key(#[trigger] s[i]) <= k by {
                if i < s.len() - 1 {
                    assert(order_key(s[i]) <= order_key(s[s.len() - 1]));
                }
            }
        } else {
            let t = s.drop_last();
            lemma_insert_pos(t, k);
            assert forall|i: int| 0 <= i < insert_pos(s, k) implies order_key(#[trigger] s[i]) <= k by {
                assert(s[i] == t[i]);
            }
            assert forall|i: int| insert_pos(s, k) <= i < s.len() implies order_key(#[trigger] s[i]) > k by {
                if i < s.len() - 1 {
                    assert(s[i] == t[i]);
                }
            }
        }
    }
}

proof fn lemma_sort_spec(s: Seq<ChessMove>)
    ensures
        sorted_by_key(sort_spec(s)),
        sort_spec(s).len() == s.len(),
    decreases s.len(),
{
    if s.len() > 0 {
        let t = sort_spec(s.drop_last());
        lemma_sort_spec(s.drop_last());
        let k = order_key(s.last());
        lemma_insert_pos(t, k);
        let p = insert_pos(t, k);
        let u = t.insert(p, s.last());
        assert forall|i: int, j: int| 0 <= i < j < u.len() implies order_key(#[trigger] u[i]) <= order_key(#[trigger] u[j]) by {
            if j < p {
            } else if j == p {
                assert(u[i] == t[i]);
            } else if i < p {
                assert(u[j] == t[j - 1]);
            } else if i == p {
                assert(u[j] == t[j - 1]);
            } else {
                assert(u[i] == t[i - 1]);
                assert(u[j] == t[j - 1]);
            }
        }
    }
}

/// Sorting keeps exactly the elements it was given, each as often.
pub proof fn lemma_sort_spec_multiset(s: Seq<ChessMove>)
    ensures
        sort_spec(s).to_multiset() =~= s.to_multiset(),
    decreases s.len(),
{
    broadcast use vstd::seq_lib::group_to_multiset_ensures;

    if s.len() > 0 {
        let d = s.drop_last();
        let x = s.last();
        lemma_sort_spec_multiset(d);
        lemma_sort_spec(d);
        let t = sort_spec(d);
        lemma_insert_pos(t, order_key(x));
        let p = insert_pos(t, order_key(x));
        let u = t.insert(p, x);
        assert(u.remove(p) =~= t);
        assert(u.to_multiset().remove(x) =~= t.to_multiset());
        assert(u.contains(x)) by {
            assert(u[p] == x);
        }
        assert(u.to_multiset().count(x) > 0);
        assert(u.to_multiset() =~= t.to_multiset().insert(x));
        assert(d.push(x) =~= s);
    }
}

/// No two distinct elements of `m` share a sort key.
pub open spec fn keys_distinct(m: Multiset<ChessMove>) -> bool {
    forall|a: ChessMove, b: ChessMove|
        m.contains(a) && m.contains(b) && #[trigger] order_key(a) == #[trigger] order_key(b) ==> a == b
}

/// Two sequences sorted by key that hold the same elements, no two distinct of
/// which share a key, are equal.
pub proof fn lemma_sorted_unique(s1: Seq<ChessMove>, s2: Seq<ChessMove>)
    requires
        sorted_by_key(s1),
        sorted_by_key(s2),
        s1.to_multiset() == s2.to_multiset(),
        keys_distinct(s1.to_multiset()),
    ensures
        s1 == s2,
    decreases s1.len(),
{
    broadcast use vstd::seq_lib::group_to_multiset_ensures;

    assert(s1.to_multiset().len() == s1.len());
    assert(s2.to_multiset().len() == s2.len());
    if s1.len() > 0 {
        let m = s1.to_multiset();
        assert(s1.contains(s1[0]));
        assert(s1.to_multiset().count(s1[0]) > 0);
        assert(s2.to_multiset().count(s1[0]) > 0);
        assert(s2.contains(s1[0]));
        let j = choose|j: int| 0 <= j < s2.len() && s2[j] == s1[0];
        assert(s2.contains(s2[0]));
        assert(s2.to_multiset().count(s2[0]) > 0);
        assert(s1.to_multiset().count(s2[0]) > 0);
        assert(s1.contains(s2[0]));
        let i = choose|i: int| 0 <= i < s1.len() && s1[i] == s2[0];
        if i > 0 {
            assert(order_key(s1[0]) <= order_key(s1[i]));
        }
        if j > 0 {
            assert(order_key(s2[0]) <= order_key(s2[j]));
        }
        assert(m.contains(s1[0]) && m.contains(s2[0]));
        assert(s1[0] == s2[0]);
        let x = s1[0];
        assert(s1.remove(0) =~= s1.drop_first());
        assert(s2.remove(0) =~= s2.drop_first());
        let t1 = s1.drop_first();
        let t2 = s2.drop_first();
        assert(t1.to_multiset() == m.remove(x));
        assert forall|a: ChessMove, b: ChessMove|
            t1.to_multiset().contains(a) && t1.to_multiset().contains(b) && #[trigger] order_key(a)
                == #[trigger] order_key(b) implies a == b by {
            assert(t1.to_multiset().count(a) <= m.count(a));
            assert(t1.to_multiset().count(b) <= m.count(b));
        }
        assert forall|a: int, b: int| 0 <= a < b < t1.len() implies order_key(#[trigger] t1[a]) <= order_key(
            #[trigger] t1[b],
        ) by {
            assert(t1[a] == s1[a + 1] && t1[b] == s1[b + 1]);
        }
        assert forall|a: int, b: int| 0 <= a < b < t2.len() implies order_key(#[trigger] t2[a]) <= order_key(
            #[trigger] t2[b],
        ) by {
            assert(t2[a] == s2[a + 1] && t2[b] == s2[b + 1]);
        }
        lemma_sorted_unique(t1, t2);
        assert(s1 =~= s2) by {
            assert forall|k: int| 0 <= k < s1.len() implies s1[k] == s2[k] by {
                if k > 0 {
                    assert(s1[k] == t1[k - 1]);
                    assert(s2[k] == t2[k - 1]);
                }
            }
        }
    }
}

/// The canonical order does not depend on the order in which the moves arrive:
/// two sequences holding the same moves, no two distinct of which share source,
/// kind, destination and promotion, sort to the same sequence.
pub proof fn lemma_order_independent(c1: Seq<ChessMove>, c2: Seq<ChessMove>)
    requires
        c1.to_multiset() == c2.to_multiset(),
        keys_distinct(c1.to_multiset()),
    ensures
        sort_spec(c1) == sort_spec(c2),
{
    lemma_sort_spec(c1);
    lemma_sort_spec(c2);
    lemma_sort_spec_multiset(c1);
    lemma_sort_spec_multiset(c2);
    lemma_sorted_unique(sort_spec(c1), sort_spec(c2));
}

/// Each element of the sorted sequence is well-formed when every input element is.
pub proof fn lemma_sort_keeps(s: Seq<ChessMove>, i: int)
    requires
        forall|j: int| 0 <= j < s.len() ==> (#[trigger] s[j]).wf(),
        0 <= i < sort_spec(s).len(),
    ensures
        sort_spec(s)[i].wf(),
    decreases s.len(),
{
    lemma_sort_spec(s);
    let t = sort_spec(s.drop_last());
    lemma_sort_spec(s.drop_last());
    let p = insert_pos(t, order_key(s.last()));
    lemma_insert_pos(t, order_key(s.last()));
    if i < p {
        lemma_sort_keeps(s.drop_last(), i);
    } else if i > p {
        lemma_sort_keeps(s.drop_last(), i - 1);
    }
}

fn promotion_rank_of(p: Option<PieceKind>) -> (r: u32)
    ensures
        r == promotion_rank(p),
{
    match p {
        Some(PieceKind::Rook) => 1,
        Some(PieceKind::Bishop) => 2,
        Some(PieceKind::Knight) => 3,
        _ => 0,
    }
}

fn key_of(m: ChessMove) -> (r: u32)
    requires
        m.wf(),
    ensures
        r == order_key(m),
{
    match m {
        ChessMove::Normal { from, to, promotion, .. } => from.index as u32 * 1024 + to.index as u32 * 4
            + promotion_rank_of(promotion),
        ChessMove::EnPassant { from, to } => from.index as u32 * 1024 + 256 + to.index as u32 * 4,
        ChessMove::Castle { king, rook } => king.index as u32 * 1024 + 512 + castle_target(king, rook).index as u32 * 4,
        ChessMove::Put { to, .. } => 64 * 1024 + 768 + to.index as u32 * 4,
    }
}

/// Sorts moves into canonical order; moves of equal key keep their relative order.
pub fn sort_moves(moves: &Vec<ChessMove>) -> (r: Vec<ChessMove>)
    requires
        forall|i: int| 0 <= i < moves@.len() ==> (#[trigger] moves@[i]).wf(),
    ensures
        r@ == sort_spec(moves@),
        sorted_by_key(r@),
        r@.to_multiset() == moves@.to_multiset(),
{
    let mut out: Vec<ChessMove> = Vec::new();
    let mut i: usize = 0;
    while i < moves.len()
        invariant
            i <= moves@.len(),
            forall|j: int| 0 <= j < moves@.len() ==> (#[trigger] moves@[j]).wf(),
            out@ == sort_spec(moves@.subrange(0, i as int)),
            forall|j: int| 0 <= j < out@.len() ==> (#[trigger] out@[j]).wf(),
        decreases moves@.len() - i,
    {
        let m = moves[i];
        let k = key_of(m);
        proof {
            lemma_sort_spec(moves@.subrange(0, i as int));
        }
        let mut p: usize = out.len();
        assert(out@.subrange(0, p as int) =~= out@);
        while p > 0 && key_of(out[p - 1]) > k
            invariant
                p <= out@.len(),
                forall|j: int| 0 <= j < out@.len() ==> (#[trigger] out@[j]).wf(),
                insert_pos(out@, k as int) == insert_pos(out@.subrange(0, p as int), k as int),
            decreases p,
        {
            assert(out@.subrange(0, p as int).drop_last() =~= out@.subrange(0, p as int - 1));
            p = p - 1;
        }
        assert(insert_pos(out@, k as int) == p);
        proof {
            let s = moves@.subrange(0, i as int + 1);
            assert(s.drop_last() =~= moves@.subrange(0, i as int));
            assert(s.last() == m);
        }
        let ghost before = out@;
        out.insert(p, m);
        assert forall|j: int| 0 <= j < out@.len() implies (#[trigger] out@[j]).wf() by {
            if j < p {
                assert(out@[j] == before[j]);
            } else if j > p {
                assert(out@[j] == before[j - 1]);
            }
        }
        i = i + 1;
    }
    assert(moves@.subrange(0, moves@.len() as int) =~= moves@);
    proof {
        lemma_sort_spec(moves@);
        lemma_sort_spec_multiset(moves@);
    }
    out
}

} // verus!
