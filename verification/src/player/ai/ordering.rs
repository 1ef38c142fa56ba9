//! Move ordering: the moves that are likely to be best come first, so that
//! the search cuts off early.

use vstd::prelude::*;
use crate::model::board::{Board, BoardView};
use crate::model::mv::Move;

verus! {

/// The two quiet moves that last cut off the search at some ply, the more
/// recent one first.
pub type Killers = (Option<Move>, Option<Move>);

/// The rank of a move in the ordering, lower first: a killer move gains
/// 20000 (the more recent) or 19000, a capture 10000, a promotion 5000.
pub open spec fn order_key(v: BoardView, killers: Killers, mv: Move) -> int {
    (if killers.0 == Some(mv) {
        -20000int
    } else if killers.1 == Some(mv) {
        -19000int
    } else {
        0int
    }) + (match mv {
        Move::Normal { to, promote, .. } => (if v.piece_at(to) is Some {
            -10000int
        } else {
            0int
        }) + (if promote is Some {
            -5000int
        } else {
            0int
        }),
        Move::Drop { .. } => 0int,
    })
}

/// The position of the first move with the lowest key among the first `n`
/// moves of a list.
pub open spec fn first_lowest(v: BoardView, killers: Killers, s: Seq<Move>, n: nat) -> int
    decreases n,
{
    if n <= 1 {
        0
    } else {
        let i = first_lowest(v, killers, s, (n - 1) as nat);
        if order_key(v, killers, s[n - 1]) < order_key(v, killers, s[i]) {
            n - 1
        } else {
            i
        }
    }
}

/// The moves of a list in ascending order of their keys, moves with equal
/// keys in the order in which the list had them.
pub open spec fn ordered(v: BoardView, killers: Killers, s: Seq<Move>) -> Seq<Move>
    decreases s.len(),
{
    if s.len() == 0 {
        Seq::empty()
    } else {
        let i = first_lowest(v, killers, s, s.len());
        if 0 <= i < s.len() {
            seq![s[i]] + ordered(v, killers, s.remove(i))
        } else {
            Seq::empty()
        }
    }
}

/// The first lowest move is a move of the list, none has a lower key, and
/// none before it has the same key.
pub proof fn lemma_first_lowest(v: BoardView, killers: Killers, s: Seq<Move>, n: nat)
    requires
        1 <= n <= s.len(),
    ensures
        0 <= first_lowest(v, killers, s, n) < n,
        forall|j: int|
            0 <= j < n ==> order_key(v, killers, s[first_lowest(v, killers, s, n)]) <= order_key(
                v,
                killers,
                #[trigger] s[j],
            ),
        forall|j: int|
            0 <= j < first_lowest(v, killers, s, n) ==> order_key(
                v,
                killers,
                s[first_lowest(v, killers, s, n)],
            ) < order_key(v, killers, #[trigger] s[j]),
    decreases n,
{
    if n > 1 {
        lemma_first_lowest(v, killers, s, (n - 1) as nat);
    }
}

/// The ordered list holds the same moves as the list, each as often, and its
/// keys never fall.
pub proof fn lemma_ordered_is_sorted_permutation(v: BoardView, killers: Killers, s: Seq<Move>)
    ensures
        ordered(v, killers, s).len() == s.len(),
        ordered(v, killers, s).to_multiset() == s.to_multiset(),
        forall|i: int, j: int|
            0 <= i <= j < s.len() ==> order_key(v, killers, #[trigger] ordered(v, killers, s)[i])
                <= order_key(v, killers, #[trigger] ordered(v, killers, s)[j]),
    decreases s.len(),
{
    broadcast use vstd::seq_lib::group_to_multiset_ensures;

    if s.len() == 0 {
    } else {
        lemma_first_lowest(v, killers, s, s.len());
        let i = first_lowest(v, killers, s, s.len());
        let rest = s.remove(i);
        let tail = ordered(v, killers, rest);
        lemma_ordered_is_sorted_permutation(v, killers, rest);
        let out = ordered(v, killers, s);
        assert(out == seq![s[i]] + tail);
        // the same moves
        assert(rest.to_multiset() =~= s.to_multiset().remove(s[i]));
        assert(seq![s[i]] =~= Seq::<Move>::empty().push(s[i]));
        vstd::seq_lib::lemma_multiset_commutative(seq![s[i]], tail);
        assert(seq![s[i]].to_multiset() =~= vstd::multiset::Multiset::<Move>::empty().insert(s[i]));
        assert(s.to_multiset().count(s[i]) > 0) by {
            assert(s.contains(s[i]));
        }
        assert(out.to_multiset() =~= s.to_multiset());
        // keys never fall
        assert forall|a: int, b: int| 0 <= a <= b < s.len() implies order_key(
            v,
            killers,
            #[trigger] out[a],
        ) <= order_key(v, killers, #[trigger] out[b]) by {
            if a == 0 {
                if b > 0 {
                    let m = tail[b - 1];
                    assert(out[b] == m);
                    assert(tail.to_multiset().count(m) > 0) by {
                        assert(tail.contains(m));
                    }
                    assert(rest.to_multiset().count(m) > 0);
                    assert(rest.contains(m));
                    let k = choose|k: int| 0 <= k < rest.len() && rest[k] == m;
                    if k < i {
                        assert(rest[k] == s[k]);
                    } else {
                        assert(rest[k] == s[k + 1]);
                    }
                }
            } else {
                assert(out[a] == tail[a - 1]);
                assert(out[b] == tail[b - 1]);
            }
        }
    }
}

/// Whether `mv` is the move that `slot` holds.
pub fn holds_move(slot: &Option<Move>, mv: &Move) -> (b: bool)
    ensures
        b == (*slot == Some(*mv)),
{
    match slot {
        Some(m) => *m == *mv,
        None => false,
    }
}

/// The rank of a move in the ordering.
pub fn move_order_key(board: &Board, killers: &Killers, mv: &Move) -> (k: i32)
    requires
        board.wf(),
    ensures
        k == order_key(board@, *killers, *mv),
        -35000 <= k <= 0,
{
    let mut score: i32 = 0;
    if holds_move(&killers.0, mv) {
        score -= 20000;
    } else if holds_move(&killers.1, mv) {
        score -= 19000;
    }
    if let Move::Normal { to, promote, .. } = mv {
        if board.get_piece(*to).is_some() {
            score -= 10000;
        }
        if promote.is_some() {
            score -= 5000;
        }
    }
    score
}

/// Brings the moves into ascending order of their keys; moves with equal
/// keys keep their order.
pub fn sort_moves(board: &Board, moves: &mut Vec<Move>, killers: &Killers)
    requires
        board.wf(),
    ensures
        final(moves)@ == ordered(board@, *killers, old(moves)@),
{
    let mut out: Vec<Move> = Vec::new();
    proof {
        assert(out@ + ordered(board@, *killers, moves@) =~= ordered(board@, *killers, moves@));
    }
    while moves.len() > 0
        invariant
            board.wf(),
            out@ + ordered(board@, *killers, moves@) == ordered(board@, *killers, old(moves)@),
        decreases moves@.len(),
    {
        let mut best: usize = 0;
        let mut best_key = move_order_key(board, killers, &moves[0]);
        let mut j: usize = 1;
        while j < moves.len()
            invariant
                board.wf(),
                1 <= j <= moves@.len(),
                best == first_lowest(board@, *killers, moves@, j as nat),
                0 <= best < j,
                best_key == order_key(board@, *killers, moves@[best as int]),
            decreases moves@.len() - j,
        {
            let key = move_order_key(board, killers, &moves[j]);
            if key < best_key {
                best = j;
                best_key = key;
            }
            j += 1;
        }
        let ghost before = moves@;
        let ghost done = out@;
        let m = moves.remove(best);
        out.push(m);
        proof {
            let tail = ordered(board@, *killers, before.remove(best as int));
            assert(ordered(board@, *killers, before) == seq![before[best as int]] + tail);
            assert(done.push(m) + tail =~= done + (seq![before[best as int]] + tail));
        }
    }
    proof {
        assert(out@ + Seq::<Move>::empty() =~= out@);
    }
    *moves = out;
}

} // verus!
