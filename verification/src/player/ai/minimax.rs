//! A plain minimax player with alpha-beta pruning over the material balance.

use vstd::prelude::*;
use crate::logic::material::{cut_to_i32, evaluate, material_balance};
use crate::logic::rules::{apply_move, legal, legal_moves, successor};
use crate::model::board::{Board, BoardView};
use crate::model::mv::Move;
use crate::model::types::PlayerId;
use crate::player::controller::PlayerController;
use super::ordering::{lemma_ordered_is_sorted_permutation, ordered, sort_moves, Killers};

verus! {

/// The value of a position in which nothing is looked ahead: the material
/// balance for `side`, cut to the range of `i32`.
pub open spec fn leaf_value(v: BoardView, side: PlayerId) -> int {
    cut_to_i32(material_balance(v, side))
}

/// The minimax value of a position for `side`, looking `depth` plies ahead,
/// with `current` to move: the leaf value at depth 0 and where the side to
/// move has no legal move; else the greatest value of a successor if the node
/// maximises, the least if it minimises.
pub open spec fn minimax_value(
    v: BoardView,
    side: PlayerId,
    depth: nat,
    maximizing: bool,
    current: PlayerId,
) -> int
    decreases depth, legal(v, current).len() + 1,
{
    if depth == 0 || legal(v, current).len() == 0 {
        leaf_value(v, side)
    } else {
        best_of(v, side, depth, maximizing, current, legal(v, current).len())
    }
}

/// The minimax value of the position after the move `mv` of `current`.
pub open spec fn child_value(
    v: BoardView,
    side: PlayerId,
    depth: nat,
    maximizing: bool,
    current: PlayerId,
    mv: Move,
) -> int
    recommends
        depth > 0,
    decreases depth, 0nat,
{
    if depth == 0 {
        0
    } else {
        minimax_value(
            successor(v, mv, current),
            side,
            (depth - 1) as nat,
            !maximizing,
            current.other(),
        )
    }
}

/// The best of the values of the first `n` legal moves of `current`: the
/// greatest if the node maximises, the least if it minimises.
pub open spec fn best_of(
    v: BoardView,
    side: PlayerId,
    depth: nat,
    maximizing: bool,
    current: PlayerId,
    n: nat,
) -> int
    decreases depth, n,
{
    if depth == 0 {
        0
    } else if n == 0 {
        if maximizing {
            i32::MIN as int
        } else {
            i32::MAX as int
        }
    } else {
        let rest = best_of(v, side, depth, maximizing, current, (n - 1) as nat);
        let val = child_value(v, side, depth, maximizing, current, legal(v, current)[n - 1]);
        if maximizing {
            if val > rest {
                val
            } else {
                rest
            }
        } else {
            if val < rest {
                val
            } else {
                rest
            }
        }
    }
}

/// Every minimax value lies in the range of `i32`.
pub proof fn lemma_value_in_range(
    v: BoardView,
    side: PlayerId,
    depth: nat,
    maximizing: bool,
    current: PlayerId,
)
    ensures
        i32::MIN <= minimax_value(v, side, depth, maximizing, current) <= i32::MAX,
    decreases depth, legal(v, current).len() + 1,
{
    if depth == 0 || legal(v, current).len() == 0 {
    } else {
        lemma_best_of(v, side, depth, maximizing, current, legal(v, current).len());
    }
}

/// The best of the first `n` values bounds each of them, is one of them if
/// there is any, and lies in the range of `i32`.
pub proof fn lemma_best_of(
    v: BoardView,
    side: PlayerId,
    depth: nat,
    maximizing: bool,
    current: PlayerId,
    n: nat,
)
    requires
        depth > 0,
        n <= legal(v, current).len(),
    ensures
        i32::MIN <= best_of(v, side, depth, maximizing, current, n) <= i32::MAX,
        forall|j: int|
            0 <= j < n ==> if maximizing {
                #[trigger] child_value(v, side, depth, maximizing, current, legal(v, current)[j])
                    <= best_of(v, side, depth, maximizing, current, n)
            } else {
                child_value(v, side, depth, maximizing, current, legal(v, current)[j]) >= best_of(
                    v,
                    side,
                    depth,
                    maximizing,
                    current,
                    n,
                )
            },
        n > 0 ==> exists|j: int|
            0 <= j < n && #[trigger] child_value(
                v,
                side,
                depth,
                maximizing,
                current,
                legal(v, current)[j],
            ) == best_of(v, side, depth, maximizing, current, n),
    decreases depth, n,
{
    if n > 0 {
        let mv = legal(v, current)[n - 1];
        lemma_best_of(v, side, depth, maximizing, current, (n - 1) as nat);
        lemma_value_in_range(
            successor(v, mv, current),
            side,
            (depth - 1) as nat,
            !maximizing,
            current.other(),
        );
        let rest = best_of(v, side, depth, maximizing, current, (n - 1) as nat);
        let val = child_value(v, side, depth, maximizing, current, mv);
        let best = best_of(v, side, depth, maximizing, current, n);
        if best == val {
            assert(child_value(v, side, depth, maximizing, current, legal(v, current)[n - 1])
                == best);
        } else {
            assert(best == rest);
            assert(n - 1 > 0);
            let j = choose|j: int|
                0 <= j < n - 1 && #[trigger] child_value(
                    v,
                    side,
                    depth,
                    maximizing,
                    current,
                    legal(v, current)[j],
                ) == rest;
            assert(child_value(v, side, depth, maximizing, current, legal(v, current)[j]) == best);
        }
    }
}

/// Whether none of the first `n` moves has a value beyond `bound`: above it
/// if the node maximises, below it if it minimises.
pub open spec fn none_beyond(
    v: BoardView,
    side: PlayerId,
    depth: nat,
    maximizing: bool,
    current: PlayerId,
    moves: Seq<Move>,
    n: nat,
    bound: int,
) -> bool {
    forall|j: int|
        0 <= j < n ==> if maximizing {
            #[trigger] child_value(v, side, depth, maximizing, current, moves[j]) <= bound
        } else {
            child_value(v, side, depth, maximizing, current, moves[j]) >= bound
        }
}

/// Whether one of the first `n` moves has the value `x`.
pub open spec fn one_equals(
    v: BoardView,
    side: PlayerId,
    depth: nat,
    maximizing: bool,
    current: PlayerId,
    moves: Seq<Move>,
    n: nat,
    x: int,
) -> bool {
    exists|j: int|
        0 <= j < n && #[trigger] child_value(v, side, depth, maximizing, current, moves[j]) == x
}

/// The value of the line in which each side makes the first move that the
/// search tries, `depth` plies ahead: what a search returns whose window is
/// closed, so that the first move ends it at every node.
pub open spec fn first_line(v: BoardView, side: PlayerId, depth: nat, current: PlayerId) -> int
    decreases depth,
{
    if depth == 0 || legal(v, current).len() == 0 {
        leaf_value(v, side)
    } else {
        first_line(
            successor(v, ordered(v, (None, None), legal(v, current))[0], current),
            side,
            (depth - 1) as nat,
            current.other(),
        )
    }
}

/// What a search within a window says of the true value `t`: a result
/// strictly inside the window is the value, a result at or below the lower
/// limit bounds the value from above, and a result at or above the upper
/// limit bounds it from below.
pub open spec fn answers(result: int, alpha: int, beta: int, t: int) -> bool {
    &&& alpha < result < beta ==> result == t
    &&& result <= alpha ==> t <= result
    &&& result >= beta ==> t >= result
}

/// The value of a node and the values of the moves of a list that holds the
/// same moves as the legal moves: no move has a value beyond that of the
/// node, and one has that value.
pub proof fn lemma_value_over_same_moves(
    v: BoardView,
    side: PlayerId,
    depth: nat,
    maximizing: bool,
    current: PlayerId,
    moves: Seq<Move>,
)
    requires
        depth > 0,
        legal(v, current).len() > 0,
        moves.to_multiset() == legal(v, current).to_multiset(),
    ensures
        none_beyond(
            v,
            side,
            depth,
            maximizing,
            current,
            moves,
            moves.len(),
            minimax_value(v, side, depth, maximizing, current),
        ),
        one_equals(
            v,
            side,
            depth,
            maximizing,
            current,
            moves,
            moves.len(),
            minimax_value(v, side, depth, maximizing, current),
        ),
{
    broadcast use vstd::seq_lib::group_to_multiset_ensures;

    let all = legal(v, current);
    let t = minimax_value(v, side, depth, maximizing, current);
    lemma_best_of(v, side, depth, maximizing, current, all.len());
    assert forall|j: int| 0 <= j < moves.len() implies if maximizing {
        #[trigger] child_value(v, side, depth, maximizing, current, moves[j]) <= t
    } else {
        child_value(v, side, depth, maximizing, current, moves[j]) >= t
    } by {
        let m = moves[j];
        assert(moves.contains(m));
        assert(moves.to_multiset().count(m) > 0);
        assert(all.contains(m));
        let k = choose|k: int| 0 <= k < all.len() && all[k] == m;
        assert(all[k] == m);
    }
    let k = choose|k: int|
        0 <= k < all.len() && #[trigger] child_value(v, side, depth, maximizing, current, all[k])
            == t;
    let m = all[k];
    assert(all.contains(m));
    assert(all.to_multiset().count(m) > 0);
    assert(moves.contains(m));
    let j = choose|j: int| 0 <= j < moves.len() && moves[j] == m;
    assert(child_value(v, side, depth, maximizing, current, moves[j]) == t);
}

/// A player that looks a fixed number of plies ahead.
pub struct MinimaxAI {
    pub player_id: PlayerId,
    pub name: String,
    /// The number of plies that the player looks ahead; 0 counts as 1.
    pub depth: usize,
}

impl MinimaxAI {
    /// A player that looks 3 plies ahead.
    pub fn new(player_id: PlayerId, name: &str) -> (ai: Self)
        ensures
            ai.player_id == player_id,
            ai.name@ == name@,
            ai.depth == 3,
    {
        MinimaxAI { player_id, name: name.to_string(), depth: 3 }
    }

    /// Brings captures to the front, promotions behind them; moves of the
    /// same sort keep their order.
    pub fn order_moves(&self, board: &Board, moves: &mut Vec<Move>)
        requires
            board.wf(),
        ensures
            final(moves)@ == ordered(board@, (None, None), old(moves)@),
            final(moves)@.len() == old(moves)@.len(),
            final(moves)@.to_multiset() == old(moves)@.to_multiset(),
    {
        let killers: Killers = (None, None);
        sort_moves(board, moves, &killers);
        proof {
            lemma_ordered_is_sorted_permutation(board@, killers, old(moves)@);
        }
    }

    /// The minimax search with alpha-beta pruning: what the window from
    /// `alpha` to `beta` lets it say of the minimax value of the position on
    /// `board` for the side of this player, `depth` plies ahead, with
    /// `current_player` to move. A result strictly inside the window is the
    /// minimax value; a result outside bounds it. With a window that is
    /// closed from the start, its lower limit at or above the upper, the
    /// first move ends the search at every node, and the result is the value
    /// of that line.
    pub fn minimax(
        &self,
        board: &Board,
        depth: usize,
        alpha: i32,
        beta: i32,
        is_maximizing: bool,
        current_player: PlayerId,
    ) -> (value: i32)
        requires
            board.wf(),
        ensures
            alpha < beta ==> answers(
                value as int,
                alpha as int,
                beta as int,
                minimax_value(board@, self.player_id, depth as nat, is_maximizing, current_player),
            ),
            alpha >= beta ==> value == first_line(
                board@,
                self.player_id,
                depth as nat,
                current_player,
            ),
            depth == 0 || legal(board@, current_player).len() == 0 ==> value == leaf_value(
                board@,
                self.player_id,
            ),
        decreases depth,
    {
        if depth == 0 {
            return evaluate(board, self.player_id);
        }
        let mut moves = legal_moves(board, current_player);
        if moves.len() == 0 {
            return evaluate(board, self.player_id);
        }
        self.order_moves(board, &mut moves);
        let next_player = current_player.opponent();
        if alpha >= beta {
            let next_board = apply_move(board, &moves[0], current_player);
            return self.minimax(
                &next_board,
                depth - 1,
                alpha,
                beta,
                !is_maximizing,
                next_player,
            );
        }
        let ghost v = board@;
        let ghost side = self.player_id;
        let ghost d = depth as nat;
        let ghost t = minimax_value(v, side, d, is_maximizing, current_player);
        proof {
            lemma_value_over_same_moves(v, side, d, is_maximizing, current_player, moves@);
            lemma_value_in_range(v, side, d, is_maximizing, current_player);
        }
        let mut i: usize = 0;
        if is_maximizing {
            let mut max_eval = i32::MIN;
            let mut lo = alpha;
            while i < moves.len()
                invariant
                    board.wf(),
                    depth > 0,
                    is_maximizing,
                    v == board@,
                    side == self.player_id,
                    d == depth as nat,
                    next_player == current_player.other(),
                    t == minimax_value(v, side, d, is_maximizing, current_player),
                    none_beyond(v, side, d, true, current_player, moves@, moves@.len(), t),
                    one_equals(v, side, d, true, current_player, moves@, moves@.len(), t),
                    i <= moves@.len(),
                    lo < beta,
                    alpha <= lo,
                    max_eval <= lo,
                    lo == alpha || lo == max_eval,
                    legal(v, current_player).len() > 0,
                    none_beyond(v, side, d, true, current_player, moves@, i as nat, max_eval as int),
                    alpha < max_eval ==> one_equals(
                        v,
                        side,
                        d,
                        true,
                        current_player,
                        moves@,
                        i as nat,
                        max_eval as int,
                    ),
                decreases moves@.len() - i,
            {
                let mv = moves[i];
                let next_board = apply_move(board, &mv, current_player);
                let eval = self.minimax(&next_board, depth - 1, lo, beta, false, next_player);
                let ghost tc = child_value(v, side, d, true, current_player, mv);
                proof {
                    assert(tc == minimax_value(
                        next_board@,
                        side,
                        (d - 1) as nat,
                        false,
                        next_player,
                    ));
                    assert(child_value(v, side, d, true, current_player, moves@[i as int]) == tc);
                }
                if eval > max_eval {
                    max_eval = eval;
                }
                if eval > lo {
                    lo = eval;
                }
                if beta <= lo {
                    proof {
                        assert(tc <= t);
                    }
                    return max_eval;
                }
                i += 1;
            }
            proof {
                let j = choose|j: int|
                    0 <= j < moves@.len() && #[trigger] child_value(
                        v,
                        side,
                        d,
                        true,
                        current_player,
                        moves@[j],
                    ) == t;
                assert(child_value(v, side, d, true, current_player, moves@[j]) <= max_eval);
                if alpha < max_eval {
                    let k = choose|k: int|
                        0 <= k < moves@.len() && #[trigger] child_value(
                            v,
                            side,
                            d,
                            true,
                            current_player,
                            moves@[k],
                        ) == max_eval;
                    assert(child_value(v, side, d, true, current_player, moves@[k]) <= t);
                }
            }
            max_eval
        } else {
            let mut min_eval = i32::MAX;
            let mut hi = beta;
            while i < moves.len()
                invariant
                    board.wf(),
                    depth > 0,
                    !is_maximizing,
                    v == board@,
                    side == self.player_id,
                    d == depth as nat,
                    next_player == current_player.other(),
                    t == minimax_value(v, side, d, is_maximizing, current_player),
                    none_beyond(v, side, d, false, current_player, moves@, moves@.len(), t),
                    one_equals(v, side, d, false, current_player, moves@, moves@.len(), t),
                    i <= moves@.len(),
                    alpha < hi,
                    hi <= beta,
                    hi <= min_eval,
                    hi == beta || hi == min_eval,
                    legal(v, current_player).len() > 0,
                    none_beyond(
                        v,
                        side,
                        d,
                        false,
                        current_player,
                        moves@,
                        i as nat,
                        min_eval as int,
                    ),
                    min_eval < beta ==> one_equals(
                        v,
                        side,
                        d,
                        false,
                        current_player,
                        moves@,
                        i as nat,
                        min_eval as int,
                    ),
                decreases moves@.len() - i,
            {
                let mv = moves[i];
                let next_board = apply_move(board, &mv, current_player);
                let eval = self.minimax(&next_board, depth - 1, alpha, hi, true, next_player);
                let ghost tc = child_value(v, side, d, false, current_player, mv);
                proof {
                    assert(tc == minimax_value(
                        next_board@,
                        side,
                        (d - 1) as nat,
                        true,
                        next_player,
                    ));
                    assert(child_value(v, side, d, false, current_player, moves@[i as int]) == tc);
                }
                if eval < min_eval {
                    min_eval = eval;
                }
                if eval < hi {
                    hi = eval;
                }
                if hi <= alpha {
                    proof {
                        assert(tc >= t);
                    }
                    return min_eval;
                }
                i += 1;
            }
            proof {
                let j = choose|j: int|
                    0 <= j < moves@.len() && #[trigger] child_value(
                        v,
                        side,
                        d,
                        false,
                        current_player,
                        moves@[j],
                    ) == t;
                assert(child_value(v, side, d, false, current_player, moves@[j]) >= min_eval);
                if min_eval < beta {
                    let k = choose|k: int|
                        0 <= k < moves@.len() && #[trigger] child_value(
                            v,
                            side,
                            d,
                            false,
                            current_player,
                            moves@[k],
                        ) == min_eval;
                    assert(child_value(v, side, d, false, current_player, moves@[k]) >= t);
                }
            }
            min_eval
        }
    }

    /// The value that this player sees in a move of its own on `v`: the
    /// minimax value of the position after the move, for its own side, with
    /// the other side to move and one ply less to look ahead.
    pub open spec fn move_value(&self, v: BoardView, mv: Move) -> int {
        minimax_value(
            successor(v, mv, self.player_id),
            self.player_id,
            self.reply_depth(),
            false,
            self.player_id.other(),
        )
    }

    /// The number of plies that are looked ahead after a move of the player
    /// itself: one less than the depth of the player.
    pub open spec fn reply_depth(&self) -> nat {
        if self.depth >= 1 {
            (self.depth - 1) as nat
        } else {
            0
        }
    }
}

/// The moves of a slice, as a vector.
pub fn moves_of(moves: &[Move]) -> (r: Vec<Move>)
    ensures
        r@ == moves@,
{
    let mut r: Vec<Move> = Vec::new();
    let mut i: usize = 0;
    while i < moves.len()
        invariant
            i <= moves@.len(),
            r@ == moves@.subrange(0, i as int),
        decreases moves@.len() - i,
    {
        r.push(moves[i]);
        proof {
            assert(r@ =~= moves@.subrange(0, i + 1));
        }
        i += 1;
    }
    proof {
        assert(r@ =~= moves@);
    }
    r
}

impl PlayerController for MinimaxAI {
    /// One of the given moves whose value none of them exceeds, and nothing
    /// only if there is none: the first in search order among the best.
    fn choose_move(&mut self, board: &Board, moves: &[Move]) -> (r: Option<Move>)
        ensures
            r is None <==> moves@.len() == 0,
            r matches Some(m) ==> moves@.contains(m) && forall|j: int|
                0 <= j < moves@.len() ==> old(self).move_value(board@, #[trigger] moves@[j])
                    <= old(self).move_value(board@, m),
            *final(self) == *old(self),
    {
        if moves.len() == 0 {
            return None;
        }
        let mut sorted_moves = moves_of(moves);
        self.order_moves(board, &mut sorted_moves);
        let mut best_move: Option<Move> = None;
        let mut best_value = i32::MIN;
        let opponent = self.player_id.opponent();
        let reply_depth = if self.depth >= 1 {
            self.depth - 1
        } else {
            0
        };
        let mut i: usize = 0;
        while i < sorted_moves.len()
            invariant
                board.wf(),
                reply_depth == self.reply_depth(),
                *self == *old(self),
                opponent == self.player_id.other(),
                i <= sorted_moves@.len(),
                sorted_moves@.to_multiset() == moves@.to_multiset(),
                forall|j: int|
                    0 <= j < i ==> self.move_value(board@, #[trigger] sorted_moves@[j])
                        <= best_value,
                best_move matches Some(m) ==> moves@.contains(m) && self.move_value(board@, m)
                    == best_value,
                best_move is None ==> best_value == i32::MIN,
            decreases sorted_moves@.len() - i,
        {
            let mv = sorted_moves[i];
            let next_board = apply_move(board, &mv, self.player_id);
            let board_value = self.minimax(
                &next_board,
                reply_depth,
                i32::MIN,
                i32::MAX,
                false,
                opponent,
            );
            proof {
                lemma_value_in_range(
                    next_board@,
                    self.player_id,
                    reply_depth as nat,
                    false,
                    opponent,
                );
                assert(board_value == self.move_value(board@, mv));
            }
            if board_value > best_value {
                best_value = board_value;
                best_move = Some(mv);
                proof {
                    broadcast use vstd::seq_lib::group_to_multiset_ensures;

                    assert(sorted_moves@.contains(mv));
                    assert(sorted_moves@.to_multiset().count(mv) > 0);
                    assert(moves@.to_multiset().count(mv) > 0);
                }
            }
            i += 1;
        }
        let chosen = match best_move {
            Some(m) => m,
            None => moves[0],
        };
        proof {
            broadcast use vstd::seq_lib::group_to_multiset_ensures;

            assert(moves@.contains(chosen)) by {
                if best_move is None {
                    assert(moves@[0] == chosen);
                }
            }
            assert forall|j: int| 0 <= j < moves@.len() implies self.move_value(
                board@,
                #[trigger] moves@[j],
            ) <= self.move_value(board@, chosen) by {
                let m = moves@[j];
                assert(moves@.contains(m));
                assert(moves@.to_multiset().count(m) > 0);
                assert(sorted_moves@.contains(m));
                let k = choose|k: int| 0 <= k < sorted_moves@.len() && sorted_moves@[k] == m;
                assert(self.move_value(board@, sorted_moves@[k]) <= best_value);
                if best_move is None {
                    lemma_value_in_range(
                        successor(board@, chosen, self.player_id),
                        self.player_id,
                        self.reply_depth(),
                        false,
                        self.player_id.other(),
                    );
                }
            }
        }
        Some(chosen)
    }

    fn name(&self) -> (n: &str)
        ensures
            n@ == self.name@,
    {
        self.name.as_str()
    }

    fn is_local(&self) -> (b: bool)
        ensures
            b,
    {
        true
    }
}

} // verus!
