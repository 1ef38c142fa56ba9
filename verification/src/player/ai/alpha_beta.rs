//! The search engine: iterative deepening over a negamax search with
//! alpha-beta pruning, a transposition table, killer moves, null-move pruning,
//! late-move reduction and a quiescence search at the leaves.

use vstd::prelude::*;
use std::time::Instant;
use crate::logic::rules::{
    apply_move, checkmated, in_check, is_in_check, legal, legal_moves, stalemated,
};
use crate::logic::zobrist::{occurrences, repetition_count, ZobristHasher};
use crate::model::board::{Board, BoardView};
use crate::model::mv::Move;
use crate::model::types::PlayerId;
use crate::player::controller::PlayerController;
use super::clock::millis_since;
use super::eval::{material_value, piece_val, HandcraftedEvaluator};
use super::evaluator::Evaluator;
use super::ordering::{ordered, sort_moves, Killers};
use super::see::{exchange_value, static_exchange_eval};
use super::tt::{found, slot_of, stored, Bound, TTEntry, TranspositionTable};

verus! {

/// The number of plies for which killer moves are kept.
pub const MAX_PLY: usize = 64;

/// The score of a lost game, and the limit of every score of the search.
pub const SCORE_LIMIT: i32 = 200000;

/// The depth up to which a mate is scored the better the later it comes.
pub const DEPTH_LIMIT: usize = 100;

/// The number of levels of the quiescence search.
pub const MAX_QSEARCH_DEPTH: usize = 8;

/// What a root position is scored at that has occurred three times before.
pub const REPETITION_PENALTY: i32 = -100;

/// How much effort the engine spends on a move.
#[derive(Clone, Copy, PartialEq, Eq, Debug, Structural)]
pub enum AIStrength {
    /// Up to depth 6 within 3 seconds, with all pruning heuristics.
    Strong,
    /// Up to depth 4 within 1 second, with plain alpha-beta.
    Light,
}

/// The deepest iteration of a strength.
pub open spec fn max_depth_of(strength: AIStrength) -> nat {
    match strength {
        AIStrength::Strong => 6,
        AIStrength::Light => 4,
    }
}

/// The time budget of a strength, in milliseconds.
pub open spec fn time_limit_of(strength: AIStrength) -> nat {
    match strength {
        AIStrength::Strong => 3000,
        AIStrength::Light => 1000,
    }
}

/// A score cut to the range from `-SCORE_LIMIT` to `SCORE_LIMIT`.
pub open spec fn limited(score: int) -> int {
    if score < -SCORE_LIMIT {
        -SCORE_LIMIT as int
    } else if score > SCORE_LIMIT {
        SCORE_LIMIT as int
    } else {
        score
    }
}

/// A score cut to the range of the search.
pub fn limit_score(score: i32) -> (r: i32)
    ensures
        r == limited(score as int),
        -SCORE_LIMIT <= r <= SCORE_LIMIT,
{
    if score < -SCORE_LIMIT {
        -SCORE_LIMIT
    } else if score > SCORE_LIMIT {
        SCORE_LIMIT
    } else {
        score
    }
}

/// Whether both limits of a window lie within the score limit.
pub open spec fn within_limit(alpha: int, beta: int) -> bool {
    -SCORE_LIMIT <= alpha <= SCORE_LIMIT && -SCORE_LIMIT <= beta <= SCORE_LIMIT
}

/// The score of a side that is to move and is checkmated, seen at a node
/// with the given depth left: worse the more depth is left, that is the
/// earlier in the line the mate comes. Beyond depth 100 it is the score
/// limit itself.
pub open spec fn mate_value(depth: nat) -> int {
    if depth <= DEPTH_LIMIT {
        -SCORE_LIMIT + (100 - depth)
    } else {
        -SCORE_LIMIT as int
    }
}

/// The score of being checkmated with the given depth left.
pub fn mate_score(depth: usize) -> (r: i32)
    ensures
        r == mate_value(depth as nat),
        -SCORE_LIMIT <= r <= -SCORE_LIMIT + 100,
{
    if depth <= DEPTH_LIMIT {
        -SCORE_LIMIT + (100 - depth) as i32
    } else {
        -SCORE_LIMIT
    }
}

/// The score of a position in which the side to move has no legal move:
/// the mate value if it is in check, 0 for the stalemate if it is not.
pub open spec fn terminal_value(is_in_check: bool, depth: nat) -> int {
    if is_in_check {
        mate_value(depth)
    } else {
        0
    }
}

/// The score of a position in which the side to move has no legal move.
pub fn terminal_score(is_in_check: bool, depth: usize) -> (r: i32)
    ensures
        r == terminal_value(is_in_check, depth as nat),
        -SCORE_LIMIT <= r <= 0,
{
    if is_in_check {
        mate_score(depth)
    } else {
        0
    }
}

/// What a repetition decides before anything is searched: a position that
/// has occurred four times before is a draw, and a root position that has
/// occurred three times before is scored slightly below a draw.
pub open spec fn repetition_verdict(count: nat, ply: nat) -> Option<int> {
    if count >= 4 {
        Some(0)
    } else if count >= 3 && ply == 0 {
        Some(REPETITION_PENALTY as int)
    } else {
        None
    }
}

/// What a repetition decides before anything is searched.
pub fn repetition_score(count: usize, ply: usize) -> (r: Option<i32>)
    ensures
        r is Some <==> repetition_verdict(count as nat, ply as nat) is Some,
        r matches Some(s) ==> repetition_verdict(count as nat, ply as nat) == Some(s as int),
{
    if count >= 4 {
        Some(0)
    } else if count >= 3 && ply == 0 {
        Some(REPETITION_PENALTY)
    } else {
        None
    }
}

/// What a stored result does to a search.
#[derive(Clone, Copy, PartialEq, Eq, Debug, Structural)]
pub enum Probe {
    /// The search ends with this score.
    Cut(i32),
    /// The search goes on with this lower limit.
    Narrow(i32),
}

/// What the stored result `entry` does to a search of the given depth and
/// window. A result from a shallower search is ignored. An exact score ends
/// the search. A lower bound raises the lower limit of the window, and ends
/// the search if the window closes. An upper bound below the upper limit ends
/// the search. Stored scores are cut to the range of the search.
pub open spec fn probe(entry: TTEntry, depth: nat, alpha: int, beta: int) -> Probe {
    let score = limited(entry.score as int);
    if entry.depth < depth {
        Probe::Narrow(alpha as i32)
    } else {
        match entry.bound {
            Bound::Exact => Probe::Cut(score as i32),
            Bound::Lower => {
                let raised = if alpha > score {
                    alpha
                } else {
                    score
                };
                if raised >= beta {
                    Probe::Cut(score as i32)
                } else {
                    Probe::Narrow(raised as i32)
                }
            },
            Bound::Upper => if score < beta || alpha >= beta {
                Probe::Cut(score as i32)
            } else {
                Probe::Narrow(alpha as i32)
            },
        }
    }
}

/// What the stored result `entry` does to a search of the given depth and
/// window.
pub fn probe_entry(entry: &TTEntry, depth: usize, alpha: i32, beta: i32) -> (r: Probe)
    ensures
        r == probe(*entry, depth as nat, alpha as int, beta as int),
        r matches Probe::Cut(s) ==> -SCORE_LIMIT <= s <= SCORE_LIMIT,
        r matches Probe::Narrow(a) ==> a == alpha || (alpha < a && -SCORE_LIMIT <= a
            <= SCORE_LIMIT),
{
    let score = limit_score(entry.score);
    if entry.depth < depth {
        return Probe::Narrow(alpha);
    }
    match entry.bound {
        Bound::Exact => Probe::Cut(score),
        Bound::Lower => {
            let raised = if alpha > score {
                alpha
            } else {
                score
            };
            if raised >= beta {
                Probe::Cut(score)
            } else {
                Probe::Narrow(raised)
            }
        },
        Bound::Upper => {
            if score < beta || alpha >= beta {
                Probe::Cut(score)
            } else {
                Probe::Narrow(alpha)
            }
        },
    }
}

/// What decides a node before any move is tried, if anything does: first a
/// repetition, then a result that the table holds for the hash of the
/// position and that ends the search.
pub open spec fn early_verdict(
    history: Seq<u64>,
    hash: u64,
    ply: nat,
    table: Seq<Option<(TTEntry, Option<Move>)>>,
    depth: nat,
    alpha: int,
    beta: int,
) -> Option<int> {
    match repetition_verdict(occurrences(history, hash), ply) {
        Some(s) => Some(s),
        None => match found(table, hash) {
            Some((entry, _)) => match probe(entry, depth, alpha, beta) {
                Probe::Cut(s) => Some(s as int),
                Probe::Narrow(_) => None,
            },
            None => None,
        },
    }
}

/// How the best score of a finished search relates to the value of the
/// position: an upper bound if it did not rise above the lower limit that
/// the search started with, a lower bound if it reached the upper limit, and
/// exact between the two.
pub open spec fn bound_of(best_score: int, alpha_orig: int, beta: int) -> Bound {
    if best_score <= alpha_orig {
        Bound::Upper
    } else if best_score >= beta {
        Bound::Lower
    } else {
        Bound::Exact
    }
}

/// How the best score of a finished search relates to the value of the
/// position.
pub fn classify_bound(best_score: i32, alpha_orig: i32, beta: i32) -> (b: Bound)
    ensures
        b == bound_of(best_score as int, alpha_orig as int, beta as int),
{
    if best_score <= alpha_orig {
        Bound::Upper
    } else if best_score >= beta {
        Bound::Lower
    } else {
        Bound::Exact
    }
}

/// Whether a null-move probe is tried: only by the strong engine, out of
/// check, with depth 3 or more left, and an upper limit short of a mate score.
pub open spec fn tries_null_move(strength: AIStrength, is_in_check: bool, depth: nat, beta: int) -> bool {
    strength == AIStrength::Strong && !is_in_check && depth >= 3 && -100000 < beta < 100000
}

/// Whether a null-move probe is tried.
pub fn should_try_null_move(strength: AIStrength, is_in_check: bool, depth: usize, beta: i32) -> (b:
    bool)
    ensures
        b == tries_null_move(strength, is_in_check, depth as nat, beta as int),
{
    strength == AIStrength::Strong && !is_in_check && depth >= 3 && beta > -100000 && beta < 100000
}

/// By how much the search of a move is made shallower at first: by 1 for a
/// move that is the fifth or later of its node, with depth 3 or more left,
/// that neither captures, promotes nor gives check; else not at all.
pub open spec fn reduction_of(
    depth: nat,
    moves_searched: nat,
    is_capture: bool,
    is_promotion: bool,
    gives_check: bool,
) -> nat {
    if depth >= 3 && moves_searched >= 4 && !is_capture && !is_promotion && !gives_check {
        1
    } else {
        0
    }
}

/// By how much the search of a move is made shallower at first.
pub fn late_move_reduction(
    depth: usize,
    moves_searched: usize,
    is_capture: bool,
    is_promotion: bool,
    gives_check: bool,
) -> (r: usize)
    ensures
        r == reduction_of(depth as nat, moves_searched as nat, is_capture, is_promotion, gives_check),
{
    if depth >= 3 && moves_searched >= 4 && !is_capture && !is_promotion && !gives_check {
        1
    } else {
        0
    }
}

/// The depth of the first, possibly reduced search of a move: the depth
/// less one and less the reduction, but 1 at least.
pub open spec fn reduced_depth_of(depth: nat, reduction: nat) -> nat {
    if depth > reduction + 1 {
        (depth - reduction - 1) as nat
    } else {
        1
    }
}

/// The depth of the first, possibly reduced search of a move.
pub fn reduced_depth(depth: usize, reduction: usize) -> (r: usize)
    requires
        reduction <= 1,
    ensures
        r == reduced_depth_of(depth as nat, reduction as nat),
{
    if depth > reduction + 1 {
        depth - reduction - 1
    } else {
        1
    }
}

/// Whether a move is a board move onto an occupied square.
pub open spec fn captures(v: BoardView, mv: Move) -> bool {
    match mv {
        Move::Normal { to, .. } => v.piece_at(to) is Some,
        Move::Drop { .. } => false,
    }
}

/// Whether a move is a board move onto an occupied square.
pub fn is_capture(board: &Board, mv: &Move) -> (b: bool)
    requires
        board.wf(),
    ensures
        b == captures(board@, *mv),
{
    match mv {
        Move::Normal { to, .. } => board.get_piece(*to).is_some(),
        Move::Drop { .. } => false,
    }
}

/// Whether a capture is skipped because it is guessed to lose material: a
/// board move onto an occupied square, by a piece that is not worth over 200
/// less than what it takes, whose exchange value is below -150.
pub open spec fn loses_exchange(v: BoardView, mv: Move, player: PlayerId) -> bool {
    match mv {
        Move::Normal { from, to, .. } => match (v.piece_at(to), v.piece_at(from)) {
            (Some(taken), Some(own)) => material_value(taken.kind) <= material_value(own.kind)
                + 200 && exchange_value(v, mv, player) < -150,
            _ => false,
        },
        Move::Drop { .. } => false,
    }
}

/// Whether a capture is skipped because it is guessed to lose material.
pub fn is_losing_capture(board: &Board, mv: &Move, player: PlayerId) -> (b: bool)
    requires
        board.wf(),
    ensures
        b == loses_exchange(board@, *mv, player),
{
    if let Move::Normal { from, to, .. } = mv {
        if let Some(captured_piece) = board.get_piece(*to) {
            if let Some(our_piece) = board.get_piece(*from) {
                let our_value = piece_val(our_piece.kind);
                let their_value = piece_val(captured_piece.kind);
                if their_value > our_value + 200 {
                    return false;
                }
                return static_exchange_eval(board, mv, player) < -150;
            }
        }
    }
    false
}

/// The score of a position for the side to move, from the score that an
/// evaluator gave it from the first player's point of view.
pub open spec fn stand_pat_of(eval_score: int, player: PlayerId) -> int {
    match player {
        PlayerId::Player1 => eval_score,
        PlayerId::Player2 => -eval_score,
    }
}

/// The score of a position for the side to move.
pub fn stand_pat(eval_score: i32, player: PlayerId) -> (r: i64)
    ensures
        r == stand_pat_of(eval_score as int, player),
{
    match player {
        PlayerId::Player1 => eval_score as i64,
        PlayerId::Player2 => -(eval_score as i64),
    }
}

/// The lower limit from which the quiescence search goes on after it has
/// seen the stand-pat score: the greater of the two.
pub open spec fn raised(alpha: int, stand: int) -> int {
    if stand > alpha {
        stand
    } else {
        alpha
    }
}

/// Whether the quiescence search looks further than the stand-pat score at
/// the given level: only above the last level, and only where the side to
/// move has a tactical move.
pub open spec fn looks_further(v: BoardView, player: PlayerId, level: nat) -> bool {
    level < MAX_QSEARCH_DEPTH && tactical_moves(v, legal(v, player), player, level).len() > 0
}

/// What the quiescence search returns where it looks no further than the
/// score `eval_score` that the evaluator gave: the upper limit if the
/// stand-pat score reaches it, else the lower limit raised to the stand-pat
/// score.
pub open spec fn quiet_value(eval_score: int, player: PlayerId, alpha: int, beta: int) -> int {
    let stand = stand_pat_of(eval_score, player);
    if stand >= beta {
        beta
    } else {
        raised(alpha, stand)
    }
}

/// What the quiescence search returns where it looks no further than the
/// score that the evaluator gave.
pub fn quiet_score(eval_score: i32, player: PlayerId, alpha: i32, beta: i32) -> (r: i32)
    ensures
        r == quiet_value(eval_score as int, player, alpha as int, beta as int),
{
    let stand = stand_pat(eval_score, player);
    if stand >= beta as i64 {
        beta
    } else if stand > alpha as i64 {
        stand as i32
    } else {
        alpha
    }
}

/// The depth of the search whose result a slot of the table holds; 0 for an
/// empty slot.
pub open spec fn slot_depth(slot: Option<(TTEntry, Option<Move>)>) -> nat {
    match slot {
        Some((entry, _)) => entry.depth as nat,
        None => 0,
    }
}

/// Whether a table came from another by searches of at most the given depth:
/// it has as many slots, and each slot is as it was or holds the result of a
/// search of at most that depth.
pub open spec fn no_deeper(
    before: Seq<Option<(TTEntry, Option<Move>)>>,
    after: Seq<Option<(TTEntry, Option<Move>)>>,
    depth: nat,
) -> bool {
    &&& after.len() == before.len()
    &&& forall|i: int|
        0 <= i < after.len() ==> (#[trigger] after[i]) == before[i] || (after[i] is Some
            && slot_depth(after[i]) <= depth)
}

/// Searches after searches: a table that came from a second by shallow
/// searches, which came from a first by shallow searches, came from the first
/// by shallow searches.
pub proof fn lemma_no_deeper_follows(
    a: Seq<Option<(TTEntry, Option<Move>)>>,
    b: Seq<Option<(TTEntry, Option<Move>)>>,
    c: Seq<Option<(TTEntry, Option<Move>)>>,
    d1: nat,
    d2: nat,
    d: nat,
)
    requires
        no_deeper(a, b, d1),
        no_deeper(b, c, d2),
        d1 <= d,
        d2 <= d,
    ensures
        no_deeper(a, c, d),
{
    assert forall|i: int| 0 <= i < c.len() implies (#[trigger] c[i]) == a[i] || (c[i] is Some
        && slot_depth(c[i]) <= d) by {
        if c[i] == b[i] {
            assert(b[i] == a[i] || (b[i] is Some && slot_depth(b[i]) <= d1));
        }
    }
}

/// The lower limit with which a search goes on after the table was asked: the
/// limit that a stored lower bound raised it to, or the limit as it came.
pub open spec fn probed_alpha(
    table: Seq<Option<(TTEntry, Option<Move>)>>,
    hash: u64,
    depth: nat,
    alpha: int,
    beta: int,
) -> int {
    match found(table, hash) {
        Some((entry, _)) => match probe(entry, depth, alpha, beta) {
            Probe::Narrow(a) => a as int,
            Probe::Cut(_) => alpha,
        },
        None => alpha,
    }
}

/// The result that a search of `depth` with the given score offers to the
/// table: its bound says how the score fell against the window that the
/// search was asked with.
pub open spec fn result_entry(hash: u64, depth: usize, score: int, alpha: int, beta: int) -> TTEntry {
    TTEntry { hash, depth, score: score as i32, bound: bound_of(score, alpha, beta) }
}

/// Whether the table answers for `hash` with the result of a search of
/// `depth` with the given score and a best move that, if there is one, is
/// one of the moves.
pub open spec fn holds_result(
    table: Seq<Option<(TTEntry, Option<Move>)>>,
    hash: u64,
    depth: usize,
    score: int,
    alpha: int,
    beta: int,
    legal_moves: Seq<Move>,
) -> bool {
    match found(table, hash) {
        Some((entry, m)) => entry == result_entry(hash, depth, score, alpha, beta) && (m is Some
            ==> legal_moves.contains(m->0)) && (m is Some <==> score > -SCORE_LIMIT),
        None => false,
    }
}

/// Whether the moves of the position are searched for certain: no early
/// verdict, depth above 0, a legal move, and no null-move probe.
pub open spec fn searches_moves(
    before: Seq<Option<(TTEntry, Option<Move>)>>,
    history: Seq<u64>,
    hash: u64,
    ply: nat,
    depth: usize,
    alpha: int,
    beta: int,
    strength: AIStrength,
    v: BoardView,
    player: PlayerId,
) -> bool {
    &&& early_verdict(history, hash, ply, before, depth as nat, alpha, beta) is None
    &&& depth > 0
    &&& legal(v, player).len() > 0
    &&& !tries_null_move(strength, in_check(v, player), depth as nat, beta)
}

/// Whether the slot of a hash is free for the result of a search of the
/// given depth: the table has slots, and that slot holds nothing deeper.
pub open spec fn slot_is_free(
    table: Seq<Option<(TTEntry, Option<Move>)>>,
    hash: u64,
    depth: usize,
) -> bool {
    table.len() > 0 && slot_depth(table[slot_of(hash, table.len())]) <= depth
}

/// The score of the quiescence search of the position `v` with `player` to
/// move, at the given level and within the window from `alpha` to `beta`,
/// where `judge` is what the evaluator says of each position.
///
/// A stand-pat score that reaches the upper limit ends the search with the
/// upper limit. Where the search looks no further, the score is the lower
/// limit, raised to the stand-pat score. Else the tactical moves are searched
/// in their order from the raised lower limit.
pub open spec fn quiescence(
    judge: spec_fn(BoardView) -> int,
    v: BoardView,
    player: PlayerId,
    alpha: int,
    beta: int,
    level: nat,
) -> int
    decreases MAX_QSEARCH_DEPTH - level, 1nat, 0nat,
{
    let stand = stand_pat_of(judge(v), player);
    if stand >= beta || !looks_further(v, player, level) {
        quiet_value(judge(v), player, alpha, beta)
    } else {
        quiescence_from(
            judge,
            v,
            player,
            ordered(v, (None, None), tactical_moves(v, legal(v, player), player, level)),
            0,
            raised(alpha, stand),
            beta,
            level,
        )
    }
}

/// The score of the quiescence search once the first `i` of `moves` have
/// raised the lower limit to `lo`: the upper limit as soon as the negated
/// score of a successor reaches it, and else the greatest of `lo` and the
/// negated scores of the successors, each searched one level further within
/// the negated window as it stands when its turn comes.
pub open spec fn quiescence_from(
    judge: spec_fn(BoardView) -> int,
    v: BoardView,
    player: PlayerId,
    moves: Seq<Move>,
    i: nat,
    lo: int,
    beta: int,
    level: nat,
) -> int
    decreases MAX_QSEARCH_DEPTH - level, 0nat, moves.len() - i,
{
    if level >= MAX_QSEARCH_DEPTH || i >= moves.len() {
        lo
    } else {
        let score = -quiescence(
            judge,
            crate::logic::rules::successor(v, moves[i as int], player),
            player.other(),
            -beta,
            -lo,
            level + 1,
        );
        if score >= beta {
            beta
        } else {
            quiescence_from(judge, v, player, moves, i + 1, raised(lo, score), beta, level)
        }
    }
}

/// What a search carries from one node to the next: the transposition table
/// and the killer moves of each ply.
pub struct Memory {
    pub table: Seq<Option<(TTEntry, Option<Move>)>>,
    pub killers: Seq<Killers>,
}

/// What stays as it is throughout a search: the hash keys, the strength, the
/// history of the game before the position that is searched, and what the
/// evaluator says of each position.
pub struct Frame {
    pub keys: crate::logic::zobrist::ZobristKeys,
    pub strength: AIStrength,
    pub history: Seq<u64>,
    pub judge: spec_fn(BoardView) -> int,
}

/// What the search of a node has found so far: the memory as the searches of
/// the successors left it, the best score, and the move that gave it.
pub struct Best {
    pub memory: Memory,
    pub score: int,
    pub best: Option<Move>,
}

/// The killer moves that a list keeps for a ply; past its end it keeps none.
pub open spec fn killers_of(list: Seq<Killers>, ply: usize) -> Killers {
    if ply < list.len() {
        list[ply as int]
    } else {
        (None, None)
    }
}

/// The list of killer moves after the quiet move `mv` has cut off a search
/// at `ply`; past the end of the list nothing is recorded.
pub open spec fn killers_with(list: Seq<Killers>, ply: usize, mv: Move) -> Seq<Killers> {
    if ply < list.len() {
        list.update(ply as int, with_killer(list[ply as int], mv))
    } else {
        list
    }
}

/// The ply of the successors of a node.
pub open spec fn ply_after(ply: usize) -> usize {
    if ply < usize::MAX {
        (ply + 1) as usize
    } else {
        ply
    }
}

/// The ply at which a null-move probe searches.
pub open spec fn ply_of_probe(ply: usize) -> usize {
    if ply_after(ply) < usize::MAX - 2 {
        (ply_after(ply) + 2) as usize
    } else {
        ply_after(ply)
    }
}

/// Whether the search of a node passes over a move: the second or a later
/// move of a side that is not in check, with depth 2 or more left, that is
/// guessed to lose material.
pub open spec fn passes_over(v: BoardView, mv: Move, player: PlayerId, depth: nat, i: nat) -> bool {
    !in_check(v, player) && i > 0 && depth >= 2 && loses_exchange(v, mv, player)
}

/// The negamax search as a function: the score of the position `v` with
/// `player` to move, searched to `depth` within the window from `alpha` to
/// `beta` at `ply`, and the memory that the search leaves behind.
///
/// An early verdict, by repetition or from the table, is the score. At depth
/// 0 the quiescence search decides, within the window that the table may
/// have raised, cut to the score limit. A side without a legal move gets its
/// terminal score. In all three the memory stays. Else a null-move probe,
/// where one is tried, searches the same position with the other side to
/// move, three plies less deep, within the window of width 1 that begins at
/// the negated upper limit; if its negated score reaches the upper limit,
/// that limit is the score. Else the moves are searched in their order, and the
/// best score is offered to the table with the move that gave it.
pub open spec fn search(
    f: Frame,
    m: Memory,
    v: BoardView,
    player: PlayerId,
    depth: nat,
    alpha: int,
    beta: int,
    ply: usize,
) -> (int, Memory)
    decreases depth, 1nat, 0nat,
{
    let hash = f.keys.position_hash(v, player);
    match early_verdict(f.history, hash, ply as nat, m.table, depth, alpha, beta) {
        Some(s) => (s, m),
        None => {
            let lo = limited(probed_alpha(m.table, hash, depth, alpha, beta));
            let hi = limited(beta);
            if depth == 0 {
                (quiescence(f.judge, v, player, lo, hi, 0), m)
            } else if legal(v, player).len() == 0 {
                (terminal_value(in_check(v, player), depth), m)
            } else {
                let probes = tries_null_move(f.strength, in_check(v, player), depth, beta);
                let probed = if probes {
                    search(
                        f,
                        m,
                        v,
                        player.other(),
                        (depth - 3) as nat,
                        -beta,
                        -beta + 1,
                        ply_of_probe(ply),
                    )
                } else {
                    (0, m)
                };
                if probes && -probed.0 >= beta {
                    (beta, probed.1)
                } else {
                    let found = search_from(
                        f,
                        probed.1,
                        v,
                        player,
                        depth,
                        ordered(v, killers_of(probed.1.killers, ply), legal(v, player)),
                        0,
                        lo,
                        hi,
                        -SCORE_LIMIT as int,
                        None,
                        ply,
                    );
                    (
                        found.score,
                        Memory {
                            table: stored(
                                found.memory.table,
                                result_entry(hash, depth as usize, found.score, alpha, beta),
                                found.best,
                            ),
                            killers: found.memory.killers,
                        },
                    )
                }
            }
        },
    }
}

/// The search of the moves of a node once the first `i` of them have been
/// dealt with, the lower limit stands at `lo`, and the best score so far is
/// `best_score`, given by `best`.
///
/// A move that is passed over changes nothing. Every other move is searched
/// on the successor, with the other side to move: by the strong engine, the
/// second and later moves with depth 2 or more left go first through a
/// search within the window of width 1 above the lower limit, at the reduced
/// depth, and are searched again one ply less deep within the full negated
/// window only if that score came out above the lower limit and either below
/// the upper limit or from a reduced depth; every other move is searched one
/// ply less deep within the full negated window at once. The negated score
/// of the last search of a move is its score. A score above the best so far
/// becomes the best, with its move; a score above the lower limit raises it.
/// When the lower limit reaches the upper, the search of the node ends, and
/// the move, unless it captures, is recorded as a killer move of the ply.
pub open spec fn search_from(
    f: Frame,
    m: Memory,
    v: BoardView,
    player: PlayerId,
    depth: nat,
    moves: Seq<Move>,
    i: nat,
    lo: int,
    hi: int,
    best_score: int,
    best: Option<Move>,
    ply: usize,
) -> Best
    decreases depth, 0nat, moves.len() - i,
{
    if depth == 0 || i >= moves.len() {
        Best { memory: m, score: best_score, best }
    } else if passes_over(v, moves[i as int], player, depth, i) {
        search_from(f, m, v, player, depth, moves, i + 1, lo, hi, best_score, best, ply)
    } else {
        let mv = moves[i as int];
        let next = crate::logic::rules::successor(v, mv, player);
        let late = f.strength == AIStrength::Strong && i > 0 && depth >= 2;
        let reduction = reduction_of(
            depth,
            i,
            captures(v, mv),
            mv.promotes(),
            in_check(next, player.other()),
        );
        let first = if late {
            search(
                f,
                m,
                next,
                player.other(),
                reduced_depth_of(depth, reduction),
                -lo - 1,
                -lo,
                ply_after(ply),
            )
        } else {
            search(f, m, next, player.other(), (depth - 1) as nat, -hi, -lo, ply_after(ply))
        };
        let again = late && -first.0 > lo && (-first.0 < hi || reduction > 0);
        let last = if again {
            search(f, first.1, next, player.other(), (depth - 1) as nat, -hi, -lo, ply_after(ply))
        } else {
            first
        };
        let score = -last.0;
        let better = score > best_score;
        let top = if better {
            score
        } else {
            best_score
        };
        let top_move = if better {
            Some(mv)
        } else {
            best
        };
        if raised(lo, score) >= hi {
            Best {
                memory: Memory {
                    table: last.1.table,
                    killers: if captures(v, mv) {
                        last.1.killers
                    } else {
                        killers_with(last.1.killers, ply, mv)
                    },
                },
                score: top,
                best: top_move,
            }
        } else {
            search_from(
                f,
                last.1,
                v,
                player,
                depth,
                moves,
                i + 1,
                raised(lo, score),
                hi,
                top,
                top_move,
                ply,
            )
        }
    }
}

/// The quiescence search never leaves its window: with the lower limit at or
/// below the upper, the score lies between the two; and it is never below
/// the stand-pat score unless that score is above the upper limit.
pub proof fn lemma_quiescence_within_window(
    judge: spec_fn(BoardView) -> int,
    v: BoardView,
    player: PlayerId,
    alpha: int,
    beta: int,
    level: nat,
)
    requires
        alpha <= beta,
    ensures
        alpha <= quiescence(judge, v, player, alpha, beta, level) <= beta,
        stand_pat_of(judge(v), player) <= beta ==> stand_pat_of(judge(v), player) <= quiescence(
            judge,
            v,
            player,
            alpha,
            beta,
            level,
        ),
{
    let stand = stand_pat_of(judge(v), player);
    if stand >= beta || !looks_further(v, player, level) {
    } else {
        lemma_quiescence_from_within_window(
            judge,
            v,
            player,
            ordered(v, (None, None), tactical_moves(v, legal(v, player), player, level)),
            0,
            raised(alpha, stand),
            beta,
            level,
        );
    }
}

/// The search of the tactical moves never lowers the lower limit and never
/// goes above the upper.
pub proof fn lemma_quiescence_from_within_window(
    judge: spec_fn(BoardView) -> int,
    v: BoardView,
    player: PlayerId,
    moves: Seq<Move>,
    i: nat,
    lo: int,
    beta: int,
    level: nat,
)
    requires
        lo <= beta,
    ensures
        lo <= quiescence_from(judge, v, player, moves, i, lo, beta, level) <= beta,
    decreases moves.len() - i,
{
    if level >= MAX_QSEARCH_DEPTH || i >= moves.len() {
    } else {
        let score = -quiescence(
            judge,
            crate::logic::rules::successor(v, moves[i as int], player),
            player.other(),
            -beta,
            -lo,
            level + 1,
        );
        if score < beta {
            lemma_quiescence_from_within_window(
                judge,
                v,
                player,
                moves,
                i + 1,
                raised(lo, score),
                beta,
                level,
            );
        }
    }
}

/// A position that has occurred four times in the history of the game is a
/// draw to the search, whatever stands on the board, at every depth, within
/// every window and at every ply; the memory stays as it was.
pub proof fn lemma_fourth_repetition_is_a_draw(
    f: Frame,
    m: Memory,
    v: BoardView,
    player: PlayerId,
    depth: nat,
    alpha: int,
    beta: int,
    ply: usize,
)
    requires
        occurrences(f.history, f.keys.position_hash(v, player)) >= 4,
    ensures
        search(f, m, v, player, depth, alpha, beta, ply) == (0int, m),
{
}

/// A side without a legal move, searched with depth left and without an
/// early verdict, gets the mate value if it is in check, which is below
/// every score of a position that is not lost, and 0 if it is not; the
/// memory stays as it was.
pub proof fn lemma_side_without_moves(
    f: Frame,
    m: Memory,
    v: BoardView,
    player: PlayerId,
    depth: nat,
    alpha: int,
    beta: int,
    ply: usize,
)
    requires
        depth > 0,
        legal(v, player).len() == 0,
        early_verdict(
            f.history,
            f.keys.position_hash(v, player),
            ply as nat,
            m.table,
            depth,
            alpha,
            beta,
        ) is None,
    ensures
        search(f, m, v, player, depth, alpha, beta, ply) == (
            if in_check(v, player) {
                mate_value(depth)
            } else {
                0int
            },
            m,
        ),
        mate_value(depth) <= -100000,
{
}

/// The first move in the order of a node is always searched: where the
/// moves of a position are searched, the best score is no less than the
/// negated score of the search of the successor by that move, one ply less
/// deep within the full negated window.
pub proof fn lemma_first_move_is_searched(
    f: Frame,
    m: Memory,
    v: BoardView,
    player: PlayerId,
    depth: nat,
    moves: Seq<Move>,
    lo: int,
    hi: int,
    ply: usize,
)
    requires
        depth > 0,
        moves.len() > 0,
    ensures
        search_from(f, m, v, player, depth, moves, 0, lo, hi, -SCORE_LIMIT as int, None, ply).score
            >= -search(
            f,
            m,
            crate::logic::rules::successor(v, moves[0], player),
            player.other(),
            (depth - 1) as nat,
            -hi,
            -lo,
            ply_after(ply),
        ).0,
    decreases moves.len(),
{
    let first = search(
        f,
        m,
        crate::logic::rules::successor(v, moves[0], player),
        player.other(),
        (depth - 1) as nat,
        -hi,
        -lo,
        ply_after(ply),
    );
    let score = -first.0;
    let top = if score > -SCORE_LIMIT {
        score
    } else {
        -SCORE_LIMIT as int
    };
    let top_move = if score > -SCORE_LIMIT {
        Some(moves[0])
    } else {
        None
    };
    if raised(lo, score) < hi {
        lemma_best_never_falls(
            f,
            first.1,
            v,
            player,
            depth,
            moves,
            1,
            raised(lo, score),
            hi,
            top,
            top_move,
            ply,
        );
    }
}

/// The best score of a node never falls while its moves are searched.
pub proof fn lemma_best_never_falls(
    f: Frame,
    m: Memory,
    v: BoardView,
    player: PlayerId,
    depth: nat,
    moves: Seq<Move>,
    i: nat,
    lo: int,
    hi: int,
    best_score: int,
    best: Option<Move>,
    ply: usize,
)
    ensures
        search_from(f, m, v, player, depth, moves, i, lo, hi, best_score, best, ply).score
            >= best_score,
    decreases moves.len() - i,
{
    if depth == 0 || i >= moves.len() {
    } else if passes_over(v, moves[i as int], player, depth, i) {
        lemma_best_never_falls(f, m, v, player, depth, moves, i + 1, lo, hi, best_score, best, ply);
    } else {
        let mv = moves[i as int];
        let next = crate::logic::rules::successor(v, mv, player);
        let late = f.strength == AIStrength::Strong && i > 0 && depth >= 2;
        let reduction = reduction_of(
            depth,
            i,
            captures(v, mv),
            mv.promotes(),
            in_check(next, player.other()),
        );
        let first = if late {
            search(
                f,
                m,
                next,
                player.other(),
                reduced_depth_of(depth, reduction),
                -lo - 1,
                -lo,
                ply_after(ply),
            )
        } else {
            search(f, m, next, player.other(), (depth - 1) as nat, -hi, -lo, ply_after(ply))
        };
        let again = late && -first.0 > lo && (-first.0 < hi || reduction > 0);
        let last = if again {
            search(f, first.1, next, player.other(), (depth - 1) as nat, -hi, -lo, ply_after(ply))
        } else {
            first
        };
        let score = -last.0;
        let top = if score > best_score {
            score
        } else {
            best_score
        };
        let top_move = if score > best_score {
            Some(mv)
        } else {
            best
        };
        if raised(lo, score) < hi {
            lemma_best_never_falls(
                f,
                last.1,
                v,
                player,
                depth,
                moves,
                i + 1,
                raised(lo, score),
                hi,
                top,
                top_move,
                ply,
            );
        }
    }
}

/// The killer moves of a ply after the quiet move `mv` has cut off a search
/// there: `mv` comes first and the move that was first comes second, unless
/// `mv` was first already.
pub open spec fn with_killer(killers: Killers, mv: Move) -> Killers {
    if killers.0 == Some(mv) {
        killers
    } else {
        (Some(mv), killers.0)
    }
}

/// Whether a move is looked at by the quiescence search at the given level:
/// captures and promotions always, drops that give check on the first four
/// levels.
pub open spec fn is_tactical(v: BoardView, mv: Move, player: PlayerId, level: nat) -> bool {
    match mv {
        Move::Normal { to, promote, .. } => v.piece_at(to) is Some || promote is Some,
        Move::Drop { .. } => level < 4 && in_check(
            crate::logic::rules::successor(v, mv, player),
            player.other(),
        ),
    }
}

/// Those of `moves`, in their order, that the quiescence search looks at.
pub open spec fn tactical_moves(v: BoardView, moves: Seq<Move>, player: PlayerId, level: nat) -> Seq<
    Move,
>
    decreases moves.len(),
{
    if moves.len() == 0 {
        Seq::empty()
    } else {
        let rest = tactical_moves(v, moves.drop_last(), player, level);
        if is_tactical(v, moves.last(), player, level) {
            rest.push(moves.last())
        } else {
            rest
        }
    }
}

/// Those of `moves` that the quiescence search looks at.
pub fn select_tactical(board: &Board, moves: &Vec<Move>, player: PlayerId, level: usize) -> (r: Vec<
    Move,
>)
    requires
        board.wf(),
    ensures
        r@ == tactical_moves(board@, moves@, player, level as nat),
{
    let mut r: Vec<Move> = Vec::new();
    let mut i: usize = 0;
    while i < moves.len()
        invariant
            board.wf(),
            i <= moves@.len(),
            r@ == tactical_moves(board@, moves@.subrange(0, i as int), player, level as nat),
        decreases moves@.len() - i,
    {
        proof {
            assert(moves@.subrange(0, i + 1).drop_last() =~= moves@.subrange(0, i as int));
        }
        let mv = moves[i];
        let keep = match mv {
            Move::Normal { to, promote, .. } => board.get_piece(to).is_some() || promote.is_some(),
            Move::Drop { .. } => {
                if level < 4 {
                    let next_board = apply_move(board, &mv, player);
                    is_in_check(&next_board, player.opponent())
                } else {
                    false
                }
            },
        };
        if keep {
            r.push(mv);
        }
        i += 1;
    }
    proof {
        assert(moves@.subrange(0, i as int) =~= moves@);
    }
    r
}

/// Whether `mv` is one of `moves`.
pub fn contains_move(moves: &Vec<Move>, mv: &Move) -> (b: bool)
    ensures
        b == moves@.contains(*mv),
{
    let mut i: usize = 0;
    while i < moves.len()
        invariant
            i <= moves@.len(),
            forall|j: int| 0 <= j < i ==> moves@[j] != *mv,
        decreases moves@.len() - i,
    {
        if moves[i] == *mv {
            return true;
        }
        i += 1;
    }
    false
}

/// The move that a table proposes for the position with the given hash: the
/// best move of the result that it holds for that hash, if it holds one with
/// a move.
pub open spec fn proposal(table: Seq<Option<(TTEntry, Option<Move>)>>, hash: u64) -> Option<Move> {
    match found(table, hash) {
        Some((_, Some(m))) => Some(m),
        _ => None,
    }
}

/// The move that a search hands out: what the table proposes if that is a
/// legal move, else the first legal move, and nothing only if there is no
/// legal move.
pub open spec fn settled_move(proposal: Option<Move>, legal_moves: Seq<Move>) -> Option<Move> {
    match proposal {
        Some(m) => if legal_moves.contains(m) {
            Some(m)
        } else if legal_moves.len() > 0 {
            Some(legal_moves[0])
        } else {
            None
        },
        None => if legal_moves.len() > 0 {
            Some(legal_moves[0])
        } else {
            None
        },
    }
}

/// The move that a search hands out, and whether it is the fallback to the
/// first legal move.
pub fn settle_move(proposal: Option<Move>, legal_moves: &Vec<Move>) -> (r: (Option<Move>, bool))
    ensures
        r.0 == settled_move(proposal, legal_moves@),
        r.0 is None <==> legal_moves@.len() == 0,
        r.0 matches Some(m) ==> legal_moves@.contains(m),
        r.1 == (r.0 is Some && r.0 != proposal),
{
    if let Some(m) = proposal {
        if contains_move(legal_moves, &m) {
            return (Some(m), false);
        }
    }
    if legal_moves.len() > 0 {
        (Some(legal_moves[0]), true)
    } else {
        (None, false)
    }
}

/// The memory with which a search from the root begins: as many slots and
/// plies as before, every slot empty, no killer move at any ply.
pub open spec fn cleared(m: Memory) -> Memory {
    Memory {
        table: Seq::new(m.table.len(), |i: int| None),
        killers: Seq::new(m.killers.len(), |i: int| (None, None)),
    }
}

/// Where a deepening search stands after some iterations: the memory, and
/// the move that it keeps with the depth and the score of the iteration that
/// gave it.
pub struct Deepening {
    pub memory: Memory,
    pub best: Option<Move>,
    pub depth: nat,
    pub score: int,
}

/// The deepening search of the position `v` for `side` after its first `n`
/// iterations from the memory `m`, all of them counted: the iteration at
/// depth `n` searches within the full window at ply 0 from the memory that
/// the iterations before it left, and the move that the table proposes for
/// the position after it, if there is one, is kept in place of the move
/// that was kept before.
pub open spec fn deepened(f: Frame, m: Memory, v: BoardView, side: PlayerId, n: nat) -> Deepening
    decreases n,
{
    if n == 0 {
        Deepening { memory: m, best: None, depth: 0, score: 0 }
    } else {
        let before = deepened(f, m, v, side, (n - 1) as nat);
        let found = search(
            f,
            before.memory,
            v,
            side,
            n,
            -SCORE_LIMIT as int,
            SCORE_LIMIT as int,
            0,
        );
        match proposal(found.1.table, f.keys.position_hash(v, side)) {
            Some(mv) => Deepening { memory: found.1, best: Some(mv), depth: n, score: found.0 },
            None => Deepening { memory: found.1, ..before },
        }
    }
}

/// Whether a reading of the clock ends a search: only one above the budget.
pub open spec fn over_budget(elapsed_ms: nat, budget_ms: nat) -> bool {
    elapsed_ms > budget_ms
}

/// Whether a reading of the clock, taken when an iteration has ended, ends
/// the search. The iteration that ended with such a reading counts for
/// nothing, and none is begun after it.
pub fn is_over_budget(elapsed_ms: u128, budget_ms: u128) -> (b: bool)
    ensures
        b == over_budget(elapsed_ms as nat, budget_ms as nat),
{
    elapsed_ms > budget_ms
}

/// Whether a search from the root, during which the clock gave `readings`,
/// one at the end of each iteration, leaves the given memory, move and
/// report.
///
/// There is one iteration for each reading: at least one, and at most
/// `deepest`. No reading but the last is above the budget, so no iteration
/// is begun after such a reading; and unless the last is above it, every
/// depth up to `deepest` was searched. The memory is what all the iterations
/// left. The iterations that count are all but one that ended with a reading
/// above the budget. The move that they keep is handed out if it is a legal
/// move; else the first legal move is, as a fallback, and the report says so
/// with depth 0 and score 0. Else the report holds the depth and the score
/// that were kept with the move.
pub open spec fn root_outcome(
    f: Frame,
    m: Memory,
    v: BoardView,
    side: PlayerId,
    budget_ms: nat,
    deepest: nat,
    readings: Seq<nat>,
    memory: Memory,
    chosen: Option<Move>,
    report: Thinking,
) -> bool {
    let ran = readings.len();
    let late = ran > 0 && over_budget(readings.last(), budget_ms);
    let counted = if late {
        (ran - 1) as nat
    } else {
        ran
    };
    let kept = deepened(f, m, v, side, counted);
    &&& 1 <= ran <= deepest
    &&& forall|i: int| 0 <= i < ran - 1 ==> !over_budget(#[trigger] readings[i], budget_ms)
    &&& late || ran == deepest
    &&& memory == deepened(f, m, v, side, ran).memory
    &&& chosen == settled_move(kept.best, legal(v, side))
    &&& report.fallback == (chosen is Some && chosen != kept.best)
    &&& report.depth == if report.fallback {
        0
    } else {
        kept.depth
    }
    &&& report.score == if report.fallback {
        0
    } else {
        kept.score
    }
}

/// What the engine reports of its last search.
#[derive(Clone, Copy, PartialEq, Eq, Debug, Structural)]
pub struct Thinking {
    /// The deepest iteration that gave the move; 0 for the fallback.
    pub depth: usize,
    /// The score of that iteration.
    pub score: i32,
    /// The number of nodes visited.
    pub nodes: usize,
    /// The time spent, in milliseconds.
    pub time_ms: u128,
    /// Whether no iteration gave a legal move within the time budget, so
    /// that the first legal move was played.
    pub fallback: bool,
}

/// The alpha-beta search engine, playing for one side with a given evaluator.
pub struct AlphaBetaAI<E: Evaluator> {
    player_id: PlayerId,
    name: String,
    tt: TranspositionTable,
    nodes_evaluated: usize,
    time_limit_ms: u128,
    strength: AIStrength,
    last_thinking: Option<Thinking>,
    killer_moves: Vec<Killers>,
    evaluator: E,
    hasher: ZobristHasher,
}

impl AlphaBetaAI<HandcraftedEvaluator> {
    /// An engine with the hand-written evaluator, a table of 64 megabytes
    /// and hash keys of its own, freshly drawn. A model path is accepted and
    /// ignored: the library holds no learned evaluator, see `with_evaluator`.
    ///
    /// Such an engine finds no repetition in a history that was written with
    /// other keys. Where the boards of a game carry a history, the engines
    /// that play it are made by `with_hasher`, from the hasher that writes
    /// that history.
    pub fn new(
        player_id: PlayerId,
        name: &str,
        strength: AIStrength,
        custom_model_path: Option<String>,
        silent: bool,
    ) -> (ai: Self)
        ensures
            ai.side() == player_id,
            ai.strength_spec() == strength,
            ai.label() == name@,
            ai.thinking() is None,
            ai.time_limit() == time_limit_of(strength),
            ai.table().len() == 64 * 1024 * 1024 / 80,
            forall|i: int| 0 <= i < ai.table().len() ==> (#[trigger] ai.table()[i]) is None,
            ai.nodes() == 0,
            forall|ply: usize| ai.killers(ply) == (None::<Move>, None::<Move>),
            ai.evaluator().permille() == super::eval::DEFAULT_HAND_PERMILLE,
    {
        AlphaBetaAI::with_evaluator(player_id, name, strength, HandcraftedEvaluator::new())
    }
}

impl<E: Evaluator> AlphaBetaAI<E> {
    /// The side for which the engine plays.
    pub closed spec fn side(&self) -> PlayerId {
        self.player_id
    }

    /// The strength of the engine.
    pub closed spec fn strength_spec(&self) -> AIStrength {
        self.strength
    }

    /// The name of the engine.
    pub closed spec fn label(&self) -> Seq<char> {
        self.name@
    }

    /// The time budget of a search, in milliseconds.
    pub closed spec fn time_limit(&self) -> nat {
        self.time_limit_ms as nat
    }

    /// Whether two engines play for the same side at the same strength, with
    /// the same hash keys and the same time budget.
    pub open spec fn same_settings(&self, other: &Self) -> bool {
        &&& self.side() == other.side()
        &&& self.strength_spec() == other.strength_spec()
        &&& self.keys() == other.keys()
        &&& self.time_limit() == other.time_limit()
    }

    /// The hash keys of the engine.
    pub closed spec fn keys(&self) -> crate::logic::zobrist::ZobristKeys {
        self.hasher@
    }

    /// The killer moves that the engine keeps for a ply; past the last ply
    /// it keeps none.
    pub open spec fn killers(&self, ply: usize) -> Killers {
        killers_of(self.killer_list(), ply)
    }

    /// The killer moves that the engine keeps, ply by ply.
    pub closed spec fn killer_list(&self) -> Seq<Killers> {
        self.killer_moves@
    }

    /// The content of the transposition table.
    pub closed spec fn table(&self) -> Seq<Option<(TTEntry, Option<Move>)>> {
        self.tt@
    }

    /// What the engine carries from one node of a search to the next.
    pub open spec fn memory(&self) -> Memory {
        Memory { table: self.table(), killers: self.killer_list() }
    }

    /// What the evaluator of the engine, as it is, says of each position.
    pub open spec fn judge(&self) -> spec_fn(BoardView) -> int {
        |v: BoardView| self.evaluator().answer(v)
    }

    /// Whether a search from the root of the position on `board` takes the
    /// engine to `after` and hands out `chosen`: whatever the clock read at
    /// the end of each iteration, the engine, its move and its report are
    /// what `root_outcome` says of those readings, the time budget of the
    /// engine and the deepest iteration of its strength.
    pub open spec fn finds(&self, board: &Board, after: &Self, chosen: Option<Move>) -> bool {
        exists|readings: Seq<nat>|
            after.thinking() is Some && #[trigger] root_outcome(
                self.frame(board.record().history),
                cleared(self.memory()),
                board@,
                self.side(),
                self.time_limit(),
                max_depth_of(self.strength_spec()),
                readings,
                after.memory(),
                chosen,
                after.thinking()->0,
            )
    }

    /// What stays as it is while the engine searches a position of a game
    /// with the given history.
    pub open spec fn frame(&self, history: Seq<u64>) -> Frame {
        Frame {
            keys: self.keys(),
            strength: self.strength_spec(),
            history,
            judge: self.judge(),
        }
    }

    /// What the engine reported of its last search.
    pub closed spec fn thinking(&self) -> Option<Thinking> {
        self.last_thinking
    }

    /// The evaluator of the engine, as it is.
    pub closed spec fn evaluator(&self) -> E {
        self.evaluator
    }

    /// Whether every slot of the transposition table is empty.
    pub open spec fn table_is_empty(&self) -> bool {
        forall|i: int| 0 <= i < self.table().len() ==> (#[trigger] self.table()[i]) is None
    }

    /// The number of nodes that the engine has visited since its last search
    /// began.
    pub closed spec fn nodes(&self) -> nat {
        self.nodes_evaluated as nat
    }

    /// The number of plies for which the engine keeps killer moves.
    pub open spec fn kept_plies(&self) -> nat {
        self.killer_list().len()
    }

    /// An engine with the given evaluator, a table of 64 megabytes and hash
    /// keys of its own, freshly drawn. Where the boards of a game carry a
    /// history, `with_hasher` is the constructor to use.
    pub fn with_evaluator(player_id: PlayerId, name: &str, strength: AIStrength, evaluator: E) -> (ai:
        Self)
        ensures
            ai.side() == player_id,
            ai.strength_spec() == strength,
            ai.label() == name@,
            ai.thinking() is None,
            ai.time_limit() == time_limit_of(strength),
            ai.table().len() == 64 * 1024 * 1024 / 80,
            forall|i: int| 0 <= i < ai.table().len() ==> (#[trigger] ai.table()[i]) is None,
            ai.nodes() == 0,
            ai.evaluator() == evaluator,
            forall|ply: usize| ai.killers(ply) == (None::<Move>, None::<Move>),
    {
        Self::with_hasher(player_id, name, strength, evaluator, ZobristHasher::new())
    }

    /// An engine with the given evaluator and hash keys and a table of 64
    /// megabytes. An engine counts the repetitions of a position in the
    /// history of a board only if that history was written with its own keys.
    pub fn with_hasher(
        player_id: PlayerId,
        name: &str,
        strength: AIStrength,
        evaluator: E,
        hasher: ZobristHasher,
    ) -> (ai: Self)
        ensures
            ai.side() == player_id,
            ai.strength_spec() == strength,
            ai.label() == name@,
            ai.keys() == hasher@,
            ai.thinking() is None,
            ai.time_limit() == time_limit_of(strength),
            ai.table().len() == 64 * 1024 * 1024 / 80,
            forall|i: int| 0 <= i < ai.table().len() ==> (#[trigger] ai.table()[i]) is None,
            ai.nodes() == 0,
            ai.evaluator() == evaluator,
            forall|ply: usize| ai.killers(ply) == (None::<Move>, None::<Move>),
    {
        let mut killer_moves: Vec<Killers> = Vec::new();
        let mut i: usize = 0;
        while i < MAX_PLY
            invariant
                i <= MAX_PLY,
                killer_moves@.len() == i,
                forall|j: int| 0 <= j < i ==> killer_moves@[j] == (None::<Move>, None::<Move>),
            decreases MAX_PLY - i,
        {
            killer_moves.push((None, None));
            i += 1;
        }
        let time_limit_ms: u128 = match strength {
            AIStrength::Strong => 3000,
            AIStrength::Light => 1000,
        };
        AlphaBetaAI {
            player_id,
            name: name.to_string(),
            tt: TranspositionTable::new(64),
            nodes_evaluated: 0,
            time_limit_ms,
            strength,
            last_thinking: None,
            killer_moves,
            evaluator,
            hasher,
        }
    }

    /// Sets the time budget of a search, in milliseconds.
    pub fn set_time_limit_ms(&mut self, millis: u128)
        ensures
            final(self).time_limit() == millis,
            final(self).evaluator() == old(self).evaluator(),
            final(self).nodes() == old(self).nodes(),
            final(self).table() == old(self).table(),
            final(self).thinking() == old(self).thinking(),
            final(self).side() == old(self).side(),
            final(self).strength_spec() == old(self).strength_spec(),
            final(self).keys() == old(self).keys(),
    {
        self.time_limit_ms = millis;
    }

    /// The name of the evaluator that the engine uses.
    pub fn evaluator_name(&self) -> (n: String) {
        self.evaluator.name()
    }

    /// What the engine reported of its last search.
    pub fn last_thinking(&self) -> (t: Option<Thinking>)
        ensures
            t == self.thinking(),
    {
        self.last_thinking
    }

    /// What the transposition table of the engine answers for a hash.
    pub fn table_entry(&self, hash: u64) -> (r: Option<(TTEntry, Option<Move>)>)
        ensures
            r == found(self.table(), hash),
    {
        self.tt.get(hash)
    }

    /// The hash of a position under the keys of the engine.
    pub fn hash_of(&self, board: &Board, side: PlayerId) -> (h: u64)
        requires
            board.wf(),
        ensures
            h == self.keys().position_hash(board@, side),
    {
        self.hasher.compute_hash(board, side)
    }

    /// Counts one more visited node. The count stays where it is once it
    /// has reached the largest `usize`.
    fn count_node(&mut self)
        ensures
            final(self).nodes() == if old(self).nodes() < usize::MAX {
                old(self).nodes() + 1
            } else {
                old(self).nodes()
            },
            final(self).same_settings(old(self)),
            final(self).evaluator() == old(self).evaluator(),
            final(self).table() == old(self).table(),
            final(self).thinking() == old(self).thinking(),
            final(self).killer_list() == old(self).killer_list(),
    {
        if self.nodes_evaluated < usize::MAX {
            self.nodes_evaluated += 1;
        }
    }

    fn killers_at(&self, ply: usize) -> (k: Killers)
        requires
        ensures
            k == self.killers(ply),
            self.kept_plies() <= usize::MAX,
    {
        if ply < self.killer_moves.len() {
            self.killer_moves[ply]
        } else {
            (None, None)
        }
    }

    /// Records the quiet move `mv` as the move that last cut off a search at
    /// `ply`. Past the plies for which killer moves are kept nothing is
    /// recorded.
    fn record_killer(&mut self, ply: usize, mv: Move)
        ensures
            final(self).killer_list() == killers_with(old(self).killer_list(), ply, mv),
            final(self).nodes() == old(self).nodes(),
            final(self).same_settings(old(self)),
            final(self).evaluator() == old(self).evaluator(),
            final(self).table() == old(self).table(),
            final(self).thinking() == old(self).thinking(),
    {
        if ply < self.killer_moves.len() {
            let (first, _) = self.killer_moves[ply];
            if first != Some(mv) {
                self.killer_moves[ply] = (Some(mv), first);
            }
        }
        proof {
            assert(self.killer_moves@ =~= killers_with(old(self).killer_moves@, ply, mv));
        }
    }

    /// Brings the moves into the order in which the search tries them:
    /// killer moves of the ply first, then captures and promotions.
    pub fn order_moves(&self, board: &Board, moves: &mut Vec<Move>, _player: PlayerId, ply: usize)
        requires
            board.wf(),
        ensures
            final(moves)@ == ordered(board@, self.killers(ply), old(moves)@),
            self.kept_plies() <= usize::MAX,
            final(moves)@.len() == old(moves)@.len(),
            final(moves)@.to_multiset() == old(moves)@.to_multiset(),
    {
        let killers = self.killers_at(ply);
        sort_moves(board, moves, &killers);
        proof {
            super::ordering::lemma_ordered_is_sorted_permutation(board@, killers, old(moves)@);
        }
    }

    /// The quiescence search from the first level: what `qsearch_depth`
    /// returns at level 0.
    pub fn qsearch(&mut self, board: &Board, alpha: i32, beta: i32, current_player: PlayerId) -> (score:
        i32)
        requires
            board.wf(),
            alpha > i32::MIN,
            beta > i32::MIN,
        ensures
            score == quiescence(
                old(self).judge(),
                board@,
                current_player,
                alpha as int,
                beta as int,
                0,
            ),
            alpha <= beta ==> alpha <= score <= beta,
            score == beta || alpha <= score,
            score <= beta || score == alpha,
            final(self).same_settings(old(self)),
            final(self).judge() == old(self).judge(),
            final(self).memory() == old(self).memory(),
            final(self).nodes() >= old(self).nodes(),
            final(self).nodes() >= 1,
    {
        self.qsearch_depth(board, alpha, beta, current_player, 0)
    }

    /// The quiescence search: the score of the position for the side to move
    /// if it may stand pat or go on with tactical moves only, down to a fixed
    /// number of levels.
    ///
    /// The result is what `quiescence` says of the answers of the evaluator:
    /// the upper limit where the stand-pat score reaches it; the lower
    /// limit, raised to the stand-pat score, where the search looks no
    /// further; and else what the tactical moves lead to, searched in their
    /// order. It never lies outside the window. The transposition table and
    /// the killer moves are left alone. A limit of the window must not be the
    /// least `i32`, which has no negative.
    pub fn qsearch_depth(
        &mut self,
        board: &Board,
        alpha: i32,
        beta: i32,
        current_player: PlayerId,
        depth: usize,
    ) -> (score: i32)
        requires
            board.wf(),
            alpha > i32::MIN,
            beta > i32::MIN,
        ensures
            score == quiescence(
                old(self).judge(),
                board@,
                current_player,
                alpha as int,
                beta as int,
                depth as nat,
            ),
            alpha <= beta ==> alpha <= score <= beta,
            score == beta || alpha <= score,
            score <= beta || score == alpha,
            final(self).same_settings(old(self)),
            final(self).judge() == old(self).judge(),
            final(self).memory() == old(self).memory(),
            final(self).nodes() >= old(self).nodes(),
            final(self).nodes() >= 1,
        decreases MAX_QSEARCH_DEPTH - depth,
    {
        self.count_node();
        let eval_score = self.evaluator.evaluate(board);
        proof {
            assert(self.judge() =~= old(self).judge());
        }
        let ghost judge = self.judge();
        let stand = stand_pat(eval_score, current_player);
        if stand >= beta as i64 || depth >= MAX_QSEARCH_DEPTH {
            return quiet_score(eval_score, current_player, alpha, beta);
        }
        let moves = legal_moves(board, current_player);
        let mut tactical = select_tactical(board, &moves, current_player, depth);
        if tactical.len() == 0 {
            return quiet_score(eval_score, current_player, alpha, beta);
        }
        let mut lo = alpha;
        if stand > lo as i64 {
            lo = stand as i32;
        }
        self.order_moves(board, &mut tactical, current_player, usize::MAX);
        let ghost floor = raised(alpha as int, stand as int);
        let ghost goal = quiescence(
            judge,
            board@,
            current_player,
            alpha as int,
            beta as int,
            depth as nat,
        );
        proof {
            assert(self.killers(usize::MAX) == (None::<Move>, None::<Move>));
            assert(looks_further(board@, current_player, depth as nat));
            assert(tactical@ == ordered(
                board@,
                (None, None),
                tactical_moves(
                    board@,
                    legal(board@, current_player),
                    current_player,
                    depth as nat,
                ),
            ));
        }
        let mut i: usize = 0;
        while i < tactical.len()
            invariant
                board.wf(),
                self.same_settings(old(self)),
                self.judge() == judge,
                judge == old(self).judge(),
                self.memory() == old(self).memory(),
                goal == quiescence(
                    judge,
                    board@,
                    current_player,
                    alpha as int,
                    beta as int,
                    depth as nat,
                ),
                goal == quiescence_from(
                    judge,
                    board@,
                    current_player,
                    tactical@,
                    i as nat,
                    lo as int,
                    beta as int,
                    depth as nat,
                ),
                self.table() == old(self).table(),
                self.nodes() >= old(self).nodes(),
                self.nodes() >= 1,
                depth < MAX_QSEARCH_DEPTH,
                looks_further(board@, current_player, depth as nat),
                eval_score == old(self).evaluator().answer(board@),
                stand == stand_pat_of(eval_score as int, current_player),
                stand < beta,
                beta > i32::MIN,
                floor == raised(alpha as int, stand as int),
                floor <= lo,
                lo == floor || lo < beta,
                alpha > i32::MIN,
                lo > i32::MIN,
            decreases tactical@.len() - i,
        {
            let mv = tactical[i];
            let next_board = apply_move(board, &mv, current_player);
            let score = -self.qsearch_depth(
                &next_board,
                -beta,
                -lo,
                current_player.opponent(),
                depth + 1,
            );
            if score >= beta {
                return beta;
            }
            if score > lo {
                lo = score;
            }
            i += 1;
        }
        lo
    }

    /// The negamax search with alpha-beta pruning: the score of the position
    /// on `board` for `current_player`, who is to move, from a search of the
    /// given depth within the window from `alpha` to `beta`.
    ///
    /// The score, the table and the killer moves after the search are what
    /// `search` says, from the table and the killer moves before it, the
    /// history of the board and the answers of the evaluator. Every score
    /// lies within the score limit, and no slot of the table changes but to
    /// the result of a search of at most this depth. Where the moves of the
    /// position are searched and the slot of the position held nothing deeper
    /// before, the table answers for the position with the result afterwards.
    #[verifier::rlimit(60)]
    pub fn negamax(
        &mut self,
        board: &Board,
        depth: usize,
        alpha: i32,
        beta: i32,
        current_player: PlayerId,
        ply: usize,
    ) -> (score: i32)
        requires
            board.wf(),
        ensures
            final(self).same_settings(old(self)),
            final(self).judge() == old(self).judge(),
            (score as int, final(self).memory()) == search(
                old(self).frame(board.record().history),
                old(self).memory(),
                board@,
                current_player,
                depth as nat,
                alpha as int,
                beta as int,
                ply,
            ),
            -SCORE_LIMIT <= score <= SCORE_LIMIT,
            no_deeper(old(self).table(), final(self).table(), depth as nat),
            final(self).nodes() >= old(self).nodes(),
            final(self).nodes() >= 1,
            searches_moves(
                old(self).table(),
                board.record().history,
                old(self).keys().position_hash(board@, current_player),
                ply as nat,
                depth,
                alpha as int,
                beta as int,
                old(self).strength_spec(),
                board@,
                current_player,
            ) && slot_is_free(
                old(self).table(),
                old(self).keys().position_hash(board@, current_player),
                depth,
            ) ==> holds_result(
                final(self).table(),
                old(self).keys().position_hash(board@, current_player),
                depth,
                score as int,
                alpha as int,
                beta as int,
                legal(board@, current_player),
            ),
        decreases depth,
    {
        let ghost table0 = self.table();
        let ghost f = self.frame(board.record().history);
        let ghost m0 = self.memory();
        self.count_node();
        let hash = self.hasher.compute_hash(board, current_player);
        let rep_count = repetition_count(board, hash);
        if let Some(s) = repetition_score(rep_count, ply) {
            return s;
        }
        let mut lo = alpha;
        if let Some((entry, _)) = self.tt.get(hash) {
            match probe_entry(&entry, depth, alpha, beta) {
                Probe::Cut(s) => {
                    return s;
                },
                Probe::Narrow(a) => {
                    lo = a;
                },
            }
        }
        let mut lo = limit_score(lo);
        let hi = limit_score(beta);
        if depth == 0 {
            return self.qsearch(board, lo, hi, current_player);
        }
        let checked = is_in_check(board, current_player);
        let mut moves = legal_moves(board, current_player);
        if moves.len() == 0 {
            return terminal_score(checked, depth);
        }
        let opponent = current_player.opponent();
        let next_ply = if ply < usize::MAX {
            ply + 1
        } else {
            ply
        };
        if should_try_null_move(self.strength, checked, depth, beta) {
            let null_ply = if next_ply < usize::MAX - 2 {
                next_ply + 2
            } else {
                next_ply
            };
            let score = -self.negamax(board, depth - 3, -beta, -beta + 1, opponent, null_ply);
            if score >= beta {
                return beta;
            }
        }
        let ghost all = legal(board@, current_player);
        let ghost m1 = self.memory();
        let ghost lo0 = lo as int;
        self.order_moves(board, &mut moves, current_player, ply);
        let ghost goal = search_from(
            f,
            m1,
            board@,
            current_player,
            depth as nat,
            moves@,
            0,
            lo0,
            hi as int,
            -SCORE_LIMIT as int,
            None,
            ply,
        );
        proof {
            broadcast use vstd::seq_lib::group_to_multiset_ensures;

            assert forall|j: int| 0 <= j < moves@.len() implies all.contains(
                #[trigger] moves@[j],
            ) by {
                assert(moves@.contains(moves@[j]));
                assert(moves@.to_multiset().count(moves@[j]) > 0);
            }
        }
        let mut best_score: i32 = -SCORE_LIMIT;
        let mut best_move: Option<Move> = None;
        let mut moves_searched: usize = 0;
        while moves_searched < moves.len()
            invariant_except_break
                moves_searched > 0 ==> lo < hi,
                goal == search_from(
                    f,
                    self.memory(),
                    board@,
                    current_player,
                    depth as nat,
                    moves@,
                    moves_searched as nat,
                    lo as int,
                    hi as int,
                    best_score as int,
                    best_move,
                    ply,
                ),
            invariant
                board.wf(),
                self.same_settings(old(self)),
                self.judge() == old(self).judge(),
                f == old(self).frame(board.record().history),
                checked == in_check(board@, current_player),
                next_ply == ply_after(ply),
                depth > 0,
                opponent == current_player.other(),
                all == legal(board@, current_player),
                forall|j: int| 0 <= j < moves@.len() ==> all.contains(#[trigger] moves@[j]),
                within_limit(lo as int, hi as int),
                -SCORE_LIMIT <= best_score <= SCORE_LIMIT,
                best_move is Some ==> all.contains(best_move->0),
                best_move is Some <==> best_score > -SCORE_LIMIT,
                no_deeper(table0, self.table(), (depth - 1) as nat),
                self.nodes() >= old(self).nodes(),
                self.nodes() >= 1,
            ensures
                goal == (Best { memory: self.memory(), score: best_score as int, best: best_move }),
            decreases moves@.len() - moves_searched,
        {
            let mv = moves[moves_searched];
            if !checked && moves_searched > 0 && depth >= 2 {
                if is_losing_capture(board, &mv, current_player) {
                    moves_searched += 1;
                    continue ;
                }
            }
            let next_board = apply_move(board, &mv, current_player);
            let mut score: i32;
            let ghost t1 = self.table();
            if self.strength == AIStrength::Strong && moves_searched > 0 && depth >= 2 {
                let capture = is_capture(board, &mv);
                let promotion = mv.is_promotion();
                let gives_check = is_in_check(&next_board, opponent);
                let reduction = late_move_reduction(
                    depth,
                    moves_searched,
                    capture,
                    promotion,
                    gives_check,
                );
                let search_depth = reduced_depth(depth, reduction);
                score = -self.negamax(&next_board, search_depth, -lo - 1, -lo, opponent, next_ply);
                proof {
                    lemma_no_deeper_follows(
                        table0,
                        t1,
                        self.table(),
                        (depth - 1) as nat,
                        search_depth as nat,
                        (depth - 1) as nat,
                    );
                }
                if score > lo && (score < hi || reduction > 0) {
                    let ghost t2 = self.table();
                    score = -self.negamax(&next_board, depth - 1, -hi, -lo, opponent, next_ply);
                    proof {
                        lemma_no_deeper_follows(
                            table0,
                            t2,
                            self.table(),
                            (depth - 1) as nat,
                            (depth - 1) as nat,
                            (depth - 1) as nat,
                        );
                    }
                }
            } else {
                score = -self.negamax(&next_board, depth - 1, -hi, -lo, opponent, next_ply);
                proof {
                    lemma_no_deeper_follows(
                        table0,
                        t1,
                        self.table(),
                        (depth - 1) as nat,
                        (depth - 1) as nat,
                        (depth - 1) as nat,
                    );
                }
            }
            if score > best_score {
                best_score = score;
                best_move = Some(mv);
            }
            if score > lo {
                lo = score;
            }
            if lo >= hi {
                if !is_capture(board, &mv) {
                    self.record_killer(ply, mv);
                }
                break ;
            }
            moves_searched += 1;
        }
        let bound = classify_bound(best_score, alpha, beta);
        let ghost t = self.table();
        self.tt.store(hash, depth, best_score, bound, best_move);
        proof {
            assert(self.table() == stored(
                t,
                result_entry(hash, depth, best_score as int, alpha as int, beta as int),
                best_move,
            ));
            if slot_is_free(table0, hash, depth) {
                let i = slot_of(hash, t.len());
                assert(t[i] == table0[i] || (t[i] is Some && slot_depth(t[i]) <= depth - 1));
            }
        }
        best_score
    }

    /// One iteration of the deepening search: the negamax search of the
    /// position on `board` for the engine's side at the given depth within
    /// the full window, and the move that the table proposes for the position
    /// after it.
    pub fn deepen(&mut self, board: &Board, depth: usize) -> (r: (i32, Option<Move>))
        requires
            board.wf(),
        ensures
            final(self).same_settings(old(self)),
            final(self).judge() == old(self).judge(),
            (r.0 as int, final(self).memory()) == search(
                old(self).frame(board.record().history),
                old(self).memory(),
                board@,
                old(self).side(),
                depth as nat,
                -SCORE_LIMIT as int,
                SCORE_LIMIT as int,
                0,
            ),
            -SCORE_LIMIT <= r.0 <= SCORE_LIMIT,
            r.1 == proposal(
                final(self).table(),
                old(self).keys().position_hash(board@, old(self).side()),
            ),
            no_deeper(old(self).table(), final(self).table(), depth as nat),
            final(self).nodes() >= old(self).nodes(),
            final(self).nodes() >= 1,
    {
        let player = self.player_id;
        let score = self.negamax(board, depth, -SCORE_LIMIT, SCORE_LIMIT, player, 0);
        let hash = self.hasher.compute_hash(board, player);
        let proposed = match self.tt.get(hash) {
            Some((_, Some(m))) => Some(m),
            _ => None,
        };
        (score, proposed)
    }

    /// Searches the position on `board` for the engine's side by iterative
    /// deepening within the time budget and hands out a move.
    ///
    /// The table and the killer moves are emptied and the node count begins
    /// anew. Then iterations of `deepen` follow each other from depth 1 up to
    /// the deepest of the strength. When an iteration has ended the clock is
    /// read: a reading above the time budget ends the search, and that
    /// iteration counts for nothing. The move of the last iteration that
    /// counts is handed out if the table proposed one and it is legal; else
    /// the first legal move is played as a fallback. So the move is legal,
    /// and there is one whenever the side has a legal move. `finds` says the
    /// same exactly, for whatever the clock read.
    pub fn search_root(&mut self, board: &Board) -> (r: Option<Move>)
        requires
            board.wf(),
        ensures
            final(self).same_settings(old(self)),
            final(self).judge() == old(self).judge(),
            old(self).finds(board, final(self), r),
            r is None <==> legal(board@, old(self).side()).len() == 0,
            r matches Some(m) ==> legal(board@, old(self).side()).contains(m),
            final(self).thinking() is Some,
            final(self).thinking()->0.depth <= max_depth_of(old(self).strength_spec()),
            final(self).thinking()->0.fallback ==> final(self).thinking()->0.depth == 0
                && final(self).thinking()->0.score == 0 && r == Some(
                legal(board@, old(self).side())[0],
            ),
            !final(self).thinking()->0.fallback && r is Some ==> final(self).thinking()->0.depth
                >= 1,
            -SCORE_LIMIT <= final(self).thinking()->0.score <= SCORE_LIMIT,
            final(self).thinking()->0.nodes == final(self).nodes(),
            final(self).nodes() >= 1,
            final(self).table().len() == old(self).table().len(),
            forall|i: int|
                0 <= i < final(self).table().len() ==> (#[trigger] final(self).table()[i]) is None
                    || slot_depth(final(self).table()[i]) <= max_depth_of(
                    old(self).strength_spec(),
                ),
    {
        self.tt.clear();
        self.nodes_evaluated = 0;
        let plies = self.killer_moves.len();
        let mut p: usize = 0;
        while p < plies
            invariant
                self.same_settings(old(self)),
                self.table().len() == old(self).table().len(),
                forall|i: int| 0 <= i < self.table().len() ==> (#[trigger] self.table()[i]) is None,
                plies == self.killer_moves@.len(),
                plies == old(self).killer_moves@.len(),
                self.evaluator() == old(self).evaluator(),
                forall|j: int| 0 <= j < p ==> (#[trigger] self.killer_moves@[j]) == (
                    None::<Move>,
                    None::<Move>,
                ),
                p <= plies,
            decreases plies - p,
        {
            self.killer_moves[p] = (None, None);
            p += 1;
        }
        let ghost f = self.frame(board.record().history);
        let ghost m = cleared(old(self).memory());
        let ghost side = self.side();
        proof {
            assert(self.memory().table =~= m.table);
            assert(self.memory().killers =~= m.killers);
        }
        let start_time = Instant::now();
        let mut best_move: Option<Move> = None;
        let max_depth: usize = match self.strength {
            AIStrength::Strong => 6,
            AIStrength::Light => 4,
        };
        let mut final_depth: usize = 0;
        let mut final_score: i32 = 0;
        let mut depth: usize = 1;
        let mut late: bool = false;
        let ghost readings: Seq<nat> = Seq::empty();
        let ghost budget = self.time_limit();
        while depth <= max_depth
            invariant_except_break
                !late,
                readings.len() == depth - 1,
                self.memory() == deepened(f, m, board@, side, (depth - 1) as nat).memory,
            invariant
                board.wf(),
                self.same_settings(old(self)),
                budget == self.time_limit(),
                forall|i: int|
                    0 <= i < readings.len() - 1 ==> !over_budget(#[trigger] readings[i], budget),
                !late && readings.len() > 0 ==> !over_budget(readings.last(), budget),
                self.judge() == old(self).judge(),
                f == self.frame(board.record().history),
                f == old(self).frame(board.record().history),
                side == self.side(),
                best_move == deepened(f, m, board@, side, (depth - 1) as nat).best,
                final_depth == deepened(f, m, board@, side, (depth - 1) as nat).depth,
                final_score == deepened(f, m, board@, side, (depth - 1) as nat).score,
                1 <= depth <= max_depth + 1,
                max_depth == max_depth_of(self.strength_spec()),
                final_depth <= max_depth,
                best_move is Some ==> final_depth >= 1,
                -SCORE_LIMIT <= final_score <= SCORE_LIMIT,
                depth > 1 ==> self.nodes() >= 1,
                self.table().len() == old(self).table().len(),
                forall|i: int|
                    0 <= i < self.table().len() ==> (#[trigger] self.table()[i]) is None
                        || slot_depth(self.table()[i]) <= max_depth,
            ensures
                self.nodes() >= 1,
                late ==> depth <= max_depth && readings.len() == depth && over_budget(
                    readings.last(),
                    budget,
                ) && self.memory() == deepened(
                    f,
                    m,
                    board@,
                    side,
                    depth as nat,
                ).memory,
                !late ==> depth == max_depth + 1 && readings.len() == max_depth
                    && self.memory() == deepened(
                    f,
                    m,
                    board@,
                    side,
                    max_depth as nat,
                ).memory,
            decreases max_depth + 1 - depth,
        {
            let ghost t0 = self.table();
            let (score, proposed) = self.deepen(board, depth);
            proof {
                assert forall|i: int| 0 <= i < self.table().len() implies (
                #[trigger] self.table()[i]) is None || slot_depth(self.table()[i])
                    <= max_depth by {
                    assert(self.table()[i] == t0[i] || (self.table()[i] is Some && slot_depth(
                        self.table()[i],
                    ) <= depth));
                }
            }
            let elapsed = millis_since(&start_time);
            proof {
                readings = readings.push(elapsed as nat);
            }
            if is_over_budget(elapsed, self.time_limit_ms) {
                late = true;
                break ;
            }
            if let Some(m) = proposed {
                best_move = Some(m);
                final_depth = depth;
                final_score = score;
            }
            depth += 1;
        }
        let ghost kept = best_move;
        let ghost kept_depth = final_depth;
        let ghost kept_score = final_score;
        let legal_now = legal_moves(board, self.player_id);
        let (chosen, fallback) = settle_move(best_move, &legal_now);
        if fallback {
            final_depth = 0;
            final_score = 0;
        }
        self.last_thinking = Some(
            Thinking {
                depth: final_depth,
                score: final_score,
                nodes: self.nodes_evaluated,
                time_ms: millis_since(&start_time),
                fallback,
            },
        );
        proof {
            assert(root_outcome(
                f,
                m,
                board@,
                side,
                budget,
                max_depth as nat,
                readings,
                self.memory(),
                chosen,
                self.thinking()->0,
            ));
        }
        chosen
    }
}

impl<E: Evaluator> PlayerController for AlphaBetaAI<E> {
    /// The move that the search finds for the engine's own side: a legal
    /// move of that side, and nothing only if it has none.
    fn choose_move(&mut self, board: &Board, _moves: &[Move]) -> (r: Option<Move>)
        ensures
            final(self).side() == old(self).side(),
            final(self).same_settings(old(self)),
            old(self).finds(board, final(self), r),
            r is None <==> legal(board@, old(self).side()).len() == 0,
            r matches Some(m) ==> legal(board@, old(self).side()).contains(m),
    {
        self.search_root(board)
    }

    fn name(&self) -> (n: &str)
        ensures
            n@ == self.label(),
    {
        self.name.as_str()
    }

    fn is_local(&self) -> (b: bool)
        ensures
            b,
    {
        true
    }

    fn diagnostics(&self) -> (t: Option<Thinking>)
        ensures
            t == self.thinking(),
    {
        self.last_thinking
    }
}

} // verus!
