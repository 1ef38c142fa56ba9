//! What a move does to a position, when a king is attacked, and which of the
//! pseudo-legal moves are legal.

use vstd::prelude::*;
use crate::model::board::{lemma_changes_keep_wf, Board, BoardRecord, BoardView};
use crate::model::mv::Move;
use crate::model::piece::Piece;
use crate::model::types::{PlayerId, Position};
use super::movegen::{get_piece_moves, piece_moves, pseudo_legal, pseudo_legal_moves};

verus! {

/// The position after `player` has made the move `mv`.
///
/// A board move lifts the piece from its origin, empties the destination,
/// banks what stood there (under its unpromoted kind) in the hand of the
/// piece's owner if that side keeps captures, gives the piece the promoted kind
/// if the move names one, and sets it down. A drop takes one piece of the kind
/// out of the mover's hand and sets a fresh piece down. A move to a square off
/// the grid, a board move from an empty square and a drop of a kind that the
/// mover does not hold leave the position as it is.
pub open spec fn successor(v: BoardView, mv: Move, player: PlayerId) -> BoardView {
    match mv {
        Move::Normal { from, to, promote } => match v.piece_at(from) {
            Some(piece) => if v.on_board(to) {
                let lifted = v.take(from);
                let cleared = lifted.take(to);
                let banked = match lifted.piece_at(to) {
                    Some(captured) => if v.config(piece.owner).keep_captured {
                        cleared.give(piece.owner, captured.kind.unpromoted())
                    } else {
                        cleared
                    },
                    None => cleared,
                };
                let moved = match promote {
                    Some(kind) => Piece { kind, ..piece },
                    None => piece,
                };
                banked.place(to, moved)
            } else {
                v
            },
            None => v,
        },
        Move::Drop { kind, to } => if v.on_board(to) && v.hand_count(player, kind) > 0 {
            v.spend(player, kind).place(to, Piece::of(kind, player))
        } else {
            v
        },
    }
}

/// Whether a move is a board move that ends on `sq`.
pub open spec fn lands_on(mv: Move, sq: Position) -> bool {
    match mv {
        Move::Normal { to, .. } => to == sq,
        Move::Drop { .. } => false,
    }
}

/// Whether one of the moves is a board move that ends on `sq`.
pub open spec fn some_lands_on(moves: Seq<Move>, sq: Position) -> bool {
    exists|i: int| 0 <= i < moves.len() && lands_on(#[trigger] moves[i], sq)
}

/// Whether a piece of `attacker` on `origin` has a pseudo-legal move to `sq`.
pub open spec fn attacked_from(v: BoardView, attacker: PlayerId, origin: Position, sq: Position) -> bool {
    match v.piece_at(origin) {
        Some(piece) => piece.owner == attacker && some_lands_on(piece_moves(v, origin, piece), sq),
        None => false,
    }
}

/// Whether some piece of `attacker` has a pseudo-legal move to `sq`.
pub open spec fn attacked(v: BoardView, attacker: PlayerId, sq: Position) -> bool {
    exists|origin: Position| attacked_from(v, attacker, origin, sq)
}

/// Whether the king of `player` is attacked. A side without a king is never
/// in check.
pub open spec fn in_check(v: BoardView, player: PlayerId) -> bool {
    match v.king_square(player) {
        Some(king) => attacked(v, player.other(), king),
        None => false,
    }
}

/// Whether the move leaves the mover's own king unattacked.
#[verifier::opaque]
pub open spec fn keeps_king_safe(v: BoardView, player: PlayerId, mv: Move) -> bool {
    !in_check(successor(v, mv, player), player)
}

/// Those of `moves`, in their order, that leave the mover's king unattacked.
pub open spec fn safe_moves(v: BoardView, player: PlayerId, moves: Seq<Move>) -> Seq<Move>
    decreases moves.len(),
{
    if moves.len() == 0 {
        Seq::empty()
    } else {
        let rest = safe_moves(v, player, moves.drop_last());
        if keeps_king_safe(v, player, moves.last()) {
            rest.push(moves.last())
        } else {
            rest
        }
    }
}

/// The legal moves of a side: its pseudo-legal moves that leave its own king
/// unattacked, in the order of generation.
pub open spec fn legal(v: BoardView, player: PlayerId) -> Seq<Move> {
    safe_moves(v, player, pseudo_legal(v, player))
}

/// Whether `player`, to move, is checkmated: in check and without a legal move.
pub open spec fn checkmated(v: BoardView, player: PlayerId) -> bool {
    in_check(v, player) && legal(v, player).len() == 0
}

/// Whether `player`, to move, is stalemated: not in check and without a legal
/// move.
pub open spec fn stalemated(v: BoardView, player: PlayerId) -> bool {
    !in_check(v, player) && legal(v, player).len() == 0
}

/// A move of the position keeps the grid and the invariant.
pub proof fn lemma_successor_wf(v: BoardView, mv: Move, player: PlayerId)
    requires
        v.wf(),
    ensures
        successor(v, mv, player).wf(),
        successor(v, mv, player).width == v.width,
        successor(v, mv, player).height == v.height,
        successor(v, mv, player).configs == v.configs,
{
    lemma_changes_keep_wf(v);
    match mv {
        Move::Normal { from, to, promote } => {
            if v.piece_at(from) is Some {
                let piece = v.piece_at(from)->0;
                let lifted = v.take(from);
                lemma_changes_keep_wf(lifted);
                let cleared = lifted.take(to);
                lemma_changes_keep_wf(cleared);
                if lifted.piece_at(to) is Some {
                    lemma_changes_keep_wf(
                        cleared.give(piece.owner, lifted.piece_at(to)->0.kind.unpromoted()),
                    );
                }
            }
        },
        Move::Drop { kind, to } => {
            lemma_changes_keep_wf(v.spend(player, kind));
        },
    }
}

/// A move is among the safe ones of a list exactly if it is in the list and
/// leaves the mover's king unattacked.
pub proof fn lemma_safe_moves_contains(v: BoardView, player: PlayerId, moves: Seq<Move>, mv: Move)
    ensures
        safe_moves(v, player, moves).contains(mv) <==> moves.contains(mv) && keeps_king_safe(
            v,
            player,
            mv,
        ),
    decreases moves.len(),
{
    if moves.len() > 0 {
        let init = moves.drop_last();
        lemma_safe_moves_contains(v, player, init, mv);
        let rest = safe_moves(v, player, init);
        if moves.contains(mv) {
            let i = choose|i: int| 0 <= i < moves.len() && moves[i] == mv;
            if i < moves.len() - 1 {
                assert(init[i] == mv);
            }
        }
        if init.contains(mv) {
            let i = choose|i: int| 0 <= i < init.len() && init[i] == mv;
            assert(moves[i] == mv);
        }
        assert(moves[moves.len() - 1] == moves.last());
        if keeps_king_safe(v, player, moves.last()) {
            let out = rest.push(moves.last());
            assert(out[out.len() - 1] == moves.last());
            if rest.contains(mv) {
                let i = choose|i: int| 0 <= i < rest.len() && rest[i] == mv;
                assert(out[i] == mv);
            }
            if out.contains(mv) {
                let i = choose|i: int| 0 <= i < out.len() && out[i] == mv;
                if i < rest.len() {
                    assert(rest[i] == mv);
                }
            }
        }
    }
}

/// Every legal move, when made, leaves the mover's own king out of check, and
/// the legal moves are exactly the pseudo-legal moves of which that holds.
pub proof fn lemma_legal_moves_keep_king_safe(v: BoardView, player: PlayerId, mv: Move)
    ensures
        legal(v, player).contains(mv) <==> pseudo_legal(v, player).contains(mv) && !in_check(
            successor(v, mv, player),
            player,
        ),
{
    reveal(keeps_king_safe);
    lemma_safe_moves_contains(v, player, pseudo_legal(v, player), mv);
}

/// A side to move that has no legal move is either checkmated or stalemated,
/// never both; with a legal move it is neither.
pub proof fn lemma_no_moves_is_mate_or_stalemate(v: BoardView, player: PlayerId)
    ensures
        legal(v, player).len() == 0 ==> (checkmated(v, player) <==> in_check(v, player)),
        legal(v, player).len() == 0 ==> (stalemated(v, player) <==> !in_check(v, player)),
        legal(v, player).len() == 0 <==> checkmated(v, player) || stalemated(v, player),
        !(checkmated(v, player) && stalemated(v, player)),
{
}

/// The position after `player` has made the move `mv`, on a new board that
/// records the move as its last. Hash and history are carried over unchanged.
pub fn apply_move(board: &Board, mv: &Move, player: PlayerId) -> (next: Board)
    requires
        board.wf(),
    ensures
        next.wf(),
        next@ == successor(board@, *mv, player),
        next.record() == (BoardRecord { last_move: Some(*mv), ..board.record() }),
{
    let mut next = board.clone();
    next.set_last_move(Some(*mv));
    match mv {
        Move::Normal { from, to, promote } => {
            if next.contains(*to) {
                if let Some(piece) = next.remove_piece(*from) {
                    let config = next.get_player_config(piece.owner);
                    if let Some(captured) = next.remove_piece(*to) {
                        if config.keep_captured {
                            next.add_to_hand(piece.owner, captured.unpromoted_kind());
                        }
                    }
                    let moved = match promote {
                        Some(kind) => Piece {
                            kind: *kind,
                            owner: piece.owner,
                            is_shogi: piece.is_shogi,
                        },
                        None => piece,
                    };
                    next.place_piece(*to, moved);
                }
            }
        },
        Move::Drop { kind, to } => {
            if next.contains(*to) {
                if next.remove_from_hand(player, *kind) {
                    next.place_piece(*to, Piece::new(*kind, player));
                }
            }
        },
    }
    next
}

/// Whether one of the moves is a board move that ends on `sq`.
fn any_lands_on(moves: &Vec<Move>, sq: Position) -> (b: bool)
    ensures
        b == some_lands_on(moves@, sq),
{
    let mut i: usize = 0;
    while i < moves.len()
        invariant
            i <= moves@.len(),
            forall|j: int| 0 <= j < i ==> !lands_on(#[trigger] moves@[j], sq),
        decreases moves@.len() - i,
    {
        match moves[i] {
            Move::Normal { to, .. } => {
                if to == sq {
                    return true;
                }
            },
            Move::Drop { .. } => {},
        }
        i += 1;
    }
    false
}

/// Whether some piece of `attacker` has a pseudo-legal move to `sq`.
pub fn is_attacked(board: &Board, attacker: PlayerId, sq: Position) -> (b: bool)
    requires
        board.wf(),
    ensures
        b == attacked(board@, attacker, sq),
{
    proof {
        board.lemma_view_wf();
    }
    let mut y: usize = 0;
    while y < board.height()
        invariant
            board.wf(),
            board@.wf(),
            y <= board@.height,
            forall|q: Position| q.y < y ==> !attacked_from(board@, attacker, q, sq),
        decreases board@.height - y,
    {
        let mut x: usize = 0;
        while x < board.width()
            invariant
                board.wf(),
                board@.wf(),
                y < board@.height,
                x <= board@.width,
                forall|q: Position| q.y < y ==> !attacked_from(board@, attacker, q, sq),
                forall|q: Position| q.y == y && q.x < x ==> !attacked_from(board@, attacker, q, sq),
            decreases board@.width - x,
        {
            let pos = Position::new(x, y);
            if let Some(piece) = board.get_piece(pos) {
                if piece.owner == attacker {
                    let moves = get_piece_moves(board, pos, piece);
                    if any_lands_on(&moves, sq) {
                        proof {
                            assert(attacked_from(board@, attacker, pos, sq));
                        }
                        return true;
                    }
                }
            }
            proof {
                assert(!attacked_from(board@, attacker, pos, sq));
                assert forall|q: Position| q.y == y && q.x < x + 1 implies !attacked_from(
                    board@,
                    attacker,
                    q,
                    sq,
                ) by {
                    if q.x == x {
                        assert(q == pos);
                    }
                }
            }
            x += 1;
        }
        proof {
            assert forall|q: Position| q.y < y + 1 implies !attacked_from(
                board@,
                attacker,
                q,
                sq,
            ) by {
                if q.y == y && q.x >= board@.width {
                    assert(!board@.on_board(q));
                }
            }
        }
        y += 1;
    }
    proof {
        assert forall|q: Position| !attacked_from(board@, attacker, q, sq) by {
            if q.y >= board@.height {
                assert(!board@.on_board(q));
            }
        }
    }
    false
}

/// Whether the king of `player` is attacked.
pub fn is_in_check(board: &Board, player: PlayerId) -> (b: bool)
    requires
        board.wf(),
    ensures
        b == in_check(board@, player),
{
    match board.find_king(player) {
        Some(king) => is_attacked(board, player.opponent(), king),
        None => false,
    }
}

/// The legal moves of a side.
pub fn legal_moves(board: &Board, player: PlayerId) -> (moves: Vec<Move>)
    requires
        board.wf(),
    ensures
        moves@ == legal(board@, player),
        forall|i: int|
            0 <= i < moves@.len() ==> !in_check(
                successor(board@, #[trigger] moves@[i], player),
                player,
            ),
{
    reveal(keeps_king_safe);
    let pseudo = pseudo_legal_moves(board, player);
    let mut moves: Vec<Move> = Vec::new();
    let mut i: usize = 0;
    while i < pseudo.len()
        invariant
            board.wf(),
            i <= pseudo@.len(),
            pseudo@ == pseudo_legal(board@, player),
            moves@ == safe_moves(board@, player, pseudo@.subrange(0, i as int)),
            forall|j: int|
                0 <= j < moves@.len() ==> keeps_king_safe(board@, player, #[trigger] moves@[j]),
        decreases pseudo@.len() - i,
    {
        proof {
            reveal(keeps_king_safe);
            assert(pseudo@.subrange(0, i + 1).drop_last() =~= pseudo@.subrange(0, i as int));
        }
        let mv = pseudo[i];
        let next = apply_move(board, &mv, player);
        if !is_in_check(&next, player) {
            moves.push(mv);
        }
        i += 1;
    }
    proof {
        assert(pseudo@.subrange(0, i as int) =~= pseudo@);
    }
    moves
}

/// Whether `player`, to move, is checkmated.
pub fn is_checkmate(board: &Board, player: PlayerId) -> (b: bool)
    requires
        board.wf(),
    ensures
        b == checkmated(board@, player),
{
    is_in_check(board, player) && legal_moves(board, player).len() == 0
}

/// Whether `player`, to move, is stalemated.
pub fn is_stalemate(board: &Board, player: PlayerId) -> (b: bool)
    requires
        board.wf(),
    ensures
        b == stalemated(board@, player),
{
    !is_in_check(board, player) && legal_moves(board, player).len() == 0
}

} // verus!
