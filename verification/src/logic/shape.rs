//! What move generation and check detection read of a position: which
//! squares are occupied and by whom, not by what.

use vstd::prelude::*;
use crate::model::board::{lemma_first_king_unique, precedes, BoardView, MAX_SIDE};
use crate::model::mv::Move;
use crate::model::piece::{movement_table, MoveStep, Piece, PieceKind};
use crate::model::types::{PlayerId, Position};
use super::movegen::{
    chess_pawn_moves, entry_moves, may_land, move_variants, pawn_advances, pawn_capture,
    pawn_variants, piece_moves, shifted, slide_moves, step_moves, table_moves,
};
use super::rules::{attacked, attacked_from, in_check, some_lands_on};

verus! {

/// Whether two positions have the same grid, the same capabilities, and on
/// every square either both no piece or both a piece of the same owner.
pub open spec fn same_shape(a: BoardView, b: BoardView) -> bool {
    &&& a.width == b.width
    &&& a.height == b.height
    &&& a.configs == b.configs
    &&& forall|q: Position|
        (#[trigger] a.piece_at(q) is Some) == (b.piece_at(q) is Some) && (a.piece_at(q) is Some
            ==> a.piece_at(q)->0.owner == b.piece_at(q)->0.owner)
}

/// Where a piece may land depends on the shape alone.
pub proof fn lemma_may_land_same(a: BoardView, b: BoardView, piece: Piece, to: Position)
    requires
        same_shape(a, b),
    ensures
        may_land(a, piece, to) == may_land(b, piece, to),
{
    assert((a.piece_at(to) is Some) == (b.piece_at(to) is Some));
}

/// The moves of a ray depend on the shape alone.
pub proof fn lemma_slide_same(
    a: BoardView,
    b: BoardView,
    from: Position,
    piece: Piece,
    dx: int,
    dy: int,
    curr: Position,
    fuel: nat,
)
    requires
        same_shape(a, b),
    ensures
        slide_moves(a, from, piece, dx, dy, curr, fuel) == slide_moves(
            b,
            from,
            piece,
            dx,
            dy,
            curr,
            fuel,
        ),
    decreases fuel,
{
    if fuel > 0 {
        if let Some(to) = shifted(a, curr, dx, dy) {
            lemma_may_land_same(a, b, piece, to);
            lemma_slide_same(a, b, from, piece, dx, dy, to, (fuel - 1) as nat);
        }
    }
}

/// The moves of a movement table depend on the shape alone.
pub proof fn lemma_table_same(
    a: BoardView,
    b: BoardView,
    from: Position,
    piece: Piece,
    table: Seq<MoveStep>,
)
    requires
        same_shape(a, b),
    ensures
        table_moves(a, from, piece, table) == table_moves(b, from, piece, table),
    decreases table.len(),
{
    if table.len() > 0 {
        lemma_table_same(a, b, from, piece, table.drop_last());
        match table.last() {
            MoveStep::Step(dx, dy) => {
                if let Some(to) = shifted(a, from, dx as int, dy as int) {
                    lemma_may_land_same(a, b, piece, to);
                }
            },
            MoveStep::Slide(dx, dy) => {
                lemma_slide_same(a, b, from, piece, dx as int, dy as int, from, MAX_SIDE as nat);
            },
        }
    }
}

/// The pseudo-legal moves of a piece depend on the shape of the position
/// alone, not on the kinds of the other pieces.
pub proof fn lemma_piece_moves_same(a: BoardView, b: BoardView, from: Position, piece: Piece)
    requires
        same_shape(a, b),
    ensures
        piece_moves(a, from, piece) == piece_moves(b, from, piece),
{
    if piece.kind == PieceKind::C_Pawn {
        let owner = piece.owner;
        let f = owner.forward();
        assert(pawn_advances(a, from, owner) == pawn_advances(b, from, owner)) by {
            if let Some(to) = shifted(a, from, 0, f) {
                assert((a.piece_at(to) is Some) == (b.piece_at(to) is Some));
                if let Some(to2) = shifted(a, from, 0, 2 * f) {
                    assert((a.piece_at(to2) is Some) == (b.piece_at(to2) is Some));
                }
            }
        }
        assert(pawn_capture(a, from, owner, -1) == pawn_capture(b, from, owner, -1)) by {
            if let Some(to) = shifted(a, from, -1, f) {
                assert((a.piece_at(to) is Some) == (b.piece_at(to) is Some));
            }
        }
        assert(pawn_capture(a, from, owner, 1) == pawn_capture(b, from, owner, 1)) by {
            if let Some(to) = shifted(a, from, 1, f) {
                assert((a.piece_at(to) is Some) == (b.piece_at(to) is Some));
            }
        }
    } else {
        lemma_table_same(a, b, from, piece, movement_table(piece.kind, piece.owner));
    }
}

/// Whether two positions are the same but for the kind of the piece on `sq`,
/// which belongs to `player` and is a king in neither.
pub open spec fn differ_in_kind_at(a: BoardView, b: BoardView, sq: Position, player: PlayerId) -> bool {
    &&& a.width == b.width
    &&& a.height == b.height
    &&& a.configs == b.configs
    &&& forall|q: Position| q != sq ==> #[trigger] a.piece_at(q) == b.piece_at(q)
    &&& (a.piece_at(sq) is Some) == (b.piece_at(sq) is Some)
    &&& a.piece_at(sq) is Some ==> {
        &&& a.piece_at(sq)->0.owner == player
        &&& b.piece_at(sq)->0.owner == player
        &&& !a.piece_at(sq)->0.kind.is_king()
        &&& !b.piece_at(sq)->0.kind.is_king()
    }
}

/// One direction of the statement below.
proof fn lemma_check_carries_over(a: BoardView, b: BoardView, sq: Position, player: PlayerId)
    requires
        differ_in_kind_at(a, b, sq, player),
        in_check(a, player),
    ensures
        in_check(b, player),
{
    let king = a.king_square(player)->0;
    assert(a.king_square(player) is Some);
    assert(exists|p: Position| a.holds_king(p, player));
    let c = choose|p: Position|
        a.holds_king(p, player) && forall|q: Position| a.holds_king(q, player) ==> !precedes(q, p);
    let w = choose|p: Position| a.holds_king(p, player);
    // a first king exists: among at most 81 squares the earliest one
    lemma_first_king_exists(a, player, w);
    assert(c == king);
    assert(a.holds_king(king, player));
    assert(king != sq);
    assert(a.piece_at(king) == b.piece_at(king));
    assert(b.holds_king(king, player));
    assert forall|q: Position| b.holds_king(q, player) implies !precedes(q, king) by {
        if q != sq {
            assert(a.piece_at(q) == b.piece_at(q));
            assert(a.holds_king(q, player));
        }
    }
    lemma_first_king_unique(b, player, king);
    let enemy = player.other();
    let origin = choose|origin: Position| attacked_from(a, enemy, origin, king);
    assert(attacked_from(a, enemy, origin, king));
    assert(origin != sq);
    assert(a.piece_at(origin) == b.piece_at(origin));
    let piece = a.piece_at(origin)->0;
    assert(same_shape(a, b)) by {
        assert forall|q: Position|
            (#[trigger] a.piece_at(q) is Some) == (b.piece_at(q) is Some) && (a.piece_at(q)
                is Some ==> a.piece_at(q)->0.owner == b.piece_at(q)->0.owner) by {
            if q != sq {
                assert(a.piece_at(q) == b.piece_at(q));
            }
        }
    }
    lemma_piece_moves_same(a, b, origin, piece);
    assert(attacked_from(b, enemy, origin, king));
}

/// Where a side has a king, it has a first king in reading order.
pub proof fn lemma_first_king_exists(v: BoardView, player: PlayerId, w: Position)
    requires
        v.holds_king(w, player),
    ensures
        exists|p: Position|
            v.holds_king(p, player) && forall|q: Position|
                v.holds_king(q, player) ==> !precedes(q, p),
    decreases w.y, w.x,
{
    if exists|q: Position| v.holds_king(q, player) && precedes(q, w) {
        let q = choose|q: Position| v.holds_king(q, player) && precedes(q, w);
        lemma_first_king_exists(v, player, q);
    } else {
        assert(v.holds_king(w, player) && forall|q: Position|
            v.holds_king(q, player) ==> !precedes(q, w));
    }
}

/// Whether a side is in check does not depend on the kind of one of its own
/// pieces, as long as that piece is no king.
pub proof fn lemma_check_ignores_own_kind(a: BoardView, b: BoardView, sq: Position, player: PlayerId)
    requires
        differ_in_kind_at(a, b, sq, player),
    ensures
        in_check(a, player) == in_check(b, player),
{
    if in_check(a, player) {
        lemma_check_carries_over(a, b, sq, player);
    }
    if in_check(b, player) {
        assert(differ_in_kind_at(b, a, sq, player)) by {
            assert forall|q: Position| q != sq implies #[trigger] b.piece_at(q) == a.piece_at(
                q,
            ) by {
                assert(a.piece_at(q) == b.piece_at(q));
            }
        }
        lemma_check_carries_over(b, a, sq, player);
    }
}

} // verus!
