//! The rules of movement, stated for a single move: when the rules allow a
//! move, and that the generator yields exactly the moves that they allow.

use vstd::prelude::*;
use crate::model::board::{BoardView, MAX_SIDE};
use crate::model::mv::Move;
use crate::model::piece::{movement_table, MoveStep, Piece, PieceKind, PIECE_KINDS};
use crate::model::types::{PlayerId, Position};
use super::movegen::{
    board_moves, drop_allowed, entry_moves, hand_drops, in_promotion_zone, kind_drops, last_rank,
    may_land, move_variants, must_promote, pawn_advances, pawn_capture, pawn_start_rank,
    pawn_variants, piece_moves, plain_move, promoting_move, promotion_targets, pseudo_legal,
    rank_drops, rank_moves, shifted, slide_moves, square_moves, step_moves, table_moves,
};
use super::promotion::{
    all_start_on, holds_enemy, lemma_piece_moves_start_on, pawn_reaches, starts_on,
};
use super::rules::{keeps_king_safe, legal, lemma_legal_moves_keep_king_safe};

verus! {

/// The square `k` steps of (`dx`, `dy`) away from `from`, if it lies on the
/// grid.
pub open spec fn ray_square(v: BoardView, from: Position, dx: int, dy: int, k: int) -> Option<
    Position,
> {
    shifted(v, from, k * dx, k * dy)
}

/// Whether the first `k - 1` squares of the ray from `from` in direction
/// (`dx`, `dy`) lie on the grid and are empty.
pub open spec fn free_path(v: BoardView, from: Position, dx: int, dy: int, k: int) -> bool {
    forall|j: int|
        1 <= j < k ==> (#[trigger] ray_square(v, from, dx, dy, j)) is Some && v.piece_at(
            ray_square(v, from, dx, dy, j)->0,
        ) is None
}

/// Whether the entry of a movement table takes the piece from `from` to `to`:
/// a step if `to` is the square at the offset, a ray if `to` is a square of
/// the ray, at most 9 steps away, before which the ray is free; in both cases
/// only if the piece may land on `to`.
pub open spec fn reaches(v: BoardView, from: Position, piece: Piece, entry: MoveStep, to: Position) -> bool {
    match entry {
        MoveStep::Step(dx, dy) => shifted(v, from, dx as int, dy as int) == Some(to) && may_land(
            v,
            piece,
            to,
        ),
        MoveStep::Slide(dx, dy) => exists|k: int|
            1 <= k <= MAX_SIDE && #[trigger] ray_square(v, from, dx as int, dy as int, k) == Some(to)
                && free_path(v, from, dx as int, dy as int, k) && may_land(v, piece, to),
    }
}

/// Whether a table-driven piece that moves from `from` to `to` is offered the
/// promotion `promote`: where the side may promote, the piece has a promoted
/// form and the move touches the promotion zone, it may promote to that form,
/// and it may stay as it is unless promotion is forced; elsewhere it stays
/// as it is.
pub open spec fn offered(
    v: BoardView,
    from: Position,
    to: Position,
    piece: Piece,
    promote: Option<PieceKind>,
) -> bool {
    let may = v.config(piece.owner).can_promote && piece.kind.promoted() is Some && (
    in_promotion_zone(v, piece.owner, to) || in_promotion_zone(v, piece.owner, from));
    match promote {
        Some(k) => may && piece.kind.promoted() == Some(k),
        None => !(may && must_promote(v, piece.kind, piece.owner, to)),
    }
}

/// Whether a chess pawn that arrives on `to` is offered the promotion
/// `promote`: on its last rank one of the promotion targets and nothing
/// else, elsewhere none.
pub open spec fn pawn_offered(v: BoardView, to: Position, owner: PlayerId, promote: Option<PieceKind>) -> bool {
    if to.y == last_rank(v, owner) {
        promote is Some && (promote->0 == PieceKind::C_Queen || promote->0 == PieceKind::C_Rook
            || promote->0 == PieceKind::C_Bishop || promote->0 == PieceKind::C_Knight)
    } else {
        promote is None
    }
}

/// Whether the movement rules allow `player` the move `mv` on `v`, without
/// regard to the safety of the king.
///
/// A board move must start on a piece of the player. A chess pawn must reach
/// the destination as pawns do, and promotes exactly on its last rank. Any
/// other piece must reach the destination by an entry of its movement table,
/// and promotes as it is offered. A drop must be made by a side that may
/// drop, of a kind that it holds, onto an empty square of the grid, and must
/// not bring a second shogi pawn of the side into a file.
pub open spec fn rules_allow(v: BoardView, player: PlayerId, mv: Move) -> bool {
    match mv {
        Move::Normal { from, to, promote } => {
            &&& v.piece_at(from) is Some
            &&& v.piece_at(from)->0.owner == player
            &&& if v.piece_at(from)->0.kind == PieceKind::C_Pawn {
                pawn_reaches(v, from, to, player) && pawn_offered(v, to, player, promote)
            } else {
                (exists|i: int|
                    0 <= i < movement_table(v.piece_at(from)->0.kind, player).len() && reaches(
                        v,
                        from,
                        v.piece_at(from)->0,
                        #[trigger] movement_table(v.piece_at(from)->0.kind, player)[i],
                        to,
                    )) && offered(v, from, to, v.piece_at(from)->0, promote)
            }
        },
        Move::Drop { kind, to } => {
            &&& v.config(player).can_drop
            &&& v.hand_count(player, kind) > 0
            &&& v.on_board(to)
            &&& drop_allowed(v, player, kind, to)
        },
    }
}

/// A move is in a concatenation exactly if it is in one of the parts.
pub proof fn lemma_contains_concat(a: Seq<Move>, b: Seq<Move>, mv: Move)
    ensures
        (a + b).contains(mv) <==> a.contains(mv) || b.contains(mv),
{
    if a.contains(mv) {
        let i = choose|i: int| 0 <= i < a.len() && a[i] == mv;
        assert((a + b)[i] == mv);
    }
    if b.contains(mv) {
        let i = choose|i: int| 0 <= i < b.len() && b[i] == mv;
        assert((a + b)[a.len() + i] == mv);
    }
    if (a + b).contains(mv) {
        let i = choose|i: int| 0 <= i < (a + b).len() && (a + b)[i] == mv;
        if i < a.len() {
            assert(a[i] == mv);
        } else {
            assert(b[i - a.len()] == mv);
        }
    }
}

/// A move is in a list with one more move exactly if it is that move or in
/// the list.
pub proof fn lemma_contains_push(a: Seq<Move>, last: Move, mv: Move)
    ensures
        a.push(last).contains(mv) <==> a.contains(mv) || mv == last,
{
    if a.contains(mv) {
        let i = choose|i: int| 0 <= i < a.len() && a[i] == mv;
        assert(a.push(last)[i] == mv);
    }
    if mv == last {
        assert(a.push(last)[a.len() as int] == mv);
    }
    if a.push(last).contains(mv) {
        let i = choose|i: int| 0 <= i < a.push(last).len() && a.push(last)[i] == mv;
        if i < a.len() {
            assert(a[i] == mv);
        }
    }
}

/// The variants of a move are the moves between the two squares with a
/// promotion that is offered.
pub proof fn lemma_variants_are_the_offered(
    v: BoardView,
    from: Position,
    to: Position,
    piece: Piece,
    mv: Move,
)
    ensures
        move_variants(v, from, to, piece, v.config(piece.owner).can_promote).contains(mv) <==> (
        mv matches Move::Normal { from: f, to: t, promote } && f == from && t == to && offered(
            v,
            from,
            to,
            piece,
            promote,
        )),
{
    let s = move_variants(v, from, to, piece, v.config(piece.owner).can_promote);
    if s.contains(mv) {
        let i = choose|i: int| 0 <= i < s.len() && s[i] == mv;
        assert(s[i] == mv);
    }
    if let Move::Normal { from: f, to: t, promote } = mv {
        if f == from && t == to && offered(v, from, to, piece, promote) {
            if promote is Some {
                assert(s[0] == mv);
            } else {
                assert(s[s.len() - 1] == mv);
            }
        }
    }
}

/// One step further along a ray from the next square is the same as one
/// step more from this square.
proof fn lemma_ray_shift(v: BoardView, curr: Position, next: Position, dx: int, dy: int, j: int)
    requires
        v.wf(),
        shifted(v, curr, dx, dy) == Some(next),
    ensures
        ray_square(v, next, dx, dy, j) == ray_square(v, curr, dx, dy, j + 1),
        ray_square(v, curr, dx, dy, 1) == Some(next),
{
    assert((j + 1) * dx == j * dx + dx) by (nonlinear_arith);
    assert((j + 1) * dy == j * dy + dy) by (nonlinear_arith);
    assert(1 * dx == dx && 1 * dy == dy);
}

/// Whether the ray from `curr` gives the move `mv` at its `k`-th square: the
/// square lies within `fuel` steps on the grid, the ray is free before it,
/// the piece may land on it, and `mv` is a variant of the move to it.
pub open spec fn ray_gives(
    v: BoardView,
    from: Position,
    piece: Piece,
    dx: int,
    dy: int,
    curr: Position,
    fuel: nat,
    mv: Move,
    k: int,
) -> bool {
    &&& 1 <= k <= fuel
    &&& ray_square(v, curr, dx, dy, k) is Some
    &&& free_path(v, curr, dx, dy, k)
    &&& may_land(v, piece, ray_square(v, curr, dx, dy, k)->0)
    &&& move_variants(
        v,
        from,
        ray_square(v, curr, dx, dy, k)->0,
        piece,
        v.config(piece.owner).can_promote,
    ).contains(mv)
}

/// The moves of a ray are the variants of the moves to the squares that the
/// ray reaches.
proof fn lemma_slide_contains(
    v: BoardView,
    from: Position,
    piece: Piece,
    dx: int,
    dy: int,
    curr: Position,
    fuel: nat,
    mv: Move,
)
    requires
        v.wf(),
    ensures
        slide_moves(v, from, piece, dx, dy, curr, fuel).contains(mv) <==> exists|k: int|
            #[trigger] ray_gives(v, from, piece, dx, dy, curr, fuel, mv, k),
    decreases fuel,
{
    let cp = v.config(piece.owner).can_promote;
    let s = slide_moves(v, from, piece, dx, dy, curr, fuel);
    if fuel == 0 {
        assert(!s.contains(mv));
    } else {
        match shifted(v, curr, dx, dy) {
            None => {
                assert(!s.contains(mv));
                assert(1 * dx == dx && 1 * dy == dy);
                assert(ray_square(v, curr, dx, dy, 1) is None);
                assert forall|k: int| !#[trigger] ray_gives(
                    v,
                    from,
                    piece,
                    dx,
                    dy,
                    curr,
                    fuel,
                    mv,
                    k,
                ) by {
                    if ray_gives(v, from, piece, dx, dy, curr, fuel, mv, k) && k > 1 {
                        assert(ray_square(v, curr, dx, dy, 1) is Some);
                    }
                }
            },
            Some(next) => {
                lemma_ray_shift(v, curr, next, dx, dy, 0);
                let here = if may_land(v, piece, next) {
                    move_variants(v, from, next, piece, cp)
                } else {
                    Seq::empty()
                };
                let less = (fuel - 1) as nat;
                let tail = slide_moves(v, from, piece, dx, dy, next, less);
                lemma_slide_contains(v, from, piece, dx, dy, next, less, mv);
                lemma_contains_concat(here, tail, mv);
                if s.contains(mv) {
                    if here.contains(mv) {
                        assert(ray_gives(v, from, piece, dx, dy, curr, fuel, mv, 1));
                    } else {
                        assert(v.piece_at(next) is None);
                        assert(tail.contains(mv));
                        let k1 = choose|k: int|
                            #[trigger] ray_gives(v, from, piece, dx, dy, next, less, mv, k);
                        lemma_ray_shift(v, curr, next, dx, dy, k1);
                        assert forall|j: int| 1 <= j < k1 + 1 implies (#[trigger] ray_square(
                            v,
                            curr,
                            dx,
                            dy,
                            j,
                        )) is Some && v.piece_at(ray_square(v, curr, dx, dy, j)->0) is None by {
                            if j > 1 {
                                lemma_ray_shift(v, curr, next, dx, dy, j - 1);
                                assert(ray_square(v, next, dx, dy, j - 1) is Some);
                            }
                        }
                        assert(ray_gives(v, from, piece, dx, dy, curr, fuel, mv, k1 + 1));
                    }
                }
                if exists|k: int| #[trigger] ray_gives(v, from, piece, dx, dy, curr, fuel, mv, k) {
                    let k = choose|k: int|
                        #[trigger] ray_gives(v, from, piece, dx, dy, curr, fuel, mv, k);
                    if k == 1 {
                        assert(here.contains(mv));
                    } else {
                        assert(ray_square(v, curr, dx, dy, 1) is Some);
                        assert(v.piece_at(next) is None);
                        lemma_ray_shift(v, curr, next, dx, dy, k - 1);
                        assert forall|j: int| 1 <= j < k - 1 implies (#[trigger] ray_square(
                            v,
                            next,
                            dx,
                            dy,
                            j,
                        )) is Some && v.piece_at(ray_square(v, next, dx, dy, j)->0) is None by {
                            lemma_ray_shift(v, curr, next, dx, dy, j);
                            assert(ray_square(v, curr, dx, dy, j + 1) is Some);
                        }
                        assert(ray_gives(v, from, piece, dx, dy, next, less, mv, k - 1));
                        assert(tail.contains(mv));
                    }
                    assert(s.contains(mv));
                }
            },
        }
    }
}

/// The moves of an entry of a movement table are the offered variants of
/// the moves to the squares that the entry reaches.
proof fn lemma_entry_contains(v: BoardView, from: Position, piece: Piece, entry: MoveStep, mv: Move)
    requires
        v.wf(),
    ensures
        entry_moves(v, from, piece, entry).contains(mv) <==> (mv matches Move::Normal {
            from: f,
            to,
            promote,
        } && f == from && reaches(v, from, piece, entry, to) && offered(v, from, to, piece, promote)),
{
    let cp = v.config(piece.owner).can_promote;
    match entry {
        MoveStep::Step(dx, dy) => {
            if let Some(to) = shifted(v, from, dx as int, dy as int) {
                lemma_variants_are_the_offered(v, from, to, piece, mv);
            }
            if let Move::Normal { from: f, to, promote } = mv {
                lemma_variants_are_the_offered(v, from, to, piece, mv);
            }
        },
        MoveStep::Slide(dx, dy) => {
            lemma_slide_contains(v, from, piece, dx as int, dy as int, from, MAX_SIDE as nat, mv);
            let s = entry_moves(v, from, piece, entry);
            if s.contains(mv) {
                let k = choose|k: int|
                    #[trigger] ray_gives(
                        v,
                        from,
                        piece,
                        dx as int,
                        dy as int,
                        from,
                        MAX_SIDE as nat,
                        mv,
                        k,
                    );
                let t = ray_square(v, from, dx as int, dy as int, k)->0;
                lemma_variants_are_the_offered(v, from, t, piece, mv);
                assert(ray_square(v, from, dx as int, dy as int, k) == Some(t));
            }
            if let Move::Normal { from: f, to, promote } = mv {
                if f == from && reaches(v, from, piece, entry, to) && offered(
                    v,
                    from,
                    to,
                    piece,
                    promote,
                ) {
                    let k = choose|k: int|
                        1 <= k <= MAX_SIDE && #[trigger] ray_square(
                            v,
                            from,
                            dx as int,
                            dy as int,
                            k,
                        ) == Some(to) && free_path(v, from, dx as int, dy as int, k) && may_land(
                            v,
                            piece,
                            to,
                        );
                    lemma_variants_are_the_offered(v, from, to, piece, mv);
                    assert(ray_gives(
                        v,
                        from,
                        piece,
                        dx as int,
                        dy as int,
                        from,
                        MAX_SIDE as nat,
                        mv,
                        k,
                    ));
                }
            }
        },
    }
}

/// The moves of a movement table are the moves of its entries.
proof fn lemma_table_contains(
    v: BoardView,
    from: Position,
    piece: Piece,
    table: Seq<MoveStep>,
    mv: Move,
)
    requires
        v.wf(),
    ensures
        table_moves(v, from, piece, table).contains(mv) <==> (mv matches Move::Normal {
            from: f,
            to,
            promote,
        } && f == from && (exists|i: int|
            0 <= i < table.len() && reaches(v, from, piece, #[trigger] table[i], to)) && offered(
            v,
            from,
            to,
            piece,
            promote,
        )),
    decreases table.len(),
{
    if table.len() == 0 {
        assert(!table_moves(v, from, piece, table).contains(mv));
    } else {
        let init = table.drop_last();
        lemma_table_contains(v, from, piece, init, mv);
        lemma_entry_contains(v, from, piece, table.last(), mv);
        lemma_contains_concat(
            table_moves(v, from, piece, init),
            entry_moves(v, from, piece, table.last()),
            mv,
        );
        if let Move::Normal { from: f, to, promote } = mv {
            if exists|i: int| 0 <= i < init.len() && reaches(v, from, piece, #[trigger] init[i], to) {
                let i = choose|i: int|
                    0 <= i < init.len() && reaches(v, from, piece, #[trigger] init[i], to);
                assert(table[i] == init[i]);
            }
            if reaches(v, from, piece, table.last(), to) {
                assert(table[table.len() - 1] == table.last());
            }
            if exists|i: int|
                0 <= i < table.len() && reaches(v, from, piece, #[trigger] table[i], to) {
                let i = choose|i: int|
                    0 <= i < table.len() && reaches(v, from, piece, #[trigger] table[i], to);
                if i < init.len() {
                    assert(init[i] == table[i]);
                } else {
                    assert(table[i] == table.last());
                }
            }
        }
    }
}

/// The variants of a pawn move are the moves between the two squares with a
/// promotion that the pawn is offered.
proof fn lemma_pawn_variants_contains(v: BoardView, from: Position, to: Position, owner: PlayerId, mv: Move)
    ensures
        pawn_variants(v, from, to, owner).contains(mv) <==> (mv matches Move::Normal {
            from: f,
            to: t,
            promote,
        } && f == from && t == to && pawn_offered(v, to, owner, promote)),
{
    let s = pawn_variants(v, from, to, owner);
    if s.contains(mv) {
        let i = choose|i: int| 0 <= i < s.len() && s[i] == mv;
        assert(s[i] == mv);
    }
    if let Move::Normal { from: f, to: t, promote } = mv {
        if f == from && t == to && pawn_offered(v, to, owner, promote) {
            if to.y == last_rank(v, owner) {
                let k = promote->0;
                if k == PieceKind::C_Queen {
                    assert(s[0] == mv);
                } else if k == PieceKind::C_Rook {
                    assert(s[1] == mv);
                } else if k == PieceKind::C_Bishop {
                    assert(s[2] == mv);
                } else {
                    assert(s[3] == mv);
                }
            } else {
                assert(s[0] == mv);
            }
        }
    }
}

/// The moves of a chess pawn are the offered variants of the moves to the
/// squares that it reaches.
proof fn lemma_pawn_contains(v: BoardView, from: Position, piece: Piece, mv: Move)
    requires
        v.wf(),
        piece.kind == PieceKind::C_Pawn,
    ensures
        piece_moves(v, from, piece).contains(mv) <==> (mv matches Move::Normal {
            from: f,
            to,
            promote,
        } && f == from && pawn_reaches(v, from, to, piece.owner) && pawn_offered(
            v,
            to,
            piece.owner,
            promote,
        )),
{
    let owner = piece.owner;
    let f = owner.forward();
    let adv = pawn_advances(v, from, owner);
    let left = pawn_capture(v, from, owner, -1);
    let right = pawn_capture(v, from, owner, 1);
    lemma_contains_concat(adv, left, mv);
    lemma_contains_concat(adv + left, right, mv);
    let none = Seq::<Move>::empty();
    assert(!none.contains(mv));
    if let Some(t1) = shifted(v, from, 0, f) {
        lemma_pawn_variants_contains(v, from, t1, owner, mv);
        if v.piece_at(t1) is None {
            let near = pawn_variants(v, from, t1, owner);
            let far = if from.y == pawn_start_rank(owner) {
                match shifted(v, from, 0, 2 * f) {
                    Some(to2) => if v.piece_at(to2) is None {
                        pawn_variants(v, from, to2, owner)
                    } else {
                        Seq::empty()
                    },
                    None => Seq::empty(),
                }
            } else {
                Seq::empty()
            };
            lemma_contains_concat(near, far, mv);
            if let Some(t2) = shifted(v, from, 0, 2 * f) {
                lemma_pawn_variants_contains(v, from, t2, owner, mv);
            }
        }
    }
    if let Some(tl) = shifted(v, from, -1, f) {
        lemma_pawn_variants_contains(v, from, tl, owner, mv);
    }
    if let Some(tr) = shifted(v, from, 1, f) {
        lemma_pawn_variants_contains(v, from, tr, owner, mv);
    }
}

/// The pseudo-legal moves of the piece on `from` are the moves from `from`
/// that the rules allow its owner.
pub proof fn lemma_piece_moves_are_the_allowed(v: BoardView, from: Position, piece: Piece, mv: Move)
    requires
        v.wf(),
        v.piece_at(from) == Some(piece),
    ensures
        piece_moves(v, from, piece).contains(mv) <==> starts_on(mv, from) && rules_allow(
            v,
            piece.owner,
            mv,
        ),
{
    if piece.kind == PieceKind::C_Pawn {
        lemma_pawn_contains(v, from, piece, mv);
    } else {
        lemma_table_contains(v, from, piece, movement_table(piece.kind, piece.owner), mv);
    }
}

proof fn lemma_rank_contains(v: BoardView, player: PlayerId, y: nat, x: nat, mv: Move)
    requires
        v.wf(),
        y <= usize::MAX,
        x <= usize::MAX,
    ensures
        rank_moves(v, player, y, x).contains(mv) <==> (mv matches Move::Normal { from, .. }
            && from.y == y && from.x < x && rules_allow(v, player, mv)),
    decreases x,
{
    if x == 0 {
        assert(!rank_moves(v, player, y, x).contains(mv));
    } else {
        let p = Position { x: (x - 1) as usize, y: y as usize };
        lemma_rank_contains(v, player, y, (x - 1) as nat, mv);
        lemma_contains_concat(
            rank_moves(v, player, y, (x - 1) as nat),
            square_moves(v, player, p),
            mv,
        );
        let sq = square_moves(v, player, p);
        if v.piece_at(p) is Some && v.piece_at(p)->0.owner == player {
            lemma_piece_moves_are_the_allowed(v, p, v.piece_at(p)->0, mv);
        } else {
            assert(!sq.contains(mv));
        }
    }
}

proof fn lemma_board_contains(v: BoardView, player: PlayerId, y: nat, mv: Move)
    requires
        v.wf(),
        y <= v.height,
    ensures
        board_moves(v, player, y).contains(mv) <==> (mv matches Move::Normal { from, .. } && from.y
            < y && rules_allow(v, player, mv)),
    decreases y,
{
    if y == 0 {
        assert(!board_moves(v, player, y).contains(mv));
    } else {
        lemma_board_contains(v, player, (y - 1) as nat, mv);
        lemma_rank_contains(v, player, (y - 1) as nat, v.width, mv);
        lemma_contains_concat(
            board_moves(v, player, (y - 1) as nat),
            rank_moves(v, player, (y - 1) as nat, v.width),
            mv,
        );
        if let Move::Normal { from, .. } = mv {
            if rules_allow(v, player, mv) {
                assert(v.on_board(from));
            }
        }
    }
}

proof fn lemma_rank_drops_contains(
    v: BoardView,
    player: PlayerId,
    kind: PieceKind,
    y: nat,
    x: nat,
    mv: Move,
)
    requires
        y <= usize::MAX,
        x <= usize::MAX,
    ensures
        rank_drops(v, player, kind, y, x).contains(mv) <==> (mv matches Move::Drop { kind: k, to }
            && k == kind && to.y == y && to.x < x && drop_allowed(v, player, kind, to)),
    decreases x,
{
    if x == 0 {
        assert(!rank_drops(v, player, kind, y, x).contains(mv));
    } else {
        lemma_rank_drops_contains(v, player, kind, y, (x - 1) as nat, mv);
        let to = Position { x: (x - 1) as usize, y: y as usize };
        let rest = rank_drops(v, player, kind, y, (x - 1) as nat);
        lemma_contains_push(rest, Move::Drop { kind, to }, mv);
    }
}

proof fn lemma_kind_drops_contains(v: BoardView, player: PlayerId, kind: PieceKind, y: nat, mv: Move)
    requires
        v.wf(),
        y <= v.height,
    ensures
        kind_drops(v, player, kind, y).contains(mv) <==> (mv matches Move::Drop { kind: k, to }
            && k == kind && to.y < y && to.x < v.width && drop_allowed(v, player, kind, to)),
    decreases y,
{
    if y == 0 {
        assert(!kind_drops(v, player, kind, y).contains(mv));
    } else {
        lemma_kind_drops_contains(v, player, kind, (y - 1) as nat, mv);
        lemma_rank_drops_contains(v, player, kind, (y - 1) as nat, v.width, mv);
        lemma_contains_concat(
            kind_drops(v, player, kind, (y - 1) as nat),
            rank_drops(v, player, kind, (y - 1) as nat, v.width),
            mv,
        );
    }
}

proof fn lemma_hand_drops_contains(v: BoardView, player: PlayerId, k: nat, mv: Move)
    requires
        v.wf(),
        k <= PIECE_KINDS,
    ensures
        hand_drops(v, player, k).contains(mv) <==> (mv matches Move::Drop { kind, to }
            && kind.index() < k && v.hand_count(player, kind) > 0 && v.on_board(to) && drop_allowed(
            v,
            player,
            kind,
            to,
        )),
    decreases k,
{
    if k == 0 {
        assert(!hand_drops(v, player, k).contains(mv));
    } else {
        lemma_hand_drops_contains(v, player, (k - 1) as nat, mv);
        let kind = PieceKind::at(k - 1);
        assert(kind.index() == k - 1);
        lemma_kind_drops_contains(v, player, kind, v.height, mv);
        lemma_contains_concat(
            hand_drops(v, player, (k - 1) as nat),
            kind_drops(v, player, kind, v.height),
            mv,
        );
        if let Move::Drop { kind: d, to } = mv {
            if d.index() == k - 1 {
                assert(d == kind);
            }
        }
    }
}

/// The generator yields exactly the moves that the rules allow: a move is
/// pseudo-legal for a side exactly if the movement rules allow the side the
/// move, and legal exactly if, besides, it leaves the side's king safe.
pub proof fn lemma_generated_moves_are_the_allowed(v: BoardView, player: PlayerId, mv: Move)
    requires
        v.wf(),
    ensures
        pseudo_legal(v, player).contains(mv) <==> rules_allow(v, player, mv),
        legal(v, player).contains(mv) <==> rules_allow(v, player, mv) && keeps_king_safe(
            v,
            player,
            mv,
        ),
{
    lemma_board_contains(v, player, v.height, mv);
    lemma_hand_drops_contains(v, player, PIECE_KINDS as nat, mv);
    lemma_contains_concat(
        board_moves(v, player, v.height),
        hand_drops(v, player, PIECE_KINDS as nat),
        mv,
    );
    lemma_legal_moves_keep_king_safe(v, player, mv);
    reveal(keeps_king_safe);
    if let Move::Normal { from, .. } = mv {
        if rules_allow(v, player, mv) {
            assert(v.on_board(from));
        }
    }
}

} // verus!
