//! What the move generator guarantees about promotion on the last rank.

use vstd::prelude::*;
use crate::model::board::{BoardView, MAX_SIDE};
use crate::model::mv::Move;
use crate::model::piece::{movement_table, step, slide, MoveStep, Piece, PieceKind, PIECE_KINDS};
use crate::model::types::{PlayerId, Position};
use super::movegen::{
    board_moves, chess_pawn_moves, entry_moves, hand_drops, in_promotion_zone, kind_drops,
    last_rank, may_land, move_variants, must_promote, pawn_advances, pawn_capture,
    pawn_start_rank, pawn_variants,
    piece_moves, plain_move, promoting_move, promotion_targets, pseudo_legal, rank_drops,
    rank_moves, shifted, slide_moves, square_moves, step_moves, table_moves,
};
use super::rules::{keeps_king_safe, legal, lemma_successor_wf, safe_moves, successor};
use super::shape::{differ_in_kind_at, lemma_check_ignores_own_kind};

verus! {

/// Whether a move is a board move from `from` to `to`.
pub open spec fn travels(mv: Move, from: Position, to: Position) -> bool {
    match mv {
        Move::Normal { from: f, to: t, .. } => f == from && t == to,
        Move::Drop { .. } => false,
    }
}

/// A choice among the board moves between two squares.
pub enum Pick {
    /// Every such move.
    Any,
    /// The move that does not promote.
    Plain,
    /// The move that promotes to the given kind.
    Promoting(PieceKind),
}

/// Whether a move is a board move from `from` to `to` of the asked kind.
pub open spec fn selected(mv: Move, from: Position, to: Position, which: Pick) -> bool {
    travels(mv, from, to) && match which {
        Pick::Any => true,
        Pick::Plain => mv == plain_move(from, to),
        Pick::Promoting(kind) => mv == promoting_move(from, to, kind),
    }
}

/// Whether a move is a board move that starts on `from`.
pub open spec fn starts_on(mv: Move, from: Position) -> bool {
    match mv {
        Move::Normal { from: f, .. } => f == from,
        Move::Drop { .. } => false,
    }
}

/// How many of the moves are board moves from `from` to `to` of the asked kind.
pub open spec fn count_moves(moves: Seq<Move>, from: Position, to: Position, which: Pick) -> nat
    decreases moves.len(),
{
    if moves.len() == 0 {
        0
    } else {
        count_moves(moves.drop_last(), from, to, which) + if selected(moves.last(), from, to, which) {
            1nat
        } else {
            0nat
        }
    }
}

/// Counting over a concatenation adds up.
pub proof fn lemma_count_concat(a: Seq<Move>, b: Seq<Move>, from: Position, to: Position, which: Pick)
    ensures
        count_moves(a + b, from, to, which) == count_moves(a, from, to, which) + count_moves(b, from, to, which),
    decreases b.len(),
{
    if b.len() == 0 {
        assert(a + b =~= a);
    } else {
        assert((a + b).drop_last() =~= a + b.drop_last());
        assert((a + b).last() == b.last());
        lemma_count_concat(a, b.drop_last(), from, to, which);
    }
}

/// A list without a board move from `from` to `to` counts none.
pub proof fn lemma_count_none(a: Seq<Move>, from: Position, to: Position, which: Pick)
    requires
        forall|i: int| 0 <= i < a.len() ==> !selected(#[trigger] a[i], from, to, which),
    ensures
        count_moves(a, from, to, which) == 0,
    decreases a.len(),
{
    if a.len() > 0 {
        assert forall|i: int| 0 <= i < a.drop_last().len() implies !selected(
            #[trigger] a.drop_last()[i],
            from,
            to,
            which,
        ) by {
            assert(a.drop_last()[i] == a[i]);
        }
        lemma_count_none(a.drop_last(), from, to, which);
        assert(a.last() == a[a.len() - 1]);
    }
}

/// A list counts at least one for each of its members that travels so.
pub proof fn lemma_count_positive(a: Seq<Move>, from: Position, to: Position, which: Pick, i: int)
    requires
        0 <= i < a.len(),
        selected(a[i], from, to, which),
    ensures
        count_moves(a, from, to, which) >= 1,
    decreases a.len(),
{
    if i < a.len() - 1 {
        assert(a.drop_last()[i] == a[i]);
        lemma_count_positive(a.drop_last(), from, to, which, i);
    } else {
        assert(a.last() == a[i]);
    }
}

/// Whether every move of the list is a board move that starts on `from`.
pub open spec fn all_start_on(moves: Seq<Move>, from: Position) -> bool {
    forall|i: int| 0 <= i < moves.len() ==> starts_on(#[trigger] moves[i], from)
}

/// Two lists of moves from one square make one such list.
pub proof fn lemma_all_start_on_concat(a: Seq<Move>, b: Seq<Move>, from: Position)
    requires
        all_start_on(a, from),
        all_start_on(b, from),
    ensures
        all_start_on(a + b, from),
{
    assert forall|i: int| 0 <= i < (a + b).len() implies starts_on(#[trigger] (a + b)[i], from) by {
        if i < a.len() {
            assert((a + b)[i] == a[i]);
        } else {
            assert((a + b)[i] == b[i - a.len()]);
        }
    }
}

/// Every variant of a table-driven move starts on `from`.
pub proof fn lemma_variants_start_on(
    v: BoardView,
    from: Position,
    to: Position,
    piece: Piece,
    can_promote: bool,
)
    ensures
        all_start_on(move_variants(v, from, to, piece, can_promote), from),
{
}

/// Every move of a ray starts on the origin of the ray.
pub proof fn lemma_slide_starts_on(
    v: BoardView,
    from: Position,
    piece: Piece,
    dx: int,
    dy: int,
    curr: Position,
    fuel: nat,
)
    ensures
        all_start_on(slide_moves(v, from, piece, dx, dy, curr, fuel), from),
    decreases fuel,
{
    if fuel > 0 {
        if let Some(to) = shifted(v, curr, dx, dy) {
            let here = if may_land(v, piece, to) {
                move_variants(v, from, to, piece, v.config(piece.owner).can_promote)
            } else {
                Seq::empty()
            };
            lemma_variants_start_on(v, from, to, piece, v.config(piece.owner).can_promote);
            lemma_slide_starts_on(v, from, piece, dx, dy, to, (fuel - 1) as nat);
            lemma_all_start_on_concat(
                here,
                slide_moves(v, from, piece, dx, dy, to, (fuel - 1) as nat),
                from,
            );
        }
    }
}

/// Every move of a movement table starts on the square of the piece.
pub proof fn lemma_table_starts_on(v: BoardView, from: Position, piece: Piece, table: Seq<MoveStep>)
    ensures
        all_start_on(table_moves(v, from, piece, table), from),
    decreases table.len(),
{
    if table.len() > 0 {
        lemma_table_starts_on(v, from, piece, table.drop_last());
        match table.last() {
            MoveStep::Step(dx, dy) => {
                if let Some(to) = shifted(v, from, dx as int, dy as int) {
                    lemma_variants_start_on(v, from, to, piece, v.config(piece.owner).can_promote);
                }
            },
            MoveStep::Slide(dx, dy) => {
                lemma_slide_starts_on(v, from, piece, dx as int, dy as int, from, MAX_SIDE as nat);
            },
        }
        lemma_all_start_on_concat(
            table_moves(v, from, piece, table.drop_last()),
            entry_moves(v, from, piece, table.last()),
            from,
        );
    }
}

/// Every pseudo-legal move of a piece is a board move that starts on its square.
pub proof fn lemma_piece_moves_start_on(v: BoardView, from: Position, piece: Piece)
    ensures
        all_start_on(piece_moves(v, from, piece), from),
{
    if piece.kind == PieceKind::C_Pawn {
        let owner = piece.owner;
        let a = pawn_advances(v, from, owner);
        let b = pawn_capture(v, from, owner, -1);
        let c = pawn_capture(v, from, owner, 1);
        assert(all_start_on(a, from)) by {
            let f = owner.forward();
            if let Some(to) = shifted(v, from, 0, f) {
                if v.piece_at(to) is None {
                    let near = pawn_variants(v, from, to, owner);
                    assert(all_start_on(near, from));
                    if let Some(to2) = shifted(v, from, 0, 2 * f) {
                        assert(all_start_on(pawn_variants(v, from, to2, owner), from));
                    }
                    let far = if from.y == pawn_start_rank(owner) {
                        match shifted(v, from, 0, 2 * f) {
                            Some(to2) => if v.piece_at(to2) is None {
                                pawn_variants(v, from, to2, owner)
                            } else {
                                Seq::empty()
                            },
                            None => Seq::empty(),
                        }
                    } else {
                        Seq::empty()
                    };
                    lemma_all_start_on_concat(near, far, from);
                }
            }
        }
        assert(all_start_on(b, from)) by {
            if let Some(to) = shifted(v, from, -1, owner.forward()) {
                assert(all_start_on(pawn_variants(v, from, to, owner), from));
            }
        }
        assert(all_start_on(c, from)) by {
            if let Some(to) = shifted(v, from, 1, owner.forward()) {
                assert(all_start_on(pawn_variants(v, from, to, owner), from));
            }
        }
        lemma_all_start_on_concat(a, b, from);
        lemma_all_start_on_concat(a + b, c, from);
    } else {
        lemma_table_starts_on(v, from, piece, movement_table(piece.kind, piece.owner));
    }
}

/// Among the board moves of the first `x` squares of rank `y`, those from
/// `from` to `to` are the ones that the square `from` itself contributes.
pub proof fn lemma_rank_count(
    v: BoardView,
    player: PlayerId,
    y: nat,
    x: nat,
    from: Position,
    to: Position,
    which: Pick,
)
    requires
        y <= usize::MAX,
        x <= usize::MAX,
    ensures
        count_moves(rank_moves(v, player, y, x), from, to, which) == if from.y == y && from.x < x {
            count_moves(square_moves(v, player, from), from, to, which)
        } else {
            0
        },
    decreases x,
{
    if x > 0 {
        let p = Position { x: (x - 1) as usize, y: y as usize };
        lemma_rank_count(v, player, y, (x - 1) as nat, from, to, which);
        lemma_count_concat(
            rank_moves(v, player, y, (x - 1) as nat),
            square_moves(v, player, p),
            from,
            to,
            which,
        );
        if p != from {
            let sq = square_moves(v, player, p);
            if v.piece_at(p) is Some {
                lemma_piece_moves_start_on(v, p, v.piece_at(p)->0);
            }
            assert forall|i: int| 0 <= i < sq.len() implies !selected(#[trigger] sq[i], from, to, which) by {
                assert(starts_on(sq[i], p));
            }
            lemma_count_none(sq, from, to, which);
        }
    }
}

/// Among the board moves of the first `y` ranks, those from `from` to `to` are
/// the ones that the square `from` itself contributes.
pub proof fn lemma_board_count(v: BoardView, player: PlayerId, y: nat, from: Position, to: Position, which: Pick)
    requires
        v.wf(),
        y <= v.height,
    ensures
        count_moves(board_moves(v, player, y), from, to, which) == if from.y < y {
            count_moves(square_moves(v, player, from), from, to, which)
        } else {
            0
        },
    decreases y,
{
    if y > 0 {
        lemma_board_count(v, player, (y - 1) as nat, from, to, which);
        lemma_rank_count(v, player, (y - 1) as nat, v.width, from, to, which);
        lemma_count_concat(
            board_moves(v, player, (y - 1) as nat),
            rank_moves(v, player, (y - 1) as nat, v.width),
            from,
            to,
            which,
        );
        if from.y == y - 1 && from.x >= v.width {
            assert(!v.on_board(from));
            assert(square_moves(v, player, from) =~= Seq::<Move>::empty());
        }
    }
}

/// No drop is a board move: the drops onto a rank count none.
pub proof fn lemma_rank_drops_count(
    v: BoardView,
    player: PlayerId,
    kind: PieceKind,
    y: nat,
    x: nat,
    from: Position,
    to: Position,
    which: Pick,
)
    ensures
        count_moves(rank_drops(v, player, kind, y, x), from, to, which) == 0,
    decreases x,
{
    if x > 0 {
        lemma_rank_drops_count(v, player, kind, y, (x - 1) as nat, from, to, which);
        let rest = rank_drops(v, player, kind, y, (x - 1) as nat);
        let p = Position { x: (x - 1) as usize, y: y as usize };
        let m = Move::Drop { kind, to: p };
        assert(rest.push(m).drop_last() =~= rest);
    }
}

/// The drops of a kind count none.
pub proof fn lemma_kind_drops_count(
    v: BoardView,
    player: PlayerId,
    kind: PieceKind,
    y: nat,
    from: Position,
    to: Position,
    which: Pick,
)
    ensures
        count_moves(kind_drops(v, player, kind, y), from, to, which) == 0,
    decreases y,
{
    if y > 0 {
        lemma_kind_drops_count(v, player, kind, (y - 1) as nat, from, to, which);
        lemma_rank_drops_count(v, player, kind, (y - 1) as nat, v.width, from, to, which);
        lemma_count_concat(
            kind_drops(v, player, kind, (y - 1) as nat),
            rank_drops(v, player, kind, (y - 1) as nat, v.width),
            from,
            to,
            which,
        );
    }
}

/// The drops of a side count none.
pub proof fn lemma_hand_drops_count(v: BoardView, player: PlayerId, k: nat, from: Position, to: Position, which: Pick)
    ensures
        count_moves(hand_drops(v, player, k), from, to, which) == 0,
    decreases k,
{
    if k > 0 {
        lemma_hand_drops_count(v, player, (k - 1) as nat, from, to, which);
        let kind = PieceKind::at(k - 1);
        lemma_kind_drops_count(v, player, kind, v.height, from, to, which);
        lemma_count_concat(
            hand_drops(v, player, (k - 1) as nat),
            kind_drops(v, player, kind, v.height),
            from,
            to,
            which,
        );
    }
}

/// Among all pseudo-legal moves of a side, those from `from` to `to` are the
/// ones that the piece on `from` contributes.
pub proof fn lemma_pseudo_legal_count(v: BoardView, player: PlayerId, from: Position, to: Position, which: Pick)
    requires
        v.wf(),
    ensures
        count_moves(pseudo_legal(v, player), from, to, which) == count_moves(
            square_moves(v, player, from),
            from,
            to,
            which,
        ),
{
    lemma_board_count(v, player, v.height, from, to, which);
    lemma_hand_drops_count(v, player, PIECE_KINDS as nat, from, to, which);
    lemma_count_concat(
        board_moves(v, player, v.height),
        hand_drops(v, player, PIECE_KINDS as nat),
        from,
        to,
        which,
    );
    if from.y >= v.height {
        assert(!v.on_board(from));
        assert(square_moves(v, player, from) =~= Seq::<Move>::empty());
    }
}

/// The safe moves of a list are members of the list, and a list holds at
/// least as many board moves from `from` to `to` as its safe part.
pub proof fn lemma_safe_count(v: BoardView, player: PlayerId, moves: Seq<Move>, from: Position, to: Position, which: Pick)
    ensures
        count_moves(safe_moves(v, player, moves), from, to, which) <= count_moves(moves, from, to, which),
        (forall|i: int|
            0 <= i < moves.len() && selected(#[trigger] moves[i], from, to, which) ==> keeps_king_safe(
                v,
                player,
                moves[i],
            )) ==> count_moves(safe_moves(v, player, moves), from, to, which) == count_moves(
            moves,
            from,
            to,
            which,
        ),
        (forall|i: int|
            0 <= i < moves.len() && selected(#[trigger] moves[i], from, to, which) ==> !keeps_king_safe(
                v,
                player,
                moves[i],
            )) ==> count_moves(safe_moves(v, player, moves), from, to, which) == 0,
    decreases moves.len(),
{
    if moves.len() > 0 {
        let init = moves.drop_last();
        lemma_safe_count(v, player, init, from, to, which);
        let rest = safe_moves(v, player, init);
        assert(moves.last() == moves[moves.len() - 1]);
        assert(rest.push(moves.last()).drop_last() =~= rest);
        assert forall|i: int| 0 <= i < init.len() implies init[i] == moves[i] by {}
        if forall|i: int|
            0 <= i < moves.len() && selected(#[trigger] moves[i], from, to, which) ==> keeps_king_safe(
                v,
                player,
                moves[i],
            ) {
            assert forall|i: int|
                0 <= i < init.len() && selected(
                    #[trigger] init[i],
                    from,
                    to,
                    which,
                ) implies keeps_king_safe(v, player, init[i]) by {
                assert(init[i] == moves[i]);
            }
        }
        if forall|i: int|
            0 <= i < moves.len() && selected(#[trigger] moves[i], from, to, which) ==> !keeps_king_safe(
                v,
                player,
                moves[i],
            ) {
            assert forall|i: int|
                0 <= i < init.len() && selected(
                    #[trigger] init[i],
                    from,
                    to,
                    which,
                ) implies !keeps_king_safe(v, player, init[i]) by {
                assert(init[i] == moves[i]);
            }
        }
    }
}

/// Adding one move to a list adds one to the count if the move is of the
/// asked kind.
pub proof fn lemma_count_push(a: Seq<Move>, m: Move, from: Position, to: Position, which: Pick)
    ensures
        count_moves(a.push(m), from, to, which) == count_moves(a, from, to, which) + if selected(
            m,
            from,
            to,
            which,
        ) {
            1nat
        } else {
            0nat
        },
{
    assert(a.push(m).drop_last() =~= a);
    assert(a.push(m).last() == m);
}

/// The variants of a move to another square count none.
pub proof fn lemma_variants_elsewhere(
    v: BoardView,
    from: Position,
    t: Position,
    piece: Piece,
    can_promote: bool,
    to: Position,
    which: Pick,
)
    requires
        t != to,
    ensures
        count_moves(move_variants(v, from, t, piece, can_promote), from, to, which) == 0,
{
    lemma_count_none(move_variants(v, from, t, piece, can_promote), from, to, which);
}

/// Where promotion is forced, the variants of a move are the promoting move
/// alone.
pub proof fn lemma_forced_variants(v: BoardView, from: Position, to: Position, piece: Piece, which: Pick)
    requires
        piece.kind == PieceKind::S_Pawn || piece.kind == PieceKind::S_Lance,
        to.y == last_rank(v, piece.owner),
        to.y < v.height,
    ensures
        move_variants(v, from, to, piece, true) == seq![
            promoting_move(from, to, piece.kind.promoted()->0),
        ],
        count_moves(move_variants(v, from, to, piece, true), from, to, which) == if selected(
            promoting_move(from, to, piece.kind.promoted()->0),
            from,
            to,
            which,
        ) {
            1nat
        } else {
            0nat
        },
{
    let m = promoting_move(from, to, piece.kind.promoted()->0);
    assert(seq![m] =~= Seq::<Move>::empty().push(m));
    lemma_count_push(Seq::empty(), m, from, to, which);
}

/// A lance ray towards the last rank holds at most one move to a square of
/// that rank, and it is the promoting move.
pub proof fn lemma_lance_ray(
    v: BoardView,
    from: Position,
    to: Position,
    piece: Piece,
    curr: Position,
    fuel: nat,
    which: Pick,
)
    requires
        v.wf(),
        piece.kind == PieceKind::S_Lance,
        v.config(piece.owner).can_promote,
        to.y == last_rank(v, piece.owner),
    ensures
        count_moves(
            slide_moves(v, from, piece, 0, piece.owner.forward(), curr, fuel),
            from,
            to,
            Pick::Any,
        ) <= 1,
        count_moves(
            slide_moves(v, from, piece, 0, piece.owner.forward(), curr, fuel),
            from,
            to,
            which,
        ) == if selected(promoting_move(from, to, PieceKind::S_ProLance), from, to, which) {
            count_moves(
                slide_moves(v, from, piece, 0, piece.owner.forward(), curr, fuel),
                from,
                to,
                Pick::Any,
            )
        } else {
            0
        },
    decreases fuel,
{
    let f = piece.owner.forward();
    let s = slide_moves(v, from, piece, 0, f, curr, fuel);
    if fuel > 0 {
        if let Some(nx) = shifted(v, curr, 0, f) {
            let here = if may_land(v, piece, nx) {
                move_variants(v, from, nx, piece, true)
            } else {
                Seq::empty()
            };
            let tail = slide_moves(v, from, piece, 0, f, nx, (fuel - 1) as nat);
            if nx == to {
                lemma_forced_variants(v, from, to, piece, which);
                lemma_forced_variants(v, from, to, piece, Pick::Any);
            } else {
                lemma_variants_elsewhere(v, from, nx, piece, true, to, which);
                lemma_variants_elsewhere(v, from, nx, piece, true, to, Pick::Any);
            }
            if v.piece_at(nx) is None {
                lemma_count_concat(here, tail, from, to, which);
                lemma_count_concat(here, tail, from, to, Pick::Any);
                if nx.y == last_rank(v, piece.owner) {
                    assert(shifted(v, nx, 0, f) is None);
                    assert(tail =~= Seq::<Move>::empty());
                } else {
                    lemma_lance_ray(v, from, to, piece, nx, (fuel - 1) as nat, which);
                }
            }
        }
    }
}

/// The pseudo-legal moves of a shogi pawn or lance hold at most one move to a
/// given square of the last rank, and it is the promoting move.
pub proof fn lemma_forced_piece_moves(
    v: BoardView,
    from: Position,
    to: Position,
    piece: Piece,
    which: Pick,
)
    requires
        v.wf(),
        piece.kind == PieceKind::S_Pawn || piece.kind == PieceKind::S_Lance,
        v.config(piece.owner).can_promote,
        to.y == last_rank(v, piece.owner),
    ensures
        count_moves(piece_moves(v, from, piece), from, to, Pick::Any) <= 1,
        count_moves(piece_moves(v, from, piece), from, to, which) == if selected(
            promoting_move(from, to, piece.kind.promoted()->0),
            from,
            to,
            which,
        ) {
            count_moves(piece_moves(v, from, piece), from, to, Pick::Any)
        } else {
            0
        },
{
    let f = piece.owner.forward();
    let table = movement_table(piece.kind, piece.owner);
    assert(table.len() == 1);
    assert(table.drop_last() =~= Seq::<MoveStep>::empty());
    let only = entry_moves(v, from, piece, table.last());
    assert(table_moves(v, from, piece, table.drop_last()) =~= Seq::<Move>::empty());
    assert(piece_moves(v, from, piece) =~= only) by {
        assert(table_moves(v, from, piece, table) == table_moves(
            v,
            from,
            piece,
            table.drop_last(),
        ) + only);
    }
    if piece.kind == PieceKind::S_Pawn {
        assert(table.last() == step(0, f));
        assert(only == step_moves(v, from, piece, 0, f));
        if let Some(nx) = shifted(v, from, 0, f) {
            if may_land(v, piece, nx) {
                if nx == to {
                    lemma_forced_variants(v, from, to, piece, which);
                    lemma_forced_variants(v, from, to, piece, Pick::Any);
                } else {
                    lemma_variants_elsewhere(v, from, nx, piece, true, to, which);
                    lemma_variants_elsewhere(v, from, nx, piece, true, to, Pick::Any);
                }
            }
        }
    } else {
        assert(table.last() == slide(0, f));
        assert(only == slide_moves(v, from, piece, 0, f, from, MAX_SIDE as nat));
        lemma_lance_ray(v, from, to, piece, from, MAX_SIDE as nat, which);
    }
}

/// A shogi pawn or lance that moves to the last rank promotes, and there is
/// one such move at most.
///
/// For a side that may promote, a piece of it on `from` that is a shogi pawn
/// or lance, and a square `to` on the side's last rank: among the pseudo-legal
/// moves, and among the legal moves, there is at most one board move from
/// `from` to `to`; a board move between the two squares of any other kind than
/// the promoting one does not occur; and the legal moves hold the promoting
/// move exactly if the pseudo-legal moves do and it leaves the king safe.
pub proof fn lemma_forced_promotion_is_the_only_variant(
    v: BoardView,
    player: PlayerId,
    from: Position,
    to: Position,
    which: Pick,
)
    requires
        v.wf(),
        v.piece_at(from) is Some,
        v.piece_at(from)->0.owner == player,
        v.piece_at(from)->0.kind == PieceKind::S_Pawn || v.piece_at(from)->0.kind
            == PieceKind::S_Lance,
        v.config(player).can_promote,
        to.y == last_rank(v, player),
    ensures
        count_moves(pseudo_legal(v, player), from, to, Pick::Any) <= 1,
        count_moves(legal(v, player), from, to, Pick::Any) <= 1,
        count_moves(pseudo_legal(v, player), from, to, which) == if selected(
            promoting_move(from, to, v.piece_at(from)->0.kind.promoted()->0),
            from,
            to,
            which,
        ) {
            count_moves(pseudo_legal(v, player), from, to, Pick::Any)
        } else {
            0
        },
        count_moves(legal(v, player), from, to, which) == if keeps_king_safe(
            v,
            player,
            promoting_move(from, to, v.piece_at(from)->0.kind.promoted()->0),
        ) {
            count_moves(pseudo_legal(v, player), from, to, which)
        } else {
            0
        },
{
    let piece = v.piece_at(from)->0;
    let m = promoting_move(from, to, piece.kind.promoted()->0);
    let pseudo = pseudo_legal(v, player);
    lemma_pseudo_legal_count(v, player, from, to, which);
    lemma_pseudo_legal_count(v, player, from, to, Pick::Any);
    lemma_forced_piece_moves(v, from, to, piece, which);
    lemma_forced_piece_moves(v, from, to, piece, Pick::Any);
    lemma_all_such_moves_promote(v, player, from, to);
    lemma_safe_count(v, player, pseudo, from, to, which);
    lemma_safe_count(v, player, pseudo, from, to, Pick::Any);
}

/// Under the conditions of the statement above, every pseudo-legal board move
/// from `from` to `to` is the promoting move.
pub proof fn lemma_all_such_moves_promote(v: BoardView, player: PlayerId, from: Position, to: Position)
    requires
        v.wf(),
        v.piece_at(from) is Some,
        v.piece_at(from)->0.owner == player,
        v.piece_at(from)->0.kind == PieceKind::S_Pawn || v.piece_at(from)->0.kind
            == PieceKind::S_Lance,
        v.config(player).can_promote,
        to.y == last_rank(v, player),
    ensures
        forall|i: int|
            0 <= i < pseudo_legal(v, player).len() && travels(
                #[trigger] pseudo_legal(v, player)[i],
                from,
                to,
            ) ==> pseudo_legal(v, player)[i] == promoting_move(
                from,
                to,
                v.piece_at(from)->0.kind.promoted()->0,
            ),
{
    let piece = v.piece_at(from)->0;
    let m = promoting_move(from, to, piece.kind.promoted()->0);
    let pseudo = pseudo_legal(v, player);
    assert forall|i: int| 0 <= i < pseudo.len() && travels(#[trigger] pseudo[i], from, to) implies
        pseudo[i] == m by {
        let mv = pseudo[i];
        if mv != m {
            let other = match mv {
                Move::Normal { promote: Some(k), .. } => Pick::Promoting(k),
                _ => Pick::Plain,
            };
            assert(selected(mv, from, to, other));
            assert(!selected(m, from, to, other));
            lemma_pseudo_legal_count(v, player, from, to, other);
            lemma_forced_piece_moves(v, from, to, piece, other);
            lemma_count_positive(pseudo, from, to, other, i);
        }
    }
}

/// Whether a square holds a piece of the other side than `owner`.
pub open spec fn holds_enemy(v: BoardView, p: Position, owner: PlayerId) -> bool {
    match v.piece_at(p) {
        Some(target) => target.owner != owner,
        None => false,
    }
}

/// Whether a chess pawn of `owner` on `from` has a pseudo-legal move to `to`:
/// one square ahead onto an empty square, two squares ahead from the start
/// rank over two empty squares, or one square ahead diagonally onto an enemy
/// piece.
pub open spec fn pawn_reaches(v: BoardView, from: Position, to: Position, owner: PlayerId) -> bool {
    let f = owner.forward();
    let ahead = shifted(v, from, 0, f);
    ||| (ahead == Some(to) && v.piece_at(to) is None)
    ||| (from.y == pawn_start_rank(owner) && ahead is Some && v.piece_at(ahead->0) is None
        && shifted(v, from, 0, 2 * f) == Some(to) && v.piece_at(to) is None)
    ||| (shifted(v, from, -1, f) == Some(to) && holds_enemy(v, to, owner))
    ||| (shifted(v, from, 1, f) == Some(to) && holds_enemy(v, to, owner))
}

/// How many moves of the asked kind a chess pawn has to a square of its last
/// rank that it reaches: one for each promotion target, four in all, and no
/// plain move.
pub open spec fn last_rank_count(which: Pick) -> nat {
    match which {
        Pick::Any => 4,
        Pick::Plain => 0,
        Pick::Promoting(k) => if k == PieceKind::C_Queen || k == PieceKind::C_Rook || k
            == PieceKind::C_Bishop || k == PieceKind::C_Knight {
            1
        } else {
            0
        },
    }
}

/// The count of the variants of one move of a chess pawn.
pub proof fn lemma_pawn_variants_count(
    v: BoardView,
    from: Position,
    t: Position,
    owner: PlayerId,
    to: Position,
    which: Pick,
)
    requires
        to.y == last_rank(v, owner),
    ensures
        count_moves(pawn_variants(v, from, t, owner), from, to, which) == if t == to {
            last_rank_count(which)
        } else {
            0
        },
{
    let s = pawn_variants(v, from, t, owner);
    if t == to {
        let e = Seq::<Move>::empty();
        let q = promoting_move(from, to, PieceKind::C_Queen);
        let r = promoting_move(from, to, PieceKind::C_Rook);
        let b = promoting_move(from, to, PieceKind::C_Bishop);
        let n = promoting_move(from, to, PieceKind::C_Knight);
        assert(s =~= e.push(q).push(r).push(b).push(n));
        lemma_count_push(e, q, from, to, which);
        lemma_count_push(e.push(q), r, from, to, which);
        lemma_count_push(e.push(q).push(r), b, from, to, which);
        lemma_count_push(e.push(q).push(r).push(b), n, from, to, which);
    } else {
        lemma_count_none(s, from, to, which);
    }
}

/// The pseudo-legal moves of a chess pawn to a square of its last rank: if it
/// reaches the square, one promoting move for each promotion target and
/// nothing else; if not, none.
pub proof fn lemma_chess_pawn_count(
    v: BoardView,
    from: Position,
    to: Position,
    piece: Piece,
    which: Pick,
)
    requires
        v.wf(),
        piece.kind == PieceKind::C_Pawn,
        to.y == last_rank(v, piece.owner),
    ensures
        count_moves(piece_moves(v, from, piece), from, to, which) == if pawn_reaches(
            v,
            from,
            to,
            piece.owner,
        ) {
            last_rank_count(which)
        } else {
            0
        },
{
    let owner = piece.owner;
    let f = owner.forward();
    let adv = pawn_advances(v, from, owner);
    let left = pawn_capture(v, from, owner, -1);
    let right = pawn_capture(v, from, owner, 1);
    lemma_count_concat(adv, left, from, to, which);
    lemma_count_concat(adv + left, right, from, to, which);
    let e = Seq::<Move>::empty();
    assert(count_moves(e, from, to, which) == 0);
    // advances
    if let Some(t1) = shifted(v, from, 0, f) {
        lemma_pawn_variants_count(v, from, t1, owner, to, which);
        if v.piece_at(t1) is None {
            let near = pawn_variants(v, from, t1, owner);
            let far = if from.y == pawn_start_rank(owner) {
                match shifted(v, from, 0, 2 * f) {
                    Some(to2) => if v.piece_at(to2) is None {
                        pawn_variants(v, from, to2, owner)
                    } else {
                        Seq::empty()
                    },
                    None => Seq::empty(),
                }
            } else {
                Seq::empty()
            };
            lemma_count_concat(near, far, from, to, which);
            if let Some(t2) = shifted(v, from, 0, 2 * f) {
                lemma_pawn_variants_count(v, from, t2, owner, to, which);
            }
        }
    }
    if let Some(tl) = shifted(v, from, -1, f) {
        lemma_pawn_variants_count(v, from, tl, owner, to, which);
    }
    if let Some(tr) = shifted(v, from, 1, f) {
        lemma_pawn_variants_count(v, from, tr, owner, to, which);
    }
}

/// A chess pawn that reaches its last rank promotes, to each promotion target
/// once.
///
/// For a chess pawn of the mover on `from` and a square `to` on the mover's
/// last rank: the pseudo-legal moves hold, if the pawn reaches `to`, exactly
/// one promoting move for each of the four promotion targets and no other
/// board move between the two squares, and none if it does not; the legal
/// moves hold the plain move never, the move to a given target exactly if the
/// pseudo-legal moves hold it and it leaves the king safe, and all four where
/// all four leave the king safe.
pub proof fn lemma_chess_pawn_promotes_to_each_target(
    v: BoardView,
    player: PlayerId,
    from: Position,
    to: Position,
    which: Pick,
)
    requires
        v.wf(),
        v.piece_at(from) is Some,
        v.piece_at(from)->0.owner == player,
        v.piece_at(from)->0.kind == PieceKind::C_Pawn,
        to.y == last_rank(v, player),
    ensures
        count_moves(pseudo_legal(v, player), from, to, which) == if pawn_reaches(
            v,
            from,
            to,
            player,
        ) {
            last_rank_count(which)
        } else {
            0
        },
        count_moves(legal(v, player), from, to, which) <= count_moves(
            pseudo_legal(v, player),
            from,
            to,
            which,
        ),
        count_moves(legal(v, player), from, to, Pick::Plain) == 0,
        which matches Pick::Promoting(k) ==> count_moves(legal(v, player), from, to, which)
            == if keeps_king_safe(v, player, promoting_move(from, to, k)) {
            count_moves(pseudo_legal(v, player), from, to, which)
        } else {
            0
        },
        (forall|j: int|
            0 <= j < promotion_targets().len() ==> keeps_king_safe(
                v,
                player,
                promoting_move(from, to, #[trigger] promotion_targets()[j]),
            )) ==> count_moves(legal(v, player), from, to, Pick::Any) == count_moves(
            pseudo_legal(v, player),
            from,
            to,
            Pick::Any,
        ),
        count_moves(legal(v, player), from, to, Pick::Any) == if pawn_reaches(v, from, to, player)
            && keeps_king_safe(v, player, promoting_move(from, to, PieceKind::C_Queen)) {
            promotion_targets().len()
        } else {
            0
        },
{
    lemma_promotions_equally_safe(v, player, from, to, PieceKind::C_Queen, PieceKind::C_Rook);
    lemma_promotions_equally_safe(v, player, from, to, PieceKind::C_Queen, PieceKind::C_Bishop);
    lemma_promotions_equally_safe(v, player, from, to, PieceKind::C_Queen, PieceKind::C_Knight);
    lemma_chess_pawn_count(v, from, to, v.piece_at(from)->0, Pick::Any);
    lemma_pseudo_legal_count(v, player, from, to, Pick::Any);
    if !keeps_king_safe(v, player, promoting_move(from, to, PieceKind::C_Queen)) {
        let pseudo = pseudo_legal(v, player);
        assert forall|i: int|
            0 <= i < pseudo.len() && selected(
                #[trigger] pseudo[i],
                from,
                to,
                Pick::Any,
            ) implies !keeps_king_safe(v, player, pseudo[i]) by {
            let mv = pseudo[i];
            let own = match mv {
                Move::Normal { promote: Some(k), .. } => Pick::Promoting(k),
                _ => Pick::Plain,
            };
            assert(selected(mv, from, to, own));
            lemma_pseudo_legal_count(v, player, from, to, own);
            lemma_chess_pawn_count(v, from, to, v.piece_at(from)->0, own);
            lemma_count_positive(pseudo, from, to, own, i);
            assert(last_rank_count(own) > 0);
        }
        lemma_safe_count(v, player, pseudo, from, to, Pick::Any);
    }
    let piece = v.piece_at(from)->0;
    let pseudo = pseudo_legal(v, player);
    lemma_pseudo_legal_count(v, player, from, to, which);
    lemma_chess_pawn_count(v, from, to, piece, which);
    lemma_pseudo_legal_count(v, player, from, to, Pick::Plain);
    lemma_chess_pawn_count(v, from, to, piece, Pick::Plain);
    lemma_safe_count(v, player, pseudo, from, to, which);
    lemma_safe_count(v, player, pseudo, from, to, Pick::Plain);
    lemma_safe_count(v, player, pseudo, from, to, Pick::Any);
    if forall|j: int|
        0 <= j < promotion_targets().len() ==> keeps_king_safe(
            v,
            player,
            promoting_move(from, to, #[trigger] promotion_targets()[j]),
        ) {
        assert forall|i: int|
            0 <= i < pseudo.len() && selected(
                #[trigger] pseudo[i],
                from,
                to,
                Pick::Any,
            ) implies keeps_king_safe(v, player, pseudo[i]) by {
            let mv = pseudo[i];
            let own = match mv {
                Move::Normal { promote: Some(k), .. } => Pick::Promoting(k),
                _ => Pick::Plain,
            };
            assert(selected(mv, from, to, own));
            lemma_pseudo_legal_count(v, player, from, to, own);
            lemma_chess_pawn_count(v, from, to, piece, own);
            lemma_count_positive(pseudo, from, to, own, i);
            assert(last_rank_count(own) > 0);
            let k = mv->promote->0;
            assert(promotion_targets()[0] == PieceKind::C_Queen);
            assert(promotion_targets()[1] == PieceKind::C_Rook);
            assert(promotion_targets()[2] == PieceKind::C_Bishop);
            assert(promotion_targets()[3] == PieceKind::C_Knight);
            assert(mv == promoting_move(from, to, k));
        }
    }
}

/// Whether a promoting move leaves the king safe does not depend on the
/// kind that the piece turns into, as long as that is no king.
pub proof fn lemma_promotions_equally_safe(
    v: BoardView,
    player: PlayerId,
    from: Position,
    to: Position,
    k1: PieceKind,
    k2: PieceKind,
)
    requires
        v.wf(),
        v.piece_at(from) is Some,
        v.piece_at(from)->0.owner == player,
        !k1.is_king(),
        !k2.is_king(),
    ensures
        keeps_king_safe(v, player, promoting_move(from, to, k1)) == keeps_king_safe(
            v,
            player,
            promoting_move(from, to, k2),
        ),
{
    reveal(keeps_king_safe);
    let a = successor(v, promoting_move(from, to, k1), player);
    let b = successor(v, promoting_move(from, to, k2), player);
    lemma_successor_wf(v, promoting_move(from, to, k1), player);
    lemma_successor_wf(v, promoting_move(from, to, k2), player);
    assert(differ_in_kind_at(a, b, to, player)) by {
        assert forall|q: Position| q != to implies #[trigger] a.piece_at(q) == b.piece_at(q) by {}
        if !v.on_board(to) {
            assert(!a.on_board(to));
            assert(a.piece_at(to) is None);
            assert(b.piece_at(to) is None);
        }
    }
    lemma_check_ignores_own_kind(a, b, to, player);
}

} // verus!
