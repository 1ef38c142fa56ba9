//! What every generated move has in common: it moves a piece of the mover
//! onto the board and never onto a piece of its own side, or drops a piece
//! that the mover holds onto an empty square.

use vstd::prelude::*;
use crate::model::board::{BoardView, MAX_SIDE};
use crate::model::mv::Move;
use crate::model::piece::{movement_table, MoveStep, Piece, PieceKind, PIECE_KINDS};
use crate::model::types::{PlayerId, Position};
use super::movegen::{
    board_moves, drop_allowed, entry_moves, hand_drops, kind_drops, may_land, move_variants,
    pawn_advances, pawn_capture, pawn_in_file, pawn_start_rank, pawn_variants, piece_moves,
    promotion_targets, pseudo_legal, rank_drops, rank_moves, shifted, slide_moves, square_moves,
    table_moves,
};
use super::rules::{legal, lemma_safe_moves_contains};

verus! {

/// Whether a move is one that the rules can give `player` on `v` at all.
///
/// A board move starts on a piece of the player, ends on a square of the grid
/// that holds no piece of the player, and promotes, if it promotes, to the
/// promoted form of the piece or, for a chess pawn, to one of the promotion
/// targets. A drop is made by a side that may drop, of a kind that it holds,
/// onto an empty square of the grid, and never brings a second shogi pawn of
/// the side into a file.
pub open spec fn sound(v: BoardView, player: PlayerId, mv: Move) -> bool {
    match mv {
        Move::Normal { from, to, promote } => {
            &&& v.piece_at(from) is Some
            &&& v.piece_at(from)->0.owner == player
            &&& v.on_board(to)
            &&& v.piece_at(to) is Some ==> v.piece_at(to)->0.owner != player
            &&& promote is Some ==> if v.piece_at(from)->0.kind == PieceKind::C_Pawn {
                promotion_targets().contains(promote->0)
            } else {
                v.piece_at(from)->0.kind.promoted() == promote
            }
        },
        Move::Drop { kind, to } => {
            &&& v.config(player).can_drop
            &&& v.hand_count(player, kind) > 0
            &&& v.on_board(to)
            &&& v.piece_at(to) is None
            &&& !(kind == PieceKind::S_Pawn && pawn_in_file(v, player, to.x))
        },
    }
}

/// Whether every move of a list is sound.
pub open spec fn all_sound(v: BoardView, player: PlayerId, moves: Seq<Move>) -> bool {
    forall|i: int| 0 <= i < moves.len() ==> sound(v, player, #[trigger] moves[i])
}

/// Two lists of sound moves make one.
pub proof fn lemma_all_sound_concat(v: BoardView, player: PlayerId, a: Seq<Move>, b: Seq<Move>)
    requires
        all_sound(v, player, a),
        all_sound(v, player, b),
    ensures
        all_sound(v, player, a + b),
{
    assert forall|i: int| 0 <= i < (a + b).len() implies sound(v, player, #[trigger] (a + b)[i]) by {
        if i < a.len() {
            assert((a + b)[i] == a[i]);
        } else {
            assert((a + b)[i] == b[i - a.len()]);
        }
    }
}

/// The variants of a move of the piece on `from` to a square on which it may
/// land are sound.
proof fn lemma_variants_sound(v: BoardView, from: Position, to: Position, piece: Piece)
    requires
        v.wf(),
        v.piece_at(from) == Some(piece),
        piece.kind != PieceKind::C_Pawn,
        v.on_board(to),
        may_land(v, piece, to),
    ensures
        all_sound(
            v,
            piece.owner,
            move_variants(v, from, to, piece, v.config(piece.owner).can_promote),
        ),
{
}

proof fn lemma_slide_sound(
    v: BoardView,
    from: Position,
    piece: Piece,
    dx: int,
    dy: int,
    curr: Position,
    fuel: nat,
)
    requires
        v.wf(),
        v.piece_at(from) == Some(piece),
        piece.kind != PieceKind::C_Pawn,
    ensures
        all_sound(v, piece.owner, slide_moves(v, from, piece, dx, dy, curr, fuel)),
    decreases fuel,
{
    if fuel > 0 {
        if let Some(to) = shifted(v, curr, dx, dy) {
            let here = if may_land(v, piece, to) {
                move_variants(v, from, to, piece, v.config(piece.owner).can_promote)
            } else {
                Seq::empty()
            };
            if may_land(v, piece, to) {
                lemma_variants_sound(v, from, to, piece);
            }
            lemma_slide_sound(v, from, piece, dx, dy, to, (fuel - 1) as nat);
            lemma_all_sound_concat(
                v,
                piece.owner,
                here,
                slide_moves(v, from, piece, dx, dy, to, (fuel - 1) as nat),
            );
        }
    }
}

proof fn lemma_table_sound(v: BoardView, from: Position, piece: Piece, table: Seq<MoveStep>)
    requires
        v.wf(),
        v.piece_at(from) == Some(piece),
        piece.kind != PieceKind::C_Pawn,
    ensures
        all_sound(v, piece.owner, table_moves(v, from, piece, table)),
    decreases table.len(),
{
    if table.len() > 0 {
        lemma_table_sound(v, from, piece, table.drop_last());
        match table.last() {
            MoveStep::Step(dx, dy) => {
                if let Some(to) = shifted(v, from, dx as int, dy as int) {
                    if may_land(v, piece, to) {
                        lemma_variants_sound(v, from, to, piece);
                    }
                }
            },
            MoveStep::Slide(dx, dy) => {
                lemma_slide_sound(v, from, piece, dx as int, dy as int, from, MAX_SIDE as nat);
            },
        }
        lemma_all_sound_concat(
            v,
            piece.owner,
            table_moves(v, from, piece, table.drop_last()),
            entry_moves(v, from, piece, table.last()),
        );
    }
}

/// The variants of a move of the chess pawn on `from` to a square that is
/// empty or holds an enemy piece are sound.
proof fn lemma_pawn_variants_sound(v: BoardView, from: Position, to: Position, piece: Piece)
    requires
        v.wf(),
        v.piece_at(from) == Some(piece),
        piece.kind == PieceKind::C_Pawn,
        v.on_board(to),
        v.piece_at(to) is Some ==> v.piece_at(to)->0.owner != piece.owner,
    ensures
        all_sound(v, piece.owner, pawn_variants(v, from, to, piece.owner)),
{
    let t = promotion_targets();
    assert(t[0] == PieceKind::C_Queen && t[1] == PieceKind::C_Rook && t[2] == PieceKind::C_Bishop
        && t[3] == PieceKind::C_Knight);
    assert(t.contains(PieceKind::C_Queen) && t.contains(PieceKind::C_Rook) && t.contains(
        PieceKind::C_Bishop,
    ) && t.contains(PieceKind::C_Knight));
}

/// Every pseudo-legal move of the piece on `from` is sound.
pub proof fn lemma_piece_moves_sound(v: BoardView, from: Position, piece: Piece)
    requires
        v.wf(),
        v.piece_at(from) == Some(piece),
    ensures
        all_sound(v, piece.owner, piece_moves(v, from, piece)),
{
    let owner = piece.owner;
    if piece.kind == PieceKind::C_Pawn {
        let f = owner.forward();
        let adv = pawn_advances(v, from, owner);
        let left = pawn_capture(v, from, owner, -1);
        let right = pawn_capture(v, from, owner, 1);
        assert(all_sound(v, owner, adv)) by {
            if let Some(to) = shifted(v, from, 0, f) {
                if v.piece_at(to) is None {
                    let near = pawn_variants(v, from, to, owner);
                    lemma_pawn_variants_sound(v, from, to, piece);
                    let far = if from.y == pawn_start_rank(owner) {
                        match shifted(v, from, 0, 2 * f) {
                            Some(to2) => if v.piece_at(to2) is None {
                                pawn_variants(v, from, to2, owner)
                            } else {
                                Seq::empty()
                            },
                            None => Seq::empty(),
                        }
                    } else {
                        Seq::empty()
                    };
                    if let Some(to2) = shifted(v, from, 0, 2 * f) {
                        if v.piece_at(to2) is None {
                            lemma_pawn_variants_sound(v, from, to2, piece);
                        }
                    }
                    lemma_all_sound_concat(v, owner, near, far);
                }
            }
        }
        assert(all_sound(v, owner, left)) by {
            if let Some(to) = shifted(v, from, -1, f) {
                if v.piece_at(to) is Some && v.piece_at(to)->0.owner != owner {
                    lemma_pawn_variants_sound(v, from, to, piece);
                }
            }
        }
        assert(all_sound(v, owner, right)) by {
            if let Some(to) = shifted(v, from, 1, f) {
                if v.piece_at(to) is Some && v.piece_at(to)->0.owner != owner {
                    lemma_pawn_variants_sound(v, from, to, piece);
                }
            }
        }
        lemma_all_sound_concat(v, owner, adv, left);
        lemma_all_sound_concat(v, owner, adv + left, right);
    } else {
        lemma_table_sound(v, from, piece, movement_table(piece.kind, piece.owner));
    }
}

proof fn lemma_rank_moves_sound(v: BoardView, player: PlayerId, y: nat, x: nat)
    requires
        v.wf(),
    ensures
        all_sound(v, player, rank_moves(v, player, y, x)),
    decreases x,
{
    if x > 0 {
        lemma_rank_moves_sound(v, player, y, (x - 1) as nat);
        let p = Position { x: (x - 1) as usize, y: y as usize };
        if v.piece_at(p) is Some && v.piece_at(p)->0.owner == player {
            lemma_piece_moves_sound(v, p, v.piece_at(p)->0);
        }
        lemma_all_sound_concat(
            v,
            player,
            rank_moves(v, player, y, (x - 1) as nat),
            square_moves(v, player, p),
        );
    }
}

proof fn lemma_board_moves_sound(v: BoardView, player: PlayerId, y: nat)
    requires
        v.wf(),
    ensures
        all_sound(v, player, board_moves(v, player, y)),
    decreases y,
{
    if y > 0 {
        lemma_board_moves_sound(v, player, (y - 1) as nat);
        lemma_rank_moves_sound(v, player, (y - 1) as nat, v.width);
        lemma_all_sound_concat(
            v,
            player,
            board_moves(v, player, (y - 1) as nat),
            rank_moves(v, player, (y - 1) as nat, v.width),
        );
    }
}

proof fn lemma_rank_drops_sound(v: BoardView, player: PlayerId, kind: PieceKind, y: nat, x: nat)
    requires
        v.wf(),
        v.config(player).can_drop,
        v.hand_count(player, kind) > 0,
        y < v.height,
        x <= v.width,
    ensures
        all_sound(v, player, rank_drops(v, player, kind, y, x)),
    decreases x,
{
    if x > 0 {
        lemma_rank_drops_sound(v, player, kind, y, (x - 1) as nat);
        let to = Position { x: (x - 1) as usize, y: y as usize };
        let rest = rank_drops(v, player, kind, y, (x - 1) as nat);
        if drop_allowed(v, player, kind, to) {
            let out = rest.push(Move::Drop { kind, to });
            assert forall|i: int| 0 <= i < out.len() implies sound(v, player, #[trigger] out[i]) by {
                if i < rest.len() {
                    assert(out[i] == rest[i]);
                }
            }
        }
    }
}

proof fn lemma_kind_drops_sound(v: BoardView, player: PlayerId, kind: PieceKind, y: nat)
    requires
        v.wf(),
        v.config(player).can_drop,
        v.hand_count(player, kind) > 0,
        y <= v.height,
    ensures
        all_sound(v, player, kind_drops(v, player, kind, y)),
    decreases y,
{
    if y > 0 {
        lemma_kind_drops_sound(v, player, kind, (y - 1) as nat);
        lemma_rank_drops_sound(v, player, kind, (y - 1) as nat, v.width);
        lemma_all_sound_concat(
            v,
            player,
            kind_drops(v, player, kind, (y - 1) as nat),
            rank_drops(v, player, kind, (y - 1) as nat, v.width),
        );
    }
}

proof fn lemma_hand_drops_sound(v: BoardView, player: PlayerId, k: nat)
    requires
        v.wf(),
        v.config(player).can_drop,
    ensures
        all_sound(v, player, hand_drops(v, player, k)),
    decreases k,
{
    if k > 0 {
        lemma_hand_drops_sound(v, player, (k - 1) as nat);
        let kind = PieceKind::at(k - 1);
        if v.hand_count(player, kind) > 0 {
            lemma_kind_drops_sound(v, player, kind, v.height);
            lemma_all_sound_concat(
                v,
                player,
                hand_drops(v, player, (k - 1) as nat),
                kind_drops(v, player, kind, v.height),
            );
        }
    }
}

/// Every pseudo-legal move, and with it every legal move, is sound: no
/// generated move takes a piece of the mover's own side, leaves the grid,
/// moves a piece of the other side, or drops what the mover does not hold.
pub proof fn lemma_generated_moves_are_sound(v: BoardView, player: PlayerId)
    requires
        v.wf(),
    ensures
        all_sound(v, player, pseudo_legal(v, player)),
        all_sound(v, player, legal(v, player)),
{
    lemma_board_moves_sound(v, player, v.height);
    if v.config(player).can_drop {
        lemma_hand_drops_sound(v, player, PIECE_KINDS as nat);
        lemma_all_sound_concat(
            v,
            player,
            board_moves(v, player, v.height),
            hand_drops(v, player, PIECE_KINDS as nat),
        );
    }
    let pseudo = pseudo_legal(v, player);
    let ok = legal(v, player);
    assert forall|i: int| 0 <= i < ok.len() implies sound(v, player, #[trigger] ok[i]) by {
        let mv = ok[i];
        assert(ok.contains(mv));
        lemma_safe_moves_contains(v, player, pseudo, mv);
        let j = choose|j: int| 0 <= j < pseudo.len() && pseudo[j] == mv;
        assert(sound(v, player, pseudo[j]));
    }
}

} // verus!
