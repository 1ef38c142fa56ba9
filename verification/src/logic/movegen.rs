//! Pseudo-legal move generation: every move that the movement rules allow,
//! without regard to the safety of the mover's own king.

use vstd::prelude::*;
use crate::model::board::{Board, BoardView, MAX_SIDE};
use crate::model::mv::Move;
use crate::model::piece::{movement_table, MoveStep, Piece, PieceKind, PIECE_KINDS};
use crate::model::types::{PlayerId, Position};

verus! {

/// The square at the offset (`dx`, `dy`) from `p`, if it lies on the grid.
pub open spec fn shifted(v: BoardView, p: Position, dx: int, dy: int) -> Option<Position> {
    let x = p.x + dx;
    let y = p.y + dy;
    if 0 <= x < v.width && 0 <= y < v.height {
        Some(Position { x: x as usize, y: y as usize })
    } else {
        None
    }
}

/// The rank on which the pieces of a side can advance no further.
pub open spec fn last_rank(v: BoardView, owner: PlayerId) -> int {
    match owner {
        PlayerId::Player1 => 0,
        PlayerId::Player2 => v.height - 1,
    }
}

/// Whether a square lies in the promotion zone of a side: the three ranks
/// farthest from where the side starts.
pub open spec fn in_promotion_zone(v: BoardView, owner: PlayerId, p: Position) -> bool {
    match owner {
        PlayerId::Player1 => p.y <= 2,
        PlayerId::Player2 => p.y + 3 >= v.height,
    }
}

/// Whether a piece of the given kind could never move again from the rank of
/// `to` unless it promotes: a shogi pawn or lance on the last rank, a shogi
/// knight on one of the last two.
pub open spec fn must_promote(v: BoardView, kind: PieceKind, owner: PlayerId, to: Position) -> bool {
    match kind {
        PieceKind::S_Pawn | PieceKind::S_Lance => to.y == last_rank(v, owner),
        PieceKind::S_Knight => match owner {
            PlayerId::Player1 => to.y <= 1,
            PlayerId::Player2 => to.y + 2 >= v.height,
        },
        _ => false,
    }
}

/// The board move from `from` to `to` without promotion.
pub open spec fn plain_move(from: Position, to: Position) -> Move {
    Move::Normal { from, to, promote: None }
}

/// The board move from `from` to `to` that turns the piece into `kind`.
pub open spec fn promoting_move(from: Position, to: Position, kind: PieceKind) -> Move {
    Move::Normal { from, to, promote: Some(kind) }
}

/// The variants of one board move of a table-driven piece: where the side may
/// promote, the piece has a promoted form and the move touches the promotion
/// zone, the promoting variant comes first and the plain one follows unless
/// promotion is forced; otherwise there is the plain variant alone.
pub open spec fn move_variants(
    v: BoardView,
    from: Position,
    to: Position,
    piece: Piece,
    can_promote: bool,
) -> Seq<Move> {
    if can_promote && piece.kind.promoted() is Some && (in_promotion_zone(v, piece.owner, to)
        || in_promotion_zone(v, piece.owner, from)) {
        if must_promote(v, piece.kind, piece.owner, to) {
            seq![promoting_move(from, to, piece.kind.promoted()->0)]
        } else {
            seq![promoting_move(from, to, piece.kind.promoted()->0), plain_move(from, to)]
        }
    } else {
        seq![plain_move(from, to)]
    }
}

/// Whether the piece may end a move on `to`: the square is empty, or it holds
/// an enemy piece and the side may capture.
pub open spec fn may_land(v: BoardView, piece: Piece, to: Position) -> bool {
    match v.piece_at(to) {
        Some(target) => v.config(piece.owner).can_capture && target.owner != piece.owner,
        None => true,
    }
}

/// The moves that a single step by (`dx`, `dy`) gives.
pub open spec fn step_moves(v: BoardView, from: Position, piece: Piece, dx: int, dy: int) -> Seq<
    Move,
> {
    match shifted(v, from, dx, dy) {
        Some(to) => if may_land(v, piece, to) {
            move_variants(v, from, to, piece, v.config(piece.owner).can_promote)
        } else {
            Seq::empty()
        },
        None => Seq::empty(),
    }
}

/// The moves of a ray in direction (`dx`, `dy`) that has reached `curr`: it
/// goes on square by square over empty squares, takes in the first occupied
/// square if the piece may land there, and ends there or at the edge. `fuel`
/// bounds the number of squares; no ray on a grid is longer than 9.
pub open spec fn slide_moves(
    v: BoardView,
    from: Position,
    piece: Piece,
    dx: int,
    dy: int,
    curr: Position,
    fuel: nat,
) -> Seq<Move>
    decreases fuel,
{
    if fuel == 0 {
        Seq::empty()
    } else {
        match shifted(v, curr, dx, dy) {
            None => Seq::empty(),
            Some(to) => {
                let here = if may_land(v, piece, to) {
                    move_variants(v, from, to, piece, v.config(piece.owner).can_promote)
                } else {
                    Seq::empty()
                };
                if v.piece_at(to) is Some {
                    here
                } else {
                    here + slide_moves(v, from, piece, dx, dy, to, (fuel - 1) as nat)
                }
            },
        }
    }
}

/// The moves that one entry of a movement table gives.
pub open spec fn entry_moves(v: BoardView, from: Position, piece: Piece, entry: MoveStep) -> Seq<
    Move,
> {
    match entry {
        MoveStep::Step(dx, dy) => step_moves(v, from, piece, dx as int, dy as int),
        MoveStep::Slide(dx, dy) => slide_moves(
            v,
            from,
            piece,
            dx as int,
            dy as int,
            from,
            MAX_SIDE as nat,
        ),
    }
}

/// The moves that the entries of a movement table give, in the order of the
/// table.
pub open spec fn table_moves(v: BoardView, from: Position, piece: Piece, table: Seq<MoveStep>) -> Seq<
    Move,
>
    decreases table.len(),
{
    if table.len() == 0 {
        Seq::empty()
    } else {
        table_moves(v, from, piece, table.drop_last()) + entry_moves(v, from, piece, table.last())
    }
}

/// The kinds that a chess pawn can turn into on its last rank, in the order
/// in which the moves are generated.
pub open spec fn promotion_targets() -> Seq<PieceKind> {
    seq![PieceKind::C_Queen, PieceKind::C_Rook, PieceKind::C_Bishop, PieceKind::C_Knight]
}

/// The variants of one move of a chess pawn: on its last rank one promoting
/// move for each promotion target and no plain move, elsewhere the plain move.
pub open spec fn pawn_variants(v: BoardView, from: Position, to: Position, owner: PlayerId) -> Seq<
    Move,
> {
    if to.y == last_rank(v, owner) {
        seq![
            promoting_move(from, to, PieceKind::C_Queen),
            promoting_move(from, to, PieceKind::C_Rook),
            promoting_move(from, to, PieceKind::C_Bishop),
            promoting_move(from, to, PieceKind::C_Knight),
        ]
    } else {
        seq![plain_move(from, to)]
    }
}

/// The rank from which a chess pawn of a side may advance two squares.
pub open spec fn pawn_start_rank(owner: PlayerId) -> int {
    match owner {
        PlayerId::Player1 => 6,
        PlayerId::Player2 => 1,
    }
}

/// The advances of a chess pawn: one square ahead if that square is empty,
/// and from the start rank two squares ahead if both are empty.
pub open spec fn pawn_advances(v: BoardView, from: Position, owner: PlayerId) -> Seq<Move> {
    let f = owner.forward();
    match shifted(v, from, 0, f) {
        Some(to) => if v.piece_at(to) is None {
            let far = if from.y == pawn_start_rank(owner) {
                match shifted(v, from, 0, 2 * f) {
                    Some(to2) => if v.piece_at(to2) is None {
                        pawn_variants(v, from, to2, owner)
                    } else {
                        Seq::empty()
                    },
                    None => Seq::empty(),
                }
            } else {
                Seq::empty()
            };
            pawn_variants(v, from, to, owner) + far
        } else {
            Seq::empty()
        },
        None => Seq::empty(),
    }
}

/// The capture of a chess pawn towards file offset `dx`: one square ahead
/// diagonally, onto an enemy piece only.
pub open spec fn pawn_capture(v: BoardView, from: Position, owner: PlayerId, dx: int) -> Seq<Move> {
    match shifted(v, from, dx, owner.forward()) {
        Some(to) => match v.piece_at(to) {
            Some(target) => if target.owner != owner {
                pawn_variants(v, from, to, owner)
            } else {
                Seq::empty()
            },
            None => Seq::empty(),
        },
        None => Seq::empty(),
    }
}

/// The moves of a chess pawn: advances, then the capture to the lower file,
/// then the capture to the higher file.
pub open spec fn chess_pawn_moves(v: BoardView, from: Position, piece: Piece) -> Seq<Move> {
    pawn_advances(v, from, piece.owner) + pawn_capture(v, from, piece.owner, -1) + pawn_capture(
        v,
        from,
        piece.owner,
        1,
    )
}

/// The pseudo-legal moves of `piece` standing on `from`.
pub open spec fn piece_moves(v: BoardView, from: Position, piece: Piece) -> Seq<Move> {
    if piece.kind == PieceKind::C_Pawn {
        chess_pawn_moves(v, from, piece)
    } else {
        table_moves(v, from, piece, movement_table(piece.kind, piece.owner))
    }
}

/// The board moves that start on square `p`: those of the mover's piece there.
pub open spec fn square_moves(v: BoardView, player: PlayerId, p: Position) -> Seq<Move> {
    match v.piece_at(p) {
        Some(piece) => if piece.owner == player {
            piece_moves(v, p, piece)
        } else {
            Seq::empty()
        },
        None => Seq::empty(),
    }
}

/// The board moves that start on the first `x` squares of rank `y`.
pub open spec fn rank_moves(v: BoardView, player: PlayerId, y: nat, x: nat) -> Seq<Move>
    decreases x,
{
    if x == 0 {
        Seq::empty()
    } else {
        rank_moves(v, player, y, (x - 1) as nat) + square_moves(
            v,
            player,
            Position { x: (x - 1) as usize, y: y as usize },
        )
    }
}

/// The board moves that start on the first `y` ranks, in reading order of
/// their origin.
pub open spec fn board_moves(v: BoardView, player: PlayerId, y: nat) -> Seq<Move>
    decreases y,
{
    if y == 0 {
        Seq::empty()
    } else {
        board_moves(v, player, (y - 1) as nat) + rank_moves(v, player, (y - 1) as nat, v.width)
    }
}

/// Whether a square holds an unpromoted shogi pawn of `player`.
pub open spec fn holds_shogi_pawn(v: BoardView, player: PlayerId, p: Position) -> bool {
    match v.piece_at(p) {
        Some(piece) => piece.owner == player && piece.kind == PieceKind::S_Pawn,
        None => false,
    }
}

/// Whether file `x` holds an unpromoted shogi pawn of `player`.
pub open spec fn pawn_in_file(v: BoardView, player: PlayerId, x: usize) -> bool {
    exists|y: usize| y < v.height && #[trigger] holds_shogi_pawn(v, player, Position { x, y })
}

/// Whether a piece of `kind` from the hand of `player` may be dropped on `to`:
/// the square is empty, and a shogi pawn does not join another pawn of its side
/// in the same file.
pub open spec fn drop_allowed(v: BoardView, player: PlayerId, kind: PieceKind, to: Position) -> bool {
    v.piece_at(to) is None && !(kind == PieceKind::S_Pawn && pawn_in_file(v, player, to.x))
}

/// The drops of `kind` onto the first `x` squares of rank `y`.
pub open spec fn rank_drops(v: BoardView, player: PlayerId, kind: PieceKind, y: nat, x: nat) -> Seq<
    Move,
>
    decreases x,
{
    if x == 0 {
        Seq::empty()
    } else {
        let to = Position { x: (x - 1) as usize, y: y as usize };
        let rest = rank_drops(v, player, kind, y, (x - 1) as nat);
        if drop_allowed(v, player, kind, to) {
            rest.push(Move::Drop { kind, to })
        } else {
            rest
        }
    }
}

/// The drops of `kind` onto the first `y` ranks, in reading order.
pub open spec fn kind_drops(v: BoardView, player: PlayerId, kind: PieceKind, y: nat) -> Seq<Move>
    decreases y,
{
    if y == 0 {
        Seq::empty()
    } else {
        kind_drops(v, player, kind, (y - 1) as nat) + rank_drops(
            v,
            player,
            kind,
            (y - 1) as nat,
            v.width,
        )
    }
}

/// The drops of the first `k` kinds of the enumeration: for each kind that the
/// side holds, every allowed drop.
pub open spec fn hand_drops(v: BoardView, player: PlayerId, k: nat) -> Seq<Move>
    decreases k,
{
    if k == 0 {
        Seq::empty()
    } else {
        let kind = PieceKind::at(k - 1);
        let rest = hand_drops(v, player, (k - 1) as nat);
        if v.hand_count(player, kind) > 0 {
            rest + kind_drops(v, player, kind, v.height)
        } else {
            rest
        }
    }
}

/// All pseudo-legal moves of a side: the board moves of its pieces in reading
/// order of their squares, then, if the side may drop, the drops by kind.
pub open spec fn pseudo_legal(v: BoardView, player: PlayerId) -> Seq<Move> {
    let on_board = board_moves(v, player, v.height);
    if v.config(player).can_drop {
        on_board + hand_drops(v, player, PIECE_KINDS as nat)
    } else {
        on_board
    }
}

/// The square at an offset from `pos`, if it lies on the board.
pub fn offset_pos(pos: Position, dx: i32, dy: i32, board: &Board) -> (r: Option<Position>)
    ensures
        r == shifted(board@, pos, dx as int, dy as int),
{
    let x: i128 = pos.x as i128 + dx as i128;
    let y: i128 = pos.y as i128 + dy as i128;
    if x >= 0 && x < board.width() as i128 && y >= 0 && y < board.height() as i128 {
        Some(Position::new(x as usize, y as usize))
    } else {
        None
    }
}

/// Whether `pos` lies in the promotion zone of `owner`.
fn in_zone(board: &Board, owner: PlayerId, pos: Position) -> (b: bool)
    requires
        board.wf(),
    ensures
        b == in_promotion_zone(board@, owner, pos),
{
    proof {
        board.lemma_view_wf();
    }
    match owner {
        PlayerId::Player1 => pos.y <= 2,
        PlayerId::Player2 => pos.y >= board.height() || pos.y + 3 >= board.height(),
    }
}

/// Whether a piece that arrives on `to` has to promote.
fn forced_promotion(board: &Board, piece: &Piece, to: Position) -> (b: bool)
    requires
        board.wf(),
    ensures
        b == must_promote(board@, piece.kind, piece.owner, to),
{
    proof {
        board.lemma_view_wf();
    }
    match piece.kind {
        PieceKind::S_Pawn | PieceKind::S_Lance => match piece.owner {
            PlayerId::Player1 => to.y == 0,
            PlayerId::Player2 => to.y < board.height() && to.y + 1 == board.height(),
        },
        PieceKind::S_Knight => match piece.owner {
            PlayerId::Player1 => to.y <= 1,
            PlayerId::Player2 => to.y >= board.height() || to.y + 2 >= board.height(),
        },
        _ => false,
    }
}

/// Appends the variants of the board move from `from` to `to`.
pub fn add_normal_moves(
    board: &Board,
    moves: &mut Vec<Move>,
    from: Position,
    to: Position,
    piece: &Piece,
    can_promote: bool,
)
    requires
        board.wf(),
    ensures
        final(moves)@ == old(moves)@ + move_variants(board@, from, to, *piece, can_promote),
{
    if can_promote {
        if let Some(target) = piece.promotable_kind() {
            if in_zone(board, piece.owner, to) || in_zone(board, piece.owner, from) {
                moves.push(Move::Normal { from, to, promote: Some(target) });
                if !forced_promotion(board, piece, to) {
                    moves.push(Move::Normal { from, to, promote: None });
                }
                proof {
                    assert(moves@ =~= old(moves)@ + move_variants(
                        board@,
                        from,
                        to,
                        *piece,
                        can_promote,
                    ));
                }
                return ;
            }
        }
    }
    moves.push(Move::Normal { from, to, promote: None });
    proof {
        assert(moves@ =~= old(moves)@ + move_variants(board@, from, to, *piece, can_promote));
    }
}

/// Whether the piece may end a move on `to`.
fn can_land(board: &Board, piece: &Piece, to: Position) -> (b: bool)
    requires
        board.wf(),
    ensures
        b == may_land(board@, *piece, to),
{
    match board.get_piece(to) {
        Some(target) => board.get_player_config(piece.owner).can_capture && target.owner
            != piece.owner,
        None => true,
    }
}

/// Appends the moves of a single step.
fn add_step_moves(
    board: &Board,
    moves: &mut Vec<Move>,
    from: Position,
    piece: &Piece,
    dx: i32,
    dy: i32,
)
    requires
        board.wf(),
    ensures
        final(moves)@ == old(moves)@ + step_moves(board@, from, *piece, dx as int, dy as int),
{
    if let Some(to) = offset_pos(from, dx, dy, board) {
        if can_land(board, piece, to) {
            let can_promote = board.get_player_config(piece.owner).can_promote;
            add_normal_moves(board, moves, from, to, piece, can_promote);
            return ;
        }
    }
    proof {
        assert(moves@ =~= old(moves)@ + step_moves(board@, from, *piece, dx as int, dy as int));
    }
}

/// Appends the moves of a ray.
fn add_slide_moves(
    board: &Board,
    moves: &mut Vec<Move>,
    from: Position,
    piece: &Piece,
    dx: i32,
    dy: i32,
)
    requires
        board.wf(),
    ensures
        final(moves)@ == old(moves)@ + slide_moves(
            board@,
            from,
            *piece,
            dx as int,
            dy as int,
            from,
            MAX_SIDE as nat,
        ),
{
    let can_promote = board.get_player_config(piece.owner).can_promote;
    let mut curr = from;
    let mut fuel: usize = MAX_SIDE;
    while fuel > 0
        invariant
            board.wf(),
            can_promote == board@.config(piece.owner).can_promote,
            old(moves)@ + slide_moves(
                board@,
                from,
                *piece,
                dx as int,
                dy as int,
                from,
                MAX_SIDE as nat,
            ) == moves@ + slide_moves(
                board@,
                from,
                *piece,
                dx as int,
                dy as int,
                curr,
                fuel as nat,
            ),
        decreases fuel,
    {
        let ghost before = moves@;
        let ghost rest = slide_moves(
            board@,
            from,
            *piece,
            dx as int,
            dy as int,
            curr,
            fuel as nat,
        );
        match offset_pos(curr, dx, dy, board) {
            None => {
                proof {
                    assert(before + rest =~= before);
                }
                return ;
            },
            Some(to) => {
                if can_land(board, piece, to) {
                    add_normal_moves(board, moves, from, to, piece, can_promote);
                }
                if board.get_piece(to).is_some() {
                    proof {
                        assert(before + rest =~= moves@);
                    }
                    return ;
                }
                proof {
                    let tail = slide_moves(
                        board@,
                        from,
                        *piece,
                        dx as int,
                        dy as int,
                        to,
                        (fuel - 1) as nat,
                    );
                    assert(before + rest =~= moves@ + tail);
                }
                curr = to;
                fuel -= 1;
            },
        }
    }
    proof {
        assert(moves@ + Seq::<Move>::empty() =~= moves@);
    }
}

/// Appends the variants of one move of a chess pawn.
fn add_pawn_variants(board: &Board, moves: &mut Vec<Move>, from: Position, to: Position, owner: PlayerId)
    requires
        board.wf(),
    ensures
        final(moves)@ == old(moves)@ + pawn_variants(board@, from, to, owner),
{
    proof {
        board.lemma_view_wf();
    }
    let last = match owner {
        PlayerId::Player1 => to.y == 0,
        PlayerId::Player2 => to.y < board.height() && to.y + 1 == board.height(),
    };
    if last {
        moves.push(Move::Normal { from, to, promote: Some(PieceKind::C_Queen) });
        moves.push(Move::Normal { from, to, promote: Some(PieceKind::C_Rook) });
        moves.push(Move::Normal { from, to, promote: Some(PieceKind::C_Bishop) });
        moves.push(Move::Normal { from, to, promote: Some(PieceKind::C_Knight) });
    } else {
        moves.push(Move::Normal { from, to, promote: None });
    }
    proof {
        assert(moves@ =~= old(moves)@ + pawn_variants(board@, from, to, owner));
    }
}

/// Appends the capture of a chess pawn towards file offset `dx`.
fn add_pawn_capture(board: &Board, moves: &mut Vec<Move>, from: Position, owner: PlayerId, dx: i32)
    requires
        board.wf(),
    ensures
        final(moves)@ == old(moves)@ + pawn_capture(board@, from, owner, dx as int),
{
    let forward: i32 = match owner {
        PlayerId::Player1 => -1,
        PlayerId::Player2 => 1,
    };
    if let Some(to) = offset_pos(from, dx, forward, board) {
        if let Some(target) = board.get_piece(to) {
            if target.owner != owner {
                add_pawn_variants(board, moves, from, to, owner);
                return ;
            }
        }
    }
    proof {
        assert(moves@ =~= old(moves)@ + pawn_capture(board@, from, owner, dx as int));
    }
}

/// The moves of the chess pawn `piece` standing on `from`.
pub fn get_chess_pawn_moves(board: &Board, from: Position, piece: &Piece) -> (moves: Vec<Move>)
    requires
        board.wf(),
    ensures
        moves@ == chess_pawn_moves(board@, from, *piece),
{
    let mut moves: Vec<Move> = Vec::new();
    let owner = piece.owner;
    let forward: i32 = match owner {
        PlayerId::Player1 => -1,
        PlayerId::Player2 => 1,
    };
    let start_y: usize = match owner {
        PlayerId::Player1 => 6,
        PlayerId::Player2 => 1,
    };
    if let Some(to) = offset_pos(from, 0, forward, board) {
        if board.get_piece(to).is_none() {
            add_pawn_variants(board, &mut moves, from, to, owner);
            if from.y == start_y {
                if let Some(to2) = offset_pos(from, 0, forward * 2, board) {
                    if board.get_piece(to2).is_none() {
                        add_pawn_variants(board, &mut moves, from, to2, owner);
                    }
                }
            }
        }
    }
    proof {
        assert(moves@ =~= pawn_advances(board@, from, owner));
    }
    add_pawn_capture(board, &mut moves, from, owner, -1);
    add_pawn_capture(board, &mut moves, from, owner, 1);
    moves
}

/// The pseudo-legal moves of `piece` standing on `from`.
pub fn get_piece_moves(board: &Board, from: Position, piece: &Piece) -> (moves: Vec<Move>)
    requires
        board.wf(),
    ensures
        moves@ == piece_moves(board@, from, *piece),
{
    if piece.kind == PieceKind::C_Pawn {
        return get_chess_pawn_moves(board, from, piece);
    }
    let mut moves: Vec<Move> = Vec::new();
    let rules = piece.movement_rules();
    let mut i: usize = 0;
    while i < rules.len()
        invariant
            board.wf(),
            i <= rules@.len(),
            rules@ == movement_table(piece.kind, piece.owner),
            moves@ == table_moves(board@, from, *piece, rules@.subrange(0, i as int)),
        decreases rules@.len() - i,
    {
        proof {
            assert(rules@.subrange(0, i + 1).drop_last() =~= rules@.subrange(0, i as int));
        }
        match rules[i] {
            MoveStep::Step(dx, dy) => {
                add_step_moves(board, &mut moves, from, piece, dx, dy);
            },
            MoveStep::Slide(dx, dy) => {
                add_slide_moves(board, &mut moves, from, piece, dx, dy);
            },
        }
        i += 1;
    }
    proof {
        assert(rules@.subrange(0, i as int) =~= rules@);
    }
    moves
}

/// Whether file `x` holds an unpromoted shogi pawn of `player`.
pub fn has_pawn_in_column(board: &Board, player: PlayerId, x: usize) -> (b: bool)
    requires
        board.wf(),
    ensures
        b == pawn_in_file(board@, player, x),
{
    let mut y: usize = 0;
    while y < board.height()
        invariant
            board.wf(),
            y <= board@.height,
            forall|j: usize|
                j < y ==> !#[trigger] holds_shogi_pawn(board@, player, Position { x, y: j }),
        decreases board@.height - y,
    {
        if let Some(p) = board.get_piece(Position::new(x, y)) {
            if p.owner == player && p.kind == PieceKind::S_Pawn {
                proof {
                    assert(holds_shogi_pawn(board@, player, Position { x, y }));
                }
                return true;
            }
        }
        y += 1;
    }
    false
}

/// Appends the board moves of `player`.
fn add_board_moves(board: &Board, moves: &mut Vec<Move>, player: PlayerId)
    requires
        board.wf(),
    ensures
        final(moves)@ == old(moves)@ + board_moves(board@, player, board@.height),
{
    let mut y: usize = 0;
    proof {
        assert(moves@ =~= old(moves)@ + board_moves(board@, player, 0));
    }
    while y < board.height()
        invariant
            board.wf(),
            y <= board@.height,
            moves@ == old(moves)@ + board_moves(board@, player, y as nat),
        decreases board@.height - y,
    {
        let ghost row_start = moves@;
        let mut x: usize = 0;
        proof {
            assert(moves@ =~= row_start + rank_moves(board@, player, y as nat, 0));
        }
        while x < board.width()
            invariant
                board.wf(),
                y < board@.height,
                x <= board@.width,
                moves@ == row_start + rank_moves(board@, player, y as nat, x as nat),
            decreases board@.width - x,
        {
            let pos = Position::new(x, y);
            let ghost before = moves@;
            if let Some(piece) = board.get_piece(pos) {
                if piece.owner == player {
                    let mut found = get_piece_moves(board, pos, piece);
                    moves.append(&mut found);
                }
            }
            proof {
                assert(moves@ =~= before + square_moves(board@, player, pos));
                assert(moves@ =~= row_start + rank_moves(board@, player, y as nat, (x + 1) as nat));
            }
            x += 1;
        }
        proof {
            assert(moves@ =~= old(moves)@ + board_moves(board@, player, (y + 1) as nat));
        }
        y += 1;
    }
}

/// Appends the drops of `kind` for `player`.
fn add_kind_drops(board: &Board, moves: &mut Vec<Move>, player: PlayerId, kind: PieceKind)
    requires
        board.wf(),
    ensures
        final(moves)@ == old(moves)@ + kind_drops(board@, player, kind, board@.height),
{
    let mut y: usize = 0;
    proof {
        assert(moves@ =~= old(moves)@ + kind_drops(board@, player, kind, 0));
    }
    while y < board.height()
        invariant
            board.wf(),
            y <= board@.height,
            moves@ == old(moves)@ + kind_drops(board@, player, kind, y as nat),
        decreases board@.height - y,
    {
        let ghost row_start = moves@;
        let mut x: usize = 0;
        proof {
            assert(moves@ =~= row_start + rank_drops(board@, player, kind, y as nat, 0));
        }
        while x < board.width()
            invariant
                board.wf(),
                y < board@.height,
                x <= board@.width,
                moves@ == row_start + rank_drops(board@, player, kind, y as nat, x as nat),
            decreases board@.width - x,
        {
            let to = Position::new(x, y);
            if board.get_piece(to).is_none() {
                if !(kind == PieceKind::S_Pawn && has_pawn_in_column(board, player, x)) {
                    moves.push(Move::Drop { kind, to });
                }
            }
            proof {
                assert(moves@ =~= row_start + rank_drops(
                    board@,
                    player,
                    kind,
                    y as nat,
                    (x + 1) as nat,
                ));
            }
            x += 1;
        }
        proof {
            assert(moves@ =~= old(moves)@ + kind_drops(board@, player, kind, (y + 1) as nat));
        }
        y += 1;
    }
}

/// All pseudo-legal moves of a side.
pub fn pseudo_legal_moves(board: &Board, player: PlayerId) -> (moves: Vec<Move>)
    requires
        board.wf(),
    ensures
        moves@ == pseudo_legal(board@, player),
{
    let mut moves: Vec<Move> = Vec::new();
    add_board_moves(board, &mut moves, player);
    proof {
        assert(moves@ =~= board_moves(board@, player, board@.height));
    }
    if board.get_player_config(player).can_drop {
        let ghost on_board = moves@;
        let mut k: usize = 0;
        proof {
            assert(moves@ =~= on_board + hand_drops(board@, player, 0));
        }
        while k < PIECE_KINDS
            invariant
                board.wf(),
                k <= PIECE_KINDS,
                moves@ == on_board + hand_drops(board@, player, k as nat),
            decreases PIECE_KINDS - k,
        {
            let kind = PieceKind::from_index(k);
            if board.hand_count(player, kind) > 0 {
                add_kind_drops(board, &mut moves, player, kind);
            }
            proof {
                assert(moves@ =~= on_board + hand_drops(board@, player, (k + 1) as nat));
            }
            k += 1;
        }
    }
    moves
}

} // verus!
