//! The static evaluator: a score of a position from the first player's point
//! of view, from material, piece placement, pawn structure, king safety,
//! hands, mobility, a few tactical patterns and development.

use vstd::prelude::*;
use crate::logic::movegen::shifted;
use crate::logic::rules::{legal, legal_moves};
use crate::model::board::{Board, BoardView};
use crate::model::mv::Move;
use crate::model::piece::{PieceKind, PIECE_KINDS};
use crate::model::types::{PlayerId, Position};
use super::evaluator::Evaluator;
use super::pst::{get_pst_value, lemma_pst_value_bounds, pst_value};

verus! {

pub const VAL_PAWN: i32 = 100;

pub const VAL_LANCE: i32 = 300;

pub const VAL_S_KNIGHT: i32 = 400;

pub const VAL_C_KNIGHT: i32 = 500;

pub const VAL_SILVER: i32 = 500;

pub const VAL_GOLD: i32 = 600;

pub const VAL_BISHOP: i32 = 800;

pub const VAL_ROOK: i32 = 1000;

/// Large enough to outweigh everything else, small enough to calculate with.
pub const VAL_KING: i32 = 20000;

pub const VAL_PRO_PAWN: i32 = 700;

pub const VAL_PRO_LANCE: i32 = 700;

pub const VAL_PRO_KNIGHT: i32 = 700;

pub const VAL_PRO_SILVER: i32 = 700;

pub const VAL_PRO_BISHOP: i32 = 1200;

pub const VAL_PRO_ROOK: i32 = 1500;

pub const VAL_QUEEN: i32 = 1800;

/// The multiplier, in thousandths, by which a piece in hand is worth more
/// than on the board, unless another one is asked for.
pub const DEFAULT_HAND_PERMILLE: u32 = 1100;

/// The material value of a kind, in hundredths of a pawn.
pub open spec fn material_value(k: PieceKind) -> int {
    match k {
        PieceKind::S_Pawn | PieceKind::C_Pawn => 100,
        PieceKind::S_Lance => 300,
        PieceKind::S_Knight => 400,
        PieceKind::C_Knight => 500,
        PieceKind::S_Silver => 500,
        PieceKind::S_Gold => 600,
        PieceKind::S_Bishop | PieceKind::C_Bishop => 800,
        PieceKind::S_Rook | PieceKind::C_Rook => 1000,
        PieceKind::S_King | PieceKind::C_King => 20000,
        PieceKind::C_Queen => 1800,
        PieceKind::S_ProPawn
        | PieceKind::S_ProLance
        | PieceKind::S_ProKnight
        | PieceKind::S_ProSilver => 700,
        PieceKind::S_ProBishop => 1200,
        PieceKind::S_ProRook => 1500,
    }
}

/// The material value of a kind.
pub fn piece_val(k: PieceKind) -> (v: i32)
    ensures
        v == material_value(k),
        100 <= v <= 20000,
{
    match k {
        PieceKind::S_Pawn | PieceKind::C_Pawn => VAL_PAWN,
        PieceKind::S_Lance => VAL_LANCE,
        PieceKind::S_Knight => VAL_S_KNIGHT,
        PieceKind::C_Knight => VAL_C_KNIGHT,
        PieceKind::S_Silver => VAL_SILVER,
        PieceKind::S_Gold => VAL_GOLD,
        PieceKind::S_Bishop | PieceKind::C_Bishop => VAL_BISHOP,
        PieceKind::S_Rook | PieceKind::C_Rook => VAL_ROOK,
        PieceKind::S_King | PieceKind::C_King => VAL_KING,
        PieceKind::C_Queen => VAL_QUEEN,
        PieceKind::S_ProPawn => VAL_PRO_PAWN,
        PieceKind::S_ProLance => VAL_PRO_LANCE,
        PieceKind::S_ProKnight => VAL_PRO_KNIGHT,
        PieceKind::S_ProSilver => VAL_PRO_SILVER,
        PieceKind::S_ProBishop => VAL_PRO_BISHOP,
        PieceKind::S_ProRook => VAL_PRO_ROOK,
    }
}

/// The stage of the game, judged by the material left on the board.
#[derive(Debug, Clone, Copy, PartialEq, Eq, Structural)]
pub enum GamePhase {
    Opening,
    Midgame,
    Endgame,
}

/// What is counted on each square when a sum is taken over the board.
#[derive(Debug, Clone, Copy, PartialEq, Eq, Structural)]
pub enum Measure {
    /// Material value and positional bonus of the piece, counted for the
    /// first player and against the second.
    Material,
    /// The material value of the piece, whoever owns it.
    Total,
    /// 1 for a pawn of the player before which no enemy pawn stands in its file.
    PassedPawn(PlayerId),
    /// 1 for a bishop of the player.
    Bishop(PlayerId),
    /// 1 for a rook or promoted rook of the player in a file without pawns.
    OpenFileRook(PlayerId),
    /// 1 for a bishop, rook or knight of the player that still stands on the
    /// rank on which the side starts.
    Undeveloped(PlayerId),
}

/// Whether square `p` holds a pawn of `owner`.
pub open spec fn pawn_of(v: BoardView, p: Position, owner: PlayerId) -> bool {
    match v.piece_at(p) {
        Some(piece) => piece.owner == owner && piece.kind.is_pawn(),
        None => false,
    }
}

/// Whether square `p` holds a pawn.
pub open spec fn any_pawn(v: BoardView, p: Position) -> bool {
    match v.piece_at(p) {
        Some(piece) => piece.kind.is_pawn(),
        None => false,
    }
}

/// Whether file `x` holds a pawn of either side.
pub open spec fn file_has_pawn(v: BoardView, x: usize) -> bool {
    exists|y: usize| y < v.height && #[trigger] any_pawn(v, Position { x, y })
}

/// Whether rank `y` lies ahead of rank `from` for `player`.
pub open spec fn ahead_of(player: PlayerId, from: usize, y: usize) -> bool {
    match player {
        PlayerId::Player1 => y < from,
        PlayerId::Player2 => y > from,
    }
}

/// Whether a pawn of the other side stands ahead of `p` in its file, seen
/// from `player`.
pub open spec fn enemy_pawn_ahead(v: BoardView, p: Position, player: PlayerId) -> bool {
    exists|y: usize|
        y < v.height && ahead_of(player, p.y, y) && #[trigger] pawn_of(
            v,
            Position { x: p.x, y },
            player.other(),
        )
}

/// The rank on which the pieces of a side start.
pub open spec fn home_rank(player: PlayerId) -> int {
    match player {
        PlayerId::Player1 => 8,
        PlayerId::Player2 => 0,
    }
}

/// Whether a kind is a bishop, a rook or a knight that has not promoted.
pub open spec fn is_developing(k: PieceKind) -> bool {
    k == PieceKind::S_Bishop || k == PieceKind::C_Bishop || k == PieceKind::S_Rook || k
        == PieceKind::C_Rook || k == PieceKind::C_Knight || k == PieceKind::S_Knight
}

/// Whether a kind is a rook or a promoted rook.
pub open spec fn is_rook(k: PieceKind) -> bool {
    k == PieceKind::S_Rook || k == PieceKind::C_Rook || k == PieceKind::S_ProRook
}

/// What square `p` counts for under measure `m`.
pub open spec fn measure(v: BoardView, p: Position, m: Measure) -> int {
    match v.piece_at(p) {
        None => 0,
        Some(piece) => match m {
            Measure::Material => {
                let worth = material_value(piece.kind) + pst_value(
                    piece.kind,
                    p.y * 9 + p.x,
                    piece.owner,
                );
                match piece.owner {
                    PlayerId::Player1 => worth,
                    PlayerId::Player2 => -worth,
                }
            },
            Measure::Total => material_value(piece.kind),
            Measure::PassedPawn(player) => if piece.owner == player && piece.kind.is_pawn()
                && !enemy_pawn_ahead(v, p, player) {
                1
            } else {
                0
            },
            Measure::Bishop(player) => if piece.owner == player && (piece.kind
                == PieceKind::S_Bishop || piece.kind == PieceKind::C_Bishop) {
                1
            } else {
                0
            },
            Measure::OpenFileRook(player) => if piece.owner == player && is_rook(piece.kind)
                && !file_has_pawn(v, p.x) {
                1
            } else {
                0
            },
            Measure::Undeveloped(player) => if piece.owner == player && p.y == home_rank(player)
                && is_developing(piece.kind) {
                1
            } else {
                0
            },
        },
    }
}

/// The sum of a measure over the first `x` squares of rank `y`.
pub open spec fn rank_sum(v: BoardView, y: nat, x: nat, m: Measure) -> int
    decreases x,
{
    if x == 0 {
        0
    } else {
        rank_sum(v, y, (x - 1) as nat, m) + measure(
            v,
            Position { x: (x - 1) as usize, y: y as usize },
            m,
        )
    }
}

/// The sum of a measure over the first `y` ranks.
pub open spec fn board_sum(v: BoardView, y: nat, m: Measure) -> int
    decreases y,
{
    if y == 0 {
        0
    } else {
        board_sum(v, (y - 1) as nat, m) + rank_sum(v, (y - 1) as nat, v.width, m)
    }
}

/// Whether file `x` holds a pawn of either side.
fn has_pawn_in_file(board: &Board, x: usize) -> (b: bool)
    requires
        board.wf(),
    ensures
        b == file_has_pawn(board@, x),
{
    let mut y: usize = 0;
    while y < board.height()
        invariant
            board.wf(),
            y <= board@.height,
            forall|j: usize| j < y ==> !#[trigger] any_pawn(board@, Position { x, y: j }),
        decreases board@.height - y,
    {
        if let Some(p) = board.get_piece(Position::new(x, y)) {
            if p.kind.is_pawn_kind() {
                proof {
                    assert(any_pawn(board@, Position { x, y }));
                }
                return true;
            }
        }
        y += 1;
    }
    false
}

/// Whether a pawn of the other side stands ahead of `pos` in its file.
fn has_enemy_pawn_ahead(board: &Board, pos: Position, player: PlayerId) -> (b: bool)
    requires
        board.wf(),
    ensures
        b == enemy_pawn_ahead(board@, pos, player),
{
    let enemy = player.opponent();
    let mut y: usize = 0;
    while y < board.height()
        invariant
            board.wf(),
            enemy == player.other(),
            y <= board@.height,
            forall|j: usize|
                j < y && ahead_of(player, pos.y, j) ==> !#[trigger] pawn_of(
                    board@,
                    Position { x: pos.x, y: j },
                    enemy,
                ),
        decreases board@.height - y,
    {
        let ahead = match player {
            PlayerId::Player1 => y < pos.y,
            PlayerId::Player2 => y > pos.y,
        };
        if ahead {
            if let Some(p) = board.get_piece(Position::new(pos.x, y)) {
                if p.owner == enemy && p.kind.is_pawn_kind() {
                    proof {
                        assert(pawn_of(board@, Position { x: pos.x, y }, enemy));
                    }
                    return true;
                }
            }
        }
        y += 1;
    }
    false
}

/// What square `pos` counts for under measure `m`.
pub fn measure_at(board: &Board, pos: Position, m: Measure) -> (r: i32)
    requires
        board.wf(),
    ensures
        r == measure(board@, pos, m),
        -20040 <= r <= 20040,
{
    proof {
        board.lemma_view_wf();
    }
    let piece = match board.get_piece(pos) {
        Some(p) => *p,
        None => {
            return 0;
        },
    };
    assert(pos.x < 9 && pos.y < 9);
    match m {
        Measure::Material => {
            let pst = get_pst_value(piece.kind, pos.y * 9 + pos.x, piece.owner);
            proof {
                lemma_pst_value_bounds(piece.kind, pos.y * 9 + pos.x, piece.owner);
            }
            let worth = piece_val(piece.kind) + pst;
            match piece.owner {
                PlayerId::Player1 => worth,
                PlayerId::Player2 => -worth,
            }
        },
        Measure::Total => piece_val(piece.kind),
        Measure::PassedPawn(player) => {
            if piece.owner == player && piece.kind.is_pawn_kind() && !has_enemy_pawn_ahead(
                board,
                pos,
                player,
            ) {
                1
            } else {
                0
            }
        },
        Measure::Bishop(player) => {
            if piece.owner == player && (piece.kind == PieceKind::S_Bishop || piece.kind
                == PieceKind::C_Bishop) {
                1
            } else {
                0
            }
        },
        Measure::OpenFileRook(player) => {
            if piece.owner == player && (piece.kind == PieceKind::S_Rook || piece.kind
                == PieceKind::C_Rook || piece.kind == PieceKind::S_ProRook) && !has_pawn_in_file(
                board,
                pos.x,
            ) {
                1
            } else {
                0
            }
        },
        Measure::Undeveloped(player) => {
            let home: usize = match player {
                PlayerId::Player1 => 8,
                PlayerId::Player2 => 0,
            };
            if piece.owner == player && pos.y == home && (piece.kind == PieceKind::S_Bishop
                || piece.kind == PieceKind::C_Bishop || piece.kind == PieceKind::S_Rook
                || piece.kind == PieceKind::C_Rook || piece.kind == PieceKind::C_Knight
                || piece.kind == PieceKind::S_Knight) {
                1
            } else {
                0
            }
        },
    }
}

/// The sum of a measure over the board.
pub fn sum_over_board(board: &Board, m: Measure) -> (r: i32)
    requires
        board.wf(),
    ensures
        r == board_sum(board@, board@.height, m),
        -1623240 <= r <= 1623240,
{
    proof {
        board.lemma_view_wf();
    }
    let mut total: i32 = 0;
    let mut y: usize = 0;
    while y < board.height()
        invariant
            board.wf(),
            board@.wf(),
            y <= board@.height,
            total == board_sum(board@, y as nat, m),
            -180360 * y <= total <= 180360 * y,
        decreases board@.height - y,
    {
        let mut row: i32 = 0;
        let mut x: usize = 0;
        while x < board.width()
            invariant
                board.wf(),
                board@.wf(),
                y < board@.height,
                x <= board@.width,
                row == rank_sum(board@, y as nat, x as nat, m),
                -20040 * x <= row <= 20040 * x,
            decreases board@.width - x,
        {
            row = row + measure_at(board, Position::new(x, y), m);
            x += 1;
        }
        total = total + row;
        y += 1;
    }
    total
}

/// The material value of all pieces on the board.
pub fn count_total_material(board: &Board) -> (r: i32)
    requires
        board.wf(),
    ensures
        r == board_sum(board@, board@.height, Measure::Total),
{
    sum_over_board(board, Measure::Total)
}

/// The stage of the game that goes with an amount of material on the board.
pub open spec fn phase_for(total: int) -> GamePhase {
    if total > 8000 {
        GamePhase::Opening
    } else if total > 4000 {
        GamePhase::Midgame
    } else {
        GamePhase::Endgame
    }
}

/// The stage of the game in a position.
pub open spec fn phase_of(v: BoardView) -> GamePhase {
    phase_for(board_sum(v, v.height, Measure::Total))
}

/// The stage of the game on a board.
pub fn detect_game_phase(board: &Board) -> (p: GamePhase)
    requires
        board.wf(),
    ensures
        p == phase_of(board@),
{
    let total_material = count_total_material(board);
    if total_material > 8000 {
        GamePhase::Opening
    } else if total_material > 4000 {
        GamePhase::Midgame
    } else {
        GamePhase::Endgame
    }
}

/// What a move counts for in mobility: 3 for a capture, 2 for a promotion
/// that is none, 1 for any other move.
pub open spec fn move_weight(v: BoardView, mv: Move) -> int {
    match mv {
        Move::Normal { to, promote, .. } => if v.piece_at(to) is Some {
            3
        } else if promote is Some {
            2
        } else {
            1
        },
        Move::Drop { .. } => 1,
    }
}

/// The sum of the weights of the moves of a list.
pub open spec fn weight_sum(v: BoardView, moves: Seq<Move>) -> int
    decreases moves.len(),
{
    if moves.len() == 0 {
        0
    } else {
        weight_sum(v, moves.drop_last()) + move_weight(v, moves.last())
    }
}

/// The mobility of a side: twice the weight of its legal moves, 200 at most.
pub open spec fn mobility(v: BoardView, player: PlayerId) -> int {
    let w = 2 * weight_sum(v, legal(v, player));
    if w < 200 {
        w
    } else {
        200
    }
}

/// The mobility of a side.
pub fn calculate_mobility(board: &Board, player: PlayerId) -> (r: i32)
    requires
        board.wf(),
    ensures
        r == mobility(board@, player),
        0 <= r <= 200,
{
    let moves = legal_moves(board, player);
    let mut weighted: u128 = 0;
    let mut i: usize = 0;
    while i < moves.len()
        invariant
            board.wf(),
            i <= moves@.len(),
            weighted == weight_sum(board@, moves@.subrange(0, i as int)),
            0 <= weighted <= 3 * i,
        decreases moves@.len() - i,
    {
        proof {
            assert(moves@.subrange(0, i + 1).drop_last() =~= moves@.subrange(0, i as int));
        }
        match moves[i] {
            Move::Normal { to, promote, .. } => {
                if board.get_piece(to).is_some() {
                    weighted += 3;
                } else if promote.is_some() {
                    weighted += 2;
                } else {
                    weighted += 1;
                }
            },
            Move::Drop { .. } => {
                weighted += 1;
            },
        }
        i += 1;
    }
    proof {
        assert(moves@.subrange(0, i as int) =~= moves@);
    }
    if weighted < 100 {
        (weighted * 2) as i32
    } else {
        200
    }
}

/// What is counted on the squares around a king.
#[derive(Debug, Clone, Copy, PartialEq, Eq, Structural)]
pub enum Nearby {
    /// The strength of a piece of the king's side as a defender.
    Defender,
    /// 1 for a square to which the king could go: empty or held by the enemy.
    Escape,
    /// The strength of an enemy piece as an attacker.
    Attacker,
    /// 1 for a piece of the side itself.
    Friend,
}

/// What a piece of a kind counts for as a defender next to its king.
pub open spec fn defender_bonus(k: PieceKind) -> int {
    match k {
        PieceKind::S_Gold
        | PieceKind::S_Silver
        | PieceKind::S_ProPawn
        | PieceKind::S_ProLance
        | PieceKind::S_ProKnight
        | PieceKind::S_ProSilver
        | PieceKind::S_ProBishop
        | PieceKind::S_ProRook => 40,
        PieceKind::S_Lance | PieceKind::S_Knight => 20,
        PieceKind::S_Pawn | PieceKind::C_Pawn => 15,
        _ => 10,
    }
}

/// What an enemy piece of a kind counts for as an attacker near a king.
pub open spec fn attacker_weight(k: PieceKind) -> int {
    match k {
        PieceKind::S_Rook | PieceKind::S_ProRook | PieceKind::C_Rook | PieceKind::C_Queen => 3,
        PieceKind::S_Bishop | PieceKind::S_ProBishop | PieceKind::C_Bishop => 2,
        _ => 1,
    }
}

/// What square `p` counts for near the king of `owner`.
pub open spec fn nearby(v: BoardView, p: Position, owner: PlayerId, what: Nearby) -> int {
    match what {
        Nearby::Defender => match v.piece_at(p) {
            Some(piece) => if piece.owner == owner {
                defender_bonus(piece.kind)
            } else {
                0
            },
            None => 0,
        },
        Nearby::Escape => match v.piece_at(p) {
            Some(piece) => if piece.owner != owner {
                1
            } else {
                0
            },
            None => 1,
        },
        Nearby::Attacker => match v.piece_at(p) {
            Some(piece) => if piece.owner != owner {
                attacker_weight(piece.kind)
            } else {
                0
            },
            None => 0,
        },
        Nearby::Friend => match v.piece_at(p) {
            Some(piece) => if piece.owner == owner {
                1
            } else {
                0
            },
            None => 0,
        },
    }
}

/// What the square at the offset (`dx`, `dy`) from `c` counts for; the square
/// `c` itself and squares off the grid count for nothing.
pub open spec fn window_cell(
    v: BoardView,
    c: Position,
    dx: int,
    dy: int,
    owner: PlayerId,
    what: Nearby,
) -> int {
    if dx == 0 && dy == 0 {
        0
    } else {
        match shifted(v, c, dx, dy) {
            Some(p) => nearby(v, p, owner, what),
            None => 0,
        }
    }
}

/// The sum over the first `n` squares of one rank of the window of radius `r`
/// around `c`, the rank at offset `dy`.
pub open spec fn window_row(
    v: BoardView,
    c: Position,
    r: int,
    dy: int,
    n: nat,
    owner: PlayerId,
    what: Nearby,
) -> int
    decreases n,
{
    if n == 0 {
        0
    } else {
        window_row(v, c, r, dy, (n - 1) as nat, owner, what) + window_cell(
            v,
            c,
            n - 1 - r,
            dy,
            owner,
            what,
        )
    }
}

/// The sum over the first `rows` ranks of the window of radius `r` around `c`.
pub open spec fn window_sum(
    v: BoardView,
    c: Position,
    r: int,
    rows: nat,
    owner: PlayerId,
    what: Nearby,
) -> int
    decreases rows,
{
    if rows == 0 {
        0
    } else {
        window_sum(v, c, r, (rows - 1) as nat, owner, what) + window_row(
            v,
            c,
            r,
            rows - 1 - r,
            (2 * r + 1) as nat,
            owner,
            what,
        )
    }
}

/// The sum over the whole window of radius `r` around `c`.
pub open spec fn around(v: BoardView, c: Position, r: int, owner: PlayerId, what: Nearby) -> int {
    window_sum(v, c, r, (2 * r + 1) as nat, owner, what)
}

/// What square `p` counts for near the king of `owner`.
pub fn nearby_at(board: &Board, p: Position, owner: PlayerId, what: Nearby) -> (r: i32)
    requires
        board.wf(),
    ensures
        r == nearby(board@, p, owner, what),
        0 <= r <= 40,
{
    match what {
        Nearby::Defender => match board.get_piece(p) {
            Some(piece) => {
                if piece.owner == owner {
                    match piece.kind {
                        PieceKind::S_Gold
                        | PieceKind::S_Silver
                        | PieceKind::S_ProPawn
                        | PieceKind::S_ProLance
                        | PieceKind::S_ProKnight
                        | PieceKind::S_ProSilver
                        | PieceKind::S_ProBishop
                        | PieceKind::S_ProRook => 40,
                        PieceKind::S_Lance | PieceKind::S_Knight => 20,
                        PieceKind::S_Pawn | PieceKind::C_Pawn => 15,
                        _ => 10,
                    }
                } else {
                    0
                }
            },
            None => 0,
        },
        Nearby::Escape => match board.get_piece(p) {
            Some(piece) => {
                if piece.owner != owner {
                    1
                } else {
                    0
                }
            },
            None => 1,
        },
        Nearby::Attacker => match board.get_piece(p) {
            Some(piece) => {
                if piece.owner != owner {
                    match piece.kind {
                        PieceKind::S_Rook
                        | PieceKind::S_ProRook
                        | PieceKind::C_Rook
                        | PieceKind::C_Queen => 3,
                        PieceKind::S_Bishop | PieceKind::S_ProBishop | PieceKind::C_Bishop => 2,
                        _ => 1,
                    }
                } else {
                    0
                }
            },
            None => 0,
        },
        Nearby::Friend => match board.get_piece(p) {
            Some(piece) => {
                if piece.owner == owner {
                    1
                } else {
                    0
                }
            },
            None => 0,
        },
    }
}

/// The sum over the window of radius `r` around `c`.
pub fn sum_around(board: &Board, c: Position, r: i32, owner: PlayerId, what: Nearby) -> (total: i32)
    requires
        board.wf(),
        1 <= r <= 2,
    ensures
        total == around(board@, c, r as int, owner, what),
        0 <= total <= 1000,
{
    let side: i32 = 2 * r + 1;
    let mut total: i32 = 0;
    let mut j: i32 = 0;
    while j < side
        invariant
            board.wf(),
            1 <= r <= 2,
            side == 2 * r + 1,
            0 <= j <= side,
            total == window_sum(board@, c, r as int, j as nat, owner, what),
            0 <= total <= 200 * j,
        decreases side - j,
    {
        let dy = j - r;
        let mut row: i32 = 0;
        let mut i: i32 = 0;
        while i < side
            invariant
                board.wf(),
                1 <= r <= 2,
                side == 2 * r + 1,
                0 <= j < side,
                dy == j - r,
                0 <= i <= side,
                row == window_row(board@, c, r as int, dy as int, i as nat, owner, what),
                0 <= row <= 40 * i,
            decreases side - i,
        {
            let dx = i - r;
            if !(dx == 0 && dy == 0) {
                if let Some(p) = crate::logic::movegen::offset_pos(c, dx, dy, board) {
                    row = row + nearby_at(board, p, owner, what);
                }
            }
            i += 1;
        }
        total = total + row;
        j += 1;
    }
    total
}

/// The defenders next to the king on `kpos`, weighted by the stage of the
/// game: double in the opening, half in the endgame.
pub open spec fn defenders(v: BoardView, kpos: Position, owner: PlayerId, phase: GamePhase) -> int {
    let safety = around(v, kpos, 1, owner, Nearby::Defender);
    match phase {
        GamePhase::Opening => safety * 2,
        GamePhase::Midgame => safety,
        GamePhase::Endgame => safety / 2,
    }
}

/// The safety of the king of `owner` on `kpos`: its defenders, 15 for each
/// square to which it could go, less 30 for each unit of enemy strength in
/// the five by five squares around it.
pub open spec fn king_safety(v: BoardView, kpos: Position, owner: PlayerId, phase: GamePhase) -> int {
    defenders(v, kpos, owner, phase) + around(v, kpos, 1, owner, Nearby::Escape) * 15 - around(
        v,
        kpos,
        2,
        owner,
        Nearby::Attacker,
    ) * 30
}

/// The defenders next to the king on `kpos`, weighted by the stage of the game.
pub fn calc_king_safety(board: &Board, kpos: Position, owner: PlayerId, phase: GamePhase) -> (r: i32)
    requires
        board.wf(),
    ensures
        r == defenders(board@, kpos, owner, phase),
        0 <= r <= 2000,
{
    let safety = sum_around(board, kpos, 1, owner, Nearby::Defender);
    match phase {
        GamePhase::Opening => safety * 2,
        GamePhase::Midgame => safety,
        GamePhase::Endgame => safety / 2,
    }
}

/// The number of squares next to the king on `king_pos` that are empty or
/// held by the enemy.
pub fn count_king_escape_squares(board: &Board, king_pos: Position, owner: PlayerId) -> (r: i32)
    requires
        board.wf(),
    ensures
        r == around(board@, king_pos, 1, owner, Nearby::Escape),
        0 <= r <= 1000,
{
    sum_around(board, king_pos, 1, owner, Nearby::Escape)
}

/// The enemy strength within two squares of the king on `king_pos`.
pub fn count_enemy_attackers(board: &Board, king_pos: Position, owner: PlayerId) -> (r: i32)
    requires
        board.wf(),
    ensures
        r == around(board@, king_pos, 2, owner, Nearby::Attacker),
        0 <= r <= 1000,
{
    sum_around(board, king_pos, 2, owner, Nearby::Attacker)
}

/// The safety of the king of `owner` on `king_pos`.
pub fn enhanced_king_safety(board: &Board, king_pos: Position, owner: PlayerId, phase: GamePhase) -> (r:
    i32)
    requires
        board.wf(),
    ensures
        r == king_safety(board@, king_pos, owner, phase),
        -30000 <= r <= 17000,
{
    let mut safety: i32 = 0;
    safety += calc_king_safety(board, king_pos, owner, phase);
    let escapes = count_king_escape_squares(board, king_pos, owner);
    safety += escapes * 15;
    let attackers = count_enemy_attackers(board, king_pos, owner);
    safety -= attackers * 30;
    safety
}

/// The bonus of a side for tactical patterns: 50 for each passed pawn, 30 for
/// a pair of bishops, 40 for each rook in a file without pawns.
pub open spec fn tactical(v: BoardView, player: PlayerId) -> int {
    board_sum(v, v.height, Measure::PassedPawn(player)) * 50 + (if board_sum(
        v,
        v.height,
        Measure::Bishop(player),
    ) >= 2 {
        30int
    } else {
        0int
    }) + board_sum(v, v.height, Measure::OpenFileRook(player)) * 40
}

/// The number of pawns of `player` before which no enemy pawn stands in
/// their file.
pub fn count_passed_pawns(board: &Board, player: PlayerId) -> (r: i32)
    requires
        board.wf(),
    ensures
        r == board_sum(board@, board@.height, Measure::PassedPawn(player)),
        -1623240 <= r <= 1623240,
{
    sum_over_board(board, Measure::PassedPawn(player))
}

/// Whether `player` has two bishops or more on the board.
pub fn has_bishop_pair(board: &Board, player: PlayerId) -> (b: bool)
    requires
        board.wf(),
    ensures
        b == (board_sum(board@, board@.height, Measure::Bishop(player)) >= 2),
{
    sum_over_board(board, Measure::Bishop(player)) >= 2
}

/// The number of rooks of `player` in files without pawns.
pub fn count_rooks_on_open_files(board: &Board, player: PlayerId) -> (r: i32)
    requires
        board.wf(),
    ensures
        r == board_sum(board@, board@.height, Measure::OpenFileRook(player)),
        -1623240 <= r <= 1623240,
{
    sum_over_board(board, Measure::OpenFileRook(player))
}

/// The bonus of a side for tactical patterns.
pub fn detect_tactical_patterns(board: &Board, player: PlayerId) -> (r: i32)
    requires
        board.wf(),
    ensures
        r == tactical(board@, player),
        -150000000 <= r <= 150000000,
{
    let mut bonus: i32 = 0;
    bonus += count_passed_pawns(board, player) * 50;
    if has_bishop_pair(board, player) {
        bonus += 30;
    }
    bonus += count_rooks_on_open_files(board, player) * 40;
    bonus
}

/// The penalty of a side for pieces left at home: in the opening 10 for each
/// bishop, rook or knight on the side's home rank, later nothing.
pub open spec fn development(v: BoardView, player: PlayerId, phase: GamePhase) -> int {
    if phase == GamePhase::Opening {
        -board_sum(v, v.height, Measure::Undeveloped(player)) * 10
    } else {
        0
    }
}

/// The penalty of a side for pieces left at home.
pub fn development_score(board: &Board, player: PlayerId, phase: GamePhase) -> (r: i32)
    requires
        board.wf(),
    ensures
        r == development(board@, player, phase),
        -20000000 <= r <= 20000000,
{
    match phase {
        GamePhase::Opening => {
            let undeveloped = sum_over_board(board, Measure::Undeveloped(player));
            -undeveloped * 10
        },
        _ => 0,
    }
}

/// The number of pawns of `owner` on the first `y` ranks of file `x`.
pub open spec fn pawns_in_file(v: BoardView, owner: PlayerId, x: int, y: nat) -> int
    decreases y,
{
    if y == 0 {
        0
    } else {
        pawns_in_file(v, owner, x, (y - 1) as nat) + if 0 <= x <= usize::MAX && pawn_of(
            v,
            Position { x: x as usize, y: (y - 1) as usize },
            owner,
        ) {
            1int
        } else {
            0int
        }
    }
}

/// The penalty of a side for its pawns in file `x`: 20 for each pawn beyond
/// the first, and 20 if the file has pawns and neither neighbouring file has.
pub open spec fn file_penalty(v: BoardView, owner: PlayerId, x: int) -> int {
    let here = pawns_in_file(v, owner, x, v.height);
    let left = if x > 0 {
        pawns_in_file(v, owner, x - 1, v.height)
    } else {
        0
    };
    let right = if x + 1 < v.width {
        pawns_in_file(v, owner, x + 1, v.height)
    } else {
        0
    };
    (if here > 1 {
        20 * (here - 1)
    } else {
        0
    }) + (if here > 0 && left == 0 && right == 0 {
        20int
    } else {
        0int
    })
}

/// The pawn structure over the first `x` files: the penalties of the second
/// player less those of the first.
pub open spec fn structure(v: BoardView, x: nat) -> int
    decreases x,
{
    if x == 0 {
        0
    } else {
        structure(v, (x - 1) as nat) - file_penalty(v, PlayerId::Player1, x - 1) + file_penalty(
            v,
            PlayerId::Player2,
            x - 1,
        )
    }
}

/// The number of pawns of `owner` in file `x`.
fn count_pawns_in_file(board: &Board, owner: PlayerId, x: usize) -> (n: i32)
    requires
        board.wf(),
    ensures
        n == pawns_in_file(board@, owner, x as int, board@.height),
        0 <= n <= 9,
{
    proof {
        board.lemma_view_wf();
    }
    let mut n: i32 = 0;
    let mut y: usize = 0;
    while y < board.height()
        invariant
            board.wf(),
            board@.wf(),
            y <= board@.height,
            n == pawns_in_file(board@, owner, x as int, y as nat),
            0 <= n <= y,
        decreases board@.height - y,
    {
        if let Some(p) = board.get_piece(Position::new(x, y)) {
            if p.owner == owner && p.kind.is_pawn_kind() {
                n += 1;
            }
        }
        y += 1;
    }
    n
}

/// The penalty of a side for its pawns in file `x`.
fn penalty_in_file(board: &Board, owner: PlayerId, x: usize) -> (r: i32)
    requires
        board.wf(),
        x < board@.width,
    ensures
        r == file_penalty(board@, owner, x as int),
        0 <= r <= 200,
{
    proof {
        board.lemma_view_wf();
    }
    let here = count_pawns_in_file(board, owner, x);
    let left = if x > 0 {
        count_pawns_in_file(board, owner, x - 1)
    } else {
        0
    };
    let right = if x + 1 < board.width() {
        count_pawns_in_file(board, owner, x + 1)
    } else {
        0
    };
    let mut r: i32 = 0;
    if here > 1 {
        r += 20 * (here - 1);
    }
    if here > 0 && left == 0 && right == 0 {
        r += 20;
    }
    r
}

/// The pawn structure of the board.
pub fn pawn_structure(board: &Board) -> (r: i32)
    requires
        board.wf(),
    ensures
        r == structure(board@, board@.width),
        -1800 <= r <= 1800,
{
    proof {
        board.lemma_view_wf();
    }
    let mut r: i32 = 0;
    let mut x: usize = 0;
    while x < board.width()
        invariant
            board.wf(),
            board@.wf(),
            x <= board@.width,
            r == structure(board@, x as nat),
            -200 * x <= r <= 200 * x,
        decreases board@.width - x,
    {
        r = r - penalty_in_file(board, PlayerId::Player1, x) + penalty_in_file(
            board,
            PlayerId::Player2,
            x,
        );
        x += 1;
    }
    r
}

/// What one piece of `kind` in hand is worth: its material value times the
/// multiplier, in thousandths, rounded down.
pub open spec fn hand_unit(kind: PieceKind, permille: nat) -> int {
    material_value(kind) * permille / 1000
}

/// What the first `k` kinds in the hand of `owner` are worth.
pub open spec fn hand_value(v: BoardView, owner: PlayerId, k: nat, permille: nat) -> int
    decreases k,
{
    if k == 0 {
        0
    } else {
        hand_value(v, owner, (k - 1) as nat, permille) + hand_unit(PieceKind::at(k - 1), permille)
            * v.hand_count(owner, PieceKind::at(k - 1))
    }
}

/// The product of two bounded natural numbers is bounded by the product of
/// the bounds.
proof fn lemma_product_bound(a: int, b: int, amax: int, bmax: int)
    requires
        0 <= a <= amax,
        0 <= b <= bmax,
    ensures
        0 <= a * b <= amax * bmax,
{
    assert(0 <= a * b <= amax * bmax) by (nonlinear_arith)
        requires
            0 <= a <= amax,
            0 <= b <= bmax,
    ;
}

/// What the hand of `owner` is worth.
pub fn hand_material(board: &Board, owner: PlayerId, permille: u32) -> (r: i128)
    requires
        board.wf(),
    ensures
        r == hand_value(board@, owner, PIECE_KINDS as nat, permille as nat),
        0 <= r <= 20 * 0x1_0000_0000_0000_0000_0000_0000_00,
{
    let mut total: i128 = 0;
    let mut k: usize = 0;
    while k < PIECE_KINDS
        invariant
            board.wf(),
            k <= PIECE_KINDS,
            total == hand_value(board@, owner, k as nat, permille as nat),
            0 <= total <= k * 0x1_0000_0000_0000_0000_0000_0000_00,
        decreases PIECE_KINDS - k,
    {
        let kind = PieceKind::from_index(k);
        let count = board.hand_count(owner, kind);
        let value = piece_val(kind);
        proof {
            lemma_product_bound(value as int, permille as int, 20000, 0xffff_ffff);
        }
        let unit: i128 = (value as i128 * permille as i128) / 1000;
        proof {
            lemma_product_bound(
                unit as int,
                count as int,
                0x20_0000_0000,
                0x1_0000_0000_0000_0000,
            );
        }
        total = total + unit * (count as i128);
        k += 1;
    }
    total
}

/// The score of a position before it is cut to the range of the result:
/// positive where the first player is better off. It adds up material and
/// placement, pawn structure, the safety of each king that is on the board,
/// the hands, mobility, tactical patterns and development, each counted for
/// the first player and against the second.
pub open spec fn score(v: BoardView, permille: nat) -> int {
    let phase = phase_of(v);
    board_sum(v, v.height, Measure::Material) + structure(v, v.width) + (match v.king_square(
        PlayerId::Player1,
    ) {
        Some(k) => king_safety(v, k, PlayerId::Player1, phase),
        None => 0,
    }) - (match v.king_square(PlayerId::Player2) {
        Some(k) => king_safety(v, k, PlayerId::Player2, phase),
        None => 0,
    }) + hand_value(v, PlayerId::Player1, PIECE_KINDS as nat, permille) - hand_value(
        v,
        PlayerId::Player2,
        PIECE_KINDS as nat,
        permille,
    ) + mobility(v, PlayerId::Player1) - mobility(v, PlayerId::Player2) + tactical(
        v,
        PlayerId::Player1,
    ) - tactical(v, PlayerId::Player2) + development(v, PlayerId::Player1, phase) - development(
        v,
        PlayerId::Player2,
        phase,
    )
}

/// A number cut to the range of `i32`.
pub open spec fn clamped(x: int) -> int {
    if x < i32::MIN {
        i32::MIN as int
    } else if x > i32::MAX {
        i32::MAX as int
    } else {
        x
    }
}

/// The score of the position on `board`, with pieces in hand valued at
/// `permille` thousandths of their value on the board.
pub fn evaluate_with(board: &Board, permille: u32) -> (r: i32)
    requires
        board.wf(),
    ensures
        r == clamped(score(board@, permille as nat)),
{
    let phase = detect_game_phase(board);
    let mut total: i128 = sum_over_board(board, Measure::Material) as i128;
    total = total + pawn_structure(board) as i128;
    if let Some(kpos) = board.find_king(PlayerId::Player1) {
        total = total + enhanced_king_safety(board, kpos, PlayerId::Player1, phase) as i128;
    }
    if let Some(kpos) = board.find_king(PlayerId::Player2) {
        total = total - enhanced_king_safety(board, kpos, PlayerId::Player2, phase) as i128;
    }
    total = total + hand_material(board, PlayerId::Player1, permille);
    total = total - hand_material(board, PlayerId::Player2, permille);
    total = total + calculate_mobility(board, PlayerId::Player1) as i128;
    total = total - calculate_mobility(board, PlayerId::Player2) as i128;
    total = total + detect_tactical_patterns(board, PlayerId::Player1) as i128;
    total = total - detect_tactical_patterns(board, PlayerId::Player2) as i128;
    total = total + development_score(board, PlayerId::Player1, phase) as i128;
    total = total - development_score(board, PlayerId::Player2, phase) as i128;
    if total < i32::MIN as i128 {
        i32::MIN
    } else if total > i32::MAX as i128 {
        i32::MAX
    } else {
        total as i32
    }
}

/// The score of the position on `board`, with pieces in hand valued at 1.1
/// times their value on the board.
pub fn evaluate(board: &Board) -> (r: i32)
    requires
        board.wf(),
    ensures
        r == clamped(score(board@, DEFAULT_HAND_PERMILLE as nat)),
{
    evaluate_with(board, DEFAULT_HAND_PERMILLE)
}

/// The evaluator that is written by hand: `evaluate_with` under a multiplier
/// for pieces in hand that it keeps.
#[derive(Debug, Clone, Copy)]
pub struct HandcraftedEvaluator {
    hand_permille: u32,
}

impl HandcraftedEvaluator {
    /// The multiplier for pieces in hand, in thousandths.
    pub closed spec fn permille(&self) -> nat {
        self.hand_permille as nat
    }

    /// The evaluator with the usual multiplier of 1.1 for pieces in hand.
    pub fn new() -> (e: Self)
        ensures
            e.permille() == DEFAULT_HAND_PERMILLE,
    {
        HandcraftedEvaluator { hand_permille: DEFAULT_HAND_PERMILLE }
    }

    /// The evaluator with the given multiplier for pieces in hand, in
    /// thousandths.
    pub fn with_hand_multiplier(permille: u32) -> (e: Self)
        ensures
            e.permille() == permille,
    {
        HandcraftedEvaluator { hand_permille: permille }
    }
}

impl Evaluator for HandcraftedEvaluator {
    open spec fn answer(&self, v: BoardView) -> int {
        clamped(score(v, self.permille()))
    }

    fn evaluate(&mut self, board: &Board) -> (r: i32)
        ensures
            r == clamped(score(board@, old(self).permille())),
            final(self).permille() == old(self).permille(),
    {
        evaluate_with(board, self.hand_permille)
    }

    fn name(&self) -> (n: String)
        ensures
            n@ == "Handcrafted"@,
    {
        "Handcrafted".to_string()
    }
}

} // verus!
