//! How the display reacts to the keys of a player who picks a move.

use vstd::prelude::*;
use crate::display::DisplayState;
use crate::model::board::{Board, BoardView};
use crate::model::mv::Move;
use crate::model::piece::PieceKind;
use crate::model::types::{PlayerId, Position};

verus! {

/// A key, as far as picking a move is concerned.
#[derive(Debug, Clone, Copy, PartialEq, Eq, Structural)]
pub enum Key {
    /// Give up the game.
    Quit,
    /// Drop the selection.
    Cancel,
    Up,
    Down,
    Left,
    Right,
    /// Switch between the board and the hand.
    ToggleHand,
    /// Select what the cursor is on.
    Confirm,
    /// Any other key.
    Other,
}

/// What follows from a key.
#[derive(Debug, Clone, Copy, PartialEq, Eq, Structural)]
pub enum Reaction {
    /// Nothing yet: the next key is awaited.
    Continue,
    /// The player resigns.
    Resign,
    /// The player makes this move.
    Play(Move),
    /// The player moves between these squares and has to say which of several
    /// variants is meant.
    AskPromotion { from: Position, to: Position },
}

/// The kinds in the order in which a hand is shown: by their names.
pub open spec fn shown_order() -> Seq<PieceKind> {
    seq![
        PieceKind::C_Bishop,
        PieceKind::C_King,
        PieceKind::C_Knight,
        PieceKind::C_Pawn,
        PieceKind::C_Queen,
        PieceKind::C_Rook,
        PieceKind::S_Bishop,
        PieceKind::S_Gold,
        PieceKind::S_King,
        PieceKind::S_Knight,
        PieceKind::S_Lance,
        PieceKind::S_Pawn,
        PieceKind::S_ProBishop,
        PieceKind::S_ProKnight,
        PieceKind::S_ProLance,
        PieceKind::S_ProPawn,
        PieceKind::S_ProRook,
        PieceKind::S_ProSilver,
        PieceKind::S_Rook,
        PieceKind::S_Silver,
    ]
}

/// Those of the first `n` kinds in shown order that `player` holds.
pub open spec fn held_among(v: BoardView, player: PlayerId, n: nat) -> Seq<PieceKind>
    decreases n,
{
    if n == 0 {
        Seq::empty()
    } else {
        let rest = held_among(v, player, (n - 1) as nat);
        if v.hand_count(player, shown_order()[n - 1]) > 0 {
            rest.push(shown_order()[n - 1])
        } else {
            rest
        }
    }
}

/// The kinds that `player` holds in hand, in shown order.
pub open spec fn held(v: BoardView, player: PlayerId) -> Seq<PieceKind> {
    held_among(v, player, 20)
}

/// The kinds that `player` holds in hand, in the order in which a hand is
/// shown.
pub fn held_kinds(board: &Board, player: PlayerId) -> (r: Vec<PieceKind>)
    requires
        board.wf(),
    ensures
        r@ == held(board@, player),
{
    let order = vec![
        PieceKind::C_Bishop,
        PieceKind::C_King,
        PieceKind::C_Knight,
        PieceKind::C_Pawn,
        PieceKind::C_Queen,
        PieceKind::C_Rook,
        PieceKind::S_Bishop,
        PieceKind::S_Gold,
        PieceKind::S_King,
        PieceKind::S_Knight,
        PieceKind::S_Lance,
        PieceKind::S_Pawn,
        PieceKind::S_ProBishop,
        PieceKind::S_ProKnight,
        PieceKind::S_ProLance,
        PieceKind::S_ProPawn,
        PieceKind::S_ProRook,
        PieceKind::S_ProSilver,
        PieceKind::S_Rook,
        PieceKind::S_Silver,
    ];
    assert(order@ =~= shown_order());
    let mut r: Vec<PieceKind> = Vec::new();
    let mut i: usize = 0;
    while i < order.len()
        invariant
            board.wf(),
            order@ == shown_order(),
            i <= order@.len(),
            r@ == held_among(board@, player, i as nat),
        decreases order@.len() - i,
    {
        if board.hand_count(player, order[i]) > 0 {
            r.push(order[i]);
        }
        i += 1;
    }
    r
}

/// Those of the first `n` moves that are board moves from `from` to `to`.
pub open spec fn between(moves: Seq<Move>, from: Position, to: Position, n: nat) -> Seq<Move>
    decreases n,
{
    if n == 0 {
        Seq::empty()
    } else {
        let rest = between(moves, from, to, (n - 1) as nat);
        match moves[n - 1] {
            Move::Normal { from: f, to: t, .. } => if f == from && t == to {
                rest.push(moves[n - 1])
            } else {
                rest
            },
            Move::Drop { .. } => rest,
        }
    }
}

/// Those of the moves that are board moves from `from` to `to`.
pub fn moves_between(moves: &[Move], from: Position, to: Position) -> (r: Vec<Move>)
    ensures
        r@ == between(moves@, from, to, moves@.len()),
{
    let mut r: Vec<Move> = Vec::new();
    let mut i: usize = 0;
    while i < moves.len()
        invariant
            i <= moves@.len(),
            r@ == between(moves@, from, to, i as nat),
        decreases moves@.len() - i,
    {
        match moves[i] {
            Move::Normal { from: f, to: t, .. } => {
                if f == from && t == to {
                    r.push(moves[i]);
                }
            },
            Move::Drop { .. } => {},
        }
        i += 1;
    }
    r
}

/// The destinations of those of the first `n` moves that are board moves
/// from `from`.
pub open spec fn reachable(moves: Seq<Move>, from: Position, n: nat) -> Seq<Position>
    decreases n,
{
    if n == 0 {
        Seq::empty()
    } else {
        let rest = reachable(moves, from, (n - 1) as nat);
        match moves[n - 1] {
            Move::Normal { from: f, to, .. } => if f == from {
                rest.push(to)
            } else {
                rest
            },
            Move::Drop { .. } => rest,
        }
    }
}

/// The destinations of the board moves from `from`.
pub fn destinations_from(moves: &[Move], from: Position) -> (r: Vec<Position>)
    ensures
        r@ == reachable(moves@, from, moves@.len()),
{
    let mut r: Vec<Position> = Vec::new();
    let mut i: usize = 0;
    while i < moves.len()
        invariant
            i <= moves@.len(),
            r@ == reachable(moves@, from, i as nat),
        decreases moves@.len() - i,
    {
        match moves[i] {
            Move::Normal { from: f, to, .. } => {
                if f == from {
                    r.push(to);
                }
            },
            Move::Drop { .. } => {},
        }
        i += 1;
    }
    r
}

/// Whether `mv` is one of `moves`.
pub fn has_move(moves: &[Move], mv: &Move) -> (b: bool)
    ensures
        b == moves@.contains(*mv),
{
    let mut i: usize = 0;
    while i < moves.len()
        invariant
            i <= moves@.len(),
            forall|j: int| 0 <= j < i ==> moves@[j] != *mv,
        decreases moves@.len() - i,
    {
        if moves[i] == *mv {
            return true;
        }
        i += 1;
    }
    false
}

/// The first of the first `n` moves that does not promote, if there is one.
pub open spec fn first_plain(moves: Seq<Move>, n: nat) -> Option<Move>
    decreases n,
{
    if n == 0 {
        None
    } else {
        match first_plain(moves, (n - 1) as nat) {
            Some(m) => Some(m),
            None => if moves[n - 1].promotes() {
                None
            } else {
                Some(moves[n - 1])
            },
        }
    }
}

/// Those of the first `n` moves that promote.
pub open spec fn promoting_among(moves: Seq<Move>, n: nat) -> Seq<Move>
    decreases n,
{
    if n == 0 {
        Seq::empty()
    } else {
        let rest = promoting_among(moves, (n - 1) as nat);
        if moves[n - 1].promotes() {
            rest.push(moves[n - 1])
        } else {
            rest
        }
    }
}

/// How the player is asked which variant of a move is meant.
#[derive(Debug, Clone, Copy, PartialEq, Eq, Structural)]
pub enum PromotionQuestion {
    /// One promoting and one plain variant: yes or no.
    YesOrNo,
    /// Several promoting variants, numbered from 1; 0 for the plain variant
    /// if there is one.
    Numbered,
}

/// How the player is asked, given the variants of the move.
pub open spec fn question_for(found: Seq<Move>) -> PromotionQuestion {
    if promoting_among(found, found.len()).len() == 1 && first_plain(found, found.len())
        is Some {
        PromotionQuestion::YesOrNo
    } else {
        PromotionQuestion::Numbered
    }
}

/// The move that an answer picks: to a question of yes or no, `y` the
/// promoting and `n` the plain variant; to a numbered question, 0 the plain
/// variant and a digit from 1 the promoting variant of that number. Any other
/// answer picks nothing.
pub open spec fn answered(found: Seq<Move>, answer: char) -> Option<Move> {
    let promoting = promoting_among(found, found.len());
    let plain = first_plain(found, found.len());
    match question_for(found) {
        PromotionQuestion::YesOrNo => if answer == 'y' {
            Some(promoting[0])
        } else if answer == 'n' {
            plain
        } else {
            None
        },
        PromotionQuestion::Numbered => if answer == '0' {
            plain
        } else if '1' <= answer && answer <= '9' && (answer as u32 - '1' as u32) < promoting.len() {
            Some(promoting[answer as u32 - '1' as u32])
        } else {
            None
        },
    }
}

fn find_plain(found: &Vec<Move>) -> (r: Option<Move>)
    ensures
        r == first_plain(found@, found@.len()),
{
    let mut i: usize = 0;
    while i < found.len()
        invariant
            i <= found@.len(),
            first_plain(found@, i as nat) is None,
        decreases found@.len() - i,
    {
        if !found[i].is_promotion() {
            proof {
                lemma_first_plain_stays(found@, (i + 1) as nat, found@.len());
            }
            return Some(found[i]);
        }
        i += 1;
    }
    None
}

/// What is found among the first moves is found among all of them.
pub proof fn lemma_first_plain_stays(moves: Seq<Move>, k: nat, n: nat)
    requires
        k <= n,
        first_plain(moves, k) is Some,
    ensures
        first_plain(moves, n) == first_plain(moves, k),
    decreases n,
{
    if n > k {
        lemma_first_plain_stays(moves, k, (n - 1) as nat);
    }
}

fn find_promoting(found: &Vec<Move>) -> (r: Vec<Move>)
    ensures
        r@ == promoting_among(found@, found@.len()),
{
    let mut r: Vec<Move> = Vec::new();
    let mut i: usize = 0;
    while i < found.len()
        invariant
            i <= found@.len(),
            r@ == promoting_among(found@, i as nat),
        decreases found@.len() - i,
    {
        if found[i].is_promotion() {
            r.push(found[i]);
        }
        i += 1;
    }
    r
}

/// How the player is asked which variant of a move is meant.
pub fn promotion_question(found: &Vec<Move>) -> (q: PromotionQuestion)
    ensures
        q == question_for(found@),
{
    let promoting = find_promoting(found);
    let plain = find_plain(found);
    if promoting.len() == 1 && plain.is_some() {
        PromotionQuestion::YesOrNo
    } else {
        PromotionQuestion::Numbered
    }
}

/// The move that an answer picks among the variants of a move.
pub fn answer_promotion(found: &Vec<Move>, answer: char) -> (r: Option<Move>)
    ensures
        r == answered(found@, answer),
{
    let promoting = find_promoting(found);
    let plain = find_plain(found);
    if promoting.len() == 1 && plain.is_some() {
        if answer == 'y' {
            Some(promoting[0])
        } else if answer == 'n' {
            plain
        } else {
            None
        }
    } else {
        if answer == '0' {
            plain
        } else if '1' <= answer && answer <= '9' {
            let k = (answer as u32 - '1' as u32) as usize;
            if k < promoting.len() {
                Some(promoting[k])
            } else {
                None
            }
        } else {
            None
        }
    }
}

/// Where the cursor goes on an arrow key: one square in the direction that
/// the player sees, unless that would leave the board.
pub open spec fn moved_cursor(
    cursor: Position,
    perspective: PlayerId,
    width: nat,
    height: nat,
    key: Key,
) -> Position {
    let towards_zero = match key {
        Key::Up | Key::Left => perspective == PlayerId::Player1,
        _ => perspective != PlayerId::Player1,
    };
    match key {
        Key::Up | Key::Down => if towards_zero {
            if cursor.y > 0 {
                Position { x: cursor.x, y: (cursor.y - 1) as usize }
            } else {
                cursor
            }
        } else {
            if cursor.y + 1 < height {
                Position { x: cursor.x, y: (cursor.y + 1) as usize }
            } else {
                cursor
            }
        },
        Key::Left | Key::Right => if towards_zero {
            if cursor.x > 0 {
                Position { x: (cursor.x - 1) as usize, y: cursor.y }
            } else {
                cursor
            }
        } else {
            if cursor.x + 1 < width {
                Position { x: (cursor.x + 1) as usize, y: cursor.y }
            } else {
                cursor
            }
        },
        _ => cursor,
    }
}

/// Where the cursor goes on an arrow key.
pub fn move_cursor(cursor: Position, perspective: PlayerId, width: usize, height: usize, key: Key) -> (r:
    Position)
    ensures
        r == moved_cursor(cursor, perspective, width as nat, height as nat, key),
{
    let first = match perspective {
        PlayerId::Player1 => true,
        PlayerId::Player2 => false,
    };
    let towards_zero = match key {
        Key::Up | Key::Left => first,
        _ => !first,
    };
    match key {
        Key::Up | Key::Down => {
            if towards_zero {
                if cursor.y > 0 {
                    Position { x: cursor.x, y: cursor.y - 1 }
                } else {
                    cursor
                }
            } else {
                if cursor.y < usize::MAX && cursor.y + 1 < height {
                    Position { x: cursor.x, y: cursor.y + 1 }
                } else {
                    cursor
                }
            }
        },
        Key::Left | Key::Right => {
            if towards_zero {
                if cursor.x > 0 {
                    Position { x: cursor.x - 1, y: cursor.y }
                } else {
                    cursor
                }
            } else {
                if cursor.x < usize::MAX && cursor.x + 1 < width {
                    Position { x: cursor.x + 1, y: cursor.y }
                } else {
                    cursor
                }
            }
        },
        _ => cursor,
    }
}

/// Which entry of a hand of `count` entries is marked after an arrow key:
/// the one before or after, around the ends.
pub open spec fn cycled(index: nat, count: nat, key: Key) -> nat {
    if count == 0 {
        index
    } else {
        let at = index as int % count as int;
        if key == Key::Left {
            (if at == 0 {
                count - 1
            } else {
                at - 1
            }) as nat
        } else {
            (if at + 1 == count {
                0
            } else {
                at + 1
            }) as nat
        }
    }
}

/// Which entry of a hand is marked after an arrow key.
pub fn cycle_hand(index: usize, count: usize, key: Key) -> (r: usize)
    ensures
        r == cycled(index as nat, count as nat, key),
        count > 0 ==> r < count,
{
    if count == 0 {
        return index;
    }
    let at = index % count;
    match key {
        Key::Left => {
            if at == 0 {
                count - 1
            } else {
                at - 1
            }
        },
        _ => {
            if at + 1 == count {
                0
            } else {
                at + 1
            }
        },
    }
}

/// What the display shows of the choice of a move, as plain values.
pub struct Choice {
    pub cursor: Position,
    pub selected: Option<Position>,
    pub highlights: Seq<Position>,
    pub hand_mode: bool,
    pub hand_index: usize,
}

impl DisplayState {
    /// What the display shows of the choice of a move.
    pub open spec fn choice(&self) -> Choice {
        Choice {
            cursor: self.cursor,
            selected: self.selected,
            highlights: self.highlights@,
            hand_mode: self.hand_mode,
            hand_index: self.hand_index,
        }
    }
}

/// What a key makes of the choice, and what follows from it, for `player`
/// on the position `v` with the legal moves `moves`.
///
/// Quit resigns. Cancel drops the selection and leaves the hand. The arrows
/// move the cursor on the board, or the mark in the hand. ToggleHand enters
/// the hand if the player holds anything, and leaves it. Confirm in the hand
/// leaves the hand and drops the marked kind on the cursor if that is legal;
/// with a square selected it ends the selection on that very square, and
/// else plays the move to the cursor: at once if there is one variant, after
/// a question if there are several, not at all if there is none; with
/// nothing selected it selects the player's piece under the cursor and
/// highlights where it can go.
pub open spec fn after_key(
    c: Choice,
    perspective: PlayerId,
    v: BoardView,
    player: PlayerId,
    moves: Seq<Move>,
    key: Key,
) -> (Choice, Reaction) {
    match key {
        Key::Quit => (c, Reaction::Resign),
        Key::Other => (c, Reaction::Continue),
        Key::Cancel => (
            Choice { selected: None, highlights: Seq::empty(), hand_mode: false, ..c },
            Reaction::Continue,
        ),
        Key::Up | Key::Down => (
            Choice { cursor: moved_cursor(c.cursor, perspective, v.width, v.height, key), ..c },
            Reaction::Continue,
        ),
        Key::Left | Key::Right => if c.hand_mode {
            (
                Choice {
                    hand_index: cycled(
                        c.hand_index as nat,
                        held(v, player).len(),
                        key,
                    ) as usize,
                    ..c
                },
                Reaction::Continue,
            )
        } else {
            (
                Choice {
                    cursor: moved_cursor(c.cursor, perspective, v.width, v.height, key),
                    ..c
                },
                Reaction::Continue,
            )
        },
        Key::ToggleHand => if c.hand_mode {
            (Choice { hand_mode: false, ..c }, Reaction::Continue)
        } else if held(v, player).len() > 0 {
            (Choice { hand_mode: true, hand_index: 0, ..c }, Reaction::Continue)
        } else {
            (c, Reaction::Continue)
        },
        Key::Confirm => if c.hand_mode {
            if c.hand_index < held(v, player).len() {
                let mv = Move::Drop { kind: held(v, player)[c.hand_index as int], to: c.cursor };
                (
                    Choice { hand_mode: false, ..c },
                    if moves.contains(mv) {
                        Reaction::Play(mv)
                    } else {
                        Reaction::Continue
                    },
                )
            } else {
                (c, Reaction::Continue)
            }
        } else {
            match c.selected {
                Some(from) => if from == c.cursor {
                    (Choice { selected: None, highlights: Seq::empty(), ..c }, Reaction::Continue)
                } else {
                    let found = between(moves, from, c.cursor, moves.len());
                    if found.len() == 0 {
                        (c, Reaction::Continue)
                    } else if found.len() == 1 {
                        (c, Reaction::Play(found[0]))
                    } else {
                        (c, Reaction::AskPromotion { from, to: c.cursor })
                    }
                },
                None => match v.piece_at(c.cursor) {
                    Some(piece) => if piece.owner == player {
                        (
                            Choice {
                                selected: Some(c.cursor),
                                highlights: reachable(moves, c.cursor, moves.len()),
                                ..c
                            },
                            Reaction::Continue,
                        )
                    } else {
                        (c, Reaction::Continue)
                    },
                    None => (c, Reaction::Continue),
                },
            }
        },
    }
}

impl DisplayState {
    /// Takes a key of `player`, who picks one of `legal_moves` on `board`.
    pub fn handle_key(&mut self, board: &Board, player: PlayerId, legal_moves: &[Move], key: Key) -> (r:
        Reaction)
        requires
            board.wf(),
        ensures
            (final(self).choice(), r) == after_key(
                old(self).choice(),
                old(self).perspective,
                board@,
                player,
                legal_moves@,
                key,
            ),
            final(self).perspective == old(self).perspective,
            final(self).status_msg == old(self).status_msg,
            final(self).last_move == old(self).last_move,
            final(self).show_cursor == old(self).show_cursor,
    {
        match key {
            Key::Quit => Reaction::Resign,
            Key::Other => Reaction::Continue,
            Key::Cancel => {
                self.selected = None;
                self.highlights = Vec::new();
                self.hand_mode = false;
                Reaction::Continue
            },
            Key::Up | Key::Down => {
                self.cursor = move_cursor(
                    self.cursor,
                    self.perspective,
                    board.width(),
                    board.height(),
                    key,
                );
                Reaction::Continue
            },
            Key::Left | Key::Right => {
                if self.hand_mode {
                    let items = held_kinds(board, player);
                    self.hand_index = cycle_hand(self.hand_index, items.len(), key);
                } else {
                    self.cursor = move_cursor(
                        self.cursor,
                        self.perspective,
                        board.width(),
                        board.height(),
                        key,
                    );
                }
                Reaction::Continue
            },
            Key::ToggleHand => {
                if self.hand_mode {
                    self.hand_mode = false;
                } else if held_kinds(board, player).len() > 0 {
                    self.hand_mode = true;
                    self.hand_index = 0;
                }
                Reaction::Continue
            },
            Key::Confirm => {
                if self.hand_mode {
                    let items = held_kinds(board, player);
                    if self.hand_index < items.len() {
                        let mv = Move::Drop { kind: items[self.hand_index], to: self.cursor };
                        self.hand_mode = false;
                        if has_move(legal_moves, &mv) {
                            return Reaction::Play(mv);
                        }
                    }
                    Reaction::Continue
                } else if let Some(from) = self.selected {
                    let to = self.cursor;
                    if from == to {
                        self.selected = None;
                        self.highlights = Vec::new();
                        Reaction::Continue
                    } else {
                        let found = moves_between(legal_moves, from, to);
                        if found.len() == 0 {
                            Reaction::Continue
                        } else if found.len() == 1 {
                            Reaction::Play(found[0])
                        } else {
                            Reaction::AskPromotion { from, to }
                        }
                    }
                } else {
                    if let Some(piece) = board.get_piece(self.cursor) {
                        if piece.owner == player {
                            self.selected = Some(self.cursor);
                            self.highlights = destinations_from(legal_moves, self.cursor);
                        }
                    }
                    Reaction::Continue
                }
            },
        }
    }
}

} // verus!
