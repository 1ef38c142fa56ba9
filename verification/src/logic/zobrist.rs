//! Position hashing: a 64-bit fingerprint of the placement, the hands and the
//! side to move, built by XOR from a table of random keys.

use vstd::prelude::*;
use rand::Rng;
use crate::model::board::{
    copy_of, lemma_hand_slot_bounds, Board, BoardRecord, BoardView, HAND_SLOTS, MAX_SQUARES,
};
use crate::model::mv::Move;
use super::rules::{apply_move, successor};
use crate::model::piece::{PieceKind, PIECE_KINDS};
use crate::model::types::{PlayerId, Position};

verus! {

/// The number of keys for pieces on squares: one for each owner, square of
/// the largest grid and kind.
pub const PIECE_KEYS: usize = 3240;

/// The keys of a hasher, as plain values.
pub struct ZobristKeys {
    /// The keys of pieces on squares, see `piece_key`.
    pub pieces: Seq<u64>,
    /// The keys of pieces in hand, see `hand_key`.
    pub hand: Seq<u64>,
    /// The key that marks the second player as the side to move.
    pub side_to_move: u64,
}

/// `v` rotated to the left by `n` bits, the bits that leave on the left
/// entering on the right. Rotating by a multiple of 64 changes nothing.
pub open spec fn rotated_left(v: u64, n: nat) -> u64 {
    let r = (n % 64) as u64;
    if r == 0 {
        v
    } else {
        (v << r) | (v >> ((64 - r) as u64))
    }
}

/// Rotation has the period 64: counts in hand that differ by a multiple of 64
/// turn a key into the same value, so hands that differ only so collide. A
/// hand of one kind never holds that many pieces in a game.
pub proof fn lemma_rotation_has_period_64(v: u64, n: nat)
    ensures
        rotated_left(v, n + 64) == rotated_left(v, n),
        rotated_left(v, 0) == v,
{
    assert((n + 64) % 64 == n % 64);
}

impl ZobristKeys {
    /// Whether the table has a key for everything.
    pub open spec fn wf(self) -> bool {
        self.pieces.len() == PIECE_KEYS && self.hand.len() == HAND_SLOTS
    }

    /// The key of a piece of `kind` of `owner` on square `p`.
    pub open spec fn piece_key(self, owner: PlayerId, p: Position, kind: PieceKind) -> u64 {
        self.pieces[((owner.index() * 81 + p.y * 9 + p.x) * 20 + kind.index()) as int]
    }

    /// The key of the pieces of `kind` in the hand of `owner`.
    pub open spec fn hand_key(self, owner: PlayerId, kind: PieceKind) -> u64 {
        self.hand[owner.index() * 20 + kind.index()]
    }

    /// What a square adds to the hash: the key of its piece, or nothing.
    pub open spec fn square_hash(self, v: BoardView, p: Position) -> u64 {
        match v.piece_at(p) {
            Some(piece) => self.piece_key(piece.owner, p, piece.kind),
            None => 0,
        }
    }

    /// The XOR of what the first `x` squares of rank `y` add.
    pub open spec fn rank_hash(self, v: BoardView, y: nat, x: nat) -> u64
        decreases x,
    {
        if x == 0 {
            0
        } else {
            self.rank_hash(v, y, (x - 1) as nat) ^ self.square_hash(
                v,
                Position { x: (x - 1) as usize, y: y as usize },
            )
        }
    }

    /// The XOR of what the squares of the first `y` ranks add.
    pub open spec fn placement_hash(self, v: BoardView, y: nat) -> u64
        decreases y,
    {
        if y == 0 {
            0
        } else {
            self.placement_hash(v, (y - 1) as nat) ^ self.rank_hash(v, (y - 1) as nat, v.width)
        }
    }

    /// What the pieces of `kind` in the hand of `owner` add to the hash: the
    /// key of the pair rotated by their number, or nothing if there are none.
    pub open spec fn holding_hash(self, v: BoardView, owner: PlayerId, kind: PieceKind) -> u64 {
        let n = v.hand_count(owner, kind);
        if n > 0 {
            rotated_left(self.hand_key(owner, kind), n)
        } else {
            0
        }
    }

    /// The XOR of what the first `k` kinds in the hand of `owner` add.
    pub open spec fn hand_hash(self, v: BoardView, owner: PlayerId, k: nat) -> u64
        decreases k,
    {
        if k == 0 {
            0
        } else {
            self.hand_hash(v, owner, (k - 1) as nat) ^ self.holding_hash(
                v,
                owner,
                PieceKind::at(k - 1),
            )
        }
    }

    /// What the side to move adds: the side key for the second player.
    pub open spec fn side_hash(self, side: PlayerId) -> u64 {
        match side {
            PlayerId::Player1 => 0,
            PlayerId::Player2 => self.side_to_move,
        }
    }

    /// The hash of a position with `side` to move: the XOR of what the
    /// squares, the two hands and the side to move add.
    pub open spec fn position_hash(self, v: BoardView, side: PlayerId) -> u64 {
        self.placement_hash(v, v.height) ^ self.hand_hash(
            v,
            PlayerId::Player1,
            PIECE_KINDS as nat,
        ) ^ self.hand_hash(v, PlayerId::Player2, PIECE_KINDS as nat) ^ self.side_hash(side)
    }
}

/// The hash reads nothing but the size of the grid, the placement and the
/// hands: two positions that agree on these have the same hash for the same
/// side to move, whatever capabilities their sides have.
pub proof fn lemma_hash_reads_placement_and_hands(
    keys: ZobristKeys,
    a: BoardView,
    b: BoardView,
    side: PlayerId,
)
    requires
        a.width == b.width,
        a.height == b.height,
        a.squares == b.squares,
        a.hands == b.hands,
    ensures
        keys.position_hash(a, side) == keys.position_hash(b, side),
{
    lemma_placement_hash_agrees(keys, a, b, a.height);
    lemma_hand_hash_agrees(keys, a, b, PlayerId::Player1, PIECE_KINDS as nat);
    lemma_hand_hash_agrees(keys, a, b, PlayerId::Player2, PIECE_KINDS as nat);
}

/// Two boards with the same position have the same hash, whatever last move,
/// recorded hash and history each carries.
pub proof fn lemma_hash_ignores_record(keys: ZobristKeys, a: &Board, b: &Board, side: PlayerId)
    requires
        a@ == b@,
    ensures
        keys.position_hash(a@, side) == keys.position_hash(b@, side),
{
}

proof fn lemma_rank_hash_agrees(keys: ZobristKeys, a: BoardView, b: BoardView, y: nat, x: nat)
    requires
        a.squares == b.squares,
    ensures
        keys.rank_hash(a, y, x) == keys.rank_hash(b, y, x),
    decreases x,
{
    if x > 0 {
        lemma_rank_hash_agrees(keys, a, b, y, (x - 1) as nat);
    }
}

proof fn lemma_placement_hash_agrees(keys: ZobristKeys, a: BoardView, b: BoardView, y: nat)
    requires
        a.width == b.width,
        a.squares == b.squares,
    ensures
        keys.placement_hash(a, y) == keys.placement_hash(b, y),
    decreases y,
{
    if y > 0 {
        lemma_placement_hash_agrees(keys, a, b, (y - 1) as nat);
        lemma_rank_hash_agrees(keys, a, b, (y - 1) as nat, a.width);
    }
}

proof fn lemma_hand_hash_agrees(keys: ZobristKeys, a: BoardView, b: BoardView, owner: PlayerId, k: nat)
    requires
        a.hands == b.hands,
    ensures
        keys.hand_hash(a, owner, k) == keys.hand_hash(b, owner, k),
    decreases k,
{
    if k > 0 {
        lemma_hand_hash_agrees(keys, a, b, owner, (k - 1) as nat);
    }
}

/// Calls `rand::thread_rng()` and `Rng::gen::<u64>` on it. Nothing is claimed
/// of the number that comes back.
#[verifier::external_body]
fn random_key() -> u64 {
    rand::thread_rng().gen()
}

/// `v` rotated to the left by `n` bits.
pub fn rotate_left(v: u64, n: usize) -> (r: u64)
    ensures
        r == rotated_left(v, n as nat),
{
    let s: u64 = (n % 64) as u64;
    if s == 0 {
        v
    } else {
        (v << s) | (v >> (64 - s))
    }
}

/// Computes position hashes from a table of keys that it owns.
pub struct ZobristHasher {
    pieces: Vec<u64>,
    hand: Vec<u64>,
    side_to_move: u64,
}

impl Clone for ZobristHasher {
    /// A hasher with the same keys.
    fn clone(&self) -> (h: Self)
        ensures
            h@ == self@,
    {
        proof {
            use_type_invariant(self);
        }
        ZobristHasher {
            pieces: copy_of(&self.pieces),
            hand: copy_of(&self.hand),
            side_to_move: self.side_to_move,
        }
    }
}

impl View for ZobristHasher {
    type V = ZobristKeys;

    closed spec fn view(&self) -> ZobristKeys {
        ZobristKeys { pieces: self.pieces@, hand: self.hand@, side_to_move: self.side_to_move }
    }
}

impl ZobristHasher {
    /// The invariant of a hasher: it has a key for everything.
    #[verifier::type_invariant]
    spec fn inv(self) -> bool {
        self.pieces@.len() == PIECE_KEYS && self.hand@.len() == HAND_SLOTS
    }

    /// A hasher with freshly drawn random keys.
    pub fn new() -> (h: Self)
        ensures
            h@.wf(),
    {
        let side_to_move = random_key();
        let mut pieces: Vec<u64> = Vec::new();
        let mut i: usize = 0;
        while i < PIECE_KEYS
            invariant
                i <= PIECE_KEYS,
                pieces@.len() == i,
            decreases PIECE_KEYS - i,
        {
            pieces.push(random_key());
            i += 1;
        }
        let mut hand: Vec<u64> = Vec::new();
        let mut k: usize = 0;
        while k < HAND_SLOTS
            invariant
                k <= HAND_SLOTS,
                hand@.len() == k,
            decreases HAND_SLOTS - k,
        {
            hand.push(random_key());
            k += 1;
        }
        ZobristHasher { pieces, hand, side_to_move }
    }

    /// A hasher with the given keys, if there is one for everything: 3240
    /// keys for pieces on squares and 40 for pieces in hand.
    pub fn from_keys(pieces: Vec<u64>, hand: Vec<u64>, side_to_move: u64) -> (r: Option<Self>)
        ensures
            r is Some <==> pieces@.len() == PIECE_KEYS && hand@.len() == HAND_SLOTS,
            r matches Some(h) ==> h@ == (ZobristKeys { pieces: pieces@, hand: hand@, side_to_move }),
    {
        if pieces.len() == PIECE_KEYS && hand.len() == HAND_SLOTS {
            Some(ZobristHasher { pieces, hand, side_to_move })
        } else {
            None
        }
    }

    /// What the hand of `owner` adds to the hash.
    fn hash_hand(&self, board: &Board, owner: PlayerId) -> (h: u64)
        requires
            board.wf(),
        ensures
            h == self@.hand_hash(board@, owner, PIECE_KINDS as nat),
    {
        proof {
            use_type_invariant(self);
        }
        let base: usize = match owner {
            PlayerId::Player1 => 0,
            PlayerId::Player2 => PIECE_KINDS,
        };
        let mut h: u64 = 0;
        let mut k: usize = 0;
        while k < PIECE_KINDS
            invariant
                self@.wf(),
                board.wf(),
                k <= PIECE_KINDS,
                base == owner.index() * 20,
                h == self@.hand_hash(board@, owner, k as nat),
            decreases PIECE_KINDS - k,
        {
            let kind = PieceKind::from_index(k);
            let n = board.hand_count(owner, kind);
            if n > 0 {
                h = h ^ rotate_left(self.hand[base + k], n);
            } else {
                assert(h ^ 0 == h) by (bit_vector);
            }
            k += 1;
        }
        h
    }

    /// The hash of the position on `board` with `current_player` to move.
    /// Last move, recorded hash and history take no part in it.
    pub fn compute_hash(&self, board: &Board, current_player: PlayerId) -> (h: u64)
        requires
            board.wf(),
        ensures
            h == self@.position_hash(board@, current_player),
    {
        proof {
            use_type_invariant(self);
            board.lemma_view_wf();
        }
        let mut hash: u64 = 0;
        let mut y: usize = 0;
        while y < board.height()
            invariant
                self@.wf(),
                board.wf(),
                board@.wf(),
                y <= board@.height,
                hash == self@.placement_hash(board@, y as nat),
            decreases board@.height - y,
        {
            let mut row: u64 = 0;
            let mut x: usize = 0;
            while x < board.width()
                invariant
                    self@.wf(),
                    board.wf(),
                    board@.wf(),
                    y < board@.height,
                    x <= board@.width,
                    row == self@.rank_hash(board@, y as nat, x as nat),
                decreases board@.width - x,
            {
                match board.get_piece(Position::new(x, y)) {
                    Some(piece) => {
                        let base: usize = match piece.owner {
                            PlayerId::Player1 => 0,
                            PlayerId::Player2 => MAX_SQUARES,
                        };
                        let i = (base + y * 9 + x) * 20 + piece.kind.to_index();
                        row = row ^ self.pieces[i];
                    },
                    None => {
                        assert(row ^ 0 == row) by (bit_vector);
                    },
                }
                x += 1;
            }
            hash = hash ^ row;
            y += 1;
        }
        let h1 = self.hash_hand(board, PlayerId::Player1);
        let h2 = self.hash_hand(board, PlayerId::Player2);
        let side: u64 = match current_player {
            PlayerId::Player1 => 0,
            PlayerId::Player2 => self.side_to_move,
        };
        hash ^ h1 ^ h2 ^ side
    }
}

impl ZobristHasher {
    /// The position after `player` has made the move `mv`, on a board that
    /// keeps the books by itself: the hash of the position that was left joins
    /// the history, and the hash of the new position, with the other side to
    /// move, is recorded.
    pub fn apply_move_recorded(&self, board: &Board, mv: &Move, player: PlayerId) -> (next: Board)
        requires
            board.wf(),
        ensures
            next.wf(),
            next@ == successor(board@, *mv, player),
            next.record() == (BoardRecord {
                last_move: Some(*mv),
                zobrist_hash: self@.position_hash(successor(board@, *mv, player), player.other()),
                history: board.record().history.push(self@.position_hash(board@, player)),
            }),
    {
        let left = self.compute_hash(board, player);
        let mut next = apply_move(board, mv, player);
        next.push_history(left);
        let reached = self.compute_hash(&next, player.opponent());
        next.set_zobrist_hash(reached);
        next
    }
}

/// How often `hash` occurs in `history`.
pub open spec fn occurrences(history: Seq<u64>, hash: u64) -> nat
    decreases history.len(),
{
    if history.len() == 0 {
        0
    } else {
        occurrences(history.drop_last(), hash) + if history.last() == hash {
            1nat
        } else {
            0nat
        }
    }
}

/// How often `hash` occurs among the hashes of the earlier positions that the
/// board records.
pub fn repetition_count(board: &Board, hash: u64) -> (n: usize)
    ensures
        n == occurrences(board.record().history, hash),
{
    let history = board.history();
    let mut n: usize = 0;
    let mut i: usize = 0;
    while i < history.len()
        invariant
            i <= history@.len(),
            n <= i,
            n == occurrences(history@.subrange(0, i as int), hash),
        decreases history@.len() - i,
    {
        proof {
            assert(history@.subrange(0, i + 1).drop_last() =~= history@.subrange(0, i as int));
        }
        if history[i] == hash {
            n += 1;
        }
        i += 1;
    }
    proof {
        assert(history@.subrange(0, i as int) =~= history@);
    }
    n
}

} // verus!
