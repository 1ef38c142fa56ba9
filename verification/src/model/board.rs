//! The board: a grid of squares, the two hands and the two sides' capabilities.

use vstd::prelude::*;
use super::mv::Move;
use super::piece::{Piece, PieceKind, PIECE_KINDS};
use super::types::{PlayerConfig, PlayerId, Position};

verus! {

/// The largest number of files and of ranks that a board can have.
pub const MAX_SIDE: usize = 9;

/// The number of squares of the largest board.
pub const MAX_SQUARES: usize = 81;

/// The number of (side, kind) pairs.
pub const HAND_SLOTS: usize = 40;

/// What a position is, mathematically: the size of the grid, which square
/// holds which piece, how many pieces of each kind each side holds in hand
/// (kinds that a side does not hold are absent), and the capabilities that
/// were set for each side.
pub struct BoardView {
    pub width: nat,
    pub height: nat,
    pub squares: Map<Position, Piece>,
    pub hands: Map<(PlayerId, PieceKind), nat>,
    pub configs: Map<PlayerId, PlayerConfig>,
}

/// Whether square `a` comes before square `b` when the board is read rank by
/// rank from rank 0, each rank from file 0.
pub open spec fn precedes(a: Position, b: Position) -> bool {
    a.y < b.y || (a.y == b.y && a.x < b.x)
}

impl BoardView {
    /// The empty position on a grid of the given size.
    pub open spec fn empty(width: nat, height: nat) -> BoardView {
        BoardView {
            width,
            height,
            squares: Map::empty(),
            hands: Map::empty(),
            configs: Map::empty(),
        }
    }

    /// Whether a square lies on the grid.
    pub open spec fn on_board(self, p: Position) -> bool {
        p.x < self.width && p.y < self.height
    }

    /// The piece on a square, if there is one.
    pub open spec fn piece_at(self, p: Position) -> Option<Piece> {
        if self.squares.dom().contains(p) {
            Some(self.squares[p])
        } else {
            None
        }
    }

    /// How many pieces of a kind a side holds in hand.
    pub open spec fn hand_count(self, player: PlayerId, kind: PieceKind) -> nat {
        if self.hands.dom().contains((player, kind)) {
            self.hands[(player, kind)]
        } else {
            0
        }
    }

    /// The capabilities of a side: those that were set, else the shogi ones.
    pub open spec fn config(self, player: PlayerId) -> PlayerConfig {
        if self.configs.dom().contains(player) {
            self.configs[player]
        } else {
            PlayerConfig::shogi_spec()
        }
    }

    /// The invariant of a position: the grid is at most 9 by 9, every piece
    /// stands on the grid, and no hand entry has the count zero.
    pub open spec fn wf(self) -> bool {
        &&& self.width <= MAX_SIDE
        &&& self.height <= MAX_SIDE
        &&& forall|p: Position| #[trigger] self.squares.dom().contains(p) ==> self.on_board(p)
        &&& forall|k: (PlayerId, PieceKind)|
            #[trigger] self.hands.dom().contains(k) ==> self.hands[k] > 0
    }

    /// The position with `piece` on `p`, in place of what stood there. A square
    /// off the grid leaves the position as it is.
    pub open spec fn place(self, p: Position, piece: Piece) -> BoardView {
        if self.on_board(p) {
            BoardView { squares: self.squares.insert(p, piece), ..self }
        } else {
            self
        }
    }

    /// The position with square `p` emptied.
    pub open spec fn take(self, p: Position) -> BoardView {
        BoardView { squares: self.squares.remove(p), ..self }
    }

    /// The position with one more piece of `kind` in the hand of `player`.
    /// A count that has reached the largest `usize` stays there.
    pub open spec fn give(self, player: PlayerId, kind: PieceKind) -> BoardView {
        let n = self.hand_count(player, kind);
        let m = if n < usize::MAX { n + 1 } else { n };
        BoardView { hands: self.hands.insert((player, kind), m as nat), ..self }
    }

    /// The position with one piece of `kind` less in the hand of `player`; the
    /// entry disappears with the last piece. Without such a piece in hand the
    /// position stays as it is.
    pub open spec fn spend(self, player: PlayerId, kind: PieceKind) -> BoardView {
        let n = self.hand_count(player, kind);
        if n == 0 {
            self
        } else if n == 1 {
            BoardView { hands: self.hands.remove((player, kind)), ..self }
        } else {
            BoardView { hands: self.hands.insert((player, kind), (n - 1) as nat), ..self }
        }
    }

    /// The position with the capabilities of `player` set to `config`.
    pub open spec fn configure(self, player: PlayerId, config: PlayerConfig) -> BoardView {
        BoardView { configs: self.configs.insert(player, config), ..self }
    }

    /// Whether a king of `player` stands on `p`.
    pub open spec fn holds_king(self, p: Position, player: PlayerId) -> bool {
        self.squares.dom().contains(p) && self.squares[p].owner == player
            && self.squares[p].kind.is_king()
    }

    /// The square of the first king of `player` in reading order, if the side
    /// has a king on the board.
    pub open spec fn king_square(self, player: PlayerId) -> Option<Position> {
        if exists|p: Position| self.holds_king(p, player) {
            Some(
                choose|p: Position|
                    self.holds_king(p, player) && forall|q: Position|
                        self.holds_king(q, player) ==> !precedes(q, p),
            )
        } else {
            None
        }
    }
}

/// The number of a square in reading order on the widest grid.
pub open spec fn square_index(p: Position) -> int {
    p.y * 9 + p.x
}

/// The number of the hand entry of a side and a kind.
pub open spec fn hand_slot(player: PlayerId, kind: PieceKind) -> int {
    player.index() * 20 + kind.index()
}

/// A position of the game, with the bookkeeping that display and search
/// attach to it.
///
/// A board is at most 9 squares wide and 9 squares high. It keeps its squares
/// in a fixed block of 81 cells, so a larger grid cannot be made: `Board::new`
/// asks for sides of at most `MAX_SIDE`, and a layout that is larger gives no
/// board. A square off the grid never holds a piece; `place_piece` says so
/// when it is asked to put one there.
#[derive(Debug)]
pub struct Board {
    width: usize,
    height: usize,
    cells: Vec<Option<Piece>>,
    hands: Vec<usize>,
    config1: Option<PlayerConfig>,
    config2: Option<PlayerConfig>,
    last_move: Option<Move>,
    zobrist_hash: u64,
    history: Vec<u64>,
}

/// The bookkeeping that a board carries beside its position. None of it
/// takes part in the rules.
pub struct BoardRecord {
    /// The move that led to this position, for display.
    pub last_move: Option<Move>,
    /// The hash of the position, where the owner of the board recorded it.
    pub zobrist_hash: u64,
    /// The hashes of the positions that led to this one, oldest first.
    pub history: Seq<u64>,
}

impl View for Board {
    type V = BoardView;

    closed spec fn view(&self) -> BoardView {
        BoardView {
            width: self.width as nat,
            height: self.height as nat,
            squares: Map::new(
                |p: Position|
                    p.x < self.width && p.y < self.height && p.x < 9 && p.y < 9
                        && self.cells@[square_index(p)] is Some,
                |p: Position| self.cells@[square_index(p)]->0,
            ),
            hands: Map::new(
                |k: (PlayerId, PieceKind)| self.hands@[hand_slot(k.0, k.1)] > 0,
                |k: (PlayerId, PieceKind)| self.hands@[hand_slot(k.0, k.1)] as nat,
            ),
            configs: Map::new(
                |p: PlayerId| self.config_slot(p) is Some,
                |p: PlayerId| self.config_slot(p)->0,
            ),
        }
    }
}

impl Board {
    /// The capabilities that were set for a side, if any were.
    pub closed spec fn config_slot(&self, player: PlayerId) -> Option<PlayerConfig> {
        match player {
            PlayerId::Player1 => self.config1,
            PlayerId::Player2 => self.config2,
        }
    }

    /// The invariant of a board: its position is well formed and its storage
    /// matches the grid.
    pub closed spec fn wf(&self) -> bool {
        &&& self.width <= MAX_SIDE
        &&& self.height <= MAX_SIDE
        &&& self.cells@.len() == MAX_SQUARES
        &&& self.hands@.len() == HAND_SLOTS
        &&& forall|p: Position|
            p.x < 9 && p.y < 9 && (#[trigger] self.cells@[square_index(p)]) is Some ==> p.x
                < self.width && p.y < self.height
    }

    /// The bookkeeping of the board.
    pub closed spec fn record(&self) -> BoardRecord {
        BoardRecord {
            last_move: self.last_move,
            zobrist_hash: self.zobrist_hash,
            history: self.history@,
        }
    }

    /// Whether two boards carry the same bookkeeping beside the position.
    pub open spec fn same_record(&self, other: &Board) -> bool {
        self.record() == other.record()
    }

    /// The position of a well-formed board is well formed.
    pub proof fn lemma_view_wf(&self)
        requires
            self.wf(),
        ensures
            self@.wf(),
    {
    }

    /// The empty board of the given size.
    pub fn new(width: usize, height: usize) -> (b: Self)
        requires
            width <= MAX_SIDE,
            height <= MAX_SIDE,
        ensures
            b.wf(),
            b@ == BoardView::empty(width as nat, height as nat),
            b.record() == (BoardRecord {
                last_move: None,
                zobrist_hash: 0,
                history: Seq::<u64>::empty(),
            }),
    {
        let mut cells: Vec<Option<Piece>> = Vec::new();
        let mut i: usize = 0;
        while i < MAX_SQUARES
            invariant
                i <= MAX_SQUARES,
                cells@.len() == i,
                forall|j: int| 0 <= j < i ==> cells@[j] is None,
            decreases MAX_SQUARES - i,
        {
            cells.push(None);
            i += 1;
        }
        let mut hands: Vec<usize> = Vec::new();
        let mut k: usize = 0;
        while k < HAND_SLOTS
            invariant
                k <= HAND_SLOTS,
                hands@.len() == k,
                forall|j: int| 0 <= j < k ==> hands@[j] == 0,
            decreases HAND_SLOTS - k,
        {
            hands.push(0);
            k += 1;
        }
        let b = Board {
            width,
            height,
            cells,
            hands,
            config1: None,
            config2: None,
            last_move: None,
            zobrist_hash: 0,
            history: Vec::new(),
        };
        proof {
            lemma_hand_slot_bounds();
            assert(b@.squares =~= Map::<Position, Piece>::empty());
            assert(b@.hands =~= Map::<(PlayerId, PieceKind), nat>::empty());
            assert(b@.configs =~= Map::<PlayerId, PlayerConfig>::empty());
        }
        b
    }

    /// The number of files.
    pub fn width(&self) -> (w: usize)
        ensures
            w == self@.width,
    {
        self.width
    }

    /// The number of ranks.
    pub fn height(&self) -> (h: usize)
        ensures
            h == self@.height,
    {
        self.height
    }

    /// The move that led to this position, where one was recorded.
    pub fn last_move(&self) -> (m: Option<Move>)
        ensures
            m == self.record().last_move,
    {
        self.last_move
    }

    /// Records the move that led to this position.
    pub fn set_last_move(&mut self, mv: Option<Move>)
        ensures
            final(self)@ == old(self)@,
            final(self).wf() == old(self).wf(),
            final(self).record() == (BoardRecord { last_move: mv, ..old(self).record() }),
    {
        self.last_move = mv;
        proof {
            assert(self@.squares =~= old(self)@.squares);
            assert(self@.hands =~= old(self)@.hands);
            assert(self@.configs =~= old(self)@.configs);
        }
    }

    /// The hash that was recorded for this position.
    pub fn zobrist_hash(&self) -> (h: u64)
        ensures
            h == self.record().zobrist_hash,
    {
        self.zobrist_hash
    }

    /// Records the hash of this position.
    pub fn set_zobrist_hash(&mut self, hash: u64)
        ensures
            final(self)@ == old(self)@,
            final(self).wf() == old(self).wf(),
            final(self).record() == (BoardRecord { zobrist_hash: hash, ..old(self).record() }),
    {
        self.zobrist_hash = hash;
        proof {
            assert(self@.squares =~= old(self)@.squares);
            assert(self@.hands =~= old(self)@.hands);
            assert(self@.configs =~= old(self)@.configs);
        }
    }

    /// The hashes of the positions that led to this one, oldest first.
    pub fn history(&self) -> (h: &Vec<u64>)
        ensures
            h@ == self.record().history,
    {
        &self.history
    }

    /// Appends the hash of an earlier position to the history.
    pub fn push_history(&mut self, hash: u64)
        ensures
            final(self)@ == old(self)@,
            final(self).wf() == old(self).wf(),
            final(self).record() == (BoardRecord {
                history: old(self).record().history.push(hash),
                ..old(self).record()
            }),
    {
        self.history.push(hash);
        proof {
            assert(self@.squares =~= old(self)@.squares);
            assert(self@.hands =~= old(self)@.hands);
            assert(self@.configs =~= old(self)@.configs);
        }
    }

    /// Whether a square lies on the grid.
    pub fn contains(&self, pos: Position) -> (b: bool)
        ensures
            b == self@.on_board(pos),
    {
        pos.x < self.width && pos.y < self.height
    }

    /// Puts a piece on a square, in place of what stood there, and says
    /// whether it did: a square off the grid cannot hold a piece, and the
    /// board stays as it is.
    pub fn place_piece(&mut self, pos: Position, piece: Piece) -> (placed: bool)
        requires
            old(self).wf(),
        ensures
            placed == old(self)@.on_board(pos),
            final(self).wf(),
            final(self)@ == old(self)@.place(pos, piece),
            !placed ==> final(self)@ == old(self)@,
            final(self).same_record(old(self)),
    {
        if pos.x < self.width && pos.y < self.height {
            let i = pos.y * 9 + pos.x;
            self.cells[i] = Some(piece);
            proof {
                assert(self@.squares =~= old(self)@.squares.insert(pos, piece));
                assert(self@.hands =~= old(self)@.hands);
                assert(self@.configs =~= old(self)@.configs);
            }
            true
        } else {
            false
        }
    }

    /// The piece on a square, if there is one.
    pub fn get_piece(&self, pos: Position) -> (r: Option<&Piece>)
        requires
            self.wf(),
        ensures
            r is Some <==> self@.piece_at(pos) is Some,
            r matches Some(p) ==> self@.piece_at(pos) == Some(*p),
    {
        if pos.x < self.width && pos.y < self.height {
            self.cells[pos.y * 9 + pos.x].as_ref()
        } else {
            None
        }
    }

    /// Empties a square and hands back what stood there.
    pub fn remove_piece(&mut self, pos: Position) -> (r: Option<Piece>)
        requires
            old(self).wf(),
        ensures
            final(self).wf(),
            r == old(self)@.piece_at(pos),
            final(self)@ == old(self)@.take(pos),
            r is None ==> final(self)@ == old(self)@,
            final(self).same_record(old(self)),
    {
        if pos.x < self.width && pos.y < self.height {
            let i = pos.y * 9 + pos.x;
            let r = self.cells[i];
            self.cells[i] = None;
            proof {
                assert(self@.squares =~= old(self)@.squares.remove(pos));
                assert(self@.hands =~= old(self)@.hands);
                assert(self@.configs =~= old(self)@.configs);
            }
            proof {
                if r is None {
                    assert(self@.squares =~= old(self)@.squares);
                }
            }
            r
        } else {
            proof {
                assert(self@.squares =~= old(self)@.squares.remove(pos));
            }
            None
        }
    }

    /// How many pieces of a kind a side holds in hand.
    pub fn hand_count(&self, player: PlayerId, kind: PieceKind) -> (n: usize)
        requires
            self.wf(),
        ensures
            n == self@.hand_count(player, kind),
    {
        proof {
            lemma_hand_slot_bounds();
        }
        self.hands[hand_slot_of(player, kind)]
    }

    /// Adds one piece of a kind to the hand of a side.
    pub fn add_to_hand(&mut self, player: PlayerId, kind: PieceKind)
        requires
            old(self).wf(),
        ensures
            final(self).wf(),
            final(self)@ == old(self)@.give(player, kind),
            final(self).same_record(old(self)),
    {
        proof {
            lemma_hand_slot_bounds();
        }
        let s = hand_slot_of(player, kind);
        let n = self.hands[s];
        if n < usize::MAX {
            self.hands[s] = n + 1;
        }
        proof {
            assert(self@.hands =~= old(self)@.give(player, kind).hands);
            assert(self@.squares =~= old(self)@.squares);
            assert(self@.configs =~= old(self)@.configs);
        }
    }

    /// Takes one piece of a kind out of the hand of a side. Says whether there
    /// was one.
    pub fn remove_from_hand(&mut self, player: PlayerId, kind: PieceKind) -> (found: bool)
        requires
            old(self).wf(),
        ensures
            final(self).wf(),
            found == (old(self)@.hand_count(player, kind) > 0),
            final(self)@ == old(self)@.spend(player, kind),
            final(self).same_record(old(self)),
    {
        proof {
            lemma_hand_slot_bounds();
        }
        let s = hand_slot_of(player, kind);
        let n = self.hands[s];
        if n > 0 {
            self.hands[s] = n - 1;
            proof {
                assert(self@.hands =~= old(self)@.spend(player, kind).hands);
                assert(self@.squares =~= old(self)@.squares);
                assert(self@.configs =~= old(self)@.configs);
            }
            true
        } else {
            false
        }
    }

    /// Sets the capabilities of a side.
    pub fn set_player_config(&mut self, player: PlayerId, config: PlayerConfig)
        requires
            old(self).wf(),
        ensures
            final(self).wf(),
            final(self)@ == old(self)@.configure(player, config),
            final(self).same_record(old(self)),
    {
        match player {
            PlayerId::Player1 => {
                self.config1 = Some(config);
            },
            PlayerId::Player2 => {
                self.config2 = Some(config);
            },
        }
        proof {
            assert(self@.configs =~= old(self)@.configs.insert(player, config));
            assert(self@.squares =~= old(self)@.squares);
            assert(self@.hands =~= old(self)@.hands);
        }
    }

    /// The capabilities of a side: those that were set, else the shogi ones.
    pub fn get_player_config(&self, player: PlayerId) -> (c: PlayerConfig)
        ensures
            c == self@.config(player),
    {
        let set = match player {
            PlayerId::Player1 => self.config1,
            PlayerId::Player2 => self.config2,
        };
        match set {
            Some(c) => c,
            None => PlayerConfig::shogi(),
        }
    }

    /// The square of the first king of a side in reading order.
    pub fn find_king(&self, player: PlayerId) -> (r: Option<Position>)
        requires
            self.wf(),
        ensures
            r == self@.king_square(player),
            r matches Some(p) ==> self@.holds_king(p, player) && forall|q: Position|
                self@.holds_king(q, player) ==> !precedes(q, p),
            r is None ==> forall|q: Position| !self@.holds_king(q, player),
    {
        let mut y: usize = 0;
        while y < self.height
            invariant
                self.wf(),
                y <= self.height,
                forall|q: Position| q.y < y ==> !self@.holds_king(q, player),
            decreases self.height - y,
        {
            let mut x: usize = 0;
            while x < self.width
                invariant
                    self.wf(),
                    y < self.height,
                    x <= self.width,
                    forall|q: Position|
                        precedes(q, Position { x, y }) ==> !self@.holds_king(q, player),
                decreases self.width - x,
            {
                let pos = Position { x, y };
                if let Some(p) = self.cells[y * 9 + x] {
                    if p.owner == player && p.kind.is_king_kind() {
                        proof {
                            assert(self@.holds_king(pos, player));
                            lemma_first_king_unique(self@, player, pos);
                        }
                        return Some(pos);
                    }
                }
                proof {
                    assert(!self@.holds_king(pos, player));
                    assert forall|q: Position|
                        precedes(q, Position { x: (x + 1) as usize, y }) implies !self@.holds_king(
                        q,
                        player,
                    ) by {
                        if !precedes(q, pos) {
                            assert(q == pos);
                        }
                    }
                }
                x += 1;
            }
            y += 1;
        }
        None
    }
}

impl Clone for Board {
    /// A copy of the board with everything that it records.
    fn clone(&self) -> (b: Self)
        ensures
            b@ == self@,
            b.same_record(self),
            b.wf() == self.wf(),
    {
        let b = Board {
            width: self.width,
            height: self.height,
            cells: copy_of(&self.cells),
            hands: copy_of(&self.hands),
            config1: self.config1,
            config2: self.config2,
            last_move: self.last_move,
            zobrist_hash: self.zobrist_hash,
            history: copy_of(&self.history),
        };
        proof {
            assert(b@.squares =~= self@.squares);
            assert(b@.hands =~= self@.hands);
            assert(b@.configs =~= self@.configs);
        }
        b
    }
}

/// A vector with the same items in the same order.
pub fn copy_of<T: Copy>(v: &Vec<T>) -> (r: Vec<T>)
    ensures
        r@ == v@,
{
    let mut r: Vec<T> = Vec::new();
    let mut i: usize = 0;
    while i < v.len()
        invariant
            i <= v@.len(),
            r@ == v@.subrange(0, i as int),
        decreases v@.len() - i,
    {
        r.push(v[i]);
        proof {
            assert(r@ =~= v@.subrange(0, i + 1));
        }
        i += 1;
    }
    proof {
        assert(r@ =~= v@);
    }
    r
}

/// Where the hand entry of a side and a kind is stored.
fn hand_slot_of(player: PlayerId, kind: PieceKind) -> (s: usize)
    ensures
        s == hand_slot(player, kind),
        s < HAND_SLOTS,
{
    let base: usize = match player {
        PlayerId::Player1 => 0,
        PlayerId::Player2 => PIECE_KINDS,
    };
    base + kind.to_index()
}

/// Different (side, kind) pairs have different hand entries, all below 40.
pub proof fn lemma_hand_slot_bounds()
    ensures
        forall|p: PlayerId, k: PieceKind| 0 <= #[trigger] hand_slot(p, k) < HAND_SLOTS,
        forall|p: PlayerId, k: PieceKind, q: PlayerId, l: PieceKind|
            hand_slot(p, k) == hand_slot(q, l) ==> p == q && k == l,
{
}

/// Each way of changing a well-formed position gives a well-formed position
/// on the same grid.
pub proof fn lemma_changes_keep_wf(v: BoardView)
    requires
        v.wf(),
    ensures
        forall|p: Position, piece: Piece| #[trigger] v.place(p, piece).wf(),
        forall|p: Position| #[trigger] v.take(p).wf(),
        forall|player: PlayerId, kind: PieceKind| #[trigger] v.give(player, kind).wf(),
        forall|player: PlayerId, kind: PieceKind| #[trigger] v.spend(player, kind).wf(),
        forall|player: PlayerId, c: PlayerConfig| #[trigger] v.configure(player, c).wf(),
{
    assert forall|p: Position, piece: Piece| #[trigger] v.place(p, piece).wf() by {
        let w = v.place(p, piece);
        assert forall|q: Position| #[trigger] w.squares.dom().contains(q) implies w.on_board(
            q,
        ) by {
            if q != p {
                assert(v.squares.dom().contains(q));
            }
        }
    }
    assert forall|p: Position| #[trigger] v.take(p).wf() by {
        let w = v.take(p);
        assert forall|q: Position| #[trigger] w.squares.dom().contains(q) implies w.on_board(
            q,
        ) by {
            assert(v.squares.dom().contains(q));
        }
    }
    assert forall|player: PlayerId, kind: PieceKind| #[trigger] v.give(player, kind).wf() by {
        let w = v.give(player, kind);
        assert forall|k: (PlayerId, PieceKind)| #[trigger]
            w.hands.dom().contains(k) implies w.hands[k] > 0 by {
            if k != (player, kind) {
                assert(v.hands.dom().contains(k));
            }
        }
    }
    assert forall|player: PlayerId, kind: PieceKind| #[trigger] v.spend(player, kind).wf() by {
        let w = v.spend(player, kind);
        assert forall|k: (PlayerId, PieceKind)| #[trigger]
            w.hands.dom().contains(k) implies w.hands[k] > 0 by {
            if k != (player, kind) {
                assert(v.hands.dom().contains(k));
            }
        }
    }
}

/// A king square of a side before which no other king square of that side
/// comes is the side's king square.
pub proof fn lemma_first_king_unique(v: BoardView, player: PlayerId, p: Position)
    requires
        v.holds_king(p, player),
        forall|q: Position| v.holds_king(q, player) ==> !precedes(q, p),
    ensures
        v.king_square(player) == Some(p),
{
    let c = choose|c: Position|
        v.holds_king(c, player) && forall|q: Position| v.holds_king(q, player) ==> !precedes(q, c);
    assert(!precedes(p, c));
    assert(!precedes(c, p));
}

} // verus!
