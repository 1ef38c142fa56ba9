//! The transposition table: a fixed number of slots, each holding the result
//! of the deepest search of one position whose hash falls into it.

use vstd::prelude::*;
use crate::model::mv::Move;

verus! {

/// How a stored score relates to the true value of the position.
#[derive(Clone, Copy, PartialEq, Eq, Debug, Structural)]
pub enum Bound {
    /// The score is the value.
    Exact,
    /// The value is at least the score: the search was cut off from above.
    Lower,
    /// The value is at most the score: no move raised the lower limit.
    Upper,
}

/// The result of one search of one position.
#[derive(Clone, Copy, PartialEq, Eq, Debug, Structural)]
pub struct TTEntry {
    pub hash: u64,
    pub depth: usize,
    pub score: i32,
    pub bound: Bound,
}

/// The slot of a table of `size` slots into which `hash` falls.
pub open spec fn slot_of(hash: u64, size: nat) -> int
    recommends
        size > 0,
{
    hash as int % size as int
}

/// The table after a result was offered to it: the slot of the hash takes the
/// new entry unless it holds one from a deeper search; a table without slots
/// stays empty.
pub open spec fn stored(
    table: Seq<Option<(TTEntry, Option<Move>)>>,
    entry: TTEntry,
    best_move: Option<Move>,
) -> Seq<Option<(TTEntry, Option<Move>)>> {
    if table.len() == 0 {
        table
    } else {
        let i = slot_of(entry.hash, table.len());
        match table[i] {
            Some((old, _)) => if entry.depth < old.depth {
                table
            } else {
                table.update(i, Some((entry, best_move)))
            },
            None => table.update(i, Some((entry, best_move))),
        }
    }
}

/// What a table answers for `hash`: the content of the slot of the hash, if
/// the entry there was stored for this very hash.
pub open spec fn found(table: Seq<Option<(TTEntry, Option<Move>)>>, hash: u64) -> Option<
    (TTEntry, Option<Move>),
> {
    if table.len() == 0 {
        None
    } else {
        match table[slot_of(hash, table.len())] {
            Some((entry, mv)) => if entry.hash == hash {
                Some((entry, mv))
            } else {
                None
            },
            None => None,
        }
    }
}

/// A cache from position hashes to search results.
pub struct TranspositionTable {
    entries: Vec<Option<(TTEntry, Option<Move>)>>,
}

impl View for TranspositionTable {
    type V = Seq<Option<(TTEntry, Option<Move>)>>;

    closed spec fn view(&self) -> Self::V {
        self.entries@
    }
}

/// The number of bytes that a table reserves for each slot.
pub const BYTES_PER_SLOT: usize = 80;

impl TranspositionTable {
    /// An empty table that fills about `size_mb` megabytes: one slot for
    /// every 80 bytes.
    pub fn new(size_mb: usize) -> (t: Self)
        requires
            size_mb * 1024 * 1024 <= usize::MAX,
        ensures
            t@.len() == size_mb * 1024 * 1024 / 80,
            forall|i: int| 0 <= i < t@.len() ==> t@[i] is None,
    {
        let num_entries = (size_mb * 1024 * 1024) / BYTES_PER_SLOT;
        let mut entries: Vec<Option<(TTEntry, Option<Move>)>> = Vec::new();
        let mut i: usize = 0;
        while i < num_entries
            invariant
                i <= num_entries,
                entries@.len() == i,
                forall|j: int| 0 <= j < i ==> entries@[j] is None,
            decreases num_entries - i,
        {
            entries.push(None);
            i += 1;
        }
        TranspositionTable { entries }
    }

    /// The number of slots.
    pub fn len(&self) -> (n: usize)
        ensures
            n == self@.len(),
    {
        self.entries.len()
    }

    /// Empties every slot.
    pub fn clear(&mut self)
        ensures
            final(self)@.len() == old(self)@.len(),
            forall|i: int| 0 <= i < final(self)@.len() ==> final(self)@[i] is None,
    {
        let n = self.entries.len();
        let mut i: usize = 0;
        while i < n
            invariant
                n == self.entries@.len(),
                n == old(self).entries@.len(),
                i <= n,
                forall|j: int| 0 <= j < i ==> self.entries@[j] is None,
            decreases n - i,
        {
            self.entries[i] = None;
            i += 1;
        }
    }

    /// The slot into which `hash` falls.
    fn slot(&self, hash: u64) -> (i: usize)
        requires
            self@.len() > 0,
        ensures
            i == slot_of(hash, self@.len()),
            i < self@.len(),
    {
        (hash % (self.entries.len() as u64)) as usize
    }

    /// The result stored for `hash`, if the slot of the hash holds one for
    /// this very hash.
    pub fn get(&self, hash: u64) -> (r: Option<(TTEntry, Option<Move>)>)
        ensures
            r == found(self@, hash),
    {
        if self.entries.len() == 0 {
            return None;
        }
        let idx = self.slot(hash);
        match self.entries[idx] {
            Some((entry, mv)) => {
                if entry.hash == hash {
                    Some((entry, mv))
                } else {
                    None
                }
            },
            None => None,
        }
    }

    /// Offers a result to the table. The slot of the hash takes it unless it
    /// holds the result of a deeper search, of this or of another position.
    pub fn store(&mut self, hash: u64, depth: usize, score: i32, bound: Bound, best_move: Option<Move>)
        ensures
            final(self)@ == stored(old(self)@, TTEntry { hash, depth, score, bound }, best_move),
    {
        if self.entries.len() == 0 {
            return ;
        }
        let idx = self.slot(hash);
        if let Some((entry, _)) = self.entries[idx] {
            if depth < entry.depth {
                return ;
            }
        }
        self.entries[idx] = Some((TTEntry { hash, depth, score, bound }, best_move));
    }
}

/// A result that the table took can be read back under its hash, and a result
/// that it refused leaves the table as it was.
pub proof fn lemma_stored_then_found(
    table: Seq<Option<(TTEntry, Option<Move>)>>,
    entry: TTEntry,
    best_move: Option<Move>,
)
    ensures
        stored(table, entry, best_move).len() == table.len(),
        stored(table, entry, best_move) != table ==> found(
            stored(table, entry, best_move),
            entry.hash,
        ) == Some((entry, best_move)),
        forall|i: int|
            0 <= i < table.len() && i != slot_of(entry.hash, table.len()) ==> stored(
                table,
                entry,
                best_move,
            )[i] == table[i],
{
}

} // verus!
