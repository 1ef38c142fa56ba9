//! The interface between the search and whatever scores positions for it.

use vstd::prelude::*;
use crate::model::board::{Board, BoardView};

verus! {

/// Something that scores positions: positive is taken to favour the first
/// player.
///
/// The search asks two things of an evaluator: that what it says of a
/// position depends on nothing but the evaluator as it is when it is asked
/// and on the position, and that being asked does not change what it says of
/// any position. `answer` is the name of that score. An evaluator that is
/// written outside this library is taken at its word on both; what is proved
/// of the search speaks of its answers and holds of it as far as it keeps to
/// them.
pub trait Evaluator {
    /// What the evaluator, as it is, says of a position. An evaluator that
    /// does not say what that is leaves it open: some number that depends on
    /// the evaluator and the position alone.
    open spec fn answer(&self, v: BoardView) -> int {
        arbitrary::<spec_fn(&Self, BoardView) -> int>()(self, v)
    }

    /// The score of the position on `board`, from the first player's point of
    /// view. The evaluator may change as it is asked, but not in what it
    /// says of any position.
    fn evaluate(&mut self, board: &Board) -> (r: i32)
        requires
            board.wf(),
        ensures
            r == old(self).answer(board@),
            forall|v: BoardView| #[trigger] final(self).answer(v) == old(self).answer(v),
    ;

    /// A name for the evaluator, for display.
    fn name(&self) -> (n: String);
}

} // verus!
