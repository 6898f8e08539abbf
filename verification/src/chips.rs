//! Chips of a hashboard: which are listed and which work.
use vstd::prelude::*;

verus! {

/// A chip as the answers describe it: its id on the board and whether it
/// works.
#[derive(Clone, Copy, Debug, PartialEq, Eq, Structural)]
pub struct ChipState {
    pub position: u16,
    pub working: Option<bool>,
}

/// The number of chips that work.
pub open spec fn working_count(chips: Seq<ChipState>) -> nat
    decreases chips.len(),
{
    if chips.len() == 0 {
        0
    } else {
        working_count(chips.drop_last()) + if chips.last().working == Some(true) {
            1nat
        } else {
            0
        }
    }
}

/// The number of chips that work (see [`working_count`]).
pub fn count_working(chips: &Vec<ChipState>) -> (r: usize)
    ensures
        r == working_count(chips@),
{
    let mut count: usize = 0;
    let mut i: usize = 0;
    assert(chips@.take(0) =~= Seq::<ChipState>::empty());
    while i < chips.len()
        invariant
            i <= chips@.len(),
            count == working_count(chips@.take(i as int)),
            count <= i,
        decreases chips@.len() - i,
    {
        assert(chips@.take(i + 1).drop_last() =~= chips@.take(i as int));
        if chips[i].working == Some(true) {
            count = count + 1;
        }
        i = i + 1;
    }
    assert(chips@.take(chips@.len() as int) =~= chips@);
    count
}

/// The number of chips listed is at least the number of those that work.
pub proof fn lemma_working_count_le(chips: Seq<ChipState>)
    ensures
        working_count(chips) <= chips.len(),
    decreases chips.len(),
{
    if chips.len() > 0 {
        lemma_working_count_le(chips.drop_last());
    }
}

} // verus!
