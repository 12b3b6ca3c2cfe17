//! How many workers may run at once.

use vstd::prelude::*;

verus! {

/// Most workers that run at once.
pub const MAX_WORKERS: usize = 4;

/// Leave for one worker to run. The caller keeps the count of permits that are out.
pub struct RunPermit;

impl RunPermit {
    /// The count with one more permit out, or nothing where all are out.
    pub open spec fn taken(out: nat) -> Option<nat> {
        if out < MAX_WORKERS {
            Some(out + 1)
        } else {
            None
        }
    }

    /// The count of permits that are out after one more was taken; nothing where all are out.
    pub fn acquire(out: usize) -> (taken: Option<usize>)
        ensures
            (match taken {
                Some(count) => Some(count as nat),
                None => None,
            }) == RunPermit::taken(out as nat),
    {
        if out < MAX_WORKERS {
            Some(out + 1)
        } else {
            None
        }
    }

    /// The count of permits that are out after one came back.
    pub fn release(out: usize) -> (count: usize)
        requires
            out > 0,
        ensures
            count == out - 1,
    {
        out - 1
    }
}

/// How many permits are out after runs began (`true`) and ended (`false`), where a run that
/// finds no permit does not begin and an end follows a begin.
pub open spec fn permits_out(moves: Seq<bool>) -> nat
    decreases moves.len(),
{
    if moves.len() == 0 {
        0
    } else {
        let before = permits_out(moves.drop_last());
        if moves.last() {
            match RunPermit::taken(before) {
                Some(count) => count,
                None => before,
            }
        } else if before > 0 {
            (before - 1) as nat
        } else {
            before
        }
    }
}

/// No more workers run at once than permits exist, and a permit that comes back can be taken
/// again.
pub proof fn law_permits_are_bounded(moves: Seq<bool>)
    ensures
        permits_out(moves) <= MAX_WORKERS,
        permits_out(moves) > 0 ==> RunPermit::taken((permits_out(moves) - 1) as nat) == Some(
            permits_out(moves),
        ),
    decreases moves.len(),
{
    if moves.len() > 0 {
        law_permits_are_bounded(moves.drop_last());
    }
}

/// A permit is there exactly while fewer than four are out, and taking one puts one more out.
pub proof fn law_a_permit_is_there_below_four(out: nat)
    ensures
        out < 4 ==> RunPermit::taken(out) == Some((out + 1) as nat),
        out >= 4 ==> RunPermit::taken(out) is None,
{
}

/// As long as no more runs began than four and none ended, each has its permit.
pub proof fn law_first_four_runs_have_permits(moves: Seq<bool>)
    requires
        moves.len() <= 4,
        forall|i: int| 0 <= i < moves.len() ==> #[trigger] moves[i],
    ensures
        permits_out(moves) == moves.len(),
    decreases moves.len(),
{
    if moves.len() > 0 {
        let front = moves.drop_last();
        assert(forall|i: int| 0 <= i < front.len() ==> #[trigger] front[i] == moves[i]);
        law_first_four_runs_have_permits(front);
        assert(moves[moves.len() - 1]);
    }
}

} // verus!
