//! Cancelling the host calls of a run.
//!
//! The cancellation belongs to the run, apart from the request that started it: stopping host
//! work must not suppress the script's error response.

use std::collections::HashSet;
use vstd::prelude::*;

verus! {

broadcast use vstd::std_specs::hash::group_hash_axioms;

/// Why host calls are cancelled.
pub const STOP_REASON: &'static str = "code mode worker stopped";

/// The host calls of a run. Only stopping the run cancels a call, so that the calls at work and
/// whether the run is stopped say which are cancelled.
pub struct HostCalls {
    pub(crate) next: u64,
    /// The calls at work.
    pub(crate) active: HashSet<u64>,
    pub(crate) stopped: bool,
}

/// Tells whether a call was cancelled.
#[derive(Debug, Clone, Copy, PartialEq, Eq, Structural)]
pub struct CancelContext {
    pub id: u64,
}

/// A host call at work. The caller hands it back to [`HostCalls::finish`].
#[derive(Debug)]
pub struct HostCall {
    pub id: u64,
    pub context: CancelContext,
}

/// What a [`HostCalls`] holds.
#[verifier::ext_equal]
pub struct Calls {
    pub next: nat,
    pub active: Set<u64>,
    pub stopped: bool,
}

impl View for HostCalls {
    type V = Calls;

    open(crate) spec fn view(&self) -> Calls {
        Calls { next: self.next as nat, active: self.active@, stopped: self.stopped }
    }
}

impl Calls {
    /// Calls that did not begin yet are not at work.
    pub open spec fn wf(self) -> bool {
        forall|id: u64| #[trigger] self.active.contains(id) ==> id < self.next
    }

    /// The next call begins.
    pub open spec fn start(self) -> Calls {
        Calls { next: self.next + 1, active: self.active.insert(self.next as u64), ..self }
    }

    /// The run is stopped.
    pub open spec fn stop(self) -> Calls {
        Calls { stopped: true, ..self }
    }

    pub open spec fn finish(self, id: u64) -> Calls {
        Calls { active: self.active.remove(id), ..self }
    }

    /// Whether a call at work is cancelled: every one is in a stopped run, whether it began
    /// before the stop or after it, and none is before.
    pub open spec fn cancelled(self, id: u64) -> bool {
        self.stopped && self.active.contains(id)
    }
}

impl HostCalls {
    pub open spec fn wf(&self) -> bool {
        self@.wf()
    }
}

impl Default for HostCalls {
    fn default() -> (calls: HostCalls)
        ensures
            calls.wf(),
            calls@ == (Calls { next: 0, active: Set::empty(), stopped: false }),
    {
        HostCalls { next: 0, active: HashSet::new(), stopped: false }
    }
}

impl HostCalls {
    /// Whether ids are left for another call.
    pub fn can_start(&self) -> (yes: bool)
        ensures
            yes == (self@.next < u64::MAX),
    {
        self.next < u64::MAX
    }

    /// Begins a host call.
    pub fn start(&mut self) -> (call: HostCall)
        requires
            old(self).wf(),
            old(self)@.next < u64::MAX,
        ensures
            final(self).wf(),
            final(self)@ == old(self)@.start(),
            call.id == old(self)@.next,
            call.context.id == old(self)@.next,
    {
        let id: u64 = self.next;
        self.next = self.next + 1;
        let _ = self.active.insert(id);
        proof {
            assert forall|other: u64| #[trigger] self@.active.contains(other) implies other
                < self@.next by {
                if other != id {
                    assert(old(self)@.active.contains(other));
                }
            }
        }
        HostCall { id, context: CancelContext { id } }
    }

    /// Cancels every host call at work, and every one that begins later.
    pub fn stop(&mut self)
        requires
            old(self).wf(),
        ensures
            final(self).wf(),
            final(self)@ == old(self)@.stop(),
    {
        self.stopped = true;
    }

    /// A host call is done.
    pub fn finish(&mut self, call: HostCall)
        requires
            old(self).wf(),
        ensures
            final(self).wf(),
            final(self)@ == old(self)@.finish(call.id),
    {
        let _ = self.active.remove(&call.id);
    }
}

impl CancelContext {
    /// Whether the call was cancelled; of a call that is done nothing is known any more.
    pub fn is_cancelled(&self, calls: &HostCalls) -> (cancelled: bool)
        ensures
            cancelled == calls@.cancelled(self.id),
    {
        calls.stopped && calls.active.contains(&self.id)
    }

    /// Why the call was cancelled, if it was.
    pub fn cancel_reason(&self, calls: &HostCalls) -> (reason: Option<&'static str>)
        ensures
            reason == (if calls@.cancelled(self.id) {
                Some(STOP_REASON)
            } else {
                None
            }),
    {
        if self.is_cancelled(calls) {
            Some(STOP_REASON)
        } else {
            None
        }
    }
}

/// What happens to the host calls of a run.
pub enum Move {
    Start,
    Finish(u64),
    Stop,
}

impl Calls {
    /// The host calls after the moves.
    pub open spec fn after(self, moves: Seq<Move>) -> Calls
        decreases moves.len(),
    {
        if moves.len() == 0 {
            self
        } else {
            let before = self.after(moves.drop_last());
            match moves.last() {
                Move::Start => before.start(),
                Move::Finish(id) => before.finish(id),
                Move::Stop => before.stop(),
            }
        }
    }
}

/// Stopping a run is final: from then on every call at work is cancelled, whether it began
/// before the stop or after it.
pub proof fn law_stop_is_final(calls: Calls, moves: Seq<Move>)
    ensures
        calls.stop().after(moves).stopped,
        forall|id: u64| #[trigger]
            calls.stop().after(moves).active.contains(id) ==> calls.stop().after(
                moves,
            ).cancelled(id),
    decreases moves.len(),
{
    if moves.len() > 0 {
        law_stop_is_final(calls, moves.drop_last());
    }
}

/// Before a run is stopped, no call is cancelled.
pub proof fn law_only_a_stop_cancels(calls: Calls, moves: Seq<Move>, id: u64)
    requires
        !calls.stopped,
        forall|i: int| 0 <= i < moves.len() ==> !((#[trigger] moves[i]) is Stop),
    ensures
        !calls.after(moves).stopped,
        !calls.after(moves).cancelled(id),
    decreases moves.len(),
{
    if moves.len() > 0 {
        let front = moves.drop_last();
        assert(forall|i: int| 0 <= i < front.len() ==> #[trigger] front[i] == moves[i]);
        law_only_a_stop_cancels(calls, front, id);
        assert(!(moves[moves.len() - 1] is Stop));
    }
}

/// A call that begins is at work until it is done, whatever else begins, ends or is stopped
/// meanwhile.
pub proof fn law_call_is_at_work_until_done(calls: Calls, moves: Seq<Move>)
    requires
        calls.next + moves.len() < u64::MAX,
        forall|i: int|
            0 <= i < moves.len() ==> #[trigger] moves[i] != Move::Finish(calls.next as u64),
    ensures
        calls.start().after(moves).active.contains(calls.next as u64),
        calls.next < calls.start().after(moves).next <= calls.next + 1 + moves.len(),
    decreases moves.len(),
{
    if moves.len() > 0 {
        let front = moves.drop_last();
        assert(forall|i: int| 0 <= i < front.len() ==> #[trigger] front[i] == moves[i]);
        law_call_is_at_work_until_done(calls, front);
        assert(moves[moves.len() - 1] != Move::Finish(calls.next as u64));
    }
}

/// A call that is done is never at work again: no later call takes its id.
pub proof fn law_done_calls_stay_done(calls: Calls, id: u64, moves: Seq<Move>)
    requires
        id < calls.next,
        calls.next + moves.len() < u64::MAX,
    ensures
        !calls.finish(id).after(moves).active.contains(id),
        calls.next <= calls.finish(id).after(moves).next <= calls.next + moves.len(),
    decreases moves.len(),
{
    if moves.len() > 0 {
        law_done_calls_stay_done(calls, id, moves.drop_last());
    }
}

/// A stop cancels every call that is at work then or begins later, until it is done: a call that
/// began and is not done is cancelled once any of the moves was a stop.
pub proof fn law_stop_reaches_every_call(calls: Calls, moves: Seq<Move>, stop: int)
    requires
        calls.next + moves.len() < u64::MAX,
        0 <= stop < moves.len(),
        moves[stop] is Stop,
        forall|i: int|
            0 <= i < moves.len() ==> #[trigger] moves[i] != Move::Finish(calls.next as u64),
    ensures
        calls.start().after(moves).cancelled(calls.next as u64),
    decreases moves.len(),
{
    law_call_is_at_work_until_done(calls, moves);
    lemma_stop_stays(calls.start(), moves, stop);
}

proof fn lemma_stop_stays(calls: Calls, moves: Seq<Move>, stop: int)
    requires
        0 <= stop < moves.len(),
        moves[stop] is Stop,
    ensures
        calls.after(moves).stopped,
    decreases moves.len(),
{
    let front = moves.drop_last();
    if stop < front.len() {
        assert(front[stop] == moves[stop]);
        lemma_stop_stays(calls, front, stop);
    }
}

/// Each move changes one thing: a start adds the next id, an end takes its own, and a stop takes
/// or adds none.
pub proof fn law_moves_change_one_thing(calls: Calls, id: u64, other: u64)
    requires
        calls.next < u64::MAX,
        other != id,
        other != calls.next,
    ensures
        calls.start().next == calls.next + 1,
        calls.start().stopped == calls.stopped,
        calls.start().active.contains(other) == calls.active.contains(other),
        calls.finish(id).next == calls.next,
        calls.finish(id).stopped == calls.stopped,
        calls.finish(id).active.contains(other) == calls.active.contains(other),
        !calls.finish(id).active.contains(id),
        calls.stop().next == calls.next,
        calls.stop().stopped,
        calls.stop().active == calls.active,
        calls.cancelled(id) <==> calls.stopped && calls.active.contains(id),
{
}

} // verus!
