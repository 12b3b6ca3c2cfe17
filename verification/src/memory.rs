//! The worker's memory budget: how its allocator counts, and how its end is read.

use vstd::prelude::*;
use vstd::string::*;

verus! {

/// The worker's memory budget in bytes.
pub const MEMORY_LIMIT_BYTES: usize = 536870912;

/// The exit code of a worker that ran out of its memory budget.
pub const MEMORY_EXIT_CODE: i32 = 86;

/// Exit codes of a Windows process whose memory could not be had or committed.
pub const STATUS_NO_MEMORY: i32 = -1073741801;

pub const STATUS_COMMITMENT_LIMIT: i32 = -1073741523;

/// Whether a worker with this exit code ended for want of memory. Only the exit status is
/// looked at, never a text that the script controls.
pub open spec fn memory_exit(code: Option<i32>, windows: bool) -> bool {
    ||| code == Some(MEMORY_EXIT_CODE)
    ||| windows && (code == Some(STATUS_NO_MEMORY) || code == Some(STATUS_COMMITMENT_LIMIT))
}

/// Whether a worker with this exit code ended for want of memory.
pub fn is_memory_termination(code: Option<i32>, windows: bool) -> (yes: bool)
    ensures
        yes == memory_exit(code, windows),
{
    match code {
        Some(code) => code == MEMORY_EXIT_CODE || windows && (code == STATUS_NO_MEMORY || code
            == STATUS_COMMITMENT_LIMIT),
        None => false,
    }
}

/// The end of a worker, as far as it can be seen.
pub enum WorkerExit {
    /// It ended, with an exit code where it has one, and with the status in words.
    Ended { code: Option<i32>, status: String },
    /// It has not ended, or this cannot be told.
    Unknown,
}

/// Why a worker whose pipe closed is gone, where that can be said already. A worker whose end
/// is not known yet is given a grace period.
pub open spec fn exit_text(exit: WorkerExit, grace_over: bool, windows: bool) -> Option<
    Seq<char>,
> {
    match exit {
        WorkerExit::Ended { code, status } => if memory_exit(code, windows) {
            Some("code mode script exceeded its memory budget (512 MiB)"@)
        } else {
            Some("code mode worker terminated before returning a result ("@ + status@ + ")"@)
        },
        WorkerExit::Unknown => if grace_over {
            Some("code mode worker pipe closed before returning a result"@)
        } else {
            None
        },
    }
}

/// Why a worker whose pipe closed is gone; nothing means to look again.
pub fn exit_reason(exit: &WorkerExit, grace_over: bool, windows: bool) -> (reason: Option<String>)
    ensures
        (match reason {
            Some(text) => Some(text@),
            None => None,
        }) == exit_text(*exit, grace_over, windows),
{
    match exit {
        WorkerExit::Ended { code, status } => {
            if is_memory_termination(*code, windows) {
                Some("code mode script exceeded its memory budget (512 MiB)".to_owned())
            } else {
                let mut text =
                    "code mode worker terminated before returning a result (".to_owned();
                text.append(status.as_str());
                text.append(")");
                Some(text)
            }
        },
        WorkerExit::Unknown => if grace_over {
            Some("code mode worker pipe closed before returning a result".to_owned())
        } else {
            None
        },
    }
}

/// How long, in milliseconds, a worker's end may stay unknown after its pipe closed. Windows
/// closes the pipes long before it signals the process.
pub fn exit_grace_millis(windows: bool) -> (millis: u64)
    ensures
        millis == (if windows {
            1000u64
        } else {
            25
        }),
{
    if windows {
        1000
    } else {
        25
    }
}

/// The address-space limit of a worker: its budget, or what the process inherits where that is
/// less.
pub fn address_space_limit(current: u64, ceiling: u64) -> (bytes: u64)
    ensures
        bytes <= MEMORY_LIMIT_BYTES && bytes <= current && bytes <= ceiling,
        bytes == MEMORY_LIMIT_BYTES || bytes == current || bytes == ceiling,
{
    let budget: u64 = MEMORY_LIMIT_BYTES as u64;
    let inherited: u64 = if current < ceiling {
        current
    } else {
        ceiling
    };
    if budget < inherited {
        budget
    } else {
        inherited
    }
}

/// What the worker does next.
#[derive(Debug, Clone, Copy, PartialEq, Eq, Structural)]
pub enum Fate {
    Continue,
    /// Leaves at once with [`MEMORY_EXIT_CODE`].
    Exit,
}

/// The worker's heap account. It counts from the start of the process, so that freeing what was
/// allocated before the limit was enabled cannot make the count too small.
#[derive(Debug, Clone, Copy, PartialEq, Eq, Structural)]
pub struct WorkerAllocator {
    pub used: usize,
    pub limited: bool,
}

impl WorkerAllocator {
    pub fn new() -> (account: WorkerAllocator)
        ensures
            account == (WorkerAllocator { used: 0, limited: false }),
    {
        WorkerAllocator { used: 0, limited: false }
    }

    /// Whether `bytes` more go over the budget.
    pub open spec fn over(self, bytes: nat) -> bool {
        self.limited && self.used + bytes > MEMORY_LIMIT_BYTES
    }

    /// The account with `bytes` more. The count wraps around, as a counter shared by threads
    /// does.
    pub open spec fn reserved(self, bytes: usize) -> WorkerAllocator {
        WorkerAllocator { used: self.used.wrapping_add(bytes), ..self }
    }

    /// The account with `bytes` less.
    pub open spec fn given_back(self, bytes: usize) -> WorkerAllocator {
        WorkerAllocator { used: self.used.wrapping_sub(bytes), ..self }
    }

    /// Bytes came back.
    pub fn give_back(&mut self, bytes: usize)
        ensures
            *final(self) == old(self).given_back(bytes),
    {
        self.used = self.used.wrapping_sub(bytes);
    }
}

/// Counts `bytes` that are about to be allocated. The budget is held against the sum itself,
/// whether or not the count wraps around.
pub fn reserve(account: &mut WorkerAllocator, bytes: usize) -> (fate: Fate)
    ensures
        *final(account) == old(account).reserved(bytes),
        fate is Exit <==> old(account).over(bytes as nat),
{
    let previous: usize = account.used;
    account.used = previous.wrapping_add(bytes);
    if account.limited && previous.saturating_add(bytes) > MEMORY_LIMIT_BYTES {
        Fate::Exit
    } else {
        Fate::Continue
    }
}

/// Enables the limit. What is in use by then already counts.
pub fn enable(account: &mut WorkerAllocator) -> (fate: Fate)
    ensures
        final(account).limited,
        final(account).used == old(account).used,
        fate is Exit <==> old(account).used > MEMORY_LIMIT_BYTES,
{
    account.limited = true;
    reserve(account, 0)
}

/// Enables the limit of a worker process.
pub fn enable_worker_limit(account: &mut WorkerAllocator) -> (fate: Fate)
    ensures
        final(account).limited,
        final(account).used == old(account).used,
        fate is Exit <==> old(account).used > MEMORY_LIMIT_BYTES,
{
    enable(account)
}

/// What follows an allocation that the system refused: under the limit the worker leaves, before
/// the engine can turn the refusal into an error that a script could catch.
pub fn allocation_failed(account: &WorkerAllocator) -> (fate: Fate)
    ensures
        fate is Exit <==> account.limited,
{
    if account.limited {
        Fate::Exit
    } else {
        Fate::Continue
    }
}

/// What to do once the system has answered.
#[derive(Debug, Clone, Copy, PartialEq, Eq, Structural)]
pub enum Settlement {
    Exit,
    /// Take this many bytes off the account.
    GiveBack(usize),
}

/// How many bytes a block of `old_size` needs more to hold `new_size`.
pub open spec fn growth(old_size: nat, new_size: nat) -> nat {
    if new_size > old_size {
        (new_size - old_size) as nat
    } else {
        0
    }
}

/// What to reserve before a block is resized.
pub fn resize_growth(old_size: usize, new_size: usize) -> (bytes: usize)
    ensures
        bytes == growth(old_size as nat, new_size as nat),
{
    new_size.saturating_sub(old_size)
}

/// What follows an allocation of `size` bytes that were reserved.
pub fn settle_alloc(account: &WorkerAllocator, size: usize, served: bool) -> (settlement:
    Settlement)
    ensures
        settlement == alloc_settlement(account.limited, size as nat, served),
{
    if served {
        return Settlement::GiveBack(0);
    }
    match allocation_failed(account) {
        Fate::Exit => Settlement::Exit,
        Fate::Continue => Settlement::GiveBack(size),
    }
}

pub open spec fn alloc_settlement(limited: bool, size: nat, served: bool) -> Settlement {
    if served {
        Settlement::GiveBack(0)
    } else if limited {
        Settlement::Exit
    } else {
        Settlement::GiveBack(size as usize)
    }
}

/// What follows a resize whose growth was reserved.
pub fn settle_realloc(
    account: &WorkerAllocator,
    old_size: usize,
    new_size: usize,
    served: bool,
) -> (settlement: Settlement)
    ensures
        settlement == realloc_settlement(
            account.limited,
            old_size as nat,
            new_size as nat,
            served,
        ),
{
    if served {
        return Settlement::GiveBack(old_size.saturating_sub(new_size));
    }
    match allocation_failed(account) {
        Fate::Exit => Settlement::Exit,
        Fate::Continue => Settlement::GiveBack(resize_growth(old_size, new_size)),
    }
}

pub open spec fn realloc_settlement(
    limited: bool,
    old_size: nat,
    new_size: nat,
    served: bool,
) -> Settlement {
    if served {
        Settlement::GiveBack(growth(new_size, old_size) as usize)
    } else if limited {
        Settlement::Exit
    } else {
        Settlement::GiveBack(growth(old_size, new_size) as usize)
    }
}

/// The account after an allocation of `size` bytes, where the worker goes on, is the account
/// before it and the block, or the account before it where the block was refused.
pub proof fn law_alloc_is_counted(limited: bool, used: nat, size: usize, served: bool)
    requires
        alloc_settlement(limited, size as nat, served) is GiveBack,
    ensures
        used + size - alloc_settlement(limited, size as nat, served)->GiveBack_0 == if served {
            used + size
        } else {
            used as int
        },
{
}

/// The account after a resize, where the worker goes on, has the block at its new size, or at
/// its old size where the resize was refused.
pub proof fn law_realloc_is_counted(
    limited: bool,
    used: nat,
    old_size: usize,
    new_size: usize,
    served: bool,
)
    requires
        realloc_settlement(limited, old_size as nat, new_size as nat, served) is GiveBack,
    ensures
        used + growth(old_size as nat, new_size as nat) - realloc_settlement(
            limited,
            old_size as nat,
            new_size as nat,
            served,
        )->GiveBack_0 == if served {
            used - old_size + new_size
        } else {
            used as int
        },
{
}

/// What happens to a heap account.
pub enum HeapMove {
    /// Bytes are about to be allocated.
    Reserve(usize),
    /// Bytes came back.
    GiveBack(usize),
}

impl WorkerAllocator {
    /// The account after the moves; nothing once the worker has left.
    pub open spec fn after(self, moves: Seq<HeapMove>) -> Option<WorkerAllocator>
        decreases moves.len(),
    {
        if moves.len() == 0 {
            Some(self)
        } else {
            match self.after(moves.drop_last()) {
                None => None,
                Some(before) => match moves.last() {
                    HeapMove::Reserve(bytes) => if before.over(bytes as nat) {
                        None
                    } else {
                        Some(before.reserved(bytes))
                    },
                    HeapMove::GiveBack(bytes) => Some(before.given_back(bytes)),
                },
            }
        }
    }

    /// Whether only bytes that are counted come back.
    pub open spec fn balanced(self, moves: Seq<HeapMove>) -> bool
        decreases moves.len(),
    {
        moves.len() > 0 ==> {
            &&& self.balanced(moves.drop_last())
            &&& (moves.last() matches HeapMove::GiveBack(bytes) ==> (self.after(
                moves.drop_last(),
            ) matches Some(before) ==> bytes <= before.used))
        }
    }
}

/// The bytes that the moves add to an account.
pub open spec fn net(moves: Seq<HeapMove>) -> int
    decreases moves.len(),
{
    if moves.len() == 0 {
        0
    } else {
        net(moves.drop_last()) + match moves.last() {
            HeapMove::Reserve(bytes) => bytes as int,
            HeapMove::GiveBack(bytes) => -(bytes as int),
        }
    }
}

/// A worker that goes on is within its budget, and its account is exact: with the limit enabled,
/// what is counted never exceeds the budget and never wraps around.
pub proof fn law_heap_stays_in_budget(account: WorkerAllocator, moves: Seq<HeapMove>)
    requires
        account.limited,
        account.used <= MEMORY_LIMIT_BYTES,
        account.balanced(moves),
    ensures
        account.after(moves) matches Some(now) ==> {
            &&& now.limited
            &&& now.used <= MEMORY_LIMIT_BYTES
            &&& now.used == account.used + net(moves)
        },
    decreases moves.len(),
{
    if moves.len() > 0 {
        law_heap_stays_in_budget(account, moves.drop_last());
    }
}

/// A worker leaves for an allocation exactly where its limit is enabled and the bytes in use, with
/// those asked for, are more than 512 MiB; the account goes up and down by the bytes themselves.
pub proof fn law_budget_is_held_against_the_sum(account: WorkerAllocator, bytes: usize)
    ensures
        account.over(bytes as nat) <==> account.limited && account.used + bytes > 536_870_912,
        account.used + bytes <= usize::MAX ==> account.reserved(bytes).used == account.used
            + bytes,
        bytes <= account.used ==> account.given_back(bytes).used == account.used - bytes,
        account.reserved(bytes).limited == account.limited,
        account.given_back(bytes).limited == account.limited,
{
}

/// A worker goes on as long as it never has more in use than 512 MiB: only a move that would take
/// it over the budget ends it.
pub proof fn law_worker_within_budget_goes_on(account: WorkerAllocator, moves: Seq<HeapMove>)
    requires
        account.limited,
        account.balanced(moves),
        forall|count: int|
            0 <= count <= moves.len() ==> account.used + #[trigger] net(moves.take(count))
                <= 536_870_912,
    ensures
        account.after(moves) matches Some(now) && now.limited && now.used == account.used + net(
            moves,
        ),
    decreases moves.len(),
{
    assert(moves.take(0) =~= Seq::<HeapMove>::empty());
    assert(moves.take(moves.len() as int) =~= moves);
    assert(account.used + net(moves.take(0)) <= 536_870_912);
    assert(account.used + net(moves.take(moves.len() as int)) <= 536_870_912);
    if moves.len() > 0 {
        let front = moves.drop_last();
        assert forall|count: int| 0 <= count <= front.len() implies account.used
            + #[trigger] net(front.take(count)) <= 536_870_912 by {
            assert(front.take(count) =~= moves.take(count));
            assert(account.used + net(moves.take(count)) <= 536_870_912);
        }
        law_worker_within_budget_goes_on(account, front);
    }
}

/// Only the exit status tells of a worker that ran out of memory: its own code anywhere, and the
/// two codes of Windows there alone; a worker without a code did not.
pub proof fn law_memory_is_told_by_the_exit_code(code: i32)
    ensures
        memory_exit(Some(code), false) <==> code == 86,
        memory_exit(Some(code), true) <==> code == 86 || code == -1_073_741_801 || code
            == -1_073_741_523,
        !memory_exit(None, false),
        !memory_exit(None, true),
{
}

/// Why a worker is gone: for want of memory where its exit code says so; else with its status,
/// whole; and where its end is not known nothing is said before the grace period is over.
pub proof fn law_worker_end_is_told(
    code: Option<i32>,
    status: String,
    grace_over: bool,
    windows: bool,
)
    ensures
        memory_exit(code, windows) ==> exit_text(
            WorkerExit::Ended { code, status },
            grace_over,
            windows,
        ) == Some("code mode script exceeded its memory budget (512 MiB)"@),
        !memory_exit(code, windows) ==> exit_text(
            WorkerExit::Ended { code, status },
            grace_over,
            windows,
        ) == Some("code mode worker terminated before returning a result ("@ + status@ + ")"@),
        exit_text(WorkerExit::Unknown, false, windows) is None,
        exit_text(WorkerExit::Unknown, true, windows) == Some(
            "code mode worker pipe closed before returning a result"@,
        ),
{
}

/// A block that shrinks or stays needs nothing more, and one that grows needs the difference; a
/// worker under the limit leaves exactly where the system refused it something.
pub proof fn law_only_a_refusal_ends_a_limited_worker(
    limited: bool,
    old_size: usize,
    new_size: usize,
    served: bool,
)
    ensures
        old_size + growth(old_size as nat, new_size as nat) == if new_size > old_size {
            new_size as int
        } else {
            old_size as int
        },
        alloc_settlement(limited, new_size as nat, served) is Exit <==> limited && !served,
        realloc_settlement(limited, old_size as nat, new_size as nat, served) is Exit <==> limited
            && !served,
{
}

} // verus!
