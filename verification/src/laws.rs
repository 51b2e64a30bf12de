//! What holds of the driver across calls, proved over the model.

use vstd::prelude::*;
use crate::alarm::MAX_SUPPORTED_ALARM_COUNT;
use crate::command::TimerCommand;
use crate::model::{DriverState, InitError};

verus! {

/// An allocation keeps the table well formed, keeps the pool, keeps every
/// callback, and keeps every claimed slot claimed.
pub proof fn lemma_allocate_keeps<C>(state: DriverState<C>)
    requires
        state.wf(),
    ensures
        state.allocate().wf(),
        state.allocate().timers == state.timers,
        forall|i: int|
            0 <= i < MAX_SUPPORTED_ALARM_COUNT ==> (#[trigger] state.allocate().alarms[i]).callback
                == state.alarms[i].callback,
        forall|i: int| state.is_allocated(i) ==> #[trigger] state.allocate().is_allocated(i),
        state.first_free() matches Some(slot) ==> state.allocate().is_allocated(slot),
{
    state.lemma_first_free_none();
}

/// Allocations in a row keep the table well formed and keep every claimed slot claimed.
pub proof fn lemma_allocate_n_keeps<C>(state: DriverState<C>, n: nat)
    requires
        state.wf(),
    ensures
        state.allocate_n(n).wf(),
        forall|i: int| state.is_allocated(i) ==> #[trigger] state.allocate_n(n).is_allocated(i),
    decreases n,
{
    if n > 0 {
        let before = state.allocate_n((n - 1) as nat);
        lemma_allocate_n_keeps(state, (n - 1) as nat);
        lemma_allocate_keeps(before);
        assert forall|i: int| state.is_allocated(i) implies #[trigger] state.allocate_n(
            n,
        ).is_allocated(i) by {
            assert(before.is_allocated(i));
        }
    }
}

/// Starting with no slot claimed, `k` allocations claim exactly the slots before `k`.
proof fn lemma_allocations_fill_in_order<C>(start: DriverState<C>, k: nat)
    requires
        start.wf(),
        forall|i: int| 0 <= i < MAX_SUPPORTED_ALARM_COUNT ==> !(#[trigger] start.alarms[i]).allocated,
        k <= MAX_SUPPORTED_ALARM_COUNT,
    ensures
        start.allocate_n(k).wf(),
        forall|i: int| 0 <= i < k ==> (#[trigger] start.allocate_n(k).alarms[i]).allocated,
        forall|i: int|
            k <= i < MAX_SUPPORTED_ALARM_COUNT ==> !(#[trigger] start.allocate_n(k).alarms[i]).allocated,
    decreases k,
{
    if k > 0 {
        let before = start.allocate_n((k - 1) as nat);
        lemma_allocations_fill_in_order(start, (k - 1) as nat);
        assert(before.is_first_free(k - 1));
        before.lemma_first_free_unique(k - 1);
    }
}

/// Allocation runs out exactly when the table does.
///
/// Starting with no slot claimed, the allocation after `k` earlier ones
/// claims slot `k`, for every `k` below the table's size: that many
/// allocations return that many different handles. The allocation after
/// them finds no free slot.
pub proof fn lemma_allocation_exhaustion<C>(start: DriverState<C>)
    requires
        start.wf(),
        forall|i: int| 0 <= i < MAX_SUPPORTED_ALARM_COUNT ==> !(#[trigger] start.alarms[i]).allocated,
    ensures
        forall|k: nat|
            k < MAX_SUPPORTED_ALARM_COUNT ==> #[trigger] start.allocate_n(k).first_free() == Some(
                k as int,
            ),
        start.allocate_n(MAX_SUPPORTED_ALARM_COUNT as nat).first_free() is None,
        start.allocate_n(MAX_SUPPORTED_ALARM_COUNT as nat + 1) == start.allocate_n(
            MAX_SUPPORTED_ALARM_COUNT as nat,
        ),
{
    assert forall|k: nat| k < MAX_SUPPORTED_ALARM_COUNT implies #[trigger] start.allocate_n(
        k,
    ).first_free() == Some(k as int) by {
        lemma_allocations_fill_in_order(start, k);
        assert(start.allocate_n(k).is_first_free(k as int));
        start.allocate_n(k).lemma_first_free_unique(k as int);
    }
    let full = start.allocate_n(MAX_SUPPORTED_ALARM_COUNT as nat);
    lemma_allocations_fill_in_order(start, MAX_SUPPORTED_ALARM_COUNT as nat);
    assert(full.is_full());
    full.lemma_first_free_none();
    assert(start.allocate_n(MAX_SUPPORTED_ALARM_COUNT as nat + 1) == full.allocate());
}

/// No slot is handed out twice: in any run of allocations, from any table,
/// two allocations that succeed return different slots.
pub proof fn lemma_allocations_distinct<C>(start: DriverState<C>, earlier: nat, later: nat)
    requires
        start.wf(),
        earlier < later,
    ensures
        start.allocate_n(earlier).first_free() is Some && start.allocate_n(later).first_free()
            is Some ==> start.allocate_n(earlier).first_free() != start.allocate_n(
            later,
        ).first_free(),
{
    let first = start.allocate_n(earlier);
    let second = start.allocate_n(later);
    lemma_allocate_n_keeps(start, earlier);
    lemma_allocate_n_keeps(start, later);
    first.lemma_first_free_none();
    second.lemma_first_free_none();
    if first.first_free() is Some && second.first_free() is Some {
        let slot = first.first_free()->0;
        lemma_allocate_keeps(first);
        lemma_allocate_n_split(start, earlier + 1, (later - earlier - 1) as nat);
        lemma_allocate_n_keeps(first.allocate(), (later - earlier - 1) as nat);
        assert(second.is_allocated(slot));
    }
}

/// `m + n` allocations are `m` allocations followed by `n` more.
proof fn lemma_allocate_n_split<C>(start: DriverState<C>, m: nat, n: nat)
    ensures
        start.allocate_n(m + n) == start.allocate_n(m).allocate_n(n),
    decreases n,
{
    if n > 0 {
        lemma_allocate_n_split(start, m, (n - 1) as nat);
        assert(start.allocate_n(m + n) == start.allocate_n((m + n - 1) as nat).allocate());
    }
}

/// Registering a callback replaces the one before it without a trace: after
/// registering `first` and then `second` for a slot, the table is what it
/// would be had only `second` been registered, and dispatch finds `second`.
pub proof fn lemma_callback_overwrite<C>(state: DriverState<C>, slot: int, first: C, second: C)
    requires
        state.wf(),
        state.is_allocated(slot),
    ensures
        state.with_callback(slot, first).with_callback(slot, second) == state.with_callback(
            slot,
            second,
        ),
        state.with_callback(slot, first).with_callback(slot, second).snapshot(slot) == Some(second),
{
    assert(state.with_callback(slot, first).with_callback(slot, second).alarms
        =~= state.with_callback(slot, second).alarms);
}

/// A callback may register callbacks on any claimed slot, its own included.
///
/// Dispatch only reads the table. A registration made afterwards leaves
/// the table well formed, the pool in place and every other slot as it
/// was, so the timer that was dispatched can be dispatched again, and the
/// next dispatch of the slot written finds the new callback.
pub proof fn lemma_registration_is_consistent<C>(
    state: DriverState<C>,
    dispatched: int,
    slot: int,
    callback: C,
)
    requires
        state.wf(),
        state.has_timer(dispatched),
        state.is_allocated(slot),
    ensures
        state.with_callback(slot, callback).wf(),
        state.with_callback(slot, callback).timers == state.timers,
        state.with_callback(slot, callback).has_timer(dispatched),
        state.with_callback(slot, callback).snapshot(slot) == Some(callback),
        forall|other: int|
            0 <= other < MAX_SUPPORTED_ALARM_COUNT && other != slot ==> #[trigger] state.with_callback(
                slot,
                callback,
            ).alarms[other] == state.alarms[other],
{
}

/// A claim is for good: whatever the driver does next, a claimed slot stays
/// claimed. Installing a pool changes no slot at all and keeps the table
/// well formed.
pub proof fn lemma_claims_are_permanent<C>(
    state: DriverState<C>,
    claimed: int,
    slot: int,
    callback: C,
    count: nat,
)
    requires
        state.wf(),
        state.is_allocated(claimed),
        count <= MAX_SUPPORTED_ALARM_COUNT,
    ensures
        state.allocate().is_allocated(claimed),
        state.is_allocated(slot) ==> state.with_callback(slot, callback).is_allocated(claimed),
        state.init(count).is_allocated(claimed),
        state.init(count).alarms == state.alarms,
        state.init(count).wf(),
{
    lemma_allocate_keeps(state);
}

/// A pool is installed once. After an installation that succeeded, another
/// one is refused whatever its size, issues no command and changes nothing.
pub proof fn lemma_second_init_refused<C>(state: DriverState<C>, first: nat, second: nat)
    requires
        state.wf(),
        first <= MAX_SUPPORTED_ALARM_COUNT,
        state.init_result(first) is Ok,
    ensures
        state.init(first).wf(),
        state.init(first).timers == Some(first),
        state.init(first).init_result(second) == Err::<Seq<TimerCommand>, InitError>(
            InitError::AlreadyInstalled,
        ),
        state.init(first).init(second) == state.init(first),
{
}

/// An installation touches no timer beyond the pool: each of its commands
/// addresses a timer with an index below `count`.
pub proof fn lemma_reset_all_addresses_pool<C>(state: DriverState<C>, count: nat)
    requires
        state.wf(),
        count <= MAX_SUPPORTED_ALARM_COUNT,
    ensures
        forall|k: int|
            0 <= k < state.reset_all(count).len() ==> (#[trigger] state.reset_all(count)[k]).timer
                < count,
    decreases count,
{
    if count > 0 {
        lemma_reset_all_addresses_pool(state, (count - 1) as nat);
        let head = state.reset_all((count - 1) as nat);
        let tail = state.reset_commands(count - 1);
        assert forall|k: int| 0 <= k < state.reset_all(count).len() implies (
        #[trigger] state.reset_all(count)[k]).timer < count by {
            if k < head.len() {
                assert(state.reset_all(count)[k] == head[k]);
            } else {
                assert(state.reset_all(count)[k] == tail[k - head.len()]);
            }
        }
    }
}

} // verus!
