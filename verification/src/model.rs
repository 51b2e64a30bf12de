//! The mathematical model of the driver: the alarm table as a sequence of
//! slots, the installed pool as its length, and every operation as a
//! function from one state to the next together with the timer commands
//! it issues.

use vstd::prelude::*;
use crate::alarm::{AlarmState, MAX_SUPPORTED_ALARM_COUNT};
use crate::command::TimerCommand;

verus! {

/// The timestamp that stands for "no deadline": arming with it changes nothing.
pub const NO_DEADLINE: u64 = u64::MAX;

/// Why a timer pool was not installed.
#[derive(Clone, Copy, Debug, PartialEq, Eq, Structural)]
pub enum InitError {
    /// A pool is already installed; it stays in place and the new one is not touched.
    AlreadyInstalled,
}

/// Ticks from `now` until `timestamp`; zero when `timestamp` is not in the future.
pub open spec fn timeout_ticks(timestamp: u64, now: u64) -> u64 {
    if timestamp > now {
        (timestamp - now) as u64
    } else {
        0
    }
}

/// Commands that arm `timer` to fire at `timestamp`: schedule the remaining
/// ticks, then enable the interrupt.
pub open spec fn arm_commands(timer: usize, timestamp: u64, now: u64) -> Seq<TimerCommand> {
    seq![
        TimerCommand::schedule(timer, timeout_ticks(timestamp, now)),
        TimerCommand::enable_interrupt(timer),
    ]
}

/// Commands of a request to wake at `timestamp`: none for [`NO_DEADLINE`],
/// otherwise those that arm `timer`.
pub open spec fn set_alarm_commands(timer: usize, timestamp: u64, now: u64) -> Seq<TimerCommand> {
    if timestamp == NO_DEADLINE {
        Seq::empty()
    } else {
        arm_commands(timer, timestamp, now)
    }
}

/// Commands of the interrupt of `timer`: clear its pending flag.
pub open spec fn dispatch_commands(timer: usize) -> Seq<TimerCommand> {
    seq![TimerCommand::clear_interrupt(timer)]
}

/// The state of the driver: the alarm table and the size of the installed pool.
pub struct DriverState<C> {
    /// The slots, by index.
    pub alarms: Seq<AlarmState<C>>,
    /// Number of timers in the installed pool; `None` until a pool is installed.
    /// Timer `i` of the pool serves slot `i`.
    pub timers: Option<nat>,
}

impl<C> DriverState<C> {
    /// The state at start-up: every slot free, no pool installed.
    pub open spec fn fresh() -> Self {
        DriverState {
            alarms: Seq::new(MAX_SUPPORTED_ALARM_COUNT as nat, |i: int| AlarmState::<C>::free()),
            timers: None,
        }
    }

    /// The invariant of the driver: the table has its fixed size, every
    /// slot is well formed, and an installed pool is no larger than the table.
    pub open spec fn wf(self) -> bool {
        &&& self.alarms.len() == MAX_SUPPORTED_ALARM_COUNT
        &&& forall|i: int| 0 <= i < self.alarms.len() ==> (#[trigger] self.alarms[i]).wf()
        &&& self.timers matches Some(n) ==> n <= MAX_SUPPORTED_ALARM_COUNT
    }

    /// Whether `slot` is a slot of the table that has been claimed.
    pub open spec fn is_allocated(self, slot: int) -> bool {
        0 <= slot < self.alarms.len() && self.alarms[slot].allocated
    }

    /// Whether the installed pool holds a timer with this index.
    pub open spec fn has_timer(self, index: int) -> bool {
        self.timers matches Some(n) && 0 <= index < n
    }

    /// Whether `slot` is free and every slot before it is claimed.
    pub open spec fn is_first_free(self, slot: int) -> bool {
        &&& 0 <= slot < self.alarms.len()
        &&& !self.alarms[slot].allocated
        &&& forall|j: int| 0 <= j < slot ==> (#[trigger] self.alarms[j]).allocated
    }

    /// The free slot with the least index, if any slot is free.
    pub open spec fn first_free(self) -> Option<int> {
        if exists|slot: int| self.is_first_free(slot) {
            Some(choose|slot: int| self.is_first_free(slot))
        } else {
            None
        }
    }

    /// Whether every slot is claimed.
    pub open spec fn is_full(self) -> bool {
        forall|i: int| 0 <= i < self.alarms.len() ==> (#[trigger] self.alarms[i]).allocated
    }

    /// The state with `slot` claimed and everything else as it was.
    pub open spec fn claim(self, slot: int) -> Self {
        DriverState {
            alarms: self.alarms.update(
                slot,
                AlarmState { callback: self.alarms[slot].callback, allocated: true },
            ),
            timers: self.timers,
        }
    }

    /// The state after an allocation: the first free slot is claimed; a full table stays as it is.
    pub open spec fn allocate(self) -> Self {
        match self.first_free() {
            Some(slot) => self.claim(slot),
            None => self,
        }
    }

    /// Commands of an allocation: with a pool installed that has a timer for
    /// the claimed slot, bind the slot's interrupt entry point to that timer.
    pub open spec fn allocate_commands(self) -> Seq<TimerCommand> {
        match self.first_free() {
            Some(slot) => if self.has_timer(slot) {
                seq![TimerCommand::bind(slot as usize)]
            } else {
                Seq::empty()
            },
            None => Seq::empty(),
        }
    }

    /// The state after `n` allocations in a row.
    pub open spec fn allocate_n(self, n: nat) -> Self
        decreases n,
    {
        if n == 0 {
            self
        } else {
            self.allocate_n((n - 1) as nat).allocate()
        }
    }

    /// The state with `callback` registered in `slot`, replacing what was there.
    pub open spec fn with_callback(self, slot: int, callback: C) -> Self {
        DriverState {
            alarms: self.alarms.update(
                slot,
                AlarmState { callback: Some(callback), allocated: self.alarms[slot].allocated },
            ),
            timers: self.timers,
        }
    }

    /// The callback that an interrupt of timer `slot` finds: the one registered last, if any.
    pub open spec fn snapshot(self, slot: int) -> Option<C> {
        self.alarms[slot].callback
    }

    /// Commands that bring timer `timer` of a new pool to rest: disable its
    /// interrupt, stop it, and, where its slot is already claimed, bind the
    /// slot's interrupt entry point.
    pub open spec fn reset_commands(self, timer: int) -> Seq<TimerCommand> {
        let quiet = seq![
            TimerCommand::disable_interrupt(timer as usize),
            TimerCommand::stop(timer as usize),
        ];
        if self.alarms[timer].allocated {
            quiet.push(TimerCommand::bind(timer as usize))
        } else {
            quiet
        }
    }

    /// The reset commands of timers `0` to `count - 1`, in that order.
    pub open spec fn reset_all(self, count: nat) -> Seq<TimerCommand>
        decreases count,
    {
        if count == 0 {
            Seq::empty()
        } else {
            self.reset_all((count - 1) as nat) + self.reset_commands(count - 1)
        }
    }

    /// What installing a pool of `count` timers answers: the reset of every
    /// timer, or a refusal when a pool is already there.
    pub open spec fn init_result(self, count: nat) -> Result<Seq<TimerCommand>, InitError> {
        if self.timers is None {
            Ok(self.reset_all(count))
        } else {
            Err(InitError::AlreadyInstalled)
        }
    }

    /// The state after installing a pool of `count` timers: the pool is
    /// recorded if none was; a pool already installed stays.
    pub open spec fn init(self, count: nat) -> Self {
        if self.timers is None {
            DriverState { alarms: self.alarms, timers: Some(count) }
        } else {
            self
        }
    }

    /// A first free slot is the only one.
    pub proof fn lemma_first_free_unique(self, slot: int)
        requires
            self.is_first_free(slot),
        ensures
            self.first_free() == Some(slot),
    {
        let chosen = choose|s: int| self.is_first_free(s);
        assert(self.is_first_free(chosen));
        if chosen < slot {
            assert(self.alarms[chosen].allocated);
        } else if slot < chosen {
            assert(self.alarms[slot].allocated);
        }
    }

    /// No slot is free exactly when the table is full, and the slot that
    /// `first_free` names is free with every slot before it claimed.
    pub proof fn lemma_first_free_none(self)
        ensures
            self.first_free() is None <==> self.is_full(),
            self.first_free() matches Some(slot) ==> self.is_first_free(slot),
    {
        if self.is_full() {
            assert forall|slot: int| !self.is_first_free(slot) by {
                if 0 <= slot < self.alarms.len() {
                    assert(self.alarms[slot].allocated);
                }
            }
        } else {
            let free = choose|i: int| 0 <= i < self.alarms.len() && !(#[trigger] self.alarms[i]).allocated;
            self.lemma_least_free(free);
        }
    }

    /// With a free slot at `bound`, some slot at or before it is the first free one.
    proof fn lemma_least_free(self, bound: int)
        requires
            0 <= bound < self.alarms.len(),
            !self.alarms[bound].allocated,
        ensures
            exists|slot: int| self.is_first_free(slot),
        decreases bound,
    {
        if exists|j: int| 0 <= j < bound && !(#[trigger] self.alarms[j]).allocated {
            let j = choose|j: int| 0 <= j < bound && !(#[trigger] self.alarms[j]).allocated;
            self.lemma_least_free(j);
        } else {
            assert(self.is_first_free(bound));
        }
    }

    /// A pool of `count` timers is reset with two or three commands a timer.
    pub proof fn lemma_reset_all_len(self, count: nat)
        ensures
            2 * count <= self.reset_all(count).len() <= 3 * count,
        decreases count,
    {
        if count > 0 {
            self.lemma_reset_all_len((count - 1) as nat);
        }
    }
}

} // verus!
