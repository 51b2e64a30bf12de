//! Timer commands: what the driver asks of the hardware.
//!
//! The driver never touches a timer. Each of its operations returns the
//! commands that the caller has to carry out, in order, on the timers of the
//! installed pool before the critical section ends.

use vstd::prelude::*;
use crate::alarm::MAX_SUPPORTED_ALARM_COUNT;

verus! {

/// The most commands a single operation issues: three per timer when a full pool is installed.
pub const MAX_COMMANDS: usize = 3 * MAX_SUPPORTED_ALARM_COUNT;

/// One operation of a one-shot hardware timer.
#[derive(Clone, Copy, Debug, PartialEq, Eq, Structural)]
pub enum TimerOp {
    /// Enable or disable the timer's interrupt.
    EnableInterrupt { enable: bool },
    /// Stop the timer.
    Stop,
    /// Install the interrupt entry point that dispatches the given slot.
    SetInterruptHandler { slot: usize },
    /// Start counting down from `timeout` ticks and raise the interrupt at zero.
    Schedule { timeout: u64 },
    /// Clear the pending-interrupt flag.
    ClearInterrupt,
}

/// An operation together with the index of the pool timer that performs it.
#[derive(Clone, Copy, Debug, PartialEq, Eq, Structural)]
pub struct TimerCommand {
    /// Index into the installed timer pool.
    pub timer: usize,
    /// What that timer has to do.
    pub op: TimerOp,
}

impl TimerCommand {
    /// Disable the interrupt of `timer`.
    pub open spec fn disable_interrupt(timer: usize) -> Self {
        TimerCommand { timer, op: TimerOp::EnableInterrupt { enable: false } }
    }

    /// Enable the interrupt of `timer`.
    pub open spec fn enable_interrupt(timer: usize) -> Self {
        TimerCommand { timer, op: TimerOp::EnableInterrupt { enable: true } }
    }

    /// Stop `timer`.
    pub open spec fn stop(timer: usize) -> Self {
        TimerCommand { timer, op: TimerOp::Stop }
    }

    /// Install on `timer` the interrupt entry point of the slot with the same index.
    pub open spec fn bind(timer: usize) -> Self {
        TimerCommand { timer, op: TimerOp::SetInterruptHandler { slot: timer } }
    }

    /// Start `timer` for `timeout` ticks.
    pub open spec fn schedule(timer: usize, timeout: u64) -> Self {
        TimerCommand { timer, op: TimerOp::Schedule { timeout } }
    }

    /// Clear the pending-interrupt flag of `timer`.
    pub open spec fn clear_interrupt(timer: usize) -> Self {
        TimerCommand { timer, op: TimerOp::ClearInterrupt }
    }
}

/// A list of timer commands in the order they have to be carried out.
///
/// It lives in a fixed array, so building one never allocates.
#[derive(Clone, Copy, Debug)]
pub struct Commands {
    items: [TimerCommand; MAX_COMMANDS],
    len: usize,
}

impl View for Commands {
    type V = Seq<TimerCommand>;

    /// The commands held, first to last.
    closed spec fn view(&self) -> Seq<TimerCommand> {
        self.items@.subrange(0, self.len as int)
    }
}

impl Commands {
    #[verifier::type_invariant]
    spec fn within_capacity(&self) -> bool {
        self.len <= MAX_COMMANDS
    }

    /// The empty list.
    pub fn new() -> (list: Self)
        ensures
            list@ == Seq::<TimerCommand>::empty(),
    {
        let filler = TimerCommand { timer: 0, op: TimerOp::Stop };
        Commands { items: [filler; MAX_COMMANDS], len: 0 }
    }

    /// Appends `command`.
    pub(crate) fn push(&mut self, command: TimerCommand)
        requires
            old(self)@.len() < MAX_COMMANDS,
        ensures
            final(self)@ == old(self)@.push(command),
    {
        proof {
            use_type_invariant(&*self);
        }
        self.items[self.len] = command;
        self.len = self.len + 1;
    }

    /// Number of commands in the list; never more than [`MAX_COMMANDS`].
    pub fn len(&self) -> (n: usize)
        ensures
            n == self@.len(),
            n <= MAX_COMMANDS,
    {
        proof {
            use_type_invariant(self);
        }
        self.len
    }

    /// Whether the list holds no command.
    pub fn is_empty(&self) -> (empty: bool)
        ensures
            empty <==> self@.len() == 0,
    {
        proof {
            use_type_invariant(self);
        }
        self.len == 0
    }

    /// The command at position `index`, or `None` past the end.
    pub fn get(&self, index: usize) -> (command: Option<TimerCommand>)
        ensures
            index < self@.len() ==> command == Some(self@[index as int]),
            index >= self@.len() ==> command is None,
    {
        proof {
            use_type_invariant(self);
        }
        if index < self.len {
            Some(self.items[index])
        } else {
            None
        }
    }
}

} // verus!
