//! The driver: the alarm table, the size of the installed timer pool, and
//! the four operations of the scheduler's contract plus installation and
//! interrupt dispatch.
//!
//! The table and the pool are shared between program context and interrupt
//! context. Each operation therefore takes the token of the critical
//! section, and the commands it returns are to be carried out before that
//! section ends. A callback that dispatch hands out is run after it.

use vstd::prelude::*;
use critical_section::CriticalSection;
use crate::alarm::{AlarmHandle, AlarmState, MAX_SUPPORTED_ALARM_COUNT};
use crate::command::{Commands, TimerCommand, TimerOp};
use crate::model::{
    arm_commands, dispatch_commands, set_alarm_commands, DriverState, InitError, NO_DEADLINE,
};

verus! {

/// The time driver's state. `C` is the type of a wake-up callback; the
/// driver stores and returns callbacks and never runs one.
pub struct EmbassyTimer<C> {
    alarms: [AlarmState<C>; MAX_SUPPORTED_ALARM_COUNT],
    timers: Option<usize>,
}

impl<C: Copy> View for EmbassyTimer<C> {
    type V = DriverState<C>;

    closed spec fn view(&self) -> DriverState<C> {
        DriverState {
            alarms: self.alarms@,
            timers: match self.timers {
                Some(n) => Some(n as nat),
                None => None,
            },
        }
    }
}

impl<C: Copy> EmbassyTimer<C> {
    /// The driver's invariant; see [`DriverState::wf`].
    pub open spec fn wf(&self) -> bool {
        self@.wf()
    }

    /// A driver with every slot free and no pool installed.
    pub fn new() -> (driver: Self)
        ensures
            driver.wf(),
            driver@ == DriverState::<C>::fresh(),
    {
        let driver = EmbassyTimer { alarms: [AlarmState::new(); MAX_SUPPORTED_ALARM_COUNT], timers: None };
        assert(driver@.alarms =~= DriverState::<C>::fresh().alarms);
        driver
    }

    /// Installs a pool of `count` timers, timer `i` serving slot `i`.
    ///
    /// Returns the commands that bring each timer to rest, in index order:
    /// disable its interrupt, stop it and, where its slot was claimed before
    /// the pool arrived, bind the slot's interrupt entry point. When a pool
    /// is already installed the call is refused: nothing changes and no
    /// timer of the new pool is to be touched.
    pub fn init(&mut self, _cs: CriticalSection<'_>, count: usize) -> (result: Result<
        Commands,
        InitError,
    >)
        requires
            old(self).wf(),
            count <= MAX_SUPPORTED_ALARM_COUNT,
        ensures
            final(self).wf(),
            final(self)@ == old(self)@.init(count as nat),
            result matches Ok(commands) ==> old(self)@.init_result(count as nat) == Ok::<
                Seq<TimerCommand>,
                InitError,
            >(commands@),
            result matches Err(error) ==> old(self)@.init_result(count as nat) == Err::<
                Seq<TimerCommand>,
                InitError,
            >(error),
    {
        if self.timers.is_some() {
            return Err(InitError::AlreadyInstalled);
        }
        let mut commands = Commands::new();
        let mut n: usize = 0;
        while n < count
            invariant
                n <= count <= MAX_SUPPORTED_ALARM_COUNT,
                *self == *old(self),
                self.wf(),
                commands@ == self@.reset_all(n as nat),
            decreases count - n,
        {
            proof {
                self@.lemma_reset_all_len(n as nat);
            }
            commands.push(TimerCommand { timer: n, op: TimerOp::EnableInterrupt { enable: false } });
            commands.push(TimerCommand { timer: n, op: TimerOp::Stop });
            if self.alarms[n].allocated {
                commands.push(TimerCommand { timer: n, op: TimerOp::SetInterruptHandler { slot: n } });
            }
            n = n + 1;
        }
        self.timers = Some(count);
        Ok(commands)
    }

    /// Serves the interrupt of timer `id`.
    ///
    /// Returns the command that clears the timer's pending flag, and the
    /// callback registered for slot `id` at this moment. The caller runs
    /// that callback, if there is one, after it has left the critical
    /// section, so that the callback may itself call the driver.
    pub fn on_interrupt(&self, _cs: CriticalSection<'_>, id: usize) -> (result: (
        Commands,
        Option<C>,
    ))
        requires
            self.wf(),
            self@.has_timer(id as int),
        ensures
            result.0@ == dispatch_commands(id),
            result.1 == self@.snapshot(id as int),
    {
        let mut commands = Commands::new();
        commands.push(TimerCommand { timer: id, op: TimerOp::ClearInterrupt });
        (commands, self.alarms[id].callback)
    }

    /// The commands that make `timer` fire at `timestamp`, seen from `now`:
    /// schedule the ticks that remain, none if the time has passed, then
    /// enable the interrupt.
    pub fn arm(timer: usize, timestamp: u64, now: u64) -> (commands: Commands)
        ensures
            commands@ == arm_commands(timer, timestamp, now),
    {
        let timeout: u64 = if timestamp > now {
            timestamp - now
        } else {
            0
        };
        let mut commands = Commands::new();
        commands.push(TimerCommand { timer, op: TimerOp::Schedule { timeout } });
        commands.push(TimerCommand { timer, op: TimerOp::EnableInterrupt { enable: true } });
        commands
    }

    /// Claims the first free slot and returns its handle, or `None` when
    /// every slot is claimed.
    ///
    /// With a pool installed that has a timer for the slot, the command
    /// returned binds the slot's interrupt entry point to that timer. Before
    /// installation no command is issued; [`EmbassyTimer::init`] binds the
    /// slot later.
    pub fn allocate_alarm(&mut self, _cs: CriticalSection<'_>) -> (result: (
        Option<AlarmHandle>,
        Commands,
    ))
        requires
            old(self).wf(),
        ensures
            final(self).wf(),
            final(self)@ == old(self)@.allocate(),
            result.1@ == old(self)@.allocate_commands(),
            result.0 matches Some(handle) ==> old(self)@.first_free() == Some(handle.slot())
                && old(self)@.is_first_free(handle.slot()),
            result.0 is None ==> old(self)@.first_free() is None && old(self)@.is_full(),
    {
        let mut commands = Commands::new();
        let mut i: usize = 0;
        while i < MAX_SUPPORTED_ALARM_COUNT
            invariant
                i <= MAX_SUPPORTED_ALARM_COUNT,
                *self == *old(self),
                self.wf(),
                commands@ == Seq::<TimerCommand>::empty(),
                forall|j: int| 0 <= j < i ==> (#[trigger] self@.alarms[j]).allocated,
            decreases MAX_SUPPORTED_ALARM_COUNT - i,
        {
            if !self.alarms[i].allocated {
                proof {
                    self@.lemma_first_free_unique(i as int);
                }
                if self.has_timer(i) {
                    commands.push(
                        TimerCommand { timer: i, op: TimerOp::SetInterruptHandler { slot: i } },
                    );
                }
                self.alarms[i] = AlarmState { callback: self.alarms[i].callback, allocated: true };
                assert(self@.alarms =~= old(self)@.claim(i as int).alarms);
                return (Some(AlarmHandle::new(i as u8)), commands);
            }
            i = i + 1;
        }
        proof {
            assert(self@.is_full());
            self@.lemma_first_free_none();
        }
        (None, commands)
    }

    /// Registers `callback` for the slot of `alarm`, replacing any callback
    /// registered before. No timer is armed or disarmed.
    pub fn set_alarm_callback(&mut self, _cs: CriticalSection<'_>, alarm: AlarmHandle, callback: C)
        requires
            old(self).wf(),
            old(self)@.is_allocated(alarm.slot()),
        ensures
            final(self).wf(),
            final(self)@ == old(self)@.with_callback(alarm.slot(), callback),
    {
        let n: usize = alarm.id() as usize;
        self.alarms[n] = AlarmState { callback: Some(callback), allocated: self.alarms[n].allocated };
        assert(self@.alarms =~= old(self)@.with_callback(alarm.slot(), callback).alarms);
    }

    /// Asks for a wake-up of `alarm` at `timestamp`, the current time being `now`.
    ///
    /// Always answers `true`. For [`NO_DEADLINE`] there is nothing to do and
    /// no command is returned. Otherwise the commands arm the alarm's timer
    /// for the ticks that remain; a time that has passed arms it for zero
    /// ticks, so that the callback runs from the interrupt as soon as
    /// possible and never from inside this call.
    pub fn set_alarm(
        &self,
        _cs: CriticalSection<'_>,
        alarm: AlarmHandle,
        timestamp: u64,
        now: u64,
    ) -> (result: (bool, Commands))
        requires
            timestamp != NO_DEADLINE ==> self@.has_timer(alarm.slot()),
        ensures
            result.0,
            result.1@ == set_alarm_commands(alarm.slot() as usize, timestamp, now),
            timestamp == NO_DEADLINE ==> result.1@ == Seq::<TimerCommand>::empty(),
            timestamp != NO_DEADLINE && timestamp <= now ==> result.1@ == seq![
                TimerCommand::schedule(alarm.slot() as usize, 0),
                TimerCommand::enable_interrupt(alarm.slot() as usize),
            ],
    {
        if timestamp == NO_DEADLINE {
            return (true, Commands::new());
        }
        let commands = Self::arm(alarm.id() as usize, timestamp, now);
        (true, commands)
    }

    /// Number of timers in the installed pool, or `None` before installation.
    pub fn timer_count(&self) -> (count: Option<usize>)
        ensures
            count matches Some(n) ==> self@.timers == Some(n as nat),
            count is None ==> self@.timers is None,
    {
        self.timers
    }

    /// Whether the installed pool holds a timer with this index.
    pub fn has_timer(&self, index: usize) -> (present: bool)
        ensures
            present == self@.has_timer(index as int),
    {
        match self.timers {
            Some(n) => index < n,
            None => false,
        }
    }

    /// Whether `alarm` names a slot of the table that has been claimed.
    pub fn is_allocated(&self, alarm: AlarmHandle) -> (claimed: bool)
        ensures
            claimed == self@.is_allocated(alarm.slot()),
    {
        let n: usize = alarm.id() as usize;
        n < MAX_SUPPORTED_ALARM_COUNT && self.alarms[n].allocated
    }
}

} // verus!
