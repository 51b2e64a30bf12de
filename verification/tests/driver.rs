use esp_hal_embassy::alarm::{AlarmHandle, AlarmState, MAX_SUPPORTED_ALARM_COUNT};
use esp_hal_embassy::command::{Commands, TimerCommand, TimerOp, MAX_COMMANDS};
use esp_hal_embassy::model::{InitError, NO_DEADLINE};
use esp_hal_embassy::time_driver::EmbassyTimer;

type Driver = EmbassyTimer<u32>;

fn listed(commands: &Commands) -> Vec<TimerCommand> {
    let mut out: Vec<TimerCommand> = Vec::new();
    let mut i: usize = 0;
    while i < commands.len() {
        out.push(commands.get(i).unwrap());
        i += 1;
    }
    out
}

fn disable(timer: usize) -> TimerCommand {
    TimerCommand { timer, op: TimerOp::EnableInterrupt { enable: false } }
}

fn enable(timer: usize) -> TimerCommand {
    TimerCommand { timer, op: TimerOp::EnableInterrupt { enable: true } }
}

fn stop(timer: usize) -> TimerCommand {
    TimerCommand { timer, op: TimerOp::Stop }
}

fn bind(timer: usize) -> TimerCommand {
    TimerCommand { timer, op: TimerOp::SetInterruptHandler { slot: timer } }
}

fn schedule(timer: usize, timeout: u64) -> TimerCommand {
    TimerCommand { timer, op: TimerOp::Schedule { timeout } }
}

fn clear(timer: usize) -> TimerCommand {
    TimerCommand { timer, op: TimerOp::ClearInterrupt }
}

fn allocate(driver: &mut Driver) -> (Option<AlarmHandle>, Vec<TimerCommand>) {
    let (handle, commands) = critical_section::with(|cs| driver.allocate_alarm(cs));
    (handle, listed(&commands))
}

fn install(driver: &mut Driver, count: usize) -> Result<Vec<TimerCommand>, InitError> {
    critical_section::with(|cs| driver.init(cs, count)).map(|commands| listed(&commands))
}

fn arm(driver: &Driver, alarm: AlarmHandle, timestamp: u64, now: u64) -> (bool, Vec<TimerCommand>) {
    let (accepted, commands) = critical_section::with(|cs| driver.set_alarm(cs, alarm, timestamp, now));
    (accepted, listed(&commands))
}

fn register(driver: &mut Driver, alarm: AlarmHandle, callback: u32) {
    critical_section::with(|cs| driver.set_alarm_callback(cs, alarm, callback));
}

fn dispatch(driver: &Driver, id: usize) -> (Vec<TimerCommand>, Option<u32>) {
    let (commands, callback) = critical_section::with(|cs| driver.on_interrupt(cs, id));
    (listed(&commands), callback)
}

#[test]
fn capacity_is_seven() {
    assert_eq!(MAX_SUPPORTED_ALARM_COUNT, 7);
    assert_eq!(MAX_COMMANDS, 3 * MAX_SUPPORTED_ALARM_COUNT);
    assert_eq!(NO_DEADLINE, u64::MAX);
}

#[test]
fn new_slot_is_free_and_silent() {
    let slot: AlarmState<u32> = AlarmState::new();
    assert!(!slot.allocated);
    assert!(slot.callback.is_none());
}

#[test]
fn handle_keeps_its_slot() {
    let handle = AlarmHandle::new(5);
    assert_eq!(handle.id(), 5);
    assert_eq!(handle, AlarmHandle::new(5));
    assert_ne!(handle, AlarmHandle::new(4));
}

#[test]
fn empty_command_list() {
    let commands = Commands::new();
    assert_eq!(commands.len(), 0);
    assert!(commands.is_empty());
    assert_eq!(commands.get(0), None);
    assert_eq!(commands.get(MAX_COMMANDS), None);
}

#[test]
fn command_list_is_indexed_in_order() {
    let commands = Driver::arm(4, 30, 10);
    assert_eq!(commands.len(), 2);
    assert!(!commands.is_empty());
    assert_eq!(commands.get(0), Some(schedule(4, 20)));
    assert_eq!(commands.get(1), Some(enable(4)));
    assert_eq!(commands.get(2), None);
}

#[test]
fn new_driver_has_no_pool_and_no_claims() {
    let driver = Driver::new();
    assert_eq!(driver.timer_count(), None);
    assert!(!driver.has_timer(0));
    let mut id: u8 = 0;
    while id < 10 {
        assert!(!driver.is_allocated(AlarmHandle::new(id)));
        id += 1;
    }
}

#[test]
fn allocation_hands_out_every_slot_once_then_none() {
    let mut driver = Driver::new();
    let mut seen: Vec<u8> = Vec::new();
    let mut k: usize = 0;
    while k < MAX_SUPPORTED_ALARM_COUNT {
        let (handle, commands) = allocate(&mut driver);
        let handle = handle.unwrap();
        assert_eq!(handle.id() as usize, k);
        assert!(!seen.contains(&handle.id()));
        assert!(commands.is_empty());
        assert!(driver.is_allocated(handle));
        seen.push(handle.id());
        k += 1;
    }
    assert_eq!(seen.len(), MAX_SUPPORTED_ALARM_COUNT);
    let (handle, commands) = allocate(&mut driver);
    assert_eq!(handle, None);
    assert!(commands.is_empty());
    let (again, _) = allocate(&mut driver);
    assert_eq!(again, None);
}

#[test]
fn allocation_after_install_binds_the_handler() {
    let mut driver = Driver::new();
    assert_eq!(install(&mut driver, 7), Ok(vec![
        disable(0), stop(0), disable(1), stop(1), disable(2), stop(2), disable(3), stop(3),
        disable(4), stop(4), disable(5), stop(5), disable(6), stop(6),
    ]));
    let mut k: usize = 0;
    while k < MAX_SUPPORTED_ALARM_COUNT {
        let (handle, commands) = allocate(&mut driver);
        assert_eq!(handle, Some(AlarmHandle::new(k as u8)));
        assert_eq!(commands, vec![bind(k)]);
        k += 1;
    }
    let (handle, commands) = allocate(&mut driver);
    assert_eq!(handle, None);
    assert!(commands.is_empty());
}

#[test]
fn allocation_beyond_the_pool_binds_nothing() {
    let mut driver = Driver::new();
    assert_eq!(install(&mut driver, 1), Ok(vec![disable(0), stop(0)]));
    assert_eq!(allocate(&mut driver), (Some(AlarmHandle::new(0)), vec![bind(0)]));
    assert_eq!(allocate(&mut driver), (Some(AlarmHandle::new(1)), vec![]));
    assert!(driver.is_allocated(AlarmHandle::new(1)));
    assert!(!driver.has_timer(1));
}

#[test]
fn install_binds_slots_claimed_before() {
    let mut driver = Driver::new();
    assert_eq!(allocate(&mut driver), (Some(AlarmHandle::new(0)), vec![]));
    assert_eq!(allocate(&mut driver), (Some(AlarmHandle::new(1)), vec![]));
    assert_eq!(install(&mut driver, 3), Ok(vec![
        disable(0), stop(0), bind(0),
        disable(1), stop(1), bind(1),
        disable(2), stop(2),
    ]));
    assert_eq!(driver.timer_count(), Some(3));
    assert!(driver.has_timer(2));
    assert!(!driver.has_timer(3));
    assert_eq!(allocate(&mut driver), (Some(AlarmHandle::new(2)), vec![bind(2)]));
}

#[test]
fn install_of_a_full_pool_after_full_allocation() {
    let mut driver = Driver::new();
    let mut k: usize = 0;
    while k < MAX_SUPPORTED_ALARM_COUNT {
        allocate(&mut driver);
        k += 1;
    }
    let commands = install(&mut driver, MAX_SUPPORTED_ALARM_COUNT).unwrap();
    assert_eq!(commands.len(), MAX_COMMANDS);
    let mut t: usize = 0;
    while t < MAX_SUPPORTED_ALARM_COUNT {
        assert_eq!(commands[3 * t], disable(t));
        assert_eq!(commands[3 * t + 1], stop(t));
        assert_eq!(commands[3 * t + 2], bind(t));
        t += 1;
    }
}

#[test]
fn install_of_an_empty_pool() {
    let mut driver = Driver::new();
    assert_eq!(install(&mut driver, 0), Ok(vec![]));
    assert_eq!(driver.timer_count(), Some(0));
    assert!(!driver.has_timer(0));
    assert_eq!(allocate(&mut driver), (Some(AlarmHandle::new(0)), vec![]));
}

#[test]
fn second_install_is_refused_and_changes_nothing() {
    let mut driver = Driver::new();
    allocate(&mut driver);
    assert!(install(&mut driver, 2).is_ok());
    assert_eq!(install(&mut driver, 5), Err(InitError::AlreadyInstalled));
    assert_eq!(driver.timer_count(), Some(2));
    assert!(!driver.has_timer(2));
    assert_eq!(install(&mut driver, 2), Err(InitError::AlreadyInstalled));
    assert_eq!(install(&mut driver, 0), Err(InitError::AlreadyInstalled));
    assert_eq!(driver.timer_count(), Some(2));
    assert!(driver.is_allocated(AlarmHandle::new(0)));
    assert!(!driver.is_allocated(AlarmHandle::new(1)));
}

#[test]
fn arming_with_no_deadline_touches_nothing() {
    let mut driver = Driver::new();
    let (handle, _) = allocate(&mut driver);
    let handle = handle.unwrap();
    assert_eq!(arm(&driver, handle, u64::MAX, 0), (true, vec![]));
    assert_eq!(arm(&driver, handle, NO_DEADLINE, u64::MAX), (true, vec![]));
    install(&mut driver, 1).unwrap();
    assert_eq!(arm(&driver, handle, NO_DEADLINE, 12), (true, vec![]));
    assert_eq!(arm(&driver, AlarmHandle::new(6), NO_DEADLINE, 12), (true, vec![]));
    assert_eq!(driver.timer_count(), Some(1));
}

#[test]
fn arming_schedules_the_remaining_ticks() {
    let mut driver = Driver::new();
    install(&mut driver, 3).unwrap();
    allocate(&mut driver);
    let (handle, _) = allocate(&mut driver);
    let handle = handle.unwrap();
    assert_eq!(arm(&driver, handle, 1_100, 1_000), (true, vec![schedule(1, 100), enable(1)]));
    assert_eq!(arm(&driver, handle, 1_001, 1_000), (true, vec![schedule(1, 1), enable(1)]));
    assert_eq!(
        arm(&driver, handle, u64::MAX - 1, 0),
        (true, vec![schedule(1, u64::MAX - 1), enable(1)])
    );
}

#[test]
fn arming_for_the_past_schedules_zero() {
    let mut driver = Driver::new();
    install(&mut driver, 2).unwrap();
    let (handle, _) = allocate(&mut driver);
    let handle = handle.unwrap();
    assert_eq!(arm(&driver, handle, 999, 1_000), (true, vec![schedule(0, 0), enable(0)]));
    assert_eq!(arm(&driver, handle, 1_000, 1_000), (true, vec![schedule(0, 0), enable(0)]));
    assert_eq!(arm(&driver, handle, 0, u64::MAX), (true, vec![schedule(0, 0), enable(0)]));
}

#[test]
fn arm_computes_the_timeout() {
    assert_eq!(listed(&Driver::arm(2, 500, 200)), vec![schedule(2, 300), enable(2)]);
    assert_eq!(listed(&Driver::arm(2, 200, 500)), vec![schedule(2, 0), enable(2)]);
    assert_eq!(listed(&Driver::arm(0, u64::MAX, 1)), vec![schedule(0, u64::MAX - 1), enable(0)]);
    assert_eq!(listed(&Driver::arm(6, 0, 0)), vec![schedule(6, 0), enable(6)]);
}

#[test]
fn dispatch_without_callback_only_clears() {
    let mut driver = Driver::new();
    install(&mut driver, 2).unwrap();
    allocate(&mut driver);
    assert_eq!(dispatch(&driver, 0), (vec![clear(0)], None));
    assert_eq!(dispatch(&driver, 1), (vec![clear(1)], None));
}

#[test]
fn dispatch_finds_the_registered_callback() {
    let mut driver = Driver::new();
    install(&mut driver, 3).unwrap();
    let (h0, _) = allocate(&mut driver);
    let (h1, _) = allocate(&mut driver);
    register(&mut driver, h1.unwrap(), 11);
    assert_eq!(dispatch(&driver, 1), (vec![clear(1)], Some(11)));
    assert_eq!(dispatch(&driver, 0), (vec![clear(0)], None));
    register(&mut driver, h0.unwrap(), 10);
    assert_eq!(dispatch(&driver, 0), (vec![clear(0)], Some(10)));
    assert_eq!(dispatch(&driver, 1), (vec![clear(1)], Some(11)));
}

#[test]
fn later_callback_replaces_earlier() {
    let mut driver = Driver::new();
    install(&mut driver, 1).unwrap();
    let (handle, _) = allocate(&mut driver);
    let handle = handle.unwrap();
    register(&mut driver, handle, 1);
    register(&mut driver, handle, 2);
    assert_eq!(dispatch(&driver, 0), (vec![clear(0)], Some(2)));
    assert_eq!(dispatch(&driver, 0), (vec![clear(0)], Some(2)));
}

#[test]
fn registering_before_install_survives_install() {
    let mut driver = Driver::new();
    let (handle, _) = allocate(&mut driver);
    register(&mut driver, handle.unwrap(), 77);
    assert_eq!(install(&mut driver, 1), Ok(vec![disable(0), stop(0), bind(0)]));
    assert_eq!(dispatch(&driver, 0), (vec![clear(0)], Some(77)));
}

#[test]
fn registering_and_arming_leave_claims_alone() {
    let mut driver = Driver::new();
    install(&mut driver, 2).unwrap();
    let (handle, _) = allocate(&mut driver);
    let handle = handle.unwrap();
    register(&mut driver, handle, 3);
    arm(&driver, handle, 10, 0);
    assert!(driver.is_allocated(handle));
    assert!(!driver.is_allocated(AlarmHandle::new(1)));
    assert_eq!(allocate(&mut driver), (Some(AlarmHandle::new(1)), vec![bind(1)]));
    assert_eq!(dispatch(&driver, 0), (vec![clear(0)], Some(3)));
}
