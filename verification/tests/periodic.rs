use routeupd::periodic::{Activity, Command, Event, Scheduler};

const TICK: Event = Event::Tick;
const OK: Event = Event::PassFinished { ok: true };
const FAILED: Event = Event::PassFinished { ok: false };

#[test]
fn ticks_one_interval_apart_and_a_failure_on_the_third() {
    let scheduler = Scheduler::new(1);
    assert_eq!(scheduler.activity(), Activity::Idle);
    assert_eq!(scheduler.next_due(), 1);

    let (scheduler, command) = scheduler.on_event(TICK);
    assert_eq!(command, Command::StartPass);
    assert_eq!(scheduler.activity(), Activity::Running);
    let (scheduler, command) = scheduler.on_event(OK);
    assert_eq!(command, Command::Wait);
    assert_eq!(scheduler.activity(), Activity::Idle);
    assert_eq!(scheduler.next_due(), 2);

    let (scheduler, command) = scheduler.on_event(TICK);
    assert_eq!(command, Command::StartPass);
    let (scheduler, command) = scheduler.on_event(OK);
    assert_eq!(command, Command::Wait);
    assert_eq!(scheduler.next_due(), 3);

    let (scheduler, command) = scheduler.on_event(TICK);
    assert_eq!(command, Command::StartPass);
    let (scheduler, command) = scheduler.on_event(FAILED);
    assert_eq!(command, Command::Stop);
    assert_eq!(scheduler.activity(), Activity::Stopped);

    let (scheduler, command) = scheduler.on_event(TICK);
    assert_eq!(command, Command::Stop);
    assert_eq!(scheduler.activity(), Activity::Stopped);
    let (scheduler, command) = scheduler.on_event(OK);
    assert_eq!(command, Command::Stop);
    assert_eq!(scheduler.on_event(TICK).1, Command::Stop);
}

#[test]
fn test_run_periodically() {
    // Five passes, the fifth of which fails.
    let mut scheduler = Scheduler::new(1);
    let mut counter = 0;
    loop {
        let (next, command) = scheduler.on_event(TICK);
        assert_eq!(command, Command::StartPass);
        counter += 1;
        let (next, command) = next.on_event(Event::PassFinished { ok: counter < 5 });
        scheduler = next;
        if command == Command::Stop {
            break;
        }
        assert_eq!(command, Command::Wait);
    }
    assert_eq!(counter, 5);
    assert_eq!(scheduler.activity(), Activity::Stopped);
}

#[test]
fn ticks_fall_due_at_multiples_of_the_interval() {
    let mut scheduler = Scheduler::new(3600);
    for number in 1..=6u64 {
        assert_eq!(scheduler.next_due(), number * 3600);
        scheduler = scheduler.on_event(TICK).0;
        // However long the pass takes, the next tick is due at its fixed time.
        assert_eq!(scheduler.next_due(), (number + 1) * 3600);
        scheduler = scheduler.on_event(OK).0;
    }
}

#[test]
fn ticks_missed_during_a_pass_give_one_more_pass() {
    let (scheduler, command) = Scheduler::new(10).on_event(TICK);
    assert_eq!(command, Command::StartPass);
    assert!(!scheduler.pending());
    let (scheduler, command) = scheduler.on_event(TICK);
    assert_eq!(command, Command::Wait);
    assert!(scheduler.pending());
    let (scheduler, command) = scheduler.on_event(TICK);
    assert_eq!(command, Command::Wait);
    let (scheduler, command) = scheduler.on_event(TICK);
    assert_eq!(command, Command::Wait);
    assert!(scheduler.pending());
    assert_eq!(scheduler.next_due(), 50);

    let (scheduler, command) = scheduler.on_event(OK);
    assert_eq!(command, Command::StartPass);
    assert_eq!(scheduler.activity(), Activity::Running);
    assert!(!scheduler.pending());
    let (scheduler, command) = scheduler.on_event(OK);
    assert_eq!(command, Command::Wait);
    assert_eq!(scheduler.activity(), Activity::Idle);
}

#[test]
fn a_failure_drops_the_tick_that_was_kept() {
    let scheduler = Scheduler::new(10).on_event(TICK).0.on_event(TICK).0;
    assert!(scheduler.pending());
    let (scheduler, command) = scheduler.on_event(FAILED);
    assert_eq!(command, Command::Stop);
    assert!(!scheduler.pending());
    assert_eq!(scheduler.activity(), Activity::Stopped);
}

#[test]
fn the_end_of_a_pass_that_is_not_running_is_ignored() {
    let (scheduler, command) = Scheduler::new(10).on_event(FAILED);
    assert_eq!(command, Command::Wait);
    assert_eq!(scheduler.activity(), Activity::Idle);
    let (scheduler, command) = scheduler.on_event(OK);
    assert_eq!(command, Command::Wait);
    assert_eq!(scheduler.on_event(TICK).1, Command::StartPass);
}

#[test]
fn a_due_time_beyond_64_bits_is_the_last_second() {
    let scheduler = Scheduler::new(u64::MAX / 2);
    assert_eq!(scheduler.next_due(), u64::MAX / 2);
    let scheduler = scheduler.on_event(TICK).0;
    assert_eq!(scheduler.next_due(), u64::MAX - 1);
    let scheduler = scheduler.on_event(OK).0.on_event(TICK).0;
    assert_eq!(scheduler.next_due(), u64::MAX);
    assert_eq!(Scheduler::new(0).on_event(TICK).0.next_due(), 0);
}
