use std::collections::BTreeSet;

use balance_sync::{ScheduleError, Scheduler, TimerPlan};

/// Carries out a plan on a set of live timer handles, cancelling first.
fn run(live: &mut BTreeSet<u64>, plan: TimerPlan<u64>, new_handle: u64) {
    if let Some(old) = plan.cancel {
        live.remove(&old);
    }
    live.insert(new_handle);
}

#[test]
fn new_scheduler_is_idle() {
    let s: Scheduler<u64> = Scheduler::new();
    assert_eq!(s.get_interval(), 0);
    assert_eq!(*s.timer(), None);
}

#[test]
fn first_interval_cancels_nothing() {
    let mut s: Scheduler<u64> = Scheduler::new();
    let plan = s.set_interval(15).unwrap();
    assert_eq!(plan, TimerPlan { cancel: None, arm_secs: 15 });
    assert_eq!(s.get_interval(), 15);
    assert_eq!(*s.timer(), None);
    s.timer_armed(1);
    assert_eq!(*s.timer(), Some(1));
}

#[test]
fn reschedule_cancels_the_held_timer() {
    let mut s: Scheduler<u64> = Scheduler::new();
    s.set_interval(15).unwrap();
    s.timer_armed(1);
    let plan = s.set_interval(30).unwrap();
    assert_eq!(plan, TimerPlan { cancel: Some(1), arm_secs: 30 });
    assert_eq!(s.get_interval(), 30);
}

#[test]
fn set_interval_twice_leaves_one_timer() {
    let mut live: BTreeSet<u64> = BTreeSet::new();
    let mut s: Scheduler<u64> = Scheduler::new();
    run(&mut live, s.set_interval(15).unwrap(), 1);
    s.timer_armed(1);
    run(&mut live, s.set_interval(5).unwrap(), 2);
    s.timer_armed(2);
    run(&mut live, s.set_interval(7).unwrap(), 3);
    s.timer_armed(3);
    assert_eq!(live, BTreeSet::from([3]));
    assert_eq!(*s.timer(), Some(3));
    assert_eq!(s.get_interval(), 7);
}

#[test]
fn zero_interval_is_refused() {
    let mut s: Scheduler<u64> = Scheduler::new();
    s.set_interval(15).unwrap();
    s.timer_armed(4);
    assert_eq!(s.set_interval(0), Err(ScheduleError::ZeroInterval));
    assert_eq!(s.get_interval(), 15);
    assert_eq!(*s.timer(), Some(4));
}
