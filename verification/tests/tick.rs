use host_notify::tick::TickSchedule;

#[test]
fn on_time_ticks_fire_at_their_deadlines() {
    let mut sched = TickSchedule::new(15_000, 15_000);
    assert_eq!(sched.fire(14_000), 15_000);
    assert_eq!(sched.fire(29_500), 30_000);
    assert_eq!(sched.fire(45_000), 45_000);
    assert_eq!(sched.next_deadline_ms, 60_000);
}

/// A sampling call delayed beyond one tick interval does not skip the next
/// tick: the overdue tick fires at once, the following one fires
/// back-to-back rather than being coalesced, and after catching up the
/// schedule resumes the normal interval.
#[test]
fn skewed_tick_is_not_skipped_and_interval_resumes() {
    let mut sched = TickSchedule::new(1000, 1000);
    assert_eq!(sched.fire(1000), 1000); // tick 1, on time; tick 2 due at 2000
    // the tick's work was delayed by 1.5 intervals: arrive at 3500
    assert_eq!(sched.fire(3500), 3500); // tick 2, late but fired, not skipped
    // tick 3 was due at 3000: it fires immediately, back-to-back
    assert_eq!(sched.fire(3500), 3500);
    // tick 4 is due at 4000: the normal interval resumes
    assert_eq!(sched.fire(3600), 4000);
    assert_eq!(sched.fire(5000), 5000);
}
