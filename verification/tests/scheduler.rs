use nicy_runtime::scheduler::{clamp_delay_ms, CurrentState, IdleStep, ResumePlan, Scheduler, MAX_DELAY_MS};

#[test]
fn spawn_runs_before_defer_and_keeps_order() {
    let mut s = Scheduler::new();
    s.defer(0x30, 3, 1);
    s.spawn(0x10, 1, 1);
    s.spawn(0x20, 2, 3);
    assert!(s.has_work());
    let round = s.collect_runnable(0);
    assert_eq!(round.runnable, vec![1, 2, 3]);
    assert!(round.released.is_empty());
    assert!(!s.has_work());
}

#[test]
fn first_resume_gets_initial_arguments() {
    let mut s = Scheduler::new();
    s.spawn(0x10, 1, 3);
    assert_eq!(s.begin_resume(1), ResumePlan::Resume { nargs: 2, waited_since: None });
    // a second resume without a wait gets no arguments
    assert_eq!(s.begin_resume(1), ResumePlan::Resume { nargs: 0, waited_since: None });
}

#[test]
fn delay_ids_count_up_and_fire_when_due() {
    let mut s = Scheduler::new();
    let a = s.delay(0x10, 10, 4, 100);
    let b = s.delay(0x20, 11, 2, 50);
    assert_eq!(a, 1);
    assert_eq!(b, 2);
    assert_eq!(s.next_due(), Some(50));
    let r = s.collect_runnable(49);
    assert!(r.runnable.is_empty());
    let r = s.collect_runnable(50);
    assert_eq!(r.runnable, vec![11]);
    let r = s.collect_runnable(1000);
    assert_eq!(r.runnable, vec![10]);
    assert_eq!(s.next_due(), None);
    assert!(!s.cancel_delay(a));
    assert!(!s.cancel_delay(b));
    assert_eq!(s.begin_resume(10), ResumePlan::Resume { nargs: 2, waited_since: None });
    assert_eq!(s.begin_resume(11), ResumePlan::Resume { nargs: 0, waited_since: None });
}

#[test]
fn waiting_thread_resumes_with_elapsed_time() {
    let mut s = Scheduler::new();
    s.register_thread(0x40, 4);
    s.wait_until(4, 10, 25);
    assert!(s.pop_due(24).runnable.is_empty());
    assert_eq!(s.pop_due(25).runnable, vec![4]);
    assert_eq!(s.begin_resume(4), ResumePlan::Resume { nargs: 1, waited_since: Some(10) });
}

#[test]
fn cancel_thread_removes_it_everywhere() {
    let mut s = Scheduler::new();
    s.spawn(0x10, 1, 1);
    s.spawn(0x20, 2, 1);
    s.wait_until(1, 0, 10);
    assert!(s.cancel_thread(0x10));
    assert!(!s.cancel_thread(0x10));
    assert!(!s.cancel_thread(0x99));
    assert_eq!(s.get_thread_ref_for_state(0x10), None);
    assert_eq!(s.get_thread_ref_for_state(0x20), Some(2));
    let r = s.collect_runnable(100);
    assert_eq!(r.runnable, vec![2]);
    assert_eq!(s.next_due(), None);
}

#[test]
fn cancel_delay_stops_it() {
    let mut s = Scheduler::new();
    let id = s.delay(0x10, 7, 2, 5);
    assert!(s.cancel_delay(id));
    assert!(!s.cancel_delay(id));
    assert!(!s.cancel_delay(99));
    assert_eq!(s.next_due(), None);
    let r = s.collect_runnable(10);
    assert!(r.runnable.is_empty());
}

#[test]
fn canceled_thread_with_due_timer_is_released() {
    let mut s = Scheduler::new();
    s.register_thread(0x10, 1);
    s.wait_until(1, 0, 5);
    assert!(s.cancel_thread(0x10));
    // the same reference waits again before the cancellation mark is consumed
    s.register_thread(0x10, 1);
    s.wait_until(1, 0, 5);
    let r = s.pop_due(5);
    assert!(r.runnable.is_empty());
    assert_eq!(r.released, vec![1]);
    assert_eq!(s.get_thread_ref_for_state(0x10), None);
}

#[test]
fn canceled_thread_is_not_resumed() {
    let mut s = Scheduler::new();
    s.spawn(0x10, 1, 1);
    assert!(s.cancel_thread(0x10));
    s.resume_thread_by_ref(1);
    assert_eq!(s.begin_resume(1), ResumePlan::Canceled);
    assert_eq!(s.begin_resume(1), ResumePlan::Resume { nargs: 0, waited_since: None });
}

#[test]
fn finished_thread_is_forgotten() {
    let mut s = Scheduler::new();
    s.spawn(0x10, 1, 1);
    let _ = s.collect_runnable(0);
    let _ = s.begin_resume(1);
    s.finish_resume(1, false);
    assert_eq!(s.get_thread_ref_for_state(0x10), Some(1));
    s.finish_resume(1, true);
    assert_eq!(s.get_thread_ref_for_state(0x10), None);
    assert!(!s.cancel_thread(0x10));
}

#[test]
fn shutdown_hands_back_references() {
    let mut s = Scheduler::new();
    s.spawn(0x10, 1, 1);
    s.schedule_main_thread(0x20, 2);
    let _ = s.delay(0x30, 3, 2, 10);
    let refs = s.shutdown();
    assert_eq!(refs, vec![1, 2, 3]);
    assert!(!s.has_work());
    assert_eq!(s.delay(0x40, 4, 2, 1), 1);
}

#[test]
fn idle_rounds() {
    let mut s = Scheduler::new();
    match s.idle_round(0) {
        IdleStep::Idle { released } => assert!(released.is_empty()),
        _ => panic!("expected idle"),
    }
    let _ = s.delay(0x10, 5, 2, 30);
    match s.idle_round(10) {
        IdleStep::Sleep { until, .. } => assert_eq!(until, 30),
        _ => panic!("expected sleep"),
    }
    match s.idle_round(30) {
        IdleStep::Run(r) => assert_eq!(r.runnable, vec![5]),
        _ => panic!("expected run"),
    }
    s.resume_thread_by_ref(5);
    match s.idle_round(31) {
        IdleStep::Run(r) => assert_eq!(r.runnable, vec![5]),
        _ => panic!("expected run"),
    }
}

#[test]
fn delay_clamp() {
    assert_eq!(clamp_delay_ms(0), 1);
    assert_eq!(clamp_delay_ms(1500), 1500);
    assert_eq!(clamp_delay_ms(u64::MAX), MAX_DELAY_MS);
    assert_eq!(MAX_DELAY_MS, 315_360_000_000);
}

#[test]
fn current_state_marks() {
    let mut c = CurrentState::new();
    assert_eq!(c.unref_target(), None);
    c.set_state(0x50);
    assert_eq!(c.unref_target(), None);
    c.mark_current_state_valid(0x50);
    assert_eq!(c.unref_target(), Some(0x50));
    c.mark_current_state_invalid();
    assert_eq!(c.unref_target(), None);
    c.mark_current_state_valid(0);
    assert_eq!(c.unref_target(), None);
}

#[test]
fn canceling_a_delay_spares_a_thread_with_the_same_number() {
    let mut s = Scheduler::new();
    let id = s.delay(0x50, 5, 2, 100);
    assert_eq!(id, 1);
    s.spawn(0x10, 1, 1);
    assert!(s.cancel_delay(id));
    let round = s.collect_runnable(0);
    assert_eq!(round.runnable, vec![1]);
    assert_eq!(s.begin_resume(1), ResumePlan::Resume { nargs: 0, waited_since: None });
}
