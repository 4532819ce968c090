use storage_bench::bringup::{
    bring_up_start, bring_up_step, run_bring_up, BusEvent, BusOp, CardState, RETRY_BACKOFF_MS,
};

#[test]
fn healthy_bus_advances_through_every_state_without_backoff() {
    let (s0, c0) = bring_up_start();
    assert_eq!(s0, CardState::ClockPriming);
    assert_eq!(c0.op, BusOp::PrimePulses);
    assert_eq!(c0.backoff_ms, 0);

    let (s1, c1) = bring_up_step(s0, BusEvent::Healthy);
    assert_eq!(s1, CardState::ResetNegotiation);
    assert_eq!(c1.op, BusOp::SendReset);
    assert_eq!(c1.backoff_ms, 0);

    let (s2, c2) = bring_up_step(s1, BusEvent::Healthy);
    assert_eq!(s2, CardState::InitializationPolling);
    assert_eq!(c2.op, BusOp::PollStatus);
    assert_eq!(c2.backoff_ms, 0);

    let (s3, c3) = bring_up_step(s2, BusEvent::Healthy);
    assert_eq!(s3, CardState::OperationalUpgrade);
    assert_eq!(c3.op, BusOp::RaiseClock);
    assert_eq!(c3.backoff_ms, 0);

    let (s4, c4) = bring_up_step(s3, BusEvent::Healthy);
    assert_eq!(s4, CardState::Ready);
    assert_eq!(c4.op, BusOp::Idle);
    assert_eq!(c4.backoff_ms, 0);
}

#[test]
fn healthy_run_reaches_ready_with_one_priming_and_no_backoff() {
    let events = vec![
        BusEvent::Healthy,
        BusEvent::Healthy,
        BusEvent::Healthy,
        BusEvent::Healthy,
    ];
    let r = run_bring_up(&events);
    assert_eq!(r.state, CardState::Ready);
    assert_eq!(r.primings, 1);
    assert_eq!(r.backoffs, 0);
    assert!(!r.upgrade_failed);
}

#[test]
fn three_poll_failures_take_four_full_cycles() {
    let mut events: Vec<BusEvent> = Vec::new();
    for _ in 0..3 {
        events.push(BusEvent::Healthy);
        events.push(BusEvent::Healthy);
        events.push(BusEvent::NotReady);
    }
    events.push(BusEvent::Healthy);
    events.push(BusEvent::Healthy);
    events.push(BusEvent::Healthy);
    events.push(BusEvent::Healthy);
    let r = run_bring_up(&events);
    assert_eq!(r.state, CardState::Ready);
    assert_eq!(r.primings, 4);
    assert_eq!(r.backoffs, 3);
    assert!(!r.upgrade_failed);
}

#[test]
fn always_failing_bus_spins_with_periodic_backoff() {
    let events = vec![BusEvent::Error; 10];
    let r = run_bring_up(&events);
    assert_eq!(r.state, CardState::ClockPriming);
    assert_eq!(r.backoffs, 10);
    assert_eq!(r.primings, 11);
    let (_, cmd) = bring_up_step(CardState::ClockPriming, BusEvent::Error);
    assert_eq!(cmd.backoff_ms, RETRY_BACKOFF_MS);
    assert_eq!(RETRY_BACKOFF_MS, 10);
}

#[test]
fn transport_error_during_polling_restarts_from_priming() {
    let (s, cmd) = bring_up_step(CardState::InitializationPolling, BusEvent::Error);
    assert_eq!(s, CardState::ClockPriming);
    assert_eq!(cmd.op, BusOp::PrimePulses);
    assert_eq!(cmd.backoff_ms, RETRY_BACKOFF_MS);
}

#[test]
fn failed_clock_upgrade_is_surfaced_not_fatal() {
    let events = vec![
        BusEvent::Healthy,
        BusEvent::Healthy,
        BusEvent::Healthy,
        BusEvent::Error,
    ];
    let r = run_bring_up(&events);
    assert_eq!(r.state, CardState::Ready);
    assert!(r.upgrade_failed);
}

#[test]
fn events_after_ready_are_ignored() {
    let events = vec![
        BusEvent::Healthy,
        BusEvent::Healthy,
        BusEvent::Healthy,
        BusEvent::Healthy,
        BusEvent::Error,
        BusEvent::Error,
    ];
    let r = run_bring_up(&events);
    assert_eq!(r.state, CardState::Ready);
    assert_eq!(r.backoffs, 0);
    assert!(!r.upgrade_failed);
}
