use pinokio::errors::GatewayError;
use pinokio::queue::{Admission, Gate, WaitOutcome};

#[test]
fn the_31st_request_is_refused() {
    let mut gate = Gate::new(10, 20);
    for id in 0..10 {
        assert_eq!(gate.acquire(id), Admission::Granted);
    }
    assert_eq!(gate.active_sessions(), 10);
    assert!(gate.has_capacity());
    for id in 10..30 {
        assert_eq!(gate.acquire(id), Admission::Queued);
    }
    assert_eq!(gate.queued_sessions(), 20);
    assert!(!gate.has_capacity());
    assert_eq!(gate.acquire(30), Admission::QueueFull);
    assert_eq!(gate.active_sessions(), 10);
    assert_eq!(gate.queued_sessions(), 20);
    assert_eq!(gate.max_sessions(), 10);
    assert_eq!(gate.max_queue(), 20);
}

#[test]
fn slots_are_served_in_order() {
    let mut gate = Gate::new(1, 3);
    assert_eq!(gate.acquire(1), Admission::Granted);
    for id in [2, 3, 4] {
        assert_eq!(gate.acquire(id), Admission::Queued);
    }
    assert_eq!(gate.release(), Some(2));
    assert_eq!(gate.active_sessions(), 1);
    gate.claim(2);
    assert_eq!(gate.acquire(5), Admission::Queued);
    for id in [3, 4, 5] {
        assert_eq!(gate.release(), Some(id));
        gate.claim(id);
    }
    assert_eq!(gate.release(), None);
    assert_eq!(gate.active_sessions(), 0);
    assert_eq!(gate.acquire(6), Admission::Granted);
}

#[test]
fn handed_session_keeps_its_place_until_it_takes_up_its_slot() {
    let mut gate = Gate::new(1, 1);
    gate.acquire(1);
    assert_eq!(gate.acquire(2), Admission::Queued);
    assert!(!gate.is_handed(2));
    assert_eq!(gate.release(), Some(2));
    assert!(gate.is_handed(2));
    assert_eq!(gate.active_sessions(), 1);
    assert_eq!(gate.held_slots(), 0);
    assert_eq!(gate.queued_sessions(), 1);
    assert!(!gate.has_capacity());
    assert_eq!(gate.acquire(3), Admission::QueueFull);
    gate.claim(2);
    assert!(!gate.is_handed(2) && !gate.is_queued(2));
    assert_eq!(gate.held_slots(), 1);
    assert_eq!(gate.queued_sessions(), 0);
    assert_eq!(gate.acquire(3), Admission::Queued);
}

#[test]
fn handed_slots_may_be_taken_up_in_any_order() {
    let mut gate = Gate::new(2, 3);
    for id in [1, 2, 3, 4, 5] {
        gate.acquire(id);
    }
    assert_eq!(gate.release(), Some(3));
    assert_eq!(gate.release(), Some(4));
    gate.claim(4);
    assert!(gate.is_handed(3) && !gate.is_handed(5));
    assert_eq!(gate.release(), Some(5));
    gate.claim(5);
    gate.claim(3);
    assert_eq!(gate.held_slots(), 2);
    assert_eq!(gate.queued_sessions(), 0);
}

#[test]
fn session_that_gives_up_leaves_the_queue() {
    let mut gate = Gate::new(1, 3);
    gate.acquire(1);
    for id in [2, 3, 4] {
        gate.acquire(id);
    }
    assert!(gate.is_queued(3));
    assert_eq!(gate.abandon(3), None);
    assert!(!gate.is_queued(3));
    assert_eq!(gate.queued_sessions(), 2);
    assert_eq!(gate.release(), Some(2));
    gate.claim(2);
    assert_eq!(gate.release(), Some(4));
}

#[test]
fn handed_slot_is_passed_on() {
    let mut gate = Gate::new(1, 2);
    gate.acquire(1);
    gate.acquire(2);
    gate.acquire(3);
    assert_eq!(gate.release(), Some(2));
    assert_eq!(gate.abandon(2), Some(3));
    assert_eq!(gate.active_sessions(), 1);
    assert_eq!(gate.queued_sessions(), 1);
    assert_eq!(gate.abandon(3), None);
    assert_eq!(gate.active_sessions(), 0);
    assert_eq!(gate.queued_sessions(), 0);
}

#[test]
fn release_undoes_acquire() {
    let mut gate = Gate::new(2, 0);
    assert_eq!(gate.acquire(1), Admission::Granted);
    assert_eq!(gate.release(), None);
    assert_eq!(gate.active_sessions(), 0);
    assert_eq!(gate.queued_sessions(), 0);
}

#[test]
fn no_queue_refuses_at_once() {
    let mut gate = Gate::new(1, 0);
    assert!(gate.has_capacity());
    assert_eq!(gate.acquire(1), Admission::Granted);
    assert!(!gate.has_capacity());
    assert_eq!(gate.acquire(2), Admission::QueueFull);
}

#[test]
fn largest_number_of_slots() {
    let mut gate = Gate::new(usize::MAX / 8, 0);
    assert_eq!(gate.acquire(1), Admission::Granted);
    assert_eq!(gate.active_sessions(), 1);
    assert_eq!(gate.release(), None);
    assert_eq!(gate.active_sessions(), 0);
}

#[test]
fn answers_of_the_queue() {
    assert!(matches!(Admission::QueueFull.refusal(), Some(GatewayError::QueueFull)));
    assert!(Admission::Granted.refusal().is_none());
    assert!(Admission::Queued.refusal().is_none());
    assert!(WaitOutcome::Granted.answer().is_ok());
    assert!(matches!(WaitOutcome::TimedOut.answer(), Err(GatewayError::QueueTimeout)));
    assert!(matches!(WaitOutcome::ShutDown.answer(), Err(GatewayError::ShuttingDown)));
}
