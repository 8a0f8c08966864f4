use conduit_proxy::stack::{effective_cap, Completed, Lifecycle, Limits, Placement, Stack};
use conduit_proxy::status::{InnerError, RouteError};

fn limits(max_in_flight: usize, max_queued: usize) -> Limits {
    Limits { max_in_flight, max_queued }
}

#[test]
fn new_stack_is_idle_and_not_ready() {
    let s = Stack::new(limits(2, 3));
    assert_eq!(s.state, Lifecycle::Idle);
    assert!(!s.ready);
    assert_eq!((s.in_flight, s.queued), (0, 0));
    assert!(s.is_idle());
    assert!(!s.is_terminated());
}

#[test]
fn unready_stack_queues_then_refuses() {
    let mut s = Stack::new(limits(2, 2));
    assert_eq!(s.offer(), Ok(Placement::Queued));
    assert_eq!(s.offer(), Ok(Placement::Queued));
    assert_eq!(s.offer(), Err(RouteError::NoCapacity(2)));
    assert_eq!((s.in_flight, s.queued), (0, 2));
    assert_eq!(s.state, Lifecycle::Active);
}

#[test]
fn ready_stack_dispatches_up_to_its_cap() {
    let mut s = Stack::new(limits(2, 1));
    assert_eq!(s.set_ready(true), 0);
    assert_eq!(s.offer(), Ok(Placement::Dispatched));
    assert_eq!(s.offer(), Ok(Placement::Dispatched));
    assert_eq!(s.offer(), Ok(Placement::Queued));
    assert_eq!(s.offer(), Err(RouteError::NoCapacity(1)));
    assert_eq!((s.in_flight, s.queued), (2, 1));
}

#[test]
fn becoming_ready_promotes_what_fits() {
    let mut s = Stack::new(limits(2, 5));
    for _ in 0..5 {
        assert_eq!(s.offer(), Ok(Placement::Queued));
    }
    assert_eq!(s.set_ready(true), 2);
    assert_eq!((s.in_flight, s.queued), (2, 3));
    assert_eq!(s.set_ready(false), 0);
    assert_eq!((s.in_flight, s.queued), (2, 3));
}

#[test]
fn completion_promotes_a_queued_request() {
    let mut s = Stack::new(limits(1, 2));
    s.set_ready(true);
    assert_eq!(s.offer(), Ok(Placement::Dispatched));
    assert_eq!(s.offer(), Ok(Placement::Queued));
    assert_eq!(s.complete(), Completed::Promoted);
    assert_eq!((s.in_flight, s.queued), (1, 0));
    assert_eq!(s.complete(), Completed::Settled);
    assert_eq!((s.in_flight, s.queued), (0, 0));
    assert_eq!(s.state, Lifecycle::Idle);
    assert_eq!(s.complete(), Completed::Nothing);
}

#[test]
fn withdrawn_request_leaves_the_queue() {
    let mut s = Stack::new(limits(1, 2));
    assert_eq!(s.offer(), Ok(Placement::Queued));
    assert!(s.withdraw());
    assert_eq!(s.state, Lifecycle::Idle);
    assert!(!s.withdraw());
}

#[test]
fn draining_stack_refuses_and_terminates_when_empty() {
    let mut s = Stack::new(limits(2, 2));
    s.set_ready(true);
    assert_eq!(s.offer(), Ok(Placement::Dispatched));
    s.drain();
    assert_eq!(s.state, Lifecycle::Draining);
    assert_eq!(s.offer(), Err(RouteError::Inner(InnerError::ServiceGone)));
    assert_eq!(s.complete(), Completed::Settled);
    assert_eq!(s.state, Lifecycle::Terminated);
    assert!(s.is_terminated());
    assert_eq!(s.offer(), Err(RouteError::Inner(InnerError::ServiceGone)));
}

#[test]
fn idle_stack_terminates_at_once_when_drained() {
    let mut s = Stack::new(limits(2, 2));
    s.drain();
    assert_eq!(s.state, Lifecycle::Terminated);
}

#[test]
fn effective_cap_is_the_smaller_limit() {
    assert_eq!(effective_cap(100, Some(10)), 10);
    assert_eq!(effective_cap(10, Some(100)), 10);
    assert_eq!(effective_cap(10, Some(10)), 10);
    assert_eq!(effective_cap(10, None), 10);
    assert_eq!(effective_cap(0, Some(5)), 0);
}
