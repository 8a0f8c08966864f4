use conduit_proxy::addr::{IpAddress, SocketAddress};
use conduit_proxy::key::{Direction, Key, Recognize, RequestHead};
use conduit_proxy::router::Router;
use conduit_proxy::stack::{Completed, Lifecycle, Limits, Placement};
use conduit_proxy::status::{status_of, InnerError, RouteError};

fn local() -> SocketAddress {
    SocketAddress { ip: IpAddress::V4(0x7f00_0001), port: 4140 }
}

fn outbound(capacity: usize) -> Router {
    let rule = Recognize { direction: Direction::Outbound, local: local(), forward: None };
    Router::new(rule, capacity, Limits { max_in_flight: 2, max_queued: 2 })
}

fn key(name: &str) -> Key {
    Key::from_authority(name.as_bytes())
}

fn request(authority: &str) -> RequestHead {
    RequestHead { authority: Some(authority.as_bytes().to_vec()), host: None }
}

#[test]
fn new_router_is_empty() {
    let r = outbound(3);
    assert_eq!(r.len(), 0);
    assert_eq!(r.capacity(), 3);
    assert!(!r.is_draining());
    assert!(!r.contains(&key("a")));
}

#[test]
fn first_request_for_a_key_creates_its_route() {
    let mut r = outbound(2);
    let routed = r.route(key("a"), 10).unwrap();
    assert!(routed.created);
    assert_eq!(routed.placement, Placement::Queued);
    assert!(routed.evicted.is_none());
    assert_eq!(routed.key.as_bytes(), b"a");
    assert_eq!(r.len(), 1);
    let stack = r.stack_of(&key("a")).unwrap();
    assert_eq!((stack.in_flight, stack.queued, stack.ready), (0, 1, false));
}

#[test]
fn second_request_shares_the_route_being_built() {
    let mut r = outbound(2);
    assert!(r.route(key("a"), 1).unwrap().created);
    let routed = r.route(key("a"), 2).unwrap();
    assert!(!routed.created);
    assert_eq!(routed.placement, Placement::Queued);
    assert_eq!(r.len(), 1);
    assert_eq!(r.stack_of(&key("a")).unwrap().queued, 2);
}

#[test]
fn built_stack_takes_its_waiting_requests() {
    let mut r = outbound(2);
    r.route(key("a"), 1).unwrap();
    r.route(key("a"), 2).unwrap();
    assert_eq!(r.set_ready(&key("a"), true), 2);
    let routed = r.route(key("a"), 3).unwrap();
    assert_eq!(routed.placement, Placement::Queued);
    assert_eq!(r.complete(&key("a")), Completed::Promoted);
    assert_eq!(r.complete(&key("a")), Completed::Settled);
    assert_eq!(r.complete(&key("a")), Completed::Settled);
    assert_eq!(r.complete(&key("a")), Completed::Nothing);
    assert_eq!(r.stack_of(&key("a")).unwrap().state, Lifecycle::Idle);
    assert_eq!(r.set_ready(&key("missing"), true), 0);
    assert_eq!(r.complete(&key("missing")), Completed::Nothing);
}

#[test]
fn full_router_with_busy_routes_refuses_new_keys() {
    let mut r = outbound(2);
    assert!(r.route(key("a"), 1).is_ok());
    assert!(r.route(key("b"), 2).is_ok());
    let refused = r.route(key("c"), 3).unwrap_err();
    assert_eq!(refused, RouteError::NoCapacity(2));
    assert_eq!(status_of(refused), 503);
    assert_eq!(r.len(), 2);
    assert!(r.route(key("a"), 4).is_ok());
}

#[test]
fn full_router_evicts_the_idle_route_used_least_recently() {
    let mut r = outbound(3);
    for (name, at) in [("a", 5u64), ("b", 1), ("c", 3)] {
        r.route(key(name), at).unwrap();
        assert!(r.withdraw(&key(name)));
    }
    let routed = r.route(key("d"), 9).unwrap();
    assert!(routed.created);
    let gone = routed.evicted.unwrap();
    assert_eq!(gone.key.as_bytes(), b"b");
    assert_eq!(gone.stack.state, Lifecycle::Terminated);
    assert_eq!(gone.last_used, 1);
    assert_eq!(r.len(), 3);
    assert!(!r.contains(&key("b")));
    assert!(r.contains(&key("a")) && r.contains(&key("c")) && r.contains(&key("d")));
}

#[test]
fn busy_routes_are_passed_over_by_eviction() {
    let mut r = outbound(2);
    r.route(key("old"), 1).unwrap();
    r.route(key("new"), 2).unwrap();
    assert!(r.withdraw(&key("new")));
    let routed = r.route(key("x"), 3).unwrap();
    assert_eq!(routed.evicted.unwrap().key.as_bytes(), b"new");
    assert!(r.contains(&key("old")));
}

#[test]
fn of_two_idle_routes_used_at_once_the_earlier_goes() {
    let mut r = outbound(2);
    r.route(key("a"), 7).unwrap();
    r.route(key("b"), 7).unwrap();
    r.withdraw(&key("a"));
    r.withdraw(&key("b"));
    let routed = r.route(key("c"), 8).unwrap();
    assert_eq!(routed.evicted.unwrap().key.as_bytes(), b"a");
}

#[test]
fn use_refreshes_a_route() {
    let mut r = outbound(2);
    r.route(key("a"), 1).unwrap();
    r.route(key("b"), 2).unwrap();
    r.withdraw(&key("a"));
    r.withdraw(&key("b"));
    r.route(key("a"), 3).unwrap();
    r.withdraw(&key("a"));
    let routed = r.route(key("c"), 4).unwrap();
    assert_eq!(routed.evicted.unwrap().key.as_bytes(), b"b");
}

#[test]
fn router_of_no_capacity_refuses_everything() {
    let mut r = outbound(0);
    assert_eq!(r.route(key("a"), 1).unwrap_err(), RouteError::NoCapacity(0));
    assert_eq!(r.len(), 0);
}

#[test]
fn full_queue_refuses_with_its_own_size() {
    let mut r = outbound(4);
    r.route(key("a"), 1).unwrap();
    r.route(key("a"), 2).unwrap();
    assert_eq!(r.route(key("a"), 3).unwrap_err(), RouteError::NoCapacity(2));
    assert_eq!(r.stack_of(&key("a")).unwrap().queued, 2);
}

#[test]
fn stacks_without_a_queue_cannot_start() {
    let rule = Recognize { direction: Direction::Outbound, local: local(), forward: None };
    let mut r = Router::new(rule, 4, Limits { max_in_flight: 2, max_queued: 0 });
    assert_eq!(r.route(key("a"), 1).unwrap_err(), RouteError::NoCapacity(0));
    assert_eq!(r.len(), 0);
}

#[test]
fn failed_build_is_not_remembered() {
    let mut r = outbound(2);
    assert!(r.route(key("a"), 1).unwrap().created);
    let gone = r.abandon(&key("a")).unwrap();
    assert_eq!(gone.stack.queued, 1);
    assert_eq!(r.len(), 0);
    assert!(r.abandon(&key("a")).is_none());
    assert!(r.route(key("a"), 2).unwrap().created);
}

#[test]
fn call_recognizes_then_routes() {
    let mut r = outbound(2);
    let routed = r.call(&request("Svc.NS"), None, 1).unwrap();
    assert_eq!(routed.key.as_bytes(), b"svc.ns");
    assert!(routed.created);
    let again = r.call(&request("svc.ns"), None, 2).unwrap();
    assert!(!again.created);
    let nothing = RequestHead { authority: None, host: None };
    let refused = r.call(&nothing, None, 3).unwrap_err();
    assert_eq!(refused, RouteError::NotRecognized);
    assert_eq!(status_of(refused), 500);
    assert_eq!(r.len(), 1);
}

#[test]
fn draining_router_routes_nothing_new() {
    let mut r = outbound(3);
    r.route(key("busy"), 1).unwrap();
    r.set_ready(&key("busy"), true);
    r.route(key("idle"), 2).unwrap();
    r.withdraw(&key("idle"));
    r.drain();
    assert!(r.is_draining());
    assert!(!r.is_drained());
    assert_eq!(
        r.route(key("busy"), 3).unwrap_err(),
        RouteError::Inner(InnerError::ServiceGone)
    );
    assert_eq!(r.route(key("new"), 3).unwrap_err(), RouteError::Inner(InnerError::ServiceGone));
    assert_eq!(r.stack_of(&key("idle")).unwrap().state, Lifecycle::Terminated);
    assert_eq!(r.stack_of(&key("busy")).unwrap().state, Lifecycle::Draining);
    assert_eq!(r.complete(&key("busy")), Completed::Settled);
    assert!(r.is_drained());
    r.drain();
    assert!(r.is_drained());
}

#[test]
fn router_never_exceeds_its_capacity() {
    let mut r = outbound(3);
    for i in 0..50u64 {
        let name = format!("svc-{}", i % 7);
        let _ = r.route(key(&name), i);
        if i % 3 == 0 {
            r.withdraw(&key(&name));
        }
        assert!(r.len() <= 3);
    }
}
