use conduit_proxy::addr::{IpAddress, SocketAddress};
use conduit_proxy::backoff::{Next, Readiness};
use conduit_proxy::balancer::{smooth, Balancer, Metadata, Resolution, Unavailable, Update};

fn ep(last: u8) -> SocketAddress {
    SocketAddress { ip: IpAddress::V4(0x0a00_0000 + last as u32), port: 80 }
}

fn add(last: u8) -> Update {
    Update::Add(ep(last), Metadata { weight: 1, labels: Vec::new() })
}

fn ready(last_octets: &[u8]) -> Balancer {
    let mut b = Balancer::new(3);
    for &o in last_octets {
        b.apply(add(o), 0);
        b.connected(ep(o));
    }
    b
}

#[test]
fn new_balancer_knows_nothing() {
    let mut b = Balancer::new(3);
    assert_eq!(b.len(), 0);
    assert_eq!(b.resolution(), Resolution::Unknown);
    assert!(!b.is_ready());
    assert_eq!(b.dispatch(), Err(Unavailable::NotReady));
}

#[test]
fn updates_apply_in_order() {
    let mut b = Balancer::new(3);
    b.apply(add(1), 0);
    b.apply(add(2), 0);
    b.apply(add(3), 0);
    b.apply(Update::Remove(ep(2)), 0);
    b.apply(add(2), 0);
    assert_eq!(b.len(), 3);
    assert_eq!(b.address(0), Some(ep(1)));
    assert_eq!(b.address(1), Some(ep(3)));
    assert_eq!(b.address(2), Some(ep(2)));
    assert_eq!(b.address(3), None);
    assert_eq!(b.resolution(), Resolution::Exists);
}

#[test]
fn adding_a_known_address_keeps_its_place_and_count() {
    let mut b = ready(&[1, 2]);
    assert_eq!(b.dispatch_with(0, 0), Ok(ep(1)));
    b.apply(Update::Add(ep(1), Metadata { weight: 9, labels: b"zone=a".to_vec() }), 0);
    assert_eq!(b.len(), 2);
    assert_eq!(b.address(0), Some(ep(1)));
    assert_eq!(b.pending(ep(1)), Some(1));
}

#[test]
fn removing_an_unknown_address_changes_nothing() {
    let mut b = ready(&[1]);
    b.apply(Update::Remove(ep(7)), 0);
    assert_eq!(b.len(), 1);
    assert_eq!(b.pending(ep(7)), None);
}

#[test]
fn new_endpoint_is_not_ready_until_it_says_so() {
    let mut b = Balancer::new(3);
    b.apply(add(1), 0);
    assert!(!b.is_ready());
    assert_eq!(b.dispatch_with(0, 0), Err(Unavailable::NotReady));
    assert_eq!(b.state(ep(1)), Some(Readiness::Connecting));
    b.connected(ep(1));
    assert_eq!(b.state(ep(1)), Some(Readiness::Ready));
    assert!(b.is_ready());
    assert_eq!(b.dispatch_with(0, 0), Ok(ep(1)));
    assert_eq!(b.failed_with(ep(1), 20), Some(Next::Retry(100)));
    assert_eq!(b.state(ep(1)), Some(Readiness::Connecting));
    assert_eq!(b.dispatch_with(0, 0), Err(Unavailable::NotReady));
    assert_eq!(b.pending(ep(1)), Some(1));
}

#[test]
fn fewer_pending_requests_win() {
    let mut b = ready(&[1, 2]);
    assert_eq!(b.dispatch_with(0, 1), Ok(ep(1)));
    assert_eq!(b.dispatch_with(0, 1), Ok(ep(2)));
    assert_eq!(b.dispatch_with(1, 0), Ok(ep(2)));
    assert_eq!(b.dispatch_with(1, 0), Ok(ep(1)));
    assert_eq!(b.pending(ep(1)), Some(2));
    assert_eq!(b.pending(ep(2)), Some(2));
}

#[test]
fn lower_round_trip_breaks_a_tie() {
    let mut b = ready(&[1, 2]);
    b.set_rtt(ep(1), 900);
    b.set_rtt(ep(2), 300);
    assert_eq!(b.dispatch_with(0, 1), Ok(ep(2)));
    assert_eq!(b.dispatch_with(0, 1), Ok(ep(1)));
    b.complete(ep(1));
    b.complete(ep(2));
    assert_eq!(b.dispatch_with(1, 0), Ok(ep(2)));
}

#[test]
fn draws_count_round_the_available_endpoints() {
    let mut b = ready(&[1, 2, 3]);
    assert_eq!(b.failed_with(ep(2), 0), Some(Next::Retry(80)));
    assert_eq!(b.candidates(), vec![0, 2]);
    assert_eq!(b.dispatch_with(1, 1), Ok(ep(3)));
    assert_eq!(b.dispatch_with(3, 3), Ok(ep(3)));
    assert_eq!(b.dispatch_with(4, 4), Ok(ep(1)));
}

#[test]
fn completion_lowers_the_count() {
    let mut b = ready(&[1]);
    b.dispatch_with(0, 0).unwrap();
    b.dispatch_with(0, 0).unwrap();
    b.complete(ep(1));
    assert_eq!(b.pending(ep(1)), Some(1));
    b.complete(ep(1));
    b.complete(ep(1));
    assert_eq!(b.pending(ep(1)), Some(0));
    b.complete(ep(9));
    assert_eq!(b.len(), 1);
}

#[test]
fn random_dispatch_picks_an_available_endpoint() {
    let mut b = ready(&[1, 2, 3, 4]);
    assert!(matches!(b.failed(ep(3)), Some(Next::Retry(80..=120))));
    for _ in 0..200 {
        let got = b.dispatch().unwrap();
        assert!(got == ep(1) || got == ep(2) || got == ep(4));
    }
    let total: usize = [1u8, 2, 4].iter().map(|&o| b.pending(ep(o)).unwrap()).sum();
    assert_eq!(total, 200);
    assert_eq!(b.pending(ep(3)), Some(0));
}

#[test]
fn random_dispatch_spreads_load_over_two() {
    let mut b = ready(&[1, 2]);
    for _ in 0..100 {
        b.dispatch().unwrap();
    }
    assert_eq!(b.pending(ep(1)), Some(50));
    assert_eq!(b.pending(ep(2)), Some(50));
}

#[test]
fn name_not_found_fails_fast() {
    let mut b = ready(&[1, 2]);
    b.apply(Update::DoesNotExist, 100);
    assert_eq!(b.len(), 0);
    assert_eq!(b.resolution(), Resolution::NotFound(100));
    assert_eq!(b.dispatch(), Err(Unavailable::DoesNotExist));
    assert_eq!(b.dispatch_with(0, 0), Err(Unavailable::DoesNotExist));
    assert!(!b.is_ready());
}

#[test]
fn name_not_found_is_asked_again_after_its_time() {
    let mut b = Balancer::new(3);
    assert!(!b.should_resubscribe(1_000, 10));
    b.apply(Update::DoesNotExist, 100);
    assert!(!b.should_resubscribe(100, 30));
    assert!(!b.should_resubscribe(129, 30));
    assert!(b.should_resubscribe(130, 30));
    assert!(!b.should_resubscribe(99, 30));
    b.apply(Update::Exists, 140);
    assert!(!b.should_resubscribe(500, 30));
    assert_eq!(b.resolution(), Resolution::Exists);
}

#[test]
fn no_endpoints_empties_the_set() {
    let mut b = ready(&[1, 2]);
    b.apply(Update::NoEndpoints, 0);
    assert_eq!(b.len(), 0);
    assert_eq!(b.resolution(), Resolution::Exists);
    assert_eq!(b.dispatch(), Err(Unavailable::NotReady));
}

#[test]
fn exists_keeps_the_set() {
    let mut b = ready(&[1, 2]);
    b.apply(Update::Exists, 0);
    assert_eq!(b.len(), 2);
    assert!(b.is_ready());
}

#[test]
fn lost_subscription_keeps_endpoints_until_next_update() {
    let mut b = ready(&[1, 2]);
    b.subscription_lost();
    assert_eq!(b.len(), 2);
    assert_eq!(b.dispatch_with(0, 0), Ok(ep(1)));
    b.apply(add(3), 0);
    assert_eq!(b.len(), 1);
    assert_eq!(b.address(0), Some(ep(3)));
    b.apply(add(4), 0);
    assert_eq!(b.len(), 2);
}

#[test]
fn endpoint_is_given_up_after_repeated_failures_at_the_cap() {
    let mut b = ready(&[1, 2]);
    let mut waits = Vec::new();
    loop {
        match b.failed_with(ep(1), 20) {
            Some(Next::Retry(wait)) => waits.push(wait),
            Some(Next::GiveUp) => break,
            None => panic!("the endpoint is known"),
        }
    }
    assert_eq!(waits, vec![100, 200, 400, 800, 1600, 3200, 6400, 10_000, 10_000]);
    assert_eq!(b.state(ep(1)), Some(Readiness::Failed));
    assert_eq!(b.failed_with(ep(1), 20), Some(Next::GiveUp));
    assert_eq!(b.dispatch_with(0, 0), Ok(ep(2)));
    b.connected(ep(1));
    assert_eq!(b.state(ep(1)), Some(Readiness::Ready));
    assert_eq!(b.failed_with(ep(1), 20), Some(Next::Retry(100)));
}

#[test]
fn failure_of_an_unknown_endpoint_is_ignored() {
    let mut b = ready(&[1]);
    assert_eq!(b.failed_with(ep(9), 20), None);
    assert_eq!(b.failed(ep(9)), None);
    b.connected(ep(9));
    assert_eq!(b.state(ep(9)), None);
    assert_eq!(b.len(), 1);
    assert!(b.is_ready());
}

#[test]
fn round_trip_estimate_moves_towards_the_sample() {
    assert_eq!(smooth(0, 800), 800);
    assert_eq!(smooth(800, 1600), 900);
    assert_eq!(smooth(800, 0), 700);
    assert_eq!(smooth(u64::MAX, u64::MAX), u64::MAX - u64::MAX / 8 + u64::MAX / 8);
    let mut b = ready(&[1, 2]);
    b.observe_rtt(ep(1), 800);
    b.observe_rtt(ep(1), 1600);
    b.observe_rtt(ep(2), 899);
    assert_eq!(b.dispatch_with(0, 1), Ok(ep(2)));
    b.observe_rtt(ep(7), 5);
    assert_eq!(b.len(), 2);
}

#[test]
fn dispatch_goes_by_the_set_at_the_time() {
    let mut b = ready(&[1]);
    assert_eq!(b.dispatch(), Ok(ep(1)));
    b.apply(Update::Remove(ep(1)), 0);
    assert_eq!(b.dispatch(), Err(Unavailable::NotReady));
    b.apply(add(2), 0);
    b.connected(ep(2));
    for _ in 0..20 {
        assert_eq!(b.dispatch(), Ok(ep(2)));
    }
    b.apply(add(1), 0);
    assert_eq!(b.dispatch(), Ok(ep(2)));
    assert_eq!(b.pending(ep(1)), Some(0));
    assert_eq!(b.pending(ep(2)), Some(21));
}
