use conduit_proxy::addr::{IpAddress, SocketAddress};
use conduit_proxy::balancer::{Balancer, Metadata, Unavailable, Update};
use conduit_proxy::drain::{Latch, Watched};
use conduit_proxy::key::{Direction, Recognize, RequestHead};
use conduit_proxy::lifecycle::{Action, Event as Report, Phase};
use conduit_proxy::listener::{Cancelable, PollStep};
use conduit_proxy::router::Router;
use conduit_proxy::server::{on_drain, Connection, DrainStep, Plan};
use conduit_proxy::stack::{Completed, Limits, Placement};
use conduit_proxy::status::{reason, status_of, InnerError, RouteError};
use conduit_proxy::telemetry::{Event, Sensor};
use conduit_proxy::tunnel::Tunnel;
use conduit_proxy::Main;
use indexmap::IndexSet;

fn ip4(a: u8, b: u8, c: u8, d: u8, port: u16) -> SocketAddress {
    SocketAddress { ip: IpAddress::V4(u32::from_be_bytes([a, b, c, d])), port }
}

fn caps() -> Limits {
    Limits { max_in_flight: 100, max_queued: 100 }
}

#[test]
fn http1_inbound_happy_path() {
    let listener = ip4(127, 0, 0, 1, 4143);
    let upstream = ip4(127, 0, 0, 1, 8080);
    let bytes = b"GET /ping HTTP/1.1\r\nHost: app\r\n\r\n";
    let conn = Connection {
        local: listener,
        remote: ip4(127, 0, 0, 1, 50_123),
        original_dst: Some(upstream),
        direction: Direction::Inbound,
        prefix: bytes[..24].to_vec(),
    };
    assert_eq!(conn.plan(&IndexSet::new(), false), Plan::Http1);

    let rule = Recognize { direction: Direction::Inbound, local: listener, forward: None };
    let mut router = Router::new(rule, 10, caps());
    let request = RequestHead { authority: None, host: Some(b"app".to_vec()) };
    let mut sensor = Sensor::new();
    assert_eq!(sensor.request_open(1, 0), Some(Event::RequestOpen(1)));
    let routed = router.call(&request, conn.original_dst, 1).unwrap();
    assert_eq!(routed.key.as_bytes(), b"127.0.0.1:8080");
    assert!(routed.created);
    assert_eq!(router.set_ready(&routed.key, true), 1);
    assert_eq!(sensor.response_open(1), Some(Event::ResponseOpen(1)));
    assert_eq!(sensor.response_end(1), Some(Event::ResponseEnd(1)));
    assert_eq!(sensor.latency(1, 12), Some(12));
    assert_eq!(router.complete(&routed.key), Completed::Settled);
    assert_eq!(sensor.request_end(1), Some(Event::RequestEnd(1)));
    assert_eq!(sensor.connection_end(), Some(Event::ConnectionEnd));
}

#[test]
fn h2_outbound_with_single_endpoint() {
    let listener = ip4(127, 0, 0, 1, 4140);
    let conn = Connection {
        local: listener,
        remote: ip4(127, 0, 0, 1, 50_124),
        original_dst: None,
        direction: Direction::Outbound,
        prefix: b"PRI * HTTP/2.0\r\n\r\nSM\r\n\r\n".to_vec(),
    };
    assert_eq!(conn.plan(&IndexSet::new(), false), Plan::Http2);

    let rule = Recognize { direction: Direction::Outbound, local: listener, forward: None };
    let mut router = Router::new(rule, 10, caps());
    let request = RequestHead { authority: Some(b"svc.ns".to_vec()), host: None };
    let routed = router.call(&request, None, 1).unwrap();
    assert_eq!(routed.key.as_bytes(), b"svc.ns");
    assert_eq!(routed.placement, Placement::Queued);

    let mut balancer = Balancer::new(3);
    let endpoint = ip4(10, 0, 0, 2, 80);
    balancer.apply(Update::Add(endpoint, Metadata { weight: 1, labels: Vec::new() }), 2);
    assert_eq!(balancer.len(), 1);
    balancer.connected(endpoint);
    assert_eq!(router.set_ready(&routed.key, balancer.is_ready()), 1);
    for _ in 0..10 {
        assert_eq!(balancer.dispatch(), Ok(endpoint));
    }
    assert_eq!(balancer.len(), 1);
}

#[test]
fn router_capacity_rejection() {
    let rule = Recognize {
        direction: Direction::Outbound,
        local: ip4(127, 0, 0, 1, 4140),
        forward: None,
    };
    let mut router = Router::new(rule, 2, caps());
    let ask = |name: &str| RequestHead { authority: Some(name.as_bytes().to_vec()), host: None };
    assert!(router.call(&ask("a"), None, 1).is_ok());
    assert!(router.call(&ask("b"), None, 1).is_ok());
    let third = router.call(&ask("c"), None, 1).unwrap_err();
    assert_eq!(third, RouteError::NoCapacity(2));
    assert_eq!(status_of(third), 503);
    assert_eq!(router.len(), 2);
}

#[test]
fn protocol_detection_opt_out() {
    let mut exempt = IndexSet::new();
    exempt.insert(9000u16);
    let sent = b"GET / HTTP/1.1\r\nHost: db\r\n\r\n";
    let conn = Connection {
        local: ip4(127, 0, 0, 1, 4140),
        remote: ip4(127, 0, 0, 1, 50_125),
        original_dst: Some(ip4(10, 0, 0, 7, 9000)),
        direction: Direction::Outbound,
        prefix: sent[..24].to_vec(),
    };
    assert_eq!(conn.plan(&exempt, false), Plan::Tunnel(ip4(10, 0, 0, 7, 9000)));

    let mut tunnel = Tunnel::new(64);
    let mut received = Vec::new();
    assert_eq!(tunnel.up.fill(sent), sent.len());
    received.extend_from_slice(tunnel.up.pending());
    tunnel.up.consume(sent.len());
    assert_eq!(received, sent.to_vec());
}

#[test]
fn graceful_drain() {
    let at = |port| ip4(127, 0, 0, 1, port);
    let config = conduit_proxy::config::Config {
        control_listener: at(4190),
        public_listener: at(4143),
        private_listener: at(4140),
        metrics_listener: at(4191),
        private_forward: None,
        inbound_router_capacity: 10,
        outbound_router_capacity: 10,
        inbound_ports_disable_protocol_detection: IndexSet::new(),
        outbound_ports_disable_protocol_detection: IndexSet::new(),
        bind_timeout: 10_000,
        private_connect_timeout: 20,
        public_connect_timeout: 300,
        protocol_detect_timeout: 10_000,
        event_buffer_capacity: 100,
        metrics_retain_idle: 600_000,
        max_in_flight: 100,
        queue_capacity: 100,
        pod_namespace: String::new(),
        control_host_and_port: Vec::new(),
    };
    let mut main = Main::new(config, at(4190), at(4143), at(4140), at(4191));
    let mut latch = Latch::new();
    let mut accept = Cancelable::new();
    let mut accept_watch = Watched::new();

    assert!(latch.watch());
    assert_eq!(main.step(Report::ShutdownSignaled), Action::DrainListeners);
    assert!(!latch.drain());
    if accept_watch.poll(latch.is_draining()) {
        accept.cancel();
    }
    assert_eq!(accept.poll(), PollStep::Ready);
    assert!(!latch.watch());
    assert_eq!(main.step(Report::ListenersClosed), Action::AwaitRequests);
    assert_eq!(on_drain(Plan::Http2, false), DrainStep::GoAway);

    assert!(!latch.is_resolved());
    assert!(latch.release());
    assert!(latch.is_resolved());
    assert_eq!(main.step(Report::RequestsDrained), Action::ShutdownPool);
    assert_eq!(main.step(Report::PoolStopped), Action::Exit(0));
    assert_eq!(main.phase(), Phase::Stopped);
}

#[test]
fn discovery_does_not_exist() {
    let rule = Recognize {
        direction: Direction::Outbound,
        local: ip4(127, 0, 0, 1, 4140),
        forward: None,
    };
    let mut router = Router::new(rule, 10, caps());
    let request = RequestHead { authority: Some(b"missing".to_vec()), host: None };
    let routed = router.call(&request, None, 1).unwrap();
    assert_eq!(routed.key.as_bytes(), b"missing");

    let mut balancer = Balancer::new(3);
    balancer.apply(Update::DoesNotExist, 1_000);
    let failure = balancer.dispatch().unwrap_err();
    assert_eq!(failure, Unavailable::DoesNotExist);
    let error = failure.error().unwrap();
    assert_eq!(error, RouteError::Inner(InnerError::DiscoveryNotFound));
    assert_eq!(status_of(error), 500);
    assert_eq!(reason(error), "destination does not exist");
    assert!(router.withdraw(&routed.key));

    let ttl = 5_000;
    for now in [1_000u64, 2_000, 5_999] {
        assert!(!balancer.should_resubscribe(now, ttl));
        assert_eq!(balancer.dispatch(), Err(Unavailable::DoesNotExist));
    }
    assert!(balancer.should_resubscribe(6_000, ttl));
    assert_eq!(Unavailable::NotReady.error(), None);
}
