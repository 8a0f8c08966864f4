use conduit_proxy::addr::{IpAddress, SocketAddress};
use conduit_proxy::config::{Config, Listener, ServePlan, DEFAULT_PROTOCOL_DETECT_TIMEOUT_MS};
use conduit_proxy::key::{Direction, Recognize};
use conduit_proxy::lifecycle::{exit_code, Action, Event, Outcome, Phase};
use conduit_proxy::stack::Limits;
use conduit_proxy::Main;
use indexmap::IndexSet;

fn at(port: u16) -> SocketAddress {
    SocketAddress { ip: IpAddress::V4(0x7f00_0001), port }
}

fn settings() -> Config {
    let mut inbound_ports = IndexSet::new();
    inbound_ports.insert(9000u16);
    let mut outbound_ports = IndexSet::new();
    outbound_ports.insert(25u16);
    outbound_ports.insert(3306u16);
    Config {
        control_listener: at(4190),
        public_listener: at(4143),
        private_listener: at(4140),
        metrics_listener: at(4191),
        private_forward: Some(at(8080)),
        inbound_router_capacity: 100,
        outbound_router_capacity: 200,
        inbound_ports_disable_protocol_detection: inbound_ports,
        outbound_ports_disable_protocol_detection: outbound_ports,
        bind_timeout: 10_000,
        private_connect_timeout: 20,
        public_connect_timeout: 300,
        protocol_detect_timeout: DEFAULT_PROTOCOL_DETECT_TIMEOUT_MS,
        event_buffer_capacity: 10_000,
        metrics_retain_idle: 600_000,
        max_in_flight: 10_000,
        queue_capacity: 10_000,
        pod_namespace: "default".to_string(),
        control_host_and_port: b"proxy-api.conduit:8086".to_vec(),
    }
}

fn running() -> Main {
    Main::new(settings(), at(51001), at(51002), at(51003), at(51004))
}

#[test]
fn listeners_bind_where_the_settings_say() {
    let c = settings();
    assert_eq!(c.listen_addr(Listener::Control), at(4190));
    assert_eq!(c.listen_addr(Listener::Inbound), at(4143));
    assert_eq!(c.listen_addr(Listener::Outbound), at(4140));
    assert_eq!(c.listen_addr(Listener::Metrics), at(4191));
    assert_eq!(DEFAULT_PROTOCOL_DETECT_TIMEOUT_MS, 10_000);
}

#[test]
fn inbound_plan_takes_the_inbound_settings() {
    let plan = settings().plan(Direction::Inbound, at(51002));
    assert_eq!(
        plan,
        ServePlan {
            rule: Recognize {
                direction: Direction::Inbound,
                local: at(51002),
                forward: Some(at(8080)),
            },
            router_capacity: 100,
            limits: Limits { max_in_flight: 10_000, max_queued: 10_000 },
            connect_timeout: 20,
            bind_timeout: None,
            protocol_detect_timeout: 10_000,
        }
    );
}

#[test]
fn outbound_plan_takes_the_outbound_settings() {
    let plan = settings().plan(Direction::Outbound, at(51003));
    assert_eq!(
        plan,
        ServePlan {
            rule: Recognize { direction: Direction::Outbound, local: at(51003), forward: None },
            router_capacity: 200,
            limits: Limits { max_in_flight: 10_000, max_queued: 10_000 },
            connect_timeout: 300,
            bind_timeout: Some(10_000),
            protocol_detect_timeout: 10_000,
        }
    );
}

#[test]
fn each_direction_has_its_own_exempt_ports() {
    let c = settings();
    assert!(c.exempt_ports(Direction::Inbound).contains(&9000));
    assert!(!c.exempt_ports(Direction::Inbound).contains(&25));
    assert!(c.exempt_ports(Direction::Outbound).contains(&25));
    assert!(c.exempt_ports(Direction::Outbound).contains(&3306));
    assert_eq!(c.exempt_ports(Direction::Outbound).len(), 2);
}

#[test]
fn plan_builds_an_empty_router() {
    let router = settings().plan(Direction::Outbound, at(51003)).router();
    assert_eq!(router.capacity(), 200);
    assert_eq!(router.len(), 0);
    assert!(!router.is_draining());
}

#[test]
fn main_reports_the_bound_addresses() {
    let main = running();
    assert_eq!(main.control_addr(), at(51001));
    assert_eq!(main.inbound_addr(), at(51002));
    assert_eq!(main.outbound_addr(), at(51003));
    assert_eq!(main.metrics_addr(), at(51004));
    assert_eq!(main.phase(), Phase::Running);
    assert_eq!(main.config().inbound_router_capacity, 100);
}

#[test]
fn shutdown_goes_listeners_requests_pool() {
    let mut main = running();
    assert_eq!(main.step(Event::ShutdownSignaled), Action::DrainListeners);
    assert_eq!(main.phase(), Phase::DrainingListeners);
    assert_eq!(main.step(Event::ListenersClosed), Action::AwaitRequests);
    assert_eq!(main.phase(), Phase::DrainingRequests);
    assert_eq!(main.step(Event::RequestsDrained), Action::ShutdownPool);
    assert_eq!(main.phase(), Phase::StoppingPool);
    assert_eq!(main.step(Event::PoolStopped), Action::Exit(0));
    assert_eq!(main.phase(), Phase::Stopped);
    assert_eq!(main.inbound_addr(), at(51002));
}

#[test]
fn events_out_of_turn_change_nothing() {
    let mut main = running();
    assert_eq!(main.step(Event::RequestsDrained), Action::Wait);
    assert_eq!(main.step(Event::PoolStopped), Action::Wait);
    assert_eq!(main.step(Event::ListenersClosed), Action::Wait);
    assert_eq!(main.phase(), Phase::Running);
    main.step(Event::ShutdownSignaled);
    assert_eq!(main.step(Event::ShutdownSignaled), Action::Wait);
    assert_eq!(main.step(Event::RequestsDrained), Action::Wait);
    assert_eq!(main.phase(), Phase::DrainingListeners);
    main.step(Event::ListenersClosed);
    main.step(Event::RequestsDrained);
    main.step(Event::PoolStopped);
    assert_eq!(main.step(Event::ShutdownSignaled), Action::Wait);
    assert_eq!(main.phase(), Phase::Stopped);
}

#[test]
fn exit_code_is_zero_only_after_a_clean_drain() {
    assert_eq!(exit_code(Outcome::CleanDrain), 0);
    assert_eq!(exit_code(Outcome::BindFailure), 1);
}
