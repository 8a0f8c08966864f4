use conduit_proxy::addr::{IpAddress, SocketAddress};
use conduit_proxy::key::Direction;
use conduit_proxy::listener::{AcceptAction, AcceptFault};
use conduit_proxy::protocol::Protocol;
use conduit_proxy::server::{natural_limit, on_drain, plan_for, Connection, DrainStep, Plan};
use conduit_proxy::status::{
    dispose, reason, status_of, timeout_status, Disposition, ErrorKind, InnerError, RouteError,
    TimeoutKind,
};
use indexmap::IndexSet;

fn sock(last: u8, port: u16) -> SocketAddress {
    SocketAddress { ip: IpAddress::V4(0x0a00_0000 + last as u32), port }
}

fn conn(original_dst: Option<SocketAddress>, prefix: &[u8]) -> Connection {
    Connection {
        local: sock(1, 4140),
        remote: sock(9, 50_000),
        original_dst,
        direction: Direction::Outbound,
        prefix: prefix.to_vec(),
    }
}

#[test]
fn dispatch_errors_become_500_or_503() {
    assert_eq!(status_of(RouteError::NotRecognized), 500);
    assert_eq!(status_of(RouteError::Route), 500);
    assert_eq!(status_of(RouteError::Inner(InnerError::DiscoveryNotFound)), 500);
    assert_eq!(status_of(RouteError::Inner(InnerError::ServiceGone)), 500);
    assert_eq!(status_of(RouteError::Inner(InnerError::UpstreamConnect)), 500);
    assert_eq!(status_of(RouteError::NoCapacity(0)), 503);
    assert_eq!(status_of(RouteError::NoCapacity(100)), 503);
}

#[test]
fn timeouts_become_504_or_408() {
    assert_eq!(timeout_status(TimeoutKind::UpstreamWait), 504);
    assert_eq!(timeout_status(TimeoutKind::RequestRead), 408);
}

#[test]
fn every_kind_of_failure_has_its_disposition() {
    assert_eq!(dispose(ErrorKind::BindFailure), Disposition::Fatal);
    assert_eq!(
        dispose(ErrorKind::AcceptTransient(AcceptFault::Other)),
        Disposition::Continue(AcceptAction::Retry)
    );
    assert_eq!(
        dispose(ErrorKind::AcceptTransient(AcceptFault::ProcessFilesExhausted)),
        Disposition::Continue(AcceptAction::Backoff(1000))
    );
    assert_eq!(
        dispose(ErrorKind::AcceptTransient(AcceptFault::SystemFilesExhausted)),
        Disposition::Continue(AcceptAction::Backoff(1000))
    );
    assert_eq!(dispose(ErrorKind::ProtocolDetectTimeout), Disposition::TreatAsOpaque);
    assert_eq!(dispose(ErrorKind::NotRecognized), Disposition::Respond(500));
    assert_eq!(dispose(ErrorKind::NoCapacity(2)), Disposition::Respond(503));
    assert_eq!(dispose(ErrorKind::UpstreamConnect), Disposition::Reconnect);
    assert_eq!(dispose(ErrorKind::DiscoveryNotFound), Disposition::Respond(500));
    assert_eq!(dispose(ErrorKind::Timeout(TimeoutKind::UpstreamWait)), Disposition::Respond(504));
    assert_eq!(dispose(ErrorKind::Timeout(TimeoutKind::RequestRead)), Disposition::Respond(408));
    assert_eq!(dispose(ErrorKind::DrainSignaled), Disposition::Shutdown);
}

#[test]
fn reasons_name_the_failure() {
    assert_eq!(
        reason(RouteError::Inner(InnerError::DiscoveryNotFound)),
        "destination does not exist"
    );
    assert_eq!(reason(RouteError::NotRecognized), "request not recognized");
    assert_eq!(reason(RouteError::NoCapacity(3)), "router at capacity");
    assert_eq!(reason(RouteError::Route), "route could not be built");
    assert_eq!(reason(RouteError::Inner(InnerError::ServiceGone)), "service gone");
    assert_eq!(reason(RouteError::Inner(InnerError::UpstreamConnect)), "upstream connect failed");
}

#[test]
fn http_connections_are_routed() {
    let none = IndexSet::new();
    let c = conn(Some(sock(2, 80)), b"GET / HTTP/1.1\r\nHost: app\r\n\r\n");
    assert_eq!(c.plan(&none, false), Plan::Http1);
    let c = conn(None, b"PRI * HTTP/2.0\r\n\r\nSM\r\n\r\n");
    assert_eq!(c.plan(&none, false), Plan::Http2);
}

#[test]
fn opaque_connections_are_tunnelled_to_their_destination() {
    let none = IndexSet::new();
    let c = conn(Some(sock(2, 5432)), &[0, 0, 0, 8, 4, 210, 22, 47]);
    assert_eq!(c.plan(&none, true), Plan::Tunnel(sock(2, 5432)));
    let c = conn(None, &[0, 0, 0, 8, 4, 210, 22, 47]);
    assert_eq!(c.plan(&none, true), Plan::Reset);
    let c = conn(Some(sock(1, 4140)), &[0, 0, 0, 8, 4, 210, 22, 47]);
    assert_eq!(c.plan(&none, true), Plan::Reset);
}

#[test]
fn exemption_goes_by_the_port_of_the_original_destination() {
    let mut ports = IndexSet::new();
    ports.insert(9000u16);
    let bytes = b"GET / HTTP/1.1\r\nHost: app\r\n\r\n";
    assert_eq!(conn(Some(sock(2, 9000)), bytes).plan(&ports, false), Plan::Tunnel(sock(2, 9000)));
    assert_eq!(conn(Some(sock(2, 9001)), bytes).plan(&ports, false), Plan::Http1);
    assert_eq!(conn(None, bytes).plan(&ports, false), Plan::Http1);
}

#[test]
fn plan_follows_the_protocol() {
    let local = sock(1, 4140);
    assert_eq!(plan_for(Protocol::Http1, local, None), Plan::Http1);
    assert_eq!(plan_for(Protocol::Http2, local, Some(local)), Plan::Http2);
    assert_eq!(plan_for(Protocol::Opaque, local, Some(sock(3, 1))), Plan::Tunnel(sock(3, 1)));
    assert_eq!(plan_for(Protocol::Opaque, local, Some(local)), Plan::Reset);
    assert_eq!(plan_for(Protocol::Opaque, local, None), Plan::Reset);
}

#[test]
fn drain_winds_each_protocol_down_in_its_own_way() {
    assert_eq!(on_drain(Plan::Http2, false), DrainStep::GoAway);
    assert_eq!(on_drain(Plan::Http2, true), DrainStep::CancelStreams);
    assert_eq!(on_drain(Plan::Http1, false), DrainStep::FinishCurrent);
    assert_eq!(on_drain(Plan::Http1, true), DrainStep::HalfClose);
    assert_eq!(on_drain(Plan::Tunnel(sock(2, 1)), false), DrainStep::Continue);
    assert_eq!(on_drain(Plan::Tunnel(sock(2, 1)), true), DrainStep::HalfClose);
    assert_eq!(on_drain(Plan::Reset, false), DrainStep::HalfClose);
}

#[test]
fn natural_limit_of_each_protocol() {
    assert_eq!(natural_limit(Plan::Http1, 100), Some(1));
    assert_eq!(natural_limit(Plan::Http2, 100), Some(100));
    assert_eq!(natural_limit(Plan::Tunnel(sock(2, 1)), 100), None);
    assert_eq!(natural_limit(Plan::Reset, 100), None);
}
