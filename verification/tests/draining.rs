use conduit_proxy::drain::{Latch, Watched};
use conduit_proxy::listener::{
    on_accept_error, parse_raw, AcceptAction, AcceptFault, Cancelable, PollStep,
    ACCEPT_BACKOFF_MS,
};
use conduit_proxy::addr::{IpAddress, SocketAddress};

#[test]
fn open_latch_grants_watches() {
    let mut latch = Latch::new();
    assert!(!latch.is_draining());
    assert!(latch.watch());
    assert!(latch.watch());
    assert_eq!(latch.watchers(), 2);
    assert!(!latch.is_resolved());
}

#[test]
fn draining_latch_grants_no_watch() {
    let mut latch = Latch::new();
    assert!(latch.watch());
    assert!(!latch.drain());
    assert!(latch.is_draining());
    assert!(!latch.watch());
    assert_eq!(latch.watchers(), 1);
}

#[test]
fn drain_resolves_when_last_watch_is_back() {
    let mut latch = Latch::new();
    assert!(latch.watch());
    assert!(latch.watch());
    assert!(!latch.release());
    assert!(!latch.drain());
    assert!(!latch.is_resolved());
    assert!(latch.release());
    assert!(latch.is_resolved());
    assert_eq!(latch.watchers(), 0);
}

#[test]
fn drain_with_nothing_out_resolves_at_once() {
    let mut latch = Latch::new();
    assert!(latch.drain());
    assert!(latch.is_resolved());
}

#[test]
fn release_before_drain_does_not_resolve() {
    let mut latch = Latch::new();
    assert!(latch.watch());
    assert!(!latch.release());
    assert!(!latch.is_resolved());
    assert!(!latch.release());
    assert_eq!(latch.watchers(), 0);
}

#[test]
fn drain_twice_is_drain_once() {
    let mut latch = Latch::new();
    latch.watch();
    let first = latch.drain();
    let second = latch.drain();
    assert_eq!(first, second);
    assert!(latch.is_draining());
    assert_eq!(latch.watchers(), 1);
    latch.release();
    assert!(latch.drain());
    assert!(latch.drain());
}

#[test]
fn drain_hook_runs_once() {
    let mut w = Watched::new();
    assert!(!w.poll(false));
    assert!(!w.poll(false));
    assert!(w.poll(true));
    assert!(!w.poll(true));
    assert!(!w.poll(false));
    assert!(w.notified);
}

#[test]
fn cancelled_accept_loop_is_ready() {
    let mut c = Cancelable::new();
    assert_eq!(c.poll(), PollStep::Inner);
    c.cancel();
    assert_eq!(c.poll(), PollStep::Ready);
    c.cancel();
    assert_eq!(c.poll(), PollStep::Ready);
}

#[test]
fn watch_hook_cancels_the_accept_loop_on_drain() {
    let mut latch = Latch::new();
    let mut watched = Watched::new();
    let mut accept = Cancelable::new();
    assert!(latch.watch());
    if watched.poll(latch.is_draining()) {
        accept.cancel();
    }
    assert_eq!(accept.poll(), PollStep::Inner);
    latch.drain();
    if watched.poll(latch.is_draining()) {
        accept.cancel();
    }
    assert_eq!(accept.poll(), PollStep::Ready);
    assert!(!latch.watch());
    assert!(latch.release());
}

#[test]
fn accept_backs_off_when_descriptors_run_out() {
    assert_eq!(ACCEPT_BACKOFF_MS, 1000);
    assert_eq!(
        on_accept_error(AcceptFault::ProcessFilesExhausted),
        AcceptAction::Backoff(1000)
    );
    assert_eq!(
        on_accept_error(AcceptFault::SystemFilesExhausted),
        AcceptAction::Backoff(1000)
    );
    assert_eq!(on_accept_error(AcceptFault::Other), AcceptAction::Retry);
}

#[test]
fn raw_ipv4_address_is_read() {
    let raw = [2u8, 0, 0x1f, 0x90, 10, 0, 0, 2, 0, 0, 0, 0, 0, 0, 0, 0];
    assert_eq!(
        parse_raw(2, &raw),
        Some(SocketAddress { ip: IpAddress::V4(0x0a00_0002), port: 8080 })
    );
}

#[test]
fn raw_ipv6_address_is_read() {
    let mut raw = [0u8; 28];
    raw[0] = 10;
    raw[2] = 0x01;
    raw[3] = 0xbb;
    raw[8] = 0x20;
    raw[9] = 0x01;
    raw[10] = 0x0d;
    raw[11] = 0xb8;
    raw[23] = 0x01;
    raw[24] = 7;
    assert_eq!(
        parse_raw(10, &raw),
        Some(SocketAddress {
            ip: IpAddress::V6(0x2001_0db8_0000_0000_0000_0000_0000_0001),
            port: 443,
        })
    );
}

#[test]
fn raw_address_of_wrong_size_or_family_is_refused() {
    assert_eq!(parse_raw(2, &[0u8; 28]), None);
    assert_eq!(parse_raw(10, &[0u8; 16]), None);
    assert_eq!(parse_raw(1, &[0u8; 16]), None);
    assert_eq!(parse_raw(2, &[0u8; 15]), None);
    assert_eq!(parse_raw(2, &[]), None);
}
