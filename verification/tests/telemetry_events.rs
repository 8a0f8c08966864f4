use conduit_proxy::telemetry::{Event, Lossy, Process, Sensor};

#[test]
fn process_snapshot_keeps_what_it_was_given() {
    let p = Process::new(1_526_000_000, "host-1".to_string(), "v0.4.1".to_string(), "prod".to_string());
    assert_eq!(p.start_time(), 1_526_000_000);
    assert_eq!(p.hostname(), "host-1");
    assert_eq!(p.version(), "v0.4.1");
    assert_eq!(p.pod_namespace(), "prod");
}

#[test]
fn request_events_come_in_pairs() {
    let mut s = Sensor::new();
    assert_eq!(s.request_open(1, 100), Some(Event::RequestOpen(1)));
    assert_eq!(s.response_open(1), Some(Event::ResponseOpen(1)));
    assert_eq!(s.response_end(1), Some(Event::ResponseEnd(1)));
    assert_eq!(s.request_end(1), Some(Event::RequestEnd(1)));
    assert_eq!(s.open_requests(), 0);
    assert_eq!(s.request_end(1), None);
}

#[test]
fn a_request_is_not_opened_twice() {
    let mut s = Sensor::new();
    assert_eq!(s.request_open(7, 5), Some(Event::RequestOpen(7)));
    assert_eq!(s.request_open(7, 6), None);
    assert_eq!(s.open_requests(), 1);
    assert_eq!(s.request_end(7), Some(Event::RequestEnd(7)));
    assert_eq!(s.request_open(7, 9), Some(Event::RequestOpen(7)));
    assert_eq!(s.opened_at(7), Some(9));
}

#[test]
fn events_of_unknown_requests_are_not_emitted() {
    let mut s = Sensor::new();
    assert_eq!(s.response_open(3), None);
    assert_eq!(s.response_end(3), None);
    assert_eq!(s.request_end(3), None);
}

#[test]
fn connection_end_closes_open_requests() {
    let mut s = Sensor::new();
    s.request_open(1, 0);
    s.request_open(2, 0);
    s.request_end(1);
    assert_eq!(s.open_requests(), 1);
    assert_eq!(s.connection_end(), Some(Event::ConnectionEnd));
    assert!(s.has_ended());
    assert_eq!(s.open_requests(), 0);
    assert_eq!(s.request_end(2), None);
    assert_eq!(s.request_open(3, 0), None);
    assert_eq!(s.connection_end(), None);
}

#[test]
fn every_open_is_followed_by_an_end() {
    let mut s = Sensor::new();
    let mut trace = vec![Event::ConnectionOpen];
    let steps: [(u8, u64); 9] =
        [(0, 1), (0, 2), (1, 1), (0, 3), (0, 1), (1, 9), (1, 3), (0, 4), (2, 0)];
    for (what, id) in steps {
        let event = match what {
            0 => s.request_open(id, 0),
            1 => s.request_end(id),
            _ => s.connection_end(),
        };
        if let Some(e) = event {
            trace.push(e);
        }
    }
    for (i, e) in trace.iter().enumerate() {
        if let Event::RequestOpen(r) = e {
            let closed = trace[i + 1..]
                .iter()
                .any(|later| *later == Event::RequestEnd(*r) || *later == Event::ConnectionEnd);
            assert!(closed, "request {} was left open", r);
        }
    }
}

#[test]
fn lossy_queue_is_first_in_first_out() {
    let mut q: Lossy<u32> = Lossy::new(3);
    assert_eq!(q.try_send(1), Ok(()));
    assert_eq!(q.try_send(2), Ok(()));
    assert_eq!(q.try_send(3), Ok(()));
    assert_eq!(q.len(), 3);
    assert_eq!(q.recv(), Some(1));
    assert_eq!(q.recv(), Some(2));
    assert_eq!(q.try_send(4), Ok(()));
    assert_eq!(q.recv(), Some(3));
    assert_eq!(q.recv(), Some(4));
    assert_eq!(q.recv(), None);
    assert_eq!(q.dropped(), 0);
}

#[test]
fn full_lossy_queue_drops_the_newest() {
    let mut q: Lossy<&str> = Lossy::new(2);
    assert_eq!(q.try_send("a"), Ok(()));
    assert_eq!(q.try_send("b"), Ok(()));
    assert_eq!(q.try_send("c"), Err("c"));
    assert_eq!(q.try_send("d"), Err("d"));
    assert_eq!(q.dropped(), 2);
    assert_eq!(q.len(), 2);
    assert_eq!(q.recv(), Some("a"));
    assert_eq!(q.try_send("e"), Ok(()));
    assert_eq!(q.recv(), Some("b"));
    assert_eq!(q.recv(), Some("e"));
    assert_eq!(q.dropped(), 2);
}

#[test]
fn lossy_queue_without_room_drops_everything() {
    let mut q: Lossy<u8> = Lossy::new(0);
    assert_eq!(q.try_send(1), Err(1));
    assert_eq!(q.dropped(), 1);
    assert_eq!(q.recv(), None);
}

#[test]
fn latency_counts_from_the_opening() {
    let mut s = Sensor::new();
    s.request_open(1, 1_000);
    s.request_open(2, 1_500);
    assert_eq!(s.opened_at(1), Some(1_000));
    assert_eq!(s.opened_at(2), Some(1_500));
    assert_eq!(s.opened_at(3), None);
    assert_eq!(s.latency(1, 1_750), Some(750));
    assert_eq!(s.latency(2, 1_750), Some(250));
    assert_eq!(s.latency(2, 1_500), Some(0));
    assert_eq!(s.latency(2, 1_000), Some(0));
    assert_eq!(s.latency(3, 2_000), None);
    s.request_end(1);
    assert_eq!(s.latency(1, 2_000), None);
    assert_eq!(s.latency(2, 2_000), Some(500));
    s.connection_end();
    assert_eq!(s.latency(2, 2_000), None);
}
