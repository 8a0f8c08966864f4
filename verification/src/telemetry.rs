//! Telemetry hooks: the events that a connection's sensor emits, and the
//! lossy channel that carries them to the aggregator.
//!
//! Sensors watch and never steer: no decision of the dataplane depends on
//! them, and an event that finds the channel full is dropped.

use std::collections::VecDeque;
use vstd::prelude::*;

verus! {

/// What is known of the process from its start, for every event to carry.
#[derive(Debug)]
pub struct Process {
    start_time: u64,
    hostname: String,
    version: String,
    pod_namespace: String,
}

/// One telemetry event of a connection. Requests are told apart by a number
/// that the caller gives them.
#[derive(Clone, Copy, Debug, PartialEq, Eq, Structural)]
pub enum Event {
    ConnectionOpen,
    RequestOpen(u64),
    ResponseOpen(u64),
    ResponseEnd(u64),
    RequestEnd(u64),
    ConnectionEnd,
}

/// The sensor of one connection.
pub struct Sensor {
    ended: bool,
    open: Vec<u64>,
    opened_at: Vec<u64>,
    emitted: Ghost<Seq<Event>>,
}

/// A sensor as contracts see it.
pub struct SensorView {
    /// Whether the connection has ended.
    pub ended: bool,
    /// The requests that are open, in the order in which they were opened.
    pub open: Seq<u64>,
    /// When each of them was opened.
    pub opened_at: Seq<u64>,
    /// Every event emitted so far, in order.
    pub emitted: Seq<Event>,
}

/// A bounded queue that drops what does not fit.
pub struct Lossy<T> {
    capacity: usize,
    queue: VecDeque<T>,
    dropped: u64,
}

/// A lossy queue as contracts see it.
pub struct LossyView<T> {
    pub capacity: usize,
    /// What waits to be received, oldest first.
    pub queue: Seq<T>,
    /// How many items were dropped.
    pub dropped: u64,
}

/// Whether the event at `i` is a request's opening that a later event
/// closes: the end of that request, or the end of the connection.
pub open spec fn closed_later(emitted: Seq<Event>, i: int) -> bool {
    exists|j: int|
        i < j < emitted.len() && (#[trigger] emitted[j] == Event::ConnectionEnd || (
        emitted[i] matches Event::RequestOpen(r) && emitted[j] == Event::RequestEnd(r)))
}

impl SensorView {
    /// No request is open twice, each has the time of its opening, none is
    /// open once the connection has ended, and every opening that was emitted is either closed by a later event
    /// or belongs to a request that is still open.
    pub open spec fn wf(self) -> bool {
        &&& self.open.no_duplicates()
        &&& self.opened_at.len() == self.open.len()
        &&& self.ended ==> self.open.len() == 0
        &&& forall|i: int|
            0 <= i < self.emitted.len() ==> (#[trigger] self.emitted[i] matches Event::RequestOpen(
                r,
            ) ==> closed_later(self.emitted, i) || self.open.contains(r))
    }

    /// The sensor after `event` was emitted.
    pub open spec fn emit(self, event: Event) -> SensorView {
        SensorView { emitted: self.emitted.push(event), ..self }
    }

    /// Whether a request can be opened under `id`: the connection goes on
    /// and no open request has that number.
    pub open spec fn can_open(self, id: u64) -> bool {
        !self.ended && !self.open.contains(id)
    }

    /// Whether the request `id` is open.
    pub open spec fn is_open(self, id: u64) -> bool {
        self.open.contains(id)
    }

    /// When the request `id` was opened, if it is open.
    pub open spec fn spec_opened_at(self, id: u64) -> Option<u64> {
        if self.is_open(id) {
            Some(self.opened_at[self.open.index_of(id)])
        } else {
            None
        }
    }

    /// How long the request `id` has been open at `now`, if it is open: the
    /// time since its opening, and nothing where the clock has gone back.
    pub open spec fn spec_latency(self, id: u64, now: u64) -> Option<u64> {
        match self.spec_opened_at(id) {
            Some(at) => if now >= at {
                Some((now - at) as u64)
            } else {
                Some(0)
            },
            None => None,
        }
    }

    /// The sensor after a request was opened under `id` at time `now`, and
    /// the event emitted, if any.
    pub open spec fn spec_request_open(self, id: u64, now: u64) -> (SensorView, Option<Event>) {
        if self.can_open(id) {
            (
                SensorView {
                    open: self.open.push(id),
                    opened_at: self.opened_at.push(now),
                    ..self
                }.emit(Event::RequestOpen(id)),
                Some(Event::RequestOpen(id)),
            )
        } else {
            (self, None)
        }
    }

    /// The sensor after something happened to the response of request `id`,
    /// and the event emitted, if any: `event` where the request is open.
    pub open spec fn spec_observe(self, id: u64, event: Event) -> (SensorView, Option<Event>) {
        if self.is_open(id) {
            (self.emit(event), Some(event))
        } else {
            (self, None)
        }
    }

    /// The sensor after the request `id` ended, and the event emitted, if
    /// any.
    pub open spec fn spec_request_end(self, id: u64) -> (SensorView, Option<Event>) {
        if self.is_open(id) {
            (
                SensorView {
                    open: self.open.remove(self.open.index_of(id)),
                    opened_at: self.opened_at.remove(self.open.index_of(id)),
                    ..self
                }.emit(Event::RequestEnd(id)),
                Some(Event::RequestEnd(id)),
            )
        } else {
            (self, None)
        }
    }

    /// The sensor after the connection ended, and the event emitted, if any.
    pub open spec fn spec_connection_end(self) -> (SensorView, Option<Event>) {
        if self.ended {
            (self, None)
        } else {
            (
                SensorView {
                    ended: true,
                    open: Seq::empty(),
                    opened_at: Seq::empty(),
                    ..self
                }.emit(Event::ConnectionEnd),
                Some(Event::ConnectionEnd),
            )
        }
    }
}

impl View for Sensor {
    type V = SensorView;

    closed spec fn view(&self) -> SensorView {
        SensorView {
            ended: self.ended,
            open: self.open@,
            opened_at: self.opened_at@,
            emitted: self.emitted@,
        }
    }
}

/// An event that was closed stays closed when more is emitted.
pub proof fn lemma_closed_later_grows(emitted: Seq<Event>, event: Event, i: int)
    requires
        0 <= i < emitted.len(),
        closed_later(emitted, i),
    ensures
        closed_later(emitted.push(event), i),
{
    let j = choose|j: int|
        i < j < emitted.len() && (#[trigger] emitted[j] == Event::ConnectionEnd || (
        emitted[i] matches Event::RequestOpen(r) && emitted[j] == Event::RequestEnd(r)));
    let longer = emitted.push(event);
    assert(longer[j] == emitted[j]);
    assert(longer[i] == emitted[i]);
}

/// Opening a request keeps the sensor sound.
pub proof fn lemma_request_open_wf(sensor: SensorView, id: u64, now: u64)
    requires
        sensor.wf(),
    ensures
        sensor.spec_request_open(id, now).0.wf(),
{
    if sensor.can_open(id) {
        let next = sensor.spec_request_open(id, now).0;
        assert(next.open.no_duplicates()) by {
            assert forall|a: int, b: int|
                0 <= a < next.open.len() && 0 <= b < next.open.len() && a != b implies next.open[a]
                != next.open[b] by {
                if a < sensor.open.len() && b < sensor.open.len() {
                } else if a < sensor.open.len() {
                    assert(sensor.open.contains(sensor.open[a]));
                } else {
                    assert(sensor.open.contains(sensor.open[b]));
                }
            }
        }
        assert forall|i: int| 0 <= i < next.emitted.len() implies (
        #[trigger] next.emitted[i] matches Event::RequestOpen(r) ==> closed_later(next.emitted, i)
            || next.open.contains(r)) by {
            if next.emitted[i] is RequestOpen {
                let r = next.emitted[i]->RequestOpen_0;
                if i < sensor.emitted.len() {
                    assert(sensor.emitted[i] == next.emitted[i]);
                    if closed_later(sensor.emitted, i) {
                        lemma_closed_later_grows(sensor.emitted, Event::RequestOpen(id), i);
                    } else {
                        let k = sensor.open.index_of(r);
                        assert(next.open[k] == r);
                    }
                } else {
                    assert(next.open[sensor.open.len() as int] == id);
                }
            }
        }
    }
}

/// Passing on a response event keeps the sensor sound.
pub proof fn lemma_observe_wf(sensor: SensorView, id: u64, event: Event)
    requires
        sensor.wf(),
        !(event is RequestOpen),
    ensures
        sensor.spec_observe(id, event).0.wf(),
{
    if sensor.is_open(id) {
        let next = sensor.spec_observe(id, event).0;
        assert forall|i: int| 0 <= i < next.emitted.len() implies (
        #[trigger] next.emitted[i] matches Event::RequestOpen(r) ==> closed_later(next.emitted, i)
            || next.open.contains(r)) by {
            if next.emitted[i] is RequestOpen {
                assert(i < sensor.emitted.len());
                assert(sensor.emitted[i] == next.emitted[i]);
                if closed_later(sensor.emitted, i) {
                    lemma_closed_later_grows(sensor.emitted, event, i);
                }
            }
        }
    }
}

/// Ending a request keeps the sensor sound.
pub proof fn lemma_request_end_wf(sensor: SensorView, id: u64)
    requires
        sensor.wf(),
    ensures
        sensor.spec_request_end(id).0.wf(),
{
    if sensor.is_open(id) {
        let next = sensor.spec_request_end(id).0;
        let at = sensor.open.index_of(id);
        assert(sensor.open[at] == id);
        assert forall|a: int| 0 <= a < next.open.len() implies #[trigger] next.open[a]
            == sensor.open[if a < at {
            a
        } else {
            a + 1
        }] by {}
        assert(next.open.no_duplicates());
        assert forall|i: int| 0 <= i < next.emitted.len() implies (
        #[trigger] next.emitted[i] matches Event::RequestOpen(r) ==> closed_later(next.emitted, i)
            || next.open.contains(r)) by {
            if next.emitted[i] is RequestOpen {
                let r = next.emitted[i]->RequestOpen_0;
                assert(i < sensor.emitted.len());
                assert(sensor.emitted[i] == next.emitted[i]);
                if closed_later(sensor.emitted, i) {
                    lemma_closed_later_grows(sensor.emitted, Event::RequestEnd(id), i);
                } else if r == id {
                    assert(next.emitted[sensor.emitted.len() as int] == Event::RequestEnd(r));
                } else {
                    let k = sensor.open.index_of(r);
                    assert(sensor.open[k] == r);
                    assert(k != at);
                    let moved = if k < at {
                        k
                    } else {
                        k - 1
                    };
                    assert(next.open[moved] == r);
                }
            }
        }
    }
}

/// Ending the connection keeps the sensor sound.
pub proof fn lemma_connection_end_wf(sensor: SensorView)
    requires
        sensor.wf(),
    ensures
        sensor.spec_connection_end().0.wf(),
{
    if !sensor.ended {
        let next = sensor.spec_connection_end().0;
        assert forall|i: int| 0 <= i < next.emitted.len() implies (
        #[trigger] next.emitted[i] matches Event::RequestOpen(r) ==> closed_later(next.emitted, i)
            || next.open.contains(r)) by {
            if next.emitted[i] is RequestOpen {
                assert(i < sensor.emitted.len());
                assert(next.emitted[sensor.emitted.len() as int] == Event::ConnectionEnd);
            }
        }
    }
}

/// Once the connection has ended, every opening of a request that the
/// sensor emitted is followed by the end of that request or by the end of
/// the connection.
pub proof fn law_every_open_is_closed(sensor: SensorView)
    requires
        sensor.wf(),
        sensor.ended,
    ensures
        forall|i: int|
            0 <= i < sensor.emitted.len() && (#[trigger] sensor.emitted[i]) is RequestOpen
                ==> closed_later(sensor.emitted, i),
{
    assert forall|i: int|
        0 <= i < sensor.emitted.len() && (#[trigger] sensor.emitted[i]) is RequestOpen implies closed_later(
        sensor.emitted,
        i,
    ) by {
        let r = sensor.emitted[i]->RequestOpen_0;
        assert(!sensor.open.contains(r));
    }
}

impl Process {
    /// When the process started.
    pub closed spec fn spec_start_time(&self) -> u64 {
        self.start_time
    }

    /// The host's name.
    pub closed spec fn spec_hostname(&self) -> Seq<char> {
        self.hostname@
    }

    /// The version of the software.
    pub closed spec fn spec_version(&self) -> Seq<char> {
        self.version@
    }

    /// The namespace of the pod.
    pub closed spec fn spec_pod_namespace(&self) -> Seq<char> {
        self.pod_namespace@
    }

    /// Takes the snapshot. Nothing changes it afterwards.
    pub fn new(start_time: u64, hostname: String, version: String, pod_namespace: String) -> (process:
        Process)
        ensures
            process.spec_start_time() == start_time,
            process.spec_hostname() == hostname@,
            process.spec_version() == version@,
            process.spec_pod_namespace() == pod_namespace@,
    {
        Process { start_time, hostname, version, pod_namespace }
    }

    /// When the process started.
    pub fn start_time(&self) -> (start_time: u64)
        ensures
            start_time == self.spec_start_time(),
    {
        self.start_time
    }

    /// The host's name.
    pub fn hostname(&self) -> (hostname: &str)
        ensures
            hostname@ == self.spec_hostname(),
    {
        self.hostname.as_str()
    }

    /// The version of the software.
    pub fn version(&self) -> (version: &str)
        ensures
            version@ == self.spec_version(),
    {
        self.version.as_str()
    }

    /// The namespace of the pod.
    pub fn pod_namespace(&self) -> (pod_namespace: &str)
        ensures
            pod_namespace@ == self.spec_pod_namespace(),
    {
        self.pod_namespace.as_str()
    }
}

impl Sensor {
    /// The sensor of a connection that has just opened: that is the one
    /// event emitted so far.
    pub fn new() -> (sensor: Sensor)
        ensures
            sensor@ == (SensorView {
                ended: false,
                open: Seq::<u64>::empty(),
                opened_at: Seq::<u64>::empty(),
                emitted: seq![Event::ConnectionOpen],
            }),
            sensor@.wf(),
    {
        let emitted: Ghost<Seq<Event>> = Ghost(Seq::empty().push(Event::ConnectionOpen));
        assert(emitted@ =~= seq![Event::ConnectionOpen]);
        Sensor { ended: false, open: Vec::new(), opened_at: Vec::new(), emitted }
    }

    /// How many requests are open.
    pub fn open_requests(&self) -> (open: usize)
        ensures
            open == self@.open.len(),
    {
        self.open.len()
    }

    /// Whether the connection has ended.
    pub fn has_ended(&self) -> (ended: bool)
        ensures
            ended == self@.ended,
    {
        self.ended
    }

    fn find(&self, id: u64) -> (found: Option<usize>)
        requires
            self@.wf(),
        ensures
            match found {
                Some(i) => i < self.open.len() && self@.open.contains(id) && self@.open.index_of(id)
                    == i,
                None => !self@.open.contains(id),
            },
    {
        let mut i: usize = 0;
        while i < self.open.len()
            invariant
                i <= self.open.len(),
                self@.wf(),
                forall|k: int| 0 <= k < i ==> self.open@[k] != id,
            decreases self.open.len() - i,
        {
            if self.open[i] == id {
                proof {
                    let at = self@.open.index_of(id);
                    assert(self@.open[i as int] == id);
                    assert(self@.open.contains(id));
                    assert(self@.open[at] == id);
                }
                return Some(i);
            }
            i += 1;
        }
        None
    }

    /// When the request `id` was opened, if it is open.
    pub fn opened_at(&self, id: u64) -> (at: Option<u64>)
        requires
            self@.wf(),
        ensures
            at == self@.spec_opened_at(id),
    {
        match self.find(id) {
            Some(i) => Some(self.opened_at[i]),
            None => None,
        }
    }

    /// How long the request `id` has been open at `now`, if it is open.
    pub fn latency(&self, id: u64, now: u64) -> (latency: Option<u64>)
        requires
            self@.wf(),
        ensures
            latency == self@.spec_latency(id, now),
    {
        match self.opened_at(id) {
            Some(at) => if now >= at {
                Some(now - at)
            } else {
                Some(0)
            },
            None => None,
        }
    }

    /// A request opened under `id` at time `now`. The event is emitted
    /// unless the connection has ended or a request is already open under
    /// that number.
    pub fn request_open(&mut self, id: u64, now: u64) -> (event: Option<Event>)
        requires
            old(self)@.wf(),
        ensures
            final(self)@.wf(),
            final(self)@ == old(self)@.spec_request_open(id, now).0,
            event == old(self)@.spec_request_open(id, now).1,
    {
        proof {
            lemma_request_open_wf(self@, id, now);
        }
        if self.ended || self.find(id).is_some() {
            return None;
        }
        self.open.push(id);
        self.opened_at.push(now);
        proof {
            self.emitted@ = self.emitted@.push(Event::RequestOpen(id));
        }
        Some(Event::RequestOpen(id))
    }

    /// The response to request `id` began. The event is emitted if the
    /// request is open.
    pub fn response_open(&mut self, id: u64) -> (event: Option<Event>)
        requires
            old(self)@.wf(),
        ensures
            final(self)@.wf(),
            final(self)@ == old(self)@.spec_observe(id, Event::ResponseOpen(id)).0,
            event == old(self)@.spec_observe(id, Event::ResponseOpen(id)).1,
    {
        proof {
            lemma_observe_wf(self@, id, Event::ResponseOpen(id));
        }
        if self.find(id).is_none() {
            return None;
        }
        proof {
            self.emitted@ = self.emitted@.push(Event::ResponseOpen(id));
        }
        Some(Event::ResponseOpen(id))
    }

    /// The body of the response to request `id` came to its end. The event
    /// is emitted if the request is open.
    pub fn response_end(&mut self, id: u64) -> (event: Option<Event>)
        requires
            old(self)@.wf(),
        ensures
            final(self)@.wf(),
            final(self)@ == old(self)@.spec_observe(id, Event::ResponseEnd(id)).0,
            event == old(self)@.spec_observe(id, Event::ResponseEnd(id)).1,
    {
        proof {
            lemma_observe_wf(self@, id, Event::ResponseEnd(id));
        }
        if self.find(id).is_none() {
            return None;
        }
        proof {
            self.emitted@ = self.emitted@.push(Event::ResponseEnd(id));
        }
        Some(Event::ResponseEnd(id))
    }

    /// The request `id` ended. The event is emitted if the request is open,
    /// and the request is open no longer.
    pub fn request_end(&mut self, id: u64) -> (event: Option<Event>)
        requires
            old(self)@.wf(),
        ensures
            final(self)@.wf(),
            final(self)@ == old(self)@.spec_request_end(id).0,
            event == old(self)@.spec_request_end(id).1,
    {
        proof {
            lemma_request_end_wf(self@, id);
        }
        match self.find(id) {
            Some(i) => {
                let _ = self.open.remove(i);
                let _ = self.opened_at.remove(i);
                proof {
                    self.emitted@ = self.emitted@.push(Event::RequestEnd(id));
                }
                Some(Event::RequestEnd(id))
            },
            None => None,
        }
    }

    /// The connection ended, and with it every request still open on it.
    /// The event is emitted once.
    pub fn connection_end(&mut self) -> (event: Option<Event>)
        requires
            old(self)@.wf(),
        ensures
            final(self)@.wf(),
            final(self)@ == old(self)@.spec_connection_end().0,
            event == old(self)@.spec_connection_end().1,
    {
        proof {
            lemma_connection_end_wf(self@);
        }
        if self.ended {
            return None;
        }
        self.ended = true;
        self.open.clear();
        self.opened_at.clear();
        proof {
            self.emitted@ = self.emitted@.push(Event::ConnectionEnd);
        }
        Some(Event::ConnectionEnd)
    }
}

impl<T> LossyView<T> {
    /// No more waits than the queue may hold.
    pub open spec fn wf(self) -> bool {
        self.queue.len() <= self.capacity
    }

    /// The number of drops after one more, as far as a machine word counts.
    pub open spec fn one_more_dropped(self) -> u64 {
        if self.dropped < u64::MAX {
            (self.dropped + 1) as u64
        } else {
            self.dropped
        }
    }

    /// The queue after `item` was sent: at the back if there is room, else
    /// dropped and counted.
    pub open spec fn spec_send(self, item: T) -> LossyView<T> {
        if self.queue.len() < self.capacity {
            LossyView { queue: self.queue.push(item), ..self }
        } else {
            LossyView { dropped: self.one_more_dropped(), ..self }
        }
    }

    /// The queue after its oldest item was received.
    pub open spec fn spec_recv(self) -> LossyView<T> {
        if self.queue.len() > 0 {
            LossyView { queue: self.queue.subrange(1, self.queue.len() as int), ..self }
        } else {
            self
        }
    }
}

impl<T> View for Lossy<T> {
    type V = LossyView<T>;

    closed spec fn view(&self) -> LossyView<T> {
        LossyView { capacity: self.capacity, queue: self.queue@, dropped: self.dropped }
    }
}

impl<T> Lossy<T> {
    /// An empty queue that holds at most `capacity` items.
    pub fn new(capacity: usize) -> (queue: Lossy<T>)
        ensures
            queue@ == (LossyView { capacity, queue: Seq::<T>::empty(), dropped: 0 }),
            queue@.wf(),
    {
        Lossy { capacity, queue: VecDeque::new(), dropped: 0 }
    }

    /// How many items wait.
    pub fn len(&self) -> (len: usize)
        ensures
            len == self@.queue.len(),
    {
        self.queue.len()
    }

    /// How many items were dropped.
    pub fn dropped(&self) -> (dropped: u64)
        ensures
            dropped == self@.dropped,
    {
        self.dropped
    }

    /// Sends `item`. A full queue drops it, counts the drop, and hands the
    /// item back; what waits in the queue is never dropped for a newer item.
    pub fn try_send(&mut self, item: T) -> (sent: Result<(), T>)
        requires
            old(self)@.wf(),
        ensures
            final(self)@.wf(),
            final(self)@ == old(self)@.spec_send(item),
            sent is Ok <==> old(self)@.queue.len() < old(self)@.capacity,
            sent is Err ==> sent->Err_0 == item,
    {
        if self.queue.len() < self.capacity {
            self.queue.push_back(item);
            Ok(())
        } else {
            if self.dropped < u64::MAX {
                self.dropped = self.dropped + 1;
            }
            Err(item)
        }
    }

    /// Receives the oldest item, if any waits.
    pub fn recv(&mut self) -> (item: Option<T>)
        requires
            old(self)@.wf(),
        ensures
            final(self)@.wf(),
            final(self)@ == old(self)@.spec_recv(),
            item == (if old(self)@.queue.len() > 0 {
                Some(old(self)@.queue[0])
            } else {
                None
            }),
    {
        self.queue.pop_front()
    }
}

/// What is sent into a queue with room comes out after all that waited
/// before it, and nothing is lost on the way.
pub proof fn law_lossy_is_fifo<T>(queue: LossyView<T>, item: T)
    requires
        queue.wf(),
        queue.queue.len() < queue.capacity,
    ensures
        queue.spec_send(item).queue == queue.queue.push(item),
        queue.spec_send(item).dropped == queue.dropped,
        queue.queue.len() > 0 ==> queue.spec_send(item).spec_recv().queue == queue.spec_recv().queue.push(
            item,
        ),
{
    if queue.queue.len() > 0 {
        assert(queue.spec_send(item).spec_recv().queue =~= queue.spec_recv().queue.push(item));
    }
}

/// A full queue keeps what it holds and drops the newcomer.
pub proof fn law_lossy_drops_newest<T>(queue: LossyView<T>, item: T)
    requires
        queue.wf(),
        queue.queue.len() == queue.capacity,
    ensures
        queue.spec_send(item).queue == queue.queue,
        queue.dropped < u64::MAX ==> queue.spec_send(item).dropped == queue.dropped + 1,
{
}

/// A request's latency is counted from its opening: right after a request
/// was opened at some time, its latency at a later time is the time between
/// the two.
pub proof fn law_latency_counts_from_opening(sensor: SensorView, id: u64, opened: u64, now: u64)
    requires
        sensor.wf(),
        sensor.can_open(id),
        now >= opened,
    ensures
        sensor.spec_request_open(id, opened).0.spec_opened_at(id) == Some(opened),
        sensor.spec_request_open(id, opened).0.spec_latency(id, now) == Some((now - opened) as u64),
{
    let next = sensor.spec_request_open(id, opened).0;
    lemma_request_open_wf(sensor, id, opened);
    let last = sensor.open.len() as int;
    assert(next.open[last] == id);
    assert(next.open.contains(id));
    let at = next.open.index_of(id);
    assert(next.open[at] == id);
    assert(at == last);
}

} // verus!
