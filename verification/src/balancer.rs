//! The load balancer of one service: the endpoints that discovery reported,
//! and the choice of one of them for each request.

use crate::addr::SocketAddress;
use crate::backoff::{Next, Readiness, Reconnect, JITTER_PERCENT};
use crate::chance::random_below;
use crate::status::{InnerError, RouteError};
use vstd::prelude::*;

verus! {

/// What discovery said of the name.
#[derive(Clone, Copy, Debug, PartialEq, Eq, Structural)]
pub enum Resolution {
    /// Nothing yet.
    Unknown,
    /// The name exists.
    Exists,
    /// The name does not exist; learned at the given time.
    NotFound(u64),
}

/// What comes with an endpoint.
#[derive(Debug)]
pub struct Metadata {
    pub weight: u32,
    pub labels: Vec<u8>,
}

/// One message of a discovery subscription.
#[derive(Debug)]
pub enum Update {
    Add(SocketAddress, Metadata),
    Remove(SocketAddress),
    DoesNotExist,
    NoEndpoints,
    Exists,
}

/// One endpoint of a service.
#[derive(Debug)]
pub struct Endpoint {
    pub addr: SocketAddress,
    pub weight: u32,
    pub labels: Vec<u8>,
    /// Requests sent to it and not yet completed.
    pub pending: usize,
    /// The current estimate of its round-trip time.
    pub rtt: u64,
    /// The state of the connection to it.
    pub link: Reconnect,
}

/// Why no endpoint was chosen.
#[derive(Clone, Copy, Debug, PartialEq, Eq, Structural)]
pub enum Unavailable {
    /// Discovery reported that the name does not exist.
    DoesNotExist,
    /// No endpoint is ready: the request has to wait.
    NotReady,
}

/// The load balancer of one service.
#[derive(Debug)]
pub struct Balancer {
    resolution: Resolution,
    resync: bool,
    fail_after: u32,
    endpoints: Vec<Endpoint>,
}

/// An update as contracts see it.
pub enum UpdateView {
    Add(SocketAddress, u32, Seq<u8>),
    Remove(SocketAddress),
    DoesNotExist,
    NoEndpoints,
    Exists,
}

/// An endpoint as contracts see it.
pub struct EndpointView {
    pub addr: SocketAddress,
    pub weight: u32,
    pub labels: Seq<u8>,
    pub pending: usize,
    pub rtt: u64,
    pub link: Reconnect,
}

/// A balancer as contracts see it.
pub struct BalancerView {
    pub resolution: Resolution,
    /// At which failure in a row at the longest wait an endpoint is given
    /// up.
    pub fail_after: u32,
    /// Whether the subscription was lost: the endpoints are then kept until
    /// the next update, which starts the set afresh.
    pub resync: bool,
    pub endpoints: Seq<EndpointView>,
}

impl View for Update {
    type V = UpdateView;

    open spec fn view(&self) -> UpdateView {
        match *self {
            Update::Add(addr, meta) => UpdateView::Add(addr, meta.weight, meta.labels@),
            Update::Remove(addr) => UpdateView::Remove(addr),
            Update::DoesNotExist => UpdateView::DoesNotExist,
            Update::NoEndpoints => UpdateView::NoEndpoints,
            Update::Exists => UpdateView::Exists,
        }
    }
}

impl View for Endpoint {
    type V = EndpointView;

    open spec fn view(&self) -> EndpointView {
        EndpointView {
            addr: self.addr,
            weight: self.weight,
            labels: self.labels@,
            pending: self.pending,
            rtt: self.rtt,
            link: self.link,
        }
    }
}

impl View for Balancer {
    type V = BalancerView;

    closed spec fn view(&self) -> BalancerView {
        BalancerView {
            resolution: self.resolution,
            fail_after: self.fail_after,
            resync: self.resync,
            endpoints: self.endpoints@.map_values(|e: Endpoint| e@),
        }
    }
}

impl Unavailable {
    /// The error that fails the request, if the request is not to wait: a
    /// name that does not exist fails it; endpoints that are not ready do
    /// not.
    pub open spec fn spec_error(self) -> Option<RouteError> {
        match self {
            Unavailable::DoesNotExist => Some(RouteError::Inner(InnerError::DiscoveryNotFound)),
            Unavailable::NotReady => None,
        }
    }

    /// The error that fails the request, if the request is not to wait.
    pub fn error(self) -> (error: Option<RouteError>)
        ensures
            error == self.spec_error(),
    {
        match self {
            Unavailable::DoesNotExist => Some(RouteError::Inner(InnerError::DiscoveryNotFound)),
            Unavailable::NotReady => None,
        }
    }
}

impl EndpointView {
    /// Whether the endpoint can take a request, as its connection stands.
    pub open spec fn state(self) -> Readiness {
        self.link.spec_readiness()
    }

    /// Whether the endpoint can be chosen: it is ready, and its count of
    /// pending requests has room for one more.
    pub open spec fn available(self) -> bool {
        self.state() is Ready && self.pending < usize::MAX
    }
}

/// Whether endpoint `i` has address `addr`.
pub open spec fn is_at(endpoints: Seq<EndpointView>, addr: SocketAddress, i: int) -> bool {
    0 <= i < endpoints.len() && endpoints[i].addr == addr
}

/// Where in `endpoints` the endpoint with address `addr` is, if there is one.
pub open spec fn addr_position(endpoints: Seq<EndpointView>, addr: SocketAddress) -> Option<int> {
    if exists|i: int| is_at(endpoints, addr, i) {
        Some(choose|i: int| is_at(endpoints, addr, i))
    } else {
        None
    }
}

/// No address occurs twice.
pub open spec fn distinct(endpoints: Seq<EndpointView>) -> bool {
    forall|i: int, j: int|
        0 <= i < j < endpoints.len() ==> (#[trigger] endpoints[i]).addr != (
        #[trigger] endpoints[j]).addr
}

/// The positions of the endpoints that can be chosen, in order.
pub open spec fn available(endpoints: Seq<EndpointView>) -> Seq<int>
    decreases endpoints.len(),
{
    if endpoints.len() == 0 {
        Seq::empty()
    } else if endpoints.last().available() {
        available(endpoints.drop_last()).push(endpoints.len() - 1)
    } else {
        available(endpoints.drop_last())
    }
}

/// The better of two endpoints: the one with fewer pending requests; of two
/// with as many, the one with the lower round-trip time; of two alike in
/// both, the first.
pub open spec fn better(endpoints: Seq<EndpointView>, i: int, j: int) -> int {
    if endpoints[j].pending < endpoints[i].pending {
        j
    } else if endpoints[j].pending == endpoints[i].pending && endpoints[j].rtt < endpoints[i].rtt {
        j
    } else {
        i
    }
}

/// The endpoint chosen by two draws: the better of the two available
/// endpoints that the draws point at, counted round the available ones.
pub open spec fn chosen(endpoints: Seq<EndpointView>, first: usize, second: usize) -> int
    recommends
        available(endpoints).len() > 0,
{
    let candidates = available(endpoints);
    better(
        endpoints,
        candidates[first as int % candidates.len() as int],
        candidates[second as int % candidates.len() as int],
    )
}

/// By how much a new round trip counts in the estimate: one part in this
/// many.
pub const RTT_WEIGHT: u64 = 8;

/// The estimate of the round-trip time after a new sample: the sample
/// itself where nothing was measured before, else the old estimate moved
/// towards the sample by one part in `RTT_WEIGHT`.
pub open spec fn spec_smooth(estimate: u64, sample: u64) -> u64 {
    if estimate == 0 {
        sample
    } else {
        (estimate - estimate / RTT_WEIGHT + sample / RTT_WEIGHT) as u64
    }
}

/// The estimate of the round-trip time after a new sample.
pub fn smooth(estimate: u64, sample: u64) -> (next: u64)
    ensures
        next == spec_smooth(estimate, sample),
{
    if estimate == 0 {
        sample
    } else {
        estimate - estimate / RTT_WEIGHT + sample / RTT_WEIGHT
    }
}

/// A newly added endpoint: nothing pending, no round trip measured, not yet
/// connected, no failure held against it.
pub open spec fn fresh_endpoint(
    addr: SocketAddress,
    weight: u32,
    labels: Seq<u8>,
    fail_after: u32,
) -> EndpointView {
    EndpointView { addr, weight, labels, pending: 0, rtt: 0, link: Reconnect::spec_new(fail_after) }
}

impl BalancerView {
    /// No address occurs twice, and the reconnect state of every endpoint is
    /// sound.
    pub open spec fn wf(self) -> bool {
        &&& distinct(self.endpoints)
        &&& forall|i: int| 0 <= i < self.endpoints.len() ==> (#[trigger] self.endpoints[i]).link.wf()
    }

    /// The endpoints that an update is applied to: none after the
    /// subscription was lost, else the current ones.
    pub open spec fn base(self) -> Seq<EndpointView> {
        if self.resync {
            Seq::empty()
        } else {
            self.endpoints
        }
    }

    /// The balancer after an update that arrived at time `now`.
    ///
    /// `Add` appends an endpoint, or gives new weight and labels to the one
    /// that has the address already. `Remove` takes the endpoint with the
    /// address out. `NoEndpoints` and `DoesNotExist` leave none, and the
    /// latter marks the name as not found. `Exists` changes no endpoint.
    pub open spec fn spec_apply(self, update: UpdateView, now: u64) -> BalancerView {
        let base = self.base();
        match update {
            UpdateView::Add(addr, weight, labels) => BalancerView {
                resolution: Resolution::Exists,
                resync: false,
                endpoints: match addr_position(base, addr) {
                    Some(i) => base.update(i, EndpointView { weight, labels, ..base[i] }),
                    None => base.push(fresh_endpoint(addr, weight, labels, self.fail_after)),
                },
                ..self
            },
            UpdateView::Remove(addr) => BalancerView {
                resolution: Resolution::Exists,
                resync: false,
                endpoints: match addr_position(base, addr) {
                    Some(i) => base.remove(i),
                    None => base,
                },
                ..self
            },
            UpdateView::DoesNotExist => BalancerView {
                resolution: Resolution::NotFound(now),
                resync: false,
                endpoints: Seq::empty(),
                ..self
            },
            UpdateView::NoEndpoints => BalancerView {
                resolution: Resolution::Exists,
                resync: false,
                endpoints: Seq::empty(),
                ..self
            },
            UpdateView::Exists => BalancerView {
                resolution: Resolution::Exists,
                resync: false,
                endpoints: base,
                ..self
            },
        }
    }

    /// The balancer after a run of updates, applied in the order given.
    pub open spec fn spec_apply_all(self, updates: Seq<UpdateView>, now: u64) -> BalancerView
        decreases updates.len(),
    {
        if updates.len() == 0 {
            self
        } else {
            self.spec_apply_all(updates.drop_last(), now).spec_apply(updates.last(), now)
        }
    }

    /// The balancer after a request was dispatched with the given draws, and
    /// the endpoint it went to.
    ///
    /// A name that does not exist fails the request at once. With no
    /// endpoint available the request has to wait. Otherwise the chosen
    /// endpoint has one more request pending.
    pub open spec fn spec_dispatch(self, first: usize, second: usize) -> (
        BalancerView,
        Result<SocketAddress, Unavailable>,
    ) {
        if self.resolution is NotFound {
            (self, Err(Unavailable::DoesNotExist))
        } else if available(self.endpoints).len() == 0 {
            (self, Err(Unavailable::NotReady))
        } else {
            let c = chosen(self.endpoints, first, second);
            (
                BalancerView {
                    endpoints: self.endpoints.update(
                        c,
                        EndpointView {
                            pending: (self.endpoints[c].pending + 1) as usize,
                            ..self.endpoints[c]
                        },
                    ),
                    ..self
                },
                Ok(self.endpoints[c].addr),
            )
        }
    }

    /// The balancer with endpoint `i` replaced.
    pub open spec fn with_endpoint(self, i: int, endpoint: EndpointView) -> BalancerView {
        BalancerView { endpoints: self.endpoints.update(i, endpoint), ..self }
    }

    /// The balancer after a request to `addr` completed: the endpoint has
    /// one request fewer pending, if it is still there and had any.
    pub open spec fn spec_complete(self, addr: SocketAddress) -> BalancerView {
        match addr_position(self.endpoints, addr) {
            Some(i) => if self.endpoints[i].pending > 0 {
                self.with_endpoint(
                    i,
                    EndpointView {
                        pending: (self.endpoints[i].pending - 1) as usize,
                        ..self.endpoints[i]
                    },
                )
            } else {
                self
            },
            None => self,
        }
    }

    /// The balancer after the endpoint at `addr` connected.
    pub open spec fn spec_connected(self, addr: SocketAddress) -> BalancerView {
        match addr_position(self.endpoints, addr) {
            Some(i) => self.with_endpoint(
                i,
                EndpointView { link: self.endpoints[i].link.spec_connected(), ..self.endpoints[i] },
            ),
            None => self,
        }
    }

    /// The balancer after a connect to the endpoint at `addr` failed, or its
    /// connection was lost, and what to do next, `draw` deciding the jitter
    /// of the wait. Of an address that is not in the set nothing is known
    /// and nothing asked.
    pub open spec fn spec_failed(self, addr: SocketAddress, draw: u64) -> (
        BalancerView,
        Option<Next>,
    ) {
        match addr_position(self.endpoints, addr) {
            Some(i) => (
                self.with_endpoint(
                    i,
                    EndpointView {
                        link: self.endpoints[i].link.spec_failed(draw).0,
                        ..self.endpoints[i]
                    },
                ),
                Some(self.endpoints[i].link.spec_failed(draw).1),
            ),
            None => (self, None),
        }
    }

    /// The balancer after a new round-trip estimate for the endpoint at
    /// `addr`.
    pub open spec fn spec_set_rtt(self, addr: SocketAddress, rtt: u64) -> BalancerView {
        match addr_position(self.endpoints, addr) {
            Some(i) => self.with_endpoint(i, EndpointView { rtt, ..self.endpoints[i] }),
            None => self,
        }
    }

    /// The balancer after a round trip to the endpoint at `addr` was
    /// measured.
    pub open spec fn spec_observe_rtt(self, addr: SocketAddress, sample: u64) -> BalancerView {
        match addr_position(self.endpoints, addr) {
            Some(i) => self.spec_set_rtt(addr, spec_smooth(self.endpoints[i].rtt, sample)),
            None => self,
        }
    }

    /// Whether a request can be dispatched now.
    pub open spec fn ready(self) -> bool {
        !(self.resolution is NotFound) && available(self.endpoints).len() > 0
    }

    /// Whether it is time to ask discovery again about a name that was not
    /// found: `ttl` or more has passed since.
    pub open spec fn expired(self, now: u64, ttl: u64) -> bool {
        self.resolution matches Resolution::NotFound(since) && now >= since && now - since >= ttl
    }
}

/// Where an address is at `i` and no address occurs twice, `i` is its
/// position.
pub proof fn lemma_addr_position_is(endpoints: Seq<EndpointView>, addr: SocketAddress, i: int)
    requires
        is_at(endpoints, addr, i),
        distinct(endpoints),
    ensures
        addr_position(endpoints, addr) == Some(i),
{
    let c = choose|c: int| is_at(endpoints, addr, c);
    if c < i {
        assert(endpoints[c].addr != endpoints[i].addr);
    } else if i < c {
        assert(endpoints[i].addr != endpoints[c].addr);
    }
}

/// The available positions are positions of available endpoints, in
/// ascending order, and none is missing.
pub proof fn lemma_available(endpoints: Seq<EndpointView>)
    ensures
        available(endpoints).len() <= endpoints.len(),
        forall|k: int|
            0 <= k < available(endpoints).len() ==> 0 <= (#[trigger] available(endpoints)[k])
                < endpoints.len() && endpoints[available(endpoints)[k]].available(),
        forall|i: int|
            0 <= i < endpoints.len() && (#[trigger] endpoints[i]).available() ==> available(
                endpoints,
            ).contains(i),
    decreases endpoints.len(),
{
    if endpoints.len() > 0 {
        let front = endpoints.drop_last();
        lemma_available(front);
        let last = endpoints.len() - 1;
        assert forall|k: int| 0 <= k < available(endpoints).len() implies 0 <= (
        #[trigger] available(endpoints)[k]) < endpoints.len() && endpoints[available(
            endpoints,
        )[k]].available() by {
            if k < available(front).len() {
                let p = available(front)[k];
                assert(front[p] == endpoints[p]);
            }
        }
        assert forall|i: int|
            0 <= i < endpoints.len() && (#[trigger] endpoints[i]).available() implies available(
            endpoints,
        ).contains(i) by {
            if i < last {
                assert(front[i] == endpoints[i]);
                let k = choose|k: int|
                    0 <= k < available(front).len() && available(front)[k] == i;
                assert(available(endpoints)[k] == i);
            } else {
                assert(available(endpoints)[available(endpoints).len() - 1] == i);
            }
        }
    }
}

/// The chosen endpoint is one of those available.
pub proof fn lemma_chosen_available(endpoints: Seq<EndpointView>, first: usize, second: usize)
    requires
        available(endpoints).len() > 0,
    ensures
        0 <= chosen(endpoints, first, second) < endpoints.len(),
        endpoints[chosen(endpoints, first, second)].available(),
{
    lemma_available(endpoints);
    let candidates = available(endpoints);
    let n = candidates.len() as int;
    let a = first as int % n;
    let b = second as int % n;
    assert(0 <= a < n && 0 <= b < n);
    assert(endpoints[candidates[a]].available());
    assert(endpoints[candidates[b]].available());
}

/// Replacing one endpoint by another with the same address keeps the
/// addresses distinct.
pub proof fn lemma_with_endpoint_wf(balancer: BalancerView, i: int, endpoint: EndpointView)
    requires
        balancer.wf(),
        0 <= i < balancer.endpoints.len(),
        endpoint.addr == balancer.endpoints[i].addr,
        endpoint.link.wf(),
    ensures
        balancer.with_endpoint(i, endpoint).wf(),
{
    let next = balancer.with_endpoint(i, endpoint).endpoints;
    assert forall|a: int, b: int| 0 <= a < b < next.len() implies (#[trigger] next[a]).addr != (
    #[trigger] next[b]).addr by {
        assert(balancer.endpoints[a].addr != balancer.endpoints[b].addr);
    }
    assert forall|a: int| 0 <= a < next.len() implies (#[trigger] next[a]).link.wf() by {
        assert(balancer.endpoints[a].link.wf());
    }
}

/// An update leaves a sound balancer sound.
pub proof fn lemma_apply_wf(balancer: BalancerView, update: UpdateView, now: u64)
    requires
        balancer.wf(),
    ensures
        balancer.spec_apply(update, now).wf(),
{
    let base = balancer.base();
    let next = balancer.spec_apply(update, now).endpoints;
    assert(distinct(base));
    assert(forall|a: int| 0 <= a < base.len() ==> (#[trigger] base[a]).link.wf());
    match update {
        UpdateView::Add(addr, weight, labels) => {
            match addr_position(base, addr) {
                Some(i) => {
                    assert(is_at(base, addr, i));
                    assert forall|a: int, b: int| 0 <= a < b < next.len() implies (
                    #[trigger] next[a]).addr != (#[trigger] next[b]).addr by {
                        assert(base[a].addr != base[b].addr);
                    }
                    assert forall|a: int| 0 <= a < next.len() implies (
                    #[trigger] next[a]).link.wf() by {
                        assert(base[a].link.wf());
                    }
                },
                None => {
                    assert forall|a: int, b: int| 0 <= a < b < next.len() implies (
                    #[trigger] next[a]).addr != (#[trigger] next[b]).addr by {
                        if b < base.len() {
                            assert(base[a].addr != base[b].addr);
                        } else {
                            assert(!is_at(base, addr, a));
                        }
                    }
                    assert forall|a: int| 0 <= a < next.len() implies (
                    #[trigger] next[a]).link.wf() by {
                        if a < base.len() {
                            assert(base[a].link.wf());
                        }
                    }
                },
            }
        },
        UpdateView::Remove(addr) => {
            match addr_position(base, addr) {
                Some(i) => {
                    assert(is_at(base, addr, i));
                    assert forall|a: int, b: int| 0 <= a < b < next.len() implies (
                    #[trigger] next[a]).addr != (#[trigger] next[b]).addr by {
                        let pa = if a < i {
                            a
                        } else {
                            a + 1
                        };
                        let pb = if b < i {
                            b
                        } else {
                            b + 1
                        };
                        assert(base[pa].addr != base[pb].addr);
                    }
                    assert forall|a: int| 0 <= a < next.len() implies (
                    #[trigger] next[a]).link.wf() by {
                        let pa = if a < i {
                            a
                        } else {
                            a + 1
                        };
                        assert(base[pa].link.wf());
                    }
                },
                None => {},
            }
        },
        _ => {},
    }
}

impl Balancer {
    /// A balancer that has heard nothing from discovery yet, and that gives
    /// an endpoint up at the `fail_after`-th failure in a row whose wait had
    /// reached the longest.
    pub fn new(fail_after: u32) -> (balancer: Balancer)
        ensures
            balancer@ == (BalancerView {
                resolution: Resolution::Unknown,
                fail_after,
                resync: false,
                endpoints: Seq::<EndpointView>::empty(),
            }),
            balancer@.wf(),
    {
        let balancer = Balancer {
            resolution: Resolution::Unknown,
            resync: false,
            fail_after,
            endpoints: Vec::new(),
        };
        assert(balancer@.endpoints =~= Seq::<EndpointView>::empty());
        balancer
    }

    /// The number of endpoints.
    pub fn len(&self) -> (len: usize)
        ensures
            len == self@.endpoints.len(),
    {
        self.endpoints.len()
    }

    /// What discovery said of the name.
    pub fn resolution(&self) -> (resolution: Resolution)
        ensures
            resolution == self@.resolution,
    {
        self.resolution
    }

    /// The address of endpoint `i`, if there are that many.
    pub fn address(&self, i: usize) -> (addr: Option<SocketAddress>)
        ensures
            addr == (if i < self@.endpoints.len() {
                Some(self@.endpoints[i as int].addr)
            } else {
                None
            }),
    {
        if i < self.endpoints.len() {
            Some(self.endpoints[i].addr)
        } else {
            None
        }
    }

    /// The number of requests pending on the endpoint at `addr`, if there is
    /// such an endpoint.
    pub fn pending(&self, addr: SocketAddress) -> (pending: Option<usize>)
        requires
            self@.wf(),
        ensures
            pending == (match addr_position(self@.endpoints, addr) {
                Some(i) => Some(self@.endpoints[i].pending),
                None => None,
            }),
    {
        match self.find(addr) {
            Some(i) => Some(self.endpoints[i].pending),
            None => None,
        }
    }

    fn find(&self, addr: SocketAddress) -> (found: Option<usize>)
        requires
            self@.wf(),
        ensures
            match found {
                Some(i) => addr_position(self@.endpoints, addr) == Some(i as int) && i
                    < self.endpoints.len(),
                None => addr_position(self@.endpoints, addr) is None,
            },
    {
        let mut i: usize = 0;
        while i < self.endpoints.len()
            invariant
                i <= self.endpoints.len(),
                self@.wf(),
                forall|k: int| 0 <= k < i ==> !is_at(self@.endpoints, addr, k),
            decreases self.endpoints.len() - i,
        {
            if self.endpoints[i].addr == addr {
                proof {
                    assert(is_at(self@.endpoints, addr, i as int));
                    lemma_addr_position_is(self@.endpoints, addr, i as int);
                }
                return Some(i);
            }
            i += 1;
        }
        None
    }

    /// The positions of the endpoints that can be chosen, in order.
    pub fn candidates(&self) -> (positions: Vec<usize>)
        ensures
            positions@.map_values(|p: usize| p as int) == available(self@.endpoints),
    {
        let mut positions: Vec<usize> = Vec::new();
        let mut i: usize = 0;
        assert(self@.endpoints.take(0) =~= Seq::<EndpointView>::empty());
        while i < self.endpoints.len()
            invariant
                i <= self.endpoints.len(),
                positions@.map_values(|p: usize| p as int) =~= available(
                    self@.endpoints.take(i as int),
                ),
            decreases self.endpoints.len() - i,
        {
            proof {
                let next = self@.endpoints.take(i + 1);
                assert(next.drop_last() =~= self@.endpoints.take(i as int));
                assert(next.last() == self@.endpoints[i as int]);
            }
            let available = match self.endpoints[i].link.readiness() {
                Readiness::Ready => self.endpoints[i].pending < usize::MAX,
                _ => false,
            };
            if available {
                positions.push(i);
            }
            i += 1;
        }
        assert(self@.endpoints.take(i as int) =~= self@.endpoints);
        positions
    }

    /// Whether a request can be dispatched now.
    pub fn is_ready(&self) -> (ready: bool)
        ensures
            ready == self@.ready(),
    {
        let found = match self.resolution {
            Resolution::NotFound(_) => false,
            _ => true,
        };
        found && self.candidates().len() > 0
    }

    /// Whether it is time to ask discovery again about a name that was not
    /// found.
    pub fn should_resubscribe(&self, now: u64, ttl: u64) -> (due: bool)
        ensures
            due == self@.expired(now, ttl),
    {
        match self.resolution {
            Resolution::NotFound(since) => now >= since && now - since >= ttl,
            _ => false,
        }
    }

    /// Records that the subscription was lost. The endpoints stay as they
    /// are until the first update of the next subscription arrives, which
    /// starts the set afresh.
    pub fn subscription_lost(&mut self)
        ensures
            final(self)@ == (BalancerView { resync: true, ..old(self)@ }),
    {
        self.resync = true;
    }

    /// Applies one update of the discovery subscription, received at time
    /// `now`.
    pub fn apply(&mut self, update: Update, now: u64)
        requires
            old(self)@.wf(),
        ensures
            final(self)@.wf(),
            final(self)@ == old(self)@.spec_apply(update@, now),
    {
        proof {
            lemma_apply_wf(self@, update@, now);
        }
        if self.resync {
            self.endpoints.clear();
            self.resync = false;
            assert(self@.endpoints =~= old(self)@.base());
        }
        assert(self@.endpoints == old(self)@.base());
        let ghost base = self@.endpoints;
        match update {
            Update::Add(addr, meta) => {
                self.resolution = Resolution::Exists;
                match self.find(addr) {
                    Some(i) => {
                        self.endpoints[i].weight = meta.weight;
                        self.endpoints[i].labels = meta.labels;
                        assert(self@.endpoints =~= base.update(
                            i as int,
                            EndpointView {
                                weight: meta.weight,
                                labels: meta.labels@,
                                ..base[i as int]
                            },
                        ));
                    },
                    None => {
                        self.endpoints.push(
                            Endpoint {
                                addr,
                                weight: meta.weight,
                                labels: meta.labels,
                                pending: 0,
                                rtt: 0,
                                link: Reconnect::new(self.fail_after),
                            },
                        );
                        assert(self@.endpoints =~= base.push(
                            fresh_endpoint(addr, meta.weight, meta.labels@, self.fail_after),
                        ));
                    },
                }
            },
            Update::Remove(addr) => {
                self.resolution = Resolution::Exists;
                match self.find(addr) {
                    Some(i) => {
                        let _ = self.endpoints.remove(i);
                        assert(self@.endpoints =~= base.remove(i as int));
                    },
                    None => {},
                }
            },
            Update::DoesNotExist => {
                self.resolution = Resolution::NotFound(now);
                self.endpoints.clear();
                assert(self@.endpoints =~= Seq::<EndpointView>::empty());
            },
            Update::NoEndpoints => {
                self.resolution = Resolution::Exists;
                self.endpoints.clear();
                assert(self@.endpoints =~= Seq::<EndpointView>::empty());
            },
            Update::Exists => {
                self.resolution = Resolution::Exists;
            },
        }
    }

    /// Dispatches a request with the two draws given: of the two available
    /// endpoints that they point at, the better takes the request.
    pub fn dispatch_with(&mut self, first: usize, second: usize) -> (sent: Result<
        SocketAddress,
        Unavailable,
    >)
        requires
            old(self)@.wf(),
        ensures
            final(self)@.wf(),
            final(self)@ == old(self)@.spec_dispatch(first, second).0,
            sent == old(self)@.spec_dispatch(first, second).1,
    {
        match self.resolution {
            Resolution::NotFound(_) => {
                return Err(Unavailable::DoesNotExist);
            },
            _ => {},
        }
        let candidates = self.candidates();
        let n = candidates.len();
        if n == 0 {
            return Err(Unavailable::NotReady);
        }
        proof {
            lemma_available(self@.endpoints);
            lemma_chosen_available(self@.endpoints, first, second);
        }
        let ghost positions = candidates@.map_values(|p: usize| p as int);
        let i = candidates[first % n];
        let j = candidates[second % n];
        assert(i as int == positions[first as int % n as int]);
        assert(j as int == positions[second as int % n as int]);
        let c = if self.endpoints[j].pending < self.endpoints[i].pending {
            j
        } else if self.endpoints[j].pending == self.endpoints[i].pending && self.endpoints[j].rtt
            < self.endpoints[i].rtt {
            j
        } else {
            i
        };
        assert(c as int == chosen(self@.endpoints, first, second));
        assert(self@.endpoints[c as int].available());
        let addr = self.endpoints[c].addr;
        let pending = self.endpoints[c].pending + 1;
        self.endpoints[c].pending = pending;
        proof {
            let prior = old(self)@;
            let next = EndpointView { pending, ..prior.endpoints[c as int] };
            assert(prior.endpoints[c as int].link.wf());
            lemma_with_endpoint_wf(prior, c as int, next);
            assert(self@.endpoints =~= prior.endpoints.update(c as int, next));
        }
        Ok(addr)
    }

    /// Dispatches a request by the power of two choices: two available
    /// endpoints are drawn at random, different ones where there are two,
    /// and the better of them takes the request.
    pub fn dispatch(&mut self) -> (sent: Result<SocketAddress, Unavailable>)
        requires
            old(self)@.wf(),
        ensures
            final(self)@.wf(),
            exists|first: usize, second: usize|
                {
                    &&& final(self)@ == old(self)@.spec_dispatch(first, second).0
                    &&& sent == old(self)@.spec_dispatch(first, second).1
                    &&& available(old(self)@.endpoints).len() >= 2 ==> first != second && first
                        < available(old(self)@.endpoints).len() && second < available(
                        old(self)@.endpoints,
                    ).len()
                },
    {
        let n = self.candidates().len();
        let mut first: usize = 0;
        let mut second: usize = 0;
        if n >= 2 {
            first = random_below(n);
            let draw = random_below(n - 1);
            second = if draw >= first {
                draw + 1
            } else {
                draw
            };
        }
        let sent = self.dispatch_with(first, second);
        assert(self@ == old(self)@.spec_dispatch(first, second).0);
        sent
    }

    /// Records that a request to `addr` completed.
    pub fn complete(&mut self, addr: SocketAddress)
        requires
            old(self)@.wf(),
        ensures
            final(self)@.wf(),
            final(self)@ == old(self)@.spec_complete(addr),
    {
        match self.find(addr) {
            Some(i) => {
                if self.endpoints[i].pending > 0 {
                    let pending = self.endpoints[i].pending - 1;
                    self.endpoints[i].pending = pending;
                    proof {
                        let prior = old(self)@;
                        let next = EndpointView { pending, ..prior.endpoints[i as int] };
                        assert(prior.endpoints[i as int].link.wf());
                        lemma_with_endpoint_wf(prior, i as int, next);
                        assert(self@.endpoints =~= prior.endpoints.update(i as int, next));
                    }
                }
            },
            None => {},
        }
    }

    /// The readiness of the endpoint at `addr`, if there is such an
    /// endpoint.
    pub fn state(&self, addr: SocketAddress) -> (state: Option<Readiness>)
        requires
            self@.wf(),
        ensures
            state == (match addr_position(self@.endpoints, addr) {
                Some(i) => Some(self@.endpoints[i].state()),
                None => None,
            }),
    {
        match self.find(addr) {
            Some(i) => Some(self.endpoints[i].link.readiness()),
            None => None,
        }
    }

    /// Records that the endpoint at `addr` connected: it is ready, and
    /// nothing is held against it.
    pub fn connected(&mut self, addr: SocketAddress)
        requires
            old(self)@.wf(),
        ensures
            final(self)@.wf(),
            final(self)@ == old(self)@.spec_connected(addr),
    {
        match self.find(addr) {
            Some(i) => {
                let mut link = self.endpoints[i].link;
                link.connected();
                self.endpoints[i].link = link;
                proof {
                    let prior = old(self)@;
                    let next = EndpointView { link, ..prior.endpoints[i as int] };
                    lemma_with_endpoint_wf(prior, i as int, next);
                    assert(self@.endpoints =~= prior.endpoints.update(i as int, next));
                }
            },
            None => {},
        }
    }

    /// Records that a connect to the endpoint at `addr` failed, or that its
    /// connection was lost, and says what to do next, `draw` deciding the
    /// jitter of the wait. The endpoint is not chosen again until it
    /// connects.
    pub fn failed_with(&mut self, addr: SocketAddress, draw: u64) -> (next: Option<Next>)
        requires
            old(self)@.wf(),
        ensures
            final(self)@.wf(),
            final(self)@ == old(self)@.spec_failed(addr, draw).0,
            next == old(self)@.spec_failed(addr, draw).1,
    {
        match self.find(addr) {
            Some(i) => {
                let mut link = self.endpoints[i].link;
                assert(self@.endpoints[i as int].link.wf());
                let next = link.failed_with(draw);
                self.endpoints[i].link = link;
                proof {
                    let prior = old(self)@;
                    let after = EndpointView { link, ..prior.endpoints[i as int] };
                    lemma_with_endpoint_wf(prior, i as int, after);
                    assert(self@.endpoints =~= prior.endpoints.update(i as int, after));
                }
                Some(next)
            },
            None => None,
        }
    }

    /// Records a failure of the endpoint at `addr` and says what to do
    /// next, with the jitter of the wait drawn at random.
    pub fn failed(&mut self, addr: SocketAddress) -> (next: Option<Next>)
        requires
            old(self)@.wf(),
        ensures
            final(self)@.wf(),
            exists|draw: u64|
                final(self)@ == old(self)@.spec_failed(addr, draw).0 && next == old(
                    self,
                )@.spec_failed(addr, draw).1,
    {
        let draw = random_below((2 * JITTER_PERCENT + 1) as usize) as u64;
        let next = self.failed_with(addr, draw);
        assert(self@ == old(self)@.spec_failed(addr, draw).0);
        next
    }

    /// Records a measured round trip to the endpoint at `addr`: its
    /// estimate moves towards the sample.
    pub fn observe_rtt(&mut self, addr: SocketAddress, sample: u64)
        requires
            old(self)@.wf(),
        ensures
            final(self)@.wf(),
            final(self)@ == old(self)@.spec_observe_rtt(addr, sample),
    {
        match self.find(addr) {
            Some(i) => {
                let estimate = smooth(self.endpoints[i].rtt, sample);
                self.set_rtt(addr, estimate);
            },
            None => {},
        }
    }

    /// Records a new round-trip estimate for the endpoint at `addr`.
    pub fn set_rtt(&mut self, addr: SocketAddress, rtt: u64)
        requires
            old(self)@.wf(),
        ensures
            final(self)@.wf(),
            final(self)@ == old(self)@.spec_set_rtt(addr, rtt),
    {
        match self.find(addr) {
            Some(i) => {
                self.endpoints[i].rtt = rtt;
                proof {
                    let prior = old(self)@;
                    let next = EndpointView { rtt, ..prior.endpoints[i as int] };
                    assert(prior.endpoints[i as int].link.wf());
                    lemma_with_endpoint_wf(prior, i as int, next);
                    assert(self@.endpoints =~= prior.endpoints.update(i as int, next));
                }
            },
            None => {},
        }
    }
}

/// A request goes to an endpoint of the set as it stands when the request is
/// dispatched: the endpoint is in that set and available there, and the
/// dispatch changes nothing but that endpoint's count of pending requests.
pub proof fn law_dispatch_uses_current_set(balancer: BalancerView, first: usize, second: usize)
    requires
        balancer.wf(),
        balancer.spec_dispatch(first, second).1 is Ok,
    ensures
        ({
            let c = chosen(balancer.endpoints, first, second);
            let after = balancer.spec_dispatch(first, second).0;
            &&& 0 <= c < balancer.endpoints.len()
            &&& balancer.endpoints[c].available()
            &&& balancer.spec_dispatch(first, second).1 == Ok::<SocketAddress, Unavailable>(
                balancer.endpoints[c].addr,
            )
            &&& after.endpoints.len() == balancer.endpoints.len()
            &&& after.endpoints[c].pending == balancer.endpoints[c].pending + 1
            &&& forall|i: int|
                0 <= i < balancer.endpoints.len() ==> (#[trigger] after.endpoints[i]).addr
                    == balancer.endpoints[i].addr && (i != c ==> after.endpoints[i]
                    == balancer.endpoints[i])
        }),
{
    lemma_chosen_available(balancer.endpoints, first, second);
}

/// Updates apply in the order in which they arrive: a run of updates
/// followed by another is the same as the two runs one after the other.
pub proof fn law_updates_in_order(
    balancer: BalancerView,
    earlier: Seq<UpdateView>,
    later: Seq<UpdateView>,
    now: u64,
)
    ensures
        balancer.spec_apply_all(earlier + later, now) == balancer.spec_apply_all(
            earlier,
            now,
        ).spec_apply_all(later, now),
    decreases later.len(),
{
    if later.len() == 0 {
        assert(earlier + later =~= earlier);
    } else {
        law_updates_in_order(balancer, earlier, later.drop_last(), now);
        assert((earlier + later).drop_last() =~= earlier + later.drop_last());
        assert((earlier + later).last() == later.last());
    }
}

/// The endpoint set reflects the last update: an added address is in it, a
/// removed one is not, and after `NoEndpoints` or `DoesNotExist` it is empty.
pub proof fn law_set_reflects_last_update(balancer: BalancerView, update: UpdateView, now: u64)
    requires
        balancer.wf(),
    ensures
        update matches UpdateView::Add(addr, weight, labels) ==> {
            let after = balancer.spec_apply(update, now).endpoints;
            &&& addr_position(after, addr) is Some
            &&& after[addr_position(after, addr)->0].weight == weight
            &&& after[addr_position(after, addr)->0].labels == labels
        },
        update matches UpdateView::Remove(addr) ==> addr_position(
            balancer.spec_apply(update, now).endpoints,
            addr,
        ) is None,
        update is NoEndpoints || update is DoesNotExist ==> balancer.spec_apply(
            update,
            now,
        ).endpoints.len() == 0,
        update is DoesNotExist ==> balancer.spec_apply(update, now).spec_dispatch(0, 0).1 == Err::<
            SocketAddress,
            Unavailable,
        >(Unavailable::DoesNotExist),
{
    let base = balancer.base();
    let after = balancer.spec_apply(update, now).endpoints;
    lemma_apply_wf(balancer, update, now);
    match update {
        UpdateView::Add(addr, weight, labels) => {
            match addr_position(base, addr) {
                Some(i) => {
                    assert(is_at(base, addr, i));
                    assert(is_at(after, addr, i));
                    lemma_addr_position_is(after, addr, i);
                },
                None => {
                    assert(is_at(after, addr, base.len() as int));
                    lemma_addr_position_is(after, addr, base.len() as int);
                },
            }
        },
        UpdateView::Remove(addr) => {
            match addr_position(base, addr) {
                Some(i) => {
                    assert(is_at(base, addr, i));
                    assert forall|a: int| !is_at(after, addr, a) by {
                        if 0 <= a < after.len() {
                            let pa = if a < i {
                                a
                            } else {
                                a + 1
                            };
                            assert(after[a] == base[pa]);
                            if pa < i {
                                assert(base[pa].addr != base[i].addr);
                            } else {
                                assert(base[i].addr != base[pa].addr);
                            }
                        }
                    }
                },
                None => {
                    assert(forall|a: int| !is_at(base, addr, a));
                },
            }
        },
        _ => {},
    }
}

/// An endpoint whose connection failed takes no request until it connects
/// again: whatever the draws, the next request goes elsewhere.
pub proof fn law_failed_endpoint_is_passed_over(
    balancer: BalancerView,
    addr: SocketAddress,
    draw: u64,
    first: usize,
    second: usize,
)
    requires
        balancer.wf(),
        addr_position(balancer.endpoints, addr) is Some,
    ensures
        balancer.spec_failed(addr, draw).0.spec_dispatch(first, second).1 != Ok::<
            SocketAddress,
            Unavailable,
        >(addr),
        balancer.spec_connected(addr).endpoints[addr_position(balancer.endpoints, addr)->0].state()
            == Readiness::Ready,
{
    let i = addr_position(balancer.endpoints, addr)->0;
    assert(is_at(balancer.endpoints, addr, i));
    let after = balancer.spec_failed(addr, draw).0;
    assert(after.endpoints[i].addr == addr);
    assert(!after.endpoints[i].available());
    if after.spec_dispatch(first, second).1 is Ok {
        lemma_chosen_available(after.endpoints, first, second);
        let c = chosen(after.endpoints, first, second);
        assert(c != i);
        assert(balancer.endpoints[i].link.wf());
        lemma_with_endpoint_wf(balancer, i, after.endpoints[i]);
        if c < i {
            assert(after.endpoints[c].addr != after.endpoints[i].addr);
        } else {
            assert(after.endpoints[i].addr != after.endpoints[c].addr);
        }
    }
}

} // verus!
