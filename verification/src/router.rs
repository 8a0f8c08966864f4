//! The router: a bounded map from service key to service stack.
//!
//! A request for a key that has a route is offered to that route's stack. A
//! request for a new key gets a new route while there is room; once the map
//! is full, the idle route that was used least recently makes way, and where
//! no route is idle the request is refused for want of capacity.

use crate::addr::SocketAddress;
use crate::key::{spec_recognize, Key, Recognize, RequestHead};
use crate::stack::{Completed, Lifecycle, Limits, Placement, Stack};
use crate::status::{InnerError, RouteError};
use vstd::prelude::*;

verus! {

/// One entry of the router: a key, the stack that serves it, and when it was
/// last used.
#[derive(Debug)]
pub struct Route {
    pub key: Key,
    pub stack: Stack,
    pub last_used: u64,
}

/// A route as contracts see it.
pub struct RouteView {
    pub key: Seq<u8>,
    pub stack: Stack,
    pub last_used: u64,
}

/// Where a request was routed.
#[derive(Debug)]
pub struct Routed {
    /// The key that the request was recognized under.
    pub key: Key,
    /// Whether a route was made for it: the caller then builds the stack.
    pub created: bool,
    /// Where the request went in the route's stack.
    pub placement: Placement,
    /// The route that made way, now terminated.
    pub evicted: Option<Route>,
}

/// A routing result as contracts see it.
pub struct RoutedView {
    pub key: Seq<u8>,
    pub created: bool,
    pub placement: Placement,
    pub evicted: Option<RouteView>,
}

/// A router as contracts see it.
pub struct RouterView {
    pub rule: Recognize,
    pub limits: Limits,
    pub capacity: usize,
    pub draining: bool,
    pub routes: Seq<RouteView>,
}

/// The router.
#[derive(Debug)]
pub struct Router {
    rule: Recognize,
    limits: Limits,
    capacity: usize,
    draining: bool,
    routes: Vec<Route>,
}

impl View for Route {
    type V = RouteView;

    open spec fn view(&self) -> RouteView {
        RouteView { key: self.key@, stack: self.stack, last_used: self.last_used }
    }
}

impl View for Routed {
    type V = RoutedView;

    open spec fn view(&self) -> RoutedView {
        RoutedView {
            key: self.key@,
            created: self.created,
            placement: self.placement,
            evicted: match self.evicted {
                Some(route) => Some(route@),
                None => None,
            },
        }
    }
}

impl View for Router {
    type V = RouterView;

    closed spec fn view(&self) -> RouterView {
        RouterView {
            rule: self.rule,
            limits: self.limits,
            capacity: self.capacity,
            draining: self.draining,
            routes: self.routes@.map_values(|route: Route| route@),
        }
    }
}

/// The view of a routing result.
pub open spec fn routed_view(result: Result<Routed, RouteError>) -> Result<RoutedView, RouteError> {
    match result {
        Ok(routed) => Ok(routed@),
        Err(error) => Err(error),
    }
}

/// Whether route `i` holds `key`.
pub open spec fn holds_at(routes: Seq<RouteView>, key: Seq<u8>, i: int) -> bool {
    0 <= i < routes.len() && routes[i].key == key
}

/// Where in `routes` the route for `key` is, if there is one.
pub open spec fn position(routes: Seq<RouteView>, key: Seq<u8>) -> Option<int> {
    if exists|i: int| holds_at(routes, key, i) {
        Some(choose|i: int| holds_at(routes, key, i))
    } else {
        None
    }
}

/// Whether route `i` is the idle route that was used least recently; of two
/// used at the same time, the earlier in the map.
pub open spec fn is_lru_idle(routes: Seq<RouteView>, i: int) -> bool {
    &&& 0 <= i < routes.len()
    &&& routes[i].stack.state is Idle
    &&& forall|j: int|
        0 <= j < routes.len() && (#[trigger] routes[j]).stack.state is Idle ==> routes[i].last_used
            < routes[j].last_used || (routes[i].last_used == routes[j].last_used && i <= j)
}

/// The route that makes way when the map is full, if any route is idle.
pub open spec fn lru_idle(routes: Seq<RouteView>) -> Option<int> {
    if exists|i: int| is_lru_idle(routes, i) {
        Some(choose|i: int| is_lru_idle(routes, i))
    } else {
        None
    }
}

/// The route made for a new key: its stack holds the one request that
/// caused it, queued until the stack is built and ready.
pub open spec fn fresh_route(key: Seq<u8>, limits: Limits, now: u64) -> RouteView {
    RouteView {
        key,
        stack: Stack {
            state: Lifecycle::Active,
            ready: false,
            in_flight: 0,
            queued: 1,
            limits,
        },
        last_used: now,
    }
}

impl RouterView {
    /// At most `capacity` routes, no key twice, every stack sound and under
    /// the router's limits, and all of them serving unless the router drains.
    pub open spec fn wf(self) -> bool {
        &&& self.routes.len() <= self.capacity
        &&& forall|i: int, j: int|
            0 <= i < j < self.routes.len() ==> (#[trigger] self.routes[i]).key != (
            #[trigger] self.routes[j]).key
        &&& forall|i: int|
            0 <= i < self.routes.len() ==> {
                &&& (#[trigger] self.routes[i]).stack.wf()
                &&& self.routes[i].stack.limits == self.limits
                &&& self.routes[i].stack.serving() == !self.draining
            }
    }

    /// The router after a request for `key` arrived at time `now`, and where
    /// the request was routed.
    pub open spec fn spec_route(self, key: Seq<u8>, now: u64) -> (
        RouterView,
        Result<RoutedView, RouteError>,
    ) {
        if self.draining {
            (self, Err(RouteError::Inner(InnerError::ServiceGone)))
        } else if position(self.routes, key) is Some {
            let i = position(self.routes, key)->0;
            let offered = self.routes[i].stack.spec_offer();
            match offered.1 {
                Ok(placement) => (
                    RouterView {
                        routes: self.routes.update(
                            i,
                            RouteView { key, stack: offered.0, last_used: now },
                        ),
                        ..self
                    },
                    Ok(RoutedView { key, created: false, placement, evicted: None }),
                ),
                Err(error) => (self, Err(error)),
            }
        } else if self.limits.max_queued == 0 {
            (self, Err(RouteError::NoCapacity(0)))
        } else if self.routes.len() < self.capacity {
            (
                RouterView {
                    routes: self.routes.push(fresh_route(key, self.limits, now)),
                    ..self
                },
                Ok(RoutedView { key, created: true, placement: Placement::Queued, evicted: None }),
            )
        } else if lru_idle(self.routes) is Some {
            let e = lru_idle(self.routes)->0;
            (
                RouterView {
                    routes: self.routes.remove(e).push(fresh_route(key, self.limits, now)),
                    ..self
                },
                Ok(
                    RoutedView {
                        key,
                        created: true,
                        placement: Placement::Queued,
                        evicted: Some(
                            RouteView { stack: self.routes[e].stack.spec_drain(), ..self.routes[e] },
                        ),
                    },
                ),
            )
        } else {
            (self, Err(RouteError::NoCapacity(self.capacity)))
        }
    }

    /// The router after a request with the given authority arrived on a
    /// connection with the given original destination, and where the request
    /// was routed.
    pub open spec fn spec_call(
        self,
        authority: Option<Seq<u8>>,
        original_dst: Option<SocketAddress>,
        now: u64,
    ) -> (RouterView, Result<RoutedView, RouteError>) {
        match spec_recognize(self.rule, authority, original_dst) {
            Ok(key) => self.spec_route(key, now),
            Err(_) => (self, Err(RouteError::NotRecognized)),
        }
    }

    /// The router with the stack of route `i` replaced.
    pub open spec fn with_stack(self, i: int, stack: Stack) -> RouterView {
        RouterView { routes: self.routes.update(i, RouteView { stack, ..self.routes[i] }), ..self }
    }

    /// The router after a request in flight for `key` completed, and what
    /// that led to in the key's stack.
    pub open spec fn spec_complete(self, key: Seq<u8>) -> (RouterView, Completed) {
        if position(self.routes, key) is Some {
            let i = position(self.routes, key)->0;
            let done = self.routes[i].stack.spec_complete();
            (self.with_stack(i, done.0), done.1)
        } else {
            (self, Completed::Nothing)
        }
    }

    /// The router after the readiness of the stack for `key` changed.
    pub open spec fn spec_set_ready(self, key: Seq<u8>, ready: bool) -> RouterView {
        if position(self.routes, key) is Some {
            let i = position(self.routes, key)->0;
            self.with_stack(i, self.routes[i].stack.spec_set_ready(ready))
        } else {
            self
        }
    }

    /// The router after a queued request for `key` gave up waiting.
    pub open spec fn spec_withdraw(self, key: Seq<u8>) -> RouterView {
        if position(self.routes, key) is Some {
            let i = position(self.routes, key)->0;
            self.with_stack(i, self.routes[i].stack.spec_withdraw())
        } else {
            self
        }
    }

    /// The router after the route for `key` was given up.
    pub open spec fn spec_abandon(self, key: Seq<u8>) -> RouterView {
        if position(self.routes, key) is Some {
            RouterView { routes: self.routes.remove(position(self.routes, key)->0), ..self }
        } else {
            self
        }
    }

    /// The router after it was told to drain: every stack drains.
    pub open spec fn spec_drain(self) -> RouterView {
        RouterView {
            draining: true,
            routes: self.routes.map_values(
                |route: RouteView| RouteView { stack: route.stack.spec_drain(), ..route },
            ),
            ..self
        }
    }

    /// Whether the router drains and every stack has terminated.
    pub open spec fn drained(self) -> bool {
        self.draining && forall|i: int|
            0 <= i < self.routes.len() ==> (#[trigger] self.routes[i]).stack.state is Terminated
    }
}

/// Where `key` has a route at `i` and no key occurs twice, `i` is its position.
pub proof fn lemma_position_is(routes: Seq<RouteView>, key: Seq<u8>, i: int)
    requires
        holds_at(routes, key, i),
        forall|a: int, b: int|
            0 <= a < b < routes.len() ==> (#[trigger] routes[a]).key != (#[trigger] routes[b]).key,
    ensures
        position(routes, key) == Some(i),
{
    let c = choose|c: int| holds_at(routes, key, c);
    if c < i {
        assert(routes[c].key != routes[i].key);
    } else if i < c {
        assert(routes[i].key != routes[c].key);
    }
}

/// There is at most one least recently used idle route.
pub proof fn lemma_lru_idle_is(routes: Seq<RouteView>, i: int)
    requires
        is_lru_idle(routes, i),
    ensures
        lru_idle(routes) == Some(i),
{
    let c = choose|c: int| is_lru_idle(routes, c);
    assert(is_lru_idle(routes, c));
    let ri = routes[i];
    let rc = routes[c];
    assert(ri.stack.state is Idle && rc.stack.state is Idle);
}

/// The capacity bound: whatever request arrives, a sound router stays
/// sound, and so never holds more routes than its capacity.
pub proof fn law_capacity_bound(router: RouterView, key: Seq<u8>, now: u64)
    requires
        router.wf(),
    ensures
        router.spec_route(key, now).0.wf(),
        router.spec_route(key, now).0.routes.len() <= router.capacity,
        router.spec_route(key, now).0.capacity == router.capacity,
{
    let next = router.spec_route(key, now).0;
    if router.draining {
    } else if position(router.routes, key) is Some {
        let i = position(router.routes, key)->0;
        assert(holds_at(router.routes, key, i));
        let offered = router.routes[i].stack.spec_offer();
        if offered.1 is Ok {
            assert(router.routes[i].stack.wf());
            assert forall|a: int, b: int| 0 <= a < b < next.routes.len() implies (
            #[trigger] next.routes[a]).key != (#[trigger] next.routes[b]).key by {
                assert(router.routes[a].key != router.routes[b].key);
            }
            assert forall|a: int| 0 <= a < next.routes.len() implies {
                &&& (#[trigger] next.routes[a]).stack.wf()
                &&& next.routes[a].stack.limits == next.limits
                &&& next.routes[a].stack.serving() == !next.draining
            } by {
                assert(router.routes[a].stack.wf());
            }
        }
    } else if router.limits.max_queued == 0 {
    } else {
        assert(forall|a: int| 0 <= a < router.routes.len() ==> !holds_at(router.routes, key, a));
        let fresh = fresh_route(key, router.limits, now);
        assert(fresh.stack.wf());
        if router.routes.len() < router.capacity {
            assert forall|a: int, b: int| 0 <= a < b < next.routes.len() implies (
            #[trigger] next.routes[a]).key != (#[trigger] next.routes[b]).key by {
                if b < router.routes.len() {
                    assert(router.routes[a].key != router.routes[b].key);
                } else {
                    assert(!holds_at(router.routes, key, a));
                }
            }
            assert forall|a: int| 0 <= a < next.routes.len() implies {
                &&& (#[trigger] next.routes[a]).stack.wf()
                &&& next.routes[a].stack.limits == next.limits
                &&& next.routes[a].stack.serving() == !next.draining
            } by {
                if a < router.routes.len() {
                    assert(router.routes[a].stack.wf());
                }
            }
        } else if lru_idle(router.routes) is Some {
            let e = lru_idle(router.routes)->0;
            assert(is_lru_idle(router.routes, e));
            let kept = router.routes.remove(e);
            assert forall|a: int| 0 <= a < kept.len() implies #[trigger] kept[a] == router.routes[if a
                < e {
                a
            } else {
                a + 1
            }] by {}
            assert forall|a: int, b: int| 0 <= a < b < next.routes.len() implies (
            #[trigger] next.routes[a]).key != (#[trigger] next.routes[b]).key by {
                let pa = if a < e {
                    a
                } else {
                    a + 1
                };
                if b < kept.len() {
                    let pb = if b < e {
                        b
                    } else {
                        b + 1
                    };
                    assert(router.routes[pa].key != router.routes[pb].key);
                } else {
                    assert(!holds_at(router.routes, key, pa));
                }
            }
            assert forall|a: int| 0 <= a < next.routes.len() implies {
                &&& (#[trigger] next.routes[a]).stack.wf()
                &&& next.routes[a].stack.limits == next.limits
                &&& next.routes[a].stack.serving() == !next.draining
            } by {
                if a < kept.len() {
                    let pa = if a < e {
                        a
                    } else {
                        a + 1
                    };
                    assert(router.routes[pa].stack.wf());
                }
            }
        }
    }
}

/// Replacing the stack of one route by a sound one that serves as the router
/// does keeps the router sound.
pub proof fn lemma_with_stack_wf(router: RouterView, i: int, stack: Stack)
    requires
        router.wf(),
        0 <= i < router.routes.len(),
        stack.wf(),
        stack.limits == router.limits,
        stack.serving() == !router.draining,
    ensures
        router.with_stack(i, stack).wf(),
{
    let next = router.with_stack(i, stack);
    assert forall|a: int, b: int| 0 <= a < b < next.routes.len() implies (
    #[trigger] next.routes[a]).key != (#[trigger] next.routes[b]).key by {
        assert(router.routes[a].key != router.routes[b].key);
    }
    assert forall|a: int| 0 <= a < next.routes.len() implies {
        &&& (#[trigger] next.routes[a]).stack.wf()
        &&& next.routes[a].stack.limits == next.limits
        &&& next.routes[a].stack.serving() == !next.draining
    } by {
        assert(router.routes[a].stack.wf());
    }
}

impl Router {
    /// A router without routes that derives keys by `rule`, holds at most
    /// `capacity` routes and gives each stack the caps `limits`.
    pub fn new(rule: Recognize, capacity: usize, limits: Limits) -> (router: Router)
        ensures
            router@ == (RouterView {
                rule,
                limits,
                capacity,
                draining: false,
                routes: Seq::<RouteView>::empty(),
            }),
            router@.wf(),
    {
        let router = Router { rule, limits, capacity, draining: false, routes: Vec::new() };
        assert(router@.routes =~= Seq::<RouteView>::empty());
        router
    }

    /// The most routes that the router holds.
    pub fn capacity(&self) -> (capacity: usize)
        ensures
            capacity == self@.capacity,
    {
        self.capacity
    }

    /// The number of routes; never more than the capacity.
    pub fn len(&self) -> (len: usize)
        requires
            self@.wf(),
        ensures
            len == self@.routes.len(),
            len <= self@.capacity,
    {
        self.routes.len()
    }

    /// Whether the router has been told to drain.
    pub fn is_draining(&self) -> (draining: bool)
        ensures
            draining == self@.draining,
    {
        self.draining
    }

    /// Where the route for `key` is, if there is one.
    fn find(&self, key: &Key) -> (found: Option<usize>)
        requires
            self@.wf(),
        ensures
            match found {
                Some(i) => position(self@.routes, key@) == Some(i as int) && i < self.routes.len(),
                None => position(self@.routes, key@) is None,
            },
    {
        let mut i: usize = 0;
        while i < self.routes.len()
            invariant
                i <= self.routes.len(),
                self@.wf(),
                forall|k: int| 0 <= k < i ==> !holds_at(self@.routes, key@, k),
            decreases self.routes.len() - i,
        {
            if self.routes[i].key.same(key) {
                proof {
                    assert(holds_at(self@.routes, key@, i as int));
                    lemma_position_is(self@.routes, key@, i as int);
                }
                return Some(i);
            }
            i += 1;
        }
        None
    }

    /// The idle route that was used least recently, if any route is idle.
    fn find_lru_idle(&self) -> (found: Option<usize>)
        ensures
            match found {
                Some(i) => lru_idle(self@.routes) == Some(i as int) && i < self.routes.len(),
                None => lru_idle(self@.routes) is None,
            },
    {
        let mut best: Option<usize> = None;
        let mut i: usize = 0;
        while i < self.routes.len()
            invariant
                i <= self.routes.len(),
                match best {
                    Some(b) => {
                        &&& b < i
                        &&& self@.routes[b as int].stack.state is Idle
                        &&& forall|j: int|
                            0 <= j < i && (#[trigger] self@.routes[j]).stack.state is Idle
                                ==> self@.routes[b as int].last_used < self@.routes[j].last_used
                                || (self@.routes[b as int].last_used == self@.routes[j].last_used
                                && b <= j)
                    },
                    None => forall|j: int|
                        0 <= j < i ==> !((#[trigger] self@.routes[j]).stack.state is Idle),
                },
            decreases self.routes.len() - i,
        {
            if self.routes[i].stack.is_idle() {
                match best {
                    Some(b) => {
                        if self.routes[i].last_used < self.routes[b].last_used {
                            best = Some(i);
                        }
                    },
                    None => {
                        best = Some(i);
                    },
                }
            }
            i += 1;
        }
        proof {
            match best {
                Some(b) => {
                    assert(is_lru_idle(self@.routes, b as int));
                    lemma_lru_idle_is(self@.routes, b as int);
                },
                None => {
                    assert forall|c: int| !is_lru_idle(self@.routes, c) by {
                        if 0 <= c < self@.routes.len() {
                            assert(!(self@.routes[c].stack.state is Idle));
                        }
                    }
                },
            }
        }
        best
    }

    /// Whether `key` has a route.
    pub fn contains(&self, key: &Key) -> (found: bool)
        requires
            self@.wf(),
        ensures
            found == position(self@.routes, key@) is Some,
    {
        self.find(key).is_some()
    }

    /// The stack of the route for `key`, if there is one.
    pub fn stack_of(&self, key: &Key) -> (stack: Option<Stack>)
        requires
            self@.wf(),
        ensures
            stack == (match position(self@.routes, key@) {
                Some(i) => Some(self@.routes[i].stack),
                None => None,
            }),
    {
        match self.find(key) {
            Some(i) => Some(self.routes[i].stack),
            None => None,
        }
    }

    /// Routes a request for `key` that arrived at time `now`.
    ///
    /// A draining router refuses it as gone. A key that has a route is offered
    /// to that route's stack, and the route counts as used at `now` if the
    /// stack took the request. A new key gets a route of its own, in which the
    /// request waits until the caller has built the stack: at the end of the
    /// map while there is room, else in place of the idle route used least
    /// recently, which is handed back terminated. Where the map is full and no
    /// route is idle, the request is refused with the router's capacity.
    /// A refused request leaves the router as it was.
    pub fn route(&mut self, key: Key, now: u64) -> (routed: Result<Routed, RouteError>)
        requires
            old(self)@.wf(),
        ensures
            final(self)@.wf(),
            final(self)@ == old(self)@.spec_route(key@, now).0,
            routed_view(routed) == old(self)@.spec_route(key@, now).1,
    {
        proof {
            law_capacity_bound(self@, key@, now);
        }
        if self.draining {
            return Err(RouteError::Inner(InnerError::ServiceGone));
        }
        match self.find(&key) {
            Some(i) => {
                let mut stack = self.routes[i].stack;
                assert(self@.routes[i as int].stack.wf());
                match stack.offer() {
                    Ok(placement) => {
                        self.routes[i].stack = stack;
                        self.routes[i].last_used = now;
                        assert(self@.routes =~= old(self)@.routes.update(
                            i as int,
                            RouteView { key: key@, stack, last_used: now },
                        ));
                        Ok(Routed { key, created: false, placement, evicted: None })
                    },
                    Err(error) => Err(error),
                }
            },
            None => {
                if self.limits.max_queued == 0 {
                    return Err(RouteError::NoCapacity(0));
                }
                let mut evicted: Option<Route> = None;
                if self.routes.len() >= self.capacity {
                    match self.find_lru_idle() {
                        Some(e) => {
                            let mut gone = self.routes.remove(e);
                            assert(gone@ == old(self)@.routes[e as int]);
                            assert(gone.stack.wf());
                            gone.stack.drain();
                            assert(self@.routes =~= old(self)@.routes.remove(e as int));
                            evicted = Some(gone);
                        },
                        None => {
                            return Err(RouteError::NoCapacity(self.capacity));
                        },
                    }
                }
                let mut stack = Stack::new(self.limits);
                let placed = stack.offer();
                assert(placed == Ok::<Placement, RouteError>(Placement::Queued));
                let ghost before = self@.routes;
                self.routes.push(Route { key: key.duplicate(), stack, last_used: now });
                assert(self@.routes =~= before.push(fresh_route(key@, self.limits, now)));
                Ok(Routed { key, created: true, placement: Placement::Queued, evicted })
            },
        }
    }

    /// Recognizes a request and routes it: `route` under the key that the
    /// router's rule derives from the request's authority and the
    /// connection's original destination. A request that yields no key is
    /// refused as not recognized.
    pub fn call(
        &mut self,
        request: &RequestHead,
        original_dst: Option<SocketAddress>,
        now: u64,
    ) -> (routed: Result<Routed, RouteError>)
        requires
            old(self)@.wf(),
        ensures
            final(self)@.wf(),
            final(self)@ == old(self)@.spec_call(
                request.effective_authority(),
                original_dst,
                now,
            ).0,
            routed_view(routed) == old(self)@.spec_call(
                request.effective_authority(),
                original_dst,
                now,
            ).1,
    {
        match self.rule.recognize(request, original_dst) {
            Ok(key) => self.route(key, now),
            Err(_) => Err(RouteError::NotRecognized),
        }
    }

    /// Records that a request in flight for `key` completed. Without a route
    /// for `key` nothing changes.
    pub fn complete(&mut self, key: &Key) -> (done: Completed)
        requires
            old(self)@.wf(),
        ensures
            final(self)@.wf(),
            final(self)@ == old(self)@.spec_complete(key@).0,
            done == old(self)@.spec_complete(key@).1,
    {
        match self.find(key) {
            Some(i) => {
                let mut stack = self.routes[i].stack;
                assert(self@.routes[i as int].stack.wf());
                let done = stack.complete();
                self.routes[i].stack = stack;
                proof {
                    lemma_with_stack_wf(old(self)@, i as int, stack);
                    assert(self@.routes =~= old(self)@.with_stack(i as int, stack).routes);
                }
                done
            },
            None => Completed::Nothing,
        }
    }

    /// Sets the readiness of the stack for `key`, and returns how many of its
    /// queued requests thereby went in flight. Without a route for `key`
    /// nothing changes.
    pub fn set_ready(&mut self, key: &Key, ready: bool) -> (promoted: usize)
        requires
            old(self)@.wf(),
        ensures
            final(self)@.wf(),
            final(self)@ == old(self)@.spec_set_ready(key@, ready),
            promoted == (match position(old(self)@.routes, key@) {
                Some(i) => if ready {
                    old(self)@.routes[i].stack.promotable()
                } else {
                    0
                },
                None => 0,
            }),
    {
        match self.find(key) {
            Some(i) => {
                let mut stack = self.routes[i].stack;
                assert(self@.routes[i as int].stack.wf());
                let promoted = stack.set_ready(ready);
                self.routes[i].stack = stack;
                proof {
                    lemma_with_stack_wf(old(self)@, i as int, stack);
                    assert(self@.routes =~= old(self)@.with_stack(i as int, stack).routes);
                }
                promoted
            },
            None => 0,
        }
    }

    /// Records that a queued request for `key` gave up waiting.
    pub fn withdraw(&mut self, key: &Key) -> (withdrawn: bool)
        requires
            old(self)@.wf(),
        ensures
            final(self)@.wf(),
            final(self)@ == old(self)@.spec_withdraw(key@),
            withdrawn == (match position(old(self)@.routes, key@) {
                Some(i) => old(self)@.routes[i].stack.queued > 0,
                None => false,
            }),
    {
        match self.find(key) {
            Some(i) => {
                let mut stack = self.routes[i].stack;
                assert(self@.routes[i as int].stack.wf());
                let withdrawn = stack.withdraw();
                self.routes[i].stack = stack;
                proof {
                    lemma_with_stack_wf(old(self)@, i as int, stack);
                    assert(self@.routes =~= old(self)@.with_stack(i as int, stack).routes);
                }
                withdrawn
            },
            None => false,
        }
    }

    /// Gives up the route for `key`, as when its stack could not be built:
    /// the failure is not remembered, and the next request for the key makes
    /// a new route. The route is handed back with what was outstanding on it.
    pub fn abandon(&mut self, key: &Key) -> (gone: Option<Route>)
        requires
            old(self)@.wf(),
        ensures
            final(self)@.wf(),
            final(self)@ == old(self)@.spec_abandon(key@),
            match gone {
                Some(route) => position(old(self)@.routes, key@) is Some && route@ == old(
                    self,
                )@.routes[position(old(self)@.routes, key@)->0],
                None => position(old(self)@.routes, key@) is None,
            },
    {
        match self.find(key) {
            Some(i) => {
                let gone = self.routes.remove(i);
                proof {
                    let prior = old(self)@.routes;
                    let next = self@.routes;
                    assert(next =~= prior.remove(i as int));
                    assert forall|a: int| 0 <= a < next.len() implies #[trigger] next[a]
                        == prior[if a < i {
                        a
                    } else {
                        a + 1
                    }] by {}
                    assert forall|a: int, b: int| 0 <= a < b < next.len() implies (
                    #[trigger] next[a]).key != (#[trigger] next[b]).key by {
                        let pa = if a < i {
                            a
                        } else {
                            a + 1
                        };
                        let pb = if b < i {
                            b
                        } else {
                            b + 1
                        };
                        assert(prior[pa].key != prior[pb].key);
                    }
                    assert forall|a: int| 0 <= a < next.len() implies {
                        &&& (#[trigger] next[a]).stack.wf()
                        &&& next[a].stack.limits == self@.limits
                        &&& next[a].stack.serving() == !self@.draining
                    } by {
                        let pa = if a < i {
                            a
                        } else {
                            a + 1
                        };
                        assert(prior[pa].stack.wf());
                    }
                }
                Some(gone)
            },
            None => None,
        }
    }

    /// Tells the router to drain: it routes no new request, and every stack
    /// drains. Requests that are outstanding go on to completion.
    pub fn drain(&mut self)
        requires
            old(self)@.wf(),
        ensures
            final(self)@.wf(),
            final(self)@ == old(self)@.spec_drain(),
    {
        self.draining = true;
        let mut i: usize = 0;
        while i < self.routes.len()
            invariant
                i <= self.routes.len(),
                self.routes.len() == old(self).routes.len(),
                self.draining,
                self.rule == old(self).rule,
                self.limits == old(self).limits,
                self.capacity == old(self).capacity,
                old(self)@.wf(),
                forall|k: int|
                    0 <= k < i ==> (#[trigger] self@.routes[k]) == (RouteView {
                        stack: old(self)@.routes[k].stack.spec_drain(),
                        ..old(self)@.routes[k]
                    }),
                forall|k: int|
                    i <= k < self.routes.len() ==> (#[trigger] self@.routes[k]) == old(
                        self,
                    )@.routes[k],
            decreases self.routes.len() - i,
        {
            let mut stack = self.routes[i].stack;
            let ghost before = self@.routes;
            assert(old(self)@.routes[i as int].stack.wf());
            assert(before[i as int] == old(self)@.routes[i as int]);
            stack.drain();
            self.routes[i].stack = stack;
            assert forall|k: int| 0 <= k < self.routes.len() implies #[trigger] self@.routes[k] == (
            if k == i {
                RouteView { stack, ..before[k] }
            } else {
                before[k]
            }) by {}
            i += 1;
        }
        proof {
            let prior = old(self)@;
            assert(self@.routes =~= prior.spec_drain().routes);
            assert forall|a: int, b: int| 0 <= a < b < self@.routes.len() implies (
            #[trigger] self@.routes[a]).key != (#[trigger] self@.routes[b]).key by {
                assert(prior.routes[a].key != prior.routes[b].key);
            }
            assert forall|a: int| 0 <= a < self@.routes.len() implies {
                &&& (#[trigger] self@.routes[a]).stack.wf()
                &&& self@.routes[a].stack.limits == self@.limits
                &&& self@.routes[a].stack.serving() == !self@.draining
            } by {
                assert(prior.routes[a].stack.wf());
            }
        }
    }

    /// Whether the router drains and all its stacks have terminated.
    pub fn is_drained(&self) -> (drained: bool)
        ensures
            drained == self@.drained(),
    {
        if !self.draining {
            return false;
        }
        let mut i: usize = 0;
        while i < self.routes.len()
            invariant
                i <= self.routes.len(),
                forall|k: int| 0 <= k < i ==> (#[trigger] self@.routes[k]).stack.state is Terminated,
            decreases self.routes.len() - i,
        {
            if !self.routes[i].stack.is_terminated() {
                assert(!(self@.routes[i as int].stack.state is Terminated));
                return false;
            }
            i += 1;
        }
        true
    }
}

/// No request loses its route to eviction: a route with anything
/// outstanding is still in the map, under the same key, after any request
/// was routed.
pub proof fn law_busy_routes_stay(router: RouterView, key: Seq<u8>, now: u64, i: int)
    requires
        router.wf(),
        0 <= i < router.routes.len(),
        router.routes[i].stack.outstanding() > 0,
    ensures
        position(router.spec_route(key, now).0.routes, router.routes[i].key) is Some,
{
    let next = router.spec_route(key, now).0;
    let busy = router.routes[i].key;
    assert(router.routes[i].stack.wf());
    if router.draining {
        assert(holds_at(next.routes, busy, i));
    } else if position(router.routes, key) is Some {
        let at = position(router.routes, key)->0;
        assert(holds_at(router.routes, key, at));
        assert(holds_at(next.routes, busy, i));
    } else if router.limits.max_queued == 0 {
        assert(holds_at(next.routes, busy, i));
    } else if router.routes.len() < router.capacity {
        assert(holds_at(next.routes, busy, i));
    } else if lru_idle(router.routes) is Some {
        let e = lru_idle(router.routes)->0;
        assert(is_lru_idle(router.routes, e));
        assert(e != i);
        let moved = if i < e {
            i
        } else {
            i - 1
        };
        assert(next.routes[moved] == router.routes[i]);
        assert(holds_at(next.routes, busy, moved));
    } else {
        assert(holds_at(next.routes, busy, i));
    }
}

/// A route that made way is gone for good: it was idle, it is handed back
/// terminated, and whoever still offers a request to its stack is refused.
pub proof fn law_evicted_route_is_gone(router: RouterView, key: Seq<u8>, now: u64)
    requires
        router.wf(),
        router.spec_route(key, now).1 matches Ok(routed) && routed.evicted is Some,
    ensures
        ({
            let gone = router.spec_route(key, now).1->Ok_0.evicted->0;
            &&& gone.stack.state is Terminated
            &&& gone.stack.outstanding() == 0
            &&& gone.stack.spec_offer().1 == Err::<Placement, RouteError>(
                RouteError::Inner(InnerError::ServiceGone),
            )
            &&& position(router.routes, gone.key) is Some
            &&& position(router.spec_route(key, now).0.routes, gone.key) is None
        }),
{
    let e = lru_idle(router.routes)->0;
    assert(lru_idle(router.routes) is Some);
    assert(is_lru_idle(router.routes, e));
    let gone = router.routes[e];
    assert(gone.stack.wf());
    assert(holds_at(router.routes, gone.key, e));
    let next = router.spec_route(key, now).0.routes;
    assert(forall|a: int| 0 <= a < router.routes.len() ==> !holds_at(router.routes, key, a));
    assert forall|a: int| !holds_at(next, gone.key, a) by {
        if 0 <= a < next.len() {
            if a < next.len() - 1 {
                let pa = if a < e {
                    a
                } else {
                    a + 1
                };
                assert(next[a] == router.routes[pa]);
                if pa < e {
                    assert(router.routes[pa].key != router.routes[e].key);
                } else {
                    assert(router.routes[e].key != router.routes[pa].key);
                }
            } else {
                assert(next[a].key == key);
                assert(!holds_at(router.routes, key, e));
            }
        }
    }
}

/// Requests for one key share one route: once a request for a key was
/// routed, the next request for that key finds the route and makes no
/// other.
pub proof fn law_single_flight(router: RouterView, key: Seq<u8>, first: u64, second: u64)
    requires
        router.wf(),
        router.spec_route(key, first).1 is Ok,
    ensures
        position(router.spec_route(key, first).0.routes, key) is Some,
        router.spec_route(key, first).0.spec_route(key, second).0.routes.len()
            == router.spec_route(key, first).0.routes.len(),
        router.spec_route(key, first).0.spec_route(key, second).1 matches Ok(again)
            ==> !again.created && again.evicted is None,
{
    let next = router.spec_route(key, first).0;
    if position(router.routes, key) is Some {
        let at = position(router.routes, key)->0;
        assert(holds_at(router.routes, key, at));
        assert(holds_at(next.routes, key, at));
    } else {
        assert(holds_at(next.routes, key, next.routes.len() - 1));
    }
}

/// Nothing is routed once the router drains: every request is refused as
/// gone, and the router stays as it is.
pub proof fn law_no_dispatch_after_drain(router: RouterView, key: Seq<u8>, now: u64)
    ensures
        router.spec_drain().spec_route(key, now).1 == Err::<RoutedView, RouteError>(
            RouteError::Inner(InnerError::ServiceGone),
        ),
        router.spec_drain().spec_route(key, now).0 == router.spec_drain(),
        router.spec_drain().spec_drain().draining,
{
}

} // verus!
