//! The settings that the dataplane reads, and what each listener gets of them.

use crate::addr::SocketAddress;
use crate::key::{Direction, Recognize};
use crate::router::{Router, RouterView, RouteView};
use crate::stack::Limits;
use indexmap::IndexSet;
use std::collections::hash_map::RandomState;
use vstd::prelude::*;

verus! {

/// How long protocol detection waits for the first bytes by default.
pub const DEFAULT_PROTOCOL_DETECT_TIMEOUT_MS: u64 = 10_000;

/// One of the four listeners.
#[derive(Clone, Copy, Debug, PartialEq, Eq, Structural)]
pub enum Listener {
    /// Serves the controller's taps.
    Control,
    /// The public side of the dataplane.
    Inbound,
    /// The private side of the dataplane.
    Outbound,
    /// Serves metrics.
    Metrics,
}

/// The settings of the dataplane. Times are in milliseconds.
pub struct Config {
    pub control_listener: SocketAddress,
    pub public_listener: SocketAddress,
    pub private_listener: SocketAddress,
    pub metrics_listener: SocketAddress,
    /// Where inbound traffic goes when a connection has no original
    /// destination.
    pub private_forward: Option<SocketAddress>,
    pub inbound_router_capacity: usize,
    pub outbound_router_capacity: usize,
    pub inbound_ports_disable_protocol_detection: IndexSet<u16, RandomState>,
    pub outbound_ports_disable_protocol_detection: IndexSet<u16, RandomState>,
    /// How long a request may wait for a ready endpoint.
    pub bind_timeout: u64,
    /// How long connecting to the local application may take.
    pub private_connect_timeout: u64,
    /// How long connecting to another service may take.
    pub public_connect_timeout: u64,
    /// How long protocol detection waits for the first bytes.
    pub protocol_detect_timeout: u64,
    pub event_buffer_capacity: usize,
    pub metrics_retain_idle: u64,
    /// The most requests in flight on one stack.
    pub max_in_flight: usize,
    /// The most requests waiting in one stack's queue.
    pub queue_capacity: usize,
    pub pod_namespace: String,
    /// The controller's address, as `host:port`.
    pub control_host_and_port: Vec<u8>,
}

/// What serving one side of the dataplane takes from the settings.
#[derive(Clone, Copy, Debug, PartialEq, Eq, Structural)]
pub struct ServePlan {
    /// How keys are derived on this listener.
    pub rule: Recognize,
    /// The most routes in this listener's router.
    pub router_capacity: usize,
    /// The caps of each stack.
    pub limits: Limits,
    /// How long a TCP connect towards the destination may take.
    pub connect_timeout: u64,
    /// How long a request may wait for a ready endpoint. Only outbound
    /// requests wait for discovery.
    pub bind_timeout: Option<u64>,
    /// How long protocol detection waits for the first bytes.
    pub protocol_detect_timeout: u64,
}

impl Config {
    /// The address that a listener is to be bound to.
    pub open spec fn spec_listen_addr(&self, which: Listener) -> SocketAddress {
        match which {
            Listener::Control => self.control_listener,
            Listener::Inbound => self.public_listener,
            Listener::Outbound => self.private_listener,
            Listener::Metrics => self.metrics_listener,
        }
    }

    /// What serving in `direction` takes from the settings, on a listener
    /// bound to `bound`. Inbound traffic is routed by the original
    /// destination, falls back to the private forward address and connects
    /// under the private timeout; outbound traffic connects under the public
    /// timeout and waits for discovery no longer than the bind timeout.
    pub open spec fn spec_plan(&self, direction: Direction, bound: SocketAddress) -> ServePlan {
        match direction {
            Direction::Inbound => ServePlan {
                rule: Recognize { direction, local: bound, forward: self.private_forward },
                router_capacity: self.inbound_router_capacity,
                limits: Limits {
                    max_in_flight: self.max_in_flight,
                    max_queued: self.queue_capacity,
                },
                connect_timeout: self.private_connect_timeout,
                bind_timeout: None,
                protocol_detect_timeout: self.protocol_detect_timeout,
            },
            Direction::Outbound => ServePlan {
                rule: Recognize { direction, local: bound, forward: None },
                router_capacity: self.outbound_router_capacity,
                limits: Limits {
                    max_in_flight: self.max_in_flight,
                    max_queued: self.queue_capacity,
                },
                connect_timeout: self.public_connect_timeout,
                bind_timeout: Some(self.bind_timeout),
                protocol_detect_timeout: self.protocol_detect_timeout,
            },
        }
    }

    /// The ports on which protocol detection is switched off in `direction`.
    pub open spec fn spec_exempt_ports(&self, direction: Direction) -> IndexSet<u16, RandomState> {
        match direction {
            Direction::Inbound => self.inbound_ports_disable_protocol_detection,
            Direction::Outbound => self.outbound_ports_disable_protocol_detection,
        }
    }

    /// The address that a listener is to be bound to.
    pub fn listen_addr(&self, which: Listener) -> (addr: SocketAddress)
        ensures
            addr == self.spec_listen_addr(which),
    {
        match which {
            Listener::Control => self.control_listener,
            Listener::Inbound => self.public_listener,
            Listener::Outbound => self.private_listener,
            Listener::Metrics => self.metrics_listener,
        }
    }

    /// What serving in `direction` takes from the settings, on a listener
    /// bound to `bound`.
    pub fn plan(&self, direction: Direction, bound: SocketAddress) -> (plan: ServePlan)
        ensures
            plan == self.spec_plan(direction, bound),
    {
        let limits = Limits { max_in_flight: self.max_in_flight, max_queued: self.queue_capacity };
        match direction {
            Direction::Inbound => ServePlan {
                rule: Recognize { direction, local: bound, forward: self.private_forward },
                router_capacity: self.inbound_router_capacity,
                limits,
                connect_timeout: self.private_connect_timeout,
                bind_timeout: None,
                protocol_detect_timeout: self.protocol_detect_timeout,
            },
            Direction::Outbound => ServePlan {
                rule: Recognize { direction, local: bound, forward: None },
                router_capacity: self.outbound_router_capacity,
                limits,
                connect_timeout: self.public_connect_timeout,
                bind_timeout: Some(self.bind_timeout),
                protocol_detect_timeout: self.protocol_detect_timeout,
            },
        }
    }

    /// The ports on which protocol detection is switched off in `direction`.
    pub fn exempt_ports(&self, direction: Direction) -> (ports: &IndexSet<u16, RandomState>)
        ensures
            *ports == self.spec_exempt_ports(direction),
    {
        match direction {
            Direction::Inbound => &self.inbound_ports_disable_protocol_detection,
            Direction::Outbound => &self.outbound_ports_disable_protocol_detection,
        }
    }
}

impl ServePlan {
    /// The router that this plan calls for: empty, with the plan's rule,
    /// capacity and limits.
    pub fn router(&self) -> (router: Router)
        ensures
            router@ == (RouterView {
                rule: self.rule,
                limits: self.limits,
                capacity: self.router_capacity,
                draining: false,
                routes: Seq::<RouteView>::empty(),
            }),
            router@.wf(),
    {
        Router::new(self.rule, self.router_capacity, self.limits)
    }
}

} // verus!
