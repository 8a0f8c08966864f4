//! The transparent server's decisions about an accepted connection: how it
//! is served, and how it is wound down when the proxy drains.

use crate::addr::SocketAddress;
use crate::key::Direction;
use crate::ports::{listed_ports, lists_port};
use crate::protocol::{inspect, peeked, request_head_parse, spec_inspect, HeadParse, Protocol};
use indexmap::IndexSet;
use std::collections::hash_map::RandomState;
use vstd::prelude::*;

verus! {

/// An accepted connection.
#[derive(Debug)]
pub struct Connection {
    /// The address of the listener that accepted it.
    pub local: SocketAddress,
    /// The peer's address.
    pub remote: SocketAddress,
    /// Where the client meant to connect before it was redirected here.
    pub original_dst: Option<SocketAddress>,
    /// Which way the listener's traffic flows.
    pub direction: Direction,
    /// The first bytes that arrived, peeked and not consumed.
    pub prefix: Vec<u8>,
}

/// How a connection is served.
#[derive(Clone, Copy, Debug, PartialEq, Eq, Structural)]
pub enum Plan {
    /// Speak HTTP/1 and route each request.
    Http1,
    /// Speak HTTP/2 and route each request.
    Http2,
    /// Connect to the address and carry bytes both ways.
    Tunnel(SocketAddress),
    /// Close the connection: there is nowhere to carry its bytes.
    Reset,
}

/// What a connection is told to do while the proxy drains.
#[derive(Clone, Copy, Debug, PartialEq, Eq, Structural)]
pub enum DrainStep {
    /// HTTP/2: announce with GOAWAY and NO_ERROR that no new stream is
    /// taken, and let the open streams go on.
    GoAway,
    /// HTTP/2: reset the streams that are still open with CANCEL.
    CancelStreams,
    /// HTTP/1: take no further request after the one in progress.
    FinishCurrent,
    /// HTTP/1 and tunnels: stop reading on both sides, write out what is
    /// held, then close.
    HalfClose,
    /// Tunnels before the deadline: carry on.
    Continue,
}

/// Whether protocol detection is switched off for a connection: it has an
/// original destination, and the port of that is exempt.
pub open spec fn spec_skips_detection(exempt: Set<u16>, original_dst: Option<SocketAddress>) -> bool {
    original_dst is Some && exempt.contains(original_dst->0.port)
}

/// The protocol of a connection: opaque where detection is switched off for
/// it, else what its first bytes show.
pub open spec fn spec_protocol(
    exempt: Set<u16>,
    original_dst: Option<SocketAddress>,
    prefix: Seq<u8>,
    timed_out: bool,
    parse: HeadParse,
) -> Protocol {
    if spec_skips_detection(exempt, original_dst) {
        Protocol::Opaque
    } else {
        spec_inspect(prefix, timed_out, parse)
    }
}

/// Where an opaque connection is tunnelled to: its original destination,
/// unless it has none or that is the listener itself.
pub open spec fn spec_tunnel_target(local: SocketAddress, original_dst: Option<SocketAddress>) -> Plan {
    match original_dst {
        Some(dst) => if dst == local {
            Plan::Reset
        } else {
            Plan::Tunnel(dst)
        },
        None => Plan::Reset,
    }
}

/// How a connection of the given protocol is served.
pub open spec fn spec_plan_for(
    protocol: Protocol,
    local: SocketAddress,
    original_dst: Option<SocketAddress>,
) -> Plan {
    match protocol {
        Protocol::Http1 => Plan::Http1,
        Protocol::Http2 => Plan::Http2,
        Protocol::Opaque => spec_tunnel_target(local, original_dst),
    }
}

/// What a connection served under `plan` does while the proxy drains,
/// before and after the drain deadline.
pub open spec fn spec_on_drain(plan: Plan, deadline_passed: bool) -> DrainStep {
    match plan {
        Plan::Http2 => if deadline_passed {
            DrainStep::CancelStreams
        } else {
            DrainStep::GoAway
        },
        Plan::Http1 => if deadline_passed {
            DrainStep::HalfClose
        } else {
            DrainStep::FinishCurrent
        },
        Plan::Tunnel(_) => if deadline_passed {
            DrainStep::HalfClose
        } else {
            DrainStep::Continue
        },
        Plan::Reset => DrainStep::HalfClose,
    }
}

/// How many requests a connection can have in flight by its protocol alone:
/// one on HTTP/1, which takes them in turn, and as many as the settings
/// allow streams on HTTP/2.
pub open spec fn spec_natural_limit(plan: Plan, max_streams: usize) -> Option<usize> {
    match plan {
        Plan::Http1 => Some(1),
        Plan::Http2 => Some(max_streams),
        _ => None,
    }
}

/// Whether protocol detection is switched off for a connection with the
/// given original destination, so that no byte of it need be awaited.
pub fn skips_detection(exempt: &IndexSet<u16, RandomState>, original_dst: Option<SocketAddress>) -> (skip:
    bool)
    ensures
        skip == spec_skips_detection(listed_ports(*exempt), original_dst),
{
    match original_dst {
        Some(dst) => lists_port(exempt, dst.port),
        None => false,
    }
}

/// Decides how a connection of the given protocol is served.
pub fn plan_for(protocol: Protocol, local: SocketAddress, original_dst: Option<SocketAddress>) -> (plan:
    Plan)
    ensures
        plan == spec_plan_for(protocol, local, original_dst),
{
    match protocol {
        Protocol::Http1 => Plan::Http1,
        Protocol::Http2 => Plan::Http2,
        Protocol::Opaque => match original_dst {
            Some(dst) => if dst == local {
                Plan::Reset
            } else {
                Plan::Tunnel(dst)
            },
            None => Plan::Reset,
        },
    }
}

impl Connection {
    /// Decides how the connection is served, from its first bytes and its
    /// original destination. `timed_out` says that the detection timeout ran
    /// out before enough bytes were there.
    pub fn plan(&self, exempt: &IndexSet<u16, RandomState>, timed_out: bool) -> (plan: Plan)
        ensures
            plan == spec_plan_for(
                spec_protocol(
                    listed_ports(*exempt),
                    self.original_dst,
                    self.prefix@,
                    timed_out,
                    request_head_parse(peeked(self.prefix@)),
                ),
                self.local,
                self.original_dst,
            ),
    {
        let protocol = if skips_detection(exempt, self.original_dst) {
            Protocol::Opaque
        } else {
            inspect(self.prefix.as_slice(), timed_out)
        };
        plan_for(protocol, self.local, self.original_dst)
    }
}

/// Says what a connection served under `plan` does while the proxy drains.
pub fn on_drain(plan: Plan, deadline_passed: bool) -> (step: DrainStep)
    ensures
        step == spec_on_drain(plan, deadline_passed),
{
    match plan {
        Plan::Http2 => if deadline_passed {
            DrainStep::CancelStreams
        } else {
            DrainStep::GoAway
        },
        Plan::Http1 => if deadline_passed {
            DrainStep::HalfClose
        } else {
            DrainStep::FinishCurrent
        },
        Plan::Tunnel(_) => if deadline_passed {
            DrainStep::HalfClose
        } else {
            DrainStep::Continue
        },
        Plan::Reset => DrainStep::HalfClose,
    }
}

/// The number of requests a connection can have in flight by its protocol
/// alone, `max_streams` being what the HTTP/2 settings allow.
pub fn natural_limit(plan: Plan, max_streams: usize) -> (limit: Option<usize>)
    ensures
        limit == spec_natural_limit(plan, max_streams),
{
    match plan {
        Plan::Http1 => Some(1),
        Plan::Http2 => Some(max_streams),
        _ => None,
    }
}

} // verus!
