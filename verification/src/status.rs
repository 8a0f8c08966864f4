//! Errors, and what becomes of each: the HTTP status that answers a failed
//! request, and how each kind of failure is handled.

use crate::listener::{spec_on_accept_error, on_accept_error, AcceptAction, AcceptFault};
use vstd::prelude::*;

verus! {

/// Which deadline passed.
#[derive(Clone, Copy, Debug, PartialEq, Eq, Structural)]
pub enum TimeoutKind {
    /// Waiting for an upstream: a ready endpoint, a connection, a response.
    UpstreamWait,
    /// Waiting for the client to finish sending its request.
    RequestRead,
}

/// What went wrong below the router while a request was being served.
#[derive(Clone, Copy, Debug, PartialEq, Eq, Structural)]
pub enum InnerError {
    /// Discovery reported that the destination name does not exist.
    DiscoveryNotFound,
    /// The stack that the request held on to was evicted or drained.
    ServiceGone,
    /// No connection to the chosen endpoint could be made.
    UpstreamConnect,
}

/// An error surfaced while a request was dispatched through the router.
#[derive(Clone, Copy, Debug, PartialEq, Eq, Structural)]
pub enum RouteError {
    /// No service key could be derived from the request.
    NotRecognized,
    /// The router, or a stack's queue, holds as many entries as it may.
    NoCapacity(usize),
    /// Building the stack for the key failed.
    Route,
    /// The stack itself failed the request.
    Inner(InnerError),
}

/// The kinds of failure that the dataplane knows.
#[derive(Clone, Copy, Debug, PartialEq, Eq, Structural)]
pub enum ErrorKind {
    /// A listener could not be bound.
    BindFailure,
    /// An accept failed.
    AcceptTransient(AcceptFault),
    /// Too few bytes arrived for protocol detection in time.
    ProtocolDetectTimeout,
    /// No service key could be derived from a request.
    NotRecognized,
    /// The router or a queue was full.
    NoCapacity(usize),
    /// No connection to an upstream could be made.
    UpstreamConnect,
    /// Discovery reported that the destination does not exist.
    DiscoveryNotFound,
    /// A deadline passed.
    Timeout(TimeoutKind),
    /// Drain was signalled while accepting or dispatching.
    DrainSignaled,
}

/// What is done about a failure.
#[derive(Clone, Copy, Debug, PartialEq, Eq, Structural)]
pub enum Disposition {
    /// The process gives up at startup.
    Fatal,
    /// The accept loop goes on, as the action says.
    Continue(AcceptAction),
    /// The connection is tunnelled as opaque bytes.
    TreatAsOpaque,
    /// The request is answered with this HTTP status.
    Respond(u16),
    /// The endpoint counts as failing and is reconnected to after a wait.
    Reconnect,
    /// Shutdown proceeds; this is no error.
    Shutdown,
}

pub const INTERNAL_SERVER_ERROR: u16 = 500;

pub const SERVICE_UNAVAILABLE: u16 = 503;

pub const GATEWAY_TIMEOUT: u16 = 504;

pub const REQUEST_TIMEOUT: u16 = 408;

/// The status code that answers a request failed with `error`: 503 when
/// capacity ran out, 500 for everything else.
pub open spec fn spec_status_of(error: RouteError) -> u16 {
    match error {
        RouteError::NoCapacity(_) => SERVICE_UNAVAILABLE,
        RouteError::NotRecognized => INTERNAL_SERVER_ERROR,
        RouteError::Route => INTERNAL_SERVER_ERROR,
        RouteError::Inner(_) => INTERNAL_SERVER_ERROR,
    }
}

/// The status code that answers a request whose deadline passed: gateway
/// timeout where the wait was for an upstream, request timeout where it was
/// for the client.
pub open spec fn spec_timeout_status(kind: TimeoutKind) -> u16 {
    match kind {
        TimeoutKind::UpstreamWait => GATEWAY_TIMEOUT,
        TimeoutKind::RequestRead => REQUEST_TIMEOUT,
    }
}

/// What is done about a failure of the given kind.
pub open spec fn spec_dispose(kind: ErrorKind) -> Disposition {
    match kind {
        ErrorKind::BindFailure => Disposition::Fatal,
        ErrorKind::AcceptTransient(fault) => Disposition::Continue(spec_on_accept_error(fault)),
        ErrorKind::ProtocolDetectTimeout => Disposition::TreatAsOpaque,
        ErrorKind::NotRecognized => Disposition::Respond(INTERNAL_SERVER_ERROR),
        ErrorKind::NoCapacity(_) => Disposition::Respond(SERVICE_UNAVAILABLE),
        ErrorKind::UpstreamConnect => Disposition::Reconnect,
        ErrorKind::DiscoveryNotFound => Disposition::Respond(INTERNAL_SERVER_ERROR),
        ErrorKind::Timeout(kind) => Disposition::Respond(spec_timeout_status(kind)),
        ErrorKind::DrainSignaled => Disposition::Shutdown,
    }
}

/// The words that go with the status of a failed request.
pub open spec fn spec_reason(error: RouteError) -> Seq<char> {
    match error {
        RouteError::NotRecognized => "request not recognized"@,
        RouteError::NoCapacity(_) => "router at capacity"@,
        RouteError::Route => "route could not be built"@,
        RouteError::Inner(InnerError::DiscoveryNotFound) => "destination does not exist"@,
        RouteError::Inner(InnerError::ServiceGone) => "service gone"@,
        RouteError::Inner(InnerError::UpstreamConnect) => "upstream connect failed"@,
    }
}

/// Maps a dispatch error to the HTTP status code sent to the client.
pub fn status_of(error: RouteError) -> (code: u16)
    ensures
        code == spec_status_of(error),
{
    match error {
        RouteError::NoCapacity(_) => SERVICE_UNAVAILABLE,
        RouteError::NotRecognized => INTERNAL_SERVER_ERROR,
        RouteError::Route => INTERNAL_SERVER_ERROR,
        RouteError::Inner(_) => INTERNAL_SERVER_ERROR,
    }
}

/// The HTTP status code that answers a request whose deadline passed.
pub fn timeout_status(kind: TimeoutKind) -> (code: u16)
    ensures
        code == spec_timeout_status(kind),
{
    match kind {
        TimeoutKind::UpstreamWait => GATEWAY_TIMEOUT,
        TimeoutKind::RequestRead => REQUEST_TIMEOUT,
    }
}

/// Says what is done about a failure of the given kind.
pub fn dispose(kind: ErrorKind) -> (disposition: Disposition)
    ensures
        disposition == spec_dispose(kind),
{
    match kind {
        ErrorKind::BindFailure => Disposition::Fatal,
        ErrorKind::AcceptTransient(fault) => Disposition::Continue(on_accept_error(fault)),
        ErrorKind::ProtocolDetectTimeout => Disposition::TreatAsOpaque,
        ErrorKind::NotRecognized => Disposition::Respond(INTERNAL_SERVER_ERROR),
        ErrorKind::NoCapacity(_) => Disposition::Respond(SERVICE_UNAVAILABLE),
        ErrorKind::UpstreamConnect => Disposition::Reconnect,
        ErrorKind::DiscoveryNotFound => Disposition::Respond(INTERNAL_SERVER_ERROR),
        ErrorKind::Timeout(kind) => Disposition::Respond(timeout_status(kind)),
        ErrorKind::DrainSignaled => Disposition::Shutdown,
    }
}

/// The words that go with the status of a failed request.
pub fn reason(error: RouteError) -> (text: &'static str)
    ensures
        text@ == spec_reason(error),
{
    match error {
        RouteError::NotRecognized => "request not recognized",
        RouteError::NoCapacity(_) => "router at capacity",
        RouteError::Route => "route could not be built",
        RouteError::Inner(InnerError::DiscoveryNotFound) => "destination does not exist",
        RouteError::Inner(InnerError::ServiceGone) => "service gone",
        RouteError::Inner(InnerError::UpstreamConnect) => "upstream connect failed",
    }
}

/// A failed dispatch and the failure kind of the same name are answered
/// with the same status.
pub proof fn law_status_agrees_with_disposition(capacity: usize)
    ensures
        spec_dispose(ErrorKind::NotRecognized) == Disposition::Respond(
            spec_status_of(RouteError::NotRecognized),
        ),
        spec_dispose(ErrorKind::NoCapacity(capacity)) == Disposition::Respond(
            spec_status_of(RouteError::NoCapacity(capacity)),
        ),
        spec_dispose(ErrorKind::DiscoveryNotFound) == Disposition::Respond(
            spec_status_of(RouteError::Inner(InnerError::DiscoveryNotFound)),
        ),
{
}

} // verus!
