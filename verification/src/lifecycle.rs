//! The life of the proxy as a whole: the listeners it runs on, and the order
//! in which it shuts down.
//!
//! Shutdown goes in three steps, none begun before the one before it is
//! done: the listeners stop accepting, the requests in flight drain, and the
//! worker pool stops when all its tasks have ended.

use crate::addr::SocketAddress;
use crate::config::{Config, Listener};
use vstd::prelude::*;

verus! {

/// Where the proxy is in its life.
#[derive(Clone, Copy, Debug, PartialEq, Eq, Structural)]
pub enum Phase {
    /// Serving.
    Running,
    /// Shutdown was signalled; the listeners are closing.
    DrainingListeners,
    /// The listeners are closed; requests in flight are completing.
    DrainingRequests,
    /// Nothing is in flight; the worker pool is stopping.
    StoppingPool,
    /// All tasks have ended.
    Stopped,
}

/// What the runtime reports.
#[derive(Clone, Copy, Debug, PartialEq, Eq, Structural)]
pub enum Event {
    /// The shutdown signal fired.
    ShutdownSignaled,
    /// Every accept loop has ended.
    ListenersClosed,
    /// The drain is complete: nothing is in flight.
    RequestsDrained,
    /// The worker pool has stopped, all its tasks ended.
    PoolStopped,
}

/// What the runtime is to do next.
#[derive(Clone, Copy, Debug, PartialEq, Eq, Structural)]
pub enum Action {
    /// Nothing new.
    Wait,
    /// Signal drain, which cancels the accept loops.
    DrainListeners,
    /// Wait for the drain to complete.
    AwaitRequests,
    /// Shut the worker pool down and wait for its tasks.
    ShutdownPool,
    /// Leave, with this exit code.
    Exit(u8),
}

/// How the process ended.
#[derive(Clone, Copy, Debug, PartialEq, Eq, Structural)]
pub enum Outcome {
    /// The proxy drained and stopped.
    CleanDrain,
    /// A listener could not be bound at startup.
    BindFailure,
}

/// The proxy: its settings, the addresses its listeners are bound to, and
/// its phase.
pub struct Main {
    config: Config,
    control: SocketAddress,
    inbound: SocketAddress,
    outbound: SocketAddress,
    metrics: SocketAddress,
    phase: Phase,
}

/// How far along a phase is.
pub open spec fn rank(phase: Phase) -> int {
    match phase {
        Phase::Running => 0,
        Phase::DrainingListeners => 1,
        Phase::DrainingRequests => 2,
        Phase::StoppingPool => 3,
        Phase::Stopped => 4,
    }
}

/// The phase after `event`. Each phase waits for one event; any other
/// leaves it as it is.
pub open spec fn next_phase(phase: Phase, event: Event) -> Phase {
    match (phase, event) {
        (Phase::Running, Event::ShutdownSignaled) => Phase::DrainingListeners,
        (Phase::DrainingListeners, Event::ListenersClosed) => Phase::DrainingRequests,
        (Phase::DrainingRequests, Event::RequestsDrained) => Phase::StoppingPool,
        (Phase::StoppingPool, Event::PoolStopped) => Phase::Stopped,
        _ => phase,
    }
}

/// What entering a phase asks of the runtime.
pub open spec fn entry_action(phase: Phase) -> Action {
    match phase {
        Phase::Running => Action::Wait,
        Phase::DrainingListeners => Action::DrainListeners,
        Phase::DrainingRequests => Action::AwaitRequests,
        Phase::StoppingPool => Action::ShutdownPool,
        Phase::Stopped => Action::Exit(spec_exit_code(Outcome::CleanDrain)),
    }
}

/// What `event` asks of the runtime in `phase`: the entry action of the next
/// phase if the event moves on, and nothing new if it does not.
pub open spec fn action_on(phase: Phase, event: Event) -> Action {
    if next_phase(phase, event) == phase {
        Action::Wait
    } else {
        entry_action(next_phase(phase, event))
    }
}

/// The exit code of the process: zero after a clean drain, one when a
/// listener could not be bound.
pub open spec fn spec_exit_code(outcome: Outcome) -> u8 {
    match outcome {
        Outcome::CleanDrain => 0,
        Outcome::BindFailure => 1,
    }
}

/// The exit code of the process.
pub fn exit_code(outcome: Outcome) -> (code: u8)
    ensures
        code == spec_exit_code(outcome),
{
    match outcome {
        Outcome::CleanDrain => 0,
        Outcome::BindFailure => 1,
    }
}

impl Main {
    /// The settings.
    pub closed spec fn spec_config(&self) -> Config {
        self.config
    }

    /// The address that a listener is bound to.
    pub closed spec fn bound(&self, which: Listener) -> SocketAddress {
        match which {
            Listener::Control => self.control,
            Listener::Inbound => self.inbound,
            Listener::Outbound => self.outbound,
            Listener::Metrics => self.metrics,
        }
    }

    /// The phase.
    pub closed spec fn spec_phase(&self) -> Phase {
        self.phase
    }

    /// A running proxy with these settings, whose four listeners are bound
    /// to the given addresses.
    pub fn new(
        config: Config,
        control: SocketAddress,
        inbound: SocketAddress,
        outbound: SocketAddress,
        metrics: SocketAddress,
    ) -> (main: Main)
        ensures
            main.spec_config() == config,
            main.bound(Listener::Control) == control,
            main.bound(Listener::Inbound) == inbound,
            main.bound(Listener::Outbound) == outbound,
            main.bound(Listener::Metrics) == metrics,
            main.spec_phase() == Phase::Running,
    {
        Main { config, control, inbound, outbound, metrics, phase: Phase::Running }
    }

    /// The settings.
    pub fn config(&self) -> (config: &Config)
        ensures
            *config == self.spec_config(),
    {
        &self.config
    }

    /// The address that the control listener is bound to.
    pub fn control_addr(&self) -> (addr: SocketAddress)
        ensures
            addr == self.bound(Listener::Control),
    {
        self.control
    }

    /// The address that the inbound listener is bound to.
    pub fn inbound_addr(&self) -> (addr: SocketAddress)
        ensures
            addr == self.bound(Listener::Inbound),
    {
        self.inbound
    }

    /// The address that the outbound listener is bound to.
    pub fn outbound_addr(&self) -> (addr: SocketAddress)
        ensures
            addr == self.bound(Listener::Outbound),
    {
        self.outbound
    }

    /// The address that the metrics listener is bound to.
    pub fn metrics_addr(&self) -> (addr: SocketAddress)
        ensures
            addr == self.bound(Listener::Metrics),
    {
        self.metrics
    }

    /// The phase.
    pub fn phase(&self) -> (phase: Phase)
        ensures
            phase == self.spec_phase(),
    {
        self.phase
    }

    /// Takes note of what the runtime reports and says what it is to do
    /// next. Settings and addresses stay as they are.
    pub fn step(&mut self, event: Event) -> (action: Action)
        ensures
            final(self).spec_phase() == next_phase(old(self).spec_phase(), event),
            action == action_on(old(self).spec_phase(), event),
            final(self).spec_config() == old(self).spec_config(),
            forall|which: Listener| final(self).bound(which) == old(self).bound(which),
    {
        let next = match (self.phase, event) {
            (Phase::Running, Event::ShutdownSignaled) => Phase::DrainingListeners,
            (Phase::DrainingListeners, Event::ListenersClosed) => Phase::DrainingRequests,
            (Phase::DrainingRequests, Event::RequestsDrained) => Phase::StoppingPool,
            (Phase::StoppingPool, Event::PoolStopped) => Phase::Stopped,
            _ => self.phase,
        };
        let action = if next == self.phase {
            Action::Wait
        } else {
            match next {
                Phase::Running => Action::Wait,
                Phase::DrainingListeners => Action::DrainListeners,
                Phase::DrainingRequests => Action::AwaitRequests,
                Phase::StoppingPool => Action::ShutdownPool,
                Phase::Stopped => Action::Exit(exit_code(Outcome::CleanDrain)),
            }
        };
        self.phase = next;
        action
    }
}

/// Shutdown never goes back, and never skips a step: an event leaves the
/// phase where it is or moves it on by one.
pub proof fn law_shutdown_in_order(phase: Phase, event: Event)
    ensures
        rank(next_phase(phase, event)) == rank(phase) || rank(next_phase(phase, event)) == rank(
            phase,
        ) + 1,
{
}

/// The worker pool is told to stop only when the requests have drained, and
/// requests are awaited only when the listeners have closed.
pub proof fn law_pool_stops_last(phase: Phase, event: Event)
    ensures
        action_on(phase, event) == Action::ShutdownPool ==> phase == Phase::DrainingRequests
            && event == Event::RequestsDrained,
        action_on(phase, event) == Action::AwaitRequests ==> phase == Phase::DrainingListeners
            && event == Event::ListenersClosed,
        action_on(phase, event) == Action::DrainListeners ==> phase == Phase::Running && event
            == Event::ShutdownSignaled,
        action_on(phase, event) is Exit ==> phase == Phase::StoppingPool && event
            == Event::PoolStopped && action_on(phase, event) == Action::Exit(0),
{
}

} // verus!
