//! The admission state of one service stack: how many requests it has in
//! flight, how many wait in its queue, and where it is in its life.

use crate::status::{InnerError, RouteError};
use vstd::prelude::*;

verus! {

/// The life of a stack. It is idle while nothing is outstanding and active
/// while something is; once told to drain it takes no new request, and it is
/// terminated when the last outstanding one has completed.
#[derive(Clone, Copy, Debug, PartialEq, Eq, Structural)]
pub enum Lifecycle {
    Idle,
    Active,
    Draining,
    Terminated,
}

/// The caps of one stack.
#[derive(Clone, Copy, Debug, PartialEq, Eq, Structural)]
pub struct Limits {
    /// The most requests that may be in flight at once.
    pub max_in_flight: usize,
    /// The most requests that may wait in the queue.
    pub max_queued: usize,
}

/// Where an accepted request went.
#[derive(Clone, Copy, Debug, PartialEq, Eq, Structural)]
pub enum Placement {
    /// Handed on at once; it is now in flight.
    Dispatched,
    /// Held in the queue until the stack is ready and has room.
    Queued,
}

/// What the completion of a request led to.
#[derive(Clone, Copy, Debug, PartialEq, Eq, Structural)]
pub enum Completed {
    /// Nothing was in flight: the call changed nothing.
    Nothing,
    /// One request fewer is in flight.
    Settled,
    /// The oldest queued request took the freed place and is now in flight.
    Promoted,
}

/// The admission state of one service stack.
#[derive(Clone, Copy, Debug, PartialEq, Eq, Structural)]
pub struct Stack {
    pub state: Lifecycle,
    pub ready: bool,
    pub in_flight: usize,
    pub queued: usize,
    pub limits: Limits,
}

/// The smaller of two numbers.
pub open spec fn spec_min(a: int, b: int) -> int {
    if a <= b {
        a
    } else {
        b
    }
}

/// The cap on requests in flight where the protocol has a limit of its own:
/// the smaller of the two.
pub open spec fn spec_effective_cap(configured: usize, protocol: Option<usize>) -> usize {
    match protocol {
        Some(p) => if p < configured {
            p
        } else {
            configured
        },
        None => configured,
    }
}

/// The cap on requests in flight, given the configured one and the protocol's
/// own limit on concurrent streams, if it has one.
pub fn effective_cap(configured: usize, protocol: Option<usize>) -> (cap: usize)
    ensures
        cap == spec_effective_cap(configured, protocol),
{
    match protocol {
        Some(p) => if p < configured {
            p
        } else {
            configured
        },
        None => configured,
    }
}

/// The life that goes with a number of outstanding requests.
pub open spec fn settled(state: Lifecycle, in_flight: int, queued: int) -> Lifecycle {
    if state is Idle || state is Active {
        if in_flight + queued == 0 {
            Lifecycle::Idle
        } else {
            Lifecycle::Active
        }
    } else {
        if in_flight + queued == 0 {
            Lifecycle::Terminated
        } else {
            Lifecycle::Draining
        }
    }
}

impl Stack {
    /// Counts within the caps, life in step with the counts, and nothing
    /// queued while the stack is ready and has room.
    pub open spec fn wf(&self) -> bool {
        &&& self.in_flight <= self.limits.max_in_flight
        &&& self.queued <= self.limits.max_queued
        &&& self.state == settled(self.state, self.in_flight as int, self.queued as int)
        &&& self.queued > 0 ==> !self.ready || self.in_flight == self.limits.max_in_flight
    }

    /// Requests accepted and not yet completed.
    pub open spec fn outstanding(&self) -> int {
        self.in_flight + self.queued
    }

    /// Whether the stack takes new requests.
    pub open spec fn serving(&self) -> bool {
        self.state is Idle || self.state is Active
    }

    /// The stack after a request was offered, and where the request went.
    pub open spec fn spec_offer(self) -> (Stack, Result<Placement, RouteError>) {
        if !self.serving() {
            (self, Err(RouteError::Inner(InnerError::ServiceGone)))
        } else if self.ready && self.in_flight < self.limits.max_in_flight {
            (
                Stack { state: Lifecycle::Active, in_flight: (self.in_flight + 1) as usize, ..self },
                Ok(Placement::Dispatched),
            )
        } else if self.queued < self.limits.max_queued {
            (
                Stack { state: Lifecycle::Active, queued: (self.queued + 1) as usize, ..self },
                Ok(Placement::Queued),
            )
        } else {
            (self, Err(RouteError::NoCapacity(self.limits.max_queued)))
        }
    }

    /// The stack after a request in flight completed, and what that led to.
    pub open spec fn spec_complete(self) -> (Stack, Completed) {
        if self.in_flight == 0 {
            (self, Completed::Nothing)
        } else if self.ready && self.queued > 0 {
            (
                Stack {
                    queued: (self.queued - 1) as usize,
                    state: settled(self.state, self.in_flight as int, self.queued - 1),
                    ..self
                },
                Completed::Promoted,
            )
        } else {
            (
                Stack {
                    in_flight: (self.in_flight - 1) as usize,
                    state: settled(self.state, self.in_flight - 1, self.queued as int),
                    ..self
                },
                Completed::Settled,
            )
        }
    }

    /// How many queued requests a ready stack can take in flight.
    pub open spec fn promotable(self) -> int {
        spec_min(self.queued as int, self.limits.max_in_flight - self.in_flight)
    }

    /// The stack after its readiness changed.
    pub open spec fn spec_set_ready(self, ready: bool) -> Stack {
        if ready {
            Stack {
                ready: true,
                in_flight: (self.in_flight + self.promotable()) as usize,
                queued: (self.queued - self.promotable()) as usize,
                ..self
            }
        } else {
            Stack { ready: false, ..self }
        }
    }

    /// The stack after a queued request gave up waiting.
    pub open spec fn spec_withdraw(self) -> Stack {
        if self.queued == 0 {
            self
        } else {
            Stack {
                queued: (self.queued - 1) as usize,
                state: settled(self.state, self.in_flight as int, self.queued - 1),
                ..self
            }
        }
    }

    /// The stack after it was told to drain.
    pub open spec fn spec_drain(self) -> Stack {
        Stack {
            state: if self.outstanding() == 0 {
                Lifecycle::Terminated
            } else {
                Lifecycle::Draining
            },
            ..self
        }
    }

    /// A new stack: idle, not yet ready, nothing outstanding.
    pub fn new(limits: Limits) -> (stack: Stack)
        ensures
            stack == (Stack { state: Lifecycle::Idle, ready: false, in_flight: 0, queued: 0, limits }),
            stack.wf(),
    {
        Stack { state: Lifecycle::Idle, ready: false, in_flight: 0, queued: 0, limits }
    }

    /// Whether nothing is outstanding on a stack that still serves.
    pub fn is_idle(&self) -> (idle: bool)
        ensures
            idle == (self.state is Idle),
    {
        match self.state {
            Lifecycle::Idle => true,
            _ => false,
        }
    }

    /// Whether the stack has finished for good.
    pub fn is_terminated(&self) -> (done: bool)
        ensures
            done == (self.state is Terminated),
    {
        match self.state {
            Lifecycle::Terminated => true,
            _ => false,
        }
    }

    /// Offers a request. A stack that drains or has terminated refuses it as
    /// gone. A ready stack with room takes it in flight. Otherwise it waits in
    /// the queue, and where the queue is full it is refused for want of
    /// capacity, with the queue's size.
    pub fn offer(&mut self) -> (placed: Result<Placement, RouteError>)
        requires
            old(self).wf(),
        ensures
            final(self).wf(),
            *final(self) == old(self).spec_offer().0,
            placed == old(self).spec_offer().1,
    {
        match self.state {
            Lifecycle::Draining => {
                return Err(RouteError::Inner(InnerError::ServiceGone));
            },
            Lifecycle::Terminated => {
                return Err(RouteError::Inner(InnerError::ServiceGone));
            },
            _ => {},
        }
        if self.ready && self.in_flight < self.limits.max_in_flight {
            self.in_flight = self.in_flight + 1;
            self.state = Lifecycle::Active;
            Ok(Placement::Dispatched)
        } else if self.queued < self.limits.max_queued {
            self.queued = self.queued + 1;
            self.state = Lifecycle::Active;
            Ok(Placement::Queued)
        } else {
            Err(RouteError::NoCapacity(self.limits.max_queued))
        }
    }

    /// Records that a request in flight completed. Where the stack is ready
    /// and a request waits, that one takes the freed place.
    pub fn complete(&mut self) -> (done: Completed)
        requires
            old(self).wf(),
        ensures
            final(self).wf(),
            *final(self) == old(self).spec_complete().0,
            done == old(self).spec_complete().1,
    {
        if self.in_flight == 0 {
            return Completed::Nothing;
        }
        let done = if self.ready && self.queued > 0 {
            self.queued = self.queued - 1;
            Completed::Promoted
        } else {
            self.in_flight = self.in_flight - 1;
            Completed::Settled
        };
        self.settle();
        done
    }

    /// Sets the stack's readiness. A stack that became ready takes as many
    /// queued requests in flight as it has room for; their number is returned.
    pub fn set_ready(&mut self, ready: bool) -> (promoted: usize)
        requires
            old(self).wf(),
        ensures
            final(self).wf(),
            *final(self) == old(self).spec_set_ready(ready),
            promoted == (if ready {
                old(self).promotable()
            } else {
                0
            }),
    {
        self.ready = ready;
        if !ready {
            return 0;
        }
        let room = self.limits.max_in_flight - self.in_flight;
        let promoted = if self.queued < room {
            self.queued
        } else {
            room
        };
        self.in_flight = self.in_flight + promoted;
        self.queued = self.queued - promoted;
        promoted
    }

    /// Records that a queued request gave up waiting.
    pub fn withdraw(&mut self) -> (withdrawn: bool)
        requires
            old(self).wf(),
        ensures
            final(self).wf(),
            *final(self) == old(self).spec_withdraw(),
            withdrawn == (old(self).queued > 0),
    {
        if self.queued == 0 {
            return false;
        }
        self.queued = self.queued - 1;
        self.settle();
        true
    }

    /// Tells the stack to drain: it takes no new request from now on.
    pub fn drain(&mut self)
        requires
            old(self).wf(),
        ensures
            final(self).wf(),
            *final(self) == old(self).spec_drain(),
    {
        if self.in_flight == 0 && self.queued == 0 {
            self.state = Lifecycle::Terminated;
        } else {
            self.state = Lifecycle::Draining;
        }
    }

    fn settle(&mut self)
        ensures
            *final(self) == (Stack {
                state: settled(old(self).state, old(self).in_flight as int, old(self).queued as int),
                ..*old(self)
            }),
    {
        let none = self.in_flight == 0 && self.queued == 0;
        self.state = match self.state {
            Lifecycle::Idle | Lifecycle::Active => if none {
                Lifecycle::Idle
            } else {
                Lifecycle::Active
            },
            _ => if none {
                Lifecycle::Terminated
            } else {
                Lifecycle::Draining
            },
        };
    }
}

/// A stack that drains never serves again, whatever is offered to it or
/// completes on it.
pub proof fn law_draining_is_final(stack: Stack)
    requires
        stack.wf(),
        !stack.serving(),
    ensures
        stack.spec_offer().1 is Err,
        stack.spec_offer().0 == stack,
        !stack.spec_complete().0.serving(),
        !stack.spec_withdraw().serving(),
        !stack.spec_drain().serving(),
{
}

/// A draining stack terminates exactly when its last outstanding request is
/// gone.
pub proof fn law_terminates_when_empty(stack: Stack)
    requires
        stack.wf(),
        !stack.serving(),
    ensures
        stack.state is Terminated <==> stack.outstanding() == 0,
        stack.spec_complete().0.state is Terminated <==> stack.spec_complete().0.outstanding()
            == 0,
{
}

} // verus!
