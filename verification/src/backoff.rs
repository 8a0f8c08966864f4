//! Reconnecting to an endpoint: how long to wait after each failure, and
//! when to give the endpoint up.
//!
//! The wait starts at `MIN_DELAY_MS`, doubles with each failure in a row up
//! to `MAX_DELAY_MS`, and is spread by up to `JITTER_PERCENT` either way.

use crate::chance::random_below;
use vstd::prelude::*;

verus! {

/// The wait after the first failure, in milliseconds.
pub const MIN_DELAY_MS: u64 = 100;

/// The longest wait, in milliseconds, before jitter.
pub const MAX_DELAY_MS: u64 = 10_000;

/// By how much the wait grows with each failure.
pub const FACTOR: u64 = 2;

/// By how many percent a wait may differ from its base, either way.
pub const JITTER_PERCENT: u64 = 20;

/// Whether an endpoint can take a request.
#[derive(Clone, Copy, Debug, PartialEq, Eq, Structural)]
pub enum Readiness {
    /// Connected.
    Ready,
    /// Not connected yet, or reconnecting.
    Connecting,
    /// Given up on after repeated failures.
    Failed,
}

/// The state of the connection to an endpoint.
#[derive(Clone, Copy, Debug, PartialEq, Eq, Structural)]
pub enum Link {
    Connected,
    /// Waiting to connect, or connecting.
    Waiting,
    /// Given up.
    Failed,
}

/// What to do after a failure.
#[derive(Clone, Copy, Debug, PartialEq, Eq, Structural)]
pub enum Next {
    /// Connect again after this many milliseconds.
    Retry(u64),
    /// Give the endpoint up.
    GiveUp,
}

/// The reconnect state of one endpoint.
#[derive(Clone, Copy, Debug, PartialEq, Eq, Structural)]
pub struct Reconnect {
    pub link: Link,
    /// The wait, before jitter, that the next failure leads to.
    pub delay: u64,
    /// How many failures in a row found the wait at its longest.
    pub cap_hits: u32,
    /// How many such failures make the endpoint fail for good.
    pub fail_after: u32,
}

/// The smaller of two numbers.
pub open spec fn smaller(a: nat, b: nat) -> nat {
    if a <= b {
        a
    } else {
        b
    }
}

/// The wait, before jitter, after `failures` earlier failures in a row.
pub open spec fn base_delay(failures: nat) -> nat
    decreases failures,
{
    if failures == 0 {
        MIN_DELAY_MS as nat
    } else {
        smaller(base_delay((failures - 1) as nat) * FACTOR as nat, MAX_DELAY_MS as nat)
    }
}

/// A wait of `base` spread by `draw`: `base` less `JITTER_PERCENT` percent
/// for 0, `base` itself for `JITTER_PERCENT`, `base` and `JITTER_PERCENT`
/// percent more for twice `JITTER_PERCENT` and anything above, and in
/// proportion between.
pub open spec fn jittered(base: nat, draw: nat) -> nat {
    base * ((100 - JITTER_PERCENT) as nat + smaller(draw, (2 * JITTER_PERCENT) as nat)) / 100
}

impl Reconnect {
    /// The wait lies between the first and the longest, and the count of
    /// failures at the longest wait is short of what gives the endpoint up.
    pub open spec fn wf(self) -> bool {
        &&& MIN_DELAY_MS <= self.delay <= MAX_DELAY_MS
        &&& self.cap_hits < self.fail_after || self.cap_hits == 0
    }

    /// The endpoint after it connected: nothing is held against it.
    pub open spec fn spec_connected(self) -> Reconnect {
        Reconnect { link: Link::Connected, delay: MIN_DELAY_MS, cap_hits: 0, ..self }
    }

    /// Whether one more failure gives the endpoint up: the wait is at its
    /// longest, and has been so as often as is allowed.
    pub open spec fn exhausted(self) -> bool {
        self.delay == MAX_DELAY_MS && self.cap_hits + 1 >= self.fail_after
    }

    /// The endpoint after a failure, and what to do next, `draw` deciding
    /// the jitter.
    pub open spec fn spec_failed(self, draw: u64) -> (Reconnect, Next) {
        if self.link is Failed {
            (self, Next::GiveUp)
        } else if self.exhausted() {
            (Reconnect { link: Link::Failed, ..self }, Next::GiveUp)
        } else {
            (
                Reconnect {
                    link: Link::Waiting,
                    delay: smaller(self.delay as nat * FACTOR as nat, MAX_DELAY_MS as nat) as u64,
                    cap_hits: if self.delay == MAX_DELAY_MS {
                        (self.cap_hits + 1) as u32
                    } else {
                        self.cap_hits
                    },
                    ..self
                },
                Next::Retry(jittered(self.delay as nat, draw as nat) as u64),
            )
        }
    }

    /// The endpoint after `count` failures in a row, each with the jitter
    /// `draw`.
    pub open spec fn spec_failed_times(self, count: nat, draw: u64) -> Reconnect
        decreases count,
    {
        if count == 0 {
            self
        } else {
            self.spec_failed_times((count - 1) as nat, draw).spec_failed(draw).0
        }
    }

    /// What the balancer is told of the endpoint: ready when connected,
    /// failed when given up, connecting otherwise.
    pub open spec fn spec_readiness(self) -> Readiness {
        match self.link {
            Link::Connected => Readiness::Ready,
            Link::Waiting => Readiness::Connecting,
            Link::Failed => Readiness::Failed,
        }
    }

    /// The reconnect state of an endpoint that has not been connected yet,
    /// and that is given up at the `fail_after`-th failure in a row whose
    /// wait had reached the longest.
    pub open spec fn spec_new(fail_after: u32) -> Reconnect {
        Reconnect { link: Link::Waiting, delay: MIN_DELAY_MS, cap_hits: 0, fail_after }
    }

    /// The reconnect state of an endpoint that has not been connected yet.
    pub fn new(fail_after: u32) -> (fresh: Reconnect)
        ensures
            fresh == Self::spec_new(fail_after),
            fresh.wf(),
    {
        Reconnect { link: Link::Waiting, delay: MIN_DELAY_MS, cap_hits: 0, fail_after }
    }

    /// The state of the connection.
    pub fn link(&self) -> (link: Link)
        ensures
            link == self.link,
    {
        self.link
    }

    /// What the balancer is told of the endpoint.
    pub fn readiness(&self) -> (readiness: Readiness)
        ensures
            readiness == self.spec_readiness(),
    {
        match self.link {
            Link::Connected => Readiness::Ready,
            Link::Waiting => Readiness::Connecting,
            Link::Failed => Readiness::Failed,
        }
    }

    /// Records that the endpoint connected.
    pub fn connected(&mut self)
        ensures
            *final(self) == old(self).spec_connected(),
            final(self).wf(),
    {
        self.link = Link::Connected;
        self.delay = MIN_DELAY_MS;
        self.cap_hits = 0;
    }

    /// Records a failure to connect, or the loss of the connection, and
    /// says what to do next, `draw` deciding the jitter: a number from 0 to
    /// twice `JITTER_PERCENT`, a greater one counting as that.
    pub fn failed_with(&mut self, draw: u64) -> (next: Next)
        requires
            old(self).wf(),
        ensures
            final(self).wf(),
            *final(self) == old(self).spec_failed(draw).0,
            next == old(self).spec_failed(draw).1,
    {
        proof {
            law_jitter_bounds(self.delay as nat, draw as nat);
        }
        match self.link {
            Link::Failed => {
                return Next::GiveUp;
            },
            _ => {},
        }
        let at_cap = self.delay == MAX_DELAY_MS;
        if at_cap && (self.fail_after == 0 || self.cap_hits >= self.fail_after - 1) {
            self.link = Link::Failed;
            return Next::GiveUp;
        }
        let spread = if draw <= 2 * JITTER_PERCENT {
            draw
        } else {
            2 * JITTER_PERCENT
        };
        assert(self.delay * (100 - JITTER_PERCENT + spread) <= MAX_DELAY_MS * 120) by (nonlinear_arith)
            requires
                self.delay <= MAX_DELAY_MS,
                spread <= 40,
        ;
        let wait = self.delay * (100 - JITTER_PERCENT + spread) / 100;
        self.link = Link::Waiting;
        if at_cap {
            self.cap_hits = self.cap_hits + 1;
        }
        self.delay = if self.delay > MAX_DELAY_MS / FACTOR {
            MAX_DELAY_MS
        } else {
            self.delay * FACTOR
        };
        Next::Retry(wait)
    }

    /// Records a failure and says what to do next, with jitter drawn at
    /// random.
    pub fn failed(&mut self) -> (next: Next)
        requires
            old(self).wf(),
        ensures
            final(self).wf(),
            exists|draw: u64|
                *final(self) == old(self).spec_failed(draw).0 && next == old(self).spec_failed(
                    draw,
                ).1,
    {
        let draw = random_below((2 * JITTER_PERCENT + 1) as usize) as u64;
        let next = self.failed_with(draw);
        assert(*self == old(self).spec_failed(draw).0);
        next
    }
}

/// The base wait is never shorter than the first nor longer than the last,
/// and never shrinks from one failure to the next.
pub proof fn lemma_base_delay_bounds(failures: nat)
    ensures
        MIN_DELAY_MS <= base_delay(failures) <= MAX_DELAY_MS,
        base_delay(failures) <= base_delay(failures + 1),
    decreases failures,
{
    if failures > 0 {
        lemma_base_delay_bounds((failures - 1) as nat);
    }
}

/// Jitter keeps a wait within `JITTER_PERCENT` percent of its base.
pub proof fn law_jitter_bounds(base: nat, draw: nat)
    ensures
        base * (100 - JITTER_PERCENT) / 100 <= jittered(base, draw) <= base * (100
            + JITTER_PERCENT) / 100,
        jittered(base, JITTER_PERCENT as nat) == base,
{
    let spread = smaller(draw, (2 * JITTER_PERCENT) as nat);
    assert(base * 80 <= base * (80 + spread) <= base * 120) by (nonlinear_arith)
        requires
            spread <= 40,
    ;
    assert(base * 100 / 100 == base);
}

/// The wait doubles with each failure up to the longest: after `count`
/// failures in a row, an endpoint that was connected and has not been given
/// up waits `base_delay(count)`, before jitter, at the next.
pub proof fn law_wait_doubles(start: Reconnect, count: nat, draw: u64)
    requires
        start.link is Connected,
        start.delay == MIN_DELAY_MS,
        start.cap_hits == 0,
        !(start.spec_failed_times(count, draw).link is Failed),
    ensures
        start.spec_failed_times(count, draw).delay == base_delay(count),
        start.spec_failed_times(count, draw).fail_after == start.fail_after,
        start.spec_failed_times(count, draw).wf(),
    decreases count,
{
    if count > 0 {
        let before = start.spec_failed_times((count - 1) as nat, draw);
        if before.link is Failed {
            assert(before.spec_failed(draw).0 == before);
        }
        law_wait_doubles(start, (count - 1) as nat, draw);
        lemma_base_delay_bounds((count - 1) as nat);
    }
}

/// The wait after a failure is within `JITTER_PERCENT` percent of a base
/// that lies between the first and the longest wait.
pub proof fn law_retry_within_bounds(state: Reconnect, draw: u64)
    requires
        state.wf(),
    ensures
        state.spec_failed(draw).1 matches Next::Retry(wait) ==> MIN_DELAY_MS * (100
            - JITTER_PERCENT) / 100 <= wait <= MAX_DELAY_MS * (100 + JITTER_PERCENT) / 100,
        state.spec_failed(draw).0.wf(),
{
    let base = state.delay as nat;
    let spread = smaller(draw as nat, (2 * JITTER_PERCENT) as nat);
    law_jitter_bounds(base, draw as nat);
    assert(MIN_DELAY_MS * 80 <= base * (80 + spread)) by (nonlinear_arith)
        requires
            spread >= 0,
            base >= MIN_DELAY_MS,
    ;
    assert(base * (80 + spread) <= MAX_DELAY_MS * 120) by (nonlinear_arith)
        requires
            spread <= 40,
            base <= MAX_DELAY_MS,
    ;
}

/// An endpoint that was given up stays so until it connects.
pub proof fn law_failed_is_sticky(state: Reconnect, draw: u64)
    requires
        state.link is Failed,
    ensures
        state.spec_failed(draw).0 == state,
        state.spec_failed(draw).1 == Next::GiveUp,
        state.spec_connected().link is Connected,
{
}

} // verus!
