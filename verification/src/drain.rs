//! The drain latch: a one-way switch from serving to shutting down, and the
//! count of those who still have work in hand.
//!
//! Whoever serves a connection takes a watch on the latch first and gives it
//! back when the connection has reached its end. Once the latch drains no new
//! watch is granted, and the drain is complete when the last one is back.

use vstd::prelude::*;

verus! {

/// The drain latch.
pub struct Latch {
    draining: bool,
    watchers: usize,
    granted: Ghost<nat>,
    returned: Ghost<nat>,
}

/// A latch as contracts see it.
pub struct LatchView {
    /// Whether the latch has left the open state.
    pub draining: bool,
    /// Watches granted and not yet given back.
    pub watchers: nat,
    /// Watches granted so far.
    pub granted: nat,
    /// Watches given back so far.
    pub returned: nat,
}

/// The state of a future that is watched for drain: whether it has been told.
#[derive(Clone, Copy, Debug, PartialEq, Eq, Structural)]
pub struct Watched {
    pub notified: bool,
}

impl LatchView {
    /// Every watch that was granted is either out or back.
    pub open spec fn wf(self) -> bool {
        self.granted == self.returned + self.watchers
    }

    /// Whether the drain is complete: the latch drains and no watch is out.
    pub open spec fn resolved(self) -> bool {
        self.draining && self.watchers == 0
    }

    /// The latch after a watch was asked for, and whether it was granted. An
    /// open latch grants it, as long as the count of watches fits a machine
    /// word; a draining latch does not.
    pub open spec fn spec_watch(self) -> (LatchView, bool) {
        if !self.draining && self.watchers < usize::MAX {
            (
                LatchView {
                    watchers: self.watchers + 1,
                    granted: self.granted + 1,
                    ..self
                },
                true,
            )
        } else {
            (self, false)
        }
    }

    /// The latch after a watch was given back.
    pub open spec fn spec_release(self) -> LatchView {
        if self.watchers > 0 {
            LatchView {
                watchers: (self.watchers - 1) as nat,
                returned: self.returned + 1,
                ..self
            }
        } else {
            self
        }
    }

    /// The latch after it was told to drain.
    pub open spec fn spec_drain(self) -> LatchView {
        LatchView { draining: true, ..self }
    }
}

impl View for Latch {
    type V = LatchView;

    closed spec fn view(&self) -> LatchView {
        LatchView {
            draining: self.draining,
            watchers: self.watchers as nat,
            granted: self.granted@,
            returned: self.returned@,
        }
    }
}

impl Latch {
    /// An open latch with no watch out.
    pub fn new() -> (latch: Latch)
        ensures
            latch@ == (LatchView { draining: false, watchers: 0, granted: 0, returned: 0 }),
            latch@.wf(),
    {
        Latch { draining: false, watchers: 0, granted: Ghost(0), returned: Ghost(0) }
    }

    /// Whether the latch drains.
    pub fn is_draining(&self) -> (draining: bool)
        ensures
            draining == self@.draining,
    {
        self.draining
    }

    /// The number of watches that are out.
    pub fn watchers(&self) -> (watchers: usize)
        ensures
            watchers == self@.watchers,
    {
        self.watchers
    }

    /// Whether the drain is complete: drain was signalled, and every watch
    /// that was ever granted has been given back.
    pub fn is_resolved(&self) -> (resolved: bool)
        requires
            self@.wf(),
        ensures
            resolved == self@.resolved(),
            resolved == (self@.draining && self@.granted == self@.returned),
    {
        self.draining && self.watchers == 0
    }

    /// Asks for a watch, as before serving a new connection. It is granted
    /// only while the latch is open.
    pub fn watch(&mut self) -> (granted: bool)
        requires
            old(self)@.wf(),
        ensures
            final(self)@.wf(),
            final(self)@ == old(self)@.spec_watch().0,
            granted == old(self)@.spec_watch().1,
    {
        if !self.draining && self.watchers < usize::MAX {
            self.watchers = self.watchers + 1;
            proof {
                self.granted@ = self.granted@ + 1;
            }
            true
        } else {
            false
        }
    }

    /// Gives a watch back, as when a connection has reached its end, and
    /// says whether the drain is thereby complete. With no watch out,
    /// nothing changes.
    pub fn release(&mut self) -> (resolved: bool)
        requires
            old(self)@.wf(),
        ensures
            final(self)@.wf(),
            final(self)@ == old(self)@.spec_release(),
            resolved == final(self)@.resolved(),
    {
        if self.watchers > 0 {
            self.watchers = self.watchers - 1;
            proof {
                self.returned@ = self.returned@ + 1;
            }
        }
        self.draining && self.watchers == 0
    }

    /// Signals drain, and says whether the drain is complete. Signalling
    /// again changes nothing and gives the same answer.
    pub fn drain(&mut self) -> (resolved: bool)
        requires
            old(self)@.wf(),
        ensures
            final(self)@.wf(),
            final(self)@ == old(self)@.spec_drain(),
            resolved == final(self)@.resolved(),
    {
        self.draining = true;
        self.watchers == 0
    }
}

impl Watched {
    /// The state of a watched future after a poll that saw the latch as
    /// `draining`, and whether the drain hook is to run before that poll.
    pub open spec fn spec_poll(self, draining: bool) -> (Watched, bool) {
        (Watched { notified: self.notified || draining }, draining && !self.notified)
    }

    /// A watched future that has not been told of any drain.
    pub fn new() -> (watched: Watched)
        ensures
            watched == (Watched { notified: false }),
    {
        Watched { notified: false }
    }

    /// Called at each poll of the watched future: says whether the drain
    /// hook is to run now. It runs once, at the first poll that sees the
    /// latch draining; the future itself is polled on either way.
    pub fn poll(&mut self, draining: bool) -> (notify: bool)
        ensures
            *final(self) == old(self).spec_poll(draining).0,
            notify == old(self).spec_poll(draining).1,
    {
        let notify = draining && !self.notified;
        self.notified = self.notified || draining;
        notify
    }
}

/// No service after drain: a draining latch grants no watch, and nothing
/// that happens to it opens it again.
pub proof fn law_no_watch_after_drain(latch: LatchView)
    requires
        latch.draining,
    ensures
        !latch.spec_watch().1,
        latch.spec_watch().0 == latch,
        latch.spec_release().draining,
        latch.spec_drain().draining,
{
}

/// The drain is complete exactly when it was signalled and every watch ever
/// granted has been given back.
pub proof fn law_resolved_iff_all_returned(latch: LatchView)
    requires
        latch.wf(),
    ensures
        latch.resolved() <==> latch.draining && latch.granted == latch.returned,
{
}

/// Signalling drain twice is the same as signalling it once: the same latch,
/// and the same answer.
pub proof fn law_drain_idempotent(latch: LatchView)
    ensures
        latch.spec_drain().spec_drain() == latch.spec_drain(),
        latch.spec_drain().spec_drain().resolved() == latch.spec_drain().resolved(),
{
}

/// The drain hook runs at most once: after a poll that saw the latch
/// draining, no later poll asks for it.
pub proof fn law_hook_runs_once(watched: Watched, later: bool)
    ensures
        !watched.spec_poll(true).0.spec_poll(later).1,
        watched.spec_poll(false).1 == false,
{
}

} // verus!
