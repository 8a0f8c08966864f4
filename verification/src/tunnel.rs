//! The opaque path: bytes carried between a client and an upstream, each
//! way by a pipe of its own.
//!
//! A pipe takes bytes from its source, holds them in a bounded buffer and
//! gives them to its sink in the order in which they came. When the source
//! has closed and the buffer is empty, the close is passed on to the sink.
//! The two ways of a tunnel close independently of each other.

use vstd::prelude::*;

verus! {

/// One way of a tunnel.
pub struct Pipe {
    capacity: usize,
    buffer: Vec<u8>,
    start: usize,
    source_closed: bool,
    sink_closed: bool,
    taken: Ghost<Seq<u8>>,
    given: Ghost<Seq<u8>>,
}

/// A pipe as contracts see it.
pub struct PipeView {
    /// The most bytes that the pipe holds.
    pub capacity: usize,
    /// The bytes held, oldest first.
    pub pending: Seq<u8>,
    /// Whether the source has closed, or is no longer read.
    pub source_closed: bool,
    /// Whether the close has been passed on to the sink.
    pub sink_closed: bool,
    /// Every byte taken from the source so far.
    pub taken: Seq<u8>,
    /// Every byte given to the sink so far.
    pub given: Seq<u8>,
}

/// What a pipe is ready to do.
#[derive(Clone, Copy, Debug, PartialEq, Eq, Structural)]
pub struct Wants {
    /// Read from the source: it is open and the buffer has room.
    pub read: bool,
    /// Write to the sink: the buffer holds bytes.
    pub write: bool,
    /// Close the sink: the source has closed and every byte is through.
    pub shutdown: bool,
}

/// The two ways of a tunnel.
pub struct Tunnel {
    /// From the client to the upstream.
    pub up: Pipe,
    /// From the upstream to the client.
    pub down: Pipe,
}

/// An empty pipe that holds at most `capacity` bytes.
pub open spec fn empty_pipe(capacity: usize) -> PipeView {
    PipeView {
        capacity,
        pending: Seq::empty(),
        source_closed: false,
        sink_closed: false,
        taken: Seq::empty(),
        given: Seq::empty(),
    }
}

/// The smaller of two numbers.
pub open spec fn least(a: int, b: int) -> int {
    if a <= b {
        a
    } else {
        b
    }
}

impl PipeView {
    /// What was taken is what was given and what is held, in that order; no
    /// more is held than fits; and a closed sink means a closed source and
    /// nothing held.
    pub open spec fn wf(self) -> bool {
        &&& self.pending.len() <= self.capacity
        &&& self.taken == self.given + self.pending
        &&& self.sink_closed ==> self.source_closed && self.pending.len() == 0
    }

    /// How many of `offered` bytes the pipe takes: none from a closed
    /// source, else as many as fit.
    pub open spec fn accepts(self, offered: int) -> int {
        if self.source_closed {
            0
        } else {
            least(offered, self.capacity - self.pending.len())
        }
    }

    /// The pipe after `data` was read from the source.
    pub open spec fn spec_fill(self, data: Seq<u8>) -> PipeView {
        let n = self.accepts(data.len() as int);
        PipeView {
            pending: self.pending + data.subrange(0, n),
            taken: self.taken + data.subrange(0, n),
            ..self
        }
    }

    /// The pipe after the sink took `count` bytes, or all there were.
    pub open spec fn spec_consume(self, count: usize) -> PipeView {
        let n = least(count as int, self.pending.len() as int);
        PipeView {
            pending: self.pending.subrange(n, self.pending.len() as int),
            given: self.given + self.pending.subrange(0, n),
            ..self
        }
    }

    /// The pipe after its source closed.
    pub open spec fn spec_close_source(self) -> PipeView {
        PipeView { source_closed: true, ..self }
    }

    /// What the pipe is ready to do.
    pub open spec fn spec_wants(self) -> Wants {
        Wants {
            read: !self.source_closed && self.pending.len() < self.capacity,
            write: self.pending.len() > 0,
            shutdown: self.source_closed && self.pending.len() == 0 && !self.sink_closed,
        }
    }

    /// The pipe after the close was passed on to the sink, which happens
    /// only when it is due.
    pub open spec fn spec_shutdown(self) -> PipeView {
        if self.spec_wants().shutdown {
            PipeView { sink_closed: true, ..self }
        } else {
            self
        }
    }
}

impl View for Pipe {
    type V = PipeView;

    closed spec fn view(&self) -> PipeView {
        PipeView {
            capacity: self.capacity,
            pending: self.buffer@.subrange(self.start as int, self.buffer@.len() as int),
            source_closed: self.source_closed,
            sink_closed: self.sink_closed,
            taken: self.taken@,
            given: self.given@,
        }
    }
}

impl Pipe {
    /// Whether the pipe is sound.
    pub closed spec fn wf(&self) -> bool {
        self.start <= self.buffer@.len() && self@.wf()
    }

    /// An empty pipe that holds at most `capacity` bytes.
    pub fn new(capacity: usize) -> (pipe: Pipe)
        ensures
            pipe.wf(),
            pipe@ == empty_pipe(capacity),
    {
        let pipe = Pipe {
            capacity,
            buffer: Vec::new(),
            start: 0,
            source_closed: false,
            sink_closed: false,
            taken: Ghost(Seq::empty()),
            given: Ghost(Seq::empty()),
        };
        assert(pipe@.pending =~= Seq::<u8>::empty());
        assert(pipe@.taken =~= pipe@.given + pipe@.pending);
        pipe
    }

    /// How many bytes the pipe holds.
    pub fn len(&self) -> (len: usize)
        requires
            self.wf(),
        ensures
            len == self@.pending.len(),
    {
        self.buffer.len() - self.start
    }

    /// How many more bytes the pipe has room for.
    pub fn room(&self) -> (room: usize)
        requires
            self.wf(),
        ensures
            room == self@.capacity - self@.pending.len(),
    {
        self.capacity - (self.buffer.len() - self.start)
    }

    /// The bytes that wait to be written to the sink.
    pub fn pending(&self) -> (bytes: &[u8])
        requires
            self.wf(),
        ensures
            bytes@ == self@.pending,
    {
        vstd::slice::slice_subrange(self.buffer.as_slice(), self.start, self.buffer.len())
    }

    /// What the pipe is ready to do.
    pub fn wants(&self) -> (wants: Wants)
        requires
            self.wf(),
        ensures
            wants == self@.spec_wants(),
    {
        let held = self.buffer.len() - self.start;
        Wants {
            read: !self.source_closed && held < self.capacity,
            write: held > 0,
            shutdown: self.source_closed && held == 0 && !self.sink_closed,
        }
    }

    /// Whether the pipe has finished: the close has reached the sink.
    pub fn is_done(&self) -> (done: bool)
        ensures
            done == self@.sink_closed,
    {
        self.sink_closed
    }

    /// Moves what is held to the front of the buffer.
    fn compact(&mut self)
        requires
            old(self).wf(),
        ensures
            final(self).wf(),
            final(self)@ == old(self)@,
            final(self).start == 0,
    {
        if self.start == 0 {
            return;
        }
        let mut kept: Vec<u8> = Vec::new();
        let mut i: usize = self.start;
        while i < self.buffer.len()
            invariant
                self.start <= i <= self.buffer.len(),
                kept@ == self.buffer@.subrange(self.start as int, i as int),
            decreases self.buffer.len() - i,
        {
            kept.push(self.buffer[i]);
            assert(kept@ =~= self.buffer@.subrange(self.start as int, i + 1));
            i += 1;
        }
        self.buffer = kept;
        self.start = 0;
        assert(self@.pending =~= old(self)@.pending);
    }

    /// Takes bytes read from the source: as many of `data` as fit, none if
    /// the source is closed. Returns how many were taken.
    pub fn fill(&mut self, data: &[u8]) -> (taken: usize)
        requires
            old(self).wf(),
        ensures
            final(self).wf(),
            final(self)@ == old(self)@.spec_fill(data@),
            taken == old(self)@.accepts(data@.len() as int),
    {
        if self.source_closed {
            assert(data@.subrange(0, 0) =~= Seq::<u8>::empty());
            assert(self@.pending + Seq::<u8>::empty() =~= self@.pending);
            assert(self@.taken + Seq::<u8>::empty() =~= self@.taken);
            return 0;
        }
        self.compact();
        let room = self.capacity - self.buffer.len();
        let count = if data.len() < room {
            data.len()
        } else {
            room
        };
        let part = vstd::slice::slice_subrange(data, 0, count);
        self.buffer.extend_from_slice(part);
        proof {
            self.taken@ = self.taken@ + part@;
            assert(self@.pending =~= old(self)@.pending + part@);
            assert(self@.taken =~= self@.given + self@.pending);
        }
        count
    }

    /// Records that the sink took `count` of the pending bytes, or all of
    /// them if there are fewer. Returns how many that were.
    pub fn consume(&mut self, count: usize) -> (given: usize)
        requires
            old(self).wf(),
        ensures
            final(self).wf(),
            final(self)@ == old(self)@.spec_consume(count),
            given == least(count as int, old(self)@.pending.len() as int),
    {
        let held = self.buffer.len() - self.start;
        let n = if count < held {
            count
        } else {
            held
        };
        proof {
            let pending = self@.pending;
            self.given@ = self.given@ + pending.subrange(0, n as int);
            assert(self.given@ + pending.subrange(n as int, pending.len() as int) =~= old(
                self,
            ).given@ + pending);
        }
        self.start = self.start + n;
        assert(self@.pending =~= old(self)@.pending.subrange(
            n as int,
            old(self)@.pending.len() as int,
        ));
        n
    }

    /// Records that the source closed: nothing more is taken from it.
    pub fn close_source(&mut self)
        requires
            old(self).wf(),
        ensures
            final(self).wf(),
            final(self)@ == old(self)@.spec_close_source(),
    {
        self.source_closed = true;
    }

    /// Records that the close was passed on to the sink, if that is due,
    /// and says whether the pipe has finished.
    pub fn shutdown(&mut self) -> (done: bool)
        requires
            old(self).wf(),
        ensures
            final(self).wf(),
            final(self)@ == old(self)@.spec_shutdown(),
            done == final(self)@.sink_closed,
    {
        if self.source_closed && self.buffer.len() - self.start == 0 {
            self.sink_closed = true;
        }
        self.sink_closed
    }
}

impl Tunnel {
    /// Whether both pipes are sound.
    pub open spec fn wf(&self) -> bool {
        self.up.wf() && self.down.wf()
    }

    /// A tunnel whose pipes hold at most `capacity` bytes each.
    pub fn new(capacity: usize) -> (tunnel: Tunnel)
        ensures
            tunnel.wf(),
            tunnel.up@ == empty_pipe(capacity),
            tunnel.down@ == empty_pipe(capacity),
    {
        Tunnel { up: Pipe::new(capacity), down: Pipe::new(capacity) }
    }

    /// Stops reading on both sides, as when the drain deadline has passed:
    /// what is held is still written out, and then each side is closed.
    pub fn half_close(&mut self)
        requires
            old(self).wf(),
        ensures
            final(self).wf(),
            final(self).up@ == old(self).up@.spec_close_source(),
            final(self).down@ == old(self).down@.spec_close_source(),
    {
        self.up.close_source();
        self.down.close_source();
    }

    /// Whether both ways have finished.
    pub fn is_done(&self) -> (done: bool)
        ensures
            done == (self.up@.sink_closed && self.down@.sink_closed),
    {
        self.up.is_done() && self.down.is_done()
    }
}

/// A pipe gives out what it took in, in the same order, and nothing else:
/// at any time what was given is the beginning of what was taken, and once
/// the pipe has finished the two are the same.
pub proof fn law_pipe_round_trip(pipe: PipeView)
    requires
        pipe.wf(),
    ensures
        pipe.given.is_prefix_of(pipe.taken),
        pipe.sink_closed ==> pipe.given == pipe.taken,
        pipe.pending.len() == 0 ==> pipe.given == pipe.taken,
{
    assert(pipe.taken.subrange(0, pipe.given.len() as int) =~= pipe.given);
    if pipe.pending.len() == 0 {
        assert(pipe.given + pipe.pending =~= pipe.given);
    }
}

/// Every step keeps a pipe sound, so the round trip holds after any run of
/// steps.
pub proof fn law_pipe_steps_keep_order(pipe: PipeView, data: Seq<u8>, count: usize)
    requires
        pipe.wf(),
    ensures
        pipe.spec_fill(data).wf(),
        pipe.spec_consume(count).wf(),
        pipe.spec_close_source().wf(),
        pipe.spec_shutdown().wf(),
{
    let n = pipe.accepts(data.len() as int);
    assert(pipe.spec_fill(data).taken =~= pipe.spec_fill(data).given + pipe.spec_fill(data).pending);
    let m = least(count as int, pipe.pending.len() as int);
    assert(pipe.spec_consume(count).taken =~= pipe.spec_consume(count).given + pipe.spec_consume(
        count,
    ).pending);
}

} // verus!
