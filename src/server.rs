//! The server's protocol engine: one type per state, each transition
//! consuming the state it leaves.
//!
//! The caller spawns the worker, maps the arena and moves bytes through the
//! channel; the engine says what to send, judges what came back, and hands
//! out views of the arena only in the states that own them.
use crate::layout::{FrameError, RenderSize};
use crate::message::{RenderAck, RenderData, RenderFrame, RenderInitialize};
use crate::wire::{encode_frame, encode_initialize, frame_encoding, initialize_encoding};
use vstd::prelude::*;

verus! {

/// Why a render call, or the handshake, failed.
#[derive(Debug)]
pub enum RenderError {
    /// The worker reported a failure with this message.
    Client(String),
}

/// The initialize message has been sent; the worker's acknowledgement is awaited.
pub struct ServerHandshake {
    size: RenderSize,
}

/// The worker has acknowledged everything sent so far: the source frames
/// and the output frame belong to the server.
pub struct FrameServer {
    size: RenderSize,
    renders: Ghost<nat>,
}

/// A render request has been sent; the worker owns the arena until its
/// acknowledgement arrives.
pub struct ServerRendering {
    size: RenderSize,
    renders: Ghost<nat>,
}

impl ServerHandshake {
    /// Opens the session for an arena of layout `size` named `shmem_id`:
    /// returns the engine and the initialize message to send.
    pub fn start(size: RenderSize, shmem_id: String, config: String) -> (r: (
        ServerHandshake,
        Vec<u8>,
    ))
        requires
            size.wf(),
        ensures
            r.0.wf(),
            r.0.size() == size,
            r.1@ == initialize_encoding(
                (size.spec_width(), size.spec_height(), size.spec_count(), shmem_id@, config@),
            ),
    {
        let message = RenderInitialize::new(size, shmem_id, config);
        let bytes = encode_initialize(&message);
        (ServerHandshake { size }, bytes)
    }

    /// The layout of the session.
    pub closed spec fn size(&self) -> RenderSize {
        self.size
    }

    /// The invariant of the state.
    pub closed spec fn wf(&self) -> bool {
        self.size.wf()
    }

    /// Takes the worker's reply to the initialize message: the session is
    /// ready on success, and fails with the worker's message otherwise.
    pub fn on_ack(self, ack: RenderAck) -> (r: Result<FrameServer, RenderError>)
        requires
            self.wf(),
        ensures
            r is Ok <==> ack@ is None,
            r matches Ok(s) ==> s.wf() && s.size() == self.size() && s.renders() == 0,
            r matches Err(RenderError::Client(m)) ==> ack@ == Some(m@),
    {
        match ack.error {
            None => Ok(FrameServer { size: self.size, renders: Ghost(0) }),
            Some(message) => Err(RenderError::Client(message)),
        }
    }
}

impl FrameServer {
    /// The layout of the session.
    pub closed spec fn size(&self) -> RenderSize {
        self.size
    }

    /// The number of render calls the worker has acknowledged.
    pub closed spec fn renders(&self) -> nat {
        self.renders@
    }

    /// The invariant of the state.
    pub closed spec fn wf(&self) -> bool {
        self.size.wf()
    }

    /// The layout of the session.
    pub fn render_size(&self) -> (r: RenderSize)
        ensures
            r == self.size(),
    {
        self.size
    }

    /// Source frame `index` of `arena`, to be written before the next render.
    pub fn get_source_frame_mut<'a>(&self, arena: &'a mut [u8], index: usize) -> (r: Result<
        &'a mut [u8],
        FrameError,
    >)
        requires
            self.wf(),
            old(arena)@.len() == self.size().arena_bytes(),
        ensures
            r is Ok <==> index < self.size().spec_count(),
            r is Err ==> final(arena)@ == old(arena)@,
            r matches Ok(v) ==> v@ == old(arena)@.subrange(
                self.size().frame_start(index as nat) as int,
                self.size().frame_end(index as nat) as int,
            ),
            r matches Ok(v) ==> final(arena)@ == old(arena)@.subrange(
                0,
                self.size().frame_start(index as nat) as int,
            ) + final(v)@ + old(arena)@.subrange(
                self.size().frame_end(index as nat) as int,
                old(arena)@.len() as int,
            ),
    {
        if index >= self.size.count() {
            return Err(FrameError::OutOfRange);
        }
        let range = match self.size.frame_range(index) {
            Ok(range) => range,
            Err(e) => return Err(e),
        };
        proof {
            self.size.lemma_frame_in_arena(index as nat);
        }
        let (head, tail) = arena.split_at_mut(range.end);
        let (_before, frame) = head.split_at_mut(range.start);
        Ok(frame)
    }

    /// Copies `bytes` into source frame `index` of `arena`.
    pub fn write_source_frame(&self, arena: &mut [u8], index: usize, bytes: &[u8]) -> (r: Result<
        (),
        FrameError,
    >)
        requires
            self.wf(),
            old(arena)@.len() == self.size().arena_bytes(),
        ensures
            r is Ok <==> index < self.size().spec_count() && bytes@.len()
                == self.size().frame_bytes(),
            r matches Err(e) ==> (e == FrameError::OutOfRange <==> index
                >= self.size().spec_count()),
            r is Err ==> final(arena)@ == old(arena)@,
            r is Ok ==> final(arena)@ == old(arena)@.subrange(
                0,
                self.size().frame_start(index as nat) as int,
            ) + bytes@ + old(arena)@.subrange(
                self.size().frame_end(index as nat) as int,
                old(arena)@.len() as int,
            ),
    {
        self.size.write_frame(arena, index, bytes)
    }

    /// The output frame of `arena`, as the last acknowledged render left it.
    pub fn rendered_frame<'a>(&self, arena: &'a [u8]) -> (r: &'a [u8])
        requires
            self.wf(),
            arena@.len() == self.size().arena_bytes(),
        ensures
            r@ == arena@.subrange(
                self.size().frame_start(self.size().spec_count()) as int,
                arena@.len() as int,
            ),
    {
        self.size.rendered_frame(arena)
    }

    /// Asks for a render with `data`: returns the engine, which no longer
    /// gives access to the arena, and the render request to send.
    pub fn render(self, data: RenderData) -> (r: (ServerRendering, Vec<u8>))
        requires
            self.wf(),
        ensures
            r.0.wf(),
            r.0.size() == self.size(),
            r.0.renders() == self.renders(),
            r.1@ == frame_encoding(RenderFrame::Render(data)),
    {
        let bytes = encode_frame(&RenderFrame::Render(data));
        (ServerRendering { size: self.size, renders: self.renders }, bytes)
    }

    /// Ends the session: returns the terminate message to send.
    pub fn terminate(self) -> (r: Vec<u8>)
        ensures
            r@ == frame_encoding(RenderFrame::Terminate),
    {
        encode_frame(&RenderFrame::Terminate)
    }
}

impl ServerRendering {
    /// The layout of the session.
    pub closed spec fn size(&self) -> RenderSize {
        self.size
    }

    /// The number of render calls acknowledged before this one.
    pub closed spec fn renders(&self) -> nat {
        self.renders@
    }

    /// The invariant of the state.
    pub closed spec fn wf(&self) -> bool {
        self.size.wf()
    }

    /// Takes the worker's acknowledgement of the render: the arena returns to
    /// the server either way, and the call fails with the worker's message
    /// where it reported one.
    pub fn on_ack(self, ack: RenderAck) -> (r: (FrameServer, Result<(), RenderError>))
        requires
            self.wf(),
        ensures
            r.0.wf(),
            r.0.size() == self.size(),
            r.0.renders() == self.renders() + 1,
            r.1 is Ok <==> ack@ is None,
            r.1 matches Err(RenderError::Client(m)) ==> ack@ == Some(m@),
    {
        let ready = FrameServer { size: self.size, renders: Ghost((self.renders@ + 1) as nat) };
        match ack.error {
            None => (ready, Ok(())),
            Some(message) => (ready, Err(RenderError::Client(message))),
        }
    }
}


/// When a session should end after render failures the worker reported: after
/// `limit` failures in a row, or never where there is no limit.
pub struct FailurePolicy {
    limit: Option<u32>,
    consecutive: u32,
}

impl FailurePolicy {
    /// The largest number of failures in a row tolerated, if any.
    pub closed spec fn limit_spec(&self) -> Option<u32> {
        self.limit
    }

    /// The number of failures since the last success.
    pub closed spec fn consecutive_spec(&self) -> u32 {
        self.consecutive
    }

    /// A policy that ends the session after `limit` failures in a row.
    pub fn new(limit: Option<u32>) -> (r: FailurePolicy)
        ensures
            r.limit_spec() == limit,
            r.consecutive_spec() == 0,
    {
        FailurePolicy { limit, consecutive: 0 }
    }

    /// The number of failures since the last success.
    pub fn consecutive_failures(&self) -> (r: u32)
        ensures
            r == self.consecutive_spec(),
    {
        self.consecutive
    }

    /// Records the outcome of a render: a failure adds one to the run of
    /// failures (staying at `u32::MAX` once there), a success ends the run.
    /// Returns whether the session should now end.
    pub fn record(&mut self, failed: bool) -> (r: bool)
        ensures
            final(self).limit_spec() == old(self).limit_spec(),
            final(self).consecutive_spec() == if !failed {
                0
            } else if old(self).consecutive_spec() == u32::MAX {
                u32::MAX
            } else {
                (old(self).consecutive_spec() + 1) as u32
            },
            r == (final(self).limit_spec() matches Some(n) && final(self).consecutive_spec() >= n),
    {
        if !failed {
            self.consecutive = 0;
        } else if self.consecutive < u32::MAX {
            self.consecutive = self.consecutive + 1;
        }
        match self.limit {
            Some(n) => self.consecutive >= n,
            None => false,
        }
    }
}

} // verus!
