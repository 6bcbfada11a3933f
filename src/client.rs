//! The client's protocol engine, run inside the worker: one type per state,
//! each transition consuming the state it leaves.
use crate::layout::{FrameError, RenderSize};
use crate::message::{RenderAck, RenderData, RenderFrame, RenderInitialize};
use crate::wire::{ack_encoding, encode_ack};
use vstd::prelude::*;

verus! {

/// The handshake is done and no render is in progress: the worker waits for
/// the next message and may not touch the arena.
pub struct FrameClient {
    size: RenderSize,
    config: String,
    renders: Ghost<nat>,
}

/// A render request has arrived: until it is committed, the worker may read
/// the source frames and write the output frame.
pub struct RenderRequest {
    client: FrameClient,
    data: RenderData,
}

/// What the worker is asked to do next.
pub enum ClientStep {
    /// Render one frame.
    Render(RenderRequest),
    /// Stop: the session is over.
    Terminate,
}

/// `n` consecutive pieces of `bytecount` bytes each from the front of `bytes`.
pub fn split<'a>(bytes: &'a [u8], bytecount: usize, n: usize) -> (r: Vec<&'a [u8]>)
    requires
        n * bytecount <= bytes@.len(),
    ensures
        r@.len() == n,
        forall|i: int|
            0 <= i < n ==> (#[trigger] r@[i])@ == bytes@.subrange(
                i * bytecount,
                (i + 1) * bytecount,
            ),
{
    let len = bytes.len();
    let mut pieces: Vec<&'a [u8]> = Vec::new();
    let mut i: usize = 0;
    while i < n
        invariant
            i <= n,
            len == bytes@.len(),
            n * bytecount <= bytes@.len(),
            pieces@.len() == i,
            forall|k: int|
                0 <= k < i ==> (#[trigger] pieces@[k])@ == bytes@.subrange(
                    k * bytecount,
                    (k + 1) * bytecount,
                ),
        decreases n - i,
    {
        assert((i + 1) * bytecount <= n * bytecount) by (nonlinear_arith)
            requires
                i < n,
        ;
        assert(i * bytecount + bytecount == (i + 1) * bytecount) by (nonlinear_arith);
        let start = i * bytecount;
        pieces.push(&bytes[start..start + bytecount]);
        i = i + 1;
    }
    pieces
}

impl FrameClient {
    /// Accepts the server's initialize message once the arena it names has
    /// been opened: returns the engine and the acknowledgement to send.
    pub fn accept(init: RenderInitialize) -> (r: (FrameClient, Vec<u8>))
        requires
            init.size.wf(),
        ensures
            r.0.wf(),
            r.0.render_size_spec() == init.size,
            r.0.config_spec() == init.config@,
            r.0.renders() == 0,
            r.1@ == ack_encoding(None),
    {
        let bytes = encode_ack(&RenderAck::ok());
        (FrameClient { size: init.size, config: init.config, renders: Ghost(0) }, bytes)
    }

    /// The layout of the session.
    pub closed spec fn render_size_spec(&self) -> RenderSize {
        self.size
    }

    /// The renderer's configuration.
    pub closed spec fn config_spec(&self) -> Seq<char> {
        self.config@
    }

    /// The number of render requests received.
    pub closed spec fn renders(&self) -> nat {
        self.renders@
    }

    /// The invariant of the state.
    pub closed spec fn wf(&self) -> bool {
        self.size.wf()
    }

    /// The renderer's configuration.
    pub fn config(&self) -> (r: &str)
        ensures
            r@ == self.config_spec(),
    {
        self.config.as_str()
    }

    /// The layout of the session.
    pub fn render_size(&self) -> (r: RenderSize)
        ensures
            r == self.render_size_spec(),
    {
        self.size
    }

    /// Takes the next message from the server: a render request starts a
    /// render, a terminate message ends the session.
    pub fn render_frame(self, message: RenderFrame) -> (r: ClientStep)
        requires
            self.wf(),
        ensures
            message is Terminate <==> r is Terminate,
            r matches ClientStep::Render(q) ==> q.wf() && message == RenderFrame::Render(
                q.render_data_spec(),
            ) && q.render_size_spec() == self.render_size_spec() && q.config_spec()
                == self.config_spec() && q.renders() == self.renders() + 1,
    {
        match message {
            RenderFrame::Render(data) => {
                let client = FrameClient {
                    size: self.size,
                    config: self.config,
                    renders: Ghost((self.renders@ + 1) as nat),
                };
                ClientStep::Render(RenderRequest { client, data })
            },
            RenderFrame::Terminate => ClientStep::Terminate,
        }
    }
}

impl RenderRequest {
    /// The layout of the session.
    pub closed spec fn render_size_spec(&self) -> RenderSize {
        self.client.size
    }

    /// The renderer's configuration.
    pub closed spec fn config_spec(&self) -> Seq<char> {
        self.client.config@
    }

    /// The parameters of this render.
    pub closed spec fn render_data_spec(&self) -> RenderData {
        self.data
    }

    /// The number of render requests received, this one included.
    pub closed spec fn renders(&self) -> nat {
        self.client.renders@
    }

    /// The invariant of the state.
    pub closed spec fn wf(&self) -> bool {
        self.client.wf()
    }

    /// The parameters of this render.
    pub fn render_data(&self) -> (r: RenderData)
        ensures
            r == self.render_data_spec(),
    {
        self.data
    }

    /// The renderer's configuration.
    pub fn config(&self) -> (r: &str)
        ensures
            r@ == self.config_spec(),
    {
        self.client.config.as_str()
    }

    /// The layout of the session.
    pub fn render_size(&self) -> (r: RenderSize)
        ensures
            r == self.render_size_spec(),
    {
        self.client.size
    }

    /// Source frame `index` of `arena`.
    pub fn get_source_frame<'a>(&self, arena: &'a [u8], index: usize) -> (r: Result<
        &'a [u8],
        FrameError,
    >)
        requires
            self.wf(),
            arena@.len() == self.render_size_spec().arena_bytes(),
        ensures
            r is Ok <==> index < self.render_size_spec().spec_count(),
            r matches Ok(v) ==> v@ == arena@.subrange(
                self.render_size_spec().frame_start(index as nat) as int,
                self.render_size_spec().frame_end(index as nat) as int,
            ),
    {
        self.client.size.frame(arena, index)
    }

    /// Every source frame of `arena`, in order.
    pub fn get_source_frames<'a>(&self, arena: &'a [u8]) -> (r: Vec<&'a [u8]>)
        requires
            self.wf(),
            arena@.len() == self.render_size_spec().arena_bytes(),
        ensures
            r@.len() == self.render_size_spec().spec_count(),
            forall|i: int|
                0 <= i < r@.len() ==> (#[trigger] r@[i])@ == arena@.subrange(
                    self.render_size_spec().frame_start(i as nat) as int,
                    self.render_size_spec().frame_end(i as nat) as int,
                ),
    {
        let size = self.client.size;
        proof {
            size.lemma_frame_in_arena(size.spec_count());
        }
        let frames = split(arena, size.frame_bytecount(), size.count());
        assert forall|i: int| 0 <= i < frames@.len() implies (#[trigger] frames@[i])@
            == arena@.subrange(
            size.frame_start(i as nat) as int,
            size.frame_end(i as nat) as int,
        ) by {
            assert((i + 1) * size.frame_bytes() == i * size.frame_bytes() + size.frame_bytes())
                by (nonlinear_arith);
        }
        frames
    }

    /// The output frame of `arena`, to be written.
    pub fn get_rendered_frame_mut<'a>(&self, arena: &'a mut [u8]) -> (r: &'a mut [u8])
        requires
            self.wf(),
            old(arena)@.len() == self.render_size_spec().arena_bytes(),
        ensures
            r@ == old(arena)@.subrange(
                self.render_size_spec().frame_start(self.render_size_spec().spec_count()) as int,
                old(arena)@.len() as int,
            ),
            final(arena)@ == old(arena)@.subrange(
                0,
                self.render_size_spec().frame_start(self.render_size_spec().spec_count()) as int,
            ) + final(r)@,
    {
        self.client.size.rendered_frame_mut(arena)
    }

    /// Every source frame of `arena`, to be read, together with its output
    /// frame, to be written.
    pub fn get_frames_with_rendered_frame_mut<'a>(&self, arena: &'a mut [u8]) -> (r: (
        Vec<&'a [u8]>,
        &'a mut [u8],
    ))
        requires
            self.wf(),
            old(arena)@.len() == self.render_size_spec().arena_bytes(),
        ensures
            r.0@.len() == self.render_size_spec().spec_count(),
            forall|i: int|
                0 <= i < r.0@.len() ==> (#[trigger] r.0@[i])@ == old(arena)@.subrange(
                    self.render_size_spec().frame_start(i as nat) as int,
                    self.render_size_spec().frame_end(i as nat) as int,
                ),
            r.1@ == old(arena)@.subrange(
                self.render_size_spec().frame_start(self.render_size_spec().spec_count()) as int,
                old(arena)@.len() as int,
            ),
            final(arena)@ == old(arena)@.subrange(
                0,
                self.render_size_spec().frame_start(self.render_size_spec().spec_count()) as int,
            ) + final(r.1)@,
    {
        let size = self.client.size;
        proof {
            size.lemma_frame_in_arena(size.spec_count());
        }
        let bytecount = size.frame_bytecount();
        let start = size.count() * bytecount;
        let (sources, output) = arena.split_at_mut(start);
        let sources: &'a [u8] = sources;
        let frames = split(sources, bytecount, size.count());
        assert forall|i: int| 0 <= i < frames@.len() implies (#[trigger] frames@[i])@
            == old(arena)@.subrange(
            size.frame_start(i as nat) as int,
            size.frame_end(i as nat) as int,
        ) by {
            assert((i + 1) * size.frame_bytes() == i * size.frame_bytes() + size.frame_bytes())
                by (nonlinear_arith);
            assert((i + 1) * size.frame_bytes() <= size.spec_count() * size.frame_bytes())
                by (nonlinear_arith)
                requires
                    i < size.spec_count(),
            ;
        }
        (frames, output)
    }

    /// Reports the render done: returns the idle engine and the
    /// acknowledgement to send.
    pub fn commit(self) -> (r: (FrameClient, Vec<u8>))
        requires
            self.wf(),
        ensures
            r.0.wf(),
            r.0.render_size_spec() == self.render_size_spec(),
            r.0.config_spec() == self.config_spec(),
            r.0.renders() == self.renders(),
            r.1@ == ack_encoding(None),
    {
        let bytes = encode_ack(&RenderAck::ok());
        (self.client, bytes)
    }

    /// Reports the render failed with `message`: returns the idle engine, as
    /// the session goes on, and the acknowledgement to send.
    pub fn fail(self, message: String) -> (r: (FrameClient, Vec<u8>))
        requires
            self.wf(),
        ensures
            r.0.wf(),
            r.0.render_size_spec() == self.render_size_spec(),
            r.0.config_spec() == self.config_spec(),
            r.0.renders() == self.renders(),
            r.1@ == ack_encoding(Some(message@)),
    {
        let bytes = encode_ack(&RenderAck::failed(message));
        (self.client, bytes)
    }
}

} // verus!
