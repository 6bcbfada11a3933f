//! The control messages exchanged between the server and the client.
use crate::layout::RenderSize;
use vstd::prelude::*;

verus! {

/// The render parameters, each as the bit pattern of an `f64`: the time and
/// three renderer-specific values. The transport carries them without looking
/// at them.
#[derive(Debug, Clone, Copy, PartialEq, Eq, Structural)]
pub struct RenderData {
    pub time: u64,
    pub param1: u64,
    pub param2: u64,
    pub param3: u64,
}

/// Sent once by the server: the frame layout, the identifier of the shared
/// arena and an opaque configuration string for the renderer.
#[derive(Debug)]
pub struct RenderInitialize {
    pub size: RenderSize,
    pub shmem_id: String,
    pub config: String,
}

/// Confirms the operation just finished (the handshake or a render), or
/// reports why it failed.
#[derive(Debug)]
pub struct RenderAck {
    pub error: Option<String>,
}

/// Sent by the server after the handshake: render one frame, or shut down.
#[derive(Debug, Clone, Copy, PartialEq, Eq, Structural)]
pub enum RenderFrame {
    Render(RenderData),
    Terminate,
}

/// The content of an initialize message: width, height, source count,
/// arena identifier and configuration.
pub type InitializeView = (nat, nat, nat, Seq<char>, Seq<char>);

impl View for RenderInitialize {
    type V = InitializeView;

    open spec fn view(&self) -> InitializeView {
        (
            self.size.spec_width(),
            self.size.spec_height(),
            self.size.spec_count(),
            self.shmem_id@,
            self.config@,
        )
    }
}

impl View for RenderAck {
    type V = Option<Seq<char>>;

    open spec fn view(&self) -> Option<Seq<char>> {
        match self.error {
            Some(e) => Some(e@),
            None => None,
        }
    }
}

impl RenderInitialize {
    /// The handshake message for `size`, the arena `shmem_id` and `config`.
    pub fn new(size: RenderSize, shmem_id: String, config: String) -> (r: RenderInitialize)
        ensures
            r.size == size,
            r.shmem_id@ == shmem_id@,
            r.config@ == config@,
    {
        RenderInitialize { size, shmem_id, config }
    }

    /// The frame layout.
    pub fn size(&self) -> (r: &RenderSize)
        ensures
            *r == self.size,
    {
        &self.size
    }

    /// The identifier of the shared arena.
    pub fn shmem_id(&self) -> (r: &str)
        ensures
            r@ == self.shmem_id@,
    {
        self.shmem_id.as_str()
    }

    /// The renderer's configuration.
    pub fn config(&self) -> (r: &str)
        ensures
            r@ == self.config@,
    {
        self.config.as_str()
    }
}

impl RenderAck {
    /// An acknowledgement of success.
    pub fn ok() -> (r: RenderAck)
        ensures
            r@ is None,
    {
        RenderAck { error: None }
    }

    /// An acknowledgement that reports `message` as the failure.
    pub fn failed(message: String) -> (r: RenderAck)
        ensures
            r@ == Some(message@),
    {
        RenderAck { error: Some(message) }
    }
}

} // verus!
