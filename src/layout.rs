//! Frame geometry: the size of one frame and where each frame lies in the arena.
use std::ops::Range;
use vstd::prelude::*;

verus! {

/// Bytes per pixel of the fixed frame format.
pub const BYTES_PER_PIXEL: usize = 4;

/// Why a frame could not be reached.
#[derive(Debug, Clone, Copy, PartialEq, Eq)]
pub enum FrameError {
    /// The index names no frame of the layout.
    OutOfRange,
    /// The bytes given are not exactly one frame long.
    WrongLength,
}

/// Width and height of a frame in pixels, and the number of source frames
/// (the output frame is not counted).
#[derive(Debug, Clone, Copy, PartialEq, Eq, Structural)]
pub struct RenderSize {
    width: u32,
    height: u32,
    count: usize,
}

/// Bytes in one frame of `width` by `height` pixels.
pub open spec fn frame_bytes_of(width: nat, height: nat) -> nat {
    width * height * (BYTES_PER_PIXEL as nat)
}

/// Bytes in an arena of `count` source frames and one output frame.
pub open spec fn arena_bytes_of(width: nat, height: nat, count: nat) -> nat {
    frame_bytes_of(width, height) * (count + 1)
}

/// Whether a layout of these dimensions is valid: both dimensions are positive
/// and the whole arena can be addressed.
pub open spec fn layout_ok(width: nat, height: nat, count: nat) -> bool {
    &&& width > 0
    &&& height > 0
    &&& arena_bytes_of(width, height, count) <= usize::MAX
}

proof fn lemma_sizes_fit(width: nat, height: nat, count: nat)
    requires
        layout_ok(width, height, count),
    ensures
        width * height <= frame_bytes_of(width, height),
        frame_bytes_of(width, height) <= arena_bytes_of(width, height, count),
        frame_bytes_of(width, height) * count + frame_bytes_of(width, height) == arena_bytes_of(
            width,
            height,
            count,
        ),
        frame_bytes_of(width, height) > 0,
        count + 1 <= arena_bytes_of(width, height, count),
{
    let f = frame_bytes_of(width, height);
    assert(width * height > 0) by (nonlinear_arith)
        requires
            width > 0,
            height > 0,
    ;
    assert(f * (count + 1) == f * count + f) by (nonlinear_arith);
    assert(f * count >= 0) by (nonlinear_arith);
    assert(f * (count + 1) >= count + 1) by (nonlinear_arith)
        requires
            f > 0,
    ;
}

impl RenderSize {
    /// The frame width in pixels.
    pub closed spec fn spec_width(&self) -> nat {
        self.width as nat
    }

    /// The frame height in pixels.
    pub closed spec fn spec_height(&self) -> nat {
        self.height as nat
    }

    /// The number of source frames.
    pub closed spec fn spec_count(&self) -> nat {
        self.count as nat
    }

    /// The fields stay within their types' ranges.
    pub proof fn lemma_field_bounds(&self)
        ensures
            self.spec_width() <= u32::MAX,
            self.spec_height() <= u32::MAX,
            self.spec_count() <= usize::MAX,
    {
    }

    /// Bytes in one frame.
    pub open spec fn frame_bytes(&self) -> nat {
        frame_bytes_of(self.spec_width(), self.spec_height())
    }

    /// Bytes in the whole arena.
    pub open spec fn arena_bytes(&self) -> nat {
        arena_bytes_of(self.spec_width(), self.spec_height(), self.spec_count())
    }

    /// First byte of frame `index`; index `count` is the output frame.
    pub open spec fn frame_start(&self, index: nat) -> nat {
        index * self.frame_bytes()
    }

    /// One past the last byte of frame `index`.
    pub open spec fn frame_end(&self, index: nat) -> nat {
        self.frame_start(index) + self.frame_bytes()
    }

    /// The layout invariant.
    pub open spec fn wf(&self) -> bool {
        layout_ok(self.spec_width(), self.spec_height(), self.spec_count())
    }

    /// A layout of `width` by `height` pixels with `count` source frames.
    pub fn new(width: u32, height: u32, count: usize) -> (r: RenderSize)
        requires
            layout_ok(width as nat, height as nat, count as nat),
        ensures
            r.spec_width() == width,
            r.spec_height() == height,
            r.spec_count() == count,
            r.wf(),
    {
        RenderSize { width, height, count }
    }

    /// A layout of `width` by `height` pixels with `count` source frames, or
    /// `None` where a dimension is zero or the arena is too large to address.
    pub fn try_new(width: u32, height: u32, count: usize) -> (r: Option<RenderSize>)
        ensures
            r is Some <==> layout_ok(width as nat, height as nat, count as nat),
            r matches Some(s) ==> s.spec_width() == width && s.spec_height() == height
                && s.spec_count() == count,
    {
        if width == 0 || height == 0 {
            return None;
        }
        let w = width as u128;
        let h = height as u128;
        assert(w * h <= 0xffff_ffff_ffff_ffffu128) by (nonlinear_arith)
            requires
                w <= 0xffff_ffff,
                h <= 0xffff_ffff,
        ;
        let pixels: u128 = w * h;
        let frame: u128 = pixels * 4;
        if frame > usize::MAX as u128 {
            assert(arena_bytes_of(width as nat, height as nat, count as nat) >= frame) by (
            nonlinear_arith)
                requires
                    frame == w * h * 4,
                    w == width,
                    h == height,
            ;
            return None;
        }
        let slots: u128 = count as u128 + 1;
        assert(frame * slots <= 0xffff_ffff_ffff_ffff * 0x1_0000_0000_0000_0000u128) by (
        nonlinear_arith)
            requires
                frame <= 0xffff_ffff_ffff_ffff,
                slots <= 0x1_0000_0000_0000_0000u128,
        ;
        let total: u128 = frame * slots;
        if total > usize::MAX as u128 {
            return None;
        }
        Some(RenderSize { width, height, count })
    }

    /// The frame width in pixels.
    pub fn width(&self) -> (r: u32)
        ensures
            r == self.spec_width(),
    {
        self.width
    }

    /// The frame height in pixels.
    pub fn height(&self) -> (r: u32)
        ensures
            r == self.spec_height(),
    {
        self.height
    }

    /// The number of source frames; the output frame is not counted.
    pub fn count(&self) -> (r: usize)
        ensures
            r == self.spec_count(),
    {
        self.count
    }

    /// Bytes in one frame: four per pixel.
    pub fn frame_bytecount(&self) -> (r: usize)
        requires
            self.wf(),
        ensures
            r == self.frame_bytes(),
    {
        proof {
            lemma_sizes_fit(self.width as nat, self.height as nat, self.count as nat);
        }
        (self.width as usize) * (self.height as usize) * BYTES_PER_PIXEL
    }

    /// Bytes in the arena: every source frame and the output frame.
    pub fn memory_size(&self) -> (r: usize)
        requires
            self.wf(),
        ensures
            r == self.arena_bytes(),
    {
        proof {
            lemma_sizes_fit(self.width as nat, self.height as nat, self.count as nat);
        }
        self.frame_bytecount() * (self.count + 1)
    }

    /// Byte range of frame `index` in the arena; index `count` is the output
    /// frame. Any larger index is out of range.
    pub fn frame_range(&self, index: usize) -> (r: Result<Range<usize>, FrameError>)
        requires
            self.wf(),
        ensures
            r is Ok <==> index <= self.spec_count(),
            r matches Ok(range) ==> range.start == self.frame_start(index as nat) && range.end
                == self.frame_end(index as nat),
    {
        if index > self.count {
            return Err(FrameError::OutOfRange);
        }
        proof {
            self.lemma_frame_in_arena(index as nat);
        }
        let size = self.frame_bytecount();
        let start = index * size;
        Ok(start..start + size)
    }

    /// Every frame, the output frame included, lies inside the arena.
    pub proof fn lemma_frame_in_arena(&self, index: nat)
        requires
            self.wf(),
            index <= self.spec_count(),
        ensures
            self.frame_end(index) <= self.arena_bytes(),
            self.frame_start(index) <= self.frame_end(index),
            self.frame_end(self.spec_count()) == self.arena_bytes(),
    {
        let f = self.frame_bytes();
        let c = self.spec_count();
        lemma_sizes_fit(self.spec_width(), self.spec_height(), c);
        assert(index * f <= c * f) by (nonlinear_arith)
            requires
                index <= c,
        ;
        assert(c * f == f * c) by (nonlinear_arith);
    }

    /// Frames with distinct indices do not share a byte.
    pub proof fn lemma_frames_disjoint(&self, i: nat, j: nat)
        requires
            self.wf(),
            i < j,
        ensures
            self.frame_end(i) <= self.frame_start(j),
    {
        let f = self.frame_bytes();
        assert(i * f + f <= j * f) by (nonlinear_arith)
            requires
                i < j,
        ;
    }

    /// Source frame `index` of `arena`.
    pub fn frame<'a>(&self, arena: &'a [u8], index: usize) -> (r: Result<&'a [u8], FrameError>)
        requires
            self.wf(),
            arena@.len() == self.arena_bytes(),
        ensures
            r is Ok <==> index < self.spec_count(),
            r matches Ok(v) ==> v@ == arena@.subrange(
                self.frame_start(index as nat) as int,
                self.frame_end(index as nat) as int,
            ),
    {
        if index >= self.count {
            return Err(FrameError::OutOfRange);
        }
        proof {
            self.lemma_frame_in_arena(index as nat);
        }
        let size = self.frame_bytecount();
        let start = index * size;
        Ok(&arena[start..start + size])
    }

    /// The output frame of `arena`.
    pub fn rendered_frame<'a>(&self, arena: &'a [u8]) -> (r: &'a [u8])
        requires
            self.wf(),
            arena@.len() == self.arena_bytes(),
        ensures
            r@ == arena@.subrange(
                self.frame_start(self.spec_count()) as int,
                self.arena_bytes() as int,
            ),
    {
        proof {
            self.lemma_frame_in_arena(self.spec_count());
            lemma_sizes_fit(self.spec_width(), self.spec_height(), self.spec_count());
        }
        let size = self.frame_bytecount();
        let start = self.count * size;
        &arena[start..start + size]
    }

    /// The output frame of `arena`, to be written.
    pub fn rendered_frame_mut<'a>(&self, arena: &'a mut [u8]) -> (r: &'a mut [u8])
        requires
            self.wf(),
            old(arena)@.len() == self.arena_bytes(),
        ensures
            r@ == old(arena)@.subrange(
                self.frame_start(self.spec_count()) as int,
                self.arena_bytes() as int,
            ),
            final(arena)@ == old(arena)@.subrange(0, self.frame_start(self.spec_count()) as int)
                + final(r)@,
    {
        proof {
            self.lemma_frame_in_arena(self.spec_count());
            lemma_sizes_fit(self.spec_width(), self.spec_height(), self.spec_count());
        }
        let size = self.frame_bytecount();
        let start = self.count * size;
        let (_sources, output) = arena.split_at_mut(start);
        output
    }

    /// Copies `bytes` into source frame `index` of `arena`, leaving every
    /// other byte as it was. Fails where the index names no source frame or
    /// `bytes` is not exactly one frame long.
    pub fn write_frame(&self, arena: &mut [u8], index: usize, bytes: &[u8]) -> (r: Result<
        (),
        FrameError,
    >)
        requires
            self.wf(),
            old(arena)@.len() == self.arena_bytes(),
        ensures
            r is Ok <==> index < self.spec_count() && bytes@.len() == self.frame_bytes(),
            r is Err ==> final(arena)@ == old(arena)@,
            r matches Err(e) ==> (e == FrameError::OutOfRange <==> index >= self.spec_count()),
            r is Ok ==> final(arena)@ == old(arena)@.subrange(
                0,
                self.frame_start(index as nat) as int,
            ) + bytes@ + old(arena)@.subrange(
                self.frame_end(index as nat) as int,
                self.arena_bytes() as int,
            ),
    {
        if index >= self.count {
            return Err(FrameError::OutOfRange);
        }
        let size = self.frame_bytecount();
        if bytes.len() != size {
            return Err(FrameError::WrongLength);
        }
        proof {
            self.lemma_frame_in_arena(index as nat);
        }
        let start = index * size;
        let ghost before = arena@;
        let mut i: usize = 0;
        while i < size
            invariant
                i <= size,
                size == bytes@.len(),
                start + size <= before.len(),
                before.len() <= usize::MAX,
                arena@.len() == before.len(),
                forall|k: int| 0 <= k < start ==> arena@[k] == before[k],
                forall|k: int| start + size <= k < before.len() ==> arena@[k] == before[k],
                forall|k: int| 0 <= k < i ==> arena@[start + k] == bytes@[k],
            decreases size - i,
        {
            arena[start + i] = bytes[i];
            i = i + 1;
        }
        assert(arena@ =~= before.subrange(0, start as int) + bytes@ + before.subrange(
            start + size,
            before.len() as int,
        ));
        Ok(())
    }
}


/// For every valid layout the arena holds one frame per source frame and one
/// output frame, the output frame is its last frame, and it shares no byte
/// with any source frame.
pub proof fn lemma_output_frame_disjoint(size: RenderSize, i: nat)
    requires
        size.wf(),
        i < size.spec_count(),
    ensures
        size.arena_bytes() == size.frame_bytes() * (size.spec_count() + 1),
        size.frame_end(size.spec_count()) == size.arena_bytes(),
        size.frame_end(i) <= size.frame_start(size.spec_count()),
{
    size.lemma_frame_in_arena(size.spec_count());
    size.lemma_frames_disjoint(i, size.spec_count());
}

} // verus!
