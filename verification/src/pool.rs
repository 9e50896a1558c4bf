//! The shared pixel-buffer pool: allocates frame buffers sized to the
//! surface and tracks the one buffer that may be outstanding with the
//! compositor, so the draw cycle stays strictly acquire, draw, submit.

use vstd::prelude::*;

verus! {

/// One frame's pixel storage: `width * height` packed ARGB words, each
/// the four bytes of one premultiplied pixel in the compositor's
/// negotiated order.
pub struct FrameBuffer {
    pub width: u32,
    pub height: u32,
    pub pixels: Vec<u32>,
}

impl FrameBuffer {
    /// A buffer is well formed when it holds exactly one word per pixel.
    pub open spec fn wf(self) -> bool {
        self.pixels@.len() == self.width * self.height
    }
}

/// The pool itself.  At most one acquired buffer may be outstanding at a
/// time: `acquire` refuses a second buffer until the first was submitted.
pub struct BufferPool {
    outstanding: bool,
}

/// Whether the pool will grant the next acquisition.
pub open spec fn spec_can_acquire(p: BufferPool) -> bool {
    !p.is_outstanding()
}

/// The pool after a granted acquisition: its buffer is outstanding.
pub closed spec fn spec_after_acquire(p: BufferPool) -> BufferPool {
    BufferPool { outstanding: true }
}

/// The pool after the outstanding buffer was submitted: none is left
/// outstanding.
pub closed spec fn spec_after_submit(p: BufferPool) -> BufferPool {
    BufferPool { outstanding: false }
}

/// What the two transitions do to the outstanding window.
pub broadcast proof fn lemma_pool_transitions(p: BufferPool)
    ensures
        (#[trigger] spec_after_acquire(p)).is_outstanding(),
        !(#[trigger] spec_after_submit(p)).is_outstanding(),
{
}

impl BufferPool {
    /// Whether an acquired buffer has not been submitted yet.
    pub closed spec fn is_outstanding(self) -> bool {
        self.outstanding
    }

    pub fn new() -> (r: BufferPool)
        ensures
            !r.is_outstanding(),
    {
        BufferPool { outstanding: false }
    }

    /// Hands out a zero-filled buffer sized to the surface, unless the
    /// previously acquired buffer is still outstanding.
    pub fn acquire(&mut self, width: u32, height: u32) -> (r: Option<FrameBuffer>)
        requires
            width * height <= usize::MAX,
        ensures
            r is Some <==> spec_can_acquire(*old(self)),
            r is Some ==> *final(self) == spec_after_acquire(*old(self)),
            r is None ==> *final(self) == *old(self),
            match r {
                Some(b) => b.wf() && b.width == width && b.height == height
                    && (forall|i: int| 0 <= i < b.pixels@.len() ==> b.pixels@[i] == 0u32),
                None => true,
            },
    {
        if self.outstanding {
            return None;
        }
        let n: usize = (width as usize) * (height as usize);
        let mut pixels: Vec<u32> = Vec::new();
        let mut i: usize = 0;
        while i < n
            invariant
                0 <= i <= n,
                pixels@.len() == i,
                forall|j: int| 0 <= j < i ==> pixels@[j] == 0u32,
            decreases n - i,
        {
            pixels.push(0u32);
            i = i + 1;
        }
        self.outstanding = true;
        Some(FrameBuffer { width, height, pixels })
    }

    /// Takes the finished buffer back for display and ends its
    /// outstanding window; the pixel words are handed on for the caller
    /// to attach to the compositor.
    pub fn submit(&mut self, buffer: FrameBuffer) -> (r: Vec<u32>)
        requires
            old(self).is_outstanding(),
        ensures
            *final(self) == spec_after_submit(*old(self)),
            r@ == buffer.pixels@,
    {
        self.outstanding = false;
        buffer.pixels
    }
}

/// The acquire-submit cycle is strictly sequential: a granted
/// acquisition blocks the next one until a submission, and a submission
/// re-enables acquisition.
pub proof fn lemma_acquire_strictly_sequential(p: BufferPool)
    ensures
        spec_can_acquire(p) ==> !spec_can_acquire(spec_after_acquire(p)),
        spec_can_acquire(spec_after_submit(spec_after_acquire(p))),
{
}

} // verus!
