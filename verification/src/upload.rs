//! Upload ring: CPU→GPU staging allocator for per-frame updates.
//!
//! A bump allocator per frame over one staging buffer per frame in flight.
//! If the current frame's buffer is too small, that buffer grows (doubling
//! from at least 256 bytes) and the cursor resets. This module decides
//! offsets and sizes; the caller owns the buffers, creates a replacement
//! when told to grow and writes the data at the returned offset.
use vstd::prelude::*;

verus! {

/// `addr` rounded up to a multiple of `align` (unchanged when `align <= 1`).
pub open spec fn align_up_spec(addr: int, align: int) -> int {
    if align <= 1 {
        addr
    } else {
        ((addr + align - 1) / align) * align
    }
}

/// The capacity reached by doubling `cap` until it holds `need` bytes.
pub open spec fn grown_capacity(cap: int, need: int) -> int
    decreases (if need > cap { need - cap } else { 0 }),
    when cap > 0
{
    if need > cap {
        grown_capacity(cap * 2, need)
    } else {
        cap
    }
}

/// The larger of two numbers.
pub open spec fn max_int(a: int, b: int) -> int {
    if a >= b {
        a
    } else {
        b
    }
}

/// Where an allocation landed, and the new size of the current frame's
/// buffer when it had to grow.
#[derive(Copy, Clone, Debug, PartialEq, Eq, Structural)]
pub struct UploadAlloc {
    pub offset: u64,
    pub size: u64,
    pub grown_to: Option<u64>,
}

/// Per-frame buffer sizes, the current frame and the bump cursor.
pub struct UploadRing {
    sizes: Vec<u64>,
    frame: usize,
    cursor: u64,
}

/// The outcome `allocate` owes for a frame of size `cap`, a cursor, a
/// request of `need` bytes and an alignment: (offset, new size if grown,
/// new cursor).
pub open spec fn alloc_outcome(cap: int, cursor: int, need: int, align: int) -> (int, Option<int>, int) {
    let off = align_up_spec(cursor, max_int(align, 1));
    if off + need > cap {
        let c = grown_capacity(max_int(cap, 256), need);
        (0, Some(c), need)
    } else {
        (off, None, off + need)
    }
}

proof fn lemma_grown_capacity(cap: int, need: int)
    requires
        cap > 0,
    ensures
        grown_capacity(cap, need) >= need,
        grown_capacity(cap, need) >= cap,
    decreases (if need > cap { need - cap } else { 0 }),
{
    if need > cap {
        lemma_grown_capacity(cap * 2, need);
    }
}

proof fn lemma_align_up(addr: int, align: int)
    requires
        addr >= 0,
        align >= 1,
    ensures
        align_up_spec(addr, align) >= addr,
        align_up_spec(addr, align) % align == 0,
        align_up_spec(addr, align) < addr + align,
{
    if align > 1 {
        let q = (addr + align - 1) / align;
        assert(q * align <= addr + align - 1) by (nonlinear_arith)
            requires
                q == (addr + align - 1) / align,
                align > 1,
        ;
        assert(q * align > addr - 1) by (nonlinear_arith)
            requires
                q == (addr + align - 1) / align,
                align > 1,
                addr >= 0,
        ;
        assert((q * align) % align == 0) by (nonlinear_arith)
            requires
                align > 1,
        ;
    }
}

/// Allocations handed out one after another in the same frame, without
/// the buffer growing in between, never overlap, and both lie inside the
/// frame's buffer.
pub proof fn lemma_allocations_disjoint(cap: int, cursor: int, need1: int, align1: int, need2: int, align2: int)
    requires
        cap >= 0,
        cursor >= 0,
        need1 >= 0,
        need2 >= 0,
        alloc_outcome(cap, cursor, need1, align1).1 is None,
        alloc_outcome(cap, alloc_outcome(cap, cursor, need1, align1).2, need2, align2).1 is None,
    ensures
        ({
            let o1 = alloc_outcome(cap, cursor, need1, align1);
            let o2 = alloc_outcome(cap, o1.2, need2, align2);
            &&& o1.0 + need1 <= o2.0
            &&& o2.0 + need2 <= cap
            &&& cursor <= o1.0
        }),
{
    let o1 = alloc_outcome(cap, cursor, need1, align1);
    lemma_align_up(cursor, max_int(align1, 1));
    lemma_align_up(o1.2, max_int(align2, 1));
}

/// Round `addr` up to a multiple of `align`; `align` 0 or 1 leaves it unchanged.
pub fn align_up(addr: u64, align: u64) -> (r: u64)
    requires
        align_up_spec(addr as int, align as int) <= u64::MAX,
    ensures
        r == align_up_spec(addr as int, align as int),
        r >= addr,
        align >= 1 ==> r % align == 0 && r < addr + align,
{
    if align <= 1 {
        return addr;
    }
    proof {
        lemma_align_up(addr as int, align as int);
    }
    let q = addr / align;
    let q = if addr % align != 0 {
        q + 1
    } else {
        q
    };
    proof {
        assert(q == (addr as int + align as int - 1) / (align as int)) by (nonlinear_arith)
            requires
                align > 1,
                addr >= 0,
                q == addr as int / align as int + (if addr % align != 0 {
                    1int
                } else {
                    0int
                }),
        ;
    }
    q * align
}

impl UploadRing {
    /// At least one frame, and the current frame is one of them.
    pub closed spec fn wf(&self) -> bool {
        0 < self.sizes@.len() && self.frame < self.sizes@.len()
    }

    /// Size of each frame's buffer.
    pub closed spec fn sizes(&self) -> Seq<u64> {
        self.sizes@
    }

    /// Index of the current frame.
    pub closed spec fn frame_spec(&self) -> nat {
        self.frame as nat
    }

    /// Bytes already handed out in the current frame's buffer.
    pub closed spec fn cursor_spec(&self) -> nat {
        self.cursor as nat
    }

    /// A ring of `frames` buffers (at least one) of `initial_size` bytes,
    /// starting at frame 0 with nothing handed out.
    pub fn new(frames: usize, initial_size: u64) -> (r: Self)
        ensures
            r.sizes().len() == if frames == 0 {
                1
            } else {
                frames as int
            },
            forall|i: int| 0 <= i < r.sizes().len() ==> #[trigger] r.sizes()[i] == initial_size,
            r.frame_spec() == 0,
            r.cursor_spec() == 0,
            r.wf(),
    {
        let frames = if frames == 0 {
            1
        } else {
            frames
        };
        let mut sizes: Vec<u64> = Vec::new();
        let mut i: usize = 0;
        while i < frames
            invariant
                0 <= i <= frames,
                sizes@.len() == i,
                forall|k: int| 0 <= k < i ==> #[trigger] sizes@[k] == initial_size,
            decreases frames - i,
        {
            sizes.push(initial_size);
            i = i + 1;
        }
        Self { sizes, frame: 0, cursor: 0 }
    }

    /// Index of the current frame.
    pub fn frame(&self) -> (r: usize)
        requires
            self.wf(),
        ensures
            r == self.frame_spec(),
            r < self.sizes().len(),
    {
        self.frame
    }

    /// Bytes already handed out in the current frame's buffer.
    pub fn cursor(&self) -> (r: u64)
        ensures
            r == self.cursor_spec(),
    {
        self.cursor
    }

    /// Number of frames in flight.
    pub fn frames(&self) -> (r: usize)
        requires
            self.wf(),
        ensures
            r == self.sizes().len(),
            r > 0,
    {
        self.sizes.len()
    }

    /// Size of frame `i`'s buffer.
    pub fn buffer_size(&self, i: usize) -> (r: u64)
        requires
            i < self.sizes().len(),
        ensures
            r == self.sizes()[i as int],
    {
        self.sizes[i]
    }

    /// Move to the next frame (wrapping around) and reset the cursor.
    pub fn next_frame(&mut self)
        requires
            old(self).wf(),
        ensures
            final(self).wf(),
            final(self).frame_spec() == (old(self).frame_spec() + 1) % old(self).sizes().len(),
            final(self).cursor_spec() == 0,
            final(self).sizes() == old(self).sizes(),
    {
        let n = self.sizes.len();
        self.frame = (self.frame + 1) % n;
        self.cursor = 0;
    }

    /// Allocate `need` bytes aligned to `align` (0 counts as 1) in the current
    /// frame's buffer. When they do not fit after the cursor, the buffer
    /// grows (doubling from at least 256 bytes until `need` fits) and the
    /// allocation starts at offset 0.
    pub fn allocate(&mut self, need: u64, align: u64) -> (r: UploadAlloc)
        requires
            old(self).wf(),
            align_up_spec(old(self).cursor_spec() as int, max_int(align as int, 1)) + need <= u64::MAX,
            grown_capacity(max_int(old(self).sizes()[old(self).frame_spec() as int] as int, 256), need as int)
                <= u64::MAX,
        ensures
            ({
                let cap = old(self).sizes()[old(self).frame_spec() as int] as int;
                let o = alloc_outcome(cap, old(self).cursor_spec() as int, need as int, align as int);
                &&& r.offset == o.0
                &&& r.size == need
                &&& r.grown_to matches Some(c) ==> o.1 == Some(c as int)
                &&& r.grown_to is None ==> o.1 is None
                &&& final(self).cursor_spec() == o.2
                &&& final(self).frame_spec() == old(self).frame_spec()
                &&& final(self).sizes() == match o.1 {
                    Some(c) => old(self).sizes().update(old(self).frame_spec() as int, c as u64),
                    None => old(self).sizes(),
                }
            }),
            final(self).wf(),
            r.offset + need <= final(self).sizes()[final(self).frame_spec() as int],
            r.offset % (if align == 0 { 1 } else { align }) == 0,
            r.grown_to is None ==> r.offset >= old(self).cursor_spec(),
    {
        let idx = self.frame;
        let a = if align == 0 {
            1
        } else {
            align
        };
        proof {
            lemma_align_up(self.cursor as int, a as int);
        }
        let off = align_up(self.cursor, a);
        let cap = self.sizes[idx];
        if off + need > cap {
            let mut new_cap = if cap > 256 {
                cap
            } else {
                256
            };
            proof {
                lemma_grown_capacity(new_cap as int, need as int);
            }
            while need > new_cap
                invariant
                    new_cap > 0,
                    grown_capacity(new_cap as int, need as int) == grown_capacity(
                        max_int(cap as int, 256),
                        need as int,
                    ),
                    grown_capacity(new_cap as int, need as int) <= u64::MAX,
                decreases (if need > new_cap { need - new_cap } else { 0 }),
            {
                proof {
                    lemma_grown_capacity(new_cap * 2, need as int);
                }
                new_cap = new_cap * 2;
            }
            self.sizes.set(idx, new_cap);
            self.cursor = need;
            UploadAlloc { offset: 0, size: need, grown_to: Some(new_cap) }
        } else {
            self.cursor = off + need;
            UploadAlloc { offset: off, size: need, grown_to: None }
        }
    }
}

} // verus!
