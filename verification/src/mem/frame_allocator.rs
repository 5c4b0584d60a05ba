//! Physical frame allocator over a bitmap: one bit per 4 KiB frame, set when the frame
//! is allocated.

use vstd::prelude::*;
use vstd::arithmetic::div_mod::{lemma_add_mod_noop, lemma_mod_add_multiples_vanish, lemma_small_mod};

verus! {

/// Size of a physical frame (4 KiB).
pub const FRAME_SIZE: usize = 4096;

/// Maximum number of frames managed (4 GiB of memory).
pub const MAX_FRAMES: usize = 1048576;

/// Number of 64-bit words in the bitmap.
pub const BITMAP_WORDS: usize = 16384;

/// A physical frame, named by its number.
#[derive(Debug, Clone, Copy, PartialEq, Eq, PartialOrd, Ord)]
pub struct Frame {
    pub number: usize,
}

impl Frame {
    /// The physical address of this frame.
    pub fn start_address(&self) -> (addr: usize)
        requires
            self.number * FRAME_SIZE <= usize::MAX,
        ensures
            addr == self.number * FRAME_SIZE,
    {
        self.number * FRAME_SIZE
    }

    /// The frame that contains the given physical address.
    pub fn containing_address(addr: usize) -> (f: Frame)
        ensures
            f.number == addr / FRAME_SIZE,
    {
        Frame { number: addr / FRAME_SIZE }
    }
}

/// The allocator's whole state: the bitmap, the search hint, the number of frames
/// under management and the count of allocated frames.
pub struct FrameAllocator {
    pub bitmap: Vec<u64>,
    pub next_free_frame: usize,
    pub total_frames: usize,
    pub allocated_frames: usize,
}

/// Bit `b` of word `w`.
pub open spec fn word_bit(w: u64, b: int) -> bool {
    w & (1u64 << (b as u64)) != 0
}

/// Whether frame `n` is marked allocated in `bitmap`.
pub open spec fn bit_used(bitmap: Seq<u64>, n: int) -> bool {
    0 <= n < MAX_FRAMES && word_bit(bitmap[n / 64], n % 64)
}

/// The frame visited at step `k` of a search that starts at `start` and wraps at `total`.
pub open spec fn cyc(start: int, total: int, k: int) -> int {
    (start + k) % total
}

proof fn lemma_set_bit(w: u64, a: u64, b: u64)
    requires
        a < 64,
        b < 64,
    ensures
        (w | (1u64 << a)) & (1u64 << a) != 0,
        a != b ==> (((w | (1u64 << a)) & (1u64 << b) != 0) == (w & (1u64 << b) != 0)),
        (w & !(1u64 << a)) & (1u64 << a) == 0,
        a != b ==> (((w & !(1u64 << a)) & (1u64 << b) != 0) == (w & (1u64 << b) != 0)),
        (0u64 & (1u64 << b)) == 0,
{
    assert((w | (1u64 << a)) & (1u64 << a) != 0) by (bit_vector)
        requires a < 64;
    assert(a != b ==> (((w | (1u64 << a)) & (1u64 << b) != 0) == (w & (1u64 << b) != 0))) by (bit_vector)
        requires a < 64, b < 64;
    assert((w & !(1u64 << a)) & (1u64 << a) == 0) by (bit_vector)
        requires a < 64;
    assert(a != b ==> (((w & !(1u64 << a)) & (1u64 << b) != 0) == (w & (1u64 << b) != 0))) by (bit_vector)
        requires a < 64, b < 64;
    assert((0u64 & (1u64 << b)) == 0) by (bit_vector);
}

/// Setting the bit of frame `n` in its word marks exactly `n` in addition.
proof fn lemma_bitmap_set(old_map: Seq<u64>, new_map: Seq<u64>, n: int)
    requires
        old_map.len() == BITMAP_WORDS,
        0 <= n < MAX_FRAMES,
        new_map == old_map.update(n / 64, old_map[n / 64] | (1u64 << ((n % 64) as u64))),
    ensures
        new_map.len() == BITMAP_WORDS,
        forall|m: int| #[trigger] bit_used(new_map, m) == (bit_used(old_map, m) || m == n),
{
    assert forall|m: int| #[trigger] bit_used(new_map, m) == (bit_used(old_map, m) || m == n) by {
        if 0 <= m < MAX_FRAMES {
            lemma_set_bit(old_map[n / 64], (n % 64) as u64, (m % 64) as u64);
            if m / 64 == n / 64 && m != n {
                assert(m % 64 != n % 64);
            }
        }
    }
}

/// Clearing the bit of frame `n` in its word unmarks exactly `n`.
proof fn lemma_bitmap_clear(old_map: Seq<u64>, new_map: Seq<u64>, n: int)
    requires
        old_map.len() == BITMAP_WORDS,
        0 <= n < MAX_FRAMES,
        new_map == old_map.update(n / 64, old_map[n / 64] & !(1u64 << ((n % 64) as u64))),
    ensures
        new_map.len() == BITMAP_WORDS,
        forall|m: int| #[trigger] bit_used(new_map, m) == (bit_used(old_map, m) && m != n),
{
    assert forall|m: int| #[trigger] bit_used(new_map, m) == (bit_used(old_map, m) && m != n) by {
        if 0 <= m < MAX_FRAMES {
            lemma_set_bit(old_map[n / 64], (n % 64) as u64, (m % 64) as u64);
            if m / 64 == n / 64 && m != n {
                assert(m % 64 != n % 64);
            }
        }
    }
}

/// A cyclic search from `start` over `total` frames visits every frame below `total`.
proof fn lemma_cyc_covers(start: int, total: int, n: int)
    requires
        0 <= start,
        0 <= n < total,
    ensures
        exists|k: int| 0 <= k < total && #[trigger] cyc(start, total, k) == n,
{
    let r = start % total;
    let k = if n >= r { n - r } else { n + total - r };
    assert(0 <= k < total);
    lemma_add_mod_noop(start, k, total);
    lemma_small_mod(k as nat, total as nat);
    assert(r + k == n || r + k == n + total);
    if r + k == n + total {
        lemma_mod_add_multiples_vanish(n, total);
    }
    lemma_small_mod(n as nat, total as nat);
    assert(cyc(start, total, k) == n);
}

impl FrameAllocator {
    /// The allocator's invariant: a bitmap of `BITMAP_WORDS` words, at most `MAX_FRAMES`
    /// frames managed, and a hint below `MAX_FRAMES`.
    pub open spec fn wf(&self) -> bool {
        &&& self.bitmap@.len() == BITMAP_WORDS
        &&& self.total_frames <= MAX_FRAMES
        &&& self.next_free_frame < MAX_FRAMES
    }

    /// Whether frame `n` is marked allocated.
    pub open spec fn used(&self, n: int) -> bool {
        bit_used(self.bitmap@, n)
    }

    /// An allocator with no frames under management, nothing allocated.
    pub fn new() -> (s: FrameAllocator)
        ensures
            s.wf(),
            s.total_frames == 0,
            s.allocated_frames == 0,
            s.next_free_frame == 0,
            forall|n: int| !#[trigger] s.used(n),
    {
        let mut bitmap: Vec<u64> = Vec::new();
        let mut i: usize = 0;
        while i < BITMAP_WORDS
            invariant
                i <= BITMAP_WORDS,
                bitmap@.len() == i,
                forall|j: int| 0 <= j < i ==> bitmap@[j] == 0u64,
            decreases BITMAP_WORDS - i,
        {
            bitmap.push(0);
            i = i + 1;
        }
        let s = FrameAllocator { bitmap, next_free_frame: 0, total_frames: 0, allocated_frames: 0 };
        assert forall|n: int| !#[trigger] s.used(n) by {
            if 0 <= n < MAX_FRAMES {
                lemma_set_bit(0u64, 0u64, (n % 64) as u64);
            }
        }
        s
    }
}

/// Frames in `[start, end)`, at most `MAX_FRAMES`.
pub open spec fn managed_frames(start: int, end: int) -> int {
    let n = (end - start) / (FRAME_SIZE as int);
    if n < MAX_FRAMES { n } else { MAX_FRAMES as int }
}

/// Take `memory_end - memory_start` bytes under management (at most `MAX_FRAMES`
/// frames) and mark every frame free. The allocated count and the hint are kept.
pub fn init(alloc: &mut FrameAllocator, memory_start: usize, memory_end: usize)
    requires
        old(alloc).wf(),
        memory_start <= memory_end,
    ensures
        final(alloc).wf(),
        final(alloc).total_frames == managed_frames(memory_start as int, memory_end as int),
        final(alloc).allocated_frames == old(alloc).allocated_frames,
        final(alloc).next_free_frame == old(alloc).next_free_frame,
        forall|n: int| !#[trigger] final(alloc).used(n),
{
    let frame_count = (memory_end - memory_start) / FRAME_SIZE;
    let frame_count = if frame_count < MAX_FRAMES { frame_count } else { MAX_FRAMES };
    alloc.total_frames = frame_count;
    let mut i: usize = 0;
    while i < alloc.bitmap.len()
        invariant
            alloc.wf(),
            alloc.total_frames == frame_count,
            alloc.allocated_frames == old(alloc).allocated_frames,
            alloc.next_free_frame == old(alloc).next_free_frame,
            i <= BITMAP_WORDS,
            forall|j: int| 0 <= j < i ==> alloc.bitmap@[j] == 0u64,
        decreases BITMAP_WORDS - i,
    {
        alloc.bitmap.set(i, 0);
        i = i + 1;
    }
    assert forall|n: int| !#[trigger] alloc.used(n) by {
        if 0 <= n < MAX_FRAMES {
            lemma_set_bit(0u64, 0u64, (n % 64) as u64);
        }
    }
}

/// What `allocate_frame` does to the state and returns.
pub open spec fn allocate_frame_post(pre: FrameAllocator, post: FrameAllocator, r: Option<Frame>) -> bool {
    &&& post.total_frames == pre.total_frames
    &&& match r {
        Some(f) => {
            &&& exists|k: int| 0 <= k < pre.total_frames
                && #[trigger] cyc(pre.next_free_frame as int, pre.total_frames as int, k) == f.number
                && forall|j: int| 0 <= j < k ==> pre.used(#[trigger] cyc(pre.next_free_frame as int, pre.total_frames as int, j))
            &&& f.number < pre.total_frames
            &&& !pre.used(f.number as int)
            &&& forall|n: int| #[trigger] post.used(n) == (pre.used(n) || n == f.number)
            &&& post.allocated_frames == pre.allocated_frames.wrapping_add(1)
            &&& post.next_free_frame == (f.number + 1) % (pre.total_frames as int)
        },
        None => {
            &&& forall|n: int| 0 <= n < pre.total_frames ==> #[trigger] pre.used(n)
            &&& post == pre
        },
    }
}

/// Allocate one frame: the first free frame met by a search that starts at the hint and
/// wraps around below the number of managed frames. `None` when every managed frame is
/// allocated.
pub fn allocate_frame(alloc: &mut FrameAllocator) -> (r: Option<Frame>)
    requires
        old(alloc).wf(),
    ensures
        final(alloc).wf(),
        allocate_frame_post(*old(alloc), *final(alloc), r),
{
    let total = alloc.total_frames;
    let start = alloc.next_free_frame;
    let ghost pre = *alloc;
    let mut offset: usize = 0;
    while offset < total
        invariant
            *alloc == pre,
            *old(alloc) == pre,
            pre.wf(),
            total == pre.total_frames,
            start == pre.next_free_frame,
            offset <= total,
            forall|j: int| 0 <= j < offset ==> pre.used(#[trigger] cyc(start as int, total as int, j)),
        ensures
            offset == total,
        decreases total - offset,
    {
        let frame_num = (start + offset) % total;
        let word_index = frame_num / 64;
        let bit_index = frame_num % 64;
        if word_index >= alloc.bitmap.len() {
            break;
        }
        let mask = 1u64 << (bit_index as u64);
        if alloc.bitmap[word_index] & mask == 0 {
            let w = alloc.bitmap[word_index] | mask;
            alloc.bitmap.set(word_index, w);
            alloc.allocated_frames = alloc.allocated_frames.wrapping_add(1);
            alloc.next_free_frame = (frame_num + 1) % total;
            proof {
                lemma_bitmap_set(pre.bitmap@, alloc.bitmap@, frame_num as int);
                assert(cyc(start as int, total as int, offset as int) == frame_num);
            }
            return Some(Frame { number: frame_num });
        }
        proof {
            assert(cyc(start as int, total as int, offset as int) == frame_num);
        }
        offset = offset + 1;
    }
    proof {
        assert forall|n: int| 0 <= n < total implies #[trigger] pre.used(n) by {
            lemma_cyc_covers(start as int, total as int, n);
            let k = choose|k: int| 0 <= k < total && #[trigger] cyc(start as int, total as int, k) == n;
            assert(pre.used(cyc(start as int, total as int, k)));
        }
    }
    None
}

/// Frames `start .. start + count` are all free in `a`.
pub open spec fn run_free(a: FrameAllocator, start: int, count: int) -> bool {
    forall|j: int| 0 <= j < count ==> !#[trigger] a.used(start + j)
}

/// What `allocate_frames` does to the state and returns.
pub open spec fn allocate_frames_post(pre: FrameAllocator, post: FrameAllocator, count: usize, r: Option<Frame>) -> bool {
    match r {
        Some(f) => {
            &&& count > 0
            &&& f.number + count <= pre.total_frames
            &&& run_free(pre, f.number as int, count as int)
            &&& forall|s: int| 0 <= s < f.number ==> !#[trigger] run_free(pre, s, count as int)
            &&& forall|n: int| #[trigger] post.used(n) == (pre.used(n) || (f.number <= n < f.number + count))
            &&& post.total_frames == pre.total_frames
            &&& post.allocated_frames == pre.allocated_frames.wrapping_add(count)
            &&& post.next_free_frame == (f.number + count) % (pre.total_frames as int)
        },
        None => {
            &&& post == pre
            &&& (count == 0 || forall|s: int| 0 <= s && s + count <= pre.total_frames
                ==> !#[trigger] run_free(pre, s, count as int))
        },
    }
}

/// Whether frames `start .. start + count` are all free.
fn frames_free(alloc: &FrameAllocator, start: usize, count: usize) -> (b: bool)
    requires
        alloc.wf(),
        start + count <= MAX_FRAMES,
    ensures
        b == run_free(*alloc, start as int, count as int),
{
    let mut offset: usize = 0;
    while offset < count
        invariant
            alloc.wf(),
            start + count <= MAX_FRAMES,
            offset <= count,
            forall|j: int| 0 <= j < offset ==> !#[trigger] alloc.used(start + j),
        decreases count - offset,
    {
        let frame_num = start + offset;
        let word_index = frame_num / 64;
        let bit_index = frame_num % 64;
        let mask = 1u64 << (bit_index as u64);
        if alloc.bitmap[word_index] & mask != 0 {
            assert(alloc.used(start + offset));
            return false;
        }
        offset = offset + 1;
    }
    true
}

/// Allocate `count` contiguous frames: the lowest run of `count` free frames that lies
/// below the number of managed frames. `None` when `count` is 0 or no such run exists.
pub fn allocate_frames(alloc: &mut FrameAllocator, count: usize) -> (r: Option<Frame>)
    requires
        old(alloc).wf(),
    ensures
        final(alloc).wf(),
        allocate_frames_post(*old(alloc), *final(alloc), count, r),
{
    if count == 0 {
        return None;
    }
    let total = alloc.total_frames;
    let ghost pre = *alloc;
    let limit = total.saturating_sub(count - 1);
    let mut start_frame: usize = 0;
    while start_frame < limit
        invariant
            *alloc == pre,
            *old(alloc) == pre,
            pre.wf(),
            count > 0,
            total == pre.total_frames,
            limit == if total >= count - 1 { total - (count - 1) } else { 0 },
            start_frame <= limit,
            forall|s: int| 0 <= s < start_frame ==> !#[trigger] run_free(pre, s, count as int),
        decreases limit - start_frame,
    {
        if frames_free(alloc, start_frame, count) {
            let mut offset: usize = 0;
            while offset < count
                invariant
                    alloc.wf(),
                    pre.wf(),
                    *old(alloc) == pre,
                    count > 0,
                    run_free(pre, start_frame as int, count as int),
                    forall|s: int| 0 <= s < start_frame ==> !#[trigger] run_free(pre, s, count as int),
                    alloc.total_frames == pre.total_frames,
                    alloc.allocated_frames == pre.allocated_frames,
                    alloc.next_free_frame == pre.next_free_frame,
                    start_frame + count <= total,
                    total == pre.total_frames,
                    offset <= count,
                    forall|n: int| #[trigger] alloc.used(n) == (pre.used(n) || (start_frame <= n < start_frame + offset)),
                decreases count - offset,
            {
                let frame_num = start_frame + offset;
                let word_index = frame_num / 64;
                let bit_index = frame_num % 64;
                let mask = 1u64 << (bit_index as u64);
                let ghost prev = *alloc;
                let w = alloc.bitmap[word_index] | mask;
                alloc.bitmap.set(word_index, w);
                proof {
                    lemma_bitmap_set(prev.bitmap@, alloc.bitmap@, frame_num as int);
                    assert forall|n: int| #[trigger] alloc.used(n)
                        == (pre.used(n) || (start_frame <= n < start_frame + offset + 1)) by {
                        assert(alloc.used(n) == (prev.used(n) || n == frame_num));
                    }
                }
                offset = offset + 1;
            }
            let ghost mid = *alloc;
            alloc.allocated_frames = alloc.allocated_frames.wrapping_add(count);
            alloc.next_free_frame = (start_frame + count) % total;
            assert forall|n: int| #[trigger] alloc.used(n)
                == (pre.used(n) || (start_frame <= n < start_frame + count)) by {
                assert(alloc.used(n) == mid.used(n));
            }
            return Some(Frame { number: start_frame });
        }
        start_frame = start_frame + 1;
    }
    None
}

/// What `deallocate_frame` does to the state.
pub open spec fn deallocate_frame_post(pre: FrameAllocator, post: FrameAllocator, frame: Frame) -> bool {
    if pre.used(frame.number as int) {
        &&& forall|n: int| #[trigger] post.used(n) == (pre.used(n) && n != frame.number)
        &&& post.total_frames == pre.total_frames
        &&& post.allocated_frames == pre.allocated_frames.wrapping_sub(1)
        &&& post.next_free_frame == if frame.number < pre.next_free_frame {
            frame.number
        } else {
            pre.next_free_frame
        }
    } else {
        post == pre
    }
}

/// Free one frame. A frame that is not marked allocated (or lies beyond the bitmap) is
/// left alone; a freed frame below the hint becomes the new hint.
pub fn deallocate_frame(alloc: &mut FrameAllocator, frame: Frame)
    requires
        old(alloc).wf(),
    ensures
        final(alloc).wf(),
        deallocate_frame_post(*old(alloc), *final(alloc), frame),
{
    let word_index = frame.number / 64;
    let bit_index = frame.number % 64;
    if word_index >= alloc.bitmap.len() {
        return;
    }
    let mask = 1u64 << (bit_index as u64);
    if alloc.bitmap[word_index] & mask != 0 {
        let ghost before = alloc.bitmap@;
        let w = alloc.bitmap[word_index] & !mask;
        alloc.bitmap.set(word_index, w);
        proof {
            lemma_bitmap_clear(before, alloc.bitmap@, frame.number as int);
        }
        alloc.allocated_frames = alloc.allocated_frames.wrapping_sub(1);
        let current_hint = alloc.next_free_frame;
        if frame.number < current_hint {
            alloc.next_free_frame = frame.number;
        }
    }
}

/// What `deallocate_frames` does to the state.
pub open spec fn deallocate_frames_post(pre: FrameAllocator, post: FrameAllocator, frame: Frame, count: usize) -> bool {
    &&& forall|n: int| #[trigger] post.used(n) == (pre.used(n) && !(frame.number <= n < frame.number + count))
    &&& post.total_frames == pre.total_frames
    &&& post.allocated_frames == pre.allocated_frames.wrapping_sub(count)
    &&& post.next_free_frame == if frame.number < pre.next_free_frame {
        frame.number
    } else {
        pre.next_free_frame
    }
}

/// Free `count` frames from `frame` on, stopping at the end of the bitmap. The allocated
/// count drops by `count` whether or not each frame was marked.
pub fn deallocate_frames(alloc: &mut FrameAllocator, frame: Frame, count: usize)
    requires
        old(alloc).wf(),
        frame.number + count <= usize::MAX,
    ensures
        final(alloc).wf(),
        deallocate_frames_post(*old(alloc), *final(alloc), frame, count),
{
    let ghost pre = *alloc;
    let mut offset: usize = 0;
    while offset < count
        invariant
            alloc.wf(),
            pre.wf(),
            *old(alloc) == pre,
            frame.number + count <= usize::MAX,
            alloc.total_frames == pre.total_frames,
            alloc.allocated_frames == pre.allocated_frames,
            alloc.next_free_frame == pre.next_free_frame,
            offset <= count,
            forall|n: int| #[trigger] alloc.used(n) == (pre.used(n) && !(frame.number <= n < frame.number + offset)),
        ensures
            alloc.wf(),
            *old(alloc) == pre,
            alloc.total_frames == pre.total_frames,
            alloc.allocated_frames == pre.allocated_frames,
            alloc.next_free_frame == pre.next_free_frame,
            forall|n: int| #[trigger] alloc.used(n) == (pre.used(n) && !(frame.number <= n < frame.number + count)),
        decreases count - offset,
    {
        let frame_num = frame.number + offset;
        let word_index = frame_num / 64;
        let bit_index = frame_num % 64;
        if word_index >= alloc.bitmap.len() {
            assert forall|n: int| #[trigger] alloc.used(n) == (pre.used(n) && !(frame.number <= n < frame.number + count)) by {
                if frame.number + offset <= n {
                    assert(!alloc.used(n));
                    assert(!pre.used(n));
                }
            }
            break;
        }
        let mask = 1u64 << (bit_index as u64);
        if alloc.bitmap[word_index] & mask != 0 {
            let ghost prev = *alloc;
            let w = alloc.bitmap[word_index] & !mask;
            alloc.bitmap.set(word_index, w);
            proof {
                lemma_bitmap_clear(prev.bitmap@, alloc.bitmap@, frame_num as int);
                assert forall|n: int| #[trigger] alloc.used(n)
                    == (pre.used(n) && !(frame.number <= n < frame.number + offset + 1)) by {
                    assert(alloc.used(n) == (prev.used(n) && n != frame_num));
                }
            }
        } else {
            assert(!alloc.used(frame_num as int));
        }
        offset = offset + 1;
    }
    let ghost mid = *alloc;
    alloc.allocated_frames = alloc.allocated_frames.wrapping_sub(count);
    let current_hint = alloc.next_free_frame;
    if frame.number < current_hint {
        alloc.next_free_frame = frame.number;
    }
    assert forall|n: int| #[trigger] alloc.used(n)
        == (pre.used(n) && !(frame.number <= n < frame.number + count)) by {
        assert(alloc.used(n) == mid.used(n));
    }
}

/// Mark one frame allocated (to reserve it); the count grows only if it was free.
/// Frames beyond the bitmap are ignored.
pub fn mark_frame_used(alloc: &mut FrameAllocator, frame: Frame)
    requires
        old(alloc).wf(),
    ensures
        final(alloc).wf(),
        final(alloc).total_frames == old(alloc).total_frames,
        final(alloc).next_free_frame == old(alloc).next_free_frame,
        frame.number < MAX_FRAMES && !old(alloc).used(frame.number as int) ==> {
            &&& forall|n: int| #[trigger] final(alloc).used(n) == (old(alloc).used(n) || n == frame.number)
            &&& final(alloc).allocated_frames == old(alloc).allocated_frames.wrapping_add(1)
        },
        !(frame.number < MAX_FRAMES && !old(alloc).used(frame.number as int)) ==> *final(alloc) == *old(alloc),
{
    let word_index = frame.number / 64;
    let bit_index = frame.number % 64;
    if word_index < alloc.bitmap.len() {
        let mask = 1u64 << (bit_index as u64);
        if alloc.bitmap[word_index] & mask == 0 {
            let ghost before = alloc.bitmap@;
            let w = alloc.bitmap[word_index] | mask;
            alloc.bitmap.set(word_index, w);
            proof {
                lemma_bitmap_set(before, alloc.bitmap@, frame.number as int);
            }
            alloc.allocated_frames = alloc.allocated_frames.wrapping_add(1);
        }
    }
}

/// Whether a frame is marked allocated.
pub fn is_frame_allocated(alloc: &FrameAllocator, frame: Frame) -> (b: bool)
    requires
        alloc.wf(),
    ensures
        b == alloc.used(frame.number as int),
{
    let word_index = frame.number / 64;
    let bit_index = frame.number % 64;
    if word_index >= alloc.bitmap.len() {
        return false;
    }
    let mask = 1u64 << (bit_index as u64);
    alloc.bitmap[word_index] & mask != 0
}

/// (managed frames, allocated count, managed frames minus allocated, floored at 0).
pub fn stats(alloc: &FrameAllocator) -> (r: (usize, usize, usize))
    ensures
        r.0 == alloc.total_frames,
        r.1 == alloc.allocated_frames,
        r.2 == if alloc.allocated_frames <= alloc.total_frames {
            alloc.total_frames - alloc.allocated_frames
        } else {
            0
        },
{
    let total = alloc.total_frames;
    let allocated = alloc.allocated_frames;
    let free = total.saturating_sub(allocated);
    (total, allocated, free)
}

/// A frame handed out by `allocate_frame` was free before the call, is allocated after it,
/// and lies below the number of managed frames.
pub proof fn law_allocated_frame_was_free(pre: FrameAllocator, post: FrameAllocator, f: Frame)
    requires
        allocate_frame_post(pre, post, Some(f)),
    ensures
        !pre.used(f.number as int),
        post.used(f.number as int),
        f.number < pre.total_frames,
{
}

/// Two allocations in a row never hand out the same frame.
pub proof fn law_no_double_allocation(s0: FrameAllocator, s1: FrameAllocator, s2: FrameAllocator, f1: Frame, f2: Frame)
    requires
        allocate_frame_post(s0, s1, Some(f1)),
        allocate_frame_post(s1, s2, Some(f2)),
    ensures
        f1.number != f2.number,
{
    assert(s1.used(f1.number as int));
}

/// Freeing the frame that `allocate_frame` just returned gives back the same set of
/// allocated frames and the same allocated count.
pub proof fn law_allocate_then_free(s0: FrameAllocator, s1: FrameAllocator, s2: FrameAllocator, f: Frame)
    requires
        allocate_frame_post(s0, s1, Some(f)),
        deallocate_frame_post(s1, s2, f),
    ensures
        forall|n: int| #[trigger] s2.used(n) == s0.used(n),
        s2.allocated_frames == s0.allocated_frames,
        s2.total_frames == s0.total_frames,
{
    assert(s1.used(f.number as int));
    assert forall|n: int| #[trigger] s2.used(n) == s0.used(n) by {
        assert(s2.used(n) == (s1.used(n) && n != f.number));
        assert(s1.used(n) == (s0.used(n) || n == f.number));
    }
}

/// A run handed out by `allocate_frames` lies below the managed frames, was wholly free
/// before the call and is wholly allocated after it.
pub proof fn law_allocated_run_was_free(pre: FrameAllocator, post: FrameAllocator, count: usize, f: Frame)
    requires
        allocate_frames_post(pre, post, count, Some(f)),
    ensures
        f.number + count <= pre.total_frames,
        forall|n: int| f.number <= n < f.number + count ==> !#[trigger] pre.used(n),
        forall|n: int| f.number <= n < f.number + count ==> #[trigger] post.used(n),
{
    assert forall|n: int| f.number <= n < f.number + count implies !#[trigger] pre.used(n) by {
        let j = n - f.number;
        assert(!pre.used(f.number + j));
        assert(f.number + j == n);
    }
}

} // verus!
