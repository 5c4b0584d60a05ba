//! Kernel heap: a first-fit allocator over a list of free regions. The list is held
//! head first; a region is its start address and its size in bytes. Free regions never
//! overlap or touch: a freed block is merged with the free regions next to it.

use vstd::prelude::*;

verus! {

/// Kernel heap size (16 MiB).
pub const HEAP_SIZE: usize = 16777216;

/// Smallest block handed out or kept free: the size of a free-list node (its size and
/// its link).
pub const MIN_ALLOC_SIZE: usize = 16;

/// Alignment of a free-list node.
pub const NODE_ALIGN: usize = 8;

/// The free list.
pub struct LinkedListAllocator {
    pub regions: Vec<(usize, usize)>,
}

/// A free region can hold a node: big enough, aligned, and not past the end of memory.
pub open spec fn region_ok(r: (usize, usize)) -> bool {
    r.1 >= MIN_ALLOC_SIZE && r.0 % NODE_ALIGN == 0 && r.0 + r.1 <= usize::MAX
}

/// Two regions neither overlap nor touch: a gap of at least one byte lies between them.
pub open spec fn apart(a: (usize, usize), b: (usize, usize)) -> bool {
    a.0 + a.1 < b.0 || b.0 + b.1 < a.0
}

/// Two regions do not overlap.
pub open spec fn disjoint(a: (usize, usize), b: (usize, usize)) -> bool {
    a.0 + a.1 <= b.0 || b.0 + b.1 <= a.0
}

/// No two regions of the list overlap or touch.
pub open spec fn pairwise_apart(s: Seq<(usize, usize)>) -> bool {
    forall|i: int, j: int| 0 <= i < s.len() && 0 <= j < s.len() && i != j ==> apart(#[trigger] s[i], #[trigger] s[j])
}

/// A well-formed free list: every region can hold a node, and no two overlap or touch.
pub open spec fn list_ok(s: Seq<(usize, usize)>) -> bool {
    &&& forall|i: int| 0 <= i < s.len() ==> #[trigger] region_ok(s[i])
    &&& pairwise_apart(s)
}

/// `(addr + align - 1)` with the low bits of `align - 1` cleared.
pub open spec fn align_up_spec(addr: usize, align: usize) -> usize {
    ((addr + align - 1) as usize) & !((align - 1) as usize)
}

/// `align` is a power of two.
pub open spec fn is_power_of_two(align: usize) -> bool {
    align != 0 && align & ((align - 1) as usize) == 0
}

/// `addr` is a multiple of the power of two `align`: its low bits are clear.
pub open spec fn is_aligned(addr: usize, align: usize) -> bool {
    addr & ((align - 1) as usize) == 0
}

/// Round `addr` up: `(addr + align - 1) & !(align - 1)`. For a power of two this is
/// the least multiple of `align` that is at least `addr`.
pub fn align_up(addr: usize, align: usize) -> (r: usize)
    requires
        align >= 1,
        addr + align - 1 <= usize::MAX,
    ensures
        r == align_up_spec(addr, align),
        is_power_of_two(align) ==> is_aligned(r, align) && addr <= r < addr + align,
{
    proof {
        lemma_align_up(addr, align);
    }
    (addr + (align - 1)) & !(align - 1)
}

/// What rounding up to a power of two gives.
pub proof fn lemma_align_up(addr: usize, align: usize)
    requires
        align >= 1,
        addr + align - 1 <= usize::MAX,
    ensures
        is_power_of_two(align) ==> is_aligned(align_up_spec(addr, align), align)
            && addr <= align_up_spec(addr, align) < addr + align,
{
    if is_power_of_two(align) {
        let r = align_up_spec(addr, align);
        let s = (addr + align - 1) as usize;
        assert(s == addr + align - 1);
        assert(r & ((align - 1) as usize) == 0 && addr <= r && r - addr < align) by (bit_vector)
            requires
                r == s & !((align - 1) as usize),
                s == addr + align - 1,
                align != 0,
                align & ((align - 1) as usize) == 0;
    }
}

/// Rounding a multiple of 8 up to a power of two gives a multiple of 8.
proof fn lemma_align_up_keeps_8(addr: usize, align: usize)
    requires
        addr % 8 == 0,
        is_power_of_two(align),
        addr + align - 1 <= usize::MAX,
    ensures
        align_up_spec(addr, align) % 8 == 0,
{
    let r = align_up_spec(addr, align);
    let s = (addr + align - 1) as usize;
    assert(s == addr + align - 1);
    assert(r % 8 == 0) by (bit_vector)
        requires
            r == s & !((align - 1) as usize),
            s == addr + align - 1,
            addr % 8 == 0,
            align != 0,
            align & ((align - 1) as usize) == 0;
}

/// The size of the block handed out for a request of `size` bytes: at least
/// `MIN_ALLOC_SIZE`.
pub open spec fn block_size(size: usize) -> int {
    if size < MIN_ALLOC_SIZE { MIN_ALLOC_SIZE as int } else { size as int }
}

/// `x` rounded up to a multiple of `NODE_ALIGN`: where the free part after a block
/// starts, so that it can hold a node.
pub open spec fn round8(x: int) -> int {
    (x + 7) / 8 * 8
}

/// Region `r` holds a block of `size` bytes aligned to `align`.
pub open spec fn fits(r: (usize, usize), size: int, align: usize) -> bool {
    r.0 + align - 1 <= usize::MAX && align_up_spec(r.0, align) + size <= r.0 + r.1
}

/// First fit: the index of the first region that holds a block of `size` bytes aligned
/// to `align`, or `None` when none does.
pub open spec fn search(regions: Seq<(usize, usize)>, size: int, align: usize) -> Option<int>
    decreases regions.len(),
{
    if regions.len() == 0 {
        None
    } else if fits(regions[0], size, align) {
        Some(0)
    } else {
        match search(regions.drop_first(), size, align) {
            Some(i) => Some(i + 1),
            None => None,
        }
    }
}

/// Where first fit stops, the region is in the list and holds the block; where it
/// finds nothing, no region holds it.
pub proof fn lemma_search_some(regions: Seq<(usize, usize)>, size: int, align: usize)
    ensures
        search(regions, size, align) matches Some(i) ==> 0 <= i < regions.len() && fits(regions[i], size, align)
            && forall|k: int| 0 <= k < i ==> !fits(#[trigger] regions[k], size, align),
        search(regions, size, align) is None ==> forall|k: int| 0 <= k < regions.len() ==> !fits(#[trigger] regions[k], size, align),
    decreases regions.len(),
{
    if regions.len() > 0 {
        let t = regions.drop_first();
        lemma_search_some(t, size, align);
        assert forall|k: int| 1 <= k < regions.len() implies #[trigger] regions[k] == t[k - 1] by {}
        if !fits(regions[0], size, align) {
            if search(t, size, align) is None {
                assert forall|k: int| 0 <= k < regions.len() implies !fits(#[trigger] regions[k], size, align) by {
                    if k > 0 { assert(regions[k] == t[k - 1]); }
                }
            } else {
                let i = search(t, size, align)->0;
                assert forall|k: int| 0 <= k < i + 1 implies !fits(#[trigger] regions[k], size, align) by {
                    if k > 0 { assert(regions[k] == t[k - 1]); }
                }
            }
        }
    }
}

/// The free list after taking a block of `size` bytes at `start` out of region `i`:
/// the region leaves the list; what is left before the block, then what is left after
/// it from the next multiple of `NODE_ALIGN` on, go back at the head when at least
/// `MIN_ALLOC_SIZE` bytes.
pub open spec fn after_alloc(regions: Seq<(usize, usize)>, i: int, start: int, size: int) -> Seq<(usize, usize)> {
    let r = regions[i];
    let rest = regions.remove(i);
    let head_gap = start - r.0;
    let tail_start = round8(start + size);
    let tail_gap = r.0 + r.1 - tail_start;
    let with_head = if head_gap >= MIN_ALLOC_SIZE { seq![(r.0, head_gap as usize)] + rest } else { rest };
    if tail_gap >= MIN_ALLOC_SIZE { seq![(tail_start as usize, tail_gap as usize)] + with_head } else { with_head }
}

/// The sum of the sizes of the free regions.
pub open spec fn free_bytes(regions: Seq<(usize, usize)>) -> int
    decreases regions.len(),
{
    if regions.len() == 0 { 0 } else { regions[0].1 + free_bytes(regions.drop_first()) }
}

/// The regions that stay as they are when the block `[lo, hi)` is freed: all but one
/// ending at `lo` and one starting at `hi`.
pub open spec fn others(s: Seq<(usize, usize)>, lo: int, hi: int) -> Seq<(usize, usize)>
    decreases s.len(),
{
    if s.len() == 0 {
        s
    } else if s[0].0 + s[0].1 == lo || s[0].0 == hi {
        others(s.drop_first(), lo, hi)
    } else {
        seq![s[0]] + others(s.drop_first(), lo, hi)
    }
}

/// Where the merged region starts: at the start of a region ending at `lo`, else `lo`.
pub open spec fn merged_lo(s: Seq<(usize, usize)>, lo: int) -> int
    decreases s.len(),
{
    if s.len() == 0 { lo } else if s[0].0 + s[0].1 == lo { s[0].0 as int } else { merged_lo(s.drop_first(), lo) }
}

/// Where the merged region ends: at the end of a region starting at `hi`, else `hi`.
pub open spec fn merged_hi(s: Seq<(usize, usize)>, hi: int) -> int
    decreases s.len(),
{
    if s.len() == 0 { hi } else if s[0].0 == hi { s[0].0 + s[0].1 } else { merged_hi(s.drop_first(), hi) }
}

/// The free list after the block `[lo, hi)` is freed: the block merged with the free
/// regions that touch it goes at the head, the other regions follow in order.
pub open spec fn coalesce(s: Seq<(usize, usize)>, lo: int, hi: int) -> Seq<(usize, usize)> {
    let a = merged_lo(s, lo);
    let b = merged_hi(s, hi);
    seq![(a as usize, (b - a) as usize)] + others(s, lo, hi)
}

proof fn lemma_prepend_apart(x: (usize, usize), s: Seq<(usize, usize)>)
    requires
        pairwise_apart(s),
        forall|k: int| 0 <= k < s.len() ==> apart(x, #[trigger] s[k]),
    ensures
        pairwise_apart(seq![x] + s),
{
    let t = seq![x] + s;
    assert forall|i: int, j: int| 0 <= i < t.len() && 0 <= j < t.len() && i != j implies apart(#[trigger] t[i], #[trigger] t[j]) by {
        if i == 0 {
            assert(t[j] == s[j - 1]);
        } else if j == 0 {
            assert(t[i] == s[i - 1]);
        } else {
            assert(t[i] == s[i - 1] && t[j] == s[j - 1]);
        }
    }
}

proof fn lemma_remove_apart(s: Seq<(usize, usize)>, i: int)
    requires
        0 <= i < s.len(),
        list_ok(s),
    ensures
        list_ok(s.remove(i)),
        forall|k: int| 0 <= k < s.remove(i).len() ==> apart(#[trigger] s.remove(i)[k], s[i]),
{
    let t = s.remove(i);
    assert forall|a: int, b: int| 0 <= a < t.len() && 0 <= b < t.len() && a != b implies apart(#[trigger] t[a], #[trigger] t[b]) by {
        let a2 = if a < i { a } else { a + 1 };
        let b2 = if b < i { b } else { b + 1 };
        assert(t[a] == s[a2] && t[b] == s[b2]);
    }
    assert forall|k: int| 0 <= k < t.len() implies region_ok(#[trigger] t[k]) && apart(t[k], s[i]) by {
        let k2 = if k < i { k } else { k + 1 };
        assert(t[k] == s[k2]);
    }
}

/// A part of a region that is apart from every region of a list is apart from them too.
proof fn lemma_sub_apart(r: (usize, usize), x: (usize, usize), s: Seq<(usize, usize)>)
    requires
        forall|k: int| 0 <= k < s.len() ==> apart(#[trigger] s[k], r),
        r.0 <= x.0,
        x.0 + x.1 <= r.0 + r.1,
    ensures
        forall|k: int| 0 <= k < s.len() ==> apart(x, #[trigger] s[k]),
{
    assert forall|k: int| 0 <= k < s.len() implies apart(x, #[trigger] s[k]) by {
        assert(apart(s[k], r));
    }
}

/// Putting a region that can hold a node, apart from the others, at the head of a
/// well-formed list keeps it well formed.
proof fn lemma_prepend_ok(x: (usize, usize), s: Seq<(usize, usize)>)
    requires
        list_ok(s),
        region_ok(x),
        forall|k: int| 0 <= k < s.len() ==> apart(x, #[trigger] s[k]),
    ensures
        list_ok(seq![x] + s),
{
    lemma_prepend_apart(x, s);
    let t = seq![x] + s;
    assert forall|k: int| 0 <= k < t.len() implies region_ok(#[trigger] t[k]) by {
        if k > 0 { assert(t[k] == s[k - 1]); }
    }
}

/// A region put at the head of a list that overlaps no part of `b` overlaps none of it
/// when it does not itself.
proof fn lemma_prepend_disjoint(x: (usize, usize), s: Seq<(usize, usize)>, b: (usize, usize))
    requires
        disjoint(x, b),
        forall|k: int| 0 <= k < s.len() ==> disjoint(#[trigger] s[k], b),
    ensures
        forall|k: int| 0 <= k < (seq![x] + s).len() ==> disjoint(#[trigger] (seq![x] + s)[k], b),
{
    let t = seq![x] + s;
    assert forall|k: int| 0 <= k < t.len() implies disjoint(#[trigger] t[k], b) by {
        if k > 0 { assert(t[k] == s[k - 1]); }
    }
}

/// The list after an allocation is well formed, and no region of it overlaps the block.
proof fn lemma_after_alloc(regions: Seq<(usize, usize)>, i: int, p: int, bs: int)
    requires
        list_ok(regions),
        0 <= i < regions.len(),
        regions[i].0 <= p,
        p + bs <= regions[i].0 + regions[i].1,
        bs >= MIN_ALLOC_SIZE,
        p % 8 == 0,
    ensures
        list_ok(after_alloc(regions, i, p, bs)),
        forall|k: int| 0 <= k < after_alloc(regions, i, p, bs).len()
            ==> disjoint(#[trigger] after_alloc(regions, i, p, bs)[k], (p as usize, bs as usize)),
{
    let r = regions[i];
    let blk = (p as usize, bs as usize);
    let rest = regions.remove(i);
    lemma_remove_apart(regions, i);
    assert(region_ok(regions[i]));
    let head = (r.0, (p - r.0) as usize);
    let ts = round8(p + bs);
    assert(ts % 8 == 0 && p + bs <= ts < p + bs + 8) by (nonlinear_arith)
        requires ts == (p + bs + 7) / 8 * 8;
    let tail = (ts as usize, (r.0 + r.1 - ts) as usize);
    assert forall|k: int| 0 <= k < rest.len() implies disjoint(#[trigger] rest[k], blk) by {
        assert(apart(rest[k], r));
    }
    lemma_sub_apart(r, head, rest);
    if r.0 + r.1 - ts >= MIN_ALLOC_SIZE {
        lemma_sub_apart(r, tail, rest);
    }
    let with_head = if p - r.0 >= MIN_ALLOC_SIZE { seq![head] + rest } else { rest };
    if p - r.0 >= MIN_ALLOC_SIZE {
        lemma_prepend_ok(head, rest);
        lemma_prepend_disjoint(head, rest, blk);
    }
    assert(forall|k: int| 0 <= k < with_head.len() ==> disjoint(#[trigger] with_head[k], blk));
    assert(list_ok(with_head));
    if r.0 + r.1 - ts >= MIN_ALLOC_SIZE {
        assert forall|k: int| 0 <= k < with_head.len() implies apart(tail, #[trigger] with_head[k]) by {
            if p - r.0 >= MIN_ALLOC_SIZE {
                if k > 0 { assert(with_head[k] == rest[k - 1]); }
            }
        }
        lemma_prepend_ok(tail, with_head);
        lemma_prepend_disjoint(tail, with_head, blk);
    }
}

/// Where the merged region starts: either nothing ends at `lo` and it is `lo`, or it is
/// the start of a region that ends at `lo`.
proof fn lemma_merged_lo(s: Seq<(usize, usize)>, lo: int)
    ensures
        (merged_lo(s, lo) == lo && forall|k: int| 0 <= k < s.len() ==> #[trigger] s[k].0 + s[k].1 != lo)
            || exists|k: int| 0 <= k < s.len() && #[trigger] s[k].0 + s[k].1 == lo && merged_lo(s, lo) == s[k].0,
    decreases s.len(),
{
    if s.len() > 0 && s[0].0 + s[0].1 != lo {
        let t = s.drop_first();
        lemma_merged_lo(t, lo);
        if merged_lo(t, lo) == lo && forall|k: int| 0 <= k < t.len() ==> #[trigger] t[k].0 + t[k].1 != lo {
            assert forall|k: int| 0 <= k < s.len() implies #[trigger] s[k].0 + s[k].1 != lo by {
                if k > 0 { assert(s[k] == t[k - 1]); }
            }
        } else {
            let k = choose|k: int| 0 <= k < t.len() && #[trigger] t[k].0 + t[k].1 == lo && merged_lo(t, lo) == t[k].0;
            assert(s[k + 1] == t[k]);
        }
    } else if s.len() > 0 {
        assert(s[0].0 + s[0].1 == lo);
    }
}

/// Where the merged region ends: either nothing starts at `hi` and it is `hi`, or it is
/// the end of a region that starts at `hi`.
proof fn lemma_merged_hi(s: Seq<(usize, usize)>, hi: int)
    ensures
        (merged_hi(s, hi) == hi && forall|k: int| 0 <= k < s.len() ==> #[trigger] s[k].0 != hi)
            || exists|k: int| 0 <= k < s.len() && #[trigger] s[k].0 == hi && merged_hi(s, hi) == s[k].0 + s[k].1,
    decreases s.len(),
{
    if s.len() > 0 && s[0].0 != hi {
        let t = s.drop_first();
        lemma_merged_hi(t, hi);
        if merged_hi(t, hi) == hi && forall|k: int| 0 <= k < t.len() ==> #[trigger] t[k].0 != hi {
            assert forall|k: int| 0 <= k < s.len() implies #[trigger] s[k].0 != hi by {
                if k > 0 { assert(s[k] == t[k - 1]); }
            }
        } else {
            let k = choose|k: int| 0 <= k < t.len() && #[trigger] t[k].0 == hi && merged_hi(t, hi) == t[k].0 + t[k].1;
            assert(s[k + 1] == t[k]);
        }
    }
}

/// Every region kept is a region of the list that neither ends at `lo` nor starts at
/// `hi`; the kept regions are well formed when the list is.
proof fn lemma_others(s: Seq<(usize, usize)>, lo: int, hi: int)
    ensures
        forall|a: int| 0 <= a < others(s, lo, hi).len() ==> exists|k: int| 0 <= k < s.len()
            && s[k] == #[trigger] others(s, lo, hi)[a] && s[k].0 + s[k].1 != lo && s[k].0 != hi,
        list_ok(s) ==> list_ok(others(s, lo, hi)),
    decreases s.len(),
{
    if s.len() > 0 {
        let t = s.drop_first();
        lemma_others(t, lo, hi);
        let o = others(t, lo, hi);
        if list_ok(s) {
            assert forall|i: int, j: int| 0 <= i < t.len() && 0 <= j < t.len() && i != j implies apart(#[trigger] t[i], #[trigger] t[j]) by {
                assert(t[i] == s[i + 1] && t[j] == s[j + 1]);
            }
            assert forall|i: int| 0 <= i < t.len() implies region_ok(#[trigger] t[i]) by {
                assert(t[i] == s[i + 1]);
            }
        }
        assert forall|a: int| 0 <= a < o.len() implies exists|k: int| 0 <= k < s.len()
            && s[k] == #[trigger] o[a] && s[k].0 + s[k].1 != lo && s[k].0 != hi by {
            let k = choose|k: int| 0 <= k < t.len() && t[k] == #[trigger] o[a] && t[k].0 + t[k].1 != lo && t[k].0 != hi;
            assert(s[k + 1] == t[k]);
        }
        if !(s[0].0 + s[0].1 == lo || s[0].0 == hi) {
            let w = seq![s[0]] + o;
            assert forall|a: int| 0 <= a < w.len() implies exists|k: int| 0 <= k < s.len()
                && s[k] == #[trigger] w[a] && s[k].0 + s[k].1 != lo && s[k].0 != hi by {
                if a == 0 {
                    assert(s[0] == w[0]);
                } else {
                    assert(w[a] == o[a - 1]);
                    let k = choose|k: int| 0 <= k < s.len() && s[k] == #[trigger] o[a - 1] && s[k].0 + s[k].1 != lo && s[k].0 != hi;
                    assert(s[k] == w[a]);
                }
            }
            if list_ok(s) {
                assert forall|a: int| 0 <= a < o.len() implies apart(s[0], #[trigger] o[a]) by {
                    let k = choose|k: int| 0 <= k < s.len() && s[k] == #[trigger] o[a] && s[k].0 + s[k].1 != lo && s[k].0 != hi;
                    let k2 = choose|k2: int| 0 <= k2 < t.len() && t[k2] == #[trigger] o[a] && t[k2].0 + t[k2].1 != lo && t[k2].0 != hi;
                    assert(s[k2 + 1] == o[a]);
                    assert(apart(s[0], s[k2 + 1]));
                }
                lemma_prepend_apart(s[0], o);
                assert forall|a: int| 0 <= a < w.len() implies region_ok(#[trigger] w[a]) by {
                    if a > 0 { assert(w[a] == o[a - 1]); }
                }
            }
        }
    }
}

/// Freeing a block that overlaps no free region keeps the list well formed.
proof fn lemma_coalesce_ok(s: Seq<(usize, usize)>, ptr: usize, bs: usize)
    requires
        list_ok(s),
        ptr % 8 == 0,
        bs >= MIN_ALLOC_SIZE,
        ptr + bs <= usize::MAX,
        forall|k: int| 0 <= k < s.len() ==> disjoint((ptr, bs), #[trigger] s[k]),
    ensures
        list_ok(coalesce(s, ptr as int, ptr + bs)),
        merged_lo(s, ptr as int) <= ptr,
        merged_hi(s, ptr + bs) >= ptr + bs,
        merged_hi(s, ptr + bs) <= usize::MAX,
        merged_lo(s, ptr as int) >= 0,
{
    let lo = ptr as int;
    let hi = ptr + bs;
    lemma_merged_lo(s, lo);
    lemma_merged_hi(s, hi);
    lemma_others(s, lo, hi);
    let a = merged_lo(s, lo);
    let b = merged_hi(s, hi);
    let o = others(s, lo, hi);
    if exists|k: int| 0 <= k < s.len() && #[trigger] s[k].0 + s[k].1 == lo && a == s[k].0 {
        let k = choose|k: int| 0 <= k < s.len() && #[trigger] s[k].0 + s[k].1 == lo && a == s[k].0;
        assert(region_ok(s[k]));
    }
    if exists|k: int| 0 <= k < s.len() && #[trigger] s[k].0 == hi && b == s[k].0 + s[k].1 {
        let k = choose|k: int| 0 <= k < s.len() && #[trigger] s[k].0 == hi && b == s[k].0 + s[k].1;
        assert(region_ok(s[k]));
    }
    let m = (a as usize, (b - a) as usize);
    assert(region_ok(m));
    assert forall|x: int| 0 <= x < o.len() implies apart(m, #[trigger] o[x]) by {
        let j = choose|j: int| 0 <= j < s.len() && s[j] == #[trigger] o[x] && s[j].0 + s[j].1 != lo && s[j].0 != hi;
        assert(region_ok(s[j]));
        assert(disjoint((ptr, bs), s[j]));
        if exists|k: int| 0 <= k < s.len() && #[trigger] s[k].0 + s[k].1 == lo && a == s[k].0 {
            let k = choose|k: int| 0 <= k < s.len() && #[trigger] s[k].0 + s[k].1 == lo && a == s[k].0;
            assert(k != j);
            assert(apart(s[j], s[k]));
            assert(region_ok(s[k]));
        }
        if exists|k: int| 0 <= k < s.len() && #[trigger] s[k].0 == hi && b == s[k].0 + s[k].1 {
            let k = choose|k: int| 0 <= k < s.len() && #[trigger] s[k].0 == hi && b == s[k].0 + s[k].1;
            assert(k != j);
            assert(apart(s[j], s[k]));
            assert(region_ok(s[k]));
        }
    }
    lemma_prepend_apart(m, o);
    let c = seq![m] + o;
    assert forall|x: int| 0 <= x < c.len() implies region_ok(#[trigger] c[x]) by {
        if x > 0 { assert(c[x] == o[x - 1]); }
    }
    assert(c == coalesce(s, lo, hi));
}

impl LinkedListAllocator {
    /// Every free region can hold a node, and no two overlap or touch.
    pub open spec fn wf(&self) -> bool {
        list_ok(self.regions@)
    }

    /// An allocator with no free memory.
    pub fn new() -> (a: LinkedListAllocator)
        ensures
            a.wf(),
            a.regions@ == Seq::<(usize, usize)>::empty(),
    {
        LinkedListAllocator { regions: Vec::new() }
    }

    /// Give the allocator the heap `[heap_start, heap_start + heap_size)`, which no
    /// free region overlaps or touches.
    pub fn init(&mut self, heap_start: usize, heap_size: usize)
        requires
            old(self).wf(),
            region_ok((heap_start, heap_size)),
            forall|k: int| 0 <= k < old(self).regions@.len() ==> apart((heap_start, heap_size), #[trigger] old(self).regions@[k]),
        ensures
            final(self).wf(),
            final(self).regions@ == seq![(heap_start, heap_size)] + old(self).regions@,
    {
        self.add_free_region(heap_start, heap_size);
    }

    /// Put a free region at the head of the list.
    fn add_free_region(&mut self, addr: usize, size: usize)
        requires
            old(self).wf(),
            region_ok((addr, size)),
            forall|k: int| 0 <= k < old(self).regions@.len() ==> apart((addr, size), #[trigger] old(self).regions@[k]),
        ensures
            final(self).wf(),
            final(self).regions@ == seq![(addr, size)] + old(self).regions@,
    {
        self.regions.insert(0, (addr, size));
        assert(self.regions@ =~= seq![(addr, size)] + old(self).regions@);
        proof {
            lemma_prepend_apart((addr, size), old(self).regions@);
        }
        assert forall|i: int| 0 <= i < self.regions@.len() implies #[trigger] region_ok(self.regions@[i]) by {
            if i > 0 {
                assert(self.regions@[i] == old(self).regions@[i - 1]);
            }
        }
    }

    /// First fit: take the first region that can hold `size` bytes aligned to `align`
    /// out of the list, and return its start and size.
    fn find_region(&mut self, size: usize, align: usize) -> (r: Option<(usize, usize)>)
        requires
            old(self).wf(),
            align >= 1,
        ensures
            match search(old(self).regions@, size as int, align) {
                Some(i) => r == Some(old(self).regions@[i]) && final(self).regions@ == old(self).regions@.remove(i),
                None => r is None && final(self).regions@ == old(self).regions@,
            },
    {
        let mut i: usize = 0;
        assert(self.regions@.skip(0) =~= self.regions@);
        while i < self.regions.len()
            invariant
                self.regions@ == old(self).regions@,
                i <= self.regions@.len(),
                align >= 1,
                forall|k: int| 0 <= k < self.regions@.len() ==> #[trigger] region_ok(self.regions@[k]),
                search(old(self).regions@, size as int, align) == match search(self.regions@.skip(i as int), size as int, align) {
                    Some(j) => Some(j + i),
                    None => None,
                },
            decreases self.regions@.len() - i,
        {
            let (region_start, region_size) = self.regions[i];
            assert(region_ok(self.regions@[i as int]));
            let ghost tail = self.regions@.skip(i as int);
            assert(tail[0] == self.regions@[i as int]);
            assert(tail.drop_first() =~= self.regions@.skip(i + 1));
            if region_start <= usize::MAX - (align - 1) {
                let alloc_start = align_up(region_start, align);
                match alloc_start.checked_add(size) {
                    Some(alloc_end) => {
                        if alloc_end <= region_start + region_size {
                            self.regions.remove(i);
                            return Some((region_start, region_size));
                        }
                    },
                    None => {},
                }
            }
            i = i + 1;
        }
        proof {
            assert(self.regions@.skip(i as int) =~= Seq::<(usize, usize)>::empty());
        }
        None
    }

    /// Hand out a block of at least `size` bytes aligned to the power of two `align`:
    /// first fit, the block cut from the start of the region (rounded up), the gaps left
    /// before and after it kept when they can hold a node. Returns its address, or 0
    /// when no region holds it.
    pub fn allocate(&mut self, size: usize, align: usize) -> (p: usize)
        requires
            old(self).wf(),
            is_power_of_two(align),
        ensures
            final(self).wf(),
            match search(old(self).regions@, block_size(size), align) {
                Some(i) => p == align_up_spec(old(self).regions@[i].0, align)
                    && final(self).regions@ == after_alloc(old(self).regions@, i, p as int, block_size(size)),
                None => p == 0 && final(self).regions@ == old(self).regions@,
            },
    {
        let bs = if size < MIN_ALLOC_SIZE { MIN_ALLOC_SIZE } else { size };
        match self.find_region(bs, align) {
            Some((region_start, region_size)) => {
                let ghost i = search(old(self).regions@, bs as int, align)->0;
                proof {
                    lemma_search_some(old(self).regions@, bs as int, align);
                    assert(region_ok(old(self).regions@[i]));
                    lemma_align_up(region_start, align);
                    lemma_align_up_keeps_8(region_start, align);
                    lemma_remove_apart(old(self).regions@, i);
                    lemma_after_alloc(old(self).regions@, i, align_up_spec(region_start, align) as int, bs as int);
                }
                let alloc_start = align_up(region_start, align);
                let alloc_end = alloc_start + bs;
                let ghost r = old(self).regions@[i];
                let ghost rest = self.regions@;
                if alloc_start - region_start >= MIN_ALLOC_SIZE {
                    proof {
                        lemma_sub_apart(r, (region_start, (alloc_start - region_start) as usize), rest);
                    }
                    self.add_free_region(region_start, alloc_start - region_start);
                }
                let ghost with_head = self.regions@;
                let region_end = region_start + region_size;
                if alloc_end <= usize::MAX - 7 && (alloc_end + 7) / 8 * 8 <= region_end
                    && region_end - (alloc_end + 7) / 8 * 8 >= MIN_ALLOC_SIZE {
                    let tail_start = (alloc_end + 7) / 8 * 8;
                    let tail = (tail_start, region_end - tail_start);
                    proof {
                        lemma_sub_apart(r, tail, rest);
                        assert forall|k: int| 0 <= k < with_head.len() implies apart(tail, #[trigger] with_head[k]) by {
                            if alloc_start - region_start >= MIN_ALLOC_SIZE {
                                if k > 0 { assert(with_head[k] == rest[k - 1]); }
                            }
                        }
                    }
                    self.add_free_region(tail_start, region_end - tail_start);
                } else {
                    assert(round8(alloc_end as int) >= alloc_end) by (nonlinear_arith);
                    assert(region_end - round8(alloc_end as int) < MIN_ALLOC_SIZE);
                }
                assert(self.regions@ =~= after_alloc(old(self).regions@, i, alloc_start as int, bs as int));
                alloc_start
            },
            None => 0,
        }
    }

    /// Whether `dealloc(ptr, size)` may be called: the block is node-aligned, ends in
    /// memory, and overlaps no free region.
    pub fn dealloc_admits(&self, ptr: usize, size: usize) -> (b: bool)
        requires
            self.wf(),
        ensures
            b == (ptr % NODE_ALIGN == 0 && ptr + block_size(size) <= usize::MAX
                && forall|k: int| 0 <= k < self.regions@.len()
                    ==> disjoint((ptr, block_size(size) as usize), #[trigger] self.regions@[k])),
    {
        if ptr % NODE_ALIGN != 0 {
            return false;
        }
        let bs = if size < MIN_ALLOC_SIZE { MIN_ALLOC_SIZE } else { size };
        if ptr > usize::MAX - bs {
            return false;
        }
        let mut i: usize = 0;
        while i < self.regions.len()
            invariant
                i <= self.regions@.len(),
                bs == block_size(size),
                ptr + bs <= usize::MAX,
                forall|k: int| 0 <= k < i ==> disjoint((ptr, bs), #[trigger] self.regions@[k]),
            decreases self.regions@.len() - i,
        {
            let (s, n) = self.regions[i];
            if !(ptr + bs <= s || s as u128 + n as u128 <= ptr as u128) {
                assert(!disjoint((ptr, bs), self.regions@[i as int]));
                assert((ptr, block_size(size) as usize) == (ptr, bs));
                assert(!disjoint((ptr, block_size(size) as usize), self.regions@[i as int]));
                return false;
            }
            i = i + 1;
        }
        true
    }

    /// Give back the block of `size` bytes at `ptr`, which overlaps no free region: it
    /// is merged with a free region ending where it starts and one starting where it
    /// ends, and the merged region goes at the head of the list.
    pub fn dealloc(&mut self, ptr: usize, size: usize)
        requires
            old(self).wf(),
            ptr % NODE_ALIGN == 0,
            ptr + block_size(size) <= usize::MAX,
            forall|k: int| 0 <= k < old(self).regions@.len()
                ==> disjoint((ptr, block_size(size) as usize), #[trigger] old(self).regions@[k]),
        ensures
            final(self).wf(),
            final(self).regions@ == coalesce(old(self).regions@, ptr as int, ptr + block_size(size)),
    {
        let bs = if size < MIN_ALLOC_SIZE { MIN_ALLOC_SIZE } else { size };
        let end = ptr + bs;
        let ghost s = self.regions@;
        proof {
            lemma_coalesce_ok(s, ptr, bs);
        }
        let mut lo = ptr;
        let mut hi = end;
        let mut kept: Vec<(usize, usize)> = Vec::new();
        let mut i: usize = self.regions.len();
        assert(s.skip(i as int) =~= Seq::<(usize, usize)>::empty());
        while i > 0
            invariant
                self.regions@ == s,
                i <= s.len(),
                end == ptr + bs,
                bs >= MIN_ALLOC_SIZE,
                kept@ == others(s.skip(i as int), ptr as int, end as int),
                lo == merged_lo(s.skip(i as int), ptr as int),
                hi == merged_hi(s.skip(i as int), end as int),
                forall|k: int| 0 <= k < s.len() ==> #[trigger] region_ok(s[k]),
            decreases i,
        {
            let r = self.regions[i - 1];
            proof {
                assert(s.skip(i - 1)[0] == s[i - 1]);
                assert(s.skip(i - 1).drop_first() =~= s.skip(i as int));
                assert(region_ok(s[i - 1]));
            }
            if r.0 + r.1 == ptr {
                lo = r.0;
            } else if r.0 == end {
                hi = r.0 + r.1;
            } else {
                kept.insert(0, r);
                assert(kept@ =~= seq![r] + others(s.skip(i as int), ptr as int, end as int));
            }
            i = i - 1;
        }
        assert(s.skip(0) =~= s);
        kept.insert(0, (lo, hi - lo));
        self.regions = kept;
        assert(self.regions@ =~= coalesce(s, ptr as int, end as int));
    }
}

/// Heap statistics: bytes in use (the heap size less the free bytes) and free bytes.
pub fn stats(allocator: &LinkedListAllocator) -> (r: (usize, usize))
    requires
        free_bytes(allocator.regions@) <= HEAP_SIZE,
    ensures
        r.1 == free_bytes(allocator.regions@),
        r.0 == HEAP_SIZE - free_bytes(allocator.regions@),
{
    let mut free: usize = 0;
    let mut i: usize = allocator.regions.len();
    proof {
        lemma_free_bytes_skip(allocator.regions@, i as int);
    }
    while i > 0
        invariant
            i <= allocator.regions@.len(),
            free == free_bytes(allocator.regions@.skip(i as int)),
            free_bytes(allocator.regions@) <= HEAP_SIZE,
            free_bytes(allocator.regions@) == free_bytes(allocator.regions@.take(i as int)) + free,
        decreases i,
    {
        let ghost s = allocator.regions@;
        proof {
            lemma_free_bytes_nonneg(s.take(i - 1));
            assert(s.skip(i - 1).drop_first() =~= s.skip(i as int));
            lemma_free_bytes_split(s.take(i as int), i - 1);
            assert(s.take(i as int).take(i - 1) =~= s.take(i - 1));
            assert(s.take(i as int).skip(i - 1) =~= seq![s[i - 1]]);
            assert(free_bytes(seq![s[i - 1]]) == s[i - 1].1) by {
                reveal_with_fuel(free_bytes, 2);
                assert(seq![s[i - 1]].drop_first() =~= Seq::<(usize, usize)>::empty());
            }
        }
        free = free + allocator.regions[i - 1].1;
        i = i - 1;
    }
    assert(allocator.regions@.take(0) =~= Seq::<(usize, usize)>::empty());
    let used = HEAP_SIZE - free;
    (used, free)
}

/// Free bytes are never negative.
proof fn lemma_free_bytes_nonneg(s: Seq<(usize, usize)>)
    ensures
        free_bytes(s) >= 0,
    decreases s.len(),
{
    if s.len() > 0 {
        lemma_free_bytes_nonneg(s.drop_first());
    }
}

/// The free bytes of a list are those of its first `k` regions and of the rest.
proof fn lemma_free_bytes_split(s: Seq<(usize, usize)>, k: int)
    requires
        0 <= k <= s.len(),
    ensures
        free_bytes(s) == free_bytes(s.take(k)) + free_bytes(s.skip(k)),
    decreases k,
{
    if k == 0 {
        assert(s.take(0) =~= Seq::<(usize, usize)>::empty());
        assert(s.skip(0) =~= s);
    } else {
        lemma_free_bytes_split(s.drop_first(), k - 1);
        assert(s.take(k).drop_first() =~= s.drop_first().take(k - 1));
        assert(s.skip(k) =~= s.drop_first().skip(k - 1));
    }
}

proof fn lemma_free_bytes_skip(s: Seq<(usize, usize)>, n: int)
    requires
        n == s.len(),
    ensures
        free_bytes(s.skip(n)) == 0,
        free_bytes(s) == free_bytes(s.take(n)),
{
    assert(s.skip(n) =~= Seq::<(usize, usize)>::empty());
    assert(s.take(n) =~= s);
}

/// Free bytes of a list with one region taken out.
proof fn lemma_free_bytes_remove(s: Seq<(usize, usize)>, i: int)
    requires
        0 <= i < s.len(),
    ensures
        free_bytes(s.remove(i)) == free_bytes(s) - s[i].1,
    decreases i,
{
    if i == 0 {
        assert(s.remove(0) =~= s.drop_first());
    } else {
        lemma_free_bytes_remove(s.drop_first(), i - 1);
        assert(s.remove(i) =~= seq![s[0]] + s.drop_first().remove(i - 1));
        assert((seq![s[0]] + s.drop_first().remove(i - 1)).drop_first() =~= s.drop_first().remove(i - 1));
    }
}

proof fn lemma_free_bytes_prepend(x: (usize, usize), s: Seq<(usize, usize)>)
    ensures
        free_bytes(seq![x] + s) == x.1 + free_bytes(s),
{
    assert((seq![x] + s).drop_first() =~= s);
}

/// The block that `allocate` hands out lies inside the region it was cut from, starts at
/// a multiple of the alignment and of `NODE_ALIGN`, and the region leaves the free list.
pub proof fn law_allocated_block_in_region(regions: Seq<(usize, usize)>, size: usize, align: usize)
    requires
        forall|i: int| 0 <= i < regions.len() ==> #[trigger] region_ok(regions[i]),
        is_power_of_two(align),
        search(regions, block_size(size), align) is Some,
    ensures
        ({
            let i = search(regions, block_size(size), align)->0;
            let p = align_up_spec(regions[i].0, align);
            &&& 0 <= i < regions.len()
            &&& is_aligned(p, align)
            &&& p % 8 == 0
            &&& regions[i].0 <= p
            &&& p + block_size(size) <= regions[i].0 + regions[i].1
        }),
{
    lemma_search_some(regions, block_size(size), align);
    let i = search(regions, block_size(size), align)->0;
    assert(region_ok(regions[i]));
    lemma_align_up(regions[i].0, align);
    lemma_align_up_keeps_8(regions[i].0, align);
}

/// When `allocate` finds no region, none holds the block: it answers 0 only then.
pub proof fn law_null_only_when_nothing_fits(regions: Seq<(usize, usize)>, size: usize, align: usize)
    requires
        search(regions, block_size(size), align) is None,
    ensures
        forall|k: int| 0 <= k < regions.len() ==> !fits(#[trigger] regions[k], block_size(size), align),
{
    lemma_search_some(regions, block_size(size), align);
}

/// After `allocate`, no two free regions overlap or touch when none did before, and
/// none of them overlaps the block handed out.
pub proof fn law_allocation_keeps_regions_apart(regions: Seq<(usize, usize)>, size: usize, align: usize)
    requires
        list_ok(regions),
        is_power_of_two(align),
        search(regions, block_size(size), align) is Some,
    ensures
        ({
            let i = search(regions, block_size(size), align)->0;
            let p = align_up_spec(regions[i].0, align);
            let after = after_alloc(regions, i, p as int, block_size(size));
            &&& list_ok(after)
            &&& forall|k: int| 0 <= k < after.len() ==> disjoint(#[trigger] after[k], (p, block_size(size) as usize))
        }),
{
    law_allocated_block_in_region(regions, size, align);
    let i = search(regions, block_size(size), align)->0;
    let p = align_up_spec(regions[i].0, align);
    lemma_after_alloc(regions, i, p as int, block_size(size));
}

/// `allocate` takes exactly the block out of the free bytes, with the gap before it
/// when it is too small to keep, and after it either the few bytes up to the next
/// multiple of `NODE_ALIGN` or, when what is left there cannot hold a node, the rest of
/// the region.
pub proof fn law_allocation_accounts_bytes(regions: Seq<(usize, usize)>, size: usize, align: usize)
    requires
        forall|i: int| 0 <= i < regions.len() ==> #[trigger] region_ok(regions[i]),
        is_power_of_two(align),
        search(regions, block_size(size), align) is Some,
    ensures
        ({
            let i = search(regions, block_size(size), align)->0;
            let r = regions[i];
            let p = align_up_spec(r.0, align);
            let end = p + block_size(size);
            let head_gap = p - r.0;
            let tail_gap = r.0 + r.1 - round8(end);
            free_bytes(after_alloc(regions, i, p as int, block_size(size))) == free_bytes(regions) - block_size(size)
                - (if head_gap < MIN_ALLOC_SIZE { head_gap } else { 0 })
                - (if tail_gap < MIN_ALLOC_SIZE { r.0 + r.1 - end } else { round8(end) - end })
        }),
{
    law_allocated_block_in_region(regions, size, align);
    let bs = block_size(size);
    let i = search(regions, bs, align)->0;
    let r = regions[i];
    let p = align_up_spec(r.0, align);
    let rest = regions.remove(i);
    lemma_free_bytes_remove(regions, i);
    let head = (r.0, (p - r.0) as usize);
    let ts = round8(p + bs);
    let tail = (ts as usize, (r.0 + r.1 - ts) as usize);
    lemma_free_bytes_prepend(head, rest);
    let with_head = if p - r.0 >= MIN_ALLOC_SIZE { seq![head] + rest } else { rest };
    lemma_free_bytes_prepend(tail, with_head);
}

/// Merging the block `[lo, hi)` into the list adds exactly its bytes.
proof fn lemma_coalesce_bytes(s: Seq<(usize, usize)>, lo: int, hi: int)
    requires
        list_ok(s),
        lo < hi,
    ensures
        free_bytes(s) + (hi - lo) == free_bytes(others(s, lo, hi)) + merged_hi(s, hi) - merged_lo(s, lo),
    decreases s.len(),
{
    if s.len() > 0 {
        let t = s.drop_first();
        assert forall|i: int, j: int| 0 <= i < t.len() && 0 <= j < t.len() && i != j implies apart(#[trigger] t[i], #[trigger] t[j]) by {
            assert(t[i] == s[i + 1] && t[j] == s[j + 1]);
        }
        assert forall|i: int| 0 <= i < t.len() implies region_ok(#[trigger] t[i]) by {
            assert(t[i] == s[i + 1]);
        }
        lemma_coalesce_bytes(t, lo, hi);
        assert(region_ok(s[0]));
        if s[0].0 + s[0].1 == lo {
            lemma_merged_lo(t, lo);
            if exists|k: int| 0 <= k < t.len() && #[trigger] t[k].0 + t[k].1 == lo && merged_lo(t, lo) == t[k].0 {
                let k = choose|k: int| 0 <= k < t.len() && #[trigger] t[k].0 + t[k].1 == lo && merged_lo(t, lo) == t[k].0;
                assert(t[k] == s[k + 1]);
                assert(apart(s[0], s[k + 1]));
                assert(region_ok(s[k + 1]));
            }
        } else if s[0].0 == hi {
            lemma_merged_hi(t, hi);
            if exists|k: int| 0 <= k < t.len() && #[trigger] t[k].0 == hi && merged_hi(t, hi) == t[k].0 + t[k].1 {
                let k = choose|k: int| 0 <= k < t.len() && #[trigger] t[k].0 == hi && merged_hi(t, hi) == t[k].0 + t[k].1;
                assert(t[k] == s[k + 1]);
                assert(apart(s[0], s[k + 1]));
                assert(region_ok(s[k + 1]));
            }
        } else {
            lemma_free_bytes_prepend(s[0], others(t, lo, hi));
        }
    }
}

/// `dealloc` frees the block: it lies inside the region at the head of the list, the
/// free bytes grow by the block size, and no two regions of the list overlap or touch.
pub proof fn law_dealloc_returns_bytes(regions: Seq<(usize, usize)>, ptr: usize, size: usize)
    requires
        list_ok(regions),
        ptr % NODE_ALIGN == 0,
        ptr + block_size(size) <= usize::MAX,
        forall|k: int| 0 <= k < regions.len() ==> disjoint((ptr, block_size(size) as usize), #[trigger] regions[k]),
    ensures
        free_bytes(coalesce(regions, ptr as int, ptr + block_size(size)))
            == free_bytes(regions) + block_size(size),
        list_ok(coalesce(regions, ptr as int, ptr + block_size(size))),
        coalesce(regions, ptr as int, ptr + block_size(size))[0].0 <= ptr,
        ptr + block_size(size) <= coalesce(regions, ptr as int, ptr + block_size(size))[0].0
            + coalesce(regions, ptr as int, ptr + block_size(size))[0].1,
{
    let bs = block_size(size) as usize;
    lemma_coalesce_ok(regions, ptr, bs);
    lemma_coalesce_bytes(regions, ptr as int, ptr + bs);
    let a = merged_lo(regions, ptr as int);
    let b = merged_hi(regions, ptr + bs);
    lemma_free_bytes_prepend((a as usize, (b - a) as usize), others(regions, ptr as int, ptr + bs));
}

} // verus!
