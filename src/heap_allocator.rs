//! A first-fit heap allocator over one virtual address range.
//!
//! Every live block starts with a header, followed by padding, by one byte
//! that holds the header-to-payload offset, and by the payload. The headers
//! form a doubly linked chain ordered by address; its two ends point at the
//! low sentinel (the heap start) and the high sentinel (the heap end). The
//! headers are held in an arena ordered like the chain.

use crate::paging::VirtualAddr;
use crate::MemoryError;
use vstd::arithmetic::div_mod::{lemma_fundamental_div_mod, lemma_mod_multiples_basic};
use vstd::prelude::*;

verus! {

/// Size of a block header; headers are also aligned to it.
pub const HEAD_SIZE: usize = 32;

/// Largest header-to-payload offset that the marker byte can hold.
pub const MAX_OFFSET: usize = 255;

/// The smallest multiple of `a` at or above `x`.
pub open spec fn align_up(x: int, a: int) -> int {
    x + (a - x % a) % a
}

/// Where the header of a block placed in a gap starting at `gap_start` goes.
pub open spec fn head_pos(gap_start: int) -> int {
    align_up(gap_start, HEAD_SIZE as int)
}

/// Where the payload of that block goes: past the header and the marker byte,
/// aligned to `align`.
pub open spec fn payload_pos(gap_start: int, align: int) -> int {
    align_up(head_pos(gap_start) + HEAD_SIZE + 1, align)
}

/// Whether a block of `size` bytes aligned to `align` fits in the gap
/// `[gap_start, gap_end)`, with an offset the marker byte can hold.
pub open spec fn fits(gap_start: int, gap_end: int, size: int, align: int) -> bool {
    &&& payload_pos(gap_start, align) - head_pos(gap_start) <= MAX_OFFSET
    &&& payload_pos(gap_start, align) + size <= gap_end
}

pub proof fn lemma_align_up(x: int, a: int)
    requires
        0 <= x,
        0 < a,
    ensures
        x <= align_up(x, a) < x + a,
        align_up(x, a) % a == 0,
{
    lemma_fundamental_div_mod(x, a);
    let q = x / a;
    let r = x % a;
    let k = if r == 0 {
        q
    } else {
        q + 1
    };
    if r == 0 {
        lemma_mod_multiples_basic(1, a);
    } else {
        vstd::arithmetic::div_mod::lemma_small_mod((a - r) as nat, a as nat);
    }
    assert(align_up(x, a) == k * a) by (nonlinear_arith)
        requires
            x == a * q + r,
            r == 0 ==> (a - r) % a == 0,
            r != 0 ==> (a - r) % a == a - r,
            k == (if r == 0 {
                q
            } else {
                q + 1
            }),
            align_up(x, a) == x + (a - r) % a,
    ;
    lemma_mod_multiples_basic(k, a);
}

/// The address `elem` rounded up to a multiple of `align`, when that fits in
/// a `usize`.
fn next_align(elem: usize, align: usize) -> (r: Option<usize>)
    requires
        align > 0,
    ensures
        align_up(elem as int, align as int) <= usize::MAX ==> r == Some(
            align_up(elem as int, align as int) as usize,
        ),
        align_up(elem as int, align as int) > usize::MAX ==> r is None,
{
    let pad = elem % align;
    proof {
        lemma_align_up(elem as int, align as int);
        if pad == 0 {
            assert((align - 0) % (align as int) == 0) by {
                lemma_mod_multiples_basic(1, align as int);
            }
        } else {
            vstd::arithmetic::div_mod::lemma_small_mod((align - pad) as nat, align as nat);
        }
    }
    if pad == 0 {
        Some(elem)
    } else {
        elem.checked_add(align - pad)
    }
}

/// A neighbour of a header in the chain.
#[derive(Clone, Copy, Debug, PartialEq, Eq, Structural)]
pub enum Near {
    /// Another header, by its address.
    HeapHead(usize),
    /// The high sentinel: the end of the heap.
    Tail(VirtualAddr),
    /// The low sentinel: the start of the heap.
    Base(VirtualAddr),
}

impl Near {
    pub open spec fn spec_ptr(self) -> usize {
        match self {
            Near::HeapHead(a) => a,
            Near::Tail(v) => v.0,
            Near::Base(v) => v.0,
        }
    }

    /// The address the neighbour stands at.
    fn get_ptr_usize(&self) -> (r: usize)
        ensures
            r == self.spec_ptr(),
    {
        match self {
            Near::HeapHead(a) => *a,
            Near::Tail(v) => v.get(),
            Near::Base(v) => v.get(),
        }
    }
}

/// The header of a live block.
#[derive(Clone, Copy, Debug, PartialEq, Eq, Structural)]
pub struct HeapHead {
    /// Address of the header itself.
    pub addr: usize,
    pub prev: Near,
    pub next: Near,
    /// Address of the payload.
    pub allocated_space: usize,
    /// Size of the payload in bytes.
    pub dim: usize,
}

impl HeapHead {
    pub open spec fn spec_end(self) -> int {
        self.allocated_space + self.dim
    }

    /// First address past the payload.
    fn get_end_of_allocated_space(&self) -> (r: usize)
        requires
            self.spec_end() <= usize::MAX,
        ensures
            r == self.spec_end(),
    {
        self.allocated_space + self.dim
    }

    /// Address of the header.
    fn as_ptr(&self) -> (r: usize)
        ensures
            r == self.addr,
    {
        self.addr
    }
}

/// The abstract state of a heap: its bounds and its headers in address order.
pub struct HeapModel {
    pub start: usize,
    pub end: usize,
    pub heads: Seq<HeapHead>,
}

/// Start of gap `k`: the heap start for the first gap, else the end of the
/// payload of header `k - 1`.
pub open spec fn gap_start(m: HeapModel, k: int) -> int {
    if k == 0 {
        m.start as int
    } else {
        m.heads[k - 1].spec_end()
    }
}

/// End of gap `k`: header `k`, or the heap end past the last header.
pub open spec fn gap_end(m: HeapModel, k: int) -> int {
    if k < m.heads.len() {
        m.heads[k].addr as int
    } else {
        m.end as int
    }
}

/// The neighbour before position `k`.
pub open spec fn prev_of(m: HeapModel, k: int) -> Near {
    if k == 0 {
        Near::Base(VirtualAddr(m.start))
    } else {
        Near::HeapHead(m.heads[k - 1].addr)
    }
}

/// The neighbour after position `k - 1`, that is the header now at `k`.
pub open spec fn next_of(m: HeapModel, k: int) -> Near {
    if k < m.heads.len() {
        Near::HeapHead(m.heads[k].addr)
    } else {
        Near::Tail(VirtualAddr(m.end))
    }
}

/// Header `k` lies aligned in its gap, its links name its neighbours, and its
/// payload ends before the next header.
pub open spec fn head_ok(m: HeapModel, k: int) -> bool {
    let h = m.heads[k];
    &&& h.addr as int % HEAD_SIZE as int == 0
    &&& gap_start(m, k) <= h.addr
    &&& h.addr + HEAD_SIZE + 1 <= h.allocated_space
    &&& h.allocated_space - h.addr <= MAX_OFFSET
    &&& h.spec_end() <= gap_end(m, k + 1)
    &&& h.prev == prev_of(m, k)
    &&& h.next == next_of(m, k + 1)
}

pub open spec fn heap_wf(m: HeapModel) -> bool {
    forall|k: int| 0 <= k < m.heads.len() ==> #[trigger] head_ok(m, k)
}

/// The first gap, from gap `k` on, where the block fits.
pub open spec fn first_fit(m: HeapModel, size: usize, align: usize, k: int) -> Option<int>
    decreases m.heads.len() + 1 - k,
{
    if k < 0 || k > m.heads.len() {
        None
    } else if fits(gap_start(m, k), gap_end(m, k), size as int, align as int) {
        Some(k)
    } else {
        first_fit(m, size, align, k + 1)
    }
}

/// The header of a block of `size` bytes placed in gap `k`.
pub open spec fn new_head(m: HeapModel, k: int, size: usize, align: usize) -> HeapHead {
    HeapHead {
        addr: head_pos(gap_start(m, k)) as usize,
        prev: prev_of(m, k),
        next: next_of(m, k),
        allocated_space: payload_pos(gap_start(m, k), align as int) as usize,
        dim: size,
    }
}

/// The chain with `h` linked in at position `k`.
pub open spec fn insert_at(m: HeapModel, k: int, h: HeapHead) -> HeapModel {
    HeapModel {
        heads: Seq::new(
            (m.heads.len() + 1) as nat,
            |j: int|
                if j < k - 1 {
                    m.heads[j]
                } else if j == k - 1 {
                    HeapHead { next: Near::HeapHead(h.addr), ..m.heads[j] }
                } else if j == k {
                    h
                } else if j == k + 1 {
                    HeapHead { prev: Near::HeapHead(h.addr), ..m.heads[j - 1] }
                } else {
                    m.heads[j - 1]
                },
        ),
        ..m
    }
}

/// The chain with the header at position `k` unlinked.
pub open spec fn remove_at(m: HeapModel, k: int) -> HeapModel {
    let h = m.heads[k];
    HeapModel {
        heads: Seq::new(
            (m.heads.len() - 1) as nat,
            |j: int|
                if j < k - 1 {
                    m.heads[j]
                } else if j == k - 1 {
                    HeapHead { next: h.next, ..m.heads[j] }
                } else if j == k {
                    HeapHead { prev: h.prev, ..m.heads[j + 1] }
                } else {
                    m.heads[j + 1]
                },
        ),
        ..m
    }
}

/// Allocation: the new state and the payload address, 0 when no gap fits.
pub open spec fn alloc_spec(m: HeapModel, size: usize, align: usize) -> (HeapModel, usize) {
    match first_fit(m, size, align, 0) {
        Some(k) => {
            let h = new_head(m, k, size, align);
            (insert_at(m, k, h), h.allocated_space)
        },
        None => (m, 0),
    }
}

/// Position of the header whose payload starts at `ptr`.
pub open spec fn find_block(m: HeapModel, ptr: usize) -> Option<int> {
    if exists|k: int| 0 <= k < m.heads.len() && (#[trigger] m.heads[k]).allocated_space == ptr {
        Some(
            choose|k: int| 0 <= k < m.heads.len() && (#[trigger] m.heads[k]).allocated_space == ptr,
        )
    } else {
        None
    }
}

/// Deallocation: the new state, or `CorruptFree` when `ptr` is no live
/// payload or its recorded size or alignment differ.
pub open spec fn dealloc_spec(m: HeapModel, ptr: usize, size: usize, align: usize) -> Result<
    HeapModel,
    MemoryError,
> {
    match find_block(m, ptr) {
        Some(k) => if m.heads[k].dim == size && ptr as int % align as int == 0 {
            Ok(remove_at(m, k))
        } else {
            Err(MemoryError::CorruptFree)
        },
        None => Err(MemoryError::CorruptFree),
    }
}

proof fn lemma_ordered_from(m: HeapModel, i: int, j: int)
    requires
        heap_wf(m),
        0 <= i < j < m.heads.len(),
    ensures
        m.heads[i].spec_end() <= m.heads[j].addr,
    decreases j - i,
{
    assert(head_ok(m, i));
    if j > i + 1 {
        lemma_ordered_from(m, i + 1, j);
        assert(head_ok(m, i + 1));
    }
}

/// In a well-formed heap the headers come in address order and the live
/// blocks do not overlap: each payload ends before the next header starts.
pub proof fn lemma_heads_ordered(m: HeapModel)
    requires
        heap_wf(m),
    ensures
        forall|i: int, j: int|
            0 <= i < j < m.heads.len() ==> #[trigger] m.heads[i].spec_end()
                <= #[trigger] m.heads[j].addr,
        forall|i: int, j: int|
            0 <= i < j < m.heads.len() ==> #[trigger] m.heads[i].allocated_space
                < #[trigger] m.heads[j].allocated_space,
        forall|i: int|
            0 <= i < m.heads.len() ==> #[trigger] m.heads[i].addr < m.heads[i].allocated_space
                && m.heads[i].allocated_space <= m.heads[i].spec_end(),
{
    assert forall|i: int, j: int| 0 <= i < j < m.heads.len() implies #[trigger] m.heads[i].spec_end()
        <= #[trigger] m.heads[j].addr by {
        lemma_ordered_from(m, i, j);
    }
    assert forall|i: int, j: int| 0 <= i < j < m.heads.len() implies #[trigger] m.heads[i].allocated_space
        < #[trigger] m.heads[j].allocated_space by {
        lemma_ordered_from(m, i, j);
        assert(head_ok(m, j));
    }
    assert forall|i: int| 0 <= i < m.heads.len() implies #[trigger] m.heads[i].addr
        < m.heads[i].allocated_space && m.heads[i].allocated_space <= m.heads[i].spec_end() by {
        assert(head_ok(m, i));
    }
}

/// Where gap `k` fits the block, the new header lies aligned in the gap and
/// its payload is aligned to `align`.
proof fn lemma_new_head(m: HeapModel, k: int, size: usize, align: usize)
    requires
        heap_wf(m),
        0 <= k <= m.heads.len(),
        align > 0,
        fits(gap_start(m, k), gap_end(m, k), size as int, align as int),
    ensures
        gap_start(m, k) <= head_pos(gap_start(m, k)),
        head_pos(gap_start(m, k)) % HEAD_SIZE as int == 0,
        head_pos(gap_start(m, k)) + HEAD_SIZE + 1 <= payload_pos(gap_start(m, k), align as int),
        payload_pos(gap_start(m, k), align as int) % align as int == 0,
        payload_pos(gap_start(m, k), align as int) + size <= gap_end(m, k) <= usize::MAX,
        new_head(m, k, size, align).addr == head_pos(gap_start(m, k)),
        new_head(m, k, size, align).allocated_space == payload_pos(gap_start(m, k), align as int),
{
    if k > 0 {
        assert(head_ok(m, k - 1));
    }
    let gs = gap_start(m, k);
    lemma_align_up(gs, HEAD_SIZE as int);
    lemma_align_up(head_pos(gs) + HEAD_SIZE + 1, align as int);
}

/// Linking in the header of a block that fits gap `k` keeps the heap well formed.
proof fn lemma_insert_wf(m: HeapModel, k: int, size: usize, align: usize)
    requires
        heap_wf(m),
        0 <= k <= m.heads.len(),
        align > 0,
        fits(gap_start(m, k), gap_end(m, k), size as int, align as int),
    ensures
        heap_wf(insert_at(m, k, new_head(m, k, size, align))),
{
    let h = new_head(m, k, size, align);
    let m2 = insert_at(m, k, h);
    lemma_new_head(m, k, size, align);
    assert forall|j: int| 0 <= j < m2.heads.len() implies #[trigger] head_ok(m2, j) by {
        if j < k - 1 {
            assert(head_ok(m, j));
        } else if j == k - 1 {
            assert(head_ok(m, j));
        } else if j == k {
            if k > 0 {
                assert(head_ok(m, k - 1));
            }
        } else if j == k + 1 {
            assert(head_ok(m, k));
        } else {
            assert(head_ok(m, j - 1));
        }
    }
}

/// Unlinking any header keeps the heap well formed.
proof fn lemma_remove_wf(m: HeapModel, k: int)
    requires
        heap_wf(m),
        0 <= k < m.heads.len(),
    ensures
        heap_wf(remove_at(m, k)),
{
    let m2 = remove_at(m, k);
    assert(head_ok(m, k));
    assert forall|j: int| 0 <= j < m2.heads.len() implies #[trigger] head_ok(m2, j) by {
        if j < k - 1 {
            assert(head_ok(m, j));
        } else if j == k - 1 {
            assert(head_ok(m, j));
        } else if j == k {
            assert(head_ok(m, j + 1));
            if k > 0 {
                assert(head_ok(m, k - 1));
            }
        } else {
            assert(head_ok(m, j + 1));
        }
    }
}

proof fn lemma_first_fit_skip(m: HeapModel, size: usize, align: usize, k: int)
    requires
        0 <= k <= m.heads.len() + 1,
        forall|j: int|
            0 <= j < k ==> !fits(
                gap_start(m, j),
                gap_end(m, j),
                size as int,
                align as int,
            ),
    ensures
        first_fit(m, size, align, 0) == first_fit(m, size, align, k),
    decreases k,
{
    if k > 0 {
        lemma_first_fit_skip(m, size, align, k - 1);
    }
}

proof fn lemma_first_fit_range(m: HeapModel, size: usize, align: usize, k: int)
    requires
        0 <= k,
    ensures
        first_fit(m, size, align, k) matches Some(i) ==> k <= i <= m.heads.len() && fits(
            gap_start(m, i),
            gap_end(m, i),
            size as int,
            align as int,
        ),
    decreases m.heads.len() + 1 - k,
{
    if k <= m.heads.len() && !fits(gap_start(m, k), gap_end(m, k), size as int, align as int) {
        lemma_first_fit_range(m, size, align, k + 1);
    }
}

/// Every payload that allocation hands out is aligned as asked, lies in the
/// heap, and allocation keeps the heap well formed, so that live payloads
/// never overlap.
pub proof fn lemma_alloc_aligned(m: HeapModel, size: usize, align: usize)
    requires
        heap_wf(m),
        align > 0,
    ensures
        heap_wf(alloc_spec(m, size, align).0),
        alloc_spec(m, size, align).1 != 0 ==> {
            let p = alloc_spec(m, size, align).1;
            &&& p as int % align as int == 0
            &&& m.start < p
            &&& p + size <= m.end
        },
{
    lemma_first_fit_range(m, size, align, 0);
    if let Some(k) = first_fit(m, size, align, 0) {
        lemma_new_head(m, k, size, align);
        lemma_insert_wf(m, k, size, align);
        lemma_heads_ordered(m);
        if k > 0 {
            // The gap starts past header 0, which lies above the heap start.
            assert(head_ok(m, k - 1));
            assert(head_ok(m, 0));
        }
        if k < m.heads.len() {
            // The gap ends at header `k`, which lies below the heap end.
            let last = m.heads.len() - 1;
            assert(head_ok(m, last));
            assert(head_ok(m, k));
        }
    }
}

/// Freeing a block right after allocating it, with the same size and
/// alignment, gives back the heap as it was, so allocating once more hands
/// out the same payload again.
pub proof fn lemma_alloc_dealloc_round_trip(m: HeapModel, size: usize, align: usize)
    requires
        heap_wf(m),
        align > 0,
        alloc_spec(m, size, align).1 != 0,
    ensures
        dealloc_spec(alloc_spec(m, size, align).0, alloc_spec(m, size, align).1, size, align)
            == Ok::<HeapModel, MemoryError>(m),
        alloc_spec(
            dealloc_spec(alloc_spec(m, size, align).0, alloc_spec(m, size, align).1, size, align)->Ok_0,
            size,
            align,
        ).1 == alloc_spec(m, size, align).1,
{
    lemma_first_fit_range(m, size, align, 0);
    let k = first_fit(m, size, align, 0)->Some_0;
    let h = new_head(m, k, size, align);
    let m2 = insert_at(m, k, h);
    lemma_new_head(m, k, size, align);
    lemma_insert_wf(m, k, size, align);
    lemma_heads_ordered(m2);
    assert(m2.heads[k] == h);
    assert(find_block(m2, h.allocated_space) == Some(k));
    if k > 0 {
        assert(head_ok(m, k - 1));
    }
    if k < m.heads.len() {
        assert(head_ok(m, k));
    }
    assert(remove_at(m2, k).heads =~= m.heads);
    assert(remove_at(m2, k) == m);
}

/// Places a block of `size` bytes aligned to `align` in the gap
/// `[gap_start, gap_end)`: the header and payload addresses, or `None` when
/// it does not fit.
fn try_fit(gap_start: usize, gap_end: usize, size: usize, align: usize) -> (r: Option<
    (usize, usize),
>)
    requires
        align > 0,
    ensures
        r is Some <==> fits(gap_start as int, gap_end as int, size as int, align as int),
        r matches Some((h, p)) ==> h == head_pos(gap_start as int) && p == payload_pos(
            gap_start as int,
            align as int,
        ),
{
    proof {
        lemma_align_up(gap_start as int, HEAD_SIZE as int);
        lemma_align_up(head_pos(gap_start as int) + HEAD_SIZE + 1, align as int);
    }
    let new_heap_head_pos = match next_align(gap_start, HEAD_SIZE) {
        Some(h) => h,
        None => return None,
    };
    let past_header = match new_heap_head_pos.checked_add(HEAD_SIZE + 1) {
        Some(a) => a,
        None => return None,
    };
    let new_allocated_space = match next_align(past_header, align) {
        Some(p) => p,
        None => return None,
    };
    if new_allocated_space - new_heap_head_pos > MAX_OFFSET {
        return None;
    }
    if gap_end < new_allocated_space || gap_end - new_allocated_space < size {
        return None;
    }
    Some((new_heap_head_pos, new_allocated_space))
}

/// A first-fit allocator over the virtual range `[start_heap, end_heap)`.
pub struct HeapAllocator {
    start_heap: VirtualAddr,
    end_heap: VirtualAddr,
    heads: Vec<HeapHead>,
}

impl View for HeapAllocator {
    type V = HeapModel;

    closed spec fn view(&self) -> HeapModel {
        HeapModel { start: self.start_heap.0, end: self.end_heap.0, heads: self.heads@ }
    }
}

impl HeapAllocator {
    pub open spec fn wf(&self) -> bool {
        heap_wf(self@)
    }

    /// An empty heap over `[start_heap, end_heap)`.
    pub fn new(start_heap: usize, end_heap: usize) -> (r: HeapAllocator)
        ensures
            r.wf(),
            r@.start == start_heap,
            r@.end == end_heap,
            r@.heads.len() == 0,
    {
        HeapAllocator {
            start_heap: VirtualAddr::new(start_heap),
            end_heap: VirtualAddr::new(end_heap),
            heads: Vec::new(),
        }
    }

    /// Bounds of gap `k`.
    fn gap(&self, k: usize) -> (r: (usize, usize))
        requires
            self.wf(),
            k <= self@.heads.len(),
        ensures
            r.0 == gap_start(self@, k as int),
            r.1 == gap_end(self@, k as int),
    {
        if k == 0 {
            let end = if self.heads.len() > 0 {
                self.heads[0].as_ptr()
            } else {
                self.end_heap.get()
            };
            (self.start_heap.get(), end)
        } else {
            let h = &self.heads[k - 1];
            proof {
                assert(head_ok(self@, k - 1));
            }
            (h.get_end_of_allocated_space(), h.next.get_ptr_usize())
        }
    }

    /// Tries to place a block of `size` bytes aligned to `align` in gap `k`,
    /// linking its header between its two neighbours.
    fn try_insert(&mut self, k: usize, size: usize, align: usize) -> (r: Option<usize>)
        requires
            old(self).wf(),
            k <= old(self)@.heads.len(),
            align > 0,
        ensures
            final(self).wf(),
            if fits(
                gap_start(old(self)@, k as int),
                gap_end(old(self)@, k as int),
                size as int,
                align as int,
            ) {
                &&& final(self)@ == insert_at(
                    old(self)@,
                    k as int,
                    new_head(old(self)@, k as int, size, align),
                )
                &&& r == Some(new_head(old(self)@, k as int, size, align).allocated_space)
            } else {
                final(self)@ == old(self)@ && r is None
            },
    {
        let ghost m = self@;
        let (start_available_space, end_available_space) = self.gap(k);
        match try_fit(start_available_space, end_available_space, size, align) {
            None => None,
            Some((new_heap_head_pos, new_allocated_space)) => {
                proof {
                    lemma_new_head(m, k as int, size, align);
                    lemma_insert_wf(m, k as int, size, align);
                }
                let prev = if k == 0 {
                    Near::Base(self.start_heap)
                } else {
                    Near::HeapHead(self.heads[k - 1].as_ptr())
                };
                let next = if k < self.heads.len() {
                    Near::HeapHead(self.heads[k].as_ptr())
                } else {
                    Near::Tail(self.end_heap)
                };
                let new_head_value = HeapHead {
                    addr: new_heap_head_pos,
                    prev,
                    next,
                    allocated_space: new_allocated_space,
                    dim: size,
                };
                if k > 0 {
                    let mut before = self.heads[k - 1];
                    before.next = Near::HeapHead(new_heap_head_pos);
                    self.heads.set(k - 1, before);
                }
                if k < self.heads.len() {
                    let mut after = self.heads[k];
                    after.prev = Near::HeapHead(new_heap_head_pos);
                    self.heads.set(k, after);
                }
                self.heads.insert(k, new_head_value);
                proof {
                    let h = new_head(m, k as int, size, align);
                    assert(new_head_value == h);
                    assert(self@.heads =~= insert_at(m, k as int, h).heads);
                }
                Some(new_allocated_space)
            },
        }
    }

    /// Allocates `size` bytes aligned to `align` in the first gap that fits.
    /// Fails with `OutOfMemory` when the heap holds no block and is too small,
    /// and with `AllocImpossible` when no gap between live blocks fits.
    pub fn try_allocate(&mut self, size: usize, align: usize) -> (r: Result<usize, MemoryError>)
        requires
            old(self).wf(),
            align > 0,
        ensures
            final(self).wf(),
            final(self)@ == alloc_spec(old(self)@, size, align).0,
            alloc_spec(old(self)@, size, align).1 != 0 ==> r == Ok::<usize, MemoryError>(
                alloc_spec(old(self)@, size, align).1,
            ),
            alloc_spec(old(self)@, size, align).1 == 0 ==> r == Err::<usize, MemoryError>(
                if old(self)@.heads.len() == 0 {
                    MemoryError::OutOfMemory
                } else {
                    MemoryError::AllocImpossible
                },
            ),
    {
        let ghost m = self@;
        proof {
            lemma_alloc_aligned(m, size, align);
        }
        let n = self.heads.len();
        let mut k: usize = 0;
        while k < n
            invariant
                self.wf(),
                self@ == m,
                old(self)@ == m,
                n == m.heads.len(),
                k <= n,
                align > 0,
                forall|j: int|
                    0 <= j < k ==> !fits(
                        gap_start(m, j),
                        gap_end(m, j),
                        size as int,
                        align as int,
                    ),
            decreases n - k,
        {
            if let Some(p) = self.try_insert(k, size, align) {
                proof {
                    lemma_first_fit_skip(m, size, align, k as int);
                    lemma_new_head(m, k as int, size, align);
                    assert(first_fit(m, size, align, k as int) == Some(k as int));
                }
                return Ok(p);
            }
            k = k + 1;
        }
        proof {
            lemma_first_fit_skip(m, size, align, n as int);
        }
        match self.try_insert(n, size, align) {
            Some(p) => {
                proof {
                    lemma_new_head(m, n as int, size, align);
                }
                Ok(p)
            },
            None => {
                proof {
                    lemma_first_fit_skip(m, size, align, n + 1);
                }
                if n == 0 {
                    Err(MemoryError::OutOfMemory)
                } else {
                    Err(MemoryError::AllocImpossible)
                }
            },
        }
    }

    /// Allocates `size` bytes aligned to `align`; 0 stands for failure.
    pub fn allocate(&mut self, size: usize, align: usize) -> (r: usize)
        requires
            old(self).wf(),
            align > 0,
        ensures
            final(self).wf(),
            (final(self)@, r) == alloc_spec(old(self)@, size, align),
    {
        match self.try_allocate(size, align) {
            Ok(p) => p,
            Err(_) => 0,
        }
    }

    /// Frees the block whose payload starts at `ptr`. Fails with
    /// `CorruptFree`, changing nothing, when no live payload starts there or
    /// its size or alignment differ from `size` and `align`.
    pub fn deallocate(&mut self, ptr: usize, size: usize, align: usize) -> (r: Result<(), MemoryError>)
        requires
            old(self).wf(),
            align > 0,
        ensures
            final(self).wf(),
            match dealloc_spec(old(self)@, ptr, size, align) {
                Ok(m) => r is Ok && final(self)@ == m,
                Err(e) => r == Err::<(), MemoryError>(e) && final(self)@ == old(self)@,
            },
    {
        let ghost m = self@;
        proof {
            lemma_heads_ordered(m);
        }
        let n = self.heads.len();
        let mut k: usize = 0;
        while k < n && self.heads[k].allocated_space != ptr
            invariant
                self@ == m,
                n == m.heads.len(),
                k <= n,
                forall|j: int| 0 <= j < k ==> (#[trigger] m.heads[j]).allocated_space != ptr,
            decreases n - k,
        {
            k = k + 1;
        }
        if k == n {
            return Err(MemoryError::CorruptFree);
        }
        assert(find_block(m, ptr) == Some(k as int));
        let heap_head = self.heads[k];
        if heap_head.dim != size || ptr % align != 0 {
            return Err(MemoryError::CorruptFree);
        }
        if k > 0 {
            let mut before = self.heads[k - 1];
            before.next = heap_head.next;
            self.heads.set(k - 1, before);
        }
        if k + 1 < n {
            let mut after = self.heads[k + 1];
            after.prev = heap_head.prev;
            self.heads.set(k + 1, after);
        }
        self.heads.remove(k);
        proof {
            lemma_remove_wf(m, k as int);
            assert(self@.heads =~= remove_at(m, k as int).heads);
        }
        Ok(())
    }

    /// Address of the first header of the chain, if any.
    pub fn head_of_heap_heads(&self) -> (r: Option<usize>)
        ensures
            self@.heads.len() == 0 ==> r is None,
            self@.heads.len() > 0 ==> r == Some(self@.heads[0].addr),
    {
        if self.heads.len() == 0 {
            None
        } else {
            Some(self.heads[0].as_ptr())
        }
    }

    /// Number of live blocks.
    pub fn len(&self) -> (r: usize)
        ensures
            r == self@.heads.len(),
    {
        self.heads.len()
    }

    /// The header of the `index`-th live block in address order.
    pub fn head(&self, index: usize) -> (r: HeapHead)
        requires
            index < self@.heads.len(),
        ensures
            r == self@.heads[index as int],
    {
        self.heads[index]
    }
}

} // verus!
