//! Physical frame allocation: a bump cursor over the usable frames, and a LIFO
//! stack of frames handed back.

use crate::paging::PhysicalAddr;
use crate::FRAME_SIZE;
use vstd::prelude::*;

verus! {

/// Frame numbers stay below this bound, so that every frame address fits in
/// 32 bits.
pub const FRAME_LIMIT: usize = 0x10_0000;

/// Bytes taken by one entry of the reclaimed-frame stack (a 32-bit word).
pub const STACK_ENTRY_SIZE: usize = 4;

/// Physical memory below this address is not described by the upper-memory
/// figure of the boot information.
pub const LOW_MEMORY: usize = 0x10_0000;

/// One physical 4096-byte unit of memory, identified by its number.
#[derive(Clone, Copy, Debug, PartialEq, Eq, Structural)]
pub struct Frame {
    pub number: usize,
}

impl Frame {
    /// The first frame that starts at or after `addr`.
    pub fn from_physical_address(addr: PhysicalAddr) -> (r: Self)
        ensures
            r.number == (addr.0 + 4095) / 4096,
    {
        let a = addr.get();
        let number = a / FRAME_SIZE + if a % FRAME_SIZE != 0 {
            1
        } else {
            0
        };
        Frame { number }
    }

    pub fn from_frame_number(frame_number: usize) -> (r: Self)
        ensures
            r.number == frame_number,
    {
        Frame { number: frame_number }
    }

    fn next(&self) -> (r: Self)
        requires
            self.number < usize::MAX,
        ensures
            r.number == self.number + 1,
    {
        Frame { number: self.number + 1 }
    }

    pub fn get_physical_addr(&self) -> (r: PhysicalAddr)
        requires
            self.number * 4096 <= usize::MAX,
        ensures
            r.0 == self.number * 4096,
    {
        PhysicalAddr::new(FRAME_SIZE * self.number)
    }
}

/// A source of physical frames.
pub trait Allocator {
    /// The allocator's own well-formedness.
    spec fn inv(&self) -> bool;

    /// Whether `frame` may be handed back now.
    spec fn accepts(&self, frame: Frame) -> bool;

    fn allocate(&mut self) -> (r: Option<Frame>)
        requires
            old(self).inv(),
        ensures
            final(self).inv(),
    ;

    fn deallocate(&mut self, to_deallocate: Frame)
        requires
            old(self).inv(),
            old(self).accepts(to_deallocate),
        ensures
            final(self).inv(),
    ;
}

/// The abstract state of a frame allocator.
pub struct FrameAllocatorModel {
    /// Number of frames of physical memory; frames at or above it do not exist.
    pub max_frame: usize,
    /// The frame where bump allocation started.
    pub first: usize,
    /// The bump cursor: the next frame never handed out.
    pub current: usize,
    /// Reclaimed frames, the most recent last.
    pub stack: Seq<usize>,
}

/// One allocation: the cursor frame while the cursor is below `max_frame`,
/// else the most recently reclaimed frame, else nothing.
pub open spec fn allocate_step(s: FrameAllocatorModel) -> (FrameAllocatorModel, Option<usize>) {
    if s.current < s.max_frame {
        (FrameAllocatorModel { current: (s.current + 1) as usize, ..s }, Some(s.current))
    } else if s.stack.len() > 0 {
        (FrameAllocatorModel { stack: s.stack.drop_last(), ..s }, Some(s.stack.last()))
    } else {
        (s, None)
    }
}

/// One deallocation: the frame goes on top of the stack.
pub open spec fn deallocate_step(s: FrameAllocatorModel, number: usize) -> FrameAllocatorModel {
    FrameAllocatorModel { stack: s.stack.push(number), ..s }
}

/// The results of `n` allocations in a row.
pub open spec fn allocate_n(s: FrameAllocatorModel, n: nat) -> Seq<Option<usize>>
    decreases n,
{
    if n == 0 {
        Seq::empty()
    } else {
        let (next, r) = allocate_step(s);
        seq![r] + allocate_n(next, (n - 1) as nat)
    }
}

/// The state after `n` allocations in a row.
pub open spec fn allocate_steps(s: FrameAllocatorModel, n: nat) -> FrameAllocatorModel
    decreases n,
{
    if n == 0 {
        s
    } else {
        allocate_step(allocate_steps(s, (n - 1) as nat)).0
    }
}

/// What the allocation after `n` others returns.
pub open spec fn nth_frame(s: FrameAllocatorModel, n: nat) -> Option<usize> {
    allocate_step(allocate_steps(s, n)).1
}

/// An allocation succeeds exactly while frames are available, and takes one.
pub proof fn lemma_allocate_available(s: FrameAllocatorModel)
    ensures
        allocate_step(s).1 is Some <==> available(s) > 0,
        available(s) > 0 ==> available(allocate_step(s).0) == available(s) - 1,
        available(s) == 0 ==> allocate_step(s).0 == s,
{
}

proof fn lemma_bump_from(s: FrameAllocatorModel, n: nat)
    requires
        s.current + n <= s.max_frame,
    ensures
        allocate_n(s, n).len() == n,
        forall|k: int| 0 <= k < n ==> #[trigger] allocate_n(s, n)[k] == Some((s.current + k) as usize),
    decreases n,
{
    if n > 0 {
        let next = allocate_step(s).0;
        lemma_bump_from(next, (n - 1) as nat);
        assert forall|k: int| 0 <= k < n implies #[trigger] allocate_n(s, n)[k] == Some(
            (s.current + k) as usize,
        ) by {
            if k > 0 {
                assert(allocate_n(s, n)[k] == allocate_n(next, (n - 1) as nat)[k - 1]);
            }
        }
    }
}

/// While the bump cursor lasts, allocations from a fresh allocator hand out
/// the frames from the first available one on, one by one: strictly
/// increasing, hence distinct.
pub proof fn lemma_fresh_allocations_increase(s: FrameAllocatorModel, n: nat)
    requires
        s.current == s.first,
        s.first + n <= s.max_frame,
    ensures
        allocate_n(s, n).len() == n,
        forall|k: int| 0 <= k < n ==> #[trigger] allocate_n(s, n)[k] == Some((s.first + k) as usize),
        forall|i: int, j: int|
            0 <= i < j < n ==> (#[trigger] allocate_n(s, n)[i])->Some_0 < (#[trigger] allocate_n(
                s,
                n,
            )[j])->Some_0,
{
    lemma_bump_from(s, n);
}

/// Once the bump cursor is used up, reclaimed frames come back last in first
/// out: after handing back `a` then `b`, two allocations return `b` then `a`
/// and leave the allocator as it was.
pub proof fn lemma_reclaimed_lifo(s: FrameAllocatorModel, a: usize, b: usize)
    requires
        s.current >= s.max_frame,
    ensures
        ({
            let held = deallocate_step(deallocate_step(s, a), b);
            let (after_one, first) = allocate_step(held);
            let (after_two, second) = allocate_step(after_one);
            &&& first == Some(b)
            &&& second == Some(a)
            &&& after_two == s
        }),
{
    let held = deallocate_step(deallocate_step(s, a), b);
    assert(held.stack.drop_last() =~= s.stack.push(a));
    assert(s.stack.push(a).drop_last() =~= s.stack);
}

/// How many frames can still be allocated.
pub open spec fn available(s: FrameAllocatorModel) -> nat {
    (if s.current < s.max_frame {
        (s.max_frame - s.current) as nat
    } else {
        0nat
    }) + s.stack.len()
}

/// Number of frames of a machine with `mem_upper_kib` KiB of upper memory.
pub open spec fn max_frame_for(mem_upper_kib: usize) -> int {
    (LOW_MEMORY + mem_upper_kib * 0x400) / 4096
}

/// End of the reclaimed-frame stack reserved from `starting_point`.
pub open spec fn stack_top_for(starting_point: usize, mem_upper_kib: usize) -> int {
    starting_point + max_frame_for(mem_upper_kib) * STACK_ENTRY_SIZE
}

/// The first frame past the reserved stack.
pub open spec fn first_frame_for(starting_point: usize, mem_upper_kib: usize) -> int {
    (stack_top_for(starting_point, mem_upper_kib) + 4095) / 4096
}

/// LIFO store of reclaimed frame numbers, with room for a fixed number of them.
#[derive(Debug)]
struct Stack {
    entries: Vec<usize>,
}

impl View for Stack {
    type V = Seq<usize>;

    closed spec fn view(&self) -> Seq<usize> {
        self.entries@
    }
}

impl Stack {
    fn new(capacity: usize) -> (r: Self)
        ensures
            r@ == Seq::<usize>::empty(),
    {
        Stack { entries: Vec::with_capacity(capacity) }
    }

    fn pop(&mut self) -> (r: Option<usize>)
        ensures
            old(self)@.len() == 0 ==> r is None && final(self)@ == old(self)@,
            old(self)@.len() > 0 ==> r == Some(old(self)@.last()) && final(self)@
                == old(self)@.drop_last(),
    {
        self.entries.pop()
    }

    fn push(&mut self, val: usize)
        requires
            old(self)@.len() < usize::MAX,
        ensures
            final(self)@ == old(self)@.push(val),
    {
        self.entries.push(val);
    }
}

/// Bookkeeping of physical frames: a bump cursor up to `max_frame`, then the
/// frames handed back, last in first out.
#[derive(Debug)]
pub struct FrameAllocator {
    max_frame: usize,
    first_available_frame: Frame,
    current_frame: Frame,
    stack: Stack,
}

impl View for FrameAllocator {
    type V = FrameAllocatorModel;

    closed spec fn view(&self) -> FrameAllocatorModel {
        FrameAllocatorModel {
            max_frame: self.max_frame,
            first: self.first_available_frame.number,
            current: self.current_frame.number,
            stack: self.stack@,
        }
    }
}

/// Well-formedness of a frame allocator's state: every frame it can hand out
/// exists and has a 32-bit address, and the stack fits its reserved room.
pub open spec fn model_inv(s: FrameAllocatorModel) -> bool {
    &&& s.max_frame <= FRAME_LIMIT
    &&& s.stack.len() <= s.max_frame
    &&& forall|i: int| 0 <= i < s.stack.len() ==> #[trigger] s.stack[i] < s.max_frame
}

impl FrameAllocator {
    /// Sets up the frame allocator of a machine with `mem_upper_kib` KiB of
    /// upper memory. The reclaimed-frame stack is reserved from
    /// `starting_point`, one 32-bit entry per frame, and bump allocation starts
    /// at the first frame past it.
    pub fn new(starting_point: usize, mem_upper_kib: usize) -> (r: FrameAllocator)
        requires
            LOW_MEMORY + mem_upper_kib * 0x400 <= 0x1_0000_0000,
            starting_point <= 0xFFFF_FFFF,
        ensures
            r.inv(),
            r@.max_frame == max_frame_for(mem_upper_kib),
            r@.first == first_frame_for(starting_point, mem_upper_kib),
            r@.current == r@.first,
            r@.stack.len() == 0,
    {
        let kib = mem_upper_kib as u64;
        let total_memory: u64 = LOW_MEMORY as u64 + kib * 0x400;
        let max_frame: u64 = total_memory / FRAME_SIZE as u64;
        assert(max_frame <= 0x10_0000) by (nonlinear_arith)
            requires
                total_memory <= 0x1_0000_0000,
                max_frame == total_memory / 4096,
        ;
        let entry_size: u64 = STACK_ENTRY_SIZE as u64;
        let stack_top: u64 = starting_point as u64 + max_frame * entry_size;
        let first: u64 = stack_top / FRAME_SIZE as u64 + if stack_top % FRAME_SIZE as u64 != 0 {
            1
        } else {
            0
        };
        let max_frame = max_frame as usize;
        let current_frame = Frame::from_frame_number(first as usize);
        FrameAllocator {
            max_frame,
            first_available_frame: current_frame,
            current_frame,
            stack: Stack::new(max_frame),
        }
    }

    /// Number of frames of physical memory.
    pub fn max_frame(&self) -> (r: usize)
        ensures
            r == self@.max_frame,
    {
        self.max_frame
    }

    /// The frame where bump allocation started.
    pub fn first_available_frame(&self) -> (r: Frame)
        ensures
            r.number == self@.first,
    {
        self.first_available_frame
    }

    /// How many frames can still be allocated.
    pub fn available(&self) -> (r: usize)
        requires
            self.inv(),
        ensures
            r == available(self@),
    {
        let bump = if self.current_frame.number < self.max_frame {
            self.max_frame - self.current_frame.number
        } else {
            0
        };
        bump + self.stack.entries.len()
    }
}

impl Allocator for FrameAllocator {
    open spec fn inv(&self) -> bool {
        model_inv(self@)
    }

    open spec fn accepts(&self, frame: Frame) -> bool {
        &&& frame.number < self@.max_frame
        &&& self@.stack.len() < self@.max_frame
    }

    fn allocate(&mut self) -> (r: Option<Frame>)
        ensures
            final(self)@ == allocate_step(old(self)@).0,
            r == match allocate_step(old(self)@).1 {
                Some(n) => Some(Frame { number: n }),
                None => None::<Frame>,
            },
            r matches Some(f) ==> f.number < FRAME_LIMIT,
    {
        if self.current_frame.number < self.max_frame {
            let new_frame = self.current_frame;
            self.current_frame = self.current_frame.next();
            Some(new_frame)
        } else {
            match self.stack.pop() {
                Some(n) => Some(Frame::from_frame_number(n)),
                None => None,
            }
        }
    }

    fn deallocate(&mut self, to_deallocate: Frame)
        ensures
            final(self)@ == deallocate_step(old(self)@, to_deallocate.number),
    {
        self.stack.push(to_deallocate.number);
        assert(self@.stack =~= old(self)@.stack.push(to_deallocate.number));
    }
}

} // verus!
