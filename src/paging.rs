//! Addresses, page-directory and page-table entries, and the tables that hold them.

use crate::frame_allocator::{
    allocate_step, available, Allocator, Frame, FrameAllocator, FRAME_LIMIT,
};
use crate::MemoryError;
use crate::ENTRIES_PER_PAGE;
use vstd::prelude::*;

verus! {

/// A physical address.
#[derive(Clone, Copy, Debug, PartialEq, Eq, Structural)]
pub struct PhysicalAddr(pub usize);

impl PhysicalAddr {
    pub fn new(addr: usize) -> (r: Self)
        ensures
            r.0 == addr,
    {
        PhysicalAddr(addr)
    }

    pub fn get(&self) -> (r: usize)
        ensures
            r == self.0,
    {
        self.0
    }
}

/// Directory index of a virtual address: bits 22 to 31.
pub open spec fn pd_index_of(addr: usize) -> int {
    (addr as int / 0x40_0000) % 1024
}

/// Table index of a virtual address: bits 12 to 21.
pub open spec fn pt_index_of(addr: usize) -> int {
    (addr as int / 0x1000) % 1024
}

/// Offset of a virtual address within its page: bits 0 to 11.
pub open spec fn offset_of(addr: usize) -> int {
    addr as int % 0x1000
}

/// A virtual address, split as 10 bits of directory index, 10 bits of table
/// index and 12 bits of offset.
#[derive(Clone, Copy, Debug, PartialEq, Eq, Structural)]
pub struct VirtualAddr(pub usize);

impl VirtualAddr {
    pub fn new(addr: usize) -> (r: Self)
        ensures
            r.0 == addr,
    {
        VirtualAddr(addr)
    }

    pub fn get_offset(&self) -> (r: usize)
        ensures
            r == offset_of(self.0),
    {
        let a = self.0;
        assert(a & 0xFFF == a % 0x1000) by (bit_vector);
        a & 0xFFF
    }

    pub fn get_pt_index(&self) -> (r: usize)
        ensures
            r == pt_index_of(self.0),
            r < ENTRIES_PER_PAGE,
    {
        let a = self.0;
        assert((a >> 12) & 0x3FF == (a / 0x1000) % 1024) by (bit_vector);
        (a >> 12) & 0x3FF
    }

    pub fn get_pd_index(&self) -> (r: usize)
        ensures
            r == pd_index_of(self.0),
            r < ENTRIES_PER_PAGE,
    {
        let a = self.0;
        assert((a >> 22) & 0x3FF == (a / 0x40_0000) % 1024) by (bit_vector);
        (a >> 22) & 0x3FF
    }

    pub fn get(&self) -> (r: usize)
        ensures
            r == self.0,
    {
        self.0
    }
}


/// Frame-address bits of an entry: bits 12 to 31.
pub open spec fn frame_bits(v: u32) -> u32 {
    v & 0xFFFF_F000
}

/// Flag bits of an entry: bits 0 to 11.
pub open spec fn flag_bits(v: u32) -> u32 {
    v & 0xFFF
}

/// Whether every bit of `attribute` is set in `v`.
pub open spec fn has_flags(v: u32, attribute: u32) -> bool {
    v & attribute == attribute
}

/// The entry value with its frame bits replaced by the address of frame `number`.
pub open spec fn with_frame(v: u32, number: usize) -> u32 {
    flag_bits(v) | (number * 4096) as u32
}

/// Replacing the frame bits of an entry by a frame's address keeps its flags
/// and stores that address.
pub proof fn lemma_with_frame(v: u32, n: u32)
    requires
        n < 0x10_0000,
    ensures
        (n << 12u32) == n * 4096,
        frame_bits((v & 0xFFF) | (n << 12u32)) == n * 4096,
        flag_bits((v & 0xFFF) | (n << 12u32)) == flag_bits(v),
        with_frame(v, n as usize) == (v & 0xFFF) | (n << 12u32),
        frame_bits(with_frame(v, n as usize)) == n * 4096,
        flag_bits(with_frame(v, n as usize)) == flag_bits(v),
{
    assert((n << 12u32) == n * 4096 && ((v & 0xFFF) | (n << 12u32)) & 0xFFFF_F000 == n * 4096 && (
    (v & 0xFFF) | (n << 12u32)) & 0xFFF == v & 0xFFF) by (bit_vector)
        requires
            n < 0x10_0000,
    ;
}

/// Setting flag bits leaves the frame bits alone and sets those flags.
pub proof fn lemma_add_flags(v: u32, f: u32)
    requires
        f <= 0xFFF,
    ensures
        frame_bits(v | f) == frame_bits(v),
        has_flags(v | f, f),
        forall|g: u32| has_flags(v, g) ==> #[trigger] has_flags(v | f, g),
{
    assert((v | f) & 0xFFFF_F000 == v & 0xFFFF_F000 && (v | f) & f == f) by (bit_vector)
        requires
            f <= 0xFFF,
    ;
    assert forall|g: u32| has_flags(v, g) implies #[trigger] has_flags(v | f, g) by {
        assert(v & g == g ==> (v | f) & g == g) by (bit_vector);
    }
}

/// A zero entry has no flag set.
pub proof fn lemma_zero_entry(attribute: u32)
    requires
        attribute != 0,
    ensures
        !has_flags(0, attribute),
        frame_bits(0) == 0,
{
    assert(attribute != 0 ==> 0u32 & attribute != attribute && 0u32 & 0xFFFF_F000u32 == 0u32)
        by (bit_vector);
}

/// Setting flags on a zero entry gives just those flags.
pub proof fn lemma_or_zero(f: u32)
    ensures
        0u32 | f == f,
{
    assert(0u32 | f == f) by (bit_vector);
}

/// Flags of page-directory entries.
#[derive(Clone, Copy, Debug, PartialEq, Eq, Structural)]
pub enum PageDirectoryFlag {
    Present,
    Writable,
    User,
    Writethrough,
    NotCacheable,
    Accessed,
    Dirty,
    BigPage,
    CpuGlobal,
    Lv4Global,
    Frame,
}

impl PageDirectoryFlag {
    pub open spec fn spec_bits(self) -> u32 {
        match self {
            PageDirectoryFlag::Present => 0x1,
            PageDirectoryFlag::Writable => 0x2,
            PageDirectoryFlag::User => 0x4,
            PageDirectoryFlag::Writethrough => 0x8,
            PageDirectoryFlag::NotCacheable => 0x10,
            PageDirectoryFlag::Accessed => 0x20,
            PageDirectoryFlag::Dirty => 0x40,
            PageDirectoryFlag::BigPage => 0x80,
            PageDirectoryFlag::CpuGlobal => 0x100,
            PageDirectoryFlag::Lv4Global => 0x200,
            PageDirectoryFlag::Frame => 0xFFFF_F000,
        }
    }

    /// The bit mask of the flag within an entry.
    pub fn bits(self) -> (r: u32)
        ensures
            r == self.spec_bits(),
    {
        match self {
            PageDirectoryFlag::Present => 0x1,
            PageDirectoryFlag::Writable => 0x2,
            PageDirectoryFlag::User => 0x4,
            PageDirectoryFlag::Writethrough => 0x8,
            PageDirectoryFlag::NotCacheable => 0x10,
            PageDirectoryFlag::Accessed => 0x20,
            PageDirectoryFlag::Dirty => 0x40,
            PageDirectoryFlag::BigPage => 0x80,
            PageDirectoryFlag::CpuGlobal => 0x100,
            PageDirectoryFlag::Lv4Global => 0x200,
            PageDirectoryFlag::Frame => 0xFFFF_F000,
        }
    }
}

/// Flags of page-table entries.
#[derive(Clone, Copy, Debug, PartialEq, Eq, Structural)]
pub enum PageTableFlag {
    Present,
    Writable,
    User,
    Writethrough,
    NotCacheable,
    Accessed,
    Dirty,
    Pat,
    CpuGlobal,
    Lv4Global,
    Frame,
}

impl PageTableFlag {
    pub open spec fn spec_bits(self) -> u32 {
        match self {
            PageTableFlag::Present => 0x1,
            PageTableFlag::Writable => 0x2,
            PageTableFlag::User => 0x4,
            PageTableFlag::Writethrough => 0x8,
            PageTableFlag::NotCacheable => 0x10,
            PageTableFlag::Accessed => 0x20,
            PageTableFlag::Dirty => 0x40,
            PageTableFlag::Pat => 0x80,
            PageTableFlag::CpuGlobal => 0x100,
            PageTableFlag::Lv4Global => 0x200,
            PageTableFlag::Frame => 0xFFFF_F000,
        }
    }

    /// The bit mask of the flag within an entry.
    pub fn bits(self) -> (r: u32)
        ensures
            r == self.spec_bits(),
    {
        match self {
            PageTableFlag::Present => 0x1,
            PageTableFlag::Writable => 0x2,
            PageTableFlag::User => 0x4,
            PageTableFlag::Writethrough => 0x8,
            PageTableFlag::NotCacheable => 0x10,
            PageTableFlag::Accessed => 0x20,
            PageTableFlag::Dirty => 0x40,
            PageTableFlag::Pat => 0x80,
            PageTableFlag::CpuGlobal => 0x100,
            PageTableFlag::Lv4Global => 0x200,
            PageTableFlag::Frame => 0xFFFF_F000,
        }
    }
}

/// One 32-bit entry of a page directory: flags in bits 0 to 11, the address
/// of a page table in bits 12 to 31.
#[derive(Clone, Copy, Debug, PartialEq, Eq, Structural)]
pub struct PageDirectoryEntry(pub u32);

impl PageDirectoryEntry {
    pub fn add_attribute(&mut self, attribute: u32)
        ensures
            final(self).0 == old(self).0 | attribute,
    {
        self.0 = self.0 | attribute;
    }

    pub fn del_attribute(&mut self, attribute: u32)
        ensures
            final(self).0 == old(self).0 & !attribute,
    {
        self.0 = self.0 & !attribute;
    }

    /// Points the entry at `frame`, keeping its flags.
    pub fn set_frame(&mut self, frame: Frame)
        requires
            frame.number < FRAME_LIMIT,
        ensures
            final(self).0 == with_frame(old(self).0, frame.number),
            frame_bits(final(self).0) == frame.number * 4096,
            flag_bits(final(self).0) == flag_bits(old(self).0),
    {
        let n = frame.number as u32;
        proof {
            lemma_with_frame(self.0, n);
        }
        self.0 = (self.0 & 0xFFF) | (n << 12u32);
    }

    /// The physical address of the page table the entry points at.
    pub fn get_page_table(&self) -> (r: PhysicalAddr)
        ensures
            r.0 == frame_bits(self.0),
    {
        PhysicalAddr::new((self.0 & 0xFFFF_F000) as usize)
    }

    pub fn is_valid_flag(&self, attribute: u32) -> (r: bool)
        ensures
            r == has_flags(self.0, attribute),
    {
        (self.0 & attribute) == attribute
    }

    pub fn get_value(&self) -> (r: u32)
        ensures
            r == self.0,
    {
        self.0
    }
}

/// One 32-bit entry of a page table: flags in bits 0 to 11, the address of a
/// frame in bits 12 to 31.
#[derive(Clone, Copy, Debug, PartialEq, Eq, Structural)]
pub struct PageTableEntry(pub u32);

impl PageTableEntry {
    pub fn add_attribute(&mut self, attribute: u32)
        ensures
            final(self).0 == old(self).0 | attribute,
    {
        self.0 = self.0 | attribute;
    }

    pub fn del_attribute(&mut self, attribute: u32)
        ensures
            final(self).0 == old(self).0 & !attribute,
    {
        self.0 = self.0 & !attribute;
    }

    /// Points the entry at `frame`, keeping its flags.
    pub fn set_frame(&mut self, frame: Frame)
        requires
            frame.number < FRAME_LIMIT,
        ensures
            final(self).0 == with_frame(old(self).0, frame.number),
            frame_bits(final(self).0) == frame.number * 4096,
            flag_bits(final(self).0) == flag_bits(old(self).0),
    {
        let n = frame.number as u32;
        proof {
            lemma_with_frame(self.0, n);
        }
        self.0 = (self.0 & 0xFFF) | (n << 12u32);
    }

    /// The physical address of the frame the entry points at.
    pub fn get_page(&self) -> (r: PhysicalAddr)
        ensures
            r.0 == frame_bits(self.0),
    {
        PhysicalAddr::new((self.0 & 0xFFFF_F000) as usize)
    }

    pub fn is_valid_flag(&self, attribute: u32) -> (r: bool)
        ensures
            r == has_flags(self.0, attribute),
    {
        (self.0 & attribute) == attribute
    }

    pub fn get_value(&self) -> (r: u32)
        ensures
            r == self.0,
    {
        self.0
    }
}


/// Whether every entry of a table is zero.
pub open spec fn all_zero_pt(s: Seq<PageTableEntry>) -> bool {
    &&& s.len() == ENTRIES_PER_PAGE
    &&& forall|i: int| 0 <= i < s.len() ==> (#[trigger] s[i]).0 == 0
}

/// Whether every entry of a directory is zero.
pub open spec fn all_zero_pd(s: Seq<PageDirectoryEntry>) -> bool {
    &&& s.len() == ENTRIES_PER_PAGE
    &&& forall|i: int| 0 <= i < s.len() ==> (#[trigger] s[i]).0 == 0
}

/// A page table: 1024 entries held in the frame at its physical address.
pub struct PageTable {
    addr: PhysicalAddr,
    entries: Vec<PageTableEntry>,
}

impl View for PageTable {
    type V = Seq<PageTableEntry>;

    closed spec fn view(&self) -> Seq<PageTableEntry> {
        self.entries@
    }
}

impl PageTable {
    /// Physical address of the frame holding the table.
    pub closed spec fn spec_addr(&self) -> usize {
        self.addr.0
    }

    pub open spec fn wf(&self) -> bool {
        self@.len() == ENTRIES_PER_PAGE
    }

    /// Allocates a frame and materializes an empty table in it.
    pub fn new(frame_allocator: &mut FrameAllocator) -> (r: Result<Self, MemoryError>)
        requires
            old(frame_allocator).inv(),
        ensures
            final(frame_allocator).inv(),
            final(frame_allocator)@ == allocate_step(old(frame_allocator)@).0,
            match allocate_step(old(frame_allocator)@).1 {
                Some(n) => r matches Ok(t) && t.wf() && all_zero_pt(t@) && t.spec_addr() == n
                    * 4096,
                None => r == Err::<Self, MemoryError>(MemoryError::OutOfMemory),
            },
    {
        match frame_allocator.allocate() {
            Some(f) => Ok(PageTable::from_physical_address(f.get_physical_addr())),
            None => Err(MemoryError::OutOfMemory),
        }
    }

    /// An empty table materialized in the frame at `addr`.
    pub fn from_physical_address(addr: PhysicalAddr) -> (r: Self)
        ensures
            r.wf(),
            all_zero_pt(r@),
            r.spec_addr() == addr.0,
    {
        let mut entries: Vec<PageTableEntry> = Vec::with_capacity(ENTRIES_PER_PAGE);
        let mut i: usize = 0;
        while i < ENTRIES_PER_PAGE
            invariant
                i <= ENTRIES_PER_PAGE,
                entries@.len() == i,
                forall|j: int| 0 <= j < i ==> (#[trigger] entries@[j]).0 == 0,
            decreases ENTRIES_PER_PAGE - i,
        {
            entries.push(PageTableEntry(0));
            i = i + 1;
        }
        PageTable { addr, entries }
    }

    pub fn get_physical_addr(&self) -> (r: PhysicalAddr)
        ensures
            r.0 == self.spec_addr(),
    {
        self.addr
    }

    /// The entry at `index`.
    pub fn entry(&self, index: usize) -> (r: PageTableEntry)
        requires
            self.wf(),
            index < ENTRIES_PER_PAGE,
        ensures
            r == self@[index as int],
    {
        self.entries[index]
    }

    /// Replaces the entry at `index`.
    pub fn set_entry(&mut self, index: usize, entry: PageTableEntry)
        requires
            old(self).wf(),
            index < ENTRIES_PER_PAGE,
        ensures
            final(self)@ == old(self)@.update(index as int, entry),
            final(self).spec_addr() == old(self).spec_addr(),
    {
        self.entries.set(index, entry);
    }

    /// Backs entry `index` with a newly allocated frame, with `flags`. Fails
    /// with `AlreadyMapped`, consuming no frame, when the entry is present.
    pub fn alloc_new_page(
        &mut self,
        frame_allocator: &mut FrameAllocator,
        index: usize,
        flags: u32,
    ) -> (r: Result<(), MemoryError>)
        requires
            old(self).wf(),
            old(frame_allocator).inv(),
            index < ENTRIES_PER_PAGE,
        ensures
            final(frame_allocator).inv(),
            final(self).wf(),
            final(self).spec_addr() == old(self).spec_addr(),
            if has_flags(old(self)@[index as int].0, PageTableFlag::Present.spec_bits()) {
                &&& r == Err::<(), MemoryError>(MemoryError::AlreadyMapped)
                &&& final(self)@ == old(self)@
                &&& final(frame_allocator)@ == old(frame_allocator)@
            } else {
                &&& final(frame_allocator)@ == allocate_step(old(frame_allocator)@).0
                &&& match allocate_step(old(frame_allocator)@).1 {
                    Some(n) => r == Ok::<(), MemoryError>(()) && final(self)@ == old(self)@.update(
                        index as int,
                        PageTableEntry(with_frame(old(self)@[index as int].0 | flags, n)),
                    ),
                    None => r == Err::<(), MemoryError>(MemoryError::OutOfMemory) && final(self)@
                        == old(self)@,
                }
            },
    {
        if self.entries[index].is_valid_flag(PageTableFlag::Present.bits()) {
            return Err(MemoryError::AlreadyMapped);
        }
        let new_frame = match frame_allocator.allocate() {
            Some(f) => f,
            None => return Err(MemoryError::OutOfMemory),
        };
        let mut e = self.entries[index];
        e.add_attribute(flags);
        e.set_frame(new_frame);
        self.entries.set(index, e);
        Ok(())
    }
}

/// A page directory: 1024 entries held in the frame at its physical address.
pub struct PageDirectory {
    addr: PhysicalAddr,
    entries: Vec<PageDirectoryEntry>,
}

impl View for PageDirectory {
    type V = Seq<PageDirectoryEntry>;

    closed spec fn view(&self) -> Seq<PageDirectoryEntry> {
        self.entries@
    }
}

impl PageDirectory {
    /// Physical address of the frame holding the directory.
    pub closed spec fn spec_addr(&self) -> usize {
        self.addr.0
    }

    pub open spec fn wf(&self) -> bool {
        self@.len() == ENTRIES_PER_PAGE
    }

    /// Allocates a frame and materializes an empty directory in it. A frame
    /// must be left.
    pub fn new(frame_allocator: &mut FrameAllocator) -> (r: Self)
        requires
            old(frame_allocator).inv(),
            available(old(frame_allocator)@) > 0,
        ensures
            final(frame_allocator).inv(),
            final(frame_allocator)@ == allocate_step(old(frame_allocator)@).0,
            allocate_step(old(frame_allocator)@).1 matches Some(n) && r.spec_addr() == n * 4096,
            r.wf(),
            all_zero_pd(r@),
    {
        let new_frame = frame_allocator.allocate();
        let f = new_frame.unwrap();
        PageDirectory::from_physical_address(f.get_physical_addr())
    }

    /// An empty directory materialized in the frame at `addr`.
    pub fn from_physical_address(addr: PhysicalAddr) -> (r: Self)
        ensures
            r.wf(),
            all_zero_pd(r@),
            r.spec_addr() == addr.0,
    {
        let mut entries: Vec<PageDirectoryEntry> = Vec::with_capacity(ENTRIES_PER_PAGE);
        let mut i: usize = 0;
        while i < ENTRIES_PER_PAGE
            invariant
                i <= ENTRIES_PER_PAGE,
                entries@.len() == i,
                forall|j: int| 0 <= j < i ==> (#[trigger] entries@[j]).0 == 0,
            decreases ENTRIES_PER_PAGE - i,
        {
            entries.push(PageDirectoryEntry(0));
            i = i + 1;
        }
        PageDirectory { addr, entries }
    }

    pub fn get_physical_addr(&self) -> (r: PhysicalAddr)
        ensures
            r.0 == self.spec_addr(),
    {
        self.addr
    }

    /// The entry at `index`.
    pub fn entry(&self, index: usize) -> (r: PageDirectoryEntry)
        requires
            self.wf(),
            index < ENTRIES_PER_PAGE,
        ensures
            r == self@[index as int],
    {
        self.entries[index]
    }

    /// Replaces the entry at `index`.
    pub fn set_entry(&mut self, index: usize, entry: PageDirectoryEntry)
        requires
            old(self).wf(),
            index < ENTRIES_PER_PAGE,
        ensures
            final(self)@ == old(self)@.update(index as int, entry),
            final(self).spec_addr() == old(self).spec_addr(),
    {
        self.entries.set(index, entry);
    }

    /// Allocates an empty page table and points entry `index` at it, adding
    /// `flags` to the entry.
    pub fn alloc_new_page_table(
        &mut self,
        frame_allocator: &mut FrameAllocator,
        index: usize,
        flags: u32,
    ) -> (r: Result<PageTable, MemoryError>)
        requires
            old(self).wf(),
            old(frame_allocator).inv(),
            index < ENTRIES_PER_PAGE,
        ensures
            final(frame_allocator).inv(),
            final(frame_allocator)@ == allocate_step(old(frame_allocator)@).0,
            final(self).wf(),
            final(self).spec_addr() == old(self).spec_addr(),
            match allocate_step(old(frame_allocator)@).1 {
                Some(n) => r matches Ok(t) && t.wf() && all_zero_pt(t@) && t.spec_addr() == n
                    * 4096 && final(self)@ == old(self)@.update(
                    index as int,
                    PageDirectoryEntry(with_frame(old(self)@[index as int].0 | flags, n)),
                ),
                None => r == Err::<PageTable, MemoryError>(MemoryError::OutOfMemory)
                    && final(self)@ == old(self)@,
            },
    {
        let table = PageTable::new(frame_allocator)?;
        let mut e = self.entries[index];
        e.add_attribute(flags);
        e.set_frame(Frame::from_physical_address(table.get_physical_addr()));
        self.entries.set(index, e);
        Ok(table)
    }
}

} // verus!
