//! The memory manager: builds the page directory from the frame allocator,
//! installs identity mappings and single virtual-to-physical mappings.

use crate::frame_allocator::{
    allocate_step, allocate_steps, available, first_frame_for, lemma_allocate_available,
    max_frame_for, nth_frame, Allocator, Frame, FrameAllocator, FrameAllocatorModel, LOW_MEMORY,
};
use crate::paging::{
    all_zero_pd, frame_bits, has_flags, lemma_add_flags, lemma_or_zero, lemma_with_frame,
    lemma_zero_entry, pd_index_of, pt_index_of, with_frame, PageDirectory, PageDirectoryEntry,
    PageDirectoryFlag, PageTable, PageTableEntry, PageTableFlag, PhysicalAddr, VirtualAddr,
};
use crate::{MemoryError, ENTRIES_PER_PAGE, FRAME_SIZE, PAGE_SIZE};
use vstd::prelude::*;

verus! {

/// The state of a fresh frame allocator.
pub open spec fn fresh_frames(starting_point: usize, mem_upper_kib: usize) -> FrameAllocatorModel {
    FrameAllocatorModel {
        max_frame: max_frame_for(mem_upper_kib) as usize,
        first: first_frame_for(starting_point, mem_upper_kib) as usize,
        current: first_frame_for(starting_point, mem_upper_kib) as usize,
        stack: Seq::empty(),
    }
}

/// Largest number of bytes that identity mapping can cover: the 32-bit
/// address space.
pub const IDENTITY_LIMIT: usize = 0xFFFF_FFFF;

/// Bytes mapped by one page table.
pub const TABLE_SPAN: usize = ENTRIES_PER_PAGE * PAGE_SIZE;

/// Flags of the directory entries that identity mapping installs.
pub open spec fn identity_pd_flags() -> u32 {
    0x3
}

/// Flags of the table entries that identity mapping installs.
pub open spec fn identity_pt_flags() -> u32 {
    0x13
}

/// The identity table of directory entry `i`: entry `j` is present, writable,
/// not cacheable, and points at frame `1024 * i + j`.
pub open spec fn identity_entries(i: int) -> Seq<PageTableEntry> {
    Seq::new(
        ENTRIES_PER_PAGE as nat,
        |j: int| PageTableEntry(with_frame(identity_pt_flags(), (i * 1024 + j) as usize)),
    )
}

/// Number of page tables that identity mapping of `to_limit` bytes fills.
pub open spec fn identity_tables_for(to_limit: usize) -> int {
    to_limit as int / TABLE_SPAN as int + 1
}

/// Points every entry of the table of directory entry `i_pd` at its own
/// frame, with `pt_flags`.
fn fill_identity_table(table: &mut PageTable, i_pd: usize, pt_flags: u32)
    requires
        old(table).wf(),
        i_pd < ENTRIES_PER_PAGE,
        pt_flags == identity_pt_flags(),
    ensures
        final(table).wf(),
        final(table).spec_addr() == old(table).spec_addr(),
        final(table)@ == identity_entries(i_pd as int),
{
    proof {
        lemma_or_zero(pt_flags);
    }
    let mut i_pt: usize = 0;
    while i_pt < ENTRIES_PER_PAGE
        invariant
            table.wf(),
            table.spec_addr() == old(table).spec_addr(),
            i_pd < ENTRIES_PER_PAGE,
            i_pt <= ENTRIES_PER_PAGE,
            pt_flags == identity_pt_flags(),
            0u32 | pt_flags == pt_flags,
            forall|j: int| 0 <= j < i_pt ==> #[trigger] table@[j] == identity_entries(i_pd as int)[j],
        decreases ENTRIES_PER_PAGE - i_pt,
    {
        let frame = Frame::from_frame_number((i_pd * ENTRIES_PER_PAGE) + i_pt);
        let mut e = PageTableEntry(0);
        e.add_attribute(pt_flags);
        e.set_frame(frame);
        table.set_entry(i_pt, e);
        i_pt = i_pt + 1;
    }
    assert(table@ =~= identity_entries(i_pd as int));
}

/// How many identity tables get installed from frame-allocator state `s`:
/// all those needed, or as many as there are frames.
pub open spec fn identity_done(s: FrameAllocatorModel, to_limit: usize) -> nat {
    if available(s) < identity_tables_for(to_limit) {
        available(s)
    } else {
        identity_tables_for(to_limit) as nat
    }
}

/// A table slot is empty, or holds a well-formed table that the directory
/// entry points at.
pub open spec fn slot_ok(entry: PageDirectoryEntry, slot: Option<PageTable>) -> bool {
    match slot {
        Some(t) => t.wf() && frame_bits(entry.0) == t.spec_addr(),
        None => true,
    }
}

/// Owner of the page directory, of its page tables and of the frame
/// allocator they are taken from. Slot `i` of the tables holds the table that
/// directory entry `i` points at, if one was allocated.
pub struct MemoryManager {
    page_directory: PageDirectory,
    frame_allocator: FrameAllocator,
    page_tables: Vec<Option<PageTable>>,
}

impl MemoryManager {
    /// The directory entries.
    pub closed spec fn directory(&self) -> Seq<PageDirectoryEntry> {
        self.page_directory@
    }

    /// Physical address of the directory.
    pub closed spec fn directory_addr(&self) -> usize {
        self.page_directory.spec_addr()
    }

    /// The table slots, one per directory entry.
    pub closed spec fn tables(&self) -> Seq<Option<PageTable>> {
        self.page_tables@
    }

    /// The frame allocator's state.
    pub closed spec fn frames(&self) -> FrameAllocatorModel {
        self.frame_allocator@
    }

    /// Every allocated table is well formed and is the one its directory
    /// entry points at; every present directory entry has a table.
    pub closed spec fn wf(&self) -> bool {
        &&& self.page_directory.wf()
        &&& self.frame_allocator.inv()
        &&& self.page_tables@.len() == ENTRIES_PER_PAGE
        &&& forall|i: int|
            0 <= i < ENTRIES_PER_PAGE ==> slot_ok(
                self.page_directory@[i],
                #[trigger] self.page_tables@[i],
            )
        &&& forall|i: int|
            0 <= i < ENTRIES_PER_PAGE && has_flags(
                #[trigger] self.page_directory@[i].0,
                PageDirectoryFlag::Present.spec_bits(),
            ) ==> self.page_tables@[i] is Some
    }

    /// The views are the fields' own.
    proof fn lemma_views(&self)
        ensures
            self.directory() == self.page_directory@,
            self.tables() == self.page_tables@,
            self.frames() == self.frame_allocator@,
    {
    }

    /// What well-formedness says, over the public views.
    pub proof fn lemma_wf(&self)
        requires
            self.wf(),
        ensures
            self.directory().len() == ENTRIES_PER_PAGE,
            self.tables().len() == ENTRIES_PER_PAGE,
            forall|i: int|
                0 <= i < ENTRIES_PER_PAGE ==> slot_ok(self.directory()[i], #[trigger] self.tables()[i]),
            forall|i: int|
                0 <= i < ENTRIES_PER_PAGE && has_flags(
                    #[trigger] self.directory()[i].0,
                    PageDirectoryFlag::Present.spec_bits(),
                ) ==> self.tables()[i] is Some,
    {
    }

    /// Builds the memory manager of a machine with `mem_upper_kib` KiB of
    /// upper memory: a frame allocator whose reclaimed-frame stack is reserved
    /// from `starting_point`, and an empty page directory in its first frame.
    pub fn new(starting_point: usize, mem_upper_kib: usize) -> (r: Self)
        requires
            LOW_MEMORY + mem_upper_kib * 0x400 <= 0x1_0000_0000,
            starting_point <= 0xFFFF_FFFF,
            first_frame_for(starting_point, mem_upper_kib) < max_frame_for(mem_upper_kib),
        ensures
            r.wf(),
            r.frames() == allocate_step(fresh_frames(starting_point, mem_upper_kib)).0,
            r.directory_addr() == first_frame_for(starting_point, mem_upper_kib) * 4096,
            all_zero_pd(r.directory()),
            forall|i: int| 0 <= i < ENTRIES_PER_PAGE ==> #[trigger] r.tables()[i] is None,
    {
        let mut frame_allocator = FrameAllocator::new(starting_point, mem_upper_kib);
        assert(frame_allocator@.stack =~= Seq::<usize>::empty());
        assert(frame_allocator@ == fresh_frames(starting_point, mem_upper_kib));
        let page_directory = PageDirectory::new(&mut frame_allocator);
        let mut page_tables: Vec<Option<PageTable>> = Vec::with_capacity(ENTRIES_PER_PAGE);
        let mut i: usize = 0;
        while i < ENTRIES_PER_PAGE
            invariant
                i <= ENTRIES_PER_PAGE,
                page_tables@.len() == i,
                forall|j: int| 0 <= j < i ==> #[trigger] page_tables@[j] is None,
            decreases ENTRIES_PER_PAGE - i,
        {
            page_tables.push(None);
            i = i + 1;
        }
        proof {
            lemma_zero_entry(PageDirectoryFlag::Present.spec_bits());
        }
        MemoryManager { page_directory, frame_allocator, page_tables }
    }

    /// Physical address of the page directory, to load into the processor as
    /// the root of the page tables.
    pub fn page_directory_addr(&self) -> (r: PhysicalAddr)
        ensures
            r.0 == self.directory_addr(),
    {
        self.page_directory.get_physical_addr()
    }

    /// Directory entry `index`.
    pub fn directory_entry(&self, index: usize) -> (r: PageDirectoryEntry)
        requires
            self.wf(),
            index < ENTRIES_PER_PAGE,
        ensures
            r == self.directory()[index as int],
    {
        self.page_directory.entry(index)
    }

    /// Entry `pt_index` of the table of directory entry `pd_index`, if that
    /// table was allocated.
    pub fn table_entry(&self, pd_index: usize, pt_index: usize) -> (r: Option<PageTableEntry>)
        requires
            self.wf(),
            pd_index < ENTRIES_PER_PAGE,
            pt_index < ENTRIES_PER_PAGE,
        ensures
            match self.tables()[pd_index as int] {
                Some(t) => r == Some(t@[pt_index as int]),
                None => r is None,
            },
    {
        match &self.page_tables[pd_index] {
            Some(t) => Some(t.entry(pt_index)),
            None => None,
        }
    }

    /// How many frames can still be allocated.
    pub fn available_frames(&self) -> (r: usize)
        requires
            self.wf(),
        ensures
            r == available(self.frames()),
    {
        self.frame_allocator.available()
    }

    /// Identity-maps every 4 MiB region from address 0 up to and including
    /// the one that holds `to_limit`: for each, a new page table is allocated
    /// and installed in its directory entry (present and writable), and all
    /// 1024 of its entries point at their own frame, present, writable and not
    /// cacheable. Fails with `OutOfMemory` when frames run out; the tables
    /// installed up to then stay.
    pub fn set_up_identity_paging(&mut self, to_limit: usize) -> (r: Result<(), MemoryError>)
        requires
            old(self).wf(),
            to_limit <= IDENTITY_LIMIT,
        ensures
            final(self).wf(),
            final(self).directory_addr() == old(self).directory_addr(),
            r == if available(old(self).frames()) < identity_tables_for(to_limit) {
                Err::<(), MemoryError>(MemoryError::OutOfMemory)
            } else {
                Ok::<(), MemoryError>(())
            },
            final(self).frames() == allocate_steps(
                old(self).frames(),
                identity_done(old(self).frames(), to_limit),
            ),
            forall|i: int|
                0 <= i < identity_done(old(self).frames(), to_limit) ==> {
                    let n = nth_frame(old(self).frames(), i as nat)->Some_0;
                    &&& #[trigger] final(self).directory()[i] == PageDirectoryEntry(
                        with_frame(old(self).directory()[i].0 | identity_pd_flags(), n),
                    )
                    &&& final(self).tables()[i] matches Some(t) && t@ == identity_entries(i)
                        && t.spec_addr() == n * 4096
                },
            forall|i: int|
                identity_done(old(self).frames(), to_limit) <= i < ENTRIES_PER_PAGE
                    ==> #[trigger] final(self).directory()[i] == old(self).directory()[i],
            forall|i: int|
                identity_done(old(self).frames(), to_limit) <= i < ENTRIES_PER_PAGE
                    ==> #[trigger] final(self).tables()[i] == old(self).tables()[i],
    {
        let needed = to_limit / TABLE_SPAN + 1;
        let pd_flags = PageDirectoryFlag::Present.bits() | PageDirectoryFlag::Writable.bits();
        let pt_flags = PageTableFlag::Present.bits() | PageTableFlag::Writable.bits()
            | PageTableFlag::NotCacheable.bits();
        proof {
            assert(0x1u32 | 0x2u32 == 0x3u32 && (0x1u32 | 0x2u32) | 0x10u32 == 0x13u32)
                by (bit_vector);
            lemma_or_zero(pt_flags);
            old(self).lemma_wf();
        }
        let ghost s0 = old(self).frames();
        let ghost d0 = old(self).directory();
        let ghost t0 = old(self).tables();
        let mut i_pd: usize = 0;
        while i_pd < needed
            invariant
                self.wf(),
                needed == identity_tables_for(to_limit),
                needed <= ENTRIES_PER_PAGE,
                i_pd <= needed,
                i_pd <= available(s0),
                pd_flags == identity_pd_flags(),
                pt_flags == identity_pt_flags(),
                0u32 | pt_flags == pt_flags,
                self.directory_addr() == old(self).directory_addr(),
                s0 == old(self).frames(),
                d0 == old(self).directory(),
                t0 == old(self).tables(),
                d0.len() == ENTRIES_PER_PAGE,
                t0.len() == ENTRIES_PER_PAGE,
                self.frames() == allocate_steps(s0, i_pd as nat),
                available(self.frames()) == available(s0) - i_pd,
                forall|i: int|
                    0 <= i < i_pd ==> {
                        let n = nth_frame(s0, i as nat)->Some_0;
                        &&& #[trigger] self.directory()[i] == PageDirectoryEntry(
                            with_frame(d0[i].0 | identity_pd_flags(), n),
                        )
                        &&& self.tables()[i] matches Some(t) && t@ == identity_entries(i)
                            && t.spec_addr() == n * 4096
                    },
                forall|i: int| i_pd <= i < ENTRIES_PER_PAGE ==> #[trigger] self.directory()[i] == d0[i],
                forall|i: int| i_pd <= i < ENTRIES_PER_PAGE ==> #[trigger] self.tables()[i] == t0[i],
            decreases needed - i_pd,
        {
            proof {
                lemma_allocate_available(self.frames());
                self.lemma_views();
            }
            let ghost before = self.frames();
            let ghost dir_before = self.page_directory@;
            let mut identity_table = match self.page_directory.alloc_new_page_table(
                &mut self.frame_allocator,
                i_pd,
                pd_flags,
            ) {
                Ok(t) => t,
                Err(e) => {
                    proof {
                        self.lemma_views();
                    }
                    return Err(e);
                },
            };
            let ghost n = allocate_step(before).1->Some_0;
            proof {
                lemma_with_frame(d0[i_pd as int].0 | pd_flags, n as u32);
            }
            fill_identity_table(&mut identity_table, i_pd, pt_flags);
            let ghost pre = self.page_tables@;
            self.page_tables.set(i_pd, Some(identity_table));
            proof {
                assert forall|x: int| 0 <= x < ENTRIES_PER_PAGE implies slot_ok(
                    self.page_directory@[x],
                    #[trigger] self.page_tables@[x],
                ) by {
                    if x != i_pd {
                        assert(slot_ok(dir_before[x], pre[x]));
                    }
                }
                self.lemma_views();
            }
            i_pd = i_pd + 1;
        }
        proof {
            self.lemma_views();
        }
        Ok(())
    }

    /// Maps the page of `virt_addr` to the frame of `physic_addr`, allocating
    /// the page table when the directory entry is not present, and adding
    /// `pd_flag` to the directory entry. Fails with `AlreadyMapped` when the
    /// table entry is present, and with `OutOfMemory` when a table is needed
    /// and no frame is left.
    pub fn map_addr_without_paging(
        &mut self,
        virt_addr: VirtualAddr,
        physic_addr: PhysicalAddr,
        pd_flag: u32,
        pt_flag: u32,
    ) -> (r: Result<(), MemoryError>)
        requires
            old(self).wf(),
            pd_flag <= 0xFFF,
            physic_addr.0 <= 0xFFFF_FFFF,
        ensures
            final(self).wf(),
            final(self).directory_addr() == old(self).directory_addr(),
            r is Ok ==> {
                let i = pd_index_of(virt_addr.0);
                let j = pt_index_of(virt_addr.0);
                &&& has_flags(final(self).directory()[i].0, pd_flag)
                &&& final(self).tables()[i] matches Some(t) && frame_bits(t@[j].0) == (
                physic_addr.0 / 4096) * 4096
            },
            ({
                let i = pd_index_of(virt_addr.0);
                let j = pt_index_of(virt_addr.0);
                let frame = (physic_addr.0 / 4096) as usize;
                let old_pde = old(self).directory()[i].0;
                if !has_flags(old_pde, PageDirectoryFlag::Present.spec_bits()) {
                    match allocate_step(old(self).frames()).1 {
                        None => {
                            &&& r == Err::<(), MemoryError>(MemoryError::OutOfMemory)
                            &&& final(self).directory() == old(self).directory()
                            &&& final(self).tables() == old(self).tables()
                            &&& final(self).frames() == old(self).frames()
                        },
                        Some(n) => {
                            &&& r == Ok::<(), MemoryError>(())
                            &&& final(self).frames() == allocate_step(old(self).frames()).0
                            &&& final(self).directory() == old(self).directory().update(
                                i,
                                PageDirectoryEntry(with_frame(old_pde | pd_flag, n) | pd_flag),
                            )
                            &&& final(self).tables()[i] matches Some(t) && t.spec_addr() == n
                                * 4096 && t@ == Seq::new(
                                ENTRIES_PER_PAGE as nat,
                                |x: int|
                                    if x == j {
                                        PageTableEntry(with_frame(pt_flag, frame))
                                    } else {
                                        PageTableEntry(0)
                                    },
                            )
                            &&& forall|x: int|
                                0 <= x < ENTRIES_PER_PAGE && x != i ==> #[trigger] final(self).tables()[x]
                                    == old(self).tables()[x]
                        },
                    }
                } else {
                    let t = old(self).tables()[i]->Some_0;
                    let old_pte = t@[j].0;
                    &&& final(self).frames() == old(self).frames()
                    &&& final(self).directory() == old(self).directory().update(
                        i,
                        PageDirectoryEntry(old_pde | pd_flag),
                    )
                    &&& if has_flags(old_pte, PageTableFlag::Present.spec_bits()) {
                        &&& r == Err::<(), MemoryError>(MemoryError::AlreadyMapped)
                        &&& final(self).tables() == old(self).tables()
                    } else {
                        &&& r == Ok::<(), MemoryError>(())
                        &&& final(self).tables()[i] matches Some(t2) && t2.spec_addr()
                            == t.spec_addr() && t2@ == t@.update(
                            j,
                            PageTableEntry(with_frame(old_pte | pt_flag, frame)),
                        )
                        &&& forall|x: int|
                            0 <= x < ENTRIES_PER_PAGE && x != i ==> #[trigger] final(self).tables()[x]
                                    == old(self).tables()[x]
                    }
                }
            }),
    {
        let pd_index = virt_addr.get_pd_index();
        let pt_index = virt_addr.get_pt_index();
        let mut page_table: PageTable;
        let mut pde = self.page_directory.entry(pd_index);
        proof {
            lemma_add_flags(pde.0, pd_flag);
        }
        if !pde.is_valid_flag(PageDirectoryFlag::Present.bits()) {
            page_table = self.page_directory.alloc_new_page_table(
                &mut self.frame_allocator,
                pd_index,
                pd_flag,
            )?;
            pde = self.page_directory.entry(pd_index);
            proof {
                let n = allocate_step(old(self).frames()).1->Some_0;
                lemma_with_frame(old(self).directory()[pd_index as int].0 | pd_flag, n as u32);
                lemma_add_flags(pde.0, pd_flag);
                lemma_zero_entry(PageTableFlag::Present.spec_bits());
            }
        } else {
            let mut slot: Option<PageTable> = None;
            self.page_tables.set_and_swap(pd_index, &mut slot);
            page_table = slot.unwrap();
        }
        pde.add_attribute(pd_flag);
        self.page_directory.set_entry(pd_index, pde);

        let mut pte = page_table.entry(pt_index);
        if pte.is_valid_flag(PageTableFlag::Present.bits()) {
            self.page_tables.set(pd_index, Some(page_table));
            return Err(MemoryError::AlreadyMapped);
        }
        pte.add_attribute(pt_flag);
        pte.set_frame(Frame::from_frame_number(physic_addr.get() / FRAME_SIZE));
        let ghost before = page_table@;
        page_table.set_entry(pt_index, pte);
        proof {
            lemma_or_zero(pt_flag);
            if !has_flags(old(self).directory()[pd_index as int].0, 1) {
                assert(page_table@ =~= Seq::new(
                    ENTRIES_PER_PAGE as nat,
                    |x: int|
                        if x == pt_index {
                            PageTableEntry(with_frame(pt_flag, (physic_addr.0 / 4096) as usize))
                        } else {
                            PageTableEntry(0)
                        },
                ));
            }
        }
        self.page_tables.set(pd_index, Some(page_table));
        proof {
            assert forall|x: int| 0 <= x < ENTRIES_PER_PAGE implies slot_ok(
                self.page_directory@[x],
                #[trigger] self.page_tables@[x],
            ) by {
                assert(slot_ok(old(self).page_directory@[x], old(self).page_tables@[x]));
            }
        }
        Ok(())
    }
}

} // verus!
