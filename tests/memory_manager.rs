use kernel_memory::memory_manager::MemoryManager;
use kernel_memory::paging::{PageDirectoryFlag, PageTableFlag, PhysicalAddr, VirtualAddr};
use kernel_memory::MemoryError;

const START: usize = 0x20_0000;
const UPPER_KIB: usize = 31 * 1024;

fn flags_pd() -> u32 {
    PageDirectoryFlag::Present.bits()
        | PageDirectoryFlag::Writable.bits()
        | PageDirectoryFlag::NotCacheable.bits()
}

fn flags_pt() -> u32 {
    PageTableFlag::Present.bits() | PageTableFlag::Writable.bits() | PageTableFlag::NotCacheable.bits()
}

#[test]
fn new_manager_has_an_empty_directory_in_the_first_frame() {
    let mm = MemoryManager::new(START, UPPER_KIB);
    assert_eq!(mm.page_directory_addr().get(), 520 * 4096);
    for i in 0..1024 {
        assert_eq!(mm.directory_entry(i).get_value(), 0);
        assert!(mm.table_entry(i, 0).is_none());
    }
    assert_eq!(mm.available_frames(), 8192 - 521);
}

#[test]
fn map_installs_directory_and_table_entries() {
    let mut mm = MemoryManager::new(START, UPPER_KIB);
    let v = VirtualAddr::new(0x0040_1000);
    let p = PhysicalAddr::new(0xb8000);
    assert_eq!(v.get_pd_index(), 1);
    assert_eq!(v.get_pt_index(), 1);
    assert_eq!(v.get_offset(), 0);
    assert_eq!(mm.map_addr_without_paging(v, p, flags_pd(), flags_pt()), Ok(()));
    let pde = mm.directory_entry(1);
    assert!(pde.is_valid_flag(PageDirectoryFlag::Present.bits()));
    // The table went into the next frame.
    assert_eq!(pde.get_page_table().get(), 521 * 4096);
    assert_eq!(pde.get_value(), 521 * 4096 + 0x13);
    let pte = mm.table_entry(1, 1).expect("table allocated");
    assert!(pte.is_valid_flag(PageTableFlag::Present.bits()));
    assert_eq!(pte.get_page().get() / 4096, 0xb8000 / 4096);
    assert_eq!(pte.get_value(), 0xb8013);
    assert_eq!(mm.table_entry(1, 0).unwrap().get_value(), 0);
    assert_eq!(mm.available_frames(), 8192 - 522);
}

#[test]
fn map_into_an_existing_table_takes_no_frame() {
    let mut mm = MemoryManager::new(START, UPPER_KIB);
    let p = PhysicalAddr::new(0xb8000);
    mm.map_addr_without_paging(VirtualAddr::new(0x4000_0000), p, flags_pd(), flags_pt()).unwrap();
    let left = mm.available_frames();
    mm.map_addr_without_paging(VirtualAddr::new(0x4000_1000), PhysicalAddr::new(0xb9000), flags_pd(), flags_pt())
        .unwrap();
    assert_eq!(mm.available_frames(), left);
    assert_eq!(mm.table_entry(0x100, 1).unwrap().get_page().get(), 0xb9000);
}

#[test]
fn map_of_unaligned_physical_address_uses_its_frame() {
    let mut mm = MemoryManager::new(START, UPPER_KIB);
    let v = VirtualAddr::new(0x0080_2000);
    mm.map_addr_without_paging(v, PhysicalAddr::new(0xb8123), flags_pd(), flags_pt()).unwrap();
    assert_eq!(mm.table_entry(2, 2).unwrap().get_page().get(), 0xb8000);
}

#[test]
fn mapping_twice_is_already_mapped() {
    let mut mm = MemoryManager::new(START, UPPER_KIB);
    let v = VirtualAddr::new(0x0040_1000);
    assert_eq!(mm.map_addr_without_paging(v, PhysicalAddr::new(0xb8000), flags_pd(), flags_pt()), Ok(()));
    assert_eq!(
        mm.map_addr_without_paging(v, PhysicalAddr::new(0xc0000), flags_pd(), flags_pt()),
        Err(MemoryError::AlreadyMapped)
    );
    assert_eq!(mm.table_entry(1, 1).unwrap().get_page().get(), 0xb8000);
}

#[test]
fn map_without_frames_is_out_of_memory() {
    // One usable frame: the directory takes it.
    let mut mm = MemoryManager::new(0xFEC00, 0);
    assert_eq!(mm.available_frames(), 0);
    assert_eq!(
        mm.map_addr_without_paging(VirtualAddr::new(0x1000), PhysicalAddr::new(0x1000), 0x3, 0x3),
        Err(MemoryError::OutOfMemory)
    );
    assert_eq!(mm.directory_entry(0).get_value(), 0);
    assert!(mm.table_entry(0, 1).is_none());
}

#[test]
fn identity_paging_of_the_first_region() {
    let mut mm = MemoryManager::new(START, UPPER_KIB);
    assert_eq!(mm.set_up_identity_paging(0), Ok(()));
    let pde = mm.directory_entry(0);
    assert!(pde.is_valid_flag(0x3));
    assert_eq!(pde.get_page_table().get(), 521 * 4096);
    assert_eq!(mm.table_entry(0, 0).unwrap().get_value(), 0x13);
    assert_eq!(mm.table_entry(0, 5).unwrap().get_value(), 0x5013);
    assert_eq!(mm.table_entry(0, 1023).unwrap().get_value(), 0x3FF013);
    assert!(mm.table_entry(1, 0).is_none());
    assert_eq!(mm.available_frames(), 8192 - 522);
}

#[test]
fn identity_paging_covers_the_region_holding_the_limit() {
    let mut mm = MemoryManager::new(START, UPPER_KIB);
    assert_eq!(mm.set_up_identity_paging(0x40_0000), Ok(()));
    assert_eq!(mm.table_entry(1, 0).unwrap().get_value(), 0x40_0013);
    assert_eq!(mm.table_entry(1, 1023).unwrap().get_value(), 0x7F_F013);
    assert_eq!(mm.directory_entry(1).get_page_table().get(), 522 * 4096);
    assert!(mm.table_entry(2, 0).is_none());
    let mut mm = MemoryManager::new(START, UPPER_KIB);
    assert_eq!(mm.set_up_identity_paging(0x3F_FFFF), Ok(()));
    assert!(mm.table_entry(1, 0).is_none());
}

#[test]
fn identity_mapped_page_cannot_be_mapped_again() {
    let mut mm = MemoryManager::new(START, UPPER_KIB);
    mm.set_up_identity_paging(0).unwrap();
    assert_eq!(
        mm.map_addr_without_paging(VirtualAddr::new(0xb8000), PhysicalAddr::new(0xb8000), 0x3, 0x3),
        Err(MemoryError::AlreadyMapped)
    );
}

#[test]
fn identity_paging_without_frames_is_out_of_memory() {
    let mut mm = MemoryManager::new(0xFEC00, 0);
    assert_eq!(mm.set_up_identity_paging(0), Err(MemoryError::OutOfMemory));
    assert!(mm.table_entry(0, 0).is_none());
}

#[test]
fn identity_paging_keeps_the_tables_installed_before_running_out() {
    // 256 frames, bump allocation from frame 254: the directory and one table.
    let mut mm = MemoryManager::new(0xFDC00, 0);
    assert_eq!(mm.available_frames(), 1);
    assert_eq!(mm.set_up_identity_paging(0x40_0000), Err(MemoryError::OutOfMemory));
    assert_eq!(mm.table_entry(0, 7).unwrap().get_value(), 0x7013);
    assert!(mm.table_entry(1, 0).is_none());
}
