use kernel_memory::heap_allocator::HeapAllocator;
use kernel_memory::runtime_static::RuntimeStatic;
use kernel_memory::spin_mutex::SpinMutex;

#[test]
fn second_acquisition_waits_for_release() {
    let mut m = SpinMutex::new(5u32);
    assert!(!m.is_locked());
    let mut guard = m.lock();
    assert!(m.is_locked());
    assert!(m.try_lock().is_none());
    assert!(m.try_lock().is_none());
    *guard.get_mut() += 1;
    m.unlock(guard);
    assert!(!m.is_locked());
    let again = m.try_lock().expect("lock is free");
    assert_eq!(*again.get(), 6);
    m.unlock(again);
}

#[test]
fn mutex_guards_the_heap_allocator() {
    let mut m = SpinMutex::new(HeapAllocator::new(0x1000, 0x2000));
    let mut g = m.lock();
    let p = g.get_mut().allocate(16, 4);
    assert_eq!(p, 0x1024);
    assert!(m.try_lock().is_none());
    m.unlock(g);
    let g = m.lock();
    assert_eq!(g.get().len(), 1);
    m.unlock(g);
}

#[test]
fn runtime_static_is_empty_until_initialized() {
    let mut cell: RuntimeStatic<u32> = RuntimeStatic::get_uninit();
    assert!(!cell.is_init());
    assert!(cell.get().is_none());
    assert!(cell.get_mut().is_none());
    assert_eq!(cell.init(7), Ok(()));
    assert!(cell.is_init());
    assert_eq!(cell.get(), Some(&7));
    *cell.get_mut().unwrap() = 8;
    assert_eq!(cell.get(), Some(&8));
}

#[test]
fn runtime_static_refuses_a_second_initialization() {
    let mut cell: RuntimeStatic<u32> = RuntimeStatic::get_uninit();
    assert_eq!(cell.init(1), Ok(()));
    assert_eq!(cell.init(2), Err(2));
    assert_eq!(cell.get(), Some(&1));
}
