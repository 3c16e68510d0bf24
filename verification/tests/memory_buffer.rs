use wasm_codegen::memory_buffer::{MemoryBuffer, MemoryBufferCreateError, MemoryBufferManager};

#[test]
fn manager_hands_out_lowest_free_ids() {
    let mut m = MemoryBufferManager::new();
    assert_eq!(m.allocate(3), 1);
    assert_eq!(m.allocate(0), 2);
    assert_eq!(m.allocate(5), 3);
    assert_eq!(m.allocate(1), 4);
    assert_eq!(m.allocate(1), 0);
    assert_eq!(m.read(2), Vec::<u8>::new());
    assert_eq!(m.allocate(7), 2);
}

#[test]
fn read_after_allocate_gives_zeroed_buffer() {
    let mut m = MemoryBufferManager::new();
    let id = m.allocate(4);
    assert_eq!(m.read(id), vec![0, 0, 0, 0]);
    assert_eq!(m.allocate(2), id);
    assert_eq!(m.dealloc(id), vec![0, 0]);
}

#[test]
fn guest_buffer_decisions() {
    let big = MemoryBuffer::new(1025, |_| panic!("host must not be asked"));
    assert!(matches!(big, Err(MemoryBufferCreateError::SizeCannotBeLargerThan1Kb)));
    let full = MemoryBuffer::new(10, |_| 0);
    assert!(matches!(full, Err(MemoryBufferCreateError::SimultaneousBufferLimitReached)));
    let mut b = MemoryBuffer::new(1024, |size| {
        assert_eq!(size, 1024);
        3
    })
    .ok()
    .unwrap();
    assert_eq!(b.id(), 3);
    let content = b.read(|id| vec![id; 2]);
    assert_eq!(content, vec![3, 3]);
    assert_eq!(b.id(), 0);
    assert!(!b.release(|_| panic!("a read buffer is not released again")));
}

#[test]
fn guest_buffer_release_calls_host_once() {
    let mut b = MemoryBuffer::new(1, |_| 4).ok().unwrap();
    let mut released = None;
    assert!(b.release(|id| released = Some(id)));
    assert_eq!(released, Some(4));
    assert_eq!(b.id(), 0);
}
