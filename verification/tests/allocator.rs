use fusarium::allocator::{align_up, HeapPages, HEAP_SIZE, HEAP_START, PAGE_SIZE};

#[test]
fn align_up_rounds_to_the_next_multiple() {
    assert_eq!(align_up(5, 4), 8);
    assert_eq!(align_up(8, 4), 8);
    assert_eq!(align_up(0, 4096), 0);
    assert_eq!(align_up(1, 4096), 4096);
    assert_eq!(align_up(4097, 4096), 8192);
    assert_eq!(align_up(7, 1), 7);
    assert_eq!(align_up(usize::MAX - 15, 16), usize::MAX - 15);
}

#[test]
fn heap_pages_cover_the_heap() {
    let mut pages = HeapPages::new();
    let mut seen = Vec::new();
    while let Some(p) = pages.next_page() {
        seen.push(p);
    }
    assert_eq!(seen.len(), 25);
    assert_eq!(seen[0], HEAP_START);
    for (k, p) in seen.iter().enumerate() {
        assert_eq!(*p, HEAP_START + k as u64 * PAGE_SIZE);
        assert_eq!(*p % PAGE_SIZE, 0);
    }
    assert_eq!(seen[24] + PAGE_SIZE, HEAP_START + HEAP_SIZE);
    assert_eq!(pages.next_page(), None);
}
