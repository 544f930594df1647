use netstack_core::{MyHalImpl, Page, QueueLayout, Region, SafeIoRegion, PAGE_SIZE};

#[test]
fn page_keeps_address_and_size() {
    let page = Page::new(0x8020_0000, 8192);
    assert_eq!(page.paddr(), 0x8020_0000);
    assert_eq!(page.vaddr(), 0x8020_0000);
    assert_eq!(page.size(), 8192);
}

#[test]
fn page_size_is_four_kib() {
    assert_eq!(PAGE_SIZE, 4096);
    let mut hal = MyHalImpl::new(0);
    assert_eq!(hal.dma_alloc(1).unwrap().size(), 4096);
}

#[test]
fn allocations_follow_one_another() {
    let mut hal = MyHalImpl::new(0x8040_0000);
    let a = hal.dma_alloc(2).unwrap();
    let b = hal.dma_alloc_buf(1).unwrap();
    let c = hal.dma_alloc(3).unwrap();
    assert_eq!((a.paddr(), a.size()), (0x8040_0000, 2 * 4096));
    assert_eq!((b.paddr(), b.size()), (0x8040_2000, 4096));
    assert_eq!((c.paddr(), c.size()), (0x8040_3000, 3 * 4096));
    assert_eq!(hal.next_free(), 0x8040_6000);
}

#[test]
fn allocations_never_overlap() {
    let requests = [1usize, 0, 3, 2, 0, 7, 1];
    let mut hal = MyHalImpl::new(0x1000);
    let mut pages = Vec::new();
    for pages_wanted in requests {
        let page = hal.dma_alloc(pages_wanted).unwrap();
        assert_eq!(page.size(), pages_wanted * PAGE_SIZE);
        pages.push(page);
    }
    for i in 0..pages.len() {
        for j in (i + 1)..pages.len() {
            assert!(pages[i].paddr() + pages[i].size() <= pages[j].paddr());
        }
    }
}

#[test]
fn empty_allocation_moves_nothing() {
    let mut hal = MyHalImpl::new(0x5000);
    let page = hal.dma_alloc_buf(0).unwrap();
    assert_eq!((page.paddr(), page.size()), (0x5000, 0));
    assert_eq!(hal.next_free(), 0x5000);
}

#[test]
fn allocation_past_the_address_space_fails_and_changes_nothing() {
    let mut hal = MyHalImpl::new(usize::MAX - 4096);
    assert!(hal.dma_alloc(2).is_none());
    assert_eq!(hal.next_free(), usize::MAX - 4096);
    assert!(hal.dma_alloc_buf(usize::MAX).is_none());
    assert_eq!(hal.next_free(), usize::MAX - 4096);
    let last = hal.dma_alloc(1).unwrap();
    assert_eq!((last.paddr(), last.size()), (usize::MAX - 4096, 4096));
    assert_eq!(hal.next_free(), usize::MAX);
    assert!(hal.dma_alloc(1).is_none());
    assert!(hal.dma_alloc(0).is_some());
}

#[test]
fn physical_address_is_the_virtual_one() {
    assert_eq!(MyHalImpl::to_paddr(0), 0);
    assert_eq!(MyHalImpl::to_paddr(0x8765_4321), 0x8765_4321);
    assert_eq!(MyHalImpl::to_paddr(usize::MAX), usize::MAX);
}

#[test]
fn queue_parts_start_at_their_offsets() {
    let page = Page::new(0x8000_0000, 2 * 4096);
    let layout = QueueLayout { descriptor_table_offset: 0, avail_ring_offset: 256, used_ring_offset: 4096 };
    let parts = page.queue_ref_mut(&layout).unwrap();
    assert_eq!(parts.descriptor_table, Region { addr: 0x8000_0000, len: 256 });
    assert_eq!(parts.avail_ring, Region { addr: 0x8000_0100, len: 4096 - 256 });
    assert_eq!(parts.used_ring, Region { addr: 0x8000_1000, len: 4096 });
}

#[test]
fn queue_parts_do_not_overlap() {
    let page = Page::new(0x4000, 100);
    let layout = QueueLayout { descriptor_table_offset: 7, avail_ring_offset: 8, used_ring_offset: 99 };
    let parts = page.queue_ref_mut(&layout).unwrap();
    assert_eq!(parts.descriptor_table.addr, 0x4000 + 7);
    assert_eq!(parts.avail_ring.addr, 0x4000 + 8);
    assert_eq!(parts.used_ring.addr, 0x4000 + 99);
    assert_eq!(parts.descriptor_table.addr + parts.descriptor_table.len, parts.avail_ring.addr);
    assert_eq!(parts.avail_ring.addr + parts.avail_ring.len, parts.used_ring.addr);
    assert_eq!(parts.used_ring.addr + parts.used_ring.len, 0x4000 + 100);
}

#[test]
fn used_ring_may_start_at_the_end_of_the_block() {
    let page = Page::new(0x4000, 100);
    let layout = QueueLayout { descriptor_table_offset: 0, avail_ring_offset: 50, used_ring_offset: 100 };
    let parts = page.queue_ref_mut(&layout).unwrap();
    assert_eq!(parts.used_ring, Region { addr: 0x4000 + 100, len: 0 });
}

#[test]
fn queue_layout_out_of_order_or_out_of_range_is_refused() {
    let page = Page::new(0x4000, 100);
    let layouts = [
        QueueLayout { descriptor_table_offset: 0, avail_ring_offset: 50, used_ring_offset: 101 },
        QueueLayout { descriptor_table_offset: 0, avail_ring_offset: 0, used_ring_offset: 50 },
        QueueLayout { descriptor_table_offset: 0, avail_ring_offset: 50, used_ring_offset: 50 },
        QueueLayout { descriptor_table_offset: 60, avail_ring_offset: 50, used_ring_offset: 70 },
        QueueLayout { descriptor_table_offset: 0, avail_ring_offset: 80, used_ring_offset: 70 },
    ];
    for layout in layouts {
        assert_eq!(page.queue_ref_mut(&layout), None);
    }
}

#[test]
fn queue_of_a_block_past_the_address_space_is_refused() {
    let layout = QueueLayout { descriptor_table_offset: 0, avail_ring_offset: 16, used_ring_offset: 32 };
    assert_eq!(Page::new(usize::MAX - 10, 64).queue_ref_mut(&layout), None);
    assert!(Page::new(usize::MAX - 64, 64).queue_ref_mut(&layout).is_some());
}

#[test]
fn register_window_keeps_base_and_length() {
    let window = SafeIoRegion::new(0x1000_1000, 0x200);
    assert_eq!(window.paddr(), 0x1000_1000);
    assert_eq!(window.vaddr(), 0x1000_1000);
    assert_eq!(window.len(), 0x200);
}

#[test]
fn register_address_is_base_plus_offset() {
    let window = SafeIoRegion::new(0x1000_1000, 0x200);
    assert_eq!(window.addr_at(0), Some(0x1000_1000));
    assert_eq!(window.addr_at(0x70), Some(0x1000_1070));
}

#[test]
fn register_address_is_not_held_against_the_length() {
    let window = SafeIoRegion::new(0x1000_1000, 0x200);
    assert_eq!(window.addr_at(0x200), Some(0x1000_1200));
    assert_eq!(window.addr_at(0x10_0000), Some(0x1010_1000));
}

#[test]
fn register_address_past_the_address_space_is_refused() {
    let window = SafeIoRegion::new(usize::MAX - 3, 0x200);
    assert_eq!(window.addr_at(3), Some(usize::MAX));
    assert_eq!(window.addr_at(4), None);
}

#[test]
fn split_cuts_a_block_at_the_offsets() {
    let mut block: Vec<u8> = (0u8..10).collect();
    let layout = QueueLayout { descriptor_table_offset: 1, avail_ring_offset: 4, used_ring_offset: 6 };
    let parts = layout.split(&mut block).unwrap();
    assert_eq!(parts.descriptor_table, &[1, 2, 3]);
    assert_eq!(parts.avail_ring, &[4, 5]);
    assert_eq!(parts.used_ring, &[6, 7, 8, 9]);
}

#[test]
fn writes_to_the_parts_land_at_their_offsets() {
    let mut block = [0u8; 10];
    let layout = QueueLayout { descriptor_table_offset: 1, avail_ring_offset: 4, used_ring_offset: 6 };
    {
        let parts = layout.split(&mut block).unwrap();
        // The parts are disjoint and can be written in any order.
        parts.used_ring[0] = 0xcc;
        parts.descriptor_table[0] = 0xaa;
        parts.avail_ring[0] = 0xbb;
        parts.descriptor_table[2] = 0xa2;
        parts.avail_ring[1] = 0xb1;
        parts.used_ring[3] = 0xc3;
    }
    assert_eq!(block, [0, 0xaa, 0, 0xa2, 0xbb, 0xb1, 0xcc, 0, 0, 0xc3]);
}

#[test]
fn split_allows_an_empty_used_ring() {
    let mut block = [7u8; 8];
    let layout = QueueLayout { descriptor_table_offset: 0, avail_ring_offset: 4, used_ring_offset: 8 };
    let parts = layout.split(&mut block).unwrap();
    assert_eq!(parts.descriptor_table.len(), 4);
    assert_eq!(parts.avail_ring.len(), 4);
    assert!(parts.used_ring.is_empty());
}

#[test]
fn split_refuses_what_does_not_fit() {
    let layouts = [
        QueueLayout { descriptor_table_offset: 0, avail_ring_offset: 4, used_ring_offset: 9 },
        QueueLayout { descriptor_table_offset: 4, avail_ring_offset: 4, used_ring_offset: 6 },
        QueueLayout { descriptor_table_offset: 0, avail_ring_offset: 6, used_ring_offset: 6 },
        QueueLayout { descriptor_table_offset: 5, avail_ring_offset: 4, used_ring_offset: 6 },
        QueueLayout { descriptor_table_offset: 0, avail_ring_offset: 7, used_ring_offset: 6 },
        QueueLayout { descriptor_table_offset: 0, avail_ring_offset: 1, used_ring_offset: usize::MAX },
    ];
    for layout in layouts {
        let mut block = [3u8; 8];
        assert!(layout.split(&mut block).is_none());
        assert_eq!(block, [3u8; 8]);
    }
}
