use rv32_kernel::address::{align_up, PAddr, VAddr, PAGE_SIZE};
use rv32_kernel::allocator::BumpAllocator;
use rv32_kernel::page::{
    map_page, map_range, satp_for, walk_page_table, AddressSpace, PageTable, PAGE_R, PAGE_U,
    PAGE_V, PAGE_W, PAGE_X, SATP_SV32,
};

fn window() -> BumpAllocator {
    BumpAllocator::new(PAddr::new(0x8030_0000), PAddr::new(0x8040_0000))
}

#[test]
fn align_up_rounds_to_the_next_multiple() {
    assert_eq!(align_up(0, PAGE_SIZE), 0);
    assert_eq!(align_up(1, PAGE_SIZE), 4096);
    assert_eq!(align_up(4095, PAGE_SIZE), 4096);
    assert_eq!(align_up(4096, PAGE_SIZE), 4096);
    assert_eq!(align_up(4097, PAGE_SIZE), 8192);
    assert_eq!(align_up(10, 3), 12);
    assert_eq!(align_up(12, 3), 12);
}

#[test]
fn virtual_address_fields() {
    let va = VAddr::new(0x0100_085e);
    assert_eq!(va.vpn1(), 4);
    assert_eq!(va.vpn0(), 0);
    assert_eq!(va.offset(), 0x85e);
    assert_eq!(va.page(), 0x1000);
    assert_eq!(va.as_u32(), 0x0100_085e);
    let top = VAddr::new(0xffff_ffff);
    assert_eq!(top.vpn1(), 1023);
    assert_eq!(top.vpn0(), 1023);
    assert_eq!(top.offset(), 4095);
    let mid = VAddr::new(0x8020_3004);
    assert_eq!(mid.vpn1(), 512);
    assert_eq!(mid.vpn0(), 0x203);
    assert_eq!(mid.offset(), 4);
}

#[test]
fn physical_address_from_entry() {
    assert_eq!(PAddr::from_ppn(0x2008_0c01), PAddr::new(0x8020_3000));
    assert_eq!(PAddr::from_ppn(0x3ff), PAddr::new(0));
    assert_eq!(PAddr::from_ppn(0x400), PAddr::new(0x1000));
    // The page number's two top bits fall off a 32-bit address.
    assert_eq!(PAddr::from_ppn(0xffff_fc00), PAddr::new(0xffff_f000));
    assert_eq!(PAddr::new(7).as_u32(), 7);
}

#[test]
fn allocator_bumps_by_whole_pages() {
    let mut a = window();
    assert_eq!(a.next, None);
    assert_eq!(a.pages_left(), 256);
    assert_eq!(a.allocate(1), PAddr::new(0x8030_0000));
    assert_eq!(a.next, Some(PAddr::new(0x8030_1000)));
    assert_eq!(a.allocate(4096), PAddr::new(0x8030_1000));
    assert_eq!(a.allocate(4097), PAddr::new(0x8030_2000));
    assert_eq!(a.next, Some(PAddr::new(0x8030_4000)));
    assert_eq!(a.pages_left(), 252);
}

#[test]
fn allocator_is_full_at_the_end_of_its_window() {
    let mut a = BumpAllocator::new(PAddr::new(0x8030_0000), PAddr::new(0x8030_2000));
    assert!(a.can_alloc(8192));
    assert!(!a.can_alloc(8193));
    let _ = a.allocate(4096);
    assert!(a.can_alloc(4096));
    assert!(!a.can_alloc(4097));
    let _ = a.allocate(1);
    assert!(!a.can_alloc(1));
    assert_eq!(a.pages_left(), 0);
}

#[test]
fn allocator_window_need_not_end_on_a_page() {
    let a = BumpAllocator::new(PAddr::new(0x8030_0000), PAddr::new(0x8030_1fff));
    assert!(a.can_alloc(4096));
    assert!(!a.can_alloc(4097));
    assert_eq!(a.pages_left(), 1);
}

#[test]
fn fresh_table_has_no_valid_entry() {
    let t = PageTable::new();
    assert!(t.entries.iter().all(|e| *e == 0));
    assert_eq!(t.entries.len(), 1024);
}

#[test]
fn root_register_value() {
    assert_eq!(satp_for(PAddr::new(0x8030_0000)), 0x8008_0300);
    assert_eq!(SATP_SV32, 0x8000_0000);
}

#[test]
fn map_page_then_walk() {
    let mut a = window();
    let mut space = AddressSpace::new(&mut a);
    assert_eq!(space.root_addr, PAddr::new(0x8030_0000));
    assert_eq!(walk_page_table(&space, VAddr::new(0x0100_0000)), None);

    map_page(
        &mut space,
        &mut a,
        VAddr::new(0x0100_0000),
        PAddr::new(0x8765_4000),
        PAGE_U | PAGE_R | PAGE_W | PAGE_X,
    );
    // The second-level table came from the allocator, after the root.
    assert_eq!(a.next, Some(PAddr::new(0x8030_2000)));
    assert_eq!(space.root.entries[4], (0x80301 << 10) | PAGE_V);
    assert_eq!(
        walk_page_table(&space, VAddr::new(0x0100_0000)),
        Some((PAddr::new(0x8765_4000), 0x1f))
    );
    // Any address of the page finds the page.
    assert_eq!(
        walk_page_table(&space, VAddr::new(0x0100_085e)),
        Some((PAddr::new(0x8765_4000), 0x1f))
    );
    assert_eq!(walk_page_table(&space, VAddr::new(0x0100_1000)), None);
    assert_eq!(walk_page_table(&space, VAddr::new(0x0140_0000)), None);

    // A second page under the same root entry takes no further table.
    map_page(&mut space, &mut a, VAddr::new(0x0100_1000), PAddr::new(0x8000_0000), PAGE_R);
    assert_eq!(a.next, Some(PAddr::new(0x8030_2000)));
    assert_eq!(
        walk_page_table(&space, VAddr::new(0x0100_1abc)),
        Some((PAddr::new(0x8000_0000), 0x3))
    );
    assert_eq!(
        walk_page_table(&space, VAddr::new(0x0100_0000)),
        Some((PAddr::new(0x8765_4000), 0x1f))
    );
}

#[test]
fn map_page_overwrites_a_mapping() {
    let mut a = window();
    let mut space = AddressSpace::new(&mut a);
    map_page(&mut space, &mut a, VAddr::new(0x2000), PAddr::new(0x5000), PAGE_R);
    map_page(&mut space, &mut a, VAddr::new(0x2000), PAddr::new(0x9000), PAGE_R | PAGE_W);
    assert_eq!(walk_page_table(&space, VAddr::new(0x2000)), Some((PAddr::new(0x9000), 0x7)));
}

#[test]
fn map_range_maps_pages_in_a_row() {
    let mut a = window();
    let mut space = AddressSpace::new(&mut a);
    // Pages 1022 to 1025 lie under two root entries.
    map_range(&mut space, &mut a, 1022, 0x80000, 4, PAGE_R | PAGE_X);
    assert_eq!(a.next, Some(PAddr::new(0x8030_3000)));
    assert_eq!(walk_page_table(&space, VAddr::new(1021 * 4096)), None);
    assert_eq!(
        walk_page_table(&space, VAddr::new(1022 * 4096)),
        Some((PAddr::new(0x8000_0000), 0xb))
    );
    assert_eq!(
        walk_page_table(&space, VAddr::new(1024 * 4096 + 5)),
        Some((PAddr::new(0x8000_2000), 0xb))
    );
    assert_eq!(
        walk_page_table(&space, VAddr::new(1025 * 4096)),
        Some((PAddr::new(0x8000_3000), 0xb))
    );
    assert_eq!(walk_page_table(&space, VAddr::new(1026 * 4096)), None);
    // Mapping nothing changes nothing.
    map_range(&mut space, &mut a, 5000, 5000, 0, PAGE_R);
    assert_eq!(a.next, Some(PAddr::new(0x8030_3000)));
    assert_eq!(walk_page_table(&space, VAddr::new(5000 * 4096)), None);
}
