use hypervisor::allocator::BumpAllocator;
use hypervisor::guest_page_table::{
    Entry, GuestPageTable, Table, PTE_R, PTE_U, PTE_V, PTE_W, PTE_X,
};
use hypervisor::HvError;

fn boot_allocator() -> BumpAllocator {
    let mut a = BumpAllocator::new();
    a.init(0x8000_0000, 0x8100_0000);
    a
}

#[test]
fn entry_packs_page_number_and_flags() {
    let e = Entry::new(0x1234_5000, PTE_V);
    assert_eq!(e.0, (0x1234_5000u64 >> 12) << 10 | PTE_V);
    assert!(e.is_valid());
    assert_eq!(e.paddr(), 0x1234_5000);
    let z = Entry(0);
    assert!(!z.is_valid());
    assert_eq!(z.paddr(), 0);
}

#[test]
fn table_allocate_hands_out_zeroed_pages() {
    let mut a = boot_allocator();
    let t = Table::allocate(&mut a, 3);
    assert_eq!(t.addr % 4096, 0);
    assert_eq!(t.level, 3);
    assert_eq!(t.entries.len(), 512);
    assert!(t.entries.iter().all(|e| e.0 == 0));
    let e = t.entry_by_addr(0x1234_5000, 0);
    assert_eq!(e.0, 0);
}

#[test]
fn new_tree_translates_nothing() {
    let mut a = boot_allocator();
    let gpt = GuestPageTable::new(&mut a);
    assert!(gpt.walk(0x10_0000).is_none());
    assert!(gpt.walk(0).is_none());
}

#[test]
fn hgatp_holds_mode_and_root_page_number() {
    let mut a = boot_allocator();
    let gpt = GuestPageTable::new(&mut a);
    let hgatp = gpt.hgatp();
    assert_eq!(hgatp >> 60, 9);
    assert_eq!(hgatp & 0x0fff_ffff_ffff_ffff, gpt.tables[0].addr >> 12);
}

/// Walks the tree the way the translation hardware would: from the root
/// named by `hgatp`, taking the 9-bit slice of `g` at each level to pick an
/// entry, and following each branch entry's physical address to the table
/// that sits there.
fn hardware_walk(gpt: &GuestPageTable, g: u64) -> Option<u64> {
    let root_addr = (gpt.hgatp() & 0x0fff_ffff_ffff_ffff) << 12;
    let mut table = gpt.tables.iter().find(|t| t.addr == root_addr)?;
    for level in (1..=3u64).rev() {
        let e = table.entries[((g >> (12 + 9 * level)) & 0x1ff) as usize];
        if e.0 & PTE_V == 0 {
            return None;
        }
        let child = (e.0 >> 10) << 12;
        table = gpt.tables.iter().find(|t| t.addr == child)?;
    }
    let e = table.entries[((g >> 12) & 0x1ff) as usize];
    if e.0 & PTE_V == 0 {
        return None;
    }
    Some(e.0)
}

#[test]
fn map_installs_a_leaf_the_hardware_walk_reaches() {
    let mut a = boot_allocator();
    let mut gpt = GuestPageTable::new(&mut a);
    let g = 0x10_0000u64;
    let h = 0x8020_0000u64;
    let flags = PTE_R | PTE_W | PTE_X;
    gpt.map(&mut a, g, h, flags).unwrap();
    let leaf = hardware_walk(&gpt, g).unwrap();
    assert_eq!(leaf >> 10, h >> 12);
    assert_eq!(leaf & 0x3ff, flags | PTE_V | PTE_U);
    let e = gpt.walk(g).unwrap();
    assert_eq!(e.0, leaf);
    assert_eq!(e.paddr(), h);
}

#[test]
fn map_of_distinct_pages_keeps_every_mapping() {
    let mut a = boot_allocator();
    let mut gpt = GuestPageTable::new(&mut a);
    let pairs = [
        (0x10_0000u64, 0x8020_0000u64),
        (0x10_1000, 0x8020_1000),
        (0x7fff_f000, 0x8030_0000),
        (0x20_0000_0000, 0x8040_0000),
    ];
    for (g, h) in pairs {
        gpt.map(&mut a, g, h, PTE_R | PTE_W).unwrap();
    }
    for (g, h) in pairs {
        let e = gpt.walk(g).expect("mapping must survive later maps");
        assert_eq!(e.paddr(), h);
        assert_eq!(e.0 & 0x3ff, PTE_R | PTE_W | PTE_V | PTE_U);
    }
}

#[test]
fn guest_page_zero_can_be_mapped() {
    let mut a = boot_allocator();
    let mut gpt = GuestPageTable::new(&mut a);
    gpt.map(&mut a, 0, 0x8050_0000, PTE_R | PTE_X).unwrap();
    let e = gpt.walk(0).unwrap();
    assert_eq!(e.paddr(), 0x8050_0000);
    assert_eq!(e.0 & 0x3ff, PTE_R | PTE_X | PTE_V | PTE_U);
}

#[test]
fn empty_permission_flags_still_get_valid_and_user() {
    let mut a = boot_allocator();
    let mut gpt = GuestPageTable::new(&mut a);
    gpt.map(&mut a, 0x10_0000, 0x8020_0000, 0).unwrap();
    let e = gpt.walk(0x10_0000).unwrap();
    assert_eq!(e.0 & 0x3ff, PTE_V | PTE_U);
}

#[test]
fn walking_an_unmapped_neighbour_faults() {
    let mut a = boot_allocator();
    let mut gpt = GuestPageTable::new(&mut a);
    gpt.map(&mut a, 0x10_0000, 0x8020_0000, PTE_R).unwrap();
    assert!(gpt.walk(0x10_1000).is_none());
    assert!(gpt.walk(0x0f_f000).is_none());
    assert!(gpt.walk(0x8000_0010_0000).is_none());
}

#[test]
fn intermediate_tables_are_allocated_once_and_shared() {
    let mut a = boot_allocator();
    let mut gpt = GuestPageTable::new(&mut a);
    // first mapping grows the root into a full 4-level path
    gpt.map(&mut a, 0x10_0000, 0x8020_0000, PTE_R).unwrap();
    assert_eq!(gpt.tables.len(), 4);
    // a page in the same region reuses every intermediate table
    let next_before = a.next;
    gpt.map(&mut a, 0x10_1000, 0x8020_1000, PTE_R).unwrap();
    assert_eq!(gpt.tables.len(), 4);
    assert_eq!(a.next, next_before);
    // a page in a far region shares only the root
    gpt.map(&mut a, 0x80_0000_0000, 0x8030_0000, PTE_R).unwrap();
    assert_eq!(gpt.tables.len(), 7);
}

#[test]
fn mapping_the_same_guest_page_twice_is_refused_not_replaced() {
    let mut a = boot_allocator();
    let mut gpt = GuestPageTable::new(&mut a);
    let g = 0x10_0000u64;
    gpt.map(&mut a, g, 0x8020_0000, PTE_R | PTE_W | PTE_X).unwrap();
    let tables_before = gpt.tables.len();
    let next_before = a.next;
    let r = gpt.map(&mut a, g, 0x8090_0000, PTE_R);
    assert_eq!(r, Err(HvError::AlreadyMapped));
    // the first mapping is untouched and nothing was allocated
    assert_eq!(gpt.tables.len(), tables_before);
    assert_eq!(a.next, next_before);
    let e = gpt.walk(g).unwrap();
    assert_eq!(e.paddr(), 0x8020_0000);
    assert_eq!(e.0 & 0x3ff, PTE_R | PTE_W | PTE_X | PTE_V | PTE_U);
}
