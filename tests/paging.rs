use kpaging::addr::{
    Entry,
    p4_table_address,
    EntryFlags, Frame, Page, HUGE_PAGE, NO_EXECUTE, PRESENT, RECURSIVE_INDEX, WRITABLE,
};
use kpaging::frames::{FrameAllocator, FrameStack};
use kpaging::mapper::{init, PageMapper};
use kpaging::table::{path_keys, MapperFlush, PageTable, PagingError};

fn page(addr: u64) -> Page {
    Page::from_start_address(addr).unwrap()
}

fn frame(n: u64) -> Frame {
    Frame::from_start_address(n * 4096).unwrap()
}

fn flags(bits: u64) -> EntryFlags {
    EntryFlags::from_bits(bits).unwrap()
}

/// Frames 1..=n; the stack hands out n first.
fn stack(n: u64) -> FrameStack {
    let mut v = Vec::new();
    for i in 1..=n {
        v.push(frame(i));
    }
    FrameStack::new(v)
}

fn mapper(n: u64) -> PageMapper<FrameStack> {
    init(PageTable::new(frame(1000)), stack(n))
}

#[test]
fn page_from_start_address_checks_alignment_and_canonical_form() {
    assert_eq!(Page::from_start_address(0x1000), Some(Page { number: 1 }));
    assert_eq!(Page::from_start_address(0x1001), None);
    assert_eq!(Page::from_start_address(0x8000_0000_0000), None);
    assert_eq!(Page::from_start_address(0x0001_0000_0000_0000), None);
    let high = Page::from_start_address(0xffff_8000_0000_0000).unwrap();
    assert_eq!(high.number, 0x8_0000_0000);
    assert_eq!(high.start_address(), 0xffff_8000_0000_0000);
    assert_eq!(page(0x7fff_ffff_f000).start_address(), 0x7fff_ffff_f000);
}

#[test]
fn frame_from_start_address_checks_alignment_and_width() {
    assert_eq!(Frame::from_start_address(0x5000), Some(Frame { number: 5 }));
    assert_eq!(Frame::from_start_address(0x5008), None);
    assert_eq!(Frame::from_start_address(1 << 52), None);
    assert_eq!(frame(7).start_address(), 0x7000);
}

#[test]
fn entry_flags_refuse_address_bits() {
    assert_eq!(EntryFlags::from_bits(PRESENT | WRITABLE).map(|f| f.bits()), Some(3));
    assert!(EntryFlags::from_bits(PRESENT | NO_EXECUTE).is_some());
    assert!(EntryFlags::from_bits(0x1000).is_none());
    assert!(EntryFlags::from_bits(1 << 51).is_none());
    assert!(flags(PRESENT | HUGE_PAGE).is_huge());
    assert!(flags(PRESENT | WRITABLE).contains(WRITABLE));
}

#[test]
fn recursive_region_is_the_last_top_level_slot() {
    let p = page(0xffff_ff80_0000_0000);
    assert_eq!(p.p4_index(), RECURSIVE_INDEX);
    assert!(p.is_in_recursive_region());
    let q = page(0xffff_ff00_0000_0000);
    assert_eq!(q.p4_index(), 510);
    assert!(!q.is_in_recursive_region());
    assert_eq!(page(0x40_0000_0000).p4_index(), 0);
    assert_eq!(page(0x80_0000_0000).p4_index(), 1);
}

#[test]
fn map_then_translate_gives_the_allocated_frame() {
    let mut m = mapper(10);
    let p = page(0x4000_0000);
    let f = flags(PRESENT | WRITABLE);
    assert_eq!(m.translate(p), None);
    assert_eq!(m.map(p, f), Ok(MapperFlush { page: p }));
    // the leaf frame is taken first, then the three tables
    assert_eq!(m.translate(p), Some(frame(10)));
    assert_eq!(m.allocator().len(), 6);
    assert_eq!(m.map(p, f), Err(PagingError::AlreadyMapped));
    assert_eq!(m.translate(p), Some(frame(10)));
    assert_eq!(m.allocator().len(), 6);
}

#[test]
fn unmap_succeeds_once_and_returns_the_frame() {
    let mut m = mapper(10);
    let p = page(0x20_0000);
    let f = flags(PRESENT);
    m.map(p, f).unwrap();
    let mapped = m.translate(p).unwrap();
    assert_eq!(m.unmap(p), Ok(MapperFlush { page: p }));
    assert_eq!(m.translate(p), None);
    assert_eq!(m.unmap(p), Err(PagingError::NotMapped));
    assert_eq!(m.allocator().len(), 7);
    // the freed frame is free again, and is handed out only once
    let a = page(0x20_1000);
    let b = page(0x20_2000);
    m.map(a, f).unwrap();
    m.map(b, f).unwrap();
    assert_eq!(m.translate(a), Some(mapped));
    assert_ne!(m.translate(a), m.translate(b));
}

#[test]
fn remap_changes_flags_and_keeps_frame() {
    let mut m = mapper(10);
    let p = page(0x1000);
    m.map(p, flags(PRESENT)).unwrap();
    let before = m.translate(p);
    let new_flags = flags(PRESENT | WRITABLE | NO_EXECUTE);
    assert_eq!(m.remap(p, new_flags), Ok(MapperFlush { page: p }));
    assert_eq!(m.translate(p), before);
    let e = m.translate_entry(p).unwrap();
    assert_eq!(e.flags, new_flags);
    assert_eq!(Some(e.frame), before);
    assert_eq!(m.remap(page(0x2000), new_flags), Err(PagingError::NotMapped));
    assert_eq!(m.remap(p, flags(PRESENT | HUGE_PAGE)), Err(PagingError::InvalidFlagsForLevel));
    assert_eq!(m.translate_entry(p).unwrap().flags, new_flags);
}

#[test]
fn translate_is_a_pure_query() {
    let mut m = mapper(10);
    let p = page(0x3000);
    m.map(p, flags(PRESENT)).unwrap();
    let first = m.translate(p);
    for _ in 0..5 {
        assert_eq!(m.translate(p), first);
        assert_eq!(m.translate(page(0x5000)), None);
    }
    assert_eq!(m.allocator().len(), 6);
}

#[test]
fn map_unmap_map_round_trip() {
    let mut m = mapper(5);
    let p = page(0x7000);
    let f = flags(PRESENT | WRITABLE);
    m.map(p, f).unwrap();
    m.unmap(p).unwrap();
    assert_eq!(m.allocator().len(), 2);
    assert_eq!(m.map(p, f), Ok(MapperFlush { page: p }));
    assert!(m.translate(p).is_some());
    assert_eq!(m.translate_entry(p).unwrap().flags, f);
}

#[test]
fn batch_mapping_matches_single_mapping() {
    let pages: Vec<Page> = (0..6).map(|i| page(0x40_0000 + i * 0x1000)).collect();
    let f = flags(PRESENT | WRITABLE);

    let mut single = mapper(20);
    for p in &pages {
        single.map(*p, f).unwrap();
    }

    let mut locked = mapper(20).lock();
    for p in &pages {
        assert_eq!(locked.map(*p, f), Ok(MapperFlush { page: *p }));
    }
    let batch = locked.unlock();

    for p in &pages {
        assert!(single.translate(*p).is_some());
        assert_eq!(batch.translate_entry(*p), single.translate_entry(*p));
    }
    assert_eq!(batch.allocator().len(), single.allocator().len());
}

#[test]
fn exhausted_allocator_leaves_no_translation() {
    let p = page(0x9000);
    let f = flags(PRESENT);

    let mut locked = init(PageTable::new(frame(1000)), FrameStack::empty()).lock();
    assert_eq!(locked.map(p, f), Err(PagingError::FrameAllocationFailed));
    assert_eq!(locked.translate(p), None);

    // two frames: the leaf is served, the tables on the path are not, and
    // everything taken goes back
    let mut locked = mapper(2).lock();
    assert_eq!(locked.map(p, f), Err(PagingError::FrameAllocationFailed));
    assert_eq!(locked.translate(p), None);
    assert_eq!(locked.translate_entry(p), None);
    assert_eq!(locked.allocator().len(), 2);
    assert_eq!(locked.table().missing_tables(p), 3);
    assert_eq!(locked.table().table_frame(4, 0), None);
}

#[test]
fn recursive_slot_is_never_mapped() {
    let mut m = mapper(10);
    let p = page(0xffff_ff80_0000_0000);
    let f = flags(PRESENT);
    assert_eq!(m.map(p, f), Err(PagingError::RecursiveSlot));
    assert_eq!(m.map_to(p, frame(50), f), Err(PagingError::RecursiveSlot));
    assert_eq!(m.unmap(p), Err(PagingError::RecursiveSlot));
    assert_eq!(m.remap(p, f), Err(PagingError::RecursiveSlot));
    assert_eq!(m.translate(p), None);
    assert_eq!(m.allocator().len(), 10);
}

#[test]
fn huge_flags_are_refused_for_small_pages() {
    let mut m = mapper(10);
    let p = page(0xa000);
    assert_eq!(m.map(p, flags(PRESENT | HUGE_PAGE)), Err(PagingError::InvalidFlagsForLevel));
    assert_eq!(
        m.map_to(p, frame(50), EntryFlags { bits: 0x1000 }),
        Err(PagingError::InvalidFlagsForLevel)
    );
    assert_eq!(m.translate(p), None);
    assert_eq!(m.allocator().len(), 10);
}

#[test]
fn map_to_uses_the_given_frame_and_shares_tables() {
    let mut m = mapper(10);
    let f = flags(PRESENT);
    let a = page(0x1_0000);
    let b = page(0x1_1000);
    assert_eq!(m.map_to(a, frame(77), f), Ok(MapperFlush { page: a }));
    assert_eq!(m.translate(a), Some(frame(77)));
    assert_eq!(m.allocator().len(), 7);
    assert_eq!(m.table().missing_tables(b), 0);
    assert_eq!(m.map_to(b, frame(78), f), Ok(MapperFlush { page: b }));
    assert_eq!(m.allocator().len(), 7);
    assert_eq!(m.map_to(b, frame(79), f), Err(PagingError::AlreadyMapped));
    assert_eq!(m.translate(b), Some(frame(78)));
    // a page under another top-level slot needs three new tables
    assert_eq!(m.table().missing_tables(page(0x80_0000_0000)), 3);
    // a page under the same level-3 table but another level-2 entry needs one
    assert_eq!(m.table().missing_tables(page(0x20_0000)), 1);
}

#[test]
fn frame_stack_keeps_each_frame_once() {
    let mut s = FrameStack::new(vec![frame(1), frame(1), frame(2)]);
    assert_eq!(s.len(), 2);
    s.deallocate_frame(frame(2));
    assert_eq!(s.len(), 2);
    s.deallocate_frame(frame(3));
    assert_eq!(s.allocate_frame(), Some(frame(3)));
    assert_eq!(s.allocate_frame(), Some(frame(2)));
    assert_eq!(s.allocate_frame(), Some(frame(1)));
    assert_eq!(s.allocate_frame(), None);
    assert_eq!(FrameStack::empty().len(), 0);
}

#[test]
fn page_table_starts_empty() {
    let t = PageTable::new(frame(42));
    assert_eq!(t.root(), frame(42));
    assert_eq!(t.translate(page(0x1000)), None);
    assert_eq!(t.missing_tables(page(0x1000)), 3);
}

#[test]
fn flush_token_names_the_page() {
    let mut m = mapper(10);
    let p = page(0xb000);
    let flush = m.map(p, flags(PRESENT)).unwrap();
    assert_eq!(flush.page(), p);
}

#[test]
fn recursive_slot_reaches_each_table_on_the_path() {
    assert_eq!(p4_table_address(), 0xffff_ffff_ffff_f000);
    let p = page(0x4020_3000);
    assert_eq!((p.p4_index(), p.p3_index(), p.p2_index(), p.p1_index()), (0, 1, 1, 3));
    assert_eq!(p.p3_table_address(), 0xffff_ffff_ffe0_0000);
    assert_eq!(p.p2_table_address(), 0xffff_ffff_c000_1000);
    assert_eq!(p.p1_table_address(), 0xffff_ff80_0020_1000);
    assert_eq!(page(0).p1_table_address(), 0xffff_ff80_0000_0000);
}

/// A tree recorded from a live one: a table on each level down to the 2 MiB
/// region at 0x20_0000, one 4 KiB translation in it, and a 2 MiB huge page at
/// 0x40_0000.
fn recorded() -> PageTable {
    let mut t = PageTable::new(frame(1000));
    assert!(t.record_table(4, 0, frame(900)));
    assert!(t.record_table(3, 0, frame(901)));
    assert!(t.record_table(2, 1, frame(902)));
    assert!(t.record_translation(page(0x20_3000), Entry { frame: frame(500), flags: flags(PRESENT) }));
    assert!(t.record_huge_page(2, 2, Entry { frame: frame(0x400), flags: flags(PRESENT | HUGE_PAGE) }));
    t
}

#[test]
fn record_refuses_what_the_tree_cannot_hold() {
    let mut t = recorded();
    assert!(!t.record_table(4, RECURSIVE_INDEX, frame(950)));
    assert!(!t.record_table(4, 0, frame(951)));
    assert!(!t.record_table(3, 1 << 9, frame(952)));
    assert!(!t.record_table(5, 0, frame(953)));
    assert!(!t.record_huge_page(2, 3, Entry { frame: frame(0x600), flags: flags(PRESENT) }));
    assert!(!t.record_translation(page(0x20_3000), Entry { frame: frame(501), flags: flags(PRESENT) }));
    assert!(!t.record_translation(page(0x60_0000), Entry { frame: frame(502), flags: flags(PRESENT) }));
    assert_eq!(t.translate(page(0x20_3000)), Some(frame(500)));
    assert_eq!(t.translate(page(0x60_0000)), None);
}

#[test]
fn init_starts_from_the_translations_in_force() {
    let mut m = init(recorded(), stack(10));
    let p = page(0x20_3000);
    assert_eq!(m.translate(p), Some(frame(500)));
    assert_eq!(m.root(), frame(1000));
    assert_eq!(m.map(p, flags(PRESENT)), Err(PagingError::AlreadyMapped));
    // the tables on the path exist, so only the leaf frame is taken
    assert_eq!(m.map(page(0x20_4000), flags(PRESENT)), Ok(MapperFlush { page: page(0x20_4000) }));
    assert_eq!(m.allocator().len(), 9);
    assert_eq!(m.unmap(p), Ok(MapperFlush { page: p }));
    assert_eq!(m.allocator().len(), 10);
}

#[test]
fn huge_parent_is_reported() {
    let mut m = init(recorded(), stack(10));
    let inside = page(0x40_5000);
    let f = flags(PRESENT);
    assert!(m.table().has_huge_parent(inside));
    assert_eq!(m.map(inside, f), Err(PagingError::ParentEntryHugePage));
    assert_eq!(m.map_to(inside, frame(77), f), Err(PagingError::ParentEntryHugePage));
    assert_eq!(m.unmap(inside), Err(PagingError::ParentEntryHugePage));
    assert_eq!(m.remap(inside, f), Err(PagingError::ParentEntryHugePage));
    assert_eq!(m.translate(inside), None);
    assert_eq!(m.allocator().len(), 10);
}

#[test]
fn map_to_with_existing_tables_leaves_the_allocator_alone() {
    let mut m = init(recorded(), stack(4));
    let p = page(0x20_8000);
    assert_eq!(m.map_to(p, frame(88), flags(PRESENT)), Ok(MapperFlush { page: p }));
    assert_eq!(m.allocator().len(), 4);
    assert_eq!(m.root(), frame(1000));
}

#[test]
fn batch_maps_take_distinct_frames() {
    let mut locked = mapper(10).lock();
    let f = flags(PRESENT);
    let mut seen = Vec::new();
    for i in 0..4u64 {
        let p = page(0x1000 * (i + 1));
        assert_eq!(locked.map(p, f), Ok(MapperFlush { page: p }));
        let got = locked.translate(p).unwrap();
        assert!(!seen.contains(&got));
        seen.push(got);
    }
    assert_eq!(locked.allocator().len(), 3);
}

#[test]
fn map_reports_the_tables_it_made() {
    let mut m = mapper(10);
    let p = page(0x80_4020_3000);
    let (k4, k3, k2) = path_keys(p);
    assert_eq!((k4, k3, k2), (1, 0x201, 0x40201));
    assert_eq!(m.table().table_frame(4, k4), None);
    m.map(p, flags(PRESENT)).unwrap();
    // the leaf takes frame 10, then the tables from the top down
    assert_eq!(m.table().table_frame(4, k4), Some(frame(9)));
    assert_eq!(m.table().table_frame(3, k3), Some(frame(8)));
    assert_eq!(m.table().table_frame(2, k2), Some(frame(7)));
    assert_eq!(m.table().table_frame(1, p.number), None);
    assert_eq!(m.table().table_frame(2, k2 + 1), None);
}

#[test]
fn map_to_failure_gives_back_table_frames() {
    let mut locked = init(recorded(), stack(1)).lock();
    // a page under a new level-3 entry needs two tables; one frame is free
    let p = page(0x4000_0000);
    assert_eq!(locked.table().missing_tables(p), 2);
    assert_eq!(locked.map(p, flags(PRESENT)), Err(PagingError::FrameAllocationFailed));
    assert_eq!(locked.allocator().len(), 1);
    assert_eq!(locked.table().missing_tables(p), 2);
    assert_eq!(locked.translate(p), None);
}

#[test]
fn used_frames_are_known() {
    let mut m = init(recorded(), stack(10));
    assert!(m.table().is_frame_used(frame(900)));
    assert!(m.table().is_frame_used(frame(500)));
    assert!(!m.table().is_frame_used(frame(10)));
    assert!(m.allocator().contains(frame(10)));
    let p = page(0x20_5000);
    m.map(p, flags(PRESENT)).unwrap();
    assert!(m.table().is_frame_used(frame(10)));
    assert!(!m.allocator().contains(frame(10)));
    m.unmap(p).unwrap();
    assert!(!m.table().is_frame_used(frame(10)));
    assert!(m.allocator().contains(frame(10)));
}
