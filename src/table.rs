//! The page-table tree: its translations, and the operations that change them.
use std::collections::{HashMap, HashSet};
use vstd::prelude::*;

use crate::addr::{Entry, EntryFlags, Frame, Page, ADDRESS_BITS, RECURSIVE_INDEX};
use crate::frames::FrameAllocator;
use vstd::arithmetic::div_mod::lemma_div_denominator;

verus! {

broadcast use vstd::std_specs::hash::group_hash_axioms;

/// Why a mapping operation was refused. A refused operation changes no translation.
#[derive(Clone, Copy, Debug, PartialEq, Eq, Structural)]
pub enum PagingError {
    /// The page already has a translation.
    AlreadyMapped,
    /// The page has no translation.
    NotMapped,
    /// The frame allocator ran out while a table on the page's path had to be created.
    FrameAllocationFailed,
    /// The flags cannot stand in a 4 KiB leaf entry.
    InvalidFlagsForLevel,
    /// The page lies in the region of the recursive slot, which maps the tree itself.
    RecursiveSlot,
    /// An entry on the page's path already maps a larger page.
    ParentEntryHugePage,
}

/// A pending invalidation: the cached translation of `page` is stale until it is flushed.
#[derive(Clone, Copy, Debug, PartialEq, Eq, Structural)]
pub struct MapperFlush {
    pub page: Page,
}

impl MapperFlush {
    /// The page whose cached translation must be invalidated.
    pub fn page(&self) -> (r: Page)
        ensures
            r == self.page,
    {
        self.page
    }
}

/// Key of the level-2 entry on the path to page number `n`.
pub open spec fn l2_key(n: u64) -> u64 {
    n / 512
}

/// Key of the level-3 entry on the path to page number `n`.
pub open spec fn l3_key(n: u64) -> u64 {
    l2_key(n) / 512
}

/// Key of the top-level entry on the path to page number `n`.
pub open spec fn l4_key(n: u64) -> u64 {
    l3_key(n) / 512
}

/// Whether the flags can stand in a 4 KiB leaf entry.
pub open spec fn leaf_flags_ok(flags: EntryFlags) -> bool {
    flags.wf() && !flags.huge()
}

/// What `map_to` returns, given the translations, whether a huge page lies on
/// the page's path, the number of tables that the
/// page's path still lacks, and the number of free frames.
pub open spec fn map_outcome(
    v: Map<u64, Entry>,
    page: Page,
    flags: EntryFlags,
    huge: bool,
    needed: nat,
    available: nat,
) -> Result<(), PagingError> {
    if page.in_recursive_region() {
        Err(PagingError::RecursiveSlot)
    } else if !leaf_flags_ok(flags) {
        Err(PagingError::InvalidFlagsForLevel)
    } else if huge {
        Err(PagingError::ParentEntryHugePage)
    } else if v.contains_key(page.number) {
        Err(PagingError::AlreadyMapped)
    } else if available < needed {
        Err(PagingError::FrameAllocationFailed)
    } else {
        Ok(())
    }
}

/// What `unmap` returns, given the translations and whether a huge page lies
/// on the page's path.
pub open spec fn unmap_outcome(v: Map<u64, Entry>, page: Page, huge: bool) -> Result<
    (),
    PagingError,
> {
    if page.in_recursive_region() {
        Err(PagingError::RecursiveSlot)
    } else if huge {
        Err(PagingError::ParentEntryHugePage)
    } else if !v.contains_key(page.number) {
        Err(PagingError::NotMapped)
    } else {
        Ok(())
    }
}

/// What `update_flags` returns, given the translations and whether a huge page
/// lies on the page's path.
pub open spec fn update_outcome(
    v: Map<u64, Entry>,
    page: Page,
    flags: EntryFlags,
    huge: bool,
) -> Result<(), PagingError> {
    if page.in_recursive_region() {
        Err(PagingError::RecursiveSlot)
    } else if !leaf_flags_ok(flags) {
        Err(PagingError::InvalidFlagsForLevel)
    } else if huge {
        Err(PagingError::ParentEntryHugePage)
    } else if !v.contains_key(page.number) {
        Err(PagingError::NotMapped)
    } else {
        Ok(())
    }
}

/// The translation of `page`, if it has one.
pub open spec fn entry_of(v: Map<u64, Entry>, page: Page) -> Option<Entry> {
    if v.contains_key(page.number) {
        Some(v[page.number])
    } else {
        None
    }
}

/// The frame that `page` translates to, if any.
pub open spec fn frame_of(v: Map<u64, Entry>, page: Page) -> Option<Frame> {
    if v.contains_key(page.number) {
        Some(v[page.number].frame)
    } else {
        None
    }
}

/// After a map of `page` took from `free_before`, leaving `free_after`: every
/// table on the page's path exists, each table that was there keeps its frame,
/// and each new table's frame was free before and is free no longer. These new
/// entries, with the leaf, are what the live tree has to be given.
pub open spec fn tables_made(
    before: PageTable,
    after: PageTable,
    page: Page,
    free_before: Set<Frame>,
    free_after: Set<Frame>,
) -> bool {
    &&& after.tables_at(4).contains_key(l4_key(page.number))
    &&& after.tables_at(3).contains_key(l3_key(page.number))
    &&& after.tables_at(2).contains_key(l2_key(page.number))
    &&& forall|level: u64, k: u64| #[trigger]
        after.tables_at(level).contains_key(k) ==> if before.tables_at(level).contains_key(k) {
            after.tables_at(level)[k] == before.tables_at(level)[k]
        } else {
            &&& free_before.contains(after.tables_at(level)[k])
            &&& !free_after.contains(after.tables_at(level)[k])
        }
}

/// The keys of the entries on the path to page number `n`, at levels 4, 3 and 2.
pub fn path_keys(page: Page) -> (r: (u64, u64, u64))
    ensures
        r == (l4_key(page.number), l3_key(page.number), l2_key(page.number)),
{
    let k2 = page.number / 512;
    let k3 = k2 / 512;
    (k3 / 512, k3, k2)
}

/// A 4-level x86-64 page-table tree whose top-level table maps itself through the
/// recursive slot.
///
/// Each level is held as a map from the prefix of the page number that selects
/// an entry at that level to what the entry holds: the frame of the next table,
/// or, at the leaves, the translation. Levels 3 and 2 may instead hold a huge
/// page (1 GiB or 2 MiB), which such a tree only records as it finds it.
pub struct PageTable {
    root: Frame,
    l4: HashMap<u64, Frame>,
    l3: HashMap<u64, Frame>,
    l2: HashMap<u64, Frame>,
    l1: HashMap<u64, Entry>,
    huge3: HashMap<u64, Entry>,
    huge2: HashMap<u64, Entry>,
    /// Numbers of the frames that hold a translation or a table.
    used: HashSet<u64>,
}

impl PageTable {
    /// The translations, keyed by page number.
    pub closed spec fn view(&self) -> Map<u64, Entry> {
        self.l1@
    }

    pub closed spec fn root_spec(&self) -> Frame {
        self.root
    }

    /// Every entry hangs below a present entry of the level above, and no leaf
    /// lies in the recursive slot's region.
    pub closed spec fn wf(&self) -> bool {
        &&& forall|k: u64| #[trigger] self.l1@.contains_key(k) ==> self.l2@.contains_key(k / 512)
        &&& forall|k: u64| #[trigger] self.l2@.contains_key(k) ==> self.l3@.contains_key(k / 512)
        &&& forall|k: u64| #[trigger] self.l3@.contains_key(k) ==> self.l4@.contains_key(k / 512)
        &&& forall|k: u64| #[trigger]
            self.l1@.contains_key(k) ==> !(Page { number: k }).in_recursive_region()
        &&& !self.l4@.contains_key(RECURSIVE_INDEX)
        &&& forall|f: Frame|
            #![trigger self.uses_frame(f)]
            #![trigger self.used@.contains(f.number)]
            self.uses_frame(f) <==> self.used@.contains(f.number)
        &&& forall|k: u64| #[trigger]
            self.huge3@.contains_key(k) ==> !self.l3@.contains_key(k) && self.l4@.contains_key(
                k / 512,
            )
        &&& forall|k: u64| #[trigger]
            self.huge2@.contains_key(k) ==> !self.l2@.contains_key(k) && self.l3@.contains_key(
                k / 512,
            )
    }

    /// The tables at `level` (4, 3 or 2): for each key, the frame of the table
    /// that the entry with that key points to. Other levels hold none.
    pub closed spec fn tables_at(&self, level: u64) -> Map<u64, Frame> {
        if level == 4 {
            self.l4@
        } else if level == 3 {
            self.l3@
        } else if level == 2 {
            self.l2@
        } else {
            Map::empty()
        }
    }

    /// Whether an entry on the path to `page` maps a huge page.
    pub closed spec fn huge_parent(&self, page: Page) -> bool {
        self.huge3@.contains_key(l3_key(page.number)) || self.huge2@.contains_key(
            l2_key(page.number),
        )
    }

    /// No frame of `free` holds a translation or a table, no two translations
    /// share a frame, and no translation's frame is a table's.
    pub closed spec fn frames_apart(&self, free: Set<Frame>) -> bool {
        &&& forall|k: u64| #[trigger] self.l1@.contains_key(k) ==> !free.contains(self.l1@[k].frame)
        &&& forall|k: u64| #[trigger] self.l2@.contains_key(k) ==> !free.contains(self.l2@[k])
        &&& forall|k: u64| #[trigger] self.l3@.contains_key(k) ==> !free.contains(self.l3@[k])
        &&& forall|k: u64| #[trigger] self.l4@.contains_key(k) ==> !free.contains(self.l4@[k])
        &&& forall|a: u64, b: u64|
            #[trigger] self.l1@.contains_key(a) && #[trigger] self.l1@.contains_key(b) && a != b
                ==> self.l1@[a].frame != self.l1@[b].frame
        &&& forall|a: u64, b: u64|
            #[trigger] self.l1@.contains_key(a) && #[trigger] self.l2@.contains_key(b)
                ==> self.l1@[a].frame != self.l2@[b]
        &&& forall|a: u64, b: u64|
            #[trigger] self.l1@.contains_key(a) && #[trigger] self.l3@.contains_key(b)
                ==> self.l1@[a].frame != self.l3@[b]
        &&& forall|a: u64, b: u64|
            #[trigger] self.l1@.contains_key(a) && #[trigger] self.l4@.contains_key(b)
                ==> self.l1@[a].frame != self.l4@[b]
    }

    /// Whether `f` holds a translation or a table of this tree.
    pub closed spec fn uses_frame(&self, f: Frame) -> bool {
        ||| exists|k: u64| self.l1@.contains_key(k) && self.l1@[k].frame == f
        ||| exists|k: u64| self.l2@.contains_key(k) && self.l2@[k] == f
        ||| exists|k: u64| self.l3@.contains_key(k) && self.l3@[k] == f
        ||| exists|k: u64| self.l4@.contains_key(k) && self.l4@[k] == f
    }

    /// Where every entry of this tree that holds `g` is in `other` too, with the
    /// same frame, `other` uses `g` as well.
    proof fn lemma_uses_frame_carried(&self, other: &PageTable, g: Frame)
        requires
            self.uses_frame(g),
            forall|k: u64|
                self.l1@.contains_key(k) && #[trigger] self.l1@[k].frame == g ==> other.l1@.contains_key(k)
                    && other.l1@[k].frame == g,
            forall|k: u64|
                self.l2@.contains_key(k) && #[trigger] self.l2@[k] == g ==> other.l2@.contains_key(k)
                    && other.l2@[k] == g,
            forall|k: u64|
                self.l3@.contains_key(k) && #[trigger] self.l3@[k] == g ==> other.l3@.contains_key(k)
                    && other.l3@[k] == g,
            forall|k: u64|
                self.l4@.contains_key(k) && #[trigger] self.l4@[k] == g ==> other.l4@.contains_key(k)
                    && other.l4@[k] == g,
        ensures
            other.uses_frame(g),
    {
        if exists|k: u64| self.l1@.contains_key(k) && self.l1@[k].frame == g {
            let k = choose|k: u64| self.l1@.contains_key(k) && self.l1@[k].frame == g;
            assert(other.l1@.contains_key(k) && other.l1@[k].frame == g);
        } else if exists|k: u64| self.l2@.contains_key(k) && self.l2@[k] == g {
            let k = choose|k: u64| self.l2@.contains_key(k) && self.l2@[k] == g;
            assert(other.l2@.contains_key(k) && other.l2@[k] == g);
        } else if exists|k: u64| self.l3@.contains_key(k) && self.l3@[k] == g {
            let k = choose|k: u64| self.l3@.contains_key(k) && self.l3@[k] == g;
            assert(other.l3@.contains_key(k) && other.l3@[k] == g);
        } else {
            let k = choose|k: u64| self.l4@.contains_key(k) && self.l4@[k] == g;
            assert(other.l4@.contains_key(k) && other.l4@[k] == g);
        }
    }

    /// No page needs more than three new tables.
    pub proof fn lemma_tables_needed_bounded(&self, page: Page)
        ensures
            self.tables_needed(page) <= 3,
    {
    }

    /// Frames kept apart from a set stay apart from any part of it.
    pub proof fn lemma_frames_apart_subset(&self, free: Set<Frame>, part: Set<Frame>)
        requires
            self.frames_apart(free),
            part.subset_of(free),
        ensures
            self.frames_apart(part),
    {
    }

    /// A frame the tree does not use can join a set kept apart from the tree.
    pub proof fn lemma_frames_apart_insert(&self, free: Set<Frame>, f: Frame)
        requires
            self.frames_apart(free),
            !self.uses_frame(f),
        ensures
            self.frames_apart(free.insert(f)),
    {
        assert forall|k: u64| #[trigger] self.l1@.contains_key(k) implies self.l1@[k].frame != f by {
            if self.l1@[k].frame == f {
                assert(self.uses_frame(f));
            }
        }
        assert forall|k: u64| #[trigger] self.l2@.contains_key(k) implies self.l2@[k] != f by {
            if self.l2@[k] == f {
                assert(self.uses_frame(f));
            }
        }
        assert forall|k: u64| #[trigger] self.l3@.contains_key(k) implies self.l3@[k] != f by {
            if self.l3@[k] == f {
                assert(self.uses_frame(f));
            }
        }
        assert forall|k: u64| #[trigger] self.l4@.contains_key(k) implies self.l4@[k] != f by {
            if self.l4@[k] == f {
                assert(self.uses_frame(f));
            }
        }
    }

    /// A frame that the allocator holds is not in use by the tree.
    pub proof fn lemma_free_frame_unused(&self, free: Set<Frame>, f: Frame)
        requires
            self.frames_apart(free),
            free.contains(f),
        ensures
            !self.uses_frame(f),
            forall|k: u64| #[trigger] self.view().contains_key(k) ==> self.view()[k].frame != f,
    {
    }

    /// How many tables on the path to `page` are still missing.
    pub closed spec fn tables_needed(&self, page: Page) -> nat {
        let n = page.number;
        if self.l2@.contains_key(l2_key(n)) {
            0
        } else if self.l3@.contains_key(l3_key(n)) {
            1
        } else if self.l4@.contains_key(l4_key(n)) {
            2
        } else {
            3
        }
    }

    /// A tree rooted at `root` with no translation yet.
    pub fn new(root: Frame) -> (r: PageTable)
        ensures
            r.wf(),
            r.view() == Map::<u64, Entry>::empty(),
            r.root_spec() == root,
            forall|p: Page| #[trigger] r.tables_needed(p) == 3,
            forall|s: Set<Frame>| #[trigger] r.frames_apart(s),
            forall|p: Page| !#[trigger] r.huge_parent(p),
    {
        PageTable {
            root,
            l4: HashMap::new(),
            l3: HashMap::new(),
            l2: HashMap::new(),
            l1: HashMap::new(),
            huge3: HashMap::new(),
            huge2: HashMap::new(),
            used: HashSet::new(),
        }
    }

    /// The frame of the top-level table.
    pub fn root(&self) -> (r: Frame)
        ensures
            r == self.root_spec(),
    {
        self.root
    }

    /// Whether `f` holds a translation or a table of this tree.
    pub fn is_frame_used(&self, f: Frame) -> (r: bool)
        requires
            self.wf(),
        ensures
            r == self.uses_frame(f),
    {
        self.used.contains(&f.number)
    }

    /// The frame of the table that the entry under `key` at `level` points to.
    pub fn table_frame(&self, level: u64, key: u64) -> (r: Option<Frame>)
        ensures
            r == (if self.tables_at(level).contains_key(key) {
                Some(self.tables_at(level)[key])
            } else {
                None
            }),
    {
        let found = if level == 4 {
            self.l4.get(&key)
        } else if level == 3 {
            self.l3.get(&key)
        } else if level == 2 {
            self.l2.get(&key)
        } else {
            None
        };
        match found {
            Some(f) => Some(*f),
            None => None,
        }
    }

    /// Whether an entry on the path to `page` maps a huge page.
    pub fn has_huge_parent(&self, page: Page) -> (r: bool)
        ensures
            r == self.huge_parent(page),
    {
        let k2 = page.number / 512;
        let k3 = k2 / 512;
        self.huge3.contains_key(&k3) || self.huge2.contains_key(&k2)
    }

    /// Whether the live tree's entry at `level` (4, 3 or 2) under `key` can be
    /// recorded: the key is in range and is not the recursive slot, the entry
    /// above it is a table, and the slot is still empty.
    pub closed spec fn slot_open(&self, level: u64, key: u64) -> bool {
        if level == 4 {
            key < RECURSIVE_INDEX && !self.l4@.contains_key(key)
        } else if level == 3 {
            key < 0x4_0000 && self.l4@.contains_key(key / 512) && !self.l3@.contains_key(key)
                && !self.huge3@.contains_key(key)
        } else if level == 2 {
            key < 0x800_0000 && self.l3@.contains_key(key / 512) && !self.l2@.contains_key(key)
                && !self.huge2@.contains_key(key)
        } else {
            false
        }
    }

    fn is_slot_open(&self, level: u64, key: u64) -> (r: bool)
        ensures
            r == self.slot_open(level, key),
    {
        if level == 4 {
            key < RECURSIVE_INDEX && !self.l4.contains_key(&key)
        } else if level == 3 {
            key < 0x4_0000 && self.l4.contains_key(&(key / 512)) && !self.l3.contains_key(&key)
                && !self.huge3.contains_key(&key)
        } else if level == 2 {
            key < 0x800_0000 && self.l3.contains_key(&(key / 512)) && !self.l2.contains_key(&key)
                && !self.huge2.contains_key(&key)
        } else {
            false
        }
    }

    /// Records a table that the live tree already holds: the entry under `key` at
    /// `level` points to a table in `frame`. Returns whether the slot was open;
    /// where it was not, nothing changes.
    pub fn record_table(&mut self, level: u64, key: u64, frame: Frame) -> (r: bool)
        requires
            old(self).wf(),
            !old(self).uses_frame(frame),
        ensures
            final(self).wf(),
            r == old(self).slot_open(level, key),
            !r ==> *final(self) == *old(self),
            final(self).view() == old(self).view(),
            final(self).root_spec() == old(self).root_spec(),
            forall|s: Set<Frame>| #[trigger]
                old(self).frames_apart(s) && !s.contains(frame) ==> final(self).frames_apart(s),
    {
        if !self.is_slot_open(level, key) {
            return false;
        }
        let ghost before = *self;
        if level == 4 {
            self.l4.insert(key, frame);
        } else if level == 3 {
            self.l3.insert(key, frame);
        } else {
            self.l2.insert(key, frame);
        }
        self.used.insert(frame.number);
        proof {
            assert forall|g: Frame| self.uses_frame(g) <==> self.used@.contains(g.number) by {
                if g == frame {
                    if level == 4 {
                        assert(self.l4@.contains_key(key) && self.l4@[key] == g);
                    } else if level == 3 {
                        assert(self.l3@.contains_key(key) && self.l3@[key] == g);
                    } else {
                        assert(self.l2@.contains_key(key) && self.l2@[key] == g);
                    }
                } else if self.uses_frame(g) {
                    self.lemma_uses_frame_carried(&before, g);
                } else if before.uses_frame(g) {
                    before.lemma_uses_frame_carried(self, g);
                }
            }
        }
        proof {
            assert forall|s: Set<Frame>| #[trigger]
                old(self).frames_apart(s) && !s.contains(frame) implies self.frames_apart(s) by {
                assert forall|a: u64| #[trigger] self.l1@.contains_key(a) implies self.l1@[a].frame
                    != frame by {
                    assert(old(self).l1@.contains_key(a));
                    if self.l1@[a].frame == frame {
                        assert(old(self).uses_frame(frame));
                    }
                }
            }
        }
        true
    }

    /// Records a huge page that the live tree already maps: the entry under `key`
    /// at `level` (3 for 1 GiB, 2 for 2 MiB) holds `entry`, whose flags mark it
    /// huge. Returns whether the slot was open and the flags huge; where not,
    /// nothing changes.
    pub fn record_huge_page(&mut self, level: u64, key: u64, entry: Entry) -> (r: bool)
        requires
            old(self).wf(),
        ensures
            final(self).wf(),
            r == ((level == 3 || level == 2) && old(self).slot_open(level, key) && entry.flags.wf()
                && entry.flags.huge()),
            !r ==> *final(self) == *old(self),
            final(self).view() == old(self).view(),
            final(self).root_spec() == old(self).root_spec(),
            forall|s: Set<Frame>| #[trigger] old(self).frames_apart(s) ==> final(self).frames_apart(s),
    {
        if !(level == 3 || level == 2) || !self.is_slot_open(level, key) || entry.flags.bits()
            & ADDRESS_BITS != 0 || !entry.flags.is_huge() {
            return false;
        }
        let ghost before = *self;
        if level == 3 {
            self.huge3.insert(key, entry);
        } else {
            self.huge2.insert(key, entry);
        }
        proof {
            assert forall|g: Frame| self.uses_frame(g) <==> self.used@.contains(g.number) by {
                if self.uses_frame(g) {
                    self.lemma_uses_frame_carried(&before, g);
                }
                if before.uses_frame(g) {
                    before.lemma_uses_frame_carried(self, g);
                }
            }
        }
        true
    }

    /// Records a 4 KiB translation that the live tree already holds. It is taken
    /// exactly when the page lies outside the recursive slot's region, the flags
    /// fit a leaf, every table on the path is recorded, no huge page covers the
    /// page and it has no translation yet; otherwise nothing changes.
    pub fn record_translation(&mut self, page: Page, entry: Entry) -> (r: bool)
        requires
            old(self).wf(),
            !old(self).uses_frame(entry.frame),
        ensures
            final(self).wf(),
            r == (!page.in_recursive_region() && leaf_flags_ok(entry.flags)
                && !old(self).huge_parent(page) && old(self).tables_needed(page) == 0
                && !old(self).view().contains_key(page.number)),
            r ==> final(self).view() == old(self).view().insert(page.number, entry),
            !r ==> *final(self) == *old(self),
            final(self).root_spec() == old(self).root_spec(),
            forall|p: Page| #[trigger] final(self).tables_needed(p) == old(self).tables_needed(p),
            forall|p: Page| #[trigger] final(self).huge_parent(p) == old(self).huge_parent(p),
            forall|s: Set<Frame>| #[trigger]
                old(self).frames_apart(s) && !s.contains(entry.frame)
                    ==> final(self).frames_apart(s),
    {
        if page.is_in_recursive_region() || entry.flags.bits() & ADDRESS_BITS != 0
            || entry.flags.is_huge() || self.has_huge_parent(page) || self.missing_tables(page)
            != 0 || self.l1.contains_key(&page.number) {
            return false;
        }
        let ghost before = *self;
        self.l1.insert(page.number, entry);
        self.used.insert(entry.frame.number);
        proof {
            assert forall|g: Frame| self.uses_frame(g) <==> self.used@.contains(g.number) by {
                if g == entry.frame {
                    assert(self.l1@.contains_key(page.number) && self.l1@[page.number].frame == g);
                } else {
                    if self.uses_frame(g) {
                        self.lemma_uses_frame_carried(&before, g);
                    }
                    if before.uses_frame(g) {
                        before.lemma_uses_frame_carried(self, g);
                    }
                }
            }
        }
        proof {
            assert forall|s: Set<Frame>| #[trigger]
                old(self).frames_apart(s) && !s.contains(entry.frame)
                    implies self.frames_apart(s) by {
                assert forall|a: u64, b: u64|
                    #[trigger] self.l1@.contains_key(a) && #[trigger] self.l1@.contains_key(b) && a
                        != b implies self.l1@[a].frame != self.l1@[b].frame by {
                    if a == page.number && self.l1@[b].frame == entry.frame {
                        assert(old(self).l1@.contains_key(b));
                        assert(old(self).uses_frame(entry.frame));
                    }
                    if b == page.number && self.l1@[a].frame == entry.frame {
                        assert(old(self).l1@.contains_key(a));
                        assert(old(self).uses_frame(entry.frame));
                    }
                }
                assert forall|a: u64, b: u64|
                    #[trigger] self.l1@.contains_key(a) && #[trigger] self.l2@.contains_key(b)
                        implies self.l1@[a].frame != self.l2@[b] by {
                    if a == page.number && self.l2@[b] == entry.frame {
                        assert(old(self).uses_frame(entry.frame));
                    }
                }
                assert forall|a: u64, b: u64|
                    #[trigger] self.l1@.contains_key(a) && #[trigger] self.l3@.contains_key(b)
                        implies self.l1@[a].frame != self.l3@[b] by {
                    if a == page.number && self.l3@[b] == entry.frame {
                        assert(old(self).uses_frame(entry.frame));
                    }
                }
                assert forall|a: u64, b: u64|
                    #[trigger] self.l1@.contains_key(a) && #[trigger] self.l4@.contains_key(b)
                        implies self.l1@[a].frame != self.l4@[b] by {
                    if a == page.number && self.l4@[b] == entry.frame {
                        assert(old(self).uses_frame(entry.frame));
                    }
                }
            }
        }
        true
    }

    /// How many tables on the path to `page` are still missing; at most three.
    pub fn missing_tables(&self, page: Page) -> (r: u64)
        ensures
            r == self.tables_needed(page),
            r <= 3,
    {
        let k2 = page.number / 512;
        let k3 = k2 / 512;
        let k4 = k3 / 512;
        if self.l2.contains_key(&k2) {
            0
        } else if self.l3.contains_key(&k3) {
            1
        } else if self.l4.contains_key(&k4) {
            2
        } else {
            3
        }
    }

    /// Maps `page` to `frame` with `flags`, taking the frames of missing tables
    /// from `allocator`.
    ///
    /// Nothing is allocated before the page and the flags are checked. The frames
    /// of all missing tables are taken before any entry is written; where the
    /// allocator runs out, those taken go back and nothing changes.
    pub fn map_to<A: FrameAllocator>(
        &mut self,
        page: Page,
        frame: Frame,
        flags: EntryFlags,
        allocator: &mut A,
    ) -> (r: Result<MapperFlush, PagingError>)
        requires
            old(self).wf(),
            old(allocator).inv(),
            old(allocator).free().finite(),
            old(self).frames_apart(old(allocator).free()),
            !old(allocator).free().contains(frame),
            !old(self).uses_frame(frame),
        ensures
            final(self).wf(),
            final(self).frames_apart(final(allocator).free()),
            final(self).root_spec() == old(self).root_spec(),
            forall|p: Page| #[trigger] final(self).tables_needed(p) <= old(self).tables_needed(p),
            forall|p: Page| #[trigger] final(self).huge_parent(p) == old(self).huge_parent(p),
            final(allocator).inv(),
            final(allocator).free().finite(),
            final(allocator).free().subset_of(old(allocator).free()),
            match map_outcome(
                old(self).view(),
                page,
                flags,
                old(self).huge_parent(page),
                old(self).tables_needed(page),
                old(allocator).free().len(),
            ) {
                Ok(_) => {
                    &&& r == Ok::<MapperFlush, PagingError>((MapperFlush { page }))
                    &&& final(self).view() == old(self).view().insert(
                        page.number,
                        (Entry { frame, flags }),
                    )
                    &&& final(allocator).free().len() + old(self).tables_needed(page)
                        == old(allocator).free().len()
                    &&& final(self).tables_needed(page) == 0
                    &&& tables_made(*old(self), *final(self), page, old(allocator).free(), final(allocator).free())
                },
                Err(e) => {
                    &&& r == Err::<MapperFlush, PagingError>(e)
                    &&& *final(self) == *old(self)
                    &&& final(allocator).free() == old(allocator).free()
                },
            },
    {
        if page.is_in_recursive_region() {
            return Err(PagingError::RecursiveSlot);
        }
        if flags.bits() & ADDRESS_BITS != 0 || flags.is_huge() {
            return Err(PagingError::InvalidFlagsForLevel);
        }
        if self.has_huge_parent(page) {
            return Err(PagingError::ParentEntryHugePage);
        }
        if self.l1.contains_key(&page.number) {
            return Err(PagingError::AlreadyMapped);
        }
        let k2 = page.number / 512;
        let k3 = k2 / 512;
        let k4 = k3 / 512;
        proof {
            lemma_div_denominator(page.number as int, 512, 512);
            lemma_div_denominator(page.number as int, 262144, 512);
            assert(k4 != RECURSIVE_INDEX);
        }
        let ghost needed = self.tables_needed(page);
        let ghost avail = allocator.free().len();
        let ghost free0 = allocator.free();
        let ghost mut allocated: nat = 0;
        proof {
            if !self.l3@.contains_key(k3) {
                assert(!self.l2@.contains_key(k2));
            }
            if !self.l4@.contains_key(k4) {
                assert(!self.l3@.contains_key(k3));
            }
        }
        let need4 = !self.l4.contains_key(&k4);
        let need3 = !self.l3.contains_key(&k3);
        let need2 = !self.l2.contains_key(&k2);
        let mut f4 = frame;
        let mut f3 = frame;
        let mut f2 = frame;
        if need4 {
            match allocator.allocate_frame() {
                None => {
                    return Err(PagingError::FrameAllocationFailed);
                },
                Some(f) => {
                    f4 = f;
                    proof {
                        allocated = allocated + 1;
                    }
                },
            }
        }
        let ghost free1 = allocator.free();
        assert(allocator.free().len() + allocated == avail);
        if need3 {
            match allocator.allocate_frame() {
                None => {
                    if need4 {
                        allocator.deallocate_frame(f4);
                        assert(allocator.free() =~= free0);
                    }
                    return Err(PagingError::FrameAllocationFailed);
                },
                Some(f) => {
                    f3 = f;
                    proof {
                        allocated = allocated + 1;
                    }
                },
            }
        }
        assert(allocator.free().len() + allocated == avail);
        if need2 {
            match allocator.allocate_frame() {
                None => {
                    if need3 {
                        allocator.deallocate_frame(f3);
                        assert(allocator.free() =~= free1);
                    }
                    if need4 {
                        allocator.deallocate_frame(f4);
                        assert(allocator.free() =~= free0);
                    }
                    return Err(PagingError::FrameAllocationFailed);
                },
                Some(f) => {
                    f2 = f;
                    proof {
                        allocated = allocated + 1;
                    }
                },
            }
        }
        assert(allocator.free().len() + allocated == avail);
        assert(allocator.free().subset_of(free0));
        let ghost before = *self;
        if need4 {
            self.l4.insert(k4, f4);
            self.used.insert(f4.number);
        }
        if need3 {
            self.l3.insert(k3, f3);
            self.used.insert(f3.number);
        }
        if need2 {
            self.l2.insert(k2, f2);
            self.used.insert(f2.number);
        }
        self.l1.insert(page.number, Entry { frame, flags });
        self.used.insert(frame.number);
        proof {
            assert forall|g: Frame| self.uses_frame(g) <==> self.used@.contains(g.number) by {
                if g == frame {
                    assert(self.l1@.contains_key(page.number) && self.l1@[page.number].frame == g);
                } else if need4 && g == f4 {
                    assert(self.l4@.contains_key(k4) && self.l4@[k4] == g);
                } else if need3 && g == f3 {
                    assert(self.l3@.contains_key(k3) && self.l3@[k3] == g);
                } else if need2 && g == f2 {
                    assert(self.l2@.contains_key(k2) && self.l2@[k2] == g);
                } else {
                    if self.uses_frame(g) {
                        self.lemma_uses_frame_carried(&before, g);
                    }
                    if before.uses_frame(g) {
                        before.lemma_uses_frame_carried(self, g);
                    }
                }
            }
        }
        Ok(MapperFlush { page })
        }

    /// Removes the translation of `page` and hands its frame back to `allocator`.
    pub fn unmap<A: FrameAllocator>(&mut self, page: Page, allocator: &mut A) -> (r: Result<
        MapperFlush,
        PagingError,
    >)
        requires
            old(self).wf(),
            old(allocator).inv(),
            old(allocator).free().finite(),
            old(self).frames_apart(old(allocator).free()),
        ensures
            final(self).wf(),
            final(self).frames_apart(final(allocator).free()),
            final(self).root_spec() == old(self).root_spec(),
            forall|p: Page| #[trigger] final(self).tables_needed(p) == old(self).tables_needed(p),
            forall|p: Page| #[trigger] final(self).huge_parent(p) == old(self).huge_parent(p),
            final(allocator).inv(),
            final(allocator).free().finite(),
            match unmap_outcome(old(self).view(), page, old(self).huge_parent(page)) {
                Ok(_) => {
                    &&& r == Ok::<MapperFlush, PagingError>((MapperFlush { page }))
                    &&& final(self).view() == old(self).view().remove(page.number)
                    &&& final(allocator).free() == old(allocator).free().insert(
                        old(self).view()[page.number].frame,
                    )
                },
                Err(e) => {
                    &&& r == Err::<MapperFlush, PagingError>(e)
                    &&& final(self).view() == old(self).view()
                    &&& final(allocator).free() == old(allocator).free()
                },
            },
    {
        if page.is_in_recursive_region() {
            return Err(PagingError::RecursiveSlot);
        }
        if self.has_huge_parent(page) {
            return Err(PagingError::ParentEntryHugePage);
        }
        let ghost before = *self;
        match self.l1.remove(&page.number) {
            None => {
                assert(self.l1@ =~= before.l1@);
                Err(PagingError::NotMapped)
            },
            Some(entry) => {
                self.used.remove(&entry.frame.number);
                proof {
                    let fr = entry.frame;
                    assert(before.l1@.contains_key(page.number) && before.l1@[page.number] == entry);
                    assert forall|g: Frame| self.uses_frame(g) <==> self.used@.contains(g.number) by {
                        if g == fr {
                            if exists|k: u64| self.l1@.contains_key(k) && self.l1@[k].frame == g {
                                let k = choose|k: u64| self.l1@.contains_key(k) && self.l1@[k].frame == g;
                                assert(before.l1@.contains_key(k) && k != page.number);
                            } else if exists|k: u64| self.l2@.contains_key(k) && self.l2@[k] == g {
                                let k = choose|k: u64| self.l2@.contains_key(k) && self.l2@[k] == g;
                                assert(before.l2@.contains_key(k));
                            } else if exists|k: u64| self.l3@.contains_key(k) && self.l3@[k] == g {
                                let k = choose|k: u64| self.l3@.contains_key(k) && self.l3@[k] == g;
                                assert(before.l3@.contains_key(k));
                            } else if exists|k: u64| self.l4@.contains_key(k) && self.l4@[k] == g {
                                let k = choose|k: u64| self.l4@.contains_key(k) && self.l4@[k] == g;
                                assert(before.l4@.contains_key(k));
                            }
                        } else {
                            if self.uses_frame(g) {
                                self.lemma_uses_frame_carried(&before, g);
                            }
                            if before.uses_frame(g) {
                                before.lemma_uses_frame_carried(self, g);
                            }
                        }
                    }
                }
                allocator.deallocate_frame(entry.frame);
                Ok(MapperFlush { page })
            },
        }
    }

    /// Replaces the flags of the translation of `page`, keeping its frame.
    pub fn update_flags(&mut self, page: Page, flags: EntryFlags) -> (r: Result<
        MapperFlush,
        PagingError,
    >)
        requires
            old(self).wf(),
        ensures
            final(self).wf(),
            forall|s: Set<Frame>| #[trigger]
                old(self).frames_apart(s) ==> final(self).frames_apart(s),
            final(self).root_spec() == old(self).root_spec(),
            forall|p: Page| #[trigger] final(self).tables_needed(p) == old(self).tables_needed(p),
            forall|p: Page| #[trigger] final(self).huge_parent(p) == old(self).huge_parent(p),
            match update_outcome(old(self).view(), page, flags, old(self).huge_parent(page)) {
                Ok(_) => {
                    &&& r == Ok::<MapperFlush, PagingError>((MapperFlush { page }))
                    &&& final(self).view() == old(self).view().insert(
                        page.number,
                        (Entry { frame: old(self).view()[page.number].frame, flags }),
                    )
                },
                Err(e) => {
                    &&& r == Err::<MapperFlush, PagingError>(e)
                    &&& final(self).view() == old(self).view()
                },
            },
    {
        if page.is_in_recursive_region() {
            return Err(PagingError::RecursiveSlot);
        }
        if flags.bits() & ADDRESS_BITS != 0 || flags.is_huge() {
            return Err(PagingError::InvalidFlagsForLevel);
        }
        if self.has_huge_parent(page) {
            return Err(PagingError::ParentEntryHugePage);
        }
        let frame = match self.l1.get(&page.number) {
            None => {
                return Err(PagingError::NotMapped);
            },
            Some(entry) => entry.frame,
        };
        let ghost before = *self;
        self.l1.insert(page.number, Entry { frame, flags });
        proof {
            assert forall|g: Frame| self.uses_frame(g) <==> self.used@.contains(g.number) by {
                if self.uses_frame(g) {
                    self.lemma_uses_frame_carried(&before, g);
                }
                if before.uses_frame(g) {
                    before.lemma_uses_frame_carried(self, g);
                }
            }
        }
        Ok(MapperFlush { page })
    }

    /// A page with a translation never lies in the recursive slot's region.
    pub proof fn lemma_mapped_outside_recursive(&self, page: Page)
        requires
            self.wf(),
            self.view().contains_key(page.number),
        ensures
            !page.in_recursive_region(),
            !self.huge_parent(page),
    {
        assert(self.l1@.contains_key(page.number));
        assert(self.l2@.contains_key(l2_key(page.number)));
        assert(self.l3@.contains_key(l3_key(page.number)));
    }

    /// The frame that `page` translates to, if any.
    pub fn translate(&self, page: Page) -> (r: Option<Frame>)
        ensures
            r == frame_of(self.view(), page),
    {
        match self.l1.get(&page.number) {
            None => None,
            Some(entry) => Some(entry.frame),
        }
    }

    /// The whole translation of `page`, frame and flags, if it has one.
    pub fn translate_entry(&self, page: Page) -> (r: Option<Entry>)
        ensures
            r == entry_of(self.view(), page),
    {
        match self.l1.get(&page.number) {
            None => None,
            Some(entry) => Some(*entry),
        }
    }
}

} // verus!
