//! Mapper handles: exclusive access to the page-table tree and the frame allocator.
use vstd::prelude::*;

use crate::addr::{Entry, EntryFlags, Frame, Page, ADDRESS_BITS};
use crate::frames::FrameAllocator;
use crate::table::{
    tables_made, entry_of, frame_of, leaf_flags_ok, map_outcome, unmap_outcome, update_outcome, MapperFlush,
    PageTable, PagingError,
};

verus! {

/// Whether nothing about `page` and `flags` stands in the way of mapping.
pub open spec fn mappable(v: Map<u64, Entry>, page: Page, flags: EntryFlags) -> bool {
    !page.in_recursive_region() && leaf_flags_ok(flags) && !v.contains_key(page.number)
}

/// Maps `page` to a frame of `allocator`, which is consulted only once the page
/// and the flags have been checked. Where the tables on the page's path cannot
/// all be created, the frame goes back to the allocator.
fn map_fresh<A: FrameAllocator>(
    table: &mut PageTable,
    allocator: &mut A,
    page: Page,
    flags: EntryFlags,
) -> (r: Result<MapperFlush, PagingError>)
    requires
        old(table).wf(),
        old(allocator).inv(),
        old(allocator).free().finite(),
        old(table).frames_apart(old(allocator).free()),
    ensures
        final(table).wf(),
        final(table).frames_apart(final(allocator).free()),
        final(allocator).free().subset_of(old(allocator).free()),
        final(table).root_spec() == old(table).root_spec(),
        forall|p: Page| #[trigger] final(table).tables_needed(p) <= old(table).tables_needed(p),
        forall|p: Page| #[trigger] final(table).huge_parent(p) == old(table).huge_parent(p),
        final(allocator).inv(),
        final(allocator).free().finite(),
        match map_outcome(
            old(table).view(),
            page,
            flags,
            old(table).huge_parent(page),
            old(table).tables_needed(page) + 1,
            old(allocator).free().len(),
        ) {
            Ok(_) => {
                &&& r == Ok::<MapperFlush, PagingError>((MapperFlush { page }))
                &&& final(allocator).free().len() + old(table).tables_needed(page) + 1
                    == old(allocator).free().len()
                &&& exists|f: Frame|
                    {
                        &&& old(allocator).free().contains(f)
                        &&& !final(allocator).free().contains(f)
                        &&& forall|q: u64| #[trigger]
                            old(table).view().contains_key(q) ==> old(table).view()[q].frame != f
                        &&& final(table).view() == old(table).view().insert(
                            page.number,
                            (Entry { frame: f, flags }),
                        )
                    }
                &&& final(table).tables_needed(page) == 0
                &&& tables_made(
                    *old(table),
                    *final(table),
                    page,
                    old(allocator).free(),
                    final(allocator).free(),
                )
            },
            Err(e) => {
                &&& r == Err::<MapperFlush, PagingError>(e)
                &&& *final(table) == *old(table)
                &&& final(allocator).free() == old(allocator).free()
            },
        },
{
    if page.is_in_recursive_region() {
        return Err(PagingError::RecursiveSlot);
    }
    if flags.bits() & ADDRESS_BITS != 0 || flags.is_huge() {
        return Err(PagingError::InvalidFlagsForLevel);
    }
    if table.has_huge_parent(page) {
        return Err(PagingError::ParentEntryHugePage);
    }
    if table.translate(page).is_some() {
        return Err(PagingError::AlreadyMapped);
    }
    let ghost free0 = allocator.free();
    let frame = match allocator.allocate_frame() {
        None => {
            return Err(PagingError::FrameAllocationFailed);
        },
        Some(f) => f,
    };
    let ghost free1 = allocator.free();
    proof {
        table.lemma_free_frame_unused(free0, frame);
        table.lemma_frames_apart_subset(free0, free1);
    }
    let r = table.map_to(page, frame, flags, allocator);
    match r {
        Ok(flush) => {
            assert(!free1.contains(frame));
            Ok(flush)
        },
        Err(e) => {
            let ghost free2 = allocator.free();
            proof {
                table.lemma_frames_apart_insert(free2, frame);
            }
            allocator.deallocate_frame(frame);
            Err(e)
        },
    }
}

/// A handle on the page-table tree. Each operation takes what it needs from the
/// frame allocator for the length of that operation only.
pub struct PageMapper<A: FrameAllocator> {
    table: PageTable,
    allocator: A,
}

impl<A: FrameAllocator> PageMapper<A> {
    /// The translations of the tree, keyed by page number.
    pub closed spec fn view(&self) -> Map<u64, Entry> {
        self.table.view()
    }

    /// The frames that the allocator may still hand out.
    pub closed spec fn free(&self) -> Set<Frame> {
        self.allocator.free()
    }

    /// How many tables on the path to `page` are still missing.
    pub closed spec fn tables_needed(&self, page: Page) -> nat {
        self.table.tables_needed(page)
    }

    /// Whether an entry on the path to `page` maps a huge page.
    pub closed spec fn huge_parent(&self, page: Page) -> bool {
        self.table.huge_parent(page)
    }

    /// The tree this handle holds.
    pub closed spec fn tree(&self) -> PageTable {
        self.table
    }

    pub closed spec fn wf(&self) -> bool {
        &&& self.table.wf()
        &&& self.allocator.inv()
        &&& self.allocator.free().finite()
        &&& self.table.frames_apart(self.allocator.free())
    }

    /// The frame of the top-level table, which the recursive slot maps onto itself.
    pub closed spec fn root_spec(&self) -> Frame {
        self.table.root_spec()
    }

    /// Whether `f` holds a translation or a table of the tree.
    pub closed spec fn uses_frame(&self, f: Frame) -> bool {
        self.table.uses_frame(f)
    }

    /// The frames the allocator holds are finite in number, and none of them is
    /// the frame of a translation.
    pub proof fn lemma_free_frames_unmapped(&self)
        requires
            self.wf(),
        ensures
            self.free().finite(),
            forall|f: Frame, q: u64|
                #[trigger] self.free().contains(f) && #[trigger] self.view().contains_key(q)
                    ==> self.view()[q].frame != f,
    {
        assert forall|f: Frame, q: u64|
            #[trigger] self.free().contains(f) && #[trigger] self.view().contains_key(q)
                implies self.view()[q].frame != f by {
            self.table.lemma_free_frame_unused(self.allocator.free(), f);
        }
    }

    /// No page needs more than three new tables.
    pub proof fn lemma_tables_needed_bounded(&self, page: Page)
        ensures
            self.tables_needed(page) <= 3,
    {
        self.table.lemma_tables_needed_bounded(page);
    }

    /// The frame of the top-level table.
    pub fn root(&self) -> (r: Frame)
        ensures
            r == self.root_spec(),
    {
        self.table.root()
    }

    /// The handle over `table`, drawing frames from `allocator`.
    pub fn new(table: PageTable, allocator: A) -> (r: Self)
        requires
            table.wf(),
            allocator.inv(),
            allocator.free().finite(),
            table.frames_apart(allocator.free()),
        ensures
            r.wf(),
            r.root_spec() == table.root_spec(),
            r.view() == table.view(),
            r.free() == allocator.free(),
            forall|p: Page| #[trigger] r.tables_needed(p) == table.tables_needed(p),
            forall|p: Page| #[trigger] r.huge_parent(p) == table.huge_parent(p),
    {
        PageMapper { table, allocator }
    }

    /// A page with a translation never lies in the recursive slot's region.
    pub proof fn lemma_mapped_outside_recursive(&self, page: Page)
        requires
            self.wf(),
            self.view().contains_key(page.number),
        ensures
            !page.in_recursive_region(),
            !self.huge_parent(page),
    {
        self.table.lemma_mapped_outside_recursive(page);
    }

    /// Maps `page` with `flags` to a frame taken from the allocator.
    ///
    /// Running out of frames, for the page or for a table on its path, is a fatal
    /// condition for this handle, so the frames must be there: callers that want
    /// to handle exhaustion use a locked handle.
    pub fn map(&mut self, page: Page, flags: EntryFlags) -> (r: Result<MapperFlush, PagingError>)
        requires
            old(self).wf(),
            mappable(old(self).view(), page, flags) && !old(self).huge_parent(page)
                ==> old(self).free().len() >= old(self).tables_needed(page) + 1,
        ensures
            final(self).wf(),
            final(self).root_spec() == old(self).root_spec(),
            final(self).free().finite(),
            final(self).free().subset_of(old(self).free()),
            forall|p: Page| #[trigger] final(self).tables_needed(p) <= old(self).tables_needed(p),
            forall|p: Page| #[trigger] final(self).huge_parent(p) == old(self).huge_parent(p),
            match map_outcome(
                old(self).view(),
                page,
                flags,
                old(self).huge_parent(page),
                old(self).tables_needed(page) + 1,
                old(self).free().len(),
            ) {
                Ok(_) => {
                    &&& r == Ok::<MapperFlush, PagingError>((MapperFlush { page }))
                    &&& final(self).free().len() + old(self).tables_needed(page) + 1
                        == old(self).free().len()
                    &&& exists|f: Frame|
                        {
                            &&& old(self).free().contains(f)
                            &&& !final(self).free().contains(f)
                            &&& forall|q: u64| #[trigger]
                                old(self).view().contains_key(q) ==> old(self).view()[q].frame != f
                            &&& final(self).view() == old(self).view().insert(
                                page.number,
                                (Entry { frame: f, flags }),
                            )
                        }
                    &&& final(self).tables_needed(page) == 0
                    &&& tables_made(
                        old(self).tree(),
                        final(self).tree(),
                        page,
                        old(self).free(),
                        final(self).free(),
                    )
                },
                Err(e) => {
                    &&& r == Err::<MapperFlush, PagingError>(e)
                    &&& final(self).view() == old(self).view()
                    &&& final(self).free() == old(self).free()
                    &&& forall|p: Page| #[trigger] final(self).tables_needed(p)
                        == old(self).tables_needed(p)
                },
            },
    {
        map_fresh(&mut self.table, &mut self.allocator, page, flags)
    }

    /// Maps `page` with `flags` to `frame`, which the caller already owns. As for
    /// `map`, the frames for missing tables must be there.
    pub fn map_to(&mut self, page: Page, frame: Frame, flags: EntryFlags) -> (r: Result<
        MapperFlush,
        PagingError,
    >)
        requires
            old(self).wf(),
            mappable(old(self).view(), page, flags) && !old(self).huge_parent(page)
                ==> old(self).free().len() >= old(self).tables_needed(page),
            !old(self).free().contains(frame),
            !old(self).uses_frame(frame),
        ensures
            final(self).wf(),
            final(self).root_spec() == old(self).root_spec(),
            final(self).free().finite(),
            forall|p: Page| #[trigger] final(self).tables_needed(p) <= old(self).tables_needed(p),
            forall|p: Page| #[trigger] final(self).huge_parent(p) == old(self).huge_parent(p),
            final(self).free().subset_of(old(self).free()),
            match map_outcome(
                old(self).view(),
                page,
                flags,
                old(self).huge_parent(page),
                old(self).tables_needed(page),
                old(self).free().len(),
            ) {
                Ok(_) => {
                    &&& r == Ok::<MapperFlush, PagingError>((MapperFlush { page }))
                    &&& final(self).view() == old(self).view().insert(
                        page.number,
                        (Entry { frame, flags }),
                    )
                    &&& final(self).free().len() + old(self).tables_needed(page)
                        == old(self).free().len()
                    &&& final(self).tables_needed(page) == 0
                    &&& tables_made(
                        old(self).tree(),
                        final(self).tree(),
                        page,
                        old(self).free(),
                        final(self).free(),
                    )
                },
                Err(e) => {
                    &&& r == Err::<MapperFlush, PagingError>(e)
                    &&& final(self).view() == old(self).view()
                    &&& final(self).free() == old(self).free()
                    &&& forall|p: Page| #[trigger] final(self).tables_needed(p)
                        == old(self).tables_needed(p)
                },
            },
    {
        self.table.map_to(page, frame, flags, &mut self.allocator)
    }

    /// Removes the translation of `page` and hands its frame back to the allocator.
    pub fn unmap(&mut self, page: Page) -> (r: Result<MapperFlush, PagingError>)
        requires
            old(self).wf(),
        ensures
            final(self).wf(),
            final(self).root_spec() == old(self).root_spec(),
            final(self).free().finite(),
            forall|p: Page| #[trigger] final(self).tables_needed(p) == old(self).tables_needed(p),
            forall|p: Page| #[trigger] final(self).huge_parent(p) == old(self).huge_parent(p),
            match unmap_outcome(old(self).view(), page, old(self).huge_parent(page)) {
                Ok(_) => {
                    &&& r == Ok::<MapperFlush, PagingError>((MapperFlush { page }))
                    &&& final(self).view() == old(self).view().remove(page.number)
                    &&& final(self).free() == old(self).free().insert(
                        old(self).view()[page.number].frame,
                    )
                },
                Err(e) => {
                    &&& r == Err::<MapperFlush, PagingError>(e)
                    &&& final(self).view() == old(self).view()
                    &&& final(self).free() == old(self).free()
                },
            },
    {
        self.table.unmap(page, &mut self.allocator)
    }

    /// Replaces the flags of the translation of `page`, keeping its frame.
    pub fn remap(&mut self, page: Page, flags: EntryFlags) -> (r: Result<MapperFlush, PagingError>)
        requires
            old(self).wf(),
        ensures
            final(self).wf(),
            final(self).root_spec() == old(self).root_spec(),
            final(self).free().finite(),
            forall|p: Page| #[trigger] final(self).tables_needed(p) == old(self).tables_needed(p),
            forall|p: Page| #[trigger] final(self).huge_parent(p) == old(self).huge_parent(p),
            final(self).free() == old(self).free(),
            match update_outcome(old(self).view(), page, flags, old(self).huge_parent(page)) {
                Ok(_) => {
                    &&& r == Ok::<MapperFlush, PagingError>((MapperFlush { page }))
                    &&& final(self).view() == old(self).view().insert(
                        page.number,
                        (Entry { frame: old(self).view()[page.number].frame, flags }),
                    )
                },
                Err(e) => {
                    &&& r == Err::<MapperFlush, PagingError>(e)
                    &&& final(self).view() == old(self).view()
                },
            },
    {
        self.table.update_flags(page, flags)
    }

    /// The frame that `page` translates to, if any.
    pub fn translate(&self, page: Page) -> (r: Option<Frame>)
        ensures
            r == frame_of(self.view(), page),
    {
        self.table.translate(page)
    }

    /// The translation of `page`, frame and flags, if it has one.
    pub fn translate_entry(&self, page: Page) -> (r: Option<Entry>)
        ensures
            r == entry_of(self.view(), page),
    {
        self.table.translate_entry(page)
    }

    /// The page-table tree.
    pub fn table(&self) -> (r: &PageTable)
        ensures
            r.view() == self.view(),
            *r == self.tree(),
    {
        &self.table
    }

    /// The frame allocator.
    pub fn allocator(&self) -> (r: &A)
        ensures
            r.free() == self.free(),
    {
        &self.allocator
    }

    /// Holds the allocator for a batch of operations.
    pub fn lock(self) -> (r: LockedPageMapper<A>)
        requires
            self.wf(),
        ensures
            r.wf(),
            r.view() == self.view(),
            r.free() == self.free(),
            r.root_spec() == self.root_spec(),
            forall|p: Page| #[trigger] r.tables_needed(p) == self.tables_needed(p),
            forall|p: Page| #[trigger] r.huge_parent(p) == self.huge_parent(p),
    {
        LockedPageMapper { table: self.table, allocator: self.allocator }
    }
}

/// A handle that holds the page-table tree and the frame allocator together for
/// a batch of operations. Allocator exhaustion is reported, not fatal.
pub struct LockedPageMapper<A: FrameAllocator> {
    table: PageTable,
    allocator: A,
}

impl<A: FrameAllocator> LockedPageMapper<A> {
    pub closed spec fn view(&self) -> Map<u64, Entry> {
        self.table.view()
    }

    pub closed spec fn free(&self) -> Set<Frame> {
        self.allocator.free()
    }

    pub closed spec fn tables_needed(&self, page: Page) -> nat {
        self.table.tables_needed(page)
    }

    /// Whether an entry on the path to `page` maps a huge page.
    pub closed spec fn huge_parent(&self, page: Page) -> bool {
        self.table.huge_parent(page)
    }

    /// The tree this handle holds.
    pub closed spec fn tree(&self) -> PageTable {
        self.table
    }

    pub closed spec fn wf(&self) -> bool {
        &&& self.table.wf()
        &&& self.allocator.inv()
        &&& self.allocator.free().finite()
        &&& self.table.frames_apart(self.allocator.free())
    }

    /// The frame of the top-level table, which the recursive slot maps onto itself.
    pub closed spec fn root_spec(&self) -> Frame {
        self.table.root_spec()
    }

    /// Whether `f` holds a translation or a table of the tree.
    pub closed spec fn uses_frame(&self, f: Frame) -> bool {
        self.table.uses_frame(f)
    }

    /// The frames the allocator holds are finite in number, and none of them is
    /// the frame of a translation.
    pub proof fn lemma_free_frames_unmapped(&self)
        requires
            self.wf(),
        ensures
            self.free().finite(),
            forall|f: Frame, q: u64|
                #[trigger] self.free().contains(f) && #[trigger] self.view().contains_key(q)
                    ==> self.view()[q].frame != f,
    {
        assert forall|f: Frame, q: u64|
            #[trigger] self.free().contains(f) && #[trigger] self.view().contains_key(q)
                implies self.view()[q].frame != f by {
            self.table.lemma_free_frame_unused(self.allocator.free(), f);
        }
    }

    /// No page needs more than three new tables.
    pub proof fn lemma_tables_needed_bounded(&self, page: Page)
        ensures
            self.tables_needed(page) <= 3,
    {
        self.table.lemma_tables_needed_bounded(page);
    }

    /// The frame of the top-level table.
    pub fn root(&self) -> (r: Frame)
        ensures
            r == self.root_spec(),
    {
        self.table.root()
    }

    /// A page with a translation never lies in the recursive slot's region.
    pub proof fn lemma_mapped_outside_recursive(&self, page: Page)
        requires
            self.wf(),
            self.view().contains_key(page.number),
        ensures
            !page.in_recursive_region(),
            !self.huge_parent(page),
    {
        self.table.lemma_mapped_outside_recursive(page);
    }

    /// Maps `page` with `flags` to a frame taken from the held allocator.
    pub fn map(&mut self, page: Page, flags: EntryFlags) -> (r: Result<MapperFlush, PagingError>)
        requires
            old(self).wf(),
        ensures
            final(self).wf(),
            final(self).root_spec() == old(self).root_spec(),
            final(self).free().finite(),
            final(self).free().subset_of(old(self).free()),
            forall|p: Page| #[trigger] final(self).tables_needed(p) <= old(self).tables_needed(p),
            forall|p: Page| #[trigger] final(self).huge_parent(p) == old(self).huge_parent(p),
            match map_outcome(
                old(self).view(),
                page,
                flags,
                old(self).huge_parent(page),
                old(self).tables_needed(page) + 1,
                old(self).free().len(),
            ) {
                Ok(_) => {
                    &&& r == Ok::<MapperFlush, PagingError>((MapperFlush { page }))
                    &&& final(self).free().len() + old(self).tables_needed(page) + 1
                        == old(self).free().len()
                    &&& exists|f: Frame|
                        {
                            &&& old(self).free().contains(f)
                            &&& !final(self).free().contains(f)
                            &&& forall|q: u64| #[trigger]
                                old(self).view().contains_key(q) ==> old(self).view()[q].frame != f
                            &&& final(self).view() == old(self).view().insert(
                                page.number,
                                (Entry { frame: f, flags }),
                            )
                        }
                    &&& final(self).tables_needed(page) == 0
                    &&& tables_made(
                        old(self).tree(),
                        final(self).tree(),
                        page,
                        old(self).free(),
                        final(self).free(),
                    )
                },
                Err(e) => {
                    &&& r == Err::<MapperFlush, PagingError>(e)
                    &&& final(self).view() == old(self).view()
                    &&& final(self).free() == old(self).free()
                    &&& forall|p: Page| #[trigger] final(self).tables_needed(p)
                        == old(self).tables_needed(p)
                },
            },
    {
        map_fresh(&mut self.table, &mut self.allocator, page, flags)
    }

    /// Removes the translation of `page` and hands its frame back to the allocator.
    pub fn unmap(&mut self, page: Page) -> (r: Result<MapperFlush, PagingError>)
        requires
            old(self).wf(),
        ensures
            final(self).wf(),
            final(self).root_spec() == old(self).root_spec(),
            final(self).free().finite(),
            forall|p: Page| #[trigger] final(self).tables_needed(p) == old(self).tables_needed(p),
            forall|p: Page| #[trigger] final(self).huge_parent(p) == old(self).huge_parent(p),
            match unmap_outcome(old(self).view(), page, old(self).huge_parent(page)) {
                Ok(_) => {
                    &&& r == Ok::<MapperFlush, PagingError>((MapperFlush { page }))
                    &&& final(self).view() == old(self).view().remove(page.number)
                    &&& final(self).free() == old(self).free().insert(
                        old(self).view()[page.number].frame,
                    )
                },
                Err(e) => {
                    &&& r == Err::<MapperFlush, PagingError>(e)
                    &&& final(self).view() == old(self).view()
                    &&& final(self).free() == old(self).free()
                },
            },
    {
        self.table.unmap(page, &mut self.allocator)
    }

    /// Replaces the flags of the translation of `page`, keeping its frame.
    pub fn remap(&mut self, page: Page, flags: EntryFlags) -> (r: Result<MapperFlush, PagingError>)
        requires
            old(self).wf(),
        ensures
            final(self).wf(),
            final(self).root_spec() == old(self).root_spec(),
            final(self).free().finite(),
            forall|p: Page| #[trigger] final(self).tables_needed(p) == old(self).tables_needed(p),
            forall|p: Page| #[trigger] final(self).huge_parent(p) == old(self).huge_parent(p),
            final(self).free() == old(self).free(),
            match update_outcome(old(self).view(), page, flags, old(self).huge_parent(page)) {
                Ok(_) => {
                    &&& r == Ok::<MapperFlush, PagingError>((MapperFlush { page }))
                    &&& final(self).view() == old(self).view().insert(
                        page.number,
                        (Entry { frame: old(self).view()[page.number].frame, flags }),
                    )
                },
                Err(e) => {
                    &&& r == Err::<MapperFlush, PagingError>(e)
                    &&& final(self).view() == old(self).view()
                },
            },
    {
        self.table.update_flags(page, flags)
    }

    /// The frame that `page` translates to, if any.
    pub fn translate(&self, page: Page) -> (r: Option<Frame>)
        ensures
            r == frame_of(self.view(), page),
    {
        self.table.translate(page)
    }

    /// The translation of `page`, frame and flags, if it has one.
    pub fn translate_entry(&self, page: Page) -> (r: Option<Entry>)
        ensures
            r == entry_of(self.view(), page),
    {
        self.table.translate_entry(page)
    }

    /// The page-table tree.
    pub fn table(&self) -> (r: &PageTable)
        ensures
            r.view() == self.view(),
            *r == self.tree(),
    {
        &self.table
    }

    /// The frame allocator.
    pub fn allocator(&self) -> (r: &A)
        ensures
            r.free() == self.free(),
    {
        &self.allocator
    }

    /// Ends the batch and gives the allocator back to per-operation use.
    pub fn unlock(self) -> (r: PageMapper<A>)
        requires
            self.wf(),
        ensures
            r.wf(),
            r.view() == self.view(),
            r.free() == self.free(),
            r.root_spec() == self.root_spec(),
            forall|p: Page| #[trigger] r.tables_needed(p) == self.tables_needed(p),
            forall|p: Page| #[trigger] r.huge_parent(p) == self.huge_parent(p),
    {
        PageMapper::new(self.table, self.allocator)
    }
}

/// The mapper over `table`, which holds what the live tree holds (built with
/// `PageTable::new` and the `record_*` operations), drawing frames from `allocator`.
pub fn init<A: FrameAllocator>(table: PageTable, allocator: A) -> (r: PageMapper<A>)
    requires
        table.wf(),
        allocator.inv(),
        allocator.free().finite(),
        table.frames_apart(allocator.free()),
    ensures
        r.wf(),
        r.view() == table.view(),
        r.free() == allocator.free(),
        r.root_spec() == table.root_spec(),
        forall|p: Page| #[trigger] r.tables_needed(p) == table.tables_needed(p),
        forall|p: Page| #[trigger] r.huge_parent(p) == table.huge_parent(p),
{
    PageMapper::new(table, allocator)
}

} // verus!
