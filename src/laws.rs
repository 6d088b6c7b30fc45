//! Laws that relate the mapping operations to one another, stated over the
//! translation maps and outcomes that the operations' contracts use.
use vstd::prelude::*;

use crate::addr::{Entry, EntryFlags, Frame, Page};
use crate::frames::FrameAllocator;
use crate::mapper::{mappable, PageMapper};
use crate::table::{entry_of, frame_of, map_outcome, unmap_outcome, update_outcome, PagingError};

verus! {

/// Mapping a page without a translation, with acceptable flags, no huge page on
/// its path and enough free frames, succeeds; afterwards the page translates to the frame it was given,
/// and mapping it again is refused as already mapped, with the translation kept.
pub proof fn lemma_map_then_translate(
    v: Map<u64, Entry>,
    page: Page,
    frame: Frame,
    flags: EntryFlags,
    needed: nat,
    available: nat,
    needed_again: nat,
    available_again: nat,
)
    requires
        mappable(v, page, flags),
        needed <= available,
    ensures
        map_outcome(v, page, flags, false, needed, available) == Ok::<(), PagingError>(()),
        frame_of(v.insert(page.number, (Entry { frame, flags })), page) == Some(frame),
        map_outcome(
            v.insert(page.number, (Entry { frame, flags })),
            page,
            flags,
            false,
            needed_again,
            available_again,
        ) == Err::<(), PagingError>(PagingError::AlreadyMapped),
{
}

/// A mapped page with no huge page on its path can be unmapped once: afterwards it has no translation, and a
/// second unmap is refused as not mapped.
pub proof fn lemma_unmap_once(v: Map<u64, Entry>, page: Page)
    requires
        v.contains_key(page.number),
        !page.in_recursive_region(),
    ensures
        unmap_outcome(v, page, false) == Ok::<(), PagingError>(()),
        frame_of(v.remove(page.number), page) == None::<Frame>,
        unmap_outcome(v.remove(page.number), page, false) == Err::<(), PagingError>(
            PagingError::NotMapped,
        ),
{
}

/// On a mapper, every mapped page can be unmapped once, and only once.
pub proof fn lemma_mapper_unmap_once<A: FrameAllocator>(m: &PageMapper<A>, page: Page)
    requires
        m.wf(),
        m.view().contains_key(page.number),
    ensures
        unmap_outcome(m.view(), page, m.huge_parent(page)) == Ok::<(), PagingError>(()),
        unmap_outcome(m.view().remove(page.number), page, m.huge_parent(page)) == Err::<(), PagingError>(
            PagingError::NotMapped,
        ),
{
    m.lemma_mapped_outside_recursive(page);
    lemma_unmap_once(m.view(), page);
}

/// A frame that the allocator still holds is the frame of no translation, so
/// the frame that `map` takes from it is never one another page already maps.
pub proof fn lemma_no_double_issue<A: FrameAllocator>(m: &PageMapper<A>, f: Frame, q: u64)
    requires
        m.wf(),
        m.free().contains(f),
        m.view().contains_key(q),
    ensures
        m.view()[q].frame != f,
{
    m.lemma_free_frames_unmapped();
}

/// Remapping a mapped page with acceptable flags and no huge page on its path
/// succeeds, changes the flags
/// that the page translates with, and keeps the frame it translates to.
pub proof fn lemma_remap_keeps_frame(v: Map<u64, Entry>, page: Page, flags: EntryFlags)
    requires
        v.contains_key(page.number),
        !page.in_recursive_region(),
        flags.wf(),
        !flags.huge(),
    ensures
        update_outcome(v, page, flags, false) == Ok::<(), PagingError>(()),
        ({
            let after = v.insert(page.number, (Entry { frame: v[page.number].frame, flags }));
            &&& frame_of(after, page) == frame_of(v, page)
            &&& entry_of(after, page) matches Some(e) && e.flags == flags
        }),
{
}

/// Map, unmap, map again, on a page with no huge page on its path: the unmap restores the translations as they were, and
/// the second map succeeds as soon as one frame is free, since the tables on the
/// page's path stay in place.
pub proof fn lemma_map_unmap_map(
    v: Map<u64, Entry>,
    page: Page,
    frame: Frame,
    flags: EntryFlags,
    needed: nat,
    available: nat,
    available_again: nat,
)
    requires
        mappable(v, page, flags),
        needed <= available,
        available_again >= 1,
    ensures
        map_outcome(v, page, flags, false, needed, available) == Ok::<(), PagingError>(()),
        unmap_outcome(v.insert(page.number, (Entry { frame, flags })), page, false) == Ok::<
            (),
            PagingError,
        >(()),
        v.insert(page.number, (Entry { frame, flags })).remove(page.number) == v,
        map_outcome(v, page, flags, false, 0 + 1, available_again) == Ok::<(), PagingError>(()),
{
    assert(v.insert(page.number, (Entry { frame, flags })).remove(page.number) =~= v);
}

/// Two maps of distinct pages in a row both succeed when the free frames cover
/// both leaves and every missing table: after the first, the second page needs
/// at most the tables it needed before, and the frames left are those the
/// first did not take.
pub proof fn lemma_two_maps_succeed(
    v: Map<u64, Entry>,
    first: Page,
    first_flags: EntryFlags,
    first_frame: Frame,
    second: Page,
    second_flags: EntryFlags,
    first_needed: nat,
    second_needed: nat,
    second_needed_after: nat,
    available: nat,
)
    requires
        mappable(v, first, first_flags),
        mappable(v, second, second_flags),
        first.number != second.number,
        second_needed_after <= second_needed,
        first_needed + 1 + second_needed + 1 <= available,
    ensures
        map_outcome(v, first, first_flags, false, first_needed + 1, available) == Ok::<
            (),
            PagingError,
        >(()),
        map_outcome(
            v.insert(first.number, (Entry { frame: first_frame, flags: first_flags })),
            second,
            second_flags,
            false,
            second_needed_after + 1,
            (available - first_needed - 1) as nat,
        ) == Ok::<(), PagingError>(()),
{
}

/// With no free frame, mapping a page that could otherwise be mapped is refused
/// for want of frames, and a refused map leaves the translations as they were.
pub proof fn lemma_exhaustion_maps_nothing(
    v: Map<u64, Entry>,
    page: Page,
    flags: EntryFlags,
    needed: nat,
)
    requires
        mappable(v, page, flags),
    ensures
        map_outcome(v, page, flags, false, needed + 1, 0) == Err::<(), PagingError>(
            PagingError::FrameAllocationFailed,
        ),
        frame_of(v, page) == None::<Frame>,
{
}

/// The translations after the first `i` of `pages` were mapped, the `j`-th to
/// `frames[j]` with `flags`.
pub open spec fn mapped_after(
    v: Map<u64, Entry>,
    pages: Seq<Page>,
    frames: Seq<Frame>,
    flags: EntryFlags,
    i: nat,
) -> Map<u64, Entry>
    decreases i,
{
    if i == 0 {
        v
    } else {
        mapped_after(v, pages, frames, flags, (i - 1) as nat).insert(
            pages[i - 1].number,
            (Entry { frame: frames[i - 1], flags }),
        )
    }
}

proof fn lemma_later_pages_unmapped(
    v: Map<u64, Entry>,
    pages: Seq<Page>,
    frames: Seq<Frame>,
    flags: EntryFlags,
    i: nat,
    j: int,
)
    requires
        i <= j < pages.len(),
        !v.contains_key(pages[j].number),
        forall|a: int, b: int|
            0 <= a < b < pages.len() ==> #[trigger] pages[a].number != #[trigger] pages[b].number,
    ensures
        !mapped_after(v, pages, frames, flags, i).contains_key(pages[j].number),
    decreases i,
{
    if i > 0 {
        lemma_later_pages_unmapped(v, pages, frames, flags, (i - 1) as nat, j);
    }
}

/// A batch of maps of distinct pages, none mapped and none under a huge page,
/// succeeds call after call when the free frames cover four per page: each map
/// takes one frame for the leaf and at most three for tables, so before the
/// `i`-th call at least four per remaining page are left.
pub proof fn lemma_batch_maps_succeed(
    v: Map<u64, Entry>,
    pages: Seq<Page>,
    frames: Seq<Frame>,
    flags: EntryFlags,
    i: nat,
    needed: nat,
    available: nat,
)
    requires
        i < pages.len(),
        forall|j: int| 0 <= j < pages.len() ==> mappable(v, #[trigger] pages[j], flags),
        forall|a: int, b: int|
            0 <= a < b < pages.len() ==> #[trigger] pages[a].number != #[trigger] pages[b].number,
        needed <= 3,
        available >= 4 * (pages.len() - i),
    ensures
        map_outcome(
            mapped_after(v, pages, frames, flags, i),
            pages[i as int],
            flags,
            false,
            needed + 1,
            available,
        ) == Ok::<(), PagingError>(()),
{
    assert(mappable(v, pages[i as int], flags));
    lemma_later_pages_unmapped(v, pages, frames, flags, i, i as int);
}

} // verus!
