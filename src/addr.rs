//! Pages, frames and entry flags of the 4-level x86-64 paging protocol.
use vstd::prelude::*;
use x86_64::structures::paging::PageTableFlags;
use x86_64::{PhysAddr, VirtAddr};

verus! {

/// Size in bytes of a page and of a frame.
pub const PAGE_SIZE: u64 = 4096;

/// Number of entries in one table of the tree.
pub const ENTRY_COUNT: u64 = 512;

/// The top-level slot that maps the tree onto itself. It never maps anything else.
pub const RECURSIVE_INDEX: u64 = 511;

/// Number of distinct 4 KiB pages of a 48-bit address space.
pub const PAGE_NUMBER_LIMIT: u64 = 0x10_0000_0000;

/// Number of distinct 4 KiB frames of a 52-bit physical address space.
pub const FRAME_NUMBER_LIMIT: u64 = 0x100_0000_0000;

/// Bit positions of a page-table entry that hold the frame address, not flags.
pub const ADDRESS_BITS: u64 = 0x000f_ffff_ffff_f000;

pub const PRESENT: u64 = 0x1;
pub const WRITABLE: u64 = 0x2;
pub const USER_ACCESSIBLE: u64 = 0x4;
pub const HUGE_PAGE: u64 = 0x80;
pub const NO_EXECUTE: u64 = 0x8000_0000_0000_0000;

/// A virtual address is canonical when bits 48..64 repeat bit 47.
pub open spec fn is_canonical(addr: u64) -> bool {
    addr < 0x8000_0000_0000 || addr >= 0xffff_8000_0000_0000
}

/// Relies on `x86_64::VirtAddr::try_new`, which accepts exactly the canonical addresses.
#[verifier::external_body]
fn virt_addr_is_valid(addr: u64) -> (r: bool)
    ensures
        r == is_canonical(addr),
{
    VirtAddr::try_new(addr).is_ok()
}

/// Relies on `x86_64::PhysAddr::try_new`, which accepts exactly the addresses below 2^52.
#[verifier::external_body]
fn phys_addr_is_valid(addr: u64) -> (r: bool)
    ensures
        r == (addr < 0x10_0000_0000_0000),
{
    PhysAddr::try_new(addr).is_ok()
}

/// Relies on `x86_64::structures::paging::PageTableFlags::from_bits`, which accepts
/// exactly the bit sets that leave the address bits clear.
#[verifier::external_body]
fn flag_bits_are_valid(bits: u64) -> (r: bool)
    ensures
        r == (bits & ADDRESS_BITS == 0),
{
    PageTableFlags::from_bits(bits).is_some()
}

/// The virtual address reached by walking the slots `i4`, `i3`, `i2`, `i1` from
/// the top-level table, when `i4` is the recursive slot (so the address lies in
/// the upper, sign-extended half).
pub open spec fn recursive_address(i4: u64, i3: u64, i2: u64, i1: u64) -> int {
    0xffff_0000_0000_0000 + i4 * 0x80_0000_0000 + i3 * 0x4000_0000 + i2 * 0x20_0000 + i1 * 0x1000
}

fn recursive_address_of(i3: u64, i2: u64, i1: u64) -> (r: u64)
    requires
        i3 < ENTRY_COUNT,
        i2 < ENTRY_COUNT,
        i1 < ENTRY_COUNT,
    ensures
        r == recursive_address(RECURSIVE_INDEX, i3, i2, i1),
{
    0xffff_0000_0000_0000 + RECURSIVE_INDEX * 0x80_0000_0000 + i3 * 0x4000_0000 + i2 * 0x20_0000
        + i1 * 0x1000
}

/// The virtual address at which the top-level table can be read and written:
/// the recursive slot, followed four times.
pub fn p4_table_address() -> (r: u64)
    ensures
        r == recursive_address(RECURSIVE_INDEX, RECURSIVE_INDEX, RECURSIVE_INDEX, RECURSIVE_INDEX),
        r == 0xffff_ffff_ffff_f000,
{
    recursive_address_of(RECURSIVE_INDEX, RECURSIVE_INDEX, RECURSIVE_INDEX)
}

/// A 4 KiB virtual page, identified by its number: bits 12..48 of its start address.
#[derive(Clone, Copy, Debug, PartialEq, Eq, Structural)]
pub struct Page {
    pub number: u64,
}

impl Page {
    pub open spec fn wf(&self) -> bool {
        self.number < PAGE_NUMBER_LIMIT
    }

    /// Index of the entry in the top-level table that covers this page.
    pub open spec fn p4_index_spec(&self) -> nat {
        self.number as nat / 0x800_0000
    }

    /// Whether this page lies in the region that the recursive slot occupies.
    pub open spec fn in_recursive_region(&self) -> bool {
        self.p4_index_spec() == RECURSIVE_INDEX
    }

    /// The start address of a page, sign-extended to canonical form.
    pub open spec fn start_address_spec(&self) -> int {
        if self.number < 0x8_0000_0000 {
            self.number * 4096
        } else {
            self.number * 4096 + 0xffff_0000_0000_0000
        }
    }

    /// The page that starts at `addr`; `None` where `addr` is not canonical or
    /// not aligned to the page size.
    pub fn from_start_address(addr: u64) -> (r: Option<Page>)
        ensures
            r is Some <==> is_canonical(addr) && addr % PAGE_SIZE == 0,
            r matches Some(p) ==> p.wf() && p.start_address_spec() == addr,
    {
        if !virt_addr_is_valid(addr) || addr % PAGE_SIZE != 0 {
            return None;
        }
        let number: u64 = (addr / PAGE_SIZE) % PAGE_NUMBER_LIMIT;
        let p = Page { number };
        assert(p.start_address_spec() == addr) by (nonlinear_arith)
            requires
                is_canonical(addr),
                addr % 4096 == 0,
                number == (addr / 4096) % 0x10_0000_0000,
                p.number == number,
                p.start_address_spec() == (if number < 0x8_0000_0000 {
                    number * 4096
                } else {
                    number * 4096 + 0xffff_0000_0000_0000
                }),
        ;
        Some(p)
    }

    pub fn start_address(&self) -> (r: u64)
        requires
            self.wf(),
        ensures
            r == self.start_address_spec(),
    {
        if self.number < 0x8_0000_0000 {
            self.number * PAGE_SIZE
        } else {
            self.number * PAGE_SIZE + 0xffff_0000_0000_0000
        }
    }

    pub fn p4_index(&self) -> (r: u64)
        ensures
            r == self.p4_index_spec(),
    {
        self.number / 0x800_0000
    }

    pub open spec fn p3_index_spec(&self) -> nat {
        (self.number as nat / 0x4_0000) % 512
    }

    pub open spec fn p2_index_spec(&self) -> nat {
        (self.number as nat / 0x200) % 512
    }

    pub open spec fn p1_index_spec(&self) -> nat {
        self.number as nat % 512
    }

    pub fn p3_index(&self) -> (r: u64)
        ensures
            r == self.p3_index_spec(),
    {
        (self.number / 0x4_0000) % ENTRY_COUNT
    }

    pub fn p2_index(&self) -> (r: u64)
        ensures
            r == self.p2_index_spec(),
    {
        (self.number / 0x200) % ENTRY_COUNT
    }

    pub fn p1_index(&self) -> (r: u64)
        ensures
            r == self.p1_index_spec(),
    {
        self.number % ENTRY_COUNT
    }

    /// Where the level-3 table on this page's path is reachable through the
    /// recursive slot.
    pub fn p3_table_address(&self) -> (r: u64)
        requires
            self.wf(),
        ensures
            r == recursive_address(
                RECURSIVE_INDEX,
                RECURSIVE_INDEX,
                RECURSIVE_INDEX,
                self.p4_index_spec() as u64,
            ),
    {
        recursive_address_of(RECURSIVE_INDEX, RECURSIVE_INDEX, self.p4_index())
    }

    /// Where the level-2 table on this page's path is reachable through the
    /// recursive slot.
    pub fn p2_table_address(&self) -> (r: u64)
        requires
            self.wf(),
        ensures
            r == recursive_address(
                RECURSIVE_INDEX,
                RECURSIVE_INDEX,
                self.p4_index_spec() as u64,
                self.p3_index_spec() as u64,
            ),
    {
        recursive_address_of(RECURSIVE_INDEX, self.p4_index(), self.p3_index())
    }

    /// Where the level-1 table on this page's path is reachable through the
    /// recursive slot.
    pub fn p1_table_address(&self) -> (r: u64)
        requires
            self.wf(),
        ensures
            r == recursive_address(
                RECURSIVE_INDEX,
                self.p4_index_spec() as u64,
                self.p3_index_spec() as u64,
                self.p2_index_spec() as u64,
            ),
    {
        recursive_address_of(self.p4_index(), self.p3_index(), self.p2_index())
    }

    pub fn is_in_recursive_region(&self) -> (r: bool)
        ensures
            r == self.in_recursive_region(),
    {
        self.p4_index() == RECURSIVE_INDEX
    }
}

/// A 4 KiB physical frame, identified by its number: bits 12..52 of its start address.
#[derive(Clone, Copy, Debug, PartialEq, Eq, Structural)]
pub struct Frame {
    pub number: u64,
}

impl Frame {
    pub open spec fn wf(&self) -> bool {
        self.number < FRAME_NUMBER_LIMIT
    }

    /// The frame that starts at `addr`; `None` where `addr` exceeds 52 bits or is
    /// not aligned to the frame size.
    pub fn from_start_address(addr: u64) -> (r: Option<Frame>)
        ensures
            r is Some <==> addr < 0x10_0000_0000_0000 && addr % PAGE_SIZE == 0,
            r matches Some(f) ==> f.wf() && f.number * 4096 == addr,
    {
        if !phys_addr_is_valid(addr) || addr % PAGE_SIZE != 0 {
            return None;
        }
        let f = Frame { number: addr / PAGE_SIZE };
        Some(f)
    }

    pub fn start_address(&self) -> (r: u64)
        requires
            self.wf(),
        ensures
            r == self.number * 4096,
    {
        self.number * PAGE_SIZE
    }
}

/// The flag bits of a page-table entry. The address bits are always clear.
#[derive(Clone, Copy, Debug, PartialEq, Eq, Structural)]
pub struct EntryFlags {
    pub bits: u64,
}

impl EntryFlags {
    pub open spec fn wf(&self) -> bool {
        self.bits & ADDRESS_BITS == 0
    }

    /// Whether the flags ask for a huge page, which a 4 KiB leaf entry cannot hold.
    pub open spec fn huge(&self) -> bool {
        self.bits & HUGE_PAGE != 0
    }

    /// The flags with the given bits; `None` where a bit falls among the address bits.
    pub fn from_bits(bits: u64) -> (r: Option<EntryFlags>)
        ensures
            r is Some <==> bits & ADDRESS_BITS == 0,
            r matches Some(f) ==> f.bits == bits && f.wf(),
    {
        if flag_bits_are_valid(bits) {
            Some(EntryFlags { bits })
        } else {
            None
        }
    }

    pub fn bits(&self) -> (r: u64)
        ensures
            r == self.bits,
    {
        self.bits
    }

    pub fn is_huge(&self) -> (r: bool)
        ensures
            r == self.huge(),
    {
        self.bits & HUGE_PAGE != 0
    }

    pub fn contains(&self, other: u64) -> (r: bool)
        ensures
            r == (self.bits & other == other),
    {
        self.bits & other == other
    }
}

/// A leaf translation: the frame a page maps to, and the flags it maps with.
#[derive(Clone, Copy, Debug, PartialEq, Eq, Structural)]
pub struct Entry {
    pub frame: Frame,
    pub flags: EntryFlags,
}

} // verus!
