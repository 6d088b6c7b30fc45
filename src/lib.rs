//! The virtual-memory mapping core of an x86-64 kernel, as a model of the
//! 4-level page-table tree with its recursive self-mapping slot: the handles
//! through which pages are mapped, unmapped, remapped and translated, and the
//! frame-allocator capability those handles draw on.
//!
//! The tree here is a model of the live one. It starts from what the live
//! tree holds, recorded entry by entry, and each change it accepts, with the
//! frames it chose, is what the caller then writes to the live tree and
//! flushes through the returned `MapperFlush`: `PageTable::table_frame` and
//! `PageTable::translate_entry` give the frames of the new tables and leaf, and
//! the recursive table addresses in `addr` say where to write them.

pub mod addr;
pub mod frames;
pub mod laws;
pub mod mapper;
pub mod table;
