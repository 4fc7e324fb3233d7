//! The boot information block: a header that gives the block's size, then a
//! stream of tagged records, each padded to a multiple of eight bytes.

use vstd::prelude::*;

use crate::wire::{le_u32, read_u32};

pub mod elf_sections;
pub mod memory_map;
pub mod records;
pub mod tag;

pub use elf_sections::{ElfSection, ElfSectionIter};
pub use memory_map::{usable_areas, MemoryArea, MemoryAreaIter, MemoryAreaType};
pub use tag::Tag;

verus! {

/// Bytes taken by the block's header, and by the header of each record.
pub const HEADER_SIZE: usize = 8;

/// The record type that ends the stream.
pub const END_TAG: u32 = 0;

/// The record type of the memory map.
pub const MEMORY_MAP_TAG: u32 = 6;

/// The record type of the table of ELF section headers.
pub const ELF_SECTIONS_TAG: u32 = 9;

/// The fixed header at the start of the block.
#[derive(Clone, Copy, Debug, PartialEq, Eq, Structural)]
pub struct Header {
    pub total_size: u32,
    pub reserved: u32,
}

impl Header {
    /// The header that the first eight bytes of `data` encode.
    pub open spec fn of(data: Seq<u8>) -> Header {
        Header { total_size: le_u32(data, 0), reserved: le_u32(data, 4) }
    }

    /// Decodes the header, if `data` is long enough to hold one.
    pub fn parse(data: &[u8]) -> (header: Option<Header>)
        ensures
            header == if data@.len() >= 8 {
                Some(Header::of(data@))
            } else {
                None
            },
    {
        if data.len() < HEADER_SIZE {
            None
        } else {
            Some(Header { total_size: read_u32(data, 0), reserved: read_u32(data, 4) })
        }
    }
}

/// How far into `data` the block reaches: the size that its header declares,
/// or the length of `data` where that is less. Nothing is read at or beyond
/// this offset. A block too short for a header reaches nowhere.
pub open spec fn limit(data: Seq<u8>) -> int {
    if data.len() < 8 {
        0
    } else if le_u32(data, 0) <= data.len() {
        le_u32(data, 0) as int
    } else {
        data.len() as int
    }
}

/// A read-only view of a boot information block.
pub struct MultibootInfo<'a> {
    data: &'a [u8],
}

impl<'a> View for MultibootInfo<'a> {
    type V = Seq<u8>;

    closed spec fn view(&self) -> Seq<u8> {
        self.data@
    }
}

impl<'a> MultibootInfo<'a> {
    /// Views `data` as a boot information block. The bytes are taken as they
    /// are: a block that is malformed yields fewer records, never an error.
    pub fn new(data: &'a [u8]) -> (info: MultibootInfo<'a>)
        ensures
            info@ == data@,
    {
        MultibootInfo { data }
    }

    /// The block's header, if the block is long enough to hold one.
    pub fn header(&self) -> (header: Option<Header>)
        ensures
            header == if self@.len() >= 8 {
                Some(Header::of(self@))
            } else {
                None
            },
    {
        Header::parse(self.data)
    }

    /// The bytes of the block.
    pub(crate) fn bytes(&self) -> (data: &'a [u8])
        ensures
            data@ == self@,
    {
        self.data
    }

    /// The offset at which the block ends.
    pub(crate) fn end(&self) -> (end: usize)
        ensures
            end == limit(self@),
            end <= self@.len(),
    {
        if self.data.len() < HEADER_SIZE {
            0
        } else {
            let total: u32 = read_u32(self.data, 0);
            if total as u64 <= self.data.len() as u64 {
                total as usize
            } else {
                self.data.len()
            }
        }
    }
}

} // verus!
