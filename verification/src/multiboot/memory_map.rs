//! The memory map: a record whose payload is a run of entries of one width,
//! each describing a range of physical memory.

use vstd::prelude::*;

use crate::multiboot::records::{whole_records, Records};
use crate::multiboot::tag::{find_tag, tag_end, Tag};
use crate::multiboot::{limit, MultibootInfo, MEMORY_MAP_TAG};
use crate::wire::{le_u32, le_u64, lemma_len_fits, read_u32, read_u64};

verus! {

/// Bytes of the record before its first entry: type, size, entry size and
/// entry version.
pub const MEMORY_MAP_HEADER: usize = 16;

/// Bytes of an entry that carry known fields: base address, length, type
/// and a reserved word. An entry may be wider, never narrower.
pub const MEMORY_AREA_SIZE: usize = 24;

/// What a range of physical memory may be used for.
#[derive(Clone, Copy, Debug, PartialEq, Eq, Structural)]
pub enum MemoryAreaType {
    Usable,
    Reserved,
    AcpiReclaimable,
    AcpiNvs,
    BadRam,
    /// A code that has no meaning here, kept as it was read.
    Unknown(u32),
}

impl MemoryAreaType {
    /// The kind that the code `code` stands for.
    pub open spec fn spec_from_code(code: u32) -> MemoryAreaType {
        if code == 1 {
            MemoryAreaType::Usable
        } else if code == 2 {
            MemoryAreaType::Reserved
        } else if code == 3 {
            MemoryAreaType::AcpiReclaimable
        } else if code == 4 {
            MemoryAreaType::AcpiNvs
        } else if code == 5 {
            MemoryAreaType::BadRam
        } else {
            MemoryAreaType::Unknown(code)
        }
    }

    /// The kind that the code `code` stands for.
    #[verifier::when_used_as_spec(spec_from_code)]
    pub fn from_code(code: u32) -> (kind: MemoryAreaType)
        ensures
            kind == MemoryAreaType::spec_from_code(code),
    {
        if code == 1 {
            MemoryAreaType::Usable
        } else if code == 2 {
            MemoryAreaType::Reserved
        } else if code == 3 {
            MemoryAreaType::AcpiReclaimable
        } else if code == 4 {
            MemoryAreaType::AcpiNvs
        } else if code == 5 {
            MemoryAreaType::BadRam
        } else {
            MemoryAreaType::Unknown(code)
        }
    }

    /// The code that stands for this kind.
    pub open spec fn spec_code(self) -> u32 {
        match self {
            MemoryAreaType::Usable => 1,
            MemoryAreaType::Reserved => 2,
            MemoryAreaType::AcpiReclaimable => 3,
            MemoryAreaType::AcpiNvs => 4,
            MemoryAreaType::BadRam => 5,
            MemoryAreaType::Unknown(code) => code,
        }
    }

    /// The code that stands for this kind.
    #[verifier::when_used_as_spec(spec_code)]
    pub fn code(self) -> (code: u32)
        ensures
            code == self.spec_code(),
    {
        match self {
            MemoryAreaType::Usable => 1,
            MemoryAreaType::Reserved => 2,
            MemoryAreaType::AcpiReclaimable => 3,
            MemoryAreaType::AcpiNvs => 4,
            MemoryAreaType::BadRam => 5,
            MemoryAreaType::Unknown(code) => code,
        }
    }
}

/// Decoding keeps the code: whatever code an entry carries, known or not,
/// the kind decoded from it gives that code back.
pub proof fn lemma_code_is_kept(code: u32)
    ensures
        MemoryAreaType::from_code(code).code() == code,
{
}

/// A range of physical memory and what it may be used for.
#[derive(Clone, Copy, Debug, PartialEq, Eq, Structural)]
pub struct MemoryArea {
    pub base_addr: u64,
    pub length: u64,
    pub typ: MemoryAreaType,
}

impl MemoryArea {
    /// The address of the first byte of the range.
    pub fn start(&self) -> (start: u64)
        ensures
            start == self.base_addr,
    {
        self.base_addr
    }

    /// The length of the range in bytes.
    pub fn size(&self) -> (size: u64)
        ensures
            size == self.length,
    {
        self.length
    }

    /// What the range may be used for.
    pub fn kind(&self) -> (kind: MemoryAreaType)
        ensures
            kind == self.typ,
    {
        self.typ
    }
}

/// The entry whose bytes start at `at`.
pub open spec fn area_at(data: Seq<u8>, at: int) -> MemoryArea {
    MemoryArea {
        base_addr: le_u64(data, at),
        length: le_u64(data, at + 8),
        typ: MemoryAreaType::from_code(le_u32(data, at + 16)),
    }
}

/// The width of the entries of the memory map `tag`, as the record declares
/// it.
pub open spec fn entry_width(data: Seq<u8>, tag: Tag) -> int {
    le_u32(data, tag.offset + 8) as int
}

/// How many entries of the declared width lie whole in the payload of the
/// memory map `tag`. A width too small for the known fields gives none.
pub open spec fn entry_count(data: Seq<u8>, tag: Tag) -> nat {
    whole_records(tag_end(data, tag) - (tag.offset + 16), entry_width(data, tag), 24)
}

/// Where entry `i` of the memory map `tag` starts: `i` widths behind the
/// record's own sixteen bytes, whatever the width.
pub open spec fn entry_offset(data: Seq<u8>, tag: Tag, i: int) -> int {
    tag.offset + 16 + i * entry_width(data, tag)
}

/// The entries of the memory map `tag`, in order.
pub open spec fn entries_of(data: Seq<u8>, tag: Tag) -> Seq<MemoryArea> {
    Seq::new(entry_count(data, tag), |i: int| area_at(data, entry_offset(data, tag, i)))
}

/// The memory areas that the block describes: the entries of its first
/// memory map, or none if it has no such record.
pub open spec fn memory_areas_of(data: Seq<u8>) -> Seq<MemoryArea> {
    match find_tag(data, MEMORY_MAP_TAG) {
        Some(tag) => entries_of(data, tag),
        None => Seq::empty(),
    }
}

/// A memory map that lies whole in the block and holds `count` entries of
/// width `width` yields exactly `count` areas, and area `i` is decoded from
/// the first bytes of entry `i`: what an entry holds beyond the known fields
/// is passed over.
pub proof fn lemma_every_entry_is_yielded(data: Seq<u8>, tag: Tag, count: nat, width: nat)
    requires
        find_tag(data, MEMORY_MAP_TAG) == Some(tag),
        tag.offset + tag.size <= limit(data),
        width == entry_width(data, tag),
        width >= 24,
        tag.size == 16 + count * width,
    ensures
        memory_areas_of(data).len() == count,
        forall|i: int|
            0 <= i < count ==> #[trigger] memory_areas_of(data)[i] == area_at(
                data,
                tag.offset + 16 + i * width,
            ),
{
    assert(tag_end(data, tag) - (tag.offset + 16) == count * width);
    assert((count * width) / width == count) by (nonlinear_arith)
        requires
            width > 0,
            count >= 0,
    ;
}

/// Whatever the block holds, every entry that is decoded lies whole in its
/// record and before the block's end: no area is read from beyond the size
/// that the block declares.
pub proof fn lemma_entries_lie_in_block(data: Seq<u8>, tag: Tag)
    ensures
        tag_end(data, tag) <= limit(data),
        forall|i: int|
            0 <= i < entry_count(data, tag) ==> tag.offset + 16 <= #[trigger] entry_offset(
                data,
                tag,
                i,
            ) && entry_offset(data, tag, i) + 24 <= tag_end(data, tag),
{
    let width = entry_width(data, tag);
    let room = tag_end(data, tag) - (tag.offset + 16);
    assert forall|i: int| 0 <= i < entry_count(data, tag) implies tag.offset + 16
        <= #[trigger] entry_offset(data, tag, i) && entry_offset(data, tag, i) + 24 <= tag_end(
        data,
        tag,
    ) by {
        assert(i * width >= 0) by (nonlinear_arith)
            requires
                0 <= i,
                width > 0,
        ;
        assert(i * width + width <= room) by (nonlinear_arith)
            requires
                0 <= i < room / width,
                width > 0,
                room >= 0,
        ;
    }
}

/// The areas that are usable, in the order in which `areas` holds them.
pub open spec fn usable_of(areas: Seq<MemoryArea>) -> Seq<MemoryArea> {
    areas.filter(|area: MemoryArea| area.typ == MemoryAreaType::Usable)
}

/// The usable ones among `areas`, in their order.
pub fn usable_areas(areas: &[MemoryArea]) -> (usable: Vec<MemoryArea>)
    ensures
        usable@ == usable_of(areas@),
{
    let mut usable: Vec<MemoryArea> = Vec::new();
    let mut i: usize = 0;
    while i < areas.len()
        invariant
            i <= areas@.len(),
            usable@ == usable_of(areas@.take(i as int)),
        decreases areas@.len() - i,
    {
        let area: MemoryArea = areas[i];
        proof {
            let is_usable = |area: MemoryArea| area.typ == MemoryAreaType::Usable;
            assert(areas@.take(i + 1) =~= areas@.take(i as int).push(area));
            areas@.take(i as int).lemma_filter_push(area, is_usable);
        }
        if area.kind() == MemoryAreaType::Usable {
            usable.push(area);
        }
        i = i + 1;
    }
    assert(areas@.take(i as int) =~= areas@);
    usable
}

/// The areas of a memory map, handed out one at a time.
pub struct MemoryAreaIter<'a> {
    entries: Records<'a>,
}

impl<'a> View for MemoryAreaIter<'a> {
    type V = Seq<MemoryArea>;

    /// The areas still to come.
    closed spec fn view(&self) -> Seq<MemoryArea> {
        self.entries.offsets().map_values(|at: int| area_at(self.entries.data(), at))
    }
}

impl<'a> MemoryAreaIter<'a> {
    #[verifier::type_invariant]
    spec fn wide_enough(self) -> bool {
        self.entries.width() == 24
    }

    /// The next area, if one is left.
    pub fn next(&mut self) -> (area: Option<MemoryArea>)
        ensures
            old(self)@.len() == 0 ==> area is None && final(self)@ == old(self)@,
            old(self)@.len() > 0 ==> area == Some(old(self)@[0]) && final(self)@ == old(
                self,
            )@.drop_first(),
    {
        proof {
            use_type_invariant(&*self);
        }
        let ghost before = self@;
        match self.entries.next() {
            None => None,
            Some(at) => {
                assert(self@ =~= before.drop_first());
                Some(read_area(self.entries.bytes(), at))
            },
        }
    }

    /// The areas that are left, all at once.
    pub fn collect(self) -> (areas: Vec<MemoryArea>)
        ensures
            areas@ == self@,
    {
        let ghost all = self@;
        let mut rest = self;
        let mut areas: Vec<MemoryArea> = Vec::new();
        loop
            invariant_except_break
                all == areas@ + rest@,
            ensures
                areas@ == all,
            decreases rest@.len(),
        {
            let ghost left = rest@;
            match rest.next() {
                None => {
                    assert(areas@ + left =~= areas@);
                    break ;
                },
                Some(area) => {
                    assert(areas@.push(area) + left.drop_first() =~= areas@ + left);
                    areas.push(area);
                },
            }
        }
        areas
    }
}

/// Decodes the entry at `at`.
fn read_area(data: &[u8], at: usize) -> (area: MemoryArea)
    requires
        at + 24 <= data@.len(),
    ensures
        area == area_at(data@, at as int),
{
    proof {
        lemma_len_fits(data);
    }
    let base_addr: u64 = read_u64(data, at);
    let length: u64 = read_u64(data, at + 8);
    let code: u32 = read_u32(data, at + 16);
    MemoryArea { base_addr, length, typ: MemoryAreaType::from_code(code) }
}

impl<'a> MultibootInfo<'a> {
    /// The memory areas that the block describes, in the order of its memory
    /// map. A block without a memory map describes none.
    pub fn memory_areas(&self) -> (areas: MemoryAreaIter<'a>)
        ensures
            areas@ == memory_areas_of(self@),
    {
        let data = self.bytes();
        let tag = match self.find_tag(MEMORY_MAP_TAG) {
            Some(tag) => tag,
            None => {
                let areas = MemoryAreaIter { entries: Records::none(data, MEMORY_AREA_SIZE) };
                assert(areas@ =~= Seq::<MemoryArea>::empty());
                return areas;
            },
        };
        let end: usize = self.end_of(&tag);
        if tag.offset > end || end - tag.offset < MEMORY_MAP_HEADER {
            let areas = MemoryAreaIter { entries: Records::none(data, MEMORY_AREA_SIZE) };
            assert(areas@ =~= entries_of(self@, tag));
            return areas;
        }
        let first: usize = tag.offset + MEMORY_MAP_HEADER;
        let stride: usize = read_u32(data, tag.offset + 8) as usize;
        let entries = Records::between(data, first, end, stride, MEMORY_AREA_SIZE);
        let areas = MemoryAreaIter { entries };
        assert(areas@ =~= entries_of(self@, tag));
        areas
    }
}

} // verus!
