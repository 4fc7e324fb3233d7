//! The table of ELF section headers: a record that carries the section
//! headers of the loaded kernel image, each copied as the image holds it.

use vstd::prelude::*;

use crate::multiboot::records::{whole_records, Records};
use crate::multiboot::tag::{find_tag, tag_end, Tag};
use crate::multiboot::{limit, MultibootInfo, ELF_SECTIONS_TAG};
use crate::wire::{le_u32, le_u64, lemma_len_fits, read_u32, read_u64};

verus! {

/// Bytes of the record before its first section header: type, size, number
/// of headers, header size and the index of the string table.
pub const ELF_SECTIONS_HEADER: usize = 20;

/// Bytes of a 64-bit ELF section header.
pub const ELF_SECTION_SIZE: usize = 64;

/// The section type of the reserved header that opens an ELF section table.
pub const ELF_SECTION_UNUSED: u32 = 0;

/// The flag of a section that is writable while the image runs.
pub const ELF_SECTION_WRITABLE: u64 = 0x1;

/// The flag of a section that takes up memory while the image runs.
pub const ELF_SECTION_ALLOCATED: u64 = 0x2;

/// The flag of a section that holds machine instructions.
pub const ELF_SECTION_EXECUTABLE: u64 = 0x4;

/// One section of the kernel image, as its 64-bit ELF section header
/// describes it.
#[derive(Clone, Copy, Debug, PartialEq, Eq, Structural)]
pub struct ElfSection {
    pub name_index: u32,
    pub typ: u32,
    pub flags: u64,
    pub addr: u64,
    pub offset: u64,
    pub size: u64,
    pub link: u32,
    pub info: u32,
    pub addralign: u64,
    pub entry_size: u64,
}

impl ElfSection {
    /// The address at which the section starts.
    pub fn start(&self) -> (start: u64)
        ensures
            start == self.addr,
    {
        self.addr
    }

    /// The length of the section in bytes.
    pub fn size(&self) -> (size: u64)
        ensures
            size == self.size,
    {
        self.size
    }

    /// Whether the section is writable while the image runs.
    pub fn is_writable(&self) -> (writable: bool)
        ensures
            writable == (self.flags & ELF_SECTION_WRITABLE != 0),
    {
        self.flags & ELF_SECTION_WRITABLE != 0
    }

    /// Whether the section takes up memory while the image runs.
    pub fn is_allocated(&self) -> (allocated: bool)
        ensures
            allocated == (self.flags & ELF_SECTION_ALLOCATED != 0),
    {
        self.flags & ELF_SECTION_ALLOCATED != 0
    }

    /// Whether the section holds machine instructions.
    pub fn is_executable(&self) -> (executable: bool)
        ensures
            executable == (self.flags & ELF_SECTION_EXECUTABLE != 0),
    {
        self.flags & ELF_SECTION_EXECUTABLE != 0
    }
}

/// The section header whose bytes start at `at`.
pub open spec fn section_at(data: Seq<u8>, at: int) -> ElfSection {
    ElfSection {
        name_index: le_u32(data, at),
        typ: le_u32(data, at + 4),
        flags: le_u64(data, at + 8),
        addr: le_u64(data, at + 16),
        offset: le_u64(data, at + 24),
        size: le_u64(data, at + 32),
        link: le_u32(data, at + 40),
        info: le_u32(data, at + 44),
        addralign: le_u64(data, at + 48),
        entry_size: le_u64(data, at + 56),
    }
}

/// The width of the section headers of `tag`, as the record declares it.
pub open spec fn header_width(data: Seq<u8>, tag: Tag) -> int {
    le_u32(data, tag.offset + 12) as int
}

/// How many section headers `tag` holds: as many as it declares, but no
/// more than lie whole in its payload. A width too small for a section
/// header gives none.
pub open spec fn header_count(data: Seq<u8>, tag: Tag) -> nat {
    let declared = le_u32(data, tag.offset + 8) as nat;
    let whole = whole_records(tag_end(data, tag) - (tag.offset + 20), header_width(data, tag), 64);
    if declared <= whole {
        declared
    } else {
        whole
    }
}

/// Where section header `i` of `tag` starts: `i` widths behind the
/// record's own twenty bytes.
pub open spec fn header_offset(data: Seq<u8>, tag: Tag, i: int) -> int {
    tag.offset + 20 + i * header_width(data, tag)
}

/// The section headers of `tag`, in order.
pub open spec fn headers_of(data: Seq<u8>, tag: Tag) -> Seq<ElfSection> {
    Seq::new(header_count(data, tag), |i: int| section_at(data, header_offset(data, tag, i)))
}

/// `headers` without the reserved header that opens an ELF section table,
/// where it is there.
pub open spec fn without_reserved(headers: Seq<ElfSection>) -> Seq<ElfSection> {
    if headers.len() > 0 && headers[0].typ == ELF_SECTION_UNUSED {
        headers.drop_first()
    } else {
        headers
    }
}

/// The sections of the kernel that the block describes: the headers of its
/// first section table but for the reserved one, or none if it has no such
/// record.
pub open spec fn sections_of(data: Seq<u8>) -> Seq<ElfSection> {
    match find_tag(data, ELF_SECTIONS_TAG) {
        Some(tag) => without_reserved(headers_of(data, tag)),
        None => Seq::empty(),
    }
}

/// A section table that lies whole in the block, declares `count` headers
/// of width `width` and holds as many yields each of them in order, but for
/// a reserved header in the first place: what a header holds beyond the 64
/// bytes of its fields is passed over.
pub proof fn lemma_every_header_is_yielded(data: Seq<u8>, tag: Tag, count: nat, width: nat)
    requires
        find_tag(data, ELF_SECTIONS_TAG) == Some(tag),
        tag.offset + tag.size <= limit(data),
        count == le_u32(data, tag.offset + 8),
        width == header_width(data, tag),
        width >= 64,
        tag.size == 20 + count * width,
    ensures
        headers_of(data, tag).len() == count,
        forall|i: int|
            0 <= i < count ==> #[trigger] headers_of(data, tag)[i] == section_at(
                data,
                tag.offset + 20 + i * width,
            ),
        sections_of(data) == without_reserved(headers_of(data, tag)),
        sections_of(data).len() == if count > 0 && headers_of(data, tag)[0].typ
            == ELF_SECTION_UNUSED {
            count - 1
        } else {
            count as int
        },
{
    assert(tag_end(data, tag) - (tag.offset + 20) == count * width);
    assert((count * width) / width == count) by (nonlinear_arith)
        requires
            width > 0,
            count >= 0,
    ;
}

/// Whatever the block holds, every section header that is decoded lies
/// whole in its record and before the block's end.
pub proof fn lemma_headers_lie_in_block(data: Seq<u8>, tag: Tag)
    ensures
        tag_end(data, tag) <= limit(data),
        forall|i: int|
            0 <= i < header_count(data, tag) ==> tag.offset + 20 <= #[trigger] header_offset(
                data,
                tag,
                i,
            ) && header_offset(data, tag, i) + 64 <= tag_end(data, tag),
{
    let width = header_width(data, tag);
    let room = tag_end(data, tag) - (tag.offset + 20);
    assert forall|i: int| 0 <= i < header_count(data, tag) implies tag.offset + 20
        <= #[trigger] header_offset(data, tag, i) && header_offset(data, tag, i) + 64 <= tag_end(
        data,
        tag,
    ) by {
        assert(i * width >= 0) by (nonlinear_arith)
            requires
                0 <= i,
                width > 0,
        ;
        assert(i * width + width <= room) by (nonlinear_arith)
            requires
                0 <= i < room / width,
                width > 0,
                room >= 0,
        ;
    }
}

/// The sections of a section table, handed out one at a time.
pub struct ElfSectionIter<'a> {
    headers: Records<'a>,
}

impl<'a> View for ElfSectionIter<'a> {
    type V = Seq<ElfSection>;

    /// The sections still to come.
    closed spec fn view(&self) -> Seq<ElfSection> {
        self.headers.offsets().map_values(|at: int| section_at(self.headers.data(), at))
    }
}

impl<'a> ElfSectionIter<'a> {
    #[verifier::type_invariant]
    spec fn wide_enough(self) -> bool {
        self.headers.width() == 64
    }

    /// The next section, if one is left.
    pub fn next(&mut self) -> (section: Option<ElfSection>)
        ensures
            old(self)@.len() == 0 ==> section is None && final(self)@ == old(self)@,
            old(self)@.len() > 0 ==> section == Some(old(self)@[0]) && final(self)@ == old(
                self,
            )@.drop_first(),
    {
        proof {
            use_type_invariant(&*self);
        }
        let ghost before = self@;
        match self.headers.next() {
            None => None,
            Some(at) => {
                assert(self@ =~= before.drop_first());
                Some(read_section(self.headers.bytes(), at))
            },
        }
    }

    /// The sections that are left, all at once.
    pub fn collect(self) -> (sections: Vec<ElfSection>)
        ensures
            sections@ == self@,
    {
        let ghost all = self@;
        let mut rest = self;
        let mut sections: Vec<ElfSection> = Vec::new();
        loop
            invariant_except_break
                all == sections@ + rest@,
            ensures
                sections@ == all,
            decreases rest@.len(),
        {
            let ghost left = rest@;
            match rest.next() {
                None => {
                    assert(sections@ + left =~= sections@);
                    break ;
                },
                Some(section) => {
                    assert(sections@.push(section) + left.drop_first() =~= sections@ + left);
                    sections.push(section);
                },
            }
        }
        sections
    }
}

/// Decodes the section header at `at`.
fn read_section(data: &[u8], at: usize) -> (section: ElfSection)
    requires
        at + 64 <= data@.len(),
    ensures
        section == section_at(data@, at as int),
{
    proof {
        lemma_len_fits(data);
    }
    ElfSection {
        name_index: read_u32(data, at),
        typ: read_u32(data, at + 4),
        flags: read_u64(data, at + 8),
        addr: read_u64(data, at + 16),
        offset: read_u64(data, at + 24),
        size: read_u64(data, at + 32),
        link: read_u32(data, at + 40),
        info: read_u32(data, at + 44),
        addralign: read_u64(data, at + 48),
        entry_size: read_u64(data, at + 56),
    }
}

impl<'a> MultibootInfo<'a> {
    /// The sections of the kernel that the block describes, in the order of
    /// its section table. A block without a section table describes none.
    pub fn sections(&self) -> (sections: ElfSectionIter<'a>)
        ensures
            sections@ == sections_of(self@),
    {
        let data = self.bytes();
        let tag = match self.find_tag(ELF_SECTIONS_TAG) {
            Some(tag) => tag,
            None => {
                let sections = ElfSectionIter { headers: Records::none(data, ELF_SECTION_SIZE) };
                assert(sections@ =~= Seq::<ElfSection>::empty());
                return sections;
            },
        };
        let end: usize = self.end_of(&tag);
        if tag.offset > end || end - tag.offset < ELF_SECTIONS_HEADER {
            let sections = ElfSectionIter { headers: Records::none(data, ELF_SECTION_SIZE) };
            assert(sections@ =~= headers_of(self@, tag));
            return sections;
        }
        let first: usize = tag.offset + ELF_SECTIONS_HEADER;
        let declared: usize = read_u32(data, tag.offset + 8) as usize;
        let stride: usize = read_u32(data, tag.offset + 12) as usize;
        let headers = Records::between(data, first, end, stride, ELF_SECTION_SIZE).limited(
            declared,
        );
        let mut sections = ElfSectionIter { headers };
        assert(sections@ =~= headers_of(self@, tag));
        proof {
            lemma_len_fits(data);
        }
        let opens_with_reserved: bool = match sections.headers.peek() {
            Some(at) => read_u32(data, at + 4) == ELF_SECTION_UNUSED,
            None => false,
        };
        if opens_with_reserved {
            let _ = sections.next();
        }
        sections
    }
}

} // verus!
