//! What the kernel has to say: the report on memory and sections that it
//! prints at boot, and the message of a panic, both as lines of text.

use vstd::prelude::*;
use vstd::string::{StrSliceExecFns, StringSliceAdditionalSpecFns};

use crate::multiboot::elf_sections::{sections_of, ElfSection};
use crate::multiboot::memory_map::{memory_areas_of, usable_areas, usable_of, MemoryArea};
use crate::multiboot::MultibootInfo;
use crate::text::{decimal_of, lines_of, render, render_of, text_of, Piece, NEWLINE};

verus! {

/// The line that reports `area`: its base address and its size in
/// hexadecimal.
pub open spec fn area_line_of(area: MemoryArea) -> Seq<u8> {
    render_of(
        seq![
            Piece::Text("  base "),
            Piece::Hex(area.base_addr),
            Piece::Text(", size "),
            Piece::Hex(area.length),
        ],
    )
}

/// The line that reports `section`: its base address, its size and its
/// flags in hexadecimal.
pub open spec fn section_line_of(section: ElfSection) -> Seq<u8> {
    render_of(
        seq![
            Piece::Text("  base "),
            Piece::Hex(section.addr),
            Piece::Text(", size "),
            Piece::Hex(section.size),
            Piece::Text(", flags "),
            Piece::Hex(section.flags),
        ],
    )
}

/// A line for each of `areas`, in their order.
pub open spec fn area_lines_of(areas: Seq<MemoryArea>) -> Seq<Seq<u8>> {
    areas.map_values(|area: MemoryArea| area_line_of(area))
}

/// A line for each of `sections`, in their order.
pub open spec fn section_lines_of(sections: Seq<ElfSection>) -> Seq<Seq<u8>> {
    sections.map_values(|section: ElfSection| section_line_of(section))
}

/// The report on a boot information block, line by line: a heading and a
/// line for each usable memory area, then a heading and a line for each
/// section of the kernel, all in the order of the block.
pub open spec fn report_of(data: Seq<u8>) -> Seq<Seq<u8>> {
    seq!["memory areas:".spec_bytes()] + area_lines_of(usable_of(memory_areas_of(data)))
        + seq!["kernel sections:".spec_bytes()] + section_lines_of(sections_of(data))
}

/// The message of a panic, line by line: after two empty rows the file and
/// the line of the panic, then the message itself.
pub open spec fn panic_report_of(message: &str, file: &str, line: u32) -> Seq<Seq<u8>> {
    seq![
        render_of(
            seq![
                Piece::Text("\n\npanic in file "),
                Piece::Text(file),
                Piece::Text(" on line "),
                Piece::Unsigned(line as u64),
                Piece::Text(":"),
            ],
        ),
        render_of(seq![Piece::Text("  "), Piece::Text(message)]),
    ]
}

/// Whether the bytes of `run` stand somewhere in `text`, one behind the
/// other.
pub open spec fn holds_run(text: Seq<u8>, run: Seq<u8>) -> bool {
    exists|at: int|
        0 <= at && at + run.len() <= text.len() && #[trigger] text.subrange(
            at,
            at + run.len(),
        ) == run
}

/// Whatever the panic, what is printed of it holds the name of the file,
/// the number of the line in decimal digits, and the message.
pub proof fn lemma_panic_report_names_all(message: &str, file: &str, line: u32)
    ensures
        holds_run(text_of(panic_report_of(message, file, line)), file.spec_bytes()),
        holds_run(text_of(panic_report_of(message, file, line)), decimal_of(line as u64)),
        holds_run(text_of(panic_report_of(message, file, line)), message.spec_bytes()),
{
    let lines = panic_report_of(message, file, line);
    let text = text_of(lines);
    let lead = "\n\npanic in file ".spec_bytes();
    let mid = " on line ".spec_bytes();
    let colon = ":".spec_bytes();
    let indent = "  ".spec_bytes();
    let named = file.spec_bytes();
    let digits = decimal_of(line as u64);
    let said = message.spec_bytes();
    let place = lead + named + mid + digits + colon;
    assert(lines[0] =~= place) by {
        reveal_with_fuel(render_of, 6);
    }
    assert(lines[1] =~= indent + said) by {
        reveal_with_fuel(render_of, 3);
    }
    assert(text =~= place.push(NEWLINE) + (indent + said).push(NEWLINE)) by {
        reveal_with_fuel(text_of, 3);
        assert(lines.drop_last() =~= seq![lines[0]]);
        assert(lines.drop_last().drop_last() =~= Seq::<Seq<u8>>::empty());
    }
    let at_file = lead.len() as int;
    assert(text.subrange(at_file, at_file + named.len()) =~= named);
    let at_line = (lead.len() + named.len() + mid.len()) as int;
    assert(text.subrange(at_line, at_line + digits.len()) =~= digits);
    let at_message = (place.len() + 1 + indent.len()) as int;
    assert(text.subrange(at_message, at_message + said.len()) =~= said);
}

/// The line that reports `area`.
pub fn area_line(area: &MemoryArea) -> (line: Vec<u8>)
    ensures
        line@ == area_line_of(*area),
{
    let pieces = [
        Piece::Text("  base "),
        Piece::Hex(area.start()),
        Piece::Text(", size "),
        Piece::Hex(area.size()),
    ];
    assert(pieces@ =~= seq![
        Piece::Text("  base "),
        Piece::Hex(area.base_addr),
        Piece::Text(", size "),
        Piece::Hex(area.length),
    ]);
    render(pieces.as_slice())
}

/// The line that reports `section`.
pub fn section_line(section: &ElfSection) -> (line: Vec<u8>)
    ensures
        line@ == section_line_of(*section),
{
    let pieces = [
        Piece::Text("  base "),
        Piece::Hex(section.start()),
        Piece::Text(", size "),
        Piece::Hex(section.size()),
        Piece::Text(", flags "),
        Piece::Hex(section.flags),
    ];
    assert(pieces@ =~= seq![
        Piece::Text("  base "),
        Piece::Hex(section.addr),
        Piece::Text(", size "),
        Piece::Hex(section.size),
        Piece::Text(", flags "),
        Piece::Hex(section.flags),
    ]);
    render(pieces.as_slice())
}

/// The report on `info`, line by line.
pub fn report_lines(info: &MultibootInfo) -> (lines: Vec<Vec<u8>>)
    ensures
        lines_of(lines@) == report_of(info@),
{
    let mut lines: Vec<Vec<u8>> = Vec::new();
    lines.push("memory areas:".as_bytes_vec());
    let areas = usable_areas(info.memory_areas().collect().as_slice());
    let ghost heading = lines_of(lines@);
    assert(heading =~= seq!["memory areas:".spec_bytes()]);
    assert(areas@ == usable_of(memory_areas_of(info@)));
    let mut i: usize = 0;
    while i < areas.len()
        invariant
            i <= areas@.len(),
            lines_of(lines@) == heading + area_lines_of(areas@.take(i as int)),
        decreases areas@.len() - i,
    {
        let ghost above = lines@;
        let line = area_line(&areas[i]);
        lines.push(line);
        assert(lines_of(lines@) =~= lines_of(above).push(line@));
        assert(area_lines_of(areas@.take(i + 1)) =~= area_lines_of(areas@.take(i as int)).push(
            line@,
        ));
        i = i + 1;
    }
    assert(areas@.take(i as int) =~= areas@);
    let ghost above = lines@;
    lines.push("kernel sections:".as_bytes_vec());
    let sections = info.sections().collect();
    let ghost upper = lines_of(lines@);
    assert(upper =~= lines_of(above) + seq!["kernel sections:".spec_bytes()]);
    let mut j: usize = 0;
    while j < sections.len()
        invariant
            j <= sections@.len(),
            lines_of(lines@) == upper + section_lines_of(sections@.take(j as int)),
        decreases sections@.len() - j,
    {
        let ghost above = lines@;
        let line = section_line(&sections[j]);
        lines.push(line);
        assert(lines_of(lines@) =~= lines_of(above).push(line@));
        assert(section_lines_of(sections@.take(j + 1)) =~= section_lines_of(
            sections@.take(j as int),
        ).push(line@));
        j = j + 1;
    }
    assert(sections@.take(j as int) =~= sections@);
    lines
}

/// The message of a panic with the message `message`, raised in line `line`
/// of the file `file`, line by line.
pub fn panic_lines(message: &str, file: &str, line: u32) -> (lines: Vec<Vec<u8>>)
    ensures
        lines_of(lines@) == panic_report_of(message, file, line),
{
    let place = [
        Piece::Text("\n\npanic in file "),
        Piece::Text(file),
        Piece::Text(" on line "),
        Piece::Unsigned(line as u64),
        Piece::Text(":"),
    ];
    let said = [Piece::Text("  "), Piece::Text(message)];
    let mut lines: Vec<Vec<u8>> = Vec::new();
    lines.push(render(place.as_slice()));
    lines.push(render(said.as_slice()));
    lines
}

} // verus!
