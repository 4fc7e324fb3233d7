use kernel::drivers::vga::{init, Console, Writer, BUFFER_CELLS, BUFFER_WIDTH};
use kernel::multiboot::{
    ElfSection, MemoryArea, MemoryAreaType, MultibootInfo, ELF_SECTIONS_TAG, END_TAG,
    MEMORY_MAP_TAG,
};
use kernel::report::{area_line, panic_lines, report_lines, section_line};
use kernel::{kernel_main, panic_fmt, panic_report, plan, Action, KernelState};
use volatile::Volatile;

fn push_u32(bytes: &mut Vec<u8>, value: u32) {
    bytes.extend_from_slice(&value.to_le_bytes());
}

fn push_u64(bytes: &mut Vec<u8>, value: u64) {
    bytes.extend_from_slice(&value.to_le_bytes());
}

fn record(typ: u32, payload: &[u8]) -> Vec<u8> {
    let mut bytes = Vec::new();
    push_u32(&mut bytes, typ);
    push_u32(&mut bytes, 8 + payload.len() as u32);
    bytes.extend_from_slice(payload);
    bytes
}

fn memory_map(entries: &[(u64, u64, u32)]) -> Vec<u8> {
    let mut payload = Vec::new();
    push_u32(&mut payload, 24);
    push_u32(&mut payload, 0);
    for &(base, length, code) in entries {
        push_u64(&mut payload, base);
        push_u64(&mut payload, length);
        push_u32(&mut payload, code);
        push_u32(&mut payload, 0);
    }
    record(MEMORY_MAP_TAG, &payload)
}

fn section_table(sections: &[(u32, u64, u64, u64)]) -> Vec<u8> {
    let mut payload = Vec::new();
    push_u32(&mut payload, sections.len() as u32);
    push_u32(&mut payload, 64);
    push_u32(&mut payload, 0);
    for &(typ, addr, size, flags) in sections {
        push_u32(&mut payload, 0);
        push_u32(&mut payload, typ);
        push_u64(&mut payload, flags);
        push_u64(&mut payload, addr);
        push_u64(&mut payload, 0);
        push_u64(&mut payload, size);
        payload.extend_from_slice(&[0; 24]);
    }
    record(ELF_SECTIONS_TAG, &payload)
}

fn block(records: &[Vec<u8>]) -> Vec<u8> {
    let mut bytes = vec![0u8; 8];
    for record in records {
        bytes.extend_from_slice(record);
        while bytes.len() % 8 != 0 {
            bytes.push(0);
        }
    }
    let total = bytes.len() as u32;
    bytes[0..4].copy_from_slice(&total.to_le_bytes());
    bytes
}

fn cells() -> [Volatile<u16>; BUFFER_CELLS] {
    core::array::from_fn(|_| Volatile::new(0))
}

fn row(console: &Console, row: usize) -> String {
    let mut held = console.lock();
    let glyphs: Vec<u8> = (0..BUFFER_WIDTH)
        .map(|column| held.writer().cell(row, column).unwrap().ascii_character)
        .collect();
    String::from_utf8(glyphs).unwrap().trim_end().to_string()
}

fn cursor(console: &Console) -> (usize, usize) {
    let mut held = console.lock();
    (held.writer().row(), held.writer().column())
}

fn texts(lines: &[Vec<u8>]) -> Vec<String> {
    lines.iter().map(|line| String::from_utf8(line.clone()).unwrap()).collect()
}

fn section(addr: u64, size: u64, flags: u64) -> ElfSection {
    ElfSection {
        name_index: 0,
        typ: 1,
        flags,
        addr,
        offset: 0,
        size,
        link: 0,
        info: 0,
        addralign: 0,
        entry_size: 0,
    }
}

#[test]
fn states_follow_each_other_up_to_idle() {
    assert_eq!(KernelState::Booting.next(), KernelState::Reporting);
    assert_eq!(KernelState::Reporting.next(), KernelState::Idle);
    assert_eq!(KernelState::Idle.next(), KernelState::Idle);
}

fn shown(writer: &Writer, row: usize) -> String {
    let glyphs: Vec<u8> = (0..BUFFER_WIDTH)
        .map(|column| writer.cell(row, column).unwrap().ascii_character)
        .collect();
    String::from_utf8(glyphs).unwrap().trim_end().to_string()
}

#[test]
fn each_state_has_its_action() {
    let bytes = block(&[memory_map(&[(0x1000, 0x2000, 1)]), record(END_TAG, &[])]);
    let info = MultibootInfo::new(&bytes);
    let (next, action) = plan(KernelState::Booting, &info);
    assert_eq!(next, KernelState::Reporting);
    assert!(matches!(action, Action::InitDisplay));
    let (next, action) = plan(KernelState::Reporting, &info);
    assert_eq!(next, KernelState::Idle);
    match action {
        Action::Print(lines) => assert_eq!(
            texts(&lines),
            vec!["memory areas:", "  base 0x1000, size 0x2000", "kernel sections:"]
        ),
        _ => panic!("the report is printed on leaving the state Reporting"),
    }
    let (next, action) = plan(KernelState::Idle, &info);
    assert_eq!(next, KernelState::Idle);
    assert!(matches!(action, Action::Halt));
}

#[test]
fn each_action_does_its_part() {
    let mut grid = cells();
    let mut display = Writer::new(&mut grid);
    display.write_str("left over\nfrom before");
    Action::InitDisplay.perform(&mut display);
    assert_eq!((display.row(), display.column()), (0, 0));
    for r in 0..25 {
        assert_eq!(shown(&display, r), "");
    }
    display.write_str("> ");
    Action::Print(vec![b"one".to_vec(), b"two".to_vec()]).perform(&mut display);
    assert_eq!(shown(&display, 0), "> one");
    assert_eq!(shown(&display, 1), "two");
    assert_eq!((display.row(), display.column()), (2, 0));
    Action::Halt.perform(&mut display);
    assert_eq!(shown(&display, 0), "> one");
    assert_eq!(shown(&display, 1), "two");
    assert_eq!(shown(&display, 2), "");
    assert_eq!((display.row(), display.column()), (2, 0));
}

#[test]
fn planned_actions_in_turn_show_the_report_only() {
    let bytes = block(&[
        memory_map(&[(0x100000, 0x200000, 1), (0x300000, 0x1000, 2)]),
        section_table(&[(0, 0, 0, 0), (1, 0x400000, 0x1000, 0x3)]),
        record(END_TAG, &[]),
    ]);
    let info = MultibootInfo::new(&bytes);
    let mut grid = cells();
    let mut display = Writer::new(&mut grid);
    for _ in 0..40 {
        display.write_str("noise ");
    }
    let mut state = KernelState::Booting;
    while state != KernelState::Idle {
        let (next, action) = plan(state, &info);
        action.perform(&mut display);
        state = next;
    }
    assert_eq!(shown(&display, 0), "memory areas:");
    assert_eq!(shown(&display, 1), "  base 0x100000, size 0x200000");
    assert_eq!(shown(&display, 2), "kernel sections:");
    assert_eq!(shown(&display, 3), "  base 0x400000, size 0x1000, flags 0x3");
    for r in 4..25 {
        assert_eq!(shown(&display, r), "");
    }
    assert_eq!((display.row(), display.column()), (4, 0));
}

#[test]
fn long_report_scrolls_and_keeps_its_end() {
    let areas: Vec<(u64, u64, u32)> = (0..30).map(|i| (i * 0x1000, 0x1000, 1)).collect();
    let bytes = block(&[memory_map(&areas), record(END_TAG, &[])]);
    let mut grid = cells();
    let console = init(&mut grid);
    kernel_main(&bytes, &console);
    assert_eq!(row(&console, 0), "  base 0x7000, size 0x1000");
    assert_eq!(row(&console, 22), "  base 0x1d000, size 0x1000");
    assert_eq!(row(&console, 23), "kernel sections:");
    assert_eq!(row(&console, 24), "");
    assert_eq!(cursor(&console), (24, 0));
}

#[test]
fn panic_report_goes_on_from_the_cursor() {
    let mut grid = cells();
    let mut display = Writer::new(&mut grid);
    display.write_str("busy");
    panic_report(&mut display, "X", "f", 42);
    assert_eq!(shown(&display, 0), "busy");
    assert_eq!(shown(&display, 1), "");
    assert_eq!(shown(&display, 2), "panic in file f on line 42:");
    assert_eq!(shown(&display, 3), "  X");
    assert_eq!((display.row(), display.column()), (4, 0));
}

#[test]
fn area_line_gives_base_and_size_in_hex() {
    let area = MemoryArea { base_addr: 0x100000, length: 0x200000, typ: MemoryAreaType::Usable };
    assert_eq!(area_line(&area), b"  base 0x100000, size 0x200000");
    let empty = MemoryArea { base_addr: 0, length: 0, typ: MemoryAreaType::Reserved };
    assert_eq!(area_line(&empty), b"  base 0x0, size 0x0");
}

#[test]
fn section_line_gives_base_size_and_flags_in_hex() {
    assert_eq!(
        section_line(&section(0x400000, 0x1000, 0x3)),
        b"  base 0x400000, size 0x1000, flags 0x3"
    );
    assert_eq!(
        section_line(&section(u64::MAX, 0, 0x10)),
        b"  base 0xffffffffffffffff, size 0x0, flags 0x10"
    );
}

#[test]
fn report_lists_usable_areas_and_all_sections() {
    let bytes = block(&[
        memory_map(&[
            (0, 0x9fc00, 1),
            (0x9fc00, 0x400, 2),
            (0xf0000, 0x10000, 77),
            (0x100000, 0x7ee0000, 1),
            (0x7fe0000, 0x20000, 3),
        ]),
        section_table(&[
            (0, 0, 0, 0),
            (1, 0x100000, 0x5000, 0x6),
            (1, 0x105000, 0x1000, 0x2),
            (8, 0x106000, 0x3000, 0x3),
        ]),
        record(END_TAG, &[]),
    ]);
    let info = MultibootInfo::new(&bytes);
    assert_eq!(
        texts(&report_lines(&info)),
        vec![
            "memory areas:",
            "  base 0x0, size 0x9fc00",
            "  base 0x100000, size 0x7ee0000",
            "kernel sections:",
            "  base 0x100000, size 0x5000, flags 0x6",
            "  base 0x105000, size 0x1000, flags 0x2",
            "  base 0x106000, size 0x3000, flags 0x3",
        ]
    );
}

#[test]
fn report_on_an_empty_block_has_only_headings() {
    for bytes in [Vec::new(), vec![0u8; 8], block(&[record(END_TAG, &[])])] {
        let info = MultibootInfo::new(&bytes);
        assert_eq!(texts(&report_lines(&info)), vec!["memory areas:", "kernel sections:"]);
    }
}

#[test]
fn boot_renders_the_report_on_the_display() {
    let bytes = block(&[
        memory_map(&[(0x100000, 0x200000, 1)]),
        section_table(&[(1, 0x400000, 0x1000, 0x3)]),
        record(END_TAG, &[]),
    ]);
    let mut grid = cells();
    let console = init(&mut grid);
    assert_eq!(kernel_main(&bytes, &console), KernelState::Idle);
    assert_eq!(row(&console, 0), "memory areas:");
    assert_eq!(row(&console, 1), "  base 0x100000, size 0x200000");
    assert_eq!(row(&console, 2), "kernel sections:");
    assert_eq!(row(&console, 3), "  base 0x400000, size 0x1000, flags 0x3");
    assert_eq!(row(&console, 1).trim(), "base 0x100000, size 0x200000");
    assert_eq!(row(&console, 3).trim(), "base 0x400000, size 0x1000, flags 0x3");
    for empty in 4..25 {
        assert_eq!(row(&console, empty), "");
    }
    assert_eq!(cursor(&console), (4, 0));
}

#[test]
fn boot_initialises_the_display_first() {
    let bytes = block(&[record(END_TAG, &[])]);
    let mut grid = cells();
    let console = init(&mut grid);
    for _ in 0..30 {
        console.lock().writer().write_line(b"left over from before");
    }
    assert_eq!(kernel_main(&bytes, &console), KernelState::Idle);
    assert_eq!(row(&console, 0), "memory areas:");
    assert_eq!(row(&console, 1), "kernel sections:");
    for empty in 2..25 {
        assert_eq!(row(&console, empty), "");
    }
}

#[test]
fn boot_shows_only_usable_areas() {
    let bytes = block(&[
        memory_map(&[(0x1000, 0x10, 2), (0x2000, 0x20, 1), (0x3000, 0x30, 5), (0x4000, 0x40, 1)]),
        record(END_TAG, &[]),
    ]);
    let mut grid = cells();
    let console = init(&mut grid);
    kernel_main(&bytes, &console);
    assert_eq!(row(&console, 0), "memory areas:");
    assert_eq!(row(&console, 1), "  base 0x2000, size 0x20");
    assert_eq!(row(&console, 2), "  base 0x4000, size 0x40");
    assert_eq!(row(&console, 3), "kernel sections:");
    assert_eq!(row(&console, 4), "");
}

#[test]
fn boot_tolerates_a_malformed_block() {
    let mut bytes = block(&[memory_map(&[(0x1000, 0x10, 1)]), record(END_TAG, &[])]);
    bytes[12..16].copy_from_slice(&0u32.to_le_bytes());
    let mut grid = cells();
    let console = init(&mut grid);
    assert_eq!(kernel_main(&bytes, &console), KernelState::Idle);
    assert_eq!(row(&console, 0), "memory areas:");
    assert_eq!(row(&console, 1), "kernel sections:");
    let mut grid = cells();
    let console = init(&mut grid);
    assert_eq!(kernel_main(&[1, 2, 3], &console), KernelState::Idle);
    assert_eq!(row(&console, 0), "memory areas:");
    assert_eq!(row(&console, 1), "kernel sections:");
}

#[test]
fn panic_message_names_file_line_and_message() {
    assert_eq!(
        texts(&panic_lines("X", "f", 42)),
        vec!["\n\npanic in file f on line 42:", "  X"]
    );
    assert_eq!(
        texts(&panic_lines("index out of bounds", "src/multiboot.rs", u32::MAX)),
        vec!["\n\npanic in file src/multiboot.rs on line 4294967295:", "  index out of bounds"]
    );
    assert_eq!(texts(&panic_lines("", "", 0)), vec!["\n\npanic in file  on line 0:", "  "]);
}

#[test]
fn panic_prints_file_line_and_message() {
    let mut grid = cells();
    let console = init(&mut grid);
    console.lock().writer().write_bytes(b"in the middle of a row");
    assert_eq!(panic_fmt(&console, "X", "f", 42), KernelState::Idle);
    assert_eq!(row(&console, 0), "in the middle of a row");
    assert_eq!(row(&console, 1), "");
    assert_eq!(row(&console, 2), "panic in file f on line 42:");
    assert_eq!(row(&console, 3), "  X");
    assert_eq!(cursor(&console), (4, 0));
    let shown: String = (0..25).map(|r| row(&console, r) + "\n").collect();
    assert!(shown.contains("f"));
    assert!(shown.contains("42"));
    assert!(shown.contains("X"));
}

#[test]
fn panic_after_boot_is_shown_below_the_report() {
    let bytes = block(&[memory_map(&[(0x1000, 0x10, 1)]), record(END_TAG, &[])]);
    let mut grid = cells();
    let console = init(&mut grid);
    kernel_main(&bytes, &console);
    panic_fmt(&console, "out of memory", "memory.rs", 7);
    assert_eq!(row(&console, 0), "memory areas:");
    assert_eq!(row(&console, 1), "  base 0x1000, size 0x10");
    assert_eq!(row(&console, 2), "kernel sections:");
    assert_eq!(row(&console, 3), "");
    assert_eq!(row(&console, 4), "");
    assert_eq!(row(&console, 5), "panic in file memory.rs on line 7:");
    assert_eq!(row(&console, 6), "  out of memory");
}
