use ferros::frame_alloc::{BootInfoFrameAllocator, MemoryRegion, RegionKind};
use ferros::harness::{panic_outcome, report_test, test_outcome, trivial_assertion, QemuExitCode, EXIT_PORT};
use ferros::paging::{
    containing_page, create_example_mapping, index_of, MapToError, OffsetPageTable, PageTableFlags,
    VGA_BUFFER_FRAME,
};
use ferros::vga::{Color, ColorCode, ScreenChar, Writer, BUFFER_HEIGHT, BUFFER_WIDTH, PLACEHOLDER};

fn region(start: u64, len: u64, kind: RegionKind) -> MemoryRegion {
    MemoryRegion { start, len, kind }
}

fn drain(alloc: &mut BootInfoFrameAllocator) -> Vec<u64> {
    let mut out = Vec::new();
    while let Some(f) = alloc.allocate() {
        out.push(f);
    }
    out
}

#[test]
fn trivial_assertion_holds() {
    assert!(trivial_assertion());
}

#[test]
fn allocator_skips_unusable_regions() {
    let map = vec![
        region(0x0, 0x1000, RegionKind::Reserved),
        region(0x1000, 0x2000, RegionKind::Usable),
        region(0x3000, 0x4000, RegionKind::KernelImage),
        region(0x7000, 0x1000, RegionKind::BootloaderOwned),
        region(0x8000, 0x1000, RegionKind::Usable),
    ];
    let mut alloc = BootInfoFrameAllocator::init(&map);
    assert_eq!(drain(&mut alloc), vec![0x1000, 0x2000, 0x8000]);
}

#[test]
fn allocator_aligns_first_frame_up() {
    let map = vec![region(0x1800, 0x2000, RegionKind::Usable)];
    let mut alloc = BootInfoFrameAllocator::init(&map);
    assert_eq!(alloc.allocate(), Some(0x2000));
    assert_eq!(alloc.allocate(), None);
}

#[test]
fn allocator_region_smaller_than_a_frame() {
    let map = vec![region(0x1001, 0x1ffe, RegionKind::Usable), region(0x5000, 0xfff, RegionKind::Usable)];
    let mut alloc = BootInfoFrameAllocator::init(&map);
    assert_eq!(alloc.allocate(), None);
}

#[test]
fn allocator_frames_distinct_aligned_increasing() {
    let map = vec![
        region(0x1000, 0x3000, RegionKind::Usable),
        region(0x4000, 0x1000, RegionKind::Reserved),
        region(0x10_0123, 0x5000, RegionKind::Usable),
    ];
    let mut alloc = BootInfoFrameAllocator::init(&map);
    let frames = drain(&mut alloc);
    assert_eq!(frames, vec![0x1000, 0x2000, 0x3000, 0x10_1000, 0x10_2000, 0x10_3000, 0x10_4000]);
    for w in frames.windows(2) {
        assert!(w[0] < w[1]);
    }
    for f in &frames {
        assert_eq!(f % 4096, 0);
    }
}

#[test]
fn allocator_exhaustion_is_permanent() {
    let map = vec![region(0x1000, 0x1000, RegionKind::Usable)];
    let mut alloc = BootInfoFrameAllocator::init(&map);
    assert_eq!(alloc.allocate(), Some(0x1000));
    for _ in 0..5 {
        assert_eq!(alloc.allocate(), None);
    }
}

#[test]
fn allocator_empty_map() {
    let mut alloc = BootInfoFrameAllocator::init(&Vec::new());
    assert_eq!(alloc.allocate(), None);
}

#[test]
fn allocator_region_at_top_of_address_space() {
    let map = vec![region(u64::MAX - 0x2fff, 0x2000, RegionKind::Usable)];
    let mut alloc = BootInfoFrameAllocator::init(&map);
    assert_eq!(alloc.allocate(), Some(u64::MAX - 0x2fff));
    assert_eq!(alloc.allocate(), Some(u64::MAX - 0x1fff));
    assert_eq!(alloc.allocate(), None);
}

fn table_setup() -> (OffsetPageTable, BootInfoFrameAllocator) {
    let pt = OffsetPageTable::new(0x1_0000_0000, 0x1000);
    let map = vec![region(0x10_0000, 0x10_0000, RegionKind::Usable)];
    (pt, BootInfoFrameAllocator::init(&map))
}

#[test]
fn map_then_translate_round_trip() {
    let (mut pt, mut alloc) = table_setup();
    let page: u64 = 0x4000_0000;
    assert_eq!(pt.map_to(page, 0x20_0000, PageTableFlags { writable: true }, &mut alloc), Ok(()));
    assert_eq!(pt.translate(page), Some(0x20_0000));
    assert_eq!(pt.translate(page + 0x123), Some(0x20_0123));
    assert_eq!(pt.translate(page + 0xfff), Some(0x20_0fff));
    // three intermediate tables came from the allocator
    assert_eq!(alloc.allocate(), Some(0x10_3000));
}

#[test]
fn translate_unmapped_is_none() {
    let (mut pt, mut alloc) = table_setup();
    assert_eq!(pt.translate(0), None);
    assert_eq!(pt.translate(0xdead_beef), None);
    pt.map_to(0x4000_0000, 0x20_0000, PageTableFlags { writable: false }, &mut alloc).unwrap();
    // next page, same leaf table
    assert_eq!(pt.translate(0x4000_1000), None);
    // other top-level entry
    assert_eq!(pt.translate(0x80_0000_0000), None);
    assert_eq!(pt.translate(0x3fff_ffff), None);
}

#[test]
fn second_mapping_reuses_tables() {
    let (mut pt, mut alloc) = table_setup();
    pt.map_to(0x4000_0000, 0x20_0000, PageTableFlags { writable: true }, &mut alloc).unwrap();
    pt.map_to(0x4000_1000, 0x30_0000, PageTableFlags { writable: true }, &mut alloc).unwrap();
    assert_eq!(pt.translate(0x4000_0010), Some(0x20_0010));
    assert_eq!(pt.translate(0x4000_1010), Some(0x30_0010));
    assert_eq!(alloc.allocate(), Some(0x10_3000));
}

#[test]
fn mapping_a_mapped_page_fails() {
    let (mut pt, mut alloc) = table_setup();
    pt.map_to(0x4000_0000, 0x20_0000, PageTableFlags { writable: true }, &mut alloc).unwrap();
    assert_eq!(
        pt.map_to(0x4000_0000, 0x30_0000, PageTableFlags { writable: true }, &mut alloc),
        Err(MapToError::PageAlreadyMapped)
    );
    assert_eq!(pt.translate(0x4000_0000), Some(0x20_0000));
}

#[test]
fn mapping_without_frames_fails() {
    let mut pt = OffsetPageTable::new(0x1_0000_0000, 0x1000);
    let map = vec![region(0x10_0000, 0x2000, RegionKind::Usable)];
    let mut alloc = BootInfoFrameAllocator::init(&map);
    assert_eq!(
        pt.map_to(0x4000_0000, 0x20_0000, PageTableFlags { writable: true }, &mut alloc),
        Err(MapToError::FrameAllocationFailed)
    );
    assert_eq!(alloc.allocate(), None);
    assert_eq!(pt.translate(0x4000_0000), None);
}

#[test]
fn example_mapping_targets_vga_buffer() {
    let (mut pt, mut alloc) = table_setup();
    assert_eq!(create_example_mapping(0, &mut pt, &mut alloc), Ok(()));
    assert_eq!(pt.translate(400 * 8), Some(VGA_BUFFER_FRAME + 400 * 8));
}

#[test]
fn table_indices_follow_bit_slices() {
    let va: u64 = (3 << 39) | (5 << 30) | (7 << 21) | (9 << 12) | 0xabc;
    assert_eq!(index_of(va, 4), 3);
    assert_eq!(index_of(va, 3), 5);
    assert_eq!(index_of(va, 2), 7);
    assert_eq!(index_of(va, 1), 9);
    assert_eq!(pt_offset(), 0x1_0000_0000 + 0x1000);
}

fn pt_offset() -> u64 {
    OffsetPageTable::new(0x1_0000_0000, 0x1000).phys_to_virt(0x1000)
}

fn color() -> ColorCode {
    ColorCode::new(Color::Yellow, Color::Black)
}

fn row_text(w: &Writer, row: usize) -> Vec<u8> {
    (0..BUFFER_WIDTH).map(|c| w.cell(row, c).ascii_character).collect()
}

#[test]
fn color_code_packs_background_high() {
    assert_eq!(color().0, 0x0e);
    assert_eq!(ColorCode::new(Color::White, Color::Blue).0, 0x1f);
}

#[test]
fn write_places_characters_at_cursor() {
    let mut w = Writer::new(color());
    w.write_string("Hi");
    assert_eq!(w.cell(0, 0), ScreenChar { ascii_character: b'H', color_code: 0x0e });
    assert_eq!(w.cell(0, 1), ScreenChar { ascii_character: b'i', color_code: 0x0e });
    assert_eq!(w.cell(0, 2).ascii_character, b' ');
    assert_eq!(w.cursor(), (0, 2));
    w.write_string("\nx");
    assert_eq!(w.cursor(), (1, 1));
    assert_eq!(w.cell(1, 0).ascii_character, b'x');
}

#[test]
fn non_printable_becomes_placeholder() {
    let mut w = Writer::new(color());
    w.write_string("a\u{e9}\tb");
    // the two bytes of the accented letter and the tab each become the placeholder
    assert_eq!(row_text(&w, 0)[..5].to_vec(), vec![b'a', PLACEHOLDER, PLACEHOLDER, PLACEHOLDER, b'b']);
}

#[test]
fn eighty_one_chars_advance_one_row() {
    let mut w = Writer::new(color());
    let s = format!("{}B", "A".repeat(80));
    w.write_string(&s);
    assert_eq!(w.cursor(), (1, 1));
    assert_eq!(row_text(&w, 0), vec![b'A'; 80]);
    assert_eq!(w.cell(1, 0).ascii_character, b'B');
}

#[test]
fn writing_past_last_row_scrolls() {
    let mut w = Writer::new(color());
    for r in 0..BUFFER_HEIGHT - 1 {
        w.write_string(&format!("{}\n", (b'a' + r as u8) as char));
    }
    assert_eq!(w.cursor(), (24, 0));
    let s = format!("{}B", "A".repeat(80));
    w.write_string(&s);
    assert_eq!(w.cursor(), (24, 1));
    // row 0 ('a') is gone; every other row moved up one
    for r in 0..23 {
        assert_eq!(w.cell(r, 0).ascii_character, b'b' + r as u8);
    }
    assert_eq!(row_text(&w, 23), vec![b'A'; 80]);
    assert_eq!(w.cell(24, 0).ascii_character, b'B');
    assert_eq!(w.cell(24, 1).ascii_character, b' ');
}

#[test]
fn newline_on_last_row_clears_it() {
    let mut w = Writer::new(color());
    for _ in 0..BUFFER_HEIGHT - 1 {
        w.new_line();
    }
    w.write_string("zz");
    w.new_line();
    assert_eq!(w.cursor(), (24, 0));
    assert_eq!(w.cell(23, 0).ascii_character, b'z');
    assert_eq!(row_text(&w, 24), vec![b' '; 80]);
}

#[test]
fn exit_codes() {
    assert_eq!(QemuExitCode::Success.value(), 0x10);
    assert_eq!(QemuExitCode::Failed.value(), 0x11);
    assert_eq!(EXIT_PORT, 0xf4);
}

#[test]
fn one_failing_test_gives_failure() {
    assert_eq!(test_outcome(&vec![true, false, true]), QemuExitCode::Failed);
    assert_eq!(test_outcome(&vec![false]), QemuExitCode::Failed);
}

#[test]
fn no_failing_test_gives_success() {
    assert_eq!(test_outcome(&vec![true, true]), QemuExitCode::Success);
    assert_eq!(test_outcome(&Vec::new()), QemuExitCode::Success);
}

#[test]
fn panic_gives_failure() {
    assert_eq!(panic_outcome(), QemuExitCode::Failed);
}

#[test]
fn report_lines_show_verdicts() {
    let mut w = Writer::new(color());
    report_test(&mut w, "trivial_assertion", true);
    report_test(&mut w, "other", false);
    let first: String = row_text(&w, 0).iter().take(26).map(|b| *b as char).collect();
    let second: String = row_text(&w, 1).iter().take(18).map(|b| *b as char).collect();
    assert_eq!(first, "trivial_assertion... [ok] ");
    assert_eq!(second, "other... [failed] ");
    assert_eq!(w.cursor(), (2, 0));
}

#[test]
fn containing_page_rounds_down() {
    assert_eq!(containing_page(0), 0);
    assert_eq!(containing_page(0x1fff), 0x1000);
    assert_eq!(containing_page(0x2000), 0x2000);
    assert_eq!(containing_page(u64::MAX), u64::MAX - 0xfff);
}
