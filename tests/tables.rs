use ferros::boot::{advance, may_map, InitStage, InitStep};
use ferros::interrupts::{
    build_gdt, build_idt, build_tss, fault_access, handle_exception, handle_page_fault, to_hex,
    tss_descriptor, ExceptionAction, FaultAccess,
    HandlerAddresses, Selectors, DOUBLE_FAULT_IST_INDEX, KERNEL_CODE_DESCRIPTOR, STACK_SIZE,
};
use ferros::vga::{Color, ColorCode, Writer};

fn handlers() -> HandlerAddresses {
    HandlerAddresses { breakpoint: 0x20_1000, double_fault: 0x20_2000, page_fault: 0x20_3000 }
}

fn line(w: &Writer, row: usize, len: usize) -> String {
    (0..len).map(|c| w.cell(row, c).ascii_character as char).collect()
}

#[test]
fn idt_has_three_handlers() {
    let idt = build_idt(handlers());
    let bp = idt.entry(3);
    assert!(bp.present);
    assert_eq!(bp.handler, 0x20_1000);
    assert_eq!(bp.stack_slot, 0);
    let df = idt.entry(8);
    assert!(df.present);
    assert_eq!(df.handler, 0x20_2000);
    assert_eq!(df.stack_slot, DOUBLE_FAULT_IST_INDEX + 1);
    let pf = idt.entry(14);
    assert!(pf.present);
    assert_eq!(pf.handler, 0x20_3000);
    for v in [0u8, 1, 2, 4, 13, 32, 255] {
        assert!(!idt.entry(v).present);
    }
}

#[test]
fn tss_holds_double_fault_stack_top() {
    let tss = build_tss(0x40_0000);
    assert_eq!(tss.stack_top(DOUBLE_FAULT_IST_INDEX as usize), 0x40_0000 + STACK_SIZE);
    assert_eq!(STACK_SIZE, 20480);
    for i in 1..7 {
        assert_eq!(tss.stack_top(i), 0);
    }
}

#[test]
fn tss_descriptor_encoding() {
    assert_eq!(tss_descriptor(0), (0x0000_8900_0000_0067, 0));
    assert_eq!(
        tss_descriptor(0xffff_8000_1234_5678),
        (0x1200_8934_5678_0067, 0xffff_8000)
    );
}

#[test]
fn gdt_layout_and_selectors() {
    let (gdt, sel) = build_gdt(0x1234_5678);
    assert_eq!(sel, Selectors { code_selector: 8, tss_selector: 16 });
    assert_eq!(gdt.word(0), 0);
    assert_eq!(gdt.word(1), KERNEL_CODE_DESCRIPTOR);
    assert_eq!((gdt.word(2), gdt.word(3)), tss_descriptor(0x1234_5678));
}

#[test]
fn breakpoint_logs_once_and_resumes() {
    let mut w = Writer::new(ColorCode::new(Color::Yellow, Color::Black));
    assert_eq!(handle_exception(&mut w, 3), ExceptionAction::Resume);
    assert_eq!(line(&w, 0, 21), "EXCEPTION: BREAKPOINT");
    assert_eq!(w.cursor(), (1, 0));
    assert_eq!(line(&w, 1, 3), "   ");
}

#[test]
fn faults_halt() {
    let mut w = Writer::new(ColorCode::new(Color::Yellow, Color::Black));
    assert_eq!(handle_exception(&mut w, 8), ExceptionAction::Halt);
    assert_eq!(handle_exception(&mut w, 14), ExceptionAction::Halt);
    assert_eq!(handle_exception(&mut w, 0), ExceptionAction::Halt);
    assert_eq!(line(&w, 0, 23), "EXCEPTION: DOUBLE FAULT");
    assert_eq!(line(&w, 1, 21), "EXCEPTION: PAGE FAULT");
    assert_eq!(line(&w, 2, 21), "EXCEPTION: UNEXPECTED");
}

#[test]
fn init_steps_in_order() {
    let s = advance(InitStage::Start, InitStep::LoadDescriptorTables).unwrap();
    assert_eq!(s, InitStage::TablesLoaded);
    assert!(!may_map(s));
    let s = advance(s, InitStep::InitFrameAllocator).unwrap();
    assert_eq!(s, InitStage::AllocatorReady);
    let s = advance(s, InitStep::InitPageTable).unwrap();
    assert_eq!(s, InitStage::PagingReady);
    assert!(may_map(s));
}

#[test]
fn init_steps_out_of_order_refused() {
    assert_eq!(advance(InitStage::Start, InitStep::InitFrameAllocator), None);
    assert_eq!(advance(InitStage::Start, InitStep::InitPageTable), None);
    assert_eq!(advance(InitStage::TablesLoaded, InitStep::InitPageTable), None);
    assert_eq!(advance(InitStage::PagingReady, InitStep::LoadDescriptorTables), None);
    assert!(!may_map(InitStage::Start));
}

#[test]
fn hex_digits_most_significant_first() {
    assert_eq!(to_hex(0xdead_beef, 16), b"00000000deadbeef".to_vec());
    assert_eq!(to_hex(0x1234, 2), b"34".to_vec());
    assert_eq!(to_hex(u64::MAX, 16), b"ffffffffffffffff".to_vec());
    assert_eq!(to_hex(7, 0), Vec::<u8>::new());
}

#[test]
fn page_fault_access_kinds() {
    assert_eq!(fault_access(0), FaultAccess::Read);
    assert_eq!(fault_access(1), FaultAccess::Read);
    assert_eq!(fault_access(2), FaultAccess::Write);
    assert_eq!(fault_access(0x10), FaultAccess::InstructionFetch);
    assert_eq!(fault_access(0x13), FaultAccess::InstructionFetch);
}

#[test]
fn page_fault_report() {
    let mut w = Writer::new(ColorCode::new(Color::Yellow, Color::Black));
    assert_eq!(handle_page_fault(&mut w, 0xdead_beaf, 2), ExceptionAction::Halt);
    assert_eq!(line(&w, 0, 21), "EXCEPTION: PAGE FAULT");
    assert_eq!(line(&w, 1, 36), "Accessed Address: 0x00000000deadbeaf");
    assert_eq!(line(&w, 2, 13), "Access: write");
    assert_eq!(w.cursor(), (3, 0));
}
