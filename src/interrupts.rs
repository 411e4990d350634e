//! The descriptor tables: the segment table with its task state segment,
//! which holds the dedicated double-fault stack, and the interrupt table
//! with its three exception handlers. Loading them into the processor is
//! left to the caller; what is built and how each exception is answered is
//! decided here.
use vstd::prelude::*;
use vstd::string::StringSliceAdditionalSpecFns;
use crate::vga::{put_bytes, Writer};

verus! {

pub const BREAKPOINT_VECTOR: u8 = 3;

pub const DOUBLE_FAULT_VECTOR: u8 = 8;

pub const PAGE_FAULT_VECTOR: u8 = 14;

/// Number of entries in the interrupt table.
pub const IDT_ENTRIES: usize = 256;

/// Slot of the interrupt stack table that holds the double-fault stack.
pub const DOUBLE_FAULT_IST_INDEX: u16 = 0;

/// Size of the double-fault stack.
pub const STACK_SIZE: u64 = 4096 * 5;

/// Size of the task state segment, less one: the limit of its descriptor.
pub const TSS_LIMIT: u64 = 0x67;

/// The kernel code segment descriptor of long mode: present, ring 0,
/// executable, readable, 64-bit, with the largest limit.
pub const KERNEL_CODE_DESCRIPTOR: u64 = 0x00af_9b00_0000_ffff;

/// One entry of the interrupt table: where the handler is, and which slot of
/// the interrupt stack table it runs on (0 for the interrupted stack, `n`
/// for slot `n - 1`).
#[derive(Clone, Copy, Debug, PartialEq, Eq, Structural)]
pub struct IdtEntry {
    pub handler: u64,
    pub present: bool,
    pub stack_slot: u16,
}

/// Entry points of the handlers that the interrupt table names.
#[derive(Clone, Copy, Debug, PartialEq, Eq, Structural)]
pub struct HandlerAddresses {
    pub breakpoint: u64,
    pub double_fault: u64,
    pub page_fault: u64,
}

pub open spec fn absent_entry() -> IdtEntry {
    IdtEntry { handler: 0, present: false, stack_slot: 0 }
}

/// The entry that `build_idt` puts at `vector`.
pub open spec fn entry_for(h: HandlerAddresses, vector: int) -> IdtEntry {
    if vector == 3 {
        IdtEntry { handler: h.breakpoint, present: true, stack_slot: 0 }
    } else if vector == 8 {
        IdtEntry {
            handler: h.double_fault,
            present: true,
            stack_slot: (DOUBLE_FAULT_IST_INDEX + 1) as u16,
        }
    } else if vector == 14 {
        IdtEntry { handler: h.page_fault, present: true, stack_slot: 0 }
    } else {
        absent_entry()
    }
}

pub struct InterruptDescriptorTable {
    entries: Vec<IdtEntry>,
}

impl InterruptDescriptorTable {
    pub closed spec fn entries_view(&self) -> Seq<IdtEntry> {
        self.entries@
    }

    /// The entry for `vector`.
    pub fn entry(&self, vector: u8) -> (e: IdtEntry)
        requires
            self.entries_view().len() == 256,
        ensures
            e == self.entries_view()[vector as int],
    {
        self.entries[vector as usize]
    }
}

/// The interrupt table: the breakpoint and page-fault handlers on the
/// interrupted stack, the double-fault handler on its own stack, every other
/// entry absent.
pub fn build_idt(h: HandlerAddresses) -> (idt: InterruptDescriptorTable)
    ensures
        idt.entries_view().len() == 256,
        forall|v: int| 0 <= v < 256 ==> #[trigger] idt.entries_view()[v] == entry_for(h, v),
{
    let mut entries: Vec<IdtEntry> = Vec::new();
    let mut v: usize = 0;
    while v < IDT_ENTRIES
        invariant
            v <= 256,
            entries@.len() == v,
            forall|j: int| 0 <= j < v ==> #[trigger] entries@[j] == entry_for(h, j),
        decreases 256 - v,
    {
        let e = if v == 3 {
            IdtEntry { handler: h.breakpoint, present: true, stack_slot: 0 }
        } else if v == 8 {
            IdtEntry { handler: h.double_fault, present: true, stack_slot: DOUBLE_FAULT_IST_INDEX + 1 }
        } else if v == 14 {
            IdtEntry { handler: h.page_fault, present: true, stack_slot: 0 }
        } else {
            IdtEntry { handler: 0, present: false, stack_slot: 0 }
        };
        entries.push(e);
        v = v + 1;
    }
    InterruptDescriptorTable { entries }
}

/// The task state segment: its interrupt stack table of seven stack tops.
pub struct TaskStateSegment {
    interrupt_stack_table: Vec<u64>,
}

impl TaskStateSegment {
    pub closed spec fn stacks(&self) -> Seq<u64> {
        self.interrupt_stack_table@
    }

    /// The stack top in slot `i`.
    pub fn stack_top(&self, i: usize) -> (t: u64)
        requires
            i < self.stacks().len(),
        ensures
            t == self.stacks()[i as int],
    {
        self.interrupt_stack_table[i]
    }
}

/// A task state segment whose double-fault slot holds the top of the stack
/// reserved at `double_fault_stack` (stacks grow down); the other slots are
/// empty.
pub fn build_tss(double_fault_stack: u64) -> (tss: TaskStateSegment)
    requires
        double_fault_stack + STACK_SIZE <= u64::MAX,
    ensures
        tss.stacks().len() == 7,
        tss.stacks()[DOUBLE_FAULT_IST_INDEX as int] == double_fault_stack + STACK_SIZE,
        forall|i: int| 1 <= i < 7 ==> #[trigger] tss.stacks()[i] == 0,
{
    let mut ist: Vec<u64> = Vec::new();
    ist.push(double_fault_stack + STACK_SIZE);
    let mut i: usize = 1;
    while i < 7
        invariant
            1 <= i <= 7,
            ist@.len() == i,
            ist@[0] == double_fault_stack + STACK_SIZE,
            forall|j: int| 1 <= j < i ==> #[trigger] ist@[j] == 0,
        decreases 7 - i,
    {
        ist.push(0);
        i = i + 1;
    }
    TaskStateSegment { interrupt_stack_table: ist }
}

/// The two words of the descriptor of a task state segment at `base`.
pub open spec fn tss_descriptor_words(base: u64) -> (u64, u64) {
    (
        (TSS_LIMIT + (base % 0x100_0000) * 0x1_0000 + 0x89 * 0x100_0000_0000 + ((base / 0x100_0000)
            % 0x100) * 0x100_0000_0000_0000) as u64,
        (base / 0x1_0000_0000) as u64,
    )
}

/// Encodes the descriptor of a task state segment at `base`: limit, the
/// base split over both words, type "available 64-bit TSS", present.
pub fn tss_descriptor(base: u64) -> (w: (u64, u64))
    ensures
        w == tss_descriptor_words(base),
{
    let lo = base % 0x100_0000;
    let mid = (base / 0x100_0000) % 0x100;
    assert(lo * 0x1_0000 < 0x100_0000_0000) by (nonlinear_arith)
        requires
            lo < 0x100_0000,
    ;
    assert(mid * 0x100_0000_0000_0000 <= 0xff00_0000_0000_0000) by (nonlinear_arith)
        requires
            mid < 0x100,
    ;
    let low = TSS_LIMIT + lo * 0x1_0000 + 0x89 * 0x100_0000_0000 + mid * 0x100_0000_0000_0000;
    (low, base / 0x1_0000_0000)
}

/// The segment table: the null descriptor, the kernel code segment, then
/// the two words of the task state segment's descriptor.
pub struct GlobalDescriptorTable {
    words: Vec<u64>,
}

/// Selectors of the segments that the loaded tables are switched to.
#[derive(Clone, Copy, Debug, PartialEq, Eq, Structural)]
pub struct Selectors {
    pub code_selector: u16,
    pub tss_selector: u16,
}

impl GlobalDescriptorTable {
    pub closed spec fn table(&self) -> Seq<u64> {
        self.words@
    }

    /// The descriptor word in slot `i`.
    pub fn word(&self, i: usize) -> (w: u64)
        requires
            i < self.table().len(),
        ensures
            w == self.table()[i as int],
    {
        self.words[i]
    }
}

/// The segment table for a task state segment at `tss_base`, with the
/// selectors of its code segment (slot 1) and task state segment (slot 2).
pub fn build_gdt(tss_base: u64) -> (r: (GlobalDescriptorTable, Selectors))
    ensures
        r.0.table() == seq![
            0u64,
            KERNEL_CODE_DESCRIPTOR,
            tss_descriptor_words(tss_base).0,
            tss_descriptor_words(tss_base).1,
        ],
        r.1 == (Selectors { code_selector: 8, tss_selector: 16 }),
{
    let mut words: Vec<u64> = Vec::new();
    words.push(0);
    words.push(KERNEL_CODE_DESCRIPTOR);
    let (low, high) = tss_descriptor(tss_base);
    words.push(low);
    words.push(high);
    let gdt = GlobalDescriptorTable { words };
    assert(gdt.words@ =~= seq![0u64, KERNEL_CODE_DESCRIPTOR, low, high]);
    (gdt, Selectors { code_selector: 8, tss_selector: 16 })
}

/// What follows an exception: the breakpoint resumes at the next
/// instruction, every other exception halts the processor.
#[derive(Clone, Copy, Debug, PartialEq, Eq, Structural)]
pub enum ExceptionAction {
    Resume,
    Halt,
}

pub open spec fn action_for(vector: u8) -> ExceptionAction {
    if vector == 3 {
        ExceptionAction::Resume
    } else {
        ExceptionAction::Halt
    }
}

/// The line written when the exception at `vector` is taken.
pub open spec fn exception_line(vector: u8) -> Seq<u8> {
    if vector == 3 {
        "EXCEPTION: BREAKPOINT\n".spec_bytes()
    } else if vector == 8 {
        "EXCEPTION: DOUBLE FAULT\n".spec_bytes()
    } else if vector == 14 {
        "EXCEPTION: PAGE FAULT\n".spec_bytes()
    } else {
        "EXCEPTION: UNEXPECTED\n".spec_bytes()
    }
}

/// Reports the exception at `vector` on the screen, once, and says whether
/// execution resumes or halts.
pub fn handle_exception(w: &mut Writer, vector: u8) -> (a: ExceptionAction)
    requires
        old(w).wf(),
    ensures
        final(w).wf(),
        final(w)@ == put_bytes(old(w)@, exception_line(vector)),
        a == action_for(vector),
{
    if vector == BREAKPOINT_VECTOR {
        w.write_string("EXCEPTION: BREAKPOINT\n");
        ExceptionAction::Resume
    } else if vector == DOUBLE_FAULT_VECTOR {
        w.write_string("EXCEPTION: DOUBLE FAULT\n");
        ExceptionAction::Halt
    } else if vector == PAGE_FAULT_VECTOR {
        w.write_string("EXCEPTION: PAGE FAULT\n");
        ExceptionAction::Halt
    } else {
        w.write_string("EXCEPTION: UNEXPECTED\n");
        ExceptionAction::Halt
    }
}

/// What the access that caused a page fault was doing.
#[derive(Clone, Copy, Debug, PartialEq, Eq, Structural)]
pub enum FaultAccess {
    Read,
    Write,
    InstructionFetch,
}

/// The access named by a page-fault error code: bit 4 marks an instruction
/// fetch, bit 1 a write.
pub open spec fn access_of(code: u64) -> FaultAccess {
    if (code / 16) % 2 == 1 {
        FaultAccess::InstructionFetch
    } else if (code / 2) % 2 == 1 {
        FaultAccess::Write
    } else {
        FaultAccess::Read
    }
}

pub fn fault_access(code: u64) -> (a: FaultAccess)
    ensures
        a == access_of(code),
{
    if (code / 16) % 2 == 1 {
        FaultAccess::InstructionFetch
    } else if (code / 2) % 2 == 1 {
        FaultAccess::Write
    } else {
        FaultAccess::Read
    }
}

pub open spec fn access_text(a: FaultAccess) -> Seq<u8> {
    match a {
        FaultAccess::Read => "read\n".spec_bytes(),
        FaultAccess::Write => "write\n".spec_bytes(),
        FaultAccess::InstructionFetch => "instruction fetch\n".spec_bytes(),
    }
}

/// The lowercase hexadecimal digit for `d`, below 16.
pub open spec fn hex_digit(d: int) -> u8 {
    if d < 10 {
        (48 + d) as u8
    } else {
        (87 + d) as u8
    }
}

/// The last `n` hexadecimal digits of `v`, most significant first.
pub open spec fn hex_digits(v: nat, n: nat) -> Seq<u8>
    decreases n,
{
    if n == 0 {
        Seq::empty()
    } else {
        hex_digits(v / 16, (n - 1) as nat).push(hex_digit((v % 16) as int))
    }
}

/// The last `n` hexadecimal digits of `v`, most significant first.
pub fn to_hex(v: u64, n: u8) -> (r: Vec<u8>)
    ensures
        r@ == hex_digits(v as nat, n as nat),
    decreases n,
{
    if n == 0 {
        Vec::new()
    } else {
        let mut r = to_hex(v / 16, n - 1);
        let d = v % 16;
        let c: u8 = if d < 10 {
            48 + d as u8
        } else {
            87 + d as u8
        };
        r.push(c);
        r
    }
}

/// Reports a page fault: the exception line, the faulting address as
/// sixteen hexadecimal digits, and the kind of access. A page fault is
/// fatal: the answer is always to halt.
pub fn handle_page_fault(w: &mut Writer, address: u64, error_code: u64) -> (a: ExceptionAction)
    requires
        old(w).wf(),
    ensures
        final(w).wf(),
        final(w)@ == put_bytes(
            put_bytes(
                put_bytes(
                    put_bytes(
                        put_bytes(old(w)@, exception_line(14)),
                        "Accessed Address: 0x".spec_bytes(),
                    ),
                    hex_digits(address as nat, 16),
                ),
                "\nAccess: ".spec_bytes(),
            ),
            access_text(access_of(error_code)),
        ),
        a == ExceptionAction::Halt,
{
    let a = handle_exception(w, PAGE_FAULT_VECTOR);
    w.write_string("Accessed Address: 0x");
    let digits = to_hex(address, 16);
    w.write_bytes(digits.as_slice());
    w.write_string("\nAccess: ");
    match fault_access(error_code) {
        FaultAccess::Read => w.write_string("read\n"),
        FaultAccess::Write => w.write_string("write\n"),
        FaultAccess::InstructionFetch => w.write_string("instruction fetch\n"),
    }
    a
}

/// The double-fault entry runs its handler on the dedicated stack: it names
/// a slot of the interrupt stack table, and that slot holds the top of the
/// reserved stack, which lies above the stack's base and is never the
/// interrupted stack's slot 0.
pub proof fn lemma_double_fault_on_own_stack(
    h: HandlerAddresses,
    idt: InterruptDescriptorTable,
    tss: TaskStateSegment,
    double_fault_stack: u64,
)
    requires
        idt.entries_view().len() == 256,
        forall|v: int| 0 <= v < 256 ==> #[trigger] idt.entries_view()[v] == entry_for(h, v),
        tss.stacks().len() == 7,
        tss.stacks()[DOUBLE_FAULT_IST_INDEX as int] == double_fault_stack + STACK_SIZE,
    ensures
        idt.entries_view()[8].present,
        idt.entries_view()[8].handler == h.double_fault,
        idt.entries_view()[8].stack_slot != 0,
        tss.stacks()[idt.entries_view()[8].stack_slot - 1] == double_fault_stack + STACK_SIZE,
        tss.stacks()[idt.entries_view()[8].stack_slot - 1] > double_fault_stack,
{
    assert(idt.entries_view()[8] == entry_for(h, 8));
}

} // verus!
