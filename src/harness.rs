//! The bare-metal test protocol: tests run in registration order, and the
//! run ends by writing a status value to the exit port of the virtual machine.
use vstd::prelude::*;
use vstd::string::StringSliceAdditionalSpecFns;
use crate::vga::{put_bytes, Writer};

verus! {

/// I/O port on which the virtual machine's exit device listens.
pub const EXIT_PORT: u16 = 0xf4;

/// Status written to the exit port at the end of a test run.
#[derive(Clone, Copy, Debug, PartialEq, Eq, Structural)]
pub enum QemuExitCode {
    Success,
    Failed,
}

pub open spec fn exit_value(c: QemuExitCode) -> u32 {
    match c {
        QemuExitCode::Success => 0x10,
        QemuExitCode::Failed => 0x11,
    }
}

/// At least one test failed.
pub open spec fn any_failed(results: Seq<bool>) -> bool {
    exists|i: int| 0 <= i < results.len() && !#[trigger] results[i]
}

impl QemuExitCode {
    /// The value written to the exit port.
    pub fn value(self) -> (r: u32)
        ensures
            r == exit_value(self),
    {
        match self {
            QemuExitCode::Success => 0x10,
            QemuExitCode::Failed => 0x11,
        }
    }
}

/// The status of a run whose tests gave `results`, in registration order:
/// failure as soon as one test failed, success otherwise (no test at all
/// included).
pub fn test_outcome(results: &Vec<bool>) -> (r: QemuExitCode)
    ensures
        r == (if any_failed(results@) {
            QemuExitCode::Failed
        } else {
            QemuExitCode::Success
        }),
{
    let mut i: usize = 0;
    while i < results.len()
        invariant
            i <= results@.len(),
            forall|j: int| 0 <= j < i ==> results@[j],
        decreases results@.len() - i,
    {
        if !results[i] {
            return QemuExitCode::Failed;
        }
        i = i + 1;
    }
    QemuExitCode::Success
}

/// The bytes that close the report line of a test.
pub open spec fn verdict_bytes(passed: bool) -> Seq<u8> {
    if passed {
        "[ok]\n".spec_bytes()
    } else {
        "[failed]\n".spec_bytes()
    }
}

/// Writes the report line of one test: its name, a separator, and the
/// verdict.
pub fn report_test(w: &mut Writer, name: &str, passed: bool)
    requires
        old(w).wf(),
    ensures
        final(w).wf(),
        final(w)@ == put_bytes(
            put_bytes(put_bytes(old(w)@, name.spec_bytes()), "... ".spec_bytes()),
            verdict_bytes(passed),
        ),
{
    w.write_string(name);
    w.write_string("... ");
    if passed {
        w.write_string("[ok]\n");
    } else {
        w.write_string("[failed]\n");
    }
}

/// The status written when a panic ends a test run: always failure.
pub fn panic_outcome() -> (r: QemuExitCode)
    ensures
        r == QemuExitCode::Failed,
{
    QemuExitCode::Failed
}

/// The kernel's smallest self-test: zero equals zero.
pub fn trivial_assertion() -> (r: bool)
    ensures
        r,
{
    let zero: u64 = 0;
    zero == 0
}

} // verus!
