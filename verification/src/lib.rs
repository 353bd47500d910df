//! Runtime foundation of a small bare-metal kernel: heap allocation over a
//! fixed virtual window and the dispatch rules for exceptions and hardware
//! interrupts.

use vstd::prelude::*;
use vstd::string::StringExecFns;
use crate::interrupts::{init_idt, InterruptState};
use crate::interrupts::pic::{init_pic, PicModel, PicPair, Remap};

pub mod allocator;
pub mod interrupts;

verus! {

/// I/O port of the emulator's exit device.
pub const QEMU_EXIT_PORT: u16 = 0xf4;

/// A text to be shown in green.
pub struct Green(pub &'static str);

/// A text to be shown in red.
pub struct Red(pub &'static str);

impl Green {
    /// The text between the escape sequence that switches the terminal to
    /// green and the one that resets it.
    pub fn render(&self) -> (s: String)
        ensures
            s@ == "\x1B[32m"@ + self.0@ + "\x1B[0m"@,
    {
        let mut s = String::from_str("\x1B[32m");
        s.append(self.0);
        s.append("\x1B[0m");
        s
    }
}

impl Red {
    /// The text between the escape sequence that switches the terminal to
    /// red and the one that resets it.
    pub fn render(&self) -> (s: String)
        ensures
            s@ == "\x1B[31m"@ + self.0@ + "\x1B[0m"@,
    {
        let mut s = String::from_str("\x1B[31m");
        s.append(self.0);
        s.append("\x1B[0m");
        s
    }
}

/// Something that can be run as a test.
pub trait Testable {
    /// Runs the test; it fails by not returning.
    fn run(&self);
}

/// How the emulator is told that the run is over.
#[derive(Debug, Clone, Copy, PartialEq, Eq, Structural)]
pub enum QemuExitCode {
    /// Every test passed.
    Success,
    /// A test failed.
    Failed,
}

impl QemuExitCode {
    /// The value written to the exit device.
    pub open spec fn spec_code(self) -> u32 {
        match self {
            QemuExitCode::Success => 0x10,
            QemuExitCode::Failed => 0x11,
        }
    }

    /// The value written to the exit device.
    pub fn code(self) -> (c: u32)
        ensures
            c == self.spec_code(),
    {
        match self {
            QemuExitCode::Success => 0x10,
            QemuExitCode::Failed => 0x11,
        }
    }
}

/// A value to be written to an I/O port.
#[derive(Debug, Clone, Copy, PartialEq, Eq, Structural)]
pub struct PortWrite {
    /// The port.
    pub port: u16,
    /// The value.
    pub value: u32,
}

/// The port write that ends the emulator's run with `exit_code`.
pub fn exit_qemu(exit_code: QemuExitCode) -> (w: PortWrite)
    ensures
        w == (PortWrite { port: QEMU_EXIT_PORT, value: exit_code.spec_code() }),
{
    PortWrite { port: QEMU_EXIT_PORT, value: exit_code.code() }
}

/// Runs the tests in order and, when the last has returned, gives the
/// port write that reports success to the emulator.
pub fn test_runner(tests: &[&dyn Testable]) -> (w: PortWrite)
    ensures
        w == (PortWrite { port: QEMU_EXIT_PORT, value: QemuExitCode::Success.spec_code() }),
{
    let mut index: usize = 0;
    while index < tests.len()
        invariant
            index <= tests.len(),
        decreases tests.len() - index,
    {
        tests[index].run();
        index = index + 1;
    }
    exit_qemu(QemuExitCode::Success)
}

/// What the boot code has to hand to the hardware, in this order: the
/// interrupt table (if it is not loaded yet), the remapping of the
/// interrupt controllers, and only then the enabling of interrupts.
#[derive(Debug, Clone, Copy, PartialEq, Eq, Structural)]
pub struct BootPlan {
    /// Whether the interrupt table is to be loaded.
    pub load_table: bool,
    /// The vector bases to which the controllers are remapped.
    pub remap: Remap,
    /// Whether interrupts are to be enabled afterwards.
    pub enable_interrupts: bool,
}

/// Brings up interrupt handling: the table is built and made active, the
/// controllers are set up on their vectors, and interrupts are enabled
/// last, when both are in place.
pub fn init(state: &mut InterruptState, pics: &mut PicPair, double_fault_stack: u16) -> (plan:
    BootPlan)
    requires
        old(state).wf(),
        old(pics).wf(),
    ensures
        final(state).wf(),
        final(state).loaded(),
        final(state).stack() == if old(state).built() {
            old(state).stack()
        } else {
            double_fault_stack
        },
        final(pics).wf(),
        final(pics)@ == (PicModel { initialized: true, ..old(pics)@ }),
        plan == (BootPlan {
            load_table: !old(state).loaded(),
            remap: Remap {
                primary_offset: old(pics)@.primary_offset as u8,
                secondary_offset: old(pics)@.secondary_offset as u8,
            },
            enable_interrupts: true,
        }),
{
    let load_table = init_idt(state, double_fault_stack);
    let remap = init_pic(pics);
    BootPlan { load_table, remap, enable_interrupts: true }
}

} // verus!
