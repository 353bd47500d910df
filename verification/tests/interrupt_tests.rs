use kernel_core::interrupts::bridge::{Enqueue, ScancodeQueue};
use kernel_core::interrupts::handlers::{
    breakpoint_handler, control_after, dispatch, double_fault_handler,
    keyboard_interrupt_handler, page_fault_handler, timer_interrupt_handler, Control, Event,
    Outcome, Report,
};
use kernel_core::interrupts::pic::{init_pic, kernel_pics, EndOfInterrupt, PicPair, Remap};
use kernel_core::interrupts::{
    init_idt, Handler, InterruptIndex, InterruptState, InterruptTable, TableEntry, PIC_1_OFFSET,
    PIC_2_OFFSET,
};
use kernel_core::{exit_qemu, init, test_runner, Green, PortWrite, QemuExitCode, Red, Testable};

#[test]
fn test_breakpoint_exception() {
    let outcome = breakpoint_handler();
    assert_eq!(outcome.control, Control::Resume);
    assert_eq!(outcome.report, Report::Breakpoint);
    assert_eq!(outcome.end_of_interrupt, None);
    assert!(!outcome.wake);
}

#[test]
fn interrupt_index_vectors() {
    assert_eq!(PIC_1_OFFSET, 32);
    assert_eq!(PIC_2_OFFSET, 40);
    assert_eq!(InterruptIndex::Timer.as_u8(), 32);
    assert_eq!(InterruptIndex::Keyboard.as_u8(), 33);
    assert_eq!(InterruptIndex::Timer.as_usize(), 32);
    assert_eq!(InterruptIndex::Keyboard.as_usize(), 33);
    assert_eq!(u8::from(InterruptIndex::Timer), 32);
    assert_eq!(u8::from(InterruptIndex::Keyboard), 33);
    assert_eq!(usize::from(InterruptIndex::Timer), 32);
    assert_eq!(usize::from(InterruptIndex::Keyboard), 33);
}

#[test]
fn table_binds_five_vectors_and_one_stack() {
    let table = InterruptTable::build(0);
    let plain = |h| TableEntry { handler: Some(h), stack_index: None };
    assert_eq!(table.entry(3), plain(Handler::Breakpoint));
    assert_eq!(table.entry(14), plain(Handler::PageFault));
    assert_eq!(table.entry(32), plain(Handler::Timer));
    assert_eq!(table.entry(33), plain(Handler::Keyboard));
    assert_eq!(
        table.entry(8),
        TableEntry { handler: Some(Handler::DoubleFault), stack_index: Some(0) }
    );
    let mut bound = 0;
    let mut with_stack = 0;
    for vector in 0..=255u8 {
        let entry = table.entry(vector);
        if entry.handler.is_some() {
            bound += 1;
        }
        if entry.stack_index.is_some() {
            with_stack += 1;
        }
    }
    assert_eq!(bound, 5);
    assert_eq!(with_stack, 1);
}

#[test]
fn table_is_built_and_loaded_once() {
    let mut state = InterruptState::new();
    assert!(!state.is_loaded());
    assert_eq!(state.lookup(3), None);
    assert!(init_idt(&mut state, 7));
    assert!(state.is_loaded());
    assert!(!init_idt(&mut state, 9));
    assert_eq!(
        state.lookup(8),
        Some(TableEntry { handler: Some(Handler::DoubleFault), stack_index: Some(7) })
    );
    assert_eq!(state.lookup(200), Some(TableEntry { handler: None, stack_index: None }));
}

#[test]
fn only_faults_halt() {
    let table = InterruptTable::build(0);
    assert_eq!(control_after(table.entry(3)), Some(Control::Resume));
    assert_eq!(control_after(table.entry(8)), Some(Control::Halt));
    assert_eq!(control_after(table.entry(14)), Some(Control::Halt));
    assert_eq!(control_after(table.entry(32)), Some(Control::Resume));
    assert_eq!(control_after(table.entry(33)), Some(Control::Resume));
    assert_eq!(control_after(table.entry(0)), None);
    assert_eq!(double_fault_handler(0).control, Control::Halt);
    assert_eq!(double_fault_handler(0).report, Report::DoubleFault);
}

#[test]
fn page_fault_reports_address_and_halts() {
    let outcome = page_fault_handler(0xdead_beef, 2);
    assert_eq!(
        outcome,
        Outcome {
            report: Report::PageFault { address: 0xdead_beef, error_code: 2 },
            control: Control::Halt,
            end_of_interrupt: None,
            wake: false,
        }
    );
}

#[test]
fn pic_offsets_must_clear_the_exception_range() {
    assert!(PicPair::new(31).is_none());
    assert!(PicPair::new(0).is_none());
    assert!(PicPair::new(32).is_some());
    assert!(PicPair::new(240).is_some());
    assert!(PicPair::new(241).is_none());
}

#[test]
fn pic_remaps_secondary_after_primary() {
    let mut pics = kernel_pics();
    assert!(!pics.raise(32));
    let remap = init_pic(&mut pics);
    assert_eq!(remap, Remap { primary_offset: 32, secondary_offset: 40 });
    assert!(pics.handles_interrupt(32));
    assert!(pics.handles_interrupt(47));
    assert!(!pics.handles_interrupt(48));
    assert!(!pics.handles_interrupt(31));
}

#[test]
fn pic_line_is_masked_until_acknowledged() {
    let mut pics = PicPair::new(32).unwrap();
    init_pic(&mut pics);
    assert!(!pics.raise(31));
    assert!(pics.raise(33));
    assert!(pics.is_in_service(33));
    assert!(!pics.raise(33));
    assert!(pics.raise(32));
    assert_eq!(
        pics.notify_end_of_interrupt(33),
        EndOfInterrupt { primary: true, secondary: false }
    );
    assert!(!pics.is_in_service(33));
    assert!(pics.is_in_service(32));
    assert!(pics.raise(33));
    assert!(pics.raise(44));
    assert_eq!(
        pics.notify_end_of_interrupt(44),
        EndOfInterrupt { primary: true, secondary: true }
    );
}

#[test]
fn timer_tick_is_acknowledged_once() {
    let mut pics = kernel_pics();
    init_pic(&mut pics);
    assert!(pics.raise(InterruptIndex::Timer.as_u8()));
    let outcome = timer_interrupt_handler(&mut pics);
    assert_eq!(
        outcome,
        Outcome {
            report: Report::Tick,
            control: Control::Resume,
            end_of_interrupt: Some(EndOfInterrupt { primary: true, secondary: false }),
            wake: false,
        }
    );
    assert!(!pics.is_in_service(32));
}

#[test]
fn keyboard_scancodes_arrive_in_order() {
    let mut pics = kernel_pics();
    init_pic(&mut pics);
    let mut queue = ScancodeQueue::new(100);
    let mut acknowledged = 0;
    for scancode in [0x1Eu8, 0x9E] {
        assert!(pics.raise(InterruptIndex::Keyboard.as_u8()));
        let outcome = keyboard_interrupt_handler(scancode, &mut queue, &mut pics);
        assert_eq!(outcome.control, Control::Resume);
        assert_eq!(outcome.report, Report::Nothing);
        assert!(outcome.wake);
        if outcome.end_of_interrupt.is_some() {
            acknowledged += 1;
        }
        assert!(!pics.is_in_service(33));
    }
    assert_eq!(acknowledged, 2);
    assert_eq!(queue.len(), 2);
    assert_eq!(queue.pop(), Some(0x1E));
    assert_eq!(queue.pop(), Some(0x9E));
    assert_eq!(queue.pop(), None);
}

#[test]
fn full_queue_drops_the_newest_scancode() {
    let mut pics = kernel_pics();
    init_pic(&mut pics);
    let mut queue = ScancodeQueue::new(2);
    assert_eq!(queue.capacity(), 2);
    assert_eq!(queue.add_scancode(1), Enqueue::Queued);
    assert_eq!(queue.add_scancode(2), Enqueue::Queued);
    assert_eq!(queue.add_scancode(3), Enqueue::Dropped);
    assert!(pics.raise(33));
    let outcome = keyboard_interrupt_handler(4, &mut queue, &mut pics);
    assert_eq!(outcome.report, Report::ScancodeDropped);
    assert!(!outcome.wake);
    assert_eq!(outcome.end_of_interrupt, Some(EndOfInterrupt { primary: true, secondary: false }));
    assert_eq!(queue.pop(), Some(1));
    assert_eq!(queue.pop(), Some(2));
    assert_eq!(queue.pop(), None);
}

#[test]
fn boot_brings_up_table_then_controllers() {
    let mut state = InterruptState::new();
    let mut pics = kernel_pics();
    let plan = init(&mut state, &mut pics, 0);
    assert!(plan.load_table);
    assert!(plan.enable_interrupts);
    assert_eq!(plan.remap, Remap { primary_offset: 32, secondary_offset: 40 });
    assert!(state.is_loaded());
    assert!(pics.raise(32));
}

#[test]
fn colours_wrap_the_text_in_escape_codes() {
    assert_eq!(Green("[ok]").render(), "\x1B[32m[ok]\x1B[0m");
    assert_eq!(Red("Error:").render(), "\x1B[31mError:\x1B[0m");
    assert_eq!(Green("").render(), "\x1B[32m\x1B[0m");
}

#[test]
fn exit_codes_go_to_the_exit_port() {
    assert_eq!(QemuExitCode::Success.code(), 0x10);
    assert_eq!(QemuExitCode::Failed.code(), 0x11);
    assert_eq!(exit_qemu(QemuExitCode::Failed), PortWrite { port: 0xf4, value: 0x11 });
    assert_eq!(exit_qemu(QemuExitCode::Success), PortWrite { port: 0xf4, value: 0x10 });
}

struct Counting<'a>(&'a std::cell::Cell<u32>);

impl<'a> Testable for Counting<'a> {
    fn run(&self) {
        self.0.set(self.0.get() + 1);
    }
}

#[test]
fn runner_runs_every_test_and_reports_success() {
    let runs = std::cell::Cell::new(0);
    let (a, b, c) = (Counting(&runs), Counting(&runs), Counting(&runs));
    let tests: [&dyn Testable; 3] = [&a, &b, &c];
    let write = test_runner(&tests);
    assert_eq!(runs.get(), 3);
    assert_eq!(write, PortWrite { port: 0xf4, value: 0x10 });
}

#[test]
fn runner_with_no_tests_reports_success() {
    assert_eq!(test_runner(&[]), PortWrite { port: 0xf4, value: 0x10 });
}

fn event(vector: u8, scancode: u8) -> Event {
    Event { vector, error_code: 0, fault_address: 0, scancode }
}

#[test]
fn dispatched_keyboard_interrupts_deliver_scancodes_in_order() {
    let mut state = InterruptState::new();
    let mut pics = kernel_pics();
    init(&mut state, &mut pics, 0);
    let mut queue = ScancodeQueue::new(100);
    let mut acknowledged = 0;
    let mut wakes = 0;
    for scancode in [0x1Eu8, 0x9E] {
        assert!(pics.raise(33));
        let outcome = dispatch(&state, event(33, scancode), &mut queue, &mut pics).unwrap();
        assert_eq!(outcome.control, Control::Resume);
        if outcome.end_of_interrupt == Some(EndOfInterrupt { primary: true, secondary: false }) {
            acknowledged += 1;
        }
        if outcome.wake {
            wakes += 1;
        }
        assert!(!pics.is_in_service(33));
    }
    assert_eq!(acknowledged, 2);
    assert_eq!(wakes, 2);
    assert_eq!(queue.pop(), Some(0x1E));
    assert_eq!(queue.pop(), Some(0x9E));
    assert_eq!(queue.pop(), None);
}

#[test]
fn dispatched_breakpoint_resumes_and_faults_halt() {
    let mut state = InterruptState::new();
    let mut pics = kernel_pics();
    let mut queue = ScancodeQueue::new(4);
    assert_eq!(dispatch(&state, event(3, 0), &mut queue, &mut pics), None);
    init(&mut state, &mut pics, 0);
    let breakpoint = dispatch(&state, event(3, 0), &mut queue, &mut pics).unwrap();
    assert_eq!(breakpoint, breakpoint_handler());
    assert_eq!(breakpoint.control, Control::Resume);
    let fault = Event { vector: 14, error_code: 2, fault_address: 0xdead_beef, scancode: 0 };
    assert_eq!(
        dispatch(&state, fault, &mut queue, &mut pics),
        Some(page_fault_handler(0xdead_beef, 2))
    );
    assert_eq!(
        dispatch(&state, event(8, 0), &mut queue, &mut pics).map(|o| o.control),
        Some(Control::Halt)
    );
    assert_eq!(dispatch(&state, event(100, 0), &mut queue, &mut pics), None);
    assert_eq!(queue.len(), 0);
    assert!(pics.raise(32));
    assert_eq!(
        dispatch(&state, event(32, 0), &mut queue, &mut pics).map(|o| o.report),
        Some(Report::Tick)
    );
    assert!(!pics.is_in_service(32));
}
