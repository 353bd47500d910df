//! What each handler decides: what is reported, whether the interrupted
//! code resumes, and what is acknowledged.

use vstd::prelude::*;
use crate::interrupts::{Handler, InterruptIndex, InterruptState, TableEntry};
use crate::interrupts::bridge::{Enqueue, ScancodeQueue};
use crate::interrupts::pic::{EndOfInterrupt, PicModel, PicPair};

verus! {

/// Where execution goes when a handler is done.
#[derive(Debug, Clone, Copy, PartialEq, Eq, Structural)]
pub enum Control {
    /// Back to the interrupted code, at the point of interruption.
    Resume,
    /// Nowhere: the processor halts for good.
    Halt,
}

/// What a handler reports on the console.
#[derive(Debug, Clone, Copy, PartialEq, Eq, Structural)]
pub enum Report {
    /// A breakpoint was hit.
    Breakpoint,
    /// A fault occurred while another was being handled.
    DoubleFault,
    /// A page fault, with the address accessed and the kind of access.
    PageFault { address: u64, error_code: u64 },
    /// The timer ticked.
    Tick,
    /// A scancode arrived and was queued.
    Nothing,
    /// A scancode arrived and was dropped because the queue was full.
    ScancodeDropped,
}

/// The decisions of one handler run.
#[derive(Debug, Clone, Copy, PartialEq, Eq, Structural)]
pub struct Outcome {
    /// What to report.
    pub report: Report,
    /// Where execution goes afterwards.
    pub control: Control,
    /// The end-of-interrupt command to send, if the interrupt came from a
    /// controller.
    pub end_of_interrupt: Option<EndOfInterrupt>,
    /// Whether the task that consumes scancodes is to be woken.
    pub wake: bool,
}

/// A breakpoint is reported and execution resumes.
pub fn breakpoint_handler() -> (o: Outcome)
    ensures
        o == (Outcome {
            report: Report::Breakpoint,
            control: Control::Resume,
            end_of_interrupt: None,
            wake: false,
        }),
{
    Outcome {
        report: Report::Breakpoint,
        control: Control::Resume,
        end_of_interrupt: None,
        wake: false,
    }
}

/// A double fault is reported and the processor halts.
pub fn double_fault_handler(error_code: u64) -> (o: Outcome)
    ensures
        o == (Outcome {
            report: Report::DoubleFault,
            control: Control::Halt,
            end_of_interrupt: None,
            wake: false,
        }),
{
    Outcome {
        report: Report::DoubleFault,
        control: Control::Halt,
        end_of_interrupt: None,
        wake: false,
    }
}

/// A page fault is reported with the address accessed and the kind of
/// access, and the processor halts: no page fault is recovered from.
pub fn page_fault_handler(address: u64, error_code: u64) -> (o: Outcome)
    ensures
        o == (Outcome {
            report: Report::PageFault { address, error_code },
            control: Control::Halt,
            end_of_interrupt: None,
            wake: false,
        }),
{
    Outcome {
        report: Report::PageFault { address, error_code },
        control: Control::Halt,
        end_of_interrupt: None,
        wake: false,
    }
}

/// A timer tick is acknowledged at once and execution resumes.
pub fn timer_interrupt_handler(pics: &mut PicPair) -> (o: Outcome)
    requires
        old(pics).wf(),
        old(pics)@.awaits_acknowledgment(InterruptIndex::Timer.spec_vector() as int),
    ensures
        final(pics).wf(),
        final(pics)@ == (PicModel {
            in_service: old(pics)@.in_service.update(
                old(pics)@.line(InterruptIndex::Timer.spec_vector() as int),
                false,
            ),
            ..old(pics)@
        }),
        o == (Outcome {
            report: Report::Tick,
            control: Control::Resume,
            end_of_interrupt: Some(
                EndOfInterrupt {
                    primary: true,
                    secondary: false,
                },
            ),
            wake: false,
        }),
{
    let command = pics.notify_end_of_interrupt(InterruptIndex::Timer.as_u8());
    Outcome {
        report: Report::Tick,
        control: Control::Resume,
        end_of_interrupt: Some(command),
        wake: false,
    }
}

/// The scancode read from the keyboard is offered to the queue and the
/// interrupt acknowledged. The consumer is woken exactly when the
/// scancode was queued; a scancode that finds the queue full is dropped
/// and reported.
pub fn keyboard_interrupt_handler(
    scancode: u8,
    queue: &mut ScancodeQueue,
    pics: &mut PicPair,
) -> (o: Outcome)
    requires
        old(queue).wf(),
        old(pics).wf(),
        old(pics)@.awaits_acknowledgment(InterruptIndex::Keyboard.spec_vector() as int),
    ensures
        final(queue).wf(),
        final(queue).spec_capacity() == old(queue).spec_capacity(),
        final(queue)@ == if old(queue)@.len() < old(queue).spec_capacity() {
            old(queue)@.push(scancode)
        } else {
            old(queue)@
        },
        final(pics).wf(),
        final(pics)@ == (PicModel {
            in_service: old(pics)@.in_service.update(
                old(pics)@.line(InterruptIndex::Keyboard.spec_vector() as int),
                false,
            ),
            ..old(pics)@
        }),
        o == (Outcome {
            report: if old(queue)@.len() < old(queue).spec_capacity() {
                Report::Nothing
            } else {
                Report::ScancodeDropped
            },
            control: Control::Resume,
            end_of_interrupt: Some(
                EndOfInterrupt {
                    primary: true,
                    secondary: false,
                },
            ),
            wake: old(queue)@.len() < old(queue).spec_capacity(),
        }),
{
    let queued = queue.add_scancode(scancode);
    let command = pics.notify_end_of_interrupt(InterruptIndex::Keyboard.as_u8());
    match queued {
        Enqueue::Queued => Outcome {
            report: Report::Nothing,
            control: Control::Resume,
            end_of_interrupt: Some(command),
            wake: true,
        },
        Enqueue::Dropped => Outcome {
            report: Report::ScancodeDropped,
            control: Control::Resume,
            end_of_interrupt: Some(command),
            wake: false,
        },
    }
}

/// Only the double fault and the page fault end in a halt; after every
/// other handler the interrupted code resumes.
pub open spec fn spec_control(handler: Handler) -> Control {
    match handler {
        Handler::DoubleFault => Control::Halt,
        Handler::PageFault => Control::Halt,
        _ => Control::Resume,
    }
}

/// Where execution goes after the handler that an entry of the interrupt
/// table names, or `None` for an entry without a handler.
pub fn control_after(entry: TableEntry) -> (c: Option<Control>)
    ensures
        c == match entry.handler {
            Some(h) => Some(spec_control(h)),
            None => None::<Control>,
        },
{
    match entry.handler {
        Some(Handler::DoubleFault) => Some(Control::Halt),
        Some(Handler::PageFault) => Some(Control::Halt),
        Some(_) => Some(Control::Resume),
        None => None,
    }
}

/// What the processor and the devices supply with an interrupt.
#[derive(Debug, Clone, Copy, PartialEq, Eq, Structural)]
pub struct Event {
    /// The vector on which the interrupt arrives.
    pub vector: u8,
    /// The error code that the processor supplies with a fault.
    pub error_code: u64,
    /// The address whose access caused a page fault.
    pub fault_address: u64,
    /// The byte waiting at the keyboard's data port.
    pub scancode: u8,
}

/// Whether a handler serves an interrupt that comes from a controller and
/// has to be acknowledged.
pub open spec fn is_hardware(handler: Handler) -> bool {
    handler == Handler::Timer || handler == Handler::Keyboard
}

/// What a handler decides on an event; `room` says whether the scancode
/// queue can take one more scancode.
pub open spec fn spec_outcome(handler: Handler, event: Event, room: bool) -> Outcome {
    match handler {
        Handler::Breakpoint => Outcome {
            report: Report::Breakpoint,
            control: Control::Resume,
            end_of_interrupt: None,
            wake: false,
        },
        Handler::DoubleFault => Outcome {
            report: Report::DoubleFault,
            control: Control::Halt,
            end_of_interrupt: None,
            wake: false,
        },
        Handler::PageFault => Outcome {
            report: Report::PageFault {
                address: event.fault_address,
                error_code: event.error_code,
            },
            control: Control::Halt,
            end_of_interrupt: None,
            wake: false,
        },
        Handler::Timer => Outcome {
            report: Report::Tick,
            control: Control::Resume,
            end_of_interrupt: Some(EndOfInterrupt { primary: true, secondary: false }),
            wake: false,
        },
        Handler::Keyboard => Outcome {
            report: if room {
                Report::Nothing
            } else {
                Report::ScancodeDropped
            },
            control: Control::Resume,
            end_of_interrupt: Some(EndOfInterrupt { primary: true, secondary: false }),
            wake: room,
        },
    }
}

/// Whatever the event, the outcome of a handler halts the processor
/// exactly for the two fatal faults, acknowledges exactly the interrupts
/// that came from a controller, and wakes the consumer of scancodes
/// exactly when a scancode was queued.
pub proof fn lemma_outcome_rules(handler: Handler, event: Event, room: bool)
    ensures
        spec_outcome(handler, event, room).control == spec_control(handler),
        spec_outcome(handler, event, room).end_of_interrupt is Some <==> is_hardware(handler),
        spec_outcome(handler, event, room).wake <==> handler == Handler::Keyboard && room,
{
}

/// Runs the handler that the active table binds to the event's vector.
/// A vector without a handler, or any vector while no table is active,
/// changes nothing and yields `None`. A hardware interrupt is acknowledged
/// once, which frees its line; a scancode joins the queue if there is
/// room for it.
pub fn dispatch(
    state: &InterruptState,
    event: Event,
    queue: &mut ScancodeQueue,
    pics: &mut PicPair,
) -> (o: Option<Outcome>)
    requires
        state.wf(),
        old(queue).wf(),
        old(pics).wf(),
        state.bound(event.vector) matches Some(h) ==> (is_hardware(h) ==> old(
            pics,
        )@.awaits_acknowledgment(event.vector as int)),
    ensures
        final(queue).wf(),
        final(pics).wf(),
        final(queue).spec_capacity() == old(queue).spec_capacity(),
        o == match state.bound(event.vector) {
            Some(h) => Some(
                spec_outcome(h, event, old(queue)@.len() < old(queue).spec_capacity()),
            ),
            None => None::<Outcome>,
        },
        final(queue)@ == if state.bound(event.vector) == Some(Handler::Keyboard) && old(
            queue,
        )@.len() < old(queue).spec_capacity() {
            old(queue)@.push(event.scancode)
        } else {
            old(queue)@
        },
        final(pics)@ == match state.bound(event.vector) {
            Some(h) => if is_hardware(h) {
                PicModel {
                    in_service: old(pics)@.in_service.update(
                        old(pics)@.line(event.vector as int),
                        false,
                    ),
                    ..old(pics)@
                }
            } else {
                old(pics)@
            },
            None => old(pics)@,
        },
{
    let entry = match state.lookup(event.vector) {
        Some(entry) => entry,
        None => {
            return None;
        },
    };
    match entry.handler {
        None => None,
        Some(Handler::Breakpoint) => Some(breakpoint_handler()),
        Some(Handler::DoubleFault) => Some(double_fault_handler(event.error_code)),
        Some(Handler::PageFault) => Some(page_fault_handler(event.fault_address, event.error_code)),
        Some(Handler::Timer) => Some(timer_interrupt_handler(pics)),
        Some(Handler::Keyboard) => Some(
            keyboard_interrupt_handler(event.scancode, queue, pics),
        ),
    }
}

} // verus!
