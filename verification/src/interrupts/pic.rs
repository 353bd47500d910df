//! The chained pair of interrupt controllers: where their vectors lie, and
//! the protocol by which each delivered interrupt is acknowledged.

use vstd::prelude::*;
use crate::interrupts::PIC_1_OFFSET;

verus! {

/// Number of interrupt lines of one controller.
pub const LINES_PER_PIC: u8 = 8;

/// Number of interrupt lines of the pair.
pub const LINE_COUNT: usize = 16;

/// Last vector of the range reserved for processor exceptions.
pub const LAST_EXCEPTION_VECTOR: u8 = 31;

/// The mathematical state of the controller pair.
pub struct PicModel {
    /// Vector of the primary controller's first line.
    pub primary_offset: int,
    /// Vector of the secondary controller's first line.
    pub secondary_offset: int,
    /// Whether the controllers have been remapped to their offsets.
    pub initialized: bool,
    /// For each line, whether an interrupt on it awaits acknowledgment.
    pub in_service: Seq<bool>,
}

impl PicModel {
    /// The secondary controller's vectors follow the primary's eight, and
    /// all sixteen lie above the exception range.
    pub open spec fn wf(self) -> bool {
        &&& self.secondary_offset == self.primary_offset + LINES_PER_PIC
        &&& LAST_EXCEPTION_VECTOR < self.primary_offset
        &&& self.primary_offset + LINE_COUNT <= 256
        &&& self.in_service.len() == LINE_COUNT
    }

    /// Whether a vector belongs to one of the two controllers.
    pub open spec fn handles(self, vector: int) -> bool {
        self.primary_offset <= vector < self.primary_offset + LINE_COUNT
    }

    /// The line on which a vector arrives.
    pub open spec fn line(self, vector: int) -> int {
        vector - self.primary_offset
    }

    /// Whether an interrupt on this vector would be delivered now: the
    /// controllers are set up, the vector is theirs, and no earlier
    /// interrupt on its line awaits acknowledgment.
    pub open spec fn deliverable(self, vector: int) -> bool {
        self.initialized && self.handles(vector) && !self.in_service[self.line(vector)]
    }

    /// Whether an interrupt on this vector awaits acknowledgment.
    pub open spec fn awaits_acknowledgment(self, vector: int) -> bool {
        self.handles(vector) && self.in_service[self.line(vector)]
    }
}

/// Which controllers an end-of-interrupt command goes to.
#[derive(Debug, Clone, Copy, PartialEq, Eq, Structural)]
pub struct EndOfInterrupt {
    /// The command goes to the primary controller.
    pub primary: bool,
    /// The command goes to the secondary controller.
    pub secondary: bool,
}

/// The offsets to which the controllers are to be remapped.
#[derive(Debug, Clone, Copy, PartialEq, Eq, Structural)]
pub struct Remap {
    /// Vector of the primary controller's first line.
    pub primary_offset: u8,
    /// Vector of the secondary controller's first line.
    pub secondary_offset: u8,
}

/// Sixteen lines with nothing in service.
fn idle_lines() -> (lines: Vec<bool>)
    ensures
        lines@.len() == LINE_COUNT,
        forall|l: int| 0 <= l < LINE_COUNT ==> !(#[trigger] lines@[l]),
{
    let mut lines: Vec<bool> = Vec::new();
    let mut line: usize = 0;
    while line < LINE_COUNT
        invariant
            line <= LINE_COUNT,
            lines@.len() == line,
            forall|l: int| 0 <= l < line ==> !(#[trigger] lines@[l]),
        decreases LINE_COUNT - line,
    {
        lines.push(false);
        line = line + 1;
    }
    lines
}

/// The chained pair of interrupt controllers.
pub struct PicPair {
    primary_offset: u8,
    initialized: bool,
    in_service: Vec<bool>,
}

impl View for PicPair {
    type V = PicModel;

    closed spec fn view(&self) -> PicModel {
        PicModel {
            primary_offset: self.primary_offset as int,
            secondary_offset: self.primary_offset + LINES_PER_PIC,
            initialized: self.initialized,
            in_service: self.in_service@,
        }
    }
}

impl PicPair {
    /// The pair's invariant: that of its state.
    pub open spec fn wf(&self) -> bool {
        self@.wf()
    }

    /// A pair whose primary controller begins at `primary_offset`, not yet
    /// set up and with nothing in service; `None` if the sixteen vectors
    /// would touch the exception range or leave the table.
    pub fn new(primary_offset: u8) -> (p: Option<PicPair>)
        ensures
            p is Some <==> LAST_EXCEPTION_VECTOR < primary_offset && primary_offset + LINE_COUNT
                <= 256,
            p matches Some(pair) ==> {
                &&& pair.wf()
                &&& pair@.primary_offset == primary_offset
                &&& !pair@.initialized
                &&& forall|l: int| 0 <= l < LINE_COUNT ==> !(#[trigger] pair@.in_service[l])
            },
    {
        if primary_offset <= LAST_EXCEPTION_VECTOR || primary_offset > 240 {
            None
        } else {
            Some(PicPair { primary_offset, initialized: false, in_service: idle_lines() })
        }
    }

    /// Whether a vector belongs to one of the two controllers.
    pub fn handles_interrupt(&self, vector: u8) -> (b: bool)
        requires
            self.wf(),
        ensures
            b == self@.handles(vector as int),
    {
        self.primary_offset <= vector && vector - self.primary_offset < 16
    }

    /// Whether an interrupt on this vector awaits acknowledgment.
    pub fn is_in_service(&self, vector: u8) -> (b: bool)
        requires
            self.wf(),
        ensures
            b == self@.awaits_acknowledgment(vector as int),
    {
        if self.handles_interrupt(vector) {
            let line: usize = (vector - self.primary_offset) as usize;
            self.in_service[line]
        } else {
            false
        }
    }

    /// A device raises an interrupt. It is delivered, and its line put in
    /// service, exactly when it is deliverable; otherwise nothing changes.
    pub fn raise(&mut self, vector: u8) -> (delivered: bool)
        requires
            old(self).wf(),
        ensures
            final(self).wf(),
            delivered == old(self)@.deliverable(vector as int),
            final(self)@ == if delivered {
                PicModel {
                    in_service: old(self)@.in_service.update(
                        old(self)@.line(vector as int),
                        true,
                    ),
                    ..old(self)@
                }
            } else {
                old(self)@
            },
    {
        if !self.initialized || !self.handles_interrupt(vector) {
            return false;
        }
        let line: usize = (vector - self.primary_offset) as usize;
        if self.in_service[line] {
            false
        } else {
            self.in_service.set(line, true);
            true
        }
    }

    /// Acknowledges the interrupt in service on `vector`: its line is free
    /// again. The command goes to the primary controller, and to the
    /// secondary as well when the vector is one of the secondary's.
    pub fn notify_end_of_interrupt(&mut self, vector: u8) -> (command: EndOfInterrupt)
        requires
            old(self).wf(),
            old(self)@.awaits_acknowledgment(vector as int),
        ensures
            final(self).wf(),
            final(self)@ == (PicModel {
                in_service: old(self)@.in_service.update(old(self)@.line(vector as int), false),
                ..old(self)@
            }),
            !final(self)@.awaits_acknowledgment(vector as int),
            command == (EndOfInterrupt {
                primary: true,
                secondary: vector >= old(self)@.secondary_offset,
            }),
    {
        let line: usize = (vector - self.primary_offset) as usize;
        self.in_service.set(line, false);
        EndOfInterrupt { primary: true, secondary: line >= 8 }
    }
}

/// The pair of the running kernel, its primary controller at vector 32.
pub fn kernel_pics() -> (p: PicPair)
    ensures
        p.wf(),
        p@.primary_offset == PIC_1_OFFSET,
        !p@.initialized,
        forall|l: int| 0 <= l < LINE_COUNT ==> !(#[trigger] p@.in_service[l]),
{
    PicPair { primary_offset: PIC_1_OFFSET, initialized: false, in_service: idle_lines() }
}

/// Sets the controllers up: from now on their interrupts are delivered, on
/// the vectors that the returned remapping names.
pub fn init_pic(pics: &mut PicPair) -> (remap: Remap)
    requires
        old(pics).wf(),
    ensures
        final(pics).wf(),
        final(pics)@ == (PicModel { initialized: true, ..old(pics)@ }),
        remap.primary_offset == old(pics)@.primary_offset,
        remap.secondary_offset == old(pics)@.secondary_offset,
{
    pics.initialized = true;
    Remap {
        primary_offset: pics.primary_offset,
        secondary_offset: pics.primary_offset + LINES_PER_PIC,
    }
}

} // verus!
