//! Interrupt dispatch: the vector table, the pair of interrupt
//! controllers and their acknowledgment protocol, the bounded queue that
//! carries scancodes out of interrupt context, and what each handler
//! decides.

use vstd::prelude::*;

pub mod bridge;
pub mod handlers;
pub mod pic;

verus! {

/// Vector base of the primary interrupt controller.
pub const PIC_1_OFFSET: u8 = 32;

/// Vector base of the secondary interrupt controller.
pub const PIC_2_OFFSET: u8 = PIC_1_OFFSET + 8;

/// Number of vectors in the interrupt table.
pub const VECTOR_COUNT: usize = 256;

/// Vector of the breakpoint exception.
pub const BREAKPOINT_VECTOR: u8 = 3;

/// Vector of the double fault exception.
pub const DOUBLE_FAULT_VECTOR: u8 = 8;

/// Vector of the page fault exception.
pub const PAGE_FAULT_VECTOR: u8 = 14;

/// I/O port from which the keyboard's data byte is read.
pub const KEYBOARD_DATA_PORT: u16 = 0x60;

/// Number of scancodes the bridge to the keyboard task holds.
pub const SCANCODE_QUEUE_CAPACITY: usize = 100;

/// The hardware interrupts that have a handler.
#[derive(Debug, Clone, Copy, PartialEq, Eq, Structural)]
pub enum InterruptIndex {
    /// The interval timer, on the first line of the primary controller.
    Timer,
    /// The keyboard, on the line after the timer's.
    Keyboard,
}

impl InterruptIndex {
    /// The vector on which the interrupt arrives.
    pub open spec fn spec_vector(self) -> u8 {
        match self {
            InterruptIndex::Timer => PIC_1_OFFSET,
            InterruptIndex::Keyboard => (PIC_1_OFFSET + 1) as u8,
        }
    }

    /// The vector on which the interrupt arrives.
    pub fn as_u8(self) -> (v: u8)
        ensures
            v == self.spec_vector(),
    {
        match self {
            InterruptIndex::Timer => PIC_1_OFFSET,
            InterruptIndex::Keyboard => PIC_1_OFFSET + 1,
        }
    }

    /// The vector as an index into the interrupt table.
    pub fn as_usize(self) -> (v: usize)
        ensures
            v == self.spec_vector(),
            v < VECTOR_COUNT,
    {
        match self {
            InterruptIndex::Timer => 32,
            InterruptIndex::Keyboard => 33,
        }
    }
}

impl From<InterruptIndex> for u8 {
    fn from(index: InterruptIndex) -> (v: u8) {
        index.as_u8()
    }
}

impl vstd::std_specs::convert::FromSpecImpl<InterruptIndex> for u8 {
    open spec fn obeys_from_spec() -> bool {
        true
    }

    open spec fn from_spec(index: InterruptIndex) -> u8 {
        index.spec_vector()
    }
}

impl From<InterruptIndex> for usize {
    fn from(index: InterruptIndex) -> (v: usize) {
        index.as_usize()
    }
}

impl vstd::std_specs::convert::FromSpecImpl<InterruptIndex> for usize {
    open spec fn obeys_from_spec() -> bool {
        true
    }

    open spec fn from_spec(index: InterruptIndex) -> usize {
        index.spec_vector() as usize
    }
}

/// The code that a vector is bound to.
#[derive(Debug, Clone, Copy, PartialEq, Eq, Structural)]
pub enum Handler {
    Breakpoint,
    DoubleFault,
    PageFault,
    Timer,
    Keyboard,
}

/// One entry of the interrupt table.
#[derive(Debug, Clone, Copy, PartialEq, Eq, Structural)]
pub struct TableEntry {
    /// The handler bound to the vector, if any.
    pub handler: Option<Handler>,
    /// The dedicated stack the handler runs on, if it has one.
    pub stack_index: Option<u16>,
}

/// What the table binds to a vector: the five handlers on their vectors,
/// the double fault alone on the dedicated stack, and nothing elsewhere.
pub open spec fn spec_entry(vector: int, double_fault_stack: u16) -> TableEntry {
    if vector == BREAKPOINT_VECTOR {
        TableEntry { handler: Some(Handler::Breakpoint), stack_index: None }
    } else if vector == DOUBLE_FAULT_VECTOR {
        TableEntry { handler: Some(Handler::DoubleFault), stack_index: Some(double_fault_stack) }
    } else if vector == PAGE_FAULT_VECTOR {
        TableEntry { handler: Some(Handler::PageFault), stack_index: None }
    } else if vector == InterruptIndex::Timer.spec_vector() {
        TableEntry { handler: Some(Handler::Timer), stack_index: None }
    } else if vector == InterruptIndex::Keyboard.spec_vector() {
        TableEntry { handler: Some(Handler::Keyboard), stack_index: None }
    } else {
        TableEntry { handler: None, stack_index: None }
    }
}

/// The interrupt table: one entry for each of the 256 vectors.
pub struct InterruptTable {
    entries: Vec<TableEntry>,
}

impl View for InterruptTable {
    type V = Seq<TableEntry>;

    closed spec fn view(&self) -> Seq<TableEntry> {
        self.entries@
    }
}

impl InterruptTable {
    /// Whether the table is the one built for this double fault stack.
    pub open spec fn is_built(&self, double_fault_stack: u16) -> bool {
        &&& self@.len() == VECTOR_COUNT
        &&& forall|v: int| 0 <= v < VECTOR_COUNT ==> #[trigger] self@[v] == spec_entry(v, double_fault_stack)
    }

    /// Builds the table. Exactly one entry, the double fault's, names a
    /// dedicated stack.
    pub fn build(double_fault_stack: u16) -> (t: InterruptTable)
        ensures
            t.is_built(double_fault_stack),
            forall|v: int|
                0 <= v < VECTOR_COUNT ==> ((#[trigger] t@[v]).stack_index is Some <==> v
                    == DOUBLE_FAULT_VECTOR),
    {
        let mut entries: Vec<TableEntry> = Vec::new();
        let mut vector: usize = 0;
        while vector < VECTOR_COUNT
            invariant
                vector <= VECTOR_COUNT,
                entries@.len() == vector,
                forall|v: int| 0 <= v < vector ==> #[trigger] entries@[v] == spec_entry(v, double_fault_stack),
            decreases VECTOR_COUNT - vector,
        {
            let entry = if vector == 3 {
                TableEntry { handler: Some(Handler::Breakpoint), stack_index: None }
            } else if vector == 8 {
                TableEntry {
                    handler: Some(Handler::DoubleFault),
                    stack_index: Some(double_fault_stack),
                }
            } else if vector == 14 {
                TableEntry { handler: Some(Handler::PageFault), stack_index: None }
            } else if vector == InterruptIndex::Timer.as_usize() {
                TableEntry { handler: Some(Handler::Timer), stack_index: None }
            } else if vector == InterruptIndex::Keyboard.as_usize() {
                TableEntry { handler: Some(Handler::Keyboard), stack_index: None }
            } else {
                TableEntry { handler: None, stack_index: None }
            };
            entries.push(entry);
            vector = vector + 1;
        }
        InterruptTable { entries }
    }

    /// The entry of a vector.
    pub fn entry(&self, vector: u8) -> (e: TableEntry)
        requires
            self@.len() == VECTOR_COUNT,
        ensures
            e == self@[vector as int],
    {
        self.entries[vector as usize]
    }
}

/// The interrupt table of the running kernel: absent until first used,
/// then built once, loaded once and never changed.
pub struct InterruptState {
    table: Option<InterruptTable>,
    stack: u16,
    loaded: bool,
}

impl InterruptState {
    /// Whether the table has been built.
    pub closed spec fn built(&self) -> bool {
        self.table is Some
    }

    /// The table, once it is built.
    pub closed spec fn table(&self) -> InterruptTable
        recommends
            self.built(),
    {
        self.table->Some_0
    }

    /// The dedicated stack that the table was built with.
    pub closed spec fn stack(&self) -> u16 {
        self.stack
    }

    /// Whether the table is the active one.
    pub closed spec fn loaded(&self) -> bool {
        self.loaded
    }

    /// The handler that the active table binds to a vector; none while no
    /// table is active.
    pub open spec fn bound(&self, vector: u8) -> Option<Handler> {
        if self.loaded() {
            self.table()@[vector as int].handler
        } else {
            None
        }
    }

    /// Only a table that has been built is ever active, and a table that
    /// has been built is the one described by `spec_entry`.
    pub open spec fn wf(&self) -> bool {
        &&& self.loaded() ==> self.built()
        &&& self.built() ==> self.table().is_built(self.stack())
    }

    /// The state at boot: no table yet.
    pub fn new() -> (s: InterruptState)
        ensures
            s.wf(),
            !s.built(),
            !s.loaded(),
    {
        InterruptState { table: None, stack: 0, loaded: false }
    }

    /// Whether the table is the active one.
    pub fn is_loaded(&self) -> (b: bool)
        ensures
            b == self.loaded(),
    {
        self.loaded
    }

    /// The entry that the active table holds for a vector, or `None`
    /// while no table is active.
    pub fn lookup(&self, vector: u8) -> (e: Option<TableEntry>)
        requires
            self.wf(),
        ensures
            e == if self.loaded() {
                Some(spec_entry(vector as int, self.stack()))
            } else {
                None::<TableEntry>
            },
            self.loaded() ==> e == Some(self.table()@[vector as int]),
    {
        if self.loaded {
            match &self.table {
                Some(t) => Some(t.entry(vector)),
                None => None,
            }
        } else {
            None
        }
    }
}

/// Makes the interrupt table the active one, building it first if this is
/// its first use; a table that exists already is kept as it is, whatever
/// stack is named now. Returns whether the table has to be handed to the
/// processor: `true` the first time, `false` ever after.
pub fn init_idt(state: &mut InterruptState, double_fault_stack: u16) -> (load: bool)
    requires
        old(state).wf(),
    ensures
        final(state).wf(),
        final(state).built(),
        final(state).loaded(),
        final(state).stack() == if old(state).built() {
            old(state).stack()
        } else {
            double_fault_stack
        },
        old(state).built() ==> final(state).table() == old(state).table(),
        load == !old(state).loaded(),
{
    if state.table.is_none() {
        state.table = Some(InterruptTable::build(double_fault_stack));
        state.stack = double_fault_stack;
    }
    if state.loaded {
        false
    } else {
        state.loaded = true;
        true
    }
}

} // verus!
