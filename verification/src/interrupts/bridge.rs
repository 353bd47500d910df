//! The bounded queue through which the keyboard handler hands scancodes to
//! the task that consumes them, without waiting and without allocating
//! beyond its fixed capacity.

use vstd::prelude::*;

verus! {

/// What became of a scancode offered to the queue.
#[derive(Debug, Clone, Copy, PartialEq, Eq, Structural)]
pub enum Enqueue {
    /// The scancode is queued; the consumer is to be woken once.
    Queued,
    /// The queue was full; the scancode is lost and a warning is due.
    Dropped,
}

/// A first-in, first-out queue of scancodes with a fixed capacity.
pub struct ScancodeQueue {
    codes: Vec<u8>,
    capacity: usize,
}

impl View for ScancodeQueue {
    type V = Seq<u8>;

    closed spec fn view(&self) -> Seq<u8> {
        self.codes@
    }
}

impl ScancodeQueue {
    /// The most scancodes the queue holds.
    pub closed spec fn spec_capacity(&self) -> nat {
        self.capacity as nat
    }

    /// The queue never holds more than its capacity.
    pub open spec fn wf(&self) -> bool {
        self@.len() <= self.spec_capacity()
    }

    /// An empty queue.
    pub fn new(capacity: usize) -> (q: ScancodeQueue)
        ensures
            q.wf(),
            q@ == Seq::<u8>::empty(),
            q.spec_capacity() == capacity,
    {
        ScancodeQueue { codes: Vec::new(), capacity }
    }

    /// The most scancodes the queue holds.
    pub fn capacity(&self) -> (n: usize)
        ensures
            n == self.spec_capacity(),
    {
        self.capacity
    }

    /// Number of scancodes waiting.
    pub fn len(&self) -> (n: usize)
        ensures
            n == self@.len(),
    {
        self.codes.len()
    }

    /// Offers a scancode. It joins the end of the queue unless the queue
    /// is full, in which case it is dropped and the queue is unchanged.
    pub fn add_scancode(&mut self, scancode: u8) -> (outcome: Enqueue)
        requires
            old(self).wf(),
        ensures
            final(self).wf(),
            final(self).spec_capacity() == old(self).spec_capacity(),
            outcome == if old(self)@.len() < old(self).spec_capacity() {
                Enqueue::Queued
            } else {
                Enqueue::Dropped
            },
            final(self)@ == if old(self)@.len() < old(self).spec_capacity() {
                old(self)@.push(scancode)
            } else {
                old(self)@
            },
    {
        if self.codes.len() < self.capacity {
            self.codes.push(scancode);
            Enqueue::Queued
        } else {
            Enqueue::Dropped
        }
    }

    /// Takes the scancode that has waited longest, if any.
    pub fn pop(&mut self) -> (scancode: Option<u8>)
        requires
            old(self).wf(),
        ensures
            final(self).wf(),
            final(self).spec_capacity() == old(self).spec_capacity(),
            scancode == if old(self)@.len() > 0 {
                Some(old(self)@[0])
            } else {
                None::<u8>
            },
            final(self)@ == if old(self)@.len() > 0 {
                old(self)@.subrange(1, old(self)@.len() as int)
            } else {
                old(self)@
            },
    {
        if self.codes.len() > 0 {
            let code = self.codes.remove(0);
            assert(self.codes@ =~= old(self)@.subrange(1, old(self)@.len() as int));
            Some(code)
        } else {
            None
        }
    }
}

} // verus!
