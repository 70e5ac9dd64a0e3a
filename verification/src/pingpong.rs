use vstd::prelude::*;

verus! {

/// One of the two buffers that a sequence of passes alternates between.
#[derive(Debug, Clone, Copy, PartialEq, Eq, Structural)]
pub enum Slot {
    /// The buffer that holds the input of the first pass.
    Current,
    /// The other buffer.
    Previous,
}

impl Slot {
    /// The buffer that is not this one.
    pub open spec fn other(self) -> Slot {
        match self {
            Slot::Current => Slot::Previous,
            Slot::Previous => Slot::Current,
        }
    }

    /// The buffer that is not this one.
    pub fn swapped(self) -> (s: Slot)
        ensures
            s == self.other(),
    {
        match self {
            Slot::Current => Slot::Previous,
            Slot::Previous => Slot::Current,
        }
    }
}

/// The buffer that pass `index` reads: the first pass reads `Current`, and
/// the roles are exchanged after every pass.
pub open spec fn read_slot(index: nat) -> Slot {
    if index % 2 == 0 {
        Slot::Current
    } else {
        Slot::Previous
    }
}

/// The buffer that pass `index` writes.
pub open spec fn write_slot(index: nat) -> Slot {
    read_slot(index).other()
}

/// The buffers that pass `index` reads and writes, in that order.
pub fn slots_for_pass(index: u32) -> (rw: (Slot, Slot))
    ensures
        rw.0 == read_slot(index as nat),
        rw.1 == write_slot(index as nat),
{
    if index % 2 == 0 {
        (Slot::Current, Slot::Previous)
    } else {
        (Slot::Previous, Slot::Current)
    }
}

/// No pass reads the buffer that it writes.
pub proof fn lemma_no_aliasing(index: nat)
    ensures
        read_slot(index) != write_slot(index),
{
}

/// Each pass reads what the pass before it wrote.
pub proof fn lemma_reads_previous_output(index: nat)
    ensures
        read_slot(index + 1) == write_slot(index),
{
}

} // verus!
