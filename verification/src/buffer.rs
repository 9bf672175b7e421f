//! The in-memory packet buffer: an append-and-drain sequence of accepted
//! packets.  Draining returns the packets in insertion order and leaves
//! the buffer empty.
//!
//! The process wraps the one process-wide instance in its own exclusive
//! lock; the operations here are the work done under that lock.

use vstd::prelude::*;

use crate::types::{spec_models, PacketData, PacketModel};

verus! {

pub struct PacketBuffer {
    items: Vec<PacketData>,
}

impl View for PacketBuffer {
    type V = Seq<PacketModel>;

    closed spec fn view(&self) -> Seq<PacketModel> {
        spec_models(self.items@)
    }
}

impl PacketBuffer {
    pub fn new() -> (r: PacketBuffer)
        ensures
            r@.len() == 0,
    {
        PacketBuffer { items: Vec::new() }
    }

    /// Appends one packet.
    pub fn push(&mut self, packet: PacketData)
        ensures
            final(self)@ == old(self)@.push(packet@),
    {
        self.items.push(packet);
        proof {
            assert(final(self)@ =~= old(self)@.push(packet@));
        }
    }

    /// Atomically replaces the contents with empty and returns the old
    /// contents, in insertion order.
    pub fn drain(&mut self) -> (out: Vec<PacketData>)
        ensures
            final(self)@.len() == 0,
            spec_models(out@) == old(self)@,
    {
        let mut out: Vec<PacketData> = Vec::new();
        core::mem::swap(&mut self.items, &mut out);
        out
    }

    pub fn len(&self) -> (n: usize)
        ensures
            n == self@.len(),
    {
        self.items.len()
    }

    pub fn is_empty(&self) -> (r: bool)
        ensures
            r == (self@.len() == 0),
    {
        self.items.is_empty()
    }
}

impl Default for PacketBuffer {
    fn default() -> (r: PacketBuffer)
        ensures
            r@.len() == 0,
    {
        PacketBuffer::new()
    }
}

/// The buffer contents after pushing `models` one at a time onto a
/// buffer holding `start`; each step is `push`'s postcondition.
pub open spec fn spec_pushed(start: Seq<PacketModel>, models: Seq<PacketModel>) -> Seq<
    PacketModel,
>
    decreases models.len(),
{
    if models.len() == 0 {
        start
    } else {
        spec_pushed(start.push(models[0]), models.skip(1))
    }
}

/// Pushing a sequence one packet at a time appends it whole: the buffer
/// then holds the old contents followed by the sequence, in order.
pub proof fn lemma_push_sequence(start: Seq<PacketModel>, models: Seq<PacketModel>)
    ensures
        spec_pushed(start, models) == start + models,
    decreases models.len(),
{
    if models.len() == 0 {
        assert(start + models =~= start);
    } else {
        lemma_push_sequence(start.push(models[0]), models.skip(1));
        assert(start.push(models[0]) + models.skip(1) =~= start + models);
    }
}

/// Pushing `models` into an empty buffer and draining once returns
/// exactly `models` in order; `drain` then leaves the buffer empty, so a
/// second drain returns nothing.
pub proof fn lemma_push_then_drain(models: Seq<PacketModel>)
    ensures
        spec_pushed(Seq::<PacketModel>::empty(), models) == models,
{
    lemma_push_sequence(Seq::<PacketModel>::empty(), models);
    assert(Seq::<PacketModel>::empty() + models =~= models);
}

} // verus!
