//! Measurement ids for provenance tracking.
//!
//! Every freshly measured quantity gets an id that no other measurement in the
//! process has; ids that enter from outside are reserved so the counter never
//! hands them out again.

use vstd::prelude::*;

verus! {

/// The counter ids are minted from; the process keeps one.
#[derive(Debug)]
pub struct IdCounter {
    pub next: u32,
}

impl IdCounter {
    /// A counter whose first id is 1.
    pub fn new() -> (r: IdCounter)
        ensures
            r.next == 1,
    {
        IdCounter { next: 1 }
    }
}

/// Mints an id for a newly measured quantity: the counter's current value, which
/// then moves on by one (wrapping at the top of the `u32` range).
pub fn fresh_id(counter: &mut IdCounter) -> (r: u32)
    ensures
        r == old(counter).next,
        final(counter).next == (if old(counter).next == u32::MAX {
            0
        } else {
            (old(counter).next + 1) as u32
        }),
{
    let r = counter.next;
    counter.next = counter.next.wrapping_add(1);
    r
}

/// Keeps future `fresh_id` calls above `id`: the counter moves up to `id + 1`
/// (saturating) unless it is already past it.
pub fn reserve_id(counter: &mut IdCounter, id: u32)
    ensures
        final(counter).next == (if old(counter).next >= (if id == u32::MAX { id } else { (id + 1) as u32 }) {
            old(counter).next
        } else {
            (if id == u32::MAX { id } else { (id + 1) as u32 })
        }),
{
    let floor = id.saturating_add(1);
    if counter.next < floor {
        counter.next = floor;
    }
}

/// After an id below the top of the range is reserved, the next id minted is
/// greater than it, and so is never that id.
pub proof fn lemma_reserved_id_is_never_minted(next: u32, id: u32)
    requires
        id < u32::MAX,
    ensures
        (if next >= (id + 1) as u32 { next } else { (id + 1) as u32 }) > id,
{
}

} // verus!
