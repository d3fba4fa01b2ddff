//! The queue as a sequence of items, head first, and what a run of steps makes of it.
//!
//! The contracts of the queue are stated with the functions of this module, and the laws are
//! proved of them.

use vstd::prelude::*;

verus! {

/// One call on a queue.
pub enum Step {
    /// `insert_head` with this item.
    InsertHead(u32),
    /// `pop_head`.
    PopHead,
}

/// The items after `item` was put at the head.
pub open spec fn after_insert(items: Seq<u32>, item: u32) -> Seq<u32> {
    seq![item] + items
}

/// What a removal at the head returns: the first item, or nothing from an empty queue.
pub open spec fn head_of(items: Seq<u32>) -> Option<u32> {
    if items.len() == 0 {
        None
    } else {
        Some(items[0])
    }
}

/// The items after a removal at the head: an empty queue stays empty.
pub open spec fn after_pop(items: Seq<u32>) -> Seq<u32> {
    if items.len() == 0 {
        items
    } else {
        items.skip(1)
    }
}

/// The items after one step.
pub open spec fn after_step(items: Seq<u32>, step: Step) -> Seq<u32> {
    match step {
        Step::InsertHead(item) => after_insert(items, item),
        Step::PopHead => after_pop(items),
    }
}

/// The items after all of `steps`, taken in order.
pub open spec fn after_steps(items: Seq<u32>, steps: Seq<Step>) -> Seq<u32>
    decreases steps.len(),
{
    if steps.len() == 0 {
        items
    } else {
        after_steps(after_step(items, steps[0]), steps.skip(1))
    }
}

/// What the removals among `steps` return, one entry for each removal, in order.
pub open spec fn popped_by(items: Seq<u32>, steps: Seq<Step>) -> Seq<Option<u32>>
    decreases steps.len(),
{
    if steps.len() == 0 {
        Seq::empty()
    } else {
        let rest = popped_by(after_step(items, steps[0]), steps.skip(1));
        match steps[0] {
            Step::InsertHead(_) => rest,
            Step::PopHead => seq![head_of(items)] + rest,
        }
    }
}

/// How many of `steps` are insertions.
pub open spec fn inserts_in(steps: Seq<Step>) -> nat
    decreases steps.len(),
{
    if steps.len() == 0 {
        0
    } else {
        let rest = inserts_in(steps.skip(1));
        match steps[0] {
            Step::InsertHead(_) => rest + 1,
            Step::PopHead => rest,
        }
    }
}

/// How many of `steps` are removals that find an item, when the run starts from `items`.
pub open spec fn pops_done(items: Seq<u32>, steps: Seq<Step>) -> nat
    decreases steps.len(),
{
    if steps.len() == 0 {
        0
    } else {
        let rest = pops_done(after_step(items, steps[0]), steps.skip(1));
        match steps[0] {
            Step::InsertHead(_) => rest,
            Step::PopHead => if items.len() > 0 {
                rest + 1
            } else {
                rest
            },
        }
    }
}

/// No removal among `steps` finds the queue empty, when the run starts from `items`.
pub open spec fn never_starved(items: Seq<u32>, steps: Seq<Step>) -> bool
    decreases steps.len(),
{
    if steps.len() == 0 {
        true
    } else {
        &&& steps[0] is PopHead ==> items.len() > 0
        &&& never_starved(after_step(items, steps[0]), steps.skip(1))
    }
}

/// One insertion for each of `items`, in their order.
pub open spec fn insert_each(items: Seq<u32>) -> Seq<Step> {
    Seq::new(items.len(), |i: int| Step::InsertHead(items[i]))
}

/// `count` removals.
pub open spec fn pop_times(count: nat) -> Seq<Step> {
    Seq::new(count, |i: int| Step::PopHead)
}

} // verus!
