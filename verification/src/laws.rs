//! What holds of every run of insertions and removals.
//!
//! The queue returns from `pop_head` what [`head_of`] says and becomes what [`after_pop`] and
//! [`after_insert`] say, so whatever is proved here of runs of steps holds of the calls.

use crate::dequeue::Dequeue;
use crate::model::{
    after_insert, after_pop, after_step, after_steps, head_of, insert_each, inserts_in,
    never_starved, pop_times, popped_by, pops_done, Step,
};
use vstd::prelude::*;

verus! {

/// Running `first` and then `second` is running the two one after the other: the items at the
/// end and what the removals returned are those of the two runs put together.
pub proof fn lemma_steps_joined(items: Seq<u32>, first: Seq<Step>, second: Seq<Step>)
    ensures
        after_steps(items, first + second) == after_steps(after_steps(items, first), second),
        popped_by(items, first + second) == popped_by(items, first) + popped_by(
            after_steps(items, first),
            second,
        ),
    decreases first.len(),
{
    if first.len() == 0 {
        assert(popped_by(items, first) + popped_by(items, second) =~= popped_by(items, second));
    } else {
        let next = after_step(items, first[0]);
        assert((first + second).skip(1) =~= first.skip(1) + second);
        lemma_steps_joined(next, first.skip(1), second);
        match first[0] {
            Step::InsertHead(_) => {},
            Step::PopHead => {
                assert(seq![head_of(items)] + (popped_by(next, first.skip(1)) + popped_by(
                    after_steps(next, first.skip(1)),
                    second,
                )) =~= (seq![head_of(items)] + popped_by(next, first.skip(1))) + popped_by(
                    after_steps(next, first.skip(1)),
                    second,
                ));
            },
        }
    }
}

/// The number of items in the queue is the number it started with, plus the insertions, minus
/// the removals that found an item. From an empty queue it is the insertions minus those
/// removals.
pub proof fn lemma_items_counted(items: Seq<u32>, steps: Seq<Step>)
    ensures
        after_steps(items, steps).len() == items.len() + inserts_in(steps) - pops_done(
            items,
            steps,
        ),
        pops_done(items, steps) <= items.len() + inserts_in(steps),
    decreases steps.len(),
{
    if steps.len() > 0 {
        lemma_items_counted(after_step(items, steps[0]), steps.skip(1));
    }
}

/// Whatever insertions and removals made a queue out of an empty one, it owns as many nodes as
/// there were insertions less the removals that found an item, and the shares of each of
/// these nodes weigh two together.
pub proof fn lemma_nodes_outstanding(queue: Dequeue, steps: Seq<Step>)
    requires
        queue.wf(),
        queue@ == after_steps(Seq::empty(), steps),
    ensures
        queue.nodes().len() == inserts_in(steps) - pops_done(Seq::empty(), steps),
        forall|k: int|
            0 <= k < queue.nodes().len() ==> queue.weight_on((#[trigger] queue.nodes()[k]).id)
                == 2,
{
    lemma_items_counted(Seq::empty(), steps);
    queue.lemma_weights();
}

/// Last in, first out: a removal right after an insertion returns the inserted item and
/// leaves the queue as it was before the insertion.
pub proof fn lemma_last_in_first_out(items: Seq<u32>, item: u32)
    ensures
        head_of(after_insert(items, item)) == Some(item),
        after_pop(after_insert(items, item)) == items,
{
}

/// Steps that never find `top` used up do not reach what lies below it: with `below` under
/// `top`, they return the same items and leave `below` under what they leave of `top`.
pub proof fn lemma_below_untouched(top: Seq<u32>, below: Seq<u32>, steps: Seq<Step>)
    requires
        never_starved(top, steps),
    ensures
        never_starved(top + below, steps),
        after_steps(top + below, steps) == after_steps(top, steps) + below,
        popped_by(top + below, steps) == popped_by(top, steps),
    decreases steps.len(),
{
    if steps.len() > 0 {
        match steps[0] {
            Step::InsertHead(item) => {
                assert(after_insert(top + below, item) =~= after_insert(top, item) + below);
            },
            Step::PopHead => {
                assert(after_pop(top + below) =~= after_pop(top) + below);
            },
        }
        lemma_below_untouched(after_step(top, steps[0]), below, steps.skip(1));
    }
}

/// The order of removals, for any interleaving: after `item` was inserted, let any steps follow
/// that take off only what they put on themselves, and all of it. Then the queue is again as
/// it was right after the insertion, and the next removal returns `item`: after everything
/// that was inserted later, before everything that was inserted earlier.
pub proof fn lemma_removed_in_reverse(items: Seq<u32>, item: u32, between: Seq<Step>)
    requires
        never_starved(Seq::empty(), between),
        after_steps(Seq::empty(), between) == Seq::<u32>::empty(),
    ensures
        after_steps(after_insert(items, item), between) == after_insert(items, item),
        head_of(after_steps(after_insert(items, item), between)) == Some(item),
        after_pop(after_steps(after_insert(items, item), between)) == items,
{
    let held = after_insert(items, item);
    lemma_below_untouched(Seq::empty(), held, between);
    lemma_last_in_first_out(items, item);
}

/// Inserting `added` one by one puts them on the queue in reverse, and returns nothing.
pub proof fn lemma_all_inserted(items: Seq<u32>, added: Seq<u32>)
    ensures
        after_steps(items, insert_each(added)) == added.reverse() + items,
        popped_by(items, insert_each(added)) == Seq::<Option<u32>>::empty(),
    decreases added.len(),
{
    if added.len() > 0 {
        assert(insert_each(added).skip(1) =~= insert_each(added.skip(1)));
        lemma_all_inserted(after_insert(items, added[0]), added.skip(1));
        assert(added.skip(1).reverse() + after_insert(items, added[0]) =~= added.reverse()
            + items);
    }
}

/// `count` removals from a queue that holds at least as many items return its first `count`
/// items in order and leave the rest.
pub proof fn lemma_all_popped(items: Seq<u32>, count: nat)
    requires
        count <= items.len(),
    ensures
        after_steps(items, pop_times(count)) == items.skip(count as int),
        popped_by(items, pop_times(count)) == items.take(count as int).map_values(
            |item: u32| Some(item),
        ),
    decreases count,
{
    let wrap = |item: u32| Some(item);
    if count > 0 {
        assert(pop_times(count).skip(1) =~= pop_times((count - 1) as nat));
        lemma_all_popped(items.skip(1), (count - 1) as nat);
        assert(seq![Some(items[0])] + items.skip(1).take(count - 1).map_values(wrap)
            =~= items.take(count as int).map_values(wrap));
    }
}

/// Round trip: inserting `added` into an empty queue and then removing as often returns
/// exactly those items in reverse order, and one more removal returns `None` from a queue
/// that is empty again.
pub proof fn lemma_round_trip(added: Seq<u32>)
    ensures
        popped_by(Seq::empty(), insert_each(added) + pop_times(added.len() + 1))
            == added.reverse().map_values(|item: u32| Some(item)) + seq![None::<u32>],
        after_steps(Seq::empty(), insert_each(added) + pop_times(added.len() + 1))
            == Seq::<u32>::empty(),
{
    let empty = Seq::<u32>::empty();
    let wrap = |item: u32| Some(item);
    let filled = added.reverse();
    lemma_all_inserted(empty, added);
    lemma_all_popped(filled, added.len());
    assert(filled.skip(added.len() as int) =~= empty);
    assert(pop_times(added.len() + 1) =~= pop_times(added.len()) + pop_times(1));
    assert(popped_by(empty, pop_times(1)) =~= seq![None::<u32>] && after_steps(
        empty,
        pop_times(1),
    ) =~= empty) by {
        reveal_with_fuel(popped_by, 2);
        reveal_with_fuel(after_steps, 2);
    }
    lemma_steps_joined(filled, pop_times(added.len()), pop_times(1));
    lemma_steps_joined(empty, insert_each(added), pop_times(added.len() + 1));
    assert(Seq::<Option<u32>>::empty() + (filled.map_values(wrap) + seq![None::<u32>])
        =~= filled.map_values(wrap) + seq![None::<u32>]);
}

} // verus!
