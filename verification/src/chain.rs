//! A chain of nodes that is never empty.
//!
//! The head handle is the lead of the newest node, and through the `prev` links it owns the
//! lead of every older node. The tail handle is the back share of the oldest node, and the
//! `next` field of every node but the newest holds the back share of the node in front of it.
//! So every node is denoted by exactly two half shares, a lead and a back share, which can be
//! joined when the node leaves the chain.

use crate::model::after_insert;
use crate::share::{
    half_node, half_trail, into_item, item_digits, join, new_node, node_text, node_text_of,
    renders_item, set_next, set_prev, split, take_next, take_prev, unlinked, with_next,
    BackShare, HalfShare, NodeFacts,
};
use vstd::prelude::*;
use vstd::string::StringExecFns;

verus! {

/// The node at `i` names the node in front of it as its `next`.
pub open spec fn forward_linked(trail: Seq<NodeFacts>, i: int) -> bool {
    trail[i].next == Some(trail[i - 1].id)
}

/// Whether a trail is linked as the nodes of a chain are, newest first: the first node names no
/// `next`, every other node names the node in front of it, and no node occurs twice.
pub open spec fn trail_linked(trail: Seq<NodeFacts>) -> bool {
    &&& trail.len() > 0
    &&& trail[0].next is None
    &&& forall|i: int| 1 <= i < trail.len() ==> #[trigger] forward_linked(trail, i)
    &&& forall|i: int, j: int|
        0 <= i < j < trail.len() ==> (#[trigger] trail[i]).id != (#[trigger] trail[j]).id
}

/// The items of a trail, in its order.
pub open spec fn trail_items(trail: Seq<NodeFacts>) -> Seq<u32> {
    Seq::new(trail.len(), |i: int| trail[i].item)
}

/// The trail of a chain after a node `fresh` that holds `item` was put in front of it.
pub open spec fn trail_with_front(trail: Seq<NodeFacts>, fresh: int, item: u32) -> Seq<NodeFacts> {
    (seq![unlinked(fresh, item)] + trail).update(
        1,
        with_next(trail[0], Some(fresh)),
    )
}

/// The trail of a chain of two nodes or more after its first node was taken off.
pub open spec fn trail_without_front(trail: Seq<NodeFacts>) -> Seq<NodeFacts> {
    trail.skip(1).update(0, with_next(trail[1], None))
}

/// How many of the numbers below `n` meet `hit`.
pub open spec fn count_below(n: nat, hit: spec_fn(int) -> bool) -> nat
    decreases n,
{
    if n == 0 {
        0
    } else {
        count_below((n - 1) as nat, hit) + if hit(n - 1) {
            1nat
        } else {
            0nat
        }
    }
}

/// The weight of the shares that denote the node `id` in a chain with these handles and this
/// trail. Each half share weighs one, a full share would weigh two. The holders are the head
/// handle, the tail handle, the `prev` field of every node but the last (which holds the lead
/// of the node after it in the trail) and every `next` field that is filled.
pub open spec fn weight_held(head: int, tail: int, trail: Seq<NodeFacts>, id: int) -> nat {
    let by_head: nat = if head == id {
        1
    } else {
        0
    };
    let by_tail: nat = if tail == id {
        1
    } else {
        0
    };
    by_head + by_tail + count_below((trail.len() - 1) as nat, |i: int| trail[i + 1].id == id)
        + count_below(trail.len(), |i: int| trail[i].next == Some(id))
}

/// Nothing is counted where nothing below `n` meets `hit`.
pub proof fn lemma_count_none(n: nat, hit: spec_fn(int) -> bool)
    requires
        forall|i: int| 0 <= i < n ==> !#[trigger] hit(i),
    ensures
        count_below(n, hit) == 0,
    decreases n,
{
    if n > 0 {
        lemma_count_none((n - 1) as nat, hit);
    }
}

/// One is counted where `k` is the only number below `n` that meets `hit`.
pub proof fn lemma_count_one(n: nat, hit: spec_fn(int) -> bool, k: int)
    requires
        0 <= k < n,
        forall|i: int| 0 <= i < n ==> (#[trigger] hit(i) <==> i == k),
    ensures
        count_below(n, hit) == 1,
    decreases n,
{
    if k == n - 1 {
        lemma_count_none((n - 1) as nat, hit);
    } else {
        lemma_count_one((n - 1) as nat, hit, k);
    }
}

/// In a linked trail between a head and a tail that denote its first and last node, the shares
/// of every node weigh two.
pub proof fn lemma_weight_two(head: int, tail: int, trail: Seq<NodeFacts>, k: int)
    requires
        trail_linked(trail),
        head == trail.first().id,
        tail == trail.last().id,
        0 <= k < trail.len(),
    ensures
        weight_held(head, tail, trail, trail[k].id) == 2,
{
    let id = trail[k].id;
    let n = trail.len();
    let by_prev = |i: int| trail[i + 1].id == id;
    let by_next = |i: int| trail[i].next == Some(id);
    assert forall|i: int| 0 <= i < n implies (#[trigger] by_next(i) <==> i == k + 1) by {
        if i >= 1 {
            assert(forward_linked(trail, i));
        }
    }
    if k == 0 {
        lemma_count_none((n - 1) as nat, by_prev);
    } else {
        lemma_count_one((n - 1) as nat, by_prev, k - 1);
    }
    if k == n - 1 {
        lemma_count_none(n, by_next);
    } else {
        lemma_count_one(n, by_next, k + 1);
    }
}

/// A linked trail stays linked when a fresh node is put in front of it, and its items are those
/// of before behind the new item.
pub proof fn lemma_front_put(trail: Seq<NodeFacts>, fresh: int, item: u32)
    requires
        trail_linked(trail),
        forall|i: int| 0 <= i < trail.len() ==> (#[trigger] trail[i]).id != fresh,
    ensures
        trail_linked(trail_with_front(trail, fresh, item)),
        trail_with_front(trail, fresh, item).len() == trail.len() + 1,
        trail_with_front(trail, fresh, item).first().id == fresh,
        trail_with_front(trail, fresh, item).last().id == trail.last().id,
        trail_with_front(trail, fresh, item).last().item == trail.last().item,
        trail_items(trail_with_front(trail, fresh, item)) == after_insert(trail_items(trail), item),
{
    let grown = trail_with_front(trail, fresh, item);
    assert forall|i: int| 1 <= i < grown.len() implies #[trigger] forward_linked(grown, i) by {
        if i >= 2 {
            assert(forward_linked(trail, i - 1));
        }
    }
}

/// A linked trail of two nodes or more stays linked when its first node is taken off, and its
/// items are those of before without the first.
pub proof fn lemma_front_taken(trail: Seq<NodeFacts>)
    requires
        trail_linked(trail),
        trail.len() > 1,
    ensures
        trail_linked(trail_without_front(trail)),
        trail_without_front(trail).len() == trail.len() - 1,
        trail_without_front(trail).first().id == trail[1].id,
        trail_without_front(trail).last().id == trail.last().id,
        trail_without_front(trail).last().item == trail.last().item,
        trail_items(trail_without_front(trail)) == trail_items(trail).skip(1),
{
    let rest = trail_without_front(trail);
    assert forall|i: int| 1 <= i < rest.len() implies #[trigger] forward_linked(rest, i) by {
        assert(forward_linked(trail, i + 1));
    }
}

/// The text of a chain whose head and tail nodes are rendered as `head` and `tail`.
pub open spec fn chain_text(head: Seq<char>, tail: Seq<char>) -> Seq<char> {
    "Chain { head: "@ + head + ", tail: "@ + tail + " }"@
}

/// Whether `text` is the text of a chain that holds `items`: its head node with the first
/// item, an empty `next` and, where it is the only node, an empty `prev`; then its tail node
/// with the last item.
pub open spec fn chain_rendered(text: Seq<char>, items: Seq<u32>) -> bool {
    exists|prev: Seq<char>, tail: Seq<char>|
        text == #[trigger] chain_text(
            node_text_of(item_digits(items.first()), prev, "None"@),
            tail,
        ) && (items.len() == 1 ==> prev == "None"@) && renders_item(
            tail,
            item_digits(items.last()),
        )
}

/// Takes the share out of a handle that is filled.
fn take_share<Share>(slot: &mut Option<Share>) -> (share: Share)
    requires
        *old(slot) is Some,
    ensures
        share == (*old(slot))->0,
        *final(slot) is None,
    opens_invariants none
    no_unwind
{
    let mut taken: Option<Share> = None;
    core::mem::swap(slot, &mut taken);
    match taken {
        Some(share) => share,
        None => vstd::pervasive::unreached(),
    }
}

/// A doubly linked chain of at least one node.
pub(crate) struct Chain {
    /// The lead of the newest node. Filled whenever no method of the chain is running.
    head: Option<HalfShare>,
    /// The back share of the oldest node. Filled whenever no method of the chain is running.
    tail: Option<BackShare>,
}

impl Chain {
    /// The nodes of the chain, newest first.
    pub(crate) closed spec fn trail(&self) -> Seq<NodeFacts> {
        half_trail(self.head->0)
    }

    /// The node that the head handle denotes.
    pub(crate) closed spec fn head_node(&self) -> int {
        half_node(self.head->0)
    }

    /// The node that the tail handle denotes.
    pub(crate) closed spec fn tail_node(&self) -> int {
        self.tail->0.node()
    }

    /// The items of the chain, newest first.
    pub(crate) open spec fn items(&self) -> Seq<u32> {
        trail_items(self.trail())
    }

    /// The item of the node that the tail handle denotes.
    pub(crate) closed spec fn tail_item(&self) -> u32 {
        self.tail->0.item()
    }

    /// Both handles are filled.
    pub(crate) closed spec fn filled(&self) -> bool {
        self.head is Some && self.tail is Some
    }

    /// The chain is whole: both handles are filled, the nodes are linked in both directions,
    /// the head denotes the newest node and the tail the oldest.
    pub(crate) open spec fn wf(&self) -> bool {
        &&& self.filled()
        &&& trail_linked(self.trail())
        &&& self.head_node() == self.trail().first().id
        &&& self.tail_node() == self.trail().last().id
        &&& self.tail_item() == self.trail().last().item
    }

    /// A chain of one node that holds `item`.
    pub(crate) fn new(item: u32) -> (chain: Chain)
        ensures
            chain.wf(),
            chain.items() == seq![item],
        opens_invariants none
        no_unwind
    {
        let full = new_node(item, None);
        let (lead, back) = split(full);
        Chain { head: Some(lead), tail: Some(back) }
    }

    /// Puts a new node that holds `item` in front of the newest node: the new node takes the
    /// old head share as its `prev`, one of its halves becomes the head, and the other becomes
    /// the `next` of the node that was the newest. That node is reached through the new one:
    /// its lead is taken out of `prev` and put back once its `next` is filled.
    pub(crate) fn insert_head(&mut self, item: u32)
        requires
            old(self).wf(),
        ensures
            final(self).wf(),
            final(self).trail() == trail_with_front(
                old(self).trail(),
                final(self).head_node(),
                item,
            ),
            final(self).tail_node() == old(self).tail_node(),
            final(self).items() == after_insert(old(self).items(), item),
        opens_invariants none
        no_unwind
    {
        let head_link = take_share(&mut self.head);
        let full = new_node(item, Some(head_link));
        let (mut lead, back) = split(full);
        match take_prev(&mut lead) {
            Some(mut behind) => {
                set_next(&mut behind, back);
                set_prev(&mut lead, behind);
            },
            None => vstd::pervasive::unreached(),
        }
        proof {
            lemma_front_put(old(self).trail(), half_node(lead), item);
            assert(half_trail(lead) =~= trail_with_front(
                old(self).trail(),
                half_node(lead),
                item,
            ));
        }
        self.head = Some(lead);
    }

    /// Takes the newest node off and returns its item, unless it is the only node: then the
    /// chain stays as it is and `None` is returned.
    pub(crate) fn pop_head(&mut self) -> (popped: Option<u32>)
        requires
            old(self).wf(),
        ensures
            final(self).wf(),
            final(self).tail_node() == old(self).tail_node(),
            old(self).items().len() == 1 ==> popped is None,
            old(self).items().len() == 1 ==> final(self).trail() == old(self).trail(),
            old(self).items().len() > 1 ==> popped == Some(old(self).items()[0]),
            old(self).items().len() > 1 ==> final(self).trail() == trail_without_front(
                old(self).trail(),
            ),
        opens_invariants none
        no_unwind
    {
        let mut head_link = take_share(&mut self.head);
        match take_prev(&mut head_link) {
            Some(mut prev_link) => {
                let back = take_next(&mut prev_link);
                proof {
                    assert(forward_linked(old(self).trail(), 1));
                    lemma_front_taken(old(self).trail());
                }
                self.head = Some(prev_link);
                match back {
                    Some(back) => Some(into_item(join(head_link, back))),
                    None => vstd::pervasive::unreached(),
                }
            },
            None => {
                self.head = Some(head_link);
                None
            },
        }
    }

    /// Renders the chain for a reader: its head node and its tail node, each with its item and
    /// the addresses in its links.
    pub(crate) fn debug_string(&self) -> (text: String)
        requires
            self.wf(),
        ensures
            chain_rendered(text@, self.items()),
    {
        let head = match &self.head {
            Some(share) => node_text(share),
            None => vstd::pervasive::unreached(),
        };
        let tail = match &self.tail {
            Some(share) => share.text(),
            None => vstd::pervasive::unreached(),
        };
        let mut text = String::from_str("Chain { head: ");
        text.append(head.as_str());
        text.append(", tail: ");
        text.append(tail.as_str());
        text.append(" }");
        proof {
            let (prev, next) = choose|prev: Seq<char>, next: Seq<char>|
                head@ == #[trigger] node_text_of(
                    item_digits(self.trail()[0].item),
                    prev,
                    next,
                ) && (self.trail().len() == 1 ==> prev == "None"@) && (self.trail()[0].next
                    is None ==> next == "None"@);
            assert(text@ == chain_text(
                node_text_of(item_digits(self.items().first()), prev, "None"@),
                tail@,
            ));
        }
        text
    }

    /// Gives up a chain of one node for the item of that node: the head and the tail denote the
    /// same node, so they are joined and the node is released.
    pub(crate) fn into_last_item(self) -> (item: u32)
        requires
            self.wf(),
            self.items().len() == 1,
        ensures
            item == self.items()[0],
        opens_invariants none
        no_unwind
    {
        let mut chain = self;
        let head_link = take_share(&mut chain.head);
        let tail_link = take_share(&mut chain.tail);
        into_item(join(head_link, tail_link))
    }
}

} // verus!
