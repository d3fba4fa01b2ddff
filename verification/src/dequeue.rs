//! The queue: empty, or a chain.

use crate::chain::{
    chain_rendered, lemma_weight_two, trail_items, trail_linked, weight_held, Chain,
};
use crate::model::{after_insert, after_pop, head_of};
use crate::share::NodeFacts;
use vstd::prelude::*;
use vstd::string::StringExecFns;

verus! {

/// A queue of items that are put in and taken off at its head.
///
/// It is empty, and then holds no chain, or it holds a chain of one node for each item.
pub struct Dequeue(Option<Chain>);

impl Dequeue {
    /// The nodes that the queue owns, from the head on: none when it is empty.
    pub closed spec fn nodes(&self) -> Seq<NodeFacts> {
        match self.0 {
            Some(chain) => chain.trail(),
            None => Seq::empty(),
        }
    }

    /// The weight of the shares that denote the node `id` in this queue: one for each half
    /// share, wherever it is held.
    pub closed spec fn weight_on(&self, id: int) -> nat {
        match self.0 {
            Some(chain) => weight_held(chain.head_node(), chain.tail_node(), chain.trail(), id),
            None => 0,
        }
    }

    /// The chain, if there is one, is whole. This holds of every queue that a program holds.
    pub closed spec fn wf(&self) -> bool {
        self.0 is Some ==> self.0->0.wf()
    }

    #[verifier::type_invariant]
    spec fn inv(&self) -> bool {
        self.wf()
    }

    /// The nodes of a queue that is not empty are linked in both directions: following `prev`
    /// from the head and following `next` from the tail meet the same nodes, and none twice.
    pub proof fn lemma_nodes_linked(&self)
        requires
            self.wf(),
            self@.len() > 0,
        ensures
            trail_linked(self.nodes()),
    {
    }

    /// Every node that the queue owns is denoted by shares that weigh two together: by two
    /// half shares, and by no full share.
    pub proof fn lemma_weights(&self)
        requires
            self.wf(),
        ensures
            forall|k: int|
                0 <= k < self.nodes().len() ==> self.weight_on((#[trigger] self.nodes()[k]).id)
                    == 2,
    {
        assert forall|k: int| 0 <= k < self.nodes().len() implies self.weight_on(
            (#[trigger] self.nodes()[k]).id,
        ) == 2 by {
            let chain = self.0->0;
            lemma_weight_two(chain.head_node(), chain.tail_node(), chain.trail(), k);
        }
    }

    /// An empty queue.
    pub fn new() -> (queue: Dequeue)
        ensures
            queue.wf(),
            queue@ == Seq::<u32>::empty(),
        opens_invariants none
        no_unwind
    {
        Dequeue(None)
    }

    /// Puts `item` at the head: into a new chain if the queue is empty, else in front of the
    /// chain.
    pub fn insert_head(&mut self, item: u32)
        ensures
            final(self).wf(),
            final(self)@ == after_insert(old(self)@, item),
        opens_invariants none
        no_unwind
    {
        proof {
            use_type_invariant(&*self);
        }
        let mut held: Option<Chain> = None;
        core::mem::swap(&mut self.0, &mut held);
        match held {
            None => self.0 = Some(Chain::new(item)),
            Some(mut chain) => {
                chain.insert_head(item);
                self.0 = Some(chain);
            },
        }
    }

    /// Takes the item at the head off and returns it. An empty queue returns `None` and stays
    /// as it is; a queue of one item becomes empty.
    pub fn pop_head(&mut self) -> (popped: Option<u32>)
        ensures
            final(self).wf(),
            popped == head_of(old(self)@),
            final(self)@ == after_pop(old(self)@),
            old(self)@.len() == 0 ==> *final(self) == *old(self),
        opens_invariants none
        no_unwind
    {
        proof {
            use_type_invariant(&*self);
        }
        let mut held: Option<Chain> = None;
        core::mem::swap(&mut self.0, &mut held);
        match held {
            None => None,
            Some(mut chain) => {
                match chain.pop_head() {
                    Some(item) => {
                        self.0 = Some(chain);
                        Some(item)
                    },
                    None => {
                        let item = chain.into_last_item();
                        Some(item)
                    },
                }
            },
        }
    }

    /// Renders the queue for a reader, without changing it: `Dequeue(None)` when it is empty,
    /// else inside `Dequeue(Some(..))` the chain, which shows the node at the head with the
    /// first item and the node at the tail with the last.
    pub fn debug_string(&self) -> (text: String)
        ensures
            self@.len() == 0 ==> text@ == "Dequeue(None)"@,
            self@.len() > 0 ==> exists|inner: Seq<char>|
                text@ == "Dequeue(Some("@ + inner + "))"@ && #[trigger] chain_rendered(
                    inner,
                    self@,
                ),
    {
        proof {
            use_type_invariant(self);
        }
        match &self.0 {
            None => String::from_str("Dequeue(None)"),
            Some(chain) => {
                let inner = chain.debug_string();
                let mut text = String::from_str("Dequeue(Some(");
                text.append(inner.as_str());
                text.append("))");
                text
            },
        }
    }

    /// Takes every item off, so that every node is released.
    pub fn clear(&mut self)
        ensures
            final(self).wf(),
            final(self)@ == Seq::<u32>::empty(),
        opens_invariants none
        no_unwind
    {
        proof {
            use_type_invariant(&*self);
        }
        loop
            invariant
                self.wf(),
            ensures
                self.wf(),
                self@.len() == 0,
            decreases self@.len(),
        {
            match self.pop_head() {
                Some(_) => {},
                None => {
                    break ;
                },
            }
        }
    }
}

impl Drop for Dequeue {
    /// Releases every node that the queue still owns: it ends without a node.
    fn drop(&mut self)
        ensures
            final(self)@ == Seq::<u32>::empty(),
        opens_invariants none
        no_unwind
    {
        self.clear();
    }
}

impl View for Dequeue {
    type V = Seq<u32>;

    /// The items of the queue, from the head on.
    open spec fn view(&self) -> Seq<u32> {
        trail_items(self.nodes())
    }
}

} // verus!
