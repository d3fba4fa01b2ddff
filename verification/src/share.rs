//! Shares of heap nodes.
//!
//! A node lives in a `StaticRc<RefCell<Node>, _, 2>`. A full share (2/2) owns its node alone; it
//! can be split into two half shares (1/2) that denote the same node, and two half shares of one
//! node can be joined into a full share again. Only a full share gives the node's item back.
//!
//! The two halves of a split play different parts, and have different types. The first, the
//! *lead*, is a bare [`HalfShare`]: it is the only share through which the links of its node
//! are taken out or filled. Its trail ([`half_trail`]) lists the node and every node that is
//! reached from it through `prev`: the lead of each of these lies in the `prev` field of the
//! node before it, out of reach of everything but the lead at the front. The second half comes
//! wrapped in a [`BackShare`], which can only be stored and joined with its lead: of it, this
//! module speaks of nothing but the node it denotes and the item in that node, which never
//! changes while the node lives. Every function here that takes out or fills a link takes a
//! lead by `&mut`, so a trail changes only through the very share it is the trail of.
//!
//! No borrow of a `RefCell` outlives the function that makes it, so none of them fails.
//!
//! The functions marked `external_body` are taken on trust: they make the calls into
//! `static_rc` and `RefCell`. The functions that put the text of a node together are proved.

use static_rc::StaticRc;
use std::cell::RefCell;
use vstd::prelude::*;
use vstd::string::StringExecFns;

verus! {

/// `static_rc::StaticRc`, opaque to Verus.
#[verifier::external_type_specification]
#[verifier::external_body]
#[verifier::reject_recursive_types(T)]
pub struct ExStaticRc<T: ?Sized, const NUM: usize, const DEN: usize>(StaticRc<T, NUM, DEN>);

/// `std::cell::RefCell`, opaque to Verus.
#[verifier::external_type_specification]
#[verifier::external_body]
#[verifier::reject_recursive_types(T)]
pub struct ExRefCell<T: ?Sized>(RefCell<T>);

/// A node of a chain: an item and the two links to its neighbours.
///
/// The links are shares of nodes of this very type, which Verus does not admit in a
/// type it can look into; so the fields are hidden from it, and only the functions of this
/// module touch them.
#[verifier::external_body]
pub struct Node {
    item: u32,
    prev: Option<HalfShare>,
    next: Option<BackShare>,
}

/// The whole ownership of a node.
pub type FullShare = StaticRc<RefCell<Node>, 2, 2>;

/// Half of the ownership of a node. Outside this module a bare half share is always a lead.
pub type HalfShare = StaticRc<RefCell<Node>, 1, 2>;

/// The half share that a split hands out beside the lead. It gives no way to the links of its
/// node: it waits, in a `next` field or in the tail handle, to be joined with the lead.
pub struct BackShare {
    half: HalfShare,
}

impl BackShare {
    /// The node that the share denotes.
    pub closed spec fn node(&self) -> int {
        half_node(self.half)
    }

    /// The item that the node of the share holds.
    pub closed spec fn item(&self) -> u32 {
        half_item(self.half)
    }

    /// Renders the node of the share for a reader: its item, and what its two links hold.
    pub(crate) fn text(&self) -> (text: String)
        ensures
            renders_item(text@, item_digits(self.item())),
    {
        let (item, prev, next) = back_parts(self);
        node_string(item, prev.as_str(), next.as_str())
    }
}

/// What a trail records of one node.
pub ghost struct NodeFacts {
    /// Which node it is.
    pub id: int,
    /// The item it holds.
    pub item: u32,
    /// The node that its `next` field denotes, if the field is filled.
    pub next: Option<int>,
}

/// The node that a half share denotes. Two shares denote the same node exactly when
/// `StaticRc::ptr_eq` holds of them.
pub uninterp spec fn half_node(share: HalfShare) -> int;

/// The trail of a lead: its node first, then the node that the `prev` field of that one denotes,
/// and so on until a node whose `prev` is empty.
pub uninterp spec fn half_trail(share: HalfShare) -> Seq<NodeFacts>;

/// The item in the node that a half share denotes. A node holds one item from its allocation
/// to its release.
pub uninterp spec fn half_item(share: HalfShare) -> u32;

/// The node that a full share denotes.
pub uninterp spec fn full_node(share: FullShare) -> int;

/// The trail of a full share, as for a lead.
pub uninterp spec fn full_trail(share: FullShare) -> Seq<NodeFacts>;

/// The text of one decimal digit.
pub open spec fn digit_text(digit: u32) -> Seq<char> {
    match digit {
        0 => "0"@,
        1 => "1"@,
        2 => "2"@,
        3 => "3"@,
        4 => "4"@,
        5 => "5"@,
        6 => "6"@,
        7 => "7"@,
        8 => "8"@,
        _ => "9"@,
    }
}

/// The text of an item: its decimal digits, the first of them not `0` unless the item is 0.
pub open spec fn item_digits(item: u32) -> Seq<char>
    decreases item,
{
    if item < 10 {
        digit_text(item)
    } else {
        item_digits(item / 10) + digit_text(item % 10)
    }
}

/// The text of a node whose item is written as `digits` and whose links are written as `prev`
/// and `next`.
pub open spec fn node_text_of(digits: Seq<char>, prev: Seq<char>, next: Seq<char>) -> Seq<char> {
    "Node { item: "@ + digits + ", prev: "@ + prev + ", next: "@ + next + " }"@
}

/// Whether `text` is the text of a node whose item is written as `digits`, whatever its links
/// hold.
pub open spec fn renders_item(text: Seq<char>, digits: Seq<char>) -> bool {
    exists|prev: Seq<char>, next: Seq<char>| text == #[trigger] node_text_of(digits, prev, next)
}

/// Whether `text` is the text of the first node of `trail`, with its item written as `digits`:
/// each link that is empty is written `None`. Of a link that is filled the text shows the
/// address, of which nothing is said.
pub open spec fn renders_front(text: Seq<char>, digits: Seq<char>, trail: Seq<NodeFacts>) -> bool {
    exists|prev: Seq<char>, next: Seq<char>|
        text == #[trigger] node_text_of(digits, prev, next) && (trail.len() == 1 ==> prev
            == "None"@) && (trail[0].next is None ==> next == "None"@)
}

/// The trail behind an optional lead: empty where there is none.
pub open spec fn trail_behind(prev: Option<HalfShare>) -> Seq<NodeFacts> {
    match prev {
        Some(lead) => half_trail(lead),
        None => Seq::empty(),
    }
}

/// The facts of a node that holds `item` and whose `next` is empty.
pub open spec fn unlinked(id: int, item: u32) -> NodeFacts {
    NodeFacts { id, item, next: None }
}

/// The same facts with another `next`.
pub open spec fn with_next(facts: NodeFacts, next: Option<int>) -> NodeFacts {
    NodeFacts { id: facts.id, item: facts.item, next }
}

/// Allocates a node by `StaticRc::new` over `RefCell::new`.
///
/// Taken on trust: the node holds `item`, its `next` is empty and its `prev` is the share
/// handed in, so its trail is the node itself followed by the trail of `prev`; and a fresh
/// allocation is none of the nodes that are still alive behind it.
#[verifier::external_body]
pub(crate) fn new_node(item: u32, prev: Option<HalfShare>) -> (full: FullShare)
    ensures
        full_trail(full) == seq![unlinked(full_node(full), item)] + trail_behind(prev),
        forall|i: int|
            0 <= i < trail_behind(prev).len() ==> (#[trigger] trail_behind(prev)[i]).id
                != full_node(full),
    opens_invariants none
    no_unwind
{
    StaticRc::new(RefCell::new(Node { item, prev, next: None }))
}

/// Splits a full share by `StaticRc::split::<1, 1>`.
///
/// Taken on trust: both halves denote the node of the full share, and so the node of the
/// second holds the item that the trail records. The first half is the lead and carries the
/// trail on; the second is wrapped as the back share.
#[verifier::external_body]
pub(crate) fn split(full: FullShare) -> (halves: (HalfShare, BackShare))
    ensures
        half_node(halves.0) == full_node(full),
        halves.1.node() == full_node(full),
        halves.1.item() == full_trail(full)[0].item,
        half_trail(halves.0) == full_trail(full),
    opens_invariants none
    no_unwind
{
    let (lead, half) = StaticRc::split::<1, 1>(full);
    (lead, BackShare { half })
}

/// Joins two half shares by `StaticRc::join`, which panics unless both denote one node.
///
/// Taken on trust: for two halves of one node the call returns the full share of that node,
/// with the trail of the lead.
#[verifier::external_body]
pub(crate) fn join(lead: HalfShare, back: BackShare) -> (full: FullShare)
    requires
        half_node(lead) == back.node(),
    ensures
        full_node(full) == half_node(lead),
        full_trail(full) == half_trail(lead),
    opens_invariants none
    no_unwind
{
    StaticRc::join(lead, back.half)
}

/// Releases a node by `StaticRc::into_inner` and `RefCell::into_inner`, and hands its item out.
///
/// The links of the node are dropped with it, and dropping a half share is an error; so both
/// links must be empty. Taken on trust: the item is the one that the trail records.
#[verifier::external_body]
pub(crate) fn into_item(full: FullShare) -> (item: u32)
    requires
        full_trail(full).len() == 1,
        full_trail(full)[0].next is None,
    ensures
        item == full_trail(full)[0].item,
    opens_invariants none
    no_unwind
{
    StaticRc::into_inner(full).into_inner().item
}

/// Empties the `prev` field of a lead's node, reached by `StaticRc::get_ref` and
/// `RefCell::borrow_mut`, and hands out what was in it.
///
/// Taken on trust: the share handed out is the lead of the rest of the trail, and the node it is
/// taken from keeps its item and its `next`.
#[verifier::external_body]
pub(crate) fn take_prev(lead: &mut HalfShare) -> (prev: Option<HalfShare>)
    requires
        half_trail(*old(lead)).len() > 0,
    ensures
        half_node(*final(lead)) == half_node(*old(lead)),
        half_trail(*final(lead)) == half_trail(*old(lead)).take(1),
        prev is Some <==> half_trail(*old(lead)).len() > 1,
        prev is Some ==> half_trail(prev->0) == half_trail(*old(lead)).skip(1),
        prev is Some ==> half_node(prev->0) == half_trail(*old(lead))[1].id,
    opens_invariants none
    no_unwind
{
    StaticRc::get_ref(lead).borrow_mut().prev.take()
}

/// Empties the `next` field of a lead's node, reached by `StaticRc::get_ref` and
/// `RefCell::borrow_mut`, and hands out what was in it.
///
/// Taken on trust: the share handed out denotes the node that the trail records as `next`, and
/// nothing else of the trail changes.
#[verifier::external_body]
pub(crate) fn take_next(lead: &mut HalfShare) -> (next: Option<BackShare>)
    requires
        half_trail(*old(lead)).len() > 0,
    ensures
        half_node(*final(lead)) == half_node(*old(lead)),
        half_trail(*final(lead)) == half_trail(*old(lead)).update(
            0,
            with_next(half_trail(*old(lead))[0], None),
        ),
        next is Some <==> half_trail(*old(lead))[0].next is Some,
        next is Some ==> next->0.node() == half_trail(*old(lead))[0].next->0,
    opens_invariants none
    no_unwind
{
    StaticRc::get_ref(lead).borrow_mut().next.take()
}

/// Fills the `next` field of a lead's node, reached by `StaticRc::get_ref` and
/// `RefCell::borrow_mut`.
///
/// The field must be empty, since a half share that is overwritten is dropped. Taken on trust:
/// the first node of the trail now records the node of `back` as its `next`, and nothing else of
/// the trail changes.
#[verifier::external_body]
pub(crate) fn set_next(lead: &mut HalfShare, back: BackShare)
    requires
        half_trail(*old(lead)).len() > 0,
        half_trail(*old(lead))[0].next is None,
    ensures
        half_node(*final(lead)) == half_node(*old(lead)),
        half_trail(*final(lead)) == half_trail(*old(lead)).update(
            0,
            with_next(half_trail(*old(lead))[0], Some(back.node())),
        ),
    opens_invariants none
    no_unwind
{
    StaticRc::get_ref(lead).borrow_mut().next = Some(back);
}

/// Fills the `prev` field of a lead's node, reached by `StaticRc::get_ref` and
/// `RefCell::borrow_mut`, with another lead.
///
/// The field must be empty, as for `next`. Taken on trust: the trail of the node is now the node
/// itself followed by the trail of `prev`.
#[verifier::external_body]
pub(crate) fn set_prev(lead: &mut HalfShare, prev: HalfShare)
    requires
        half_trail(*old(lead)).len() == 1,
    ensures
        half_node(*final(lead)) == half_node(*old(lead)),
        half_trail(*final(lead)) == half_trail(*old(lead)) + half_trail(prev),
    opens_invariants none
    no_unwind
{
    StaticRc::get_ref(lead).borrow_mut().prev = Some(prev);
}

/// Reads the node of a lead for a reader by `StaticRc::get_ref`, `RefCell::borrow` and
/// `StaticRc::as_ptr`: its item, and what `format!` writes under `{:?}` for the address that
/// each of its two links holds.
///
/// Taken on trust: the item is the one that the trail records, and an empty link is written
/// `None`. Nothing is claimed of an address: it is not the same from one run to the next.
#[verifier::external_body]
pub(crate) fn lead_parts(lead: &HalfShare) -> (parts: (u32, String, String))
    requires
        half_trail(*lead).len() > 0,
    ensures
        parts.0 == half_trail(*lead)[0].item,
        half_trail(*lead).len() == 1 ==> parts.1@ == "None"@,
        half_trail(*lead)[0].next is None ==> parts.2@ == "None"@,
{
    let node = StaticRc::get_ref(lead).borrow();
    let prev = format!("{:?}", node.prev.as_ref().map(StaticRc::as_ptr));
    let next = format!("{:?}", node.next.as_ref().map(|back| StaticRc::as_ptr(&back.half)));
    (node.item, prev, next)
}

/// Reads the node of a back share as [`lead_parts`] reads that of a lead, by the same calls.
///
/// Taken on trust: the item is the item of the node. Nothing is claimed of its links.
#[verifier::external_body]
fn back_parts(back: &BackShare) -> (parts: (u32, String, String))
    ensures
        parts.0 == half_item(back.half),
{
    let node = StaticRc::get_ref(&back.half).borrow();
    let prev = format!("{:?}", node.prev.as_ref().map(StaticRc::as_ptr));
    let next = format!("{:?}", node.next.as_ref().map(|back| StaticRc::as_ptr(&back.half)));
    (node.item, prev, next)
}

/// The text of one decimal digit.
fn digit_str(digit: u32) -> (text: &'static str)
    requires
        digit < 10,
    ensures
        text@ == digit_text(digit),
{
    match digit {
        0 => "0",
        1 => "1",
        2 => "2",
        3 => "3",
        4 => "4",
        5 => "5",
        6 => "6",
        7 => "7",
        8 => "8",
        _ => "9",
    }
}

/// Writes an item in decimal digits.
pub fn item_string(item: u32) -> (text: String)
    ensures
        text@ == item_digits(item),
    decreases item,
{
    if item < 10 {
        String::from_str(digit_str(item))
    } else {
        let mut text = item_string(item / 10);
        text.append(digit_str(item % 10));
        text
    }
}

/// Puts the text of a node together from its item and from the texts of its two links.
pub fn node_string(item: u32, prev: &str, next: &str) -> (text: String)
    ensures
        text@ == node_text_of(item_digits(item), prev@, next@),
{
    let mut text = String::from_str("Node { item: ");
    text.append(item_string(item).as_str());
    text.append(", prev: ");
    text.append(prev);
    text.append(", next: ");
    text.append(next);
    text.append(" }");
    text
}

/// Renders the node of a lead for a reader: its item, and what its two links hold.
pub(crate) fn node_text(lead: &HalfShare) -> (text: String)
    requires
        half_trail(*lead).len() > 0,
    ensures
        renders_front(text@, item_digits(half_trail(*lead)[0].item), half_trail(*lead)),
{
    let (item, prev, next) = lead_parts(lead);
    node_string(item, prev.as_str(), next.as_str())
}

} // verus!
