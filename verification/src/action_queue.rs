//! The queue of cell actions, a `crossbeam` `SegQueue`.
use crate::gol::Cell_Action;
use crossbeam::queue::SegQueue;
use vstd::prelude::*;

verus! {

/// `crossbeam::queue::SegQueue`, an unbounded first-in first-out queue, made
/// known to Verus as an opaque type.
#[verifier::external_type_specification]
#[verifier::external_body]
#[verifier::reject_recursive_types(T)]
pub struct ExSegQueue<T>(crossbeam::queue::SegQueue<T>);

/// The actions that a queue holds, front (next to be popped) first, each
/// taken by its view `(x, y, new_age, new_value)`.
pub uninterp spec fn queue_items(q: SegQueue<Cell_Action>) -> Seq<(usize, usize, u32, u32)>;

/// Calls `SegQueue::new`.  Claimed: the new queue is empty.
#[verifier::external_body]
pub(crate) fn new_action_queue() -> (q: SegQueue<Cell_Action>)
    ensures
        queue_items(q) == Seq::<(usize, usize, u32, u32)>::empty(),
{
    SegQueue::new()
}

/// Calls `SegQueue::push_mut`.  Claimed: `action` is appended at the back
/// (the documentation: "Pushes an element to the queue"; `pop` returns
/// elements in the order they were pushed).
#[verifier::external_body]
pub(crate) fn queue_push(q: &mut SegQueue<Cell_Action>, action: Cell_Action)
    ensures
        queue_items(*final(q)) == queue_items(*old(q)).push(action@),
{
    q.push_mut(action);
}

/// Calls `SegQueue::pop_mut`.  Claimed: on an empty queue it returns `None`
/// and the queue stays empty; otherwise it returns the front element and
/// removes it.
#[verifier::external_body]
pub(crate) fn queue_pop(q: &mut SegQueue<Cell_Action>) -> (r: Option<Cell_Action>)
    ensures
        queue_items(*old(q)).len() == 0 ==> r is None && queue_items(*final(q)) == queue_items(*old(q)),
        queue_items(*old(q)).len() > 0 ==> (r matches Some(a) && a@ == queue_items(*old(q))[0]
            && queue_items(*final(q)) == queue_items(*old(q)).drop_first()),
{
    q.pop_mut()
}

/// Calls `SegQueue::is_empty`.  Claimed: it returns whether the queue holds
/// no element.
#[verifier::external_body]
pub(crate) fn queue_is_empty(q: &SegQueue<Cell_Action>) -> (r: bool)
    ensures
        r == (queue_items(*q).len() == 0),
{
    q.is_empty()
}

} // verus!
