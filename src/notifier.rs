//! The notifier queue, consumed one event at a time, highest priority first,
//! and the subscriber contract of notifiers.
use vstd::prelude::*;

use crate::accessor::{Resource, ResourceId};
use crate::event::{erases, BoxedEvent, Event, EventID};
use crate::order::{
    consumption_order, lemma_consumption_order_unique, lemma_empty_together, lemma_sorted_is_own_order,
    sort_by_priority, sorted_by_priority};

verus! {

/// A subscriber to events.
///
/// `filter` names the identities it accepts; `notify` takes a matching
/// event and returns the events it produces in response.
pub trait NotifierCallback {
    /// Whether `after` is this notifier once it has taken `event` and
    /// returned `out`.
    spec fn notified(&self, after: &Self, event: BoxedEvent, out: &Vec<BoxedEvent>) -> bool;

    fn filter(&self) -> Vec<EventID>;

    fn notify(&mut self, event: BoxedEvent) -> (out: Vec<BoxedEvent>)
        ensures
            old(self).notified(final(self), event, &out),
    ;
}

/// A priority queue of erased events with a pending-sort flag: `pop_event`
/// gives the highest-priority event, the earliest pushed among equals.
pub struct NotifierQueue {
    queue: Vec<BoxedEvent>,
    needs_sort: bool,
}

/// Popping follows the consumption order: the event that `pop_event` takes
/// from a queue holding `held` is the first of `held` in consumption order
/// (`r`), and what stays is the rest of `r`, already in its own consumption
/// order, so that each later pop takes the next event of `r`.
pub proof fn lemma_pops_follow_consumption_order(
    held: Seq<BoxedEvent>,
    popped: BoxedEvent,
    rest: Seq<BoxedEvent>,
    r: Seq<BoxedEvent>,
)
    requires
        consumption_order(seq![popped] + rest, held),
        consumption_order(r, held),
    ensures
        r.len() > 0,
        popped == r[0],
        rest == r.drop_first(),
        consumption_order(rest, rest),
{
    lemma_consumption_order_unique(seq![popped] + rest, r, held);
    assert((seq![popped] + rest).drop_first() =~= rest);
    assert(sorted_by_priority(rest));
    lemma_sorted_is_own_order(rest);
}

impl View for NotifierQueue {
    type V = Seq<BoxedEvent>;

    closed spec fn view(&self) -> Seq<BoxedEvent> {
        self.queue@
    }
}

impl NotifierQueue {
    /// Whether a change since the last sort asks for the next pop to sort.
    pub closed spec fn is_dirty(&self) -> bool {
        self.needs_sort
    }

    /// Unless a sort is pending, the held events are in priority order.
    pub closed spec fn wf(&self) -> bool {
        !self.needs_sort ==> sorted_by_priority(self.queue@)
    }

    /// An empty queue.
    pub fn new() -> (r: NotifierQueue)
        ensures
            r.wf(),
            !r.is_dirty(),
            r@ == Seq::<BoxedEvent>::empty(),
    {
        NotifierQueue { queue: Vec::new(), needs_sort: false }
    }

    pub fn len(&self) -> (r: usize)
        ensures
            r == self@.len(),
    {
        self.queue.len()
    }

    /// Adds an erased event.
    pub fn push(&mut self, event: BoxedEvent)
        requires
            old(self).wf(),
        ensures
            final(self).wf(),
            final(self).is_dirty(),
            final(self)@ == old(self)@.push(event),
    {
        self.queue.push(event);
        self.needs_sort = true;
    }

    /// Adds `event`, erasing its type.
    pub fn push_event<E: Event>(&mut self, event: E)
        requires
            old(self).wf(),
        ensures
            final(self).wf(),
            final(self).is_dirty(),
            final(self)@.len() == old(self)@.len() + 1,
            final(self)@.drop_last() == old(self)@,
            erases::<E>(final(self)@.last(), event),
    {
        let boxed = BoxedEvent::new(event);
        self.push(boxed);
        proof {
            assert(self@.drop_last() =~= old(self)@);
        }
    }

    /// Takes out the event that comes first in consumption order: the
    /// highest priority, the earliest pushed among equal priorities.
    pub fn pop_event(&mut self) -> (r: Option<BoxedEvent>)
        requires
            old(self).wf(),
        ensures
            final(self).wf(),
            !final(self).is_dirty(),
            r matches Some(e) ==> (!old(self).is_dirty() ==> old(self)@ == seq![e] + final(self)@),
            r is None <==> old(self)@.len() == 0,
            r is None ==> final(self)@ == old(self)@,
            r matches Some(e) ==> consumption_order(seq![e] + final(self)@, old(self)@),
    {
        if self.needs_sort {
            self.sort();
        } else {
            proof {
                assert(consumption_order(self@, self@));
            }
        }
        if self.queue.len() == 0 {
            proof {
                lemma_empty_together(self@, old(self)@);
                assert(self@ =~= old(self)@);
            }
            return None;
        }
        let ghost before = self@;
        let e = self.queue.remove(0);
        proof {
            assert(seq![e] + self@ =~= before);
            lemma_empty_together(before, old(self)@);
            assert(sorted_by_priority(self@));
        }
        Some(e)
    }

    /// The held events in consumption order, the order in which successive
    /// pops would take them; a pending sort is resolved first.
    pub fn iter(&mut self) -> (r: &Vec<BoxedEvent>)
        requires
            old(self).wf(),
        ensures
            final(self).wf(),
            !final(self).is_dirty(),
            consumption_order(r@, old(self)@),
            final(self)@ == r@,
    {
        if self.needs_sort {
            self.sort();
        } else {
            proof {
                lemma_sorted_is_own_order(self@);
            }
        }
        &self.queue
    }

    fn sort(&mut self)
        ensures
            consumption_order(final(self)@, old(self)@),
            final(self).wf(),
            !final(self).needs_sort,
    {
        let mut taken: Vec<BoxedEvent> = Vec::new();
        std::mem::swap(&mut taken, &mut self.queue);
        self.queue = sort_by_priority(taken);
        self.needs_sort = false;
    }
}

impl Resource for NotifierQueue {
    const ID: ResourceId = 0xffff_ffff_ffff_fffe;
}

impl Default for NotifierQueue {
    fn default() -> (r: NotifierQueue)
        ensures
            r.wf(),
            r@ == Seq::<BoxedEvent>::empty(),
    {
        NotifierQueue::new()
    }
}

} // verus!
