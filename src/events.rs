//! The event container: owned erased events, re-sorted lazily before they
//! are read, and merged with `merge`.
use std::marker::PhantomData;
use vstd::prelude::*;

use crate::accessor::{Resource, ResourceId};
use crate::event::{erases, BoxedEvent, Event, EventFilter};
use crate::order::{consumption_order, lemma_sorted_is_own_order, sort_by_priority, sorted_by_priority};

verus! {

/// An ordered collection of erased events with a pending-sort flag.
///
/// Its view is the sequence of events it holds; reading them yields that
/// sequence in consumption order (see `consumption_order`).
pub struct Events {
    queue: Vec<BoxedEvent>,
    needs_sort: bool,
}

impl View for Events {
    type V = Seq<BoxedEvent>;

    closed spec fn view(&self) -> Seq<BoxedEvent> {
        self.queue@
    }
}

impl Events {
    /// Whether a change since the last sort asks for the next read to sort.
    pub closed spec fn is_dirty(&self) -> bool {
        self.needs_sort
    }

    /// Unless a sort is pending, the held events are in priority order.
    pub closed spec fn wf(&self) -> bool {
        !self.needs_sort ==> sorted_by_priority(self.queue@)
    }

    /// An empty container.
    pub fn new() -> (r: Events)
        ensures
            r.wf(),
            !r.is_dirty(),
            r@ == Seq::<BoxedEvent>::empty(),
    {
        Events { queue: Vec::new(), needs_sort: false }
    }

    /// A container holding the events of `v`, to be sorted when first read.
    pub fn from_vec(v: Vec<BoxedEvent>) -> (r: Events)
        ensures
            r.wf(),
            r.is_dirty(),
            r@ == v@,
    {
        Events { queue: v, needs_sort: true }
    }

    pub fn len(&self) -> (r: usize)
        ensures
            r == self@.len(),
    {
        self.queue.len()
    }

    pub fn is_empty(&self) -> (r: bool)
        ensures
            r == (self@.len() == 0),
    {
        self.queue.len() == 0
    }

    /// Adds an erased event.
    pub fn push(&mut self, event: BoxedEvent)
        requires
            old(self).wf(),
        ensures
            final(self).wf(),
            final(self).is_dirty(),
            final(self)@ == old(self)@.push(event),
    {
        self.queue.push(event);
        self.needs_sort = true;
    }

    /// Adds `event`, erasing its type.
    pub fn push_event<E: Event>(&mut self, event: E)
        requires
            old(self).wf(),
        ensures
            final(self).wf(),
            final(self).is_dirty(),
            final(self)@.len() == old(self)@.len() + 1,
            final(self)@.drop_last() == old(self)@,
            erases::<E>(final(self)@.last(), event),
    {
        let boxed = BoxedEvent::new(event);
        self.push(boxed);
        proof {
            assert(self@.drop_last() =~= old(self)@);
        }
    }

    /// Puts the held events in consumption order, if a change since the
    /// last sort asks for it.
    pub fn sort(&mut self)
        requires
            old(self).wf(),
        ensures
            final(self).wf(),
            !final(self).is_dirty(),
            !old(self).is_dirty() ==> final(self)@ == old(self)@,
            consumption_order(final(self)@, old(self)@),
    {
        if self.needs_sort {
            self.resort();
        } else {
            proof {
                lemma_sorted_is_own_order(self@);
            }
        }
    }

    fn resort(&mut self)
        ensures
            final(self).wf(),
            consumption_order(final(self)@, old(self)@),
            !final(self).needs_sort,
    {
        let mut taken: Vec<BoxedEvent> = Vec::new();
        std::mem::swap(&mut taken, &mut self.queue);
        self.needs_sort = true;
        self.queue = sort_by_priority(taken);
        self.needs_sort = false;
    }

    /// Moves every event of `other` into this container, which is sorted
    /// again whatever its flag says.
    pub fn merge(&mut self, other: Events)
        requires
            old(self).wf(),
        ensures
            final(self).wf(),
            !final(self).is_dirty(),
            consumption_order(final(self)@, old(self)@ + other@),
    {
        let mut other = other;
        let mut added: Vec<BoxedEvent> = Vec::new();
        std::mem::swap(&mut added, &mut other.queue);
        self.queue.append(&mut added);
        self.needs_sort = true;
        self.resort();
    }

    /// The held events in consumption order, as they now stand.
    pub fn iter(&mut self) -> (r: &Vec<BoxedEvent>)
        requires
            old(self).wf(),
        ensures
            final(self).wf(),
            !final(self).is_dirty(),
            consumption_order(r@, old(self)@),
            final(self)@ == r@,
    {
        self.sort();
        &self.queue
    }

    /// A view of the held events, in consumption order, that yields those
    /// the filter `F` accepts.
    pub fn filtered<F: EventFilter>(&mut self) -> (r: EventsIterator<'_, F>)
        requires
            old(self).wf(),
        ensures
            final(self).wf(),
            !final(self).is_dirty(),
            consumption_order(r.events(), old(self)@),
            final(self)@ == r.events(),
            r.position() == 0,
            r.wf(),
    {
        self.sort();
        EventsIterator::new(&self.queue)
    }

    /// Takes every held event out, in consumption order.
    pub fn drain(&mut self) -> (r: Vec<BoxedEvent>)
        requires
            old(self).wf(),
        ensures
            final(self).wf(),
            !final(self).is_dirty(),
            consumption_order(r@, old(self)@),
            final(self)@ == Seq::<BoxedEvent>::empty(),
    {
        self.sort();
        let mut taken: Vec<BoxedEvent> = Vec::new();
        std::mem::swap(&mut taken, &mut self.queue);
        self.needs_sort = false;
        taken
    }
}

impl Resource for Events {
    const ID: ResourceId = 0xffff_ffff_ffff_ffff;
}

impl Default for Events {
    fn default() -> (r: Events)
        ensures
            r.wf(),
            r@ == Seq::<BoxedEvent>::empty(),
    {
        Events::new()
    }
}

/// A read-only view of a sequence of events that yields, in turn, those
/// whose identity the filter `F` accepts.
pub struct EventsIterator<'a, F> {
    events: &'a Vec<BoxedEvent>,
    pos: usize,
    filter: PhantomData<F>,
}

impl<'a, F: EventFilter> EventsIterator<'a, F> {
    /// The events viewed.
    pub closed spec fn events(&self) -> Seq<BoxedEvent> {
        self.events@
    }

    /// How many of the events viewed have been passed.
    pub closed spec fn position(&self) -> int {
        self.pos as int
    }

    pub closed spec fn wf(&self) -> bool {
        self.pos <= self.events@.len()
    }

    /// A view of `events` from the first.
    pub fn new(events: &'a Vec<BoxedEvent>) -> (r: Self)
        ensures
            r.wf(),
            r.events() == events@,
            r.position() == 0,
            r.position() <= r.events().len(),
    {
        EventsIterator { events, pos: 0, filter: PhantomData }
    }

    /// The next event that `F` accepts, passing over those it does not.
    pub fn next(&mut self) -> (r: Option<&'a BoxedEvent>)
        requires
            old(self).wf(),
        ensures
            final(self).wf(),
            final(self).events() == old(self).events(),
            old(self).position() <= final(self).position(),
            final(self).position() <= final(self).events().len(),
            forall|j: int|
                old(self).position() <= j < final(self).position() - 1 ==> !F::spec_has_type(
                    #[trigger] old(self).events()[j].id,
                ),
            r is None ==> final(self).position() == old(self).events().len(),
            r is None ==> forall|j: int|
                old(self).position() <= j < old(self).events().len() ==> !F::spec_has_type(
                    #[trigger] old(self).events()[j].id,
                ),
            r matches Some(e) ==> {
                &&& final(self).position() > old(self).position()
                &&& *e == old(self).events()[final(self).position() - 1]
                &&& F::spec_has_type(e.id)
            },
    {
        while self.pos < self.events.len()
            invariant
                self.wf(),
                self.events@ == old(self).events(),
                old(self).position() <= self.pos,
                forall|j: int|
                    old(self).position() <= j < self.pos ==> !F::spec_has_type(
                        #[trigger] old(self).events()[j].id,
                    ),
            decreases self.events@.len() - self.pos,
        {
            let e: &'a BoxedEvent = &self.events[self.pos];
            self.pos = self.pos + 1;
            if F::has_type(e.id) {
                return Some(e);
            }
        }
        None
    }
}

} // verus!
