//! The event manager: routes each pending event to the first registered
//! notifier that accepts it, and queues what that notifier produces for the
//! next cycle.
use vstd::prelude::*;

use crate::event::{erases, BoxedEvent, Event, EventID};
use crate::events::Events;
use crate::notifier::NotifierCallback;
use crate::order::{consumption_order, lemma_append_same, same_per_priority, sorted_by_priority};

verus! {

/// `route` is where an event with identity `id` goes among notifiers with
/// the filter sets `filters`: the first one, in registration order, whose
/// set holds `id`, or none when no set does.
pub open spec fn routes_to(filters: Seq<Seq<EventID>>, id: EventID, route: Option<usize>) -> bool {
    match route {
        Some(k) => {
            &&& k < filters.len()
            &&& filters[k as int].contains(id)
            &&& forall|j: int| 0 <= j < k ==> !(#[trigger] filters[j]).contains(id)
        },
        None => forall|j: int| 0 <= j < filters.len() ==> !(#[trigger] filters[j]).contains(id),
    }
}

/// What one cycle did, given the events it found pending (`pending`), the
/// filter sets, the route it reports for each event (`routed`), and the
/// events pending after it (`after`): `worked` is `pending` in consumption
/// order, event `i` of it went where `routes_to` says, and `after` is, in
/// consumption order, what the notifiers returned (`outs[i]` for event `i`,
/// nothing for an event that no notifier accepted).
pub open spec fn cycle_outcome(
    pending: Seq<BoxedEvent>,
    filters: Seq<Seq<EventID>>,
    routed: Seq<Option<usize>>,
    after: Seq<BoxedEvent>,
    worked: Seq<BoxedEvent>,
    outs: Seq<Seq<BoxedEvent>>,
) -> bool {
    &&& consumption_order(worked, pending)
    &&& routed.len() == worked.len()
    &&& outs.len() == worked.len()
    &&& forall|i: int| 0 <= i < worked.len() ==> routes_to(filters, #[trigger] worked[i].id, routed[i])
    &&& forall|i: int| 0 <= i < worked.len() ==> (#[trigger] routed[i]) is None ==> outs[i].len() == 0
    &&& consumption_order(after, outs.flatten())
}

/// One delivery step: with the notifiers as `before`, an event routed as
/// `route` leaves them as `after`: the notifier it went to took `event` and
/// returned `out`, and the others are as they were; with no route, nothing
/// changed.
pub open spec fn delivered<N: NotifierCallback>(
    before: Seq<N>,
    after: Seq<N>,
    route: Option<usize>,
    event: BoxedEvent,
    out: Seq<BoxedEvent>,
) -> bool {
    match route {
        Some(k) => {
            &&& k < before.len()
            &&& after == before.update(k as int, after[k as int])
            &&& exists|v: Vec<BoxedEvent>| v@ == out && before[k as int].notified(&after[k as int], event, &v)
        },
        None => after == before,
    }
}

/// The notifiers went through `states` during a cycle: `states[i]` before
/// event `i` of `worked`, and each step is the delivery of that event.
pub open spec fn deliveries<N: NotifierCallback>(
    states: Seq<Seq<N>>,
    routed: Seq<Option<usize>>,
    worked: Seq<BoxedEvent>,
    outs: Seq<Seq<BoxedEvent>>,
) -> bool {
    &&& states.len() == worked.len() + 1
    &&& forall|i: int|
        0 <= i < worked.len() ==> delivered(states[i], states[i + 1], routed[i], worked[i], #[trigger] outs[i])
}

/// Whether no event of the cycle went to notifier `k`.
pub open spec fn untouched(routed: Seq<Option<usize>>, k: int) -> bool {
    forall|i: int| 0 <= i < routed.len() ==> routed[i] != Some(k as usize)
}

/// Delivery is to at most one notifier, and an accepting one: in a cycle
/// with outcome as `cycle_outcome` states, each event taken went to the
/// single notifier its route names, whose filter set holds its identity, or,
/// when no filter set holds it, to none; such an event left nothing behind,
/// so what is pending afterwards comes from delivered events alone.
pub proof fn lemma_delivery_at_most_once(
    pending: Seq<BoxedEvent>,
    filters: Seq<Seq<EventID>>,
    routed: Seq<Option<usize>>,
    after: Seq<BoxedEvent>,
    worked: Seq<BoxedEvent>,
    outs: Seq<Seq<BoxedEvent>>,
    i: int,
)
    requires
        cycle_outcome(pending, filters, routed, after, worked, outs),
        0 <= i < worked.len(),
    ensures
        routed[i] matches Some(k) ==> k < filters.len() && filters[k as int].contains(worked[i].id),
        routed[i] is None ==> forall|j: int|
            0 <= j < filters.len() ==> !(#[trigger] filters[j]).contains(worked[i].id),
        routed[i] is None ==> outs[i].len() == 0,
{
    assert(routes_to(filters, worked[i].id, routed[i]));
}

/// Owns the notifiers, in registration order, with the filter set each
/// declared when registered, and the container of pending events.
pub struct EventManager<N: NotifierCallback> {
    notifiers: Vec<N>,
    filters: Vec<Vec<EventID>>,
    pending: Events,
}

/// The index of the first set in `filters` that holds `id`.
pub fn route(filters: &Vec<Vec<EventID>>, id: EventID) -> (r: Option<usize>)
    ensures
        routes_to(filters@.map_values(|f: Vec<EventID>| f@), id, r),
{
    let ghost sets = filters@.map_values(|f: Vec<EventID>| f@);
    let mut k: usize = 0;
    while k < filters.len()
        invariant
            k <= filters@.len(),
            sets == filters@.map_values(|f: Vec<EventID>| f@),
            forall|j: int| 0 <= j < k ==> !(#[trigger] sets[j]).contains(id),
        decreases filters@.len() - k,
    {
        if contains_id(&filters[k], id) {
            return Some(k);
        }
        k = k + 1;
    }
    None
}

fn contains_id(set: &Vec<EventID>, id: EventID) -> (r: bool)
    ensures
        r == set@.contains(id),
{
    let mut i: usize = 0;
    while i < set.len()
        invariant
            i <= set@.len(),
            forall|j: int| 0 <= j < i ==> set@[j] != id,
        decreases set@.len() - i,
    {
        if set[i] == id {
            return true;
        }
        i = i + 1;
    }
    false
}

fn reversed<T>(v: Vec<T>) -> (r: Vec<T>)
    ensures
        r@ == v@.reverse(),
{
    let ghost s = v@;
    let mut rest = v;
    let mut out: Vec<T> = Vec::new();
    while rest.len() > 0
        invariant
            rest@ == s.subrange(0, rest@.len() as int),
            rest@.len() <= s.len(),
            out@ == s.subrange(rest@.len() as int, s.len() as int).reverse(),
        decreases rest@.len(),
    {
        let x = rest.pop().unwrap();
        proof {
            let k = rest@.len() as int;
            assert(s.subrange(k, s.len() as int).reverse() =~= s.subrange(k + 1, s.len() as int).reverse().push(x));
        }
        out.push(x);
    }
    proof {
        assert(s.subrange(0, s.len() as int) =~= s);
    }
    out
}

impl<N: NotifierCallback> EventManager<N> {
    /// The filter sets of the registered notifiers, in registration order.
    pub closed spec fn filter_sets(&self) -> Seq<Seq<EventID>> {
        self.filters@.map_values(|f: Vec<EventID>| f@)
    }

    /// The registered notifiers, in registration order.
    pub closed spec fn notifier_list(&self) -> Seq<N> {
        self.notifiers@
    }

    /// The events waiting for the next cycle.
    pub closed spec fn pending_events(&self) -> Seq<BoxedEvent> {
        self.pending@
    }

    pub closed spec fn wf(&self) -> bool {
        &&& self.pending.wf()
        &&& self.notifiers@.len() == self.filters@.len()
    }

    /// A manager with no notifiers and no pending events.
    pub fn new() -> (r: Self)
        ensures
            r.wf(),
            r.filter_sets() == Seq::<Seq<EventID>>::empty(),
            r.notifier_list() == Seq::<N>::empty(),
            r.pending_events() == Seq::<BoxedEvent>::empty(),
    {
        let r = EventManager { notifiers: Vec::new(), filters: Vec::new(), pending: Events::new() };
        proof {
            assert(r.filter_sets() =~= Seq::<Seq<EventID>>::empty());
        }
        r
    }

    /// Adds `notifier` after those already registered, with the filter set
    /// it declares now; returns its index.
    pub fn register(&mut self, notifier: N) -> (index: usize)
        requires
            old(self).wf(),
        ensures
            final(self).wf(),
            index == old(self).filter_sets().len(),
            final(self).filter_sets().len() == old(self).filter_sets().len() + 1,
            final(self).filter_sets().drop_last() == old(self).filter_sets(),
            final(self).notifier_list() == old(self).notifier_list().push(notifier),
            final(self).pending_events() == old(self).pending_events(),
    {
        let filter = notifier.filter();
        let index = self.filters.len();
        self.filters.push(filter);
        self.notifiers.push(notifier);
        proof {
            assert(self.filter_sets().drop_last() =~= old(self).filter_sets());
        }
        index
    }

    /// The filter set of the notifier at `index`.
    pub fn filter_of(&self, index: usize) -> (r: &Vec<EventID>)
        requires
            index < self.filter_sets().len(),
        ensures
            r@ == self.filter_sets()[index as int],
    {
        &self.filters[index]
    }

    pub fn notifier_count(&self) -> (r: usize)
        requires
            self.wf(),
        ensures
            r == self.filter_sets().len(),
    {
        self.notifiers.len()
    }

    /// The notifier at `index`.
    pub fn notifier(&self, index: usize) -> (r: &N)
        requires
            self.wf(),
            index < self.filter_sets().len(),
        ensures
            *r == self.notifier_list()[index as int],
    {
        &self.notifiers[index]
    }

    pub fn pending_len(&self) -> (r: usize)
        ensures
            r == self.pending_events().len(),
    {
        self.pending.len()
    }

    /// Queues an erased event for the next cycle.
    pub fn push(&mut self, event: BoxedEvent)
        requires
            old(self).wf(),
        ensures
            final(self).wf(),
            final(self).filter_sets() == old(self).filter_sets(),
            final(self).notifier_list() == old(self).notifier_list(),
            final(self).pending_events() == old(self).pending_events().push(event),
    {
        self.pending.push(event);
    }

    /// Queues `event` for the next cycle, erasing its type.
    pub fn push_event<E: Event>(&mut self, event: E)
        requires
            old(self).wf(),
        ensures
            final(self).wf(),
            final(self).filter_sets() == old(self).filter_sets(),
            final(self).notifier_list() == old(self).notifier_list(),
            final(self).pending_events().len() == old(self).pending_events().len() + 1,
            final(self).pending_events().drop_last() == old(self).pending_events(),
            erases::<E>(final(self).pending_events().last(), event),
    {
        self.pending.push_event(event);
    }

    /// Moves every event of `events` into the pending container.
    pub fn absorb(&mut self, events: Events)
        requires
            old(self).wf(),
        ensures
            final(self).wf(),
            final(self).filter_sets() == old(self).filter_sets(),
            final(self).notifier_list() == old(self).notifier_list(),
            consumption_order(final(self).pending_events(), old(self).pending_events() + events@),
    {
        self.pending.merge(events);
    }

    /// Runs one cycle: takes the events pending now, hands each, in
    /// consumption order, to the first notifier that accepts it, and queues
    /// what that notifier returns for the next cycle. An event that no
    /// notifier accepts is dropped. Returns, for each event taken, the index
    /// of the notifier that got it.
    pub fn run_cycle(&mut self) -> (routed: Vec<Option<usize>>)
        requires
            old(self).wf(),
        ensures
            final(self).wf(),
            final(self).filter_sets() == old(self).filter_sets(),
            final(self).notifier_list().len() == old(self).notifier_list().len(),
            forall|k: int|
                0 <= k < old(self).notifier_list().len() && #[trigger] untouched(routed@, k)
                    ==> final(self).notifier_list()[k] == old(self).notifier_list()[k],
            exists|worked: Seq<BoxedEvent>, outs: Seq<Seq<BoxedEvent>>, states: Seq<Seq<N>>|
                {
                    &&& cycle_outcome(
                        old(self).pending_events(),
                        old(self).filter_sets(),
                        routed@,
                        final(self).pending_events(),
                        worked,
                        outs,
                    )
                    &&& deliveries(states, routed@, worked, outs)
                    &&& states[0] == old(self).notifier_list()
                    &&& states.last() == final(self).notifier_list()
                },
    {
        let mut working = Events::new();
        std::mem::swap(&mut working, &mut self.pending);
        let drained = working.drain();
        let ghost worked = drained@;
        let n = drained.len();
        let mut rest = reversed(drained);
        let mut routed: Vec<Option<usize>> = Vec::new();
        let ghost mut outs: Seq<Seq<BoxedEvent>> = Seq::empty();
        let ghost sets = old(self).filter_sets();
        let ghost mut states: Seq<Seq<N>> = seq![self.notifiers@];
        proof {
            assert(self.pending@ =~= outs.flatten());
            assert(self.notifiers@ == old(self).notifiers@);
        }
        let mut i: usize = 0;
        while i < n
            invariant
                n == worked.len(),
                i <= n,
                rest@ == worked.subrange(i as int, n as int).reverse(),
                routed@.len() == i,
                outs.len() == i,
                self.wf(),
                self.filter_sets() == sets,
                forall|j: int| 0 <= j < i ==> routes_to(sets, #[trigger] worked[j].id, routed@[j]),
                forall|j: int| 0 <= j < i ==> (#[trigger] routed@[j]) is None ==> outs[j].len() == 0,
                same_per_priority(self.pending@, outs.flatten()),
                sorted_by_priority(self.pending@),
                states.len() == i + 1,
                states[0] == old(self).notifiers@,
                states[i as int] == self.notifiers@,
                forall|j: int|
                    0 <= j < i ==> delivered(states[j], states[j + 1], routed@[j], worked[j], #[trigger] outs[j]),
                self.notifiers@.len() == old(self).notifiers@.len(),
                forall|k: int|
                    0 <= k < self.notifiers@.len() && #[trigger] untouched(routed@, k)
                        ==> self.notifiers@[k] == old(self).notifiers@[k],
            decreases n - i,
        {
            proof {
                assert(rest@.last() == worked[i as int]);
            }
            let event = rest.pop().unwrap();
            proof {
                assert(rest@ =~= worked.subrange(i as int + 1, n as int).reverse());
            }
            let target = route(&self.filters, event.id);
            let ghost produced: Seq<BoxedEvent> = Seq::empty();
            let ghost taken_event = event;
            let ghost before_notifiers = self.notifiers@;
            match target {
                Some(k) => {
                    let out = self.notifiers[k].notify(event);
                    proof {
                        produced = out@;
                        let returned = out;
                        assert(returned@ == produced
                            && before_notifiers[k as int].notified(&self.notifiers@[k as int], taken_event, &returned));
                    }
                    let ghost before = self.pending@;
                    self.pending.merge(Events::from_vec(out));
                    proof {
                        lemma_append_same(before, outs.flatten(), produced);
                    }
                },
                None => {
                    proof {
                        assert(self.pending@ == self.pending@ + produced);
                    }
                },
            }
            proof {
                outs.lemma_flatten_push(produced);
                outs = outs.push(produced);
                assert(delivered(before_notifiers, self.notifiers@, target, taken_event, produced));
                states = states.push(self.notifiers@);
            }
            let ghost before_routed = routed@;
            routed.push(target);
            proof {
                assert forall|k: int| 0 <= k < self.notifiers@.len() && #[trigger] untouched(routed@, k)
                    implies self.notifiers@[k] == old(self).notifiers@[k] by {
                    assert forall|j: int| 0 <= j < before_routed.len() implies before_routed[j] != Some(k as usize) by {
                        assert(routed@[j] == before_routed[j]);
                    }
                    assert(untouched(before_routed, k));
                    assert(routed@[i as int] == target);
                }
            }
            i = i + 1;
        }
        proof {
            assert(cycle_outcome(
                old(self).pending_events(),
                sets,
                routed@,
                self.pending_events(),
                worked,
                outs,
            ));
            assert(deliveries(states, routed@, worked, outs));
        }
        routed
    }
}

} // verus!
