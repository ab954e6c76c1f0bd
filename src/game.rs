//! The engine's entry point: named systems run by the scheduler, notifiers
//! fed by the events the systems queue in the world, one tick at a time.
use vstd::prelude::*;

use crate::accessor::ResourceStore;
use crate::event::{BoxedEvent, EventID};
use crate::events::Events;
use crate::manager::{cycle_outcome, deliveries, EventManager};
use crate::notifier::NotifierCallback;
use crate::order::consumption_order;
use crate::scheduler::{runs_on, DefaultScheduler, SystemRun};
use crate::system::SystemInterface;

verus! {

/// Why a system could not be registered.
#[derive(Debug, Clone, Copy, PartialEq, Eq, Structural)]
pub enum BuildError {
    /// A system of that name is already registered.
    DuplicateName,
    /// A named predecessor is not registered (yet).
    UnknownDependency,
}

/// The names of `names`, as character sequences.
pub open spec fn name_seq(names: Seq<String>) -> Seq<Seq<char>> {
    names.map_values(|n: String| n@)
}

/// Whether every predecessor named in `dependencies` is among `names`.
pub open spec fn dependencies_known(names: Seq<Seq<char>>, dependencies: Seq<&str>) -> bool {
    forall|j: int| 0 <= j < dependencies.len() ==> names.contains(#[trigger] dependencies[j]@)
}

/// The event side of a tick, given the events pending before it
/// (`pending`), the filter sets, the route it reports for each event
/// (`routed`) and the events pending after it (`after`): the events the
/// systems queued (`queued`) joined the pending ones, and the cycle took
/// them all (`taken`, in consumption order) with the outcome that
/// `cycle_outcome` states.
pub open spec fn tick_outcome(
    pending: Seq<BoxedEvent>,
    filters: Seq<Seq<EventID>>,
    routed: Seq<Option<usize>>,
    after: Seq<BoxedEvent>,
    queued: Seq<BoxedEvent>,
    taken: Seq<BoxedEvent>,
    worked: Seq<BoxedEvent>,
    outs: Seq<Seq<BoxedEvent>>,
) -> bool {
    &&& consumption_order(taken, pending + queued)
    &&& cycle_outcome(taken, filters, routed, after, worked, outs)
}

/// What a tick did: the scheduler's report for each system, then the route
/// of each event of the cycle that followed.
pub struct TickReport {
    pub runs: Vec<SystemRun>,
    pub routed: Vec<Option<usize>>,
}

/// Collects the world, the systems in run order with their names, and the
/// notifiers.
pub struct GameBuilder<W, S: SystemInterface<W>, N: NotifierCallback> {
    world: W,
    systems: Vec<S>,
    names: Vec<String>,
    events: EventManager<N>,
}

/// A running engine: each `tick` dispatches the systems, then routes the
/// events they queued.
pub struct Game<W, S: SystemInterface<W>, N: NotifierCallback> {
    world: W,
    scheduler: DefaultScheduler,
    systems: Vec<S>,
    names: Vec<String>,
    events: EventManager<N>,
}

fn contains_name(names: &Vec<String>, name: &String) -> (r: bool)
    ensures
        r == name_seq(names@).contains(name@),
{
    let ghost seq = name_seq(names@);
    let mut i: usize = 0;
    while i < names.len()
        invariant
            i <= names@.len(),
            seq == name_seq(names@),
            forall|j: int| 0 <= j < i ==> seq[j] != name@,
        decreases names@.len() - i,
    {
        if names[i] == *name {
            proof {
                assert(seq[i as int] == name@);
            }
            return true;
        }
        i = i + 1;
    }
    false
}

impl<W, S: SystemInterface<W>, N: NotifierCallback> GameBuilder<W, S, N> {
    /// The names of the registered systems, in run order.
    pub closed spec fn system_names(&self) -> Seq<Seq<char>> {
        name_seq(self.names@)
    }

    /// The registered systems, in run order.
    pub closed spec fn system_list(&self) -> Seq<S> {
        self.systems@
    }

    /// The filter sets of the registered notifiers.
    pub closed spec fn filter_sets(&self) -> Seq<Seq<EventID>> {
        self.events.filter_sets()
    }

    pub closed spec fn wf(&self) -> bool {
        &&& self.events.wf()
        &&& self.events.pending_events() == Seq::<BoxedEvent>::empty()
        &&& self.systems@.len() == self.names@.len()
    }

    /// A builder over `world` with no systems and no notifiers.
    pub fn new(world: W) -> (r: Self)
        ensures
            r.wf(),
            r.system_names() == Seq::<Seq<char>>::empty(),
            r.filter_sets() == Seq::<Seq<EventID>>::empty(),
    {
        let r = GameBuilder { world, systems: Vec::new(), names: Vec::new(), events: EventManager::new() };
        proof {
            assert(r.system_names() =~= Seq::<Seq<char>>::empty());
        }
        r
    }

    /// Appends `system` to the run order under `name`, after every
    /// predecessor named in `dependencies`, which must all be registered
    /// already.
    pub fn with_system(self, system: S, name: &str, dependencies: &[&str]) -> (r: Result<Self, BuildError>)
        requires
            self.wf(),
        ensures
            self.system_names().contains(name@) ==> r == Err::<Self, BuildError>(BuildError::DuplicateName),
            !self.system_names().contains(name@) && !dependencies_known(self.system_names(), dependencies@)
                ==> r == Err::<Self, BuildError>(BuildError::UnknownDependency),
            !self.system_names().contains(name@) && dependencies_known(self.system_names(), dependencies@)
                ==> r is Ok,
            r matches Ok(b) ==> {
                &&& b.wf()
                &&& b.system_names() == self.system_names().push(name@)
                &&& b.system_list() == self.system_list().push(system)
                &&& b.filter_sets() == self.filter_sets()
            },
    {
        let owned_name: String = name.to_owned();
        if contains_name(&self.names, &owned_name) {
            return Err(BuildError::DuplicateName);
        }
        let mut j: usize = 0;
        while j < dependencies.len()
            invariant
                j <= dependencies@.len(),
                owned_name@ == name@,
                !self.system_names().contains(name@),
                forall|k: int| 0 <= k < j ==> self.system_names().contains(#[trigger] dependencies@[k]@),
            decreases dependencies@.len() - j,
        {
            let dep = dependencies[j].to_owned();
            if !contains_name(&self.names, &dep) {
                return Err(BuildError::UnknownDependency);
            }
            j = j + 1;
        }
        let mut b = self;
        let ghost old_names = b.names@;
        b.systems.push(system);
        b.names.push(owned_name);
        proof {
            assert(name_seq(b.names@) =~= name_seq(old_names).push(name@));
        }
        Ok(b)
    }

    /// Registers `notifier` after those already registered.
    pub fn with_notifier(self, notifier: N) -> (r: Self)
        requires
            self.wf(),
        ensures
            r.wf(),
            r.system_names() == self.system_names(),
            r.system_list() == self.system_list(),
            r.filter_sets().len() == self.filter_sets().len() + 1,
            r.filter_sets().drop_last() == self.filter_sets(),
    {
        let mut b = self;
        b.events.register(notifier);
        b
    }

    /// The engine, before its first tick.
    pub fn build(self) -> (r: Game<W, S, N>)
        requires
            self.wf(),
        ensures
            r.wf(),
            r.tick_number() == 0,
            r.system_names() == self.system_names(),
            r.system_list() == self.system_list(),
            r.filter_sets() == self.filter_sets(),
            r.pending_events() == Seq::<BoxedEvent>::empty(),
    {
        Game {
            world: self.world,
            scheduler: DefaultScheduler::new(),
            systems: self.systems,
            names: self.names,
            events: self.events,
        }
    }
}

impl<W, S: SystemInterface<W>, N: NotifierCallback> Game<W, S, N> {
    /// The number of the last tick.
    pub closed spec fn tick_number(&self) -> u128 {
        self.scheduler.tick()
    }

    pub closed spec fn system_names(&self) -> Seq<Seq<char>> {
        name_seq(self.names@)
    }

    pub closed spec fn system_list(&self) -> Seq<S> {
        self.systems@
    }

    pub closed spec fn filter_sets(&self) -> Seq<Seq<EventID>> {
        self.events.filter_sets()
    }

    /// The events waiting for the next tick's cycle.
    pub closed spec fn pending_events(&self) -> Seq<BoxedEvent> {
        self.events.pending_events()
    }

    pub closed spec fn wf(&self) -> bool {
        &&& self.events.wf()
        &&& self.systems@.len() == self.names@.len()
    }

    /// The world the systems run on.
    pub closed spec fn world_state(&self) -> W {
        self.world
    }

    /// The registered notifiers, in registration order.
    pub closed spec fn notifier_list(&self) -> Seq<N> {
        self.events.notifier_list()
    }

    /// The world the systems run on.
    pub fn world(&self) -> (r: &W)
        ensures
            *r == self.world_state(),
    {
        &self.world
    }

    /// The notifier at `index`, in registration order.
    pub fn notifier(&self, index: usize) -> (r: &N)
        requires
            self.wf(),
            index < self.filter_sets().len(),
        ensures
            *r == self.notifier_list()[index as int],
    {
        self.events.notifier(index)
    }

    /// The system at `index`, in run order.
    pub fn system(&self, index: usize) -> (r: &S)
        requires
            index < self.system_list().len(),
        ensures
            *r == self.system_list()[index as int],
    {
        &self.systems[index]
    }

}

impl<W: ResourceStore<Events>, S: SystemInterface<W>, N: NotifierCallback> Game<W, S, N> {
    /// One tick: dispatches the systems due on the next tick number, moves
    /// the events they queued in the world's event container to the pending
    /// events, and runs one event cycle over them.
    pub fn tick(&mut self) -> (report: TickReport)
        requires
            old(self).wf(),
        ensures
            final(self).wf(),
            final(self).tick_number() == old(self).tick_number().wrapping_add(1),
            final(self).system_names() == old(self).system_names(),
            final(self).filter_sets() == old(self).filter_sets(),
            final(self).system_list().len() == old(self).system_list().len(),
            final(self).world_state().resource()@ == Seq::<BoxedEvent>::empty(),
            report.runs@.len() == old(self).system_list().len(),
            forall|i: int|
                0 <= i < report.runs@.len() ==> (#[trigger] report.runs@[i]).policy
                    == old(self).system_list()[i].policy(),
            forall|i: int|
                0 <= i < report.runs@.len() ==> (#[trigger] report.runs@[i]).ran == runs_on(
                    report.runs@[i].policy,
                    final(self).tick_number(),
                ),
            forall|i: int|
                0 <= i < report.runs@.len() && (#[trigger] report.runs@[i]).ran
                    ==> old(self).system_list()[i].ran(&final(self).system_list()[i]),
            forall|i: int|
                0 <= i < report.runs@.len() && !(#[trigger] report.runs@[i]).ran
                    ==> final(self).system_list()[i] == old(self).system_list()[i],
            exists|
                queued: Seq<BoxedEvent>,
                taken: Seq<BoxedEvent>,
                worked: Seq<BoxedEvent>,
                outs: Seq<Seq<BoxedEvent>>,
                states: Seq<Seq<N>>,
            |
                {
                    &&& tick_outcome(
                        old(self).pending_events(),
                        old(self).filter_sets(),
                        report.routed@,
                        final(self).pending_events(),
                        queued,
                        taken,
                        worked,
                        outs,
                    )
                    &&& deliveries(states, report.routed@, worked, outs)
                    &&& states[0] == old(self).notifier_list()
                    &&& states.last() == final(self).notifier_list()
                },
    {
        let runs = self.scheduler.dispatch(&mut self.world, &mut self.systems);
        proof {
            assert(self.events.pending_events() == old(self).pending_events());
        }
        let mut queued = Events::new();
        std::mem::swap(&mut queued, self.world.fetch_mut());
        proof {
            assert(self.events.pending_events() == old(self).pending_events());
        }
        let ghost queued_view = queued@;
        self.events.absorb(queued);
        let ghost taken = self.events.pending_events();
        let ghost notifiers_before = self.events.notifier_list();
        proof {
            assert(consumption_order(taken, old(self).pending_events() + queued_view));
        }
        let routed = self.events.run_cycle();
        let ghost filters = self.events.filter_sets();
        let report = TickReport { runs, routed };
        proof {
            assert(filters == old(self).filter_sets());
            let (worked, outs, states) = choose|
                worked: Seq<BoxedEvent>,
                outs: Seq<Seq<BoxedEvent>>,
                states: Seq<Seq<N>>,
            |
                {
                    &&& cycle_outcome(taken, filters, report.routed@, self.events.pending_events(), worked, outs)
                    &&& deliveries(states, report.routed@, worked, outs)
                    &&& states[0] == notifiers_before
                    &&& states.last() == self.events.notifier_list()
                };
            assert(deliveries(states, report.routed@, worked, outs));
            assert(states[0] == old(self).notifier_list());
            assert(states.last() == self.notifier_list());
            assert(tick_outcome(
                old(self).pending_events(),
                old(self).filter_sets(),
                report.routed@,
                self.pending_events(),
                queued_view,
                taken,
                worked,
                outs,
            ));
        }
        report
    }
}

} // verus!
