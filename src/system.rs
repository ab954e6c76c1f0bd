//! The capability contract of a unit of per-tick logic, and its type-erased
//! form that the scheduler holds.
use vstd::prelude::*;

use crate::accessor::SystemData;
use crate::scheduler::{ExecutionPolicy, ExecutionTime};

verus! {

/// A unit of per-tick logic over a world `W`, with the data it needs from
/// that world.
pub trait System<W> {
    type SystemData<'a>: SystemData<'a, W> where W: 'a;

    /// The policy this system runs by.
    spec fn policy(&self) -> ExecutionPolicy;

    /// Whether `after` is this system after one run.
    spec fn ran(&self, after: &Self) -> bool;

    fn execution_policy(&self) -> (r: ExecutionPolicy)
        ensures
            r == self.policy(),
    ;

    fn execution_time(&self) -> ExecutionTime;

    fn run<'a>(&mut self, data: Self::SystemData<'a>)
        ensures
            old(self).ran(final(self)),
    ;
}

/// A system with its data type hidden: it resolves its own data from the
/// world when run.
pub trait SystemInterface<W> {
    /// The policy this system runs by.
    spec fn policy(&self) -> ExecutionPolicy;

    /// Whether `after` is this system after one run.
    spec fn ran(&self, after: &Self) -> bool;

    fn execution_policy(&self) -> (r: ExecutionPolicy)
        ensures
            r == self.policy(),
    ;

    fn execution_time(&self) -> ExecutionTime;

    fn run_on_world(&mut self, world: &mut W)
        ensures
            old(self).ran(final(self)),
    ;
}

impl<W, T: System<W>> SystemInterface<W> for T {
    open spec fn policy(&self) -> ExecutionPolicy {
        System::policy(self)
    }

    open spec fn ran(&self, after: &Self) -> bool {
        System::ran(self, after)
    }

    fn execution_policy(&self) -> (r: ExecutionPolicy) {
        System::execution_policy(self)
    }

    fn execution_time(&self) -> ExecutionTime {
        System::execution_time(self)
    }

    fn run_on_world(&mut self, world: &mut W) {
        let data = <T::SystemData<'_> as SystemData<'_, W>>::fetch(world);
        self.run(data);
    }
}

} // verus!
