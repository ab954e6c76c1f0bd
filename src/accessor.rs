//! The data a system declares it needs, resolved from the world before each
//! run, with the resources it reads and writes.
use vstd::prelude::*;

verus! {

/// The identity of a resource type held by a world.
pub type ResourceId = u64;

/// A resource type, with the identity that conflict checks use. `ID` must
/// differ from that of every other resource type; the event containers of
/// this library take the two largest identities.
pub trait Resource {
    const ID: ResourceId;
}

/// A world that can hand out the resource of type `T`, shared or
/// exclusive.
pub trait ResourceStore<T> {
    /// The resource of type `T` that this world holds.
    spec fn resource(&self) -> &T;

    fn fetch(&self) -> (r: &T)
        ensures
            *r == *self.resource(),
    ;

    fn fetch_mut(&mut self) -> (r: &mut T)
        ensures
            *r == *old(self).resource(),
            *final(self).resource() == *final(r),
    ;
}

/// The resources that a kind of system data reads and writes, so that
/// conflicting systems can be told apart before they run.
pub trait Access {
    fn reads() -> Vec<ResourceId>;

    fn writes() -> Vec<ResourceId>;
}

/// The data of a system, resolved from a world `W` for one run.
pub trait SystemData<'a, W>: Access + Sized {
    fn fetch(world: &'a mut W) -> Self;
}

/// Shared access to the resource of type `T` for one run.
pub struct Read<'a, T> {
    resource: &'a T,
}

/// Exclusive access to the resource of type `T` for one run.
pub struct Write<'a, T> {
    resource: &'a mut T,
}

impl<'a, T> Read<'a, T> {
    /// The resource this handle reads.
    pub closed spec fn value(&self) -> T {
        *self.resource
    }

    pub fn get(&self) -> (r: &T)
        ensures
            *r == self.value(),
    {
        self.resource
    }
}

impl<'a, T> Write<'a, T> {
    /// The resource this handle writes.
    pub closed spec fn value(&self) -> T {
        *self.resource
    }

    pub fn get(&self) -> (r: &T)
        ensures
            *r == self.value(),
    {
        self.resource
    }

    /// Replaces the resource.
    pub fn set(&mut self, value: T)
        ensures
            final(self).value() == value,
    {
        *self.resource = value;
    }
}

impl<'a, T: Resource> Access for Read<'a, T> {
    fn reads() -> (r: Vec<ResourceId>)
        ensures
            r@ == seq![T::ID],
    {
        vec![T::ID]
    }

    fn writes() -> (r: Vec<ResourceId>)
        ensures
            r@ == Seq::<ResourceId>::empty(),
    {
        Vec::new()
    }
}

impl<'a, T: Resource> Access for Write<'a, T> {
    fn reads() -> (r: Vec<ResourceId>)
        ensures
            r@ == Seq::<ResourceId>::empty(),
    {
        Vec::new()
    }

    fn writes() -> (r: Vec<ResourceId>)
        ensures
            r@ == seq![T::ID],
    {
        vec![T::ID]
    }
}

impl<'a, T: Resource, W: ResourceStore<T>> SystemData<'a, W> for Read<'a, T> {
    fn fetch(world: &'a mut W) -> (r: Self)
        ensures
            r.value() == *old(world).resource(),
    {
        Read { resource: world.fetch() }
    }
}

impl<'a, T: Resource, W: ResourceStore<T>> SystemData<'a, W> for Write<'a, T> {
    fn fetch(world: &'a mut W) -> (r: Self)
        ensures
            r.value() == *old(world).resource(),
    {
        Write { resource: world.fetch_mut() }
    }
}

} // verus!
