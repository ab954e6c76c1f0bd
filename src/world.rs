//! Payloads that load themselves onto a world.
use vstd::prelude::*;

verus! {

/// A payload of data that applies itself to a world `W`.
pub trait Updater<W> {
    fn update_world(self, world: &mut W);
}

} // verus!
