//! What a script-defined system declares: its name and the resources it
//! accesses.
use vstd::prelude::*;

verus! {

/// How a script-defined system accesses the world.
#[derive(Clone, Debug, PartialEq, Eq)]
pub enum Accessor {
    /// Reads the resource of the named class.
    Read(String),
    /// Writes the resource of the named class.
    Write(String),
    /// Reads the entities.
    Entities,
}

/// A system defined by a script: its class name and its accessors.
pub struct PythonSystem {
    pub name: String,
    pub accessors: Vec<Accessor>,
}

impl PythonSystem {
    pub fn new(name: String, accessors: Vec<Accessor>) -> (r: PythonSystem)
        ensures
            r.name == name,
            r.accessors == accessors,
    {
        PythonSystem { name, accessors }
    }
}

} // verus!
