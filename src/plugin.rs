use std::marker::PhantomData;
use vstd::prelude::*;

verus! {

/// The world inspector, shown for the entities that the host's query filter
/// `F` admits (all of them for the unit filter).
pub struct WorldInspectorPlugin<F = ()>(PhantomData<F>);

impl WorldInspectorPlugin {
    /// An inspector over all entities.
    pub fn new() -> WorldInspectorPlugin
    {
        WorldInspectorPlugin(PhantomData)
    }

    /// The same inspector, restricted to the entities that the filter `G`
    /// admits.
    pub fn filter<G>(self) -> WorldInspectorPlugin<G> {
        WorldInspectorPlugin(PhantomData)
    }
}

impl Default for WorldInspectorPlugin {
    fn default() -> WorldInspectorPlugin
    {
        WorldInspectorPlugin::new()
    }
}

} // verus!
