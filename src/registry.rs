use std::collections::HashMap;
use vstd::prelude::*;

verus! {

broadcast use vstd::std_specs::hash::group_hash_axioms;

/// A stable runtime token that identifies one component type of the host.
pub type TypeHandle = u64;

/// A registry entry: the inspector function bound to one type handle.
///
/// The function body itself lives with the host; the registry only stores
/// the token by which the host invokes it.
#[derive(Clone, Copy, Debug, PartialEq, Eq, Structural)]
pub struct InspectorFn {
    pub id: u64,
}

/// Mapping from type handle to the inspector function that draws and edits
/// values of that type. Registration overwrites: the last one wins.
pub struct Registry {
    entries: HashMap<TypeHandle, InspectorFn>,
}

impl View for Registry {
    type V = Map<TypeHandle, InspectorFn>;

    closed spec fn view(&self) -> Map<TypeHandle, InspectorFn> {
        self.entries@
    }
}

/// What `lookup` yields for handle `t` in a registry whose contents are `m`.
pub open spec fn lookup_spec(m: Map<TypeHandle, InspectorFn>, t: TypeHandle) -> Option<InspectorFn> {
    if m.contains_key(t) {
        Some(m[t])
    } else {
        None
    }
}

impl Registry {
    /// An empty registry.
    pub fn new() -> (r: Registry)
        ensures
            r@ == Map::<TypeHandle, InspectorFn>::empty(),
    {
        Registry { entries: HashMap::new() }
    }

    /// Binds `f` to `t`, replacing any earlier binding of `t`.
    pub fn register(&mut self, t: TypeHandle, f: InspectorFn)
        ensures
            final(self)@ == old(self)@.insert(t, f),
    {
        self.entries.insert(t, f);
    }

    /// The inspector function bound to `t`, if any.
    pub fn lookup(&self, t: TypeHandle) -> (r: Option<InspectorFn>)
        ensures
            r == lookup_spec(self@, t),
    {
        match self.entries.get(&t) {
            Some(f) => Some(*f),
            None => None,
        }
    }

    /// Whether some inspector function is bound to `t`.
    pub fn contains(&self, t: TypeHandle) -> (r: bool)
        ensures
            r == self@.contains_key(t),
    {
        self.entries.contains_key(&t)
    }
}

/// Looking a handle up right after registering it yields the function that
/// was registered, whatever was bound to it before.
pub proof fn lemma_lookup_after_register(m: Map<TypeHandle, InspectorFn>, t: TypeHandle, f: InspectorFn)
    ensures
        lookup_spec(m.insert(t, f), t) == Some(f),
{
}

/// Registering one handle leaves the lookup of every other handle as it was.
pub proof fn lemma_register_keeps_others(
    m: Map<TypeHandle, InspectorFn>,
    t: TypeHandle,
    f: InspectorFn,
    u: TypeHandle,
)
    requires
        u != t,
    ensures
        lookup_spec(m.insert(t, f), u) == lookup_spec(m, u),
{
}

} // verus!
