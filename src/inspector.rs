use vstd::prelude::*;

use crate::registry::{InspectorFn, Registry, TypeHandle};
use crate::render::{edit_applies, lemma_edit_round_trip, render, rendered_fields, same_kind, Edit, Leaf};
use crate::traversal::{
    first_index_of, handles_in, split_groups, ComponentGroups, ComponentSlot, EntityId,
    EntityRecord, StorageGroup, WorldSnapshot,
};

verus! {

/// The host's token for its primary window.
pub const PRIMARY_WINDOW: u64 = 0;

/// Configuration of the inspector, read at the start of a tick and written
/// back at its end.
#[derive(Clone, Copy, Debug, PartialEq, Eq, Structural)]
pub struct InspectorParams {
    /// Whether the inspector draws at all.
    pub enabled: bool,
    /// Docked side panels when set, a floating window otherwise.
    pub panel: bool,
    /// The host's token for the window to draw in.
    pub window: u64,
    /// The selected entity, which may have been destroyed since.
    pub entity: Option<EntityId>,
}

/// An interaction with leaf `edit.field` of the component in slot `slot` of
/// the inspected entity.
#[derive(Clone, Copy, Debug, PartialEq, Eq, Structural)]
pub struct SlotEdit {
    pub slot: usize,
    pub edit: Edit,
}

/// What the inspector surface shows for the selected entity.
pub enum InspectOutcome {
    /// The entity is not alive: the surface says so and nothing changes.
    Missing,
    /// The entity's two storage groups were drawn; `changed` tells whether
    /// an edit took effect.
    Shown { groups: ComponentGroups, changed: bool },
}

/// Whether `edit` takes effect on an entity whose slots are `comps`.
pub open spec fn slot_edit_applies(
    m: Map<TypeHandle, InspectorFn>,
    comps: Seq<ComponentSlot>,
    edit: Option<SlotEdit>,
) -> bool {
    match edit {
        Some(se) => se.slot < comps.len() && edit_applies(
            m,
            comps[se.slot as int].value.handle,
            comps[se.slot as int].value.fields@,
            Some(se.edit),
        ),
        None => false,
    }
}

/// How the entities `after` relate to `before` once entity `i` was
/// inspected with `edit`: only the targeted slot of entity `i` may differ,
/// and its leaves are those that the renderer leaves.
pub open spec fn inspected(
    m: Map<TypeHandle, InspectorFn>,
    before: Seq<EntityRecord>,
    after: Seq<EntityRecord>,
    i: int,
    edit: Option<SlotEdit>,
) -> bool {
    let b = before[i].components@;
    let a = after[i].components@;
    &&& after.len() == before.len()
    &&& forall|k: int| 0 <= k < before.len() && k != i ==> after[k] == before[k]
    &&& after[i].id == before[i].id
    &&& a.len() == b.len()
    &&& forall|j: int|
        0 <= j < b.len() && !(edit is Some && j == edit->Some_0.slot) ==> a[j] == b[j]
    &&& edit is Some && edit->Some_0.slot < b.len() ==> {
        let s = edit->Some_0.slot as int;
        &&& a[s].group == b[s].group
        &&& a[s].value.handle == b[s].value.handle
        &&& a[s].value.fields@ == rendered_fields(
            m,
            b[s].value.handle,
            b[s].value.fields@,
            Some(edit->Some_0.edit),
        )
    }
}

impl InspectorParams {
    /// The default configuration: enabled, in a floating window on the
    /// primary window, with nothing selected.
    pub fn new() -> (r: InspectorParams)
        ensures
            r.enabled,
            !r.panel,
            r.window == PRIMARY_WINDOW,
            r.entity is None,
    {
        InspectorParams { enabled: true, panel: false, window: PRIMARY_WINDOW, entity: None }
    }

    /// Whether this tick draws: only when enabled and when the drawing
    /// context of the target window is available; otherwise the tick does
    /// nothing.
    pub fn should_draw(&self, context_available: bool) -> (r: bool)
        ensures
            r == (self.enabled && context_available),
    {
        self.enabled && context_available
    }

    /// The entity whose components the inspector surface shows after the
    /// hierarchy reported `selected`: in panel mode the selection, in window
    /// mode none (the window draws its own).
    pub fn inspected_entity(&self, selected: Option<EntityId>) -> (r: Option<EntityId>)
        ensures
            r == (if self.panel {
                selected
            } else {
                None
            }),
    {
        if self.panel {
            selected
        } else {
            None
        }
    }

    /// Writes back what the tick decided: whether the window is still open,
    /// and the selection, which is kept even if its entity is gone.
    pub fn end_tick(&mut self, open: bool, selected: Option<EntityId>)
        ensures
            final(self).enabled == open,
            final(self).entity == selected,
            final(self).panel == old(self).panel,
            final(self).window == old(self).window,
    {
        self.enabled = open;
        self.entity = selected;
    }
}

impl Default for InspectorParams {
    fn default() -> (r: InspectorParams)
        ensures
            r.enabled,
            !r.panel,
            r.window == PRIMARY_WINDOW,
            r.entity is None,
    {
        InspectorParams::new()
    }
}

impl InspectOutcome {
    /// Whether an edit took effect while drawing.
    pub fn changed(&self) -> (r: bool)
        ensures
            r == match self {
                InspectOutcome::Missing => false,
                InspectOutcome::Shown { changed, .. } => *changed,
            },
    {
        match self {
            InspectOutcome::Missing => false,
            InspectOutcome::Shown { changed, .. } => *changed,
        }
    }
}

/// The text that the inspector surface shows for an entity that is gone.
pub fn missing_entity_text() -> (r: &'static str)
    ensures
        r@ == "Entity does not exist"@,
{
    "Entity does not exist"
}

/// Draws the inspector surface for entity `e`: both storage groups of the
/// entity, each component through the registry, with the interaction
/// `edit` applied where it takes effect. An entity that is not alive is
/// reported as missing and nothing changes.
pub fn inspect_entity(
    world: &mut WorldSnapshot,
    registry: &Registry,
    e: EntityId,
    edit: Option<SlotEdit>,
) -> (r: InspectOutcome)
    ensures
        (r is Missing) <==> (forall|j: int|
            0 <= j < old(world).entities@.len() ==> old(world).entities@[j].id != e),
        r is Missing ==> final(world).entities@ == old(world).entities@,
        match r {
            InspectOutcome::Missing => true,
            InspectOutcome::Shown { groups, changed } => exists|i: int|
                {
                    &&& #[trigger] first_index_of(old(world).entities@, e, i)
                    &&& groups.table@ == handles_in(old(world).entities@[i].components@, StorageGroup::Table)
                    &&& groups.sparse@ == handles_in(
                        old(world).entities@[i].components@,
                        StorageGroup::SparseSet,
                    )
                    &&& changed == slot_edit_applies(registry@, old(world).entities@[i].components@, edit)
                    &&& inspected(registry@, old(world).entities@, final(world).entities@, i, edit)
                },
        },
{
    let ghost before = world.entities@;
    match world.find(e) {
        None => InspectOutcome::Missing,
        Some(i) => {
            let groups = split_groups(&world.entities[i].components);
            let changed = match edit {
                Some(se) => {
                    if se.slot < world.entities[i].components.len() {
                        let mut rec = world.entities.remove(i);
                        let ghost rec_before = rec.components@;
                        let mut slot = rec.components.remove(se.slot);
                        let out = render(registry, &mut slot.value, Some(se.edit));
                        rec.components.insert(se.slot, slot);
                        world.entities.insert(i, rec);
                        proof {
                            assert(world.entities@ =~= before.update(i as int, world.entities@[i as int]));
                            assert(world.entities@[i as int].components@ =~= rec_before.update(
                                se.slot as int,
                                world.entities@[i as int].components@[se.slot as int],
                            ));
                        }
                        out.changed
                    } else {
                        false
                    }
                },
                None => false,
            };
            assert(first_index_of(before, e, i as int));
            InspectOutcome::Shown { groups, changed }
        },
    }
}

/// An edit that sets leaf `x` of the component in slot `s` of entity `i`,
/// whose type is registered, to a value `v` of its kind reports a change;
/// in the entities that result the leaf reads `v`, and inspecting them
/// again with no interaction reports no change and keeps the leaf at `v`.
pub proof fn lemma_inspect_round_trip(
    m: Map<TypeHandle, InspectorFn>,
    before: Seq<EntityRecord>,
    after: Seq<EntityRecord>,
    next: Seq<EntityRecord>,
    i: int,
    s: usize,
    x: usize,
    v: Leaf,
)
    requires
        0 <= i < before.len(),
        s < before[i].components@.len(),
        m.contains_key(before[i].components@[s as int].value.handle),
        x < before[i].components@[s as int].value.fields@.len(),
        same_kind(before[i].components@[s as int].value.fields@[x as int], v),
        inspected(m, before, after, i, Some(SlotEdit { slot: s, edit: Edit { field: x, value: v } })),
        inspected(m, after, next, i, None),
    ensures
        slot_edit_applies(m, before[i].components@, Some(SlotEdit { slot: s, edit: Edit { field: x, value: v } })),
        after[i].components@[s as int].value.fields@[x as int] == v,
        !slot_edit_applies(m, after[i].components@, None),
        next[i].components@[s as int].value.fields@[x as int] == v,
{
    let b = before[i].components@[s as int].value;
    lemma_edit_round_trip(m, b.handle, b.fields@, x, v);
}

} // verus!
