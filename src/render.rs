use vstd::prelude::*;

use crate::registry::{lookup_spec, InspectorFn, Registry, TypeHandle};

verus! {

/// One primitive leaf of a component value, as drawn by a single widget.
#[derive(Clone, Copy, Debug, PartialEq, Eq, Structural)]
pub enum Leaf {
    Bool(bool),
    Int(i64),
    UInt(u64),
}

/// Whether `a` and `b` are leaves of the same kind, so that a widget drawn
/// for `a` can produce `b`.
pub open spec fn same_kind(a: Leaf, b: Leaf) -> bool {
    match (a, b) {
        (Leaf::Bool(_), Leaf::Bool(_)) => true,
        (Leaf::Int(_), Leaf::Int(_)) => true,
        (Leaf::UInt(_), Leaf::UInt(_)) => true,
        _ => false,
    }
}

/// A component value known only by its type handle. Nested structs and
/// tuples are laid out as their leaves in field order, so a leaf's index is
/// its stable path identity.
pub struct ErasedValue {
    pub handle: TypeHandle,
    pub fields: Vec<Leaf>,
}

/// One widget interaction: the leaf at `field` is set to `value`.
#[derive(Clone, Copy, Debug, PartialEq, Eq, Structural)]
pub struct Edit {
    pub field: usize,
    pub value: Leaf,
}

/// How a value of some type is drawn: through its registered inspector
/// function, or read-only by the generic fallback.
#[derive(Clone, Copy, Debug, PartialEq, Eq, Structural)]
pub enum Dispatch {
    Inspector(InspectorFn),
    Fallback,
}

/// What one call of the renderer did: which drawing it invoked, and whether
/// the value changed.
#[derive(Clone, Copy, Debug, PartialEq, Eq, Structural)]
pub struct RenderOutcome {
    pub invoked: Dispatch,
    pub changed: bool,
}

/// The drawing chosen for handle `t` in a registry whose contents are `m`.
pub open spec fn dispatch_spec(m: Map<TypeHandle, InspectorFn>, t: TypeHandle) -> Dispatch {
    match lookup_spec(m, t) {
        Some(f) => Dispatch::Inspector(f),
        None => Dispatch::Fallback,
    }
}

/// Whether the interaction `edit` takes effect on a value of type `t` with
/// leaves `fields`: only a registered type is editable, and only a leaf that
/// exists, with a value of its own kind.
pub open spec fn edit_applies(
    m: Map<TypeHandle, InspectorFn>,
    t: TypeHandle,
    fields: Seq<Leaf>,
    edit: Option<Edit>,
) -> bool {
    match edit {
        Some(e) => m.contains_key(t) && e.field < fields.len() && same_kind(fields[e.field as int], e.value),
        None => false,
    }
}

/// The leaves of a value of type `t` after it was rendered with `edit`.
pub open spec fn rendered_fields(
    m: Map<TypeHandle, InspectorFn>,
    t: TypeHandle,
    fields: Seq<Leaf>,
    edit: Option<Edit>,
) -> Seq<Leaf> {
    if edit_applies(m, t, fields, edit) {
        fields.update(edit->Some_0.field as int, edit->Some_0.value)
    } else {
        fields
    }
}

/// Whether two leaves are of the same kind.
pub fn same_kind_exec(a: Leaf, b: Leaf) -> (r: bool)
    ensures
        r == same_kind(a, b),
{
    match (a, b) {
        (Leaf::Bool(_), Leaf::Bool(_)) => true,
        (Leaf::Int(_), Leaf::Int(_)) => true,
        (Leaf::UInt(_), Leaf::UInt(_)) => true,
        _ => false,
    }
}

/// Chooses how a value of type `t` is drawn.
pub fn dispatch(registry: &Registry, t: TypeHandle) -> (r: Dispatch)
    ensures
        r == dispatch_spec(registry@, t),
{
    match registry.lookup(t) {
        Some(f) => Dispatch::Inspector(f),
        None => Dispatch::Fallback,
    }
}

/// Renders `value` through the registry, applying the interaction `edit`
/// where the value's type is editable, and reports whether it changed.
pub fn render(registry: &Registry, value: &mut ErasedValue, edit: Option<Edit>) -> (r: RenderOutcome)
    ensures
        r.invoked == dispatch_spec(registry@, old(value).handle),
        r.changed == edit_applies(registry@, old(value).handle, old(value).fields@, edit),
        final(value).handle == old(value).handle,
        final(value).fields@ == rendered_fields(registry@, old(value).handle, old(value).fields@, edit),
{
    let invoked = dispatch(registry, value.handle);
    let changed = match edit {
        Some(e) => {
            match invoked {
                Dispatch::Inspector(_) => {
                    if e.field < value.fields.len() && same_kind_exec(value.fields[e.field], e.value) {
                        value.fields.set(e.field, e.value);
                        true
                    } else {
                        false
                    }
                },
                Dispatch::Fallback => false,
            }
        },
        None => false,
    };
    RenderOutcome { invoked, changed }
}

/// Once `f` is registered for `t`, a value tagged `t` is drawn by exactly `f`.
pub proof fn lemma_dispatch_after_register(m: Map<TypeHandle, InspectorFn>, t: TypeHandle, f: InspectorFn)
    ensures
        lookup_spec(m.insert(t, f), t) == Some(f),
        dispatch_spec(m.insert(t, f), t) == Dispatch::Inspector(f),
{
}

/// Rendering a value twice with no interaction in between reports no change
/// either time and leaves the value as it was.
pub proof fn lemma_render_idempotent(m: Map<TypeHandle, InspectorFn>, t: TypeHandle, fields: Seq<Leaf>)
    ensures
        !edit_applies(m, t, fields, None),
        rendered_fields(m, t, fields, None) == fields,
        !edit_applies(m, t, rendered_fields(m, t, fields, None), None),
        rendered_fields(m, t, rendered_fields(m, t, fields, None), None) == fields,
{
}

/// An edit that sets leaf `x` of a registered type to a value `v` of its kind
/// reports a change, and on the next render, with no interaction, the leaf
/// reads back as `v` and no change is reported.
pub proof fn lemma_edit_round_trip(
    m: Map<TypeHandle, InspectorFn>,
    t: TypeHandle,
    fields: Seq<Leaf>,
    x: usize,
    v: Leaf,
)
    requires
        m.contains_key(t),
        x < fields.len(),
        same_kind(fields[x as int], v),
    ensures
        edit_applies(m, t, fields, Some(Edit { field: x, value: v })),
        rendered_fields(m, t, fields, Some(Edit { field: x, value: v }))[x as int] == v,
        !edit_applies(m, t, rendered_fields(m, t, fields, Some(Edit { field: x, value: v })), None),
        rendered_fields(m, t, rendered_fields(m, t, fields, Some(Edit { field: x, value: v })), None)[x as int] == v,
{
}

/// A value whose type was never registered is drawn by the fallback and no
/// interaction changes it.
pub proof fn lemma_unregistered_read_only(
    m: Map<TypeHandle, InspectorFn>,
    t: TypeHandle,
    fields: Seq<Leaf>,
    edit: Option<Edit>,
)
    requires
        !m.contains_key(t),
    ensures
        dispatch_spec(m, t) == Dispatch::Fallback,
        !edit_applies(m, t, fields, edit),
        rendered_fields(m, t, fields, edit) == fields,
{
}

} // verus!
