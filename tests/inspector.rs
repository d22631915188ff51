use world_inspector::expansion::ExpansionState;
use world_inspector::inspector::{
    inspect_entity, missing_entity_text, InspectOutcome, InspectorParams, SlotEdit,
    PRIMARY_WINDOW,
};
use world_inspector::plugin::WorldInspectorPlugin;
use world_inspector::registry::{InspectorFn, Registry};
use world_inspector::render::{dispatch, render, Dispatch, Edit, ErasedValue, Leaf};
use world_inspector::traversal::{
    split_groups, ComponentSlot, EntityRecord, StorageGroup, WorldSnapshot,
};

const POSITION: u64 = 10;
const MARKER: u64 = 11;
const HEALTH: u64 = 12;

fn slot(group: StorageGroup, handle: u64, fields: Vec<Leaf>) -> ComponentSlot {
    ComponentSlot { group, value: ErasedValue { handle, fields } }
}

fn world() -> WorldSnapshot {
    WorldSnapshot {
        entities: vec![
            EntityRecord {
                id: 1,
                components: vec![
                    slot(StorageGroup::Table, POSITION, vec![Leaf::Int(3), Leaf::Int(-4)]),
                    slot(StorageGroup::SparseSet, MARKER, vec![]),
                ],
            },
            EntityRecord {
                id: 2,
                components: vec![slot(StorageGroup::Table, HEALTH, vec![Leaf::UInt(100), Leaf::Bool(true)])],
            },
            EntityRecord { id: 3, components: vec![] },
        ],
    }
}

fn registry() -> Registry {
    let mut r = Registry::new();
    r.register(POSITION, InspectorFn { id: 1 });
    r.register(MARKER, InspectorFn { id: 2 });
    r
}

#[test]
fn lookup_returns_registered_function() {
    let r = registry();
    assert_eq!(r.lookup(POSITION), Some(InspectorFn { id: 1 }));
    assert_eq!(r.lookup(MARKER), Some(InspectorFn { id: 2 }));
    assert_eq!(r.lookup(HEALTH), None);
    assert!(r.contains(POSITION));
    assert!(!r.contains(HEALTH));
}

#[test]
fn register_again_overwrites() {
    let mut r = registry();
    r.register(POSITION, InspectorFn { id: 7 });
    assert_eq!(r.lookup(POSITION), Some(InspectorFn { id: 7 }));
    assert_eq!(r.lookup(MARKER), Some(InspectorFn { id: 2 }));
}

#[test]
fn render_invokes_registered_function() {
    let r = registry();
    let mut v = ErasedValue { handle: POSITION, fields: vec![Leaf::Int(1)] };
    let out = render(&r, &mut v, None);
    assert_eq!(out.invoked, Dispatch::Inspector(InspectorFn { id: 1 }));
    assert_eq!(dispatch(&r, POSITION), Dispatch::Inspector(InspectorFn { id: 1 }));
    assert_eq!(dispatch(&r, HEALTH), Dispatch::Fallback);
}

#[test]
fn render_twice_without_interaction_changes_nothing() {
    let r = registry();
    let mut v = ErasedValue { handle: POSITION, fields: vec![Leaf::Int(3), Leaf::Int(-4)] };
    let first = render(&r, &mut v, None);
    let second = render(&r, &mut v, None);
    assert!(!first.changed);
    assert!(!second.changed);
    assert_eq!(v.fields, vec![Leaf::Int(3), Leaf::Int(-4)]);
    assert_eq!(v.handle, POSITION);
}

#[test]
fn render_applies_edit_of_same_kind() {
    let r = registry();
    let mut v = ErasedValue { handle: POSITION, fields: vec![Leaf::Int(3), Leaf::Int(-4)] };
    let out = render(&r, &mut v, Some(Edit { field: 1, value: Leaf::Int(9) }));
    assert!(out.changed);
    assert_eq!(v.fields, vec![Leaf::Int(3), Leaf::Int(9)]);
}

#[test]
fn render_ignores_edit_of_other_kind_or_missing_field() {
    let r = registry();
    let mut v = ErasedValue { handle: POSITION, fields: vec![Leaf::Int(3)] };
    assert!(!render(&r, &mut v, Some(Edit { field: 0, value: Leaf::Bool(false) })).changed);
    assert!(!render(&r, &mut v, Some(Edit { field: 1, value: Leaf::Int(5) })).changed);
    assert_eq!(v.fields, vec![Leaf::Int(3)]);
}

#[test]
fn zero_sized_value_renders_unchanged() {
    let r = registry();
    let mut v = ErasedValue { handle: MARKER, fields: vec![] };
    let out = render(&r, &mut v, Some(Edit { field: 0, value: Leaf::Bool(true) }));
    assert!(!out.changed);
    assert!(v.fields.is_empty());
}

#[test]
fn components_split_by_storage_group() {
    let w = world();
    let g = w.components_of(1).unwrap();
    assert_eq!(g.table, vec![POSITION]);
    assert_eq!(g.sparse, vec![MARKER]);
    let empty = w.components_of(3).unwrap();
    assert!(empty.table.is_empty() && empty.sparse.is_empty());
    assert!(w.components_of(99).is_none());
}

#[test]
fn split_groups_keeps_host_order() {
    let slots = vec![
        slot(StorageGroup::SparseSet, 5, vec![]),
        slot(StorageGroup::Table, 4, vec![]),
        slot(StorageGroup::SparseSet, 3, vec![]),
        slot(StorageGroup::Table, 2, vec![]),
    ];
    let g = split_groups(&slots);
    assert_eq!(g.table, vec![4, 2]);
    assert_eq!(g.sparse, vec![5, 3]);
}

#[test]
fn filter_lists_passing_entities_in_host_order() {
    let w = world();
    let passing = vec![3, 1, 42];
    assert_eq!(w.list_entities(Some(&passing)), vec![1, 3]);
    assert_eq!(w.list_entities(None), vec![1, 2, 3]);
    assert_eq!(w.list_entities(Some(&vec![])), Vec::<u64>::new());
    assert_eq!(w.find(2), Some(1));
    assert_eq!(w.find(7), None);
}

#[test]
fn edit_reads_back_on_next_tick() {
    let r = registry();
    let mut w = world();
    let edit = SlotEdit { slot: 0, edit: Edit { field: 0, value: Leaf::Int(25) } };
    let first = inspect_entity(&mut w, &r, 1, Some(edit));
    assert!(first.changed());
    assert_eq!(w.entities[0].components[0].value.fields, vec![Leaf::Int(25), Leaf::Int(-4)]);
    let second = inspect_entity(&mut w, &r, 1, None);
    assert!(!second.changed());
    match second {
        InspectOutcome::Shown { groups, .. } => {
            assert_eq!(groups.table, vec![POSITION]);
            assert_eq!(groups.sparse, vec![MARKER]);
        }
        InspectOutcome::Missing => panic!("entity 1 is alive"),
    }
    assert_eq!(w.entities[0].components[0].value.fields, vec![Leaf::Int(25), Leaf::Int(-4)]);
}

#[test]
fn destroyed_entity_is_reported_missing() {
    let r = registry();
    let mut w = world();
    let mut params = InspectorParams::new();
    params.panel = true;
    params.entity = Some(2);
    w.entities.remove(1);
    let target = params.inspected_entity(params.entity);
    assert_eq!(target, Some(2));
    let edit = SlotEdit { slot: 0, edit: Edit { field: 0, value: Leaf::UInt(1) } };
    let out = inspect_entity(&mut w, &r, 2, Some(edit));
    assert!(matches!(out, InspectOutcome::Missing));
    assert!(!out.changed());
    assert_eq!(missing_entity_text(), "Entity does not exist");
    assert_eq!(w.entities.len(), 2);
    params.end_tick(true, params.entity);
    assert_eq!(params.entity, Some(2));
}

#[test]
fn unregistered_component_is_listed_read_only() {
    let r = registry();
    let mut w = world();
    let edit = SlotEdit { slot: 0, edit: Edit { field: 0, value: Leaf::UInt(1) } };
    let out = inspect_entity(&mut w, &r, 2, Some(edit));
    assert!(!out.changed());
    match out {
        InspectOutcome::Shown { groups, .. } => assert_eq!(groups.table, vec![HEALTH]),
        InspectOutcome::Missing => panic!("entity 2 is alive"),
    }
    assert_eq!(dispatch(&r, HEALTH), Dispatch::Fallback);
    assert_eq!(w.entities[1].components[0].value.fields, vec![Leaf::UInt(100), Leaf::Bool(true)]);
}

#[test]
fn edit_of_missing_slot_changes_nothing() {
    let r = registry();
    let mut w = world();
    let edit = SlotEdit { slot: 5, edit: Edit { field: 0, value: Leaf::Int(1) } };
    let out = inspect_entity(&mut w, &r, 1, Some(edit));
    assert!(!out.changed());
    assert_eq!(w.entities[0].components[0].value.fields, vec![Leaf::Int(3), Leaf::Int(-4)]);
}

#[test]
fn params_defaults_and_tick_decisions() {
    let p = InspectorParams::default();
    assert!(p.enabled);
    assert!(!p.panel);
    assert_eq!(p.window, PRIMARY_WINDOW);
    assert_eq!(p.entity, None);
    assert!(p.should_draw(true));
    assert!(!p.should_draw(false));
    assert_eq!(p.inspected_entity(Some(4)), None);
    let mut q = p;
    q.enabled = false;
    assert!(!q.should_draw(true));
    q.end_tick(false, Some(8));
    assert!(!q.enabled);
    assert_eq!(q.entity, Some(8));
    assert_eq!(q.panel, p.panel);
}

#[test]
fn expansion_state_is_kept_per_row() {
    let mut s = ExpansionState::new();
    assert!(!s.is_expanded(1, POSITION));
    s.set_expanded(1, POSITION, true);
    s.set_expanded(1, POSITION, true);
    s.set_expanded(2, POSITION, true);
    assert!(s.is_expanded(1, POSITION));
    assert!(s.is_expanded(2, POSITION));
    assert!(!s.is_expanded(1, MARKER));
    s.set_expanded(1, POSITION, false);
    assert!(!s.is_expanded(1, POSITION));
    assert!(s.is_expanded(2, POSITION));
}

#[test]
fn plugin_builders() {
    let _all: WorldInspectorPlugin = WorldInspectorPlugin::default();
    let _some: WorldInspectorPlugin<u8> = WorldInspectorPlugin::new().filter::<u8>();
}
