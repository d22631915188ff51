use vstd::prelude::*;

use crate::registry::TypeHandle;
use crate::render::ErasedValue;

verus! {

/// Identity of an entity of the host, as the host writes it in bits.
pub type EntityId = u64;

/// The two physical layouts that the host uses for a component type.
#[derive(Clone, Copy, Debug, PartialEq, Eq, Structural)]
pub enum StorageGroup {
    Table,
    SparseSet,
}

/// One component of an entity: its value, tagged with the type handle that
/// the host's metadata attaches to the slot, and the slot's storage group.
pub struct ComponentSlot {
    pub group: StorageGroup,
    pub value: ErasedValue,
}

/// A live entity and its component slots, in the host's order.
pub struct EntityRecord {
    pub id: EntityId,
    pub components: Vec<ComponentSlot>,
}

/// The live entities of the host, in its native enumeration order, as read
/// at the start of a tick.
pub struct WorldSnapshot {
    pub entities: Vec<EntityRecord>,
}

/// The component types of one entity, split by storage group.
pub struct ComponentGroups {
    pub table: Vec<TypeHandle>,
    pub sparse: Vec<TypeHandle>,
}

/// The handles of the slots of `s` that are stored in group `g`, in order.
pub open spec fn handles_in(s: Seq<ComponentSlot>, g: StorageGroup) -> Seq<TypeHandle>
    decreases s.len(),
{
    if s.len() == 0 {
        Seq::empty()
    } else if s.last().group == g {
        handles_in(s.drop_last(), g).push(s.last().value.handle)
    } else {
        handles_in(s.drop_last(), g)
    }
}

/// The ids of the entities of `s` that the host's filter result `passing`
/// admits (all of them without a filter), in order.
pub open spec fn shown_ids(s: Seq<EntityRecord>, passing: Option<Seq<EntityId>>) -> Seq<EntityId>
    decreases s.len(),
{
    if s.len() == 0 {
        Seq::empty()
    } else {
        let rest = shown_ids(s.drop_last(), passing);
        let id = s.last().id;
        match passing {
            Some(p) => if p.contains(id) { rest.push(id) } else { rest },
            None => rest.push(id),
        }
    }
}

/// Whether `i` is the first position of `s` that holds entity `e`.
pub open spec fn first_index_of(s: Seq<EntityRecord>, e: EntityId, i: int) -> bool {
    &&& 0 <= i < s.len()
    &&& s[i].id == e
    &&& forall|j: int| 0 <= j < i ==> s[j].id != e
}

/// Whether the handles of the slots of `s` are pairwise distinct.
pub open spec fn distinct_handles(s: Seq<ComponentSlot>) -> bool {
    forall|i: int, j: int| 0 <= i < s.len() && 0 <= j < s.len() && i != j ==> s[i].value.handle != s[j].value.handle
}

/// Whether `id` occurs in `ids`.
fn contains_id(ids: &Vec<EntityId>, id: EntityId) -> (r: bool)
    ensures
        r == ids@.contains(id),
{
    let mut k: usize = 0;
    while k < ids.len()
        invariant
            k <= ids.len(),
            forall|j: int| 0 <= j < k ==> ids@[j] != id,
        decreases ids.len() - k,
    {
        if ids[k] == id {
            return true;
        }
        k += 1;
    }
    false
}

/// Splits the slots of one entity into its two storage groups, keeping the
/// host's order within each.
pub fn split_groups(slots: &Vec<ComponentSlot>) -> (r: ComponentGroups)
    ensures
        r.table@ == handles_in(slots@, StorageGroup::Table),
        r.sparse@ == handles_in(slots@, StorageGroup::SparseSet),
{
    let mut table: Vec<TypeHandle> = Vec::new();
    let mut sparse: Vec<TypeHandle> = Vec::new();
    let mut k: usize = 0;
    while k < slots.len()
        invariant
            k <= slots.len(),
            table@ == handles_in(slots@.subrange(0, k as int), StorageGroup::Table),
            sparse@ == handles_in(slots@.subrange(0, k as int), StorageGroup::SparseSet),
        decreases slots.len() - k,
    {
        let slot = &slots[k];
        proof {
            assert(slots@.subrange(0, k as int + 1).drop_last() =~= slots@.subrange(0, k as int));
        }
        match slot.group {
            StorageGroup::Table => table.push(slot.value.handle),
            StorageGroup::SparseSet => sparse.push(slot.value.handle),
        }
        k += 1;
    }
    proof {
        assert(slots@.subrange(0, slots@.len() as int) =~= slots@);
    }
    ComponentGroups { table, sparse }
}

impl WorldSnapshot {
    /// The entities to list in the hierarchy, in the host's order: those whose
    /// ids occur in `passing`, the host's evaluation of the filter, or all of
    /// them when there is no filter.
    pub fn list_entities(&self, passing: Option<&Vec<EntityId>>) -> (r: Vec<EntityId>)
        ensures
            r@ == shown_ids(self.entities@, match passing {
                Some(p) => Some(p@),
                None => None,
            }),
    {
        let ghost filter = match passing {
            Some(p) => Some(p@),
            None => None,
        };
        let mut out: Vec<EntityId> = Vec::new();
        let mut k: usize = 0;
        while k < self.entities.len()
            invariant
                k <= self.entities.len(),
                filter == match passing {
                    Some(p) => Some(p@),
                    None => None::<Seq<EntityId>>,
                },
                out@ == shown_ids(self.entities@.subrange(0, k as int), filter),
            decreases self.entities.len() - k,
        {
            let id = self.entities[k].id;
            proof {
                assert(self.entities@.subrange(0, k as int + 1).drop_last() =~= self.entities@.subrange(0, k as int));
            }
            let shown = match passing {
                Some(p) => contains_id(p, id),
                None => true,
            };
            if shown {
                out.push(id);
            }
            k += 1;
        }
        proof {
            assert(self.entities@.subrange(0, self.entities@.len() as int) =~= self.entities@);
        }
        out
    }

    /// The position of entity `e` in the snapshot, if it is alive.
    pub fn find(&self, e: EntityId) -> (r: Option<usize>)
        ensures
            match r {
                Some(i) => first_index_of(self.entities@, e, i as int),
                None => forall|j: int| 0 <= j < self.entities@.len() ==> self.entities@[j].id != e,
            },
    {
        let mut k: usize = 0;
        while k < self.entities.len()
            invariant
                k <= self.entities.len(),
                forall|j: int| 0 <= j < k ==> self.entities@[j].id != e,
            decreases self.entities.len() - k,
        {
            if self.entities[k].id == e {
                return Some(k);
            }
            k += 1;
        }
        None
    }

    /// The component types of entity `e` in its two storage groups, or `None`
    /// when `e` is not alive (it was destroyed after it was selected).
    pub fn components_of(&self, e: EntityId) -> (r: Option<ComponentGroups>)
        ensures
            match r {
                Some(g) => exists|i: int|
                    {
                        &&& #[trigger] first_index_of(self.entities@, e, i)
                        &&& g.table@ == handles_in(self.entities@[i].components@, StorageGroup::Table)
                        &&& g.sparse@ == handles_in(self.entities@[i].components@, StorageGroup::SparseSet)
                    },
                None => forall|j: int| 0 <= j < self.entities@.len() ==> self.entities@[j].id != e,
            },
    {
        match self.find(e) {
            Some(i) => {
                let g = split_groups(&self.entities[i].components);
                assert(first_index_of(self.entities@, e, i as int));
                Some(g)
            },
            None => None,
        }
    }
}

/// With a filter, an entity is listed exactly when it is alive and the
/// host's filter admits it.
pub proof fn lemma_shown_ids_contains(s: Seq<EntityRecord>, passing: Seq<EntityId>, x: EntityId)
    ensures
        shown_ids(s, Some(passing)).contains(x) <==> passing.contains(x) && exists|i: int| 0 <= i < s.len() && s[i].id == x,
    decreases s.len(),
{
    if s.len() > 0 {
        lemma_shown_ids_contains(s.drop_last(), passing, x);
        let rest = shown_ids(s.drop_last(), Some(passing));
        let all = shown_ids(s, Some(passing));
        if passing.contains(x) && exists|i: int| 0 <= i < s.len() && s[i].id == x {
            let i = choose|i: int| 0 <= i < s.len() && s[i].id == x;
            if i < s.len() - 1 {
                assert(s.drop_last()[i] == s[i]);
                assert(rest.contains(x));
                let k = choose|k: int| 0 <= k < rest.len() && rest[k] == x;
                assert(all[k] == x);
            } else {
                assert(all == rest.push(x));
                assert(all[rest.len() as int] == x);
            }
        }
        if all.contains(x) {
            let k = choose|k: int| 0 <= k < all.len() && all[k] == x;
            if passing.contains(s.last().id) && k == rest.len() {
                assert(s[s.len() - 1].id == x);
            } else {
                assert(rest[k] == x);
                let i = choose|i: int| 0 <= i < s.len() - 1 && s.drop_last()[i].id == x;
                assert(s[i] == s.drop_last()[i]);
            }
        }
    }
}

/// A handle is listed in group `g` exactly when some slot of that group
/// carries it.
pub proof fn lemma_handles_in_contains(s: Seq<ComponentSlot>, g: StorageGroup, t: TypeHandle)
    ensures
        handles_in(s, g).contains(t) <==> exists|i: int| 0 <= i < s.len() && s[i].value.handle == t && s[i].group == g,
    decreases s.len(),
{
    if s.len() > 0 {
        lemma_handles_in_contains(s.drop_last(), g, t);
        let rest = handles_in(s.drop_last(), g);
        if exists|i: int| 0 <= i < s.len() && s[i].value.handle == t && s[i].group == g {
            let i = choose|i: int| 0 <= i < s.len() && s[i].value.handle == t && s[i].group == g;
            if i < s.len() - 1 {
                assert(s.drop_last()[i] == s[i]);
                assert(rest.contains(t));
                let k = choose|k: int| 0 <= k < rest.len() && rest[k] == t;
                assert(handles_in(s, g)[k] == t);
            } else {
                assert(handles_in(s, g) == rest.push(t));
                assert(handles_in(s, g)[rest.len() as int] == t);
            }
        }
        if handles_in(s, g).contains(t) {
            let k = choose|k: int| 0 <= k < handles_in(s, g).len() && handles_in(s, g)[k] == t;
            if s.last().group == g && k == rest.len() {
                assert(s[s.len() - 1].value.handle == t);
            } else {
                assert(rest[k] == t);
                let i = choose|i: int| 0 <= i < s.len() - 1 && s.drop_last()[i].value.handle == t && s.drop_last()[i].group == g;
                assert(s[i] == s.drop_last()[i]);
            }
        }
    }
}

/// Every component type that an entity owns is listed in exactly one of its
/// two storage groups, the one that its slot names, and nothing else is
/// listed.
pub proof fn lemma_partition_complete(s: Seq<ComponentSlot>)
    requires
        distinct_handles(s),
    ensures
        forall|i: int| 0 <= i < s.len() ==> {
            &&& handles_in(s, s[i].group).contains(s[i].value.handle)
            &&& s[i].group == StorageGroup::Table ==> !handles_in(s, StorageGroup::SparseSet).contains(s[i].value.handle)
            &&& s[i].group == StorageGroup::SparseSet ==> !handles_in(s, StorageGroup::Table).contains(s[i].value.handle)
        },
        forall|t: TypeHandle|
            handles_in(s, StorageGroup::Table).contains(t) || handles_in(s, StorageGroup::SparseSet).contains(t)
                ==> exists|i: int| 0 <= i < s.len() && s[i].value.handle == t,
{
    assert forall|i: int| 0 <= i < s.len() implies {
        &&& handles_in(s, s[i].group).contains(s[i].value.handle)
        &&& s[i].group == StorageGroup::Table ==> !handles_in(s, StorageGroup::SparseSet).contains(s[i].value.handle)
        &&& s[i].group == StorageGroup::SparseSet ==> !handles_in(s, StorageGroup::Table).contains(s[i].value.handle)
    } by {
        lemma_handles_in_contains(s, StorageGroup::Table, s[i].value.handle);
        lemma_handles_in_contains(s, StorageGroup::SparseSet, s[i].value.handle);
    }
    assert forall|t: TypeHandle|
        handles_in(s, StorageGroup::Table).contains(t) || handles_in(s, StorageGroup::SparseSet).contains(t)
        implies exists|i: int| 0 <= i < s.len() && s[i].value.handle == t by {
        lemma_handles_in_contains(s, StorageGroup::Table, t);
        lemma_handles_in_contains(s, StorageGroup::SparseSet, t);
    }
}

} // verus!
