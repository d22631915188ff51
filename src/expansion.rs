use vstd::prelude::*;

use crate::registry::TypeHandle;
use crate::traversal::EntityId;

verus! {

broadcast use vstd::seq_lib::lemma_seq_contains_after_push;

/// Which component rows are expanded, keyed by entity and component type,
/// kept across redraws so that the user's navigation survives them.
pub struct ExpansionState {
    keys: Vec<(EntityId, TypeHandle)>,
}

impl View for ExpansionState {
    type V = Set<(EntityId, TypeHandle)>;

    closed spec fn view(&self) -> Set<(EntityId, TypeHandle)> {
        Set::new(|k: (EntityId, TypeHandle)| self.keys@.contains(k))
    }
}

impl ExpansionState {
    /// Every row collapsed.
    pub fn new() -> (r: ExpansionState)
        ensures
            r@ == Set::<(EntityId, TypeHandle)>::empty(),
    {
        let r = ExpansionState { keys: Vec::new() };
        assert(r@ =~= Set::<(EntityId, TypeHandle)>::empty());
        r
    }

    /// Whether the row of component type `t` of entity `e` is expanded.
    pub fn is_expanded(&self, e: EntityId, t: TypeHandle) -> (r: bool)
        ensures
            r == self@.contains((e, t)),
    {
        let mut k: usize = 0;
        while k < self.keys.len()
            invariant
                k <= self.keys.len(),
                forall|j: int| 0 <= j < k ==> self.keys@[j] != (e, t),
            decreases self.keys.len() - k,
        {
            let (ke, kt) = self.keys[k];
            if ke == e && kt == t {
                return true;
            }
            k += 1;
        }
        false
    }

    /// Expands (`open`) or collapses the row of component type `t` of
    /// entity `e`, leaving every other row as it was.
    pub fn set_expanded(&mut self, e: EntityId, t: TypeHandle, open: bool)
        ensures
            final(self)@ == (if open {
                old(self)@.insert((e, t))
            } else {
                old(self)@.remove((e, t))
            }),
    {
        let ghost before = self@;
        if open {
            if !self.is_expanded(e, t) {
                self.keys.push((e, t));
            }
            assert(self@ =~= before.insert((e, t)));
        } else {
            let mut kept: Vec<(EntityId, TypeHandle)> = Vec::new();
            let mut k: usize = 0;
            while k < self.keys.len()
                invariant
                    k <= self.keys.len(),
                    forall|x: (EntityId, TypeHandle)|
                        kept@.contains(x) <==> (x != (e, t) && self.keys@.subrange(0, k as int).contains(x)),
                decreases self.keys.len() - k,
            {
                let key = self.keys[k];
                proof {
                    let pre = self.keys@.subrange(0, k as int);
                    let post = self.keys@.subrange(0, k as int + 1);
                    assert(post =~= pre.push(key));
                }
                if !(key.0 == e && key.1 == t) {
                    kept.push(key);
                }
                k += 1;
            }
            assert(self.keys@.subrange(0, self.keys@.len() as int) =~= self.keys@);
            self.keys = kept;
            assert(self@ =~= before.remove((e, t)));
        }
    }
}

} // verus!
