//! The visibility overlay of a scope frame: which declarations are hidden or
//! shown, by their IDs.

use std::collections::HashMap;
use vstd::prelude::*;
use crate::id::DeclId;
use vstd::std_specs::hash::spec_hash_map_iter;
use vstd::std_specs::iter::IteratorSpec;

verus! {

broadcast use vstd::std_specs::hash::group_hash_axioms;

/// Whether an overlay shows `id`: it does unless it marks the ID hidden.
pub open spec fn visible_in(overlay: Map<DeclId, bool>, id: DeclId) -> bool {
    overlay.contains_key(id) ==> overlay[id]
}

/// Marks on declaration IDs: `true` for shown, `false` for hidden. An ID
/// without a mark is shown.
#[derive(Clone, Debug)]
pub struct Visibility {
    ids: HashMap<DeclId, bool>,
}

impl Visibility {
    /// The marks as a map.
    pub closed spec fn view(&self) -> Map<DeclId, bool> {
        self.ids@
    }

    /// An overlay without marks.
    pub fn new() -> (overlay: Self)
        ensures
            overlay@ == Map::<DeclId, bool>::empty(),
    {
        Visibility { ids: HashMap::new() }
    }

    /// Whether the overlay shows `id`.
    pub fn is_id_visible(&self, id: &DeclId) -> (visible: bool)
        ensures
            visible == visible_in(self@, *id),
    {
        match self.ids.get(id) {
            Some(mark) => *mark,
            None => true,
        }
    }

    /// Marks `id` hidden.
    pub fn hide_id(&mut self, id: &DeclId)
        ensures
            final(self)@ == old(self)@.insert(*id, false),
    {
        self.ids.insert(*id, false);
    }

    /// Marks `id` shown.
    pub fn use_id(&mut self, id: &DeclId)
        ensures
            final(self)@ == old(self)@.insert(*id, true),
    {
        self.ids.insert(*id, true);
    }

    /// Takes over every mark of `other`; where both hold a mark, that of `other` wins.
    pub fn merge_with(&mut self, other: Visibility)
        ensures
            final(self)@ == old(self)@.union_prefer_right(other@),
    {
        let ghost before = self.ids@;
        let ghost marks = other.ids@;
        let ghost walk = spec_hash_map_iter(&other.ids).remaining();
        let ghost mut done: int = 0;
        for (id, visible) in it: other.ids.iter()
            invariant
                marks == other.ids@,
                walk == spec_hash_map_iter(&other.ids).remaining(),
                walk == it.seq(),
                done == it.index(),
                self.ids@ =~= before.union_prefer_right(marks.restrict(seen(walk, done))),
        {
            assert(marks.contains_key(*walk[done].0));
            self.ids.insert(*id, *visible);
            assert(seen(walk, done + 1) =~= seen(walk, done).insert(*id)) by {
                assert(*walk[done].0 == *id);
            }
            proof {
                done = done + 1;
            }
        }
        proof {
            lemma_all_seen(&other.ids);
        }
    }

    /// Takes over the marks of `other` on IDs that have no mark here; own marks stay.
    pub fn append(&mut self, other: &Visibility)
        ensures
            final(self)@ == other@.union_prefer_right(old(self)@),
    {
        let ghost before = self.ids@;
        let ghost marks = other.ids@;
        let ghost walk = spec_hash_map_iter(&other.ids).remaining();
        let ghost mut done: int = 0;
        for (id, visible) in it: other.ids.iter()
            invariant
                marks == other.ids@,
                walk == spec_hash_map_iter(&other.ids).remaining(),
                walk == it.seq(),
                done == it.index(),
                self.ids@ =~= marks.restrict(seen(walk, done)).union_prefer_right(before),
        {
            assert(marks.contains_key(*walk[done].0));
            assert(seen(walk, done + 1) =~= seen(walk, done).insert(*id)) by {
                assert(*walk[done].0 == *id);
            }
            if !self.ids.contains_key(id) {
                self.ids.insert(*id, *visible);
            }
            proof {
                done = done + 1;
            }
        }
        proof {
            lemma_all_seen(&other.ids);
        }
    }
}

/// A whole walk over the marks of an overlay meets every marked ID.
proof fn lemma_all_seen(ids: &HashMap<DeclId, bool>)
    ensures
        ({
            let walk = spec_hash_map_iter(ids).remaining();
            ids@.restrict(seen(walk, walk.len() as int)) == ids@
        }),
{
    let walk = spec_hash_map_iter(ids).remaining();
    assert forall|k: DeclId| ids@.contains_key(k) implies seen(walk, walk.len() as int).contains(
        k,
    ) by {
        let j = walk.index_of((&k, &ids@[k]));
        assert(*walk[j].0 == k);
    }
    assert(ids@.restrict(seen(walk, walk.len() as int)) =~= ids@);
}

/// The IDs among the first `n` entries of a walk over an overlay's marks.
spec fn seen(walk: Seq<(&DeclId, &bool)>, n: int) -> Set<DeclId> {
    Set::new(|k: DeclId| exists|j: int| 0 <= j < n && *(#[trigger] walk[j]).0 == k)
}

} // verus!
