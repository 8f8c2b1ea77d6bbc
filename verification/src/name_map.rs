//! A map from names (byte strings) to values, kept as a list of bindings in
//! which no name occurs twice.

use vstd::prelude::*;
use crate::bytes::bytes_eq;

verus! {

/// Name-to-value bindings of one namespace of a scope frame.
#[derive(Clone, Debug)]
pub struct NameMap<V> {
    entries: Vec<(Vec<u8>, V)>,
}

impl<V> NameMap<V> {
    /// The bound names, in the order in which they were first bound.
    pub closed spec fn names(&self) -> Seq<Seq<u8>> {
        Seq::new(self.entries@.len(), |i: int| self.entries@[i].0@)
    }

    /// The value bound at each position of `names`.
    pub closed spec fn values(&self) -> Seq<V> {
        Seq::new(self.entries@.len(), |i: int| self.entries@[i].1)
    }

    /// No name is bound twice.
    pub open spec fn wf(&self) -> bool {
        &&& self.names().no_duplicates()
        &&& self.values().len() == self.names().len()
    }

    /// The bindings as a map.
    pub open spec fn view(&self) -> Map<Seq<u8>, V> {
        Map::new(
            |name: Seq<u8>| self.names().contains(name),
            |name: Seq<u8>| self.values()[self.names().index_of(name)],
        )
    }

    /// A map without bindings.
    pub fn new() -> (map: Self)
        ensures
            map.wf(),
            map@ == Map::<Seq<u8>, V>::empty(),
            map.names() == Seq::<Seq<u8>>::empty(),
    {
        let map = NameMap { entries: Vec::new() };
        assert(map.names() =~= Seq::<Seq<u8>>::empty());
        assert(map@ =~= Map::<Seq<u8>, V>::empty());
        map
    }

    /// The number of bindings.
    pub fn len(&self) -> (n: usize)
        ensures
            n == self.names().len(),
    {
        self.entries.len()
    }

    /// The name at position `index` of `names`.
    pub fn name_at(&self, index: usize) -> (name: &Vec<u8>)
        requires
            index < self.names().len(),
        ensures
            name@ == self.names()[index as int],
    {
        &self.entries[index].0
    }

    /// The value bound to the name at position `index` of `names`.
    pub fn value_at(&self, index: usize) -> (value: &V)
        requires
            index < self.names().len(),
        ensures
            *value == self.values()[index as int],
    {
        &self.entries[index].1
    }

    /// The position of `name` among the bound names.
    fn position(&self, name: &[u8]) -> (found: Option<usize>)
        ensures
            match found {
                Some(i) => i < self.names().len() && self.names()[i as int] == name@,
                None => !self.names().contains(name@),
            },
    {
        let mut i: usize = 0;
        while i < self.entries.len()
            invariant
                i <= self.entries@.len(),
                forall|k: int| 0 <= k < i ==> self.names()[k] != name@,
            decreases self.entries@.len() - i,
        {
            if bytes_eq(self.entries[i].0.as_slice(), name) {
                return Some(i);
            }
            i += 1;
        }
        None
    }

    /// The value bound to `name`, if there is one.
    pub fn get(&self, name: &[u8]) -> (value: Option<&V>)
        requires
            self.wf(),
        ensures
            self@.contains_key(name@) ==> value == Some(&self@[name@]),
            !self@.contains_key(name@) ==> value.is_none(),
    {
        match self.position(name) {
            Some(i) => {
                proof {
                    self.lemma_binding_at(i as int);
                }
                Some(&self.entries[i].1)
            },
            None => None,
        }
    }

    /// Whether `name` is bound.
    pub fn contains_key(&self, name: &[u8]) -> (found: bool)
        ensures
            found == self@.contains_key(name@),
    {
        self.position(name).is_some()
    }

    /// Binds `name` to `value`. A binding that the name already had is replaced in
    /// place and its value returned; a new name goes to the end of `names`.
    pub fn insert(&mut self, name: Vec<u8>, value: V) -> (previous: Option<V>)
        requires
            old(self).wf(),
        ensures
            final(self).wf(),
            final(self)@ == old(self)@.insert(name@, value),
            old(self)@.contains_key(name@) ==> previous == Some(old(self)@[name@]),
            old(self)@.contains_key(name@) ==> final(self).names() == old(self).names(),
            !old(self)@.contains_key(name@) ==> previous.is_none(),
            !old(self)@.contains_key(name@) ==> final(self).names() == old(self).names().push(name@),
    {
        let ghost before = *self;
        match self.position(name.as_slice()) {
            Some(i) => {
                proof {
                    before.lemma_binding_at(i as int);
                }
                let replaced = self.entries.remove(i);
                self.entries.insert(i, (name, value));
                proof {
                    assert(self.names() =~= before.names());
                    assert(self.values() =~= before.values().update(i as int, value));
                    assert forall|k: Seq<u8>| #[trigger] self@.contains_key(k) implies self@[k]
                        == before@.insert(name@, value)[k] by {
                        let j = self.names().index_of(k);
                        assert(self.names()[j] == k);
                    }
                    assert(self@ =~= before@.insert(name@, value));
                }
                Some(replaced.1)
            },
            None => {
                self.entries.push((name, value));
                proof {
                    let n = before.names().len() as int;
                    assert(self.names() =~= before.names().push(name@));
                    assert(self.values() =~= before.values().push(value));
                    assert forall|k: Seq<u8>| #[trigger] self@.contains_key(k) implies self@[k]
                        == before@.insert(name@, value)[k] by {
                        let j = self.names().index_of(k);
                        assert(self.names()[j] == k);
                        if k != name@ {
                            assert(j < n);
                            assert(before.names()[j] == k);
                            let j0 = before.names().index_of(k);
                            assert(before.names()[j0] == k);
                            assert(j0 == j);
                        } else {
                            assert(self.names()[n] == k);
                            assert(j == n);
                        }
                    }
                    assert forall|k: Seq<u8>| before@.insert(name@, value).contains_key(
                        k,
                    ) implies #[trigger] self@.contains_key(k) by {
                        if k == name@ {
                            assert(self.names()[n] == k);
                        } else {
                            let j0 = before.names().index_of(k);
                            assert(before.names()[j0] == k);
                            assert(self.names()[j0] == k);
                        }
                    }
                    assert(self@ =~= before@.insert(name@, value));
                }
                None
            },
        }
    }

    /// Takes the binding of `name` out of the map and returns its value.
    pub fn remove(&mut self, name: &[u8]) -> (removed: Option<V>)
        requires
            old(self).wf(),
        ensures
            final(self).wf(),
            final(self)@ == old(self)@.remove(name@),
            old(self)@.contains_key(name@) ==> removed == Some(old(self)@[name@]),
            old(self)@.contains_key(name@) ==> final(self).names() == old(self).names().remove(
                old(self).names().index_of(name@),
            ),
            !old(self)@.contains_key(name@) ==> removed.is_none(),
            !old(self)@.contains_key(name@) ==> final(self).names() == old(self).names(),
    {
        let ghost before = *self;
        match self.position(name) {
            Some(i) => {
                proof {
                    before.lemma_binding_at(i as int);
                    let i0 = before.names().index_of(name@);
                    assert(before.names()[i0] == name@);
                    assert(i0 == i);
                }
                let taken = self.entries.remove(i);
                proof {
                    assert(self.names() =~= before.names().remove(i as int));
                    assert(self.values() =~= before.values().remove(i as int));
                    assert forall|k: Seq<u8>| #[trigger] self@.contains_key(k) implies k != name@
                        && before@.contains_key(k) && self@[k] == before@[k] by {
                        let j = self.names().index_of(k);
                        assert(self.names()[j] == k);
                        let j1 = if j < i { j } else { j + 1 };
                        assert(before.names()[j1] == k);
                        let j0 = before.names().index_of(k);
                        assert(before.names()[j0] == k);
                        assert(j0 == j1);
                    }
                    assert forall|k: Seq<u8>| before@.contains_key(k) && k != name@ implies
                        #[trigger] self@.contains_key(k) by {
                        let j0 = before.names().index_of(k);
                        assert(before.names()[j0] == k);
                        let j = if j0 < i { j0 } else { j0 - 1 };
                        assert(self.names()[j] == k);
                    }
                    assert(self@ =~= before@.remove(name@));
                }
                Some(taken.1)
            },
            None => {
                proof {
                    assert(self@ =~= before@.remove(name@));
                }
                None
            },
        }
    }

    /// Takes over every binding of `other`; where both bind a name, the binding of
    /// `other` wins. The names that are new go to the end of `names`, in the
    /// order in which `other` lists them.
    pub fn extend(&mut self, other: NameMap<V>)
        requires
            old(self).wf(),
            other.wf(),
        ensures
            final(self).wf(),
            final(self)@ == old(self)@.union_prefer_right(other@),
            final(self).names() == old(self).names() + names_not_in(other.names(), old(self)@.dom()),
    {
        let ghost before = self@;
        let ghost listed = self.names();
        let ghost fresh = |name: Seq<u8>| !before.dom().contains(name);
        let ghost mut done: int = 0;
        assert(other.names().subrange(0, 0).filter(fresh) =~= Seq::<Seq<u8>>::empty());
        assert(self.names() =~= listed + other.names().subrange(0, 0).filter(fresh));
        for entry in it: other.entries
            invariant
                other.wf(),
                it.seq() == other.entries@,
                done == it.index(),
                0 <= done <= other.names().len(),
                fresh == |name: Seq<u8>| !before.dom().contains(name),
                self.wf(),
                self@ =~= before.union_prefer_right(other@.restrict(bound_before(other.names(), done))),
                self.names() == listed + other.names().subrange(0, done).filter(fresh),
        {
            proof {
                other.lemma_binding_at(done);
                assert(bound_before(other.names(), done + 1) =~= bound_before(
                    other.names(),
                    done,
                ).insert(entry.0@)) by {
                    assert(other.names()[done] == entry.0@);
                }
                let upto = other.names().subrange(0, done + 1);
                assert(upto.drop_last() =~= other.names().subrange(0, done));
                assert(upto.last() == entry.0@);
                lemma_filter_last(upto, fresh);
                if !before.dom().contains(entry.0@) {
                    assert(!bound_before(other.names(), done).contains(entry.0@)) by {
                        if bound_before(other.names(), done).contains(entry.0@) {
                            let j = choose|j: int|
                                0 <= j < done && #[trigger] other.names()[j] == entry.0@;
                            assert(other.names()[j] == other.names()[done]);
                        }
                    }
                    assert(!self@.contains_key(entry.0@));
                } else {
                    assert(self@.contains_key(entry.0@));
                }
                assert((listed + other.names().subrange(0, done).filter(fresh)).push(entry.0@)
                    =~= listed + other.names().subrange(0, done).filter(fresh).push(entry.0@));
                done = done + 1;
            }
            self.insert(entry.0, entry.1);
        }
        proof {
            assert(other.names().subrange(0, done) =~= other.names());
            assert(other@.restrict(bound_before(other.names(), done)) =~= other@) by {
                assert forall|k: Seq<u8>| other@.contains_key(k) implies bound_before(
                    other.names(),
                    done,
                ).contains(k) by {
                    let j = other.names().index_of(k);
                    assert(other.names()[j] == k);
                }
            }
        }
    }

    /// The name at position `i` is bound to the value at position `i`.
    pub proof fn lemma_binding_at(&self, i: int)
        requires
            self.wf(),
            0 <= i < self.names().len(),
        ensures
            self@.contains_key(self.names()[i]),
            self@[self.names()[i]] == self.values()[i],
    {
        let name = self.names()[i];
        assert(self.names().contains(name));
        let j = self.names().index_of(name);
        assert(self.names()[j] == name);
        assert(j == i);
    }
}

impl NameMap<usize> {
    /// Whether every ID that a name is bound to is below `bound`.
    pub fn all_below(&self, bound: usize) -> (ok: bool)
        requires
            self.wf(),
        ensures
            ok == (forall|name: Seq<u8>| #[trigger] self@.contains_key(name) ==> self@[name] < bound),
    {
        let mut i: usize = 0;
        while i < self.entries.len()
            invariant
                self.wf(),
                i <= self.entries@.len(),
                forall|k: int| 0 <= k < i ==> #[trigger] self.values()[k] < bound,
            decreases self.entries@.len() - i,
        {
            if self.entries[i].1 >= bound {
                proof {
                    self.lemma_binding_at(i as int);
                }
                return false;
            }
            i += 1;
        }
        proof {
            assert forall|name: Seq<u8>| #[trigger] self@.contains_key(name) implies self@[name]
                < bound by {
                let j = self.names().index_of(name);
                assert(self.names()[j] == name);
                assert(self.values()[j] < bound);
            }
        }
        true
    }
}

/// The names at the first `n` positions of `names`.
spec fn bound_before(names: Seq<Seq<u8>>, n: int) -> Set<Seq<u8>> {
    Set::new(|name: Seq<u8>| exists|j: int| 0 <= j < n && #[trigger] names[j] == name)
}

/// The names among `names` that are not in `taken`, in their order.
pub open spec fn names_not_in(names: Seq<Seq<u8>>, taken: Set<Seq<u8>>) -> Seq<Seq<u8>> {
    names.filter(|name: Seq<u8>| !taken.contains(name))
}

/// Filtering a sequence filters all but its last element and then decides on that one.
pub proof fn lemma_filter_last<A>(s: Seq<A>, wanted: spec_fn(A) -> bool)
    requires
        s.len() > 0,
    ensures
        s.filter(wanted) == if wanted(s.last()) {
            s.drop_last().filter(wanted).push(s.last())
        } else {
            s.drop_last().filter(wanted)
        },
{
    reveal(Seq::filter);
}

} // verus!
