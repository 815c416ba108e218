//! Per-component-type sparse storage: maps entity ids to component values,
//! with a join over two storages that yields the entities present in both.

use vstd::prelude::*;
use vstd::std_specs::vec::vec_index_mut;

verus! {

/// Sparse storage for one component type, keyed by entity id. Its abstract
/// value is the partial map from entity id to component value.
pub struct Storage<T> {
    slots: Vec<Option<T>>,
}

impl<T> View for Storage<T> {
    type V = Map<int, T>;

    closed spec fn view(&self) -> Map<int, T> {
        Map::new(
            |e: int| 0 <= e < self.slots@.len() && self.slots@[e] is Some,
            |e: int| self.slots@[e]->0,
        )
    }
}

impl<T> Storage<T> {
    pub fn new() -> (s: Self)
        ensures
            s@ == Map::<int, T>::empty(),
    {
        let s = Storage { slots: Vec::new() };
        proof {
            assert(s@ =~= Map::<int, T>::empty());
        }
        s
    }

    /// An id past every entity this storage holds a component for; iterating
    /// ids below it visits the whole storage.
    pub fn bound(&self) -> (n: usize)
        ensures
            forall|e: int| self@.contains_key(e) ==> 0 <= e < n,
    {
        self.slots.len()
    }

    /// Insert or overwrite the component of entity `e`.
    pub fn set(&mut self, e: usize, value: T)
        ensures
            final(self)@ == old(self)@.insert(e as int, value),
    {
        while self.slots.len() <= e
            invariant
                forall|k: int|
                    0 <= k < old(self).slots@.len() ==> self.slots@[k] == old(self).slots@[k],
                forall|k: int|
                    old(self).slots@.len() <= k < self.slots@.len() ==> self.slots@[k] is None,
                self.slots@.len() >= old(self).slots@.len(),
            decreases e + 1 - self.slots.len(),
        {
            self.slots.push(None);
        }
        let slot = vec_index_mut(&mut self.slots, e);
        *slot = Some(value);
        proof {
            assert(final(self)@ =~= old(self)@.insert(e as int, value));
        }
    }

    /// The component of entity `e`, or `None` when the entity lacks one.
    pub fn get(&self, e: usize) -> (r: Option<&T>)
        ensures
            match r {
                Some(v) => self@.contains_key(e as int) && self@[e as int] == *v,
                None => !self@.contains_key(e as int),
            },
    {
        if e < self.slots.len() {
            match &self.slots[e] {
                Some(v) => Some(v),
                None => None,
            }
        } else {
            None
        }
    }

    /// Remove and return the component of entity `e`, if any.
    pub fn remove(&mut self, e: usize) -> (r: Option<T>)
        ensures
            final(self)@ == old(self)@.remove(e as int),
            match r {
                Some(v) => old(self)@.contains_key(e as int) && old(self)@[e as int] == v,
                None => !old(self)@.contains_key(e as int),
            },
    {
        let r = if e < self.slots.len() {
            let slot = vec_index_mut(&mut self.slots, e);
            slot.take()
        } else {
            None
        };
        proof {
            assert(final(self)@ =~= old(self)@.remove(e as int));
        }
        r
    }
}

/// Join of two storages: the ids of the entities present in both, in
/// ascending order, each exactly once.
pub fn join_ids<A, B>(a: &Storage<A>, b: &Storage<B>) -> (r: Vec<usize>)
    ensures
        forall|i: int, j: int| 0 <= i < j < r@.len() ==> r@[i] < r@[j],
        forall|i: int|
            0 <= i < r@.len() ==> a@.contains_key(#[trigger] r@[i] as int) && b@.contains_key(
                r@[i] as int,
            ),
        forall|e: int|
            a@.contains_key(e) && b@.contains_key(e) ==> exists|i: int|
                0 <= i < r@.len() && #[trigger] r@[i] as int == e,
{
    let n = a.bound();
    let mut r: Vec<usize> = Vec::new();
    let mut e: usize = 0;
    while e < n
        invariant
            forall|i: int, j: int| 0 <= i < j < r@.len() ==> r@[i] < r@[j],
            forall|i: int|
                0 <= i < r@.len() ==> #[trigger] r@[i] < e && a@.contains_key(r@[i] as int)
                    && b@.contains_key(r@[i] as int),
            forall|k: int|
                0 <= k < e as int && a@.contains_key(k) && b@.contains_key(k) ==> exists|i: int|
                    0 <= i < r@.len() && #[trigger] r@[i] as int == k,
            e <= n,
            forall|k: int| a@.contains_key(k) ==> 0 <= k < n,
        decreases n - e,
    {
        let in_a = a.get(e).is_some();
        let in_b = b.get(e).is_some();
        if in_a && in_b {
            let ghost old_r = r@;
            r.push(e);
            proof {
                assert(r@[old_r.len() as int] == e);
                assert forall|k: int|
                    0 <= k < (e + 1) as int && a@.contains_key(k) && b@.contains_key(
                        k,
                    ) implies exists|i: int| 0 <= i < r@.len() && #[trigger] r@[i] as int == k by {
                    if k == e as int {
                        assert(r@[old_r.len() as int] as int == k);
                    } else {
                        let i = choose|i: int| 0 <= i < old_r.len() && #[trigger] old_r[i] as int
                            == k;
                        assert(r@[i] as int == k);
                    }
                }
            }
        }
        e += 1;
    }
    proof {
        assert forall|k: int| a@.contains_key(k) && b@.contains_key(k) implies exists|i: int|
            0 <= i < r@.len() && #[trigger] r@[i] as int == k by {
            assert(0 <= k < e as int);
        }
    }
    r
}

} // verus!
