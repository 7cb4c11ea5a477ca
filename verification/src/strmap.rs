//! An insertion-ordered map with `String` keys.
//!
//! The graph builder, the model and the serialized form all depend on maps
//! that keep their keys in insertion order and hold each key once; this type
//! provides exactly that, with the order and the contents visible to
//! specifications.

use vstd::prelude::*;

verus! {

/// Do all entries of `keys` differ from each other?
pub open spec fn distinct_keys(keys: Seq<Seq<char>>) -> bool {
    forall|i: int, j: int| 0 <= i < j < keys.len() ==> keys[i] != keys[j]
}

/// Does `keys` contain `k`?
pub open spec fn keys_contain(keys: Seq<Seq<char>>, k: Seq<char>) -> bool {
    exists|i: int| 0 <= i < keys.len() && keys[i] == k
}

/// The index of `k` in `keys`; meaningful only when `keys_contain` holds and
/// the keys are distinct.
pub open spec fn key_index(keys: Seq<Seq<char>>, k: Seq<char>) -> int {
    choose|i: int| 0 <= i < keys.len() && keys[i] == k
}

/// A map from strings to values that keeps its entries in insertion order.
/// Inserting an existing key replaces the value in place; inserting a new
/// key appends it.
pub struct StrMap<V> {
    keys: Vec<String>,
    vals: Vec<V>,
}

impl<V> StrMap<V> {
    /// The keys, in order.
    pub closed spec fn keys_view(self) -> Seq<Seq<char>> {
        self.keys@.map_values(|s: String| s@)
    }

    /// The values, in key order.
    pub closed spec fn vals_view(self) -> Seq<V> {
        self.vals@
    }

    /// Keys are distinct and each key has a value.
    pub open spec fn wf(self) -> bool {
        &&& self.keys_view().len() == self.vals_view().len()
        &&& distinct_keys(self.keys_view())
    }

    /// Does the map hold `k`?
    pub open spec fn spec_contains(self, k: Seq<char>) -> bool {
        keys_contain(self.keys_view(), k)
    }

    /// The value stored under `k`; meaningful only when `spec_contains`.
    pub open spec fn spec_get(self, k: Seq<char>) -> V {
        self.vals_view()[key_index(self.keys_view(), k)]
    }

    /// The empty map.
    pub fn new() -> (r: Self)
        ensures
            r.wf(),
            r.keys_view() == Seq::<Seq<char>>::empty(),
            r.vals_view() == Seq::<V>::empty(),
    {
        let r = StrMap { keys: Vec::new(), vals: Vec::new() };
        proof {
            assert(r.keys_view() =~= Seq::<Seq<char>>::empty());
        }
        r
    }

    /// How many entries the map holds.
    pub fn len(&self) -> (r: usize)
        requires
            self.wf(),
        ensures
            r == self.keys_view().len(),
    {
        self.keys.len()
    }

    /// The position of `k` among the keys, if it is present.
    fn position_of(&self, k: &String) -> (r: Option<usize>)
        requires
            self.wf(),
        ensures
            match r {
                Some(i) => i < self.keys_view().len() && self.keys_view()[i as int] == k@
                    && self.spec_contains(k@) && key_index(self.keys_view(), k@) == i,
                None => !self.spec_contains(k@),
            },
    {
        let n = self.keys.len();
        let mut i: usize = 0;
        while i < n
            invariant
                self.wf(),
                n == self.keys_view().len(),
                i <= n,
                forall|j: int| 0 <= j < i ==> self.keys_view()[j] != k@,
            decreases n - i,
        {
            if k.eq(&self.keys[i]) {
                proof {
                    assert(self.keys_view()[i as int] == k@);
                    lemma_key_index_of_position(self.keys_view(), i as int);
                }
                return Some(i);
            }
            i = i + 1;
        }
        None
    }

    /// Does the map hold `k`?
    pub fn contains_key(&self, k: &String) -> (r: bool)
        requires
            self.wf(),
        ensures
            r == self.spec_contains(k@),
    {
        self.position_of(k).is_some()
    }

    /// A reference to the value under `k`, if any.
    pub fn get(&self, k: &String) -> (r: Option<&V>)
        requires
            self.wf(),
        ensures
            match r {
                Some(v) => self.spec_contains(k@) && *v == self.spec_get(k@),
                None => !self.spec_contains(k@),
            },
    {
        match self.position_of(k) {
            Some(i) => Some(&self.vals[i]),
            None => None,
        }
    }

    /// Store `v` under `k`: replace the value in place if `k` is present,
    /// append the entry otherwise.
    pub fn insert(&mut self, k: String, v: V)
        requires
            old(self).wf(),
        ensures
            final(self).wf(),
            final(self).spec_contains(k@),
            old(self).spec_contains(k@) ==> {
                &&& final(self).keys_view() == old(self).keys_view()
                &&& final(self).vals_view() == old(self).vals_view()
                    .update(key_index(old(self).keys_view(), k@), v)
            },
            !old(self).spec_contains(k@) ==> {
                &&& final(self).keys_view() == old(self).keys_view().push(k@)
                &&& final(self).vals_view() == old(self).vals_view().push(v)
            },
    {
        match self.position_of(&k) {
            Some(i) => {
                self.vals.set(i, v);
                proof {
                    assert(final(self).keys_view() =~= old(self).keys_view());
                    assert(final(self).vals_view() =~= old(self).vals_view()
                        .update(key_index(old(self).keys_view(), k@), v));
                }
            }
            None => {
                let ghost old_keys = self.keys_view();
                self.keys.push(k);
                self.vals.push(v);
                proof {
                    assert(final(self).keys_view() =~= old_keys.push(k@));
                    let new_keys = final(self).keys_view();
                    assert(new_keys[old_keys.len() as int] == k@);
                    assert(keys_contain(new_keys, k@));
                    assert forall|i: int, j: int| 0 <= i < j < new_keys.len()
                        implies new_keys[i] != new_keys[j] by {
                        if j == old_keys.len() {
                            assert(!keys_contain(old_keys, k@));
                            assert(new_keys[i] == old_keys[i]);
                        }
                    }
                }
            }
        }
    }

    /// The key at position `i`.
    pub fn key_at(&self, i: usize) -> (r: &String)
        requires
            self.wf(),
            i < self.keys_view().len(),
        ensures
            r@ == self.keys_view()[i as int],
    {
        &self.keys[i]
    }

    /// The value at position `i`.
    pub fn val_at(&self, i: usize) -> (r: &V)
        requires
            self.wf(),
            i < self.vals_view().len(),
        ensures
            *r == self.vals_view()[i as int],
    {
        &self.vals[i]
    }
}

/// With distinct keys, the key at position `i` is found again at position
/// `i` by `key_index`.
pub proof fn lemma_key_index_of_position(keys: Seq<Seq<char>>, i: int)
    requires
        distinct_keys(keys),
        0 <= i < keys.len(),
    ensures
        keys_contain(keys, keys[i]),
        key_index(keys, keys[i]) == i,
{
    assert(keys_contain(keys, keys[i]));
    let j = key_index(keys, keys[i]);
    if j != i {
        assert(keys[i] != keys[j]);
    }
}

} // verus!
