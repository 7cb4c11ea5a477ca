//! Small collection utilities used across the library.

use vstd::prelude::*;

use vstd::std_specs::cmp::PartialEqSpec;

verus! {

/// Are the two vectors pointwise equal and of one length?
pub fn eq_vecs<T: PartialEq>(a: &Vec<T>, b: &Vec<T>) -> (r: bool)
    ensures
        T::obeys_eq_spec() ==> r == (a@.len() == b@.len()
            && forall|i: int| 0 <= i < a@.len() ==> (#[trigger] a@[i]).eq_spec(&b@[i])),
{
    if a.len() != b.len() {
        return false;
    }
    let n = a.len();
    let mut i: usize = 0;
    while i < n
        invariant
            i <= n,
            n == a@.len(),
            n == b@.len(),
            T::obeys_eq_spec() ==> forall|j: int| 0 <= j < i
                ==> (#[trigger] a@[j]).eq_spec(&b@[j]),
        decreases n - i,
    {
        if !(a[i] == b[i]) {
            return false;
        }
        i = i + 1;
    }
    true
}

/// The distinct values of `s`, each kept at its first occurrence, in
/// order.
pub open spec fn spec_distinct(s: Seq<usize>) -> Seq<usize>
    decreases s.len(),
{
    if s.len() == 0 {
        Seq::empty()
    } else {
        let d = spec_distinct(s.drop_last());
        if d.contains(s.last()) {
            d
        } else {
            d.push(s.last())
        }
    }
}

/// Whether `v` holds `x`.
fn vec_contains(v: &Vec<usize>, x: usize) -> (r: bool)
    ensures
        r == v@.contains(x),
{
    let n = v.len();
    let mut i: usize = 0;
    while i < n
        invariant
            i <= n,
            n == v@.len(),
            forall|j: int| 0 <= j < i ==> v@[j] != x,
        decreases n - i,
    {
        if v[i] == x {
            return true;
        }
        i = i + 1;
    }
    proof {
        if v@.contains(x) {
            let j = choose|j: int| 0 <= j < v@.len() && v@[j] == x;
        }
    }
    false
}

/// The distinct values of `v`, each kept at its first occurrence, in
/// order.
pub fn distinct_values(v: &Vec<usize>) -> (r: Vec<usize>)
    ensures
        r@ == spec_distinct(v@),
{
    let n = v.len();
    let mut r: Vec<usize> = Vec::new();
    let mut i: usize = 0;
    proof {
        assert(v@.subrange(0, 0) =~= Seq::<usize>::empty());
        assert(r@ =~= spec_distinct(v@.subrange(0, 0)));
    }
    while i < n
        invariant
            i <= n,
            n == v@.len(),
            r@ == spec_distinct(v@.subrange(0, i as int)),
        decreases n - i,
    {
        proof {
            assert(v@.subrange(0, i as int + 1).drop_last() =~= v@.subrange(0, i as int));
            assert(v@.subrange(0, i as int + 1).last() == v@[i as int]);
        }
        if !vec_contains(&r, v[i]) {
            r.push(v[i]);
        }
        i = i + 1;
    }
    proof {
        assert(v@.subrange(0, n as int) =~= v@);
    }
    r
}

} // verus!
