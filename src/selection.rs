//! Which of the requested mods a listing did not return.
use vstd::prelude::*;

use std::collections::HashSet;

verus! {

broadcast use vstd::std_specs::hash::group_hash_axioms;

/// The requested ids that were not found, as a set.
pub fn missing_ids(requested: &Vec<u64>, found: &Vec<u64>) -> (r: HashSet<u64>)
    ensures
        forall|x: u64| r@.contains(x) <==> (requested@.contains(x) && !found@.contains(x)),
{
    let mut missing: HashSet<u64> = HashSet::new();
    let mut k: usize = 0;
    while k < requested.len()
        invariant
            k <= requested@.len(),
            forall|x: u64| missing@.contains(x) <==> requested@.subrange(0, k as int).contains(x),
        decreases requested@.len() - k,
    {
        let x = requested[k];
        let ghost seen = requested@.subrange(0, k as int);
        assert(requested@.subrange(0, k + 1) =~= seen.push(x));
        missing.insert(x);
        assert forall|y: u64| missing@.contains(y) <==> requested@.subrange(0, k + 1).contains(
            y,
        ) by {
            lemma_push_contains(seen, x, y);
        }
        k += 1;
    }
    assert(requested@.subrange(0, k as int) =~= requested@);
    let mut j: usize = 0;
    while j < found.len()
        invariant
            j <= found@.len(),
            forall|x: u64|
                missing@.contains(x) <==> (requested@.contains(x) && !found@.subrange(
                    0,
                    j as int,
                ).contains(x)),
        decreases found@.len() - j,
    {
        let x = found[j];
        let ghost seen = found@.subrange(0, j as int);
        assert(found@.subrange(0, j + 1) =~= seen.push(x));
        missing.remove(&x);
        assert forall|y: u64|
            missing@.contains(y) <==> (requested@.contains(y) && !found@.subrange(
                0,
                j + 1,
            ).contains(y)) by {
            lemma_push_contains(seen, x, y);
        }
        j += 1;
    }
    assert(found@.subrange(0, j as int) =~= found@);
    missing
}

proof fn lemma_push_contains(s: Seq<u64>, x: u64, y: u64)
    ensures
        s.push(x).contains(y) <==> (s.contains(y) || y == x),
{
    let t = s.push(x);
    if s.contains(y) {
        let i = choose|i: int| 0 <= i < s.len() && s[i] == y;
        assert(t[i] == y);
    }
    if y == x {
        assert(t[s.len() as int] == x);
    }
    if t.contains(y) {
        let i = choose|i: int| 0 <= i < t.len() && t[i] == y;
        if i < s.len() {
            assert(s[i] == y);
        }
    }
}

} // verus!
