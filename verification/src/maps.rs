//! Key listings of integer-keyed hash maps.

use std::collections::HashMap;

use vstd::prelude::*;

verus! {

broadcast use vstd::std_specs::hash::group_hash_axioms;

/// `k` occurs in `s` at or after position `from`.
pub open spec fn occurs_from(s: Seq<u64>, from: int, k: u64) -> bool {
    exists|i: int| from <= i < s.len() && s[i] == k
}

/// The keys of a map, each once, in the map's iteration order.
pub fn keys_of<V>(m: &HashMap<u64, V>) -> (r: Vec<u64>)
    ensures
        r@.no_duplicates(),
        forall|k: u64| #[trigger] r@.contains(k) <==> m@.contains_key(k),
{
    let mut out: Vec<u64> = Vec::new();
    for t in it: m.keys()
        invariant
            it.seq().unref().to_set() == m@.dom(),
            it.seq().unref().no_duplicates(),
            out@.no_duplicates(),
            forall|j: int| 0 <= j < out@.len() ==> m@.contains_key(#[trigger] out@[j]),
            forall|j: int| 0 <= j < out@.len() ==> !occurs_from(it.seq().unref(), it.index(), #[trigger] out@[j]),
            forall|k: u64| #[trigger] m@.dom().contains(k) ==> (out@.contains(k) || occurs_from(
                it.seq().unref(),
                it.index(),
                k,
            )),
    {
        let ghost before = out@;
        assert(it.seq().unref()[it.index()] == *t);
        assert(m@.dom().contains(*t)) by {
            assert(it.seq().unref().to_set().contains(*t));
        }
        assert(!before.contains(*t)) by {
            if before.contains(*t) {
                let j = before.index_of(*t);
                assert(!occurs_from(it.seq().unref(), it.index(), before[j]));
            }
        }
        out.push(*t);
        assert forall|j: int| 0 <= j < out@.len() implies !occurs_from(it.seq().unref(), it.index() + 1, #[trigger] out@[j]) by {
            if j == out@.len() - 1 {
                if occurs_from(it.seq().unref(), it.index() + 1, out@[j]) {
                    let i = choose|i: int| it.index() + 1 <= i < it.seq().unref().len() && it.seq().unref()[i] == out@[j];
                    assert(it.seq().unref()[i] == it.seq().unref()[it.index() as int]);
                }
            } else {
                assert(out@[j] == before[j]);
                assert(!occurs_from(it.seq().unref(), it.index(), before[j]));
            }
        }
        assert forall|k: u64| #[trigger] m@.dom().contains(k) implies (out@.contains(k) || occurs_from(
            it.seq().unref(),
            it.index() + 1,
            k,
        )) by {
            if k == *t {
                assert(out@[out@.len() - 1] == k);
            } else if before.contains(k) {
                let j = before.index_of(k);
                assert(out@[j] == k);
            } else {
                let i = choose|i: int| it.index() <= i < it.seq().unref().len() && it.seq().unref()[i] == k;
                assert(i != it.index());
            }
        }
    }
    proof {
        assert forall|k: u64| #[trigger] out@.contains(k) <==> m@.contains_key(k) by {
            if out@.contains(k) {
                let j = out@.index_of(k);
                assert(m@.contains_key(out@[j]));
            }
            if m@.contains_key(k) {
                assert(m@.dom().contains(k));
            }
        }
    }
    out
}

} // verus!
