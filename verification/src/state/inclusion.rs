//! Per-project inclusion toggles, as the sync, freeze and changelog screens keep them.

use std::collections::HashMap;

use vstd::prelude::*;

verus! {

broadcast use vstd::std_specs::hash::group_hash_axioms;

/// After re-initialising from `ids`: exactly the listed projects, each keeping
/// its toggle if it had one, else included.
pub open spec fn spec_reinit(old: Map<u128, bool>, ids: Seq<u128>) -> Map<u128, bool> {
    Map::new(
        |k: u128| ids.contains(k),
        |k: u128|
            if old.contains_key(k) {
                old[k]
            } else {
                true
            },
    )
}

/// Whether project `id` is included: its toggle, or included when it has none.
pub open spec fn spec_is_included(m: Map<u128, bool>, id: u128) -> bool {
    if m.contains_key(id) {
        m[id]
    } else {
        true
    }
}

/// Re-initialises the toggles from the current project ids: new projects are
/// included, known ones keep their toggle, and ids no longer listed are dropped.
pub fn reinit_inclusion(m: &HashMap<u128, bool>, ids: &[u128]) -> (r: HashMap<u128, bool>)
    ensures
        r@ == spec_reinit(m@, ids@),
{
    let mut out: HashMap<u128, bool> = HashMap::new();
    let mut i: usize = 0;
    while i < ids.len()
        invariant
            i <= ids@.len(),
            out@ == spec_reinit(m@, ids@.take(i as int)),
        decreases ids@.len() - i,
    {
        let id = ids[i];
        let v = match m.get(&id) {
            Some(b) => *b,
            None => true,
        };
        out.insert(id, v);
        proof {
            let t0 = ids@.take(i as int);
            let t1 = ids@.take(i + 1);
            assert(t1 =~= t0.push(id));
            assert forall|k: u128| t1.contains(k) <==> (t0.contains(k) || k == id) by {
                if t1.contains(k) {
                    let j = choose|j: int| 0 <= j < t1.len() && t1[j] == k;
                    if j < i {
                        assert(t0[j] == k);
                    }
                }
                if t0.contains(k) {
                    let j = choose|j: int| 0 <= j < t0.len() && t0[j] == k;
                    assert(t1[j] == k);
                }
                if k == id {
                    assert(t1[i as int] == k);
                }
            }
            assert(v == spec_is_included(m@, id));
            assert(out@ =~= spec_reinit(m@, t1));
        }
        i = i + 1;
    }
    assert(ids@.take(ids@.len() as int) =~= ids@);
    out
}

/// Whether project `id` is included.
pub fn is_included(m: &HashMap<u128, bool>, id: &u128) -> (r: bool)
    ensures
        r == spec_is_included(m@, *id),
{
    match m.get(id) {
        Some(b) => *b,
        None => true,
    }
}

/// The ids toggled on, each once, in the map's own (unspecified) order.
pub fn included_ids(m: &HashMap<u128, bool>) -> (r: Vec<u128>)
    ensures
        r@.no_duplicates(),
        forall|k: u128| r@.contains(k) <==> (m@.contains_key(k) && m@[k]),
{
    let mut out: Vec<u128> = Vec::new();
    for k in it: m.keys()
        invariant
            it.seq().no_duplicates(),
            it.seq().unref().to_set() == m@.dom(),
            out@.no_duplicates(),
            forall|x: u128|
                out@.contains(x) <==> (exists|j: int|
                    0 <= j < it.index() && *it.seq()[j] == x) && m@.contains_key(x) && m@[x],
    {
        let ghost idx = it.index();
        let ghost seq = it.seq();
        let ghost before = out@;
        assert(seq[idx] == k);
        assert(seq.unref().to_set().contains(*k)) by {
            assert(seq.unref()[idx] == *k);
        }
        let v = match m.get(k) {
            Some(b) => *b,
            None => false,
        };
        assert(m@.contains_key(*k) && v == m@[*k]);
        proof {
            if before.contains(*k) {
                let j = choose|j: int| 0 <= j < idx && *seq[j] == *k;
                assert(seq[j] == seq[idx]);
            }
        }
        if v {
            out.push(*k);
        }
        proof {
            assert(!before.contains(*k));
            assert(out@ == if v { before.push(*k) } else { before });
            assert forall|x: u128|
                out@.contains(x) <==> (exists|j: int| 0 <= j < idx + 1 && *seq[j] == x)
                    && m@.contains_key(x) && m@[x] by {
                assert(before.contains(x) <==> (exists|j: int| 0 <= j < idx && *seq[j] == x)
                    && m@.contains_key(x) && m@[x]);
                if x == *k {
                    assert(*seq[idx] == x);
                    if v {
                        assert(out@[before.len() as int] == x);
                    } else {
                        assert(!out@.contains(x));
                    }
                } else {
                    assert((exists|j: int| 0 <= j < idx + 1 && *seq[j] == x) <==> (exists|j: int|
                        0 <= j < idx && *seq[j] == x)) by {
                        if exists|j: int| 0 <= j < idx + 1 && *seq[j] == x {
                            let j = choose|j: int| 0 <= j < idx + 1 && *seq[j] == x;
                            assert(j != idx);
                        }
                    }
                    assert(out@.contains(x) <==> before.contains(x)) by {
                        if out@.contains(x) {
                            let q = choose|q: int| 0 <= q < out@.len() && out@[q] == x;
                            if v {
                                assert(q < before.len());
                                assert(before[q] == x);
                            }
                        }
                        if before.contains(x) {
                            let q = choose|q: int| 0 <= q < before.len() && before[q] == x;
                            assert(out@[q] == x);
                        }
                    }
                }
            }
        }
    }
    out
}


/// Re-initialising twice from the same projects is the same as once, and a
/// project that stays listed keeps the toggle it had.
pub proof fn lemma_reinit_idempotent(m: Map<u128, bool>, ids: Seq<u128>)
    ensures
        spec_reinit(spec_reinit(m, ids), ids) == spec_reinit(m, ids),
        forall|k: u128| ids.contains(k) && m.contains_key(k) ==> spec_reinit(m, ids)[k] == m[k],
{
    assert(spec_reinit(spec_reinit(m, ids), ids) =~= spec_reinit(m, ids));
}

} // verus!
