//! The mathematical reading of the id-indexed tables the engine stores as
//! plain vectors of pairs: an association list read as a `Map`, and an id
//! stack read as a `Set`. Later entries override earlier ones, so a list with
//! pairwise distinct keys reads back exactly entry by entry.

use vstd::prelude::*;

use crate::gate::{GateKind, GateView};
use crate::signal::Signal;

verus! {

/// The map described by a gate association list; later entries override.
pub open spec fn gate_map(s: Seq<(String, GateKind)>) -> Map<Seq<char>, GateView>
    decreases s.len(),
{
    if s.len() == 0 {
        Map::empty()
    } else {
        gate_map(s.drop_last()).insert(s.last().0@, s.last().1@)
    }
}

/// Whether some entry of a gate association list carries key `k`.
pub open spec fn gate_has_key(s: Seq<(String, GateKind)>, k: Seq<char>) -> bool {
    exists|i: int| 0 <= i < s.len() && s[i].0@ == k
}

/// Pairwise distinct keys.
pub open spec fn gate_keys_unique(s: Seq<(String, GateKind)>) -> bool {
    forall|i: int, j: int| 0 <= i < j < s.len() ==> s[i].0@ != s[j].0@
}

pub proof fn lemma_gate_map_contains(s: Seq<(String, GateKind)>)
    ensures
        forall|k: Seq<char>| #[trigger] gate_map(s).contains_key(k) <==> gate_has_key(s, k),
    decreases s.len(),
{
    if s.len() == 0 {
    } else {
        let t = s.drop_last();
        lemma_gate_map_contains(t);
        assert forall|k: Seq<char>| #[trigger] gate_map(s).contains_key(k) implies gate_has_key(
            s,
            k,
        ) by {
            if k == s.last().0@ {
                assert(s[s.len() - 1].0@ == k);
            } else {
                assert(gate_map(t).contains_key(k));
                assert(gate_has_key(t, k));
                let i = choose|i: int| 0 <= i < t.len() && t[i].0@ == k;
                assert(t[i] == s[i]);
                assert(s[i].0@ == k);
            }
        }
        assert forall|k: Seq<char>| gate_has_key(s, k) implies #[trigger] gate_map(
            s,
        ).contains_key(k) by {
            let i = choose|i: int| 0 <= i < s.len() && s[i].0@ == k;
            if i < s.len() - 1 {
                assert(t[i] == s[i]);
                assert(t[i].0@ == k);
                assert(gate_has_key(t, k));
                assert(gate_map(t).contains_key(k));
            } else {
                assert(k == s.last().0@);
            }
        }
    }
}

pub proof fn lemma_gate_map_get(s: Seq<(String, GateKind)>, i: int)
    requires
        0 <= i < s.len(),
        forall|j: int| i < j < s.len() ==> s[j].0@ != s[i].0@,
    ensures
        gate_map(s).contains_key(s[i].0@),
        gate_map(s)[s[i].0@] == s[i].1@,
    decreases s.len(),
{
    if i == s.len() - 1 {
    } else {
        let t = s.drop_last();
        lemma_gate_map_get(t, i);
        assert(s[s.len() - 1].0@ != s[i].0@);
    }
}

pub proof fn lemma_gate_map_finite(s: Seq<(String, GateKind)>)
    ensures
        gate_map(s).dom().finite(),
    decreases s.len(),
{
    if s.len() == 0 {
    } else {
        lemma_gate_map_finite(s.drop_last());
    }
}

pub proof fn lemma_gate_map_push(s: Seq<(String, GateKind)>, p: (String, GateKind))
    ensures
        gate_map(s.push(p)) == gate_map(s).insert(p.0@, p.1@),
{
    assert(s.push(p).drop_last() =~= s);
    assert(s.push(p).last() == p);
}

pub proof fn lemma_gate_map_update(s: Seq<(String, GateKind)>, i: int, p: (String, GateKind))
    requires
        gate_keys_unique(s),
        0 <= i < s.len(),
        p.0@ == s[i].0@,
    ensures
        gate_map(s.update(i, p)) == gate_map(s).insert(p.0@, p.1@),
    decreases s.len(),
{
    let u = s.update(i, p);
    if i == s.len() - 1 {
        assert(u.drop_last() =~= s.drop_last());
        assert(u.last() == p);
    } else {
        let t = s.drop_last();
        assert(t.update(i, p)[i] == p);
        lemma_gate_map_update(t, i, p);
        assert(u.drop_last() =~= t.update(i, p));
        assert(u.last() == s.last());
        assert(s.last().0@ != p.0@);
        assert(gate_map(u) == gate_map(t).insert(p.0@, p.1@).insert(s.last().0@, s.last().1@));
        assert(gate_map(t).insert(p.0@, p.1@).insert(s.last().0@, s.last().1@) =~= gate_map(
            t,
        ).insert(s.last().0@, s.last().1@).insert(p.0@, p.1@));
    }
}

pub proof fn lemma_gate_map_remove(s: Seq<(String, GateKind)>, i: int)
    requires
        gate_keys_unique(s),
        0 <= i < s.len(),
    ensures
        gate_map(s.remove(i)) == gate_map(s).remove(s[i].0@),
    decreases s.len(),
{
    let u = s.remove(i);
    if i == s.len() - 1 {
        assert(u =~= s.drop_last());
        lemma_gate_map_contains(s.drop_last());
        assert forall|j: int| 0 <= j < s.len() - 1 implies s.drop_last()[j].0@ != s[i].0@ by {
            assert(s[j].0@ != s[i].0@);
        }
        assert(!gate_has_key(s.drop_last(), s[i].0@));
        assert(!gate_map(s.drop_last()).contains_key(s[i].0@));
        assert(gate_map(s).remove(s[i].0@) =~= gate_map(s.drop_last()));
    } else {
        let t = s.drop_last();
        lemma_gate_map_remove(t, i);
        assert(u.drop_last() =~= t.remove(i));
        assert(u.last() == s.last());
        assert(gate_map(u) == gate_map(t).remove(s[i].0@).insert(s.last().0@, s.last().1@));
        assert(s.last().0@ != s[i].0@);
        assert(gate_map(t).remove(s[i].0@).insert(s.last().0@, s.last().1@) =~= gate_map(t).insert(
            s.last().0@,
            s.last().1@,
        ).remove(s[i].0@));
    }
}

/// The map described by a memo association list; later entries override.
pub open spec fn memo_map(s: Seq<(String, Signal)>) -> Map<Seq<char>, Signal>
    decreases s.len(),
{
    if s.len() == 0 {
        Map::empty()
    } else {
        memo_map(s.drop_last()).insert(s.last().0@, s.last().1)
    }
}

/// Whether some entry of a memo association list carries key `k`.
pub open spec fn memo_has_key(s: Seq<(String, Signal)>, k: Seq<char>) -> bool {
    exists|i: int| 0 <= i < s.len() && s[i].0@ == k
}

/// Pairwise distinct keys.
pub open spec fn memo_keys_unique(s: Seq<(String, Signal)>) -> bool {
    forall|i: int, j: int| 0 <= i < j < s.len() ==> s[i].0@ != s[j].0@
}

pub proof fn lemma_memo_map_contains(s: Seq<(String, Signal)>)
    ensures
        forall|k: Seq<char>| #[trigger] memo_map(s).contains_key(k) <==> memo_has_key(s, k),
    decreases s.len(),
{
    if s.len() == 0 {
    } else {
        let t = s.drop_last();
        lemma_memo_map_contains(t);
        assert forall|k: Seq<char>| #[trigger] memo_map(s).contains_key(k) implies memo_has_key(
            s,
            k,
        ) by {
            if k == s.last().0@ {
                assert(s[s.len() - 1].0@ == k);
            } else {
                assert(memo_map(t).contains_key(k));
                assert(memo_has_key(t, k));
                let i = choose|i: int| 0 <= i < t.len() && t[i].0@ == k;
                assert(t[i] == s[i]);
                assert(s[i].0@ == k);
            }
        }
        assert forall|k: Seq<char>| memo_has_key(s, k) implies #[trigger] memo_map(
            s,
        ).contains_key(k) by {
            let i = choose|i: int| 0 <= i < s.len() && s[i].0@ == k;
            if i < s.len() - 1 {
                assert(t[i] == s[i]);
                assert(t[i].0@ == k);
                assert(memo_has_key(t, k));
                assert(memo_map(t).contains_key(k));
            } else {
                assert(k == s.last().0@);
            }
        }
    }
}

pub proof fn lemma_memo_map_get(s: Seq<(String, Signal)>, i: int)
    requires
        0 <= i < s.len(),
        forall|j: int| i < j < s.len() ==> s[j].0@ != s[i].0@,
    ensures
        memo_map(s).contains_key(s[i].0@),
        memo_map(s)[s[i].0@] == s[i].1,
    decreases s.len(),
{
    if i == s.len() - 1 {
    } else {
        lemma_memo_map_get(s.drop_last(), i);
        assert(s[s.len() - 1].0@ != s[i].0@);
    }
}

pub proof fn lemma_memo_map_push(s: Seq<(String, Signal)>, p: (String, Signal))
    ensures
        memo_map(s.push(p)) == memo_map(s).insert(p.0@, p.1),
{
    assert(s.push(p).drop_last() =~= s);
    assert(s.push(p).last() == p);
}

/// The set of ids an id stack holds.
pub open spec fn ids_set(s: Seq<String>) -> Set<Seq<char>>
    decreases s.len(),
{
    if s.len() == 0 {
        Set::empty()
    } else {
        ids_set(s.drop_last()).insert(s.last()@)
    }
}

pub proof fn lemma_ids_set_contains(s: Seq<String>)
    ensures
        forall|k: Seq<char>|
            #[trigger] ids_set(s).contains(k) <==> exists|i: int| 0 <= i < s.len() && s[i]@ == k,
    decreases s.len(),
{
    if s.len() == 0 {
    } else {
        let t = s.drop_last();
        lemma_ids_set_contains(t);
        assert forall|k: Seq<char>| #[trigger] ids_set(s).contains(k) implies exists|i: int|
            0 <= i < s.len() && s[i]@ == k by {
            if k == s.last()@ {
                assert(s[s.len() - 1]@ == k);
            } else {
                assert(ids_set(t).contains(k));
                let i = choose|i: int| 0 <= i < t.len() && t[i]@ == k;
                assert(t[i] == s[i]);
                assert(s[i]@ == k);
            }
        }
        assert forall|k: Seq<char>| exists|i: int| 0 <= i < s.len() && s[i]@ == k implies #[trigger]
            ids_set(s).contains(k) by {
            let i = choose|i: int| 0 <= i < s.len() && s[i]@ == k;
            if i < s.len() - 1 {
                assert(t[i] == s[i]);
                assert(t[i]@ == k);
                assert(ids_set(t).contains(k));
            } else {
                assert(k == s.last()@);
            }
        }
    }
}

pub proof fn lemma_ids_set_push(s: Seq<String>, x: String)
    ensures
        ids_set(s.push(x)) == ids_set(s).insert(x@),
{
    assert(s.push(x).drop_last() =~= s);
    assert(s.push(x).last() == x);
}

pub proof fn lemma_ids_set_finite(s: Seq<String>)
    ensures
        ids_set(s).finite(),
    decreases s.len(),
{
    if s.len() == 0 {
    } else {
        lemma_ids_set_finite(s.drop_last());
    }
}

} // verus!
