//! Name-keyed stores with overwrite semantics: the shared mesh cache and
//! the content of the texture command stream.
//!
//! Both are association lists whose meaning is the map obtained by applying
//! the entries in order, each entry overwriting earlier ones with its name
//! (last writer wins).  Re-applying the same batch of entries leaves that
//! map unchanged, which is what makes re-importing a model idempotent.

use vstd::prelude::*;

verus! {

/// The map described by an association list, later entries overwriting
/// earlier ones.
pub open spec fn spec_assoc_map<V>(s: Seq<(Seq<char>, V)>) -> Map<Seq<char>, V>
    decreases s.len(),
{
    if s.len() == 0 {
        Map::empty()
    } else {
        spec_assoc_map(s.drop_last()).insert(s.last().0, s.last().1)
    }
}

/// The last value a batch assigns to `k`, if any.
pub open spec fn spec_batch_last<V>(b: Seq<(Seq<char>, V)>, k: Seq<char>) -> Option<V>
    decreases b.len(),
{
    if b.len() == 0 {
        None
    } else if b.last().0 == k {
        Some(b.last().1)
    } else {
        spec_batch_last(b.drop_last(), k)
    }
}

/// A batch applied on top of a map, entry by entry.
pub open spec fn spec_apply_batch<V>(
    m: Map<Seq<char>, V>,
    b: Seq<(Seq<char>, V)>,
) -> Map<Seq<char>, V>
    decreases b.len(),
{
    if b.len() == 0 {
        m
    } else {
        spec_apply_batch(m, b.drop_last()).insert(b.last().0, b.last().1)
    }
}

/// What applying a batch does, key by key: a key the batch assigns ends at
/// the batch's last value for it; any other key keeps its old binding.
pub proof fn lemma_apply_batch_pointwise<V>(m: Map<Seq<char>, V>, b: Seq<(Seq<char>, V)>, k: Seq<char>)
    ensures
        match spec_batch_last(b, k) {
            Some(v) => spec_apply_batch(m, b).contains_key(k) && spec_apply_batch(m, b)[k] == v,
            None => {
                &&& spec_apply_batch(m, b).contains_key(k) == m.contains_key(k)
                &&& m.contains_key(k) ==> spec_apply_batch(m, b)[k] == m[k]
            },
        },
    decreases b.len(),
{
    if b.len() > 0 {
        lemma_apply_batch_pointwise(m, b.drop_last(), k);
    }
}

/// Applying the same batch twice gives the same map as applying it once.
pub proof fn lemma_apply_batch_idempotent<V>(m: Map<Seq<char>, V>, b: Seq<(Seq<char>, V)>)
    ensures
        spec_apply_batch(spec_apply_batch(m, b), b) =~= spec_apply_batch(m, b),
{
    let once = spec_apply_batch(m, b);
    let twice = spec_apply_batch(once, b);
    assert forall|k: Seq<char>|
        #![trigger twice.contains_key(k)]
        #![trigger once.contains_key(k)]
        twice.contains_key(k) == once.contains_key(k) && (once.contains_key(k) ==> twice[k]
            == once[k]) by {
        lemma_apply_batch_pointwise(m, b, k);
        lemma_apply_batch_pointwise(once, b, k);
    }
}

/// Concatenation applies the second list as a batch on top of the first.
pub proof fn lemma_assoc_map_concat<V>(a: Seq<(Seq<char>, V)>, b: Seq<(Seq<char>, V)>)
    ensures
        spec_assoc_map(a + b) == spec_apply_batch(spec_assoc_map(a), b),
    decreases b.len(),
{
    if b.len() == 0 {
        assert(a + b =~= a);
    } else {
        lemma_assoc_map_concat(a, b.drop_last());
        assert((a + b).drop_last() =~= a + b.drop_last());
    }
}

} // verus!
