//! Prefix filtering over assigned hint labels.

use vstd::prelude::*;
use crate::hint::Hint;
use crate::text::str_starts_with;

verus! {

/// The label of `h` starts with `prefix`.
pub open spec fn label_matches(h: Hint, prefix: Seq<char>) -> bool {
    prefix.is_prefix_of(h.label@)
}

/// Positions, in increasing order, of the hints whose label starts with `prefix`.
pub open spec fn matching_indices(hints: Seq<Hint>, prefix: Seq<char>) -> Seq<int>
    decreases hints.len(),
{
    if hints.len() == 0 {
        Seq::empty()
    } else {
        let rest = matching_indices(hints.drop_last(), prefix);
        if label_matches(hints.last(), prefix) {
            rest.push(hints.len() - 1)
        } else {
            rest
        }
    }
}

/// Characterization of [`matching_indices`]: exactly the matching positions, increasing.
pub proof fn lemma_matching_indices(hints: Seq<Hint>, prefix: Seq<char>)
    ensures
        ({
            let m = matching_indices(hints, prefix);
            &&& m.len() <= hints.len()
            &&& forall|k: int| 0 <= k < m.len() ==> 0 <= #[trigger] m[k] < hints.len() && label_matches(hints[m[k]], prefix)
            &&& forall|k1: int, k2: int| 0 <= k1 < k2 < m.len() ==> #[trigger] m[k1] < #[trigger] m[k2]
            &&& forall|i: int| 0 <= i < hints.len() && label_matches(#[trigger] hints[i], prefix) ==> m.contains(i)
        }),
    decreases hints.len(),
{
    if hints.len() > 0 {
        let init = hints.drop_last();
        lemma_matching_indices(init, prefix);
        let m = matching_indices(hints, prefix);
        let r = matching_indices(init, prefix);
        assert forall|i: int| 0 <= i < hints.len() && label_matches(#[trigger] hints[i], prefix) implies m.contains(i) by {
            if i < hints.len() - 1 {
                assert(init[i] == hints[i]);
                let k = choose|k: int| 0 <= k < r.len() && r[k] == i;
                assert(m[k] == i);
            } else {
                assert(m[m.len() - 1] == i);
            }
        }
        assert forall|k: int| 0 <= k < m.len() implies 0 <= #[trigger] m[k] < hints.len() && label_matches(hints[m[k]], prefix) by {
            if k < r.len() {
                assert(m[k] == r[k]);
                assert(init[r[k]] == hints[r[k]]);
            }
        }
    }
}

/// Result of narrowing the visible hint set by typed prefix.
#[derive(Debug)]
pub enum FilterResult<'a> {
    /// No hint label starts with the prefix: the session should end.
    NoMatch,
    /// Still ambiguous: render only these hints.
    Many(Vec<&'a Hint>),
    /// Exactly one match: invoke it.
    Single(&'a Hint),
}

/// Positions of the hints whose label starts with `prefix`, in order.
pub fn matching_positions(hints: &[Hint], prefix: &str) -> (v: Vec<usize>)
    ensures
        v@.len() == matching_indices(hints@, prefix@).len(),
        forall|k: int| 0 <= k < v@.len() ==> v@[k] as int == #[trigger] matching_indices(hints@, prefix@)[k],
{
    let mut v: Vec<usize> = Vec::new();
    let mut i: usize = 0;
    while i < hints.len()
        invariant
            i <= hints@.len(),
            v@.len() == matching_indices(hints@.take(i as int), prefix@).len(),
            forall|k: int| 0 <= k < v@.len() ==> v@[k] as int == #[trigger] matching_indices(hints@.take(i as int), prefix@)[k],
        decreases hints@.len() - i,
    {
        assert(hints@.take((i + 1) as int).drop_last() =~= hints@.take(i as int));
        if str_starts_with(hints[i].label.as_str(), prefix) {
            v.push(i);
        }
        i += 1;
    }
    assert(hints@.take(i as int) =~= hints@);
    v
}

/// Keeps hints whose label starts with `prefix` (case-sensitive); an empty prefix matches every hint.
pub fn filter<'a>(hints: &'a [Hint], prefix: &str) -> (r: FilterResult<'a>)
    ensures
        ({
            let m = matching_indices(hints@, prefix@);
            &&& (r is NoMatch <==> m.len() == 0)
            &&& (m.len() == 1 ==> (r matches FilterResult::Single(h) && *h == hints@[m[0]]))
            &&& (m.len() >= 2 ==> (r matches FilterResult::Many(v) && v@.len() == m.len()
                && forall|k: int| 0 <= k < m.len() ==> *(#[trigger] v@[k]) == hints@[m[k]]))
        }),
{
    let pos = matching_positions(hints, prefix);
    proof {
        lemma_matching_indices(hints@, prefix@);
    }
    if pos.len() == 0 {
        return FilterResult::NoMatch;
    }
    if pos.len() == 1 {
        return FilterResult::Single(&hints[pos[0]]);
    }
    let mut out: Vec<&'a Hint> = Vec::new();
    let mut k: usize = 0;
    while k < pos.len()
        invariant
            pos@.len() == matching_indices(hints@, prefix@).len(),
            forall|j: int| 0 <= j < pos@.len() ==> pos@[j] as int == #[trigger] matching_indices(hints@, prefix@)[j],
            forall|j: int| 0 <= j < pos@.len() ==> 0 <= #[trigger] matching_indices(hints@, prefix@)[j] < hints@.len(),
            k <= pos@.len(),
            out@.len() == k,
            forall|j: int| 0 <= j < k ==> *(#[trigger] out@[j]) == hints@[matching_indices(hints@, prefix@)[j]],
        decreases pos@.len() - k,
    {
        assert(pos@[k as int] as int == matching_indices(hints@, prefix@)[k as int]);
        out.push(&hints[pos[k]]);
        k += 1;
    }
    FilterResult::Many(out)
}

} // verus!
