//! Assign vimium-style labels to ranked raw hints: the best-ranked hints get the shortest labels.

use vstd::prelude::*;
use crate::hint::{Hint, RawHint};
use crate::label::{generate_labels, vimium_partition, label_at, label_or_empty, label_long, label_short, lemma_label_len, lemma_partition_sizes, max_nat, label_digits, long_width};

verus! {

/// How many hints are planned: all of them, or at most `max_planned` when it is non-zero.
pub open spec fn planned_count(n: nat, max_planned: nat) -> nat {
    if max_planned == 0 || max_planned > n {
        n
    } else {
        max_planned
    }
}

/// Which of the generated labels goes to rank `r`: the short labels (which come last
/// among the generated ones) go to the first ranks, then the full-length ones in order.
pub open spec fn rank_label_index(count: nat, b: nat, r: nat) -> nat {
    if r < label_short(count, b) {
        label_long(count, b) + r
    } else {
        (r - label_short(count, b)) as nat
    }
}

/// Labels `ranked` (best first; the caller ranks by priority) and keeps the top
/// `max_planned` of them (`0` = no cap).
pub fn plan(ranked: Vec<RawHint>, alphabet: &[char], max_planned: usize) -> (hints: Vec<Hint>)
    requires
        ({
            let cap = planned_count(ranked@.len(), max_planned as nat);
            &&& cap >= 2 ==> alphabet@.len() >= 2
            &&& cap * alphabet@.len() <= usize::MAX
        }),
    ensures
        ({
            let cap = planned_count(ranked@.len(), max_planned as nat);
            let b = alphabet@.len();
            &&& hints@.len() == cap
            &&& forall|r: int| 0 <= r < cap ==> (#[trigger] hints@[r]).raw == ranked@[r]
                && hints@[r].label@ == label_or_empty(alphabet@, cap, rank_label_index(cap, b, r as nat))
            &&& alphabet@.no_duplicates() ==> forall|r1: int, r2: int| 0 <= r1 < cap && 0 <= r2 < cap && r1 != r2
                ==> !(#[trigger] hints@[r1]).label@.is_prefix_of((#[trigger] hints@[r2]).label@)
            &&& forall|r1: int, r2: int| 0 <= r1 < r2 < cap
                ==> (#[trigger] hints@[r1]).label@.len() <= (#[trigger] hints@[r2]).label@.len()
        }),
{
    let n_all = ranked.len();
    let mut out: Vec<Hint> = Vec::new();
    if n_all == 0 {
        return out;
    }
    let cap = if max_planned == 0 || max_planned > n_all { n_all } else { max_planned };
    if alphabet.len() == 0 {
        out.push(Hint { raw: ranked[0].clone(), label: String::new() });
        return out;
    }
    let labels = generate_labels(cap, alphabet);
    let (_digits, long_c, short_c) = vimium_partition(cap, alphabet.len());
    let ghost a = alphabet@;
    let ghost b = a.len();
    assert(max_nat(b, 1) == b);
    proof {
        lemma_partition_sizes(cap as nat, b);
    }
    let mut rank: usize = 0;
    while rank < cap
        invariant
            cap == planned_count(ranked@.len(), max_planned as nat),
            cap <= ranked@.len(),
            cap >= 1,
            b == alphabet@.len(),
            b >= 1,
            a == alphabet@,
            labels@.len() == cap,
            forall|i: int| 0 <= i < cap ==> #[trigger] labels@[i]@ == label_at(a, cap as nat, i as nat),
            long_c == label_long(cap as nat, b),
            short_c == label_short(cap as nat, b),
            long_c + short_c == cap,
            rank <= cap,
            out@.len() == rank,
            forall|r: int| 0 <= r < rank ==> (#[trigger] out@[r]).raw == ranked@[r]
                && out@[r].label@ == label_at(a, cap as nat, rank_label_index(cap as nat, b, r as nat)),
        decreases cap - rank,
    {
        let idx = if rank < short_c { long_c + rank } else { rank - short_c };
        let h = Hint { raw: ranked[rank].clone(), label: labels[idx].clone() };
        out.push(h);
        rank += 1;
    }
    proof {
        let cn = cap as nat;
        assert forall|r1: int, r2: int| 0 <= r1 < cap && 0 <= r2 < cap && r1 != r2 && a.no_duplicates()
            implies !(#[trigger] out@[r1]).label@.is_prefix_of((#[trigger] out@[r2]).label@) by {
            let i1 = rank_label_index(cn, b, r1 as nat) as int;
            let i2 = rank_label_index(cn, b, r2 as nat) as int;
            assert(labels@[i1]@ == out@[r1].label@);
            assert(labels@[i2]@ == out@[r2].label@);
        }
        assert forall|r1: int, r2: int| 0 <= r1 < r2 < cap
            implies (#[trigger] out@[r1]).label@.len() <= (#[trigger] out@[r2]).label@.len() by {
            let i1 = rank_label_index(cn, b, r1 as nat);
            let i2 = rank_label_index(cn, b, r2 as nat);
            lemma_partition_sizes(cn, b);
            lemma_label_len(a, cn, i1);
            lemma_label_len(a, cn, i2);
            assert(labels@[i1 as int]@ == out@[r1].label@);
            assert(labels@[i2 as int]@ == out@[r2].label@);
            assert(i1 < cn && i2 < cn);
            if r1 < short_c {
                assert(i1 >= long_c);
                assert(out@[r1].label@.len() == (label_digits(cn, b) - 1) as nat);
                assert((label_digits(cn, b) - 1) as nat <= long_width(cn, b));
                if i2 < long_c {
                    assert(out@[r2].label@.len() == long_width(cn, b));
                } else {
                    assert(out@[r2].label@.len() == (label_digits(cn, b) - 1) as nat);
                }
            } else {
                assert(i1 < long_c && i2 < long_c);
                assert(out@[r1].label@.len() == long_width(cn, b));
                assert(out@[r2].label@.len() == long_width(cn, b));
            }
        }
    }
    out
}

} // verus!
