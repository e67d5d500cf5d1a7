use vstd::multiset::Multiset;
use vstd::prelude::*;

use crate::types::{DistributionPattern, HyetographEntry};

verus! {

/// The zero-based target position of source index `j` among `nt` blocks.
///
/// Source index 0 is the largest increment. `Front` keeps the descending
/// order, `Rear` reverses it, and `Center` is the alternating block method:
/// the largest block lands at `nt / 2`, the next immediately before it, and
/// the rest alternate outward, one step after, one step before. The floor
/// division leaves the peak slightly off-center for odd `nt`; that asymmetry
/// is intentional.
pub open spec fn placement(pattern: DistributionPattern, nt: int, j: int) -> int {
    match pattern {
        DistributionPattern::Front => j,
        DistributionPattern::Rear => nt - 1 - j,
        DistributionPattern::Center => {
            let center = nt / 2;
            if j % 2 == 0 {
                center + j / 2
            } else {
                center - 1 - j / 2
            }
        },
    }
}

/// The source index whose block lands at target position `p`: the inverse of
/// `placement`, as `lemma_placement_bijective` proves.
pub open spec fn placement_inverse(pattern: DistributionPattern, nt: int, p: int) -> int {
    match pattern {
        DistributionPattern::Front => p,
        DistributionPattern::Rear => nt - 1 - p,
        DistributionPattern::Center => {
            let center = nt / 2;
            if p >= center {
                2 * (p - center)
            } else {
                2 * (center - 1 - p) + 1
            }
        },
    }
}

/// Placing source index `j` stays inside `0..nt`, and `placement_inverse`
/// recovers `j` from the target position.
pub proof fn lemma_placement_round_trip(pattern: DistributionPattern, nt: int, j: int)
    requires
        0 <= j < nt,
    ensures
        0 <= placement(pattern, nt, j) < nt,
        placement_inverse(pattern, nt, placement(pattern, nt, j)) == j,
{
    assert(nt == 2 * (nt / 2) + nt % 2);
    assert(j == 2 * (j / 2) + j % 2);
}

/// Every target position in `0..nt` is reached: `placement_inverse` lands in
/// `0..nt` and `placement` carries it back.
pub proof fn lemma_placement_inverse_round_trip(pattern: DistributionPattern, nt: int, p: int)
    requires
        0 <= p < nt,
    ensures
        0 <= placement_inverse(pattern, nt, p) < nt,
        placement(pattern, nt, placement_inverse(pattern, nt, p)) == p,
{
    assert(nt == 2 * (nt / 2) + nt % 2);
}

/// Law: for every pattern and every block count, the placement map is a
/// bijection on `0..nt` — no two source indices collide, and no target
/// position is left unwritten — with `placement_inverse` as its two-sided
/// inverse.
pub proof fn lemma_placement_bijective(pattern: DistributionPattern, nt: int)
    ensures
        forall|j: int|
            0 <= j < nt ==> 0 <= #[trigger] placement(pattern, nt, j) < nt
                && placement_inverse(pattern, nt, placement(pattern, nt, j)) == j,
        forall|p: int|
            0 <= p < nt ==> 0 <= #[trigger] placement_inverse(pattern, nt, p) < nt
                && placement(pattern, nt, placement_inverse(pattern, nt, p)) == p,
{
    assert forall|j: int|
        0 <= j < nt implies 0 <= #[trigger] placement(pattern, nt, j) < nt
            && placement_inverse(pattern, nt, placement(pattern, nt, j)) == j by {
        lemma_placement_round_trip(pattern, nt, j);
    }
    assert forall|p: int|
        0 <= p < nt implies 0 <= #[trigger] placement_inverse(pattern, nt, p) < nt
            && placement(pattern, nt, placement_inverse(pattern, nt, p)) == p by {
        lemma_placement_inverse_round_trip(pattern, nt, p);
    }
}

/// Distinct source indices land on distinct target positions.
pub proof fn lemma_placement_injective(
    pattern: DistributionPattern,
    nt: int,
    j1: int,
    j2: int,
)
    requires
        0 <= j1 < nt,
        0 <= j2 < nt,
        j1 != j2,
    ensures
        placement(pattern, nt, j1) != placement(pattern, nt, j2),
{
    lemma_placement_round_trip(pattern, nt, j1);
    lemma_placement_round_trip(pattern, nt, j2);
}

/// The target position of source block `j`, as executable code.
pub fn target_position(pattern: DistributionPattern, nt: usize, j: usize) -> (pos: usize)
    requires
        j < nt,
    ensures
        pos == placement(pattern, nt as int, j as int),
{
    proof {
        lemma_placement_round_trip(pattern, nt as int, j as int);
    }
    match pattern {
        DistributionPattern::Front => j,
        DistributionPattern::Rear => nt - 1 - j,
        DistributionPattern::Center => {
            let center = nt / 2;
            if j % 2 == 0 {
                center + j / 2
            } else {
                center - 1 - j / 2
            }
        },
    }
}

/// The intensities of a hyetograph, in time order.
pub open spec fn intensities(s: Seq<HyetographEntry>) -> Seq<u64> {
    s.map_values(|e: HyetographEntry| e.intensity)
}

/// A sequence of `n` zero placeholders.
spec fn zero_run(n: nat) -> Seq<u64> {
    Seq::new(n, |i: int| 0u64)
}

/// Scatters the descending increments to their target positions.
fn scatter(increments: &Vec<u64>, pattern: DistributionPattern) -> (arranged: Vec<u64>)
    ensures
        arranged@.len() == increments@.len(),
        forall|j: int|
            0 <= j < increments@.len()
                ==> arranged@[placement(pattern, increments@.len() as int, j)]
                == #[trigger] increments@[j],
        forall|p: int|
            0 <= p < increments@.len() ==> #[trigger] arranged@[p]
                == increments@[placement_inverse(pattern, increments@.len() as int, p)],
        arranged@.to_multiset() == increments@.to_multiset(),
{
    let nt = increments.len();
    let mut arranged: Vec<u64> = Vec::new();
    let mut i: usize = 0;
    while i < nt
        invariant
            i <= nt,
            arranged@.len() == i,
            forall|q: int| 0 <= q < i ==> #[trigger] arranged@[q] == 0u64,
        decreases nt - i,
    {
        arranged.push(0);
        i += 1;
    }
    assert(arranged@ =~= zero_run(nt as nat));
    proof {
        broadcast use vstd::seq_lib::group_to_multiset_ensures;
        broadcast use vstd::multiset::group_multiset_axioms;

        assert(increments@.subrange(0, 0).to_multiset() =~= Multiset::<u64>::empty());
        assert(arranged@.to_multiset() =~= increments@.subrange(0, 0).to_multiset().add(
            zero_run(nt as nat).to_multiset(),
        ));
    }

    let ghost full = increments@;
    let mut j: usize = 0;
    while j < nt
        invariant
            j <= nt,
            increments@ == full,
            full.len() == nt,
            arranged@.len() == nt,
            forall|jj: int|
                0 <= jj < j ==> arranged@[placement(pattern, nt as int, jj)]
                    == #[trigger] full[jj],
            forall|p: int|
                0 <= p < nt ==> #[trigger] arranged@[p] == 0u64
                    || exists|jj: int|
                        0 <= jj < j && #[trigger] placement(pattern, nt as int, jj) == p,
            arranged@.to_multiset() == full.subrange(0, j as int).to_multiset().add(
                zero_run((nt - j) as nat).to_multiset(),
            ),
        decreases nt - j,
    {
        let pos = target_position(pattern, nt, j);
        let ghost prior = arranged@;
        proof {
            lemma_placement_round_trip(pattern, nt as int, j as int);
            assert forall|jj: int|
                0 <= jj < j implies #[trigger] placement(pattern, nt as int, jj)
                    != pos as int by {
                lemma_placement_injective(pattern, nt as int, jj, j as int);
            }
            assert(prior[pos as int] == 0u64);
        }
        arranged.set(pos, increments[j]);
        proof {
            broadcast use vstd::seq_lib::group_to_multiset_ensures;
            broadcast use vstd::multiset::group_multiset_axioms;

            let x = full[j as int];
            assert(arranged@ == prior.update(pos as int, x));
            assert(full.subrange(0, j as int + 1) =~= full.subrange(0, j as int).push(x));
            assert(zero_run((nt - j) as nat) =~= zero_run((nt - j - 1) as nat).push(0u64));
            assert(arranged@.to_multiset() =~= full.subrange(0, j as int + 1).to_multiset()
                .add(zero_run((nt - j - 1) as nat).to_multiset()));
        }
        j += 1;
    }
    proof {
        broadcast use vstd::seq_lib::group_to_multiset_ensures;
        broadcast use vstd::multiset::group_multiset_axioms;

        assert(full.subrange(0, nt as int) =~= full);
        assert(zero_run(0).to_multiset() =~= Multiset::<u64>::empty());
        assert(arranged@.to_multiset() =~= increments@.to_multiset());
        assert forall|p: int|
            0 <= p < nt implies #[trigger] arranged@[p]
                == full[placement_inverse(pattern, nt as int, p)] by {
            lemma_placement_inverse_round_trip(pattern, nt as int, p);
        }
    }
    arranged
}

/// Rearranges the descending increments into time order.
///
/// `increments` holds the per-step rainfall depths, largest first, and
/// `times` the matching time stamps `t, 2t, ..., nt * t` in minutes, both as
/// `f64` bit patterns; computing the stamps is the caller's floating-point
/// work. Entry `p` of the result carries `times[p]` and the increment whose
/// source index the placement map sends to `p`, so the output intensities are
/// exactly a permutation of the input: nothing is altered, only relocated.
pub fn arrange(
    increments: &Vec<u64>,
    pattern: DistributionPattern,
    times: &Vec<u64>,
) -> (out: Vec<HyetographEntry>)
    requires
        times@.len() == increments@.len(),
    ensures
        out@.len() == increments@.len(),
        forall|p: int| 0 <= p < out@.len() ==> #[trigger] out@[p].time_minutes == times@[p],
        forall|j: int|
            0 <= j < increments@.len()
                ==> out@[placement(pattern, increments@.len() as int, j)].intensity
                == #[trigger] increments@[j],
        forall|p: int|
            0 <= p < out@.len() ==> #[trigger] out@[p].intensity
                == increments@[placement_inverse(pattern, increments@.len() as int, p)],
        pattern == DistributionPattern::Front ==> forall|i: int|
            0 <= i < out@.len() ==> #[trigger] out@[i].intensity == increments@[i],
        pattern == DistributionPattern::Rear ==> forall|i: int|
            0 <= i < out@.len() ==> #[trigger] out@[i].intensity
                == increments@[out@.len() - 1 - i],
        intensities(out@).to_multiset() == increments@.to_multiset(),
{
    let nt = increments.len();
    let arranged = scatter(increments, pattern);
    let mut out: Vec<HyetographEntry> = Vec::new();
    let mut p: usize = 0;
    while p < nt
        invariant
            p <= nt,
            nt == increments@.len(),
            times@.len() == nt,
            arranged@.len() == nt,
            out@.len() == p,
            forall|q: int| 0 <= q < p ==> #[trigger] out@[q].time_minutes == times@[q],
            forall|q: int| 0 <= q < p ==> #[trigger] out@[q].intensity == arranged@[q],
        decreases nt - p,
    {
        out.push(HyetographEntry { time_minutes: times[p], intensity: arranged[p] });
        p += 1;
    }
    proof {
        assert forall|q: int| 0 <= q < out@.len() implies #[trigger] intensities(out@)[q]
            == arranged@[q] by {
            assert(out@[q].intensity == arranged@[q]);
        }
        assert(intensities(out@) =~= arranged@);
        assert forall|j: int|
            0 <= j < increments@.len()
                implies out@[placement(pattern, increments@.len() as int, j)].intensity
                == #[trigger] increments@[j] by {
            lemma_placement_round_trip(pattern, increments@.len() as int, j);
        }
    }
    out
}

} // verus!
