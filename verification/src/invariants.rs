//! Deep equivalence invariants a sound batch verifier must satisfy, beyond the
//! base `batch <=> single` check. Each is a differential over the same items,
//! re-arranged:
//!
//! * **order-independence**: the batch boolean must not depend on the order
//!   bundles were added;
//! * **duplicate-consistency**: duplicating bundles must not change agreement;
//! * **sub-batch compositionality**: every prefix sub-batch must agree;
//! * **era-routing / not-fail-open**: under every other era's key both paths
//!   must reject.

use vstd::prelude::*;

use rand::rngs::StdRng;
use rand::seq::SliceRandom;

use crate::batch_verifier::{self, batch_outcome, equivalence_outcome, BatchVerifier};
use crate::era::{CircuitEra, EraKeys};
use crate::orchard_pool::{self, seeded_rng, Orchard, OrchardItem};
use crate::EquivReport;
use orchard::circuit::VerifyingKey;

verus! {

/// A specific invariant that failed, with enough context to reproduce.
#[derive(Debug, Clone, Copy, PartialEq, Eq, Structural)]
pub enum InvariantViolation {
    /// The base batch <=> single check disagreed.
    Equivalence(EquivReport),
    /// Permuting the batch changed the batch outcome.
    OrderDependent { original: bool, permuted: bool },
    /// A batch containing duplicated bundles disagreed with its singles.
    DuplicateInconsistent(EquivReport),
    /// A prefix sub-batch failed batch <=> single.
    SubBatchInconsistent { len: usize, report: EquivReport },
    /// Under the wrong era key the items were not rejected by both paths.
    EraFailOpen { correct: CircuitEra, used: CircuitEra, report: EquivReport },
}

impl InvariantViolation {
    /// Whether this violation is soundness-critical.
    pub open spec fn is_critical_spec(self) -> bool {
        match self {
            InvariantViolation::Equivalence(r) => r is FalseAccept,
            InvariantViolation::DuplicateInconsistent(r) => r is FalseAccept,
            InvariantViolation::SubBatchInconsistent { report, .. } => report is FalseAccept,
            InvariantViolation::EraFailOpen { report, .. } => report != EquivReport::Agree(false),
            InvariantViolation::OrderDependent { .. } => true,
        }
    }

    /// Whether this violation is soundness-critical (a false accept, a
    /// fail-open or order-dependence) as opposed to a liveness-only signal.
    pub fn is_critical(&self) -> (critical: bool)
        ensures
            critical == self.is_critical_spec(),
    {
        match self {
            InvariantViolation::Equivalence(r) => r.is_false_accept(),
            InvariantViolation::DuplicateInconsistent(r) => r.is_false_accept(),
            InvariantViolation::SubBatchInconsistent { report, .. } => report.is_false_accept(),
            InvariantViolation::EraFailOpen { report, .. } => match report {
                EquivReport::Agree(false) => false,
                _ => true,
            },
            InvariantViolation::OrderDependent { .. } => true,
        }
    }
}

/// The seed used for the permutation in [`check_order_invariance`].
pub const PERMUTATION_SEED_MASK: u64 = 0x00d1_00d1_00d1_00d1u64;

/// Shuffle `items` in place with `rng`, via `SliceRandom::shuffle`, which
/// rand documents as shuffling the slice in place: the result is a
/// permutation of the input.
#[verifier::external_body]
fn shuffle_with<T>(items: &mut Vec<T>, rng: &mut StdRng)
    ensures
        final(items)@.to_multiset() == old(items)@.to_multiset(),
{
    items.shuffle(rng);
}

/// Copy a sequence of references.
fn copy_refs<'a, T>(items: &[&'a T]) -> (copy: Vec<&'a T>)
    ensures
        copy@ == items@,
{
    let n = items.len();
    let mut copy: Vec<&T> = Vec::new();
    let mut i: usize = 0;
    while i < n
        invariant
            n == items@.len(),
            i <= n,
            copy@ == items@.take(i as int),
        decreases n - i,
    {
        copy.push(items[i]);
        assert(items@.take(i as int + 1) =~= items@.take(i as int).push(items@[i as int]));
        i = i + 1;
    }
    assert(items@.take(n as int) =~= items@);
    copy
}

/// Batch validation must be order-independent: the batch boolean over the
/// items in their given order must equal the one over a seeded permutation.
/// Needs at least two items; fewer is never a violation.
///
/// For two or more items the result is `Some(OrderDependent)` exactly when
/// the batch outcome over `items` differs from the batch outcome over a
/// permutation of them, both outcomes being ones the batch path may give.
pub fn check_order_invariance(items: &[&OrchardItem], vk: &VerifyingKey, seed: u64) -> (violation: Option<InvariantViolation>)
    ensures
        items@.len() < 2 ==> violation is None,
        items@.len() >= 2 ==> exists|perm: Seq<&OrchardItem>, original: bool, permuted: bool|
            #![trigger batch_outcome::<Orchard>(items@, vk, seed, original), batch_outcome::<Orchard>(perm, vk, seed, permuted)]
            {
                &&& perm.to_multiset() == items@.to_multiset()
                &&& batch_outcome::<Orchard>(items@, vk, seed, original)
                &&& batch_outcome::<Orchard>(perm, vk, seed, permuted)
                &&& violation == if original != permuted {
                    Some(InvariantViolation::OrderDependent { original, permuted })
                } else {
                    None
                }
            },
        violation matches Some(v) ==> v matches InvariantViolation::OrderDependent { original, permuted }
            && original != permuted,
{
    if items.len() < 2 {
        return None;
    }
    let original = orchard_pool::validate_batch(items, vk, seed);
    let mut permuted = copy_refs(items);
    let mut rng = seeded_rng(seed ^ PERMUTATION_SEED_MASK);
    shuffle_with(&mut permuted, &mut rng);
    let permuted_ok = orchard_pool::validate_batch(permuted.as_slice(), vk, seed);
    proof {
        let v1 = choose|verdicts: Seq<bool>|
            #![trigger Orchard::batch_spec(items@, vk, seed, verdicts)]
            verdicts.len() == items@.len() && Orchard::batch_spec(items@, vk, seed, verdicts) && original
                == batch_verifier::all_true(verdicts);
        let v2 = choose|verdicts: Seq<bool>|
            #![trigger Orchard::batch_spec(permuted@, vk, seed, verdicts)]
            verdicts.len() == permuted@.len() && Orchard::batch_spec(permuted@, vk, seed, verdicts) && permuted_ok
                == batch_verifier::all_true(verdicts);
        assert(batch_outcome::<Orchard>(items@, vk, seed, original));
        assert(batch_outcome::<Orchard>(permuted@, vk, seed, permuted_ok));
    }
    if original != permuted_ok {
        Some(InvariantViolation::OrderDependent { original, permuted: permuted_ok })
    } else {
        None
    }
}

/// A batch of duplicated bundles (`[a, b]` becomes `[a, b, a, b]`) must agree
/// with the corresponding singles. An empty group is never a violation.
pub fn check_duplicate_consistency(items: &[&OrchardItem], vk: &VerifyingKey, seed: u64) -> (violation: Option<InvariantViolation>)
    ensures
        items@.len() == 0 ==> violation is None,
        items@.len() > 0 ==> exists|report: EquivReport|
            #![trigger equivalence_outcome::<Orchard>(items@ + items@, vk, seed, report)]
            equivalence_outcome::<Orchard>(items@ + items@, vk, seed, report) && violation == if report.is_disagreement_spec() {
                Some(InvariantViolation::DuplicateInconsistent(report))
            } else {
                None
            },
{
    if items.len() == 0 {
        return None;
    }
    let mut doubled = copy_refs(items);
    let mut second = copy_refs(items);
    doubled.append(&mut second);
    let report = orchard_pool::check_equivalence_refs(doubled.as_slice(), vk, seed);
    assert(doubled@ =~= items@ + items@);
    if report.is_disagreement() {
        Some(InvariantViolation::DuplicateInconsistent(report))
    } else {
        None
    }
}

/// The violations for a sequence of prefix reports, `reports[k]` being the
/// report for the prefix of length `k + 1`: one per disagreeing prefix, in
/// increasing length.
pub open spec fn subbatch_violations(reports: Seq<EquivReport>) -> Seq<InvariantViolation>
    decreases reports.len(),
{
    if reports.len() == 0 {
        seq![]
    } else {
        let head = subbatch_violations(reports.drop_last());
        let r = reports.last();
        if r.is_disagreement_spec() {
            head.push(InvariantViolation::SubBatchInconsistent { len: reports.len() as usize, report: r })
        } else {
            head
        }
    }
}

/// Every proper, non-empty prefix sub-batch must itself satisfy
/// batch <=> single. Reports one violation per disagreeing prefix, in
/// increasing length.
pub fn check_subbatch_consistency(items: &[&OrchardItem], vk: &VerifyingKey, seed: u64) -> (violations: Vec<InvariantViolation>)
    ensures
        forall|k: int|
            0 <= k < violations@.len() ==> (#[trigger] violations@[k] matches InvariantViolation::SubBatchInconsistent {
                len,
                report,
            } && 1 <= len < items@.len() && report.is_disagreement_spec() && equivalence_outcome::<Orchard>(
                items@.take(len as int),
                vk,
                seed,
                report,
            )),
        forall|k1: int, k2: int|
            0 <= k1 < k2 < violations@.len() ==> (#[trigger] violations@[k1])->len < (#[trigger] violations@[k2])->len,
        exists|reports: Seq<EquivReport>|
            #![trigger subbatch_violations(reports)]
            {
                &&& reports.len() == if items@.len() > 0 {
                    items@.len() - 1
                } else {
                    0int
                }
                &&& forall|k: int|
                    0 <= k < reports.len() ==> equivalence_outcome::<Orchard>(
                        items@.take(k + 1),
                        vk,
                        seed,
                        #[trigger] reports[k],
                    )
                &&& violations@ == subbatch_violations(reports)
            },
{
    let mut violations: Vec<InvariantViolation> = Vec::new();
    let n = items.len();
    let mut len: usize = 1;
    let ghost mut reports: Seq<EquivReport> = seq![];
    while len < n
        invariant
            n == items@.len(),
            1 <= len,
            forall|k: int|
                0 <= k < violations@.len() ==> (#[trigger] violations@[k] matches InvariantViolation::SubBatchInconsistent {
                    len: l,
                    report,
                } && 1 <= l < len && l < n && report.is_disagreement_spec() && equivalence_outcome::<Orchard>(
                    items@.take(l as int),
                    vk,
                    seed,
                    report,
                )),
            forall|k1: int, k2: int|
                0 <= k1 < k2 < violations@.len() ==> (#[trigger] violations@[k1])->len < (#[trigger] violations@[k2])->len,
            len <= n || len == 1,
            reports.len() == len - 1,
            forall|k: int|
                0 <= k < reports.len() ==> equivalence_outcome::<Orchard>(
                    items@.take(k + 1),
                    vk,
                    seed,
                    #[trigger] reports[k],
                ),
            violations@ == subbatch_violations(reports),
        decreases n - len,
    {
        let prefix = vstd::slice::slice_subrange(items, 0, len);
        assert(prefix@ =~= items@.take(len as int));
        let report = orchard_pool::check_equivalence_refs(prefix, vk, seed);
        let ghost prev = reports;
        proof {
            reports = reports.push(report);
            assert(reports.drop_last() =~= prev);
        }
        if report.is_disagreement() {
            violations.push(InvariantViolation::SubBatchInconsistent { len, report });
        }
        len = len + 1;
    }
    assert(reports.len() == if items@.len() > 0 {
        items@.len() - 1
    } else {
        0int
    });
    assert(violations@ == subbatch_violations(reports));
    violations
}

/// Era routing / not-fail-open: items of era `correct` must be rejected by
/// both paths under every other era's key. Reports, in era order, each other
/// era whose check was anything but `Agree(false)`.
/// The era at position `i` of [`CircuitEra::ALL`].
pub open spec fn era_at(i: int) -> CircuitEra {
    if i == 0 {
        CircuitEra::PreNu6_2
    } else if i == 1 {
        CircuitEra::Nu6_2
    } else {
        CircuitEra::Nu6_3Onward
    }
}

/// The era-routing violations for the reports under each era in era order
/// (`reports[k]` under `era_at(k)`): one for every era other than `correct`
/// whose report is anything but `Agree(false)`.
pub open spec fn era_violations(correct: CircuitEra, reports: Seq<EquivReport>) -> Seq<InvariantViolation>
    decreases reports.len(),
{
    if reports.len() == 0 {
        seq![]
    } else {
        let head = era_violations(correct, reports.drop_last());
        let used = era_at(reports.len() - 1);
        let r = reports.last();
        if used != correct && r != EquivReport::Agree(false) {
            head.push(InvariantViolation::EraFailOpen { correct, used, report: r })
        } else {
            head
        }
    }
}

pub fn check_era_routing(items: &[&OrchardItem], correct: CircuitEra, keys: &EraKeys, seed: u64) -> (violations: Vec<InvariantViolation>)
    ensures
        violations@.len() <= 2,
        forall|k: int|
            0 <= k < violations@.len() ==> (#[trigger] violations@[k] matches InvariantViolation::EraFailOpen {
                correct: c,
                used,
                report,
            } && c == correct && used != correct && report != EquivReport::Agree(false)
                && equivalence_outcome::<Orchard>(items@, keys.key_spec(used), seed, report)),
        exists|reports: Seq<EquivReport>|
            #![trigger era_violations(correct, reports)]
            {
                &&& reports.len() == 3
                &&& forall|k: int|
                    0 <= k < 3 && era_at(k) != correct ==> equivalence_outcome::<Orchard>(
                        items@,
                        keys.key_spec(era_at(k)),
                        seed,
                        #[trigger] reports[k],
                    )
                &&& violations@ == era_violations(correct, reports)
            },
{
    let mut violations: Vec<InvariantViolation> = Vec::new();
    let eras = CircuitEra::ALL;
    let mut i: usize = 0;
    let ghost mut reports: Seq<EquivReport> = seq![];
    while i < 3
        invariant
            eras == CircuitEra::ALL,
            i <= 3,
            violations@.len() <= i,
            violations@.len() <= 2,
            forall|k: int|
                0 <= k < violations@.len() ==> (#[trigger] violations@[k] matches InvariantViolation::EraFailOpen {
                    correct: c,
                    used,
                    report,
                } && c == correct && used != correct && report != EquivReport::Agree(false)
                    && equivalence_outcome::<Orchard>(items@, keys.key_spec(used), seed, report)),
            (exists|j: int| 0 <= j < i && eras[j] == correct) ==> violations@.len() + 1 <= i,
            reports.len() == i,
            forall|k: int|
                0 <= k < i && era_at(k) != correct ==> equivalence_outcome::<Orchard>(
                    items@,
                    keys.key_spec(era_at(k)),
                    seed,
                    #[trigger] reports[k],
                ),
            violations@ == era_violations(correct, reports),
        decreases 3 - i,
    {
        let used = eras[i];
        assert(used == era_at(i as int));
        let ghost prev = reports;
        if used != correct {
            let report = orchard_pool::check_equivalence_refs(items, keys.key(used), seed);
            proof {
                reports = reports.push(report);
                assert(reports.drop_last() =~= prev);
            }
            match report {
                EquivReport::Agree(false) => {},
                _ => {
                    violations.push(InvariantViolation::EraFailOpen { correct, used, report });
                },
            }
        } else {
            proof {
                reports = reports.push(EquivReport::Agree(false));
                assert(reports.drop_last() =~= prev);
            }
        }
        i = i + 1;
    }
    assert(violations@ == era_violations(correct, reports));
    violations
}

/// What any violation reported for `n` items of era `era` must look like:
/// each names a real disagreement of its kind.
pub open spec fn well_founded_violation(v: InvariantViolation, n: nat, era: CircuitEra) -> bool {
    match v {
        InvariantViolation::Equivalence(r) => r.is_disagreement_spec(),
        InvariantViolation::OrderDependent { original, permuted } => n >= 2 && original != permuted,
        InvariantViolation::DuplicateInconsistent(r) => n > 0 && r.is_disagreement_spec(),
        InvariantViolation::SubBatchInconsistent { len, report } => 1 <= len < n && report.is_disagreement_spec(),
        InvariantViolation::EraFailOpen { correct, used, report } => correct == era && used != era && report
            != EquivReport::Agree(false),
    }
}

/// Run the full invariant sweep over one same-era batch under `era`'s key,
/// returning every violation found: the base check, order-independence,
/// duplicate-consistency, every prefix sub-batch, and era routing.
pub fn deep_check(items: &[&OrchardItem], era: CircuitEra, keys: &EraKeys, seed: u64) -> (violations: Vec<InvariantViolation>)
    ensures
        forall|k: int|
            0 <= k < violations@.len() ==> well_founded_violation(#[trigger] violations@[k], items@.len(), era),
{
    let vk = keys.key(era);
    let mut violations: Vec<InvariantViolation> = Vec::new();

    let base = orchard_pool::check_equivalence_refs(items, vk, seed);
    if base.is_disagreement() {
        violations.push(InvariantViolation::Equivalence(base));
    }
    match check_order_invariance(items, vk, seed) {
        Some(v) => violations.push(v),
        None => {},
    }
    match check_duplicate_consistency(items, vk, seed) {
        Some(v) => violations.push(v),
        None => {},
    }
    assert(forall|k: int|
        0 <= k < violations@.len() ==> well_founded_violation(#[trigger] violations@[k], items@.len(), era));
    let mut sub = check_subbatch_consistency(items, vk, seed);
    assert(forall|k: int| 0 <= k < sub@.len() ==> well_founded_violation(#[trigger] sub@[k], items@.len(), era));
    violations.append(&mut sub);
    let mut routing = check_era_routing(items, era, keys, seed);
    assert(forall|k: int|
        0 <= k < routing@.len() ==> well_founded_violation(#[trigger] routing@[k], items@.len(), era));
    violations.append(&mut routing);
    violations
}

} // verus!
