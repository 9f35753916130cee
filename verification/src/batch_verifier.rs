//! The pool-independent core of the equivalence oracle.
//!
//! Every batch verifier is expressed through [`BatchVerifier`]: what an item is,
//! what key material verifies it, and how its batch path, its single path and
//! (where one exists) an independent direct path are driven. Everything else —
//! running both paths under one seed, classifying the pair of results, and the
//! per-item and strategy-level reports — is written once, here.
//!
//! The verification paths themselves run real cryptography, so their verdicts
//! are described relationally: each verifier states, through its spec
//! predicates, which verdicts its paths may return. The classification logic
//! built on top is then proved for every verdict those predicates admit.

use vstd::prelude::*;

use crate::EquivReport;

verus! {

/// One of the production batch verifiers, expressed as the three things that
/// differ between pools: the item, the key material, and how each path runs.
pub trait BatchVerifier {
    /// One verification item, whatever the batch API consumes.
    type Item;

    /// Key material and parameters the paths need (`()` for self-keyed items).
    type Context;

    /// The verifier's name, as reports give it.
    const NAME: &'static str;

    /// Which per-item verdicts the batch path may return for `items`; by
    /// default, any.
    open spec fn batch_spec(items: Seq<&Self::Item>, ctx: &Self::Context, seed: u64, verdicts: Seq<bool>) -> bool {
        true
    }

    /// Which verdict the single path may return for `item`; by default, any.
    open spec fn single_spec(item: &Self::Item, ctx: &Self::Context, seed: u64, verdict: bool) -> bool {
        true
    }

    /// Which verdict the independent direct path may return for `item`; by
    /// default, any.
    open spec fn independent_spec(item: &Self::Item, ctx: &Self::Context, verdict: bool) -> bool {
        true
    }

    /// **Batch path**: all items aggregated into one validator and validated
    /// once, returning one verdict per item, in input order.
    fn validate_batch(items: &[&Self::Item], ctx: &Self::Context, seed: u64) -> (verdicts: Vec<bool>)
        ensures
            verdicts@.len() == items@.len(),
            Self::batch_spec(items@, ctx, seed, verdicts@),
    ;

    /// **Single path**: one item verified alone, as the pool's production
    /// single verification does it.
    fn validate_one(item: &Self::Item, ctx: &Self::Context, seed: u64) -> (verdict: bool)
        ensures
            Self::single_spec(item, ctx, seed, verdict),
    ;

    /// Whether the pool offers an independent direct path for `item`; by
    /// default, not.
    open spec fn has_independent_path(item: &Self::Item, ctx: &Self::Context) -> bool {
        false
    }

    /// **Independent path**: the same verdict reached by direct per-item
    /// verification rather than a randomised linear combination. `None`
    /// exactly when the pool exposes no such path (a pool without one
    /// returns `None`).
    fn validate_one_independent(item: &Self::Item, ctx: &Self::Context) -> (verdict: Option<bool>)
        ensures
            verdict is Some <==> Self::has_independent_path(item, ctx),
            verdict matches Some(v) ==> Self::independent_spec(item, ctx, v),
    ;

    /// What this item counts as against a batch's size limit: at least one.
    /// The default is one per item; a pool whose middleware weighs items
    /// differently overrides it.
    fn item_weight(item: &Self::Item) -> (weight: usize)
        ensures
            weight >= 1,
        default_ensures
            weight == 1,
    {
        1
    }
}

/// The classification of a `(batch, single)` verdict pair.
pub open spec fn classify_spec(batch_ok: bool, single_all: bool) -> EquivReport {
    if batch_ok == single_all {
        EquivReport::Agree(batch_ok)
    } else if batch_ok {
        EquivReport::FalseAccept
    } else {
        EquivReport::FalseReject
    }
}

/// Whether every element of a verdict sequence accepts.
pub open spec fn all_true(verdicts: Seq<bool>) -> bool {
    forall|i: int| 0 <= i < verdicts.len() ==> #[trigger] verdicts[i]
}

/// The four-way classification of a `(batch, single)` result pair.
///
/// Batch-accepts-what-single-rejects is the soundness failure; the reverse is
/// a liveness signal.
pub fn classify(batch_ok: bool, single_all: bool) -> (report: EquivReport)
    ensures
        report == classify_spec(batch_ok, single_all),
{
    match (batch_ok, single_all) {
        (true, true) => EquivReport::Agree(true),
        (false, false) => EquivReport::Agree(false),
        (true, false) => EquivReport::FalseAccept,
        (false, true) => EquivReport::FalseReject,
    }
}

/// `all_true` is the outcome of the batch path: some verdict sequence the
/// batch path may return for `items` has exactly this conjunction.
pub open spec fn batch_outcome<V: BatchVerifier>(
    items: Seq<&V::Item>,
    ctx: &V::Context,
    seed: u64,
    batch_ok: bool,
) -> bool {
    exists|verdicts: Seq<bool>|
        #![trigger V::batch_spec(items, ctx, seed, verdicts)]
        verdicts.len() == items.len() && V::batch_spec(items, ctx, seed, verdicts) && batch_ok
            == all_true(verdicts)
}

/// `single_all` is an outcome of running the single path over `items` in
/// order and stopping at the first reject: `true` only if every item's single
/// path may accept, `false` only if some item's single path may reject.
pub open spec fn singles_outcome<V: BatchVerifier>(
    items: Seq<&V::Item>,
    ctx: &V::Context,
    seed: u64,
    single_all: bool,
) -> bool {
    if single_all {
        forall|i: int| 0 <= i < items.len() ==> #[trigger] V::single_spec(items[i], ctx, seed, true)
    } else {
        exists|i: int| 0 <= i < items.len() && #[trigger] V::single_spec(items[i], ctx, seed, false)
    }
}

/// `report` is a layer-1 report the verifier may produce for `items`: the
/// classification of a batch-path outcome against a single-path outcome.
pub open spec fn equivalence_outcome<V: BatchVerifier>(
    items: Seq<&V::Item>,
    ctx: &V::Context,
    seed: u64,
    report: EquivReport,
) -> bool {
    exists|batch_ok: bool, single_all: bool|
        batch_outcome::<V>(items, ctx, seed, batch_ok) && singles_outcome::<V>(items, ctx, seed, single_all)
            && report == classify_spec(batch_ok, single_all)
}

/// Run the single path over every item, stopping at the first reject.
fn singles_all<V: BatchVerifier>(items: &[&V::Item], ctx: &V::Context, seed: u64) -> (all: bool)
    ensures
        singles_outcome::<V>(items@, ctx, seed, all),
{
    let n = items.len();
    let mut i: usize = 0;
    while i < n
        invariant
            n == items@.len(),
            i <= n,
            forall|j: int| 0 <= j < i ==> #[trigger] V::single_spec(items@[j], ctx, seed, true),
        decreases n - i,
    {
        let ok = V::validate_one(items[i], ctx, seed);
        if !ok {
            assert(V::single_spec(items@[i as int], ctx, seed, false));
            return false;
        }
        i = i + 1;
    }
    true
}

/// Whether every verdict in `verdicts` accepts.
pub fn all_accept(verdicts: &[bool]) -> (all: bool)
    ensures
        all == all_true(verdicts@),
{
    let n = verdicts.len();
    let mut i: usize = 0;
    while i < n
        invariant
            n == verdicts@.len(),
            i <= n,
            forall|j: int| 0 <= j < i ==> #[trigger] verdicts@[j],
        decreases n - i,
    {
        if !verdicts[i] {
            assert(!verdicts@[i as int]);
            return false;
        }
        i = i + 1;
    }
    true
}

/// **Layer 1**: the core `batch <=> single` assertion, for any verifier.
///
/// Both paths run under the same context and the same seed. The report is the
/// classification of the batch path's conjunction against the conjunction of
/// the single paths; an empty group is vacuously in agreement.
pub fn check_equivalence_refs<V: BatchVerifier>(items: &[&V::Item], ctx: &V::Context, seed: u64) -> (report: EquivReport)
    ensures
        equivalence_outcome::<V>(items@, ctx, seed, report),
{
    let single_all = singles_all::<V>(items, ctx, seed);
    let verdicts = V::validate_batch(items, ctx, seed);
    let batch_ok = all_accept(verdicts.as_slice());
    assert(batch_outcome::<V>(items@, ctx, seed, batch_ok));
    classify(batch_ok, single_all)
}

/// Owned-slice convenience form of [`check_equivalence_refs`].
pub fn check_equivalence<V: BatchVerifier>(items: &[V::Item], ctx: &V::Context, seed: u64) -> (report: EquivReport)
    ensures
        exists|refs: Seq<&V::Item>|
            #![trigger equivalence_outcome::<V>(refs, ctx, seed, report)]
            refs.len() == items@.len() && (forall|i: int|
                0 <= i < refs.len() ==> #[trigger] refs[i] == &items@[i]) && equivalence_outcome::<V>(
                refs,
                ctx,
                seed,
                report,
            ),
{
    let n = items.len();
    let mut refs: Vec<&V::Item> = Vec::new();
    let mut i: usize = 0;
    while i < n
        invariant
            n == items@.len(),
            i <= n,
            refs@.len() == i,
            forall|j: int| 0 <= j < i ==> #[trigger] refs@[j] == &items@[j],
        decreases n - i,
    {
        refs.push(&items[i]);
        i = i + 1;
    }
    let report = check_equivalence_refs::<V>(refs.as_slice(), ctx, seed);
    assert(forall|j: int| 0 <= j < refs@.len() ==> #[trigger] refs@[j] == &items@[j]);
    report
}

/// Per-item outcome of the layer-1b check: one report per input item, in
/// input order.
pub struct PerItemReport {
    /// How batch and single each judged item `i`.
    pub items: Vec<EquivReport>,
}

impl PerItemReport {
    /// Whether every item was judged identically by both paths.
    pub fn is_agreement(&self) -> (agree: bool)
        ensures
            agree == (forall|i: int|
                0 <= i < self.items@.len() ==> !(#[trigger] self.items@[i]).is_disagreement_spec()),
    {
        let n = self.items.len();
        let mut i: usize = 0;
        while i < n
            invariant
                n == self.items@.len(),
                i <= n,
                forall|j: int| 0 <= j < i ==> !(#[trigger] self.items@[j]).is_disagreement_spec(),
            decreases n - i,
        {
            if self.items[i].is_disagreement() {
                return false;
            }
            i = i + 1;
        }
        true
    }

    /// The index and kind of every disagreement, in input order.
    pub fn disagreements(&self) -> (found: Vec<(usize, EquivReport)>)
        ensures
            found@ == disagreement_list(self.items@),
            forall|k: int|
                0 <= k < found@.len() ==> {
                    let (i, r) = #[trigger] found@[k];
                    &&& i < self.items@.len()
                    &&& r == self.items@[i as int]
                    &&& r.is_disagreement_spec()
                },
            forall|i: int|
                0 <= i < self.items@.len() && (#[trigger] self.items@[i]).is_disagreement_spec()
                    ==> exists|k: int| 0 <= k < found@.len() && found@[k].0 == i,
            forall|k1: int, k2: int|
                0 <= k1 < k2 < found@.len() ==> #[trigger] found@[k1].0 < #[trigger] found@[k2].0,
    {
        let n = self.items.len();
        let mut found: Vec<(usize, EquivReport)> = Vec::new();
        let mut i: usize = 0;
        while i < n
            invariant
                n == self.items@.len(),
                i <= n,
                forall|k: int|
                    0 <= k < found@.len() ==> {
                        let (j, r) = #[trigger] found@[k];
                        &&& j < i
                        &&& r == self.items@[j as int]
                        &&& r.is_disagreement_spec()
                    },
                forall|j: int|
                    0 <= j < i && (#[trigger] self.items@[j]).is_disagreement_spec() ==> exists|k: int|
                        0 <= k < found@.len() && found@[k].0 == j,
                forall|k1: int, k2: int|
                    0 <= k1 < k2 < found@.len() ==> #[trigger] found@[k1].0 < #[trigger] found@[k2].0,
                found@ == disagreement_list(self.items@.take(i as int)),
            decreases n - i,
        {
            assert(self.items@.take(i as int + 1).drop_last() =~= self.items@.take(i as int));
            let r = self.items[i];
            if r.is_disagreement() {
                let ghost before = found@;
                found.push((i, r));
                assert(found@[before.len() as int].0 == i);
                assert forall|j: int|
                    0 <= j < i + 1 && (#[trigger] self.items@[j]).is_disagreement_spec() implies exists|k: int|
                    0 <= k < found@.len() && found@[k].0 == j by {
                    if j < i {
                        let k = choose|k: int| 0 <= k < before.len() && before[k].0 == j;
                        assert(found@[k] == before[k]);
                    }
                }
            }
            i = i + 1;
        }
        assert(self.items@.take(n as int) =~= self.items@);
        found
    }

    /// Indices of items the batch accepted but single verification rejects,
    /// in input order.
    pub fn false_accepts(&self) -> (indices: Vec<usize>)
        ensures
            indices@ == false_accept_list(self.items@),
            forall|k: int|
                0 <= k < indices@.len() ==> #[trigger] indices@[k] < self.items@.len()
                    && self.items@[indices@[k] as int] == EquivReport::FalseAccept,
            forall|i: int|
                0 <= i < self.items@.len() && #[trigger] self.items@[i] == EquivReport::FalseAccept
                    ==> indices@.contains(i as usize),
            forall|k1: int, k2: int|
                0 <= k1 < k2 < indices@.len() ==> #[trigger] indices@[k1] < #[trigger] indices@[k2],
    {
        let n = self.items.len();
        let mut indices: Vec<usize> = Vec::new();
        let mut i: usize = 0;
        while i < n
            invariant
                n == self.items@.len(),
                i <= n,
                forall|k: int|
                    0 <= k < indices@.len() ==> #[trigger] indices@[k] < i
                        && self.items@[indices@[k] as int] == EquivReport::FalseAccept,
                forall|j: int|
                    0 <= j < i && #[trigger] self.items@[j] == EquivReport::FalseAccept
                        ==> indices@.contains(j as usize),
                forall|k1: int, k2: int|
                    0 <= k1 < k2 < indices@.len() ==> #[trigger] indices@[k1] < #[trigger] indices@[k2],
                indices@ == false_accept_list(self.items@.take(i as int)),
            decreases n - i,
        {
            assert(self.items@.take(i as int + 1).drop_last() =~= self.items@.take(i as int));
            if self.items[i].is_false_accept() {
                let ghost before = indices@;
                indices.push(i);
                assert(indices@[before.len() as int] == i);
                assert forall|j: int|
                    0 <= j < i + 1 && #[trigger] self.items@[j] == EquivReport::FalseAccept
                        implies indices@.contains(j as usize) by {
                    if j < i {
                        let k = choose|k: int| 0 <= k < before.len() && before[k] == j as usize;
                        assert(indices@[k] == before[k]);
                    }
                }
            }
            i = i + 1;
        }
        assert(self.items@.take(n as int) =~= self.items@);
        indices
    }
}

/// Every disagreement among `items`, with its index, in input order.
pub open spec fn disagreement_list(items: Seq<EquivReport>) -> Seq<(usize, EquivReport)>
    decreases items.len(),
{
    if items.len() == 0 {
        seq![]
    } else {
        let head = disagreement_list(items.drop_last());
        if items.last().is_disagreement_spec() {
            head.push(((items.len() - 1) as usize, items.last()))
        } else {
            head
        }
    }
}

/// The index of every false accept among `items`, in input order.
pub open spec fn false_accept_list(items: Seq<EquivReport>) -> Seq<usize>
    decreases items.len(),
{
    if items.len() == 0 {
        seq![]
    } else {
        let head = false_accept_list(items.drop_last());
        if items.last() == EquivReport::FalseAccept {
            head.push((items.len() - 1) as usize)
        } else {
            head
        }
    }
}

/// Every false accept is a disagreement: each index the false-accept list
/// holds is listed among the disagreements, as a false accept.
pub proof fn lemma_false_accepts_are_disagreements(items: Seq<EquivReport>, i: usize)
    requires
        false_accept_list(items).contains(i),
    ensures
        disagreement_list(items).contains((i, EquivReport::FalseAccept)),
    decreases items.len(),
{
    let init = items.drop_last();
    let fa = false_accept_list(init);
    let da = disagreement_list(init);
    if fa.contains(i) {
        lemma_false_accepts_are_disagreements(init, i);
        let k = choose|k: int| 0 <= k < da.len() && da[k] == (i, EquivReport::FalseAccept);
        if items.last().is_disagreement_spec() {
            assert(disagreement_list(items)[k] == (i, EquivReport::FalseAccept));
        }
    } else {
        let k = choose|k: int| 0 <= k < false_accept_list(items).len() && false_accept_list(items)[k] == i;
        assert(items.last() == EquivReport::FalseAccept);
        let d = disagreement_list(items);
        assert(d[d.len() - 1] == (i, EquivReport::FalseAccept));
    }
}

/// **Layer 1b**: batch and single compared on every item individually.
///
/// Item `i`'s report classifies the batch path's verdict for position `i`
/// against the single path's verdict for item `i`.
pub fn check_equivalence_per_item<V: BatchVerifier>(items: &[&V::Item], ctx: &V::Context, seed: u64) -> (report: PerItemReport)
    ensures
        report.items@.len() == items@.len(),
        exists|batch: Seq<bool>, singles: Seq<bool>|
            #![trigger V::batch_spec(items@, ctx, seed, batch), singles.len()]
            {
                &&& batch.len() == items@.len()
                &&& singles.len() == items@.len()
                &&& V::batch_spec(items@, ctx, seed, batch)
                &&& forall|i: int|
                    0 <= i < items@.len() ==> V::single_spec(items@[i], ctx, seed, #[trigger] singles[i])
                &&& forall|i: int|
                    0 <= i < items@.len() ==> #[trigger] report.items@[i] == classify_spec(
                        batch[i],
                        singles[i],
                    )
            },
{
    let batch = V::validate_batch(items, ctx, seed);
    let n = items.len();
    let mut reports: Vec<EquivReport> = Vec::new();
    let mut singles: Vec<bool> = Vec::new();
    let mut i: usize = 0;
    while i < n
        invariant
            n == items@.len(),
            batch@.len() == n,
            i <= n,
            reports@.len() == i,
            singles@.len() == i,
            forall|j: int| 0 <= j < i ==> V::single_spec(items@[j], ctx, seed, #[trigger] singles@[j]),
            forall|j: int|
                0 <= j < i ==> #[trigger] reports@[j] == classify_spec(batch@[j], singles@[j]),
        decreases n - i,
    {
        let single = V::validate_one(items[i], ctx, seed);
        singles.push(single);
        reports.push(classify(batch[i], single));
        i = i + 1;
    }
    let report = PerItemReport { items: reports };
    assert(singles@.len() == n);
    report
}

/// Outcome of a layer-2 (strategy-differential) check on one item.
#[derive(Debug, Clone, Copy, PartialEq, Eq, Structural)]
pub enum StrategyReport {
    /// Both strategies reached the same verdict.
    Agree(bool),
    /// The batch-derived path accepted what direct verification rejects.
    BatchAcceptsDirectRejects,
    /// Direct verification accepted what the batch-derived path rejects.
    DirectAcceptsBatchRejects,
    /// This verifier exposes no independent implementation.
    NotApplicable,
}

impl StrategyReport {
    /// Whether the two strategies disagreed, in either direction.
    pub open spec fn is_disagreement_spec(self) -> bool {
        self is BatchAcceptsDirectRejects || self is DirectAcceptsBatchRejects
    }

    /// Whether the two strategies disagreed (either direction).
    /// `NotApplicable` is not a disagreement.
    pub fn is_disagreement(self) -> (d: bool)
        ensures
            d == self.is_disagreement_spec(),
    {
        match self {
            StrategyReport::BatchAcceptsDirectRejects | StrategyReport::DirectAcceptsBatchRejects => true,
            _ => false,
        }
    }

    /// Whether this is the soundness-class disagreement.
    pub fn is_false_accept(self) -> (f: bool)
        ensures
            f == (self is BatchAcceptsDirectRejects),
    {
        match self {
            StrategyReport::BatchAcceptsDirectRejects => true,
            _ => false,
        }
    }
}

/// The strategy report for a single-path verdict and an independent verdict.
pub open spec fn strategy_spec(via_batch: bool, direct: Option<bool>) -> StrategyReport {
    match direct {
        None => StrategyReport::NotApplicable,
        Some(d) => if via_batch == d {
            StrategyReport::Agree(d)
        } else if via_batch {
            StrategyReport::BatchAcceptsDirectRejects
        } else {
            StrategyReport::DirectAcceptsBatchRejects
        },
    }
}

/// **Layer 2**: the production single path against an independent
/// implementation, on one item. `NotApplicable` exactly when the verifier
/// offers no independent path, in which case the single path is not run.
pub fn check_strategy_equivalence<V: BatchVerifier>(item: &V::Item, ctx: &V::Context, seed: u64) -> (report: StrategyReport)
    ensures
        report is NotApplicable <==> !V::has_independent_path(item, ctx),
        report is NotApplicable || exists|direct: bool, via_batch: bool|
            #![trigger strategy_spec(via_batch, Some(direct))]
            V::independent_spec(item, ctx, direct) && V::single_spec(item, ctx, seed, via_batch)
                && report == strategy_spec(via_batch, Some(direct)),
{
    let direct = V::validate_one_independent(item, ctx);
    match direct {
        None => {
            StrategyReport::NotApplicable
        },
        Some(d) => {
            let via_batch = V::validate_one(item, ctx, seed);
            let report = match (via_batch, d) {
                (true, true) => StrategyReport::Agree(true),
                (false, false) => StrategyReport::Agree(false),
                (true, false) => StrategyReport::BatchAcceptsDirectRejects,
                (false, true) => StrategyReport::DirectAcceptsBatchRejects,
            };
            assert(report == strategy_spec(via_batch, Some(d)));
            report
        },
    }
}

/// Classification is exhaustive and directional: the report disagrees exactly
/// when the two verdicts differ, and is a false accept exactly when the batch
/// accepted what the singles rejected.
pub proof fn lemma_classify_direction(batch_ok: bool, single_all: bool)
    ensures
        classify_spec(batch_ok, single_all).is_disagreement_spec() <==> batch_ok != single_all,
        classify_spec(batch_ok, single_all).is_false_accept_spec() <==> (batch_ok && !single_all),
        classify_spec(batch_ok, single_all) == EquivReport::FalseReject <==> (!batch_ok && single_all),
        !classify_spec(batch_ok, single_all).is_disagreement_spec() ==> classify_spec(batch_ok, single_all)
            == EquivReport::Agree(batch_ok),
{
}

/// Per-item agreement implies whole-batch agreement: if every item's batch
/// verdict equals its single verdict, the whole-batch conjunctions agree too.
pub proof fn lemma_per_item_agreement_implies_whole_batch(batch: Seq<bool>, singles: Seq<bool>)
    requires
        batch.len() == singles.len(),
        forall|i: int|
            0 <= i < batch.len() ==> !(#[trigger] classify_spec(batch[i], singles[i])).is_disagreement_spec(),
    ensures
        !classify_spec(all_true(batch), all_true(singles)).is_disagreement_spec(),
{
    assert forall|i: int| 0 <= i < batch.len() implies batch[i] == singles[i] by {
        assert(!classify_spec(batch[i], singles[i]).is_disagreement_spec());
    }
    if all_true(batch) {
        assert forall|i: int| 0 <= i < singles.len() implies #[trigger] singles[i] by {
            assert(batch[i]);
        }
    }
    if all_true(singles) {
        assert forall|i: int| 0 <= i < batch.len() implies #[trigger] batch[i] by {
            assert(singles[i]);
        }
    }
}

/// An empty group is vacuously in agreement: whatever the verifier, the
/// layer-1 report over no items is `Agree(true)`.
pub proof fn lemma_empty_group_agrees<V: BatchVerifier>(
    items: Seq<&V::Item>,
    ctx: &V::Context,
    seed: u64,
    batch_ok: bool,
    single_all: bool,
)
    requires
        items.len() == 0,
        batch_outcome::<V>(items, ctx, seed, batch_ok),
        singles_outcome::<V>(items, ctx, seed, single_all),
    ensures
        classify_spec(batch_ok, single_all) == EquivReport::Agree(true),
{
}

/// A verifier without an independent path is never reported as agreeing or
/// disagreeing at layer 2: `NotApplicable` is not a disagreement.
pub proof fn lemma_not_applicable_is_not_a_disagreement(via_batch: bool)
    ensures
        strategy_spec(via_batch, None) == StrategyReport::NotApplicable,
        !StrategyReport::NotApplicable.is_disagreement_spec(),
{
}

} // verus!
