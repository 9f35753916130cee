//! The pool-independent oracle, exercised through a verifier whose verdicts
//! the test dictates: each item either enqueues or does not, and every item
//! that enqueued receives the one shared verdict.

use zebra_batch_equivalence::batch_verifier::{
    check_equivalence, check_equivalence_per_item, check_equivalence_refs, check_strategy_equivalence,
    classify, BatchVerifier, StrategyReport,
};
use zebra_batch_equivalence::redjubjub::RedJubjub;
use zebra_batch_equivalence::sapling::Sapling;
use zebra_batch_equivalence::sprout::Sprout;
use zebra_batch_equivalence::{EquivReport, Orchard};

struct Mock;

struct MockItem {
    /// Whether this item makes it into the batch at all.
    queues_ok: bool,
    /// Verdict of the single path on this item.
    single: bool,
    /// Verdict of an independent implementation, if the pool has one.
    independent: Option<bool>,
}

impl BatchVerifier for Mock {
    type Item = MockItem;
    /// The one shared verdict the batch's `validate` call produces.
    type Context = bool;
    const NAME: &'static str = "mock";

    fn validate_batch(items: &[&Self::Item], ctx: &Self::Context, _seed: u64) -> Vec<bool> {
        items.iter().map(|item| item.queues_ok && *ctx).collect()
    }

    fn validate_one(item: &Self::Item, _ctx: &Self::Context, _seed: u64) -> bool {
        item.single
    }

    fn validate_one_independent(item: &Self::Item, _ctx: &Self::Context) -> Option<bool> {
        item.independent
    }
}

fn item(single: bool, independent: Option<bool>) -> MockItem {
    MockItem { queues_ok: true, single, independent }
}

/// An item that cannot be enqueued: rejected on its own.
fn unqueueable(single: bool) -> MockItem {
    MockItem { queues_ok: false, single, independent: None }
}

#[test]
fn classify_covers_all_four_quadrants() {
    assert_eq!(classify(true, true), EquivReport::Agree(true));
    assert_eq!(classify(false, false), EquivReport::Agree(false));
    assert_eq!(classify(true, false), EquivReport::FalseAccept);
    assert_eq!(classify(false, true), EquivReport::FalseReject);
}

#[test]
fn layer1_flags_false_accept_through_the_trait() {
    let items = vec![item(true, None), item(false, None)];
    assert_eq!(check_equivalence::<Mock>(&items, &true, 0), EquivReport::FalseAccept);
}

#[test]
fn layer1_flags_false_reject_through_the_trait() {
    let items = vec![item(true, None), item(true, None)];
    assert_eq!(check_equivalence::<Mock>(&items, &false, 0), EquivReport::FalseReject);
}

#[test]
fn empty_group_is_vacuously_in_agreement() {
    let items: Vec<MockItem> = Vec::new();
    assert_eq!(check_equivalence::<Mock>(&items, &true, 0), EquivReport::Agree(true));
}

#[test]
fn per_item_agreement_implies_whole_batch_agreement() {
    let items = vec![item(true, None), item(true, None)];
    let refs: Vec<&MockItem> = items.iter().collect();

    let per_item = check_equivalence_per_item::<Mock>(&refs, &true, 0);
    assert!(per_item.is_agreement());
    assert_eq!(per_item.disagreements().len(), 0);
    assert_eq!(check_equivalence_refs::<Mock>(&refs, &true, 0), EquivReport::Agree(true));
}

#[test]
fn per_item_localises_which_item_disagreed() {
    let items = vec![item(true, None), item(false, None), item(true, None)];
    let refs: Vec<&MockItem> = items.iter().collect();

    let per_item = check_equivalence_per_item::<Mock>(&refs, &true, 0);
    assert_eq!(per_item.false_accepts(), vec![1]);
    assert_eq!(
        per_item.items,
        vec![EquivReport::Agree(true), EquivReport::FalseAccept, EquivReport::Agree(true)]
    );
}

#[test]
fn whole_batch_granularity_masks_a_dragged_down_item() {
    let items = vec![item(true, None), unqueueable(false)];
    let refs: Vec<&MockItem> = items.iter().collect();

    assert_eq!(check_equivalence_refs::<Mock>(&refs, &false, 0), EquivReport::Agree(false));

    let per_item = check_equivalence_per_item::<Mock>(&refs, &false, 0);
    assert!(!per_item.is_agreement());
    assert_eq!(per_item.items, vec![EquivReport::FalseReject, EquivReport::Agree(false)]);
    assert_eq!(per_item.disagreements(), vec![(0, EquivReport::FalseReject)]);
}

#[test]
fn unqueueable_item_is_rejected_alone_not_by_poisoning_the_batch() {
    let items = vec![unqueueable(false), item(true, None)];
    let refs: Vec<&MockItem> = items.iter().collect();

    assert_eq!(Mock::validate_batch(&refs, &true, 0), vec![false, true]);
}

#[test]
fn layer2_reports_not_applicable_rather_than_agreement() {
    let report = check_strategy_equivalence::<Mock>(&item(true, None), &true, 0);
    assert_eq!(report, StrategyReport::NotApplicable);
    assert!(!report.is_disagreement());
}

#[test]
fn layer2_flags_the_soundness_direction() {
    let report = check_strategy_equivalence::<Mock>(&item(true, Some(false)), &true, 0);
    assert_eq!(report, StrategyReport::BatchAcceptsDirectRejects);
    assert!(report.is_disagreement());
    assert!(report.is_false_accept());
}

#[test]
fn layer2_flags_the_liveness_direction() {
    let report = check_strategy_equivalence::<Mock>(&item(false, Some(true)), &true, 0);
    assert_eq!(report, StrategyReport::DirectAcceptsBatchRejects);
    assert!(report.is_disagreement());
    assert!(!report.is_false_accept());
}

#[test]
fn layer2_agreement_carries_the_verdict() {
    assert_eq!(
        check_strategy_equivalence::<Mock>(&item(true, Some(true)), &true, 0),
        StrategyReport::Agree(true)
    );
    assert_eq!(
        check_strategy_equivalence::<Mock>(&item(false, Some(false)), &true, 0),
        StrategyReport::Agree(false)
    );
}

#[test]
fn per_item_reports_name_every_disagreement_in_order() {
    // Shared verdict rejects: the valid items are false rejects, the invalid
    // one agrees on false.
    let items = vec![item(true, None), item(false, None), item(true, None)];
    let refs: Vec<&MockItem> = items.iter().collect();
    let per_item = check_equivalence_per_item::<Mock>(&refs, &false, 0);
    assert_eq!(
        per_item.disagreements(),
        vec![(0, EquivReport::FalseReject), (2, EquivReport::FalseReject)]
    );
    assert!(per_item.false_accepts().is_empty());
    assert_eq!(check_equivalence_refs::<Mock>(&refs, &false, 0), EquivReport::Agree(false));
}

#[test]
fn whole_batch_agreement_on_false_when_a_single_rejects_and_the_batch_rejects() {
    let items = vec![item(false, None)];
    assert_eq!(check_equivalence::<Mock>(&items, &false, 7), EquivReport::Agree(false));
}

#[test]
fn every_pool_names_itself() {
    assert_eq!(Orchard::NAME, "orchard (halo2 + RedPallas)");
    assert_eq!(Sapling::NAME, "sapling (Groth16 + RedJubjub)");
    assert_eq!(Sprout::NAME, "sprout (JoinSplit Groth16)");
    assert_eq!(RedJubjub::NAME, "redjubjub (Sapling signatures)");
    assert_eq!(Mock::NAME, "mock");
}

#[test]
fn redjubjub_reports_repeat_for_a_seed() {
    let items: Vec<zebra_batch_equivalence::redjubjub::RedJubjubItem> = Vec::new();
    let first = check_equivalence::<RedJubjub>(&items, &(), 7);
    let second = check_equivalence::<RedJubjub>(&items, &(), 7);
    assert_eq!(first, second);
    assert_eq!(first, EquivReport::Agree(true));
}
