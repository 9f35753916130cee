//! The pieces of the batching middleware that decide: pending batches and the
//! flush log, and the partition plan of the tower fuzz target.

use std::sync::Arc;

use zebra_batch_equivalence::adversarial::{AdversarialBatch, MalformedBatch};
use zebra_batch_equivalence::batch_verifier::BatchVerifier;
use zebra_batch_equivalence::tower::{gcd, lcm, partition_plan, BatchLog, PendingBatch, Weighted};

/// A verifier whose items carry their own verdict; the batch accepts only
/// when every item does, and every item receives that one verdict.
struct AllOrNothing;

#[derive(Debug, PartialEq)]
struct Sig(bool);

impl BatchVerifier for AllOrNothing {
    type Item = Sig;
    type Context = ();
    const NAME: &'static str = "all-or-nothing";

    fn validate_batch(items: &[&Self::Item], _ctx: &(), _seed: u64) -> Vec<bool> {
        let all = items.iter().all(|s| s.0);
        vec![all; items.len()]
    }

    fn validate_one(item: &Self::Item, _ctx: &(), _seed: u64) -> bool {
        item.0
    }

    fn validate_one_independent(_item: &Self::Item, _ctx: &()) -> Option<bool> {
        None
    }
}

#[test]
fn a_flush_logs_the_batch_and_broadcasts_its_verdict() {
    let mut log = BatchLog::new();
    let mut pending: PendingBatch<AllOrNothing> = PendingBatch::new();
    assert_eq!(pending.flush(&(), 0, &mut log), None);
    assert_eq!(log.count(), 0);

    assert_eq!(pending.push(Arc::new(Sig(true))), 0);
    assert_eq!(pending.push(Arc::new(Sig(true))), 1);
    assert_eq!(pending.len(), 2);
    assert_eq!(pending.flush(&(), 0, &mut log), Some(vec![true, true]));
    assert_eq!(pending.len(), 0);

    pending.push(Arc::new(Sig(true)));
    pending.push(Arc::new(Sig(false)));
    pending.push(Arc::new(Sig(true)));
    assert_eq!(pending.flush(&(), 0, &mut log), Some(vec![false, false, false]));
    assert_eq!(log.sizes(), vec![2, 3]);
    assert_eq!(log.count(), 2);
}

#[test]
fn a_log_records_in_flush_order() {
    let mut log = BatchLog::default();
    log.record(4);
    log.record(1);
    assert_eq!(log.sizes(), vec![4, 1]);
}

#[test]
fn a_weighted_request_carries_its_item_and_default_weight() {
    let w: Weighted<AllOrNothing> = Weighted::new(Arc::new(Sig(true)));
    assert_eq!(w.item(), &Sig(true));
    assert_eq!(w.weight(), 1);
    assert_eq!(*w.shared(), Sig(true));
    assert_eq!(w.clone().item(), &Sig(true));
}

#[test]
fn gcd_and_lcm_of_small_numbers() {
    assert_eq!(gcd(12, 18), 6);
    assert_eq!(gcd(0, 5), 5);
    assert_eq!(gcd(7, 0), 7);
    assert_eq!(lcm(4, 6), 12);
    assert_eq!(lcm(3, 5), 15);
    assert_eq!(lcm(0, 5), 0);
}

#[test]
fn partition_plans_truncate_to_a_common_multiple() {
    assert_eq!(partition_plan(5, 10), Some((6, 3, 6)));
    assert_eq!(partition_plan(0, 4), Some((1, 2, 4)));
    assert_eq!(partition_plan(1, 4), Some((2, 1, 4)));
    assert_eq!(partition_plan(2, 3), None);
    assert_eq!(partition_plan(9, 1), None);
    assert_eq!(partition_plan(9, 0), None);
}

#[test]
fn the_invalid_item_sits_where_asked_or_at_the_end() {
    let valid = vec![Sig(true), Sig(true), Sig(true)];
    let invalid = Sig(false);

    let batch = AdversarialBatch::<AllOrNothing>::mostly_valid_plus_one_invalid(&valid, &invalid, 1);
    assert_eq!(batch.invalid_index, 1);
    assert_eq!(batch.items.len(), 4);
    assert_eq!(*batch.items[1], Sig(false));
    assert_eq!(batch.check_shape(&(), 0), Ok(()));

    let clamped = AdversarialBatch::<AllOrNothing>::mostly_valid_plus_one_invalid(&valid, &invalid, 99);
    assert_eq!(clamped.invalid_index, 3);
    assert_eq!(*clamped.items[3], Sig(false));
}

#[test]
fn a_batch_that_is_not_its_claimed_shape_says_why() {
    let valid = vec![Sig(true), Sig(false)];
    let invalid = Sig(false);
    let batch = AdversarialBatch::<AllOrNothing>::mostly_valid_plus_one_invalid(&valid, &invalid, 0);
    assert_eq!(batch.check_shape(&(), 0), Err(MalformedBatch::ValidItemDoesNotVerify(2)));

    let valid = vec![Sig(true)];
    let not_invalid = Sig(true);
    let batch = AdversarialBatch::<AllOrNothing>::mostly_valid_plus_one_invalid(&valid, &not_invalid, 0);
    assert_eq!(batch.check_shape(&(), 0), Err(MalformedBatch::InvalidItemVerifies));
}
