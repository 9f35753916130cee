//! The turnstile over constructed transactions: conservation, double spends,
//! cross-pool reuse and the pool floor.

use zebra_batch_equivalence::turnstile::{
    check_conservation, label, Conservation, Indeterminacy, Pool, TransactionFacts, TurnstileState,
    TurnstileViolation,
};

fn nf(b: u8) -> [u8; 32] {
    [b; 32]
}

fn facts(orchard_vb: i64, ironwood_vb: i64, orchard_nfs: Vec<[u8; 32]>, ironwood_nfs: Vec<[u8; 32]>) -> TransactionFacts {
    TransactionFacts {
        transparent_inputs: 0,
        has_sprout_joinsplits: false,
        orchard_value_balance: orchard_vb,
        ironwood_value_balance: ironwood_vb,
        sapling_value_balance: 0,
        transparent_outputs: Vec::new(),
        orchard_nullifiers: orchard_nfs,
        ironwood_nullifiers: ironwood_nfs,
    }
}

fn feed(state: &mut TurnstileState, tx: &TransactionFacts, label: &str) -> Vec<TurnstileViolation> {
    assert!(state.admissible(tx), "fixture must stay within machine ranges");
    state.admit_transaction(tx, label)
}

fn floor_violations(violations: &[TurnstileViolation]) -> Vec<&TurnstileViolation> {
    violations.iter().filter(|v| matches!(v, TurnstileViolation::PoolBalanceNegative { .. })).collect()
}

#[test]
fn the_floor_holds_while_a_pool_covers_its_outflow_and_fires_beyond_it() {
    let mut state = TurnstileState::from_genesis();

    let into = feed(&mut state, &facts(0, -100_000, vec![], vec![nf(1)]), "constructed:into-ironwood");
    assert!(floor_violations(&into).is_empty(), "value entering an empty pool: {into:?}");

    let covered = feed(&mut state, &facts(0, 60_000, vec![], vec![nf(2)]), "constructed:out-60k");
    assert!(floor_violations(&covered).is_empty(), "{covered:?}");
    assert_eq!(state.pool_balances(), (0, 40_000));

    let beyond = feed(&mut state, &facts(0, 60_000, vec![], vec![nf(3)]), "constructed:out-another-60k");
    let floor = floor_violations(&beyond);
    assert_eq!(floor.len(), 1, "{beyond:?}");
    assert!(matches!(
        floor[0],
        TurnstileViolation::PoolBalanceNegative { pool: Pool::Ironwood, balance: -20_000 }
    ));
}

#[test]
fn a_mid_chain_run_never_reports_a_floor_violation() {
    let mut state = TurnstileState::mid_chain();
    let v = feed(&mut state, &facts(50_000, 60_000, vec![nf(1)], vec![nf(2)]), "out");
    assert!(floor_violations(&v).is_empty());
    assert_eq!(state.pool_balances(), (-50_000, -60_000));
}

#[test]
fn a_constructed_cross_pool_carrier_is_caught() {
    let tx = facts(0, 0, vec![nf(9)], vec![nf(9)]);
    let mut state = TurnstileState::mid_chain();
    let violations = feed(&mut state, &tx, "constructed:cross-pool-nullifier");
    assert!(
        violations.iter().any(|v| matches!(v, TurnstileViolation::CrossPoolNullifierReuse { .. })),
        "constructed carrier was not caught; got {violations:?}"
    );
    assert_eq!(
        violations,
        vec![TurnstileViolation::CrossPoolNullifierReuse {
            nullifier: nf(9),
            orchard_in: "constructed:cross-pool-nullifier".to_string(),
            ironwood_in: "constructed:cross-pool-nullifier".to_string(),
        }]
    );
}

#[test]
fn the_same_fixture_without_reuse_is_clean() {
    let tx = facts(0, 0, vec![nf(9)], vec![nf(10)]);
    let mut state = TurnstileState::mid_chain();
    let violations = feed(&mut state, &tx, "constructed:no-reuse");
    assert!(
        !violations.iter().any(|v| matches!(v, TurnstileViolation::CrossPoolNullifierReuse { .. })),
        "{violations:?}"
    );
    assert!(violations.is_empty());
}

#[test]
fn reuse_across_transactions_names_both_transactions() {
    let mut state = TurnstileState::mid_chain();
    assert!(feed(&mut state, &facts(0, 0, vec![nf(4)], vec![]), "orchard-first").is_empty());
    let v = feed(&mut state, &facts(0, 0, vec![], vec![nf(4)]), "ironwood-later");
    assert_eq!(
        v,
        vec![TurnstileViolation::CrossPoolNullifierReuse {
            nullifier: nf(4),
            orchard_in: "orchard-first".to_string(),
            ironwood_in: "ironwood-later".to_string(),
        }]
    );
}

#[test]
fn a_transaction_that_creates_value_is_caught() {
    let tx = facts(-100_000, 0, vec![nf(1)], vec![]);
    assert_eq!(check_conservation(&tx), Conservation::Violated { implied_fee: -100_000 });

    let mut state = TurnstileState::mid_chain();
    let violations = feed(&mut state, &tx, "constructed:value-created");
    assert!(violations.iter().any(|v| matches!(v, TurnstileViolation::ValueCreated { .. })), "{violations:?}");
}

#[test]
fn conservation_reports_the_fee_over_every_pool() {
    let mut tx = facts(70_000, -30_000, vec![], vec![]);
    tx.sapling_value_balance = 5_000;
    tx.transparent_outputs = vec![20_000, 15_000];
    assert_eq!(check_conservation(&tx), Conservation::Holds { fee: 10_000 });
    let mut state = TurnstileState::mid_chain();
    assert!(feed(&mut state, &tx, "fee").is_empty());
    assert_eq!(state.total_fees(), 10_000);
    assert_eq!(state.coverage(), (1, 1));
}

#[test]
fn transparent_inputs_are_indeterminate_not_a_pass() {
    let mut tx = facts(-100_000, 0, vec![], vec![]);
    tx.transparent_inputs = 2;
    assert_eq!(check_conservation(&tx), Conservation::Indeterminate(Indeterminacy::TransparentInputs(2)));
    let mut sprout = facts(0, 0, vec![], vec![]);
    sprout.has_sprout_joinsplits = true;
    assert_eq!(
        check_conservation(&sprout),
        Conservation::Indeterminate(Indeterminacy::SproutBalanceUnreachable)
    );
    let mut state = TurnstileState::mid_chain();
    assert!(feed(&mut state, &tx, "indeterminate").is_empty());
    assert_eq!(state.coverage(), (0, 1));
    assert_eq!(state.total_fees(), 0);
}

#[test]
fn every_violation_variant_has_a_test() {
    fn exhaustive(v: &TurnstileViolation) -> &'static str {
        match v {
            // a_transaction_that_creates_value_is_caught
            TurnstileViolation::ValueCreated { .. } => "ValueCreated",
            // first_seen_names_the_first_sighting_not_the_previous_one
            TurnstileViolation::DoubleSpend { .. } => "DoubleSpend",
            // a_constructed_cross_pool_carrier_is_caught
            TurnstileViolation::CrossPoolNullifierReuse { .. } => "CrossPoolNullifierReuse",
            // the_floor_holds_while_a_pool_covers_its_outflow_and_fires_beyond_it
            TurnstileViolation::PoolBalanceNegative { .. } => "PoolBalanceNegative",
        }
    }
    let _ = exhaustive;
}

#[test]
fn first_seen_names_the_first_sighting_not_the_previous_one() {
    let tx = facts(0, 0, vec![nf(1), nf(2)], vec![nf(3)]);
    let mut state = TurnstileState::mid_chain();

    assert!(feed(&mut state, &tx, "pass-1").is_empty());
    let second = feed(&mut state, &tx, "pass-2");
    let third = feed(&mut state, &tx, "pass-3");

    for (round, violations) in [("second", &second), ("third", &third)] {
        let firsts: Vec<&String> = violations
            .iter()
            .filter_map(|v| match v {
                TurnstileViolation::DoubleSpend { first_seen, .. } => Some(first_seen),
                _ => None,
            })
            .collect();
        assert_eq!(firsts.len(), 3, "{round}: {violations:?}");
        assert!(firsts.iter().all(|f| *f == "pass-1"), "{round}: {firsts:?}");
    }
    assert_eq!(
        third[2],
        TurnstileViolation::DoubleSpend {
            pool: Pool::Ironwood,
            nullifier: nf(3),
            first_seen: "pass-1".to_string(),
            again_in: "pass-3".to_string(),
        }
    );
}

#[test]
fn a_repeat_within_one_transaction_names_that_transaction() {
    let mut state = TurnstileState::mid_chain();
    let v = feed(&mut state, &facts(0, 0, vec![nf(5), nf(5)], vec![]), "twice");
    assert_eq!(
        v,
        vec![TurnstileViolation::DoubleSpend {
            pool: Pool::Orchard,
            nullifier: nf(5),
            first_seen: "twice".to_string(),
            again_in: "twice".to_string(),
        }]
    );
}

#[test]
fn the_reported_double_spends_name_the_earliest_sighting_in_every_order() {
    let txs: Vec<TransactionFacts> = (1u8..=4).map(|b| facts(0, 0, vec![nf(b)], vec![nf(b + 100)])).collect();
    let orders: [Vec<usize>; 3] = [vec![0, 1, 2, 3, 0, 1, 2, 3], vec![3, 2, 1, 0, 3, 2, 1, 0], vec![0, 2, 0, 2, 1, 3, 1, 3]];
    let mut flagged_by_order: Vec<Vec<(bool, [u8; 32])>> = Vec::new();
    for order in orders.iter() {
        let mut state = TurnstileState::mid_chain();
        let mut flagged: Vec<(Pool, [u8; 32])> = Vec::new();
        for (position, &k) in order.iter().enumerate() {
            for v in feed(&mut state, &txs[k], &label(position)) {
                if let TurnstileViolation::DoubleSpend { pool, nullifier, first_seen, again_in } = v {
                    let first = order.iter().position(|&j| j == k).unwrap();
                    assert_eq!(first_seen, label(first));
                    assert_eq!(again_in, label(position));
                    flagged.push((pool, nullifier));
                }
            }
        }
        let mut flagged: Vec<(bool, [u8; 32])> =
            flagged.into_iter().map(|(pool, n)| (matches!(pool, Pool::Ironwood), n)).collect();
        flagged.sort();
        flagged.dedup();
        assert_eq!(flagged.len(), 8, "{order:?}");
        flagged_by_order.push(flagged);
    }
    assert_eq!(flagged_by_order[0], flagged_by_order[1]);
    assert_eq!(flagged_by_order[0], flagged_by_order[2]);
}

#[test]
fn labels_are_tx_at_the_position_in_decimal() {
    assert_eq!(label(0), "tx@0");
    assert_eq!(label(7), "tx@7");
    assert_eq!(label(10), "tx@10");
    assert_eq!(label(4096), "tx@4096");
    assert_eq!(label(usize::MAX), format!("tx@{}", usize::MAX));
}

#[test]
fn a_fresh_state_is_empty() {
    let state = TurnstileState::from_genesis();
    assert_eq!(state.pool_balances(), (0, 0));
    assert_eq!(state.total_fees(), 0);
    assert_eq!(state.coverage(), (0, 0));
}

#[test]
fn out_of_range_amounts_are_not_admissible() {
    let state = TurnstileState::mid_chain();
    let tx = facts(i64::MAX, 0, vec![], vec![]);
    assert!(!tx.check_amounts_in_range());
    assert!(!state.admissible(&tx));
}
