//! Extraction from a parsed transaction that carries no shielded data.

use zebra_batch_equivalence::fuzz_input::{redjubjub_items, sapling_items, sprout_items};
use zebra_batch_equivalence::turnstile::{check_conservation, Conservation, TransactionFacts};
use zebra_chain::serialization::ZcashDeserialize;
use zebra_chain::transaction::Transaction;

/// A version-1 transaction with no inputs, no outputs and a zero lock time.
fn empty_v1() -> Transaction {
    Transaction::zcash_deserialize(&[1u8, 0, 0, 0, 0, 0, 0, 0, 0, 0][..]).expect("a minimal v1 transaction")
}

#[test]
fn a_transparent_only_transaction_yields_no_shielded_items() {
    let tx = empty_v1();
    assert!(sapling_items(&tx).is_empty());
    assert!(redjubjub_items(&tx).is_empty());
    assert!(sprout_items(&tx).is_empty());
    assert!(zebra_batch_equivalence::items_from_tx(&tx).is_empty());
    assert!(zebra_batch_equivalence::item_from_tx(&tx).is_none());
    assert!(zebra_batch_equivalence::sapling::item_from_tx(&tx).is_none());
}

#[test]
fn the_facts_of_an_empty_transaction_are_all_zero_and_conserve() {
    let facts = TransactionFacts::from_transaction(&empty_v1());
    assert_eq!(facts.transparent_inputs, 0);
    assert!(!facts.has_sprout_joinsplits);
    assert_eq!(facts.orchard_value_balance, 0);
    assert_eq!(facts.ironwood_value_balance, 0);
    assert_eq!(facts.sapling_value_balance, 0);
    assert!(facts.transparent_outputs.is_empty());
    assert!(facts.orchard_nullifiers.is_empty());
    assert!(facts.ironwood_nullifiers.is_empty());
    assert_eq!(check_conservation(&facts), Conservation::Holds { fee: 0 });
}
