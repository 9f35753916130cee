//! What each pool's fuzz target takes out of one parsed transaction.
//!
//! Two of the three pools drop transactions with transparent inputs: Sapling's
//! binding signature and RedJubjub's spend-auth signatures are bound to a
//! sighash that folds in transparent prevouts, which a bare transaction does
//! not carry, so both paths would reject alike and the input could never
//! separate them. Sprout's Groth16 proofs are bound to no sighash, so every
//! transaction is Sprout material.

use vstd::prelude::*;

use zebra_chain::transaction::Transaction;

use crate::corpus::{has_transparent_inputs, transaction_has_transparent_inputs};
use crate::orchard_pool::{transaction_network_upgrade, transaction_sighash};
use crate::redjubjub::{items_from_sapling_item, lemma_passing_bundle_queues_every_signature, queued_for_bundle, queued_roles, queued_signatures, RedJubjubItem};
use crate::sapling::{sapling_bundle_passes, sapling_item_available, sapling_outputs, sapling_spends, transaction_sapling_bundle, SaplingItem};
use crate::sprout::{decodable_count, present, transaction_joinsplits, SproutItem};

verus! {

/// Whether this transaction's sighash can be reconstructed from its own
/// bytes: false when it spends transparent inputs.
fn sighash_is_reconstructable(tx: &Transaction) -> (ok: bool)
    ensures
        ok == !transaction_has_transparent_inputs(*tx),
{
    !has_transparent_inputs(tx)
}

/// Whether a transaction is Sapling material for a fuzz input: it spends no
/// transparent input and yields a Sapling item.
pub open spec fn sapling_material(tx: Transaction) -> bool {
    !transaction_has_transparent_inputs(tx) && sapling_item_available(tx)
}

/// Sapling items for a fuzz input: at most one per transaction, and none for
/// a transaction whose sighash cannot be reconstructed.
pub fn sapling_items(tx: &Transaction) -> (items: Vec<SaplingItem>)
    ensures
        items@.len() <= 1,
        items@.len() == 1 <==> sapling_material(*tx),
        items@.len() == 1 ==> transaction_sapling_bundle(*tx) == Some(items@[0].bundle),
{
    if !sighash_is_reconstructable(tx) {
        return Vec::new();
    }
    match crate::sapling::item_from_tx(tx) {
        Some(item) => vec![item],
        None => Vec::new(),
    }
}

/// `items` are exactly the signatures the batch validator queues for the
/// transaction's Sapling bundle over its sighash: the spend-authorization
/// signatures of the leading spends that pass their checks, then the binding
/// signature when every spend and output passes.
pub open spec fn sapling_signatures_of(items: Seq<RedJubjubItem>, tx: Transaction) -> bool {
    &&& transaction_sapling_bundle(tx) matches Some(b)
    &&& transaction_network_upgrade(tx) matches Some(nu)
    &&& queued_for_bundle(items, sapling_spends(b), sapling_outputs(b))
    &&& queued_signatures(items, b, transaction_sighash(tx, nu))
}

/// RedJubjub fuzz material whose Sapling bundle passes every check yields
/// one signature per spend plus the binding signature.
pub proof fn lemma_passing_material_yields_every_signature(items: Seq<RedJubjubItem>, tx: Transaction)
    requires
        sapling_signatures_of(items, tx),
        sapling_bundle_passes(transaction_sapling_bundle(tx)->0),
    ensures
        items.len() == sapling_spends(transaction_sapling_bundle(tx)->0).len() + 1,
{
    let b = transaction_sapling_bundle(tx)->0;
    lemma_passing_bundle_queues_every_signature(items, sapling_spends(b), sapling_outputs(b));
}

/// RedJubjub items for a fuzz input: the spend-auth and binding signatures of
/// the transaction's Sapling bundle, under the same sighash rule as
/// [`sapling_items`].
pub fn redjubjub_items(tx: &Transaction) -> (items: Vec<RedJubjubItem>)
    ensures
        exists|spends: nat| #[trigger] queued_roles(items@, spends),
        !sapling_material(*tx) ==> items@.len() == 0,
        sapling_material(*tx) ==> sapling_signatures_of(items@, *tx),
{
    if !sighash_is_reconstructable(tx) {
        let empty: Vec<RedJubjubItem> = Vec::new();
        assert(queued_roles(empty@, 0));
        return empty;
    }
    match crate::sapling::item_from_tx(tx) {
        Some(item) => items_from_sapling_item(&item),
        None => {
            let empty: Vec<RedJubjubItem> = Vec::new();
            assert(queued_roles(empty@, 0));
            empty
        },
    }
}

/// Sprout items for a fuzz input: every Groth16 JoinSplit in the transaction,
/// transparent inputs or not.
pub fn sprout_items(tx: &Transaction) -> (items: Vec<SproutItem>)
    ensures
        items@.len() == decodable_count(present(transaction_joinsplits(*tx))),
{
    crate::sprout::items_from_tx(tx)
}

} // verus!
