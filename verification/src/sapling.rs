//! Sapling `batch <=> single` verification equivalence.
//!
//! Zebra verifies Sapling through one `sapling_crypto::BatchValidator`, which
//! keeps three sub-batches: spend proofs, output proofs and RedJubjub
//! signatures. Its `check_bundle` returns a plain `bool` and may leave part of
//! a rejected bundle queued in the shared batch; production validates that
//! polluted batch anyway and broadcasts the one result. So the batch path here
//! deliberately does **not** stop at the first rejected bundle.

use vstd::prelude::*;

use rand::rngs::StdRng;

use group::GroupEncoding;
use groth16::Proof;
use bls12_381::Bls12;
use sapling_crypto::bundle::Authorized;
use sapling_crypto::circuit::{
    OutputVerifyingKey, PreparedOutputVerifyingKey, PreparedSpendVerifyingKey, SpendVerifyingKey,
};
use sapling_crypto::{BatchValidator, Bundle, SaplingVerificationContext};
use zcash_protocol::value::ZatBalance;
use zebra_chain::parameters::NetworkUpgrade;
use zebra_chain::transaction::{SigHash, SigHasher, Transaction};

use crate::adversarial::groth16_proof_decodes;
use crate::redjubjub::{output_passes, spend_queued};
use crate::batch_verifier::{self, BatchVerifier};
use crate::orchard_pool::{
    seeded_rng, shared_verdict_shape, sighash_all, sighash_bytes, sighash_value, sighasher_builds, sighasher_origin,
    sighasher_without_prevouts, transaction_network_upgrade, transaction_sighash, transaction_upgrade,
};

verus! {

/// The authorized Sapling bundle type Zebra hands us. Opaque to verification:
/// every use goes through the `sapling-crypto` calls below.
#[verifier::external_body]
pub struct SaplingBundle(pub Bundle<Authorized, ZatBalance>);

impl Clone for SaplingBundle {
    /// A copy of the bundle, via `Bundle::clone`.
    #[verifier::external_body]
    fn clone(&self) -> Self {
        SaplingBundle(self.0.clone())
    }
}

/// `sapling-crypto`'s batch validation context.
#[verifier::external_type_specification]
#[verifier::external_body]
pub struct ExSaplingBatchValidator(BatchValidator);

/// `sapling-crypto`'s single-transaction verification context.
#[verifier::external_type_specification]
#[verifier::external_body]
pub struct ExSaplingVerificationContext(SaplingVerificationContext);

/// A Sapling spend verifying key.
#[verifier::external_type_specification]
#[verifier::external_body]
pub struct ExSpendVerifyingKey(SpendVerifyingKey);

/// A Sapling output verifying key.
#[verifier::external_type_specification]
#[verifier::external_body]
pub struct ExOutputVerifyingKey(OutputVerifyingKey);

/// A prepared Sapling spend verifying key.
#[verifier::external_type_specification]
#[verifier::external_body]
pub struct ExPreparedSpendVerifyingKey(PreparedSpendVerifyingKey);

/// A prepared Sapling output verifying key.
#[verifier::external_type_specification]
#[verifier::external_body]
pub struct ExPreparedOutputVerifyingKey(PreparedOutputVerifyingKey);

/// One Sapling verification item: the bundle plus the sighash its signatures
/// are bound to.
pub struct SaplingItem {
    /// The authorized Sapling bundle.
    pub bundle: SaplingBundle,
    /// The sighash the bundle's signatures are over.
    pub sighash: SigHash,
}

impl Clone for SaplingItem {
    fn clone(&self) -> (copy: Self)
        ensures
            copy.sighash == self.sighash,
    {
        SaplingItem { bundle: self.bundle.clone(), sighash: self.sighash }
    }
}

/// The largest number of descriptions one bundle can hold: a slice occupies
/// at most `isize::MAX` bytes, and every description is wider than two bytes.
pub const MAX_DESCRIPTIONS: usize = usize::MAX / 4;

/// The spends a Sapling bundle holds, in order: for each, the bytes of its
/// randomized validating key `rk` and of its encoded Groth16 proof.
pub uninterp spec fn sapling_spends(bundle: SaplingBundle) -> Seq<(Seq<u8>, Seq<u8>)>;

/// The outputs a Sapling bundle holds, in order: for each, the bytes of its
/// ephemeral key and of its encoded Groth16 proof.
pub uninterp spec fn sapling_outputs(bundle: SaplingBundle) -> Seq<(Seq<u8>, Seq<u8>)>;

/// The spend-authorization signature of each spend of a Sapling bundle, in
/// order, as bytes.
pub uninterp spec fn sapling_spend_auth_sigs(bundle: SaplingBundle) -> Seq<Seq<u8>>;

/// The bytes of a Sapling bundle's binding signature.
pub uninterp spec fn sapling_binding_signature(bundle: SaplingBundle) -> Seq<u8>;

/// Everything a Sapling bundle holds but its spend proofs, as bytes in
/// consensus encoding: each spend's value commitment, anchor, nullifier,
/// `rk` and signature, every output, the value balance and the binding
/// signature.
pub uninterp spec fn sapling_bundle_frame(bundle: SaplingBundle) -> Seq<u8>;

/// Whether 32 bytes decode as a Jubjub point through
/// `AffinePoint::from_bytes`, and if so whether the point is of small order
/// (`is_small_order`): `None` when they do not decode. A function of the
/// bytes alone.
pub uninterp spec fn jubjub_affine_small_order(bytes: Seq<u8>) -> Option<bool>;

/// Whether 32 bytes decode as a Jubjub point through
/// `ExtendedPoint::from_bytes`, and if so whether the point is of small order
/// (`is_small_order`): `None` when they do not decode. A function of the
/// bytes alone.
pub uninterp spec fn jubjub_extended_small_order(bytes: Seq<u8>) -> Option<bool>;

/// The number of spends in the bundle, via `Bundle::shielded_spends`.
#[verifier::external_body]
pub(crate) fn spend_count(bundle: &SaplingBundle) -> (count: usize)
    ensures
        count == sapling_spends(*bundle).len(),
        count == sapling_spend_auth_sigs(*bundle).len(),
        count <= MAX_DESCRIPTIONS,
{
    bundle.0.shielded_spends().len()
}

/// The number of outputs in the bundle, via `Bundle::shielded_outputs`.
#[verifier::external_body]
pub(crate) fn output_count(bundle: &SaplingBundle) -> (count: usize)
    ensures
        count == sapling_outputs(*bundle).len(),
        count <= MAX_DESCRIPTIONS,
{
    bundle.0.shielded_outputs().len()
}

impl SaplingItem {
    /// Number of Groth16 proofs this bundle contributes to a batch: one per
    /// spend plus one per output.
    pub fn proof_count(&self) -> (count: usize)
        ensures
            count == sapling_spends(self.bundle).len() + sapling_outputs(self.bundle).len(),
    {
        spend_count(&self.bundle) + output_count(&self.bundle)
    }
}

/// The Sapling verifying keys, in both forms the two paths need: plain for
/// the batch path, prepared for the independent one.
pub struct SaplingKeys {
    spend_vk: SpendVerifyingKey,
    output_vk: OutputVerifyingKey,
    prepared_spend_vk: PreparedSpendVerifyingKey,
    prepared_output_vk: PreparedOutputVerifyingKey,
}

/// The spend key prepared for individual verification, via
/// `SpendVerifyingKey::prepare`.
#[verifier::external_body]
fn prepare_spend_key(spend_vk: &SpendVerifyingKey) -> PreparedSpendVerifyingKey {
    spend_vk.prepare()
}

/// The output key prepared for individual verification, via
/// `OutputVerifyingKey::prepare`.
#[verifier::external_body]
fn prepare_output_key(output_vk: &OutputVerifyingKey) -> PreparedOutputVerifyingKey {
    output_vk.prepare()
}

impl SaplingKeys {
    /// The spend verifying key the batch path uses.
    pub closed spec fn spend_key(&self) -> SpendVerifyingKey {
        self.spend_vk
    }

    /// The output verifying key the batch path uses.
    pub closed spec fn output_key(&self) -> OutputVerifyingKey {
        self.output_vk
    }

    /// The Sapling verifying keys from the spend and output verifying keys,
    /// each also prepared for individual verification. Both forms derive from
    /// the same keys.
    pub fn from_verifying_keys(spend_vk: SpendVerifyingKey, output_vk: OutputVerifyingKey) -> (keys: SaplingKeys)
        ensures
            keys.spend_key() == spend_vk,
            keys.output_key() == output_vk,
    {
        let prepared_spend_vk = prepare_spend_key(&spend_vk);
        let prepared_output_vk = prepare_output_key(&output_vk);
        SaplingKeys { spend_vk, output_vk, prepared_spend_vk, prepared_output_vk }
    }
}

/// Whether a transaction carries a Sapling bundle: a function of the
/// transaction.
pub open spec fn transaction_has_sapling(tx: Transaction) -> bool {
    transaction_sapling_bundle(tx) is Some
}

/// The Sapling bundle a transaction carries, if any.
pub uninterp spec fn transaction_sapling_bundle(tx: Transaction) -> Option<SaplingBundle>;

/// Whether the transaction carries a Sapling bundle, via
/// `Transaction::has_sapling_shielded_data`.
#[verifier::external_body]
fn has_sapling_bundle(tx: &Transaction) -> (has: bool)
    ensures
        has == transaction_has_sapling(*tx),
{
    tx.has_sapling_shielded_data()
}

/// The Sapling bundle, via `SigHasher::sapling_bundle`: present exactly when
/// the transaction the hasher was built over carries one.
#[verifier::external_body]
fn sapling_pool_bundle(sighasher: &SigHasher) -> (bundle: Option<SaplingBundle>)
    ensures
        bundle is Some <==> transaction_has_sapling(sighasher_origin(*sighasher).0),
        bundle == transaction_sapling_bundle(sighasher_origin(*sighasher).0),
{
    sighasher.sapling_bundle().map(SaplingBundle)
}

/// Extract the Sapling item using an explicit network upgrade for the
/// sighash (computed against no transparent prevouts). `None` for
/// transactions with no Sapling bundle or no sighasher for `nu`.
pub fn item_from_tx_with_nu(tx: &Transaction, nu: NetworkUpgrade) -> (item: Option<SaplingItem>)
    ensures
        item is Some <==> transaction_has_sapling(*tx) && sighasher_builds(*tx, nu),
        item matches Some(i) ==> sighash_value(i.sighash) == transaction_sighash(*tx, nu),
        item matches Some(i) ==> transaction_sapling_bundle(*tx) == Some(i.bundle),
{
    if !has_sapling_bundle(tx) {
        return None;
    }
    let sighasher = match sighasher_without_prevouts(tx, nu) {
        Some(s) => s,
        None => return None,
    };
    let bundle = match sapling_pool_bundle(&sighasher) {
        Some(b) => b,
        None => return None,
    };
    let sighash = sighash_all(&sighasher);
    Some(SaplingItem { bundle, sighash })
}

/// Whether [`item_from_tx`] yields an item for a transaction: it commits to
/// a network upgrade, carries a Sapling bundle, and a signature hasher builds
/// for it under that upgrade.
pub open spec fn sapling_item_available(tx: Transaction) -> bool {
    transaction_network_upgrade(tx) matches Some(nu) && transaction_has_sapling(tx) && sighasher_builds(tx, nu)
}

/// Extract the Sapling item from a transaction, using its own network
/// upgrade for the sighash. `None` for transactions with no network upgrade
/// or no Sapling bundle.
pub fn item_from_tx(tx: &Transaction) -> (item: Option<SaplingItem>)
    ensures
        item is Some <==> sapling_item_available(*tx),
        item matches Some(i) ==> transaction_sapling_bundle(*tx) == Some(i.bundle) && (transaction_network_upgrade(
            *tx,
        ) matches Some(nu) && sighash_value(i.sighash) == transaction_sighash(*tx, nu)),
{
    match transaction_upgrade(tx) {
        Some(nu) => item_from_tx_with_nu(tx, nu),
        None => None,
    }
}

/// The bundles a batch validator has been given to check, in order, each with
/// the sighash its signatures were queued over. A bundle that failed its
/// checks may have left part of its proofs and signatures in the batch.
pub uninterp spec fn sapling_validator_bundles(validator: BatchValidator) -> Seq<(SaplingBundle, Seq<u8>)>;

/// Whether a bundle passes the consensus checks `check_bundle` makes before
/// the batch: every spend's proof decodes and its `rk` is not of small
/// order, and every output's ephemeral key and proof decode and the key is
/// not of small order.
pub open spec fn sapling_bundle_passes(bundle: SaplingBundle) -> bool {
    &&& forall|i: int| 0 <= i < sapling_spends(bundle).len() ==> spend_queued(#[trigger] sapling_spends(bundle)[i])
    &&& forall|j: int| 0 <= j < sapling_outputs(bundle).len() ==> output_passes(#[trigger] sapling_outputs(bundle)[j])
}

/// A fresh batch validator, via `BatchValidator::new`: it has been given
/// nothing.
#[verifier::external_body]
fn new_sapling_validator() -> (validator: BatchValidator)
    ensures
        sapling_validator_bundles(validator) == Seq::<(SaplingBundle, Seq<u8>)>::empty(),
{
    BatchValidator::new()
}

/// Check a clone of the bundle against the consensus rules and queue what it
/// contributes, via `BatchValidator::check_bundle`: `true` exactly when it
/// passes them (the binding signature is queued once every spend and output
/// has passed).
#[verifier::external_body]
fn check_sapling_bundle(validator: &mut BatchValidator, bundle: &SaplingBundle, sighash: [u8; 32]) -> (ok: bool)
    ensures
        ok == sapling_bundle_passes(*bundle),
        sapling_validator_bundles(*final(validator)) == sapling_validator_bundles(*old(validator)).push(
            (*bundle, sighash@),
        ),
{
    validator.check_bundle(bundle.0.clone(), sighash)
}

/// Batch-validate everything queued with `rng`, via
/// `BatchValidator::validate`, whose documentation promises `true` when every
/// queued proof and signature is valid and `false` when one or more is
/// invalid; a validator given no bundle accepts. A bundle that passed its
/// checks has all of its proofs and signatures queued, so one of them that is
/// not valid on its own makes the verdict `false`. (A bundle that failed its
/// checks may have queued only part of them, so no more is said of it.) With
/// the `multicore` feature the proof batches draw their scalars from the
/// system; the documentation states the verdict without exception, and so
/// does this contract.
#[verifier::external_body]
fn validate_sapling(validator: BatchValidator, keys: &SaplingKeys, rng: StdRng) -> (ok: bool)
    ensures
        sapling_validator_bundles(validator).len() == 0 ==> ok,
        (forall|k: int|
            0 <= k < sapling_validator_bundles(validator).len() ==> sapling_bundle_valid(
                #[trigger] sapling_validator_bundles(validator)[k],
                *keys,
            )) ==> ok,
        (exists|k: int|
            0 <= k < sapling_validator_bundles(validator).len() && sapling_bundle_passes(
                (#[trigger] sapling_validator_bundles(validator)[k]).0,
            ) && !sapling_bundle_valid(sapling_validator_bundles(validator)[k], *keys)) ==> !ok,
{
    validator.validate(&keys.spend_vk, &keys.output_vk, rng)
}

/// The value commitments a single-transaction verification context has
/// accumulated, in order: for each, the bundle it came from, whether it was a
/// spend's (added) or an output's (subtracted), and its index there.
pub uninterp spec fn sapling_context_terms(vctx: SaplingVerificationContext) -> Seq<(SaplingBundle, bool, int)>;

/// Whether the spend at `index` passes `SaplingVerificationContext::check_spend`
/// over `sighash` under the prepared spend key (its `rk` not of small order,
/// its spend-authorization signature and its proof valid), its proof having
/// decoded. The verdict does not read the context's accumulated sum: a
/// function of the bundle, the index, the message and the keys.
pub uninterp spec fn sapling_spend_verdict(bundle: SaplingBundle, index: int, sighash: Seq<u8>, keys: SaplingKeys) -> bool;

/// Whether the output at `index` passes `SaplingVerificationContext::check_output`
/// under the prepared output key (its ephemeral key not of small order, its
/// proof valid), its ephemeral key and proof having decoded. The verdict does
/// not read the context's accumulated sum: a function of the bundle, the
/// index and the keys.
pub uninterp spec fn sapling_output_verdict(bundle: SaplingBundle, index: int, keys: SaplingKeys) -> bool;

/// Whether `SaplingVerificationContext::final_check` accepts the bundle's
/// value balance and binding signature over `sighash`, the context having
/// accumulated `terms`: a function of these.
pub uninterp spec fn sapling_final_verdict(terms: Seq<(SaplingBundle, bool, int)>, bundle: SaplingBundle, sighash: Seq<u8>) -> bool;

/// A fresh single-transaction context, via `SaplingVerificationContext::new`:
/// it has accumulated nothing.
#[verifier::external_body]
fn new_single_context() -> (vctx: SaplingVerificationContext)
    ensures
        sapling_context_terms(vctx) == Seq::<(SaplingBundle, bool, int)>::empty(),
{
    SaplingVerificationContext::new()
}

/// The spend at `index` checked on its own: its proof read with
/// `Proof::read`, then `SaplingVerificationContext::check_spend` (which
/// verifies the proof and the spend-authorization signature directly, and
/// accumulates the spend's value commitment when its `rk` is usable). `None`
/// when there is no such spend or its proof does not decode.
#[verifier::external_body]
fn check_spend_alone(
    vctx: &mut SaplingVerificationContext,
    bundle: &SaplingBundle,
    index: usize,
    sighash: &[u8; 32],
    keys: &SaplingKeys,
) -> (verdict: Option<bool>)
    ensures
        verdict is Some <==> (index < sapling_spends(*bundle).len() && groth16_proof_decodes(
            sapling_spends(*bundle)[index as int].1,
        )),
        verdict matches Some(ok) ==> ok == sapling_spend_verdict(*bundle, index as int, sighash@, *keys),
        verdict == Some(true) ==> spend_queued(sapling_spends(*bundle)[index as int]),
        verdict == Some(true) ==> sapling_context_terms(*final(vctx)) == sapling_context_terms(*old(vctx)).push(
            (*bundle, true, index as int),
        ),
{
    let s = bundle.0.shielded_spends().get(index)?;
    let proof = Proof::<Bls12>::read(&s.zkproof()[..]).ok()?;
    let (cv, anchor, nf, rk, sig) = (s.cv(), *s.anchor(), &s.nullifier().0, *s.rk(), *s.spend_auth_sig());
    Some(vctx.check_spend(cv, anchor, nf, rk, sighash, sig, proof, &keys.prepared_spend_vk))
}

/// The output at `index` checked on its own: its ephemeral key decoded with
/// `ExtendedPoint::from_bytes` and its proof read with `Proof::read`, then
/// `SaplingVerificationContext::check_output` (which accumulates the
/// output's value commitment when its key is not of small order). `None`
/// when there is no such output or its key or proof does not decode.
#[verifier::external_body]
fn check_output_alone(
    vctx: &mut SaplingVerificationContext,
    bundle: &SaplingBundle,
    index: usize,
    keys: &SaplingKeys,
) -> (verdict: Option<bool>)
    ensures
        verdict is Some <==> (index < sapling_outputs(*bundle).len() && output_decodes(
            sapling_outputs(*bundle)[index as int],
        )),
        verdict matches Some(ok) ==> ok == sapling_output_verdict(*bundle, index as int, *keys),
        verdict == Some(true) ==> output_passes(sapling_outputs(*bundle)[index as int]),
        verdict == Some(true) ==> sapling_context_terms(*final(vctx)) == sapling_context_terms(*old(vctx)).push(
            (*bundle, false, index as int),
        ),
{
    let o = bundle.0.shielded_outputs().get(index)?;
    let epk: Option<jubjub::ExtendedPoint> = jubjub::ExtendedPoint::from_bytes(&o.ephemeral_key().0).into();
    let proof = Proof::<Bls12>::read(&o.zkproof()[..]).ok()?;
    Some(vctx.check_output(o.cv(), *o.cmu(), epk?, proof, &keys.prepared_output_vk))
}

/// The value balance and binding signature checked, via
/// `SaplingVerificationContext::final_check`.
#[verifier::external_body]
fn final_check_alone(vctx: &SaplingVerificationContext, bundle: &SaplingBundle, sighash: &[u8; 32]) -> (ok: bool)
    ensures
        ok == sapling_final_verdict(sapling_context_terms(*vctx), *bundle, sighash@),
{
    vctx.final_check(*bundle.0.value_balance(), sighash, bundle.0.authorization().binding_sig)
}

/// Every value commitment of a bundle in the order the direct path
/// accumulates them: each spend's, then each output's.
pub open spec fn bundle_terms(bundle: SaplingBundle) -> Seq<(SaplingBundle, bool, int)> {
    spend_terms(bundle, sapling_spends(bundle).len() as int) + output_terms(
        bundle,
        sapling_outputs(bundle).len() as int,
    )
}

/// The first `n` spend commitments of a bundle.
pub open spec fn spend_terms(bundle: SaplingBundle, n: int) -> Seq<(SaplingBundle, bool, int)> {
    Seq::new(n as nat, |k: int| (bundle, true, k))
}

/// The first `n` output commitments of a bundle.
pub open spec fn output_terms(bundle: SaplingBundle, n: int) -> Seq<(SaplingBundle, bool, int)> {
    Seq::new(n as nat, |k: int| (bundle, false, k))
}

/// Whether an output's ephemeral key and proof both decode.
pub open spec fn output_decodes(output: (Seq<u8>, Seq<u8>)) -> bool {
    jubjub_extended_small_order(output.0) is Some && groth16_proof_decodes(output.1)
}

/// Whether every proof of the bundle, and every output's ephemeral key,
/// decodes.
pub open spec fn bundle_decodes(bundle: SaplingBundle) -> bool {
    &&& forall|i: int| 0 <= i < sapling_spends(bundle).len() ==> groth16_proof_decodes(
        #[trigger] sapling_spends(bundle)[i].1,
    )
    &&& forall|j: int| 0 <= j < sapling_outputs(bundle).len() ==> output_decodes(#[trigger] sapling_outputs(bundle)[j])
}

/// Zebra's Sapling verifier: Groth16 spend/output proofs and RedJubjub
/// signatures, through `sapling_crypto::BatchValidator`. Items keep the
/// default weight of one per bundle.
pub struct Sapling;

/// The verdict of the direct path over one item: every proof and output key
/// decodes, every spend and output passes its own check over the item's
/// sighash, and the value balance and binding signature pass the final
/// check over all of the bundle's value commitments.
pub open spec fn sapling_direct_verdict(item: &SaplingItem, keys: SaplingKeys) -> bool {
    sapling_bundle_valid((item.bundle, sighash_value(item.sighash)), keys)
}

/// Whether a bundle is valid over a sighash on its own: every proof and
/// output key decodes, it passes the consensus checks, every spend and output
/// passes its own check, and the value balance and binding signature pass
/// the final check over all of its value commitments.
pub open spec fn sapling_bundle_valid(queued: (SaplingBundle, Seq<u8>), keys: SaplingKeys) -> bool {
    let b = queued.0;
    let sh = queued.1;
    &&& bundle_decodes(b)
    &&& sapling_bundle_passes(b)
    &&& forall|i: int| 0 <= i < sapling_spends(b).len() ==> #[trigger] sapling_spend_verdict(b, i, sh, keys)
    &&& forall|j: int| 0 <= j < sapling_outputs(b).len() ==> #[trigger] sapling_output_verdict(b, j, keys)
    &&& sapling_final_verdict(bundle_terms(b), b, sh)
}

/// What every outcome of the batch path over `items` satisfies: one verdict
/// per item; a bundle failing the consensus checks is rejected; every bundle
/// that passed receives the one shared verdict; and when every item is valid
/// on its own, all are accepted.
pub open spec fn sapling_batch_facts(items: Seq<&SaplingItem>, keys: SaplingKeys, verdicts: Seq<bool>) -> bool {
    &&& verdicts.len() == items.len()
    &&& forall|i: int, j: int|
        0 <= i < items.len() && 0 <= j < items.len() && sapling_bundle_passes(#[trigger] items[i].bundle)
            && !sapling_direct_verdict(items[i], keys) ==> !#[trigger] verdicts[j]
    &&& (forall|i: int| 0 <= i < items.len() ==> sapling_bundle_passes(#[trigger] items[i].bundle)) ==> forall|
        i: int,
    | 0 <= i < items.len() ==> #[trigger] verdicts[i] == (forall|j: int|
        0 <= j < items.len() ==> #[trigger] sapling_direct_verdict(items[j], keys))
    &&& forall|i: int| 0 <= i < items.len() && #[trigger] verdicts[i] ==> sapling_bundle_passes(items[i].bundle)
    &&& forall|i: int, j: int|
        0 <= i < items.len() && 0 <= j < items.len() && sapling_bundle_passes(#[trigger] items[i].bundle)
            && sapling_bundle_passes(#[trigger] items[j].bundle) ==> verdicts[i] == verdicts[j]
    &&& (forall|i: int| 0 <= i < items.len() ==> #[trigger] sapling_direct_verdict(items[i], keys)) ==> forall|i: int|
        0 <= i < items.len() ==> #[trigger] verdicts[i]
}

/// What every outcome of the single path over `item` satisfies: a bundle
/// failing the consensus checks is rejected, and one valid on its own is
/// accepted.
pub open spec fn sapling_single_facts(item: &SaplingItem, keys: SaplingKeys, verdict: bool) -> bool {
    &&& verdict == sapling_direct_verdict(item, keys)
    &&& !sapling_bundle_passes(item.bundle) ==> !verdict
    &&& sapling_direct_verdict(item, keys) ==> verdict
}

/// Batch soundness: when some bundle that passes the consensus checks is not
/// valid on its own (a spend proof, output proof or signature does not
/// verify), the batch accepts no item at all.
pub proof fn lemma_sapling_batch_rejects_all_with_one_invalid(
    items: Seq<&SaplingItem>,
    keys: SaplingKeys,
    verdicts: Seq<bool>,
    i: int,
)
    requires
        sapling_batch_facts(items, keys, verdicts),
        0 <= i < items.len(),
        sapling_bundle_passes(items[i].bundle),
        !sapling_direct_verdict(items[i], keys),
    ensures
        forall|j: int| 0 <= j < items.len() ==> !verdicts[j],
{
    assert forall|j: int| 0 <= j < items.len() implies !verdicts[j] by {
        assert(sapling_bundle_passes(items[i].bundle) && !sapling_direct_verdict(items[i], keys));
        assert(!verdicts[j]);
    }
}

/// The single path rejects a bundle that passes the consensus checks but
/// whose spend proof, output proof or signature does not verify, and accepts
/// one valid on its own.
pub proof fn lemma_sapling_single_is_the_direct_verdict(item: &SaplingItem, keys: SaplingKeys, verdict: bool)
    requires
        sapling_single_facts(item, keys, verdict),
    ensures
        sapling_bundle_passes(item.bundle) && !sapling_direct_verdict(item, keys) ==> !verdict,
        sapling_direct_verdict(item, keys) ==> verdict,
        !sapling_bundle_passes(item.bundle) ==> !verdict,
{
}

/// Batch and single agree: over the same items and keys, the batch accepts
/// every item exactly when the single path accepts every item.
pub proof fn lemma_sapling_batch_agrees_with_singles(
    items: Seq<&SaplingItem>,
    keys: SaplingKeys,
    verdicts: Seq<bool>,
    singles: Seq<bool>,
)
    requires
        sapling_batch_facts(items, keys, verdicts),
        singles.len() == items.len(),
        forall|i: int| 0 <= i < items.len() ==> sapling_single_facts(items[i], keys, #[trigger] singles[i]),
    ensures
        batch_verifier::all_true(verdicts) == batch_verifier::all_true(singles),
{
    if batch_verifier::all_true(verdicts) {
        assert forall|i: int| 0 <= i < singles.len() implies #[trigger] singles[i] by {
            assert(verdicts[i]);
            assert(sapling_single_facts(items[i], keys, singles[i]));
            if !sapling_direct_verdict(items[i], keys) {
                assert(!verdicts[i]);
            }
        }
    }
    if batch_verifier::all_true(singles) {
        assert forall|i: int| 0 <= i < items.len() implies sapling_bundle_passes(#[trigger] items[i].bundle) by {
            assert(singles[i]);
            assert(sapling_single_facts(items[i], keys, singles[i]));
        }
        assert forall|i: int| 0 <= i < verdicts.len() implies #[trigger] verdicts[i] by {
            assert forall|j: int| 0 <= j < items.len() implies #[trigger] sapling_direct_verdict(items[j], keys) by {
                assert(singles[j]);
                assert(sapling_single_facts(items[j], keys, singles[j]));
            }
        }
    }
}

impl BatchVerifier for Sapling {
    type Item = SaplingItem;
    type Context = SaplingKeys;
    const NAME: &'static str = "sapling (Groth16 + RedJubjub)";

    /// The shared-verdict shape, with what every batch outcome satisfies.
    open spec fn batch_spec(items: Seq<&SaplingItem>, ctx: &SaplingKeys, seed: u64, verdicts: Seq<bool>) -> bool {
        shared_verdict_shape(items.len(), verdicts) && sapling_batch_facts(items, *ctx, verdicts)
    }

    /// What every single-path outcome satisfies.
    open spec fn single_spec(item: &SaplingItem, ctx: &SaplingKeys, seed: u64, verdict: bool) -> bool {
        sapling_single_facts(item, *ctx, verdict)
    }

    /// The item's direct verdict.
    open spec fn independent_spec(item: &SaplingItem, ctx: &SaplingKeys, verdict: bool) -> bool {
        verdict == sapling_direct_verdict(item, *ctx)
    }

    /// Every item has a direct path.
    open spec fn has_independent_path(item: &SaplingItem, ctx: &SaplingKeys) -> bool {
        true
    }

    /// All bundles through one validator, one verdict per bundle: a bundle
    /// rejected at check time fails on its own, every bundle that passed
    /// receives the batch's single verdict. Does not stop at a rejected
    /// bundle.
    fn validate_batch(items: &[&SaplingItem], ctx: &SaplingKeys, seed: u64) -> (verdicts: Vec<bool>) {
        let mut validator = new_sapling_validator();
        let n = items.len();
        let mut checked: Vec<bool> = Vec::new();
        let mut i: usize = 0;
        while i < n
            invariant
                n == items@.len(),
                i <= n,
                checked@.len() == i,
                forall|k: int| 0 <= k < i ==> #[trigger] checked@[k] == sapling_bundle_passes(items@[k].bundle),
                sapling_validator_bundles(validator).len() == i,
                forall|k: int|
                    0 <= k < i ==> #[trigger] sapling_validator_bundles(validator)[k] == (
                    items@[k].bundle,
                    sighash_value(items@[k].sighash),
                ),
            decreases n - i,
        {
            let item = items[i];
            checked.push(check_sapling_bundle(&mut validator, &item.bundle, sighash_bytes(&item.sighash)));
            i = i + 1;
        }
        proof {
            if forall|k: int| 0 <= k < n ==> #[trigger] sapling_direct_verdict(items@[k], *ctx) {
                assert forall|k: int| 0 <= k < sapling_validator_bundles(validator).len() implies sapling_bundle_valid(
                    #[trigger] sapling_validator_bundles(validator)[k],
                    *ctx,
                ) by {
                    assert(sapling_direct_verdict(items@[k], *ctx));
                }
            }
        }
        let shared = validate_sapling(validator, ctx, seeded_rng(seed));
        let mut verdicts: Vec<bool> = Vec::new();
        let mut j: usize = 0;
        while j < n
            invariant
                n == items@.len(),
                checked@.len() == n,
                j <= n,
                verdicts@.len() == j,
                forall|k: int| 0 <= k < j ==> #[trigger] verdicts@[k] == (checked@[k] && shared),
            decreases n - j,
        {
            verdicts.push(checked[j] && shared);
            j = j + 1;
        }
        let ghost q = checked@;
        assert(forall|k: int| 0 <= k < n ==> #[trigger] verdicts@[k] == (q[k] && shared));
        assert(sapling_batch_facts(items@, *ctx, verdicts@)) by {
            if exists|k: int| 0 <= k < n && sapling_bundle_passes(#[trigger] items@[k].bundle) && !sapling_direct_verdict(
                items@[k],
                *ctx,
            ) {
                let k = choose|k: int|
                    0 <= k < n && sapling_bundle_passes(#[trigger] items@[k].bundle) && !sapling_direct_verdict(
                        items@[k],
                        *ctx,
                    );
                assert(sapling_validator_bundles(validator)[k] == (items@[k].bundle, sighash_value(items@[k].sighash)));
                assert(!shared);
            }
            if forall|k: int| 0 <= k < n ==> #[trigger] sapling_direct_verdict(items@[k], *ctx) {
                assert(shared);
                assert forall|k: int| 0 <= k < n implies #[trigger] verdicts@[k] by {
                    assert(sapling_direct_verdict(items@[k], *ctx));
                    assert(q[k]);
                }
            }
        }
        assert(q.len() == n && verdicts@.len() == n && (forall|k: int|
            0 <= k < n ==> #[trigger] verdicts@[k] ==> q[k]) && (forall|a: int, b: int|
            0 <= a < n && 0 <= b < n && #[trigger] q[a] && #[trigger] q[b] ==> verdicts@[a] == verdicts@[b]));
        verdicts
    }

    /// One bundle alone: a batch of one.
    fn validate_one(item: &SaplingItem, ctx: &SaplingKeys, seed: u64) -> (verdict: bool) {
        let mut validator = new_sapling_validator();
        if !check_sapling_bundle(&mut validator, &item.bundle, sighash_bytes(&item.sighash)) {
            return false;
        }
        assert(sapling_validator_bundles(validator)[0] == (item.bundle, sighash_value(item.sighash)));
        validate_sapling(validator, ctx, seeded_rng(seed))
    }

    /// The independent path: each spend and output checked on its own
    /// (decoding its proof, and for an output its ephemeral key, first), then
    /// the value balance and binding signature. The first failure rejects.
    fn validate_one_independent(item: &SaplingItem, ctx: &SaplingKeys) -> (verdict: Option<bool>)
        ensures
            verdict == Some(sapling_direct_verdict(item, *ctx)),
            !bundle_decodes(item.bundle) ==> verdict == Some(false),
    {
        let ghost b = item.bundle;
        let ghost sh = sighash_value(item.sighash);
        let mut vctx = new_single_context();
        let sighash = sighash_bytes(&item.sighash);
        let spends = spend_count(&item.bundle);
        let mut i: usize = 0;
        assert(sapling_context_terms(vctx) =~= spend_terms(b, 0));
        while i < spends
            invariant
                i <= spends,
                b == item.bundle,
                sh == sighash_value(item.sighash),
                sighash@ == sh,
                spends == sapling_spends(b).len(),
                forall|k: int| 0 <= k < i ==> groth16_proof_decodes(#[trigger] sapling_spends(b)[k].1),
                forall|k: int| 0 <= k < i ==> #[trigger] sapling_spend_verdict(b, k, sh, *ctx),
                forall|k: int| 0 <= k < i ==> spend_queued(#[trigger] sapling_spends(b)[k]),
                sapling_context_terms(vctx) == spend_terms(b, i as int),
            decreases spends - i,
        {
            match check_spend_alone(&mut vctx, &item.bundle, i, &sighash, ctx) {
                Some(true) => {},
                _ => return Some(false),
            }
            assert(spend_terms(b, i as int + 1) =~= spend_terms(b, i as int).push((b, true, i as int)));
            i = i + 1;
        }
        let outputs = output_count(&item.bundle);
        let mut j: usize = 0;
        assert(spend_terms(b, spends as int) + output_terms(b, 0) =~= spend_terms(b, spends as int));
        while j < outputs
            invariant
                j <= outputs,
                b == item.bundle,
                sh == sighash_value(item.sighash),
                sighash@ == sh,
                spends == sapling_spends(b).len(),
                outputs == sapling_outputs(b).len(),
                forall|k: int| 0 <= k < spends ==> groth16_proof_decodes(#[trigger] sapling_spends(b)[k].1),
                forall|k: int| 0 <= k < spends ==> #[trigger] sapling_spend_verdict(b, k, sh, *ctx),
                forall|k: int| 0 <= k < spends ==> spend_queued(#[trigger] sapling_spends(b)[k]),
                forall|k: int| 0 <= k < j ==> output_passes(#[trigger] sapling_outputs(b)[k]),
                forall|k: int| 0 <= k < j ==> output_decodes(#[trigger] sapling_outputs(b)[k]),
                forall|k: int| 0 <= k < j ==> #[trigger] sapling_output_verdict(b, k, *ctx),
                sapling_context_terms(vctx) == spend_terms(b, spends as int) + output_terms(b, j as int),
            decreases outputs - j,
        {
            match check_output_alone(&mut vctx, &item.bundle, j, ctx) {
                Some(true) => {},
                _ => return Some(false),
            }
            assert(output_terms(b, j as int + 1) =~= output_terms(b, j as int).push((b, false, j as int)));
            assert(spend_terms(b, spends as int) + output_terms(b, j as int + 1) =~= (spend_terms(
                b,
                spends as int,
            ) + output_terms(b, j as int)).push((b, false, j as int)));
            j = j + 1;
        }
        Some(final_check_alone(&vctx, &item.bundle, &sighash))
    }
}

} // verus!
