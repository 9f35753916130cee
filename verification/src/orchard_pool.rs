//! Zebra's Orchard verifier: halo2 proofs and RedPallas signatures, driven
//! through `orchard`'s `BatchValidator`.
//!
//! The batch path queues every bundle into one validator and validates once.
//! A bundle that fails to enqueue (a cross-address-disabled bundle under a key
//! whose circuit cannot constrain the restriction) is rejected on its own,
//! without poisoning the rest; every bundle that did enqueue receives the one
//! shared verdict. The single path is the same validator fed one bundle.

use vstd::prelude::*;

use std::sync::Arc;

use orchard::bundle::{Authorized, BatchValidator, Bundle};
use orchard::circuit::VerifyingKey;
use orchard::primitives::redpallas::{batch as redpallas_batch, Binding, SpendAuth};
use rand::rngs::StdRng;
use rand::SeedableRng;
use zcash_protocol::value::ZatBalance;
use zebra_chain::parameters::NetworkUpgrade;
use zebra_chain::transaction::{HashType, SigHash, SigHasher, Transaction};
use zebra_chain::transparent;

use crate::batch_verifier::{self, BatchVerifier};
use crate::era::{network_upgrade_name, upgrade_name, UpgradeName};
use crate::{EquivReport, Pool};

verus! {

/// The concrete Orchard bundle type Zebra hands us (authorized, with a
/// `ZatBalance` value balance). Opaque to verification: every use of it goes
/// through the `orchard` calls below.
#[verifier::external_body]
pub struct OrchardBundle(pub Bundle<Authorized, ZatBalance>);

/// A transaction signature hash.
#[verifier::external_type_specification]
#[verifier::external_body]
pub struct ExSigHash(SigHash);

/// `orchard`'s batch validation context.
#[verifier::external_type_specification]
#[verifier::external_body]
pub struct ExBatchValidator<'a>(BatchValidator<'a>);

/// A seedable ChaCha-based RNG.
#[verifier::external_type_specification]
#[verifier::external_body]
pub struct ExStdRng(StdRng);

/// A zebra-chain signature hasher over one transaction.
#[verifier::external_type_specification]
#[verifier::external_body]
pub struct ExSigHasher(SigHasher);

/// The generator `StdRng::seed_from_u64` makes of `seed`: a function of the
/// seed.
pub uninterp spec fn seeded_rng_state(seed: u64) -> StdRng;

/// A deterministic RNG seeded from `seed`, via `StdRng::seed_from_u64`.
#[verifier::external_body]
pub(crate) fn seeded_rng(seed: u64) -> (rng: StdRng)
    ensures
        rng == seeded_rng_state(seed),
{
    StdRng::seed_from_u64(seed)
}

/// The 32 bytes a signature hash holds.
pub uninterp spec fn sighash_value(sighash: SigHash) -> Seq<u8>;

/// The 32 bytes of a signature hash (its only field).
#[verifier::external_body]
pub(crate) fn sighash_bytes(sighash: &SigHash) -> (bytes: [u8; 32])
    ensures
        bytes@ == sighash_value(*sighash),
{
    sighash.0
}

/// The verifying key a batch validator validates against.
pub uninterp spec fn validator_key(validator: BatchValidator) -> VerifyingKey;

/// Whether a verifying key's circuit constrains the cross-address
/// restriction (`VerifyingKey::supports_cross_address_restriction`): a
/// function of the key.
pub uninterp spec fn key_supports_restriction(vk: VerifyingKey) -> bool;

/// Whether a bundle's flags enable cross-address transfers
/// (`Flags::cross_address_enabled`): a function of the bundle.
pub uninterp spec fn orchard_cross_address_enabled(bundle: OrchardBundle) -> bool;

/// Whether `BatchValidator::add_bundle` accepts a bundle under `vk`: unless
/// the bundle disables cross-address transfers and the key's circuit cannot
/// constrain that restriction.
pub open spec fn orchard_enqueues(bundle: OrchardBundle, vk: VerifyingKey) -> bool {
    orchard_cross_address_enabled(bundle) || key_supports_restriction(vk)
}

/// The bundles a batch validator has queued, in order, each with the
/// sighash its signatures were queued over.
pub uninterp spec fn orchard_validator_bundles(validator: BatchValidator) -> Seq<(OrchardBundle, Seq<u8>)>;

/// A fresh batch validator bound to `vk`, via `BatchValidator::new`: it has
/// queued nothing.
#[verifier::external_body]
fn new_batch_validator<'a>(vk: &'a VerifyingKey) -> (validator: BatchValidator<'a>)
    ensures
        validator_key(validator) == *vk,
        orchard_validator_bundles(validator) == Seq::<(OrchardBundle, Seq<u8>)>::empty(),
{
    BatchValidator::new(vk)
}

/// Queue a bundle's proof and signatures, via `BatchValidator::add_bundle`;
/// `true` when it was queued, which is exactly when the bundle enables
/// cross-address transfers or the validator's key can constrain the
/// restriction. A bundle that is not queued adds nothing.
#[verifier::external_body]
fn queue_bundle(validator: &mut BatchValidator, bundle: &OrchardBundle, sighash: [u8; 32]) -> (ok: bool)
    ensures
        ok == (orchard_cross_address_enabled(*bundle) || key_supports_restriction(validator_key(*old(validator)))),
        validator_key(*final(validator)) == validator_key(*old(validator)),
        orchard_validator_bundles(*final(validator)) == if ok {
            orchard_validator_bundles(*old(validator)).push((*bundle, sighash@))
        } else {
            orchard_validator_bundles(*old(validator))
        },
{
    validator.add_bundle(&bundle.0, sighash).is_ok()
}

/// Batch-validate everything queued, via `BatchValidator::validate`, whose
/// documentation promises `true` exactly when every proof and signature of
/// every queued bundle is valid and `false` when one or more is invalid (an
/// empty queue is valid). The proof batch combines its checks with scalars
/// drawn from the system; its documentation states the verdict without
/// exception, and so does this contract.
#[verifier::external_body]
fn validate_queued(validator: BatchValidator, rng: StdRng) -> (ok: bool)
    ensures
        ok == (forall|k: int|
            0 <= k < orchard_validator_bundles(validator).len() ==> orchard_bundle_valid(
                #[trigger] orchard_validator_bundles(validator)[k],
                validator_key(validator),
            )),
        orchard_validator_bundles(validator).len() == 0 ==> ok,
        (forall|k: int|
            0 <= k < orchard_validator_bundles(validator).len() ==> orchard_bundle_valid(
                #[trigger] orchard_validator_bundles(validator)[k],
                validator_key(validator),
            )) ==> ok,
{
    validator.validate(rng)
}

/// Whether the bundle's halo2 proof verifies under `vk` through
/// `Bundle::verify_proof` (a single-proof verifier over a transcript of the
/// proof bytes, with no randomness): a function of the bundle and the key.
pub uninterp spec fn orchard_proof_verdict(bundle: OrchardBundle, vk: VerifyingKey) -> bool;

/// Whether each action's spend-authorization signature verifies over
/// `sighash` through `batch::Item::verify_single`, in action order: a
/// function of the bundle and the message.
pub uninterp spec fn orchard_spend_auth_verdicts(bundle: OrchardBundle, sighash: Seq<u8>) -> Seq<bool>;

/// Whether the binding signature verifies over `sighash` under the bundle's
/// binding validating key through `batch::Item::verify_single`: a function
/// of the bundle and the message.
pub uninterp spec fn orchard_binding_verdict(bundle: OrchardBundle, sighash: Seq<u8>) -> bool;

/// Whether the bundle's halo2 proof verifies on its own, via
/// `Bundle::verify_proof`.
#[verifier::external_body]
fn proof_verifies(bundle: &OrchardBundle, vk: &VerifyingKey) -> (ok: bool)
    ensures
        ok == orchard_proof_verdict(*bundle, *vk),
{
    bundle.0.verify_proof(vk).is_ok()
}

/// Whether each action's spend-authorization signature verifies on its
/// own, in action order: each is made a batch item under its `rk` over
/// `sighash` (`create_batch_item`) and checked with
/// `batch::Item::verify_single`. One verdict per action.
#[verifier::external_body]
fn spend_auth_signature_verdicts(bundle: &OrchardBundle, sighash: [u8; 32]) -> (verdicts: Vec<bool>)
    ensures
        verdicts@ == orchard_spend_auth_verdicts(*bundle, sighash@),
        verdicts@.len() == orchard_action_nullifiers(*bundle).len(),
{
    bundle
        .0
        .actions()
        .iter()
        .map(|a| a.rk().create_batch_item(a.authorization().clone(), &sighash).verify_single().is_ok())
        .collect()
}

/// Whether the binding signature verifies on its own under the bundle's
/// binding validating key over `sighash`, via `create_batch_item` and
/// `batch::Item::verify_single`.
#[verifier::external_body]
fn binding_signature_verdict(bundle: &OrchardBundle, sighash: [u8; 32]) -> (ok: bool)
    ensures
        ok == orchard_binding_verdict(*bundle, sighash@),
{
    bundle
        .0
        .binding_validating_key()
        .create_batch_item(bundle.0.authorization().binding_signature().clone(), &sighash)
        .verify_single()
        .is_ok()
}

/// Whether the bundle enables cross-address transfers, via `Bundle::flags`
/// and `Flags::cross_address_enabled`.
#[verifier::external_body]
fn bundle_cross_address_enabled(bundle: &OrchardBundle) -> (enabled: bool)
    ensures
        enabled == orchard_cross_address_enabled(*bundle),
{
    bundle.0.flags().cross_address_enabled()
}

/// The actions an Orchard-protocol bundle holds, in order, each as the bytes
/// of its nullifier.
pub uninterp spec fn orchard_action_nullifiers(bundle: OrchardBundle) -> Seq<Seq<u8>>;

/// The number of actions in the bundle, via `Bundle::actions`. A bundle
/// holds a non-empty list of actions, so the count is at least one.
#[verifier::external_body]
fn bundle_action_count(bundle: &OrchardBundle) -> (count: usize)
    ensures
        count == orchard_action_nullifiers(*bundle).len(),
        count == orchard_action_auth(*bundle).len(),
        count >= 1,
{
    bundle.0.actions().len()
}

/// One RedPallas signature as the Orchard batch validator queues it.
#[verifier::external_body]
pub struct RedPallasItem(pub redpallas_batch::Item<SpendAuth, Binding>);

/// The spend authorization of each action of a bundle, in action order: the
/// bytes of its randomized validating key `rk` and of its signature.
pub uninterp spec fn orchard_action_auth(bundle: OrchardBundle) -> Seq<(Seq<u8>, Seq<u8>)>;

/// The bytes of a bundle's binding validating key
/// (`Bundle::binding_validating_key`) and of its binding signature.
pub uninterp spec fn orchard_binding_auth(bundle: OrchardBundle) -> (Seq<u8>, Seq<u8>);

/// The RedPallas batch item `create_batch_item` makes of a validating key,
/// a signature and a message, all as bytes; `binding` tells a binding
/// signature from a spend-authorization one. A function of these.
pub uninterp spec fn redpallas_item_of(binding: bool, key: Seq<u8>, signature: Seq<u8>, message: Seq<u8>) -> RedPallasItem;

/// The spend-authorization batch item of the action at `index`, under its
/// `rk` over `sighash`, via `create_batch_item`; `None` when there is no such
/// action.
#[verifier::external_body]
fn action_signature_item(bundle: &OrchardBundle, index: usize, sighash: &[u8; 32]) -> (item: Option<RedPallasItem>)
    ensures
        item is Some <==> index < orchard_action_nullifiers(*bundle).len(),
        item matches Some(it) ==> it == redpallas_item_of(
            false,
            orchard_action_auth(*bundle)[index as int].0,
            orchard_action_auth(*bundle)[index as int].1,
            sighash@,
        ),
{
    let action = bundle.0.actions().get(index)?;
    Some(RedPallasItem(action.rk().create_batch_item(action.authorization().clone(), sighash)))
}

/// The binding-signature batch item under the bundle's binding validating
/// key over `sighash`, via `create_batch_item`.
#[verifier::external_body]
fn binding_signature_item(bundle: &OrchardBundle, sighash: &[u8; 32]) -> (item: RedPallasItem)
    ensures
        item == redpallas_item_of(true, orchard_binding_auth(*bundle).0, orchard_binding_auth(*bundle).1, sighash@),
{
    let key = bundle.0.binding_validating_key();
    RedPallasItem(key.create_batch_item(bundle.0.authorization().binding_signature().clone(), sighash))
}

/// One Orchard verification item: a bundle plus the sighash it is bound to,
/// and the pool it spends from.
pub struct OrchardItem {
    /// The authorized Orchard bundle (proof and signatures).
    pub bundle: OrchardBundle,
    /// The sighash the bundle's signatures are over.
    pub sighash: SigHash,
    /// The shielded pool the bundle spends from (annotation only).
    pub pool: Pool,
}

impl OrchardItem {
    /// Whether this bundle enables cross-address transfers. A
    /// cross-address-disabled bundle can only be verified under a key whose
    /// circuit constrains the restriction.
    pub fn cross_address_enabled(&self) -> (enabled: bool)
        ensures
            enabled == orchard_cross_address_enabled(self.bundle),
    {
        bundle_cross_address_enabled(&self.bundle)
    }

    /// Number of Orchard actions in the bundle (its per-item verification
    /// cost), at least one.
    pub fn action_count(&self) -> (count: usize)
        ensures
            count == orchard_action_nullifiers(self.bundle).len(),
            count >= 1,
    {
        bundle_action_count(&self.bundle)
    }
}

/// Every RedPallas item of one bundle, exactly the set the batch validator
/// queues for it: each action's spend-authorization signature in action
/// order, then the bundle's binding signature.
pub fn redpallas_items(item: &OrchardItem) -> (items: Vec<RedPallasItem>)
    ensures
        items@.len() == orchard_action_nullifiers(item.bundle).len() + 1,
        forall|k: int|
            0 <= k < items@.len() - 1 ==> #[trigger] items@[k] == redpallas_item_of(
                false,
                orchard_action_auth(item.bundle)[k].0,
                orchard_action_auth(item.bundle)[k].1,
                sighash_value(item.sighash),
            ),
        items@[items@.len() - 1] == redpallas_item_of(
            true,
            orchard_binding_auth(item.bundle).0,
            orchard_binding_auth(item.bundle).1,
            sighash_value(item.sighash),
        ),
{
    let sighash = sighash_bytes(&item.sighash);
    let count = bundle_action_count(&item.bundle);
    let mut items: Vec<RedPallasItem> = Vec::new();
    let mut index: usize = 0;
    while index < count
        invariant
            index <= count,
            count == orchard_action_nullifiers(item.bundle).len(),
            items@.len() == index,
            sighash@ == sighash_value(item.sighash),
            forall|k: int|
                0 <= k < index ==> #[trigger] items@[k] == redpallas_item_of(
                    false,
                    orchard_action_auth(item.bundle)[k].0,
                    orchard_action_auth(item.bundle)[k].1,
                    sighash_value(item.sighash),
                ),
        decreases count - index,
    {
        match action_signature_item(&item.bundle, index, &sighash) {
            Some(signature) => items.push(signature),
            None => {},
        }
        index = index + 1;
    }
    items.push(binding_signature_item(&item.bundle, &sighash));
    items
}

/// `verdicts` has the shape of the Orchard batch path: some items were
/// queued and the rest rejected on their own; an item that was not queued is
/// rejected, and every queued item receives the same verdict.
pub open spec fn shared_verdict_shape(n: nat, verdicts: Seq<bool>) -> bool {
    exists|queued: Seq<bool>|
        #![trigger queued.len()]
        queued.len() == n && verdicts.len() == n && (forall|i: int|
            0 <= i < n ==> #[trigger] verdicts[i] ==> queued[i]) && (forall|i: int, j: int|
            0 <= i < n && 0 <= j < n && #[trigger] queued[i] && #[trigger] queued[j] ==> verdicts[i]
                == verdicts[j])
}

/// Validate all items as one aggregate batch, returning one verdict per item
/// in input order: an item that fails to enqueue is rejected on its own, and
/// every item that did enqueue receives the batch's one shared verdict. Does
/// not stop at a failed enqueue.
pub(crate) fn validate_batch_per_item(items: &[&OrchardItem], vk: &VerifyingKey, seed: u64) -> (verdicts: Vec<bool>)
    ensures
        verdicts@.len() == items@.len(),
        shared_verdict_shape(items@.len(), verdicts@),
        orchard_batch_facts(items@, *vk, verdicts@),
{
    let mut validator = new_batch_validator(vk);
    let n = items.len();
    let mut queued: Vec<bool> = Vec::new();
    let mut i: usize = 0;
    while i < n
        invariant
            n == items@.len(),
            i <= n,
            queued@.len() == i,
            validator_key(validator) == *vk,
            forall|k: int| 0 <= k < i ==> #[trigger] queued@[k] == orchard_enqueues(items@[k].bundle, *vk),
            orchard_validator_bundles(validator) == queued_bundles(items@.take(i as int), *vk),
        decreases n - i,
    {
        let item = items[i];
        let ok = queue_bundle(&mut validator, &item.bundle, sighash_bytes(&item.sighash));
        assert(items@.take(i as int + 1).drop_last() =~= items@.take(i as int));
        queued.push(ok);
        i = i + 1;
    }
    assert(items@.take(n as int) =~= items@);
    proof {
        if orchard_all_enqueued_valid(items@, *vk) {
            lemma_queued_bundles_valid(items@, *vk);
        }
    }
    let shared = validate_queued(validator, seeded_rng(seed));
    proof {
        if shared {
            lemma_queued_bundles_valid_back(items@, *vk);
        }
    }
    let mut verdicts: Vec<bool> = Vec::new();
    let mut j: usize = 0;
    while j < n
        invariant
            n == items@.len(),
            queued@.len() == n,
            j <= n,
            verdicts@.len() == j,
            forall|k: int| 0 <= k < j ==> #[trigger] verdicts@[k] == (queued@[k] && shared),
        decreases n - j,
    {
        verdicts.push(queued[j] && shared);
        j = j + 1;
    }
    let ghost q = queued@;
    assert(forall|k: int| 0 <= k < n ==> #[trigger] verdicts@[k] == (q[k] && shared));
    assert(q.len() == n && verdicts@.len() == n && (forall|k: int| 0 <= k < n ==> #[trigger] verdicts@[k] ==> q[k])
        && (forall|a: int, b: int|
        0 <= a < n && 0 <= b < n && #[trigger] q[a] && #[trigger] q[b] ==> verdicts@[a] == verdicts@[b]));
    verdicts
}

/// Validate a single item as a batch of one. A bundle that cannot even be
/// queued counts as rejected.
pub(crate) fn validate_one(item: &OrchardItem, vk: &VerifyingKey, seed: u64) -> (verdict: bool)
    ensures
        orchard_single_facts(item, *vk, verdict),
{
    let mut validator = new_batch_validator(vk);
    if !queue_bundle(&mut validator, &item.bundle, sighash_bytes(&item.sighash)) {
        return false;
    }
    assert(orchard_validator_bundles(validator)[0] == (item.bundle, sighash_value(item.sighash)));
    validate_queued(validator, seeded_rng(seed))
}

/// The bundles the batch path queues for `items` under `vk`, in order: those
/// of the items it can queue, each with its item's sighash.
pub open spec fn queued_bundles(items: Seq<&OrchardItem>, vk: VerifyingKey) -> Seq<(OrchardBundle, Seq<u8>)>
    decreases items.len(),
{
    if items.len() == 0 {
        seq![]
    } else {
        let head = queued_bundles(items.drop_last(), vk);
        let last = items.last();
        if orchard_enqueues(last.bundle, vk) {
            head.push((last.bundle, sighash_value(last.sighash)))
        } else {
            head
        }
    }
}

/// Whether every item the validator can queue under `vk` is valid on its own.
pub open spec fn orchard_all_enqueued_valid(items: Seq<&OrchardItem>, vk: VerifyingKey) -> bool {
    forall|i: int| 0 <= i < items.len() && orchard_enqueues(#[trigger] items[i].bundle, vk) ==> orchard_direct_verdict(
        items[i],
        vk,
    )
}

/// When every queued bundle is valid, so is every item the validator can
/// queue.
proof fn lemma_queued_bundles_valid_back(items: Seq<&OrchardItem>, vk: VerifyingKey)
    requires
        forall|k: int|
            0 <= k < queued_bundles(items, vk).len() ==> orchard_bundle_valid(
                #[trigger] queued_bundles(items, vk)[k],
                vk,
            ),
    ensures
        orchard_all_enqueued_valid(items, vk),
    decreases items.len(),
{
    if items.len() > 0 {
        let init = items.drop_last();
        let head = queued_bundles(init, vk);
        let m = items.len() - 1;
        assert(items[m] == items.last());
        assert forall|k: int| 0 <= k < head.len() implies orchard_bundle_valid(#[trigger] head[k], vk) by {
            assert(queued_bundles(items, vk)[k] == head[k]);
        }
        lemma_queued_bundles_valid_back(init, vk);
        if orchard_enqueues(items[m].bundle, vk) {
            assert(queued_bundles(items, vk)[head.len() as int] == (items[m].bundle, sighash_value(items[m].sighash)));
        }
        assert forall|i: int| 0 <= i < items.len() && orchard_enqueues(#[trigger] items[i].bundle, vk) implies orchard_direct_verdict(
            items[i],
            vk,
        ) by {
            if i < m {
                assert(init[i] == items[i]);
            }
        }
    }
}

/// When every item the validator can queue is valid on its own, so is every
/// queued bundle.
proof fn lemma_queued_bundles_valid(items: Seq<&OrchardItem>, vk: VerifyingKey)
    requires
        forall|k: int|
            0 <= k < items.len() && orchard_enqueues(#[trigger] items[k].bundle, vk) ==> orchard_direct_verdict(
                items[k],
                vk,
            ),
    ensures
        forall|k: int|
            0 <= k < queued_bundles(items, vk).len() ==> orchard_bundle_valid(
                #[trigger] queued_bundles(items, vk)[k],
                vk,
            ),
    decreases items.len(),
{
    if items.len() > 0 {
        let init = items.drop_last();
        assert forall|k: int| 0 <= k < init.len() && orchard_enqueues(#[trigger] init[k].bundle, vk) implies orchard_direct_verdict(
            init[k],
            vk,
        ) by {
            assert(init[k] == items[k]);
        }
        lemma_queued_bundles_valid(init, vk);
        let head = queued_bundles(init, vk);
        let m = items.len() - 1;
        assert(items[m] == items.last());
        if orchard_enqueues(items[m].bundle, vk) {
            assert(orchard_direct_verdict(items[m], vk));
            assert forall|k: int| 0 <= k < queued_bundles(items, vk).len() implies orchard_bundle_valid(
                #[trigger] queued_bundles(items, vk)[k],
                vk,
            ) by {
                if k < head.len() {
                    assert(queued_bundles(items, vk)[k] == head[k]);
                }
            }
        }
    }
}

/// Whether the batch accepted every item: the conjunction of
/// [`validate_batch_per_item`].
pub(crate) fn validate_batch(items: &[&OrchardItem], vk: &VerifyingKey, seed: u64) -> (ok: bool)
    ensures
        exists|verdicts: Seq<bool>|
            #![trigger Orchard::batch_spec(items@, vk, seed, verdicts)]
            verdicts.len() == items@.len() && Orchard::batch_spec(items@, vk, seed, verdicts) && ok
                == batch_verifier::all_true(verdicts),
{
    let verdicts = validate_batch_per_item(items, vk, seed);
    let ok = batch_verifier::all_accept(verdicts.as_slice());
    assert(Orchard::batch_spec(items@, vk, seed, verdicts@));
    ok
}

/// Whether a bundle is valid over `sighash` under `vk`: its proof, every
/// spend-authorization signature and its binding signature, each checked on
/// its own, all accept.
pub open spec fn orchard_bundle_valid(queued: (OrchardBundle, Seq<u8>), vk: VerifyingKey) -> bool {
    &&& orchard_proof_verdict(queued.0, vk)
    &&& batch_verifier::all_true(orchard_spend_auth_verdicts(queued.0, queued.1))
    &&& orchard_binding_verdict(queued.0, queued.1)
}

/// The verdict of the direct path over one item: its bundle is valid over
/// its sighash.
pub open spec fn orchard_direct_verdict(item: &OrchardItem, vk: VerifyingKey) -> bool {
    orchard_bundle_valid((item.bundle, sighash_value(item.sighash)), vk)
}

/// What every outcome of the batch path over `items` satisfies: one verdict
/// per item; an item the validator cannot queue is rejected; every queued
/// item receives the one shared verdict; and when every queued item is valid
/// on its own, they are all accepted.
pub open spec fn orchard_batch_facts(items: Seq<&OrchardItem>, vk: VerifyingKey, verdicts: Seq<bool>) -> bool {
    &&& verdicts.len() == items.len()
    &&& forall|i: int|
        0 <= i < items.len() ==> #[trigger] verdicts[i] == (orchard_enqueues(items[i].bundle, vk)
            && orchard_all_enqueued_valid(items, vk))
    &&& forall|i: int| 0 <= i < items.len() && #[trigger] verdicts[i] ==> orchard_enqueues(items[i].bundle, vk)
    &&& forall|i: int, j: int|
        0 <= i < items.len() && 0 <= j < items.len() && orchard_enqueues(#[trigger] items[i].bundle, vk)
            && orchard_enqueues(#[trigger] items[j].bundle, vk) ==> verdicts[i] == verdicts[j]
    &&& (forall|i: int|
        0 <= i < items.len() && orchard_enqueues(#[trigger] items[i].bundle, vk) ==> orchard_direct_verdict(
            items[i],
            vk,
        )) ==> forall|i: int| 0 <= i < items.len() && orchard_enqueues(#[trigger] items[i].bundle, vk) ==> verdicts[i]
}

/// What every outcome of the single path over `item` satisfies: a bundle the
/// validator cannot queue is rejected, and a queued bundle valid on its own
/// is accepted.
pub open spec fn orchard_single_facts(item: &OrchardItem, vk: VerifyingKey, verdict: bool) -> bool {
    &&& verdict == (orchard_enqueues(item.bundle, vk) && orchard_direct_verdict(item, vk))
    &&& !orchard_enqueues(item.bundle, vk) ==> !verdict
    &&& orchard_enqueues(item.bundle, vk) && orchard_direct_verdict(item, vk) ==> verdict
}

/// Batch soundness: when some item the validator can queue is not valid on
/// its own (its proof or a signature does not verify over its sighash), the
/// batch accepts no item at all.
pub proof fn lemma_orchard_batch_rejects_all_with_one_invalid(
    items: Seq<&OrchardItem>,
    vk: VerifyingKey,
    verdicts: Seq<bool>,
    i: int,
)
    requires
        orchard_batch_facts(items, vk, verdicts),
        0 <= i < items.len(),
        orchard_enqueues(items[i].bundle, vk),
        !orchard_direct_verdict(items[i], vk),
    ensures
        forall|j: int| 0 <= j < items.len() ==> !verdicts[j],
{
    assert(!orchard_all_enqueued_valid(items, vk));
    assert forall|j: int| 0 <= j < items.len() implies !verdicts[j] by {
        assert(verdicts[j] == (orchard_enqueues(items[j].bundle, vk) && orchard_all_enqueued_valid(items, vk)));
    }
}

/// Batch and single agree: over the same items and key, the batch accepts
/// every item exactly when the single path accepts every item.
pub proof fn lemma_orchard_batch_agrees_with_singles(
    items: Seq<&OrchardItem>,
    vk: VerifyingKey,
    verdicts: Seq<bool>,
    singles: Seq<bool>,
)
    requires
        orchard_batch_facts(items, vk, verdicts),
        singles.len() == items.len(),
        forall|i: int| 0 <= i < items.len() ==> orchard_single_facts(items[i], vk, #[trigger] singles[i]),
    ensures
        batch_verifier::all_true(verdicts) == batch_verifier::all_true(singles),
{
    if batch_verifier::all_true(verdicts) {
        assert forall|i: int| 0 <= i < singles.len() implies #[trigger] singles[i] by {
            assert(verdicts[i]);
            assert(orchard_single_facts(items[i], vk, singles[i]));
        }
    }
    if batch_verifier::all_true(singles) {
        assert(orchard_all_enqueued_valid(items, vk)) by {
            assert forall|i: int| 0 <= i < items.len() && orchard_enqueues(#[trigger] items[i].bundle, vk) implies orchard_direct_verdict(
                items[i],
                vk,
            ) by {
                assert(singles[i]);
                assert(orchard_single_facts(items[i], vk, singles[i]));
            }
        }
        assert forall|i: int| 0 <= i < verdicts.len() implies #[trigger] verdicts[i] by {
            assert(singles[i]);
            assert(orchard_single_facts(items[i], vk, singles[i]));
        }
    }
}

/// Zebra's Orchard verifier: halo2 proofs and RedPallas signatures.
pub struct Orchard;

impl BatchVerifier for Orchard {
    type Item = OrchardItem;
    type Context = VerifyingKey;
    const NAME: &'static str = "orchard (halo2 + RedPallas)";

    /// The shared-verdict shape, with what every batch outcome satisfies.
    open spec fn batch_spec(items: Seq<&OrchardItem>, ctx: &VerifyingKey, seed: u64, verdicts: Seq<bool>) -> bool {
        shared_verdict_shape(items.len(), verdicts) && orchard_batch_facts(items, *ctx, verdicts)
    }

    /// What every single-path outcome satisfies.
    open spec fn single_spec(item: &OrchardItem, ctx: &VerifyingKey, seed: u64, verdict: bool) -> bool {
        orchard_single_facts(item, *ctx, verdict)
    }

    /// The item's direct verdict.
    open spec fn independent_spec(item: &OrchardItem, ctx: &VerifyingKey, verdict: bool) -> bool {
        verdict == orchard_direct_verdict(item, *ctx)
    }

    /// Every item has a direct path.
    open spec fn has_independent_path(item: &OrchardItem, ctx: &VerifyingKey) -> bool {
        true
    }

    fn validate_batch(items: &[&OrchardItem], vk: &VerifyingKey, seed: u64) -> (verdicts: Vec<bool>) {
        validate_batch_per_item(items, vk, seed)
    }

    /// A bundle the validator cannot queue under `vk` is rejected, and a
    /// queued bundle valid on its own is accepted.
    fn validate_one(item: &OrchardItem, vk: &VerifyingKey, seed: u64) -> (verdict: bool) {
        validate_one(item, vk, seed)
    }

    /// The halo2 proof checked on its own (per-proof evaluation) together with
    /// every RedPallas signature checked on its own; both must accept, as the
    /// batch validator asserts both over the same bundle.
    fn validate_one_independent(item: &OrchardItem, vk: &VerifyingKey) -> (verdict: Option<bool>)
        ensures
            verdict == Some(orchard_direct_verdict(item, *vk)),
    {
        let proof_ok = proof_verifies(&item.bundle, vk);
        let sighash = sighash_bytes(&item.sighash);
        let spend_auth = spend_auth_signature_verdicts(&item.bundle, sighash);
        let sigs_ok = batch_verifier::all_accept(spend_auth.as_slice()) && binding_signature_verdict(
            &item.bundle,
            sighash,
        );
        Some(proof_ok && sigs_ok)
    }

    /// A bundle weighs its action count: the only weight override the
    /// production middleware ships.
    fn item_weight(item: &OrchardItem) -> (weight: usize)
        ensures
            weight == orchard_action_nullifiers(item.bundle).len(),
    {
        item.action_count()
    }
}

/// Core differential check over borrowed Orchard items, under one key and
/// one seed. See [`batch_verifier::check_equivalence_refs`].
pub fn check_equivalence_refs(items: &[&OrchardItem], vk: &VerifyingKey, seed: u64) -> (report: EquivReport)
    ensures
        batch_verifier::equivalence_outcome::<Orchard>(items@, vk, seed, report),
{
    batch_verifier::check_equivalence_refs::<Orchard>(items, vk, seed)
}

/// Core differential check over a slice of owned Orchard items.
pub fn check_equivalence(items: &[OrchardItem], vk: &VerifyingKey, seed: u64) -> (report: EquivReport)
    ensures
        exists|refs: Seq<&OrchardItem>|
            #![trigger batch_verifier::equivalence_outcome::<Orchard>(refs, vk, seed, report)]
            refs.len() == items@.len() && (forall|i: int|
                0 <= i < refs.len() ==> #[trigger] refs[i] == &items@[i])
                && batch_verifier::equivalence_outcome::<Orchard>(refs, vk, seed, report),
{
    batch_verifier::check_equivalence::<Orchard>(items, vk, seed)
}

/// Per-item differential check over Orchard items.
pub fn check_equivalence_per_item(items: &[&OrchardItem], vk: &VerifyingKey, seed: u64) -> (report: batch_verifier::PerItemReport)
    ensures
        report.items@.len() == items@.len(),
        exists|batch: Seq<bool>, singles: Seq<bool>|
            #![trigger shared_verdict_shape(items@.len(), batch), singles.len()]
            {
                &&& batch.len() == items@.len()
                &&& singles.len() == items@.len()
                &&& shared_verdict_shape(items@.len(), batch)
                &&& forall|i: int|
                    0 <= i < items@.len() ==> #[trigger] report.items@[i] == batch_verifier::classify_spec(
                        batch[i],
                        singles[i],
                    )
            },
{
    let report = batch_verifier::check_equivalence_per_item::<Orchard>(items, vk, seed);
    report
}

/// The network upgrade a transaction commits to (`None` before V5): a
/// function of the transaction.
pub uninterp spec fn transaction_network_upgrade(tx: Transaction) -> Option<NetworkUpgrade>;

/// The network upgrade a V5+ transaction commits to, via
/// `Transaction::network_upgrade`.
#[verifier::external_body]
pub(crate) fn transaction_upgrade(tx: &Transaction) -> (nu: Option<NetworkUpgrade>)
    ensures
        nu == transaction_network_upgrade(*tx),
{
    tx.network_upgrade()
}

/// Whether the transaction carries an Orchard-pool bundle, via
/// `Transaction::has_orchard_shielded_data`.
#[verifier::external_body]
pub(crate) fn has_orchard_bundle(tx: &Transaction) -> (has: bool)
    ensures
        has == transaction_pools(*tx).contains(Pool::Orchard),
{
    tx.has_orchard_shielded_data()
}

/// Whether the transaction carries an Ironwood-pool bundle, via
/// `Transaction::has_ironwood_shielded_data`.
#[verifier::external_body]
pub(crate) fn has_ironwood_bundle(tx: &Transaction) -> (has: bool)
    ensures
        has == transaction_pools(*tx).contains(Pool::Ironwood),
{
    tx.has_ironwood_shielded_data()
}

/// A signature hasher for the transaction under `nu` with no transparent
/// prevouts, via `Transaction::sighasher`; `None` when zebra-chain returns an
/// error. `SigHasher::new`'s doc comment still lists two panics (a
/// transaction that cannot be converted for `nu`, and an `nu` without a
/// branch id), but in this version both are returned as
/// `Error::InvalidConsensusBranchId` by `PrecomputedTxData::new`
/// (primitives/zcash_primitives.rs:228-245), and the rebuild that follows
/// (`transaction_data_from_parts`) holds no panicking call on a
/// deserialized transaction; so the wrapper admits every `nu`.
#[verifier::external_body]
pub(crate) fn sighasher_without_prevouts(tx: &Transaction, nu: NetworkUpgrade) -> (sighasher: Option<SigHasher>)
    ensures
        sighasher is Some <==> sighasher_builds(*tx, nu),
        sighasher matches Some(s) ==> sighasher_pools(s) == transaction_pools(*tx),
        sighasher matches Some(s) ==> sighasher_origin(s) == (*tx, nu),
{
    let empty_prevouts: Arc<Vec<transparent::Output>> = Arc::new(Vec::new());
    tx.sighasher(nu, empty_prevouts).ok()
}

/// Whether zebra-chain builds a signature hasher for the transaction under
/// `nu` with no transparent prevouts (`Transaction::sighasher` returns `Ok`):
/// a function of the transaction and the upgrade.
pub uninterp spec fn sighasher_builds(tx: Transaction, nu: NetworkUpgrade) -> bool;

/// The transaction and network upgrade a signature hasher was built over.
pub uninterp spec fn sighasher_origin(sighasher: SigHasher) -> (Transaction, NetworkUpgrade);

/// The `SIGHASH_ALL` digest for shielded inputs of a transaction under `nu`
/// with no transparent prevouts (`SigHasher::sighash`): a function of the
/// transaction and the upgrade.
pub uninterp spec fn transaction_sighash(tx: Transaction, nu: NetworkUpgrade) -> Seq<u8>;

/// The `SIGHASH_ALL` hash for shielded inputs, via `SigHasher::sighash`.
#[verifier::external_body]
pub(crate) fn sighash_all(sighasher: &SigHasher) -> (sighash: SigHash)
    ensures
        sighash_value(sighash) == transaction_sighash(sighasher_origin(*sighasher).0, sighasher_origin(*sighasher).1),
{
    sighasher.sighash(HashType::ALL, None)
}

/// The Orchard-pool bundle, via `SigHasher::orchard_bundle`.
#[verifier::external_body]
fn orchard_pool_bundle(sighasher: &SigHasher) -> (bundle: Option<OrchardBundle>)
    ensures
        bundle is Some <==> sighasher_pools(*sighasher).contains(Pool::Orchard),
{
    sighasher.orchard_bundle().map(OrchardBundle)
}

/// The Ironwood-pool bundle, via `SigHasher::ironwood_bundle`.
#[verifier::external_body]
fn ironwood_pool_bundle(sighasher: &SigHasher) -> (bundle: Option<OrchardBundle>)
    ensures
        bundle is Some <==> sighasher_pools(*sighasher).contains(Pool::Ironwood),
{
    sighasher.ironwood_bundle().map(OrchardBundle)
}

/// The Orchard-protocol pools whose bundles a transaction carries.
pub uninterp spec fn transaction_pools(tx: Transaction) -> Set<Pool>;

/// The Orchard-protocol pools whose bundles a signature hasher's copy of its
/// transaction carries.
pub uninterp spec fn sighasher_pools(sighasher: SigHasher) -> Set<Pool>;

/// `items` hold one item per pool in `pools`, tagged with its pool, the
/// Orchard pool's first.
pub open spec fn items_match_pools(items: Seq<OrchardItem>, pools: Set<Pool>) -> bool {
    &&& items.len() == (if pools.contains(Pool::Orchard) {
        1int
    } else {
        0int
    }) + (if pools.contains(Pool::Ironwood) {
        1int
    } else {
        0int
    })
    &&& pools.contains(Pool::Orchard) ==> items[0].pool == Pool::Orchard
    &&& pools.contains(Pool::Ironwood) ==> items[items.len() - 1].pool == Pool::Ironwood
}

/// Whether a network upgrade predates NU5, before which no Orchard bundle
/// exists.
pub open spec fn before_nu5(name: UpgradeName) -> bool {
    name == UpgradeName::Genesis || name == UpgradeName::BeforeOverwinter || name == UpgradeName::Overwinter
        || name == UpgradeName::Sapling || name == UpgradeName::Blossom || name == UpgradeName::Heartwood
        || name == UpgradeName::Canopy
}

/// The shape every extraction result has: at most two items, all sharing one
/// sighash, and when there are two, the Orchard-pool item first.
pub open spec fn extraction_shape(items: Seq<OrchardItem>) -> bool {
    &&& items.len() <= 2
    &&& forall|i: int, j: int| 0 <= i < items.len() && 0 <= j < items.len() ==> #[trigger] items[i].sighash
        == #[trigger] items[j].sighash
    &&& items.len() == 2 ==> items[0].pool == Pool::Orchard && items[1].pool == Pool::Ironwood
}

/// Extract all Orchard-protocol items from a transaction using an explicit
/// network upgrade for the sighash: one per bundle (Orchard pool first, then
/// Ironwood), sharing the transaction's sighash. Empty when the transaction
/// has no Orchard-protocol bundle or no sighasher can be built for `nu`.
pub fn items_from_tx_with_nu(tx: &Transaction, nu: NetworkUpgrade) -> (items: Vec<OrchardItem>)
    ensures
        extraction_shape(items@),
        sighasher_builds(*tx, nu) ==> items_match_pools(items@, transaction_pools(*tx)),
        !sighasher_builds(*tx, nu) ==> items@.len() == 0,
        forall|i: int| 0 <= i < items@.len() ==> sighash_value(#[trigger] items@[i].sighash) == transaction_sighash(*tx, nu),
        !transaction_pools(*tx).contains(Pool::Orchard) && !transaction_pools(*tx).contains(Pool::Ironwood)
            ==> items@.len() == 0,
{
    if !has_orchard_bundle(tx) && !has_ironwood_bundle(tx) {
        return Vec::new();
    }
    let sighasher = match sighasher_without_prevouts(tx, nu) {
        Some(s) => s,
        None => return Vec::new(),
    };
    let sighash = sighash_all(&sighasher);
    assemble_items(sighash, orchard_pool_bundle(&sighasher), ironwood_pool_bundle(&sighasher))
}

/// The items of a transaction's Orchard-protocol bundles, all bound to
/// `sighash`: the Orchard-pool bundle's first, then the Ironwood-pool
/// bundle's, each where the transaction has one.
pub fn assemble_items(sighash: SigHash, orchard: Option<OrchardBundle>, ironwood: Option<OrchardBundle>) -> (items: Vec<OrchardItem>)
    ensures
        extraction_shape(items@),
        items@.len() == (if orchard is Some { 1int } else { 0int }) + (if ironwood is Some { 1int } else { 0int }),
        orchard matches Some(b) ==> items@[0] == (OrchardItem { bundle: b, sighash, pool: Pool::Orchard }),
        ironwood matches Some(b) ==> items@[items@.len() - 1] == (OrchardItem {
            bundle: b,
            sighash,
            pool: Pool::Ironwood,
        }),
{
    let mut items: Vec<OrchardItem> = Vec::new();
    match orchard {
        Some(bundle) => items.push(OrchardItem { bundle, sighash, pool: Pool::Orchard }),
        None => {},
    }
    match ironwood {
        Some(bundle) => items.push(OrchardItem { bundle, sighash, pool: Pool::Ironwood }),
        None => {},
    }
    items
}

/// Whether a transaction carries an Orchard-protocol bundle.
pub open spec fn has_orchard_protocol_bundle(tx: Transaction) -> bool {
    transaction_pools(tx).contains(Pool::Orchard) || transaction_pools(tx).contains(Pool::Ironwood)
}

/// Whether [`items_from_tx`] yields items for a transaction: it commits to a
/// network upgrade from NU5 on, carries an Orchard-protocol bundle, and a
/// signature hasher builds for it under that upgrade.
pub open spec fn yields_items(tx: Transaction) -> bool {
    match transaction_network_upgrade(tx) {
        Some(nu) => !before_nu5(network_upgrade_name(nu)) && has_orchard_protocol_bundle(tx)
            && sighasher_builds(tx, nu),
        None => false,
    }
}

/// Extract all Orchard-protocol items from a transaction, using its own
/// network upgrade for the sighash. Empty for transactions with no network
/// upgrade (pre-V5) or one before NU5.
pub fn items_from_tx(tx: &Transaction) -> (items: Vec<OrchardItem>)
    ensures
        extraction_shape(items@),
        items@.len() > 0 <==> yields_items(*tx),
        yields_items(*tx) ==> items_match_pools(items@, transaction_pools(*tx)),
        items@.len() > 0 ==> items_match_pools(items@, transaction_pools(*tx)),
        !transaction_pools(*tx).contains(Pool::Orchard) && !transaction_pools(*tx).contains(Pool::Ironwood)
            ==> items@.len() == 0,
{
    let nu = match transaction_upgrade(tx) {
        Some(nu) => nu,
        None => return Vec::new(),
    };
    let name = upgrade_name(nu);
    if is_before_nu5(name) {
        return Vec::new();
    }
    items_from_tx_with_nu(tx, nu)
}

/// Whether a network upgrade predates NU5.
fn is_before_nu5(name: UpgradeName) -> (before: bool)
    ensures
        before == before_nu5(name),
{
    match name {
        UpgradeName::Genesis | UpgradeName::BeforeOverwinter | UpgradeName::Overwinter | UpgradeName::Sapling
        | UpgradeName::Blossom | UpgradeName::Heartwood | UpgradeName::Canopy => true,
        _ => false,
    }
}

/// The first item of an extraction result, if any.
fn first_item(items: Vec<OrchardItem>) -> (first: Option<OrchardItem>)
    ensures
        items@.len() == 0 ==> first is None,
        items@.len() > 0 ==> first == Some(items@[0]),
{
    let mut items = items;
    if items.len() == 0 {
        None
    } else {
        Some(items.remove(0))
    }
}

/// The first Orchard-protocol item of a transaction (Orchard pool first).
pub fn item_from_tx(tx: &Transaction) -> (item: Option<OrchardItem>)
    ensures
        !transaction_pools(*tx).contains(Pool::Orchard) && !transaction_pools(*tx).contains(Pool::Ironwood)
            ==> item is None,
        item matches Some(i) ==> i.pool == if transaction_pools(*tx).contains(Pool::Orchard) {
            Pool::Orchard
        } else {
            Pool::Ironwood
        },
{
    first_item(items_from_tx(tx))
}

/// Single-bundle counterpart of [`items_from_tx_with_nu`].
pub fn item_from_tx_with_nu(tx: &Transaction, nu: NetworkUpgrade) -> (item: Option<OrchardItem>)
    ensures
        !transaction_pools(*tx).contains(Pool::Orchard) && !transaction_pools(*tx).contains(Pool::Ironwood)
            ==> item is None,
        item matches Some(i) ==> i.pool == if transaction_pools(*tx).contains(Pool::Orchard) {
            Pool::Orchard
        } else {
            Pool::Ironwood
        },
{
    first_item(items_from_tx_with_nu(tx, nu))
}

} // verus!
