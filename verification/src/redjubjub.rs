//! RedJubjub `batch <=> single` verification equivalence: the signature half
//! of Sapling, isolated at signature granularity.
//!
//! The items are exactly the signatures `sapling_crypto`'s `check_bundle`
//! queues into its signature sub-batch for a bundle, including where it stops
//! early: a bundle that fails a consensus check partway contributes a
//! **prefix** of its spend-authorization signatures and no binding signature.
//!
//! `queue` cannot fail, so every signature in a batch shares the batch's one
//! verdict; the independent path (`verify_single`) is also production's
//! fallback for this pool.

use vstd::prelude::*;

use rand::rngs::StdRng;

use group::GroupEncoding;
use groth16::Proof;
use bls12_381::Bls12;
use sapling_crypto::value::CommitmentSum;
use zebra_chain::primitives::redjubjub as rj;
use zebra_chain::transaction::SigHash;

use crate::batch_verifier::{all_true, batch_outcome, classify_spec, equivalence_outcome, singles_outcome, BatchVerifier};
use crate::EquivReport;
use crate::orchard_pool::{seeded_rng, seeded_rng_state, sighash_bytes, sighash_value};
use crate::adversarial::groth16_proof_decodes;
use crate::sapling::{
    bundle_terms, jubjub_affine_small_order, jubjub_extended_small_order, output_count, output_terms,
    sapling_binding_signature, sapling_outputs, sapling_spend_auth_sigs, sapling_spends, spend_count, spend_terms,
    SaplingBundle, SaplingItem,
};
use crate::sprout::uniform_verdicts;

verus! {

/// Which of a Sapling bundle's two signature kinds an item carries.
#[derive(Debug, Clone, Copy, PartialEq, Eq, Structural)]
pub enum SigRole {
    /// The spend-authorization signature of the spend at this index.
    SpendAuth {
        /// Position of the spend within its bundle.
        spend_index: usize,
    },
    /// The bundle's binding signature.
    Binding,
}

/// A RedJubjub batch-verification item.
#[verifier::external_type_specification]
#[verifier::external_body]
pub struct ExRedJubjubBatchItem(rj::batch::Item);

/// A RedJubjub batch verifier.
#[verifier::external_type_specification]
#[verifier::external_body]
pub struct ExRedJubjubBatchVerifier(rj::batch::Verifier);

/// A running sum of value commitments.
#[verifier::external_type_specification]
#[verifier::external_body]
pub struct ExCommitmentSum(CommitmentSum);

/// A copy of a batch item, via `batch::Item::clone` (a field-by-field copy).
#[verifier::external_body]
fn clone_batch_item(item: &rj::batch::Item) -> (copy: rj::batch::Item)
    ensures
        copy == *item,
{
    item.clone()
}

/// One RedJubjub verification item: a single signature, in the exact form
/// the Sapling batch validator queues it, and which signature of its bundle
/// it is.
pub struct RedJubjubItem {
    item: rj::batch::Item,
    /// Which signature of its bundle this is (annotation only).
    pub role: SigRole,
}

impl Clone for RedJubjubItem {
    fn clone(&self) -> (copy: Self)
        ensures
            copy.sig_role() == self.sig_role(),
            copy.signature() == self.signature(),
    {
        RedJubjubItem { item: clone_batch_item(&self.item), role: self.role }
    }
}

impl RedJubjubItem {
    /// Which signature of its bundle this item is.
    pub closed spec fn sig_role(&self) -> SigRole {
        self.role
    }

    /// The signature this item carries, as the batch verifier queues it.
    pub closed spec fn signature(&self) -> rj::batch::Item {
        self.item
    }

    /// The underlying batch item, cloned.
    pub fn batch_item(&self) -> (item: rj::batch::Item)
        ensures
            item == self.signature(),
    {
        clone_batch_item(&self.item)
    }
}

/// Whether the spend at `index` has a proof that decodes, via `Proof::read`;
/// `false` when there is no such spend.
#[verifier::external_body]
fn spend_proof_decodes(bundle: &SaplingBundle, index: usize) -> (decodes: bool)
    ensures
        decodes == (index < sapling_spends(*bundle).len() && groth16_proof_decodes(
            sapling_spends(*bundle)[index as int].1,
        )),
{
    match bundle.0.shielded_spends().get(index) {
        Some(spend) => Proof::<Bls12>::read(&spend.zkproof()[..]).is_ok(),
        None => false,
    }
}

/// Whether the `rk` of the spend at `index` is of small order, via
/// `AffinePoint::from_bytes` and `is_small_order`; `None` when there is no
/// such spend or its `rk` does not decode as a Jubjub point.
#[verifier::external_body]
fn spend_rk_small_order(bundle: &SaplingBundle, index: usize) -> (small: Option<bool>)
    ensures
        small == if index < sapling_spends(*bundle).len() {
            jubjub_affine_small_order(sapling_spends(*bundle)[index as int].0)
        } else {
            None
        },
{
    let spend = bundle.0.shielded_spends().get(index)?;
    let rk: Option<jubjub::AffinePoint> = jubjub::AffinePoint::from_bytes((*spend.rk()).into()).into();
    rk.map(|p| bool::from(p.is_small_order()))
}

/// The value commitments a sum has accumulated, in order: for each, the
/// bundle it came from, whether it was a spend's (added) or an output's
/// (subtracted), and its index there.
pub uninterp spec fn commitment_sum_terms(sum: CommitmentSum) -> Seq<(SaplingBundle, bool, int)>;

/// The bytes of the binding validating key `CommitmentSum::into_bvk` derives
/// from a sum of `terms` and the bundle's value balance: a function of these.
pub uninterp spec fn sapling_binding_key(terms: Seq<(SaplingBundle, bool, int)>, bundle: SaplingBundle) -> Seq<u8>;

/// The RedJubjub batch item `batch::Item::from` makes of a validating key,
/// a signature and a message, all as bytes; `binding` tells a binding
/// signature from a spend-authorization one. A function of these.
pub uninterp spec fn redjubjub_item_of(binding: bool, key: Seq<u8>, signature: Seq<u8>, message: Seq<u8>) -> rj::batch::Item;

/// The empty value-commitment sum, via `CommitmentSum::zero`.
#[verifier::external_body]
fn commitment_sum_zero() -> (sum: CommitmentSum)
    ensures
        commitment_sum_terms(sum) == Seq::<(SaplingBundle, bool, int)>::empty(),
{
    CommitmentSum::zero()
}

/// Add the value commitment of the spend at `index`, via `AddAssign`; no
/// change when there is no such spend.
#[verifier::external_body]
fn add_spend_cv(sum: &mut CommitmentSum, bundle: &SaplingBundle, index: usize)
    ensures
        commitment_sum_terms(*final(sum)) == if index < sapling_spends(*bundle).len() {
            commitment_sum_terms(*old(sum)).push((*bundle, true, index as int))
        } else {
            commitment_sum_terms(*old(sum))
        },
{
    if let Some(spend) = bundle.0.shielded_spends().get(index) {
        *sum += spend.cv();
    }
}

/// Subtract the value commitment of the output at `index`, via
/// `SubAssign`; no change when there is no such output.
#[verifier::external_body]
fn sub_output_cv(sum: &mut CommitmentSum, bundle: &SaplingBundle, index: usize)
    ensures
        commitment_sum_terms(*final(sum)) == if index < sapling_outputs(*bundle).len() {
            commitment_sum_terms(*old(sum)).push((*bundle, false, index as int))
        } else {
            commitment_sum_terms(*old(sum))
        },
{
    if let Some(output) = bundle.0.shielded_outputs().get(index) {
        *sum -= output.cv();
    }
}

/// The spend-authorization batch item of the spend at `index` over
/// `sighash`, built from its `rk` bytes and signature (`batch::Item::from`);
/// `None` when there is no such spend.
#[verifier::external_body]
fn spend_auth_item(bundle: &SaplingBundle, index: usize, sighash: &[u8; 32]) -> (item: Option<rj::batch::Item>)
    ensures
        item is Some <==> index < sapling_spends(*bundle).len(),
        item matches Some(it) ==> it == redjubjub_item_of(
            false,
            sapling_spends(*bundle)[index as int].0,
            sapling_spend_auth_sigs(*bundle)[index as int],
            sighash@,
        ),
{
    let spend = bundle.0.shielded_spends().get(index)?;
    let vk = rj::VerificationKeyBytes::<rj::SpendAuth>::from(*spend.rk());
    Some((vk, *spend.spend_auth_sig(), sighash).into())
}

/// Whether the ephemeral key of the output at `index` is of small order, via
/// `ExtendedPoint::from_bytes` and `is_small_order`; `None` when there is no
/// such output or its key does not decode.
#[verifier::external_body]
fn output_epk_small_order(bundle: &SaplingBundle, index: usize) -> (small: Option<bool>)
    ensures
        small == if index < sapling_outputs(*bundle).len() {
            jubjub_extended_small_order(sapling_outputs(*bundle)[index as int].0)
        } else {
            None
        },
{
    let output = bundle.0.shielded_outputs().get(index)?;
    let epk: Option<jubjub::ExtendedPoint> = jubjub::ExtendedPoint::from_bytes(&output.ephemeral_key().0).into();
    epk.map(|p| bool::from(p.is_small_order()))
}

/// Whether the output at `index` has a proof that decodes, via
/// `Proof::read`; `false` when there is no such output.
#[verifier::external_body]
fn output_proof_decodes(bundle: &SaplingBundle, index: usize) -> (decodes: bool)
    ensures
        decodes == (index < sapling_outputs(*bundle).len() && groth16_proof_decodes(
            sapling_outputs(*bundle)[index as int].1,
        )),
{
    match bundle.0.shielded_outputs().get(index) {
        Some(output) => Proof::<Bls12>::read(&output.zkproof()[..]).is_ok(),
        None => false,
    }
}

/// The binding-signature batch item over `sighash`: the binding key derived
/// from the accumulated commitments and the bundle's value balance
/// (`CommitmentSum::into_bvk`), with the bundle's binding signature.
#[verifier::external_body]
fn binding_item(sum: CommitmentSum, bundle: &SaplingBundle, sighash: &[u8; 32]) -> (item: rj::batch::Item)
    ensures
        item == redjubjub_item_of(
            true,
            sapling_binding_key(commitment_sum_terms(sum), *bundle),
            sapling_binding_signature(*bundle),
            sighash@,
        ),
{
    let bvk = sum.into_bvk(*bundle.0.value_balance());
    (rj::VerificationKeyBytes::<rj::Binding>::from(bvk), bundle.0.authorization().binding_sig, sighash).into()
}

/// How many spend-authorization signatures a signature sequence holds: all
/// its items but a final binding signature.
pub open spec fn queued_spend_count(items: Seq<RedJubjubItem>) -> int {
    if has_binding(items) {
        items.len() - 1
    } else {
        items.len() as int
    }
}

/// Whether a signature sequence ends with a binding signature.
pub open spec fn has_binding(items: Seq<RedJubjubItem>) -> bool {
    items.len() > 0 && items.last().sig_role() == SigRole::Binding
}

/// The roles of a signature sequence a bundle contributes: the
/// spend-authorization signatures of spends `0, 1, ..` in order, optionally
/// followed by the binding signature as the last item.
pub open spec fn queued_roles(items: Seq<RedJubjubItem>, spends: nat) -> bool {
    let m = queued_spend_count(items);
    &&& m <= spends
    &&& forall|k: int| 0 <= k < m ==> #[trigger] items[k].sig_role() == (SigRole::SpendAuth { spend_index: k as usize })
    &&& items.len() > m ==> m == spends
}

/// Whether the batch validator queues a spend's signature: its proof decodes
/// and its `rk` decodes to a point not of small order.
pub open spec fn spend_queued(spend: (Seq<u8>, Seq<u8>)) -> bool {
    groth16_proof_decodes(spend.1) && jubjub_affine_small_order(spend.0) == Some(false)
}

/// Whether an output passes the checks that gate the binding signature: its
/// ephemeral key decodes to a point not of small order, and its proof
/// decodes.
pub open spec fn output_passes(output: (Seq<u8>, Seq<u8>)) -> bool {
    jubjub_extended_small_order(output.0) == Some(false) && groth16_proof_decodes(output.1)
}

/// `items` are the signatures the batch validator queues for a bundle with
/// these spends and outputs: the spend-authorization signatures of the
/// leading spends that pass their checks, up to the first that does not, and
/// the binding signature exactly when every spend and output passes.
pub open spec fn queued_for_bundle(
    items: Seq<RedJubjubItem>,
    spends: Seq<(Seq<u8>, Seq<u8>)>,
    outputs: Seq<(Seq<u8>, Seq<u8>)>,
) -> bool {
    let m = queued_spend_count(items);
    &&& queued_roles(items, spends.len())
    &&& forall|i: int| 0 <= i < m ==> spend_queued(#[trigger] spends[i])
    &&& m < spends.len() ==> !spend_queued(spends[m])
    &&& has_binding(items) <==> (m == spends.len() && forall|j: int|
        0 <= j < outputs.len() ==> output_passes(#[trigger] outputs[j]))
}

/// What each queued signature of a bundle carries: the spend-authorization
/// items are spend `k`'s `rk` and signature over `sighash`, and a binding
/// item is the binding validating key derived from all of the bundle's value
/// commitments (spends added, outputs subtracted) and its value balance, with
/// its binding signature over `sighash`.
pub open spec fn queued_signatures(items: Seq<RedJubjubItem>, bundle: SaplingBundle, sighash: Seq<u8>) -> bool {
    &&& forall|k: int|
        0 <= k < queued_spend_count(items) ==> (#[trigger] items[k]).signature() == redjubjub_item_of(
            false,
            sapling_spends(bundle)[k].0,
            sapling_spend_auth_sigs(bundle)[k],
            sighash,
        )
    &&& has_binding(items) ==> items.last().signature() == redjubjub_item_of(
        true,
        sapling_binding_key(bundle_terms(bundle), bundle),
        sapling_binding_signature(bundle),
        sighash,
    )
}

/// A bundle whose every spend and output passes its checks contributes every
/// signature: one spend-authorization signature per spend, in spend order,
/// then the binding signature, so one item more than it has spends.
pub proof fn lemma_passing_bundle_queues_every_signature(
    items: Seq<RedJubjubItem>,
    spends: Seq<(Seq<u8>, Seq<u8>)>,
    outputs: Seq<(Seq<u8>, Seq<u8>)>,
)
    requires
        queued_for_bundle(items, spends, outputs),
        forall|i: int| 0 <= i < spends.len() ==> spend_queued(#[trigger] spends[i]),
        forall|j: int| 0 <= j < outputs.len() ==> output_passes(#[trigger] outputs[j]),
    ensures
        items.len() == spends.len() + 1,
        has_binding(items),
        forall|k: int| 0 <= k < spends.len() ==> #[trigger] items[k].sig_role() == (SigRole::SpendAuth {
            spend_index: k as usize,
        }),
{
    let m = queued_spend_count(items);
    if m < spends.len() {
        assert(spend_queued(spends[m]));
    }
    assert(m == spends.len());
}

/// A bundle whose spend `f` is the first to fail its checks contributes the
/// signatures of the spends before it and nothing more.
pub proof fn lemma_bundle_stops_at_first_failing_spend(
    items: Seq<RedJubjubItem>,
    spends: Seq<(Seq<u8>, Seq<u8>)>,
    outputs: Seq<(Seq<u8>, Seq<u8>)>,
    f: int,
)
    requires
        queued_for_bundle(items, spends, outputs),
        0 <= f < spends.len(),
        !spend_queued(spends[f]),
        forall|i: int| 0 <= i < f ==> spend_queued(#[trigger] spends[i]),
    ensures
        items.len() == f,
        !has_binding(items),
{
    let m = queued_spend_count(items);
    if m < f {
        assert(spend_queued(spends[m]));
    }
    if m > f {
        assert(spend_queued(spends[f]));
    }
    assert(m == f);
}

/// Every RedJubjub signature a Sapling bundle contributes to the shared
/// signature sub-batch, in queue order, stopping where the batch validator's
/// consensus checks stop: a spend whose proof does not decode or whose `rk`
/// is unusable ends the bundle before its signature is queued, and an output
/// failing its checks ends the bundle before the binding signature.
pub fn items_from_bundle(bundle: &SaplingBundle, sighash: &SigHash) -> (items: Vec<RedJubjubItem>)
    ensures
        queued_for_bundle(items@, sapling_spends(*bundle), sapling_outputs(*bundle)),
        queued_signatures(items@, *bundle, sighash_value(*sighash)),
{
    let ghost sp = sapling_spends(*bundle);
    let ghost outs = sapling_outputs(*bundle);
    let ghost msg = sighash_value(*sighash);
    let msg_bytes = sighash_bytes(sighash);
    let mut cv_sum = commitment_sum_zero();
    let mut items: Vec<RedJubjubItem> = Vec::new();
    let spends = spend_count(bundle);
    let mut spend_index: usize = 0;
    while spend_index < spends
        invariant
            spends == sp.len(),
            sp == sapling_spends(*bundle),
            spend_index <= spends,
            items@.len() == spend_index,
            forall|k: int| 0 <= k < spend_index ==> #[trigger] items@[k].sig_role() == (SigRole::SpendAuth {
                spend_index: k as usize,
            }),
            forall|k: int| 0 <= k < spend_index ==> spend_queued(#[trigger] sp[k]),
            msg_bytes@ == msg,
            msg == sighash_value(*sighash),
            sapling_spend_auth_sigs(*bundle).len() == spends,
            commitment_sum_terms(cv_sum) == spend_terms(*bundle, spend_index as int),
            forall|k: int|
                0 <= k < spend_index ==> (#[trigger] items@[k]).signature() == redjubjub_item_of(
                    false,
                    sp[k].0,
                    sapling_spend_auth_sigs(*bundle)[k],
                    msg,
                ),
        decreases spends - spend_index,
    {
        if !spend_proof_decodes(bundle, spend_index) {
            assert(!has_binding(items@));
            return items;
        }
        match spend_rk_small_order(bundle, spend_index) {
            Some(false) => {},
            _ => {
                assert(!has_binding(items@));
                return items;
            },
        }
        add_spend_cv(&mut cv_sum, bundle, spend_index);
        assert(spend_terms(*bundle, spend_index as int + 1) =~= spend_terms(*bundle, spend_index as int).push(
            (*bundle, true, spend_index as int),
        ));
        let item = match spend_auth_item(bundle, spend_index, &msg_bytes) {
            Some(item) => item,
            None => {
                return items;
            },
        };
        items.push(RedJubjubItem { item, role: SigRole::SpendAuth { spend_index } });
        spend_index = spend_index + 1;
    }
    assert(!has_binding(items@));
    assert(spend_terms(*bundle, sp.len() as int) + output_terms(*bundle, 0) =~= spend_terms(*bundle, sp.len() as int));
    let outputs = output_count(bundle);
    let mut output_index: usize = 0;
    while output_index < outputs
        invariant
            outputs == outs.len(),
            outs == sapling_outputs(*bundle),
            sp == sapling_spends(*bundle),
            output_index <= outputs,
            items@.len() == sp.len(),
            !has_binding(items@),
            queued_roles(items@, sp.len()),
            forall|k: int| 0 <= k < sp.len() ==> spend_queued(#[trigger] sp[k]),
            forall|k: int| 0 <= k < output_index ==> output_passes(#[trigger] outs[k]),
            msg_bytes@ == msg,
            msg == sighash_value(*sighash),
            commitment_sum_terms(cv_sum) == spend_terms(*bundle, sp.len() as int) + output_terms(
                *bundle,
                output_index as int,
            ),
            forall|k: int|
                0 <= k < sp.len() ==> (#[trigger] items@[k]).signature() == redjubjub_item_of(
                    false,
                    sp[k].0,
                    sapling_spend_auth_sigs(*bundle)[k],
                    msg,
                ),
        decreases outputs - output_index,
    {
        match output_epk_small_order(bundle, output_index) {
            Some(false) => {
                if !output_proof_decodes(bundle, output_index) {
                    assert(!output_passes(outs[output_index as int]));
                    return items;
                }
            },
            _ => {
                assert(!output_passes(outs[output_index as int]));
                return items;
            },
        }
        sub_output_cv(&mut cv_sum, bundle, output_index);
        assert(output_terms(*bundle, output_index as int + 1) =~= output_terms(*bundle, output_index as int).push(
            (*bundle, false, output_index as int),
        ));
        assert(spend_terms(*bundle, sp.len() as int) + output_terms(*bundle, output_index as int + 1) =~= (
        spend_terms(*bundle, sp.len() as int) + output_terms(*bundle, output_index as int)).push(
            (*bundle, false, output_index as int),
        ));
        output_index = output_index + 1;
    }
    let ghost before = items@;
    items.push(RedJubjubItem { item: binding_item(cv_sum, bundle, &msg_bytes), role: SigRole::Binding });
    assert(items@.drop_last() == before);
    assert(items@[items@.len() - 1].sig_role() == SigRole::Binding);
    assert forall|k: int| 0 <= k < queued_spend_count(items@) implies #[trigger] items@[k].sig_role() == (SigRole::SpendAuth {
        spend_index: k as usize,
    }) by {
        assert(items@[k] == before[k]);
    }
    items
}

/// Every RedJubjub signature of a Sapling item. See [`items_from_bundle`].
pub fn items_from_sapling_item(item: &SaplingItem) -> (items: Vec<RedJubjubItem>)
    ensures
        queued_for_bundle(items@, sapling_spends(item.bundle), sapling_outputs(item.bundle)),
        queued_signatures(items@, item.bundle, sighash_value(item.sighash)),
{
    items_from_bundle(&item.bundle, &item.sighash)
}

/// The signatures a RedJubjub batch verifier has queued, in order.
pub uninterp spec fn rj_verifier_items(verifier: rj::batch::Verifier) -> Seq<rj::batch::Item>;

/// Whether `batch::Verifier::verify` accepts `items`, its random scalars
/// drawn from `rng` alone: a function of these.
pub uninterp spec fn redjubjub_batch_verdict(items: Seq<rj::batch::Item>, rng: StdRng) -> bool;

/// A fresh RedJubjub batch verifier, via `batch::Verifier::new`.
#[verifier::external_body]
fn new_rj_verifier() -> (verifier: rj::batch::Verifier)
    ensures
        rj_verifier_items(verifier) == Seq::<rj::batch::Item>::empty(),
{
    rj::batch::Verifier::new()
}

/// Queue a clone of one item, via `batch::Verifier::queue`.
#[verifier::external_body]
fn queue_rj_item(verifier: &mut rj::batch::Verifier, item: &RedJubjubItem)
    ensures
        rj_verifier_items(*final(verifier)) == rj_verifier_items(*old(verifier)).push(item.signature()),
{
    verifier.queue(item.item.clone());
}

/// Verify the whole batch with `rng`, via `batch::Verifier::verify`.
#[verifier::external_body]
fn verify_rj_batch(verifier: rj::batch::Verifier, rng: StdRng) -> (ok: bool)
    ensures
        ok == redjubjub_batch_verdict(rj_verifier_items(verifier), rng),
{
    verifier.verify(rng).is_ok()
}

/// Whether a queued signature verifies on its own through
/// `batch::Item::verify_single` (a direct check, no randomness): a function
/// of the item.
pub uninterp spec fn redjubjub_single_verdict(item: rj::batch::Item) -> bool;

/// Verify one signature directly, via `batch::Item::verify_single`.
#[verifier::external_body]
fn verify_rj_single(item: &RedJubjubItem) -> (ok: bool)
    ensures
        ok == redjubjub_single_verdict(item.signature()),
{
    item.item.clone().verify_single().is_ok()
}

/// The signatures of a sequence of RedJubjub items, in order.
pub open spec fn rj_queued(items: Seq<&RedJubjubItem>) -> Seq<rj::batch::Item> {
    Seq::new(items.len(), |i: int| items[i].signature())
}

/// The verdict of one RedJubjub batch over `items`, seeded with `seed`.
pub open spec fn rj_batch_verdict(items: Seq<&RedJubjubItem>, seed: u64) -> bool {
    redjubjub_batch_verdict(rj_queued(items), seeded_rng_state(seed))
}

/// Zebra's RedJubjub verifier: the signature sub-batch of Sapling, driven at
/// signature granularity. Every item carries its own validating key.
pub struct RedJubjub;

impl BatchVerifier for RedJubjub {
    type Item = RedJubjubItem;
    type Context = ();
    const NAME: &'static str = "redjubjub (Sapling signatures)";

    /// Every item receives the verdict of the one seeded batch over all of
    /// them.
    open spec fn batch_spec(items: Seq<&RedJubjubItem>, ctx: &(), seed: u64, verdicts: Seq<bool>) -> bool {
        &&& uniform_verdicts(verdicts)
        &&& forall|i: int| 0 <= i < verdicts.len() ==> #[trigger] verdicts[i] == rj_batch_verdict(items, seed)
    }

    /// The verdict of the seeded batch of this one signature.
    open spec fn single_spec(item: &RedJubjubItem, ctx: &(), seed: u64, verdict: bool) -> bool {
        verdict == rj_batch_verdict(seq![item], seed)
    }

    /// The signature's direct verdict.
    open spec fn independent_spec(item: &RedJubjubItem, ctx: &(), verdict: bool) -> bool {
        verdict == redjubjub_single_verdict(item.signature())
    }

    /// Every item has a direct path.
    open spec fn has_independent_path(item: &RedJubjubItem, ctx: &()) -> bool {
        true
    }

    fn validate_batch(items: &[&RedJubjubItem], ctx: &(), seed: u64) -> (verdicts: Vec<bool>) {
        let mut verifier = new_rj_verifier();
        let n = items.len();
        let mut i: usize = 0;
        assert(rj_verifier_items(verifier) =~= rj_queued(items@.take(0)));
        while i < n
            invariant
                n == items@.len(),
                i <= n,
                rj_verifier_items(verifier) == rj_queued(items@.take(i as int)),
            decreases n - i,
        {
            queue_rj_item(&mut verifier, items[i]);
            assert(rj_queued(items@.take(i as int + 1)) =~= rj_queued(items@.take(i as int)).push(
                items@[i as int].signature(),
            ));
            i = i + 1;
        }
        assert(items@.take(n as int) =~= items@);
        let shared = verify_rj_batch(verifier, seeded_rng(seed));
        crate::sprout::repeat_verdict(shared, n)
    }

    fn validate_one(item: &RedJubjubItem, ctx: &(), seed: u64) -> (verdict: bool) {
        let mut verifier = new_rj_verifier();
        queue_rj_item(&mut verifier, item);
        assert(rj_verifier_items(verifier) =~= rj_queued(seq![item]));
        verify_rj_batch(verifier, seeded_rng(seed))
    }

    /// Direct verification of this one signature, with no randomised linear
    /// combination and no RNG.
    fn validate_one_independent(item: &RedJubjubItem, ctx: &()) -> (verdict: Option<bool>)
        ensures
            verdict == Some(redjubjub_single_verdict(item.signature())),
    {
        Some(verify_rj_single(item))
    }
}

/// RedJubjub reports are reproducible for a seed: over the same items, context
/// and seed, the batch path has one outcome and the single path one outcome,
/// so every run classifies them alike.
pub proof fn lemma_redjubjub_reports_reproducible(
    items: Seq<&RedJubjubItem>,
    ctx: &(),
    seed: u64,
    first: EquivReport,
    second: EquivReport,
)
    requires
        equivalence_outcome::<RedJubjub>(items, ctx, seed, first),
        equivalence_outcome::<RedJubjub>(items, ctx, seed, second),
    ensures
        first == second,
{
    let (b1, s1) = choose|b: bool, s: bool|
        batch_outcome::<RedJubjub>(items, ctx, seed, b) && singles_outcome::<RedJubjub>(items, ctx, seed, s) && first
            == classify_spec(b, s);
    let (b2, s2) = choose|b: bool, s: bool|
        batch_outcome::<RedJubjub>(items, ctx, seed, b) && singles_outcome::<RedJubjub>(items, ctx, seed, s) && second
            == classify_spec(b, s);
    let v1 = choose|verdicts: Seq<bool>|
        #![trigger RedJubjub::batch_spec(items, ctx, seed, verdicts)]
        verdicts.len() == items.len() && RedJubjub::batch_spec(items, ctx, seed, verdicts) && b1 == all_true(verdicts);
    let v2 = choose|verdicts: Seq<bool>|
        #![trigger RedJubjub::batch_spec(items, ctx, seed, verdicts)]
        verdicts.len() == items.len() && RedJubjub::batch_spec(items, ctx, seed, verdicts) && b2 == all_true(verdicts);
    if items.len() > 0 {
        assert(v1[0] == rj_batch_verdict(items, seed));
        assert(v2[0] == rj_batch_verdict(items, seed));
        assert(b1 == v1[0]);
        assert(b2 == v2[0]);
    }
    if s1 != s2 {
        let j = choose|i: int| 0 <= i < items.len() && #[trigger] RedJubjub::single_spec(items[i], ctx, seed, false);
        assert(RedJubjub::single_spec(items[j], ctx, seed, true));
    }
}

} // verus!
