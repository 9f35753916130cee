//! The adversarial corpus generator: single-element tampers and batch
//! compositions, chiefly **mostly-valid-plus-one-invalid**.
//!
//! Not every tamper is worth generating: where a pool's batch and independent
//! paths share their consensus checks, damaging a consensus input makes both
//! run the same code and reject identically. [`TamperTarget`] names that
//! distinction, and [`AdversarialBatch::check_shape`] makes a generated batch
//! prove it is the shape it claims before any conclusion is drawn from it.

use vstd::prelude::*;

use groth16::Proof;
use bls12_381::Bls12;

use sapling_crypto::bundle::Authorized;

use crate::batch_verifier::BatchVerifier;
use crate::sapling::{
    sapling_binding_signature, sapling_bundle_frame, sapling_outputs, sapling_spend_auth_sigs, sapling_spends, spend_count,
    SaplingBundle, SaplingItem,
};

verus! {

/// What part of an item a tamper damages, and whether the verification paths
/// can tell the damage apart.
#[derive(Debug, Clone, Copy, PartialEq, Eq, Structural)]
pub enum TamperTarget {
    /// Proof bytes: reach the verification algebra in every pool.
    ProofBytes,
    /// Signature bytes (`R`, `s`): reach the diverging half likewise.
    SignatureBytes,
    /// The message a signature is bound to.
    BoundMessage,
    /// Consensus-rule inputs (value balance, ephemeral keys, small-order
    /// validating keys): not discriminating where both paths share their
    /// consensus-check context.
    ConsensusInput,
}

impl TamperTarget {
    /// Whether damage here can distinguish the batch path from the
    /// independent one. Conservative: `false` means it cannot be relied on to
    /// discriminate anywhere.
    pub fn is_discriminating(self) -> (discriminating: bool)
        ensures
            discriminating == !(self is ConsensusInput),
    {
        match self {
            TamperTarget::ConsensusInput => false,
            _ => true,
        }
    }
}

/// The length of an encoded Groth16 proof.
pub const GROTH_PROOF_SIZE: usize = 192;

/// An encoded Groth16 proof.
pub type GrothProofBytes = [u8; 192];

/// Whether `bytes` decode as a BLS12-381 Groth16 proof (`bellman`'s
/// `Proof::<Bls12>::read` succeeds on them). Decoding is a function of the
/// bytes alone.
pub uninterp spec fn groth16_proof_decodes(bytes: Seq<u8>) -> bool;

/// Whether `bytes` decode as a Groth16 proof, via `Proof::<Bls12>::read`.
/// A leading `0xff` byte sets the compression, infinity and sort flags of the
/// first (G1) point, which `bls12_381`'s `from_compressed_unchecked` refuses
/// in both of its branches, so such bytes never decode.
#[verifier::external_body]
pub fn proof_decodes(bytes: &GrothProofBytes) -> (decodes: bool)
    ensures
        decodes == groth16_proof_decodes(bytes@),
        bytes@[0] == 0xff ==> !decodes,
{
    Proof::<Bls12>::read(&bytes[..]).is_ok()
}

/// `proof` with bit `bit` of byte `byte` flipped.
pub open spec fn flip_bit(proof: Seq<u8>, byte: int, bit: int) -> Seq<u8> {
    proof.update(byte, proof[byte] ^ (1u8 << (bit as u8)))
}

/// Whether `(b1, t1)` comes before `(b2, t2)` in the search order: bytes from
/// the last to the first, and within a byte bits from the lowest.
pub open spec fn flip_precedes(b1: int, t1: int, b2: int, t2: int) -> bool {
    b1 > b2 || (b1 == b2 && t1 < t2)
}

/// Some single-bit flip of `proof` decodes.
pub open spec fn some_flip_decodes(proof: Seq<u8>) -> bool {
    exists|byte: int, bit: int|
        0 <= byte < proof.len() && 0 <= bit < 8 && #[trigger] groth16_proof_decodes(flip_bit(proof, byte, bit))
}

/// `damaged` is the first single-bit flip of `proof`, in search order, that
/// decodes.
pub open spec fn is_first_decoding_flip(proof: Seq<u8>, damaged: Seq<u8>) -> bool {
    exists|byte: int, bit: int|
        #![trigger flip_bit(proof, byte, bit)]
        0 <= byte < proof.len() && 0 <= bit < 8 && damaged == flip_bit(proof, byte, bit)
            && groth16_proof_decodes(damaged) && forall|b2: int, t2: int|
            0 <= b2 < proof.len() && 0 <= t2 < 8 && flip_precedes(b2, t2, byte, bit) ==> !groth16_proof_decodes(
                #[trigger] flip_bit(proof, b2, t2),
            )
}

/// How to damage a Groth16 proof.
#[derive(Debug, Clone, Copy, PartialEq, Eq, Structural)]
pub enum ProofDamage {
    /// A proof that still **decodes** and does not satisfy the statement: the
    /// first single-bit flip, searching bytes from the last, that decodes.
    DecodableButWrong,
    /// Bytes that fail to decode as a group element at all: the two leading
    /// bytes set to `0xff`, an invalid compressed point encoding.
    Undecodable,
}

/// Search for the first single-bit flip of `proof` that decodes.
fn first_decoding_flip(proof: GrothProofBytes) -> (found: Option<GrothProofBytes>)
    ensures
        found matches Some(d) ==> is_first_decoding_flip(proof@, d@),
        found is None ==> !some_flip_decodes(proof@),
{
    let mut byte: usize = GROTH_PROOF_SIZE;
    while byte > 0
        invariant
            byte <= 192,
            forall|b2: int, t2: int|
                byte <= b2 < 192 && 0 <= t2 < 8 ==> !groth16_proof_decodes(#[trigger] flip_bit(proof@, b2, t2)),
        decreases byte,
    {
        byte = byte - 1;
        let mut bit: u8 = 0;
        while bit < 8
            invariant
                byte < 192,
                bit <= 8,
                forall|b2: int, t2: int|
                    byte < b2 < 192 && 0 <= t2 < 8 ==> !groth16_proof_decodes(#[trigger] flip_bit(proof@, b2, t2)),
                forall|t2: int| 0 <= t2 < bit ==> !groth16_proof_decodes(#[trigger] flip_bit(proof@, byte as int, t2)),
            decreases 8 - bit,
        {
            let mut candidate = proof;
            let flipped = proof[byte] ^ (1u8 << bit);
            candidate[byte] = flipped;
            assert(candidate@ =~= flip_bit(proof@, byte as int, bit as int));
            if proof_decodes(&candidate) {
                assert forall|b2: int, t2: int|
                    0 <= b2 < 192 && 0 <= t2 < 8 && flip_precedes(b2, t2, byte as int, bit as int) implies !groth16_proof_decodes(
                    #[trigger] flip_bit(proof@, b2, t2),
                ) by {}
                return Some(candidate);
            }
            bit = bit + 1;
        }
    }
    None
}

impl ProofDamage {
    /// Apply the damage, or `None` when it cannot be applied: a
    /// decodable-but-wrong damage needs some single-bit flip of the proof to
    /// decode.
    pub fn try_apply(self, proof: GrothProofBytes) -> (damaged: Option<GrothProofBytes>)
        ensures
            self is Undecodable ==> (damaged matches Some(d) && d@ == undecodable(proof@)),
            self is DecodableButWrong ==> (damaged is None <==> !some_flip_decodes(proof@)),
            self is DecodableButWrong ==> (damaged matches Some(d) ==> is_first_decoding_flip(proof@, d@)),
    {
        match self {
            ProofDamage::DecodableButWrong => first_decoding_flip(proof),
            ProofDamage::Undecodable => {
                let mut p = proof;
                p[0] = 0xff;
                p[1] = 0xff;
                assert(p@ =~= undecodable(proof@));
                Some(p)
            },
        }
    }

    /// Apply the damage. A decodable-but-wrong damage requires that some
    /// single-bit flip of the proof decodes; see [`Self::try_apply`].
    pub fn apply(self, proof: GrothProofBytes) -> (damaged: GrothProofBytes)
        requires
            self is DecodableButWrong ==> some_flip_decodes(proof@),
        ensures
            self is Undecodable ==> damaged@ == undecodable(proof@),
            self is DecodableButWrong ==> is_first_decoding_flip(proof@, damaged@),
    {
        match self.try_apply(proof) {
            Some(d) => d,
            None => proof,
        }
    }
}

/// `proof` with its two leading bytes set to `0xff`.
pub open spec fn undecodable(proof: Seq<u8>) -> Seq<u8> {
    proof.update(0, 0xffu8).update(1, 0xffu8)
}

/// Progress of a tamper through a bundle's spend proofs, which are handed
/// over one at a time, in spend order: how many have been seen, which one to
/// damage and how, and whether the damage could not be applied.
pub struct TamperCursor {
    seen: usize,
    target: usize,
    damage: ProofDamage,
    failed: bool,
}

impl TamperCursor {
    /// How many spend proofs have been handed over.
    pub closed spec fn seen_spec(&self) -> usize {
        self.seen
    }

    /// The position of the spend whose proof is damaged.
    pub closed spec fn target_spec(&self) -> usize {
        self.target
    }

    /// The damage applied to the target's proof.
    pub closed spec fn damage_spec(&self) -> ProofDamage {
        self.damage
    }

    /// Whether the target's proof was reached and the damage could not be
    /// applied to it.
    pub closed spec fn failed_spec(&self) -> bool {
        self.failed
    }

    /// A cursor before the first spend.
    pub fn new(target: usize, damage: ProofDamage) -> (cursor: Self)
        ensures
            cursor.seen_spec() == 0,
            cursor.target_spec() == target,
            cursor.damage_spec() == damage,
            !cursor.failed_spec(),
    {
        TamperCursor { seen: 0, target, damage, failed: false }
    }

    /// Whether the damage could not be applied to the target's proof.
    pub fn failed(&self) -> (failed: bool)
        ensures
            failed == self.failed_spec(),
    {
        self.failed
    }

    /// The proof of the next spend: damaged when it is the target, unchanged
    /// otherwise. A decodable-but-wrong damage that no single-bit flip
    /// achieves leaves the proof unchanged and marks the cursor failed.
    pub fn next_spend_proof(&mut self, proof: GrothProofBytes) -> (out: GrothProofBytes)
        ensures
            final(self).seen_spec() == if old(self).seen_spec() < usize::MAX {
                old(self).seen_spec() + 1
            } else {
                old(self).seen_spec() as int
            },
            final(self).target_spec() == old(self).target_spec(),
            final(self).damage_spec() == old(self).damage_spec(),
            old(self).seen_spec() != old(self).target_spec() ==> out == proof && final(self).failed_spec()
                == old(self).failed_spec(),
            old(self).seen_spec() == old(self).target_spec() && old(self).damage_spec() is Undecodable ==> out@
                == undecodable(proof@) && final(self).failed_spec() == old(self).failed_spec(),
            old(self).seen_spec() == old(self).target_spec() && old(self).damage_spec() is DecodableButWrong
                ==> if some_flip_decodes(proof@) {
                is_first_decoding_flip(proof@, out@) && final(self).failed_spec() == old(self).failed_spec()
            } else {
                out == proof && final(self).failed_spec()
            },
    {
        let index = self.seen;
        if self.seen < usize::MAX {
            self.seen = self.seen + 1;
        }
        if index != self.target {
            return proof;
        }
        match self.damage.try_apply(proof) {
            Some(damaged) => damaged,
            None => {
                self.failed = true;
                proof
            },
        }
    }
}

/// `out` is what `damage` makes of `proof`: the undecodable rewrite, the
/// first decoding single-bit flip, or `proof` itself where no flip decodes.
pub open spec fn damaged_to(damage: ProofDamage, proof: Seq<u8>, out: Seq<u8>) -> bool {
    match damage {
        ProofDamage::Undecodable => out == undecodable(proof),
        ProofDamage::DecodableButWrong => if some_flip_decodes(proof) {
            is_first_decoding_flip(proof, out)
        } else {
            out == proof
        },
    }
}

/// Whether `damage` cannot be applied to `proof`: a decodable-but-wrong
/// damage where no single-bit flip decodes.
pub open spec fn damage_fails(damage: ProofDamage, proof: Seq<u8>) -> bool {
    damage is DecodableButWrong && !some_flip_decodes(proof)
}

/// `after` is `before` with the proof of the spend at `target` damaged by
/// `damage`: every `rk` and every other proof unchanged.
pub open spec fn spends_tampered(
    before: Seq<(Seq<u8>, Seq<u8>)>,
    after: Seq<(Seq<u8>, Seq<u8>)>,
    target: int,
    damage: ProofDamage,
) -> bool {
    &&& after.len() == before.len()
    &&& forall|i: int|
        0 <= i < before.len() ==> (#[trigger] after[i]).0 == before[i].0 && (i != target ==> after[i].1
            == before[i].1) && (i == target ==> damaged_to(damage, before[i].1, after[i].1))
}

/// A copy of the bundle with every spend proof passed through the cursor, in
/// spend order and once each, via `Bundle::map_authorization`; every `rk`,
/// every output, the signatures and the value balance are kept. The cursor
/// starts before the first spend, so the spend at its target is the one
/// damaged, as `TamperCursor::next_spend_proof` states.
#[verifier::external_body]
fn map_spend_proofs(bundle: &SaplingBundle, cursor: &mut TamperCursor) -> (mapped: SaplingBundle)
    requires
        old(cursor).seen_spec() == 0,
        !old(cursor).failed_spec(),
    ensures
        final(cursor).target_spec() == old(cursor).target_spec(),
        final(cursor).damage_spec() == old(cursor).damage_spec(),
        spends_tampered(
            sapling_spends(*bundle),
            sapling_spends(mapped),
            old(cursor).target_spec() as int,
            old(cursor).damage_spec(),
        ),
        sapling_outputs(mapped) == sapling_outputs(*bundle),
        sapling_bundle_frame(mapped) == sapling_bundle_frame(*bundle),
        sapling_spend_auth_sigs(mapped) == sapling_spend_auth_sigs(*bundle),
        sapling_binding_signature(mapped) == sapling_binding_signature(*bundle),
        final(cursor).failed_spec() == (old(cursor).target_spec() < sapling_spends(*bundle).len() && damage_fails(
            old(cursor).damage_spec(),
            sapling_spends(*bundle)[old(cursor).target_spec() as int].1,
        )),
{
    SaplingBundle(bundle.0.clone().map_authorization(
        cursor,
        |c: &mut &mut TamperCursor, proof: GrothProofBytes| c.next_spend_proof(proof),
        |_, proof| proof,
        |_, sig| sig,
        |_, auth: Authorized| auth,
    ))
}

/// Whether `after` holds everything `before` does but its spend proofs:
/// signatures, value commitments, anchors, nullifiers, outputs, value
/// balance and binding signature.
pub open spec fn frame_kept(before: SaplingBundle, after: SaplingBundle) -> bool {
    &&& sapling_bundle_frame(after) == sapling_bundle_frame(before)
    &&& sapling_outputs(after) == sapling_outputs(before)
    &&& sapling_spend_auth_sigs(after) == sapling_spend_auth_sigs(before)
    &&& sapling_binding_signature(after) == sapling_binding_signature(before)
}

/// A Sapling item with the proof of the spend at `spend_index` damaged and
/// everything else untouched. An index past the last spend leaves the spends
/// unchanged. `None` exactly when the spend exists, the damage is
/// decodable-but-wrong and no single-bit flip of its proof decodes.
pub fn tamper_spend_proof(item: &SaplingItem, spend_index: usize, damage: ProofDamage) -> (tampered: Option<SaplingItem>)
    ensures
        tampered is None <==> (spend_index < sapling_spends(item.bundle).len() && damage_fails(
            damage,
            sapling_spends(item.bundle)[spend_index as int].1,
        )),
        tampered matches Some(t) ==> t.sighash == item.sighash && sapling_outputs(t.bundle) == sapling_outputs(
            item.bundle,
        ) && spends_tampered(sapling_spends(item.bundle), sapling_spends(t.bundle), spend_index as int, damage)
            && frame_kept(item.bundle, t.bundle),
{
    let mut cursor = TamperCursor::new(spend_index, damage);
    let bundle = map_spend_proofs(&item.bundle, &mut cursor);
    if cursor.failed() {
        return None;
    }
    Some(SaplingItem { bundle, sighash: item.sighash })
}

/// A Sapling item carrying the half-enqueued residue: the spend at
/// `queued_but_invalid` gets a proof that decodes and is wrong, so the batch
/// validator queues it, and the later spend at `stops_the_bundle` gets one
/// that does not decode, so the bundle is rejected there with the first proof
/// left in the shared batch. `None` exactly when `queued_but_invalid` is not
/// before `stops_the_bundle`, the bundle has no spend at `stops_the_bundle`,
/// or no single-bit flip of the first proof decodes.
pub fn half_enqueued_residue(item: &SaplingItem, queued_but_invalid: usize, stops_the_bundle: usize) -> (residue: Option<SaplingItem>)
    ensures
        residue is None <==> (queued_but_invalid >= stops_the_bundle || stops_the_bundle >= sapling_spends(
            item.bundle,
        ).len() || !some_flip_decodes(sapling_spends(item.bundle)[queued_but_invalid as int].1)),
        residue matches Some(r) ==> {
            let before = sapling_spends(item.bundle);
            let after = sapling_spends(r.bundle);
            &&& r.sighash == item.sighash
            &&& sapling_outputs(r.bundle) == sapling_outputs(item.bundle)
            &&& frame_kept(item.bundle, r.bundle)
            &&& after.len() == before.len()
            &&& is_first_decoding_flip(before[queued_but_invalid as int].1, after[queued_but_invalid as int].1)
            &&& after[stops_the_bundle as int].1 == undecodable(before[stops_the_bundle as int].1)
            &&& forall|i: int|
                0 <= i < before.len() ==> (#[trigger] after[i]).0 == before[i].0 && (i != queued_but_invalid
                    && i != stops_the_bundle ==> after[i].1 == before[i].1)
        },
{
    if queued_but_invalid >= stops_the_bundle || stops_the_bundle >= spend_count(&item.bundle) {
        return None;
    }
    let staged = match tamper_spend_proof(item, queued_but_invalid, ProofDamage::DecodableButWrong) {
        Some(t) => t,
        None => return None,
    };
    let residue = tamper_spend_proof(&staged, stops_the_bundle, ProofDamage::Undecodable);
    proof {
        let before = sapling_spends(item.bundle);
        let mid = sapling_spends(staged.bundle);
        let after = sapling_spends(residue->0.bundle);
        let q = queued_but_invalid as int;
        let st = stops_the_bundle as int;
        assert(mid[q].0 == before[q].0);
        assert(after[q].0 == mid[q].0);
        assert(after[st].0 == mid[st].0);
        assert(mid[st].1 == before[st].1);
        assert forall|i: int| 0 <= i < before.len() implies (#[trigger] after[i]).0 == before[i].0 && (i != q && i
            != st ==> after[i].1 == before[i].1) by {
            assert(after[i].0 == mid[i].0);
            assert(mid[i].0 == before[i].0);
        }
    }
    residue
}

/// A batch of mostly-valid items with exactly one invalid one.
pub struct AdversarialBatch<'a, V: BatchVerifier> {
    /// The batch, in submission order.
    pub items: Vec<&'a V::Item>,
    /// Where the invalid item sits.
    pub invalid_index: usize,
}

/// Why a generated batch was not the shape it claimed to be.
#[derive(Debug, Clone, Copy, PartialEq, Eq, Structural)]
pub enum MalformedBatch {
    /// An item placed as valid does not verify on its own.
    ValidItemDoesNotVerify(usize),
    /// The item placed as invalid verifies on its own.
    InvalidItemVerifies,
}

impl<'a, V: BatchVerifier> AdversarialBatch<'a, V> {
    /// Splice `invalid` into `valid` at `position`, clamped to the end.
    pub fn mostly_valid_plus_one_invalid(valid: &'a [V::Item], invalid: &'a V::Item, position: usize) -> (batch: Self)
        ensures
            batch.invalid_index == if position < valid@.len() {
                position
            } else {
                valid@.len() as usize
            },
            batch.items@.len() == valid@.len() + 1,
            *batch.items@[batch.invalid_index as int] == *invalid,
            forall|i: int| 0 <= i < batch.invalid_index ==> *#[trigger] batch.items@[i] == valid@[i],
            forall|i: int|
                batch.invalid_index < i < batch.items@.len() ==> *#[trigger] batch.items@[i] == valid@[i - 1],
    {
        let position = if position < valid.len() {
            position
        } else {
            valid.len()
        };
        let n = valid.len();
        let mut items: Vec<&V::Item> = Vec::new();
        let mut i: usize = 0;
        while i < n
            invariant
                n == valid@.len(),
                i <= n,
                items@.len() == i,
                forall|j: int| 0 <= j < i ==> *#[trigger] items@[j] == valid@[j],
            decreases n - i,
        {
            items.push(&valid[i]);
            i = i + 1;
        }
        items.insert(position, invalid);
        AdversarialBatch { items, invalid_index: position }
    }

    /// Verify that this batch is what it claims: every item placed as valid
    /// verifies alone, and the one placed as invalid does not. Items are
    /// checked in order and the first misplaced one is reported.
    pub fn check_shape(&self, ctx: &V::Context, seed: u64) -> (shape: Result<(), MalformedBatch>)
        ensures
            shape matches Err(MalformedBatch::ValidItemDoesNotVerify(i)) ==> i < self.items@.len() && i
                != self.invalid_index && V::single_spec(self.items@[i as int], ctx, seed, false),
            shape matches Err(MalformedBatch::InvalidItemVerifies) ==> self.invalid_index < self.items@.len()
                && V::single_spec(self.items@[self.invalid_index as int], ctx, seed, true),
            shape matches Err(MalformedBatch::ValidItemDoesNotVerify(i)) ==> forall|j: int|
                #![trigger self.items@[j]]
                0 <= j < i ==> V::single_spec(self.items@[j], ctx, seed, j != self.invalid_index),
            shape matches Err(MalformedBatch::InvalidItemVerifies) ==> forall|j: int|
                #![trigger self.items@[j]]
                0 <= j < self.invalid_index ==> V::single_spec(self.items@[j], ctx, seed, true),
            shape is Ok ==> forall|i: int|
                #![trigger self.items@[i]]
                0 <= i < self.items@.len() ==> V::single_spec(
                    self.items@[i],
                    ctx,
                    seed,
                    i != self.invalid_index,
                ),
    {
        let n = self.items.len();
        let mut index: usize = 0;
        while index < n
            invariant
                n == self.items@.len(),
                index <= n,
                forall|i: int|
                    #![trigger self.items@[i]]
                    0 <= i < index ==> V::single_spec(
                        self.items@[i],
                        ctx,
                        seed,
                        i != self.invalid_index,
                    ),
            decreases n - index,
        {
            let verifies = V::validate_one(self.items[index], ctx, seed);
            if index == self.invalid_index {
                if verifies {
                    return Err(MalformedBatch::InvalidItemVerifies);
                }
            } else if !verifies {
                return Err(MalformedBatch::ValidItemDoesNotVerify(index));
            }
            index = index + 1;
        }
        Ok(())
    }
}

} // verus!
