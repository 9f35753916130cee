//! Sprout JoinSplit Groth16 `batch <=> single` verification equivalence.
//!
//! Zebra verifies Sprout JoinSplits one at a time; the batch side here is the
//! `groth16` batch verifier under Sprout's parameters and real Sprout proofs:
//! the code JoinSplit verification would run on if batching were switched on.
//!
//! Two things are reproduced rather than called, because the consensus crate
//! that holds them cannot be a dependency: the JoinSplit public-input
//! encoding, and the `h_sig` hash (computed with the same BLAKE2b crate).
//! Both are stated exactly below.

use vstd::prelude::*;

use rand::rngs::StdRng;

use bellman::gadgets::multipack;
use bls12_381::Bls12;
use groth16::{batch, prepare_verifying_key, PreparedVerifyingKey, Proof, VerifyingKey};

use crate::adversarial::{groth16_proof_decodes, GrothProofBytes};
use crate::batch_verifier::{all_true, batch_outcome, classify_spec, equivalence_outcome, singles_outcome, BatchVerifier};
use crate::EquivReport;
use crate::orchard_pool::{seeded_rng, seeded_rng_state};
use zebra_chain::transaction::Transaction;

verus! {

/// BLAKE2b-256 of `data` under a 16-byte personalization. A function of its
/// arguments alone.
pub uninterp spec fn blake2b_256(personal: Seq<u8>, data: Seq<u8>) -> Seq<u8>;

/// BLAKE2b with a 32-byte output and the given personalization, via
/// `blake2b_simd::Params`.
#[verifier::external_body]
fn blake2b_256_personal(personal: &[u8; 16], data: &[u8]) -> (digest: [u8; 32])
    ensures
        digest@ == blake2b_256(personal@, data@),
{
    let hash = blake2b_simd::Params::new().hash_length(32).personal(personal).hash(data);
    let mut digest = [0u8; 32];
    digest.copy_from_slice(hash.as_bytes());
    digest
}

/// The personalization of the `h_sig` hash: `ZcashComputehSig`.
pub const H_SIG_PERSONAL: [u8; 16] = [
    0x5a, 0x63, 0x61, 0x73, 0x68, 0x43, 0x6f, 0x6d, 0x70, 0x75, 0x74, 0x65, 0x68, 0x53, 0x69, 0x67,
];

/// The personalization of the vendored-key digest: `zbe-sprout-vk-v1`.
pub const VK_DIGEST_PERSONAL: [u8; 16] = [
    0x7a, 0x62, 0x65, 0x2d, 0x73, 0x70, 0x72, 0x6f, 0x75, 0x74, 0x2d, 0x76, 0x6b, 0x2d, 0x76, 0x31,
];

/// Keyed BLAKE2b-256 digest of Zebra's Sprout verifying key file, as
/// recorded: a key whose bytes do not hash to this is refused.
pub const SPROUT_VK_DIGEST: [u8; 32] = [
    0x36, 0x82, 0x89, 0xf0, 0xee, 0x6f, 0xa0, 0x18, 0xa5, 0xc2, 0x8b, 0xa8, 0x4b, 0x30, 0xb3, 0x58,
    0xc8, 0x5a, 0x2e, 0xe9, 0x89, 0x0d, 0xa9, 0x4b, 0xcd, 0xf6, 0xe6, 0xdb, 0xfa, 0xf5, 0x37, 0x9a,
];

/// Append `bytes` to `out`.
fn extend_bytes(out: &mut Vec<u8>, bytes: &[u8])
    ensures
        final(out)@ == old(out)@ + bytes@,
{
    let n = bytes.len();
    let mut i: usize = 0;
    let ghost start = out@;
    while i < n
        invariant
            n == bytes@.len(),
            i <= n,
            out@ == start + bytes@.take(i as int),
        decreases n - i,
    {
        out.push(bytes[i]);
        assert(bytes@.take(i as int + 1) =~= bytes@.take(i as int).push(bytes@[i as int]));
        i = i + 1;
    }
    assert(bytes@.take(n as int) =~= bytes@);
}

/// The `h_sig` hash a JoinSplit's proof commits to: BLAKE2b-256 under
/// `ZcashComputehSig` of the random seed, the two nullifiers and the
/// JoinSplit validating key, concatenated.
pub fn h_sig(random_seed: &[u8; 32], nf1: &[u8; 32], nf2: &[u8; 32], joinsplit_pub_key: &[u8; 32]) -> (digest: [u8; 32])
    ensures
        digest@ == blake2b_256(H_SIG_PERSONAL@, random_seed@ + nf1@ + nf2@ + joinsplit_pub_key@),
{
    let mut data: Vec<u8> = Vec::new();
    extend_bytes(&mut data, random_seed);
    extend_bytes(&mut data, nf1);
    extend_bytes(&mut data, nf2);
    extend_bytes(&mut data, joinsplit_pub_key);
    let personal = H_SIG_PERSONAL;
    blake2b_256_personal(&personal, data.as_slice())
}

/// Digest of verifying-key bytes, for the integrity check on the Sprout key.
pub fn vk_digest(data: &[u8]) -> (digest: [u8; 32])
    ensures
        digest@ == blake2b_256(VK_DIGEST_PERSONAL@, data@),
{
    let personal = VK_DIGEST_PERSONAL;
    blake2b_256_personal(&personal, data)
}

/// What a JoinSplit's proof commits to, as bytes.
#[derive(Clone, Copy)]
pub struct JoinSplitFields {
    /// The Sprout note commitment tree anchor.
    pub anchor: [u8; 32],
    /// The nullifiers of the two input notes.
    pub nullifiers: [[u8; 32]; 2],
    /// The commitments of the two output notes.
    pub commitments: [[u8; 32]; 2],
    /// The random seed.
    pub random_seed: [u8; 32],
    /// The message authentication codes of the two inputs.
    pub vmacs: [[u8; 32]; 2],
    /// The value entering the Sprout pool, as eight little-endian bytes.
    pub vpub_old: [u8; 8],
    /// The value leaving the Sprout pool, as eight little-endian bytes.
    pub vpub_new: [u8; 8],
    /// The encoded Groth16 proof.
    pub zkproof: GrothProofBytes,
}

/// The JoinSplit public input, in the consensus field order: anchor, `h_sig`,
/// first nullifier, first MAC, second nullifier, second MAC, both
/// commitments, then `vpub_old` and `vpub_new`.
pub open spec fn public_input_spec(js: &JoinSplitFields, joinsplit_pub_key: Seq<u8>) -> Seq<u8> {
    let h = blake2b_256(
        H_SIG_PERSONAL@,
        js.random_seed@ + js.nullifiers[0]@ + js.nullifiers[1]@ + joinsplit_pub_key,
    );
    js.anchor@ + h + js.nullifiers[0]@ + js.vmacs[0]@ + js.nullifiers[1]@ + js.vmacs[1]@ + js.commitments[0]@
        + js.commitments[1]@ + js.vpub_old@ + js.vpub_new@
}

/// Encode a JoinSplit's public input.
pub fn public_input(js: &JoinSplitFields, joinsplit_pub_key: &[u8; 32]) -> (input: Vec<u8>)
    ensures
        input@ == public_input_spec(js, joinsplit_pub_key@),
        input@.len() == 32 * 8 + 8 * 2,
{
    let h = h_sig(&js.random_seed, &js.nullifiers[0], &js.nullifiers[1], joinsplit_pub_key);
    let mut input: Vec<u8> = Vec::new();
    extend_bytes(&mut input, &js.anchor);
    extend_bytes(&mut input, &h);
    extend_bytes(&mut input, &js.nullifiers[0]);
    extend_bytes(&mut input, &js.vmacs[0]);
    extend_bytes(&mut input, &js.nullifiers[1]);
    extend_bytes(&mut input, &js.vmacs[1]);
    extend_bytes(&mut input, &js.commitments[0]);
    extend_bytes(&mut input, &js.commitments[1]);
    extend_bytes(&mut input, &js.vpub_old);
    extend_bytes(&mut input, &js.vpub_new);
    input
}

/// A `groth16` batch verification item over BLS12-381: a decoded proof and
/// its primary inputs.
#[verifier::external_body]
pub struct Groth16Item(pub batch::Item<Bls12>);

/// One Sprout verification item: a JoinSplit's Groth16 proof and its primary
/// inputs, in the form both `groth16` paths consume, with the bytes it was
/// built from.
pub struct SproutItem {
    /// The batch item.
    pub item: Groth16Item,
    /// The encoded proof the item was decoded from.
    pub proof: Ghost<Seq<u8>>,
    /// The public-input bytes whose multipacking the item holds as its
    /// primary inputs.
    pub public_input: Ghost<Seq<u8>>,
}

/// The Sprout JoinSplit verifying key, in both forms the two paths need.
#[verifier::external_body]
pub struct SproutKeys {
    pub vk: VerifyingKey<Bls12>,
    pub pvk: PreparedVerifyingKey<Bls12>,
}

/// A `groth16` batch verification context over BLS12-381.
#[verifier::external_body]
pub struct SproutBatch {
    verifier: batch::Verifier<Bls12>,
}

/// The primary inputs a `groth16` batch item holds, in order, each scalar
/// as its 32-byte little-endian representation.
pub uninterp spec fn groth16_item_inputs(item: Groth16Item) -> Seq<Seq<u8>>;

/// The scalars `bellman`'s `multipack::bytes_to_bits` followed by
/// `multipack::compute_multipacking` make of `bytes`, each as its 32-byte
/// little-endian representation: a function of the bytes alone.
pub uninterp spec fn multipack(bytes: Seq<u8>) -> Seq<Seq<u8>>;

/// Whether a `groth16` item verifies directly against the prepared key
/// through `batch::Item::verify_single` (no randomness): a function of the
/// item and the key.
pub uninterp spec fn groth16_single_verdict(item: Groth16Item, keys: SproutKeys) -> bool;

/// Build a batch item from an encoded proof and public-input bytes: the
/// proof is read with `Proof::read` and the input packed into scalars with
/// `multipack::bytes_to_bits` and `multipack::compute_multipacking`. `None`
/// exactly when the proof does not decode.
#[verifier::external_body]
fn groth16_item(zkproof: &GrothProofBytes, public_input: &[u8]) -> (item: Option<Groth16Item>)
    ensures
        item is Some <==> groth16_proof_decodes(zkproof@),
        item matches Some(i) ==> groth16_item_inputs(i) == multipack(public_input@),
{
    let proof = Proof::<Bls12>::read(&zkproof[..]).ok()?;
    let bits = multipack::bytes_to_bits(public_input);
    let primary_inputs = multipack::compute_multipacking(&bits);
    Some(Groth16Item(batch::Item::from((proof, primary_inputs))))
}

/// The Sprout item of an encoded proof and its public-input bytes. `None`
/// exactly when the proof does not decode.
fn sprout_item(zkproof: &GrothProofBytes, public_input: &Vec<u8>) -> (item: Option<SproutItem>)
    ensures
        item is Some <==> groth16_proof_decodes(zkproof@),
        item matches Some(i) ==> i.proof@ == zkproof@ && i.public_input@ == public_input@
            && groth16_item_inputs(i.item) == multipack(public_input@),
{
    match groth16_item(zkproof, public_input.as_slice()) {
        Some(batch_item) => Some(
            SproutItem { item: batch_item, proof: Ghost(zkproof@), public_input: Ghost(public_input@) },
        ),
        None => None,
    }
}

/// Build the verification item for one JoinSplit, encoding its primary
/// inputs in consensus order. `None` exactly when the proof bytes do not
/// decode.
pub fn item_from_joinsplit(js: &JoinSplitFields, joinsplit_pub_key: &[u8; 32]) -> (item: Option<SproutItem>)
    ensures
        item is Some <==> groth16_proof_decodes(js.zkproof@),
        item matches Some(i) ==> i.proof@ == js.zkproof@ && i.public_input@ == public_input_spec(
            js,
            joinsplit_pub_key@,
        ) && groth16_item_inputs(i.item) == multipack(public_input_spec(js, joinsplit_pub_key@)),
{
    let input = public_input(js, joinsplit_pub_key);
    sprout_item(&js.zkproof, &input)
}

/// How many of `joinsplits` carry a proof that decodes.
pub open spec fn decodable_count(joinsplits: Seq<JoinSplitFields>) -> nat
    decreases joinsplits.len(),
{
    if joinsplits.len() == 0 {
        0
    } else {
        decodable_count(joinsplits.drop_last()) + if groth16_proof_decodes(joinsplits.last().zkproof@) {
            1nat
        } else {
            0nat
        }
    }
}

/// The public inputs of the JoinSplits whose proofs decode, in order.
pub open spec fn decodable_inputs(joinsplits: Seq<JoinSplitFields>, joinsplit_pub_key: Seq<u8>) -> Seq<Seq<u8>>
    decreases joinsplits.len(),
{
    if joinsplits.len() == 0 {
        seq![]
    } else {
        let head = decodable_inputs(joinsplits.drop_last(), joinsplit_pub_key);
        if groth16_proof_decodes(joinsplits.last().zkproof@) {
            head.push(public_input_spec(&joinsplits.last(), joinsplit_pub_key))
        } else {
            head
        }
    }
}

/// Every public input among a transaction's decodable JoinSplits is the
/// public input of one of them under the given JoinSplit validating key, in
/// JoinSplit order: input `k` comes from a JoinSplit whose proof decodes, and
/// later inputs come from later JoinSplits.
pub proof fn lemma_decodable_inputs_come_from_joinsplits(
    joinsplits: Seq<JoinSplitFields>,
    joinsplit_pub_key: Seq<u8>,
    k: int,
)
    requires
        0 <= k < decodable_inputs(joinsplits, joinsplit_pub_key).len(),
    ensures
        exists|j: int|
            0 <= j < joinsplits.len() && groth16_proof_decodes(joinsplits[j].zkproof@) && decodable_inputs(
                joinsplits,
                joinsplit_pub_key,
            )[k] == public_input_spec(&#[trigger] joinsplits[j], joinsplit_pub_key),
    decreases joinsplits.len(),
{
    let init = joinsplits.drop_last();
    let head = decodable_inputs(init, joinsplit_pub_key);
    let m = joinsplits.len() - 1;
    if k < head.len() {
        lemma_decodable_inputs_come_from_joinsplits(init, joinsplit_pub_key, k);
        let j = choose|j: int|
            0 <= j < init.len() && groth16_proof_decodes(init[j].zkproof@) && head[k] == public_input_spec(
                &#[trigger] init[j],
                joinsplit_pub_key,
            );
        assert(joinsplits[j] == init[j]);
        if groth16_proof_decodes(joinsplits.last().zkproof@) {
            assert(decodable_inputs(joinsplits, joinsplit_pub_key)[k] == head[k]);
        }
    } else {
        assert(joinsplits[m] == joinsplits.last());
    }
}

/// The verification items of a transaction's Groth16 JoinSplits, in order,
/// skipping any whose proof does not decode.
pub fn items_from_joinsplits(joinsplits: &[JoinSplitFields], joinsplit_pub_key: &[u8; 32]) -> (items: Vec<SproutItem>)
    ensures
        items@.len() == decodable_count(joinsplits@),
        items@.len() == decodable_inputs(joinsplits@, joinsplit_pub_key@).len(),
        forall|k: int|
            0 <= k < items@.len() ==> (#[trigger] items@[k]).public_input@ == decodable_inputs(
                joinsplits@,
                joinsplit_pub_key@,
            )[k],
        forall|k: int|
            0 <= k < items@.len() ==> groth16_item_inputs((#[trigger] items@[k]).item) == multipack(
                items@[k].public_input@,
            ),
{
    let n = joinsplits.len();
    let mut items: Vec<SproutItem> = Vec::new();
    let mut i: usize = 0;
    while i < n
        invariant
            n == joinsplits@.len(),
            i <= n,
            items@.len() == decodable_count(joinsplits@.take(i as int)),
            items@.len() == decodable_inputs(joinsplits@.take(i as int), joinsplit_pub_key@).len(),
            forall|k: int|
                0 <= k < items@.len() ==> (#[trigger] items@[k]).public_input@ == decodable_inputs(
                    joinsplits@.take(i as int),
                    joinsplit_pub_key@,
                )[k],
            forall|k: int|
                0 <= k < items@.len() ==> groth16_item_inputs((#[trigger] items@[k]).item) == multipack(
                    items@[k].public_input@,
                ),
        decreases n - i,
    {
        assert(joinsplits@.take(i as int + 1).drop_last() =~= joinsplits@.take(i as int));
        assert(joinsplits@.take(i as int + 1).last() == joinsplits@[i as int]);
        match item_from_joinsplit(&joinsplits[i], joinsplit_pub_key) {
            Some(item) => items.push(item),
            None => {},
        }
        i = i + 1;
    }
    assert(joinsplits@.take(n as int) =~= joinsplits@);
    items
}

/// The JoinSplit validating key of a transaction with Sprout data, via
/// `Transaction::sprout_joinsplit_pub_key`, as bytes. Both it and the
/// JoinSplit descriptions are read from the transaction's Sprout bundle, so
/// without a key there are no JoinSplits.
#[verifier::external_body]
fn joinsplit_pub_key(tx: &Transaction) -> (key: Option<[u8; 32]>)
    ensures
        key is None ==> transaction_joinsplits(*tx).len() == 0,
        key is None <==> transaction_sprout_data(*tx).0 is None,
        key matches Some(k) ==> transaction_sprout_data(*tx).0 == Some(k@),
{
    tx.sprout_joinsplit_pub_key().map(<[u8; 32]>::from)
}

/// The transaction's JoinSplits, field for field, via
/// `Transaction::sprout_joinsplit_descriptions` and the description
/// accessors; `None` for one whose proof is not Groth16 (a pre-Sapling
/// BCTV14 proof).
#[verifier::external_body]
pub(crate) fn joinsplit_fields(tx: &Transaction) -> (fields: Vec<Option<JoinSplitFields>>)
    ensures
        fields@ == transaction_joinsplits(*tx),
{
    tx.sprout_joinsplit_descriptions()
        .map(|js| {
            js.groth_proof_bytes().map(|proof| JoinSplitFields {
                anchor: *js.anchor(),
                nullifiers: *js.nullifiers(),
                commitments: *js.commitments(),
                random_seed: *js.random_seed(),
                vmacs: *js.macs(),
                vpub_old: js.vpub_old().to_i64_le_bytes(),
                vpub_new: js.vpub_new().to_i64_le_bytes(),
                zkproof: *proof,
            })
        })
        .collect()
}

/// The JoinSplits a transaction holds, in order, field for field; `None`
/// for one whose proof is not Groth16.
pub open spec fn transaction_joinsplits(tx: Transaction) -> Seq<Option<JoinSplitFields>> {
    transaction_sprout_data(tx).1
}

/// What a transaction's Sprout data holds: its JoinSplit validating key as
/// bytes, when it has Sprout data, and its JoinSplits in order, field for
/// field (`None` for one whose proof is not Groth16).
pub uninterp spec fn transaction_sprout_data(tx: Transaction) -> (Option<Seq<u8>>, Seq<Option<JoinSplitFields>>);

/// A transaction's JoinSplit validating key as bytes, when it has Sprout
/// data.
pub open spec fn transaction_joinsplit_key(tx: Transaction) -> Option<Seq<u8>> {
    transaction_sprout_data(tx).0
}

/// The present values of a sequence of options, in order.
pub open spec fn present<T>(s: Seq<Option<T>>) -> Seq<T>
    decreases s.len(),
{
    if s.len() == 0 {
        seq![]
    } else {
        let head = present(s.drop_last());
        match s.last() {
            Some(v) => head.push(v),
            None => head,
        }
    }
}

/// The JoinSplits that carry Groth16 proofs, in order.
pub(crate) fn groth16_joinsplits(fields: &Vec<Option<JoinSplitFields>>) -> (joinsplits: Vec<JoinSplitFields>)
    ensures
        joinsplits@ == present(fields@),
{
    let n = fields.len();
    let mut out: Vec<JoinSplitFields> = Vec::new();
    let mut i: usize = 0;
    while i < n
        invariant
            n == fields@.len(),
            i <= n,
            out@ == present(fields@.take(i as int)),
        decreases n - i,
    {
        assert(fields@.take(i as int + 1).drop_last() =~= fields@.take(i as int));
        match fields[i] {
            Some(js) => out.push(js),
            None => {},
        }
        i = i + 1;
    }
    assert(fields@.take(n as int) =~= fields@);
    out
}

/// Every Groth16 JoinSplit item in a transaction. Empty for transactions
/// with no JoinSplits and for those whose JoinSplits carry BCTV14 proofs.
pub fn items_from_tx(tx: &Transaction) -> (items: Vec<SproutItem>)
    ensures
        items@.len() == decodable_count(present(transaction_joinsplits(*tx))),
        transaction_joinsplit_key(*tx) matches Some(key) ==> {
            &&& items@.len() == decodable_inputs(present(transaction_joinsplits(*tx)), key).len()
            &&& forall|k: int|
                0 <= k < items@.len() ==> (#[trigger] items@[k]).public_input@ == decodable_inputs(
                    present(transaction_joinsplits(*tx)),
                    key,
                )[k] && groth16_item_inputs(items@[k].item) == multipack(items@[k].public_input@)
        },
{
    let pub_key = match joinsplit_pub_key(tx) {
        Some(k) => k,
        None => return Vec::new(),
    };
    let fields = joinsplit_fields(tx);
    let joinsplits = groth16_joinsplits(&fields);
    items_from_joinsplits(joinsplits.as_slice(), &pub_key)
}

/// Whether `bytes` begin with an encoded BLS12-381 Groth16 verifying key
/// (`groth16`'s `VerifyingKey::read` succeeds on them). Reading is a function
/// of the bytes alone.
pub uninterp spec fn groth16_vk_parses(bytes: Seq<u8>) -> bool;

/// Parse a verifying key and prepare it, via `VerifyingKey::read` and
/// `prepare_verifying_key`; `None` exactly when the bytes do not parse.
#[verifier::external_body]
fn parse_sprout_keys(bytes: &[u8]) -> (keys: Option<SproutKeys>)
    ensures
        keys is Some <==> groth16_vk_parses(bytes@),
{
    let vk = VerifyingKey::<Bls12>::read(bytes).ok()?;
    let pvk = prepare_verifying_key(&vk);
    Some(SproutKeys { vk, pvk })
}

/// Whether two digests are the same 32 bytes.
fn digest_eq(a: &[u8; 32], b: &[u8; 32]) -> (same: bool)
    ensures
        same == (a@ == b@),
{
    let mut i: usize = 0;
    while i < 32
        invariant
            i <= 32,
            forall|j: int| 0 <= j < i ==> a@[j] == b@[j],
        decreases 32 - i,
    {
        if a[i] != b[i] {
            assert(a@[i as int] != b@[i as int]);
            return false;
        }
        i = i + 1;
    }
    assert(a@ =~= b@);
    true
}

impl SproutKeys {
    /// Zebra's Sprout verifying key from its vendored bytes, after checking
    /// them against [`SPROUT_VK_DIGEST`]. `None` exactly when the bytes are
    /// not the recorded key or do not parse.
    pub fn from_vendored_bytes(bytes: &[u8]) -> (keys: Option<SproutKeys>)
        ensures
            keys is Some <==> (blake2b_256(VK_DIGEST_PERSONAL@, bytes@) == SPROUT_VK_DIGEST@
                && groth16_vk_parses(bytes@)),
    {
        let digest = vk_digest(bytes);
        let expected = SPROUT_VK_DIGEST;
        if !digest_eq(&digest, &expected) {
            return None;
        }
        parse_sprout_keys(bytes)
    }
}

/// The items a `groth16` batch context has queued, in order.
pub uninterp spec fn sprout_batch_items(batch: SproutBatch) -> Seq<Groth16Item>;

/// Whether `groth16`'s `batch::Verifier::verify` accepts `items` under the
/// key, its random scalars drawn from `rng` alone: a function of these.
pub uninterp spec fn groth16_batch_verdict(items: Seq<Groth16Item>, keys: SproutKeys, rng: StdRng) -> bool;

/// A fresh `groth16` batch verifier, via `batch::Verifier::new`.
#[verifier::external_body]
fn new_sprout_batch() -> (batch: SproutBatch)
    ensures
        sprout_batch_items(batch) == Seq::<Groth16Item>::empty(),
{
    SproutBatch { verifier: batch::Verifier::new() }
}

/// Queue a clone of one item, via `batch::Verifier::queue`.
#[verifier::external_body]
fn queue_sprout_item(batch: &mut SproutBatch, item: &SproutItem)
    ensures
        sprout_batch_items(*final(batch)) == sprout_batch_items(*old(batch)).push(item.item),
{
    batch.verifier.queue(item.item.0.clone());
}

/// Verify the whole batch with `rng`, via `batch::Verifier::verify` (the
/// single-threaded verifier, which draws its scalars from `rng`).
#[verifier::external_body]
fn verify_sprout_batch(batch: SproutBatch, keys: &SproutKeys, rng: StdRng) -> (ok: bool)
    ensures
        ok == groth16_batch_verdict(sprout_batch_items(batch), *keys, rng),
{
    batch.verifier.verify(rng, &keys.vk).is_ok()
}

/// Verify one item directly against the prepared key, via
/// `batch::Item::verify_single`.
#[verifier::external_body]
fn verify_sprout_single(item: &SproutItem, keys: &SproutKeys) -> (ok: bool)
    ensures
        ok == groth16_single_verdict(item.item, *keys),
{
    item.item.0.clone().verify_single(&keys.pvk).is_ok()
}

/// Every verdict is the same.
pub open spec fn uniform_verdicts(verdicts: Seq<bool>) -> bool {
    forall|i: int, j: int| 0 <= i < verdicts.len() && 0 <= j < verdicts.len() ==> #[trigger] verdicts[i] == #[trigger] verdicts[j]
}

/// `n` copies of one verdict.
pub(crate) fn repeat_verdict(verdict: bool, n: usize) -> (verdicts: Vec<bool>)
    ensures
        verdicts@.len() == n,
        forall|i: int| 0 <= i < n ==> #[trigger] verdicts@[i] == verdict,
        uniform_verdicts(verdicts@),
{
    let mut verdicts: Vec<bool> = Vec::new();
    let mut i: usize = 0;
    while i < n
        invariant
            i <= n,
            verdicts@.len() == i,
            forall|j: int| 0 <= j < i ==> #[trigger] verdicts@[j] == verdict,
        decreases n - i,
    {
        verdicts.push(verdict);
        i = i + 1;
    }
    verdicts
}

/// The batch items of a sequence of Sprout items, in order.
pub open spec fn sprout_queued(items: Seq<&SproutItem>) -> Seq<Groth16Item> {
    Seq::new(items.len(), |i: int| items[i].item)
}

/// The verdict of one `groth16` batch over `items` under the key, seeded
/// with `seed`.
pub open spec fn sprout_batch_verdict(items: Seq<&SproutItem>, ctx: &SproutKeys, seed: u64) -> bool {
    groth16_batch_verdict(sprout_queued(items), *ctx, seeded_rng_state(seed))
}

/// Sprout JoinSplit Groth16 proofs, driven through `groth16::batch`.
pub struct Sprout;

impl BatchVerifier for Sprout {
    type Item = SproutItem;
    type Context = SproutKeys;
    const NAME: &'static str = "sprout (JoinSplit Groth16)";

    /// Queueing cannot fail: every item receives the verdict of the one
    /// seeded batch over all of them.
    open spec fn batch_spec(items: Seq<&SproutItem>, ctx: &SproutKeys, seed: u64, verdicts: Seq<bool>) -> bool {
        &&& uniform_verdicts(verdicts)
        &&& forall|i: int| 0 <= i < verdicts.len() ==> #[trigger] verdicts[i] == sprout_batch_verdict(items, ctx, seed)
    }

    /// The verdict of the seeded batch of this one item.
    open spec fn single_spec(item: &SproutItem, ctx: &SproutKeys, seed: u64, verdict: bool) -> bool {
        verdict == sprout_batch_verdict(seq![item], ctx, seed)
    }

    /// The item's direct verdict.
    open spec fn independent_spec(item: &SproutItem, ctx: &SproutKeys, verdict: bool) -> bool {
        verdict == groth16_single_verdict(item.item, *ctx)
    }

    /// Every item has a direct path.
    open spec fn has_independent_path(item: &SproutItem, ctx: &SproutKeys) -> bool {
        true
    }

    fn validate_batch(items: &[&SproutItem], ctx: &SproutKeys, seed: u64) -> (verdicts: Vec<bool>) {
        let mut batch = new_sprout_batch();
        let n = items.len();
        let mut i: usize = 0;
        assert(sprout_batch_items(batch) =~= sprout_queued(items@.take(0)));
        while i < n
            invariant
                n == items@.len(),
                i <= n,
                sprout_batch_items(batch) == sprout_queued(items@.take(i as int)),
            decreases n - i,
        {
            queue_sprout_item(&mut batch, items[i]);
            assert(sprout_queued(items@.take(i as int + 1)) =~= sprout_queued(items@.take(i as int)).push(
                items@[i as int].item,
            ));
            i = i + 1;
        }
        assert(items@.take(n as int) =~= items@);
        let shared = verify_sprout_batch(batch, ctx, seeded_rng(seed));
        repeat_verdict(shared, n)
    }

    fn validate_one(item: &SproutItem, ctx: &SproutKeys, seed: u64) -> (verdict: bool) {
        let mut batch = new_sprout_batch();
        queue_sprout_item(&mut batch, item);
        assert(sprout_batch_items(batch) =~= sprout_queued(seq![item]));
        verify_sprout_batch(batch, ctx, seeded_rng(seed))
    }

    /// Direct verification against the prepared key: no randomised linear
    /// combination, no RNG.
    fn validate_one_independent(item: &SproutItem, ctx: &SproutKeys) -> (verdict: Option<bool>)
        ensures
            verdict == Some(groth16_single_verdict(item.item, *ctx)),
    {
        Some(verify_sprout_single(item, ctx))
    }
}

/// Sprout reports are reproducible for a seed: over the same items, context
/// and seed, the batch path has one outcome and the single path one outcome,
/// so every run classifies them alike.
pub proof fn lemma_sprout_reports_reproducible(
    items: Seq<&SproutItem>,
    ctx: &SproutKeys,
    seed: u64,
    first: EquivReport,
    second: EquivReport,
)
    requires
        equivalence_outcome::<Sprout>(items, ctx, seed, first),
        equivalence_outcome::<Sprout>(items, ctx, seed, second),
    ensures
        first == second,
{
    let (b1, s1) = choose|b: bool, s: bool|
        batch_outcome::<Sprout>(items, ctx, seed, b) && singles_outcome::<Sprout>(items, ctx, seed, s) && first
            == classify_spec(b, s);
    let (b2, s2) = choose|b: bool, s: bool|
        batch_outcome::<Sprout>(items, ctx, seed, b) && singles_outcome::<Sprout>(items, ctx, seed, s) && second
            == classify_spec(b, s);
    let v1 = choose|verdicts: Seq<bool>|
        #![trigger Sprout::batch_spec(items, ctx, seed, verdicts)]
        verdicts.len() == items.len() && Sprout::batch_spec(items, ctx, seed, verdicts) && b1 == all_true(verdicts);
    let v2 = choose|verdicts: Seq<bool>|
        #![trigger Sprout::batch_spec(items, ctx, seed, verdicts)]
        verdicts.len() == items.len() && Sprout::batch_spec(items, ctx, seed, verdicts) && b2 == all_true(verdicts);
    if items.len() > 0 {
        assert(v1[0] == sprout_batch_verdict(items, ctx, seed));
        assert(v2[0] == sprout_batch_verdict(items, ctx, seed));
        assert(b1 == v1[0]);
        assert(b2 == v2[0]);
    }
    if s1 != s2 {
        let j = choose|i: int| 0 <= i < items.len() && #[trigger] Sprout::single_spec(items[i], ctx, seed, false);
        assert(Sprout::single_spec(items[j], ctx, seed, true));
    }
}

} // verus!
