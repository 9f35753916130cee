//! # Batch-versus-single verification equivalence for Zcash shielded verifiers
//!
//! Drives a shielded verifier down two paths and classifies whether they
//! agree on every input:
//!
//! * **BATCH**: many items fed to one batch validator and validated once.
//! * **SINGLE**: each item validated on its own (a batch of one).
//!
//! Batch accepts while some single rejects is a false accept (the soundness
//! failure); batch rejects while every single accepts is a false reject (a
//! liveness signal).
//!
//! The pool-independent oracle lives in [`batch_verifier`]; each pool supplies
//! its items and paths through [`batch_verifier::BatchVerifier`].

use vstd::prelude::*;

pub mod adversarial;
pub mod batch_verifier;
pub mod corpus;
pub mod era;
pub mod fuzz_input;
pub mod invariants;
pub mod orchard_pool;
pub mod redjubjub;
pub mod sapling;
pub mod sprout;
pub mod stream;
pub mod tower;
pub mod turnstile;

pub use batch_verifier::{check_strategy_equivalence, BatchVerifier, PerItemReport, StrategyReport};
pub use era::CircuitEra;
pub use orchard_pool::{
    check_equivalence, check_equivalence_per_item, check_equivalence_refs, item_from_tx, redpallas_items, RedPallasItem,
    item_from_tx_with_nu, items_from_tx, items_from_tx_with_nu, Orchard,
    OrchardBundle, OrchardItem,
};
pub use era::verifying_key;
pub use stream::{items_from_tx_stream_with, MAX_BATCH_ITEMS};
pub use zcash_protocol::value::ZatBalance;
pub use zebra_chain::transaction::SigHash;

verus! {

/// Which shielded pool a bundle spends from. NU6.3 (Ironwood) introduces a
/// second pool whose bundles share the Orchard bundle type, circuit and batch
/// stack; the pool is carried so corpora and reports can tell them apart.
#[derive(Debug, Clone, Copy, PartialEq, Eq, Hash, Structural)]
pub enum Pool {
    /// The original Orchard pool.
    Orchard,
    /// The Ironwood pool (NU6.3 onward).
    Ironwood,
}

/// Outcome of one equivalence check over a group of same-era items.
#[derive(Debug, Clone, Copy, PartialEq, Eq, Structural)]
pub enum EquivReport {
    /// Batch and single agreed on this boolean.
    Agree(bool),
    /// Batch accepted but at least one single rejected: a soundness failure.
    FalseAccept,
    /// Batch rejected but every single accepted: liveness.
    FalseReject,
}

impl EquivReport {
    /// Whether this outcome is a batch/single disagreement.
    pub open spec fn is_disagreement_spec(self) -> bool {
        !(self is Agree)
    }

    /// Whether this is the soundness-class disagreement.
    pub open spec fn is_false_accept_spec(self) -> bool {
        self is FalseAccept
    }

    /// Whether this outcome is a batch/single disagreement (either direction).
    pub fn is_disagreement(self) -> (d: bool)
        ensures
            d == self.is_disagreement_spec(),
    {
        match self {
            EquivReport::Agree(_) => false,
            _ => true,
        }
    }

    /// Whether this is the critical (soundness) disagreement.
    pub fn is_false_accept(self) -> (f: bool)
        ensures
            f == self.is_false_accept_spec(),
    {
        match self {
            EquivReport::FalseAccept => true,
            _ => false,
        }
    }
}

/// The 64-bit FNV offset basis.
pub const FNV_OFFSET: u64 = 0xcbf2_9ce4_8422_2325u64;

/// The 64-bit FNV prime.
pub const FNV_PRIME: u64 = 0x0000_0100_0000_01b3u64;

/// FNV-1a over a byte sequence, as a mathematical function.
pub open spec fn fnv1a(data: Seq<u8>) -> u64
    decreases data.len(),
{
    if data.len() == 0 {
        FNV_OFFSET
    } else {
        (fnv1a(data.drop_last()) ^ (data.last() as u64)).wrapping_mul(FNV_PRIME)
    }
}

/// Derive a deterministic RNG seed from a fuzz input (FNV-1a), so mutating the
/// input also explores the RNG space while keeping each input reproducible.
pub fn derive_seed(data: &[u8]) -> (seed: u64)
    ensures
        seed == fnv1a(data@),
{
    let mut hash: u64 = FNV_OFFSET;
    let n = data.len();
    let mut i: usize = 0;
    while i < n
        invariant
            n == data@.len(),
            i <= n,
            hash == fnv1a(data@.take(i as int)),
        decreases n - i,
    {
        assert(data@.take(i as int + 1).drop_last() =~= data@.take(i as int));
        let b = data[i];
        hash = (hash ^ (b as u64)).wrapping_mul(FNV_PRIME);
        i = i + 1;
    }
    assert(data@.take(n as int) =~= data@);
    hash
}

/// Name of the per-corpus seed-reach manifest file.
pub const MANIFEST_NAME: &'static str = "REACHES.txt";

} // verus!
