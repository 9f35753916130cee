//! Corpus extraction from raw block bytes: which transactions of a block
//! become seeds for the oracle, and which circuit era a seed falls in.
//!
//! Two corpora are cut from blocks. The shielded-only corpus keeps each
//! transaction that [`orchard_pool::items_from_tx`] turns into at least one
//! item and that has no transparent inputs (its sighash then needs no
//! prevouts). The historical corpus keeps each transaction with a Groth16
//! JoinSplit, a Sapling spend or a Sapling output, transparent inputs or not.

use vstd::prelude::*;

use zebra_chain::block::Block;
use zebra_chain::serialization::ZcashDeserialize;
use zebra_chain::transaction::Transaction;

use crate::orchard_pool::{self, has_orchard_protocol_bundle, transaction_pools, yields_items};
use crate::sprout::{self, present, transaction_joinsplits};
use crate::Pool;

verus! {

/// Mainnet activation height of NU6.2.
pub const NU6_2_HEIGHT: u32 = 3_364_600;

/// Mainnet activation height of NU6.3 (Ironwood).
pub const NU6_3_HEIGHT: u32 = 3_428_143;

/// The circuit era a block height falls in: 0 before NU6.2, 1 from NU6.2,
/// 2 from NU6.3 on.
pub open spec fn era_bucket_spec(height: u32) -> usize {
    if height >= NU6_3_HEIGHT {
        2
    } else if height >= NU6_2_HEIGHT {
        1
    } else {
        0
    }
}

/// The circuit era a block height falls in. See [`era_bucket_spec`].
pub fn era_bucket(height: u32) -> (bucket: usize)
    ensures
        bucket == era_bucket_spec(height),
{
    if height >= NU6_3_HEIGHT {
        2
    } else if height >= NU6_2_HEIGHT {
        1
    } else {
        0
    }
}

/// What `Block::zcash_deserialize` makes of `bytes`: `None` when they do not
/// decode, else the block's coinbase height (when its coinbase carries one)
/// and its transactions in order. A function of the bytes alone.
pub uninterp spec fn block_contents(bytes: Seq<u8>) -> Option<(Option<u32>, Seq<Transaction>)>;

/// Decode a block, via `Block::zcash_deserialize`, into its coinbase height
/// (`Block::coinbase_height`) and its transactions.
#[verifier::external_body]
fn parse_block(bytes: &[u8]) -> (block: Option<(Option<u32>, Vec<Transaction>)>)
    ensures
        block is Some <==> block_contents(bytes@) is Some,
        block matches Some(b) ==> block_contents(bytes@) == Some((b.0, b.1@)),
{
    let block = Block::zcash_deserialize(bytes).ok()?;
    let height = block.coinbase_height().map(|h| h.0);
    Some((height, block.transactions.iter().map(|tx| tx.as_ref().clone()).collect()))
}

/// The height a decoded block is filed under: its coinbase height, or 0.
pub open spec fn block_height(bytes: Seq<u8>) -> u32 {
    match block_contents(bytes) {
        Some((Some(h), _)) => h,
        _ => 0,
    }
}

/// The transactions of a decoded block; empty when the bytes do not decode.
pub open spec fn block_transactions(bytes: Seq<u8>) -> Seq<Transaction> {
    match block_contents(bytes) {
        Some((_, txs)) => txs,
        None => seq![],
    }
}

/// Whether a transaction spends transparent inputs: a function of the
/// transaction.
pub uninterp spec fn transaction_has_transparent_inputs(tx: Transaction) -> bool;

/// Whether the transaction spends transparent inputs, via
/// `Transaction::has_transparent_inputs`.
#[verifier::external_body]
pub(crate) fn has_transparent_inputs(tx: &Transaction) -> (has: bool)
    ensures
        has == transaction_has_transparent_inputs(*tx),
{
    tx.has_transparent_inputs()
}

/// The number of Sapling spends a transaction holds: a function of the
/// transaction.
pub uninterp spec fn transaction_sapling_spend_count(tx: Transaction) -> nat;

/// The number of Sapling outputs a transaction holds: a function of the
/// transaction.
pub uninterp spec fn transaction_sapling_output_count(tx: Transaction) -> nat;

/// The number of Sapling spends, via `Transaction::sapling_spends_count`.
#[verifier::external_body]
fn sapling_spend_total(tx: &Transaction) -> (count: usize)
    ensures
        count == transaction_sapling_spend_count(*tx),
{
    tx.sapling_spends_count()
}

/// The number of Sapling outputs, via `Transaction::sapling_outputs`.
#[verifier::external_body]
fn sapling_output_total(tx: &Transaction) -> (count: usize)
    ensures
        count == transaction_sapling_output_count(*tx),
{
    tx.sapling_outputs().count()
}

/// The number of a transaction's JoinSplits that carry Groth16 proofs.
pub open spec fn groth16_joinsplit_count_spec(tx: Transaction) -> nat {
    present(transaction_joinsplits(tx)).len()
}

/// The number of a transaction's JoinSplits that carry Groth16 proofs.
pub fn groth16_joinsplit_count(tx: &Transaction) -> (count: usize)
    ensures
        count == groth16_joinsplit_count_spec(*tx),
{
    let fields = sprout::joinsplit_fields(tx);
    let joinsplits = sprout::groth16_joinsplits(&fields);
    joinsplits.len()
}

/// How many items a transaction with Orchard-protocol bundles yields: one
/// per pool it spends from.
pub open spec fn pool_count(tx: Transaction) -> int {
    (if transaction_pools(tx).contains(Pool::Orchard) {
        1int
    } else {
        0int
    }) + (if transaction_pools(tx).contains(Pool::Ironwood) {
        1int
    } else {
        0int
    })
}

/// Whether a transaction becomes a shielded-only seed: it carries an
/// Orchard-protocol bundle, spends no transparent input, and yields items.
pub open spec fn is_orchard_seed(tx: Transaction) -> bool {
    has_orchard_protocol_bundle(tx) && !transaction_has_transparent_inputs(tx) && yields_items(tx)
}

/// The transactions of `txs` that become shielded-only seeds, in order.
pub open spec fn orchard_seed_txs(txs: Seq<Transaction>) -> Seq<Transaction>
    decreases txs.len(),
{
    if txs.len() == 0 {
        seq![]
    } else {
        let head = orchard_seed_txs(txs.drop_last());
        if is_orchard_seed(txs.last()) {
            head.push(txs.last())
        } else {
            head
        }
    }
}

/// How many of `txs` carry an Orchard-protocol bundle.
pub open spec fn shielded_count(txs: Seq<Transaction>) -> nat
    decreases txs.len(),
{
    if txs.len() == 0 {
        0
    } else {
        shielded_count(txs.drop_last()) + if has_orchard_protocol_bundle(txs.last()) {
            1nat
        } else {
            0nat
        }
    }
}

/// One shielded-only seed: the transaction, how many items it yields, and
/// the circuit era of its block.
pub struct CorpusSeed {
    /// The transaction to store.
    pub transaction: Transaction,
    /// How many Orchard-protocol items it yields.
    pub items: usize,
    /// The circuit era of its block's height (see [`era_bucket`]).
    pub era: usize,
}

/// The shielded-only seeds of one block.
pub struct BlockSeeds {
    /// The block's height (its coinbase height, or 0).
    pub height: u32,
    /// How many of its transactions carry an Orchard-protocol bundle.
    pub shielded_transactions: usize,
    /// The seeds, in block order.
    pub seeds: Vec<CorpusSeed>,
}

proof fn lemma_skip_step<T>(s: Seq<T>, i: int)
    requires
        0 <= i < s.len(),
    ensures
        s.skip(i).remove(0) =~= s.skip(i + 1),
        s.skip(i)[0] == s[i],
        s.take(i + 1).drop_last() =~= s.take(i),
        s.take(i + 1).last() == s[i],
{
}

/// The shielded-only seeds of a block given as bytes: `None` exactly when the
/// bytes do not decode as a block. Otherwise every transaction that carries
/// an Orchard-protocol bundle, spends no transparent input and yields items
/// is a seed, in block order, with its item count and its block's era.
pub fn corpus_seeds_from_block(block: &[u8]) -> (seeds: Option<BlockSeeds>)
    ensures
        seeds is Some <==> block_contents(block@) is Some,
        seeds matches Some(s) ==> {
            &&& s.height == block_height(block@)
            &&& s.shielded_transactions == shielded_count(block_transactions(block@))
            &&& s.seeds@.len() == orchard_seed_txs(block_transactions(block@)).len()
            &&& forall|k: int|
                0 <= k < s.seeds@.len() ==> {
                    &&& (#[trigger] s.seeds@[k]).transaction == orchard_seed_txs(block_transactions(block@))[k]
                    &&& s.seeds@[k].items == pool_count(s.seeds@[k].transaction)
                    &&& s.seeds@[k].era == era_bucket_spec(block_height(block@))
                }
        },
{
    let (coinbase_height, mut rest) = match parse_block(block) {
        Some(b) => b,
        None => return None,
    };
    let height: u32 = match coinbase_height {
        Some(h) => h,
        None => 0,
    };
    let era = era_bucket(height);
    let ghost txs = rest@;
    let n = rest.len();
    let mut shielded: usize = 0;
    let mut seeds: Vec<CorpusSeed> = Vec::new();
    let mut i: usize = 0;
    while i < n
        invariant
            n == txs.len(),
            i <= n,
            txs == block_transactions(block@),
            height == block_height(block@),
            era == era_bucket_spec(height),
            rest@ == txs.skip(i as int),
            shielded == shielded_count(txs.take(i as int)),
            shielded <= i,
            seeds@.len() == orchard_seed_txs(txs.take(i as int)).len(),
            forall|k: int|
                0 <= k < seeds@.len() ==> {
                    &&& (#[trigger] seeds@[k]).transaction == orchard_seed_txs(txs.take(i as int))[k]
                    &&& seeds@[k].items == pool_count(seeds@[k].transaction)
                    &&& seeds@[k].era == era
                },
        decreases n - i,
    {
        proof {
            lemma_skip_step(txs, i as int);
        }
        let tx = rest.remove(0);
        let ghost before = seeds@;
        if orchard_pool::has_orchard_bundle(&tx) || orchard_pool::has_ironwood_bundle(&tx) {
            shielded = shielded + 1;
            if !has_transparent_inputs(&tx) {
                let items = orchard_pool::items_from_tx(&tx);
                if items.len() > 0 {
                    let count = items.len();
                    seeds.push(CorpusSeed { transaction: tx, items: count, era });
                }
            }
        }
        assert forall|k: int| 0 <= k < seeds@.len() implies {
            &&& (#[trigger] seeds@[k]).transaction == orchard_seed_txs(txs.take(i as int + 1))[k]
            &&& seeds@[k].items == pool_count(seeds@[k].transaction)
            &&& seeds@[k].era == era
        } by {
            if k < before.len() {
                assert(seeds@[k] == before[k]);
            }
        }
        i = i + 1;
    }
    assert(txs.take(n as int) =~= txs);
    Some(BlockSeeds { height, shielded_transactions: shielded, seeds })
}

/// Whether a transaction becomes a historical seed: it holds a Groth16
/// JoinSplit, a Sapling spend or a Sapling output.
pub open spec fn is_historical_seed(tx: Transaction) -> bool {
    groth16_joinsplit_count_spec(tx) > 0 || transaction_sapling_spend_count(tx) > 0
        || transaction_sapling_output_count(tx) > 0
}

/// The transactions of `txs` that become historical seeds, in order.
pub open spec fn historical_seed_txs(txs: Seq<Transaction>) -> Seq<Transaction>
    decreases txs.len(),
{
    if txs.len() == 0 {
        seq![]
    } else {
        let head = historical_seed_txs(txs.drop_last());
        if is_historical_seed(txs.last()) {
            head.push(txs.last())
        } else {
            head
        }
    }
}

/// One historical seed: the transaction and what it holds.
pub struct HistoricalSeed {
    /// The transaction to store.
    pub transaction: Transaction,
    /// Its JoinSplits that carry Groth16 proofs.
    pub joinsplits: usize,
    /// Its Sapling spends.
    pub spends: usize,
    /// Its Sapling outputs.
    pub outputs: usize,
    /// Whether it spends transparent inputs (kept: the Sprout proof path
    /// needs no sighash).
    pub transparent_inputs: bool,
}

/// The historical seeds of one block.
pub struct HistoricalBlockSeeds {
    /// The block's height (its coinbase height, or 0).
    pub height: u32,
    /// The seeds, in block order.
    pub seeds: Vec<HistoricalSeed>,
}

/// Whether a historical seed describes `tx`.
pub open spec fn describes(seed: HistoricalSeed, tx: Transaction) -> bool {
    &&& seed.transaction == tx
    &&& seed.joinsplits == groth16_joinsplit_count_spec(tx)
    &&& seed.spends == transaction_sapling_spend_count(tx)
    &&& seed.outputs == transaction_sapling_output_count(tx)
    &&& seed.transparent_inputs == transaction_has_transparent_inputs(tx)
}

/// The historical seeds of a block given as bytes: `None` exactly when the
/// bytes do not decode as a block. Otherwise every transaction with a
/// Groth16 JoinSplit, a Sapling spend or a Sapling output is a seed, in
/// block order, whether or not it spends transparent inputs.
pub fn historical_seeds_from_block(block: &[u8]) -> (seeds: Option<HistoricalBlockSeeds>)
    ensures
        seeds is Some <==> block_contents(block@) is Some,
        seeds matches Some(s) ==> {
            &&& s.height == block_height(block@)
            &&& s.seeds@.len() == historical_seed_txs(block_transactions(block@)).len()
            &&& forall|k: int|
                0 <= k < s.seeds@.len() ==> describes(
                    #[trigger] s.seeds@[k],
                    historical_seed_txs(block_transactions(block@))[k],
                )
        },
{
    let (coinbase_height, mut rest) = match parse_block(block) {
        Some(b) => b,
        None => return None,
    };
    let height: u32 = match coinbase_height {
        Some(h) => h,
        None => 0,
    };
    let ghost txs = rest@;
    let n = rest.len();
    let mut seeds: Vec<HistoricalSeed> = Vec::new();
    let mut i: usize = 0;
    while i < n
        invariant
            n == txs.len(),
            i <= n,
            txs == block_transactions(block@),
            height == block_height(block@),
            rest@ == txs.skip(i as int),
            seeds@.len() == historical_seed_txs(txs.take(i as int)).len(),
            forall|k: int|
                0 <= k < seeds@.len() ==> describes(#[trigger] seeds@[k], historical_seed_txs(txs.take(i as int))[k]),
        decreases n - i,
    {
        proof {
            lemma_skip_step(txs, i as int);
        }
        let tx = rest.remove(0);
        let ghost before = seeds@;
        let joinsplits = groth16_joinsplit_count(&tx);
        let spends = sapling_spend_total(&tx);
        let outputs = sapling_output_total(&tx);
        if joinsplits > 0 || spends > 0 || outputs > 0 {
            let transparent_inputs = has_transparent_inputs(&tx);
            seeds.push(HistoricalSeed { transaction: tx, joinsplits, spends, outputs, transparent_inputs });
        }
        assert forall|k: int| 0 <= k < seeds@.len() implies describes(
            #[trigger] seeds@[k],
            historical_seed_txs(txs.take(i as int + 1))[k],
        ) by {
            if k < before.len() {
                assert(seeds@[k] == before[k]);
            }
        }
        i = i + 1;
    }
    assert(txs.take(n as int) =~= txs);
    Some(HistoricalBlockSeeds { height, seeds })
}

/// Whether a stem begins with `block-`.
pub open spec fn has_block_prefix(stem: Seq<u8>) -> bool {
    &&& stem.len() >= 6
    &&& stem[0] == 0x62
    &&& stem[1] == 0x6c
    &&& stem[2] == 0x6f
    &&& stem[3] == 0x63
    &&& stem[4] == 0x6b
    &&& stem[5] == 0x2d
}

/// Whether every byte is an ASCII decimal digit.
pub open spec fn all_digits(d: Seq<u8>) -> bool {
    forall|i: int| 0 <= i < d.len() ==> 0x30 <= #[trigger] d[i] <= 0x39
}

/// The value of ASCII decimal digits, most significant first.
pub open spec fn decimal_value(d: Seq<u8>) -> int
    decreases d.len(),
{
    if d.len() == 0 {
        0
    } else {
        decimal_value(d.drop_last()) * 10 + (d.last() - 0x30)
    }
}

/// The digits of a `u32` as `str::parse` reads them: an optional leading
/// `+`, then at least one decimal digit.
pub open spec fn u32_digits(text: Seq<u8>) -> Seq<u8> {
    if text.len() > 0 && text[0] == 0x2b {
        text.skip(1)
    } else {
        text
    }
}

/// What `str::parse::<u32>` makes of `text`: its value when it is an
/// optional `+` followed by decimal digits whose value fits, else `None`.
pub open spec fn parse_u32_spec(text: Seq<u8>) -> Option<u32> {
    let d = u32_digits(text);
    if d.len() > 0 && all_digits(d) && decimal_value(d) <= u32::MAX {
        Some(decimal_value(d) as u32)
    } else {
        None
    }
}

/// The height a block file is filed under, from its stem: the number after
/// `block-`, or 0 when the stem has no such prefix or the rest is not a
/// `u32`.
pub open spec fn block_file_height_spec(stem: Seq<u8>) -> u32 {
    if has_block_prefix(stem) {
        match parse_u32_spec(stem.skip(6)) {
            Some(h) => h,
            None => 0,
        }
    } else {
        0
    }
}

proof fn lemma_decimal_value_nonneg(d: Seq<u8>)
    requires
        all_digits(d),
    ensures
        decimal_value(d) >= 0,
    decreases d.len(),
{
    if d.len() > 0 {
        lemma_decimal_value_nonneg(d.drop_last());
    }
}

/// The height a block file is filed under, from the bytes of its stem. See
/// [`block_file_height_spec`].
pub fn block_file_height(stem: &[u8]) -> (height: u32)
    ensures
        height == block_file_height_spec(stem@),
{
    if stem.len() < 6 {
        return 0;
    }
    if !(stem[0] == 0x62 && stem[1] == 0x6c && stem[2] == 0x6f && stem[3] == 0x63 && stem[4] == 0x6b && stem[5]
        == 0x2d) {
        return 0;
    }
    let ghost text = stem@.skip(6);
    let mut start: usize = 6;
    if stem.len() > 6 && stem[6] == 0x2b {
        start = 7;
    }
    let ghost d = u32_digits(text);
    assert(d =~= stem@.skip(start as int));
    if start >= stem.len() {
        return 0;
    }
    let mut value: u64 = 0;
    let mut j: usize = start;
    while j < stem.len()
        invariant
            start <= j <= stem@.len(),
            d =~= stem@.skip(start as int),
            has_block_prefix(stem@),
            d == u32_digits(stem@.skip(6)),
            all_digits(stem@.subrange(start as int, j as int)),
            value == decimal_value(stem@.subrange(start as int, j as int)),
            value <= u32::MAX,
        decreases stem@.len() - j,
    {
        let c = stem[j];
        let ghost prev = stem@.subrange(start as int, j as int);
        let ghost next = stem@.subrange(start as int, j as int + 1);
        assert(next.drop_last() =~= prev);
        if c < 0x30 || c > 0x39 {
            assert(!all_digits(d)) by {
                assert(d[j - start] == c);
            }
            return 0;
        }
        value = value * 10 + (c - 0x30) as u64;
        assert(all_digits(next));
        assert(value == decimal_value(next));
        if value > 0xffff_ffff {
            assert(!(all_digits(d) && decimal_value(d) <= u32::MAX)) by {
                assert(d.take(j + 1 - start) =~= next);
                lemma_prefix_value_bound(d, (j + 1 - start) as int);
            }
            return 0;
        }
        j = j + 1;
    }
    assert(stem@.subrange(start as int, stem@.len() as int) =~= d);
    value as u32
}

proof fn lemma_prefix_value_bound(d: Seq<u8>, n: int)
    requires
        0 <= n <= d.len(),
        all_digits(d.take(n)),
    ensures
        all_digits(d) ==> decimal_value(d) >= decimal_value(d.take(n)),
    decreases d.len() - n,
{
    if n < d.len() && all_digits(d) {
        lemma_prefix_value_bound(d, n + 1);
        assert(d.take(n + 1).drop_last() =~= d.take(n));
        lemma_decimal_value_nonneg(d.take(n));
        assert(decimal_value(d.take(n + 1)) >= decimal_value(d.take(n)));
    } else if n == d.len() {
        assert(d.take(n) =~= d);
    }
}

} // verus!
