//! Turnstile / migration soundness for the Orchard <-> Ironwood boundary.
//!
//! Three properties: **conservation**, **no double-migration**, and **no forged
//! residual value crossing**.
//!
//! Conservation is stated over all pools, not as "the two balances cancel":
//!
//! ```text
//! sum(shielded value balances) - transparent_outputs = fee,  fee >= 0
//! ```
//!
//! Where the fee cannot be computed from the transaction alone (transparent
//! inputs, whose spent values are not carried; Sprout JoinSplits, whose value
//! balance is not reachable), the check says so rather than passing.
//!
//! Double-migration needs state across transactions: [`TurnstileState`]
//! accumulates the nullifiers of each pool, each with the label of the
//! transaction that first spent it, and the two pool balances. A pool balance
//! going negative is a violation only for a run that starts at genesis
//! ([`Origin`]).
//!
//! The transaction is read through [`TransactionFacts`]: the values the
//! turnstile looks at, extracted from a parsed `zebra-chain` transaction.

use vstd::prelude::*;
use vstd::string::*;

pub use zebra_chain::transaction::Transaction;

verus! {

/// The maximum number of zatoshi that can exist (21 million ZEC); every
/// `zebra-chain` amount lies within `[-MAX_MONEY, MAX_MONEY]`.
pub const MAX_MONEY: i64 = 2_100_000_000_000_000i64;

/// A 32-byte nullifier.
pub type NullifierBytes = [u8; 32];

/// Which shielded pool a turnstile observation belongs to.
#[derive(Debug, Clone, Copy, PartialEq, Eq, Hash, Structural)]
pub enum Pool {
    Orchard,
    Ironwood,
}

/// What the turnstile reads of one transaction, as plain values.
pub struct TransactionFacts {
    /// Number of transparent inputs.
    pub transparent_inputs: usize,
    /// Whether the transaction carries Sprout JoinSplits.
    pub has_sprout_joinsplits: bool,
    /// Orchard-pool value balance (positive moves value out of the pool).
    pub orchard_value_balance: i64,
    /// Ironwood-pool value balance (positive moves value out of the pool).
    pub ironwood_value_balance: i64,
    /// Sapling value balance.
    pub sapling_value_balance: i64,
    /// Values of the transparent outputs.
    pub transparent_outputs: Vec<i64>,
    /// Orchard-pool nullifiers, in action order.
    pub orchard_nullifiers: Vec<NullifierBytes>,
    /// Ironwood-pool nullifiers, in action order.
    pub ironwood_nullifiers: Vec<NullifierBytes>,
}

/// Sum of a sequence of amounts.
pub open spec fn sum_amounts(values: Seq<i64>) -> int
    decreases values.len(),
{
    if values.len() == 0 {
        0
    } else {
        sum_amounts(values.drop_last()) + values.last()
    }
}

impl TransactionFacts {
    /// Every amount lies in the range a `zebra-chain` amount can hold, and the
    /// transparent outputs are non-negative and sum to no more than can be
    /// added to the pool balances without leaving `i64`.
    pub open spec fn amounts_in_range(&self) -> bool {
        &&& -MAX_MONEY <= self.orchard_value_balance <= MAX_MONEY
        &&& -MAX_MONEY <= self.ironwood_value_balance <= MAX_MONEY
        &&& -MAX_MONEY <= self.sapling_value_balance <= MAX_MONEY
        &&& forall|i: int|
            0 <= i < self.transparent_outputs@.len() ==> 0 <= #[trigger] self.transparent_outputs@[i]
                <= MAX_MONEY
        &&& sum_amounts(self.transparent_outputs@) <= i64::MAX - 3 * MAX_MONEY
    }

    /// The fee this transaction implies: every shielded pool's value balance,
    /// less what leaves transparently.
    pub open spec fn implied_fee(&self) -> int {
        self.orchard_value_balance + self.ironwood_value_balance + self.sapling_value_balance
            - sum_amounts(self.transparent_outputs@)
    }
}

/// A parsed `zebra-chain` transaction; opaque here, read through the
/// accessors below.
#[verifier::external_type_specification]
#[verifier::external_body]
pub struct ExTransaction(Transaction);

/// The number of transparent inputs a transaction spends.
pub uninterp spec fn transaction_transparent_input_count(tx: Transaction) -> nat;

/// Whether a transaction carries Sprout JoinSplits.
pub uninterp spec fn transaction_has_sprout_joinsplits(tx: Transaction) -> bool;

/// A transaction's Orchard-pool value balance, in zatoshi.
pub uninterp spec fn transaction_orchard_value_balance(tx: Transaction) -> i64;

/// A transaction's Ironwood-pool value balance, in zatoshi.
pub uninterp spec fn transaction_ironwood_value_balance(tx: Transaction) -> i64;

/// A transaction's Sapling value balance, in zatoshi.
pub uninterp spec fn transaction_sapling_value_balance(tx: Transaction) -> i64;

/// The values of a transaction's transparent outputs, in order.
pub uninterp spec fn transaction_transparent_outputs(tx: Transaction) -> Seq<i64>;

/// A transaction's Orchard-pool nullifiers, in action order.
pub uninterp spec fn transaction_orchard_nullifiers(tx: Transaction) -> Seq<NullifierBytes>;

/// A transaction's Ironwood-pool nullifiers, in action order.
pub uninterp spec fn transaction_ironwood_nullifiers(tx: Transaction) -> Seq<NullifierBytes>;

/// The number of transparent inputs, via `Transaction::inputs`.
#[verifier::external_body]
pub(crate) fn transparent_input_count(tx: &Transaction) -> (count: usize)
    ensures
        count == transaction_transparent_input_count(*tx),
{
    tx.inputs().len()
}

/// Whether the transaction carries Sprout JoinSplits, via
/// `Transaction::has_sprout_joinsplit_data`.
#[verifier::external_body]
fn carries_sprout_joinsplits(tx: &Transaction) -> (has: bool)
    ensures
        has == transaction_has_sprout_joinsplits(*tx),
{
    tx.has_sprout_joinsplit_data()
}

/// The Orchard-pool value balance, via `Transaction::orchard_value_balance`
/// and `ValueBalance::orchard_amount`. The result is an `Amount<NegativeAllowed>`,
/// whose constraint keeps it within `[-MAX_MONEY, MAX_MONEY]`.
#[verifier::external_body]
fn orchard_value_balance(tx: &Transaction) -> (vb: i64)
    ensures
        vb == transaction_orchard_value_balance(*tx),
        -MAX_MONEY <= vb <= MAX_MONEY,
{
    tx.orchard_value_balance().orchard_amount().into()
}

/// The Ironwood-pool value balance, via `Transaction::ironwood_value_balance`
/// and `ValueBalance::ironwood_amount`; an `Amount<NegativeAllowed>`, so within
/// `[-MAX_MONEY, MAX_MONEY]`.
#[verifier::external_body]
fn ironwood_value_balance(tx: &Transaction) -> (vb: i64)
    ensures
        vb == transaction_ironwood_value_balance(*tx),
        -MAX_MONEY <= vb <= MAX_MONEY,
{
    tx.ironwood_value_balance().ironwood_amount().into()
}

/// The Sapling value balance, via `Transaction::sapling_value_balance` and
/// `ValueBalance::sapling_amount`; an `Amount<NegativeAllowed>`, so within
/// `[-MAX_MONEY, MAX_MONEY]`.
#[verifier::external_body]
fn sapling_value_balance(tx: &Transaction) -> (vb: i64)
    ensures
        vb == transaction_sapling_value_balance(*tx),
        -MAX_MONEY <= vb <= MAX_MONEY,
{
    tx.sapling_value_balance().sapling_amount().into()
}

/// The transparent output values, via `Transaction::outputs` and
/// `Output::value`; each an `Amount<NonNegative>`, so within `[0, MAX_MONEY]`.
#[verifier::external_body]
fn transparent_output_values(tx: &Transaction) -> (values: Vec<i64>)
    ensures
        values@ == transaction_transparent_outputs(*tx),
        forall|i: int| 0 <= i < values@.len() ==> 0 <= #[trigger] values@[i] <= MAX_MONEY,
{
    tx.outputs().iter().map(|o| i64::from(o.value())).collect()
}

/// The Orchard-pool nullifiers as bytes, via `Transaction::orchard_nullifiers`.
#[verifier::external_body]
fn orchard_nullifier_bytes(tx: &Transaction) -> (nfs: Vec<NullifierBytes>)
    ensures
        nfs@ == transaction_orchard_nullifiers(*tx),
{
    tx.orchard_nullifiers().map(<[u8; 32]>::from).collect()
}

/// The Ironwood-pool nullifiers as bytes, via `Transaction::ironwood_nullifiers`.
#[verifier::external_body]
fn ironwood_nullifier_bytes(tx: &Transaction) -> (nfs: Vec<NullifierBytes>)
    ensures
        nfs@ == transaction_ironwood_nullifiers(*tx),
{
    tx.ironwood_nullifiers().map(<[u8; 32]>::from).collect()
}

impl TransactionFacts {
    /// Read what the turnstile looks at out of a parsed transaction.
    pub fn from_transaction(tx: &Transaction) -> (facts: Self)
        ensures
            -MAX_MONEY <= facts.orchard_value_balance <= MAX_MONEY,
            -MAX_MONEY <= facts.ironwood_value_balance <= MAX_MONEY,
            -MAX_MONEY <= facts.sapling_value_balance <= MAX_MONEY,
            forall|i: int|
                0 <= i < facts.transparent_outputs@.len() ==> 0 <= #[trigger] facts.transparent_outputs@[i]
                    <= MAX_MONEY,
            facts.transparent_inputs == transaction_transparent_input_count(*tx),
            facts.has_sprout_joinsplits == transaction_has_sprout_joinsplits(*tx),
            facts.orchard_value_balance == transaction_orchard_value_balance(*tx),
            facts.ironwood_value_balance == transaction_ironwood_value_balance(*tx),
            facts.sapling_value_balance == transaction_sapling_value_balance(*tx),
            facts.transparent_outputs@ == transaction_transparent_outputs(*tx),
            facts.orchard_nullifiers@ == transaction_orchard_nullifiers(*tx),
            facts.ironwood_nullifiers@ == transaction_ironwood_nullifiers(*tx),
    {
        TransactionFacts {
            transparent_inputs: transparent_input_count(tx),
            has_sprout_joinsplits: carries_sprout_joinsplits(tx),
            orchard_value_balance: orchard_value_balance(tx),
            ironwood_value_balance: ironwood_value_balance(tx),
            sapling_value_balance: sapling_value_balance(tx),
            transparent_outputs: transparent_output_values(tx),
            orchard_nullifiers: orchard_nullifier_bytes(tx),
            ironwood_nullifiers: ironwood_nullifier_bytes(tx),
        }
    }

    /// Whether every amount is in range (see [`Self::amounts_in_range`]).
    pub fn check_amounts_in_range(&self) -> (ok: bool)
        ensures
            ok == self.amounts_in_range(),
    {
        if !(-MAX_MONEY <= self.orchard_value_balance && self.orchard_value_balance <= MAX_MONEY
            && -MAX_MONEY <= self.ironwood_value_balance && self.ironwood_value_balance <= MAX_MONEY
            && -MAX_MONEY <= self.sapling_value_balance && self.sapling_value_balance <= MAX_MONEY) {
            return false;
        }
        let limit: i64 = i64::MAX - 3 * MAX_MONEY;
        let n = self.transparent_outputs.len();
        let mut total: i64 = 0;
        let mut i: usize = 0;
        while i < n
            invariant
                n == self.transparent_outputs@.len(),
                i <= n,
                limit == i64::MAX - 3 * MAX_MONEY,
                forall|j: int| 0 <= j < i ==> 0 <= #[trigger] self.transparent_outputs@[j] <= MAX_MONEY,
                total == sum_amounts(self.transparent_outputs@.take(i as int)),
                0 <= total <= limit,
            decreases n - i,
        {
            assert(self.transparent_outputs@.take(i as int + 1).drop_last() =~= self.transparent_outputs@.take(
                i as int,
            ));
            let v = self.transparent_outputs[i];
            if v < 0 || v > MAX_MONEY || total + v > limit {
                if v >= 0 && v <= MAX_MONEY {
                    proof {
                        lemma_prefix_sum_monotone(self.transparent_outputs@, i as int + 1);
                    }
                }
                return false;
            }
            total = total + v;
            i = i + 1;
        }
        assert(self.transparent_outputs@.take(n as int) =~= self.transparent_outputs@);
        true
    }
}

/// Over non-negative amounts, a prefix sums to no more than the whole.
proof fn lemma_prefix_sum_monotone(values: Seq<i64>, k: int)
    requires
        0 <= k <= values.len(),
    ensures
        (forall|i: int| 0 <= i < values.len() ==> 0 <= #[trigger] values[i]) ==> sum_amounts(values.take(k))
            <= sum_amounts(values),
{
    if forall|i: int| 0 <= i < values.len() ==> 0 <= #[trigger] values[i] {
        lemma_prefix_sum_bounded(values, k);
    }
}

/// Why conservation could not be decided for a transaction.
#[derive(Debug, Clone, Copy, PartialEq, Eq, Structural)]
pub enum Indeterminacy {
    /// The transaction spends this many transparent inputs, whose values a
    /// bare transaction does not carry.
    TransparentInputs(usize),
    /// The transaction carries Sprout JoinSplits, whose value balance is not
    /// reachable here.
    SproutBalanceUnreachable,
}

/// The outcome of the conservation check for one transaction.
#[derive(Debug, Clone, Copy, PartialEq, Eq, Structural)]
pub enum Conservation {
    /// Value is conserved, leaving this much fee (in zatoshi).
    Holds { fee: i64 },
    /// The sum implies a negative fee: more value left than entered.
    Violated { implied_fee: i64 },
    /// Not decidable from this transaction alone, with the reason.
    Indeterminate(Indeterminacy),
}

/// Conservation over one transaction, as a mathematical function.
pub open spec fn conservation_spec(tx: &TransactionFacts) -> Conservation {
    if tx.transparent_inputs > 0 {
        Conservation::Indeterminate(Indeterminacy::TransparentInputs(tx.transparent_inputs))
    } else if tx.has_sprout_joinsplits {
        Conservation::Indeterminate(Indeterminacy::SproutBalanceUnreachable)
    } else if tx.implied_fee() < 0 {
        Conservation::Violated { implied_fee: tx.implied_fee() as i64 }
    } else {
        Conservation::Holds { fee: tx.implied_fee() as i64 }
    }
}

/// Sum the transparent outputs.
fn transparent_out_total(outputs: &Vec<i64>) -> (total: i64)
    requires
        forall|i: int| 0 <= i < outputs@.len() ==> 0 <= #[trigger] outputs@[i] <= MAX_MONEY,
        sum_amounts(outputs@) <= i64::MAX,
    ensures
        total == sum_amounts(outputs@),
{
    let n = outputs.len();
    let mut total: i64 = 0;
    let mut i: usize = 0;
    while i < n
        invariant
            n == outputs@.len(),
            i <= n,
            forall|j: int| 0 <= j < outputs@.len() ==> 0 <= #[trigger] outputs@[j] <= MAX_MONEY,
            sum_amounts(outputs@) <= i64::MAX,
            total == sum_amounts(outputs@.take(i as int)),
        decreases n - i,
    {
        assert(outputs@.take(i as int + 1).drop_last() =~= outputs@.take(i as int));
        proof {
            lemma_prefix_sum_bounded(outputs@, i as int + 1);
        }
        total = total + outputs[i];
        i = i + 1;
    }
    assert(outputs@.take(n as int) =~= outputs@);
    total
}

/// A prefix of non-negative amounts sums to no more than the whole.
proof fn lemma_prefix_sum_bounded(values: Seq<i64>, k: int)
    requires
        0 <= k <= values.len(),
        forall|i: int| 0 <= i < values.len() ==> 0 <= #[trigger] values[i],
    ensures
        0 <= sum_amounts(values.take(k)) <= sum_amounts(values),
    decreases values.len() - k,
{
    if k < values.len() {
        lemma_prefix_sum_bounded(values, k + 1);
        assert(values.take(k + 1).drop_last() =~= values.take(k));
    } else {
        assert(values.take(k) =~= values);
    }
    lemma_sum_nonneg(values.take(k));
}

proof fn lemma_sum_nonneg(values: Seq<i64>)
    requires
        forall|i: int| 0 <= i < values.len() ==> 0 <= #[trigger] values[i],
    ensures
        0 <= sum_amounts(values),
    decreases values.len(),
{
    if values.len() > 0 {
        lemma_sum_nonneg(values.drop_last());
    }
}

/// Conservation over one transaction.
///
/// Sums every shielded pool's value balance, subtracts what leaves
/// transparently, and reports the remainder as the fee. Transactions with
/// transparent inputs or Sprout JoinSplits are reported as indeterminate.
pub fn check_conservation(tx: &TransactionFacts) -> (outcome: Conservation)
    requires
        tx.amounts_in_range(),
    ensures
        outcome == conservation_spec(tx),
{
    let transparent_inputs = tx.transparent_inputs;
    if transparent_inputs > 0 {
        return Conservation::Indeterminate(Indeterminacy::TransparentInputs(transparent_inputs));
    }
    if tx.has_sprout_joinsplits {
        return Conservation::Indeterminate(Indeterminacy::SproutBalanceUnreachable);
    }
    proof {
        lemma_sum_nonneg(tx.transparent_outputs@);
    }
    let transparent_out = transparent_out_total(&tx.transparent_outputs);
    let implied_fee = tx.orchard_value_balance + tx.ironwood_value_balance + tx.sapling_value_balance
        - transparent_out;
    if implied_fee < 0 {
        Conservation::Violated { implied_fee }
    } else {
        Conservation::Holds { fee: implied_fee }
    }
}

/// Whether the run being fed through the turnstile starts from an empty chain.
#[derive(Debug, Clone, Copy, PartialEq, Eq, Structural)]
pub enum Origin {
    /// Both pools begin empty; a negative balance is a violation.
    Genesis,
    /// The pools already hold an unknown amount; balances are changes, and a
    /// negative one is not a violation.
    MidChain,
}

/// A turnstile property that a transaction, or a run of them, violated.
#[derive(Debug, Clone, PartialEq, Eq)]
pub enum TurnstileViolation {
    /// More value left than entered (conservation).
    ValueCreated { implied_fee: i64 },
    /// A nullifier already spent in the same pool: the note is spent twice.
    DoubleSpend { pool: Pool, nullifier: NullifierBytes, first_seen: String, again_in: String },
    /// The same 32 bytes used as a nullifier in both pools.
    CrossPoolNullifierReuse { nullifier: NullifierBytes, orchard_in: String, ironwood_in: String },
    /// A pool's cumulative balance went negative under a genesis origin.
    PoolBalanceNegative { pool: Pool, balance: i64 },
}

/// The mathematical content of a [`TurnstileViolation`], labels as character
/// sequences.
pub enum ViolationSpec {
    ValueCreated { implied_fee: i64 },
    DoubleSpend { pool: Pool, nullifier: NullifierBytes, first_seen: Seq<char>, again_in: Seq<char> },
    CrossPoolNullifierReuse { nullifier: NullifierBytes, orchard_in: Seq<char>, ironwood_in: Seq<char> },
    PoolBalanceNegative { pool: Pool, balance: i64 },
}

impl View for TurnstileViolation {
    type V = ViolationSpec;

    open spec fn view(&self) -> ViolationSpec {
        match *self {
            TurnstileViolation::ValueCreated { implied_fee } => ViolationSpec::ValueCreated { implied_fee },
            TurnstileViolation::DoubleSpend { pool, nullifier, first_seen, again_in } =>
                ViolationSpec::DoubleSpend { pool, nullifier, first_seen: first_seen@, again_in: again_in@ },
            TurnstileViolation::CrossPoolNullifierReuse { nullifier, orchard_in, ironwood_in } =>
                ViolationSpec::CrossPoolNullifierReuse {
                    nullifier,
                    orchard_in: orchard_in@,
                    ironwood_in: ironwood_in@,
                },
            TurnstileViolation::PoolBalanceNegative { pool, balance } => ViolationSpec::PoolBalanceNegative {
                pool,
                balance,
            },
        }
    }
}

/// The views of a sequence of violations.
pub open spec fn violation_views(vs: Seq<TurnstileViolation>) -> Seq<ViolationSpec> {
    vs.map_values(|v: TurnstileViolation| v@)
}

/// One nullifier-table entry: the nullifier and the label that first spent it.
pub type Sighting = (NullifierBytes, String);

/// The first-sighting map a nullifier table holds.
pub open spec fn table_map(t: Seq<Sighting>) -> Map<NullifierBytes, Seq<char>> {
    Map::new(
        |n: NullifierBytes| exists|i: int| 0 <= i < t.len() && #[trigger] t[i].0 == n,
        |n: NullifierBytes| t[choose|i: int| 0 <= i < t.len() && #[trigger] t[i].0 == n].1@,
    )
}

/// No nullifier occurs twice in a table.
pub open spec fn distinct_keys(t: Seq<Sighting>) -> bool {
    forall|i: int, j: int| 0 <= i < j < t.len() ==> #[trigger] t[i].0 != #[trigger] t[j].0
}

proof fn lemma_table_lookup(t: Seq<Sighting>, i: int)
    requires
        distinct_keys(t),
        0 <= i < t.len(),
    ensures
        table_map(t).contains_key(t[i].0),
        table_map(t)[t[i].0] == t[i].1@,
{
    let n = t[i].0;
    assert(table_map(t).dom().contains(n));
    let j = choose|j: int| 0 <= j < t.len() && #[trigger] t[j].0 == n;
    if j != i {
        if j < i {
            assert(t[j].0 != t[i].0);
        } else {
            assert(t[i].0 != t[j].0);
        }
    }
}

proof fn lemma_table_push(t: Seq<Sighting>, n: NullifierBytes, label: String)
    requires
        distinct_keys(t),
        !table_map(t).contains_key(n),
    ensures
        distinct_keys(t.push((n, label))),
        table_map(t.push((n, label))) =~= table_map(t).insert(n, label@),
{
    let t2 = t.push((n, label));
    assert forall|i: int, j: int| 0 <= i < j < t2.len() implies #[trigger] t2[i].0 != #[trigger] t2[j].0 by {
        if j == t.len() {
            if t[i].0 == n {
                assert(table_map(t).dom().contains(n));
            }
        }
    }
    assert forall|m: NullifierBytes| #[trigger] table_map(t2).contains_key(m) <==> table_map(t).insert(
        n,
        label@,
    ).contains_key(m) by {
        if table_map(t).contains_key(m) {
            let i = choose|i: int| 0 <= i < t.len() && #[trigger] t[i].0 == m;
            assert(t2[i].0 == m);
        }
        if m == n {
            assert(t2[t.len() as int].0 == n);
        }
        if table_map(t2).contains_key(m) && m != n {
            let i = choose|i: int| 0 <= i < t2.len() && #[trigger] t2[i].0 == m;
            assert(i < t.len());
            assert(t[i].0 == m);
        }
    }
    assert forall|m: NullifierBytes| #[trigger] table_map(t2).contains_key(m) implies table_map(t2)[m]
        == table_map(t).insert(n, label@)[m] by {
        if m == n {
            lemma_table_lookup(t2, t.len() as int);
        } else {
            let i = choose|i: int| 0 <= i < t2.len() && #[trigger] t2[i].0 == m;
            assert(i < t.len());
            lemma_table_lookup(t2, i);
            lemma_table_lookup(t, i);
        }
    }
}

/// Whether two nullifiers are the same 32 bytes.
pub fn nullifier_eq(a: &NullifierBytes, b: &NullifierBytes) -> (same: bool)
    ensures
        same == (*a == *b),
{
    let mut i: usize = 0;
    while i < 32
        invariant
            i <= 32,
            forall|j: int| 0 <= j < i ==> a[j] == b[j],
        decreases 32 - i,
    {
        if a[i] != b[i] {
            return false;
        }
        i = i + 1;
    }
    assert(*a =~= *b);
    true
}

/// Whether `n` occurs in `nfs`.
fn contains_nullifier(nfs: &Vec<NullifierBytes>, n: &NullifierBytes) -> (found: bool)
    ensures
        found == nfs@.contains(*n),
{
    let len = nfs.len();
    let mut i: usize = 0;
    while i < len
        invariant
            len == nfs@.len(),
            i <= len,
            forall|j: int| 0 <= j < i ==> nfs@[j] != *n,
        decreases len - i,
    {
        if nullifier_eq(&nfs[i], n) {
            assert(nfs@[i as int] == *n);
            return true;
        }
        i = i + 1;
    }
    false
}

/// The position of `n` in a nullifier table, if it is there.
fn find_sighting(t: &Vec<Sighting>, n: &NullifierBytes) -> (found: Option<usize>)
    requires
        distinct_keys(t@),
    ensures
        found matches Some(i) ==> i < t@.len() && t@[i as int].0 == *n && table_map(t@).contains_key(*n)
            && table_map(t@)[*n] == t@[i as int].1@,
        found is None ==> !table_map(t@).contains_key(*n),
{
    let len = t.len();
    let mut i: usize = 0;
    while i < len
        invariant
            len == t@.len(),
            i <= len,
            distinct_keys(t@),
            forall|j: int| 0 <= j < i ==> t@[j].0 != *n,
        decreases len - i,
    {
        if nullifier_eq(&t[i].0, n) {
            proof {
                lemma_table_lookup(t@, i as int);
            }
            return Some(i);
        }
        i = i + 1;
    }
    assert(!table_map(t@).contains_key(*n)) by {
        if table_map(t@).dom().contains(*n) {
            let j = choose|j: int| 0 <= j < t@.len() && #[trigger] t@[j].0 == *n;
            assert(t@[j].0 != *n);
        }
    }
    None
}

/// Cross-pool reports for a transaction's Orchard nullifiers: one for each
/// that also occurs among its own Ironwood nullifiers, or else among the
/// Ironwood nullifiers seen earlier in the run.
pub open spec fn cross_from_orchard(
    orchard: Seq<NullifierBytes>,
    ironwood_here: Seq<NullifierBytes>,
    ironwood_seen: Map<NullifierBytes, Seq<char>>,
    label: Seq<char>,
) -> Seq<ViolationSpec>
    decreases orchard.len(),
{
    if orchard.len() == 0 {
        seq![]
    } else {
        let n = orchard.last();
        let head = cross_from_orchard(orchard.drop_last(), ironwood_here, ironwood_seen, label);
        if ironwood_here.contains(n) {
            head.push(ViolationSpec::CrossPoolNullifierReuse { nullifier: n, orchard_in: label, ironwood_in: label })
        } else if ironwood_seen.contains_key(n) {
            head.push(
                ViolationSpec::CrossPoolNullifierReuse {
                    nullifier: n,
                    orchard_in: label,
                    ironwood_in: ironwood_seen[n],
                },
            )
        } else {
            head
        }
    }
}

/// Cross-pool reports for a transaction's Ironwood nullifiers: one for each
/// that occurs among the Orchard nullifiers seen earlier in the run.
pub open spec fn cross_from_ironwood(
    ironwood: Seq<NullifierBytes>,
    orchard_seen: Map<NullifierBytes, Seq<char>>,
    label: Seq<char>,
) -> Seq<ViolationSpec>
    decreases ironwood.len(),
{
    if ironwood.len() == 0 {
        seq![]
    } else {
        let n = ironwood.last();
        let head = cross_from_ironwood(ironwood.drop_last(), orchard_seen, label);
        if orchard_seen.contains_key(n) {
            head.push(
                ViolationSpec::CrossPoolNullifierReuse {
                    nullifier: n,
                    orchard_in: orchard_seen[n],
                    ironwood_in: label,
                },
            )
        } else {
            head
        }
    }
}

/// The first-sighting map after the nullifiers `nfs` of one transaction,
/// labelled `label`, have been seen: a nullifier keeps the label of its first
/// sighting.
pub open spec fn record_firsts(
    seen: Map<NullifierBytes, Seq<char>>,
    nfs: Seq<NullifierBytes>,
    label: Seq<char>,
) -> Map<NullifierBytes, Seq<char>>
    decreases nfs.len(),
{
    if nfs.len() == 0 {
        seen
    } else {
        let before = record_firsts(seen, nfs.drop_last(), label);
        if before.contains_key(nfs.last()) {
            before
        } else {
            before.insert(nfs.last(), label)
        }
    }
}

/// Double-spend reports for the nullifiers `nfs` of one transaction: every
/// sighting of a nullifier already seen names the label of its first sighting.
pub open spec fn double_spends(
    pool: Pool,
    seen: Map<NullifierBytes, Seq<char>>,
    nfs: Seq<NullifierBytes>,
    label: Seq<char>,
) -> Seq<ViolationSpec>
    decreases nfs.len(),
{
    if nfs.len() == 0 {
        seq![]
    } else {
        let head = double_spends(pool, seen, nfs.drop_last(), label);
        let before = record_firsts(seen, nfs.drop_last(), label);
        let n = nfs.last();
        if before.contains_key(n) {
            head.push(ViolationSpec::DoubleSpend { pool, nullifier: n, first_seen: before[n], again_in: label })
        } else {
            head
        }
    }
}

/// The conservation report of a transaction, as violations.
pub open spec fn conservation_violations(tx: &TransactionFacts) -> Seq<ViolationSpec> {
    match conservation_spec(tx) {
        Conservation::Violated { implied_fee } => seq![ViolationSpec::ValueCreated { implied_fee }],
        _ => seq![],
    }
}

/// Floor reports for the pool balances after a transaction.
pub open spec fn floor_violations(origin: Origin, orchard: i64, ironwood: i64) -> Seq<ViolationSpec> {
    if origin == Origin::Genesis {
        (if orchard < 0 {
            seq![ViolationSpec::PoolBalanceNegative { pool: Pool::Orchard, balance: orchard }]
        } else {
            seq![]
        }) + (if ironwood < 0 {
            seq![ViolationSpec::PoolBalanceNegative { pool: Pool::Ironwood, balance: ironwood }]
        } else {
            seq![]
        })
    } else {
        seq![]
    }
}

/// The pool-balance reports among a sequence of violations, in order.
pub open spec fn balance_reports(vs: Seq<ViolationSpec>) -> Seq<ViolationSpec> {
    vs.filter(is_balance_report())
}

/// Whether a violation is a pool-balance report.
pub open spec fn is_balance_report() -> spec_fn(ViolationSpec) -> bool {
    |v: ViolationSpec| v is PoolBalanceNegative
}

/// The value-creation reports among a sequence of violations, in order.
pub open spec fn value_reports(vs: Seq<ViolationSpec>) -> Seq<ViolationSpec> {
    vs.filter(is_value_report())
}

/// Whether a violation is a value-creation report.
pub open spec fn is_value_report() -> spec_fn(ViolationSpec) -> bool {
    |v: ViolationSpec| v is ValueCreated
}

/// Whether a report kind is neither cross-pool reuse nor a double spend.
pub open spec fn ignores_nullifier_reports(pred: spec_fn(ViolationSpec) -> bool) -> bool {
    &&& forall|n: NullifierBytes, o: Seq<char>, i: Seq<char>|
        !#[trigger] pred(ViolationSpec::CrossPoolNullifierReuse { nullifier: n, orchard_in: o, ironwood_in: i })
    &&& forall|p: Pool, n: NullifierBytes, f: Seq<char>, a: Seq<char>|
        !#[trigger] pred(ViolationSpec::DoubleSpend { pool: p, nullifier: n, first_seen: f, again_in: a })
}

proof fn lemma_filter_push_rejected(s: Seq<ViolationSpec>, v: ViolationSpec, pred: spec_fn(ViolationSpec) -> bool)
    requires
        !pred(v),
    ensures
        s.push(v).filter(pred) == s.filter(pred),
{
    reveal(Seq::filter);
    assert(s.push(v).drop_last() =~= s);
}

proof fn lemma_none_cross_orchard(
    pred: spec_fn(ViolationSpec) -> bool,
    orchard: Seq<NullifierBytes>,
    ironwood_here: Seq<NullifierBytes>,
    ironwood_seen: Map<NullifierBytes, Seq<char>>,
    label: Seq<char>,
)
    requires
        ignores_nullifier_reports(pred),
    ensures
        cross_from_orchard(orchard, ironwood_here, ironwood_seen, label).filter(pred) =~= seq![],
    decreases orchard.len(),
{
    if orchard.len() > 0 {
        lemma_none_cross_orchard(pred, orchard.drop_last(), ironwood_here, ironwood_seen, label);
        let head = cross_from_orchard(orchard.drop_last(), ironwood_here, ironwood_seen, label);
        let n = orchard.last();
        let a = ViolationSpec::CrossPoolNullifierReuse { nullifier: n, orchard_in: label, ironwood_in: label };
        let b = ViolationSpec::CrossPoolNullifierReuse {
            nullifier: n,
            orchard_in: label,
            ironwood_in: ironwood_seen[n],
        };
        assert(!pred(a));
        assert(!pred(b));
        lemma_filter_push_rejected(head, a, pred);
        lemma_filter_push_rejected(head, b, pred);
    } else {
        reveal(Seq::filter);
    }
}

proof fn lemma_none_cross_ironwood(
    pred: spec_fn(ViolationSpec) -> bool,
    ironwood: Seq<NullifierBytes>,
    orchard_seen: Map<NullifierBytes, Seq<char>>,
    label: Seq<char>,
)
    requires
        ignores_nullifier_reports(pred),
    ensures
        cross_from_ironwood(ironwood, orchard_seen, label).filter(pred) =~= seq![],
    decreases ironwood.len(),
{
    if ironwood.len() > 0 {
        lemma_none_cross_ironwood(pred, ironwood.drop_last(), orchard_seen, label);
        let n = ironwood.last();
        let a = ViolationSpec::CrossPoolNullifierReuse {
            nullifier: n,
            orchard_in: orchard_seen[n],
            ironwood_in: label,
        };
        assert(!pred(a));
        lemma_filter_push_rejected(cross_from_ironwood(ironwood.drop_last(), orchard_seen, label), a, pred);
    } else {
        reveal(Seq::filter);
    }
}

proof fn lemma_none_double_spends(
    pred: spec_fn(ViolationSpec) -> bool,
    pool: Pool,
    seen: Map<NullifierBytes, Seq<char>>,
    nfs: Seq<NullifierBytes>,
    label: Seq<char>,
)
    requires
        ignores_nullifier_reports(pred),
    ensures
        double_spends(pool, seen, nfs, label).filter(pred) =~= seq![],
    decreases nfs.len(),
{
    if nfs.len() > 0 {
        lemma_none_double_spends(pred, pool, seen, nfs.drop_last(), label);
        let before = record_firsts(seen, nfs.drop_last(), label);
        let n = nfs.last();
        let a = ViolationSpec::DoubleSpend { pool, nullifier: n, first_seen: before[n], again_in: label };
        assert(!pred(a));
        lemma_filter_push_rejected(double_spends(pool, seen, nfs.drop_last(), label), a, pred);
    } else {
        reveal(Seq::filter);
    }
}

/// The reports of one admission, kind by kind, filtered: the nullifier
/// reports hold none of a kind that ignores them.
proof fn lemma_admission_filter(
    pred: spec_fn(ViolationSpec) -> bool,
    tx: &TransactionFacts,
    orchard_seen: Map<NullifierBytes, Seq<char>>,
    ironwood_seen: Map<NullifierBytes, Seq<char>>,
    label: Seq<char>,
    origin: Origin,
    orchard_balance: i64,
    ironwood_balance: i64,
)
    requires
        ignores_nullifier_reports(pred),
    ensures
        (conservation_violations(tx) + cross_from_orchard(
            tx.orchard_nullifiers@,
            tx.ironwood_nullifiers@,
            ironwood_seen,
            label,
        ) + cross_from_ironwood(tx.ironwood_nullifiers@, orchard_seen, label) + double_spends(
            Pool::Orchard,
            orchard_seen,
            tx.orchard_nullifiers@,
            label,
        ) + double_spends(Pool::Ironwood, ironwood_seen, tx.ironwood_nullifiers@, label) + floor_violations(
            origin,
            orchard_balance,
            ironwood_balance,
        )).filter(pred) == conservation_violations(tx).filter(pred) + floor_violations(
            origin,
            orchard_balance,
            ironwood_balance,
        ).filter(pred),
{
    let a = conservation_violations(tx);
    let b = cross_from_orchard(tx.orchard_nullifiers@, tx.ironwood_nullifiers@, ironwood_seen, label);
    let c = cross_from_ironwood(tx.ironwood_nullifiers@, orchard_seen, label);
    let d = double_spends(Pool::Orchard, orchard_seen, tx.orchard_nullifiers@, label);
    let e = double_spends(Pool::Ironwood, ironwood_seen, tx.ironwood_nullifiers@, label);
    let f = floor_violations(origin, orchard_balance, ironwood_balance);
    lemma_none_cross_orchard(pred, tx.orchard_nullifiers@, tx.ironwood_nullifiers@, ironwood_seen, label);
    lemma_none_cross_ironwood(pred, tx.ironwood_nullifiers@, orchard_seen, label);
    lemma_none_double_spends(pred, Pool::Orchard, orchard_seen, tx.orchard_nullifiers@, label);
    lemma_none_double_spends(pred, Pool::Ironwood, ironwood_seen, tx.ironwood_nullifiers@, label);
    Seq::filter_distributes_over_add(a, b, pred);
    Seq::filter_distributes_over_add(a + b, c, pred);
    Seq::filter_distributes_over_add(a + b + c, d, pred);
    Seq::filter_distributes_over_add(a + b + c + d, e, pred);
    Seq::filter_distributes_over_add(a + b + c + d + e, f, pred);
    assert((a + b + c + d + e + f).filter(pred) =~= a.filter(pred) + f.filter(pred));
}

/// The pool-balance reports of one admission are exactly its floor reports:
/// under a genesis origin, the Orchard pool and then the Ironwood pool, each
/// where its balance after the transaction is negative, and none otherwise.
/// No conservation, cross-pool or double-spend report is a balance report.
pub proof fn lemma_admission_balance_reports(
    tx: &TransactionFacts,
    orchard_seen: Map<NullifierBytes, Seq<char>>,
    ironwood_seen: Map<NullifierBytes, Seq<char>>,
    label: Seq<char>,
    origin: Origin,
    orchard_balance: i64,
    ironwood_balance: i64,
)
    ensures
        balance_reports(
            conservation_violations(tx) + cross_from_orchard(
                tx.orchard_nullifiers@,
                tx.ironwood_nullifiers@,
                ironwood_seen,
                label,
            ) + cross_from_ironwood(tx.ironwood_nullifiers@, orchard_seen, label) + double_spends(
                Pool::Orchard,
                orchard_seen,
                tx.orchard_nullifiers@,
                label,
            ) + double_spends(Pool::Ironwood, ironwood_seen, tx.ironwood_nullifiers@, label)
                + floor_violations(origin, orchard_balance, ironwood_balance),
        ) == floor_violations(origin, orchard_balance, ironwood_balance),
{
    let pred = is_balance_report();
    lemma_admission_filter(pred, tx, orchard_seen, ironwood_seen, label, origin, orchard_balance, ironwood_balance);
    let a = conservation_violations(tx);
    let f = floor_violations(origin, orchard_balance, ironwood_balance);
    reveal_with_fuel(Seq::filter, 3);
    if a.len() == 1 {
        assert(a.drop_last() =~= seq![]);
    }
    assert(a.filter(pred) =~= seq![]);
    if f.len() == 2 {
        assert(f.drop_last().drop_last() =~= seq![]);
    } else if f.len() == 1 {
        assert(f.drop_last() =~= seq![]);
    }
    assert(f.filter(pred) =~= f);
}

/// The value-creation reports of one admission are exactly its conservation
/// report: one `ValueCreated` carrying the implied fee when conservation is
/// violated, and none otherwise. No other report is a value-creation report.
pub proof fn lemma_admission_value_reports(
    tx: &TransactionFacts,
    orchard_seen: Map<NullifierBytes, Seq<char>>,
    ironwood_seen: Map<NullifierBytes, Seq<char>>,
    label: Seq<char>,
    origin: Origin,
    orchard_balance: i64,
    ironwood_balance: i64,
)
    ensures
        value_reports(
            conservation_violations(tx) + cross_from_orchard(
                tx.orchard_nullifiers@,
                tx.ironwood_nullifiers@,
                ironwood_seen,
                label,
            ) + cross_from_ironwood(tx.ironwood_nullifiers@, orchard_seen, label) + double_spends(
                Pool::Orchard,
                orchard_seen,
                tx.orchard_nullifiers@,
                label,
            ) + double_spends(Pool::Ironwood, ironwood_seen, tx.ironwood_nullifiers@, label)
                + floor_violations(origin, orchard_balance, ironwood_balance),
        ) == conservation_violations(tx),
{
    let pred = is_value_report();
    lemma_admission_filter(pred, tx, orchard_seen, ironwood_seen, label, origin, orchard_balance, ironwood_balance);
    let a = conservation_violations(tx);
    let f = floor_violations(origin, orchard_balance, ironwood_balance);
    reveal_with_fuel(Seq::filter, 3);
    if a.len() == 1 {
        assert(a.drop_last() =~= seq![]);
    }
    assert(a.filter(pred) =~= a);
    if f.len() == 2 {
        assert(f.drop_last().drop_last() =~= seq![]);
    } else if f.len() == 1 {
        assert(f.drop_last() =~= seq![]);
    }
    assert(f.filter(pred) =~= seq![]);
}

/// Accumulated turnstile state over a run of transactions.
pub struct TurnstileState {
    origin: Origin,
    orchard_nullifiers: Vec<Sighting>,
    ironwood_nullifiers: Vec<Sighting>,
    orchard_balance: i64,
    ironwood_balance: i64,
    fees: i64,
    indeterminate: usize,
    seen: usize,
}

impl TurnstileState {
    /// The state's tables hold each nullifier at most once, and the counters
    /// are consistent.
    pub closed spec fn wf(&self) -> bool {
        &&& distinct_keys(self.orchard_nullifiers@)
        &&& distinct_keys(self.ironwood_nullifiers@)
        &&& self.indeterminate <= self.seen
        &&& self.fees >= 0
    }

    /// Where the run starts.
    pub closed spec fn origin_spec(&self) -> Origin {
        self.origin
    }

    /// Each Orchard nullifier seen so far, with the label that first spent it.
    pub closed spec fn orchard_seen(&self) -> Map<NullifierBytes, Seq<char>> {
        table_map(self.orchard_nullifiers@)
    }

    /// Each Ironwood nullifier seen so far, with the label that first spent it.
    pub closed spec fn ironwood_seen(&self) -> Map<NullifierBytes, Seq<char>> {
        table_map(self.ironwood_nullifiers@)
    }

    /// Cumulative Orchard pool balance change.
    pub closed spec fn orchard_balance_spec(&self) -> i64 {
        self.orchard_balance
    }

    /// Cumulative Ironwood pool balance change.
    pub closed spec fn ironwood_balance_spec(&self) -> i64 {
        self.ironwood_balance
    }

    /// Total fee over the transactions whose fee was computable.
    pub closed spec fn fees_spec(&self) -> i64 {
        self.fees
    }

    /// Number of transactions whose conservation was indeterminate.
    pub closed spec fn indeterminate_spec(&self) -> usize {
        self.indeterminate
    }

    /// Number of transactions admitted.
    pub closed spec fn seen_spec(&self) -> usize {
        self.seen
    }

    /// In a well-formed state, no more transactions were indeterminate than
    /// were admitted.
    pub proof fn lemma_indeterminate_within_seen(&self)
        requires
            self.wf(),
        ensures
            self.indeterminate_spec() <= self.seen_spec(),
    {
    }

    /// Whether admitting `tx` keeps every counter and balance within its
    /// machine type.
    pub open spec fn can_admit(&self, tx: &TransactionFacts) -> bool {
        &&& tx.amounts_in_range()
        &&& self.seen_spec() < usize::MAX
        &&& i64::MIN <= self.orchard_balance_spec() - tx.orchard_value_balance <= i64::MAX
        &&& i64::MIN <= self.ironwood_balance_spec() - tx.ironwood_value_balance <= i64::MAX
        &&& conservation_spec(tx) matches Conservation::Holds { fee } ==> self.fees_spec() + fee
            <= i64::MAX
    }

    /// Whether admitting `tx` keeps every counter and balance within its
    /// machine type; the executable form of [`Self::can_admit`].
    pub fn admissible(&self, tx: &TransactionFacts) -> (ok: bool)
        requires
            self.wf(),
        ensures
            ok == self.can_admit(tx),
    {
        if !tx.check_amounts_in_range() {
            return false;
        }
        if self.seen == usize::MAX {
            return false;
        }
        let ob = self.orchard_balance as i128 - tx.orchard_value_balance as i128;
        let ib = self.ironwood_balance as i128 - tx.ironwood_value_balance as i128;
        if ob < i64::MIN as i128 || ob > i64::MAX as i128 || ib < i64::MIN as i128 || ib > i64::MAX as i128 {
            return false;
        }
        match check_conservation(tx) {
            Conservation::Holds { fee } => self.fees as i128 + fee as i128 <= i64::MAX as i128,
            _ => true,
        }
    }

    /// An empty state with the given origin.
    fn with_origin(origin: Origin) -> (state: Self)
        ensures
            state.wf(),
            state.origin_spec() == origin,
            state.orchard_seen() =~= Map::<NullifierBytes, Seq<char>>::empty(),
            state.ironwood_seen() =~= Map::<NullifierBytes, Seq<char>>::empty(),
            state.orchard_balance_spec() == 0,
            state.ironwood_balance_spec() == 0,
            state.fees_spec() == 0,
            state.indeterminate_spec() == 0,
            state.seen_spec() == 0,
    {
        TurnstileState {
            origin,
            orchard_nullifiers: Vec::new(),
            ironwood_nullifiers: Vec::new(),
            orchard_balance: 0,
            ironwood_balance: 0,
            fees: 0,
            indeterminate: 0,
            seen: 0,
        }
    }

    /// A turnstile for a run starting at genesis: both pools empty, and a
    /// negative pool balance is a violation.
    pub fn from_genesis() -> (state: Self)
        ensures
            state.wf(),
            state.origin_spec() == Origin::Genesis,
            state.orchard_seen() =~= Map::<NullifierBytes, Seq<char>>::empty(),
            state.ironwood_seen() =~= Map::<NullifierBytes, Seq<char>>::empty(),
            state.orchard_balance_spec() == 0,
            state.ironwood_balance_spec() == 0,
            state.fees_spec() == 0,
            state.indeterminate_spec() == 0,
            state.seen_spec() == 0,
    {
        Self::with_origin(Origin::Genesis)
    }

    /// A turnstile for a run starting partway along a chain: balances are
    /// accumulated as changes, and a negative one is not a violation.
    pub fn mid_chain() -> (state: Self)
        ensures
            state.wf(),
            state.origin_spec() == Origin::MidChain,
            state.orchard_seen() =~= Map::<NullifierBytes, Seq<char>>::empty(),
            state.ironwood_seen() =~= Map::<NullifierBytes, Seq<char>>::empty(),
            state.orchard_balance_spec() == 0,
            state.ironwood_balance_spec() == 0,
            state.fees_spec() == 0,
            state.indeterminate_spec() == 0,
            state.seen_spec() == 0,
    {
        Self::with_origin(Origin::MidChain)
    }

    /// Cumulative pool balance changes, in zatoshi, as `(orchard, ironwood)`.
    pub fn pool_balances(&self) -> (balances: (i64, i64))
        ensures
            balances == (self.orchard_balance_spec(), self.ironwood_balance_spec()),
    {
        (self.orchard_balance, self.ironwood_balance)
    }

    /// Total fee accounted for across every transaction whose fee was
    /// computable.
    pub fn total_fees(&self) -> (fees: i64)
        ensures
            fees == self.fees_spec(),
    {
        self.fees
    }

    /// How many transactions were evaluated for conservation, and how many
    /// were seen in total.
    pub fn coverage(&self) -> (counts: (usize, usize))
        requires
            self.wf(),
        ensures
            counts.0 == self.seen_spec() - self.indeterminate_spec(),
            counts.1 == self.seen_spec(),
            counts.0 <= counts.1,
    {
        (self.seen - self.indeterminate, self.seen)
    }
}

/// Report cross-pool reuse for a transaction's Orchard nullifiers.
fn report_cross_from_orchard(
    orchard: &Vec<NullifierBytes>,
    ironwood_here: &Vec<NullifierBytes>,
    ironwood_seen: &Vec<Sighting>,
    label: &str,
    out: &mut Vec<TurnstileViolation>,
)
    requires
        distinct_keys(ironwood_seen@),
    ensures
        violation_views(final(out)@) == violation_views(old(out)@) + cross_from_orchard(
            orchard@,
            ironwood_here@,
            table_map(ironwood_seen@),
            label@,
        ),
{
    let n = orchard.len();
    let mut i: usize = 0;
    let ghost start = violation_views(out@);
    while i < n
        invariant
            n == orchard@.len(),
            i <= n,
            distinct_keys(ironwood_seen@),
            violation_views(out@) == start + cross_from_orchard(
                orchard@.take(i as int),
                ironwood_here@,
                table_map(ironwood_seen@),
                label@,
            ),
        decreases n - i,
    {
        assert(orchard@.take(i as int + 1).drop_last() =~= orchard@.take(i as int));
        let ghost prev = out@;
        let nf = &orchard[i];
        if contains_nullifier(ironwood_here, nf) {
            out.push(
                TurnstileViolation::CrossPoolNullifierReuse {
                    nullifier: *nf,
                    orchard_in: label.to_string(),
                    ironwood_in: label.to_string(),
                },
            );
            assert(violation_views(out@) =~= violation_views(prev).push(out@.last()@));
        } else {
            match find_sighting(ironwood_seen, nf) {
                Some(k) => {
                    out.push(
                        TurnstileViolation::CrossPoolNullifierReuse {
                            nullifier: *nf,
                            orchard_in: label.to_string(),
                            ironwood_in: ironwood_seen[k].1.clone(),
                        },
                    );
                    assert(violation_views(out@) =~= violation_views(prev).push(out@.last()@));
                },
                None => {},
            }
        }
        i = i + 1;
    }
    assert(orchard@.take(n as int) =~= orchard@);
}

/// Report cross-pool reuse for a transaction's Ironwood nullifiers.
fn report_cross_from_ironwood(
    ironwood: &Vec<NullifierBytes>,
    orchard_seen: &Vec<Sighting>,
    label: &str,
    out: &mut Vec<TurnstileViolation>,
)
    requires
        distinct_keys(orchard_seen@),
    ensures
        violation_views(final(out)@) == violation_views(old(out)@) + cross_from_ironwood(
            ironwood@,
            table_map(orchard_seen@),
            label@,
        ),
{
    let n = ironwood.len();
    let mut i: usize = 0;
    let ghost start = violation_views(out@);
    while i < n
        invariant
            n == ironwood@.len(),
            i <= n,
            distinct_keys(orchard_seen@),
            violation_views(out@) == start + cross_from_ironwood(
                ironwood@.take(i as int),
                table_map(orchard_seen@),
                label@,
            ),
        decreases n - i,
    {
        assert(ironwood@.take(i as int + 1).drop_last() =~= ironwood@.take(i as int));
        let ghost prev = out@;
        let nf = &ironwood[i];
        match find_sighting(orchard_seen, nf) {
            Some(k) => {
                out.push(
                    TurnstileViolation::CrossPoolNullifierReuse {
                        nullifier: *nf,
                        orchard_in: orchard_seen[k].1.clone(),
                        ironwood_in: label.to_string(),
                    },
                );
                assert(violation_views(out@) =~= violation_views(prev).push(out@.last()@));
            },
            None => {},
        }
        i = i + 1;
    }
    assert(ironwood@.take(n as int) =~= ironwood@);
}

/// Record one transaction's nullifiers of one pool, reporting every sighting
/// of a nullifier already seen.
fn record_sightings(
    pool: Pool,
    table: &mut Vec<Sighting>,
    nfs: &Vec<NullifierBytes>,
    label: &str,
    out: &mut Vec<TurnstileViolation>,
)
    requires
        distinct_keys(old(table)@),
    ensures
        distinct_keys(final(table)@),
        table_map(final(table)@) == record_firsts(table_map(old(table)@), nfs@, label@),
        violation_views(final(out)@) == violation_views(old(out)@) + double_spends(
            pool,
            table_map(old(table)@),
            nfs@,
            label@,
        ),
{
    let ghost seen0 = table_map(table@);
    let ghost start = violation_views(out@);
    let n = nfs.len();
    let mut i: usize = 0;
    while i < n
        invariant
            n == nfs@.len(),
            i <= n,
            distinct_keys(table@),
            table_map(table@) == record_firsts(seen0, nfs@.take(i as int), label@),
            violation_views(out@) == start + double_spends(pool, seen0, nfs@.take(i as int), label@),
        decreases n - i,
    {
        assert(nfs@.take(i as int + 1).drop_last() =~= nfs@.take(i as int));
        assert(nfs@.take(i as int + 1).last() == nfs@[i as int]);
        let nf = &nfs[i];
        let ghost prev = out@;
        match find_sighting(table, nf) {
            Some(k) => {
                out.push(
                    TurnstileViolation::DoubleSpend {
                        pool,
                        nullifier: *nf,
                        first_seen: table[k].1.clone(),
                        again_in: label.to_string(),
                    },
                );
                assert(violation_views(out@) =~= violation_views(prev).push(out@.last()@));
            },
            None => {
                let entry = (*nf, label.to_string());
                proof {
                    lemma_table_push(table@, *nf, entry.1);
                }
                table.push(entry);
            },
        }
        i = i + 1;
    }
    assert(nfs@.take(n as int) =~= nfs@);
}

impl TurnstileState {
    /// Feed one transaction through the turnstile, returning every property it
    /// violates, in this order: a conservation violation; cross-pool reuse of
    /// its Orchard nullifiers, then of its Ironwood nullifiers; double spends
    /// in the Orchard pool, then in the Ironwood pool; and, under a genesis
    /// origin, each pool whose balance is now negative. An empty vector is a
    /// pass.
    ///
    /// `label` identifies the transaction in every report that names it.
    #[verifier::rlimit(50)]
    #[verifier::spinoff_prover]
    pub fn admit_transaction(&mut self, tx: &TransactionFacts, label: &str) -> (violations: Vec<TurnstileViolation>)
        requires
            old(self).wf(),
            old(self).can_admit(tx),
        ensures
            final(self).wf(),
            final(self).origin_spec() == old(self).origin_spec(),
            final(self).seen_spec() == old(self).seen_spec() + 1,
            final(self).indeterminate_spec() == old(self).indeterminate_spec() + (
            if conservation_spec(tx) is Indeterminate {
                1int
            } else {
                0int
            }),
            final(self).fees_spec() == old(self).fees_spec() + (match conservation_spec(tx) {
                Conservation::Holds { fee } => fee as int,
                _ => 0int,
            }),
            final(self).orchard_balance_spec() == old(self).orchard_balance_spec() - tx.orchard_value_balance,
            final(self).ironwood_balance_spec() == old(self).ironwood_balance_spec() - tx.ironwood_value_balance,
            final(self).orchard_seen() == record_firsts(old(self).orchard_seen(), tx.orchard_nullifiers@, label@),
            final(self).ironwood_seen() == record_firsts(
                old(self).ironwood_seen(),
                tx.ironwood_nullifiers@,
                label@,
            ),
            violation_views(violations@) == conservation_violations(tx) + cross_from_orchard(
                tx.orchard_nullifiers@,
                tx.ironwood_nullifiers@,
                old(self).ironwood_seen(),
                label@,
            ) + cross_from_ironwood(tx.ironwood_nullifiers@, old(self).orchard_seen(), label@)
                + double_spends(Pool::Orchard, old(self).orchard_seen(), tx.orchard_nullifiers@, label@)
                + double_spends(Pool::Ironwood, old(self).ironwood_seen(), tx.ironwood_nullifiers@, label@)
                + floor_violations(
                final(self).origin_spec(),
                final(self).orchard_balance_spec(),
                final(self).ironwood_balance_spec(),
            ),
            balance_reports(violation_views(violations@)) == floor_violations(
                final(self).origin_spec(),
                final(self).orchard_balance_spec(),
                final(self).ironwood_balance_spec(),
            ),
    {
        let mut violations: Vec<TurnstileViolation> = Vec::new();
        proof {
            lemma_sum_nonneg(tx.transparent_outputs@);
        }
        self.seen = self.seen + 1;

        match check_conservation(tx) {
            Conservation::Holds { fee } => {
                self.fees = self.fees + fee;
            },
            Conservation::Violated { implied_fee } => {
                violations.push(TurnstileViolation::ValueCreated { implied_fee });
            },
            Conservation::Indeterminate(_) => {
                self.indeterminate = self.indeterminate + 1;
            },
        }
        let ghost v0 = violation_views(violations@);
        assert(v0 =~= conservation_violations(tx));

        report_cross_from_orchard(
            &tx.orchard_nullifiers,
            &tx.ironwood_nullifiers,
            &self.ironwood_nullifiers,
            label,
            &mut violations,
        );
        report_cross_from_ironwood(&tx.ironwood_nullifiers, &self.orchard_nullifiers, label, &mut violations);
        record_sightings(Pool::Orchard, &mut self.orchard_nullifiers, &tx.orchard_nullifiers, label, &mut violations);
        record_sightings(
            Pool::Ironwood,
            &mut self.ironwood_nullifiers,
            &tx.ironwood_nullifiers,
            label,
            &mut violations,
        );

        self.orchard_balance = self.orchard_balance - tx.orchard_value_balance;
        self.ironwood_balance = self.ironwood_balance - tx.ironwood_value_balance;
        let ghost before_floor = violation_views(violations@);
        if self.origin == Origin::Genesis {
            if self.orchard_balance < 0 {
                violations.push(
                    TurnstileViolation::PoolBalanceNegative { pool: Pool::Orchard, balance: self.orchard_balance },
                );
            }
            if self.ironwood_balance < 0 {
                violations.push(
                    TurnstileViolation::PoolBalanceNegative {
                        pool: Pool::Ironwood,
                        balance: self.ironwood_balance,
                    },
                );
            }
        }
        assert(violation_views(violations@) =~= before_floor + floor_violations(
            self.origin,
            self.orchard_balance,
            self.ironwood_balance,
        ));
        proof {
            lemma_admission_balance_reports(
                tx,
                old(self).orchard_seen(),
                old(self).ironwood_seen(),
                label@,
                self.origin,
                self.orchard_balance,
                self.ironwood_balance,
            );
        }
        violations
    }
}

/// An element stays in a sequence when another is pushed, and the pushed
/// one is in it.
proof fn lemma_push_contains<A>(s: Seq<A>, x: A, r: A)
    ensures
        s.push(x).contains(x),
        s.contains(r) ==> s.push(x).contains(r),
{
    assert(s.push(x)[s.len() as int] == x);
    if s.contains(r) {
        let i = choose|i: int| 0 <= i < s.len() && s[i] == r;
        assert(s.push(x)[i] == r);
    }
}

/// Whether `n` occurs in `nfs`, split at the last element.
proof fn lemma_contains_split<A>(s: Seq<A>, n: A)
    requires
        s.len() > 0,
    ensures
        s.contains(n) <==> (s.drop_last().contains(n) || s.last() == n),
{
    if s.contains(n) {
        let i = choose|i: int| 0 <= i < s.len() && s[i] == n;
        if i < s.len() - 1 {
            assert(s.drop_last()[i] == n);
        }
    }
    if s.drop_last().contains(n) {
        let i = choose|i: int| 0 <= i < s.drop_last().len() && s.drop_last()[i] == n;
        assert(s[i] == n);
    }
    if s.last() == n {
        assert(s[s.len() - 1] == n);
    }
}

/// Once a nullifier has been seen, no later sighting changes the label of
/// its first sighting.
pub proof fn lemma_first_sighting_is_kept(
    seen: Map<NullifierBytes, Seq<char>>,
    nfs: Seq<NullifierBytes>,
    label: Seq<char>,
    n: NullifierBytes,
)
    requires
        seen.contains_key(n),
    ensures
        record_firsts(seen, nfs, label).contains_key(n),
        record_firsts(seen, nfs, label)[n] == seen[n],
    decreases nfs.len(),
{
    if nfs.len() > 0 {
        lemma_first_sighting_is_kept(seen, nfs.drop_last(), label, n);
    }
}

/// After a transaction's nullifiers are recorded, a nullifier is known if and
/// only if it was known before or the transaction spends it; one it spends
/// for the first time is labelled with the transaction.
pub proof fn lemma_record_firsts_domain(
    seen: Map<NullifierBytes, Seq<char>>,
    nfs: Seq<NullifierBytes>,
    label: Seq<char>,
    n: NullifierBytes,
)
    ensures
        record_firsts(seen, nfs, label).contains_key(n) <==> (seen.contains_key(n) || nfs.contains(n)),
        !seen.contains_key(n) && nfs.contains(n) ==> record_firsts(seen, nfs, label)[n] == label,
    decreases nfs.len(),
{
    if nfs.len() > 0 {
        lemma_record_firsts_domain(seen, nfs.drop_last(), label, n);
        lemma_contains_split(nfs, n);
    }
}

/// The report a sighting of `n` produces when it is a repeat: it names the
/// label of the first sighting, which is `label` when the first sighting is
/// earlier in the same transaction.
pub open spec fn repeat_report(
    pool: Pool,
    seen: Map<NullifierBytes, Seq<char>>,
    n: NullifierBytes,
    label: Seq<char>,
) -> ViolationSpec {
    ViolationSpec::DoubleSpend {
        pool,
        nullifier: n,
        first_seen: if seen.contains_key(n) {
            seen[n]
        } else {
            label
        },
        again_in: label,
    }
}

/// Whether the sighting at position `k` of `nfs` is a repeat: its nullifier
/// was seen before the transaction, or earlier in it.
pub open spec fn is_repeat(seen: Map<NullifierBytes, Seq<char>>, nfs: Seq<NullifierBytes>, k: int) -> bool {
    seen.contains_key(nfs[k]) || nfs.take(k).contains(nfs[k])
}

/// Double-spend reports are exactly the repeat sightings: a transaction's
/// double-spend reports in one pool are, as a set, one per sighting of a
/// nullifier seen before (in an earlier transaction or earlier in this one),
/// each naming the label of its first sighting and this transaction's label.
pub proof fn lemma_double_spends_are_the_repeats(
    pool: Pool,
    seen: Map<NullifierBytes, Seq<char>>,
    nfs: Seq<NullifierBytes>,
    label: Seq<char>,
    r: ViolationSpec,
)
    ensures
        double_spends(pool, seen, nfs, label).contains(r) <==> exists|k: int|
            0 <= k < nfs.len() && #[trigger] is_repeat(seen, nfs, k) && r == repeat_report(
                pool,
                seen,
                nfs[k],
                label,
            ),
    decreases nfs.len(),
{
    if nfs.len() == 0 {
        return;
    }
    let m = nfs.len() - 1;
    let init = nfs.drop_last();
    let n = nfs.last();
    let head = double_spends(pool, seen, init, label);
    let before = record_firsts(seen, init, label);
    lemma_double_spends_are_the_repeats(pool, seen, init, label, r);
    lemma_record_firsts_domain(seen, init, label, n);
    if seen.contains_key(n) {
        lemma_first_sighting_is_kept(seen, init, label, n);
    }
    assert(nfs.take(m) =~= init);
    assert forall|k: int| 0 <= k < m implies (#[trigger] is_repeat(seen, nfs, k) <==> is_repeat(seen, init, k))
        && nfs[k] == init[k] by {
        assert(nfs.take(k) =~= init.take(k));
    }
    let rep = repeat_report(pool, seen, n, label);
    lemma_push_contains(head, rep, r);
    if double_spends(pool, seen, nfs, label).contains(r) {
        if head.contains(r) {
            let k = choose|k: int| 0 <= k < init.len() && #[trigger] is_repeat(seen, init, k) && r == repeat_report(
                pool,
                seen,
                init[k],
                label,
            );
            assert(is_repeat(seen, nfs, k));
        } else {
            assert(before.contains_key(n));
            assert(r == rep);
            assert(is_repeat(seen, nfs, m));
        }
    }
    if exists|k: int| 0 <= k < nfs.len() && #[trigger] is_repeat(seen, nfs, k) && r == repeat_report(
        pool,
        seen,
        nfs[k],
        label,
    ) {
        let k = choose|k: int| 0 <= k < nfs.len() && #[trigger] is_repeat(seen, nfs, k) && r == repeat_report(
            pool,
            seen,
            nfs[k],
            label,
        );
        if k < m {
            assert(is_repeat(seen, init, k));
            assert(head.contains(r));
        } else {
            assert(is_repeat(seen, nfs, m));
            assert(before.contains_key(n));
        }
    }
}

/// The first-sighting map after a run of transactions, each given as its
/// nullifiers in one pool and its label, have been recorded in order.
pub open spec fn firsts_after_run(
    seen: Map<NullifierBytes, Seq<char>>,
    run: Seq<(Seq<NullifierBytes>, Seq<char>)>,
) -> Map<NullifierBytes, Seq<char>>
    decreases run.len(),
{
    if run.len() == 0 {
        seen
    } else {
        record_firsts(firsts_after_run(seen, run.drop_last()), run.last().0, run.last().1)
    }
}

/// A nullifier that no transaction of the run spends stays unknown.
proof fn lemma_unspent_stays_unknown(
    seen: Map<NullifierBytes, Seq<char>>,
    run: Seq<(Seq<NullifierBytes>, Seq<char>)>,
    n: NullifierBytes,
)
    requires
        !seen.contains_key(n),
        forall|j: int| 0 <= j < run.len() ==> !(#[trigger] run[j].0.contains(n)),
    ensures
        !firsts_after_run(seen, run).contains_key(n),
    decreases run.len(),
{
    if run.len() > 0 {
        let init = run.drop_last();
        assert forall|j: int| 0 <= j < init.len() implies !(#[trigger] init[j].0.contains(n)) by {
            assert(init[j] == run[j]);
        }
        lemma_unspent_stays_unknown(seen, init, n);
        assert(!run[run.len() - 1].0.contains(n));
        lemma_record_firsts_domain(firsts_after_run(seen, init), run.last().0, run.last().1, n);
    }
}

/// Over a whole run, a nullifier unknown at the start is labelled with the
/// earliest transaction that spends it, whatever the transactions after it
/// do: the label every later double-spend report names as its first sighting.
pub proof fn lemma_first_sighting_is_earliest(
    seen: Map<NullifierBytes, Seq<char>>,
    run: Seq<(Seq<NullifierBytes>, Seq<char>)>,
    n: NullifierBytes,
    k: int,
)
    requires
        !seen.contains_key(n),
        0 <= k < run.len(),
        run[k].0.contains(n),
        forall|j: int| 0 <= j < k ==> !(#[trigger] run[j].0.contains(n)),
    ensures
        firsts_after_run(seen, run).contains_key(n),
        firsts_after_run(seen, run)[n] == run[k].1,
    decreases run.len(),
{
    let m = run.len() - 1;
    let init = run.drop_last();
    let prev = firsts_after_run(seen, init);
    if k < m {
        assert(init[k] == run[k]);
        assert forall|j: int| 0 <= j < k implies !(#[trigger] init[j].0.contains(n)) by {
            assert(init[j] == run[j]);
        }
        lemma_first_sighting_is_earliest(seen, init, n, k);
        lemma_first_sighting_is_kept(prev, run.last().0, run.last().1, n);
    } else {
        assert forall|j: int| 0 <= j < init.len() implies !(#[trigger] init[j].0.contains(n)) by {
            assert(init[j] == run[j]);
        }
        lemma_unspent_stays_unknown(seen, init, n);
        lemma_record_firsts_domain(prev, run.last().0, run.last().1, n);
    }
}

/// How many times `n` occurs in `s`.
pub open spec fn occurrences(s: Seq<NullifierBytes>, n: NullifierBytes) -> nat
    decreases s.len(),
{
    if s.len() == 0 {
        0
    } else {
        occurrences(s.drop_last(), n) + if s.last() == n {
            1nat
        } else {
            0nat
        }
    }
}

/// Occurrences add up over a concatenation.
proof fn lemma_occurrences_concat(a: Seq<NullifierBytes>, b: Seq<NullifierBytes>, n: NullifierBytes)
    ensures
        occurrences(a + b, n) == occurrences(a, n) + occurrences(b, n),
    decreases b.len(),
{
    if b.len() > 0 {
        assert((a + b).drop_last() =~= a + b.drop_last());
        assert((a + b).last() == b.last());
        lemma_occurrences_concat(a, b.drop_last(), n);
    } else {
        assert(a + b =~= a);
    }
}

/// A nullifier occurs in `s` exactly when it occurs at least once.
proof fn lemma_occurrences_contains(s: Seq<NullifierBytes>, n: NullifierBytes)
    ensures
        s.contains(n) <==> occurrences(s, n) >= 1,
    decreases s.len(),
{
    if s.len() > 0 {
        lemma_occurrences_contains(s.drop_last(), n);
        lemma_contains_split(s, n);
    }
}

/// Some sighting of `n` in `s` follows an earlier one exactly when `n` occurs
/// at least twice.
proof fn lemma_repeat_iff_twice(s: Seq<NullifierBytes>, n: NullifierBytes)
    ensures
        (exists|k: int| 0 <= k < s.len() && s[k] == n && #[trigger] s.take(k).contains(n)) <==> occurrences(s, n) >= 2,
    decreases s.len(),
{
    if s.len() == 0 {
        return;
    }
    let m = s.len() - 1;
    let init = s.drop_last();
    lemma_repeat_iff_twice(init, n);
    lemma_occurrences_contains(init, n);
    assert(s.take(m) =~= init);
    assert forall|k: int| 0 <= k < m implies s.take(k) =~= init.take(k) && s[k] == init[k] by {}
    if exists|k: int| 0 <= k < s.len() && s[k] == n && #[trigger] s.take(k).contains(n) {
        let k = choose|k: int| 0 <= k < s.len() && s[k] == n && #[trigger] s.take(k).contains(n);
        if k < m {
            assert(init.take(k) =~= s.take(k));
            assert(init[k] == n && init.take(k).contains(n));
        }
    }
    if occurrences(s, n) >= 2 {
        if s.last() == n {
            assert(s[m] == n && s.take(m).contains(n));
        } else {
            let k = choose|k: int| 0 <= k < init.len() && init[k] == n && #[trigger] init.take(k).contains(n);
            assert(s.take(k) =~= init.take(k));
            assert(s[k] == n && s.take(k).contains(n));
        }
    }
}

/// Every nullifier a run spends in one pool, transaction after transaction.
pub open spec fn run_nullifiers(run: Seq<(Seq<NullifierBytes>, Seq<char>)>) -> Seq<NullifierBytes>
    decreases run.len(),
{
    if run.len() == 0 {
        seq![]
    } else {
        run_nullifiers(run.drop_last()) + run.last().0
    }
}

/// The double-spend reports of a whole run in one pool, transaction after
/// transaction, each against the first sightings recorded before it.
pub open spec fn run_double_spends(
    pool: Pool,
    seen: Map<NullifierBytes, Seq<char>>,
    run: Seq<(Seq<NullifierBytes>, Seq<char>)>,
) -> Seq<ViolationSpec>
    decreases run.len(),
{
    if run.len() == 0 {
        seq![]
    } else {
        run_double_spends(pool, seen, run.drop_last()) + double_spends(
            pool,
            firsts_after_run(seen, run.drop_last()),
            run.last().0,
            run.last().1,
        )
    }
}

/// The label of the earliest transaction of a run that spends `n`.
pub open spec fn earliest_label(run: Seq<(Seq<NullifierBytes>, Seq<char>)>, n: NullifierBytes) -> Seq<char>
    decreases run.len(),
{
    if run.len() == 0 {
        seq![]
    } else if occurrences(run_nullifiers(run.drop_last()), n) >= 1 {
        earliest_label(run.drop_last(), n)
    } else {
        run.last().1
    }
}

/// The label a repeat sighting of `n` in a transaction labelled `label`,
/// after the transactions `prior`, names as the first sighting: the label
/// `n` was known under at the start, else that of the earliest transaction of
/// `prior` spending it, else `label` itself.
pub open spec fn reference_first_label(
    seen: Map<NullifierBytes, Seq<char>>,
    prior: Seq<(Seq<NullifierBytes>, Seq<char>)>,
    n: NullifierBytes,
    label: Seq<char>,
) -> Seq<char> {
    if seen.contains_key(n) {
        seen[n]
    } else if occurrences(run_nullifiers(prior), n) >= 1 {
        earliest_label(prior, n)
    } else {
        label
    }
}

/// The double-spend reports of one transaction after the transactions
/// `prior`, stated over the run itself: one per sighting, in order, of a
/// nullifier known at the start, spent by an earlier transaction, or spent
/// earlier in this one, naming its first sighting and this transaction.
pub open spec fn reference_double_spends(
    pool: Pool,
    seen: Map<NullifierBytes, Seq<char>>,
    prior: Seq<(Seq<NullifierBytes>, Seq<char>)>,
    nfs: Seq<NullifierBytes>,
    label: Seq<char>,
) -> Seq<ViolationSpec>
    decreases nfs.len(),
{
    if nfs.len() == 0 {
        seq![]
    } else {
        let head = reference_double_spends(pool, seen, prior, nfs.drop_last(), label);
        let n = nfs.last();
        if seen.contains_key(n) || occurrences(run_nullifiers(prior), n) >= 1 || nfs.drop_last().contains(n) {
            head.push(
                ViolationSpec::DoubleSpend {
                    pool,
                    nullifier: n,
                    first_seen: reference_first_label(seen, prior, n, label),
                    again_in: label,
                },
            )
        } else {
            head
        }
    }
}

/// The reference model's double-spend reports of a whole run, transaction
/// after transaction.
pub open spec fn reference_run_double_spends(
    pool: Pool,
    seen: Map<NullifierBytes, Seq<char>>,
    run: Seq<(Seq<NullifierBytes>, Seq<char>)>,
) -> Seq<ViolationSpec>
    decreases run.len(),
{
    if run.len() == 0 {
        seq![]
    } else {
        reference_run_double_spends(pool, seen, run.drop_last()) + reference_double_spends(
            pool,
            seen,
            run.drop_last(),
            run.last().0,
            run.last().1,
        )
    }
}

/// After a run, a nullifier known at the start keeps its label, and one the
/// run spends is labelled with the earliest transaction spending it.
proof fn lemma_firsts_after_run_value(
    seen: Map<NullifierBytes, Seq<char>>,
    run: Seq<(Seq<NullifierBytes>, Seq<char>)>,
    n: NullifierBytes,
)
    requires
        seen.contains_key(n) || occurrences(run_nullifiers(run), n) >= 1,
    ensures
        firsts_after_run(seen, run).contains_key(n),
        firsts_after_run(seen, run)[n] == if seen.contains_key(n) {
            seen[n]
        } else {
            earliest_label(run, n)
        },
    decreases run.len(),
{
    if run.len() > 0 {
        let init = run.drop_last();
        let prev = firsts_after_run(seen, init);
        lemma_occurrences_concat(run_nullifiers(init), run.last().0, n);
        lemma_firsts_after_run_domain(seen, init, n);
        if seen.contains_key(n) || occurrences(run_nullifiers(init), n) >= 1 {
            lemma_firsts_after_run_value(seen, init, n);
            lemma_first_sighting_is_kept(prev, run.last().0, run.last().1, n);
        } else {
            lemma_occurrences_contains(run.last().0, n);
            lemma_record_firsts_domain(prev, run.last().0, run.last().1, n);
        }
    }
}

/// One transaction's double-spend reports, computed against the first
/// sightings recorded before it, are the reference model's.
proof fn lemma_transaction_matches_reference(
    pool: Pool,
    seen: Map<NullifierBytes, Seq<char>>,
    prior: Seq<(Seq<NullifierBytes>, Seq<char>)>,
    nfs: Seq<NullifierBytes>,
    label: Seq<char>,
)
    ensures
        double_spends(pool, firsts_after_run(seen, prior), nfs, label) == reference_double_spends(
            pool,
            seen,
            prior,
            nfs,
            label,
        ),
    decreases nfs.len(),
{
    if nfs.len() > 0 {
        lemma_transaction_matches_reference(pool, seen, prior, nfs.drop_last(), label);
        let prev = firsts_after_run(seen, prior);
        let n = nfs.last();
        lemma_record_firsts_domain(prev, nfs.drop_last(), label, n);
        lemma_firsts_after_run_domain(seen, prior, n);
        if seen.contains_key(n) || occurrences(run_nullifiers(prior), n) >= 1 {
            lemma_firsts_after_run_value(seen, prior, n);
            lemma_first_sighting_is_kept(prev, nfs.drop_last(), label, n);
        }
    }
}

/// The double-spend reports of a whole run are the reference model's: one
/// per sighting, in order, of a nullifier already known at the start, spent
/// by an earlier transaction, or spent earlier in the same one, each naming
/// the label it was known under or the earliest transaction that spent it,
/// and the transaction that spends it again.
pub proof fn lemma_run_double_spends_match_reference(
    pool: Pool,
    seen: Map<NullifierBytes, Seq<char>>,
    run: Seq<(Seq<NullifierBytes>, Seq<char>)>,
)
    ensures
        run_double_spends(pool, seen, run) == reference_run_double_spends(pool, seen, run),
    decreases run.len(),
{
    if run.len() > 0 {
        lemma_run_double_spends_match_reference(pool, seen, run.drop_last());
        lemma_transaction_matches_reference(pool, seen, run.drop_last(), run.last().0, run.last().1);
    }
}

/// Whether some report in `reports` names `n` as double-spent.
pub open spec fn flags_nullifier(reports: Seq<ViolationSpec>, n: NullifierBytes) -> bool {
    exists|i: int| 0 <= i < reports.len() && (#[trigger] reports[i] matches ViolationSpec::DoubleSpend {
        nullifier,
        ..
    } && nullifier == n)
}

/// A nullifier is known after a run exactly when it was known before or the
/// run spends it.
proof fn lemma_firsts_after_run_domain(
    seen: Map<NullifierBytes, Seq<char>>,
    run: Seq<(Seq<NullifierBytes>, Seq<char>)>,
    n: NullifierBytes,
)
    ensures
        firsts_after_run(seen, run).contains_key(n) <==> (seen.contains_key(n) || occurrences(
            run_nullifiers(run),
            n,
        ) >= 1),
    decreases run.len(),
{
    if run.len() > 0 {
        let init = run.drop_last();
        lemma_firsts_after_run_domain(seen, init, n);
        lemma_record_firsts_domain(firsts_after_run(seen, init), run.last().0, run.last().1, n);
        lemma_occurrences_contains(run.last().0, n);
        lemma_occurrences_concat(run_nullifiers(init), run.last().0, n);
    }
}

/// One transaction's double-spend reports name `n` exactly when it spends
/// `n` and `n` was known before or is spent twice within it.
proof fn lemma_transaction_flags(
    pool: Pool,
    seen: Map<NullifierBytes, Seq<char>>,
    nfs: Seq<NullifierBytes>,
    label: Seq<char>,
    n: NullifierBytes,
)
    ensures
        flags_nullifier(double_spends(pool, seen, nfs, label), n) <==> (nfs.contains(n) && (seen.contains_key(n)
            || occurrences(nfs, n) >= 2)),
{
    let ds = double_spends(pool, seen, nfs, label);
    lemma_repeat_iff_twice(nfs, n);
    if flags_nullifier(ds, n) {
        let i = choose|i: int| 0 <= i < ds.len() && (#[trigger] ds[i] matches ViolationSpec::DoubleSpend {
            nullifier,
            ..
        } && nullifier == n);
        let r = ds[i];
        lemma_double_spends_are_the_repeats(pool, seen, nfs, label, r);
        assert(ds.contains(r));
        let k = choose|k: int| 0 <= k < nfs.len() && #[trigger] is_repeat(seen, nfs, k) && r == repeat_report(
            pool,
            seen,
            nfs[k],
            label,
        );
        assert(nfs[k] == n);
        assert(nfs.contains(n));
    }
    if nfs.contains(n) && (seen.contains_key(n) || occurrences(nfs, n) >= 2) {
        let k = if seen.contains_key(n) {
            choose|k: int| 0 <= k < nfs.len() && nfs[k] == n
        } else {
            choose|k: int| 0 <= k < nfs.len() && nfs[k] == n && #[trigger] nfs.take(k).contains(n)
        };
        assert(is_repeat(seen, nfs, k));
        let r = repeat_report(pool, seen, n, label);
        lemma_double_spends_are_the_repeats(pool, seen, nfs, label, r);
        assert(ds.contains(r));
        let i = choose|i: int| 0 <= i < ds.len() && ds[i] == r;
        assert(ds[i] matches ViolationSpec::DoubleSpend { nullifier, .. } && nullifier == n);
    }
}

/// Over a whole run, a nullifier is reported as double-spent exactly when it
/// is spent at least twice in the run, or at least once when it was already
/// known at the start.
pub proof fn lemma_run_flags_repeated_nullifiers(
    pool: Pool,
    seen: Map<NullifierBytes, Seq<char>>,
    run: Seq<(Seq<NullifierBytes>, Seq<char>)>,
    n: NullifierBytes,
)
    ensures
        flags_nullifier(run_double_spends(pool, seen, run), n) <==> ((seen.contains_key(n) && occurrences(
            run_nullifiers(run),
            n,
        ) >= 1) || occurrences(run_nullifiers(run), n) >= 2),
    decreases run.len(),
{
    if run.len() == 0 {
        return;
    }
    let init = run.drop_last();
    let nfs = run.last().0;
    let label = run.last().1;
    let prev = firsts_after_run(seen, init);
    let a = run_double_spends(pool, seen, init);
    let b = double_spends(pool, prev, nfs, label);
    lemma_run_flags_repeated_nullifiers(pool, seen, init, n);
    lemma_transaction_flags(pool, prev, nfs, label, n);
    lemma_firsts_after_run_domain(seen, init, n);
    lemma_occurrences_contains(nfs, n);
    lemma_occurrences_concat(run_nullifiers(init), nfs, n);
    let all = a + b;
    if flags_nullifier(all, n) {
        let i = choose|i: int| 0 <= i < all.len() && (#[trigger] all[i] matches ViolationSpec::DoubleSpend {
            nullifier,
            ..
        } && nullifier == n);
        if i < a.len() {
            assert(all[i] == a[i]);
            assert(flags_nullifier(a, n));
        } else {
            assert(all[i] == b[i - a.len()]);
            assert(flags_nullifier(b, n));
        }
    }
    if flags_nullifier(a, n) {
        let i = choose|i: int| 0 <= i < a.len() && (#[trigger] a[i] matches ViolationSpec::DoubleSpend {
            nullifier,
            ..
        } && nullifier == n);
        assert(all[i] == a[i]);
        assert(flags_nullifier(all, n));
    }
    if flags_nullifier(b, n) {
        let i = choose|i: int| 0 <= i < b.len() && (#[trigger] b[i] matches ViolationSpec::DoubleSpend {
            nullifier,
            ..
        } && nullifier == n);
        assert(all[a.len() + i] == b[i]);
        assert(flags_nullifier(all, n));
    }
}

/// Which nullifiers a run reports as double-spent does not depend on the
/// order its transactions arrive in: two runs that spend the same nullifiers
/// the same number of times each, from the same known nullifiers, flag the
/// same ones.
pub proof fn lemma_flagged_nullifiers_are_order_independent(
    pool: Pool,
    seen: Map<NullifierBytes, Seq<char>>,
    run1: Seq<(Seq<NullifierBytes>, Seq<char>)>,
    run2: Seq<(Seq<NullifierBytes>, Seq<char>)>,
)
    requires
        forall|n: NullifierBytes| #[trigger] occurrences(run_nullifiers(run1), n) == occurrences(
            run_nullifiers(run2),
            n,
        ),
    ensures
        forall|n: NullifierBytes| #[trigger] flags_nullifier(run_double_spends(pool, seen, run1), n)
            <==> flags_nullifier(run_double_spends(pool, seen, run2), n),
{
    assert forall|n: NullifierBytes| #[trigger] flags_nullifier(run_double_spends(pool, seen, run1), n)
        <==> flags_nullifier(run_double_spends(pool, seen, run2), n) by {
        lemma_run_flags_repeated_nullifiers(pool, seen, run1, n);
        lemma_run_flags_repeated_nullifiers(pool, seen, run2, n);
        assert(occurrences(run_nullifiers(run1), n) == occurrences(run_nullifiers(run2), n));
    }
}

/// A nullifier a transaction spends in both pools is reported as cross-pool
/// reuse naming that transaction for both pools.
pub proof fn lemma_same_transaction_cross_pool_reuse_is_reported(
    orchard: Seq<NullifierBytes>,
    ironwood: Seq<NullifierBytes>,
    ironwood_seen: Map<NullifierBytes, Seq<char>>,
    label: Seq<char>,
    n: NullifierBytes,
)
    requires
        orchard.contains(n),
        ironwood.contains(n),
    ensures
        cross_from_orchard(orchard, ironwood, ironwood_seen, label).contains(
            ViolationSpec::CrossPoolNullifierReuse { nullifier: n, orchard_in: label, ironwood_in: label },
        ),
    decreases orchard.len(),
{
    let rep = ViolationSpec::CrossPoolNullifierReuse { nullifier: n, orchard_in: label, ironwood_in: label };
    let head = cross_from_orchard(orchard.drop_last(), ironwood, ironwood_seen, label);
    lemma_contains_split(orchard, n);
    if orchard.last() == n {
        lemma_push_contains(head, rep, rep);
    } else {
        lemma_same_transaction_cross_pool_reuse_is_reported(orchard.drop_last(), ironwood, ironwood_seen, label, n);
        let last = orchard.last();
        if ironwood.contains(last) {
            lemma_push_contains(
                head,
                ViolationSpec::CrossPoolNullifierReuse { nullifier: last, orchard_in: label, ironwood_in: label },
                rep,
            );
        } else if ironwood_seen.contains_key(last) {
            lemma_push_contains(
                head,
                ViolationSpec::CrossPoolNullifierReuse {
                    nullifier: last,
                    orchard_in: label,
                    ironwood_in: ironwood_seen[last],
                },
                rep,
            );
        }
    }
}

/// An Orchard nullifier of a transaction that the transaction does not also
/// spend in Ironwood, but that an earlier transaction spent in Ironwood, is
/// reported as cross-pool reuse naming this transaction for Orchard and the
/// first Ironwood sighting for Ironwood.
pub proof fn lemma_earlier_ironwood_reuse_is_reported(
    orchard: Seq<NullifierBytes>,
    ironwood: Seq<NullifierBytes>,
    ironwood_seen: Map<NullifierBytes, Seq<char>>,
    label: Seq<char>,
    n: NullifierBytes,
)
    requires
        orchard.contains(n),
        !ironwood.contains(n),
        ironwood_seen.contains_key(n),
    ensures
        cross_from_orchard(orchard, ironwood, ironwood_seen, label).contains(
            ViolationSpec::CrossPoolNullifierReuse { nullifier: n, orchard_in: label, ironwood_in: ironwood_seen[n] },
        ),
    decreases orchard.len(),
{
    let rep = ViolationSpec::CrossPoolNullifierReuse {
        nullifier: n,
        orchard_in: label,
        ironwood_in: ironwood_seen[n],
    };
    let head = cross_from_orchard(orchard.drop_last(), ironwood, ironwood_seen, label);
    lemma_contains_split(orchard, n);
    if orchard.last() == n {
        lemma_push_contains(head, rep, rep);
    } else {
        lemma_earlier_ironwood_reuse_is_reported(orchard.drop_last(), ironwood, ironwood_seen, label, n);
        let last = orchard.last();
        if ironwood.contains(last) {
            lemma_push_contains(
                head,
                ViolationSpec::CrossPoolNullifierReuse { nullifier: last, orchard_in: label, ironwood_in: label },
                rep,
            );
        } else if ironwood_seen.contains_key(last) {
            lemma_push_contains(
                head,
                ViolationSpec::CrossPoolNullifierReuse {
                    nullifier: last,
                    orchard_in: label,
                    ironwood_in: ironwood_seen[last],
                },
                rep,
            );
        }
    }
}

/// An Ironwood nullifier of a transaction that an earlier transaction spent
/// in Orchard is reported as cross-pool reuse naming the first Orchard
/// sighting for Orchard and this transaction for Ironwood.
pub proof fn lemma_earlier_orchard_reuse_is_reported(
    ironwood: Seq<NullifierBytes>,
    orchard_seen: Map<NullifierBytes, Seq<char>>,
    label: Seq<char>,
    n: NullifierBytes,
)
    requires
        ironwood.contains(n),
        orchard_seen.contains_key(n),
    ensures
        cross_from_ironwood(ironwood, orchard_seen, label).contains(
            ViolationSpec::CrossPoolNullifierReuse { nullifier: n, orchard_in: orchard_seen[n], ironwood_in: label },
        ),
    decreases ironwood.len(),
{
    let rep = ViolationSpec::CrossPoolNullifierReuse { nullifier: n, orchard_in: orchard_seen[n], ironwood_in: label };
    let head = cross_from_ironwood(ironwood.drop_last(), orchard_seen, label);
    lemma_contains_split(ironwood, n);
    if ironwood.last() == n {
        lemma_push_contains(head, rep, rep);
    } else {
        lemma_earlier_orchard_reuse_is_reported(ironwood.drop_last(), orchard_seen, label, n);
        let last = ironwood.last();
        if orchard_seen.contains_key(last) {
            lemma_push_contains(
                head,
                ViolationSpec::CrossPoolNullifierReuse {
                    nullifier: last,
                    orchard_in: orchard_seen[last],
                    ironwood_in: label,
                },
                rep,
            );
        }
    }
}

proof fn lemma_contains_in_concat(a: Seq<ViolationSpec>, b: Seq<ViolationSpec>, r: ViolationSpec)
    ensures
        a.contains(r) ==> (a + b).contains(r),
        b.contains(r) ==> (a + b).contains(r),
{
    if a.contains(r) {
        let i = choose|i: int| 0 <= i < a.len() && a[i] == r;
        assert((a + b)[i] == r);
    }
    if b.contains(r) {
        let i = choose|i: int| 0 <= i < b.len() && b[i] == r;
        assert((a + b)[a.len() + i] == r);
    }
}

/// Reuse across transactions in either order is reported by the later
/// admission. A nullifier an earlier admission spent in Ironwood (so the
/// Ironwood first-sighting map names its label), spent now in Orchard and not
/// also in Ironwood, yields `CrossPoolNullifierReuse` naming this admission
/// for Orchard and the earlier one for Ironwood; a nullifier spent earlier in
/// Orchard and now in Ironwood yields the mirror report.
pub proof fn lemma_admission_reports_cross_transaction_reuse(
    tx: &TransactionFacts,
    orchard_seen: Map<NullifierBytes, Seq<char>>,
    ironwood_seen: Map<NullifierBytes, Seq<char>>,
    label: Seq<char>,
    origin: Origin,
    orchard_balance: i64,
    ironwood_balance: i64,
    n: NullifierBytes,
)
    ensures
        tx.orchard_nullifiers@.contains(n) && !tx.ironwood_nullifiers@.contains(n) && ironwood_seen.contains_key(n)
            ==> (conservation_violations(tx) + cross_from_orchard(
            tx.orchard_nullifiers@,
            tx.ironwood_nullifiers@,
            ironwood_seen,
            label,
        ) + cross_from_ironwood(tx.ironwood_nullifiers@, orchard_seen, label) + double_spends(
            Pool::Orchard,
            orchard_seen,
            tx.orchard_nullifiers@,
            label,
        ) + double_spends(Pool::Ironwood, ironwood_seen, tx.ironwood_nullifiers@, label) + floor_violations(
            origin,
            orchard_balance,
            ironwood_balance,
        )).contains(
            ViolationSpec::CrossPoolNullifierReuse { nullifier: n, orchard_in: label, ironwood_in: ironwood_seen[n] },
        ),
        tx.ironwood_nullifiers@.contains(n) && orchard_seen.contains_key(n) ==> (conservation_violations(tx)
            + cross_from_orchard(tx.orchard_nullifiers@, tx.ironwood_nullifiers@, ironwood_seen, label)
            + cross_from_ironwood(tx.ironwood_nullifiers@, orchard_seen, label) + double_spends(
            Pool::Orchard,
            orchard_seen,
            tx.orchard_nullifiers@,
            label,
        ) + double_spends(Pool::Ironwood, ironwood_seen, tx.ironwood_nullifiers@, label) + floor_violations(
            origin,
            orchard_balance,
            ironwood_balance,
        )).contains(
            ViolationSpec::CrossPoolNullifierReuse { nullifier: n, orchard_in: orchard_seen[n], ironwood_in: label },
        ),
{
    let a = conservation_violations(tx);
    let b = cross_from_orchard(tx.orchard_nullifiers@, tx.ironwood_nullifiers@, ironwood_seen, label);
    let c = cross_from_ironwood(tx.ironwood_nullifiers@, orchard_seen, label);
    let d = double_spends(Pool::Orchard, orchard_seen, tx.orchard_nullifiers@, label);
    let e = double_spends(Pool::Ironwood, ironwood_seen, tx.ironwood_nullifiers@, label);
    let f = floor_violations(origin, orchard_balance, ironwood_balance);
    if tx.orchard_nullifiers@.contains(n) && !tx.ironwood_nullifiers@.contains(n) && ironwood_seen.contains_key(n) {
        let r = ViolationSpec::CrossPoolNullifierReuse {
            nullifier: n,
            orchard_in: label,
            ironwood_in: ironwood_seen[n],
        };
        lemma_earlier_ironwood_reuse_is_reported(tx.orchard_nullifiers@, tx.ironwood_nullifiers@, ironwood_seen, label, n);
        lemma_contains_in_concat(a, b, r);
        lemma_contains_in_concat(a + b, c, r);
        lemma_contains_in_concat(a + b + c, d, r);
        lemma_contains_in_concat(a + b + c + d, e, r);
        lemma_contains_in_concat(a + b + c + d + e, f, r);
    }
    if tx.ironwood_nullifiers@.contains(n) && orchard_seen.contains_key(n) {
        let r = ViolationSpec::CrossPoolNullifierReuse {
            nullifier: n,
            orchard_in: orchard_seen[n],
            ironwood_in: label,
        };
        lemma_earlier_orchard_reuse_is_reported(tx.ironwood_nullifiers@, orchard_seen, label, n);
        lemma_contains_in_concat(a + b, c, r);
        lemma_contains_in_concat(a + b + c, d, r);
        lemma_contains_in_concat(a + b + c + d, e, r);
        lemma_contains_in_concat(a + b + c + d + e, f, r);
    }
}

/// After an admission that spends `n` in Ironwood for the first time, the
/// Ironwood first-sighting map names that admission's label for `n`, so a
/// later admission spending `n` in Orchard only is reported as reuse naming
/// it (see [`lemma_admission_reports_cross_transaction_reuse`]).
pub proof fn lemma_first_ironwood_sighting_is_recorded(
    ironwood_seen: Map<NullifierBytes, Seq<char>>,
    ironwood: Seq<NullifierBytes>,
    label: Seq<char>,
    n: NullifierBytes,
)
    requires
        !ironwood_seen.contains_key(n),
        ironwood.contains(n),
    ensures
        record_firsts(ironwood_seen, ironwood, label).contains_key(n),
        record_firsts(ironwood_seen, ironwood, label)[n] == label,
{
    lemma_record_firsts_domain(ironwood_seen, ironwood, label, n);
}

/// A run that starts partway along a chain never reports a negative pool
/// balance; one that starts at genesis reports each negative pool, Orchard
/// first.
pub proof fn lemma_floor_applies_only_from_genesis(origin: Origin, orchard: i64, ironwood: i64)
    ensures
        origin == Origin::MidChain ==> floor_violations(origin, orchard, ironwood) == Seq::<ViolationSpec>::empty(),
        origin == Origin::Genesis ==> floor_violations(origin, orchard, ironwood).len() == (if orchard < 0 {
            1int
        } else {
            0int
        }) + (if ironwood < 0 {
            1int
        } else {
            0int
        }),
{
}

/// Conservation holds exactly when the fee the transaction implies is
/// non-negative, and the reported fee is that fee; a violation reports the
/// negative implied fee. Both only where the fee is computable.
pub proof fn lemma_conservation_fee(tx: &TransactionFacts)
    requires
        tx.amounts_in_range(),
    ensures
        conservation_spec(tx) matches Conservation::Holds { fee } ==> fee >= 0 && fee == tx.implied_fee(),
        conservation_spec(tx) matches Conservation::Violated { implied_fee } ==> implied_fee < 0
            && implied_fee == tx.implied_fee(),
        (tx.transparent_inputs == 0 && !tx.has_sprout_joinsplits) <==> !(conservation_spec(
            tx,
        ) is Indeterminate),
{
    lemma_sum_nonneg(tx.transparent_outputs@);
}

/// The character of a decimal digit.
pub open spec fn digit_char(d: nat) -> char {
    if d == 0 {
        '0'
    } else if d == 1 {
        '1'
    } else if d == 2 {
        '2'
    } else if d == 3 {
        '3'
    } else if d == 4 {
        '4'
    } else if d == 5 {
        '5'
    } else if d == 6 {
        '6'
    } else if d == 7 {
        '7'
    } else if d == 8 {
        '8'
    } else {
        '9'
    }
}

/// The decimal digits of `n`, most significant first, with no leading zero.
pub open spec fn decimal(n: nat) -> Seq<char>
    decreases n,
{
    if n < 10 {
        seq![digit_char(n)]
    } else {
        decimal(n / 10).push(digit_char(n % 10))
    }
}

/// The one-character string of a decimal digit.
fn digit_str(d: usize) -> (s: &'static str)
    requires
        d < 10,
    ensures
        s@ == seq![digit_char(d as nat)],
{
    if d == 0 {
        proof { reveal_strlit("0"); }
        "0"
    } else if d == 1 {
        proof { reveal_strlit("1"); }
        "1"
    } else if d == 2 {
        proof { reveal_strlit("2"); }
        "2"
    } else if d == 3 {
        proof { reveal_strlit("3"); }
        "3"
    } else if d == 4 {
        proof { reveal_strlit("4"); }
        "4"
    } else if d == 5 {
        proof { reveal_strlit("5"); }
        "5"
    } else if d == 6 {
        proof { reveal_strlit("6"); }
        "6"
    } else if d == 7 {
        proof { reveal_strlit("7"); }
        "7"
    } else if d == 8 {
        proof { reveal_strlit("8"); }
        "8"
    } else {
        proof { reveal_strlit("9"); }
        "9"
    }
}

/// Append the decimal digits of `n`.
fn append_decimal(out: &mut String, n: usize)
    ensures
        final(out)@ == old(out)@ + decimal(n as nat),
    decreases n,
{
    if n >= 10 {
        append_decimal(out, n / 10);
    }
    out.append(digit_str(n % 10));
    assert(n < 10 ==> n % 10 == n);
}

/// The label of the transaction at `position` in a run: `tx@` followed by the
/// position in decimal.
pub fn label(position: usize) -> (l: String)
    ensures
        l@ == seq!['t', 'x', '@'] + decimal(position as nat),
{
    let mut out = String::from_str("tx@");
    proof { reveal_strlit("tx@"); }
    append_decimal(&mut out, position);
    out
}

} // verus!
