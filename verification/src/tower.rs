//! The batching middleware's side of the oracle: who ends up in a batch with
//! whom.
//!
//! `tower-batch-control` draws batch boundaries from arrival timing. The
//! service it drives holds the items queued since the last flush, hands each
//! caller the position of its item, and on flush verifies the whole pending
//! batch at once and broadcasts one verdict per position. This module holds
//! that bookkeeping — the pending batch, the flush, the record of how the
//! scheduler divided the work, and the weight each item counts for — so that
//! every item's verdict is provably the verdict of the batch it was in, at its
//! own position.

use vstd::prelude::*;

use std::sync::Arc;

use crate::batch_verifier::BatchVerifier;

verus! {

/// The batch size limit shared by every batch verifier.
pub const MAX_BATCH_SIZE: usize = 64;

/// The batch latency limit, in milliseconds: how long an item may wait for a
/// batch to fill before the batch is flushed anyway.
pub const MAX_BATCH_LATENCY_MILLIS: u64 = 100;

/// Another handle on the same allocation, via `Arc::clone`: std documents
/// that it makes another pointer to the same allocation, so the new handle
/// holds the same value.
#[verifier::external_body]
fn share<T>(a: &Arc<T>) -> (r: Arc<T>)
    ensures
        *r == **a,
{
    Arc::clone(a)
}

/// One verification item on its way through the middleware, carrying the
/// weight its pool assigns it.
pub struct Weighted<V: BatchVerifier> {
    item: Arc<V::Item>,
}

impl<V: BatchVerifier> Weighted<V> {
    /// The item this request carries.
    pub closed spec fn item_spec(&self) -> V::Item {
        *self.item
    }

    /// Wrap an item for submission to a batched service.
    pub fn new(item: Arc<V::Item>) -> (w: Self)
        ensures
            w.item_spec() == *item,
    {
        Weighted { item }
    }

    /// The item itself.
    pub fn item(&self) -> (item: &V::Item)
        ensures
            *item == self.item_spec(),
    {
        &*self.item
    }

    /// A shared handle on the item.
    pub fn shared(&self) -> (item: Arc<V::Item>)
        ensures
            *item == self.item_spec(),
    {
        share(&self.item)
    }

    /// What this request counts as against a batch's size limit: its pool's
    /// weight for the item, at least one.
    pub fn weight(&self) -> (weight: usize)
        ensures
            weight >= 1,
    {
        V::item_weight(&*self.item)
    }
}

impl<V: BatchVerifier> Clone for Weighted<V> {
    fn clone(&self) -> (w: Self)
        ensures
            w.item_spec() == self.item_spec(),
    {
        Weighted { item: share(&self.item) }
    }
}

/// Sum of a sequence of batch sizes.
pub open spec fn total_size(sizes: Seq<usize>) -> int
    decreases sizes.len(),
{
    if sizes.len() == 0 {
        0
    } else {
        total_size(sizes.drop_last()) + sizes.last()
    }
}

/// A record of how the scheduler divided the work: one entry per flushed
/// batch, holding that batch's item count, in flush order.
#[derive(Clone)]
pub struct BatchLog {
    sizes: Vec<usize>,
}

impl View for BatchLog {
    type V = Seq<usize>;

    closed spec fn view(&self) -> Seq<usize> {
        self.sizes@
    }
}

impl BatchLog {
    /// An empty log.
    pub fn new() -> (log: Self)
        ensures
            log@ == Seq::<usize>::empty(),
    {
        BatchLog { sizes: Vec::new() }
    }

    /// Batch sizes in flush order.
    pub fn sizes(&self) -> (sizes: Vec<usize>)
        ensures
            sizes@ == self@,
    {
        self.sizes.clone()
    }

    /// How many batches have been flushed.
    pub fn count(&self) -> (count: usize)
        ensures
            count == self@.len(),
    {
        self.sizes.len()
    }

    /// Record one flushed batch of `size` items.
    pub fn record(&mut self, size: usize)
        ensures
            final(self)@ == old(self)@.push(size),
    {
        self.sizes.push(size);
    }
}

impl Default for BatchLog {
    fn default() -> (log: Self)
        ensures
            log@ == Seq::<usize>::empty(),
    {
        BatchLog::new()
    }
}

/// The items queued since the last flush, in arrival order.
pub struct PendingBatch<V: BatchVerifier> {
    pending: Vec<Arc<V::Item>>,
}

/// The items a sequence of shared handles points at.
pub open spec fn shared_items<T>(handles: Seq<Arc<T>>) -> Seq<T> {
    handles.map_values(|a: Arc<T>| *a)
}

impl<V: BatchVerifier> View for PendingBatch<V> {
    type V = Seq<V::Item>;

    closed spec fn view(&self) -> Seq<V::Item> {
        shared_items(self.pending@)
    }
}

/// Borrow every item of a sequence of shared handles, in order.
fn borrow_all<T>(handles: &Vec<Arc<T>>) -> (refs: Vec<&T>)
    ensures
        refs@.len() == handles@.len(),
        forall|i: int| 0 <= i < refs@.len() ==> *#[trigger] refs@[i] == *handles@[i],
{
    let n = handles.len();
    let mut refs: Vec<&T> = Vec::new();
    let mut i: usize = 0;
    while i < n
        invariant
            n == handles@.len(),
            i <= n,
            refs@.len() == i,
            forall|j: int| 0 <= j < i ==> *#[trigger] refs@[j] == *handles@[j],
        decreases n - i,
    {
        refs.push(&*handles[i]);
        i = i + 1;
    }
    refs
}

/// `verdicts` may be what the batch path returns for `items`, borrowed in
/// order.
pub open spec fn batch_verdicts_for<V: BatchVerifier>(
    items: Seq<V::Item>,
    ctx: &V::Context,
    seed: u64,
    verdicts: Seq<bool>,
) -> bool {
    exists|refs: Seq<&V::Item>|
        #![trigger V::batch_spec(refs, ctx, seed, verdicts)]
        refs.len() == items.len() && (forall|i: int| 0 <= i < refs.len() ==> *#[trigger] refs[i] == items[i])
            && V::batch_spec(refs, ctx, seed, verdicts)
}

impl<V: BatchVerifier> PendingBatch<V> {
    /// An empty pending batch.
    pub fn new() -> (batch: Self)
        ensures
            batch@ == Seq::<V::Item>::empty(),
    {
        let batch = PendingBatch { pending: Vec::new() };
        assert(batch@ =~= Seq::<V::Item>::empty());
        batch
    }

    /// How many items are waiting.
    pub fn len(&self) -> (n: usize)
        ensures
            n == self@.len(),
    {
        self.pending.len()
    }

    /// Queue an item, returning its position within the pending batch: the
    /// position at which its verdict will be broadcast.
    pub fn push(&mut self, item: Arc<V::Item>) -> (index: usize)
        ensures
            index == old(self)@.len(),
            final(self)@ == old(self)@.push(*item),
    {
        let index = self.pending.len();
        self.pending.push(item);
        assert(self@ =~= old(self)@.push(*item));
        index
    }

    /// Verify the pending batch and clear it.
    ///
    /// An empty batch has no verdicts to report: `None`, and the log is
    /// untouched. Otherwise the batch's size is recorded in `log` and the
    /// batch path's verdicts — one per pending item, in arrival order — are
    /// returned.
    pub fn flush(&mut self, ctx: &V::Context, seed: u64, log: &mut BatchLog) -> (verdicts: Option<Vec<bool>>)
        ensures
            final(self)@ == Seq::<V::Item>::empty(),
            old(self)@.len() == 0 ==> verdicts is None && final(log)@ == old(log)@,
            old(self)@.len() > 0 ==> final(log)@ == old(log)@.push(old(self)@.len() as usize),
            old(self)@.len() > 0 ==> verdicts is Some,
            verdicts matches Some(v) ==> v@.len() == old(self)@.len() && batch_verdicts_for::<V>(
                old(self)@,
                ctx,
                seed,
                v@,
            ),
    {
        let mut taken: Vec<Arc<V::Item>> = Vec::new();
        std::mem::swap(&mut taken, &mut self.pending);
        assert(self@ =~= Seq::<V::Item>::empty());
        if taken.len() == 0 {
            return None;
        }
        log.record(taken.len());
        let refs = borrow_all(&taken);
        let verdicts = V::validate_batch(refs.as_slice(), ctx, seed);
        assert(taken@ == old(self).pending@);
        assert(old(self)@.len() == taken@.len());
        assert forall|i: int| 0 <= i < refs@.len() implies *#[trigger] refs@[i] == old(self)@[i] by {
            assert(old(self)@[i] == *taken@[i]);
        }
        assert(V::batch_spec(refs@, ctx, seed, verdicts@));
        assert(batch_verdicts_for::<V>(old(self)@, ctx, seed, verdicts@));
        Some(verdicts)
    }
}

/// How many items have been handed to the middleware in total: every flushed
/// batch's items plus those still pending.
pub open spec fn accounted<T>(log: Seq<usize>, pending: Seq<T>) -> int {
    total_size(log) + pending.len()
}

/// Every submitted item ends up in exactly one flushed batch or is still
/// pending: queueing accounts for one more item, and a flush moves the pending
/// items into the log without losing or duplicating any.
pub proof fn lemma_flush_accounts_for_every_item<T>(
    log_before: Seq<usize>,
    pending_before: Seq<T>,
    log_after: Seq<usize>,
    pending_after: Seq<T>,
)
    requires
        pending_before.len() <= usize::MAX,
        pending_after.len() == 0,
        pending_before.len() == 0 ==> log_after == log_before,
        pending_before.len() > 0 ==> log_after == log_before.push(pending_before.len() as usize),
    ensures
        accounted(log_after, pending_after) == accounted(log_before, pending_before),
{
    if pending_before.len() > 0 {
        assert(log_after.drop_last() =~= log_before);
        assert(log_after.last() == pending_before.len());
    }
}

/// Greatest common divisor (Euclid's algorithm), as a mathematical function.
pub open spec fn gcd_spec(a: nat, b: nat) -> nat
    decreases b,
{
    if b == 0 {
        a
    } else {
        gcd_spec(b, a % b)
    }
}

/// The greatest common divisor of `a` and `b`, by Euclid's algorithm.
pub fn gcd(a: usize, b: usize) -> (d: usize)
    ensures
        d == gcd_spec(a as nat, b as nat),
{
    let ghost a0 = a;
    let ghost b0 = b;
    let mut a = a;
    let mut b = b;
    while b != 0
        invariant
            gcd_spec(a as nat, b as nat) == gcd_spec(a0 as nat, b0 as nat),
        decreases b,
    {
        let t = b;
        b = a % b;
        a = t;
    }
    a
}

/// The greatest common divisor divides both arguments, and is positive when
/// either argument is.
pub proof fn lemma_gcd_divides(a: nat, b: nat)
    ensures
        (a > 0 || b > 0) ==> gcd_spec(a, b) > 0,
        gcd_spec(a, b) > 0 ==> a % gcd_spec(a, b) == 0 && b % gcd_spec(a, b) == 0,
    decreases b,
{
    if b > 0 {
        let r = a % b;
        lemma_gcd_divides(b, r);
        let g = gcd_spec(b, r);
        assert(gcd_spec(a, b) == g);
        assert(g > 0);
        let q = a / b;
        vstd::arithmetic::div_mod::lemma_fundamental_div_mod(a as int, b as int);
        vstd::arithmetic::div_mod::lemma_fundamental_div_mod(b as int, g as int);
        vstd::arithmetic::div_mod::lemma_fundamental_div_mod(r as int, g as int);
        let k = b / g;
        let m = r / g;
        assert(a == g * (k * q + m)) by (nonlinear_arith)
            requires
                a == b * q + r,
                b == g * k,
                r == g * m,
        ;
        vstd::arithmetic::div_mod::lemma_mod_multiples_basic((k * q + m) as int, g as int);
        assert((g * (k * q + m)) == (k * q + m) * g) by (nonlinear_arith);
    }
}

/// The least common multiple, as `a / gcd(a, b) * b`.
pub open spec fn lcm_spec(a: nat, b: nat) -> nat {
    (a / gcd_spec(a, b)) * b
}

/// The least common multiple of `a` and `b`, computed as `a / gcd(a, b) * b`;
/// for two positive numbers, a positive multiple of both no larger than their
/// product. Zero when exactly one of them is zero.
pub fn lcm(a: usize, b: usize) -> (m: usize)
    requires
        a > 0 || b > 0,
        lcm_spec(a as nat, b as nat) <= usize::MAX,
    ensures
        m == lcm_spec(a as nat, b as nat),
        a > 0 && b > 0 ==> m > 0 && m % a == 0 && m % b == 0 && m <= a * b,
{
    let g = gcd(a, b);
    proof {
        lemma_gcd_divides(a as nat, b as nat);
        vstd::arithmetic::div_mod::lemma_fundamental_div_mod(a as int, g as int);
        vstd::arithmetic::div_mod::lemma_fundamental_div_mod(b as int, g as int);
    }
    let q = a / g;
    let m = q * b;
    proof {
        if a > 0 && b > 0 {
            let k = b / g;
            assert(q * b <= a * b) by (nonlinear_arith)
                requires
                    a == g * q,
                    g > 0,
                    b > 0,
            ;
            assert(q > 0) by (nonlinear_arith)
                requires
                    a == g * q,
                    g > 0,
                    a > 0,
            ;
            vstd::arithmetic::div_mod::lemma_mod_multiples_basic(q as int, b as int);
            assert(m == k * a) by (nonlinear_arith)
                requires
                    m == q * b,
                    a == g * q,
                    b == g * k,
            ;
            vstd::arithmetic::div_mod::lemma_mod_multiples_basic(k as int, a as int);
            assert(q * b > 0) by (nonlinear_arith)
                requires
                    q > 0,
                    b > 0,
            ;
        }
    }
    m
}

/// Two batch capacities for partitioning `item_count` items two different
/// ways, and the length to truncate the items to so that neither partition
/// leaves a partly filled final batch.
///
/// The wide capacity is `1 + control % item_count`; the narrow one is half of
/// it rounded up (or two, when the wide one is one). `None` when there are
/// fewer than two items, when the two capacities coincide, or when no
/// non-empty prefix divides into both.
pub fn partition_plan(control: u8, item_count: usize) -> (plan: Option<(usize, usize, usize)>)
    requires
        item_count * item_count <= usize::MAX,
    ensures
        item_count < 2 ==> plan is None,
        plan matches Some((wide, narrow, n)) ==> {
            &&& item_count >= 2
            &&& wide == 1 + (control as nat) % (item_count as nat)
            &&& narrow == if wide == 1 {
                2nat
            } else {
                1 + (wide - 1) as nat / 2
            }
            &&& wide != narrow
            &&& 0 < n <= item_count
            &&& n % wide == 0
            &&& n % narrow == 0
            &&& n == (item_count as nat / lcm_spec(wide as nat, narrow as nat)) * lcm_spec(wide as nat, narrow as nat)
        },
        item_count >= 2 && plan is None ==> {
            let wide = 1 + (control as nat) % (item_count as nat);
            let narrow = if wide == 1 {
                2nat
            } else {
                1 + (wide - 1) as nat / 2
            };
            wide == narrow || item_count < lcm_spec(wide, narrow)
        },
{
    if item_count < 2 {
        return None;
    }
    let wide = 1 + (control as usize) % item_count;
    let narrow = if wide == 1 {
        if 2 < item_count { 2 } else { item_count }
    } else {
        1 + (wide - 1) / 2
    };
    if wide == narrow {
        return None;
    }
    proof {
        lemma_gcd_divides(wide as nat, narrow as nat);
        let g = gcd_spec(wide as nat, narrow as nat);
        vstd::arithmetic::div_mod::lemma_fundamental_div_mod(wide as int, g as int);
        let q = wide as nat / g;
        assert(q * narrow <= item_count * item_count) by (nonlinear_arith)
            requires
                wide == g * q,
                g > 0,
                wide <= item_count,
                narrow <= item_count,
        ;
    }
    let step = lcm(wide, narrow);
    let c = item_count / step;
    proof {
        vstd::arithmetic::div_mod::lemma_fundamental_div_mod(item_count as int, step as int);
        assert(c * step <= item_count) by (nonlinear_arith)
            requires
                item_count == step * c + item_count % step,
                item_count % step >= 0,
        ;
        assert(c == 0 ==> item_count < step) by (nonlinear_arith)
            requires
                item_count == step * c + item_count % step,
                item_count % step < step,
        ;
    }
    let n = c * step;
    proof {
        let ka = step / wide;
        let kb = step / narrow;
        vstd::arithmetic::div_mod::lemma_fundamental_div_mod(step as int, wide as int);
        vstd::arithmetic::div_mod::lemma_fundamental_div_mod(step as int, narrow as int);
        assert(n == (c * ka) * wide) by (nonlinear_arith)
            requires
                n == c * step,
                step == wide * ka,
        ;
        assert(n == (c * kb) * narrow) by (nonlinear_arith)
            requires
                n == c * step,
                step == narrow * kb,
        ;
        vstd::arithmetic::div_mod::lemma_mod_multiples_basic((c * ka) as int, wide as int);
        vstd::arithmetic::div_mod::lemma_mod_multiples_basic((c * kb) as int, narrow as int);
    }
    if n == 0 {
        assert(c == 0) by (nonlinear_arith)
            requires
                n == c * step,
                step > 0,
                n == 0,
        ;
        return None;
    }
    Some((wide, narrow, n))
}

} // verus!
