//! The transaction-stream input model shared by every pool's fuzz input:
//! concatenated transaction wire bytes.
//!
//! The parsing rules are the part with teeth, so they are written once: stop at
//! the first transaction that does not deserialize rather than trying to
//! resynchronise; let one transaction whose extraction fails cost only its own
//! items; and stop at [`MAX_BATCH_ITEMS`] so batch size stays bounded whatever
//! the input says.

use vstd::prelude::*;

use std::io::Cursor;

use zebra_chain::serialization::ZcashDeserialize;
use zebra_chain::transaction::Transaction;

verus! {

/// Cap on how many items are folded into one batch.
pub const MAX_BATCH_ITEMS: usize = 32;

/// The transaction encoded at the start of `bytes`, as
/// `Transaction::zcash_deserialize` reads it, with how many bytes it
/// occupies; `None` when it does not deserialize. Deserializing is a
/// function of the bytes alone.
pub uninterp spec fn zcash_transaction_decode(bytes: Seq<u8>) -> Option<(Transaction, nat)>;

/// How many bytes the transaction encoded at the start of `bytes` occupies;
/// `None` when it does not deserialize.
pub open spec fn zcash_transaction_length(bytes: Seq<u8>) -> Option<nat> {
    match zcash_transaction_decode(bytes) {
        Some((_, n)) => Some(n),
        None => None,
    }
}

/// Deserialize one transaction from the start of `data`, via
/// `Transaction::zcash_deserialize` over a `std::io::Cursor`, returning it
/// with the number of bytes it occupied (the cursor's position afterwards,
/// which never passes the end of the bytes it reads).
#[verifier::external_body]
fn parse_transaction(data: &[u8]) -> (parsed: Option<(Transaction, usize)>)
    ensures
        parsed is Some <==> zcash_transaction_decode(data@) is Some,
        parsed matches Some((tx, used)) ==> zcash_transaction_decode(data@) == Some((tx, used as nat)) && used
            <= data@.len(),
{
    let mut cursor = Cursor::new(data);
    match Transaction::zcash_deserialize(&mut cursor) {
        Ok(tx) => Some((tx, cursor.position() as usize)),
        Err(_) => None,
    }
}

/// The transactions that lie one after another at the start of `data`, in
/// order: parsing stops at the end of the bytes, at the first that does not
/// deserialize, or at one that occupies no bytes.
pub open spec fn stream_transactions(data: Seq<u8>) -> Seq<Transaction>
    decreases data.len(),
{
    if data.len() == 0 {
        seq![]
    } else {
        match zcash_transaction_decode(data) {
            Some((tx, n)) => if 0 < n <= data.len() {
                seq![tx] + stream_transactions(data.skip(n as int))
            } else {
                seq![]
            },
            None => seq![],
        }
    }
}

/// How many transactions lie one after another at the start of `data`.
pub open spec fn stream_length(data: Seq<u8>) -> nat {
    stream_transactions(data).len()
}

/// The items of a sequence of extraction outcomes, in order; a failed
/// extraction (`None`) contributes nothing.
pub open spec fn flatten_outcomes<T>(outcomes: Seq<Option<Vec<T>>>) -> Seq<T>
    decreases outcomes.len(),
{
    if outcomes.len() == 0 {
        seq![]
    } else {
        flatten_outcomes(outcomes.drop_last()) + match outcomes.last() {
            Some(v) => v@,
            None => seq![],
        }
    }
}

/// `outcome` is one the extractor may return for some transaction.
pub open spec fn extractable<T, F: Fn(&Transaction) -> Option<Vec<T>>>(extract: F, outcome: Option<Vec<T>>) -> bool {
    exists|tx: &Transaction| #[trigger] call_ensures(extract, (tx,), outcome)
}

/// Every outcome is one the extractor may return for some transaction.
pub open spec fn outcomes_of<T, F: Fn(&Transaction) -> Option<Vec<T>>>(
    extract: F,
    outcomes: Seq<Option<Vec<T>>>,
) -> bool {
    forall|i: int| 0 <= i < outcomes.len() ==> #[trigger] extractable(extract, outcomes[i])
}

/// Outcome `k` is one the extractor may return for transaction `k` of `txs`.
pub open spec fn outcomes_for<T, F: Fn(&Transaction) -> Option<Vec<T>>>(
    extract: F,
    outcomes: Seq<Option<Vec<T>>>,
    txs: Seq<Transaction>,
) -> bool {
    &&& outcomes.len() <= txs.len()
    &&& forall|k: int| 0 <= k < outcomes.len() ==> call_ensures(extract, (&txs[k],), #[trigger] outcomes[k])
}

/// Parse concatenated transaction wire bytes and extract items from each
/// transaction with `extract`, which returns `None` when extraction failed.
///
/// Parsing stops at the end of the bytes, at the first transaction that does
/// not deserialize, or once [`MAX_BATCH_ITEMS`] items are held; a transaction
/// straddling the cap contributes only the items that fit. The items returned
/// are, in order, the items of the extraction outcomes of the transactions
/// parsed, cut at the cap.
pub fn items_from_tx_stream_with<T, F: Fn(&Transaction) -> Option<Vec<T>>>(data: &[u8], extract: F) -> (items: Vec<T>)
    requires
        forall|tx: &Transaction| #[trigger] extract.requires((tx,)),
    ensures
        items@.len() <= MAX_BATCH_ITEMS,
        exists|outcomes: Seq<Option<Vec<T>>>|
            #![trigger flatten_outcomes(outcomes)]
            {
                &&& outcomes_of(extract, outcomes)
                &&& outcomes_for(extract, outcomes, stream_transactions(data@))
                &&& outcomes.len() <= stream_length(data@)
                &&& items@ == flatten_outcomes(outcomes).take(items@.len() as int)
                &&& items@.len() < MAX_BATCH_ITEMS ==> items@ == flatten_outcomes(outcomes) && outcomes.len()
                    == stream_length(data@)
            },
{
    let mut items: Vec<T> = Vec::new();
    let mut pos: usize = 0;
    let mut stop = false;
    let ghost mut outcomes: Seq<Option<Vec<T>>> = seq![];
    let ghost mut parsed: Seq<Transaction> = seq![];
    assert(flatten_outcomes(outcomes) =~= Seq::<T>::empty());
    assert(data@.skip(0) =~= data@);
    while !stop && pos < data.len() && items.len() < MAX_BATCH_ITEMS
        invariant
            pos <= data@.len(),
            items@.len() <= MAX_BATCH_ITEMS,
            forall|tx: &Transaction| #[trigger] extract.requires((tx,)),
            outcomes_of(extract, outcomes),
            items@ == flatten_outcomes(outcomes).take(items@.len() as int),
            items@.len() < MAX_BATCH_ITEMS ==> items@ == flatten_outcomes(outcomes),
            outcomes.len() + stream_length(data@.skip(pos as int)) == stream_length(data@),
            outcomes.len() == parsed.len(),
            parsed + stream_transactions(data@.skip(pos as int)) == stream_transactions(data@),
            forall|k: int| 0 <= k < outcomes.len() ==> call_ensures(extract, (&parsed[k],), #[trigger] outcomes[k]),
            stop ==> stream_length(data@.skip(pos as int)) == 0,
        decreases (data@.len() - pos) * 2 + if stop {
            0int
        } else {
            1int
        },
    {
        let rest = vstd::slice::slice_subrange(data, pos, data.len());
        assert(rest@ =~= data@.skip(pos as int));
        match parse_transaction(rest) {
            None => {
                stop = true;
            },
            Some((tx, used)) => {
                if used == 0 {
                    stop = true;
                } else {
                    assert(rest@.skip(used as int) =~= data@.skip(pos + used));
                    let ghost old_pos = pos;
                    pos = pos + used;
                    let outcome = extract(&tx);
                    let ghost prev_outcomes = outcomes;
                    let ghost prev_items = items@;
                    proof {
                        let prev_parsed = parsed;
                        assert(stream_transactions(data@.skip(old_pos as int)) =~= seq![tx] + stream_transactions(
                            data@.skip(pos as int),
                        ));
                        parsed = parsed.push(tx);
                        assert(parsed + stream_transactions(data@.skip(pos as int)) =~= prev_parsed
                            + stream_transactions(data@.skip(old_pos as int)));
                        outcomes = outcomes.push(outcome);
                        assert(outcomes.drop_last() =~= prev_outcomes);
                        assert forall|k: int| 0 <= k < outcomes.len() implies call_ensures(
                            extract,
                            (&parsed[k],),
                            #[trigger] outcomes[k],
                        ) by {
                            if k < prev_outcomes.len() {
                                assert(outcomes[k] == prev_outcomes[k]);
                                assert(parsed[k] == prev_parsed[k]);
                            }
                        }
                        assert forall|i: int| 0 <= i < outcomes.len() implies #[trigger] extractable(
                            extract,
                            outcomes[i],
                        ) by {
                            if i < prev_outcomes.len() {
                                assert(outcomes[i] == prev_outcomes[i]);
                            } else {
                                assert(call_ensures(extract, (&tx,), outcomes[i]));
                            }
                        }
                    }
                    match outcome {
                        Some(new_items) => {
                            let ghost added = new_items@;
                            let room = MAX_BATCH_ITEMS - items.len();
                            let mut new_items = new_items;
                            if new_items.len() > room {
                                new_items.truncate(room);
                            }
                            items.append(&mut new_items);
                            assert(flatten_outcomes(outcomes) =~= prev_items + added);
                            assert(items@ =~= flatten_outcomes(outcomes).take(items@.len() as int));
                            if items.len() < MAX_BATCH_ITEMS {
                                assert(added.take(added.len() as int) =~= added);
                            }
                        },
                        None => {
                            assert(flatten_outcomes(outcomes) =~= flatten_outcomes(prev_outcomes));
                        },
                    }
                }
            },
        }
    }
    assert(pos >= data@.len() ==> data@.skip(pos as int) =~= Seq::<u8>::empty());
    assert forall|k: int| 0 <= k < outcomes.len() implies call_ensures(
        extract,
        (&stream_transactions(data@)[k],),
        #[trigger] outcomes[k],
    ) by {
        assert(stream_transactions(data@)[k] == (parsed + stream_transactions(data@.skip(pos as int)))[k]);
    }
    items
}

} // verus!
