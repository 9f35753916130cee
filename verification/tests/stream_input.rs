//! The transaction-stream input model.

use zebra_batch_equivalence::{items_from_tx_stream_with, MAX_BATCH_ITEMS};

/// A version-1 transaction with no inputs, no outputs and a zero lock time.
const EMPTY_V1_TX: [u8; 10] = [1, 0, 0, 0, 0, 0, 0, 0, 0, 0];

#[test]
fn no_bytes_no_items() {
    let items = items_from_tx_stream_with(&[], |_tx| Some(vec![1u8]));
    assert!(items.is_empty());
}

#[test]
fn undecodable_bytes_stop_the_stream() {
    let items = items_from_tx_stream_with(&[0xff; 7], |_tx| Some(vec![1u8]));
    assert!(items.is_empty());
}

#[test]
fn each_transaction_is_extracted_in_order() {
    let mut data = Vec::new();
    data.extend_from_slice(&EMPTY_V1_TX);
    data.extend_from_slice(&EMPTY_V1_TX);
    let items = items_from_tx_stream_with(&data, |_tx| Some(vec![7u8, 8u8]));
    assert_eq!(items, vec![7, 8, 7, 8]);
}

#[test]
fn a_failed_extraction_costs_only_its_own_items() {
    let mut data = Vec::new();
    data.extend_from_slice(&EMPTY_V1_TX);
    data.extend_from_slice(&EMPTY_V1_TX);
    let calls = std::cell::Cell::new(0u32);
    let items = items_from_tx_stream_with(&data, |_tx| {
        calls.set(calls.get() + 1);
        if calls.get() == 1 {
            None
        } else {
            Some(vec![3u8])
        }
    });
    assert_eq!(items, vec![3]);
}

#[test]
fn the_item_count_is_capped() {
    let mut data = Vec::new();
    for _ in 0..3 {
        data.extend_from_slice(&EMPTY_V1_TX);
    }
    let items = items_from_tx_stream_with(&data, |_tx| Some(vec![0u8; 20]));
    assert_eq!(items.len(), MAX_BATCH_ITEMS);
}
