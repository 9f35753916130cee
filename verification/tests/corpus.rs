//! Seed selection from raw block bytes, era buckets and block file heights.

use zebra_batch_equivalence::corpus::{
    block_file_height, corpus_seeds_from_block, era_bucket, historical_seeds_from_block, NU6_2_HEIGHT, NU6_3_HEIGHT,
};

/// A version-4 block header with zero fields and a regtest-sized equihash
/// solution, followed by one version-1 transaction with no inputs, no
/// outputs and a zero lock time.
fn minimal_block() -> Vec<u8> {
    let mut bytes = vec![4u8, 0, 0, 0];
    bytes.extend_from_slice(&[0u8; 32 * 3]);
    bytes.extend_from_slice(&[0u8; 4 + 4]);
    bytes.extend_from_slice(&[0u8; 32]);
    bytes.push(36);
    bytes.extend_from_slice(&[0u8; 36]);
    bytes.push(1);
    bytes.extend_from_slice(&[1u8, 0, 0, 0, 0, 0, 0, 0, 0, 0]);
    bytes
}

#[test]
fn era_buckets_split_at_the_activation_heights() {
    assert_eq!(era_bucket(0), 0);
    assert_eq!(era_bucket(NU6_2_HEIGHT - 1), 0);
    assert_eq!(era_bucket(NU6_2_HEIGHT), 1);
    assert_eq!(era_bucket(3_364_600), 1);
    assert_eq!(era_bucket(NU6_3_HEIGHT - 1), 1);
    assert_eq!(era_bucket(NU6_3_HEIGHT), 2);
    assert_eq!(era_bucket(3_428_143), 2);
    assert_eq!(era_bucket(u32::MAX), 2);
}

#[test]
fn block_file_heights_parse_the_number_after_the_prefix() {
    assert_eq!(block_file_height(b"block-419201"), 419_201);
    assert_eq!(block_file_height(b"block-1000950"), 1_000_950);
    assert_eq!(block_file_height(b"block-+12"), 12);
    assert_eq!(block_file_height(b"block-0000007"), 7);
    assert_eq!(block_file_height(b"block-4294967295"), u32::MAX);
    assert_eq!(block_file_height(b"block-4294967296"), 0);
    assert_eq!(block_file_height(b"block-"), 0);
    assert_eq!(block_file_height(b"block-+"), 0);
    assert_eq!(block_file_height(b"block-12a"), 0);
    assert_eq!(block_file_height(b"block--1"), 0);
    assert_eq!(block_file_height(b"blocks-1"), 0);
    assert_eq!(block_file_height(b"1000950"), 0);
    assert_eq!(block_file_height(b""), 0);
}

#[test]
fn numeric_heights_order_blocks_where_file_names_would_not() {
    let mut stems = vec!["block-1000950", "block-419201", "block-419200"];
    stems.sort_by_key(|s| block_file_height(s.as_bytes()));
    assert_eq!(stems, vec!["block-419200", "block-419201", "block-1000950"]);
}

#[test]
fn bytes_that_are_not_a_block_give_no_seeds() {
    assert!(corpus_seeds_from_block(&[]).is_none());
    assert!(corpus_seeds_from_block(&[0u8; 16]).is_none());
    assert!(historical_seeds_from_block(&[]).is_none());
    assert!(historical_seeds_from_block(&[7u8; 200]).is_none());
}

#[test]
fn a_block_of_one_transparent_transaction_yields_no_seeds() {
    let block = minimal_block();
    let seeds = corpus_seeds_from_block(&block).expect("the block decodes");
    assert_eq!(seeds.height, 0);
    assert_eq!(seeds.shielded_transactions, 0);
    assert!(seeds.seeds.is_empty());
    let historical = historical_seeds_from_block(&block).expect("the block decodes");
    assert_eq!(historical.height, 0);
    assert!(historical.seeds.is_empty());
}

#[test]
fn a_truncated_block_gives_no_seeds() {
    let block = minimal_block();
    assert!(corpus_seeds_from_block(&block[..block.len() - 1]).is_none());
    assert!(historical_seeds_from_block(&block[..140]).is_none());
}
