//! The Sprout public-input encoding and its hashes.

use zebra_batch_equivalence::sprout::{h_sig, public_input, vk_digest, JoinSplitFields, SproutKeys};

fn hex(bytes: &[u8]) -> String {
    bytes.iter().map(|b| format!("{b:02x}")).collect()
}

#[test]
fn h_sig_is_personalised_blake2b_of_the_four_fields() {
    let h = h_sig(&[1; 32], &[2; 32], &[3; 32], &[4; 32]);
    assert_eq!(hex(&h), "1950fb53277a777e564becded5963b6116dfaeade48b61ac3317b95a1a7b8859");
}

#[test]
fn vk_digest_is_personalised_blake2b() {
    assert_eq!(hex(&vk_digest(b"abc")), "aeae64ed19178b530389ce5a9287d1131a1589b8bb9445e215100cd31fc5db3c");
    assert_eq!(hex(&vk_digest(b"")), "a3943535bc7c4d145d6d403ab3b11257375ac66a739a1527dd64e363575010a2");
}

#[test]
fn the_public_input_is_laid_out_in_consensus_order() {
    let js = JoinSplitFields {
        anchor: [0xa0; 32],
        nullifiers: [[2; 32], [3; 32]],
        commitments: [[0xc1; 32], [0xc2; 32]],
        random_seed: [1; 32],
        vmacs: [[0xd1; 32], [0xd2; 32]],
        vpub_old: [5, 0, 0, 0, 0, 0, 0, 0],
        vpub_new: [6, 0, 0, 0, 0, 0, 0, 0],
        zkproof: [0; 192],
    };
    let input = public_input(&js, &[4; 32]);
    assert_eq!(input.len(), 32 * 8 + 16);
    assert_eq!(input[..32], [0xa0; 32]);
    assert_eq!(hex(&input[32..64]), "1950fb53277a777e564becded5963b6116dfaeade48b61ac3317b95a1a7b8859");
    assert_eq!(input[64..96], [2; 32]);
    assert_eq!(input[96..128], [0xd1; 32]);
    assert_eq!(input[128..160], [3; 32]);
    assert_eq!(input[160..192], [0xd2; 32]);
    assert_eq!(input[192..224], [0xc1; 32]);
    assert_eq!(input[224..256], [0xc2; 32]);
    assert_eq!(input[256..264], [5, 0, 0, 0, 0, 0, 0, 0]);
    assert_eq!(input[264..272], [6, 0, 0, 0, 0, 0, 0, 0]);
}

#[test]
fn key_bytes_that_do_not_match_the_recorded_digest_are_refused() {
    assert!(SproutKeys::from_vendored_bytes(b"not a verifying key").is_none());
    assert!(SproutKeys::from_vendored_bytes(&[]).is_none());
}
