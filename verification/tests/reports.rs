//! Reports, seeds, tamper targets and era routing.

use zebra_batch_equivalence::adversarial::{ProofDamage, TamperCursor, TamperTarget};
use zebra_batch_equivalence::era::UpgradeName;
use zebra_batch_equivalence::invariants::InvariantViolation;
use zebra_batch_equivalence::{derive_seed, CircuitEra, EquivReport};
use zebra_chain::parameters::NetworkUpgrade;

#[test]
fn only_disagreements_report_disagreement() {
    assert!(!EquivReport::Agree(true).is_disagreement());
    assert!(!EquivReport::Agree(false).is_disagreement());
    assert!(EquivReport::FalseAccept.is_disagreement());
    assert!(EquivReport::FalseAccept.is_false_accept());
    assert!(EquivReport::FalseReject.is_disagreement());
    assert!(!EquivReport::FalseReject.is_false_accept());
}

#[test]
fn seed_is_deterministic() {
    assert_eq!(derive_seed(b"hello"), derive_seed(b"hello"));
    assert_ne!(derive_seed(b"hello"), derive_seed(b"world"));
}

#[test]
fn seed_is_fnv1a_of_the_input() {
    assert_eq!(derive_seed(b""), 0xcbf2_9ce4_8422_2325);
    assert_eq!(derive_seed(b"a"), 0xaf63_dc4c_8601_ec8c);
    assert_eq!(derive_seed(b"hello"), 0xa430_d846_80aa_bd0b);
}

#[test]
fn consensus_input_tampers_are_marked_non_discriminating() {
    assert!(TamperTarget::ProofBytes.is_discriminating());
    assert!(TamperTarget::SignatureBytes.is_discriminating());
    assert!(TamperTarget::BoundMessage.is_discriminating());
    assert!(!TamperTarget::ConsensusInput.is_discriminating());
}

#[test]
fn undecodable_damage_does_not_decode() {
    let proof: [u8; 192] = [0x42; 192];
    let broken = ProofDamage::Undecodable.apply(proof);
    assert_ne!(broken, proof);
    assert_eq!(broken[2..], proof[2..]);
    assert!(
        groth16::Proof::<bls12_381::Bls12>::read(&broken[..]).is_err(),
        "Undecodable must not decode"
    );
    assert!(!zebra_batch_equivalence::adversarial::proof_decodes(&broken));
}

#[test]
fn undecodable_damage_always_applies() {
    let proof: [u8; 192] = [0x00; 192];
    let broken = ProofDamage::Undecodable.try_apply(proof).expect("always applicable");
    assert_eq!(broken[0], 0xff);
    assert_eq!(broken[1], 0xff);
    assert_eq!(broken[2..], proof[2..]);
}

#[test]
fn a_decodable_flip_differs_in_exactly_one_bit() {
    // Whatever the search finds, it is one bit away and decodes.
    let proof: [u8; 192] = [0x42; 192];
    if let Some(d) = ProofDamage::DecodableButWrong.try_apply(proof) {
        let differing: u32 = d.iter().zip(proof.iter()).map(|(a, b)| (a ^ b).count_ones()).sum();
        assert_eq!(differing, 1);
        assert!(zebra_batch_equivalence::adversarial::proof_decodes(&d));
    }
}

#[test]
fn routing_matches_production_boundaries() {
    assert_eq!(CircuitEra::from_network_upgrade(NetworkUpgrade::Nu5), CircuitEra::PreNu6_2);
    assert_eq!(CircuitEra::from_network_upgrade(NetworkUpgrade::Nu6_1), CircuitEra::PreNu6_2);
    assert_eq!(CircuitEra::from_network_upgrade(NetworkUpgrade::Nu6_2), CircuitEra::Nu6_2);
    assert_eq!(CircuitEra::from_network_upgrade(NetworkUpgrade::Nu6_3), CircuitEra::Nu6_3Onward);
}

#[test]
fn routing_by_name_covers_every_upgrade() {
    assert_eq!(CircuitEra::from_upgrade_name(UpgradeName::Genesis), CircuitEra::PreNu6_2);
    assert_eq!(CircuitEra::from_upgrade_name(UpgradeName::Canopy), CircuitEra::PreNu6_2);
    assert_eq!(CircuitEra::from_upgrade_name(UpgradeName::Nu6_1), CircuitEra::PreNu6_2);
    assert_eq!(CircuitEra::from_upgrade_name(UpgradeName::Nu6_2), CircuitEra::Nu6_2);
    assert_eq!(CircuitEra::from_upgrade_name(UpgradeName::Nu6_3), CircuitEra::Nu6_3Onward);
    assert_eq!(CircuitEra::from_upgrade_name(UpgradeName::Nu7), CircuitEra::Nu6_3Onward);
    assert_eq!(CircuitEra::from_network_upgrade(NetworkUpgrade::Nu7), CircuitEra::Nu6_3Onward);
}

#[test]
fn only_nu6_3_constrains_cross_address() {
    assert!(!CircuitEra::PreNu6_2.supports_cross_address_restriction());
    assert!(!CircuitEra::Nu6_2.supports_cross_address_restriction());
    assert!(CircuitEra::Nu6_3Onward.supports_cross_address_restriction());
}

#[test]
fn only_soundness_violations_are_critical() {
    assert!(InvariantViolation::Equivalence(EquivReport::FalseAccept).is_critical());
    assert!(!InvariantViolation::Equivalence(EquivReport::FalseReject).is_critical());
    assert!(InvariantViolation::OrderDependent { original: true, permuted: false }.is_critical());
    assert!(!InvariantViolation::DuplicateInconsistent(EquivReport::FalseReject).is_critical());
    assert!(InvariantViolation::SubBatchInconsistent { len: 2, report: EquivReport::FalseAccept }.is_critical());
    assert!(InvariantViolation::EraFailOpen {
        correct: CircuitEra::Nu6_2,
        used: CircuitEra::PreNu6_2,
        report: EquivReport::Agree(true),
    }
    .is_critical());
    assert!(!InvariantViolation::EraFailOpen {
        correct: CircuitEra::Nu6_2,
        used: CircuitEra::PreNu6_2,
        report: EquivReport::Agree(false),
    }
    .is_critical());
}

#[test]
fn a_tamper_cursor_damages_only_its_target() {
    let proof: [u8; 192] = [0x11; 192];
    let mut cursor = TamperCursor::new(1, ProofDamage::Undecodable);
    assert_eq!(cursor.next_spend_proof(proof), proof);
    let damaged = cursor.next_spend_proof(proof);
    assert_eq!(damaged[..2], [0xff, 0xff]);
    assert_eq!(damaged[2..], proof[2..]);
    assert_eq!(cursor.next_spend_proof(proof), proof);
    assert!(!cursor.failed());
}

#[test]
fn a_decodable_damage_that_cannot_be_made_marks_the_cursor() {
    let proof: [u8; 192] = [0x42; 192];
    let mut cursor = TamperCursor::new(0, ProofDamage::DecodableButWrong);
    let out = cursor.next_spend_proof(proof);
    match ProofDamage::DecodableButWrong.try_apply(proof) {
        Some(d) => {
            assert_eq!(out, d);
            assert!(!cursor.failed());
        }
        None => {
            assert_eq!(out, proof);
            assert!(cursor.failed());
        }
    }
}
