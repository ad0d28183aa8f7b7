//! Seed lifecycle: generation, recovery-seed restoration and key-engine use.

use aoxcore::identity::key_engine::MASTER_SEED_LEN;
use aoxcore::identity::seed::generate_seed;
use aoxcore::identity::seed::generate_seed_with_additional_entropy;
use aoxcore::identity::seed::GeneratedSeed;
use aoxcore::identity::seed::SeedError;
use aoxcore::identity::seed::SeedKind;
use aoxcore::identity::seed::RECOVERY_SEED_LEN;
use aoxcore::identity::seed::SEED_FINGERPRINT_LEN;

#[test]
fn generated_seed_has_expected_lengths() {
    let seed = generate_seed(SeedKind::WalletRoot).expect("seed generation must succeed");

    assert_eq!(seed.recovery_seed().len(), RECOVERY_SEED_LEN);
    assert_eq!(seed.master_seed().len(), MASTER_SEED_LEN);
    assert_eq!(seed.recovery_seed_hex().len(), RECOVERY_SEED_LEN * 2);
    assert_eq!(seed.metadata().fingerprint.len(), SEED_FINGERPRINT_LEN * 2);
}

#[test]
fn recovery_seed_restore_is_deterministic() {
    let original = generate_seed(SeedKind::WalletRoot).expect("seed generation must succeed");
    let restored =
        GeneratedSeed::from_recovery_seed(SeedKind::WalletRoot, *original.recovery_seed())
            .expect("seed restore must succeed");

    assert_eq!(original.recovery_seed(), restored.recovery_seed());
    assert_eq!(original.master_seed(), restored.master_seed());
    assert_eq!(
        original.metadata().fingerprint,
        restored.metadata().fingerprint
    );
}

#[test]
fn recovery_seed_hex_restore_is_deterministic() {
    let original = generate_seed(SeedKind::WalletRoot).expect("seed generation must succeed");
    let encoded = original.recovery_seed_hex();

    let restored = GeneratedSeed::from_recovery_seed_hex(SeedKind::WalletRoot, &encoded)
        .expect("seed restore must succeed");

    assert_eq!(original.master_seed(), restored.master_seed());
}

#[test]
fn different_seed_kinds_produce_different_master_seeds_from_same_recovery_seed() {
    let recovery_seed = [0x11; RECOVERY_SEED_LEN];

    let wallet = GeneratedSeed::from_recovery_seed_at(SeedKind::WalletRoot, recovery_seed, 1)
        .expect("wallet seed restore must succeed");
    let node = GeneratedSeed::from_recovery_seed_at(SeedKind::NodeRoot, recovery_seed, 1)
        .expect("node seed restore must succeed");

    assert_ne!(wallet.master_seed(), node.master_seed());
    assert_ne!(wallet.metadata().fingerprint, node.metadata().fingerprint);
}

#[test]
fn additional_entropy_changes_the_output() {
    let a = generate_seed_with_additional_entropy(SeedKind::WalletRoot, b"dice-roll-entropy-A")
        .expect("seed generation must succeed");

    let b = generate_seed_with_additional_entropy(SeedKind::WalletRoot, b"dice-roll-entropy-B")
        .expect("seed generation must succeed");

    assert_ne!(a.recovery_seed(), b.recovery_seed());
    assert_ne!(a.master_seed(), b.master_seed());
}

#[test]
fn invalid_additional_entropy_is_rejected() {
    let error = generate_seed_with_additional_entropy(SeedKind::WalletRoot, b"")
        .err().expect("generation must fail");

    assert_eq!(error, SeedError::InvalidAdditionalEntropy);
}

#[test]
fn invalid_recovery_seed_hex_is_rejected() {
    let error = GeneratedSeed::from_recovery_seed_hex(SeedKind::WalletRoot, "ZZ_NOT_HEX")
        .err().expect("restore must fail");

    assert_eq!(error, SeedError::InvalidRecoverySeedHex);
}

#[test]
fn key_engine_conversion_is_stable() {
    let seed = GeneratedSeed::from_recovery_seed_at(
        SeedKind::WalletRoot,
        [0x22; RECOVERY_SEED_LEN],
        1,
    )
    .expect("seed restore must succeed");

    let engine_a = seed.to_key_engine();
    let engine_b = seed.to_key_engine();

    assert_eq!(engine_a.fingerprint(), engine_b.fingerprint());
}
