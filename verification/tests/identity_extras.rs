//! Further identity scenarios: seed generation entry points, stored
//! mnemonic backups and error texts.

use aoxcore::identity::hd_path::HdPathError;
use aoxcore::identity::mnemonic::generate_seed_and_mnemonic;
use aoxcore::identity::mnemonic::MnemonicBackup;
use aoxcore::identity::mnemonic::MnemonicError;
use aoxcore::identity::seed::GeneratedSeed;
use aoxcore::identity::seed::SeedError;
use aoxcore::identity::seed::SeedKind;
use aoxcore::identity::seed::RECOVERY_SEED_LEN;
use aoxcore::identity::zkp_engine::ZkpError;
use aoxcore::version::CoreIdentityError;

#[test]
fn generated_seed_entry_points_produce_restorable_seeds() {
    let seed = GeneratedSeed::generate(SeedKind::NodeRoot).expect("generation must succeed");
    let restored =
        GeneratedSeed::from_recovery_seed_at(SeedKind::NodeRoot, *seed.recovery_seed(), 5).unwrap();
    assert_eq!(seed.master_seed(), restored.master_seed());
    assert_eq!(seed.metadata().fingerprint, restored.metadata().fingerprint);

    let mixed = GeneratedSeed::generate_with_additional_entropy(SeedKind::NodeRoot, b"dice")
        .expect("generation must succeed");
    assert_eq!(mixed.recovery_seed().len(), RECOVERY_SEED_LEN);

    let refused = GeneratedSeed::generate_with_additional_entropy(SeedKind::NodeRoot, b"");
    assert_eq!(refused.err(), Some(SeedError::InvalidAdditionalEntropy));
}

#[test]
fn recovery_seed_bytes_must_have_the_right_length() {
    let refused = GeneratedSeed::from_recovery_seed_bytes(SeedKind::WalletRoot, &[1u8; 31]);
    assert_eq!(refused.err(), Some(SeedError::InvalidRecoverySeedLength));

    let accepted = GeneratedSeed::from_recovery_seed_bytes(SeedKind::WalletRoot, &[1u8; 32]);
    assert!(accepted.is_ok());
}

#[test]
fn stored_backup_parts_validate_when_genuine() {
    let (_seed, backup) = generate_seed_and_mnemonic(SeedKind::WalletRoot).unwrap();
    let stored = MnemonicBackup::from_parts(backup.metadata().clone(), backup.phrase().to_string());
    assert_eq!(stored.validate(), Ok(()));

    let mut metadata = backup.metadata().clone();
    metadata.word_count = 12;
    let wrong_count = MnemonicBackup::from_parts(metadata, backup.phrase().to_string());
    assert_eq!(wrong_count.validate(), Err(MnemonicError::InvalidWordCount));

    let mut metadata = backup.metadata().clone();
    metadata.fingerprint = "00".repeat(8);
    let wrong_fingerprint = MnemonicBackup::from_parts(metadata, backup.phrase().to_string());
    assert_eq!(wrong_fingerprint.validate(), Err(MnemonicError::FingerprintMismatch));
}

#[test]
fn error_texts_are_stable() {
    assert_eq!(
        CoreIdentityError::InvalidName.message(),
        "core identity validation failed: canonical name is invalid"
    );
    assert_eq!(HdPathError::InvalidPurpose.code(), "HD_PATH_INVALID_PURPOSE");
    assert_eq!(ZkpError::BackendRejected.code(), "ZKP_BACKEND_REJECTED");
    assert_eq!(SeedError::InvalidAdditionalEntropy.code(), "SEED_INVALID_ADDITIONAL_ENTROPY");
}
