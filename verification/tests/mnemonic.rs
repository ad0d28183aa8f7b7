//! Mnemonic backups of recovery seeds: generation, restoration, validation.

use aoxcore::identity::mnemonic::generate_seed_and_mnemonic;
use aoxcore::identity::mnemonic::restore_seed_from_phrase;
use aoxcore::identity::mnemonic::MnemonicBackup;
use aoxcore::identity::mnemonic::MnemonicError;
use aoxcore::identity::mnemonic::AOXC_MNEMONIC_WORD_COUNT;
use aoxcore::identity::seed::SeedKind;
use aoxcore::identity::seed::SEED_FINGERPRINT_LEN;

#[test]
fn generated_mnemonic_is_24_words() {
    let (_seed, mnemonic) =
        generate_seed_and_mnemonic(SeedKind::WalletRoot).expect("generation must succeed");

    assert_eq!(
        mnemonic.phrase().split(' ').count(),
        AOXC_MNEMONIC_WORD_COUNT
    );
    assert_eq!(mnemonic.metadata().word_count as usize, AOXC_MNEMONIC_WORD_COUNT);
}

#[test]
fn mnemonic_restore_roundtrip_is_deterministic() {
    let (seed, mnemonic) =
        generate_seed_and_mnemonic(SeedKind::WalletRoot).expect("generation must succeed");

    let restored = mnemonic.restore_seed().expect("restore must succeed");

    assert_eq!(seed.recovery_seed(), restored.recovery_seed());
    assert_eq!(seed.master_seed(), restored.master_seed());
    assert_eq!(seed.metadata().fingerprint, restored.metadata().fingerprint);
}

#[test]
fn from_phrase_rebuilds_canonical_backup() {
    let (_seed, mnemonic) =
        generate_seed_and_mnemonic(SeedKind::NodeRoot).expect("generation must succeed");

    let rebuilt = MnemonicBackup::from_phrase(SeedKind::NodeRoot, mnemonic.phrase())
        .expect("canonical rebuild must succeed");

    assert_eq!(mnemonic.phrase(), rebuilt.phrase());
    assert_eq!(mnemonic.metadata(), rebuilt.metadata());
}

#[test]
fn invalid_phrase_word_count_is_rejected() {
    let phrase = "abandon abandon abandon abandon abandon abandon abandon abandon abandon abandon abandon abandon";
    let error = restore_seed_from_phrase(SeedKind::WalletRoot, phrase)
        .err().expect("restore must fail");

    assert_eq!(error, MnemonicError::InvalidWordCount);
}

#[test]
fn invalid_phrase_surface_is_rejected() {
    let phrase = " abandon abandon abandon abandon abandon abandon abandon abandon abandon abandon abandon abandon abandon abandon abandon abandon abandon abandon abandon abandon abandon abandon abandon abandon ";
    let error = restore_seed_from_phrase(SeedKind::WalletRoot, phrase)
        .err().expect("restore must fail");

    assert_eq!(error, MnemonicError::InvalidPhrase);
}

#[test]
fn mnemonic_validation_detects_tampering() {
    let (_seed, mnemonic) =
        generate_seed_and_mnemonic(SeedKind::WalletRoot).expect("generation must succeed");

    let tampered = MnemonicBackup::from_parts(
        mnemonic.metadata().clone(),
        "abandon abandon abandon abandon abandon abandon abandon abandon abandon abandon abandon abandon abandon abandon abandon abandon abandon abandon abandon abandon abandon abandon abandon art".to_string(),
    );

    let error = tampered.validate().err().expect("validation must fail");
    assert!(
        matches!(
            error,
            MnemonicError::InvalidPhrase
                | MnemonicError::FingerprintMismatch
                | MnemonicError::InvalidEntropyLength
        ),
        "unexpected mnemonic validation error: {error:?}"
    );
}

#[test]
fn different_seed_kinds_restore_to_different_master_seeds() {
    let (wallet_seed, mnemonic) =
        generate_seed_and_mnemonic(SeedKind::WalletRoot).expect("generation must succeed");

    let node_seed = restore_seed_from_phrase(SeedKind::NodeRoot, mnemonic.phrase())
        .expect("restore must succeed");

    assert_eq!(wallet_seed.recovery_seed(), node_seed.recovery_seed());
    assert_ne!(wallet_seed.master_seed(), node_seed.master_seed());
    assert_ne!(wallet_seed.metadata().fingerprint, node_seed.metadata().fingerprint);
}

#[test]
fn fingerprint_length_matches_seed_policy() {
    let (_seed, mnemonic) =
        generate_seed_and_mnemonic(SeedKind::WalletRoot).expect("generation must succeed");

    assert_eq!(mnemonic.metadata().fingerprint.len(), SEED_FINGERPRINT_LEN * 2);
}
