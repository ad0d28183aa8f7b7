//! Identity layer: actor identities, quorum evaluation, certificates,
//! registries, revocation, seeds and key derivation.

pub mod actor_id;
pub mod ca;
pub mod certificate;
pub mod ed25519_keys;
pub mod gate;
pub mod handshake;
pub mod hd_path;
pub mod hexa_quorum;
pub mod key_engine;
pub mod mnemonic;
pub mod passport;
pub mod pq_keys;
pub mod registry;
pub mod revocation;
pub mod seed;
pub mod threshold_sig;
pub mod zkp_engine;

pub use ed25519_keys::AOXC_ED25519_PUBLIC_KEY_LEN;
pub use ed25519_keys::AOXC_ED25519_SEED_LEN;
pub use ed25519_keys::derive_ed25519_seed;
pub use ed25519_keys::derive_ed25519_signing_key;
pub use ed25519_keys::Ed25519SigningKey;
pub use ed25519_keys::derive_ed25519_verifying_key;
pub use ed25519_keys::Ed25519PublicKey;
pub use ed25519_keys::encode_ed25519_public_key_hex;
pub use ed25519_keys::fingerprint_ed25519_public_key;

pub use key_engine::AOXC_HD_BIP44_PURPOSE;
pub use key_engine::AOXC_HD_PURPOSE;
pub use key_engine::DERIVED_ENTROPY_LEN;
pub use key_engine::KeyEngine;
pub use key_engine::KeyEngineError;
pub use key_engine::MASTER_SEED_LEN;
pub use key_engine::ROLE_SEED_LEN;
pub use key_engine::derive_role_seed_from_material;

pub use seed::AOXC_SEED_VERSION;
pub use seed::GeneratedSeed;
pub use seed::RECOVERY_SEED_LEN;
pub use seed::SEED_FINGERPRINT_LEN;
pub use seed::SeedError;
pub use seed::SeedKind;
pub use seed::SeedMetadata;
pub use seed::generate_seed;
pub use seed::generate_seed_with_additional_entropy;

pub use mnemonic::AOXC_MNEMONIC_LANGUAGE;
pub use mnemonic::AOXC_MNEMONIC_VERSION;
pub use mnemonic::AOXC_MNEMONIC_WORD_COUNT;
pub use mnemonic::MnemonicBackup;
pub use mnemonic::MnemonicError;
pub use mnemonic::MnemonicMetadata;
pub use mnemonic::encode_recovery_seed_as_phrase;
pub use mnemonic::generate_seed_and_mnemonic;
pub use mnemonic::generate_seed_and_mnemonic_with_additional_entropy;
pub use mnemonic::restore_seed_from_phrase;
