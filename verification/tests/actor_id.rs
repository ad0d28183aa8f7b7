//! Actor identifier derivation, parsing, validation and binding.

use aoxcore::identity::actor_id::generate_actor_id;
use aoxcore::identity::actor_id::generate_and_validate_actor_id;
use aoxcore::identity::actor_id::parse_actor_id;
use aoxcore::identity::actor_id::validate_actor_id;
use aoxcore::identity::actor_id::verify_actor_id_binding;
use aoxcore::identity::actor_id::ActorIdError;
use aoxcore::identity::actor_id::AOXC_PREFIX;
use aoxcore::identity::actor_id::CHECKSUM_LEN;
use aoxcore::identity::actor_id::ROLE_LEN;
use aoxcore::identity::actor_id::SERIAL_HEX_LEN;
use aoxcore::identity::actor_id::ZONE_LEN;
use rand::rngs::StdRng;
use rand::RngCore;
use rand::SeedableRng;


fn sample_pubkey() -> Vec<u8> {
    vec![0x11; 32]
}

#[test]
fn actor_id_actor_id_generation_is_deterministic() {
    let pk = sample_pubkey();

    let a = generate_actor_id(&pk, "val", "eu").expect("actor id generation must succeed");
    let b = generate_actor_id(&pk, "VAL", "EU").expect("actor id generation must succeed");

    assert_eq!(a, b);
}

#[test]
fn actor_id_actor_id_contains_expected_structure() {
    let pk = sample_pubkey();
    let actor_id = generate_actor_id(&pk, "validator", "europe")
        .expect("actor id generation must succeed");

    let parts: Vec<&str> = actor_id.split('-').collect();
    assert_eq!(parts.len(), 5);
    assert_eq!(parts[0], AOXC_PREFIX);
    assert_eq!(parts[1].len(), ROLE_LEN);
    assert_eq!(parts[2].len(), ZONE_LEN);
    assert_eq!(parts[3].len(), SERIAL_HEX_LEN);
    assert_eq!(parts[4].len(), CHECKSUM_LEN);
}

#[test]
fn actor_id_actor_id_validation_accepts_valid_identifier() {
    let pk = sample_pubkey();
    let actor_id =
        generate_actor_id(&pk, "VAL", "EU").expect("actor id generation must succeed");

    assert_eq!(validate_actor_id(&actor_id), Ok(()));
}

#[test]
fn actor_id_actor_id_validation_rejects_checksum_mismatch() {
    let pk = sample_pubkey();
    let mut actor_id =
        generate_actor_id(&pk, "VAL", "EU").expect("actor id generation must succeed");

    actor_id.pop();
    actor_id.push('Z');

    assert_eq!(
        validate_actor_id(&actor_id),
        Err(ActorIdError::ChecksumMismatch)
    );
}

#[test]
fn actor_id_actor_id_binding_verification_accepts_matching_inputs() {
    let pk = sample_pubkey();
    let actor_id =
        generate_actor_id(&pk, "VAL", "EU").expect("actor id generation must succeed");

    assert_eq!(verify_actor_id_binding(&actor_id, &pk, "VAL", "EU"), Ok(()));
}

#[test]
fn actor_id_actor_id_binding_verification_rejects_wrong_zone() {
    let pk = sample_pubkey();
    let actor_id =
        generate_actor_id(&pk, "VAL", "EU").expect("actor id generation must succeed");

    assert_eq!(
        verify_actor_id_binding(&actor_id, &pk, "VAL", "NA"),
        Err(ActorIdError::DerivationMismatch)
    );
}

#[test]
fn actor_id_empty_public_key_is_rejected() {
    assert_eq!(
        generate_actor_id(&[], "VAL", "EU"),
        Err(ActorIdError::EmptyPublicKey)
    );
}

#[test]
fn actor_id_parse_actor_id_extracts_components() {
    let pk = sample_pubkey();
    let actor_id =
        generate_actor_id(&pk, "VAL", "EU").expect("actor id generation must succeed");

    let parsed = parse_actor_id(&actor_id).expect("actor id parsing must succeed");
    assert_eq!(parsed.prefix, "AOXC");
    assert_eq!(parsed.role, "VAL");
    assert_eq!(parsed.zone, "EU");
    assert_eq!(parsed.serial.len(), SERIAL_HEX_LEN);
    assert_eq!(parsed.checksum.len(), CHECKSUM_LEN);
}

#[test]
fn normalization_pads_short_components() {
    let pk = sample_pubkey();
    let actor_id = generate_actor_id(&pk, "v", "e").expect("actor id generation must succeed");

    let parsed = parse_actor_id(&actor_id).expect("actor id parsing must succeed");
    assert_eq!(parsed.role, "VXX");
    assert_eq!(parsed.zone, "EX");
}

#[test]
fn generation_rejects_fully_invalid_role() {
    let pk = sample_pubkey();
    assert_eq!(
        generate_actor_id(&pk, "!!!", "EU"),
        Err(ActorIdError::InvalidRole)
    );
}

#[test]
fn validation_rejects_invalid_prefix() {
    let actor_id = "NOPE-VAL-EU-3F7A9C21D4E8B7AA-K9";
    assert_eq!(
        validate_actor_id(actor_id),
        Err(ActorIdError::InvalidPrefix)
    );
}

#[test]
fn actor_id_generate_and_validate_actor_id_matches_validation_path() {
    let pk = sample_pubkey();
    let actor_id =
        generate_and_validate_actor_id(&pk, "validator", "europe").expect("must succeed");

    assert_eq!(validate_actor_id(&actor_id), Ok(()));
}

#[test]
fn actor_id_parse_rejects_whitespace_only_identifier() {
    assert_eq!(parse_actor_id("   "), Err(ActorIdError::EmptyActorId));
}

#[test]
fn actor_id_parse_rejects_structural_component_count_mismatch() {
    assert_eq!(
        parse_actor_id("AOXC-VAL-EU-ABCD"),
        Err(ActorIdError::InvalidFormat)
    );
}

#[test]
fn actor_id_validation_rejects_invalid_serial_lengths_and_characters() {
    let pk = sample_pubkey();
    let valid = generate_actor_id(&pk, "VAL", "EU").expect("must succeed");
    let mut parts: Vec<&str> = valid.split('-').collect();

    parts[3] = "ABC";
    let bad_len = parts.join("-");
    assert_eq!(
        validate_actor_id(&bad_len),
        Err(ActorIdError::InvalidSerial)
    );

    parts[3] = "ZZZZZZZZZZZZZZZZZZZZZZZZ";
    let bad_chars = parts.join("-");
    assert_eq!(
        validate_actor_id(&bad_chars),
        Err(ActorIdError::InvalidSerial)
    );
}

#[test]
fn actor_id_validation_rejects_invalid_checksum_symbols() {
    let pk = sample_pubkey();
    let valid = generate_actor_id(&pk, "VAL", "EU").expect("must succeed");
    let mut parts: Vec<&str> = valid.split('-').collect();
    parts[4] = "IO";
    let actor_id = parts.join("-");
    assert_eq!(
        validate_actor_id(&actor_id),
        Err(ActorIdError::InvalidChecksum)
    );
}

#[test]
fn binding_verification_rejects_role_mismatch() {
    let pk = sample_pubkey();
    let actor_id =
        generate_actor_id(&pk, "VAL", "EU").expect("actor id generation must succeed");

    assert_eq!(
        verify_actor_id_binding(&actor_id, &pk, "OBS", "EU"),
        Err(ActorIdError::DerivationMismatch)
    );
}

#[test]
fn deterministic_randomized_actor_id_regression_stress() {
    let mut rng = StdRng::seed_from_u64(0xA0C1_D1D5_u64);

    for _ in 0..1_000 {
        let mut pubkey = [0u8; 32];
        rng.fill_bytes(&mut pubkey);
        if pubkey.iter().all(|b| *b == 0) {
            pubkey[0] = 1;
        }

        let role = if (rng.next_u32() & 1) == 0 {
            "validator"
        } else {
            "observer"
        };
        let zone = if (rng.next_u32() & 1) == 0 {
            "eu"
        } else {
            "na"
        };

        let a = generate_actor_id(&pubkey, role, zone).expect("must succeed");
        let b = generate_actor_id(&pubkey, role, zone).expect("must succeed");

        assert_eq!(a, b);
        assert_eq!(validate_actor_id(&a), Ok(()));
        assert_eq!(verify_actor_id_binding(&a, &pubkey, role, zone), Ok(()));
    }
}

#[test]
fn validate_rejects_invalid_role_and_zone_lengths() {
    let pk = sample_pubkey();
    let valid = generate_actor_id(&pk, "VAL", "EU").expect("must succeed");
    let mut parts: Vec<&str> = valid.split('-').collect();

    parts[1] = "VA";
    let short_role = parts.join("-");
    assert_eq!(
        validate_actor_id(&short_role),
        Err(ActorIdError::InvalidRole)
    );

    parts[1] = "VAL";
    parts[2] = "E";
    let short_zone = parts.join("-");
    assert_eq!(
        validate_actor_id(&short_zone),
        Err(ActorIdError::InvalidZone)
    );
}

#[test]
fn validate_rejects_non_alphanumeric_role_zone_symbols() {
    let pk = sample_pubkey();
    let valid = generate_actor_id(&pk, "VAL", "EU").expect("must succeed");
    let mut parts: Vec<&str> = valid.split('-').collect();

    parts[1] = "V*L";
    let bad_role = parts.join("-");
    assert_eq!(
        validate_actor_id(&bad_role),
        Err(ActorIdError::InvalidCharacter)
    );

    parts[1] = "VAL";
    parts[2] = "E*";
    let bad_zone = parts.join("-");
    assert_eq!(
        validate_actor_id(&bad_zone),
        Err(ActorIdError::InvalidCharacter)
    );
}

#[test]
fn parse_and_validate_accept_mixed_case_inputs() {
    let pk = sample_pubkey();
    let canonical = generate_actor_id(&pk, "VAL", "EU").expect("must succeed");
    let mixed = canonical.to_ascii_lowercase();

    let parsed = parse_actor_id(&mixed).expect("parse should normalize");
    assert_eq!(parsed.prefix, AOXC_PREFIX);
    assert_eq!(validate_actor_id(&mixed), Ok(()));
}

#[test]
fn validate_detects_checksum_mismatch_for_every_checksum_mutation() {
    let pk = sample_pubkey();
    let valid = generate_actor_id(&pk, "VAL", "EU").expect("must succeed");
    let parts: Vec<&str> = valid.split('-').collect();
    let checksum = parts[4];
    let alphabet = "ABCDEFGHJKLMNPQRSTUVWXYZ23456789".chars();

    for i in 0..checksum.len() {
        for ch in alphabet.clone() {
            if checksum.chars().nth(i).unwrap() == ch {
                continue;
            }

            let mut mutated_checksum: Vec<char> = checksum.chars().collect();
            mutated_checksum[i] = ch;
            let candidate = format!(
                "{}-{}-{}-{}-{}",
                parts[0],
                parts[1],
                parts[2],
                parts[3],
                mutated_checksum.iter().collect::<String>()
            );
            assert_eq!(
                validate_actor_id(&candidate),
                Err(ActorIdError::ChecksumMismatch)
            );
        }
    }
}

#[test]
fn parse_rejects_non_ascii_or_space_symbols() {
    assert_eq!(
        parse_actor_id("AOXC-VAL-EU-ABC DEF-K9"),
        Err(ActorIdError::InvalidCharacter)
    );
    assert_eq!(
        parse_actor_id("AOXC-VAL-EU-ABCDEF🙂-K9"),
        Err(ActorIdError::InvalidCharacter)
    );
}
