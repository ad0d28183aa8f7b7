//! Hierarchical derivation paths: construction, text form, parsing, stepping.

use aoxcore::identity::hd_path::HdPath;
use aoxcore::identity::hd_path::HdPathError;
use aoxcore::identity::hd_path::HARDENED_OFFSET;
use aoxcore::identity::hd_path::MAX_HD_INDEX;
use rand::rngs::StdRng;
use rand::RngCore;
use rand::SeedableRng;

#[test]
fn hd_path_creation() {
    let path = HdPath::new(1, 2, 3, 0).unwrap();
    assert_eq!(path.chain, 1);
    assert_eq!(path.role, 2);
    assert_eq!(path.zone, 3);
    assert_eq!(path.index, 0);
}

#[test]
fn hd_path_string() {
    let path = HdPath::new(1, 2, 3, 4).unwrap();
    assert_eq!(path.to_string(), "m/44/2626/1/2/3/4");
}

#[test]
fn hd_path_parse() {
    let path: HdPath = "m/44/2626/1/2/3/4".parse().unwrap();
    assert_eq!(path.index, 4);
}

#[test]
fn hd_path_next() {
    let path = HdPath::new(1, 1, 1, 0).unwrap();
    let next = path.next().unwrap();
    assert_eq!(next.index, 1);
}

#[test]
fn hd_path_next_n() {
    let path = HdPath::new(1, 1, 1, 5).unwrap();
    let next = path.next_n(10).unwrap();
    assert_eq!(next.index, 15);
}

#[test]
fn hardened_index_projection_sets_hardened_bit() {
    let path = HdPath::new(1, 1, 1, 0).unwrap();
    assert_eq!(path.hardened_index(), HARDENED_OFFSET);
}

#[test]
fn canonical_paths_are_unhardened() {
    let path = HdPath::new(1, 1, 1, 0).unwrap();
    assert!(!path.is_hardened());
    assert!(path.is_canonical_unhardened());
}

#[test]
fn new_rejects_out_of_range_index() {
    assert_eq!(
        HdPath::new(1, 1, 1, MAX_HD_INDEX + 1),
        Err(HdPathError::IndexOverflow)
    );
}

#[test]
fn new_rejects_out_of_range_variable_components() {
    assert_eq!(
        HdPath::new(MAX_HD_INDEX + 1, 1, 1, 1),
        Err(HdPathError::ComponentOverflow)
    );
    assert_eq!(
        HdPath::new(1, MAX_HD_INDEX + 1, 1, 1),
        Err(HdPathError::ComponentOverflow)
    );
    assert_eq!(
        HdPath::new(1, 1, MAX_HD_INDEX + 1, 1),
        Err(HdPathError::ComponentOverflow)
    );
}

#[test]
fn parse_rejects_invalid_shapes_and_prefixes() {
    assert_eq!("".parse::<HdPath>(), Err(HdPathError::EmptyInput));
    assert_eq!("   ".parse::<HdPath>(), Err(HdPathError::EmptyInput));
    assert_eq!(
        "m/44/2626/1/2/3".parse::<HdPath>(),
        Err(HdPathError::InvalidFormat)
    );
    assert_eq!(
        "root/44/2626/1/2/3/4".parse::<HdPath>(),
        Err(HdPathError::InvalidFormat)
    );
}

#[test]
fn parse_rejects_surrounding_whitespace() {
    assert_eq!(
        " m/44/2626/1/2/3/4 ".parse::<HdPath>(),
        Err(HdPathError::InvalidFormat)
    );
}

#[test]
fn parse_rejects_wrong_purpose_values() {
    assert_eq!(
        "m/43/2626/1/2/3/4".parse::<HdPath>(),
        Err(HdPathError::InvalidPurpose)
    );
    assert_eq!(
        "m/44/9999/1/2/3/4".parse::<HdPath>(),
        Err(HdPathError::InvalidPurpose)
    );
}

#[test]
fn parse_rejects_non_numeric_components() {
    assert_eq!(
        "m/44/2626/x/2/3/4".parse::<HdPath>(),
        Err(HdPathError::InvalidComponent)
    );
    assert_eq!(
        "m/44/2626/1/x/3/4".parse::<HdPath>(),
        Err(HdPathError::InvalidComponent)
    );
    assert_eq!(
        "m/44/2626/1/2/x/4".parse::<HdPath>(),
        Err(HdPathError::InvalidComponent)
    );
    assert_eq!(
        "m/44/2626/1/2/3/x".parse::<HdPath>(),
        Err(HdPathError::InvalidComponent)
    );
}

#[test]
fn parse_rejects_component_overflow() {
    let overflow_path = format!("m/44/2626/{}/2/3/4", MAX_HD_INDEX + 1);
    assert_eq!(
        overflow_path.parse::<HdPath>(),
        Err(HdPathError::ComponentOverflow)
    );
}

#[test]
fn parse_rejects_index_overflow() {
    let overflow_path = format!("m/44/2626/1/2/3/{}", MAX_HD_INDEX + 1);
    assert_eq!(
        overflow_path.parse::<HdPath>(),
        Err(HdPathError::IndexOverflow)
    );
}

#[test]
fn next_rejects_max_index() {
    let path = HdPath::new(10, 20, 30, MAX_HD_INDEX).unwrap();
    assert_eq!(path.next(), Err(HdPathError::IndexOverflow));
}

#[test]
fn next_n_rejects_overflow() {
    let path = HdPath::new(1, 1, 1, MAX_HD_INDEX - 1).unwrap();
    assert_eq!(path.next_n(2), Err(HdPathError::IndexOverflow));
}

#[test]
fn randomized_roundtrip_stress_for_canonical_paths() {
    let mut rng = StdRng::seed_from_u64(0xA0C0_2026_u64);

    for _ in 0..2_000 {
        let chain = rng.next_u32() & MAX_HD_INDEX;
        let role = rng.next_u32() & MAX_HD_INDEX;
        let zone = rng.next_u32() & MAX_HD_INDEX;
        let index = rng.next_u32() & MAX_HD_INDEX;

        let original = HdPath::new(chain, role, zone, index).unwrap();
        let serialized = original.to_string();
        let parsed: HdPath = serialized.parse().unwrap();

        assert_eq!(parsed, original);
    }
}

#[test]
fn hd_path_error_codes_are_stable() {
    assert_eq!(HdPathError::EmptyInput.code(), "HD_PATH_EMPTY_INPUT");
    assert_eq!(HdPathError::InvalidFormat.code(), "HD_PATH_INVALID_FORMAT");
    assert_eq!(HdPathError::InvalidPurpose.code(), "HD_PATH_INVALID_PURPOSE");
    assert_eq!(HdPathError::InvalidComponent.code(), "HD_PATH_INVALID_COMPONENT");
    assert_eq!(HdPathError::ComponentOverflow.code(), "HD_PATH_COMPONENT_OVERFLOW");
    assert_eq!(HdPathError::IndexOverflow.code(), "HD_PATH_INDEX_OVERFLOW");
}
