//! Threshold signature envelopes: counting distinct signers.

use aoxcore::identity::threshold_sig::verify_threshold_signatures;
use aoxcore::identity::threshold_sig::PartialSignature;
use aoxcore::identity::threshold_sig::ThresholdPolicy;


#[test]
fn threshold_sig_threshold_reached() {
    let policy = ThresholdPolicy::new(2);
    let partials = vec![
        PartialSignature {
            signer_id: "validator-1".to_string(),
            signature: vec![1, 2, 3],
        },
        PartialSignature {
            signer_id: "validator-2".to_string(),
            signature: vec![4, 5, 6],
        },
    ];

    assert!(verify_threshold_signatures(&policy, &partials).is_ok());
}
