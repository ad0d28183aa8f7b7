//! Minimal threshold-signature quorum check: every partial names a signer
//! and carries signature bytes, and enough distinct signers took part.

pub mod session;

use vstd::prelude::*;

use crate::text::chars_of;
use crate::text::distinct_count;
use crate::text::is_blank;
use crate::text::is_first_occurrence;
use crate::text::distinct_upto;
use crate::text::lemma_distinct_upto_le;
use crate::text::str_to_string;
use crate::text::trim;

verus! {

/// A signer's contribution.
#[derive(Debug, Clone, PartialEq, Eq)]
pub struct PartialSignature {
    pub signer_id: String,
    pub signature: Vec<u8>,
}

/// Minimum number of distinct signers.
#[derive(Debug, Clone, PartialEq, Eq, Structural)]
pub struct ThresholdPolicy {
    pub min_signers: usize,
}

impl ThresholdPolicy {
    pub fn new(min_signers: usize) -> (r: Self)
        ensures
            r.min_signers == min_signers,
    {
        ThresholdPolicy { min_signers }
    }
}

pub open spec fn signer_names(ps: Seq<PartialSignature>) -> Seq<Seq<char>> {
    ps.map_values(|p: PartialSignature| p.signer_id@)
}

/// The error code reported for a set of partials, if any.
pub open spec fn threshold_problem(policy: ThresholdPolicy, ps: Seq<PartialSignature>) -> Option<Seq<char>> {
    if policy.min_signers == 0 {
        Some("TSS_INVALID_POLICY"@)
    } else if exists|i: int|
        0 <= i < ps.len() && (trim(#[trigger] ps[i].signer_id@).len() == 0 || ps[i].signature@.len()
            == 0) {
        Some("TSS_INVALID_PARTIAL_SIGNATURE"@)
    } else if distinct_count(signer_names(ps)) < policy.min_signers {
        Some("TSS_QUORUM_NOT_REACHED"@)
    } else {
        None
    }
}

/// Checks the policy, every partial, and the number of distinct signers.
pub fn verify_threshold_signatures(policy: &ThresholdPolicy, partials: &[PartialSignature]) -> (r:
    Result<(), String>)
    ensures
        match r {
            Ok(()) => threshold_problem(*policy, partials@) is None,
            Err(code) => threshold_problem(*policy, partials@) == Some(code@),
        },
{
    if policy.min_signers == 0 {
        return Err(str_to_string("TSS_INVALID_POLICY"));
    }
    let ghost names = signer_names(partials@);
    let n = partials.len();
    let mut distinct: usize = 0;
    let mut i: usize = 0;
    while i < n
        invariant
            n == partials@.len(),
            names == signer_names(partials@),
            policy.min_signers > 0,
            i <= n,
            forall|k: int|
                0 <= k < i ==> !(trim(#[trigger] partials@[k].signer_id@).len() == 0
                    || partials@[k].signature@.len() == 0),
            distinct == distinct_upto(names, i as int),
        decreases n - i,
    {
        let p = &partials[i];
        let cs = chars_of(p.signer_id.as_str());
        if is_blank(&cs) || p.signature.len() == 0 {
            assert(trim(partials@[i as int].signer_id@).len() == 0
                || partials@[i as int].signature@.len() == 0);
            return Err(str_to_string("TSS_INVALID_PARTIAL_SIGNATURE"));
        }
        let ghost passed = !(trim(partials@[i as int].signer_id@).len() == 0
            || partials@[i as int].signature@.len() == 0);
        assert(passed);
        proof {
            lemma_distinct_upto_le(names, i as int);
        }
        let mut first = true;
        let mut j: usize = 0;
        while j < i
            invariant
                n == partials@.len(),
                names == signer_names(partials@),
                i < n,
                j <= i,
                first == (forall|k: int| 0 <= k < j ==> #[trigger] names[k] != names[i as int]),
            decreases i - j,
        {
            if partials[j].signer_id == partials[i].signer_id {
                assert(names[j as int] == names[i as int]);
                first = false;
            }
            j += 1;
        }
        if first {
            distinct = distinct + 1;
        }
        assert(passed);
        assert(!(trim(partials@[i as int].signer_id@).len() == 0
            || partials@[i as int].signature@.len() == 0));
        i += 1;
    }
    if distinct < policy.min_signers {
        return Err(str_to_string("TSS_QUORUM_NOT_REACHED"));
    }
    Ok(())
}

} // verus!
