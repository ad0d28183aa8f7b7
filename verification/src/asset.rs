//! Asset vocabulary: how the supply of an asset may grow.

use vstd::prelude::*;

verus! {

/// The issuance model of an asset's supply.
#[derive(Debug, Clone, Copy, PartialEq, Eq, Structural)]
pub enum SupplyModel {
    /// The whole supply exists from genesis; nothing is ever minted.
    FixedGenesis,
    /// New supply is minted when governance authorizes it.
    GovernanceAuthorizedEmission,
    /// New supply is minted by a programmatic schedule.
    ProgrammaticEmission,
    /// New supply is minted when the treasury authorizes it.
    TreasuryAuthorizedEmission,
}

impl SupplyModel {
    /// Whether the model lets new supply be minted.
    pub open spec fn emits(self) -> bool {
        !(self is FixedGenesis)
    }
}

} // verus!
