//! Block-level vocabulary shared by transactions and accounts: the
//! capability a transaction or account carries and the outpost a
//! transaction targets.

use vstd::prelude::*;

verus! {

/// The capability under which a transaction is executed or an account acts.
#[derive(Debug, Clone, Copy, PartialEq, Eq, Structural)]
pub enum Capability {
    User,
    UserSigned,
}

impl Capability {
    pub open spec fn code_value(self) -> u8 {
        match self {
            Capability::User => 1,
            Capability::UserSigned => 2,
        }
    }

    /// The capability's wire code.
    pub fn code(&self) -> (r: u8)
        ensures
            r == self.code_value(),
    {
        match self {
            Capability::User => 1,
            Capability::UserSigned => 2,
        }
    }

    pub open spec fn name(self) -> Seq<char> {
        match self {
            Capability::User => "User"@,
            Capability::UserSigned => "UserSigned"@,
        }
    }

    /// The capability's name.
    pub fn as_str(&self) -> (r: &'static str)
        ensures
            r@ == self.name(),
    {
        match self {
            Capability::User => "User",
            Capability::UserSigned => "UserSigned",
        }
    }
}

/// The outpost a transaction is addressed to.
#[derive(Debug, Clone, Copy, PartialEq, Eq, Structural)]
pub enum TargetOutpost {
    EthMainnetGateway,
}

impl TargetOutpost {
    pub open spec fn code_value(self) -> u16 {
        match self {
            TargetOutpost::EthMainnetGateway => 1,
        }
    }

    /// The outpost's wire code.
    pub fn code(&self) -> (r: u16)
        ensures
            r == self.code_value(),
    {
        match self {
            TargetOutpost::EthMainnetGateway => 1,
        }
    }
}

} // verus!
