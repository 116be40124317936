use vstd::prelude::*;

verus! {

/// The named protocol upgrades, oldest first. Each one switches on a set of
/// instructions and behaviours and keeps those of all that came before it.
#[derive(Clone, Copy, Debug, PartialEq, Eq, Structural)]
pub enum Upgrade {
    Frontier,
    Homestead,
    Tangerine,
    SpuriousDragon,
    Byzantium,
    Constantinople,
    Petersburg,
    Istanbul,
    Berlin,
    London,
    Merge,
    Shanghai,
    Cancun,
    Prague,
}

impl Upgrade {
    /// The place of the upgrade in the order of activation, from 0.
    pub open spec fn rank(self) -> nat {
        match self {
            Upgrade::Frontier => 0,
            Upgrade::Homestead => 1,
            Upgrade::Tangerine => 2,
            Upgrade::SpuriousDragon => 3,
            Upgrade::Byzantium => 4,
            Upgrade::Constantinople => 5,
            Upgrade::Petersburg => 6,
            Upgrade::Istanbul => 7,
            Upgrade::Berlin => 8,
            Upgrade::London => 9,
            Upgrade::Merge => 10,
            Upgrade::Shanghai => 11,
            Upgrade::Cancun => 12,
            Upgrade::Prague => 13,
        }
    }

    /// The place of the upgrade in the order of activation, from 0.
    pub fn position(self) -> (p: u8)
        ensures
            p == self.rank(),
    {
        match self {
            Upgrade::Frontier => 0,
            Upgrade::Homestead => 1,
            Upgrade::Tangerine => 2,
            Upgrade::SpuriousDragon => 3,
            Upgrade::Byzantium => 4,
            Upgrade::Constantinople => 5,
            Upgrade::Petersburg => 6,
            Upgrade::Istanbul => 7,
            Upgrade::Berlin => 8,
            Upgrade::London => 9,
            Upgrade::Merge => 10,
            Upgrade::Shanghai => 11,
            Upgrade::Cancun => 12,
            Upgrade::Prague => 13,
        }
    }
}

/// The upgrade that introduced the shift instructions.
pub open spec fn shift_upgrade() -> Upgrade {
    Upgrade::Constantinople
}

/// The protocol version under which an invocation runs: the newest upgrade
/// that is active. Its flags are that upgrade and all older ones.
#[derive(Clone, Copy, Debug, PartialEq, Eq, Structural)]
pub struct ProtocolVersion {
    pub active: Upgrade,
}

impl ProtocolVersion {
    /// Whether the version has the flag of `upgrade`.
    pub open spec fn enables(self, upgrade: Upgrade) -> bool {
        upgrade.rank() <= self.active.rank()
    }

    /// The version whose newest upgrade is `active`.
    pub fn new(active: Upgrade) -> (version: ProtocolVersion)
        ensures
            version.active == active,
    {
        ProtocolVersion { active }
    }

    /// The version with every upgrade active.
    pub fn latest() -> (version: ProtocolVersion)
        ensures
            version.active == Upgrade::Prague,
            forall|upgrade: Upgrade| version.enables(upgrade),
    {
        ProtocolVersion { active: Upgrade::Prague }
    }

    /// Whether the version has the flag of `upgrade`.
    pub fn has_flag(&self, upgrade: Upgrade) -> (r: bool)
        ensures
            r == self.enables(upgrade),
    {
        upgrade.position() <= self.active.position()
    }
}

/// A later version has every flag of an earlier one.
pub proof fn lemma_flags_monotonic(earlier: ProtocolVersion, later: ProtocolVersion, flag: Upgrade)
    requires
        earlier.active.rank() <= later.active.rank(),
        earlier.enables(flag),
    ensures
        later.enables(flag),
{
}

} // verus!
