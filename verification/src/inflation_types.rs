//! Data model of the public-goods-funding treasury: per-epoch inflation
//! rates, funding obligations and reward stewards.

use vstd::prelude::*;

use crate::addr::Address;
use crate::dec::Dec;

verus! {

/// The treasury's annualized inflation rates, applied per epoch against the
/// native asset's total minted supply.
#[derive(Clone, Copy, PartialEq, Eq, Structural, Debug)]
pub struct PgfParameters {
    /// Annualized rate minted into the treasury for funding obligations.
    pub pgf_inflation_rate: Dec,
    /// Annualized rate minted for steward rewards.
    pub stewards_inflation_rate: Dec,
}

/// A same-chain funding target: a local recipient and an amount.
#[derive(Clone, Copy, PartialEq, Eq, Structural, Debug)]
pub struct PGFInternalTarget {
    /// The recipient account.
    pub target: Address,
    /// The amount owed each epoch.
    pub amount: u128,
}

/// A funding target on another chain, reached through the cross-chain
/// transfer protocol.
#[derive(Debug, PartialEq, Eq)]
pub struct PGFIbcTarget {
    /// The recipient address on the other chain, as UTF-8 bytes.
    pub target: Vec<u8>,
    /// The amount owed each epoch.
    pub amount: u128,
    /// The port the transfer leaves through.
    pub port_id: Vec<u8>,
    /// The channel the transfer leaves through.
    pub channel_id: Vec<u8>,
}

/// Abstract value of a [`PGFIbcTarget`].
pub struct IbcTargetV {
    /// The recipient address bytes.
    pub target: Seq<u8>,
    /// The amount owed each epoch.
    pub amount: u128,
    /// The port the transfer leaves through.
    pub port_id: Seq<u8>,
    /// The channel the transfer leaves through.
    pub channel_id: Seq<u8>,
}

impl View for PGFIbcTarget {
    type V = IbcTargetV;

    open spec fn view(&self) -> IbcTargetV {
        IbcTargetV {
            target: self.target@,
            amount: self.amount,
            port_id: self.port_id@,
            channel_id: self.channel_id@,
        }
    }
}

/// Where one funding obligation pays out.
#[derive(Debug, PartialEq, Eq)]
pub enum PGFTarget {
    /// A same-chain transfer.
    Internal(PGFInternalTarget),
    /// A transfer routed through the cross-chain protocol.
    Ibc(PGFIbcTarget),
}

/// Abstract value of a [`PGFTarget`].
pub enum PGFTargetV {
    /// A same-chain transfer.
    Internal(PGFInternalTarget),
    /// A transfer routed through the cross-chain protocol.
    Ibc(IbcTargetV),
}

impl View for PGFTarget {
    type V = PGFTargetV;

    open spec fn view(&self) -> PGFTargetV {
        match self {
            PGFTarget::Internal(t) => PGFTargetV::Internal(*t),
            PGFTarget::Ibc(t) => PGFTargetV::Ibc(t@),
        }
    }
}

/// One continuous funding obligation. Obligations are paid in ascending
/// `id` order — the oldest funding commitment first — for their full
/// amount, every epoch.
#[derive(Debug, PartialEq, Eq)]
pub struct PgfFunding {
    /// Monotonically assigned identity, older obligations having lower ids.
    pub id: u64,
    /// Where and how much this obligation pays.
    pub detail: PGFTarget,
}

/// Abstract value of a [`PgfFunding`].
pub struct FundingV {
    /// The obligation's identity.
    pub id: u64,
    /// Where and how much it pays.
    pub detail: PGFTargetV,
}

impl View for PgfFunding {
    type V = FundingV;

    open spec fn view(&self) -> FundingV {
        FundingV { id: self.id, detail: self.detail@ }
    }
}

/// A steward: an account entitled to route a share of steward inflation to
/// recipients of its choice, per its reward distribution.
#[derive(Clone, Debug, PartialEq, Eq)]
pub struct Steward {
    /// The steward's own account.
    pub address: Address,
    /// Fractional shares per recipient. The shares are not constrained to
    /// sum to one.
    pub reward_distribution: Vec<(Address, Dec)>,
}

/// Abstract value of a [`Steward`].
pub struct StewardV {
    /// The steward's own account.
    pub address: Address,
    /// Fractional shares per recipient.
    pub reward_distribution: Seq<(Address, Dec)>,
}

impl View for Steward {
    type V = StewardV;

    open spec fn view(&self) -> StewardV {
        StewardV { address: self.address, reward_distribution: self.reward_distribution@ }
    }
}

} // verus!
