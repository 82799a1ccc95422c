//! The errors an operation can abort with.
//!
//! A hard failure aborts the call and leaves the state exactly as it was;
//! every function that returns one of these errors says so in its contract.

use vstd::prelude::*;

verus! {

#[derive(Debug, Clone, Copy, PartialEq, Eq, Structural)]
pub enum ContractError {
    /// A non-owner attempted an owner-only operation.
    Unauthorized,
    /// A campaign's start time would lie after its end time.
    InvalidCampaignTime,
    /// A new campaign was requested while the most recent one has not
    /// finished yet.
    CampaignInProgress,
    /// An edit was requested on a campaign that has already finished.
    CampaignEnded,
    /// A rule's cashback percent exceeds one.
    InvalidPercent,
    /// The caller to be whitelisted is already on the whitelist.
    DuplicateCaller,
    /// The caller to be removed is not on the whitelist.
    UnknownCaller,
    /// No campaign is stored under the requested id.
    CampaignNotFound,
    /// An edit would set the total reward below the amount already
    /// distributed, breaking the campaign's budget invariant.
    InvalidTotalReward,
    /// The price source values the reward asset at zero, so fee-asset
    /// amounts cannot be converted into reward-asset units.
    ZeroRewardAssetPrice,
    /// An accrued amount would not fit in the ledger's integer range.
    AmountOverflow,
}

impl ContractError {
    /// A short description, for callers that log or display errors.
    pub fn describe(&self) -> &'static str {
        match self {
            ContractError::Unauthorized => "unauthorized",
            ContractError::InvalidCampaignTime => "invalid campaign time range",
            ContractError::CampaignInProgress => "last campaign is not over yet",
            ContractError::CampaignEnded => "this campaign has ended",
            ContractError::InvalidPercent => "cash back percent must be lte 1",
            ContractError::DuplicateCaller => "caller is already whitelisted",
            ContractError::UnknownCaller => "caller is not whitelisted",
            ContractError::CampaignNotFound => "no campaign with this id",
            ContractError::InvalidTotalReward => "total reward below distributed amount",
            ContractError::ZeroRewardAssetPrice => "reward asset price is zero",
            ContractError::AmountOverflow => "amount overflow",
        }
    }
}

} // verus!
