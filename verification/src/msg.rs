//! The operations the engine accepts, and what they answer.

use vstd::prelude::*;

use crate::asset::{Asset, AssetInfo};
use crate::helpers::{TransferMsg, TransferMsgV};
use crate::percent::Percent;
use crate::state::{Campaign, Config};

verus! {

/// Sets the initial configuration; the campaign counter starts at zero.
#[derive(Debug, PartialEq, Eq)]
pub struct InstantiateMsg {
    pub owner: String,
    pub underlying_token: AssetInfo,
    pub rules: Option<Vec<(u128, Percent)>>,
}

/// A state-changing request.
#[derive(Debug, PartialEq, Eq)]
pub enum ExecuteMsg {
    /// Owner-only: replace any of owner, reference asset, and rule table.
    UpdateConfig {
        owner: Option<String>,
        underlying_token: Option<AssetInfo>,
        rules: Option<Vec<(u128, Percent)>>,
    },
    /// Owner-only: allow a contract to trigger cashback accrual.
    WhitelistContract { contract: String },
    /// Owner-only: withdraw a contract's permission to trigger accrual.
    RemoveContract { contract: String },
    /// Owner-only: open a new reward campaign.
    CreateCampaign { start: u64, end: u64, reward_token: AssetInfo, total_reward: u128 },
    /// Owner-only: adjust a campaign that has not finished yet.
    EditCampaign { id: u64, start: Option<u64>, end: Option<u64>, total_reward: Option<u128> },
    /// Called by a whitelisted contract: accrue cashback for a user's
    /// reported fee-asset spend.
    TriggerCashBack { user: String, tokens: Vec<Asset> },
    /// Drain the pending ledger into transfer instructions.
    CashBack {},
}

/// A read-only request.
#[derive(Debug, PartialEq, Eq)]
pub enum QueryMsg {
    Config {},
    Campaign { id: u64 },
    LastCampaign {},
    LastCampaignId {},
    WhitelistContract {},
    PendingCashBack { user: String },
}

/// A read-only answer.
#[derive(Debug, PartialEq, Eq)]
pub enum QueryResponse {
    Config(Config),
    Campaign(Campaign),
    LastCampaignId(u64),
    WhitelistContract(Vec<String>),
    PendingCashBack(u128),
}

/// What a successful operation hands back to the host: the transfer
/// instructions it wants executed. Most operations produce none;
/// settlement produces one per drained ledger entry.
#[derive(Debug, PartialEq, Eq)]
pub struct Response {
    pub messages: Vec<TransferMsg>,
}

impl View for Response {
    type V = Seq<TransferMsgV>;

    open spec fn view(&self) -> Seq<TransferMsgV> {
        self.messages@.map_values(|m: TransferMsg| m@)
    }
}

impl Response {
    /// A response carrying no transfer instructions.
    pub fn empty() -> (r: Response)
        ensures
            r@.len() == 0,
    {
        Response { messages: Vec::new() }
    }
}

} // verus!
