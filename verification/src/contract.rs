//! The engine's entry points: instantiation, execution, and queries.
//!
//! Every operation takes the state and the external inputs it depends on
//! as explicit values and is all-or-nothing: an error leaves the state
//! exactly as it was.

use vstd::prelude::*;

use crate::asset::{AssetInfo, AssetInfoV};
use crate::cash_back::{
    execute_cash_back, execute_trigger_cash_back, settle_spec, tokens_view,
    trigger_cash_back_spec, PriceTable,
};
use crate::error::ContractError;
use crate::helpers::{
    has_invalid_percent, lemma_rules_valid_permutation, rules_with, sort_rules,
    validate_cash_back_rule,
};
use crate::msg::{ExecuteMsg, InstantiateMsg, QueryMsg, QueryResponse, Response};
use crate::percent::Percent;
use crate::state::{
    copy_strings, lemma_key_index, lemma_string_index, pending_amount_of, pending_find,
    rules_sorted, string_index, strings_view, Campaign, CampaignV, CashbackState, Config, StateV,
};

verus! {

/// Creates the initial state: the given configuration with its rules
/// validated and sorted, no campaign, an empty whitelist, and empty
/// ledgers. Rejects a rule table holding a percent above one.
pub fn instantiate(msg: InstantiateMsg) -> (r: Result<CashbackState, ContractError>)
    ensures
        ({
            let input_rules = match msg.rules {
                Some(v) => v@,
                None => Seq::<(u128, Percent)>::empty(),
            };
            match r {
                Ok(state) => {
                    &&& !has_invalid_percent(input_rules)
                    &&& state@.wf()
                    &&& state@.config.owner == msg.owner@
                    &&& state@.config.underlying_token == msg.underlying_token@
                    &&& rules_sorted(state@.config.rules)
                    &&& state@.config.rules.to_multiset() == input_rules.to_multiset()
                    &&& forall|t: u128| #[trigger] rules_with(state@.config.rules, t)
                        == rules_with(input_rules, t)
                    &&& state@.last_campaign_id == 0
                    &&& state@.campaigns.len() == 0
                    &&& state@.whitelist.len() == 0
                    &&& state@.pending.len() == 0
                    &&& state@.history.len() == 0
                },
                Err(e) => e == ContractError::InvalidPercent && has_invalid_percent(input_rules),
            }
        }),
{
    let rules = match msg.rules {
        Some(v) => v,
        None => Vec::new(),
    };
    match validate_cash_back_rule(&rules) {
        Err(e) => {
            return Err(e);
        },
        Ok(_) => {},
    }
    let sorted = sort_rules(&rules);
    proof {
        lemma_rules_valid_permutation(rules@, sorted@);
    }
    Ok(
        CashbackState {
            config: Config {
                owner: msg.owner,
                underlying_token: msg.underlying_token,
                rules: sorted,
            },
            last_campaign_id: 0,
            campaigns: Vec::new(),
            whitelist: Vec::new(),
            pending: Vec::new(),
            history: Vec::new(),
        },
    )
}

/// Full functional specification of `execute_update_config`.
pub open spec fn update_config_spec(
    pre: StateV,
    post: StateV,
    sender: Seq<char>,
    owner: Option<String>,
    underlying_token: Option<AssetInfo>,
    rules: Option<Vec<(u128, Percent)>>,
    r: Result<Response, ContractError>,
) -> bool {
    if sender != pre.config.owner {
        post == pre && r == Err::<Response, ContractError>(ContractError::Unauthorized)
    } else if rules matches Some(v) && has_invalid_percent(v@) {
        post == pre && r == Err::<Response, ContractError>(ContractError::InvalidPercent)
    } else {
        &&& post.config.owner == (match owner {
            Some(o) => o@,
            None => pre.config.owner,
        })
        &&& post.config.underlying_token == (match underlying_token {
            Some(t) => t@,
            None => pre.config.underlying_token,
        })
        &&& (match rules {
            Some(v) => {
                &&& rules_sorted(post.config.rules)
                &&& post.config.rules.to_multiset() == v@.to_multiset()
                &&& forall|t: u128| #[trigger] rules_with(post.config.rules, t) == rules_with(
                    v@,
                    t,
                )
            },
            None => post.config.rules == pre.config.rules,
        })
        &&& post.last_campaign_id == pre.last_campaign_id
        &&& post.campaigns == pre.campaigns
        &&& post.whitelist == pre.whitelist
        &&& post.pending == pre.pending
        &&& post.history == pre.history
        &&& (r matches Ok(resp) && resp@.len() == 0)
    }
}

/// Owner-only: replaces any of the owner, the reference asset, and the
/// rule table. A supplied rule table is validated and stored sorted by
/// threshold descending.
pub fn execute_update_config(
    state: &mut CashbackState,
    sender: &String,
    owner: Option<String>,
    underlying_token: Option<AssetInfo>,
    rules: Option<Vec<(u128, Percent)>>,
) -> (r: Result<Response, ContractError>)
    requires
        old(state)@.wf(),
    ensures
        final(state)@.wf(),
        update_config_spec(old(state)@, final(state)@, sender@, owner, underlying_token, rules, r),
{
    if !sender.eq(&state.config.owner) {
        return Err(ContractError::Unauthorized);
    }
    let sorted: Option<Vec<(u128, Percent)>> = match &rules {
        Some(v) => {
            match validate_cash_back_rule(v) {
                Err(e) => {
                    return Err(e);
                },
                Ok(_) => {},
            }
            let s = sort_rules(v);
            proof {
                lemma_rules_valid_permutation(v@, s@);
            }
            Some(s)
        },
        None => None,
    };
    match owner {
        Some(o) => {
            state.config.owner = o;
        },
        None => {},
    }
    match underlying_token {
        Some(t) => {
            state.config.underlying_token = t;
        },
        None => {},
    }
    match sorted {
        Some(s) => {
            state.config.rules = s;
        },
        None => {},
    }
    proof {
        assert(rules_sorted(state@.config.rules));
        assert(crate::state::rules_valid(state@.config.rules));
        assert(state@.campaigns == old(state)@.campaigns);
        assert(state@.last_campaign_id == old(state)@.last_campaign_id);
        assert(state@.pending == old(state)@.pending);
        assert(state@.history == old(state)@.history);
        assert(state@.whitelist == old(state)@.whitelist);
    }
    Ok(Response::empty())
}

/// Full functional specification of `execute_whitelist_contract`.
pub open spec fn whitelist_contract_spec(
    pre: StateV,
    post: StateV,
    sender: Seq<char>,
    contract: String,
    r: Result<Response, ContractError>,
) -> bool {
    if sender != pre.config.owner {
        post == pre && r == Err::<Response, ContractError>(ContractError::Unauthorized)
    } else if pre.whitelist.contains(contract@) {
        post == pre && r == Err::<Response, ContractError>(ContractError::DuplicateCaller)
    } else {
        &&& post == (StateV { whitelist: pre.whitelist.push(contract@), ..pre })
        &&& (r matches Ok(resp) && resp@.len() == 0)
    }
}

/// Owner-only: appends a caller to the whitelist; rejects one that is
/// already on it.
pub fn execute_whitelist_contract(state: &mut CashbackState, sender: &String, contract: String)
    -> (r: Result<Response, ContractError>)
    requires
        old(state)@.wf(),
    ensures
        final(state)@.wf(),
        whitelist_contract_spec(old(state)@, final(state)@, sender@, contract, r),
{
    let ghost pre = state@;
    if !sender.eq(&state.config.owner) {
        return Err(ContractError::Unauthorized);
    }
    proof {
        lemma_string_index(pre.whitelist, contract@);
    }
    let found = crate::state::whitelist_find(&state.whitelist, &contract);
    match found {
        Some(_) => Err(ContractError::DuplicateCaller),
        None => {
            state.whitelist.push(contract);
            proof {
                assert(state@.whitelist =~= pre.whitelist.push(contract@));
                assert(state@ =~= (StateV { whitelist: pre.whitelist.push(contract@), ..pre }));
                assert forall|i: int, j: int|
                    0 <= i < j < state@.whitelist.len() implies state@.whitelist[i]
                    != state@.whitelist[j] by {
                    if j == state@.whitelist.len() - 1 {
                        assert(state@.whitelist[i] == pre.whitelist[i]);
                    }
                }
            }
            Ok(Response::empty())
        },
    }
}

/// Full functional specification of `execute_remove_contract`.
pub open spec fn remove_contract_spec(
    pre: StateV,
    post: StateV,
    sender: Seq<char>,
    contract: String,
    r: Result<Response, ContractError>,
) -> bool {
    if sender != pre.config.owner {
        post == pre && r == Err::<Response, ContractError>(ContractError::Unauthorized)
    } else if string_index(pre.whitelist, contract@) < 0 {
        post == pre && r == Err::<Response, ContractError>(ContractError::UnknownCaller)
    } else {
        &&& post == (StateV {
            whitelist: pre.whitelist.remove(string_index(pre.whitelist, contract@)),
            ..pre
        })
        &&& (r matches Ok(resp) && resp@.len() == 0)
    }
}

/// Owner-only: removes a caller from the whitelist, keeping the order of
/// the others; rejects a caller that is not on it.
pub fn execute_remove_contract(state: &mut CashbackState, sender: &String, contract: String) -> (r:
    Result<Response, ContractError>)
    requires
        old(state)@.wf(),
    ensures
        final(state)@.wf(),
        remove_contract_spec(old(state)@, final(state)@, sender@, contract, r),
{
    let ghost pre = state@;
    if !sender.eq(&state.config.owner) {
        return Err(ContractError::Unauthorized);
    }
    let found = crate::state::whitelist_find(&state.whitelist, &contract);
    match found {
        None => Err(ContractError::UnknownCaller),
        Some(i) => {
            proof {
                lemma_string_index(pre.whitelist, contract@);
            }
            let _ = state.whitelist.remove(i);
            proof {
                let si = string_index(pre.whitelist, contract@);
                assert forall|k: int| 0 <= k < state@.whitelist.len() implies state@.whitelist[k]
                    == pre.whitelist.remove(si)[k] by {
                    if k < si {
                        assert(state.whitelist@[k] == old(state).whitelist@[k]);
                    } else {
                        assert(state.whitelist@[k] == old(state).whitelist@[k + 1]);
                    }
                }
                assert(state@.whitelist =~= pre.whitelist.remove(si));
                assert(state@ =~= (StateV { whitelist: pre.whitelist.remove(si), ..pre }));
                assert forall|i2: int, j2: int|
                    0 <= i2 < j2 < state@.whitelist.len() implies state@.whitelist[i2]
                    != state@.whitelist[j2] by {
                    let a = if i2 < si {
                        i2
                    } else {
                        i2 + 1
                    };
                    let b = if j2 < si {
                        j2
                    } else {
                        j2 + 1
                    };
                    assert(state@.whitelist[i2] == pre.whitelist[a]);
                    assert(state@.whitelist[j2] == pre.whitelist[b]);
                }
            }
            Ok(Response::empty())
        },
    }
}

/// Full functional specification of `execute_create_campaign`.
pub open spec fn create_campaign_spec(
    pre: StateV,
    post: StateV,
    now: u64,
    sender: Seq<char>,
    start: u64,
    end: u64,
    reward_token: AssetInfoV,
    total_reward: u128,
    r: Result<Response, ContractError>,
) -> bool {
    if sender != pre.config.owner {
        post == pre && r == Err::<Response, ContractError>(ContractError::Unauthorized)
    } else if start > end {
        post == pre && r == Err::<Response, ContractError>(ContractError::InvalidCampaignTime)
    } else if pre.last_campaign_id > 0 && !pre.last_campaign().spec_is_finished(now) {
        post == pre && r == Err::<Response, ContractError>(ContractError::CampaignInProgress)
    } else {
        &&& post == (StateV {
            last_campaign_id: (pre.last_campaign_id + 1) as u64,
            campaigns: pre.campaigns.push(
                CampaignV {
                    id: (pre.last_campaign_id + 1) as u64,
                    start,
                    end,
                    total_reward,
                    reward_token,
                    distributed_amount: 0,
                },
            ),
            ..pre
        })
        &&& (r matches Ok(resp) && resp@.len() == 0)
    }
}

/// A successful campaign creation advances the id counter by exactly one
/// and stores the new campaign under that id. Successive successful
/// creations therefore number their campaigns `1, 2, 3, ...`, with no
/// gaps and no repeats (see also `lemma_campaign_ids_sequential`).
pub proof fn lemma_create_assigns_next_id(
    pre: StateV,
    post: StateV,
    now: u64,
    sender: Seq<char>,
    start: u64,
    end: u64,
    reward_token: AssetInfoV,
    total_reward: u128,
    r: Result<Response, ContractError>,
)
    requires
        pre.last_campaign_id < u64::MAX,
        create_campaign_spec(pre, post, now, sender, start, end, reward_token, total_reward, r),
        r is Ok,
    ensures
        post.last_campaign_id == pre.last_campaign_id + 1,
        post.campaigns.len() == pre.campaigns.len() + 1,
        post.campaigns.last().id == post.last_campaign_id,
{
}

/// Owner-only: opens a new campaign once the previous one has finished.
/// The id is the next value of the monotonically increasing campaign
/// counter; ids start at one and are never reused.
pub fn execute_create_campaign(
    state: &mut CashbackState,
    now: u64,
    sender: &String,
    start: u64,
    end: u64,
    reward_token: AssetInfo,
    total_reward: u128,
) -> (r: Result<Response, ContractError>)
    requires
        old(state)@.wf(),
        old(state)@.last_campaign_id < u64::MAX,
    ensures
        final(state)@.wf(),
        create_campaign_spec(
            old(state)@,
            final(state)@,
            now,
            sender@,
            start,
            end,
            reward_token@,
            total_reward,
            r,
        ),
{
    let ghost pre = state@;
    if !sender.eq(&state.config.owner) {
        return Err(ContractError::Unauthorized);
    }
    if start > end {
        return Err(ContractError::InvalidCampaignTime);
    }
    if state.last_campaign_id > 0 {
        let n = state.campaigns.len();
        proof {
            assert(state.last_campaign_id as int == n as int);
        }
        let idx: usize = (state.last_campaign_id - 1) as usize;
        proof {
            assert(pre.campaigns[idx as int] == state.campaigns@[idx as int]@);
            assert(pre.last_campaign() == pre.campaigns[idx as int]);
        }
        if !state.campaigns[idx].is_finished(now) {
            return Err(ContractError::CampaignInProgress);
        }
    }
    let id = state.last_campaign_id + 1;
    state.campaigns.push(
        Campaign { id, start, end, total_reward, reward_token, distributed_amount: 0 },
    );
    state.last_campaign_id = id;
    proof {
        assert(state@.campaigns =~= pre.campaigns.push(
            CampaignV {
                id,
                start,
                end,
                total_reward,
                reward_token: reward_token@,
                distributed_amount: 0,
            },
        ));
        assert(state@ =~= (StateV {
            last_campaign_id: id,
            campaigns: state@.campaigns,
            ..pre
        }));
    }
    Ok(Response::empty())
}

/// Full functional specification of `execute_edit_campaign`.
pub open spec fn edit_campaign_spec(
    pre: StateV,
    post: StateV,
    now: u64,
    sender: Seq<char>,
    id: u64,
    start: Option<u64>,
    end: Option<u64>,
    total_reward: Option<u128>,
    r: Result<Response, ContractError>,
) -> bool {
    if sender != pre.config.owner {
        post == pre && r == Err::<Response, ContractError>(ContractError::Unauthorized)
    } else if !(1 <= id && id <= pre.campaigns.len()) {
        post == pre && r == Err::<Response, ContractError>(ContractError::CampaignNotFound)
    } else {
        let c = pre.campaigns[id - 1];
        let edited = CampaignV {
            id: c.id,
            start: match start {
                Some(s) => s,
                None => c.start,
            },
            end: match end {
                Some(e) => e,
                None => c.end,
            },
            total_reward: match total_reward {
                Some(t) => t,
                None => c.total_reward,
            },
            reward_token: c.reward_token,
            distributed_amount: c.distributed_amount,
        };
        if c.spec_is_finished(now) {
            post == pre && r == Err::<Response, ContractError>(ContractError::CampaignEnded)
        } else if edited.start > edited.end {
            post == pre && r == Err::<Response, ContractError>(ContractError::InvalidCampaignTime)
        } else if edited.total_reward < c.distributed_amount {
            post == pre && r == Err::<Response, ContractError>(ContractError::InvalidTotalReward)
        } else {
            &&& post == (StateV { campaigns: pre.campaigns.update(id - 1, edited), ..pre })
            &&& (r matches Ok(resp) && resp@.len() == 0)
        }
    }
}

/// Owner-only: overrides any of start, end, and total reward of a
/// campaign that has not finished yet, re-validating the time window and
/// the budget invariant afterwards.
pub fn execute_edit_campaign(
    state: &mut CashbackState,
    now: u64,
    sender: &String,
    id: u64,
    start: Option<u64>,
    end: Option<u64>,
    total_reward: Option<u128>,
) -> (r: Result<Response, ContractError>)
    requires
        old(state)@.wf(),
    ensures
        final(state)@.wf(),
        edit_campaign_spec(
            old(state)@,
            final(state)@,
            now,
            sender@,
            id,
            start,
            end,
            total_reward,
            r,
        ),
{
    let ghost pre = state@;
    if !sender.eq(&state.config.owner) {
        return Err(ContractError::Unauthorized);
    }
    if !(id >= 1 && id <= state.campaigns.len() as u64) {
        return Err(ContractError::CampaignNotFound);
    }
    let idx: usize = (id - 1) as usize;
    proof {
        assert(pre.campaigns[idx as int] == state.campaigns@[idx as int]@);
    }
    if state.campaigns[idx].is_finished(now) {
        return Err(ContractError::CampaignEnded);
    }
    let new_start = match start {
        Some(s) => s,
        None => state.campaigns[idx].start,
    };
    let new_end = match end {
        Some(e) => e,
        None => state.campaigns[idx].end,
    };
    let new_total = match total_reward {
        Some(t) => t,
        None => state.campaigns[idx].total_reward,
    };
    if new_start > new_end {
        return Err(ContractError::InvalidCampaignTime);
    }
    if new_total < state.campaigns[idx].distributed_amount {
        return Err(ContractError::InvalidTotalReward);
    }
    let edited = Campaign {
        id: state.campaigns[idx].id,
        start: new_start,
        end: new_end,
        total_reward: new_total,
        reward_token: state.campaigns[idx].reward_token.clone(),
        distributed_amount: state.campaigns[idx].distributed_amount,
    };
    state.campaigns[idx] = edited;
    proof {
        assert forall|k: int| 0 <= k < state@.campaigns.len() implies #[trigger] state@.campaigns[k]
            == pre.campaigns.update(id - 1, state@.campaigns[id - 1])[k] by {
            if k != idx as int {
                assert(state.campaigns@[k] == old(state).campaigns@[k]);
            }
        }
        assert(state@.campaigns =~= pre.campaigns.update(id - 1, state@.campaigns[id - 1]));
        assert(state@ =~= (StateV { campaigns: state@.campaigns, ..pre }));
    }
    Ok(Response::empty())
}

/// Full functional specification of `execute`: dispatch to the operation
/// the message names.
pub open spec fn execute_spec(
    pre: StateV,
    post: StateV,
    now: u64,
    sender: Seq<char>,
    msg: ExecuteMsg,
    balance: u128,
    prices: Seq<(AssetInfoV, u64)>,
    r: Result<Response, ContractError>,
) -> bool {
    match msg {
        ExecuteMsg::UpdateConfig { owner, underlying_token, rules } => update_config_spec(
            pre,
            post,
            sender,
            owner,
            underlying_token,
            rules,
            r,
        ),
        ExecuteMsg::WhitelistContract { contract } => whitelist_contract_spec(
            pre,
            post,
            sender,
            contract,
            r,
        ),
        ExecuteMsg::RemoveContract { contract } => remove_contract_spec(
            pre,
            post,
            sender,
            contract,
            r,
        ),
        ExecuteMsg::CreateCampaign { start, end, reward_token, total_reward } => {
            create_campaign_spec(
                pre,
                post,
                now,
                sender,
                start,
                end,
                reward_token@,
                total_reward,
                r,
            )
        },
        ExecuteMsg::EditCampaign { id, start, end, total_reward } => edit_campaign_spec(
            pre,
            post,
            now,
            sender,
            id,
            start,
            end,
            total_reward,
            r,
        ),
        ExecuteMsg::TriggerCashBack { user, tokens } => trigger_cash_back_spec(
            pre,
            post,
            now,
            sender,
            user@,
            tokens_view(tokens@),
            balance,
            prices,
            r,
        ),
        ExecuteMsg::CashBack {  } => settle_spec(pre, post, r),
    }
}

/// Dispatches a state-changing request.
///
/// The host supplies the clock (`now`), the verified caller identity
/// (`sender`), the balance oracle's answer for the user a trigger names
/// (`balance`; a failed oracle reads as zero), and the price source
/// snapshot (`prices`); the two latter matter only to `TriggerCashBack`.
pub fn execute(
    state: &mut CashbackState,
    now: u64,
    sender: &String,
    msg: ExecuteMsg,
    balance: u128,
    prices: &PriceTable,
) -> (r: Result<Response, ContractError>)
    requires
        old(state)@.wf(),
        msg matches ExecuteMsg::CreateCampaign { .. } ==> old(state)@.last_campaign_id
            < u64::MAX,
    ensures
        final(state)@.wf(),
        execute_spec(old(state)@, final(state)@, now, sender@, msg, balance, prices@, r),
{
    match msg {
        ExecuteMsg::UpdateConfig { owner, underlying_token, rules } => execute_update_config(
            state,
            sender,
            owner,
            underlying_token,
            rules,
        ),
        ExecuteMsg::WhitelistContract { contract } => execute_whitelist_contract(
            state,
            sender,
            contract,
        ),
        ExecuteMsg::RemoveContract { contract } => execute_remove_contract(state, sender, contract),
        ExecuteMsg::CreateCampaign { start, end, reward_token, total_reward } => {
            execute_create_campaign(state, now, sender, start, end, reward_token, total_reward)
        },
        ExecuteMsg::EditCampaign { id, start, end, total_reward } => execute_edit_campaign(
            state,
            now,
            sender,
            id,
            start,
            end,
            total_reward,
        ),
        ExecuteMsg::TriggerCashBack { user, tokens } => execute_trigger_cash_back(
            state,
            now,
            sender,
            &user,
            &tokens,
            balance,
            prices,
        ),
        ExecuteMsg::CashBack {  } => execute_cash_back(state),
    }
}

/// The user's current pending cashback amount; zero without an entry.
pub fn query_pending_cash_back(state: &CashbackState, user: &String) -> (r: u128)
    ensures
        r == pending_amount_of(state@.pending, user@),
{
    proof {
        lemma_key_index(state@.pending, user@);
    }
    let found = pending_find(&state.pending, user);
    match found {
        Some(i) => state.pending[i].1,
        None => 0,
    }
}

/// The most recently created campaign; an error while none exists.
pub fn query_last_campaign(state: &CashbackState) -> (r: Result<Campaign, ContractError>)
    requires
        state@.wf(),
    ensures
        state@.last_campaign_id > 0 ==> (r matches Ok(c) && c@ == state@.last_campaign()),
        state@.last_campaign_id == 0 ==> r == Err::<Campaign, ContractError>(
            ContractError::CampaignNotFound,
        ),
{
    if state.last_campaign_id == 0 {
        return Err(ContractError::CampaignNotFound);
    }
    let n = state.campaigns.len();
    proof {
        assert(state@.last_campaign_id as int == n as int);
    }
    let idx: usize = (state.last_campaign_id - 1) as usize;
    proof {
        assert(state@.campaigns[idx as int] == state.campaigns@[idx as int]@);
    }
    Ok(state.campaigns[idx].clone())
}

/// Full functional specification of `query`.
pub open spec fn query_spec(pre: StateV, msg: QueryMsg, r: Result<
    QueryResponse,
    ContractError,
>) -> bool {
    match msg {
        QueryMsg::Config {  } => (r matches Ok(a) && a matches QueryResponse::Config(c) && c@
            == pre.config),
        QueryMsg::Campaign { id } => {
            if 1 <= id && id <= pre.campaigns.len() {
                (r matches Ok(a) && a matches QueryResponse::Campaign(c) && c@ == pre.campaigns[id
                    - 1])
            } else {
                r == Err::<QueryResponse, ContractError>(ContractError::CampaignNotFound)
            }
        },
        QueryMsg::LastCampaign {  } => {
            if pre.last_campaign_id > 0 {
                (r matches Ok(a) && a matches QueryResponse::Campaign(c) && c@
                    == pre.last_campaign())
            } else {
                r == Err::<QueryResponse, ContractError>(ContractError::CampaignNotFound)
            }
        },
        QueryMsg::LastCampaignId {  } => (r matches Ok(a) && a matches QueryResponse::LastCampaignId(i)
            && i == pre.last_campaign_id),
        QueryMsg::WhitelistContract {  } => (r matches Ok(a) && a
            matches QueryResponse::WhitelistContract(v) && strings_view(v@) == pre.whitelist),
        QueryMsg::PendingCashBack { user } => (r matches Ok(a) && a
            matches QueryResponse::PendingCashBack(p) && p == pending_amount_of(
            pre.pending,
            user@,
        )),
    }
}

/// Answers a read-only request against the current state.
pub fn query(state: &CashbackState, msg: QueryMsg) -> (r: Result<QueryResponse, ContractError>)
    requires
        state@.wf(),
    ensures
        query_spec(state@, msg, r),
{
    match msg {
        QueryMsg::Config {  } => Ok(QueryResponse::Config(state.config.clone())),
        QueryMsg::Campaign { id } => {
            if id >= 1 && id <= state.campaigns.len() as u64 {
                let idx: usize = (id - 1) as usize;
                proof {
                    assert(state@.campaigns[idx as int] == state.campaigns@[idx as int]@);
                }
                Ok(QueryResponse::Campaign(state.campaigns[idx].clone()))
            } else {
                Err(ContractError::CampaignNotFound)
            }
        },
        QueryMsg::LastCampaign {  } => {
            match query_last_campaign(state) {
                Ok(c) => Ok(QueryResponse::Campaign(c)),
                Err(e) => Err(e),
            }
        },
        QueryMsg::LastCampaignId {  } => Ok(QueryResponse::LastCampaignId(state.last_campaign_id)),
        QueryMsg::WhitelistContract {  } => Ok(
            QueryResponse::WhitelistContract(copy_strings(&state.whitelist)),
        ),
        QueryMsg::PendingCashBack { user } => Ok(
            QueryResponse::PendingCashBack(query_pending_cash_back(state, &user)),
        ),
    }
}

} // verus!
