//! The cashback computation: tier lookup, reward conversion, accrual, and
//! settlement.

use vstd::prelude::*;

use crate::asset::{asset_info_eq, Asset, AssetInfo, AssetInfoV, AssetV};
use crate::error::ContractError;
use crate::helpers::{build_transfer_msg, TransferMsg, TransferMsgV};
use crate::msg::Response;
use crate::percent::{apply_percent, apply_percent_spec, mul_div_floor, mul_div_spec, Percent};
use crate::state::{
    history_index, key_index, lemma_history_index, lemma_key_index, pending_view, rules_valid,
    Campaign, CampaignV, CashbackState, HistoryEntry, HistoryEntryV, StateV,
};

verus! {

/// View of a token sequence.
pub open spec fn tokens_view(s: Seq<Asset>) -> Seq<AssetV> {
    s.map_values(|a: Asset| a@)
}

/// The injected price source, as a lookup table of relative prices: the
/// value of one unit of an asset in an arbitrary common unit. Only ratios
/// of prices matter. An asset that is absent has the default price one,
/// the identity placeholder valuation.
pub struct PriceTable {
    pub entries: Vec<(AssetInfo, u64)>,
}

impl View for PriceTable {
    type V = Seq<(AssetInfoV, u64)>;

    open spec fn view(&self) -> Seq<(AssetInfoV, u64)> {
        self.entries@.map_values(|e: (AssetInfo, u64)| (e.0@, e.1))
    }
}

impl PriceTable {
    /// The identity price source: every asset is worth one unit.
    pub fn identity() -> (r: PriceTable)
        ensures
            r@.len() == 0,
    {
        PriceTable { entries: Vec::new() }
    }
}

/// The relative price of an asset: its first table entry, or one.
pub open spec fn price_of(prices: Seq<(AssetInfoV, u64)>, asset: AssetInfoV) -> u64
    decreases prices.len(),
{
    if prices.len() == 0 {
        1
    } else if prices[0].0 == asset {
        prices[0].1
    } else {
        price_of(prices.drop_first(), asset)
    }
}

/// Looks the asset up in the price table; absent assets price at one.
pub fn get_token_price(prices: &PriceTable, token: &AssetInfo) -> (r: u64)
    ensures
        r == price_of(prices@, token@),
{
    let mut i: usize = 0;
    proof {
        assert(prices@.skip(0) =~= prices@);
    }
    while i < prices.entries.len()
        invariant
            i <= prices.entries@.len(),
            price_of(prices@, token@) == price_of(prices@.skip(i as int), token@),
        decreases prices.entries@.len() - i,
    {
        proof {
            assert(prices@[i as int] == (prices.entries@[i as int].0@, prices.entries@[i as int].1));
        }
        if asset_info_eq(&prices.entries[i].0, token) {
            assert(prices@.skip(i as int)[0] == prices@[i as int]);
            return prices.entries[i].1;
        }
        proof {
            assert(prices@.skip(i as int)[0] == prices@[i as int]);
            assert(prices@.skip(i as int).drop_first() =~= prices@.skip(i as int + 1));
        }
        i += 1;
    }
    proof {
        assert(prices@.skip(i as int).len() == 0);
    }
    1
}

/// The percent of the first rule, in stored (descending) order, whose
/// threshold the balance reaches; zero percent if none qualifies.
pub open spec fn lookup_percent(rules: Seq<(u128, Percent)>, balance: u128) -> Percent
    decreases rules.len(),
{
    if rules.len() == 0 {
        Percent { atomics: 0 }
    } else if rules[0].0 <= balance {
        rules[0].1
    } else {
        lookup_percent(rules.drop_first(), balance)
    }
}

/// Ranks a balance into the tier rule table: scans the descending-sorted
/// rules and returns the percent of the first rule whose threshold is at
/// most the balance, so the highest qualifying tier wins.
pub fn calc_cash_back_percent(rules: &Vec<(u128, Percent)>, balance: u128) -> (r: Percent)
    ensures
        r == lookup_percent(rules@, balance),
{
    let mut i: usize = 0;
    proof {
        assert(rules@.skip(0) =~= rules@);
    }
    while i < rules.len()
        invariant
            i <= rules@.len(),
            lookup_percent(rules@, balance) == lookup_percent(rules@.skip(i as int), balance),
        decreases rules@.len() - i,
    {
        proof {
            assert(rules@.skip(i as int)[0] == rules@[i as int]);
            assert(rules@.skip(i as int).drop_first() =~= rules@.skip(i as int + 1));
        }
        if rules[i].0 <= balance {
            return rules[i].1;
        }
        i += 1;
    }
    proof {
        assert(rules@.skip(i as int).len() == 0);
    }
    Percent { atomics: 0 }
}

/// The reward-asset value of one fee-asset amount:
/// `floor(amount * price(asset) / price(reward asset))`.
pub open spec fn converted_amount(
    t: AssetV,
    prices: Seq<(AssetInfoV, u64)>,
    reward_price: u64,
) -> int {
    mul_div_spec(t.amount, price_of(prices, t.info), reward_price)
}

/// Total reward-asset value of a token sequence, as an unbounded integer.
pub open spec fn convert_total(
    tokens: Seq<AssetV>,
    prices: Seq<(AssetInfoV, u64)>,
    reward_price: u64,
) -> int
    decreases tokens.len(),
{
    if tokens.len() == 0 {
        0
    } else {
        convert_total(tokens.drop_last(), prices, reward_price) + converted_amount(
            tokens.last(),
            prices,
            reward_price,
        )
    }
}

/// Every conversion term is non-negative.
proof fn lemma_converted_amount_nonneg(t: AssetV, prices: Seq<(AssetInfoV, u64)>, reward_price: u64)
    requires
        reward_price > 0,
    ensures
        converted_amount(t, prices, reward_price) >= 0,
{
    vstd::arithmetic::mul::lemma_mul_nonnegative(t.amount as int, price_of(prices, t.info) as int);
    vstd::arithmetic::div_mod::lemma_div_pos_is_pos(
        t.amount as int * price_of(prices, t.info) as int,
        reward_price as int,
    );
}

/// A prefix of the token list converts to at most what the whole list
/// converts to.
proof fn lemma_convert_prefix_le(
    tokens: Seq<AssetV>,
    j: int,
    prices: Seq<(AssetInfoV, u64)>,
    reward_price: u64,
)
    requires
        0 <= j <= tokens.len(),
        reward_price > 0,
    ensures
        convert_total(tokens.take(j), prices, reward_price) <= convert_total(
            tokens,
            prices,
            reward_price,
        ),
    decreases tokens.len() - j,
{
    if j == tokens.len() {
        assert(tokens.take(j) =~= tokens);
    } else {
        assert(tokens.take(j + 1).drop_last() =~= tokens.take(j));
        assert(tokens.take(j + 1).last() == tokens[j]);
        lemma_converted_amount_nonneg(tokens[j], prices, reward_price);
        lemma_convert_prefix_le(tokens, j + 1, prices, reward_price);
    }
}

/// Converts fee-asset amounts into reward-asset units through the price
/// table and sums them.
///
/// Returns the exact total when it fits; `ZeroRewardAssetPrice` when the
/// price source values the reward asset at zero; `AmountOverflow` when the
/// total does not fit in a `u128`.
pub fn convert_to_reward_token(tokens: &Vec<Asset>, prices: &PriceTable, reward_token: &AssetInfo)
    -> (r: Result<u128, ContractError>)
    ensures
        price_of(prices@, reward_token@) == 0 ==> r == Err::<u128, ContractError>(
            ContractError::ZeroRewardAssetPrice,
        ),
        price_of(prices@, reward_token@) != 0 ==> {
            let total = convert_total(
                tokens_view(tokens@),
                prices@,
                price_of(prices@, reward_token@),
            );
            if total <= u128::MAX {
                r == Ok::<u128, ContractError>(total as u128)
            } else {
                r == Err::<u128, ContractError>(ContractError::AmountOverflow)
            }
        },
{
    let reward_price = get_token_price(prices, reward_token);
    if reward_price == 0 {
        return Err(ContractError::ZeroRewardAssetPrice);
    }
    let ghost tv = tokens_view(tokens@);
    let mut total: u128 = 0;
    let mut i: usize = 0;
    while i < tokens.len()
        invariant
            i <= tokens@.len(),
            tv == tokens_view(tokens@),
            reward_price == price_of(prices@, reward_token@),
            reward_price > 0,
            total == convert_total(tv.take(i as int), prices@, reward_price),
        decreases tokens@.len() - i,
    {
        proof {
            assert(tv.take(i as int + 1).drop_last() =~= tv.take(i as int));
            assert(tv.take(i as int + 1).last() == tv[i as int]);
            assert(tv[i as int] == tokens@[i as int]@);
        }
        let t = &tokens[i];
        let p = get_token_price(prices, &t.info);
        let conv = mul_div_floor(t.amount, p, reward_price);
        match conv {
            None => {
                proof {
                    lemma_convert_prefix_le(tv, i as int + 1, prices@, reward_price);
                }
                return Err(ContractError::AmountOverflow);
            },
            Some(c) => {
                match total.checked_add(c) {
                    None => {
                        proof {
                            lemma_convert_prefix_le(tv, i as int + 1, prices@, reward_price);
                        }
                        return Err(ContractError::AmountOverflow);
                    },
                    Some(nt) => {
                        total = nt;
                    },
                }
            },
        }
        i += 1;
    }
    proof {
        assert(tv.take(i as int) =~= tv);
    }
    Ok(total)
}

/// The token list with every amount scaled down by the percent.
pub open spec fn scale_tokens(s: Seq<AssetV>, p: Percent) -> Seq<AssetV> {
    s.map_values(|a: AssetV| AssetV { info: a.info, amount: apply_percent_spec(a.amount, p) as u128 })
}

/// Scales every token amount by the percent, rounding down.
pub fn scale_all_tokens(tokens: &Vec<Asset>, p: Percent) -> (r: Vec<Asset>)
    requires
        p.le_one(),
    ensures
        tokens_view(r@) == scale_tokens(tokens_view(tokens@), p),
{
    let mut out: Vec<Asset> = Vec::new();
    let mut i: usize = 0;
    while i < tokens.len()
        invariant
            i <= tokens@.len(),
            p.le_one(),
            out@.len() == i,
            forall|k: int|
                0 <= k < i ==> tokens_view(out@)[k] == scale_tokens(tokens_view(tokens@), p)[k],
        decreases tokens@.len() - i,
    {
        let t = &tokens[i];
        let scaled = apply_percent(t.amount, p);
        let ghost prev = out@;
        out.push(Asset { info: t.info.clone(), amount: scaled });
        proof {
            assert forall|k: int| 0 <= k < i + 1 implies tokens_view(out@)[k] == scale_tokens(
                tokens_view(tokens@),
                p,
            )[k] by {
                if k < i {
                    assert(out@[k] == prev[k]);
                    assert(tokens_view(out@)[k] == tokens_view(prev)[k]);
                } else {
                    assert(out@[k].info == tokens@[k].info);
                    assert(out@[k].amount == apply_percent_spec(tokens@[k].amount, p) as u128);
                    assert(tokens_view(out@)[k] == out@[k]@);
                    assert(tokens_view(tokens@)[k] == tokens@[k]@);
                    assert(scale_tokens(tokens_view(tokens@), p)[k] == (AssetV {
                        info: tokens_view(tokens@)[k].info,
                        amount: apply_percent_spec(tokens_view(tokens@)[k].amount, p) as u128,
                    }));
                }
            }
        }
        i += 1;
    }
    proof {
        assert(tokens_view(out@) =~= scale_tokens(tokens_view(tokens@), p));
    }
    out
}

/// Looking a balance up in a valid rule table yields a percent of at
/// most one.
pub proof fn lemma_lookup_percent_le_one(rules: Seq<(u128, Percent)>, balance: u128)
    requires
        rules_valid(rules),
    ensures
        lookup_percent(rules, balance).le_one(),
    decreases rules.len(),
{
    if rules.len() != 0 && !(rules[0].0 <= balance) {
        assert forall|k: int| 0 <= k < rules.drop_first().len() implies (#[trigger] rules.drop_first()[k]).1.le_one() by {
            assert(rules.drop_first()[k] == rules[k + 1]);
        }
        lemma_lookup_percent_le_one(rules.drop_first(), balance);
    }
}

/// The pending ledger after accruing `amount` to `user`: the user's
/// entry grows by `amount`, or is created with it.
pub open spec fn pending_after_accrue(
    p: Seq<(Seq<char>, u128)>,
    user: Seq<char>,
    amount: u128,
) -> Seq<(Seq<char>, u128)> {
    let ki = key_index(p, user);
    if ki < 0 {
        p.push((user, amount))
    } else {
        p.update(ki, (user, (p[ki].1 + amount) as u128))
    }
}

/// The audit trail after accruing `amount` to `user` under campaign
/// `campaign_id`.
pub open spec fn history_after_accrue(
    h: Seq<HistoryEntryV>,
    campaign_id: u64,
    user: Seq<char>,
    amount: u128,
) -> Seq<HistoryEntryV> {
    let hi = history_index(h, campaign_id, user);
    if hi < 0 {
        h.push(HistoryEntryV { campaign_id, user, amount })
    } else {
        h.update(
            hi,
            HistoryEntryV { campaign_id, user, amount: (h[hi].amount + amount) as u128 },
        )
    }
}

/// Adds `amount` to the user's pending entry, creating it if absent.
fn accrue_pending(p: &mut Vec<(String, u128)>, user: &String, amount: u128)
    requires
        crate::state::pending_amount_of(pending_view(old(p)@), user@) + amount <= u128::MAX,
    ensures
        pending_view(final(p)@) == pending_after_accrue(pending_view(old(p)@), user@, amount),
{
    let ghost pv = pending_view(p@);
    let found = crate::state::pending_find(p, user);
    match found {
        Some(i) => {
            proof {
                lemma_key_index(pv, user@);
            }
            let cur = p[i].1;
            p[i] = (user.clone(), cur + amount);
            proof {
                let target = pending_after_accrue(pv, user@, amount);
                assert forall|k: int| 0 <= k < p@.len() implies pending_view(p@)[k] == target[k] by {
                    if k != i {
                        assert(p@[k] == old(p)@[k]);
                    }
                }
                assert(pending_view(p@) =~= target);
            }
        },
        None => {
            p.push((user.clone(), amount));
            proof {
                let target = pending_after_accrue(pv, user@, amount);
                assert forall|k: int| 0 <= k < p@.len() implies pending_view(p@)[k] == target[k] by {
                    if k < p@.len() - 1 {
                        assert(p@[k] == old(p)@[k]);
                    }
                }
                assert(pending_view(p@) =~= target);
            }
        },
    }
}

/// Adds `amount` to the `(campaign_id, user)` audit record, creating it
/// if absent.
fn accrue_history(h: &mut Vec<HistoryEntry>, campaign_id: u64, user: &String, amount: u128)
    requires
        crate::state::history_amount_of(
            old(h)@.map_values(|e: HistoryEntry| e@),
            campaign_id,
            user@,
        ) + amount <= u128::MAX,
    ensures
        final(h)@.map_values(|e: HistoryEntry| e@) == history_after_accrue(
            old(h)@.map_values(|e: HistoryEntry| e@),
            campaign_id,
            user@,
            amount,
        ),
{
    let ghost hv = h@.map_values(|e: HistoryEntry| e@);
    let found = crate::state::history_find(h, campaign_id, user);
    match found {
        Some(i) => {
            proof {
                lemma_history_index(hv, campaign_id, user@);
            }
            let cur = h[i].amount;
            h[i] = HistoryEntry { campaign_id, user: user.clone(), amount: cur + amount };
            proof {
                let target = history_after_accrue(hv, campaign_id, user@, amount);
                assert forall|k: int| 0 <= k < h@.len() implies h@.map_values(
                    |e: HistoryEntry| e@,
                )[k] == target[k] by {
                    if k != i {
                        assert(h@[k] == old(h)@[k]);
                    }
                }
                assert(h@.map_values(|e: HistoryEntry| e@) =~= target);
            }
        },
        None => {
            h.push(HistoryEntry { campaign_id, user: user.clone(), amount });
            proof {
                let target = history_after_accrue(hv, campaign_id, user@, amount);
                assert forall|k: int| 0 <= k < h@.len() implies h@.map_values(
                    |e: HistoryEntry| e@,
                )[k] == target[k] by {
                    if k < h@.len() - 1 {
                        assert(h@[k] == old(h)@[k]);
                    }
                }
                assert(h@.map_values(|e: HistoryEntry| e@) =~= target);
            }
        },
    }
}

/// A trigger call that changes nothing: the caller is not whitelisted, no
/// campaign was ever created, the most recent campaign is not active, its
/// budget is exhausted, or the user's tier percent is zero.
pub open spec fn trigger_noop(pre: StateV, now: u64, sender: Seq<char>, balance: u128) -> bool {
    ||| !pre.whitelist.contains(sender)
    ||| pre.last_campaign_id == 0
    ||| !pre.last_campaign().spec_in_progress(now)
    ||| pre.last_campaign().distributed_amount == pre.last_campaign().total_reward
    ||| lookup_percent(pre.config.rules, balance).atomics == 0
}

/// The amount a non-no-op trigger accrues: the converted, scaled total,
/// clamped to the campaign's remaining budget.
pub open spec fn trigger_amount(
    pre: StateV,
    tokens: Seq<AssetV>,
    balance: u128,
    prices: Seq<(AssetInfoV, u64)>,
) -> int {
    let percent = lookup_percent(pre.config.rules, balance);
    let rp = price_of(prices, pre.last_campaign().reward_token);
    let total = convert_total(scale_tokens(tokens, percent), prices, rp);
    let remaining = pre.last_campaign().total_reward - pre.last_campaign().distributed_amount;
    vstd::math::min(total, remaining)
}

/// The state after a successful accrual of `amount` to `user`: the
/// pending ledger and audit trail grow by `amount`, and so does the
/// current campaign's distributed total. Nothing else changes.
pub open spec fn trigger_apply(pre: StateV, user: Seq<char>, amount: u128) -> StateV {
    let c = pre.last_campaign();
    StateV {
        config: pre.config,
        last_campaign_id: pre.last_campaign_id,
        campaigns: pre.campaigns.update(
            pre.last_campaign_id - 1,
            CampaignV {
                id: c.id,
                start: c.start,
                end: c.end,
                total_reward: c.total_reward,
                reward_token: c.reward_token,
                distributed_amount: (c.distributed_amount + amount) as u128,
            },
        ),
        whitelist: pre.whitelist,
        pending: pending_after_accrue(pre.pending, user, amount),
        history: history_after_accrue(pre.history, pre.last_campaign_id, user, amount),
    }
}

/// Full functional specification of `execute_trigger_cash_back`: given the
/// pre-state and the call's inputs, it determines the result and the
/// post-state.
pub open spec fn trigger_cash_back_spec(
    pre: StateV,
    post: StateV,
    now: u64,
    sender: Seq<char>,
    user: Seq<char>,
    tokens: Seq<AssetV>,
    balance: u128,
    prices: Seq<(AssetInfoV, u64)>,
    r: Result<Response, ContractError>,
) -> bool {
    if trigger_noop(pre, now, sender, balance) {
        post == pre && (r matches Ok(resp) && resp@.len() == 0)
    } else {
        let rp = price_of(prices, pre.last_campaign().reward_token);
        if rp == 0 {
            post == pre && r == Err::<Response, ContractError>(ContractError::ZeroRewardAssetPrice)
        } else {
            let percent = lookup_percent(pre.config.rules, balance);
            let total = convert_total(scale_tokens(tokens, percent), prices, rp);
            if total > u128::MAX {
                post == pre && r == Err::<Response, ContractError>(ContractError::AmountOverflow)
            } else {
                let amount = trigger_amount(pre, tokens, balance, prices);
                if crate::state::pending_amount_of(pre.pending, user) + amount > u128::MAX
                    || crate::state::history_amount_of(pre.history, pre.last_campaign_id, user)
                    + amount > u128::MAX {
                    post == pre && r == Err::<Response, ContractError>(
                        ContractError::AmountOverflow,
                    )
                } else {
                    post == trigger_apply(pre, user, amount as u128) && (r matches Ok(resp)
                        && resp@.len() == 0)
                }
            }
        }
    }
}

/// Accrues cashback for a user's reported fee-asset spend.
///
/// Silently does nothing when the call is ineligible (see
/// [`trigger_noop`]); eligibility failures are deliberate no-ops, not
/// errors, so composed upstream transactions never fail on them.
/// Otherwise the user's tier percent is looked up from their balance of
/// the reference asset, the fee amounts are scaled and converted into
/// reward-asset units, the total is clamped to the campaign's remaining
/// budget, and the result is accrued atomically into the pending ledger,
/// the audit trail, and the campaign's distributed total.
pub fn execute_trigger_cash_back(
    state: &mut CashbackState,
    now: u64,
    sender: &String,
    user: &String,
    tokens: &Vec<Asset>,
    balance: u128,
    prices: &PriceTable,
) -> (r: Result<Response, ContractError>)
    requires
        old(state)@.wf(),
    ensures
        final(state)@.wf(),
        trigger_cash_back_spec(
            old(state)@,
            final(state)@,
            now,
            sender@,
            user@,
            tokens_view(tokens@),
            balance,
            prices@,
            r,
        ),
{
    let ghost pre = state@;
    if !crate::state::whitelist_contains(&state.whitelist, sender) {
        return Ok(Response::empty());
    }
    if state.last_campaign_id == 0 {
        return Ok(Response::empty());
    }
    let n = state.campaigns.len();
    proof {
        assert(state.last_campaign_id as int == n as int);
    }
    let idx: usize = (state.last_campaign_id - 1) as usize;
    proof {
        assert(idx as int == state.last_campaign_id - 1);
        assert(pre.campaigns[idx as int] == state.campaigns@[idx as int]@);
        assert(pre.last_campaign() == pre.campaigns[idx as int]);
    }
    if !state.campaigns[idx].in_progress(now)
        || state.campaigns[idx].distributed_amount == state.campaigns[idx].total_reward {
        return Ok(Response::empty());
    }
    let percent = calc_cash_back_percent(&state.config.rules, balance);
    if percent.is_zero() {
        return Ok(Response::empty());
    }
    proof {
        lemma_lookup_percent_le_one(pre.config.rules, balance);
    }
    let scaled = scale_all_tokens(tokens, percent);
    let total = match convert_to_reward_token(&scaled, prices, &state.campaigns[idx].reward_token) {
        Err(e) => {
            return Err(e);
        },
        Ok(t) => t,
    };
    let remaining = state.campaigns[idx].total_reward - state.campaigns[idx].distributed_amount;
    let amount = if total > remaining {
        remaining
    } else {
        total
    };
    proof {
        let ghost rp = price_of(prices@, pre.last_campaign().reward_token);
        let ghost sv = tokens_view(scaled@);
        assert(sv.take(0) =~= Seq::<AssetV>::empty());
        lemma_convert_prefix_le(sv, 0, prices@, rp);
        assert(convert_total(sv, prices@, rp) >= 0);
        assert(total as int == convert_total(sv, prices@, rp));
        assert(amount == trigger_amount(pre, tokens_view(tokens@), balance, prices@));
    }
    let pending_idx = crate::state::pending_find(&state.pending, user);
    let pending_cur: u128 = match pending_idx {
        Some(i) => {
            proof {
                lemma_key_index(pre.pending, user@);
            }
            state.pending[i].1
        },
        None => 0,
    };
    if pending_cur > u128::MAX - amount {
        return Err(ContractError::AmountOverflow);
    }
    let history_idx = crate::state::history_find(&state.history, state.last_campaign_id, user);
    let history_cur: u128 = match history_idx {
        Some(i) => {
            proof {
                lemma_history_index(
                    pre.history,
                    state.last_campaign_id,
                    user@,
                );
            }
            state.history[i].amount
        },
        None => 0,
    };
    if history_cur > u128::MAX - amount {
        return Err(ContractError::AmountOverflow);
    }
    // All checks passed: commit every mutation.
    accrue_pending(&mut state.pending, user, amount);
    accrue_history(&mut state.history, state.last_campaign_id, user, amount);
    let new_distributed = state.campaigns[idx].distributed_amount + amount;
    let updated = Campaign {
        id: state.campaigns[idx].id,
        start: state.campaigns[idx].start,
        end: state.campaigns[idx].end,
        total_reward: state.campaigns[idx].total_reward,
        reward_token: state.campaigns[idx].reward_token.clone(),
        distributed_amount: new_distributed,
    };
    state.campaigns[idx] = updated;
    proof {
        let post = state@;
        let target = trigger_apply(pre, user@, amount);
        assert forall|k: int| 0 <= k < post.campaigns.len() implies post.campaigns[k]
            == target.campaigns[k] by {
            if k != idx as int {
                assert(state.campaigns@[k] == old(state).campaigns@[k]);
            }
        }
        assert(post.campaigns =~= target.campaigns);
        assert(post.whitelist =~= pre.whitelist);
        assert(post =~= target);
        lemma_trigger_apply_wf(pre, user@, amount);
    }
    Ok(Response::empty())
}

/// A successful accrual preserves the state invariant.
proof fn lemma_trigger_apply_wf(pre: StateV, user: Seq<char>, amount: u128)
    requires
        pre.wf(),
        pre.last_campaign_id > 0,
        pre.last_campaign().distributed_amount + amount <= pre.last_campaign().total_reward,
        crate::state::pending_amount_of(pre.pending, user) + amount <= u128::MAX,
        crate::state::history_amount_of(pre.history, pre.last_campaign_id, user) + amount
            <= u128::MAX,
    ensures
        trigger_apply(pre, user, amount).wf(),
{
    let post = trigger_apply(pre, user, amount);
    lemma_key_index(pre.pending, user);
    lemma_history_index(pre.history, pre.last_campaign_id, user);
    let ki = key_index(pre.pending, user);
    assert forall|i: int, j: int| 0 <= i < j < post.pending.len() implies post.pending[i].0
        != post.pending[j].0 by {
        if ki < 0 {
            if j < post.pending.len() - 1 {
                assert(post.pending[i] == pre.pending[i]);
                assert(post.pending[j] == pre.pending[j]);
            } else {
                assert(post.pending[i] == pre.pending[i]);
            }
        } else {
            assert(post.pending[i].0 == pre.pending[i].0);
            assert(post.pending[j].0 == pre.pending[j].0);
        }
    }
    let hi = history_index(pre.history, pre.last_campaign_id, user);
    assert forall|i: int, j: int| 0 <= i < j < post.history.len() implies !(post.history[i].campaign_id
        == post.history[j].campaign_id && post.history[i].user == post.history[j].user) by {
        if hi < 0 {
            if j < post.history.len() - 1 {
                assert(post.history[i] == pre.history[i]);
                assert(post.history[j] == pre.history[j]);
            } else {
                assert(post.history[i] == pre.history[i]);
            }
        } else {
            assert(post.history[i].campaign_id == pre.history[i].campaign_id);
            assert(post.history[i].user == pre.history[i].user);
            assert(post.history[j].campaign_id == pre.history[j].campaign_id);
            assert(post.history[j].user == pre.history[j].user);
        }
    }
}

/// A caller never added to the whitelist cannot change anything: the
/// trigger succeeds and leaves the ledger, the audit trail, and every
/// campaign exactly as they were.
pub proof fn lemma_unauthorized_trigger_is_noop(
    pre: StateV,
    post: StateV,
    now: u64,
    sender: Seq<char>,
    user: Seq<char>,
    tokens: Seq<AssetV>,
    balance: u128,
    prices: Seq<(AssetInfoV, u64)>,
    r: Result<Response, ContractError>,
)
    requires
        trigger_cash_back_spec(pre, post, now, sender, user, tokens, balance, prices, r),
        !pre.whitelist.contains(sender),
    ensures
        post == pre,
        r is Ok,
{
}

/// Whatever a trigger call does, no campaign's distributed total ever
/// passes its budget: each accrual is clamped to the remaining budget
/// before it is committed. Since every trigger preserves the invariant,
/// this holds across any sequence of trigger calls.
pub proof fn lemma_trigger_budget_safe(
    pre: StateV,
    post: StateV,
    now: u64,
    sender: Seq<char>,
    user: Seq<char>,
    tokens: Seq<AssetV>,
    balance: u128,
    prices: Seq<(AssetInfoV, u64)>,
    r: Result<Response, ContractError>,
)
    requires
        pre.wf(),
        trigger_cash_back_spec(pre, post, now, sender, user, tokens, balance, prices, r),
    ensures
        forall|i: int|
            0 <= i < post.campaigns.len()
                ==> (#[trigger] post.campaigns[i]).distributed_amount
                <= post.campaigns[i].total_reward,
{
    if !trigger_noop(pre, now, sender, balance) {
        let rp = price_of(prices, pre.last_campaign().reward_token);
        if rp != 0 {
            let percent = lookup_percent(pre.config.rules, balance);
            let scaled = scale_tokens(tokens, percent);
            let total = convert_total(scaled, prices, rp);
            assert(scaled.take(0) =~= Seq::<AssetV>::empty());
            lemma_convert_prefix_le(scaled, 0, prices, rp);
            if total <= u128::MAX {
                let amount = trigger_amount(pre, tokens, balance, prices);
                if crate::state::pending_amount_of(pre.pending, user) + amount <= u128::MAX
                    && crate::state::history_amount_of(pre.history, pre.last_campaign_id, user)
                    + amount <= u128::MAX {
                    assert(post == trigger_apply(pre, user, amount as u128));
                }
            }
        }
    }
}

/// Sum of the amounts of a batch of transfer instructions.
pub open spec fn sum_transfers(msgs: Seq<TransferMsgV>) -> int
    decreases msgs.len(),
{
    if msgs.len() == 0 {
        0
    } else {
        msgs[0].amount + sum_transfers(msgs.drop_first())
    }
}

/// Instructions that mirror the ledger entry-by-entry carry the same
/// total amount.
proof fn lemma_sum_matches(msgs: Seq<TransferMsgV>, pending: Seq<(Seq<char>, u128)>)
    requires
        msgs.len() == pending.len(),
        forall|k: int| 0 <= k < msgs.len() ==> (#[trigger] msgs[k]).amount == pending[k].1,
    ensures
        sum_transfers(msgs) == crate::state::sum_pending(pending),
    decreases msgs.len(),
{
    if msgs.len() != 0 {
        assert forall|k: int| 0 <= k < msgs.drop_first().len() implies (#[trigger] msgs.drop_first()[k]).amount
            == pending.drop_first()[k].1 by {
            assert(msgs.drop_first()[k] == msgs[k + 1]);
            assert(pending.drop_first()[k] == pending[k + 1]);
        }
        lemma_sum_matches(msgs.drop_first(), pending.drop_first());
    }
}

/// Full functional specification of `execute_cash_back`: settlement
/// drains the whole ledger into one transfer instruction per entry,
/// denominated in the most recent campaign's reward asset; with no
/// campaign ever created it does nothing.
pub open spec fn settle_spec(pre: StateV, post: StateV, r: Result<Response, ContractError>) -> bool {
    if pre.last_campaign_id == 0 {
        post == pre && (r matches Ok(resp) && resp@.len() == 0)
    } else {
        &&& post == (StateV {
            config: pre.config,
            last_campaign_id: pre.last_campaign_id,
            campaigns: pre.campaigns,
            whitelist: pre.whitelist,
            pending: Seq::empty(),
            history: pre.history,
        })
        &&& r matches Ok(resp) && resp@.len() == pre.pending.len() && (forall|k: int|
            0 <= k < pre.pending.len() ==> resp@[k] == (TransferMsgV {
                asset: pre.last_campaign().reward_token,
                amount: pre.pending[k].1,
                recipient: pre.pending[k].0,
            }))
    }
}

/// Settlement: captures every pending ledger entry, empties the ledger,
/// and emits one transfer instruction per captured entry. The drained
/// total equals the sum of all pending amounts immediately before the
/// call; campaign accounting is untouched, since the budget was already
/// charged at accrual time.
pub fn execute_cash_back(state: &mut CashbackState) -> (r: Result<Response, ContractError>)
    requires
        old(state)@.wf(),
    ensures
        final(state)@.wf(),
        settle_spec(old(state)@, final(state)@, r),
        final(state)@.pending.len() == 0,
        r matches Ok(resp) ==> sum_transfers(resp@) == crate::state::sum_pending(
            old(state)@.pending,
        ),
{
    let ghost pre = state@;
    if state.last_campaign_id == 0 {
        return Ok(Response::empty());
    }
    let n = state.campaigns.len();
    proof {
        assert(state.last_campaign_id as int == n as int);
    }
    let idx: usize = (state.last_campaign_id - 1) as usize;
    proof {
        assert(idx as int == state.last_campaign_id - 1);
        assert(pre.campaigns[idx as int] == state.campaigns@[idx as int]@);
        assert(pre.last_campaign() == pre.campaigns[idx as int]);
    }
    let reward_token = state.campaigns[idx].reward_token.clone();
    let mut messages: Vec<TransferMsg> = Vec::new();
    let mut i: usize = 0;
    while i < state.pending.len()
        invariant
            i <= state.pending@.len(),
            pre == state@,
            reward_token@ == pre.last_campaign().reward_token,
            messages@.len() == i,
            forall|k: int| 0 <= k < i ==> messages@.map_values(|m: TransferMsg| m@)[k]
                == (TransferMsgV {
                asset: pre.last_campaign().reward_token,
                amount: pre.pending[k].1,
                recipient: pre.pending[k].0,
            }),
        decreases state.pending@.len() - i,
    {
        let m = build_transfer_msg(&reward_token, state.pending[i].1, &state.pending[i].0);
        let ghost prevm = messages@;
        messages.push(m);
        proof {
            assert forall|k: int| 0 <= k < i + 1 implies messages@.map_values(
                |m: TransferMsg| m@,
            )[k] == (TransferMsgV {
                asset: pre.last_campaign().reward_token,
                amount: pre.pending[k].1,
                recipient: pre.pending[k].0,
            }) by {
                if k < i {
                    assert(messages@[k] == prevm[k]);
                } else {
                    assert(messages@[k] == m);
                    assert(pre.pending[k] == (state.pending@[k].0@, state.pending@[k].1));
                }
            }
        }
        i += 1;
    }
    state.pending.clear();
    proof {
        let post = state@;
        assert(post.pending =~= Seq::<(Seq<char>, u128)>::empty());
        assert(post =~= (StateV {
            config: pre.config,
            last_campaign_id: pre.last_campaign_id,
            campaigns: pre.campaigns,
            whitelist: pre.whitelist,
            pending: Seq::empty(),
            history: pre.history,
        }));
        let resp = Response { messages };
        assert(resp@.len() == pre.pending.len());
        lemma_sum_matches(resp@, pre.pending);
    }
    Ok(Response { messages })
}

} // verus!
