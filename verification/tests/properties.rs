use cash_back::asset::{Asset, AssetInfo};
use cash_back::cash_back::{
    calc_cash_back_percent, convert_to_reward_token, execute_cash_back,
    execute_trigger_cash_back, get_token_price, PriceTable,
};
use cash_back::contract::{execute, instantiate, query};
use cash_back::error::ContractError;
use cash_back::helpers::{sort_rules, validate_cash_back_rule};
use cash_back::msg::{ExecuteMsg, InstantiateMsg, QueryMsg, QueryResponse};
use cash_back::percent::{apply_percent, mul_div_floor, Percent, PERCENT_SCALE};
use cash_back::state::CashbackState;

fn tenths(t: u64) -> Percent {
    Percent::new(t * 100_000_000_000_000_000)
}

fn orai() -> AssetInfo {
    AssetInfo::NativeToken { denom: "orai".to_string() }
}

fn oraix() -> AssetInfo {
    AssetInfo::Token { contract_addr: "oraix".to_string() }
}

fn fresh_state(rules: Option<Vec<(u128, Percent)>>) -> CashbackState {
    instantiate(InstantiateMsg {
        owner: "admin".to_string(),
        underlying_token: oraix(),
        rules,
    })
    .unwrap()
}

fn tier_rules() -> Vec<(u128, Percent)> {
    vec![
        (100u128, tenths(1)),
        (200u128, tenths(2)),
        (300u128, tenths(3)),
        (400u128, tenths(4)),
    ]
}

fn pending_of(state: &CashbackState, user: &str) -> u128 {
    match query(state, QueryMsg::PendingCashBack { user: user.to_string() }).unwrap() {
        QueryResponse::PendingCashBack(p) => p,
        _ => panic!("unexpected query answer"),
    }
}

#[test]
fn rule_validation_rejects_percent_above_one() {
    let bad = vec![(100u128, Percent::new(PERCENT_SCALE + 1))];
    assert_eq!(
        validate_cash_back_rule(&bad),
        Err(ContractError::InvalidPercent)
    );
    assert_eq!(
        instantiate(InstantiateMsg {
            owner: "admin".to_string(),
            underlying_token: oraix(),
            rules: Some(bad.clone()),
        })
        .err(),
        Some(ContractError::InvalidPercent)
    );

    // an update carrying the same table is rejected and changes nothing
    let mut state = fresh_state(Some(tier_rules()));
    let before = state.config.rules.clone();
    let r = execute(
        &mut state,
        0,
        &"admin".to_string(),
        ExecuteMsg::UpdateConfig { owner: None, underlying_token: None, rules: Some(bad) },
        0,
        &PriceTable::identity(),
    );
    assert_eq!(r, Err(ContractError::InvalidPercent));
    assert_eq!(state.config.rules, before);

    // a percent of exactly one is accepted
    assert!(validate_cash_back_rule(&vec![(1u128, Percent::new(PERCENT_SCALE))]).is_ok());
}

#[test]
fn rules_are_stored_sorted_descending() {
    let state = fresh_state(Some(tier_rules()));
    assert_eq!(
        state.config.rules,
        vec![
            (400u128, tenths(4)),
            (300u128, tenths(3)),
            (200u128, tenths(2)),
            (100u128, tenths(1)),
        ]
    );
}

#[test]
fn sort_is_stable_on_equal_thresholds() {
    let rules = vec![
        (100u128, tenths(1)),
        (200u128, tenths(5)),
        (100u128, tenths(2)),
        (100u128, tenths(3)),
    ];
    let sorted = sort_rules(&rules);
    assert_eq!(
        sorted,
        vec![
            (200u128, tenths(5)),
            (100u128, tenths(1)),
            (100u128, tenths(2)),
            (100u128, tenths(3)),
        ]
    );
}

#[test]
fn tier_lookup_returns_highest_qualifying_tier() {
    let sorted = sort_rules(&tier_rules());
    assert_eq!(calc_cash_back_percent(&sorted, 50), Percent::new(0));
    assert_eq!(calc_cash_back_percent(&sorted, 150), tenths(1));
    assert_eq!(calc_cash_back_percent(&sorted, 250), tenths(2));
    assert_eq!(calc_cash_back_percent(&sorted, 999), tenths(4));
    // boundary: a threshold qualifies at exactly its own balance
    assert_eq!(calc_cash_back_percent(&sorted, 400), tenths(4));
    // empty rule set yields zero percent
    assert_eq!(calc_cash_back_percent(&vec![], 999), Percent::new(0));
}

#[test]
fn campaign_ids_count_up_from_one() {
    let mut state = fresh_state(None);
    let prices = PriceTable::identity();
    let admin = "admin".to_string();
    for round in 0..3u64 {
        let start = 1000 * round;
        let msg = ExecuteMsg::CreateCampaign {
            start,
            end: start + 100,
            reward_token: orai(),
            total_reward: 10u128,
        };
        execute(&mut state, start, &admin, msg, 0, &prices).unwrap();
    }
    assert_eq!(state.last_campaign_id, 3);
    let ids: Vec<u64> = state.campaigns.iter().map(|c| c.id).collect();
    assert_eq!(ids, vec![1, 2, 3]);
}

#[test]
fn creating_over_a_running_campaign_fails() {
    let mut state = fresh_state(None);
    let prices = PriceTable::identity();
    let admin = "admin".to_string();
    let msg = ExecuteMsg::CreateCampaign {
        start: 100,
        end: 200,
        reward_token: orai(),
        total_reward: 10u128,
    };
    execute(&mut state, 100, &admin, msg, 0, &prices).unwrap();
    let msg = ExecuteMsg::CreateCampaign {
        start: 300,
        end: 400,
        reward_token: orai(),
        total_reward: 10u128,
    };
    // still inside the first window: its end has not passed
    let r = execute(&mut state, 200, &admin, msg, 0, &prices);
    assert_eq!(r, Err(ContractError::CampaignInProgress));
}

#[test]
fn campaign_time_window_is_validated() {
    let mut state = fresh_state(None);
    let prices = PriceTable::identity();
    let admin = "admin".to_string();
    let msg = ExecuteMsg::CreateCampaign {
        start: 200,
        end: 100,
        reward_token: orai(),
        total_reward: 10u128,
    };
    assert_eq!(
        execute(&mut state, 0, &admin, msg, 0, &prices),
        Err(ContractError::InvalidCampaignTime)
    );

    // an edit may not invert the window either
    let msg = ExecuteMsg::CreateCampaign {
        start: 100,
        end: 200,
        reward_token: orai(),
        total_reward: 10u128,
    };
    execute(&mut state, 0, &admin, msg, 0, &prices).unwrap();
    let msg = ExecuteMsg::EditCampaign { id: 1, start: Some(300), end: None, total_reward: None };
    assert_eq!(
        execute(&mut state, 100, &admin, msg, 0, &prices),
        Err(ContractError::InvalidCampaignTime)
    );

    // editing an unknown campaign id fails
    let msg = ExecuteMsg::EditCampaign { id: 7, start: None, end: None, total_reward: None };
    assert_eq!(
        execute(&mut state, 100, &admin, msg, 0, &prices),
        Err(ContractError::CampaignNotFound)
    );
}

#[test]
fn edit_cannot_cut_total_reward_below_distributed() {
    let mut state = fresh_state(Some(tier_rules()));
    let prices = PriceTable::identity();
    let admin = "admin".to_string();
    let caller = "contract001".to_string();
    execute(
        &mut state,
        0,
        &admin,
        ExecuteMsg::WhitelistContract { contract: caller.clone() },
        0,
        &prices,
    )
    .unwrap();
    let msg = ExecuteMsg::CreateCampaign {
        start: 100,
        end: 200,
        reward_token: orai(),
        total_reward: 1000u128,
    };
    execute(&mut state, 100, &admin, msg, 0, &prices).unwrap();
    let msg = ExecuteMsg::TriggerCashBack {
        user: "addr000".to_string(),
        tokens: vec![Asset { info: orai(), amount: 1000u128 }],
    };
    execute(&mut state, 100, &caller, msg, 150, &prices).unwrap();
    assert_eq!(state.campaigns[0].distributed_amount, 100u128);

    let msg = ExecuteMsg::EditCampaign { id: 1, start: None, end: None, total_reward: Some(50) };
    assert_eq!(
        execute(&mut state, 100, &admin, msg, 0, &prices),
        Err(ContractError::InvalidTotalReward)
    );

    let msg = ExecuteMsg::EditCampaign { id: 1, start: None, end: None, total_reward: Some(100) };
    assert!(execute(&mut state, 100, &admin, msg, 0, &prices).is_ok());
}

#[test]
fn unauthorized_trigger_changes_nothing() {
    let mut state = fresh_state(Some(tier_rules()));
    let prices = PriceTable::identity();
    let admin = "admin".to_string();
    let msg = ExecuteMsg::CreateCampaign {
        start: 100,
        end: 200,
        reward_token: orai(),
        total_reward: 1000u128,
    };
    execute(&mut state, 100, &admin, msg, 0, &prices).unwrap();

    let pending_before = state.pending.clone();
    let history_before = state.history.clone();
    let campaigns_before = state.campaigns.clone();

    // the caller was never whitelisted: success, but a complete no-op
    let r = execute_trigger_cash_back(
        &mut state,
        100,
        &"contract009".to_string(),
        &"addr000".to_string(),
        &vec![Asset { info: orai(), amount: 5000u128 }],
        999,
        &prices,
    );
    assert!(r.is_ok());
    assert_eq!(state.pending, pending_before);
    assert_eq!(state.history, history_before);
    assert_eq!(state.campaigns, campaigns_before);
}

#[test]
fn budget_is_never_exceeded() {
    let mut state = fresh_state(Some(tier_rules()));
    let prices = PriceTable::identity();
    let admin = "admin".to_string();
    let caller = "contract001".to_string();
    execute(
        &mut state,
        0,
        &admin,
        ExecuteMsg::WhitelistContract { contract: caller.clone() },
        0,
        &prices,
    )
    .unwrap();
    let msg = ExecuteMsg::CreateCampaign {
        start: 100,
        end: 200,
        reward_token: orai(),
        total_reward: 250u128,
    };
    execute(&mut state, 100, &admin, msg, 0, &prices).unwrap();

    // each accrual of 100 is clamped against the remaining budget
    for _ in 0..5 {
        let msg = ExecuteMsg::TriggerCashBack {
            user: "addr000".to_string(),
            tokens: vec![Asset { info: orai(), amount: 1000u128 }],
        };
        execute(&mut state, 100, &caller, msg, 150, &prices).unwrap();
        assert!(state.campaigns[0].distributed_amount <= 250u128);
    }
    assert_eq!(state.campaigns[0].distributed_amount, 250u128);
    assert_eq!(pending_of(&state, "addr000"), 250u128);
}

#[test]
fn settlement_drains_every_entry() {
    let mut state = fresh_state(Some(tier_rules()));
    let prices = PriceTable::identity();
    let admin = "admin".to_string();
    let caller = "contract001".to_string();
    execute(
        &mut state,
        0,
        &admin,
        ExecuteMsg::WhitelistContract { contract: caller.clone() },
        0,
        &prices,
    )
    .unwrap();
    let msg = ExecuteMsg::CreateCampaign {
        start: 100,
        end: 200,
        reward_token: orai(),
        total_reward: 1000u128,
    };
    execute(&mut state, 100, &admin, msg, 0, &prices).unwrap();

    for user in ["addr000", "addr001", "addr002"] {
        let msg = ExecuteMsg::TriggerCashBack {
            user: user.to_string(),
            tokens: vec![Asset { info: orai(), amount: 1000u128 }],
        };
        execute(&mut state, 100, &caller, msg, 150, &prices).unwrap();
    }
    let sum_before: u128 = state.pending.iter().map(|p| p.1).sum();
    assert_eq!(sum_before, 300u128);

    let resp = execute_cash_back(&mut state).unwrap();
    assert_eq!(resp.messages.len(), 3);
    let emitted: u128 = resp.messages.iter().map(|m| m.amount).sum();
    assert_eq!(emitted, sum_before);
    for (i, user) in ["addr000", "addr001", "addr002"].iter().enumerate() {
        assert_eq!(resp.messages[i].recipient, user.to_string());
        assert_eq!(resp.messages[i].amount, 100u128);
        assert_eq!(resp.messages[i].asset, orai());
    }
    assert!(state.pending.is_empty());
    for user in ["addr000", "addr001", "addr002"] {
        assert_eq!(pending_of(&state, user), 0u128);
    }

    // settling with no campaign ever created is a no-op
    let mut empty = fresh_state(None);
    let resp = execute_cash_back(&mut empty).unwrap();
    assert!(resp.messages.is_empty());
}

#[test]
fn history_accumulates_per_campaign() {
    let mut state = fresh_state(Some(tier_rules()));
    let prices = PriceTable::identity();
    let admin = "admin".to_string();
    let caller = "contract001".to_string();
    execute(
        &mut state,
        0,
        &admin,
        ExecuteMsg::WhitelistContract { contract: caller.clone() },
        0,
        &prices,
    )
    .unwrap();
    let msg = ExecuteMsg::CreateCampaign {
        start: 100,
        end: 200,
        reward_token: orai(),
        total_reward: 1000u128,
    };
    execute(&mut state, 100, &admin, msg, 0, &prices).unwrap();

    for _ in 0..2 {
        let msg = ExecuteMsg::TriggerCashBack {
            user: "addr000".to_string(),
            tokens: vec![Asset { info: orai(), amount: 1000u128 }],
        };
        execute(&mut state, 100, &caller, msg, 150, &prices).unwrap();
    }
    assert_eq!(state.history.len(), 1);
    assert_eq!(state.history[0].campaign_id, 1);
    assert_eq!(state.history[0].user, "addr000".to_string());
    assert_eq!(state.history[0].amount, 200u128);

    // settlement does not touch the audit trail
    execute_cash_back(&mut state).unwrap();
    assert_eq!(state.history[0].amount, 200u128);
}

#[test]
fn prices_convert_fee_assets_into_reward_units() {
    let table = PriceTable {
        entries: vec![(orai(), 3u64), (oraix(), 2u64)],
    };
    assert_eq!(get_token_price(&table, &orai()), 3);
    assert_eq!(get_token_price(&table, &oraix()), 2);
    // absent assets default to the identity price
    assert_eq!(
        get_token_price(&table, &AssetInfo::NativeToken { denom: "atom".to_string() }),
        1
    );

    // floor(100 * 3 / 2) = 150
    let tokens = vec![Asset { info: orai(), amount: 100u128 }];
    assert_eq!(convert_to_reward_token(&tokens, &table, &oraix()), Ok(150u128));
    // floor(101 * 3 / 2) = 151
    let tokens = vec![Asset { info: orai(), amount: 101u128 }];
    assert_eq!(convert_to_reward_token(&tokens, &table, &oraix()), Ok(151u128));

    // a zero reward-asset price is a fatal input
    let zero = PriceTable { entries: vec![(oraix(), 0u64)] };
    let tokens = vec![Asset { info: orai(), amount: 100u128 }];
    assert_eq!(
        convert_to_reward_token(&tokens, &zero, &oraix()),
        Err(ContractError::ZeroRewardAssetPrice)
    );

    // a converted total beyond the integer range is an overflow error
    let doubling = PriceTable { entries: vec![(orai(), 2u64)] };
    let tokens = vec![Asset { info: orai(), amount: u128::MAX }];
    assert_eq!(
        convert_to_reward_token(&tokens, &doubling, &oraix()),
        Err(ContractError::AmountOverflow)
    );
}

#[test]
fn percent_scaling_rounds_down() {
    assert_eq!(apply_percent(999u128, Percent::new(100_000_000_000_000_000)), 99u128);
    assert_eq!(apply_percent(1000u128, Percent::new(100_000_000_000_000_000)), 100u128);
    assert_eq!(apply_percent(u128::MAX, Percent::one()), u128::MAX);
    assert_eq!(apply_percent(12345u128, Percent::zero()), 0u128);
    assert!(Percent::zero().is_zero());
    assert_eq!(Percent::one(), Percent::new(PERCENT_SCALE));

    assert_eq!(mul_div_floor(7u128, 3u64, 2u64), Some(10u128));
    assert_eq!(mul_div_floor(u128::MAX, 2u64, 2u64), Some(u128::MAX));
    assert_eq!(mul_div_floor(u128::MAX, 2u64, 1u64), None);
}

#[test]
fn end_to_end_tiered_campaign() {
    let mut state = fresh_state(Some(tier_rules()));
    let prices = PriceTable::identity();
    let admin = "admin".to_string();
    let caller = "contract001".to_string();
    let user = "addr000";
    execute(
        &mut state,
        0,
        &admin,
        ExecuteMsg::WhitelistContract { contract: caller.clone() },
        0,
        &prices,
    )
    .unwrap();
    let msg = ExecuteMsg::CreateCampaign {
        start: 100,
        end: 500,
        reward_token: oraix(),
        total_reward: 1000u128,
    };
    execute(&mut state, 100, &admin, msg, 0, &prices).unwrap();

    let fee_assets = || vec![
        Asset { info: orai(), amount: 1000u128 },
        Asset { info: AssetInfo::Token { contract_addr: "usdt".to_string() }, amount: 2000u128 },
    ];
    let trigger = || ExecuteMsg::TriggerCashBack { user: user.to_string(), tokens: fee_assets() };

    // balance 0: percent 0, pending stays 0
    execute(&mut state, 100, &caller, trigger(), 0, &prices).unwrap();
    assert_eq!(pending_of(&state, user), 0u128);

    // balance 150 (tier 10%): min(3000 * 0.1, 1000 - 0) = 300
    execute(&mut state, 100, &caller, trigger(), 150, &prices).unwrap();
    assert_eq!(pending_of(&state, user), 300u128);
    assert_eq!(state.campaigns[0].distributed_amount, 300u128);

    // balance 250 (tier 20%): min(600, 700) = 600
    execute(&mut state, 100, &caller, trigger(), 250, &prices).unwrap();
    assert_eq!(pending_of(&state, user), 900u128);
    assert_eq!(state.campaigns[0].distributed_amount, 900u128);

    // settle: one instruction of 900 to the user, pending resets
    let resp = execute(&mut state, 100, &admin, ExecuteMsg::CashBack {}, 0, &prices).unwrap();
    assert_eq!(resp.messages.len(), 1);
    assert_eq!(resp.messages[0].amount, 900u128);
    assert_eq!(resp.messages[0].recipient, user.to_string());
    assert_eq!(pending_of(&state, user), 0u128);

    // same trigger again: min(600, 1000 - 900) = 100, budget exhausted
    execute(&mut state, 100, &caller, trigger(), 250, &prices).unwrap();
    assert_eq!(pending_of(&state, user), 100u128);
    assert_eq!(state.campaigns[0].distributed_amount, 1000u128);
}

#[test]
fn ledger_snapshot_and_campaign_queries() {
    let mut state = fresh_state(Some(tier_rules()));
    let prices = PriceTable::identity();
    let admin = "admin".to_string();
    let caller = "contract001".to_string();
    execute(
        &mut state,
        0,
        &admin,
        ExecuteMsg::WhitelistContract { contract: caller.clone() },
        0,
        &prices,
    )
    .unwrap();
    let msg = ExecuteMsg::CreateCampaign {
        start: 100,
        end: 200,
        reward_token: orai(),
        total_reward: 1000u128,
    };
    execute(&mut state, 100, &admin, msg, 0, &prices).unwrap();

    // campaign state boundaries
    assert!(state.campaigns[0].in_progress(100));
    assert!(state.campaigns[0].in_progress(200));
    assert!(!state.campaigns[0].in_progress(99));
    assert!(!state.campaigns[0].is_finished(200));
    assert!(state.campaigns[0].is_finished(201));

    for user in ["addr000", "addr001"] {
        let msg = ExecuteMsg::TriggerCashBack {
            user: user.to_string(),
            tokens: vec![Asset { info: orai(), amount: 1000u128 }],
        };
        execute(&mut state, 100, &caller, msg, 150, &prices).unwrap();
    }
    // the snapshot mirrors the ledger and leaves it untouched
    let snapshot = state.read_all_pending_cash_back();
    assert_eq!(
        snapshot,
        vec![("addr000".to_string(), 100u128), ("addr001".to_string(), 100u128)]
    );
    assert_eq!(state.pending.len(), 2);

    // campaign lookup by id, known and unknown
    match query(&state, QueryMsg::Campaign { id: 1 }).unwrap() {
        QueryResponse::Campaign(c) => assert_eq!(c.id, 1),
        _ => panic!("unexpected query answer"),
    }
    assert_eq!(
        query(&state, QueryMsg::Campaign { id: 2 }),
        Err(ContractError::CampaignNotFound)
    );
    assert_eq!(
        query(&fresh_state(None), QueryMsg::LastCampaign {}),
        Err(ContractError::CampaignNotFound)
    );
}

#[test]
fn whitelist_misuse_is_rejected() {
    let mut state = fresh_state(None);
    let prices = PriceTable::identity();
    let admin = "admin".to_string();
    let msg = ExecuteMsg::WhitelistContract { contract: "contract001".to_string() };
    execute(&mut state, 0, &admin, msg, 0, &prices).unwrap();

    let msg = ExecuteMsg::WhitelistContract { contract: "contract001".to_string() };
    assert_eq!(
        execute(&mut state, 0, &admin, msg, 0, &prices),
        Err(ContractError::DuplicateCaller)
    );
    let msg = ExecuteMsg::RemoveContract { contract: "contract007".to_string() };
    assert_eq!(
        execute(&mut state, 0, &admin, msg, 0, &prices),
        Err(ContractError::UnknownCaller)
    );
    let msg = ExecuteMsg::UpdateConfig { owner: None, underlying_token: None, rules: None };
    assert_eq!(
        execute(&mut state, 0, &"mallory".to_string(), msg, 0, &prices),
        Err(ContractError::Unauthorized)
    );
}

#[test]
fn trigger_reports_reward_price_and_overflow_failures() {
    let mut state = fresh_state(Some(vec![(100u128, Percent::new(PERCENT_SCALE))]));
    let admin = "admin".to_string();
    let caller = "contract001".to_string();
    let identity = PriceTable::identity();
    execute(
        &mut state,
        0,
        &admin,
        ExecuteMsg::WhitelistContract { contract: caller.clone() },
        0,
        &identity,
    )
    .unwrap();
    let msg = ExecuteMsg::CreateCampaign {
        start: 100,
        end: 200,
        reward_token: oraix(),
        total_reward: u128::MAX,
    };
    execute(&mut state, 100, &admin, msg, 0, &identity).unwrap();

    // the price source values the reward asset at zero: a hard error
    let zero = PriceTable { entries: vec![(oraix(), 0u64)] };
    let msg = ExecuteMsg::TriggerCashBack {
        user: "addr000".to_string(),
        tokens: vec![Asset { info: orai(), amount: 10u128 }],
    };
    let before = state.pending.clone();
    assert_eq!(
        execute(&mut state, 100, &caller, msg, 150, &zero),
        Err(ContractError::ZeroRewardAssetPrice)
    );
    assert_eq!(state.pending, before);

    // a conversion that exceeds the integer range aborts without effects
    let doubling = PriceTable { entries: vec![(orai(), 2u64)] };
    let msg = ExecuteMsg::TriggerCashBack {
        user: "addr000".to_string(),
        tokens: vec![Asset { info: orai(), amount: u128::MAX }],
    };
    assert_eq!(
        execute(&mut state, 100, &caller, msg, 150, &doubling),
        Err(ContractError::AmountOverflow)
    );
    assert_eq!(state.pending, before);
}
