//! The engine's state: configuration, campaigns, whitelist, and ledgers.
//!
//! The host environment delivers one call at a time, and each operation
//! either commits in full or leaves the state untouched, so the state is
//! modeled as one value passed explicitly into every operation.

use vstd::prelude::*;

use crate::asset::{AssetInfo, AssetInfoV};
use crate::percent::Percent;

verus! {

/// Owner, reference asset, and the tier rule table.
///
/// Each rule pairs a balance threshold with the cashback percent granted
/// from that balance upward. Stored sorted by threshold descending, with
/// every percent at most one.
#[derive(Debug, PartialEq, Eq)]
pub struct Config {
    pub owner: String,
    pub underlying_token: AssetInfo,
    pub rules: Vec<(u128, Percent)>,
}

/// Mathematical value of a [`Config`].
#[verifier::ext_equal]
pub struct ConfigV {
    pub owner: Seq<char>,
    pub underlying_token: AssetInfoV,
    pub rules: Seq<(u128, Percent)>,
}

impl View for Config {
    type V = ConfigV;

    open spec fn view(&self) -> ConfigV {
        ConfigV {
            owner: self.owner@,
            underlying_token: self.underlying_token@,
            rules: self.rules@,
        }
    }
}

/// The rules are sorted by threshold descending.
pub open spec fn rules_sorted(rules: Seq<(u128, Percent)>) -> bool {
    forall|i: int, j: int| 0 <= i < j < rules.len() ==> rules[i].0 >= rules[j].0
}

/// Every rule's percent is at most one.
pub open spec fn rules_valid(rules: Seq<(u128, Percent)>) -> bool {
    forall|i: int| 0 <= i < rules.len() ==> (#[trigger] rules[i]).1.le_one()
}

impl ConfigV {
    pub open spec fn wf(self) -> bool {
        rules_sorted(self.rules) && rules_valid(self.rules)
    }
}

/// An exact copy of a rule table; rule pairs are plain copies.
pub fn copy_rules(v: &Vec<(u128, Percent)>) -> (r: Vec<(u128, Percent)>)
    ensures
        r@ == v@,
{
    let mut out: Vec<(u128, Percent)> = Vec::new();
    let mut i: usize = 0;
    while i < v.len()
        invariant
            i <= v@.len(),
            out@ == v@.take(i as int),
        decreases v@.len() - i,
    {
        out.push(v[i]);
        proof {
            assert(out@ =~= v@.take(i + 1));
        }
        i += 1;
    }
    proof {
        assert(out@ =~= v@);
    }
    out
}

/// An exact copy of a list of identities.
pub fn copy_strings(v: &Vec<String>) -> (r: Vec<String>)
    ensures
        r@ == v@,
{
    let mut out: Vec<String> = Vec::new();
    let mut i: usize = 0;
    while i < v.len()
        invariant
            i <= v@.len(),
            out@ == v@.take(i as int),
        decreases v@.len() - i,
    {
        out.push(v[i].clone());
        proof {
            assert(out@ =~= v@.take(i + 1));
        }
        i += 1;
    }
    proof {
        assert(out@ =~= v@);
    }
    out
}

impl Clone for Config {
    /// An exact copy; `Clone` is written by hand so the equality is known.
    fn clone(&self) -> (r: Self)
        ensures
            r@ == self@,
    {
        Config {
            owner: self.owner.clone(),
            underlying_token: self.underlying_token.clone(),
            rules: copy_rules(&self.rules),
        }
    }
}

/// A time-boxed, budget-capped reward round with a single reward asset.
#[derive(Debug, PartialEq, Eq)]
pub struct Campaign {
    pub id: u64,
    pub start: u64,
    pub end: u64,
    pub total_reward: u128,
    pub reward_token: AssetInfo,
    pub distributed_amount: u128,
}

/// Mathematical value of a [`Campaign`].
#[verifier::ext_equal]
pub struct CampaignV {
    pub id: u64,
    pub start: u64,
    pub end: u64,
    pub total_reward: u128,
    pub reward_token: AssetInfoV,
    pub distributed_amount: u128,
}

impl View for Campaign {
    type V = CampaignV;

    open spec fn view(&self) -> CampaignV {
        CampaignV {
            id: self.id,
            start: self.start,
            end: self.end,
            total_reward: self.total_reward,
            reward_token: self.reward_token@,
            distributed_amount: self.distributed_amount,
        }
    }
}

impl CampaignV {
    /// `start <= end`, and the distributed total never exceeds the budget.
    pub open spec fn wf(self) -> bool {
        self.start <= self.end && self.distributed_amount <= self.total_reward
    }

    /// The campaign's end time lies strictly in the past: its terminal state.
    pub open spec fn spec_is_finished(self, now: u64) -> bool {
        self.end < now
    }

    /// The current time lies inside the campaign's time window.
    pub open spec fn spec_in_progress(self, now: u64) -> bool {
        self.start <= now && self.end >= now
    }
}

impl Campaign {
    pub fn is_finished(&self, now: u64) -> (r: bool)
        ensures
            r == self@.spec_is_finished(now),
    {
        self.end < now
    }

    pub fn in_progress(&self, now: u64) -> (r: bool)
        ensures
            r == self@.spec_in_progress(now),
    {
        self.start <= now && self.end >= now
    }

}

impl Clone for Campaign {
    /// An exact copy; `Clone` is written by hand so the equality is known.
    fn clone(&self) -> (r: Self)
        ensures
            r == *self,
    {
        Campaign {
            id: self.id,
            start: self.start,
            end: self.end,
            total_reward: self.total_reward,
            reward_token: self.reward_token.clone(),
            distributed_amount: self.distributed_amount,
        }
    }
}

/// One audit-trail record: the cumulative amount ever accrued to `user`
/// within campaign `campaign_id`. Never decremented, never removed.
#[derive(Debug, PartialEq, Eq)]
pub struct HistoryEntry {
    pub campaign_id: u64,
    pub user: String,
    pub amount: u128,
}

/// Mathematical value of a [`HistoryEntry`].
#[verifier::ext_equal]
pub struct HistoryEntryV {
    pub campaign_id: u64,
    pub user: Seq<char>,
    pub amount: u128,
}

impl Clone for HistoryEntry {
    /// An exact copy; `Clone` is written by hand so the equality is known.
    fn clone(&self) -> (r: Self)
        ensures
            r == *self,
    {
        HistoryEntry { campaign_id: self.campaign_id, user: self.user.clone(), amount: self.amount }
    }
}

impl View for HistoryEntry {
    type V = HistoryEntryV;

    open spec fn view(&self) -> HistoryEntryV {
        HistoryEntryV { campaign_id: self.campaign_id, user: self.user@, amount: self.amount }
    }
}

/// The whole engine state.
pub struct CashbackState {
    pub config: Config,
    /// 0 while no campaign was ever created; otherwise the id of the most
    /// recently created campaign.
    pub last_campaign_id: u64,
    /// Campaign with id `i + 1` lives at index `i`; records are never
    /// deleted or reordered.
    pub campaigns: Vec<Campaign>,
    /// Callers allowed to trigger accrual, in insertion order, no
    /// duplicates.
    pub whitelist: Vec<String>,
    /// user -> accrued-but-unsettled amount, unique per user.
    pub pending: Vec<(String, u128)>,
    /// (campaign id, user) -> cumulative accrued amount, unique per key.
    pub history: Vec<HistoryEntry>,
}

/// Mathematical value of a [`CashbackState`].
#[verifier::ext_equal]
pub struct StateV {
    pub config: ConfigV,
    pub last_campaign_id: u64,
    pub campaigns: Seq<CampaignV>,
    pub whitelist: Seq<Seq<char>>,
    pub pending: Seq<(Seq<char>, u128)>,
    pub history: Seq<HistoryEntryV>,
}

/// View of a vector of strings as a sequence of character sequences.
pub open spec fn strings_view(v: Seq<String>) -> Seq<Seq<char>> {
    v.map_values(|s: String| s@)
}

/// View of the pending ledger as a sequence of (user, amount) pairs.
pub open spec fn pending_view(v: Seq<(String, u128)>) -> Seq<(Seq<char>, u128)> {
    v.map_values(|p: (String, u128)| (p.0@, p.1))
}

impl View for CashbackState {
    type V = StateV;

    open spec fn view(&self) -> StateV {
        StateV {
            config: self.config@,
            last_campaign_id: self.last_campaign_id,
            campaigns: self.campaigns@.map_values(|c: Campaign| c@),
            whitelist: strings_view(self.whitelist@),
            pending: pending_view(self.pending@),
            history: self.history@.map_values(|h: HistoryEntry| h@),
        }
    }
}

impl StateV {
    /// The state invariant. Every operation requires it and preserves it.
    pub open spec fn wf(self) -> bool {
        &&& self.config.wf()
        &&& self.last_campaign_id == self.campaigns.len()
        &&& forall|i: int|
            0 <= i < self.campaigns.len() ==> (#[trigger] self.campaigns[i]).id == i + 1
        &&& forall|i: int| 0 <= i < self.campaigns.len() ==> (#[trigger] self.campaigns[i]).wf()
        &&& forall|i: int, j: int|
            0 <= i < j < self.whitelist.len() ==> self.whitelist[i] != self.whitelist[j]
        &&& forall|i: int, j: int|
            0 <= i < j < self.pending.len() ==> self.pending[i].0 != self.pending[j].0
        &&& forall|i: int, j: int|
            0 <= i < j < self.history.len()
                ==> !(self.history[i].campaign_id == self.history[j].campaign_id
                && self.history[i].user == self.history[j].user)
        &&& self.last_campaign_id == 0 ==> self.pending.len() == 0
    }

    /// The most recently created campaign. Meaningful only when
    /// `last_campaign_id > 0`.
    pub open spec fn last_campaign(self) -> CampaignV {
        self.campaigns[self.last_campaign_id - 1]
    }
}

/// Index of the first ledger entry for `user`, or `-1` if there is none.
pub open spec fn key_index(p: Seq<(Seq<char>, u128)>, user: Seq<char>) -> int
    decreases p.len(),
{
    if p.len() == 0 {
        -1
    } else if p[0].0 == user {
        0
    } else {
        let r = key_index(p.drop_first(), user);
        if r < 0 {
            -1
        } else {
            r + 1
        }
    }
}

/// The user's pending amount: the amount of their ledger entry, or zero.
pub open spec fn pending_amount_of(p: Seq<(Seq<char>, u128)>, user: Seq<char>) -> u128 {
    if key_index(p, user) < 0 {
        0
    } else {
        p[key_index(p, user)].1
    }
}

/// What `key_index` finds: the first entry for the user, if any.
pub proof fn lemma_key_index(p: Seq<(Seq<char>, u128)>, user: Seq<char>)
    ensures
        key_index(p, user) < 0 ==> forall|j: int| 0 <= j < p.len() ==> (#[trigger] p[j]).0 != user,
        key_index(p, user) >= 0 ==> {
            &&& key_index(p, user) < p.len()
            &&& p[key_index(p, user)].0 == user
            &&& forall|j: int| 0 <= j < key_index(p, user) ==> (#[trigger] p[j]).0 != user
        },
    decreases p.len(),
{
    if p.len() != 0 && p[0].0 != user {
        lemma_key_index(p.drop_first(), user);
        assert forall|j: int| 1 <= j < p.len() implies p.drop_first()[j - 1] == p[j] by {}
    }
}

/// Index of the history record for `(campaign_id, user)`, or `-1`.
pub open spec fn history_index(h: Seq<HistoryEntryV>, campaign_id: u64, user: Seq<char>) -> int
    decreases h.len(),
{
    if h.len() == 0 {
        -1
    } else if h[0].campaign_id == campaign_id && h[0].user == user {
        0
    } else {
        let r = history_index(h.drop_first(), campaign_id, user);
        if r < 0 {
            -1
        } else {
            r + 1
        }
    }
}

/// The cumulative amount recorded for `(campaign_id, user)`, or zero.
pub open spec fn history_amount_of(h: Seq<HistoryEntryV>, campaign_id: u64, user: Seq<char>) -> u128 {
    if history_index(h, campaign_id, user) < 0 {
        0
    } else {
        h[history_index(h, campaign_id, user)].amount
    }
}

/// What `history_index` finds: the first record for the key, if any.
pub proof fn lemma_history_index(h: Seq<HistoryEntryV>, campaign_id: u64, user: Seq<char>)
    ensures
        history_index(h, campaign_id, user) < 0 ==> forall|j: int|
            0 <= j < h.len()
                ==> !((#[trigger] h[j]).campaign_id == campaign_id && h[j].user == user),
        history_index(h, campaign_id, user) >= 0 ==> {
            &&& history_index(h, campaign_id, user) < h.len()
            &&& h[history_index(h, campaign_id, user)].campaign_id == campaign_id
            &&& h[history_index(h, campaign_id, user)].user == user
            &&& forall|j: int|
                0 <= j < history_index(h, campaign_id, user)
                    ==> !((#[trigger] h[j]).campaign_id == campaign_id && h[j].user == user)
        },
    decreases h.len(),
{
    if h.len() != 0 && !(h[0].campaign_id == campaign_id && h[0].user == user) {
        lemma_history_index(h.drop_first(), campaign_id, user);
        assert forall|j: int| 1 <= j < h.len() implies h.drop_first()[j - 1] == h[j] by {}
    }
}

/// Sum of all pending amounts, as an unbounded integer.
pub open spec fn sum_pending(p: Seq<(Seq<char>, u128)>) -> int
    decreases p.len(),
{
    if p.len() == 0 {
        0
    } else {
        p[0].1 + sum_pending(p.drop_first())
    }
}

/// Index of the first occurrence of `x` in the whitelist, or `-1`.
pub open spec fn string_index(wl: Seq<Seq<char>>, x: Seq<char>) -> int
    decreases wl.len(),
{
    if wl.len() == 0 {
        -1
    } else if wl[0] == x {
        0
    } else {
        let r = string_index(wl.drop_first(), x);
        if r < 0 {
            -1
        } else {
            r + 1
        }
    }
}

/// What `string_index` finds: the first occurrence, if any.
pub proof fn lemma_string_index(wl: Seq<Seq<char>>, x: Seq<char>)
    ensures
        string_index(wl, x) < 0 ==> forall|j: int| 0 <= j < wl.len() ==> wl[j] != x,
        string_index(wl, x) < 0 ==> !wl.contains(x),
        string_index(wl, x) >= 0 ==> {
            &&& string_index(wl, x) < wl.len()
            &&& wl[string_index(wl, x)] == x
            &&& wl.contains(x)
            &&& forall|j: int| 0 <= j < string_index(wl, x) ==> wl[j] != x
        },
    decreases wl.len(),
{
    if wl.len() != 0 && wl[0] != x {
        lemma_string_index(wl.drop_first(), x);
        assert forall|j: int| 1 <= j < wl.len() implies wl.drop_first()[j - 1] == wl[j] by {}
        if string_index(wl, x) < 0 {
            assert forall|j: int| 0 <= j < wl.len() implies wl[j] != x by {
                if j >= 1 {
                    assert(wl.drop_first()[j - 1] == wl[j]);
                }
            }
        }
    }
}

/// Finds a caller on the whitelist, at the first index it occurs at.
pub fn whitelist_find(wl: &Vec<String>, target: &String) -> (r: Option<usize>)
    ensures
        match r {
            Some(i) => i as int == string_index(strings_view(wl@), target@),
            None => string_index(strings_view(wl@), target@) < 0,
        },
{
    let ghost wv = strings_view(wl@);
    let mut i: usize = 0;
    while i < wl.len()
        invariant
            i <= wl@.len(),
            wv == strings_view(wl@),
            forall|k: int| 0 <= k < i ==> wv[k] != target@,
        decreases wl@.len() - i,
    {
        if wl[i].eq(target) {
            proof {
                assert(wv[i as int] == target@);
                lemma_string_index(wv, target@);
                let si = string_index(wv, target@);
                assert(si >= 0);
                if si < i as int {
                    assert(wv[si] != target@);
                }
                if si > i as int {
                    assert(wv[i as int] != target@);
                }
            }
            return Some(i);
        }
        i += 1;
    }
    proof {
        lemma_string_index(wv, target@);
        if string_index(wv, target@) >= 0 {
            assert(wv[string_index(wv, target@)] == target@);
        }
    }
    None
}

/// Whether a caller is authorized to trigger accrual.
pub fn whitelist_contains(wl: &Vec<String>, target: &String) -> (r: bool)
    ensures
        r == strings_view(wl@).contains(target@),
{
    proof {
        lemma_string_index(strings_view(wl@), target@);
    }
    let r = whitelist_find(wl, target);
    match r {
        Some(_) => true,
        None => false,
    }
}

/// Finds the ledger entry for `user`, as `key_index` names it.
pub fn pending_find(p: &Vec<(String, u128)>, user: &String) -> (r: Option<usize>)
    ensures
        match r {
            Some(i) => i as int == key_index(pending_view(p@), user@),
            None => key_index(pending_view(p@), user@) < 0,
        },
{
    let ghost pv = pending_view(p@);
    proof {
        lemma_key_index(pv, user@);
    }
    let mut i: usize = 0;
    while i < p.len()
        invariant
            i <= p@.len(),
            pv == pending_view(p@),
            forall|k: int| 0 <= k < i ==> (#[trigger] pv[k]).0 != user@,
        decreases p@.len() - i,
    {
        if p[i].0.eq(user) {
            proof {
                assert(pv[i as int].0 == user@);
                lemma_key_index(pv, user@);
                let ki = key_index(pv, user@);
                assert(ki >= 0);
                if ki < i as int {
                    assert(pv[ki].0 != user@);
                }
                if ki > i as int {
                    assert(pv[i as int].0 != user@);
                }
            }
            return Some(i);
        }
        i += 1;
    }
    proof {
        if key_index(pv, user@) >= 0 {
            assert(pv[key_index(pv, user@)].0 == user@);
        }
    }
    None
}

/// Finds the history record for `(campaign_id, user)`, as `history_index`
/// names it.
pub fn history_find(h: &Vec<HistoryEntry>, campaign_id: u64, user: &String) -> (r: Option<usize>)
    ensures
        match r {
            Some(i) => i as int == history_index(
                h@.map_values(|e: HistoryEntry| e@),
                campaign_id,
                user@,
            ),
            None => history_index(h@.map_values(|e: HistoryEntry| e@), campaign_id, user@) < 0,
        },
{
    let ghost hv = h@.map_values(|e: HistoryEntry| e@);
    let mut i: usize = 0;
    while i < h.len()
        invariant
            i <= h@.len(),
            hv == h@.map_values(|e: HistoryEntry| e@),
            forall|k: int|
                0 <= k < i
                    ==> !((#[trigger] hv[k]).campaign_id == campaign_id && hv[k].user == user@),
        decreases h@.len() - i,
    {
        if h[i].campaign_id == campaign_id && h[i].user.eq(user) {
            proof {
                assert(hv[i as int].campaign_id == campaign_id && hv[i as int].user == user@);
                lemma_history_index(hv, campaign_id, user@);
                let ki = history_index(hv, campaign_id, user@);
                assert(ki >= 0);
                if ki < i as int {
                    assert(!(hv[ki].campaign_id == campaign_id && hv[ki].user == user@));
                }
                if ki > i as int {
                    assert(!(hv[i as int].campaign_id == campaign_id && hv[i as int].user
                        == user@));
                }
            }
            return Some(i);
        }
        i += 1;
    }
    proof {
        lemma_history_index(hv, campaign_id, user@);
        if history_index(hv, campaign_id, user@) >= 0 {
            let ki = history_index(hv, campaign_id, user@);
            assert(hv[ki].campaign_id == campaign_id && hv[ki].user == user@);
        }
    }
    None
}

impl CashbackState {
    /// A snapshot of every (user, pending amount) ledger entry, in the
    /// ledger's own order; the ledger itself is untouched.
    pub fn read_all_pending_cash_back(&self) -> (r: Vec<(String, u128)>)
        ensures
            pending_view(r@) == self@.pending,
    {
        let mut out: Vec<(String, u128)> = Vec::new();
        let mut i: usize = 0;
        while i < self.pending.len()
            invariant
                i <= self.pending@.len(),
                out@ == self.pending@.take(i as int),
            decreases self.pending@.len() - i,
        {
            let user = self.pending[i].0.clone();
            let amount = self.pending[i].1;
            out.push((user, amount));
            proof {
                assert(out@ =~= self.pending@.take(i + 1));
            }
            i += 1;
        }
        proof {
            assert(out@ =~= self.pending@);
        }
        out
    }
}

/// Campaign ids are assigned from a monotonic counter starting at one:
/// stored campaigns carry the ids `1, 2, 3, ...` in order, with no gaps
/// and no repeats.
pub proof fn lemma_campaign_ids_sequential(s: StateV)
    requires
        s.wf(),
    ensures
        forall|i: int| 0 <= i < s.campaigns.len() ==> (#[trigger] s.campaigns[i]).id == i + 1,
        forall|i: int, j: int|
            0 <= i < j < s.campaigns.len() ==> s.campaigns[i].id < s.campaigns[j].id,
        s.campaigns.len() > 0 ==> s.campaigns[s.campaigns.len() - 1].id == s.last_campaign_id,
{
}

/// No campaign's distributed amount ever exceeds its total reward: every
/// accrual is clamped to the remaining budget before it is committed.
pub proof fn lemma_budget_safety(s: StateV)
    requires
        s.wf(),
    ensures
        forall|i: int|
            0 <= i < s.campaigns.len()
                ==> (#[trigger] s.campaigns[i]).distributed_amount <= s.campaigns[i].total_reward,
{
}

} // verus!
