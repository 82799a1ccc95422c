//! Rule-table validation and sorting, and transfer-instruction construction.

use vstd::prelude::*;

use crate::asset::{AssetInfo, AssetInfoV};
use crate::error::ContractError;
use crate::percent::{Percent, PERCENT_SCALE};
use crate::state::rules_sorted;
use vstd::multiset::Multiset;

verus! {

/// Holds of a rule whose threshold is exactly `t`.
pub open spec fn has_threshold(t: u128) -> spec_fn((u128, Percent)) -> bool {
    |e: (u128, Percent)| e.0 == t
}

/// The sub-sequence of rules whose threshold is exactly `t`, in stored
/// order. Two rule tables that agree on this for every `t` hold the same
/// rules, with ties in threshold kept in the same relative order.
pub open spec fn rules_with(s: Seq<(u128, Percent)>, t: u128) -> Seq<(u128, Percent)> {
    s.filter(has_threshold(t))
}

/// Some rule's percent exceeds one.
pub open spec fn has_invalid_percent(s: Seq<(u128, Percent)>) -> bool {
    exists|i: int| 0 <= i < s.len() && !(#[trigger] s[i]).1.le_one()
}

/// Accepts a rule table iff every percent is at most one; rejects with
/// `InvalidPercent` otherwise.
pub fn validate_cash_back_rule(rules: &Vec<(u128, Percent)>) -> (r: Result<(), ContractError>)
    ensures
        r matches Ok(_) ==> crate::state::rules_valid(rules@),
        r matches Err(e) ==> e == ContractError::InvalidPercent && has_invalid_percent(rules@),
        has_invalid_percent(rules@) <==> !(r matches Ok(_)),
{
    let mut i: usize = 0;
    while i < rules.len()
        invariant
            i <= rules@.len(),
            forall|k: int| 0 <= k < i ==> (#[trigger] rules@[k]).1.le_one(),
        decreases rules@.len() - i,
    {
        if rules[i].1.atomics > PERCENT_SCALE {
            return Err(ContractError::InvalidPercent);
        }
        i += 1;
    }
    Ok(())
}

/// A sequence none of whose elements satisfies the predicate filters to
/// the empty sequence.
proof fn lemma_filter_all_false<A>(s: Seq<A>, pred: spec_fn(A) -> bool)
    requires
        forall|i: int| 0 <= i < s.len() ==> !pred(#[trigger] s[i]),
    ensures
        s.filter(pred) == Seq::<A>::empty(),
    decreases s.len(),
{
    reveal(Seq::filter);
    if s.len() != 0 {
        lemma_filter_all_false(s.drop_last(), pred);
    }
}

/// Filtering a singleton keeps or drops its one element.
proof fn lemma_filter_singleton<A>(x: A, pred: spec_fn(A) -> bool)
    ensures
        pred(x) ==> seq![x].filter(pred) == seq![x],
        !pred(x) ==> seq![x].filter(pred) == Seq::<A>::empty(),
{
    reveal(Seq::filter);
    assert(seq![x].drop_last() =~= Seq::<A>::empty());
    assert(Seq::<A>::empty().filter(pred) == Seq::<A>::empty());
    assert(seq![x].last() == x);
    if pred(x) {
        assert(seq![x].filter(pred) =~= seq![x]);
    }
}

/// Sorts the rule table by threshold, highest first. The sort is stable:
/// rules that share a threshold keep the order they were supplied in.
pub fn sort_rules(rules: &Vec<(u128, Percent)>) -> (r: Vec<(u128, Percent)>)
    ensures
        rules_sorted(r@),
        r@.to_multiset() == rules@.to_multiset(),
        forall|t: u128| #[trigger] rules_with(r@, t) == rules_with(rules@, t),
{
    broadcast use vstd::seq_lib::group_to_multiset_ensures;

    let mut out: Vec<(u128, Percent)> = Vec::new();
    let mut i: usize = 0;
    while i < rules.len()
        invariant
            i <= rules@.len(),
            rules_sorted(out@),
            out@.to_multiset() == rules@.take(i as int).to_multiset(),
            forall|t: u128| #[trigger] rules_with(out@, t) == rules_with(
                rules@.take(i as int),
                t,
            ),
        decreases rules@.len() - i,
    {
        let x = rules[i];
        let mut pos: usize = 0;
        while pos < out.len() && out[pos].0 >= x.0
            invariant
                pos <= out@.len(),
                forall|k: int| 0 <= k < pos ==> (#[trigger] out@[k]).0 >= x.0,
            decreases out@.len() - pos,
        {
            pos += 1;
        }
        let ghost prev = out@;
        out.insert(pos, x);
        proof {
            lemma_sorted_insert_step(prev, out@, x, pos as int);
            lemma_stable_insert_step(prev, out@, rules@, x, pos as int, i as int);
        }
        i += 1;
    }
    proof {
        assert(rules@.take(rules@.len() as int) =~= rules@);
    }
    out
}

/// Inserting at the found position keeps the table sorted descending.
proof fn lemma_sorted_insert_step(prev: Seq<(u128, Percent)>, cur: Seq<(u128, Percent)>, x: (
    u128,
    Percent,
), pos: int)
    requires
        rules_sorted(prev),
        0 <= pos <= prev.len(),
        cur == prev.insert(pos, x),
        forall|k: int| 0 <= k < pos ==> (#[trigger] prev[k]).0 >= x.0,
        pos < prev.len() ==> prev[pos].0 < x.0,
    ensures
        rules_sorted(cur),
{
    prev.insert_ensures(pos, x);
    assert forall|i: int, j: int| 0 <= i < j < cur.len() implies cur[i].0 >= cur[j].0 by {
        if i < pos && j < pos {
        } else if i < pos && j == pos {
            assert(cur[i] == prev[i]);
        } else if i < pos && j > pos {
            assert(cur[i] == prev[i]);
            assert(cur[j] == prev[j - 1]);
        } else if i == pos && j > pos {
            assert(cur[j] == prev[j - 1]);
            assert(prev[j - 1].0 <= prev[pos].0);
        } else {
            assert(cur[i] == prev[i - 1]);
            assert(cur[j] == prev[j - 1]);
        }
    }
}

/// Inserting behind every stored rule of an equal-or-higher threshold
/// appends the rule to its threshold class and leaves the other classes
/// unchanged; the multiset of rules grows by exactly the new rule.
proof fn lemma_stable_insert_step(
    prev: Seq<(u128, Percent)>,
    cur: Seq<(u128, Percent)>,
    input: Seq<(u128, Percent)>,
    x: (u128, Percent),
    pos: int,
    i: int,
)
    requires
        rules_sorted(prev),
        0 <= pos <= prev.len(),
        0 <= i < input.len(),
        x == input[i],
        cur == prev.insert(pos, x),
        forall|k: int| 0 <= k < pos ==> (#[trigger] prev[k]).0 >= x.0,
        pos < prev.len() ==> prev[pos].0 < x.0,
        prev.to_multiset() == input.take(i).to_multiset(),
        forall|t: u128| #[trigger] rules_with(prev, t) == rules_with(input.take(i), t),
    ensures
        cur.to_multiset() == input.take(i + 1).to_multiset(),
        forall|t: u128| #[trigger] rules_with(cur, t) == rules_with(input.take(i + 1), t),
{
    broadcast use vstd::seq_lib::group_to_multiset_ensures;
    broadcast use Seq::filter_distributes_over_add;

    let a = prev.subrange(0, pos);
    let b = prev.subrange(pos, prev.len() as int);
    assert(cur == a.push(x) + b);
    assert(a.push(x) =~= a + seq![x]);
    assert(cur == (a + seq![x]) + b);
    assert(prev =~= a + b);
    assert(input.take(i + 1) =~= input.take(i).push(x));
    assert(input.take(i).push(x) =~= input.take(i) + seq![x]);

    // The multiset grows by exactly x, on both sides.
    vstd::seq_lib::lemma_multiset_commutative(a + seq![x], b);
    vstd::seq_lib::lemma_multiset_commutative(a, seq![x]);
    vstd::seq_lib::lemma_multiset_commutative(a, b);
    vstd::seq_lib::lemma_multiset_commutative(input.take(i), seq![x]);
    assert(seq![x].to_multiset() =~= Multiset::empty().insert(x)) by {
        assert(seq![x].drop_last() =~= Seq::<(u128, Percent)>::empty());
        assert(seq![x] =~= Seq::<(u128, Percent)>::empty().push(x));
    }
    assert(cur.to_multiset() =~= input.take(i + 1).to_multiset());

    // Each threshold class either gains x at its end or stays unchanged.
    assert forall|t: u128| #[trigger] rules_with(cur, t) == rules_with(input.take(i + 1), t) by {
        let pred = has_threshold(t);
        lemma_filter_singleton(x, pred);
        assert(rules_with(prev, t) == rules_with(input.take(i), t));
        assert(rules_with(cur, t) == cur.filter(pred));
        assert(rules_with(input.take(i + 1), t) == input.take(i + 1).filter(pred));
        if t == x.0 {
            // Everything after the insertion point has a strictly smaller
            // threshold, so the class of x ends exactly at x.
            assert forall|k: int| 0 <= k < b.len() implies !pred(#[trigger] b[k]) by {
                assert(b[k] == prev[pos + k]);
                if pos < prev.len() {
                    assert(prev[pos + k].0 <= prev[pos].0);
                }
            }
            lemma_filter_all_false(b, pred);
            assert(cur.filter(pred) == (a.filter(pred) + seq![x]) + Seq::<(u128,
                Percent)>::empty());
            assert(prev.filter(pred) == a.filter(pred) + Seq::<(u128, Percent)>::empty());
            assert(cur.filter(pred) =~= prev.filter(pred) + seq![x]);
            assert(input.take(i + 1).filter(pred) == input.take(i).filter(pred) + seq![x]);
        } else {
            assert(cur.filter(pred) == (a.filter(pred) + Seq::<(u128, Percent)>::empty())
                + b.filter(pred));
            assert(prev.filter(pred) == a.filter(pred) + b.filter(pred));
            assert(cur.filter(pred) =~= prev.filter(pred));
            assert(input.take(i + 1).filter(pred) == input.take(i).filter(pred) + Seq::<(u128,
                Percent)>::empty());
            assert(input.take(i + 1).filter(pred) =~= input.take(i).filter(pred));
        }
    }
}

/// Rearranging a rule table cannot introduce an invalid percent.
pub proof fn lemma_rules_valid_permutation(a: Seq<(u128, Percent)>, b: Seq<(u128, Percent)>)
    requires
        a.to_multiset() == b.to_multiset(),
        crate::state::rules_valid(a),
    ensures
        crate::state::rules_valid(b),
{
    broadcast use vstd::seq_lib::group_to_multiset_ensures;

    assert forall|i: int| 0 <= i < b.len() implies (#[trigger] b[i]).1.le_one() by {
        assert(b.contains(b[i]));
        assert(b.to_multiset().count(b[i]) > 0);
        assert(a.contains(b[i]));
        let j = choose|j: int| 0 <= j < a.len() && a[j] == b[i];
        assert(a[j].1.le_one());
    }
}

/// An abstract transfer instruction: pay `amount` of `asset` to
/// `recipient`. The engine only constructs these; executing the transfer
/// is the host's concern.
#[derive(Debug, PartialEq, Eq)]
pub struct TransferMsg {
    pub asset: AssetInfo,
    pub amount: u128,
    pub recipient: String,
}

/// Mathematical value of a [`TransferMsg`].
#[verifier::ext_equal]
pub struct TransferMsgV {
    pub asset: AssetInfoV,
    pub amount: u128,
    pub recipient: Seq<char>,
}

impl View for TransferMsg {
    type V = TransferMsgV;

    open spec fn view(&self) -> TransferMsgV {
        TransferMsgV { asset: self.asset@, amount: self.amount, recipient: self.recipient@ }
    }
}

impl Clone for TransferMsg {
    fn clone(&self) -> (r: Self)
        ensures
            r == *self,
    {
        TransferMsg {
            asset: self.asset.clone(),
            amount: self.amount,
            recipient: self.recipient.clone(),
        }
    }
}

/// Builds the transfer instruction for paying `amount` of `token` to
/// `receiver`.
pub fn build_transfer_msg(token: &AssetInfo, amount: u128, receiver: &String) -> (r: TransferMsg)
    ensures
        r@ == (TransferMsgV { asset: token@, amount, recipient: receiver@ }),
{
    TransferMsg { asset: token.clone(), amount, recipient: receiver.clone() }
}

} // verus!
