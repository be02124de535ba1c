//! Splitting a payment among the members of a group.

use crate::base::types::{GroupMember, MemberAmount};
use crate::model::{
    lemma_total_percentage_take, paid_before, payouts, payouts_upto, percent_of, share,
    total_paid, total_percentage,
};
use vstd::prelude::*;

verus! {

/// A rounded-down percentage of a positive amount lies between zero and
/// the exact percentage.
pub proof fn lemma_percent_of_bounds(amount: int, percentage: int)
    requires
        amount >= 0,
        percentage >= 0,
    ensures
        0 <= percent_of(amount, percentage),
        percent_of(amount, percentage) * 100 <= amount * percentage,
{
    assert(0 <= (amount * percentage) / 100 && ((amount * percentage) / 100) * 100 <= amount
        * percentage) by (nonlinear_arith)
        requires
            amount >= 0,
            percentage >= 0,
    ;
}

/// A percentage can be taken of hundreds and remainder apart.
pub proof fn lemma_percent_of_split(amount: int, percentage: int)
    requires
        amount >= 0,
        percentage >= 0,
    ensures
        percent_of(amount, percentage) == (amount / 100) * percentage + ((amount % 100)
            * percentage) / 100,
{
    let q = amount / 100;
    let r = amount % 100;
    assert(amount == 100 * q + r && 0 <= r < 100) by (nonlinear_arith)
        requires
            q == amount / 100,
            r == amount % 100,
    ;
    assert(amount * percentage == 100 * (q * percentage) + r * percentage) by (nonlinear_arith)
        requires
            amount == 100 * q + r,
    ;
    let x = q * percentage;
    let y = r * percentage;
    assert((100 * x + y) / 100 == x + y / 100) by (nonlinear_arith);
}

/// What the first `n` members receive is never negative, and a hundred
/// times it is at most the amount times their total percentage.
pub proof fn lemma_paid_before_bounds(members: Seq<GroupMember>, amount: int, n: int)
    requires
        amount >= 0,
        0 <= n <= members.len(),
    ensures
        0 <= paid_before(members, amount, n),
        paid_before(members, amount, n) * 100 <= amount * total_percentage(members.take(n)),
    decreases n,
{
    if n > 0 {
        lemma_paid_before_bounds(members, amount, n - 1);
        lemma_percent_of_bounds(amount, members[n - 1].percentage as int);
        assert(members.take(n).drop_last() =~= members.take(n - 1));
        let t = total_percentage(members.take(n - 1));
        let p = members[n - 1].percentage as int;
        assert(amount * (t + p) == amount * t + amount * p) by (nonlinear_arith);
    } else {
        assert(amount * 0 == 0);
    }
}

/// While the members hold at most one hundred percent together, no prefix
/// of them receives more than the amount.
pub proof fn lemma_paid_before_at_most_amount(members: Seq<GroupMember>, amount: int, n: int)
    requires
        amount >= 0,
        0 <= n <= members.len(),
        total_percentage(members) <= 100,
    ensures
        0 <= paid_before(members, amount, n) <= amount,
{
    lemma_paid_before_bounds(members, amount, n);
    lemma_total_percentage_take(members, n);
    let t = total_percentage(members.take(n));
    assert(amount * t <= amount * 100) by (nonlinear_arith)
        requires
            amount >= 0,
            t <= 100,
    ;
}

/// Every share of a distribution among members that hold at most one
/// hundred percent lies between zero and the amount.
pub proof fn lemma_share_bounds(members: Seq<GroupMember>, amount: int, i: int)
    requires
        amount >= 0,
        0 <= i < members.len(),
        total_percentage(members) <= 100,
    ensures
        0 <= share(members, amount, i) <= amount,
{
    lemma_paid_before_at_most_amount(members, amount, i);
    lemma_paid_before_at_most_amount(members, amount, i + 1);
    lemma_percent_of_bounds(amount, members[i].percentage as int);
}

/// `percentage` percent of `amount`, rounded down, computed without
/// leaving the range of the amount.
pub fn percent_share(amount: i128, percentage: u32) -> (r: i128)
    requires
        amount >= 0,
        percentage <= 100,
    ensures
        r == percent_of(amount as int, percentage as int),
        0 <= r <= amount,
{
    let p: i128 = percentage as i128;
    let q: i128 = amount / 100;
    let rest: i128 = amount % 100;
    proof {
        lemma_percent_of_split(amount as int, percentage as int);
        lemma_percent_of_bounds(amount as int, percentage as int);
        assert(0 <= q * p <= amount && 0 <= rest * p <= 9900) by (nonlinear_arith)
            requires
                0 <= p <= 100,
                q == amount / 100,
                rest == amount % 100,
                amount >= 0,
        ;
        assert(amount * p <= amount * 100) by (nonlinear_arith)
            requires
                amount >= 0,
                p <= 100,
        ;
    }
    q * p + (rest * p) / 100
}

/// Before the last member is reached, the payouts made so far add up to
/// the rounded-down percentages of the members passed.
pub proof fn lemma_total_paid_upto(members: Seq<GroupMember>, amount: int, n: int)
    requires
        0 <= amount <= i128::MAX,
        0 <= n < members.len(),
        total_percentage(members) <= 100,
    ensures
        total_paid(payouts_upto(members, amount, n)) == paid_before(members, amount, n),
    decreases n,
{
    if n > 0 {
        lemma_total_paid_upto(members, amount, n - 1);
        lemma_share_bounds(members, amount, n - 1);
        let before = payouts_upto(members, amount, n - 1);
        let s = share(members, amount, n - 1);
        if s > 0 {
            let now = payouts_upto(members, amount, n);
            assert(now.drop_last() =~= before);
        }
    }
}

/// A distribution pays out the whole amount, no more and no less: the
/// payouts of `amount` among members that hold at most one hundred percent
/// add up to exactly `amount`, and none of them is negative or exceeds it.
pub proof fn lemma_payouts_total(members: Seq<GroupMember>, amount: int)
    requires
        0 < amount <= i128::MAX,
        members.len() > 0,
        total_percentage(members) <= 100,
    ensures
        total_paid(payouts(members, amount)) == amount,
        forall|k: int|
            0 <= k < payouts(members, amount).len() ==> 0 < (#[trigger] payouts(
                members,
                amount,
            )[k]).amount <= amount,
{
    let n = members.len() as int;
    lemma_total_paid_upto(members, amount, n - 1);
    lemma_share_bounds(members, amount, n - 1);
    let before = payouts_upto(members, amount, n - 1);
    let s = share(members, amount, n - 1);
    if s > 0 {
        assert(payouts(members, amount).drop_last() =~= before);
    }
    lemma_payouts_positive(members, amount, n);
}

/// Every payout among the first `n` members is positive and at most the
/// amount.
pub proof fn lemma_payouts_positive(members: Seq<GroupMember>, amount: int, n: int)
    requires
        0 <= amount <= i128::MAX,
        0 <= n <= members.len(),
        total_percentage(members) <= 100,
    ensures
        payouts_upto(members, amount, n).len() <= n,
        forall|k: int|
            0 <= k < payouts_upto(members, amount, n).len() ==> 0 < (#[trigger] payouts_upto(
                members,
                amount,
                n,
            )[k]).amount <= amount,
    decreases n,
{
    if n > 0 {
        lemma_payouts_positive(members, amount, n - 1);
        lemma_share_bounds(members, amount, n - 1);
    }
}

/// Each member's percentage is at most the total of the list.
pub proof fn lemma_percentage_at_most_total(members: Seq<GroupMember>, i: int)
    requires
        0 <= i < members.len(),
    ensures
        members[i].percentage <= total_percentage(members),
{
    lemma_total_percentage_take(members, i);
    lemma_total_percentage_take(members, i + 1);
}

/// Splits `amount` among `members` in list order: every member but the
/// last receives its rounded-down percentage, the last receives the rest.
/// Members whose share is zero are left out.
pub fn compute_payouts(members: &Vec<GroupMember>, amount: i128) -> (paid: Vec<MemberAmount>)
    requires
        amount > 0,
        members@.len() > 0,
        total_percentage(members@) <= 100,
    ensures
        paid@ == payouts(members@, amount as int),
{
    let mut paid: Vec<MemberAmount> = Vec::new();
    let mut distributed: i128 = 0;
    let n = members.len();
    let mut i: usize = 0;
    while i < n
        invariant
            amount > 0,
            n == members@.len(),
            total_percentage(members@) <= 100,
            i <= n,
            paid@ == payouts_upto(members@, amount as int, i as int),
            i < n ==> distributed == paid_before(members@, amount as int, i as int),
        decreases n - i,
    {
        proof {
            lemma_percentage_at_most_total(members@, i as int);
            lemma_share_bounds(members@, amount as int, i as int);
            lemma_paid_before_at_most_amount(members@, amount as int, i as int);
            lemma_paid_before_at_most_amount(members@, amount as int, i + 1);
        }
        let member = members[i];
        let part = if i + 1 < n {
            percent_share(amount, member.percentage)
        } else {
            amount - distributed
        };
        assert(part == share(members@, amount as int, i as int));
        if part > 0 {
            distributed = distributed + part;
            paid.push(MemberAmount { address: member.address, amount: part });
        }
        i += 1;
    }
    paid
}

} // verus!
