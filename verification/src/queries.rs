//! Reading the records of the contract. Queries change nothing and work
//! whether or not the contract is paused.

use crate::autoshare_logic::{find_group, find_member};
use crate::base::errors::Error;
use crate::base::types::{
    distribution_views, group_views, Address, AutoShareDetails, BytesN, DistributionHistory,
    DistributionView, GroupMember, GroupView, PaymentHistory,
};
use crate::model::{is_member, was_paid};
use crate::state::State;
use vstd::prelude::*;

verus! {

/// Filtering one element more keeps it at the end if it passes.
pub proof fn lemma_filter_step<A>(s: Seq<A>, pred: spec_fn(A) -> bool, i: int)
    requires
        0 <= i < s.len(),
    ensures
        s.take(i + 1).filter(pred) == if pred(s[i]) {
            s.take(i).filter(pred).push(s[i])
        } else {
            s.take(i).filter(pred)
        },
{
    reveal(Seq::filter);
    assert(s.take(i + 1).drop_last() =~= s.take(i));
    assert(s.take(i + 1).last() == s[i]);
}

/// Returns the record of the group `id`.
///
/// Fails with `NotFound` if no such group is registered.
pub fn get_autoshare(state: &State, id: BytesN<32>) -> (r: Result<AutoShareDetails, Error>)
    requires
        state.wf(),
    ensures
        match r {
            Ok(details) => state@.get(id) == Ok::<GroupView, Error>(details@),
            Err(e) => state@.get(id) == Err::<GroupView, Error>(e),
        },
{
    match find_group(state, &id) {
        Some(i) => Ok(state.groups[i].clone()),
        None => Err(Error::NotFound),
    }
}

/// Returns the records of all groups, in creation order.
pub fn get_all_groups(state: &State) -> (r: Vec<AutoShareDetails>)
    ensures
        group_views(r@) == state@.groups,
{
    let mut result: Vec<AutoShareDetails> = Vec::new();
    let mut i: usize = 0;
    while i < state.groups.len()
        invariant
            i <= state.groups.len(),
            group_views(result@) == state@.groups.take(i as int),
        decreases state.groups.len() - i,
    {
        let details = state.groups[i].clone();
        let ghost before = group_views(result@);
        result.push(details);
        assert(group_views(result@) =~= before.push(state@.groups[i as int]));
        assert(state@.groups.take(i + 1) =~= state@.groups.take(i as int).push(
            state@.groups[i as int],
        ));
        i += 1;
    }
    assert(state@.groups.take(i as int) =~= state@.groups);
    result
}

/// Returns the records of the groups created by `creator`, in creation
/// order.
pub fn get_groups_by_creator(state: &State, creator: Address) -> (r: Vec<AutoShareDetails>)
    ensures
        group_views(r@) == state@.groups_by_creator(creator),
{
    let ghost pred = |g: GroupView| g.creator == creator;
    let mut result: Vec<AutoShareDetails> = Vec::new();
    let mut i: usize = 0;
    assert(state@.groups.take(0).filter(pred) =~= Seq::empty()) by {
        reveal(Seq::filter);
    }
    while i < state.groups.len()
        invariant
            i <= state.groups.len(),
            pred == |g: GroupView| g.creator == creator,
            group_views(result@) == state@.groups.take(i as int).filter(pred),
        decreases state.groups.len() - i,
    {
        proof {
            lemma_filter_step(state@.groups, pred, i as int);
        }
        if state.groups[i].creator == creator {
            let details = state.groups[i].clone();
            let ghost before = group_views(result@);
            result.push(details);
            assert(group_views(result@) =~= before.push(state@.groups[i as int]));
        }
        i += 1;
    }
    assert(state@.groups.take(i as int) =~= state@.groups);
    result
}

/// Says whether `address` is a member of the group `id`.
///
/// Fails with `NotFound` if no such group is registered.
pub fn is_group_member(state: &State, id: BytesN<32>, address: Address) -> (r: Result<
    bool,
    Error,
>)
    requires
        state.wf(),
    ensures
        r == (if state@.has_group(id) {
            Ok::<bool, Error>(is_member(state@.group(id).members, address))
        } else {
            Err::<bool, Error>(Error::NotFound)
        }),
{
    let i = match find_group(state, &id) {
        Some(i) => i,
        None => {
            return Err(Error::NotFound);
        },
    };
    Ok(find_member(&state.groups[i].members, &address).is_some())
}

/// Returns the members of the group `id`, in list order.
///
/// Fails with `NotFound` if no such group is registered.
pub fn get_group_members(state: &State, id: BytesN<32>) -> (r: Result<Vec<GroupMember>, Error>)
    requires
        state.wf(),
    ensures
        match r {
            Ok(members) => state@.has_group(id) && members@ == state@.group(id).members,
            Err(e) => !state@.has_group(id) && e == Error::NotFound,
        },
{
    match find_group(state, &id) {
        Some(i) => {
            let members = state.groups[i].members.clone();
            assert(members@ =~= state.groups@[i as int].members@);
            Ok(members)
        },
        None => Err(Error::NotFound),
    }
}

/// Says whether the group `id` is active.
///
/// Fails with `NotFound` if no such group is registered.
pub fn is_group_active(state: &State, id: BytesN<32>) -> (r: Result<bool, Error>)
    requires
        state.wf(),
    ensures
        r == (if state@.has_group(id) {
            Ok::<bool, Error>(state@.group(id).is_active)
        } else {
            Err::<bool, Error>(Error::NotFound)
        }),
{
    match find_group(state, &id) {
        Some(i) => Ok(state.groups[i].is_active),
        None => Err(Error::NotFound),
    }
}

/// Returns the unspent usage credits of the group `id`.
///
/// Fails with `NotFound` if no such group is registered.
pub fn get_remaining_usages(state: &State, id: BytesN<32>) -> (r: Result<u32, Error>)
    requires
        state.wf(),
    ensures
        r == (if state@.has_group(id) {
            Ok::<u32, Error>(state@.group(id).usage_count)
        } else {
            Err::<u32, Error>(Error::NotFound)
        }),
{
    match find_group(state, &id) {
        Some(i) => Ok(state.groups[i].usage_count),
        None => Err(Error::NotFound),
    }
}

/// Returns the usage credits ever bought for the group `id`.
///
/// Fails with `NotFound` if no such group is registered.
pub fn get_total_usages_paid(state: &State, id: BytesN<32>) -> (r: Result<u32, Error>)
    requires
        state.wf(),
    ensures
        r == (if state@.has_group(id) {
            Ok::<u32, Error>(state@.group(id).total_usages_paid)
        } else {
            Err::<u32, Error>(Error::NotFound)
        }),
{
    match find_group(state, &id) {
        Some(i) => Ok(state.groups[i].total_usages_paid),
        None => Err(Error::NotFound),
    }
}

/// Returns the purchases paid by `user`, oldest first.
pub fn get_user_payment_history(state: &State, user: Address) -> (r: Vec<PaymentHistory>)
    ensures
        r@ == state@.user_payments(user),
{
    let ghost pred = |p: PaymentHistory| p.user == user;
    let mut result: Vec<PaymentHistory> = Vec::new();
    let mut i: usize = 0;
    assert(state@.payments.take(0).filter(pred) =~= Seq::empty()) by {
        reveal(Seq::filter);
    }
    while i < state.payments.len()
        invariant
            i <= state.payments.len(),
            pred == |p: PaymentHistory| p.user == user,
            result@ == state@.payments.take(i as int).filter(pred),
        decreases state.payments.len() - i,
    {
        proof {
            lemma_filter_step(state@.payments, pred, i as int);
        }
        if state.payments[i].user == user {
            result.push(state.payments[i]);
        }
        i += 1;
    }
    assert(state@.payments.take(i as int) =~= state@.payments);
    result
}

/// Returns the purchases made for the group `id`, oldest first. The
/// history outlives the group.
pub fn get_group_payment_history(state: &State, id: BytesN<32>) -> (r: Vec<PaymentHistory>)
    ensures
        r@ == state@.group_payments(id),
{
    let ghost pred = |p: PaymentHistory| p.group_id == id;
    let mut result: Vec<PaymentHistory> = Vec::new();
    let mut i: usize = 0;
    assert(state@.payments.take(0).filter(pred) =~= Seq::empty()) by {
        reveal(Seq::filter);
    }
    while i < state.payments.len()
        invariant
            i <= state.payments.len(),
            pred == |p: PaymentHistory| p.group_id == id,
            result@ == state@.payments.take(i as int).filter(pred),
        decreases state.payments.len() - i,
    {
        proof {
            lemma_filter_step(state@.payments, pred, i as int);
        }
        if state.payments[i].group_id == id {
            result.push(state.payments[i]);
        }
        i += 1;
    }
    assert(state@.payments.take(i as int) =~= state@.payments);
    result
}

/// Returns the distributions of the group `id`, oldest first. The history
/// outlives the group.
pub fn get_group_distributions(state: &State, id: BytesN<32>) -> (r: Vec<DistributionHistory>)
    ensures
        distribution_views(r@) == state@.group_distributions(id),
{
    let ghost pred = |d: DistributionView| d.group_id == id;
    let mut result: Vec<DistributionHistory> = Vec::new();
    let mut i: usize = 0;
    assert(state@.distributions.take(0).filter(pred) =~= Seq::empty()) by {
        reveal(Seq::filter);
    }
    while i < state.distributions.len()
        invariant
            i <= state.distributions.len(),
            pred == |d: DistributionView| d.group_id == id,
            distribution_views(result@) == state@.distributions.take(i as int).filter(pred),
        decreases state.distributions.len() - i,
    {
        proof {
            lemma_filter_step(state@.distributions, pred, i as int);
        }
        if state.distributions[i].group_id == id {
            let record = state.distributions[i].clone();
            let ghost before = distribution_views(result@);
            result.push(record);
            assert(distribution_views(result@) =~= before.push(state@.distributions[i as int]));
        }
        i += 1;
    }
    assert(state@.distributions.take(i as int) =~= state@.distributions);
    result
}

/// Says whether `member` was paid in `distribution`.
fn paid_in(distribution: &DistributionHistory, member: &Address) -> (r: bool)
    ensures
        r == was_paid(distribution@, *member),
{
    let mut k: usize = 0;
    while k < distribution.member_amounts.len()
        invariant
            k <= distribution.member_amounts.len(),
            forall|j: int|
                0 <= j < k ==> (#[trigger] distribution.member_amounts@[j]).address != *member,
        decreases distribution.member_amounts.len() - k,
    {
        if distribution.member_amounts[k].address == *member {
            return true;
        }
        k += 1;
    }
    false
}

/// Returns the distributions in which `member` was paid, oldest first.
pub fn get_member_distributions(state: &State, member: Address) -> (r: Vec<DistributionHistory>)
    ensures
        distribution_views(r@) == state@.member_distributions(member),
{
    let ghost pred = |d: DistributionView| was_paid(d, member);
    let mut result: Vec<DistributionHistory> = Vec::new();
    let mut i: usize = 0;
    assert(state@.distributions.take(0).filter(pred) =~= Seq::empty()) by {
        reveal(Seq::filter);
    }
    while i < state.distributions.len()
        invariant
            i <= state.distributions.len(),
            pred == |d: DistributionView| was_paid(d, member),
            distribution_views(result@) == state@.distributions.take(i as int).filter(pred),
        decreases state.distributions.len() - i,
    {
        proof {
            lemma_filter_step(state@.distributions, pred, i as int);
        }
        if paid_in(&state.distributions[i], &member) {
            let record = state.distributions[i].clone();
            let ghost before = distribution_views(result@);
            result.push(record);
            assert(distribution_views(result@) =~= before.push(state@.distributions[i as int]));
        }
        i += 1;
    }
    assert(state@.distributions.take(i as int) =~= state@.distributions);
    result
}

} // verus!
