//! The operations of the contract, each proved against [`crate::model`].

use crate::base::errors::Error;
use crate::base::events::{
    AdminTransferred, AutoshareCreated, AutoshareUpdated, ContractPaused, ContractUnpaused,
    Distribution, Event, GroupActivated, GroupDeactivated, GroupDeleted, Withdrawal,
};
use crate::base::types::{
    Address, AutoShareDetails, BytesN, DistributionHistory, GroupMember, GroupView,
    MemberAmount, PaymentHistory,
};
use crate::model::{
    distinct_members, is_member, lemma_total_percentage_take, payout_transfers,
    total_percentage, validation,
};
use crate::payout::compute_payouts;
pub use crate::queries::{
    get_all_groups, get_autoshare, get_group_distributions, get_group_members,
    get_group_payment_history, get_groups_by_creator, get_member_distributions,
    get_remaining_usages, get_total_usages_paid, get_user_payment_history, is_group_active,
    is_group_member,
};
use crate::state::{State, StateView, Transfer, DEFAULT_USAGE_FEE};
use crate::theorems::{
    lemma_group_index_unique, lemma_member_index_unique, lemma_push_group_wf,
    lemma_put_group_wf, lemma_remove_group_wf, lemma_remove_member,
};
use crate::transitions::performed;
use vstd::prelude::*;

verus! {

/// Says whether `address` is among the first `n` entries of `members`.
fn occurs_before(members: &Vec<GroupMember>, n: usize, address: &Address) -> (r: bool)
    requires
        n <= members.len(),
    ensures
        r == is_member(members@.take(n as int), *address),
{
    let mut k: usize = 0;
    while k < n
        invariant
            k <= n <= members.len(),
            forall|j: int| 0 <= j < k ==> members@[j].address != *address,
        decreases n - k,
    {
        if members[k].address == *address {
            assert(members@.take(n as int)[k as int].address == *address);
            return true;
        }
        k += 1;
    }
    assert forall|j: int| 0 <= j < members@.take(n as int).len() implies (
    #[trigger] members@.take(n as int)[j]).address != *address by {
        assert(members@.take(n as int)[j] == members@[j]);
    }
    false
}

/// Checks that `members` may be installed in a group.
///
/// Fails with `EmptyMembers` on an empty list, with `DuplicateMember` when
/// an address occurs twice, and with `InvalidTotalPercentage` unless the
/// percentages sum to exactly one hundred. A repeated address is reported
/// in preference to a wrong total.
pub fn validate_members(members: &Vec<GroupMember>) -> (r: Result<(), Error>)
    ensures
        r == validation(members@),
{
    if members.len() == 0 {
        return Err(Error::EmptyMembers);
    }
    let mut total: u128 = 0;
    let mut i: usize = 0;
    while i < members.len()
        invariant
            i <= members.len(),
            distinct_members(members@.take(i as int)),
            total == total_percentage(members@.take(i as int)),
            total <= i * 0x1_0000_0000,
        decreases members.len() - i,
    {
        if occurs_before(members, i, &members[i].address) {
            proof {
                let k = choose|k: int|
                    0 <= k < members@.take(i as int).len() && (#[trigger] members@.take(
                        i as int,
                    )[k]).address == members@[i as int].address;
                assert(members@[k].address == members@[i as int].address);
            }
            return Err(Error::DuplicateMember);
        }
        proof {
            lemma_total_percentage_take(members@, i as int);
            assert forall|a: int, b: int| 0 <= a < b < i + 1 implies (#[trigger] members@.take(
                i + 1,
            )[a]).address != (#[trigger] members@.take(i + 1)[b]).address by {
                if b < i {
                    assert(members@.take(i as int)[a].address != members@.take(
                        i as int,
                    )[b].address);
                } else {
                    assert(members@.take(i as int)[a].address != members@[i as int].address);
                }
            }
        }
        total = total + members[i].percentage as u128;
        i += 1;
    }
    assert(members@.take(i as int) =~= members@);
    if total != 100 {
        return Err(Error::InvalidTotalPercentage);
    }
    Ok(())
}

/// Finds the position of the group with identifier `id`.
pub fn find_group(state: &State, id: &BytesN<32>) -> (r: Option<usize>)
    requires
        state.wf(),
    ensures
        match r {
            Some(i) => state@.has_group(*id) && i == state@.group_index(*id) && i
                < state.groups.len() && state.groups@[i as int]@ == state@.group(*id),
            None => !state@.has_group(*id),
        },
{
    let mut i: usize = 0;
    while i < state.groups.len()
        invariant
            state.wf(),
            i <= state.groups.len(),
            forall|j: int| 0 <= j < i ==> (#[trigger] state@.groups[j]).id != *id,
        decreases state.groups.len() - i,
    {
        if state.groups[i].id == *id {
            proof {
                assert(state@.groups[i as int].id == *id);
                lemma_group_index_unique(state@, *id, i as int);
            }
            return Some(i);
        }
        i += 1;
    }
    None
}

/// Says whether `token` is accepted for payment.
pub fn is_token_supported(state: &State, token: Address) -> (r: bool)
    ensures
        r == state@.supports(token),
{
    let mut i: usize = 0;
    while i < state.supported_tokens.len()
        invariant
            i <= state.supported_tokens.len(),
            forall|j: int| 0 <= j < i ==> state.supported_tokens@[j] != token,
        decreases state.supported_tokens.len() - i,
    {
        if state.supported_tokens[i] == token {
            return true;
        }
        i += 1;
    }
    false
}

/// Says whether the contract is paused.
pub fn get_paused_status(state: &State) -> (r: bool)
    ensures
        r == state@.paused,
{
    state.paused
}

/// Enters a distribution in the distribution history, stamped with the
/// current time.
fn record_distribution(
    state: &mut State,
    group_id: BytesN<32>,
    sender: Address,
    total_amount: i128,
    token: Address,
    member_amounts: Vec<MemberAmount>,
    distribution_number: u32,
)
    ensures
        final(state)@ == old(state)@.record_distribution(
            group_id,
            sender,
            total_amount,
            token,
            member_amounts@,
            distribution_number,
        ),
{
    let distribution = DistributionHistory {
        group_id,
        sender,
        total_amount,
        token,
        member_amounts,
        timestamp: state.timestamp,
        distribution_number,
    };
    state.distributions.push(distribution);
    assert(state@ =~= old(state)@.record_distribution(
        group_id,
        sender,
        total_amount,
        token,
        member_amounts@,
        distribution_number,
    ));
}

/// Requests the transfers that pay `paid` out of custody, in order.
fn request_payouts(state: &mut State, token: Address, paid: &Vec<MemberAmount>)
    ensures
        final(state)@ == (StateView {
            transfers: old(state)@.transfers + payout_transfers(token, paid@),
            ..old(state)@
        }),
{
    let mut i: usize = 0;
    while i < paid.len()
        invariant
            i <= paid.len(),
            state@ == (StateView {
                transfers: old(state)@.transfers + payout_transfers(
                    token,
                    paid@.take(i as int),
                ),
                ..old(state)@
            }),
        decreases paid.len() - i,
    {
        let p = paid[i];
        state.transfers.push(Transfer::Pay { token, to: p.address, amount: p.amount });
        proof {
            assert(paid@.take(i + 1) =~= paid@.take(i as int).push(p));
            assert(payout_transfers(token, paid@.take(i + 1)) =~= payout_transfers(
                token,
                paid@.take(i as int),
            ).push(Transfer::Pay { token, to: p.address, amount: p.amount }));
            assert(state@ =~= (StateView {
                transfers: old(state)@.transfers + payout_transfers(token, paid@.take(i + 1)),
                ..old(state)@
            }));
        }
        i += 1;
    }
    assert(paid@.take(i as int) =~= paid@);
}

/// Distributes `amount` of `token`, paid by `sender`, among the members of
/// the group `id`, and spends one usage credit of the group.
///
/// The payment is collected from `sender`; then every member but the last
/// is paid its rounded-down percentage and the last member the rest, so
/// that the payouts add up to `amount`. Members whose share is zero are
/// neither paid nor recorded. The distribution is entered in the history
/// under the number of distributions the group has seen before.
///
/// Fails, in this order, with `ContractPaused`, `InvalidAmount` unless
/// `amount` is positive, `UnsupportedToken`, `NotFound`, `GroupInactive`,
/// `NoUsagesRemaining`, and the verdict of [`validate_members`] on the
/// member list.
///
/// `sender` must have authorized the call: see [`State::authorize`].
pub fn distribute(
    state: &mut State,
    id: BytesN<32>,
    token: Address,
    amount: i128,
    sender: Address,
) -> (r: Result<(), Error>)
    requires
        old(state).wf(),
        old(state)@.has_auth(sender),
    ensures
        final(state).wf(),
        performed(r, old(state)@, final(state)@, old(state)@.distribute(id, token, amount, sender)),
{
    if get_paused_status(state) {
        return Err(Error::ContractPaused);
    }
    if amount <= 0 {
        return Err(Error::InvalidAmount);
    }
    if !is_token_supported(state, token) {
        return Err(Error::UnsupportedToken);
    }
    let i = match find_group(state, &id) {
        Some(i) => i,
        None => {
            return Err(Error::NotFound);
        },
    };
    if !state.groups[i].is_active {
        return Err(Error::GroupInactive);
    }
    if state.groups[i].usage_count == 0 {
        return Err(Error::NoUsagesRemaining);
    }
    match validate_members(&state.groups[i].members) {
        Err(e) => {
            return Err(e);
        },
        Ok(()) => {},
    }
    let ghost before = state@;
    let ghost g = before.group(id);
    let paid = compute_payouts(&state.groups[i].members, amount);
    let number = state.groups[i].total_usages_paid - state.groups[i].usage_count;
    state.transfers.push(Transfer::Collect { token, from: sender, amount });
    request_payouts(state, token, &paid);
    record_distribution(state, id, sender, amount, token, paid, number);
    state.groups[i].usage_count = state.groups[i].usage_count - 1;
    state.events.push(Event::Distribution(Distribution { id, token, sender, amount }));
    proof {
        let spent = GroupView { usage_count: (g.usage_count - 1) as u32, ..g };
        assert(state.groups@[i as int]@ == spent);
        assert(state@ =~= before.distribute(id, token, amount, sender)->Ok_0);
        lemma_put_group_wf(before, id, spent);
    }
    Ok(())
}

/// Price of `usages` usage credits at the current fee.
pub fn usage_cost(state: &State, usages: u32) -> (cost: i128)
    ensures
        cost == state@.cost(usages),
        cost == usages as int * state.usage_fee as int,
{
    let a: i128 = usages as i128;
    let b: i128 = state.usage_fee as i128;
    assert(0 <= a * b <= 0xffff_ffff * 0xffff_ffff) by (nonlinear_arith)
        requires
            0 <= a <= 0xffff_ffff,
            0 <= b <= 0xffff_ffff,
    ;
    a * b
}

/// Enters a purchase of usage credits in the payment history, stamped with
/// the current time.
fn record_payment(
    state: &mut State,
    user: Address,
    group_id: BytesN<32>,
    usages_purchased: u32,
    amount_paid: i128,
)
    ensures
        final(state)@ == old(state)@.record_payment(
            user,
            group_id,
            usages_purchased,
            amount_paid,
        ),
{
    let payment = PaymentHistory {
        user,
        group_id,
        usages_purchased,
        amount_paid,
        timestamp: state.timestamp,
    };
    state.payments.push(payment);
    assert(state@ =~= old(state)@.record_payment(
        user,
        group_id,
        usages_purchased,
        amount_paid,
    ));
}

/// Creates the group `id` for `creator`, who pays for `usage_count` usage
/// credits in `payment_token`.
///
/// The new group is active, has no members yet, and holds `usage_count`
/// credits, all unspent. The price of the credits is collected from
/// `creator`, the purchase is entered in the payment history, and the
/// creation is published.
///
/// Fails, in this order, with `ContractPaused`, `AlreadyExists` if `id` is
/// registered, `InvalidUsageCount` if `usage_count` is zero, and
/// `UnsupportedToken`.
///
/// `creator` must have authorized the call: see [`State::authorize`].
pub fn create_autoshare(
    state: &mut State,
    id: BytesN<32>,
    name: String,
    creator: Address,
    usage_count: u32,
    payment_token: Address,
) -> (r: Result<(), Error>)
    requires
        old(state).wf(),
        old(state)@.has_auth(creator),
    ensures
        final(state).wf(),
        performed(
            r,
            old(state)@,
            final(state)@,
            old(state)@.create(id, name@, creator, usage_count, payment_token),
        ),
{
    if get_paused_status(state) {
        return Err(Error::ContractPaused);
    }
    if find_group(state, &id).is_some() {
        return Err(Error::AlreadyExists);
    }
    if usage_count == 0 {
        return Err(Error::InvalidUsageCount);
    }
    if !is_token_supported(state, payment_token) {
        return Err(Error::UnsupportedToken);
    }
    let ghost before = state@;
    let total_cost = usage_cost(state, usage_count);
    state.transfers.push(
        Transfer::Collect { token: payment_token, from: creator, amount: total_cost },
    );
    let details = AutoShareDetails {
        id,
        name,
        creator,
        usage_count,
        total_usages_paid: usage_count,
        members: Vec::new(),
        is_active: true,
    };
    let ghost group = details@;
    state.groups.push(details);
    record_payment(state, creator, id, usage_count, total_cost);
    state.events.push(Event::AutoshareCreated(AutoshareCreated { creator, id }));
    proof {
        assert(group.members =~= Seq::empty());
        assert(state@ =~= before.create(id, name@, creator, usage_count, payment_token)->Ok_0);
        lemma_push_group_wf(before, group);
    }
    Ok(())
}

/// Runs the checks shared by the operations reserved to the creator of a
/// group, and finds the group.
fn creator_gate(state: &State, id: &BytesN<32>, caller: &Address) -> (r: Result<usize, Error>)
    requires
        state.wf(),
    ensures
        match r {
            Ok(i) => state@.creator_gate(*id, *caller) is None && i == state@.group_index(*id)
                && i < state.groups.len() && state.groups@[i as int]@ == state@.group(*id)
                && state@.has_group(*id),
            Err(e) => state@.creator_gate(*id, *caller) == Some(e),
        },
{
    if get_paused_status(state) {
        return Err(Error::ContractPaused);
    }
    let i = match find_group(state, id) {
        Some(i) => i,
        None => {
            return Err(Error::NotFound);
        },
    };
    if state.groups[i].creator != *caller {
        return Err(Error::Unauthorized);
    }
    Ok(i)
}

/// Finds the position of the member with `address`.
pub fn find_member(members: &Vec<GroupMember>, address: &Address) -> (r: Option<usize>)
    ensures
        match r {
            Some(k) => k < members.len() && members@[k as int].address == *address,
            None => !is_member(members@, *address),
        },
{
    let mut k: usize = 0;
    while k < members.len()
        invariant
            k <= members.len(),
            forall|j: int| 0 <= j < k ==> (#[trigger] members@[j]).address != *address,
        decreases members.len() - k,
    {
        if members[k].address == *address {
            return Some(k);
        }
        k += 1;
    }
    None
}

/// Replaces the members of the group `id` by `new_members`.
///
/// Only the creator of the group may do so, and only while the group is
/// active. The new list must pass [`validate_members`].
///
/// Fails, in this order, with `ContractPaused`, `NotFound`, `Unauthorized`
/// unless `caller` created the group, `GroupInactive`, and the verdict of
/// [`validate_members`] on `new_members`.
///
/// `caller` must have authorized the call: see [`State::authorize`].
pub fn update_members(
    state: &mut State,
    id: BytesN<32>,
    caller: Address,
    new_members: Vec<GroupMember>,
) -> (r: Result<(), Error>)
    requires
        old(state).wf(),
        old(state)@.has_auth(caller),
    ensures
        final(state).wf(),
        performed(
            r,
            old(state)@,
            final(state)@,
            old(state)@.update_members(id, caller, new_members@),
        ),
{
    let i = match creator_gate(state, &id, &caller) {
        Ok(i) => i,
        Err(e) => {
            return Err(e);
        },
    };
    if !state.groups[i].is_active {
        return Err(Error::GroupInactive);
    }
    match validate_members(&new_members) {
        Err(e) => {
            return Err(e);
        },
        Ok(()) => {},
    }
    let ghost before = state@;
    let ghost updated = GroupView { members: new_members@, ..before.group(id) };
    state.groups[i].members = new_members;
    state.events.push(Event::AutoshareUpdated(AutoshareUpdated { updater: caller, id }));
    proof {
        assert(state.groups@[i as int]@ == updated);
        assert(state@ =~= before.update_members(id, caller, new_members@)->Ok_0);
        lemma_put_group_wf(before, id, updated);
    }
    Ok(())
}

/// Adds `address` with `percentage` to the end of the member list of the
/// group `id`.
///
/// Only the creator of the group may do so, and only while the group is
/// active. The list with the new member must pass [`validate_members`]:
/// the member is added only if it completes the hundred percent.
///
/// Fails, in this order, with `ContractPaused`, `NotFound`, `Unauthorized`
/// unless `caller` created the group, `GroupInactive`, `AlreadyExists` if
/// `address` is a member already, and the verdict of [`validate_members`]
/// on the extended list.
///
/// `caller` must have authorized the call: see [`State::authorize`].
pub fn add_group_member(
    state: &mut State,
    id: BytesN<32>,
    caller: Address,
    address: Address,
    percentage: u32,
) -> (r: Result<(), Error>)
    requires
        old(state).wf(),
        old(state)@.has_auth(caller),
    ensures
        final(state).wf(),
        performed(
            r,
            old(state)@,
            final(state)@,
            old(state)@.add_member(id, caller, address, percentage),
        ),
{
    let i = match creator_gate(state, &id, &caller) {
        Ok(i) => i,
        Err(e) => {
            return Err(e);
        },
    };
    if !state.groups[i].is_active {
        return Err(Error::GroupInactive);
    }
    if find_member(&state.groups[i].members, &address).is_some() {
        return Err(Error::AlreadyExists);
    }
    let mut members = state.groups[i].members.clone();
    assert(members@ =~= state.groups@[i as int].members@);
    members.push(GroupMember { address, percentage });
    match validate_members(&members) {
        Err(e) => {
            return Err(e);
        },
        Ok(()) => {},
    }
    let ghost before = state@;
    let ghost updated = GroupView { members: members@, ..before.group(id) };
    state.groups[i].members = members;
    proof {
        assert(state.groups@[i as int]@ == updated);
        assert(state@ =~= before.add_member(id, caller, address, percentage)->Ok_0);
        lemma_put_group_wf(before, id, updated);
    }
    Ok(())
}

/// Removes the member `member_address` from the group `id`.
///
/// Only the creator of the group may do so, and only while the group is
/// active. The remaining list is not validated: it may hold less than one
/// hundred percent until the members are replaced.
///
/// Fails, in this order, with `ContractPaused`, `NotFound`, `Unauthorized`
/// unless `caller` created the group, `GroupInactive`, and
/// `MemberNotFound`.
///
/// `caller` must have authorized the call: see [`State::authorize`].
pub fn remove_group_member(
    state: &mut State,
    id: BytesN<32>,
    caller: Address,
    member_address: Address,
) -> (r: Result<(), Error>)
    requires
        old(state).wf(),
        old(state)@.has_auth(caller),
    ensures
        final(state).wf(),
        performed(
            r,
            old(state)@,
            final(state)@,
            old(state)@.remove_member(id, caller, member_address),
        ),
{
    let i = match creator_gate(state, &id, &caller) {
        Ok(i) => i,
        Err(e) => {
            return Err(e);
        },
    };
    if !state.groups[i].is_active {
        return Err(Error::GroupInactive);
    }
    let k = match find_member(&state.groups[i].members, &member_address) {
        Some(k) => k,
        None => {
            return Err(Error::MemberNotFound);
        },
    };
    let ghost before = state@;
    let ghost g = before.group(id);
    proof {
        assert(before.groups[i as int].wf());
        lemma_member_index_unique(g.members, member_address, k as int);
        lemma_remove_member(g.members, k as int);
    }
    let ghost updated = GroupView { members: g.members.remove(k as int), ..g };
    state.groups[i].members.remove(k);
    state.events.push(Event::AutoshareUpdated(AutoshareUpdated { updater: caller, id }));
    proof {
        assert(state.groups@[i as int]@ == updated);
        assert(state@ =~= before.remove_member(id, caller, member_address)->Ok_0);
        lemma_put_group_wf(before, id, updated);
    }
    Ok(())
}

/// Deletes the group `id` for good.
///
/// Only the creator of the group or the admin may do so, and only after
/// the group has been deactivated. Unspent usage credits are forfeited
/// without refund. The payment and distribution histories keep every
/// record of the group.
///
/// Fails, in this order, with `ContractPaused`, `NotFound`, `Unauthorized`
/// unless `caller` is the creator or the admin, and `GroupNotDeactivated`.
///
/// `caller` must have authorized the call: see [`State::authorize`].
pub fn delete_group(state: &mut State, id: BytesN<32>, caller: Address) -> (r: Result<(), Error>)
    requires
        old(state).wf(),
        old(state)@.has_auth(caller),
    ensures
        final(state).wf(),
        performed(r, old(state)@, final(state)@, old(state)@.delete(id, caller)),
{
    if get_paused_status(state) {
        return Err(Error::ContractPaused);
    }
    let i = match find_group(state, &id) {
        Some(i) => i,
        None => {
            return Err(Error::NotFound);
        },
    };
    let is_admin = match state.admin {
        Some(admin) => admin == caller,
        None => false,
    };
    let is_creator = state.groups[i].creator == caller;
    if !is_creator && !is_admin {
        return Err(Error::Unauthorized);
    }
    if state.groups[i].is_active {
        return Err(Error::GroupNotDeactivated);
    }
    let ghost before = state@;
    state.groups.remove(i);
    state.events.push(Event::GroupDeleted(GroupDeleted { deleter: caller, id }));
    proof {
        assert(state@ =~= before.delete(id, caller)->Ok_0);
        lemma_remove_group_wf(before, id);
    }
    Ok(())
}

/// Buys `additional_usages` more usage credits for the group `id`, paid by
/// `payer` in `payment_token`.
///
/// The price is collected from `payer`, both the unspent and the lifetime
/// count of credits grow by `additional_usages`, and the purchase is
/// entered in the payment history. Anyone may pay for any group.
///
/// Fails, in this order, with `ContractPaused`, `InvalidUsageCount` if
/// `additional_usages` is zero, `NotFound`, and `UnsupportedToken`.
///
/// The lifetime count of the group must stay within `u32`.
///
/// `payer` must have authorized the call: see [`State::authorize`].
pub fn topup_subscription(
    state: &mut State,
    id: BytesN<32>,
    additional_usages: u32,
    payment_token: Address,
    payer: Address,
) -> (r: Result<(), Error>)
    requires
        old(state).wf(),
        old(state)@.has_auth(payer),
        old(state)@.topup_fits(id, additional_usages),
    ensures
        final(state).wf(),
        performed(
            r,
            old(state)@,
            final(state)@,
            old(state)@.topup(id, additional_usages, payment_token, payer),
        ),
{
    if get_paused_status(state) {
        return Err(Error::ContractPaused);
    }
    if additional_usages == 0 {
        return Err(Error::InvalidUsageCount);
    }
    let i = match find_group(state, &id) {
        Some(i) => i,
        None => {
            return Err(Error::NotFound);
        },
    };
    if !is_token_supported(state, payment_token) {
        return Err(Error::UnsupportedToken);
    }
    let ghost before = state@;
    let ghost g = before.group(id);
    assert(before.groups[i as int].wf());
    let total_cost = usage_cost(state, additional_usages);
    state.transfers.push(
        Transfer::Collect { token: payment_token, from: payer, amount: total_cost },
    );
    state.groups[i].total_usages_paid = state.groups[i].total_usages_paid + additional_usages;
    state.groups[i].usage_count = state.groups[i].usage_count + additional_usages;
    let ghost updated = GroupView {
        usage_count: (g.usage_count + additional_usages) as u32,
        total_usages_paid: (g.total_usages_paid + additional_usages) as u32,
        ..g
    };
    assert(state.groups@[i as int]@ == updated);
    assert(state@.groups =~= before.groups.update(i as int, updated));
    record_payment(state, payer, id, additional_usages, total_cost);
    proof {
        assert(state@ =~= before.topup(id, additional_usages, payment_token, payer)->Ok_0);
        lemma_put_group_wf(before, id, updated);
    }
    Ok(())
}

/// Spends one usage credit of the group `id` without distributing
/// anything.
///
/// Fails with `NotFound`, or with `NoUsagesRemaining` if no credit is left.
pub fn reduce_usage(state: &mut State, id: BytesN<32>) -> (r: Result<(), Error>)
    requires
        old(state).wf(),
    ensures
        final(state).wf(),
        performed(r, old(state)@, final(state)@, old(state)@.reduce_usage(id)),
{
    let i = match find_group(state, &id) {
        Some(i) => i,
        None => {
            return Err(Error::NotFound);
        },
    };
    if state.groups[i].usage_count == 0 {
        return Err(Error::NoUsagesRemaining);
    }
    let ghost before = state@;
    let ghost g = before.group(id);
    assert(before.groups[i as int].wf());
    state.groups[i].usage_count = state.groups[i].usage_count - 1;
    proof {
        let updated = GroupView { usage_count: (g.usage_count - 1) as u32, ..g };
        assert(state.groups@[i as int]@ == updated);
        assert(state@ =~= before.reduce_usage(id)->Ok_0);
        lemma_put_group_wf(before, id, updated);
    }
    Ok(())
}

/// Deactivates the group `id`. Members and histories stay as they are, and
/// the group can still be read.
///
/// Fails, in this order, with `ContractPaused`, `NotFound`, `Unauthorized`
/// unless `caller` created the group, and `GroupAlreadyInactive`.
///
/// `caller` must have authorized the call: see [`State::authorize`].
pub fn deactivate_group(state: &mut State, id: BytesN<32>, caller: Address) -> (r: Result<
    (),
    Error,
>)
    requires
        old(state).wf(),
        old(state)@.has_auth(caller),
    ensures
        final(state).wf(),
        performed(r, old(state)@, final(state)@, old(state)@.deactivate(id, caller)),
{
    let i = match creator_gate(state, &id, &caller) {
        Ok(i) => i,
        Err(e) => {
            return Err(e);
        },
    };
    if !state.groups[i].is_active {
        return Err(Error::GroupAlreadyInactive);
    }
    let ghost before = state@;
    let ghost updated = GroupView { is_active: false, ..before.group(id) };
    assert(before.groups[i as int].wf());
    state.groups[i].is_active = false;
    state.events.push(Event::GroupDeactivated(GroupDeactivated { creator: caller, id }));
    proof {
        assert(state.groups@[i as int]@ == updated);
        assert(state@ =~= before.deactivate(id, caller)->Ok_0);
        lemma_put_group_wf(before, id, updated);
    }
    Ok(())
}

/// Activates the group `id` again.
///
/// Fails, in this order, with `ContractPaused`, `NotFound`, `Unauthorized`
/// unless `caller` created the group, and `GroupAlreadyActive`.
///
/// `caller` must have authorized the call: see [`State::authorize`].
pub fn activate_group(state: &mut State, id: BytesN<32>, caller: Address) -> (r: Result<
    (),
    Error,
>)
    requires
        old(state).wf(),
        old(state)@.has_auth(caller),
    ensures
        final(state).wf(),
        performed(r, old(state)@, final(state)@, old(state)@.activate(id, caller)),
{
    let i = match creator_gate(state, &id, &caller) {
        Ok(i) => i,
        Err(e) => {
            return Err(e);
        },
    };
    if state.groups[i].is_active {
        return Err(Error::GroupAlreadyActive);
    }
    let ghost before = state@;
    let ghost updated = GroupView { is_active: true, ..before.group(id) };
    assert(before.groups[i as int].wf());
    state.groups[i].is_active = true;
    state.events.push(Event::GroupActivated(GroupActivated { creator: caller, id }));
    proof {
        assert(state.groups@[i as int]@ == updated);
        assert(state@ =~= before.activate(id, caller)->Ok_0);
        lemma_put_group_wf(before, id, updated);
    }
    Ok(())
}

/// Makes `admin` the admin of a contract that has none yet, and puts the
/// default usage fee and an empty list of supported tokens in place.
///
/// The first call wins: on a contract that has an admin, nothing changes.
///
/// `admin` must have authorized the call: see [`State::authorize`].
pub fn initialize_admin(state: &mut State, admin: Address)
    requires
        old(state).wf(),
        old(state)@.has_auth(admin),
    ensures
        final(state).wf(),
        final(state)@ == old(state)@.initialize_admin(admin),
{
    if state.admin.is_none() {
        state.admin = Some(admin);
        state.usage_fee = DEFAULT_USAGE_FEE;
        state.supported_tokens = Vec::new();
        assert(state@ =~= old(state)@.initialize_admin(admin));
    }
}

/// Checks that `caller` is the admin.
///
/// Fails with `Unauthorized` if it is not, or if there is no admin yet.
pub fn require_admin(state: &State, caller: &Address) -> (r: Result<(), Error>)
    ensures
        r == (if state@.is_admin(*caller) {
            Ok::<(), Error>(())
        } else {
            Err::<(), Error>(Error::Unauthorized)
        }),
{
    match state.admin {
        Some(admin) => {
            if admin != *caller {
                return Err(Error::Unauthorized);
            }
            Ok(())
        },
        None => Err(Error::Unauthorized),
    }
}

/// Runs the checks shared by the operations of the admin that pausing
/// blocks.
fn admin_gate(state: &State, admin: &Address) -> (r: Result<(), Error>)
    ensures
        match r {
            Ok(()) => state@.admin_gate(*admin) is None,
            Err(e) => state@.admin_gate(*admin) == Some(e),
        },
{
    if get_paused_status(state) {
        return Err(Error::ContractPaused);
    }
    require_admin(state, admin)
}

/// Returns the admin.
///
/// Fails with `NotFound` if there is none yet.
pub fn get_admin(state: &State) -> (r: Result<Address, Error>)
    ensures
        r == (match state@.admin {
            Some(admin) => Ok::<Address, Error>(admin),
            None => Err::<Address, Error>(Error::NotFound),
        }),
{
    match state.admin {
        Some(admin) => Ok(admin),
        None => Err(Error::NotFound),
    }
}

/// Passes the admin role from `current_admin` to `new_admin`. Pausing does
/// not block this.
///
/// Fails with `Unauthorized` unless `current_admin` is the admin.
///
/// `current_admin` must have authorized the call: see [`State::authorize`].
pub fn transfer_admin(state: &mut State, current_admin: Address, new_admin: Address) -> (r:
    Result<(), Error>)
    requires
        old(state).wf(),
        old(state)@.has_auth(current_admin),
    ensures
        final(state).wf(),
        performed(
            r,
            old(state)@,
            final(state)@,
            old(state)@.transfer_admin(current_admin, new_admin),
        ),
{
    match require_admin(state, &current_admin) {
        Err(e) => {
            return Err(e);
        },
        Ok(()) => {},
    }
    state.admin = Some(new_admin);
    state.events.push(
        Event::AdminTransferred(AdminTransferred { old_admin: current_admin, new_admin }),
    );
    assert(state@ =~= old(state)@.transfer_admin(current_admin, new_admin)->Ok_0);
    Ok(())
}

/// Pauses the contract.
///
/// Fails with `Unauthorized` unless `admin` is the admin, and with
/// `AlreadyPaused` if the contract is paused.
///
/// `admin` must have authorized the call: see [`State::authorize`].
pub fn pause(state: &mut State, admin: Address) -> (r: Result<(), Error>)
    requires
        old(state).wf(),
        old(state)@.has_auth(admin),
    ensures
        final(state).wf(),
        performed(r, old(state)@, final(state)@, old(state)@.pause(admin)),
{
    match require_admin(state, &admin) {
        Err(e) => {
            return Err(e);
        },
        Ok(()) => {},
    }
    if state.paused {
        return Err(Error::AlreadyPaused);
    }
    state.paused = true;
    state.events.push(Event::ContractPaused(ContractPaused {  }));
    assert(state@ =~= old(state)@.pause(admin)->Ok_0);
    Ok(())
}

/// Unpauses the contract.
///
/// Fails with `Unauthorized` unless `admin` is the admin, and with
/// `NotPaused` if the contract is not paused.
///
/// `admin` must have authorized the call: see [`State::authorize`].
pub fn unpause(state: &mut State, admin: Address) -> (r: Result<(), Error>)
    requires
        old(state).wf(),
        old(state)@.has_auth(admin),
    ensures
        final(state).wf(),
        performed(r, old(state)@, final(state)@, old(state)@.unpause(admin)),
{
    match require_admin(state, &admin) {
        Err(e) => {
            return Err(e);
        },
        Ok(()) => {},
    }
    if !state.paused {
        return Err(Error::NotPaused);
    }
    state.paused = false;
    state.events.push(Event::ContractUnpaused(ContractUnpaused {  }));
    assert(state@ =~= old(state)@.unpause(admin)->Ok_0);
    Ok(())
}

/// Accepts `token` for payment from now on.
///
/// Fails, in this order, with `ContractPaused`, `Unauthorized` unless
/// `admin` is the admin, and `AlreadyExists` if the token is accepted
/// already.
///
/// `admin` must have authorized the call: see [`State::authorize`].
pub fn add_supported_token(state: &mut State, token: Address, admin: Address) -> (r: Result<
    (),
    Error,
>)
    requires
        old(state).wf(),
        old(state)@.has_auth(admin),
    ensures
        final(state).wf(),
        performed(r, old(state)@, final(state)@, old(state)@.add_token(token, admin)),
{
    match admin_gate(state, &admin) {
        Err(e) => {
            return Err(e);
        },
        Ok(()) => {},
    }
    if is_token_supported(state, token) {
        return Err(Error::AlreadyExists);
    }
    state.supported_tokens.push(token);
    assert(state@ =~= old(state)@.add_token(token, admin)->Ok_0);
    Ok(())
}

/// Finds the position of `token` among the supported tokens.
fn find_token(state: &State, token: &Address) -> (r: Option<usize>)
    ensures
        match r {
            Some(k) => k < state.supported_tokens.len() && state.supported_tokens@[k as int]
                == *token,
            None => !state@.supports(*token),
        },
{
    let mut k: usize = 0;
    while k < state.supported_tokens.len()
        invariant
            k <= state.supported_tokens.len(),
            forall|j: int| 0 <= j < k ==> state.supported_tokens@[j] != *token,
        decreases state.supported_tokens.len() - k,
    {
        if state.supported_tokens[k] == *token {
            return Some(k);
        }
        k += 1;
    }
    None
}

/// Stops accepting `token` for payment.
///
/// Fails, in this order, with `ContractPaused`, `Unauthorized` unless
/// `admin` is the admin, and `NotFound` if the token is not accepted.
///
/// `admin` must have authorized the call: see [`State::authorize`].
pub fn remove_supported_token(state: &mut State, token: Address, admin: Address) -> (r: Result<
    (),
    Error,
>)
    requires
        old(state).wf(),
        old(state)@.has_auth(admin),
    ensures
        final(state).wf(),
        performed(r, old(state)@, final(state)@, old(state)@.remove_token(token, admin)),
{
    match admin_gate(state, &admin) {
        Err(e) => {
            return Err(e);
        },
        Ok(()) => {},
    }
    let k = match find_token(state, &token) {
        Some(k) => k,
        None => {
            return Err(Error::NotFound);
        },
    };
    let ghost tokens = state@.supported_tokens;
    proof {
        assert(tokens.contains(token));
        let j = tokens.index_of(token);
        assert(0 <= j < tokens.len() && tokens[j] == token);
        assert(j == k);
        assert forall|a: int, b: int|
            0 <= a < tokens.remove(k as int).len() && 0 <= b < tokens.remove(k as int).len() && a
                != b implies tokens.remove(k as int)[a] != tokens.remove(k as int)[b] by {
            let a0 = if a < k {
                a
            } else {
                a + 1
            };
            let b0 = if b < k {
                b
            } else {
                b + 1
            };
            assert(tokens.remove(k as int)[a] == tokens[a0]);
            assert(tokens.remove(k as int)[b] == tokens[b0]);
        }
    }
    state.supported_tokens.remove(k);
    assert(state@ =~= old(state)@.remove_token(token, admin)->Ok_0);
    Ok(())
}

/// Returns the tokens accepted for payment, in the order they were added.
pub fn get_supported_tokens(state: &State) -> (r: Vec<Address>)
    ensures
        r@ == state@.supported_tokens,
{
    let r = state.supported_tokens.clone();
    assert(r@ =~= state.supported_tokens@);
    r
}

/// Sets the price of one usage credit to `fee`.
///
/// Fails, in this order, with `ContractPaused`, `Unauthorized` unless
/// `admin` is the admin, and `InvalidAmount` if `fee` is zero.
///
/// `admin` must have authorized the call: see [`State::authorize`].
pub fn set_usage_fee(state: &mut State, fee: u32, admin: Address) -> (r: Result<(), Error>)
    requires
        old(state).wf(),
        old(state)@.has_auth(admin),
    ensures
        final(state).wf(),
        performed(r, old(state)@, final(state)@, old(state)@.set_fee(fee, admin)),
{
    match admin_gate(state, &admin) {
        Err(e) => {
            return Err(e);
        },
        Ok(()) => {},
    }
    if fee == 0 {
        return Err(Error::InvalidAmount);
    }
    state.usage_fee = fee;
    assert(state@ =~= old(state)@.set_fee(fee, admin)->Ok_0);
    Ok(())
}

/// Returns the price of one usage credit.
pub fn get_usage_fee(state: &State) -> (r: u32)
    ensures
        r == state@.usage_fee,
{
    state.usage_fee
}

/// Withdraws `amount` of `token` from the contract's custody to
/// `recipient`, given the `contract_balance` the contract holds of that
/// token.
///
/// Fails, in this order, with `ContractPaused`, `Unauthorized` unless
/// `admin` is the admin, `InvalidAmount` unless `amount` is positive, and
/// `InsufficientContractBalance` if `contract_balance` is below `amount`.
///
/// `admin` must have authorized the call: see [`State::authorize`].
pub fn withdraw(
    state: &mut State,
    admin: Address,
    token: Address,
    amount: i128,
    recipient: Address,
    contract_balance: i128,
) -> (r: Result<(), Error>)
    requires
        old(state).wf(),
        old(state)@.has_auth(admin),
    ensures
        final(state).wf(),
        performed(
            r,
            old(state)@,
            final(state)@,
            old(state)@.withdraw(admin, token, amount, recipient, contract_balance),
        ),
{
    match admin_gate(state, &admin) {
        Err(e) => {
            return Err(e);
        },
        Ok(()) => {},
    }
    if amount <= 0 {
        return Err(Error::InvalidAmount);
    }
    if contract_balance < amount {
        return Err(Error::InsufficientContractBalance);
    }
    state.transfers.push(Transfer::Pay { token, to: recipient, amount });
    state.events.push(Event::Withdrawal(Withdrawal { token, recipient, amount }));
    assert(state@ =~= old(state)@.withdraw(
        admin,
        token,
        amount,
        recipient,
        contract_balance,
    )->Ok_0);
    Ok(())
}

} // verus!
