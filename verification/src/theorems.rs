//! What holds of the contract as a whole: the invariant every operation
//! keeps, and the laws that relate the operations to one another.

use crate::base::errors::Error;
use crate::base::types::{Address, BytesN, GroupMember, GroupView};
use crate::model::{
    distinct_members, is_member, member_index, payout_transfers, payouts, total_paid,
    total_percentage, valid_members, validation,
};
use crate::payout::lemma_payouts_total;
use crate::state::{StateView, Transfer};
use vstd::prelude::*;

verus! {

/// In a well-formed state an identifier names at most one group, so the
/// position of a group is the only one that holds its identifier.
pub proof fn lemma_group_index_unique(s: StateView, id: BytesN<32>, i: int)
    requires
        s.wf(),
        0 <= i < s.groups.len(),
        s.groups[i].id == id,
    ensures
        s.has_group(id),
        s.group_index(id) == i,
        s.group(id) == s.groups[i],
{
    let j = s.group_index(id);
    assert(0 <= j < s.groups.len() && s.groups[j].id == id);
    if j < i {
        assert(s.groups[j].id != s.groups[i].id);
    } else if i < j {
        assert(s.groups[i].id != s.groups[j].id);
    }
}

/// Replacing a group by a well-formed group of the same identifier keeps
/// the state well-formed and every group where it was.
pub proof fn lemma_put_group_wf(s: StateView, id: BytesN<32>, g: GroupView)
    requires
        s.wf(),
        s.has_group(id),
        g.id == id,
        g.wf(),
    ensures
        s.put_group(id, g).wf(),
        s.put_group(id, g).has_group(id),
        s.put_group(id, g).group(id) == g,
        s.put_group(id, g).group_index(id) == s.group_index(id),
{
    let i = s.group_index(id);
    let t = s.put_group(id, g);
    assert(t.groups[i] == g);
    assert forall|a: int, b: int| 0 <= a < b < t.groups.len() implies (#[trigger] t.groups[a]).id
        != (#[trigger] t.groups[b]).id by {
        assert(t.groups[a].id == s.groups[a].id);
        assert(t.groups[b].id == s.groups[b].id);
    }
    assert forall|a: int| 0 <= a < t.groups.len() implies (#[trigger] t.groups[a]).wf() by {
        if a != i {
            assert(t.groups[a] == s.groups[a]);
        }
    }
    lemma_group_index_unique(t, id, i);
}

/// In a list without repeated addresses, the position of a member is the
/// only one that holds its address.
pub proof fn lemma_member_index_unique(members: Seq<GroupMember>, address: Address, k: int)
    requires
        distinct_members(members),
        0 <= k < members.len(),
        members[k].address == address,
    ensures
        is_member(members, address),
        member_index(members, address) == k,
{
    let j = member_index(members, address);
    assert(0 <= j < members.len() && members[j].address == address);
    if j < k {
        assert(members[j].address != members[k].address);
    } else if k < j {
        assert(members[k].address != members[j].address);
    }
}

/// Removing a member lowers the total by its percentage and repeats no
/// address.
pub proof fn lemma_remove_member(members: Seq<GroupMember>, k: int)
    requires
        0 <= k < members.len(),
    ensures
        total_percentage(members.remove(k)) == total_percentage(members)
            - members[k].percentage,
        distinct_members(members) ==> distinct_members(members.remove(k)),
    decreases members.len(),
{
    let rest = members.remove(k);
    if k == members.len() - 1 {
        assert(rest =~= members.drop_last());
    } else {
        assert(rest.drop_last() =~= members.drop_last().remove(k));
        assert(rest.last() == members.last());
        lemma_remove_member(members.drop_last(), k);
    }
    if distinct_members(members) {
        assert forall|a: int, b: int| 0 <= a < b < rest.len() implies (#[trigger] rest[a]).address
            != (#[trigger] rest[b]).address by {
            let a0 = if a < k {
                a
            } else {
                a + 1
            };
            let b0 = if b < k {
                b
            } else {
                b + 1
            };
            assert(rest[a] == members[a0]);
            assert(rest[b] == members[b0]);
        }
    }
}

/// Appending a group whose identifier is not registered keeps the state
/// well-formed, and the group can be found under its identifier.
pub proof fn lemma_push_group_wf(s: StateView, g: GroupView)
    requires
        s.wf(),
        !s.has_group(g.id),
        g.wf(),
    ensures
        (StateView { groups: s.groups.push(g), ..s }).wf(),
        (StateView { groups: s.groups.push(g), ..s }).has_group(g.id),
        (StateView { groups: s.groups.push(g), ..s }).group(g.id) == g,
{
    let t = StateView { groups: s.groups.push(g), ..s };
    let n = s.groups.len() as int;
    assert(t.groups[n] == g);
    assert forall|a: int, b: int| 0 <= a < b < t.groups.len() implies (#[trigger] t.groups[a]).id
        != (#[trigger] t.groups[b]).id by {
        assert(t.groups[a] == s.groups[a]);
        if b < n {
            assert(t.groups[b] == s.groups[b]);
        }
    }
    assert forall|a: int| 0 <= a < t.groups.len() implies (#[trigger] t.groups[a]).wf() by {
        if a < n {
            assert(t.groups[a] == s.groups[a]);
        }
    }
    lemma_group_index_unique(t, g.id, n);
}

/// Removing a group keeps the state well-formed and leaves no group under
/// the identifier removed.
pub proof fn lemma_remove_group_wf(s: StateView, id: BytesN<32>)
    requires
        s.wf(),
        s.has_group(id),
    ensures
        (StateView { groups: s.groups.remove(s.group_index(id)), ..s }).wf(),
        !(StateView { groups: s.groups.remove(s.group_index(id)), ..s }).has_group(id),
{
    let k = s.group_index(id);
    let t = StateView { groups: s.groups.remove(k), ..s };
    assert forall|a: int| 0 <= a < t.groups.len() implies (#[trigger] t.groups[a]).wf()
        && t.groups[a].id != id by {
        let a0 = if a < k {
            a
        } else {
            a + 1
        };
        assert(t.groups[a] == s.groups[a0]);
        if a0 < k {
            assert(s.groups[a0].id != s.groups[k].id);
        } else {
            assert(s.groups[k].id != s.groups[a0].id);
        }
    }
    assert forall|a: int, b: int| 0 <= a < b < t.groups.len() implies (#[trigger] t.groups[a]).id
        != (#[trigger] t.groups[b]).id by {
        let a0 = if a < k {
            a
        } else {
            a + 1
        };
        let b0 = if b < k {
            b
        } else {
            b + 1
        };
        assert(t.groups[a] == s.groups[a0]);
        assert(t.groups[b] == s.groups[b0]);
    }
}

/// A member list is accepted exactly when it is not empty, repeats no
/// address, and its percentages sum to one hundred.
pub proof fn theorem_accepted_members_are_valid(members: Seq<GroupMember>)
    ensures
        validation(members) is Ok <==> valid_members(members),
        validation(members) is Ok ==> total_percentage(members) == 100 && distinct_members(
            members,
        ),
{
}

/// A distribution pays out exactly what it takes in. When `distribute`
/// succeeds it requests one collection of `amount` from the sender and
/// then the payouts to the members; the payouts are all positive, add up
/// to exactly `amount`, and are what the history records.
pub proof fn theorem_distribute_pays_exactly(
    s: StateView,
    id: BytesN<32>,
    token: Address,
    amount: i128,
    sender: Address,
)
    requires
        s.wf(),
        s.distribute(id, token, amount, sender) is Ok,
    ensures
        ({
            let t = s.distribute(id, token, amount, sender)->Ok_0;
            let paid = payouts(s.group(id).members, amount as int);
            &&& t.transfers == s.transfers.push(Transfer::Collect { token, from: sender, amount })
                + payout_transfers(token, paid)
            &&& t.distributions == s.distributions.push(t.distributions.last())
            &&& t.distributions.last().member_amounts == paid
            &&& t.distributions.last().total_amount == amount
            &&& total_paid(paid) == amount
            &&& forall|k: int| 0 <= k < paid.len() ==> 0 < (#[trigger] paid[k]).amount <= amount
        }),
{
    let t = s.distribute(id, token, amount, sender)->Ok_0;
    let members = s.group(id).members;
    lemma_payouts_total(members, amount as int);
    assert(t.distributions.drop_last() =~= s.distributions);
}

/// A distribution spends exactly one usage credit, and none can be spent
/// that is not there. When `distribute` succeeds the group had a credit
/// left and has one less afterwards, whatever the amount; nothing else of
/// the group changes. On a group without credits `distribute` fails, with
/// `NoUsagesRemaining` once its earlier checks have passed.
pub proof fn theorem_distribute_spends_one_usage(
    s: StateView,
    id: BytesN<32>,
    token: Address,
    amount: i128,
    sender: Address,
)
    requires
        s.wf(),
    ensures
        s.distribute(id, token, amount, sender) is Ok ==> ({
            let t = s.distribute(id, token, amount, sender)->Ok_0;
            &&& t.wf()
            &&& s.group(id).usage_count > 0
            &&& t.has_group(id)
            &&& t.group(id).usage_count == s.group(id).usage_count - 1
            &&& t.group(id) == (GroupView {
                usage_count: (s.group(id).usage_count - 1) as u32,
                ..s.group(id)
            })
            &&& t.distributions.last().distribution_number == s.group(id).total_usages_paid
                - s.group(id).usage_count
        }),
        s.has_group(id) && s.group(id).usage_count == 0 ==> s.distribute(
            id,
            token,
            amount,
            sender,
        ) is Err,
        !s.paused && amount > 0 && s.supports(token) && s.has_group(id) && s.group(id).is_active
            && s.group(id).usage_count == 0 ==> s.distribute(id, token, amount, sender) == Err::<
            StateView,
            Error,
        >(Error::NoUsagesRemaining),
{
    if s.distribute(id, token, amount, sender) is Ok {
        let g = s.group(id);
        let i = s.group_index(id);
        assert(s.groups[i].wf());
        let spent = GroupView { usage_count: (g.usage_count - 1) as u32, ..g };
        lemma_put_group_wf(s, id, spent);
        let t = s.distribute(id, token, amount, sender)->Ok_0;
        assert(t.groups =~= s.put_group(id, spent).groups);
        assert(t.wf());
        lemma_group_index_unique(t, id, i);
    }
}

/// A group can be read back as it was created. When `create` succeeds, a
/// lookup of the same identifier right afterwards finds a group that holds
/// `usage_count` credits, all unspent, and the name and creator given.
pub proof fn theorem_create_then_get(
    s: StateView,
    id: BytesN<32>,
    name: Seq<char>,
    creator: Address,
    usage_count: u32,
    token: Address,
)
    requires
        s.wf(),
        s.create(id, name, creator, usage_count, token) is Ok,
    ensures
        ({
            let t = s.create(id, name, creator, usage_count, token)->Ok_0;
            &&& t.wf()
            &&& t.get(id) is Ok
            &&& t.get(id)->Ok_0 == (GroupView {
                id,
                name,
                creator,
                usage_count,
                total_usages_paid: usage_count,
                members: Seq::empty(),
                is_active: true,
            })
            &&& t.get(id)->Ok_0.usage_count == usage_count
            &&& t.get(id)->Ok_0.total_usages_paid == usage_count
        }),
{
    let g = GroupView {
        id,
        name,
        creator,
        usage_count,
        total_usages_paid: usage_count,
        members: Seq::empty(),
        is_active: true,
    };
    lemma_push_group_wf(s, g);
    let t = s.create(id, name, creator, usage_count, token)->Ok_0;
    assert(t.groups =~= s.groups.push(g));
}

/// While the contract is paused, every operation that would change its
/// records or move funds is refused with `ContractPaused`, whatever its
/// arguments; only pausing, unpausing and passing on the admin role are
/// exempt. Setting the admin changes nothing either, because a paused
/// contract has one.
pub proof fn theorem_pause_blocks_mutations(
    s: StateView,
    id: BytesN<32>,
    name: Seq<char>,
    who: Address,
    other: Address,
    token: Address,
    count: u32,
    amount: i128,
    balance: i128,
    members: Seq<GroupMember>,
)
    requires
        s.wf(),
        s.paused,
    ensures
        s.create(id, name, who, count, token) == Err::<StateView, Error>(Error::ContractPaused),
        s.add_member(id, who, other, count) == Err::<StateView, Error>(Error::ContractPaused),
        s.remove_member(id, who, other) == Err::<StateView, Error>(Error::ContractPaused),
        s.update_members(id, who, members) == Err::<StateView, Error>(Error::ContractPaused),
        s.deactivate(id, who) == Err::<StateView, Error>(Error::ContractPaused),
        s.activate(id, who) == Err::<StateView, Error>(Error::ContractPaused),
        s.delete(id, who) == Err::<StateView, Error>(Error::ContractPaused),
        s.topup(id, count, token, who) == Err::<StateView, Error>(Error::ContractPaused),
        s.distribute(id, token, amount, who) == Err::<StateView, Error>(Error::ContractPaused),
        s.add_token(token, who) == Err::<StateView, Error>(Error::ContractPaused),
        s.remove_token(token, who) == Err::<StateView, Error>(Error::ContractPaused),
        s.set_fee(count, who) == Err::<StateView, Error>(Error::ContractPaused),
        s.withdraw(who, token, amount, other, balance) == Err::<StateView, Error>(
            Error::ContractPaused,
        ),
        s.initialize_admin(who) == s,
{
}

/// Pausing a paused contract and unpausing one that is not paused fail.
/// After a successful `pause` the contract is paused and a second `pause`
/// by the admin fails with `AlreadyPaused`; after a successful `unpause` it
/// is not paused and a second `unpause` fails with `NotPaused`. On a
/// contract that is not paused, `unpause` by the admin fails with
/// `NotPaused`.
pub proof fn theorem_pause_twice_fails(s: StateView, admin: Address)
    requires
        s.wf(),
    ensures
        s.pause(admin) is Ok ==> ({
            let t = s.pause(admin)->Ok_0;
            &&& t.wf()
            &&& t.paused
            &&& t.pause(admin) == Err::<StateView, Error>(Error::AlreadyPaused)
            &&& t.unpause(admin) is Ok
        }),
        s.unpause(admin) is Ok ==> ({
            let t = s.unpause(admin)->Ok_0;
            &&& t.wf()
            &&& !t.paused
            &&& t.unpause(admin) == Err::<StateView, Error>(Error::NotPaused)
            &&& t.pause(admin) is Ok
        }),
        s.is_admin(admin) && !s.paused ==> s.unpause(admin) == Err::<StateView, Error>(
            Error::NotPaused,
        ),
        s.is_admin(admin) && s.paused ==> s.pause(admin) == Err::<StateView, Error>(
            Error::AlreadyPaused,
        ),
{
}

/// Removing a member does not validate what is left. When `remove_member`
/// succeeds, the remaining members hold what they held before, less the
/// percentage of the member removed, and a later `distribute` to the group
/// is judged on that list: it cannot succeed unless the remaining members
/// still hold exactly one hundred percent, and fails with
/// `InvalidTotalPercentage` or `EmptyMembers` otherwise once its other
/// checks have passed.
pub proof fn theorem_remove_then_distribute(
    s: StateView,
    id: BytesN<32>,
    caller: Address,
    address: Address,
    token: Address,
    amount: i128,
    sender: Address,
)
    requires
        s.wf(),
        s.remove_member(id, caller, address) is Ok,
    ensures
        ({
            let t = s.remove_member(id, caller, address)->Ok_0;
            let before = s.group(id).members;
            let after = t.group(id).members;
            let k = member_index(before, address);
            &&& t.wf()
            &&& t.has_group(id)
            &&& 0 <= k < before.len()
            &&& after == before.remove(k)
            &&& !is_member(after, address)
            &&& total_percentage(after) == total_percentage(before) - before[k].percentage
            &&& t.distribute(id, token, amount, sender) is Ok ==> total_percentage(after) == 100
            &&& (amount > 0 && t.supports(token) && t.group(id).usage_count > 0 && validation(
                after,
            ) is Err ==> t.distribute(id, token, amount, sender) == Err::<StateView, Error>(
                validation(after)->Err_0,
            ))
            &&& (amount > 0 && t.supports(token) && t.group(id).usage_count > 0
                && total_percentage(after) == 100 && after.len() > 0 ==> t.distribute(
                id,
                token,
                amount,
                sender,
            ) is Ok)
        }),
{
    let g = s.group(id);
    let i = s.group_index(id);
    assert(s.groups[i].wf());
    let k = member_index(g.members, address);
    lemma_remove_member(g.members, k);
    let updated = GroupView { members: g.members.remove(k), ..g };
    lemma_put_group_wf(s, id, updated);
    let t = s.remove_member(id, caller, address)->Ok_0;
    assert(t.groups =~= s.put_group(id, updated).groups);
    assert(t.wf());
    lemma_group_index_unique(t, id, i);
    let after = t.group(id).members;
    assert(!is_member(after, address)) by {
        if is_member(after, address) {
            let j = member_index(after, address);
            let j0 = if j < k {
                j
            } else {
                j + 1
            };
            assert(after[j] == g.members[j0]);
            if j0 < k {
                assert(g.members[j0].address != g.members[k].address);
            } else {
                assert(g.members[k].address != g.members[j0].address);
            }
        }
    }
}

/// The invariant depends only on the admin, the pause flag, the fee, the
/// supported tokens and the groups.
pub proof fn lemma_wf_frame(s: StateView, t: StateView)
    requires
        s.wf(),
        t.admin == s.admin,
        t.paused == s.paused,
        t.usage_fee == s.usage_fee,
        t.supported_tokens == s.supported_tokens,
        t.groups == s.groups,
    ensures
        t.wf(),
{
}

/// Every operation on groups keeps the invariant: from a well-formed state
/// a successful operation leads to a well-formed state. For buying more
/// credits this holds as long as the counters of the group stay within
/// their range.
pub proof fn theorem_group_operations_keep_invariant(
    s: StateView,
    id: BytesN<32>,
    name: Seq<char>,
    who: Address,
    other: Address,
    token: Address,
    count: u32,
    amount: i128,
    members: Seq<GroupMember>,
)
    requires
        s.wf(),
    ensures
        s.create(id, name, who, count, token) is Ok ==> s.create(
            id,
            name,
            who,
            count,
            token,
        )->Ok_0.wf(),
        s.add_member(id, who, other, count) is Ok ==> s.add_member(
            id,
            who,
            other,
            count,
        )->Ok_0.wf(),
        s.remove_member(id, who, other) is Ok ==> s.remove_member(id, who, other)->Ok_0.wf(),
        s.update_members(id, who, members) is Ok ==> s.update_members(
            id,
            who,
            members,
        )->Ok_0.wf(),
        s.deactivate(id, who) is Ok ==> s.deactivate(id, who)->Ok_0.wf(),
        s.activate(id, who) is Ok ==> s.activate(id, who)->Ok_0.wf(),
        s.delete(id, who) is Ok ==> s.delete(id, who)->Ok_0.wf(),
        s.topup(id, count, token, who) is Ok && s.topup_fits(id, count) ==> s.topup(
            id,
            count,
            token,
            who,
        )->Ok_0.wf(),
        s.reduce_usage(id) is Ok ==> s.reduce_usage(id)->Ok_0.wf(),
        s.distribute(id, token, amount, who) is Ok ==> s.distribute(
            id,
            token,
            amount,
            who,
        )->Ok_0.wf(),
{
    if s.create(id, name, who, count, token) is Ok {
        theorem_create_then_get(s, id, name, who, count, token);
    }
    if s.has_group(id) {
        let g = s.group(id);
        assert(s.groups[s.group_index(id)].wf());
        if s.add_member(id, who, other, count) is Ok {
            let updated = GroupView {
                members: g.members.push(GroupMember { address: other, percentage: count }),
                ..g
            };
            lemma_put_group_wf(s, id, updated);
        }
        if s.remove_member(id, who, other) is Ok {
            theorem_remove_then_distribute(s, id, who, other, token, amount, who);
        }
        if s.update_members(id, who, members) is Ok {
            let updated = GroupView { members, ..g };
            lemma_put_group_wf(s, id, updated);
            lemma_wf_frame(s.put_group(id, updated), s.update_members(id, who, members)->Ok_0);
        }
        if s.deactivate(id, who) is Ok {
            let updated = GroupView { is_active: false, ..g };
            lemma_put_group_wf(s, id, updated);
            lemma_wf_frame(s.put_group(id, updated), s.deactivate(id, who)->Ok_0);
        }
        if s.activate(id, who) is Ok {
            let updated = GroupView { is_active: true, ..g };
            lemma_put_group_wf(s, id, updated);
            lemma_wf_frame(s.put_group(id, updated), s.activate(id, who)->Ok_0);
        }
        if s.delete(id, who) is Ok {
            lemma_remove_group_wf(s, id);
            lemma_wf_frame(
                StateView { groups: s.groups.remove(s.group_index(id)), ..s },
                s.delete(id, who)->Ok_0,
            );
        }
        if s.topup(id, count, token, who) is Ok && s.topup_fits(id, count) {
            let updated = GroupView {
                usage_count: (g.usage_count + count) as u32,
                total_usages_paid: (g.total_usages_paid + count) as u32,
                ..g
            };
            lemma_put_group_wf(s, id, updated);
            lemma_wf_frame(s.put_group(id, updated), s.topup(id, count, token, who)->Ok_0);
        }
        if s.reduce_usage(id) is Ok {
            let updated = GroupView { usage_count: (g.usage_count - 1) as u32, ..g };
            lemma_put_group_wf(s, id, updated);
        }
        if s.distribute(id, token, amount, who) is Ok {
            theorem_distribute_spends_one_usage(s, id, token, amount, who);
        }
    }
}

/// Every operation of the admin keeps the invariant, and so does setting
/// the admin.
pub proof fn theorem_admin_operations_keep_invariant(
    s: StateView,
    who: Address,
    other: Address,
    token: Address,
    fee: u32,
    amount: i128,
    balance: i128,
)
    requires
        s.wf(),
    ensures
        s.initialize_admin(who).wf(),
        s.transfer_admin(who, other) is Ok ==> s.transfer_admin(who, other)->Ok_0.wf(),
        s.pause(who) is Ok ==> s.pause(who)->Ok_0.wf(),
        s.unpause(who) is Ok ==> s.unpause(who)->Ok_0.wf(),
        s.add_token(token, who) is Ok ==> s.add_token(token, who)->Ok_0.wf(),
        s.remove_token(token, who) is Ok ==> s.remove_token(token, who)->Ok_0.wf(),
        s.set_fee(fee, who) is Ok ==> s.set_fee(fee, who)->Ok_0.wf(),
        s.withdraw(who, token, amount, other, balance) is Ok ==> s.withdraw(
            who,
            token,
            amount,
            other,
            balance,
        )->Ok_0.wf(),
{
    if s.remove_token(token, who) is Ok {
        let tokens = s.supported_tokens;
        let k = tokens.index_of(token);
        let rest = tokens.remove(k);
        assert forall|a: int, b: int|
            0 <= a < rest.len() && 0 <= b < rest.len() && a != b implies rest[a] != rest[b] by {
            let a0 = if a < k {
                a
            } else {
                a + 1
            };
            let b0 = if b < k {
                b
            } else {
                b + 1
            };
            assert(rest[a] == tokens[a0]);
            assert(rest[b] == tokens[b0]);
        }
    }
}

/// The histories are never shortened or rewritten. Creating a group and
/// buying credits add one record to the end of the payment history and
/// leave the distribution history alone; a distribution adds one record to
/// the end of the distribution history, leaves the payment history alone,
/// and requests its transfers after those requested before. Deleting a
/// group, editing its members, switching it on or off, and withdrawing
/// leave both histories as they are.
pub proof fn theorem_histories_only_grow(
    s: StateView,
    id: BytesN<32>,
    name: Seq<char>,
    who: Address,
    other: Address,
    token: Address,
    count: u32,
    amount: i128,
    balance: i128,
    members: Seq<GroupMember>,
)
    requires
        s.wf(),
    ensures
        s.create(id, name, who, count, token) is Ok ==> ({
            let t = s.create(id, name, who, count, token)->Ok_0;
            t.payments.len() == s.payments.len() + 1 && t.payments.drop_last() == s.payments
                && t.distributions == s.distributions
        }),
        s.topup(id, count, token, who) is Ok ==> ({
            let t = s.topup(id, count, token, who)->Ok_0;
            t.payments.len() == s.payments.len() + 1 && t.payments.drop_last() == s.payments
                && t.distributions == s.distributions
        }),
        s.distribute(id, token, amount, who) is Ok ==> ({
            let t = s.distribute(id, token, amount, who)->Ok_0;
            t.distributions.len() == s.distributions.len() + 1 && t.distributions.drop_last()
                == s.distributions && t.payments == s.payments && s.transfers.is_prefix_of(
                t.transfers,
            )
        }),
        s.delete(id, who) is Ok ==> ({
            let t = s.delete(id, who)->Ok_0;
            t.payments == s.payments && t.distributions == s.distributions
        }),
        s.add_member(id, who, other, count) is Ok ==> ({
            let t = s.add_member(id, who, other, count)->Ok_0;
            t.payments == s.payments && t.distributions == s.distributions
        }),
        s.remove_member(id, who, other) is Ok ==> ({
            let t = s.remove_member(id, who, other)->Ok_0;
            t.payments == s.payments && t.distributions == s.distributions
        }),
        s.update_members(id, who, members) is Ok ==> ({
            let t = s.update_members(id, who, members)->Ok_0;
            t.payments == s.payments && t.distributions == s.distributions
        }),
        s.deactivate(id, who) is Ok ==> ({
            let t = s.deactivate(id, who)->Ok_0;
            t.payments == s.payments && t.distributions == s.distributions
        }),
        s.activate(id, who) is Ok ==> ({
            let t = s.activate(id, who)->Ok_0;
            t.payments == s.payments && t.distributions == s.distributions
        }),
        s.withdraw(who, token, amount, other, balance) is Ok ==> ({
            let t = s.withdraw(who, token, amount, other, balance)->Ok_0;
            t.payments == s.payments && t.distributions == s.distributions
        }),
{
    if s.create(id, name, who, count, token) is Ok {
        let t = s.create(id, name, who, count, token)->Ok_0;
        assert(t.payments.drop_last() =~= s.payments);
    }
    if s.topup(id, count, token, who) is Ok {
        let t = s.topup(id, count, token, who)->Ok_0;
        assert(t.payments.drop_last() =~= s.payments);
    }
    if s.distribute(id, token, amount, who) is Ok {
        let t = s.distribute(id, token, amount, who)->Ok_0;
        assert(t.distributions.drop_last() =~= s.distributions);
    }
}

/// Adding a member and replacing the members install none but valid
/// lists: after either has succeeded, the members of the group hold
/// exactly one hundred percent and no address occurs twice.
pub proof fn theorem_membership_edits_validate(
    s: StateView,
    id: BytesN<32>,
    caller: Address,
    address: Address,
    percentage: u32,
    members: Seq<GroupMember>,
)
    requires
        s.wf(),
    ensures
        s.add_member(id, caller, address, percentage) is Ok ==> ({
            let t = s.add_member(id, caller, address, percentage)->Ok_0;
            &&& t.has_group(id)
            &&& t.group(id).members == s.group(id).members.push(
                GroupMember { address, percentage },
            )
            &&& valid_members(t.group(id).members)
            &&& total_percentage(s.group(id).members) + percentage == 100
        }),
        s.update_members(id, caller, members) is Ok ==> ({
            let t = s.update_members(id, caller, members)->Ok_0;
            &&& t.has_group(id)
            &&& t.group(id).members == members
            &&& valid_members(members)
        }),
{
    if s.has_group(id) {
        let g = s.group(id);
        let i = s.group_index(id);
        assert(s.groups[i].wf());
        if s.add_member(id, caller, address, percentage) is Ok {
            let extended = g.members.push(GroupMember { address, percentage });
            let updated = GroupView { members: extended, ..g };
            lemma_put_group_wf(s, id, updated);
            assert(extended.drop_last() =~= g.members);
        }
        if s.update_members(id, caller, members) is Ok {
            let updated = GroupView { members, ..g };
            lemma_put_group_wf(s, id, updated);
            let t = s.update_members(id, caller, members)->Ok_0;
            lemma_wf_frame(s.put_group(id, updated), t);
            lemma_group_index_unique(t, id, i);
        }
    }
}

/// Distributions are numbered as they come. A distribution is recorded
/// under the number of distributions its group has seen before, and the
/// group has seen one more afterwards. Buying credits, editing the members
/// and switching the group on or off change nothing about that count.
pub proof fn theorem_distribution_numbering(
    s: StateView,
    id: BytesN<32>,
    token: Address,
    amount: i128,
    who: Address,
    other: Address,
    count: u32,
    members: Seq<GroupMember>,
)
    requires
        s.wf(),
        s.has_group(id),
    ensures
        s.distribute(id, token, amount, who) is Ok ==> ({
            let t = s.distribute(id, token, amount, who)->Ok_0;
            &&& t.distributions.last().group_id == id
            &&& t.distributions.last().distribution_number == s.group(id).distributions_applied()
            &&& t.group(id).distributions_applied() == s.group(id).distributions_applied() + 1
        }),
        s.topup(id, count, token, who) is Ok && s.topup_fits(id, count) ==> s.topup(
            id,
            count,
            token,
            who,
        )->Ok_0.group(id).distributions_applied() == s.group(id).distributions_applied(),
        s.update_members(id, who, members) is Ok ==> s.update_members(
            id,
            who,
            members,
        )->Ok_0.group(id).distributions_applied() == s.group(id).distributions_applied(),
        s.add_member(id, who, other, count) is Ok ==> s.add_member(
            id,
            who,
            other,
            count,
        )->Ok_0.group(id).distributions_applied() == s.group(id).distributions_applied(),
        s.remove_member(id, who, other) is Ok ==> s.remove_member(id, who, other)->Ok_0.group(
            id,
        ).distributions_applied() == s.group(id).distributions_applied(),
        s.deactivate(id, who) is Ok ==> s.deactivate(id, who)->Ok_0.group(
            id,
        ).distributions_applied() == s.group(id).distributions_applied(),
        s.activate(id, who) is Ok ==> s.activate(id, who)->Ok_0.group(
            id,
        ).distributions_applied() == s.group(id).distributions_applied(),
{
    let g = s.group(id);
    let i = s.group_index(id);
    assert(s.groups[i].wf());
    theorem_distribute_spends_one_usage(s, id, token, amount, who);
    if s.topup(id, count, token, who) is Ok && s.topup_fits(id, count) {
        let updated = GroupView {
            usage_count: (g.usage_count + count) as u32,
            total_usages_paid: (g.total_usages_paid + count) as u32,
            ..g
        };
        lemma_put_group_wf(s, id, updated);
        let t = s.topup(id, count, token, who)->Ok_0;
        lemma_wf_frame(s.put_group(id, updated), t);
        lemma_group_index_unique(t, id, i);
    }
    if s.update_members(id, who, members) is Ok {
        theorem_membership_edits_validate(s, id, who, other, count, members);
        let t = s.update_members(id, who, members)->Ok_0;
        lemma_group_index_unique(t, id, i);
    }
    if s.add_member(id, who, other, count) is Ok {
        theorem_membership_edits_validate(s, id, who, other, count, members);
        let t = s.add_member(id, who, other, count)->Ok_0;
        lemma_group_index_unique(t, id, i);
    }
    if s.remove_member(id, who, other) is Ok {
        theorem_remove_then_distribute(s, id, who, other, token, amount, who);
        let t = s.remove_member(id, who, other)->Ok_0;
        lemma_group_index_unique(t, id, i);
    }
    if s.deactivate(id, who) is Ok {
        let updated = GroupView { is_active: false, ..g };
        lemma_put_group_wf(s, id, updated);
        let t = s.deactivate(id, who)->Ok_0;
        lemma_wf_frame(s.put_group(id, updated), t);
        lemma_group_index_unique(t, id, i);
    }
    if s.activate(id, who) is Ok {
        let updated = GroupView { is_active: true, ..g };
        lemma_put_group_wf(s, id, updated);
        let t = s.activate(id, who)->Ok_0;
        lemma_wf_frame(s.put_group(id, updated), t);
        lemma_group_index_unique(t, id, i);
    }
}

} // verus!
