//! The contract as mathematics: what a member list is worth, how a payment
//! is split, and what each operation does to a [`StateView`].

use crate::base::errors::Error;
use crate::base::events::Event;
use crate::base::types::{
    Address, BytesN, DistributionView, GroupMember, GroupView, MemberAmount, PaymentHistory,
};
use crate::state::{StateView, Transfer, DEFAULT_USAGE_FEE};
use vstd::prelude::*;

verus! {

/// Sum of the percentages of `members`.
pub open spec fn total_percentage(members: Seq<GroupMember>) -> int
    decreases members.len(),
{
    if members.len() == 0 {
        0
    } else {
        total_percentage(members.drop_last()) + members.last().percentage
    }
}

/// No address occurs twice in `members`.
pub open spec fn distinct_members(members: Seq<GroupMember>) -> bool {
    forall|i: int, j: int|
        0 <= i < j < members.len() ==> (#[trigger] members[i]).address != (
        #[trigger] members[j]).address
}

/// `address` is one of `members`.
pub open spec fn is_member(members: Seq<GroupMember>, address: Address) -> bool {
    exists|i: int| 0 <= i < members.len() && (#[trigger] members[i]).address == address
}

/// A member list that may be installed in a group: not empty, no address
/// twice, percentages summing to exactly one hundred.
pub open spec fn valid_members(members: Seq<GroupMember>) -> bool {
    &&& members.len() > 0
    &&& distinct_members(members)
    &&& total_percentage(members) == 100
}

/// The verdict on a member list. An empty list is reported first, then a
/// repeated address, then a wrong total.
pub open spec fn validation(members: Seq<GroupMember>) -> Result<(), Error> {
    if members.len() == 0 {
        Err(Error::EmptyMembers)
    } else if !distinct_members(members) {
        Err(Error::DuplicateMember)
    } else if total_percentage(members) != 100 {
        Err(Error::InvalidTotalPercentage)
    } else {
        Ok(())
    }
}

/// The total of a prefix never exceeds the total of the whole list, and
/// grows by the percentage of each member taken in.
pub proof fn lemma_total_percentage_take(members: Seq<GroupMember>, n: int)
    requires
        0 <= n <= members.len(),
    ensures
        0 <= total_percentage(members.take(n)) <= total_percentage(members),
        n < members.len() ==> total_percentage(members.take(n + 1)) == total_percentage(
            members.take(n),
        ) + members[n].percentage,
    decreases members.len() - n,
{
    if n < members.len() {
        assert(members.take(n + 1).drop_last() =~= members.take(n));
        lemma_total_percentage_take(members, n + 1);
    } else {
        assert(members.take(n) =~= members);
        lemma_total_percentage_nonnegative(members);
    }
    lemma_total_percentage_nonnegative(members.take(n));
}

/// A total of percentages is never negative.
pub proof fn lemma_total_percentage_nonnegative(members: Seq<GroupMember>)
    ensures
        0 <= total_percentage(members),
    decreases members.len(),
{
    if members.len() > 0 {
        lemma_total_percentage_nonnegative(members.drop_last());
    }
}

/// `percentage` percent of `amount`, rounded down.
pub open spec fn percent_of(amount: int, percentage: int) -> int {
    (amount * percentage) / 100
}

/// What the first `n` members receive together when none of them is the
/// last of the list: the sum of their rounded-down percentages of `amount`.
pub open spec fn paid_before(members: Seq<GroupMember>, amount: int, n: int) -> int
    decreases n,
{
    if n <= 0 {
        0
    } else {
        paid_before(members, amount, n - 1) + percent_of(
            amount,
            members[n - 1].percentage as int,
        )
    }
}

/// The share of the member at position `i` when `amount` is distributed:
/// its rounded-down percentage, except that the last member receives
/// whatever the others left.
pub open spec fn share(members: Seq<GroupMember>, amount: int, i: int) -> int {
    if i + 1 < members.len() {
        percent_of(amount, members[i].percentage as int)
    } else {
        amount - paid_before(members, amount, i)
    }
}

/// The payouts of the first `n` members, in list order, leaving out the
/// members whose share is not positive.
pub open spec fn payouts_upto(members: Seq<GroupMember>, amount: int, n: int) -> Seq<
    MemberAmount,
>
    decreases n,
{
    if n <= 0 {
        Seq::empty()
    } else {
        let before = payouts_upto(members, amount, n - 1);
        let s = share(members, amount, n - 1);
        if s > 0 {
            before.push(MemberAmount { address: members[n - 1].address, amount: s as i128 })
        } else {
            before
        }
    }
}

/// The payouts of one distribution of `amount` among `members`.
pub open spec fn payouts(members: Seq<GroupMember>, amount: int) -> Seq<MemberAmount> {
    payouts_upto(members, amount, members.len() as int)
}

/// Sum of the amounts of `paid`.
pub open spec fn total_paid(paid: Seq<MemberAmount>) -> int
    decreases paid.len(),
{
    if paid.len() == 0 {
        0
    } else {
        total_paid(paid.drop_last()) + paid.last().amount
    }
}

/// Position of the member with `address` in `members`.
pub open spec fn member_index(members: Seq<GroupMember>, address: Address) -> int {
    choose|i: int| 0 <= i < members.len() && (#[trigger] members[i]).address == address
}

/// The transfers that pay `paid` out of custody in `token`, in order.
pub open spec fn payout_transfers(token: Address, paid: Seq<MemberAmount>) -> Seq<Transfer> {
    paid.map_values(|p: MemberAmount| Transfer::Pay { token, to: p.address, amount: p.amount })
}

/// `member` was paid in `distribution`.
pub open spec fn was_paid(distribution: DistributionView, member: Address) -> bool {
    exists|i: int|
        0 <= i < distribution.member_amounts.len() && (
        #[trigger] distribution.member_amounts[i]).address == member
}

impl GroupView {
    /// How many distributions the group has seen: the credits bought less
    /// the credits left.
    pub open spec fn distributions_applied(self) -> int {
        self.total_usages_paid - self.usage_count
    }

    /// What holds of every stored group: no more credits are left than were
    /// bought, no member occurs twice, and the members never hold more than
    /// one hundred percent together.
    pub open spec fn wf(self) -> bool {
        &&& self.usage_count <= self.total_usages_paid
        &&& distinct_members(self.members)
        &&& total_percentage(self.members) <= 100
    }
}

impl StateView {
    /// What holds of every state the contract reaches.
    pub open spec fn wf(self) -> bool {
        &&& self.usage_fee > 0
        &&& (self.paused ==> self.admin is Some)
        &&& self.supported_tokens.no_duplicates()
        &&& forall|i: int, j: int|
            0 <= i < j < self.groups.len() ==> (#[trigger] self.groups[i]).id != (
            #[trigger] self.groups[j]).id
        &&& forall|i: int| 0 <= i < self.groups.len() ==> (#[trigger] self.groups[i]).wf()
    }

    /// The state of a contract that has not been used yet.
    pub open spec fn initial() -> StateView {
        StateView {
            admin: None,
            paused: false,
            usage_fee: DEFAULT_USAGE_FEE,
            supported_tokens: Seq::empty(),
            groups: Seq::empty(),
            payments: Seq::empty(),
            distributions: Seq::empty(),
            timestamp: 0,
            transfers: Seq::empty(),
            events: Seq::empty(),
            authorized: Seq::empty(),
        }
    }

    /// The host has verified that `who` authorized the call in progress.
    pub open spec fn has_auth(self, who: Address) -> bool {
        self.authorized.contains(who)
    }

    /// A group with identifier `id` is registered.
    pub open spec fn has_group(self, id: BytesN<32>) -> bool {
        exists|i: int| 0 <= i < self.groups.len() && (#[trigger] self.groups[i]).id == id
    }

    /// Position of the group with identifier `id`.
    pub open spec fn group_index(self, id: BytesN<32>) -> int {
        choose|i: int| 0 <= i < self.groups.len() && (#[trigger] self.groups[i]).id == id
    }

    /// The group with identifier `id`.
    pub open spec fn group(self, id: BytesN<32>) -> GroupView {
        self.groups[self.group_index(id)]
    }

    /// The state with the group `id` replaced by `group`.
    pub open spec fn put_group(self, id: BytesN<32>, group: GroupView) -> StateView {
        StateView { groups: self.groups.update(self.group_index(id), group), ..self }
    }

    /// The state with `event` published.
    pub open spec fn publish(self, event: Event) -> StateView {
        StateView { events: self.events.push(event), ..self }
    }

    /// `who` is the admin.
    pub open spec fn is_admin(self, who: Address) -> bool {
        self.admin == Some(who)
    }

    /// `token` is accepted for payment.
    pub open spec fn supports(self, token: Address) -> bool {
        self.supported_tokens.contains(token)
    }

    /// Price of `usages` usage credits at the current fee.
    pub open spec fn cost(self, usages: u32) -> i128 {
        (usages as int * self.usage_fee as int) as i128
    }

    /// The state with `transfer` requested of the host.
    pub open spec fn request(self, transfer: Transfer) -> StateView {
        StateView { transfers: self.transfers.push(transfer), ..self }
    }

    /// The state with a purchase of `usages` credits of group `id` by `user`
    /// for `amount` entered in the payment history.
    pub open spec fn record_payment(
        self,
        user: Address,
        id: BytesN<32>,
        usages: u32,
        amount: i128,
    ) -> StateView {
        StateView {
            payments: self.payments.push(
                PaymentHistory {
                    user,
                    group_id: id,
                    usages_purchased: usages,
                    amount_paid: amount,
                    timestamp: self.timestamp,
                },
            ),
            ..self
        }
    }

    /// The state with a distribution entered in the distribution history.
    pub open spec fn record_distribution(
        self,
        id: BytesN<32>,
        sender: Address,
        amount: i128,
        token: Address,
        paid: Seq<MemberAmount>,
        number: u32,
    ) -> StateView {
        StateView {
            distributions: self.distributions.push(
                DistributionView {
                    group_id: id,
                    sender,
                    total_amount: amount,
                    token,
                    member_amounts: paid,
                    timestamp: self.timestamp,
                    distribution_number: number,
                },
            ),
            ..self
        }
    }
}

} // verus!
