//! What each operation of the contract does to a [`StateView`]: the state
//! it leaves on success, or the error it fails with. A failed operation
//! changes nothing.

use crate::base::errors::Error;
use crate::base::events::{
    AdminTransferred, AutoshareCreated, AutoshareUpdated, ContractPaused, ContractUnpaused,
    Distribution, Event, GroupActivated, GroupDeactivated, GroupDeleted, Withdrawal,
};
use crate::base::types::{
    Address, BytesN, DistributionView, GroupMember, GroupView, PaymentHistory,
};
use crate::model::{is_member, member_index, payout_transfers, payouts, validation, was_paid};
use crate::state::{StateView, Transfer, DEFAULT_USAGE_FEE};
use vstd::prelude::*;

verus! {

impl StateView {
    /// Creating the group `id` for `creator`, who pays for `usage_count`
    /// credits in `token`.
    pub open spec fn create(
        self,
        id: BytesN<32>,
        name: Seq<char>,
        creator: Address,
        usage_count: u32,
        token: Address,
    ) -> Result<StateView, Error> {
        if self.paused {
            Err(Error::ContractPaused)
        } else if self.has_group(id) {
            Err(Error::AlreadyExists)
        } else if usage_count == 0 {
            Err(Error::InvalidUsageCount)
        } else if !self.supports(token) {
            Err(Error::UnsupportedToken)
        } else {
            let group = GroupView {
                id,
                name,
                creator,
                usage_count,
                total_usages_paid: usage_count,
                members: Seq::empty(),
                is_active: true,
            };
            Ok(
                StateView { groups: self.groups.push(group), ..self }.request(
                    Transfer::Collect { token, from: creator, amount: self.cost(usage_count) },
                ).record_payment(creator, id, usage_count, self.cost(usage_count)).publish(
                    Event::AutoshareCreated(AutoshareCreated { creator, id }),
                ),
            )
        }
    }

    /// The checks shared by the operations that only the creator of an
    /// active or inactive group may perform: the first that fails, if any.
    pub open spec fn creator_gate(self, id: BytesN<32>, caller: Address) -> Option<Error> {
        if self.paused {
            Some(Error::ContractPaused)
        } else if !self.has_group(id) {
            Some(Error::NotFound)
        } else if self.group(id).creator != caller {
            Some(Error::Unauthorized)
        } else {
            None
        }
    }

    /// Adding `address` with `percentage` to the group `id`.
    pub open spec fn add_member(
        self,
        id: BytesN<32>,
        caller: Address,
        address: Address,
        percentage: u32,
    ) -> Result<StateView, Error> {
        if let Some(e) = self.creator_gate(id, caller) {
            Err(e)
        } else if !self.group(id).is_active {
            Err(Error::GroupInactive)
        } else if is_member(self.group(id).members, address) {
            Err(Error::AlreadyExists)
        } else {
            let members = self.group(id).members.push(GroupMember { address, percentage });
            match validation(members) {
                Err(e) => Err(e),
                Ok(()) => Ok(self.put_group(id, GroupView { members, ..self.group(id) })),
            }
        }
    }

    /// Removing `address` from the group `id`. The remaining list is not
    /// validated: it may hold less than one hundred percent.
    pub open spec fn remove_member(
        self,
        id: BytesN<32>,
        caller: Address,
        address: Address,
    ) -> Result<StateView, Error> {
        if let Some(e) = self.creator_gate(id, caller) {
            Err(e)
        } else if !self.group(id).is_active {
            Err(Error::GroupInactive)
        } else if !is_member(self.group(id).members, address) {
            Err(Error::MemberNotFound)
        } else {
            let old = self.group(id).members;
            let members = old.remove(member_index(old, address));
            Ok(
                self.put_group(id, GroupView { members, ..self.group(id) }).publish(
                    Event::AutoshareUpdated(AutoshareUpdated { updater: caller, id }),
                ),
            )
        }
    }

    /// Replacing the members of the group `id` by `members`.
    pub open spec fn update_members(
        self,
        id: BytesN<32>,
        caller: Address,
        members: Seq<GroupMember>,
    ) -> Result<StateView, Error> {
        if let Some(e) = self.creator_gate(id, caller) {
            Err(e)
        } else if !self.group(id).is_active {
            Err(Error::GroupInactive)
        } else {
            match validation(members) {
                Err(e) => Err(e),
                Ok(()) => Ok(
                    self.put_group(id, GroupView { members, ..self.group(id) }).publish(
                        Event::AutoshareUpdated(AutoshareUpdated { updater: caller, id }),
                    ),
                ),
            }
        }
    }

    /// Deactivating the group `id`.
    pub open spec fn deactivate(self, id: BytesN<32>, caller: Address) -> Result<
        StateView,
        Error,
    > {
        if let Some(e) = self.creator_gate(id, caller) {
            Err(e)
        } else if !self.group(id).is_active {
            Err(Error::GroupAlreadyInactive)
        } else {
            Ok(
                self.put_group(id, GroupView { is_active: false, ..self.group(id) }).publish(
                    Event::GroupDeactivated(GroupDeactivated { creator: caller, id }),
                ),
            )
        }
    }

    /// Activating the group `id`.
    pub open spec fn activate(self, id: BytesN<32>, caller: Address) -> Result<StateView, Error> {
        if let Some(e) = self.creator_gate(id, caller) {
            Err(e)
        } else if self.group(id).is_active {
            Err(Error::GroupAlreadyActive)
        } else {
            Ok(
                self.put_group(id, GroupView { is_active: true, ..self.group(id) }).publish(
                    Event::GroupActivated(GroupActivated { creator: caller, id }),
                ),
            )
        }
    }

    /// Deleting the group `id`. Unspent credits are forfeited; the histories
    /// keep every record of the group.
    pub open spec fn delete(self, id: BytesN<32>, caller: Address) -> Result<StateView, Error> {
        if self.paused {
            Err(Error::ContractPaused)
        } else if !self.has_group(id) {
            Err(Error::NotFound)
        } else if self.group(id).creator != caller && !self.is_admin(caller) {
            Err(Error::Unauthorized)
        } else if self.group(id).is_active {
            Err(Error::GroupNotDeactivated)
        } else {
            Ok(
                StateView { groups: self.groups.remove(self.group_index(id)), ..self }.publish(
                    Event::GroupDeleted(GroupDeleted { deleter: caller, id }),
                ),
            )
        }
    }

    /// Buying `usages` more credits for the group `id`, paid by `payer` in
    /// `token`.
    pub open spec fn topup(
        self,
        id: BytesN<32>,
        usages: u32,
        token: Address,
        payer: Address,
    ) -> Result<StateView, Error> {
        if self.paused {
            Err(Error::ContractPaused)
        } else if usages == 0 {
            Err(Error::InvalidUsageCount)
        } else if !self.has_group(id) {
            Err(Error::NotFound)
        } else if !self.supports(token) {
            Err(Error::UnsupportedToken)
        } else {
            let g = self.group(id);
            Ok(
                self.put_group(
                    id,
                    GroupView {
                        usage_count: (g.usage_count + usages) as u32,
                        total_usages_paid: (g.total_usages_paid + usages) as u32,
                        ..g
                    },
                ).request(
                    Transfer::Collect { token, from: payer, amount: self.cost(usages) },
                ).record_payment(payer, id, usages, self.cost(usages)),
            )
        }
    }

    /// Buying `usages` more credits keeps the counters of the group `id`
    /// within their range.
    pub open spec fn topup_fits(self, id: BytesN<32>, usages: u32) -> bool {
        self.has_group(id) ==> self.group(id).total_usages_paid + usages <= u32::MAX
    }

    /// Spending one credit of the group `id` without distributing anything.
    pub open spec fn reduce_usage(self, id: BytesN<32>) -> Result<StateView, Error> {
        if !self.has_group(id) {
            Err(Error::NotFound)
        } else if self.group(id).usage_count == 0 {
            Err(Error::NoUsagesRemaining)
        } else {
            let g = self.group(id);
            Ok(self.put_group(id, GroupView { usage_count: (g.usage_count - 1) as u32, ..g }))
        }
    }

    /// Distributing `amount` of `token`, paid by `sender`, among the members
    /// of the group `id`. One credit of the group is spent, whatever the
    /// amount.
    pub open spec fn distribute(
        self,
        id: BytesN<32>,
        token: Address,
        amount: i128,
        sender: Address,
    ) -> Result<StateView, Error> {
        if self.paused {
            Err(Error::ContractPaused)
        } else if amount <= 0 {
            Err(Error::InvalidAmount)
        } else if !self.supports(token) {
            Err(Error::UnsupportedToken)
        } else if !self.has_group(id) {
            Err(Error::NotFound)
        } else if !self.group(id).is_active {
            Err(Error::GroupInactive)
        } else if self.group(id).usage_count == 0 {
            Err(Error::NoUsagesRemaining)
        } else {
            let g = self.group(id);
            let paid = payouts(g.members, amount as int);
            match validation(g.members) {
                Err(e) => Err(e),
                Ok(()) => Ok(
                    StateView {
                        transfers: self.transfers.push(
                            Transfer::Collect { token, from: sender, amount },
                        ) + payout_transfers(token, paid),
                        ..self
                    }.record_distribution(
                        id,
                        sender,
                        amount,
                        token,
                        paid,
                        (g.total_usages_paid - g.usage_count) as u32,
                    ).put_group(
                        id,
                        GroupView { usage_count: (g.usage_count - 1) as u32, ..g },
                    ).publish(Event::Distribution(Distribution { id, token, sender, amount })),
                ),
            }
        }
    }

    /// Setting the admin of a contract that has none. On a contract that
    /// has an admin nothing changes.
    pub open spec fn initialize_admin(self, admin: Address) -> StateView {
        if self.admin is None {
            StateView {
                admin: Some(admin),
                usage_fee: DEFAULT_USAGE_FEE,
                supported_tokens: Seq::empty(),
                ..self
            }
        } else {
            self
        }
    }

    /// Passing the admin role from `current` to `new`.
    pub open spec fn transfer_admin(self, current: Address, new: Address) -> Result<
        StateView,
        Error,
    > {
        if !self.is_admin(current) {
            Err(Error::Unauthorized)
        } else {
            Ok(
                StateView { admin: Some(new), ..self }.publish(
                    Event::AdminTransferred(
                        AdminTransferred { old_admin: current, new_admin: new },
                    ),
                ),
            )
        }
    }

    /// Pausing the contract.
    pub open spec fn pause(self, admin: Address) -> Result<StateView, Error> {
        if !self.is_admin(admin) {
            Err(Error::Unauthorized)
        } else if self.paused {
            Err(Error::AlreadyPaused)
        } else {
            Ok(
                StateView { paused: true, ..self }.publish(
                    Event::ContractPaused(ContractPaused {  }),
                ),
            )
        }
    }

    /// Unpausing the contract.
    pub open spec fn unpause(self, admin: Address) -> Result<StateView, Error> {
        if !self.is_admin(admin) {
            Err(Error::Unauthorized)
        } else if !self.paused {
            Err(Error::NotPaused)
        } else {
            Ok(
                StateView { paused: false, ..self }.publish(
                    Event::ContractUnpaused(ContractUnpaused {  }),
                ),
            )
        }
    }

    /// The checks shared by the operations of the admin that pausing
    /// blocks: the first that fails, if any.
    pub open spec fn admin_gate(self, admin: Address) -> Option<Error> {
        if self.paused {
            Some(Error::ContractPaused)
        } else if !self.is_admin(admin) {
            Some(Error::Unauthorized)
        } else {
            None
        }
    }

    /// Accepting `token` for payment.
    pub open spec fn add_token(self, token: Address, admin: Address) -> Result<StateView, Error> {
        if let Some(e) = self.admin_gate(admin) {
            Err(e)
        } else if self.supports(token) {
            Err(Error::AlreadyExists)
        } else {
            Ok(StateView { supported_tokens: self.supported_tokens.push(token), ..self })
        }
    }

    /// No longer accepting `token` for payment.
    pub open spec fn remove_token(self, token: Address, admin: Address) -> Result<
        StateView,
        Error,
    > {
        if let Some(e) = self.admin_gate(admin) {
            Err(e)
        } else if !self.supports(token) {
            Err(Error::NotFound)
        } else {
            Ok(
                StateView {
                    supported_tokens: self.supported_tokens.remove(
                        self.supported_tokens.index_of(token),
                    ),
                    ..self
                },
            )
        }
    }

    /// Setting the price of a usage credit to `fee`.
    pub open spec fn set_fee(self, fee: u32, admin: Address) -> Result<StateView, Error> {
        if let Some(e) = self.admin_gate(admin) {
            Err(e)
        } else if fee == 0 {
            Err(Error::InvalidAmount)
        } else {
            Ok(StateView { usage_fee: fee, ..self })
        }
    }

    /// Withdrawing `amount` of `token` from custody to `recipient`, when the
    /// contract holds `balance` of that token.
    pub open spec fn withdraw(
        self,
        admin: Address,
        token: Address,
        amount: i128,
        recipient: Address,
        balance: i128,
    ) -> Result<StateView, Error> {
        if let Some(e) = self.admin_gate(admin) {
            Err(e)
        } else if amount <= 0 {
            Err(Error::InvalidAmount)
        } else if balance < amount {
            Err(Error::InsufficientContractBalance)
        } else {
            Ok(
                self.request(Transfer::Pay { token, to: recipient, amount }).publish(
                    Event::Withdrawal(Withdrawal { token, recipient, amount }),
                ),
            )
        }
    }
}

impl StateView {
    /// Looking up the group `id`.
    pub open spec fn get(self, id: BytesN<32>) -> Result<GroupView, Error> {
        if self.has_group(id) {
            Ok(self.group(id))
        } else {
            Err(Error::NotFound)
        }
    }

    /// The groups created by `creator`, in creation order.
    pub open spec fn groups_by_creator(self, creator: Address) -> Seq<GroupView> {
        self.groups.filter(|g: GroupView| g.creator == creator)
    }

    /// The purchases paid by `user`, oldest first.
    pub open spec fn user_payments(self, user: Address) -> Seq<PaymentHistory> {
        self.payments.filter(|p: PaymentHistory| p.user == user)
    }

    /// The purchases made for the group `id`, oldest first.
    pub open spec fn group_payments(self, id: BytesN<32>) -> Seq<PaymentHistory> {
        self.payments.filter(|p: PaymentHistory| p.group_id == id)
    }

    /// The distributions of the group `id`, oldest first.
    pub open spec fn group_distributions(self, id: BytesN<32>) -> Seq<DistributionView> {
        self.distributions.filter(|d: DistributionView| d.group_id == id)
    }

    /// The distributions in which `member` was paid, oldest first.
    pub open spec fn member_distributions(self, member: Address) -> Seq<DistributionView> {
        self.distributions.filter(|d: DistributionView| was_paid(d, member))
    }
}

/// An operation did what `expected` says of it: it succeeded and left the
/// state `expected` holds, or it failed with the error `expected` holds and
/// left the state as it was.
pub open spec fn performed(
    result: Result<(), Error>,
    before: StateView,
    after: StateView,
    expected: Result<StateView, Error>,
) -> bool {
    match expected {
        Ok(next) => result == Ok::<(), Error>(()) && after == next,
        Err(e) => result == Err::<(), Error>(e) && after == before,
    }
}

} // verus!
