//! Verified bookkeeping core of the AutoShare contract: groups of
//! beneficiaries prepay for usage credits and later receive proportional
//! shares of incoming payments.
//!
//! The crate is a state machine without side effects. A [`state::State`]
//! holds every record the contract owns, the time of its host's clock, the
//! parties that authorized the call in progress, and the token transfers
//! and events the contract asks the host to carry out. The functions of
//! [`autoshare_logic`] and [`queries`] are the operations; each is proved to
//! do what [`transitions`] says of it and to keep the invariant of
//! [`model`]. [`theorems`] states what holds across operations.
//!
//! The host verifies who authorized a call and tells the state so before an
//! operation runs, performs the requested transfers together with the
//! changes to the records, and discards both when an operation fails.

pub mod autoshare_logic;
pub mod base;
pub mod interfaces;
pub mod model;
pub mod payout;
pub mod queries;
pub mod state;
pub mod theorems;
pub mod transitions;
pub mod wellformed;

use crate::base::types::{
    distribution_views, group_views, Address, AutoShareDetails, BytesN, DistributionHistory,
    GroupMember, PaymentHistory,
};
use crate::model::is_member;
use crate::state::State;
use vstd::prelude::*;

verus! {

/// The entry points of the contract. Where an operation of
/// [`autoshare_logic`] or [`queries`] reports an error, the entry point of
/// the same purpose must not be called: it has the success of the operation
/// as its precondition.
pub struct AutoShareContract;

impl AutoShareContract {
    /// Sets the admin of a contract that has none. The first call wins.
    pub fn initialize_admin(state: &mut State, admin: Address)
        requires
            old(state).wf(),
            old(state)@.has_auth(admin),
        ensures
            final(state).wf(),
            final(state)@ == old(state)@.initialize_admin(admin),
    {
        autoshare_logic::initialize_admin(state, admin)
    }

    /// Says whether the contract is paused.
    pub fn get_paused_status(state: &State) -> (r: bool)
        ensures
            r == state@.paused,
    {
        autoshare_logic::get_paused_status(state)
    }

    /// Pauses the contract. Only the admin can.
    pub fn pause(state: &mut State, admin: Address)
        requires
            old(state).wf(),
            old(state)@.has_auth(admin),
            old(state)@.pause(admin) is Ok,
        ensures
            final(state).wf(),
            final(state)@ == old(state)@.pause(admin)->Ok_0,
    {
        autoshare_logic::pause(state, admin).unwrap()
    }

    /// Unpauses the contract. Only the admin can.
    pub fn unpause(state: &mut State, admin: Address)
        requires
            old(state).wf(),
            old(state)@.has_auth(admin),
            old(state)@.unpause(admin) is Ok,
        ensures
            final(state).wf(),
            final(state)@ == old(state)@.unpause(admin)->Ok_0,
    {
        autoshare_logic::unpause(state, admin).unwrap()
    }

    /// Creates a group, paid for by its creator.
    pub fn create(
        state: &mut State,
        id: BytesN<32>,
        name: String,
        creator: Address,
        usage_count: u32,
        payment_token: Address,
    )
        requires
            old(state).wf(),
            old(state)@.has_auth(creator),
            old(state)@.create(id, name@, creator, usage_count, payment_token) is Ok,
        ensures
            final(state).wf(),
            final(state)@ == old(state)@.create(
                id,
                name@,
                creator,
                usage_count,
                payment_token,
            )->Ok_0,
    {
        autoshare_logic::create_autoshare(
            state,
            id,
            name,
            creator,
            usage_count,
            payment_token,
        ).unwrap()
    }

    /// Replaces the members of a group. Only its creator can.
    pub fn update_members(
        state: &mut State,
        id: BytesN<32>,
        caller: Address,
        new_members: Vec<GroupMember>,
    )
        requires
            old(state).wf(),
            old(state)@.has_auth(caller),
            old(state)@.update_members(id, caller, new_members@) is Ok,
        ensures
            final(state).wf(),
            final(state)@ == old(state)@.update_members(id, caller, new_members@)->Ok_0,
    {
        autoshare_logic::update_members(state, id, caller, new_members).unwrap()
    }

    /// Adds a member to a group. Only its creator can.
    pub fn add_group_member(
        state: &mut State,
        id: BytesN<32>,
        caller: Address,
        address: Address,
        percentage: u32,
    )
        requires
            old(state).wf(),
            old(state)@.has_auth(caller),
            old(state)@.add_member(id, caller, address, percentage) is Ok,
        ensures
            final(state).wf(),
            final(state)@ == old(state)@.add_member(id, caller, address, percentage)->Ok_0,
    {
        autoshare_logic::add_group_member(state, id, caller, address, percentage).unwrap()
    }

    /// Removes a member from a group. Only its creator can. What is left may
    /// hold less than one hundred percent.
    pub fn remove_group_member(
        state: &mut State,
        id: BytesN<32>,
        caller: Address,
        member_address: Address,
    )
        requires
            old(state).wf(),
            old(state)@.has_auth(caller),
            old(state)@.remove_member(id, caller, member_address) is Ok,
        ensures
            final(state).wf(),
            final(state)@ == old(state)@.remove_member(id, caller, member_address)->Ok_0,
    {
        autoshare_logic::remove_group_member(state, id, caller, member_address).unwrap()
    }

    /// Deactivates a group. Only its creator can.
    pub fn deactivate_group(state: &mut State, id: BytesN<32>, caller: Address)
        requires
            old(state).wf(),
            old(state)@.has_auth(caller),
            old(state)@.deactivate(id, caller) is Ok,
        ensures
            final(state).wf(),
            final(state)@ == old(state)@.deactivate(id, caller)->Ok_0,
    {
        autoshare_logic::deactivate_group(state, id, caller).unwrap()
    }

    /// Activates a group. Only its creator can.
    pub fn activate_group(state: &mut State, id: BytesN<32>, caller: Address)
        requires
            old(state).wf(),
            old(state)@.has_auth(caller),
            old(state)@.activate(id, caller) is Ok,
        ensures
            final(state).wf(),
            final(state)@ == old(state)@.activate(id, caller)->Ok_0,
    {
        autoshare_logic::activate_group(state, id, caller).unwrap()
    }

    /// Deletes a deactivated group for good. Only its creator or the admin
    /// can.
    pub fn delete_group(state: &mut State, id: BytesN<32>, caller: Address)
        requires
            old(state).wf(),
            old(state)@.has_auth(caller),
            old(state)@.delete(id, caller) is Ok,
        ensures
            final(state).wf(),
            final(state)@ == old(state)@.delete(id, caller)->Ok_0,
    {
        autoshare_logic::delete_group(state, id, caller).unwrap()
    }

    /// Passes the admin role on. Only the admin can.
    pub fn transfer_admin(state: &mut State, current_admin: Address, new_admin: Address)
        requires
            old(state).wf(),
            old(state)@.has_auth(current_admin),
            old(state)@.transfer_admin(current_admin, new_admin) is Ok,
        ensures
            final(state).wf(),
            final(state)@ == old(state)@.transfer_admin(current_admin, new_admin)->Ok_0,
    {
        autoshare_logic::transfer_admin(state, current_admin, new_admin).unwrap()
    }

    /// Withdraws funds from custody. Only the admin can.
    pub fn withdraw(
        state: &mut State,
        admin: Address,
        token: Address,
        amount: i128,
        recipient: Address,
        contract_balance: i128,
    )
        requires
            old(state).wf(),
            old(state)@.has_auth(admin),
            old(state)@.withdraw(admin, token, amount, recipient, contract_balance) is Ok,
        ensures
            final(state).wf(),
            final(state)@ == old(state)@.withdraw(
                admin,
                token,
                amount,
                recipient,
                contract_balance,
            )->Ok_0,
    {
        autoshare_logic::withdraw(state, admin, token, amount, recipient, contract_balance).unwrap()
    }

    /// Accepts a token for payment. Only the admin can.
    pub fn add_supported_token(state: &mut State, token: Address, admin: Address)
        requires
            old(state).wf(),
            old(state)@.has_auth(admin),
            old(state)@.add_token(token, admin) is Ok,
        ensures
            final(state).wf(),
            final(state)@ == old(state)@.add_token(token, admin)->Ok_0,
    {
        autoshare_logic::add_supported_token(state, token, admin).unwrap()
    }

    /// Stops accepting a token for payment. Only the admin can.
    pub fn remove_supported_token(state: &mut State, token: Address, admin: Address)
        requires
            old(state).wf(),
            old(state)@.has_auth(admin),
            old(state)@.remove_token(token, admin) is Ok,
        ensures
            final(state).wf(),
            final(state)@ == old(state)@.remove_token(token, admin)->Ok_0,
    {
        autoshare_logic::remove_supported_token(state, token, admin).unwrap()
    }

    /// Distributes a payment among the members of a group.
    pub fn distribute(
        state: &mut State,
        id: BytesN<32>,
        token: Address,
        amount: i128,
        sender: Address,
    )
        requires
            old(state).wf(),
            old(state)@.has_auth(sender),
            old(state)@.distribute(id, token, amount, sender) is Ok,
        ensures
            final(state).wf(),
            final(state)@ == old(state)@.distribute(id, token, amount, sender)->Ok_0,
    {
        autoshare_logic::distribute(state, id, token, amount, sender).unwrap()
    }

    /// Sets the price of a usage credit. Only the admin can.
    pub fn set_usage_fee(state: &mut State, fee: u32, admin: Address)
        requires
            old(state).wf(),
            old(state)@.has_auth(admin),
            old(state)@.set_fee(fee, admin) is Ok,
        ensures
            final(state).wf(),
            final(state)@ == old(state)@.set_fee(fee, admin)->Ok_0,
    {
        autoshare_logic::set_usage_fee(state, fee, admin).unwrap()
    }

    /// Buys more usage credits for a group.
    pub fn topup_subscription(
        state: &mut State,
        id: BytesN<32>,
        additional_usages: u32,
        payment_token: Address,
        payer: Address,
    )
        requires
            old(state).wf(),
            old(state)@.has_auth(payer),
            old(state)@.topup_fits(id, additional_usages),
            old(state)@.topup(id, additional_usages, payment_token, payer) is Ok,
        ensures
            final(state).wf(),
            final(state)@ == old(state)@.topup(id, additional_usages, payment_token, payer)->Ok_0,
    {
        autoshare_logic::topup_subscription(
            state,
            id,
            additional_usages,
            payment_token,
            payer,
        ).unwrap()
    }

    /// Returns the record of a group.
    pub fn get(state: &State, id: BytesN<32>) -> (r: AutoShareDetails)
        requires
            state.wf(),
            state@.has_group(id),
        ensures
            r@ == state@.group(id),
    {
        queries::get_autoshare(state, id).unwrap()
    }

    /// Returns the records of all groups, in creation order.
    pub fn get_all_groups(state: &State) -> (r: Vec<AutoShareDetails>)
        ensures
            group_views(r@) == state@.groups,
    {
        queries::get_all_groups(state)
    }

    /// Returns the records of the groups created by `creator`, in creation
    /// order.
    pub fn get_groups_by_creator(state: &State, creator: Address) -> (r: Vec<AutoShareDetails>)
        ensures
            group_views(r@) == state@.groups_by_creator(creator),
    {
        queries::get_groups_by_creator(state, creator)
    }

    /// Says whether `address` is a member of a group.
    pub fn is_group_member(state: &State, id: BytesN<32>, address: Address) -> (r: bool)
        requires
            state.wf(),
            state@.has_group(id),
        ensures
            r == is_member(state@.group(id).members, address),
    {
        queries::is_group_member(state, id, address).unwrap()
    }

    /// Returns the members of a group, in list order.
    pub fn get_group_members(state: &State, id: BytesN<32>) -> (r: Vec<GroupMember>)
        requires
            state.wf(),
            state@.has_group(id),
        ensures
            r@ == state@.group(id).members,
    {
        queries::get_group_members(state, id).unwrap()
    }

    /// Says whether a group is active.
    pub fn is_group_active(state: &State, id: BytesN<32>) -> (r: bool)
        requires
            state.wf(),
            state@.has_group(id),
        ensures
            r == state@.group(id).is_active,
    {
        queries::is_group_active(state, id).unwrap()
    }

    /// Returns the admin.
    pub fn get_admin(state: &State) -> (r: Address)
        requires
            state@.admin is Some,
        ensures
            state@.admin == Some(r),
    {
        autoshare_logic::get_admin(state).unwrap()
    }

    /// Returns the tokens accepted for payment.
    pub fn get_supported_tokens(state: &State) -> (r: Vec<Address>)
        ensures
            r@ == state@.supported_tokens,
    {
        autoshare_logic::get_supported_tokens(state)
    }

    /// Says whether a token is accepted for payment.
    pub fn is_token_supported(state: &State, token: Address) -> (r: bool)
        ensures
            r == state@.supports(token),
    {
        autoshare_logic::is_token_supported(state, token)
    }

    /// Returns the price of a usage credit.
    pub fn get_usage_fee(state: &State) -> (r: u32)
        ensures
            r == state@.usage_fee,
    {
        autoshare_logic::get_usage_fee(state)
    }

    /// Returns the purchases paid by `user`, oldest first.
    pub fn get_user_payment_history(state: &State, user: Address) -> (r: Vec<PaymentHistory>)
        ensures
            r@ == state@.user_payments(user),
    {
        queries::get_user_payment_history(state, user)
    }

    /// Returns the purchases made for a group, oldest first.
    pub fn get_group_payment_history(state: &State, id: BytesN<32>) -> (r: Vec<PaymentHistory>)
        ensures
            r@ == state@.group_payments(id),
    {
        queries::get_group_payment_history(state, id)
    }

    /// Returns the distributions of a group, oldest first.
    pub fn get_group_distributions(state: &State, id: BytesN<32>) -> (r: Vec<
        DistributionHistory,
    >)
        ensures
            distribution_views(r@) == state@.group_distributions(id),
    {
        queries::get_group_distributions(state, id)
    }

    /// Returns the distributions in which `member` was paid, oldest first.
    pub fn get_member_distributions(state: &State, member: Address) -> (r: Vec<
        DistributionHistory,
    >)
        ensures
            distribution_views(r@) == state@.member_distributions(member),
    {
        queries::get_member_distributions(state, member)
    }

    /// Returns the unspent usage credits of a group.
    pub fn get_remaining_usages(state: &State, id: BytesN<32>) -> (r: u32)
        requires
            state.wf(),
            state@.has_group(id),
        ensures
            r == state@.group(id).usage_count,
    {
        queries::get_remaining_usages(state, id).unwrap()
    }

    /// Returns the usage credits ever bought for a group.
    pub fn get_total_usages_paid(state: &State, id: BytesN<32>) -> (r: u32)
        requires
            state.wf(),
            state@.has_group(id),
        ensures
            r == state@.group(id).total_usages_paid,
    {
        queries::get_total_usages_paid(state, id).unwrap()
    }
}

} // verus!
