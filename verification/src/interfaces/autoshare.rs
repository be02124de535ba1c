//! The interface of the contract: every entry point with its contract.

use crate::base::types::{
    group_views, Address, AutoShareDetails, BytesN, GroupMember, PaymentHistory,
};
use crate::model::is_member;
use crate::state::State;
use crate::AutoShareContract;
use vstd::prelude::*;

verus! {

/// What an implementation of the contract owes its callers. An entry point
/// that stands for an operation which can fail has the success of that
/// operation as its precondition.
pub trait AutoShareTrait {
    /// Sets the admin of a contract that has none. The first call wins.
    fn initialize_admin(state: &mut State, admin: Address)
        requires
            old(state).wf(),
            old(state)@.has_auth(admin),
        ensures
            final(state).wf(),
            final(state)@ == old(state)@.initialize_admin(admin),
    ;

    /// Says whether the contract is paused.
    fn get_paused_status(state: &State) -> (r: bool)
        ensures
            r == state@.paused,
    ;

    /// Pauses the contract. Only the admin can.
    fn pause(state: &mut State, admin: Address)
        requires
            old(state).wf(),
            old(state)@.has_auth(admin),
            old(state)@.pause(admin) is Ok,
        ensures
            final(state).wf(),
            final(state)@ == old(state)@.pause(admin)->Ok_0,
    ;

    /// Unpauses the contract. Only the admin can.
    fn unpause(state: &mut State, admin: Address)
        requires
            old(state).wf(),
            old(state)@.has_auth(admin),
            old(state)@.unpause(admin) is Ok,
        ensures
            final(state).wf(),
            final(state)@ == old(state)@.unpause(admin)->Ok_0,
    ;

    /// Creates a group, paid for by its creator.
    fn create(
        state: &mut State,
        id: BytesN<32>,
        name: String,
        creator: Address,
        usage_count: u32,
        payment_token: Address,
    )
        requires
            old(state).wf(),
            old(state)@.has_auth(creator),
            old(state)@.create(id, name@, creator, usage_count, payment_token) is Ok,
        ensures
            final(state).wf(),
            final(state)@ == old(state)@.create(
                id,
                name@,
                creator,
                usage_count,
                payment_token,
            )->Ok_0,
    ;

    /// Replaces the members of a group. Only its creator can.
    fn update_members(
        state: &mut State,
        id: BytesN<32>,
        caller: Address,
        new_members: Vec<GroupMember>,
    )
        requires
            old(state).wf(),
            old(state)@.has_auth(caller),
            old(state)@.update_members(id, caller, new_members@) is Ok,
        ensures
            final(state).wf(),
            final(state)@ == old(state)@.update_members(id, caller, new_members@)->Ok_0,
    ;

    /// Adds a member to a group. Only its creator can.
    fn add_group_member(
        state: &mut State,
        id: BytesN<32>,
        caller: Address,
        address: Address,
        percentage: u32,
    )
        requires
            old(state).wf(),
            old(state)@.has_auth(caller),
            old(state)@.add_member(id, caller, address, percentage) is Ok,
        ensures
            final(state).wf(),
            final(state)@ == old(state)@.add_member(id, caller, address, percentage)->Ok_0,
    ;

    /// Removes a member from a group. Only its creator can. What is left may
    /// hold less than one hundred percent.
    fn remove_group_member(
        state: &mut State,
        id: BytesN<32>,
        caller: Address,
        member_address: Address,
    )
        requires
            old(state).wf(),
            old(state)@.has_auth(caller),
            old(state)@.remove_member(id, caller, member_address) is Ok,
        ensures
            final(state).wf(),
            final(state)@ == old(state)@.remove_member(id, caller, member_address)->Ok_0,
    ;

    /// Deactivates a group. Only its creator can.
    fn deactivate_group(state: &mut State, id: BytesN<32>, caller: Address)
        requires
            old(state).wf(),
            old(state)@.has_auth(caller),
            old(state)@.deactivate(id, caller) is Ok,
        ensures
            final(state).wf(),
            final(state)@ == old(state)@.deactivate(id, caller)->Ok_0,
    ;

    /// Activates a group. Only its creator can.
    fn activate_group(state: &mut State, id: BytesN<32>, caller: Address)
        requires
            old(state).wf(),
            old(state)@.has_auth(caller),
            old(state)@.activate(id, caller) is Ok,
        ensures
            final(state).wf(),
            final(state)@ == old(state)@.activate(id, caller)->Ok_0,
    ;

    /// Deletes a deactivated group for good. Only its creator or the admin
    /// can.
    fn delete_group(state: &mut State, id: BytesN<32>, caller: Address)
        requires
            old(state).wf(),
            old(state)@.has_auth(caller),
            old(state)@.delete(id, caller) is Ok,
        ensures
            final(state).wf(),
            final(state)@ == old(state)@.delete(id, caller)->Ok_0,
    ;

    /// Passes the admin role on. Only the admin can.
    fn transfer_admin(state: &mut State, current_admin: Address, new_admin: Address)
        requires
            old(state).wf(),
            old(state)@.has_auth(current_admin),
            old(state)@.transfer_admin(current_admin, new_admin) is Ok,
        ensures
            final(state).wf(),
            final(state)@ == old(state)@.transfer_admin(current_admin, new_admin)->Ok_0,
    ;

    /// Withdraws funds from custody. Only the admin can.
    fn withdraw(
        state: &mut State,
        admin: Address,
        token: Address,
        amount: i128,
        recipient: Address,
        contract_balance: i128,
    )
        requires
            old(state).wf(),
            old(state)@.has_auth(admin),
            old(state)@.withdraw(admin, token, amount, recipient, contract_balance) is Ok,
        ensures
            final(state).wf(),
            final(state)@ == old(state)@.withdraw(
                admin,
                token,
                amount,
                recipient,
                contract_balance,
            )->Ok_0,
    ;

    /// Accepts a token for payment. Only the admin can.
    fn add_supported_token(state: &mut State, token: Address, admin: Address)
        requires
            old(state).wf(),
            old(state)@.has_auth(admin),
            old(state)@.add_token(token, admin) is Ok,
        ensures
            final(state).wf(),
            final(state)@ == old(state)@.add_token(token, admin)->Ok_0,
    ;

    /// Stops accepting a token for payment. Only the admin can.
    fn remove_supported_token(state: &mut State, token: Address, admin: Address)
        requires
            old(state).wf(),
            old(state)@.has_auth(admin),
            old(state)@.remove_token(token, admin) is Ok,
        ensures
            final(state).wf(),
            final(state)@ == old(state)@.remove_token(token, admin)->Ok_0,
    ;

    /// Distributes a payment among the members of a group.
    fn distribute(state: &mut State, id: BytesN<32>, token: Address, amount: i128, sender: Address)
        requires
            old(state).wf(),
            old(state)@.has_auth(sender),
            old(state)@.distribute(id, token, amount, sender) is Ok,
        ensures
            final(state).wf(),
            final(state)@ == old(state)@.distribute(id, token, amount, sender)->Ok_0,
    ;

    /// Sets the price of a usage credit. Only the admin can.
    fn set_usage_fee(state: &mut State, fee: u32, admin: Address)
        requires
            old(state).wf(),
            old(state)@.has_auth(admin),
            old(state)@.set_fee(fee, admin) is Ok,
        ensures
            final(state).wf(),
            final(state)@ == old(state)@.set_fee(fee, admin)->Ok_0,
    ;

    /// Buys more usage credits for a group.
    fn topup_subscription(
        state: &mut State,
        id: BytesN<32>,
        additional_usages: u32,
        payment_token: Address,
        payer: Address,
    )
        requires
            old(state).wf(),
            old(state)@.has_auth(payer),
            old(state)@.topup_fits(id, additional_usages),
            old(state)@.topup(id, additional_usages, payment_token, payer) is Ok,
        ensures
            final(state).wf(),
            final(state)@ == old(state)@.topup(id, additional_usages, payment_token, payer)->Ok_0,
    ;

    /// Returns the record of a group.
    fn get(state: &State, id: BytesN<32>) -> (r: AutoShareDetails)
        requires
            state.wf(),
            state@.has_group(id),
        ensures
            r@ == state@.group(id),
    ;

    /// Returns the records of all groups, in creation order.
    fn get_all_groups(state: &State) -> (r: Vec<AutoShareDetails>)
        ensures
            group_views(r@) == state@.groups,
    ;

    /// Returns the records of the groups created by `creator`, in creation
    /// order.
    fn get_groups_by_creator(state: &State, creator: Address) -> (r: Vec<AutoShareDetails>)
        ensures
            group_views(r@) == state@.groups_by_creator(creator),
    ;

    /// Says whether `address` is a member of a group.
    fn is_group_member(state: &State, id: BytesN<32>, address: Address) -> (r: bool)
        requires
            state.wf(),
            state@.has_group(id),
        ensures
            r == is_member(state@.group(id).members, address),
    ;

    /// Returns the members of a group, in list order.
    fn get_group_members(state: &State, id: BytesN<32>) -> (r: Vec<GroupMember>)
        requires
            state.wf(),
            state@.has_group(id),
        ensures
            r@ == state@.group(id).members,
    ;

    /// Says whether a group is active.
    fn is_group_active(state: &State, id: BytesN<32>) -> (r: bool)
        requires
            state.wf(),
            state@.has_group(id),
        ensures
            r == state@.group(id).is_active,
    ;

    /// Returns the admin.
    fn get_admin(state: &State) -> (r: Address)
        requires
            state@.admin is Some,
        ensures
            state@.admin == Some(r),
    ;

    /// Returns the tokens accepted for payment.
    fn get_supported_tokens(state: &State) -> (r: Vec<Address>)
        ensures
            r@ == state@.supported_tokens,
    ;

    /// Says whether a token is accepted for payment.
    fn is_token_supported(state: &State, token: Address) -> (r: bool)
        ensures
            r == state@.supports(token),
    ;

    /// Returns the price of a usage credit.
    fn get_usage_fee(state: &State) -> (r: u32)
        ensures
            r == state@.usage_fee,
    ;

    /// Returns the purchases paid by `user`, oldest first.
    fn get_user_payment_history(state: &State, user: Address) -> (r: Vec<PaymentHistory>)
        ensures
            r@ == state@.user_payments(user),
    ;

    /// Returns the purchases made for a group, oldest first.
    fn get_group_payment_history(state: &State, id: BytesN<32>) -> (r: Vec<PaymentHistory>)
        ensures
            r@ == state@.group_payments(id),
    ;

    /// Returns the unspent usage credits of a group.
    fn get_remaining_usages(state: &State, id: BytesN<32>) -> (r: u32)
        requires
            state.wf(),
            state@.has_group(id),
        ensures
            r == state@.group(id).usage_count,
    ;

    /// Returns the usage credits ever bought for a group.
    fn get_total_usages_paid(state: &State, id: BytesN<32>) -> (r: u32)
        requires
            state.wf(),
            state@.has_group(id),
        ensures
            r == state@.group(id).total_usages_paid,
    ;
}

impl AutoShareTrait for AutoShareContract {
    fn initialize_admin(state: &mut State, admin: Address) {
        AutoShareContract::initialize_admin(state, admin)
    }

    fn get_paused_status(state: &State) -> (r: bool) {
        AutoShareContract::get_paused_status(state)
    }

    fn pause(state: &mut State, admin: Address) {
        AutoShareContract::pause(state, admin)
    }

    fn unpause(state: &mut State, admin: Address) {
        AutoShareContract::unpause(state, admin)
    }

    fn create(
        state: &mut State,
        id: BytesN<32>,
        name: String,
        creator: Address,
        usage_count: u32,
        payment_token: Address,
    ) {
        AutoShareContract::create(state, id, name, creator, usage_count, payment_token)
    }

    fn update_members(
        state: &mut State,
        id: BytesN<32>,
        caller: Address,
        new_members: Vec<GroupMember>,
    ) {
        AutoShareContract::update_members(state, id, caller, new_members)
    }

    fn add_group_member(
        state: &mut State,
        id: BytesN<32>,
        caller: Address,
        address: Address,
        percentage: u32,
    ) {
        AutoShareContract::add_group_member(state, id, caller, address, percentage)
    }

    fn remove_group_member(
        state: &mut State,
        id: BytesN<32>,
        caller: Address,
        member_address: Address,
    ) {
        AutoShareContract::remove_group_member(state, id, caller, member_address)
    }

    fn deactivate_group(state: &mut State, id: BytesN<32>, caller: Address) {
        AutoShareContract::deactivate_group(state, id, caller)
    }

    fn activate_group(state: &mut State, id: BytesN<32>, caller: Address) {
        AutoShareContract::activate_group(state, id, caller)
    }

    fn delete_group(state: &mut State, id: BytesN<32>, caller: Address) {
        AutoShareContract::delete_group(state, id, caller)
    }

    fn transfer_admin(state: &mut State, current_admin: Address, new_admin: Address) {
        AutoShareContract::transfer_admin(state, current_admin, new_admin)
    }

    fn withdraw(
        state: &mut State,
        admin: Address,
        token: Address,
        amount: i128,
        recipient: Address,
        contract_balance: i128,
    ) {
        AutoShareContract::withdraw(state, admin, token, amount, recipient, contract_balance)
    }

    fn add_supported_token(state: &mut State, token: Address, admin: Address) {
        AutoShareContract::add_supported_token(state, token, admin)
    }

    fn remove_supported_token(state: &mut State, token: Address, admin: Address) {
        AutoShareContract::remove_supported_token(state, token, admin)
    }

    fn distribute(
        state: &mut State,
        id: BytesN<32>,
        token: Address,
        amount: i128,
        sender: Address,
    ) {
        AutoShareContract::distribute(state, id, token, amount, sender)
    }

    fn set_usage_fee(state: &mut State, fee: u32, admin: Address) {
        AutoShareContract::set_usage_fee(state, fee, admin)
    }

    fn topup_subscription(
        state: &mut State,
        id: BytesN<32>,
        additional_usages: u32,
        payment_token: Address,
        payer: Address,
    ) {
        AutoShareContract::topup_subscription(state, id, additional_usages, payment_token, payer)
    }

    fn get(state: &State, id: BytesN<32>) -> (r: AutoShareDetails) {
        AutoShareContract::get(state, id)
    }

    fn get_all_groups(state: &State) -> (r: Vec<AutoShareDetails>) {
        AutoShareContract::get_all_groups(state)
    }

    fn get_groups_by_creator(state: &State, creator: Address) -> (r: Vec<AutoShareDetails>) {
        AutoShareContract::get_groups_by_creator(state, creator)
    }

    fn is_group_member(state: &State, id: BytesN<32>, address: Address) -> (r: bool) {
        AutoShareContract::is_group_member(state, id, address)
    }

    fn get_group_members(state: &State, id: BytesN<32>) -> (r: Vec<GroupMember>) {
        AutoShareContract::get_group_members(state, id)
    }

    fn is_group_active(state: &State, id: BytesN<32>) -> (r: bool) {
        AutoShareContract::is_group_active(state, id)
    }

    fn get_admin(state: &State) -> (r: Address) {
        AutoShareContract::get_admin(state)
    }

    fn get_supported_tokens(state: &State) -> (r: Vec<Address>) {
        AutoShareContract::get_supported_tokens(state)
    }

    fn is_token_supported(state: &State, token: Address) -> (r: bool) {
        AutoShareContract::is_token_supported(state, token)
    }

    fn get_usage_fee(state: &State) -> (r: u32) {
        AutoShareContract::get_usage_fee(state)
    }

    fn get_user_payment_history(state: &State, user: Address) -> (r: Vec<PaymentHistory>) {
        AutoShareContract::get_user_payment_history(state, user)
    }

    fn get_group_payment_history(state: &State, id: BytesN<32>) -> (r: Vec<PaymentHistory>) {
        AutoShareContract::get_group_payment_history(state, id)
    }

    fn get_remaining_usages(state: &State, id: BytesN<32>) -> (r: u32) {
        AutoShareContract::get_remaining_usages(state, id)
    }

    fn get_total_usages_paid(state: &State, id: BytesN<32>) -> (r: u32) {
        AutoShareContract::get_total_usages_paid(state, id)
    }
}

} // verus!
